//! Unix paths as text: the component view that comparisons use, and joining.

use crate::text::{
    any_text, chars_of, has_text, join, joined, lemma_is_first_index, lemma_split_parts,
    lemma_split_push, opt_text, same_text, split, split_on, text_between, texts,
};
use vstd::prelude::*;
use vstd::string::*;

verus! {

broadcast use vstd::string::group_string_axioms;

pub open spec fn absolute(path: Seq<char>) -> bool {
    path.len() > 0 && path[0] == '/'
}

/// The part at the end of `parts` counts as a component: it is not empty, and `.` counts
/// only as the first part of a relative path.
pub open spec fn counts_as_component(parts: Seq<Seq<char>>, relative: bool) -> bool {
    parts.last().len() > 0 && (parts.last() != "."@ || (relative && parts.len() == 1))
}

pub open spec fn counted_parts(parts: Seq<Seq<char>>, relative: bool) -> Seq<Seq<char>>
    decreases parts.len(),
{
    if parts.len() == 0 {
        Seq::empty()
    } else if counts_as_component(parts, relative) {
        counted_parts(parts.drop_last(), relative).push(parts.last())
    } else {
        counted_parts(parts.drop_last(), relative)
    }
}

/// The components of a path: `/` for the root of an absolute one, then its names.
/// Repeated and trailing separators, and `.` within the path, make no component.
pub open spec fn components(path: Seq<char>) -> Seq<Seq<char>> {
    if absolute(path) {
        seq!["/"@] + counted_parts(split(path, '/'), false)
    } else {
        counted_parts(split(path, '/'), true)
    }
}

pub fn is_absolute(path: &str) -> (r: bool)
    ensures
        r == absolute(path@),
{
    path.unicode_len() > 0 && path.get_char(0) == '/'
}

pub fn components_of(path: &str) -> (r: Vec<String>)
    ensures
        texts(r@) == components(path@),
{
    let root = is_absolute(path);
    let parts = split_on(path, '/');
    let ghost all = split(path@, '/');
    let mut out: Vec<String> = Vec::new();
    let ghost mut head: Seq<Seq<char>> = Seq::empty();
    if root {
        out.push("/".to_owned());
        proof {
            head = seq!["/"@];
        }
        assert(texts(out@) =~= seq!["/"@]);
    }
    assert(texts(out@) =~= head + counted_parts(all.take(0), !root));
    let mut i: usize = 0;
    while i < parts.len()
        invariant
            i <= parts@.len(),
            texts(parts@) == all,
            texts(out@) == head + counted_parts(all.take(i as int), !root),
        decreases parts@.len() - i,
    {
        let ghost upto = all.take(i + 1);
        assert(upto.drop_last() =~= all.take(i as int));
        assert(upto.last() == parts@[i as int]@);
        let ghost before = texts(out@);
        if !parts[i].as_str().is_empty() && (!same_text(parts[i].as_str(), ".") || (!root && i
            == 0)) {
            out.push(parts[i].clone());
            assert(texts(out@) =~= before.push(upto.last()));
            assert(texts(out@) =~= head + counted_parts(upto, !root));
        }
        i += 1;
    }
    assert(all.take(all.len() as int) =~= all);
    out
}

/// The two paths name the same place, component by component.
pub open spec fn same_path(a: Seq<char>, b: Seq<char>) -> bool {
    components(a) == components(b)
}

/// The components of `base` start those of `path`.
pub open spec fn under(path: Seq<char>, base: Seq<char>) -> bool {
    components(base).is_prefix_of(components(path))
}

fn parts_start_with(parts: &Vec<String>, head: &Vec<String>) -> (r: bool)
    ensures
        r == texts(head@).is_prefix_of(texts(parts@)),
{
    if head.len() > parts.len() {
        return false;
    }
    let mut i: usize = 0;
    while i < head.len()
        invariant
            i <= head@.len() <= parts@.len(),
            forall|k: int| 0 <= k < i ==> texts(head@)[k] == texts(parts@)[k],
        decreases head@.len() - i,
    {
        if !same_text(head[i].as_str(), parts[i].as_str()) {
            assert(texts(head@)[i as int] != texts(parts@)[i as int]);
            return false;
        }
        assert(texts(head@)[i as int] == texts(parts@)[i as int]);
        i += 1;
    }
    true
}

pub fn is_under(path: &str, base: &str) -> (r: bool)
    ensures
        r == under(path@, base@),
{
    parts_start_with(&components_of(path), &components_of(base))
}

pub fn is_same_path(a: &str, b: &str) -> (r: bool)
    ensures
        r == same_path(a@, b@),
{
    let x = components_of(a);
    let y = components_of(b);
    let r = x.len() == y.len() && parts_start_with(&x, &y);
    assert(texts(x@).len() == x@.len());
    assert(texts(y@).len() == y@.len());
    assert(r ==> texts(x@) =~= texts(y@));
    r
}

/// `rel` seen from `base`: `rel` itself where it is absolute.
pub open spec fn join_path(base: Seq<char>, rel: Seq<char>) -> Seq<char> {
    if absolute(rel) || base.len() == 0 {
        rel
    } else if base.last() == '/' {
        base + rel
    } else {
        base + "/"@ + rel
    }
}

pub fn joined_path(base: &str, rel: &str) -> (r: String)
    ensures
        r@ == join_path(base@, rel@),
{
    let len: usize = base.unicode_len();
    if is_absolute(rel) || len == 0 {
        return rel.to_owned();
    }
    let mut out: String = base.to_owned();
    if base.get_char(len - 1) != '/' {
        out.append("/");
    }
    out.append(rel);
    out
}

/// The name at the end of a path, where it ends in one.
pub open spec fn file_name(path: Seq<char>) -> Option<Seq<char>> {
    let parts = components(path);
    if parts.len() == 0 || parts.last() == "/"@ || parts.last() == "."@ || parts.last() == ".."@ {
        None
    } else {
        Some(parts.last())
    }
}

pub fn file_name_of(path: &str) -> (r: Option<String>)
    ensures
        opt_text(r) == file_name(path@),
{
    let parts = components_of(path);
    let n: usize = parts.len();
    assert(texts(parts@).len() == n);
    if n == 0 {
        return None;
    }
    assert(texts(parts@).last() == parts@[n - 1]@);
    let last = parts[n - 1].as_str();
    if same_text(last, "/") || same_text(last, ".") || same_text(last, "..") {
        None
    } else {
        Some(parts[n - 1].clone())
    }
}

/// The part that ends a path, a name or `..`, where it ends in one.
pub open spec fn last_part(path: Seq<char>) -> Option<Seq<char>> {
    let parts = components(path);
    if parts.len() == 0 || parts.last() == "/"@ || parts.last() == "."@ {
        None
    } else {
        Some(parts.last())
    }
}

pub fn last_part_of(path: &str) -> (r: Option<String>)
    ensures
        opt_text(r) == last_part(path@),
{
    let parts = components_of(path);
    let n: usize = parts.len();
    assert(texts(parts@).len() == n);
    if n == 0 {
        return None;
    }
    assert(texts(parts@).last() == parts@[n - 1]@);
    let last = parts[n - 1].as_str();
    if same_text(last, "/") || same_text(last, ".") {
        None
    } else {
        Some(parts[n - 1].clone())
    }
}

/// The path goes up somewhere: one of its components is `..`.
pub open spec fn goes_up(path: Seq<char>) -> bool {
    has_text(components(path), ".."@)
}

pub fn path_goes_up(path: &str) -> (r: bool)
    ensures
        r == goes_up(path@),
{
    any_text(&components_of(path), "..")
}

/// A path lies under itself.
pub proof fn law_under_reflexive(a: Seq<char>)
    ensures
        under(a, a),
{
}

/// What lies under a place under `c` lies under `c`.
pub proof fn law_under_transitive(a: Seq<char>, b: Seq<char>, c: Seq<char>)
    requires
        under(a, b),
        under(b, c),
    ensures
        under(a, c),
{
    let (x, y, z) = (components(a), components(b), components(c));
    assert(z =~= x.take(z.len() as int)) by {
        assert forall|i: int| 0 <= i < z.len() implies z[i] == x[i] by {
            assert(z[i] == y.take(z.len() as int)[i]);
            assert(y[i] == x.take(y.len() as int)[i]);
        }
    }
}

/// A part that makes one component, wherever it stands.
pub open spec fn plain_name(name: Seq<char>) -> bool {
    name.len() > 0 && name != "."@ && !name.contains('/')
}

proof fn lemma_counted_parts(parts: Seq<Seq<char>>, relative: bool)
    ensures
        forall|i: int|
            0 <= i < counted_parts(parts, relative).len() ==> parts.contains(
                #[trigger] counted_parts(parts, relative)[i],
            ) && counted_parts(parts, relative)[i].len() > 0,
    decreases parts.len(),
{
    if parts.len() > 0 {
        let head = parts.drop_last();
        lemma_counted_parts(head, relative);
        let counted = counted_parts(parts, relative);
        assert forall|i: int| 0 <= i < counted.len() implies parts.contains(#[trigger] counted[i])
            && counted[i].len() > 0 by {
            if i < counted_parts(head, relative).len() {
                assert(counted[i] == counted_parts(head, relative)[i]);
                let k = choose|k: int| 0 <= k < head.len() && head[k] == counted[i];
                assert(parts[k] == counted[i]);
            } else {
                assert(counted[i] == parts[parts.len() - 1]);
            }
        }
    }
}

/// The part at the end of a path makes one component.
pub proof fn law_last_part_is_plain(path: Seq<char>)
    ensures
        last_part(path) matches Some(name) ==> plain_name(name),
{
    if let Some(name) = last_part(path) {
        let parts = split(path, '/');
        let counted = counted_parts(parts, !absolute(path));
        let all = components(path);
        lemma_counted_parts(parts, !absolute(path));
        lemma_split_parts(path, '/');
        if absolute(path) {
            assert(all =~= seq!["/"@] + counted);
            if counted.len() == 0 {
                assert(all.last() == "/"@);
            }
        }
        assert(counted.last() == name);
        assert(parts.contains(counted[counted.len() - 1]));
        let k = choose|k: int| 0 <= k < parts.len() && parts[k] == name;
        assert(!parts[k].contains('/'));
    }
}

/// A name joined to a path is one more component of it.
pub proof fn law_join_adds_a_component(base: Seq<char>, name: Seq<char>)
    requires
        plain_name(name),
    ensures
        components(join_path(base, name)) == components(base).push(name),
        under(join_path(base, name), base),
{
    reveal_strlit("/");
    assert(!absolute(name)) by {
        if absolute(name) {
            assert(name.contains(name[0]));
        }
    }
    let whole = join_path(base, name);
    let relative = !absolute(base);
    if base.len() == 0 {
        lemma_single_part(base);
        lemma_single_part(name);
        let one = seq![base];
        assert(one.drop_last() =~= Seq::<Seq<char>>::empty());
        assert(counted_parts(one.drop_last(), true) =~= Seq::<Seq<char>>::empty());
        assert(one.last().len() == 0);
        assert(counted_parts(one, true) =~= Seq::<Seq<char>>::empty());
        assert(seq![name].drop_last() =~= Seq::<Seq<char>>::empty());
        assert(counted_parts(seq![name], true) =~= seq![name]);
        assert(components(whole) =~= components(base).push(name));
    } else {
        assert(whole[0] == base[0]);
        if base.last() == '/' {
            let head = base.drop_last();
            let empty = Seq::<char>::empty();
            lemma_split_push(head, '/', empty);
            lemma_split_push(head, '/', name);
            assert(base =~= head + seq!['/'] + empty);
            assert(whole =~= head + seq!['/'] + name);
            let parts = split(head, '/');
            assert(parts.push(empty).drop_last() =~= parts);
            assert(parts.push(name).drop_last() =~= parts);
        } else {
            lemma_split_push(base, '/', name);
            assert(whole =~= base + seq!['/'] + name);
            assert(split(base, '/').push(name).drop_last() =~= split(base, '/'));
        }
        assert(components(whole) =~= components(base).push(name));
    }
    assert(components(base).is_prefix_of(components(base).push(name)));
}

proof fn lemma_single_part(s: Seq<char>)
    requires
        !s.contains('/'),
    ensures
        split(s, '/') == seq![s],
{
    assert forall|i: int| 0 <= i < s.len() implies s[i] != '/' by {
        assert(s.contains(s[i]));
    }
    lemma_is_first_index(s, '/', s.len() as int);
}

/// `path` without what ends it and names nothing: separators, and `.` behind a separator.
pub open spec fn strip_tail(path: Seq<char>) -> Seq<char>
    decreases path.len(),
{
    let n = path.len();
    if n > 1 && path[n - 1] == '/' {
        strip_tail(path.drop_last())
    } else if n > 1 && path[n - 1] == '.' && path[n - 2] == '/' {
        strip_tail(path.drop_last())
    } else {
        path
    }
}

/// How much of `path` stands before its last component, with the separator.
pub open spec fn head_len(path: Seq<char>) -> int
    decreases path.len(),
{
    if path.len() == 0 || path.last() == '/' {
        path.len() as int
    } else {
        head_len(path.drop_last())
    }
}

/// The path without its last component; the root and the empty path have none.
pub open spec fn parent(path: Seq<char>) -> Option<Seq<char>> {
    let t = strip_tail(path);
    if t.len() == 0 || t == "/"@ {
        None
    } else {
        Some(strip_tail(t.take(head_len(t))))
    }
}

fn strip_tail_len(chars: &Vec<char>, end: usize) -> (r: usize)
    requires
        end <= chars@.len(),
    ensures
        r <= end,
        strip_tail(chars@.take(end as int)) == chars@.take(r as int),
{
    let mut n: usize = end;
    while n > 1 && (chars[n - 1] == '/' || (chars[n - 1] == '.' && chars[n - 2] == '/'))
        invariant
            n <= end <= chars@.len(),
            strip_tail(chars@.take(end as int)) == strip_tail(chars@.take(n as int)),
        decreases n,
    {
        assert(chars@.take(n as int).drop_last() =~= chars@.take(n - 1));
        n -= 1;
    }
    n
}

pub fn parent_of(path: &str) -> (r: Option<String>)
    ensures
        opt_text(r) == parent(path@),
{
    proof {
        reveal_strlit("/");
    }
    let chars = chars_of(path);
    assert(chars@.take(chars@.len() as int) =~= chars@);
    let end = strip_tail_len(&chars, chars.len());
    let ghost t = chars@.take(end as int);
    if end == 0 {
        return None;
    }
    if end == 1 && chars[0] == '/' {
        assert(t =~= "/"@);
        return None;
    }
    assert(t != "/"@) by {
        if t == "/"@ {
            assert(t.len() == 1 && t[0] == '/');
        }
    }
    assert(t.take(end as int) =~= t);
    let mut head: usize = end;
    while head > 0 && chars[head - 1] != '/'
        invariant
            head <= end <= chars@.len(),
            t == chars@.take(end as int),
            head_len(t) == head_len(t.take(head as int)),
        decreases head,
    {
        assert(t.take(head as int).drop_last() =~= t.take(head - 1));
        head -= 1;
    }
    assert(head_len(t) == head);
    assert(t.take(head as int) =~= chars@.take(head as int));
    let keep = strip_tail_len(&chars, head);
    let r = text_between(&chars, 0, keep);
    assert(r@ =~= chars@.take(keep as int));
    Some(r)
}

/// `path` with `name` in place of its last name.
pub open spec fn with_file_name(path: Seq<char>, name: Seq<char>) -> Seq<char> {
    match (file_name(path), parent(path)) {
        (Some(_), Some(dir)) => join_path(dir, name),
        _ => join_path(path, name),
    }
}

pub fn path_with_file_name(path: &str, name: &str) -> (r: String)
    ensures
        r@ == with_file_name(path@, name@),
{
    match (file_name_of(path), parent_of(path)) {
        (Some(_), Some(dir)) => joined_path(dir.as_str(), name),
        _ => joined_path(path, name),
    }
}

/// `path` lies directly in the directory `dir`, component by component.
pub open spec fn directly_in(path: Seq<char>, dir: Seq<char>) -> bool {
    let parts = components(path);
    parts.len() > 0 && parts.last() != "/"@ && parts.drop_last() == components(dir)
}

pub fn is_directly_in(path: &str, dir: &str) -> (r: bool)
    ensures
        r == directly_in(path@, dir@),
{
    let parts = components_of(path);
    let base = components_of(dir);
    let n: usize = parts.len();
    assert(texts(parts@).len() == n);
    assert(texts(base@).len() == base@.len());
    if n == 0 {
        return false;
    }
    assert(texts(parts@).last() == parts@[n - 1]@);
    if same_text(parts[n - 1].as_str(), "/") || base.len() != n - 1 {
        return false;
    }
    let r = parts_start_with(&parts, &base);
    assert(r ==> texts(parts@).drop_last() =~= texts(base@));
    assert(texts(parts@).drop_last() == texts(base@) ==> texts(base@).is_prefix_of(texts(parts@)));
    r
}

/// The rest of `path` below `root`, its components joined; `path` itself where it does not
/// lie there.
pub open spec fn relative_to(path: Seq<char>, root: Seq<char>) -> Seq<char> {
    if under(path, root) {
        join(components(path).skip(components(root).len() as int), "/"@)
    } else {
        path
    }
}

pub fn relative_path(path: &str, root: &str) -> (r: String)
    ensures
        r@ == relative_to(path@, root@),
{
    let parts = components_of(path);
    let head = components_of(root);
    assert(texts(parts@).len() == parts@.len());
    assert(texts(head@).len() == head@.len());
    if !parts_start_with(&parts, &head) {
        return path.to_owned();
    }
    let mut rest: Vec<String> = Vec::new();
    let mut i: usize = head.len();
    let ghost below = components(path@).skip(head@.len() as int);
    while i < parts.len()
        invariant
            head@.len() <= i <= parts@.len(),
            texts(parts@) == components(path@),
            below == components(path@).skip(head@.len() as int),
            texts(rest@) == below.take(i - head@.len()),
        decreases parts@.len() - i,
    {
        let ghost before = texts(rest@);
        rest.push(parts[i].clone());
        assert(texts(rest@) =~= before.push(parts@[i as int]@));
        assert(below[i - head@.len()] == texts(parts@)[i as int]);
        i += 1;
        assert(texts(rest@) =~= below.take(i - head@.len()));
    }
    assert(texts(rest@) =~= below);
    joined(&rest, "/")
}

/// The position of the last `c` in `s`, or -1 where there is none.
pub open spec fn last_index(s: Seq<char>, c: char) -> int
    decreases s.len(),
{
    if s.len() == 0 {
        -1
    } else if s.last() == c {
        s.len() - 1
    } else {
        last_index(s.drop_last(), c)
    }
}

/// A file name without its extension.
pub open spec fn stem(name: Seq<char>) -> Seq<char> {
    if name != ".."@ && last_index(name, '.') > 0 {
        name.take(last_index(name, '.'))
    } else {
        name
    }
}

/// The extension of a file name: what stands behind its last dot, unless that is its first
/// character.
pub open spec fn extension(name: Seq<char>) -> Option<Seq<char>> {
    if name != ".."@ && last_index(name, '.') > 0 {
        Some(name.skip(last_index(name, '.') + 1))
    } else {
        None
    }
}

fn last_dot(chars: &Vec<char>) -> (r: Option<usize>)
    ensures
        match r {
            Some(at) => at < chars@.len() && last_index(chars@, '.') == at,
            None => last_index(chars@, '.') == -1,
        },
{
    let mut n: usize = chars.len();
    assert(chars@.take(n as int) =~= chars@);
    while n > 0
        invariant
            n <= chars@.len(),
            last_index(chars@, '.') == last_index(chars@.take(n as int), '.'),
        decreases n,
    {
        assert(chars@.take(n as int).drop_last() =~= chars@.take(n - 1));
        if chars[n - 1] == '.' {
            return Some(n - 1);
        }
        n -= 1;
    }
    None
}

/// The stem and the extension of a file name.
pub fn split_extension(name: &str) -> (r: (String, Option<String>))
    ensures
        r.0@ == stem(name@),
        opt_text(r.1) == extension(name@),
{
    if same_text(name, "..") {
        return (name.to_owned(), None);
    }
    let chars = chars_of(name);
    let len: usize = chars.len();
    match last_dot(&chars) {
        Some(at) => {
            if at == 0 {
                return (name.to_owned(), None);
            }
            let head = text_between(&chars, 0, at);
            let tail = text_between(&chars, at + 1, len);
            assert(head@ =~= name@.take(at as int));
            assert(tail@ =~= name@.skip(at + 1));
            (head, Some(tail))
        },
        None => (name.to_owned(), None),
    }
}

/// `path` with another extension, where it ends in a name.
pub open spec fn with_extension(path: Seq<char>, ext: Seq<char>) -> Seq<char> {
    if file_name(path) is Some {
        let t = strip_tail(path);
        t.take(head_len(t)) + stem(t.skip(head_len(t))) + "."@ + ext
    } else {
        path
    }
}

pub fn path_with_extension(path: &str, ext: &str) -> (r: String)
    ensures
        r@ == with_extension(path@, ext@),
{
    if file_name_of(path).is_none() {
        return path.to_owned();
    }
    let chars = chars_of(path);
    assert(chars@.take(chars@.len() as int) =~= chars@);
    let end = strip_tail_len(&chars, chars.len());
    let ghost t = chars@.take(end as int);
    assert(t.take(end as int) =~= t);
    let mut head: usize = end;
    while head > 0 && chars[head - 1] != '/'
        invariant
            head <= end <= chars@.len(),
            t == chars@.take(end as int),
            head_len(t) == head_len(t.take(head as int)),
        decreases head,
    {
        assert(t.take(head as int).drop_last() =~= t.take(head - 1));
        head -= 1;
    }
    let front = text_between(&chars, 0, head);
    let name = text_between(&chars, head, end);
    assert(front@ =~= t.take(head as int));
    assert(name@ =~= t.skip(head as int));
    let (kept, _) = split_extension(name.as_str());
    let mut out: String = front;
    out.append(kept.as_str());
    out.append(".");
    out.append(ext);
    out
}

/// What ends a path and names nothing makes no component.
proof fn lemma_strip_tail(path: Seq<char>)
    ensures
        components(strip_tail(path)) == components(path),
        path.len() > 0 ==> strip_tail(path).len() > 0,
    decreases path.len(),
{
    let n = path.len();
    if n > 1 && (path[n - 1] == '/' || (path[n - 1] == '.' && path[n - 2] == '/')) {
        let shorter = path.drop_last();
        lemma_strip_tail(shorter);
        let empty = Seq::<char>::empty();
        if path[n - 1] == '/' {
            lemma_split_push(shorter, '/', empty);
            assert(path =~= shorter + seq!['/'] + empty);
            assert(split(shorter, '/').push(empty).drop_last() =~= split(shorter, '/'));
        } else {
            reveal_strlit(".");
            let head = shorter.drop_last();
            let dot = seq!['.'];
            assert(dot =~= "."@);
            lemma_split_push(head, '/', dot);
            lemma_split_push(head, '/', empty);
            assert(path =~= head + seq!['/'] + dot);
            assert(shorter =~= head + seq!['/'] + empty);
            assert(split(head, '/').push(dot).drop_last() =~= split(head, '/'));
            assert(split(head, '/').push(empty).drop_last() =~= split(head, '/'));
            lemma_split_nonempty(head);
        }
        assert(components(shorter) == components(path));
    }
}

proof fn lemma_split_nonempty(s: Seq<char>)
    ensures
        split(s, '/').len() > 0,
{
}

proof fn lemma_head_len(base: Seq<char>, name: Seq<char>)
    requires
        !name.contains('/'),
        base.len() == 0 || base.last() == '/',
    ensures
        head_len(base + name) == base.len(),
    decreases name.len(),
{
    if name.len() == 0 {
        assert(base + name =~= base);
    } else {
        assert(name.contains(name[name.len() - 1]));
        assert((base + name).last() == name.last());
        assert((base + name).drop_last() =~= base + name.drop_last());
        assert(!name.drop_last().contains('/')) by {
            if name.drop_last().contains('/') {
                let k = choose|k: int| 0 <= k < name.drop_last().len() && name.drop_last()[k] == '/';
                assert(name[k] == '/');
            }
        }
        lemma_head_len(base, name.drop_last());
    }
}

/// The directory of a name in a directory is that directory, component by component.
pub proof fn law_parent_undoes_join(base: Seq<char>, name: Seq<char>)
    requires
        plain_name(name),
    ensures
        parent(join_path(base, name)) is Some,
        components(parent(join_path(base, name))->0) == components(base),
{
    reveal_strlit("/");
    reveal_strlit(".");
    assert(!absolute(name)) by {
        if absolute(name) {
            assert(name.contains(name[0]));
        }
    }
    let whole = join_path(base, name);
    let head = if base.len() == 0 || base.last() == '/' {
        base
    } else {
        base + "/"@
    };
    assert(whole =~= head + name);
    assert(name.contains(name[name.len() - 1]));
    assert(whole.last() == name.last());
    assert(strip_tail(whole) == whole) by {
        let n = whole.len();
        if n > 1 && whole[n - 1] == '.' && whole[n - 2] == '/' {
            if name.len() > 1 {
                assert(name.contains(name[name.len() - 2]));
                assert(whole[n - 2] == name[name.len() - 2]);
            } else {
                assert(name =~= "."@);
            }
        }
    }
    assert(whole != "/"@) by {
        if whole == "/"@ {
            assert(whole.last() == '/');
        }
    }
    lemma_head_len(head, name);
    assert(whole.take(head.len() as int) =~= head);
    lemma_strip_tail(head);
    if head != base {
        let empty = Seq::<char>::empty();
        lemma_split_push(base, '/', empty);
        assert(head =~= base + seq!['/'] + empty);
        assert(split(base, '/').push(empty).drop_last() =~= split(base, '/'));
        assert(head[0] == base[0]);
        assert(components(head) == components(base));
    }
}

proof fn lemma_stripped(path: Seq<char>)
    ensures
        ({
            let t = strip_tail(path);
            let n = t.len();
            n > 1 ==> t[n - 1] != '/' && !(t[n - 1] == '.' && t[n - 2] == '/')
        }),
    decreases path.len(),
{
    let n = path.len();
    if n > 1 && (path[n - 1] == '/' || (path[n - 1] == '.' && path[n - 2] == '/')) {
        lemma_stripped(path.drop_last());
    }
}

proof fn lemma_head(path: Seq<char>)
    ensures
        0 <= head_len(path) <= path.len(),
        head_len(path) > 0 ==> path[head_len(path) - 1] == '/',
        !path.skip(head_len(path)).contains('/'),
    decreases path.len(),
{
    if path.len() > 0 && path.last() != '/' {
        let init = path.drop_last();
        lemma_head(init);
        let h = head_len(path);
        if path.skip(h).contains('/') {
            let k = path.skip(h).index_of('/');
            assert(path[h + k] == '/');
            assert(init.skip(h)[k] == '/');
            assert(init.skip(h).contains('/'));
        }
    }
}

/// The directory of a path has its components without the last.
pub proof fn law_parent_drops_a_component(path: Seq<char>)
    requires
        parent(path) is Some,
    ensures
        components(path).len() > 0,
        components(parent(path)->0) == components(path).drop_last(),
{
    reveal_strlit("/");
    reveal_strlit(".");
    let t = strip_tail(path);
    lemma_strip_tail(path);
    lemma_stripped(path);
    lemma_head(t);
    let h = head_len(t);
    let (head, name) = (t.take(h), t.skip(h));
    assert(t =~= head + name);
    assert(name.len() > 0) by {
        if name.len() == 0 {
            assert(t[t.len() - 1] == '/');
            assert(t =~= "/"@);
        }
    }
    lemma_strip_tail(head);
    if name == "."@ {
        assert(h == 0) by {
            if h > 0 {
                assert(t[t.len() - 2] == '/');
                assert(t[t.len() - 1] == '.');
            }
        }
        assert(head =~= Seq::<char>::empty());
        assert(t =~= name);
        lemma_single_part(name);
        lemma_single_part(head);
        assert(seq![name].drop_last() =~= Seq::<Seq<char>>::empty());
        assert(counted_parts(Seq::<Seq<char>>::empty(), true) =~= Seq::<Seq<char>>::empty());
        assert(counted_parts(seq![name], true) =~= seq![name]);
        assert(seq![head].drop_last() =~= Seq::<Seq<char>>::empty());
        assert(seq![head].last().len() == 0);
        assert(counted_parts(seq![head], true) =~= Seq::<Seq<char>>::empty());
        assert(components(head) =~= Seq::<Seq<char>>::empty());
        assert(components(t) =~= seq![name]);
        assert(components(t).drop_last() =~= components(head));
    } else {
        assert(t =~= join_path(head, name)) by {
            assert(!absolute(name)) by {
                if absolute(name) {
                    assert(name.contains(name[0]));
                }
            }
        }
        law_join_adds_a_component(head, name);
        assert(components(head).push(name).drop_last() =~= components(head));
    }
}

/// The path that parts make, one below the other.
pub open spec fn path_from(parts: Seq<Seq<char>>) -> Seq<char>
    decreases parts.len(),
{
    if parts.len() == 0 {
        ""@
    } else {
        join_path(path_from(parts.drop_last()), parts.last())
    }
}

pub fn path_of_parts(parts: &Vec<String>) -> (r: String)
    ensures
        r@ == path_from(texts(parts@)),
{
    let ghost all = texts(parts@);
    let mut out: String = "".to_owned();
    let mut i: usize = 0;
    assert(out@ =~= path_from(all.take(0)));
    while i < parts.len()
        invariant
            i <= parts@.len(),
            all == texts(parts@),
            out@ == path_from(all.take(i as int)),
        decreases parts@.len() - i,
    {
        assert(all.take(i + 1).drop_last() =~= all.take(i as int));
        assert(all.take(i + 1).last() == parts@[i as int]@);
        out = joined_path(out.as_str(), parts[i].as_str());
        i += 1;
    }
    assert(all.take(all.len() as int) =~= all);
    out
}

/// The parts of an absolute path: the root, and names below it.
pub open spec fn rooted(parts: Seq<Seq<char>>) -> bool {
    parts.len() > 0 && parts[0] == "/"@ && forall|i: int|
        0 < i < parts.len() ==> plain_name(#[trigger] parts[i])
}

/// The components of an absolute path are the root and names.
pub proof fn law_absolute_paths_are_rooted(path: Seq<char>)
    requires
        absolute(path),
    ensures
        rooted(components(path)),
{
    let parts = split(path, '/');
    let counted = counted_parts(parts, false);
    lemma_counted_parts(parts, false);
    lemma_no_dots(parts);
    lemma_split_parts(path, '/');
    assert forall|i: int| 0 < i < components(path).len() implies plain_name(
        #[trigger] components(path)[i],
    ) by {
        let name = counted[i - 1];
        assert(components(path)[i] == name);
        assert(parts.contains(name));
        let k = choose|k: int| 0 <= k < parts.len() && parts[k] == name;
        assert(!parts[k].contains('/'));
    }
}

proof fn lemma_no_dots(parts: Seq<Seq<char>>)
    ensures
        forall|i: int|
            0 <= i < counted_parts(parts, false).len() ==> #[trigger] counted_parts(parts, false)[i]
                != "."@,
    decreases parts.len(),
{
    if parts.len() > 0 {
        let init = parts.drop_last();
        lemma_no_dots(init);
        let counted = counted_parts(parts, false);
        assert forall|i: int| 0 <= i < counted.len() implies #[trigger] counted[i] != "."@ by {
            if i < counted_parts(init, false).len() {
                assert(counted[i] == counted_parts(init, false)[i]);
            }
        }
    }
}

/// A path that was made from the parts of an absolute path has those parts.
pub proof fn law_parts_make_their_path(parts: Seq<Seq<char>>)
    requires
        rooted(parts),
    ensures
        components(path_from(parts)) == parts,
        absolute(path_from(parts)),
    decreases parts.len(),
{
    reveal_strlit("/");
    let init = parts.drop_last();
    if parts.len() == 1 {
        assert(init =~= Seq::<Seq<char>>::empty());
        let root = path_from(parts);
        assert(root =~= "/"@);
        let empty = Seq::<char>::empty();
        lemma_single_part(empty);
        lemma_split_push(empty, '/', empty);
        assert(root =~= empty + seq!['/'] + empty);
        let two = seq![empty].push(empty);
        assert(split(root, '/') =~= two);
        assert(two.drop_last() =~= seq![empty]);
        assert(seq![empty].drop_last() =~= Seq::<Seq<char>>::empty());
        assert(counted_parts(Seq::<Seq<char>>::empty(), false) =~= Seq::<Seq<char>>::empty());
        assert(seq![empty].last().len() == 0);
        assert(counted_parts(seq![empty], false) =~= Seq::<Seq<char>>::empty());
        assert(two.last().len() == 0);
        assert(counted_parts(two, false) =~= Seq::<Seq<char>>::empty());
        assert(components(root) =~= parts);
    } else {
        assert forall|i: int| 0 < i < init.len() implies plain_name(#[trigger] init[i]) by {
            assert(init[i] == parts[i]);
        }
        law_parts_make_their_path(init);
        let name = parts[parts.len() - 1];
        assert(plain_name(name));
        law_join_adds_a_component(path_from(init), name);
        assert(init.push(name) =~= parts);
        assert(!absolute(name)) by {
            if absolute(name) {
                assert(name.contains(name[0]));
            }
        }
    }
}

} // verus!
