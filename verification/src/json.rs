//! JSON strings and numbers inside a larger text, and how to read them back.

use crate::numbers::{decimal, hex_digit, lemma_decimal_injective, lemma_decimal_len};
use crate::text::{expand, lemma_expand_concat};
use vstd::prelude::*;
use vstd::string::*;

verus! {

broadcast use vstd::string::group_string_axioms;

/// How a character stands inside a JSON string.
pub open spec fn json_char(c: char) -> Seq<char> {
    if c == '"' {
        seq!['\\', '"']
    } else if c == '\\' {
        seq!['\\', '\\']
    } else if c as int == 0x8 {
        seq!['\\', 'b']
    } else if c == '\t' {
        seq!['\\', 't']
    } else if c == '\n' {
        seq!['\\', 'n']
    } else if c as int == 0xc {
        seq!['\\', 'f']
    } else if c == '\r' {
        seq!['\\', 'r']
    } else if (c as int) < 0x20 {
        seq!['\\', 'u', '0', '0', hex_digit(c as int / 16), hex_digit(c as int % 16)]
    } else {
        seq![c]
    }
}

/// The characters of `s` as they stand between the quotes of a JSON string.
pub open spec fn json_contents(s: Seq<char>) -> Seq<char> {
    expand(s, |c: char| json_char(c))
}

/// `s` as a JSON string.
pub open spec fn json_string(s: Seq<char>) -> Seq<char> {
    seq!['"'] + json_contents(s) + seq!['"']
}

/// `serde_json::to_string` on a string: quotes around it, a backslash before quotes and
/// backslashes, the short escapes of `\b`, `\t`, `\n`, `\f` and `\r`, and `\u00` with two
/// lower-case digits for the other characters below space. Writing to memory never fails,
/// so there is no error to hand on.
#[verifier::external_body]
pub(crate) fn json_string_text(s: &str) -> (r: String)
    ensures
        r@ == json_string(s@),
{
    serde_json::to_string(s).unwrap_or_default()
}

/// `true` or `false`.
pub open spec fn json_bool(b: bool) -> Seq<char> {
    if b {
        "true"@
    } else {
        "false"@
    }
}

pub fn json_bool_text(b: bool) -> (r: &'static str)
    ensures
        r@ == json_bool(b),
{
    if b {
        "true"
    } else {
        "false"
    }
}

proof fn lemma_contents_front(s: Seq<char>)
    requires
        s.len() > 0,
    ensures
        json_contents(s) == json_char(s[0]) + json_contents(s.skip(1)),
{
    let f = |c: char| json_char(c);
    assert(s =~= seq![s[0]] + s.skip(1));
    lemma_expand_concat(seq![s[0]], s.skip(1), f);
    assert(seq![s[0]].drop_last() =~= Seq::<char>::empty());
    assert(expand(seq![s[0]], f) =~= json_char(s[0])) by {
        assert(expand(Seq::<char>::empty(), f) =~= Seq::<char>::empty());
    }
}

/// What the first characters of an escaped character say of it.
proof fn lemma_json_char_prefix_free(a: char, b: char, x: Seq<char>, y: Seq<char>)
    requires
        json_char(a) + x == json_char(b) + y,
    ensures
        a == b,
        x == y,
{
    let (p, q) = (json_char(a), json_char(b));
    let (l, r) = (p + x, q + y);
    assert(l[0] == p[0] && r[0] == q[0]);
    if p.len() > 1 {
        assert(l[1] == p[1]);
        assert(q.len() > 1);
        assert(r[1] == q[1]);
    }
    if p.len() == 6 {
        assert(l[4] == p[4] && l[5] == p[5]);
        assert(r[4] == q[4] && r[5] == q[5]);
        assert(a as int == (a as int / 16) * 16 + a as int % 16);
        assert(b as int == (b as int / 16) * 16 + b as int % 16);
        assert(a as int / 16 == b as int / 16);
        assert(a as int % 16 == b as int % 16);
    }
    assert(a as int == b as int);
    assert(p == q);
    assert(l.skip(p.len() as int) =~= x);
    assert(r.skip(q.len() as int) =~= y);
}

proof fn lemma_contents_prefix_free(a: Seq<char>, b: Seq<char>, x: Seq<char>, y: Seq<char>)
    requires
        json_contents(a) + seq!['"'] + x == json_contents(b) + seq!['"'] + y,
    ensures
        a == b,
        x == y,
    decreases a.len(),
{
    let empty = Seq::<char>::empty();
    let (l, r) = (json_contents(a) + seq!['"'] + x, json_contents(b) + seq!['"'] + y);
    if a.len() > 0 && b.len() > 0 {
        lemma_contents_front(a);
        lemma_contents_front(b);
        let (x2, y2) = (
            json_contents(a.skip(1)) + seq!['"'] + x,
            json_contents(b.skip(1)) + seq!['"'] + y,
        );
        assert(l =~= json_char(a[0]) + x2);
        assert(r =~= json_char(b[0]) + y2);
        lemma_json_char_prefix_free(a[0], b[0], x2, y2);
        lemma_contents_prefix_free(a.skip(1), b.skip(1), x, y);
        assert(a =~= seq![a[0]] + a.skip(1));
        assert(b =~= seq![b[0]] + b.skip(1));
    } else if a.len() > 0 {
        lemma_contents_front(a);
        assert(json_contents(b) =~= empty);
        assert(l[0] == json_char(a[0])[0]);
        assert(r[0] == '"');
    } else if b.len() > 0 {
        lemma_contents_front(b);
        assert(json_contents(a) =~= empty);
        assert(r[0] == json_char(b[0])[0]);
        assert(l[0] == '"');
    } else {
        assert(json_contents(a) =~= empty);
        assert(json_contents(b) =~= empty);
        assert(l.skip(1) =~= x);
        assert(r.skip(1) =~= y);
        assert(a =~= b);
    }
}

/// A JSON string says where it ends, so it can be read off the front of a text.
pub proof fn law_json_string_readable(a: Seq<char>, b: Seq<char>, x: Seq<char>, y: Seq<char>)
    requires
        json_string(a) + x == json_string(b) + y,
    ensures
        a == b,
        x == y,
{
    let (l, r) = (json_string(a) + x, json_string(b) + y);
    assert(l.skip(1) =~= json_contents(a) + seq!['"'] + x);
    assert(r.skip(1) =~= json_contents(b) + seq!['"'] + y);
    lemma_contents_prefix_free(a, b, x, y);
}

pub open spec fn starts_with_digit(s: Seq<char>) -> bool {
    s.len() > 0 && '0' <= s[0] <= '9'
}

/// A number that no digit follows can be read off the front of a text.
pub proof fn law_json_number_readable(a: nat, b: nat, x: Seq<char>, y: Seq<char>)
    requires
        decimal(a) + x == decimal(b) + y,
        !starts_with_digit(x),
        !starts_with_digit(y),
    ensures
        a == b,
        x == y,
{
    lemma_decimal_len(a);
    lemma_decimal_len(b);
    let (p, q) = (decimal(a), decimal(b));
    let (l, r) = (p + x, q + y);
    if p.len() < q.len() {
        assert(r[p.len() as int] == q[p.len() as int]);
        assert(l[p.len() as int] == x[0]);
    } else if q.len() < p.len() {
        assert(l[q.len() as int] == p[q.len() as int]);
        assert(r[q.len() as int] == y[0]);
    }
    assert(l.take(p.len() as int) =~= p);
    assert(r.take(q.len() as int) =~= q);
    assert(l.skip(p.len() as int) =~= x);
    assert(r.skip(q.len() as int) =~= y);
    lemma_decimal_injective(a, b);
}

/// A truth value that nothing but a delimiter follows can be read off the front of a text.
pub proof fn law_json_bool_readable(a: bool, b: bool, x: Seq<char>, y: Seq<char>)
    requires
        json_bool(a) + x == json_bool(b) + y,
    ensures
        a == b,
        x == y,
{
    reveal_strlit("true");
    reveal_strlit("false");
    let (l, r) = (json_bool(a) + x, json_bool(b) + y);
    assert(l[0] == json_bool(a)[0]);
    assert(r[0] == json_bool(b)[0]);
    assert(l.skip(json_bool(a).len() as int) =~= x);
    assert(r.skip(json_bool(b).len() as int) =~= y);
}

/// The same text at the front of both sides can be taken off.
pub proof fn lemma_cancel_front(p: Seq<char>, x: Seq<char>, y: Seq<char>)
    requires
        p + x == p + y,
    ensures
        x == y,
{
    assert((p + x).skip(p.len() as int) =~= x);
    assert((p + y).skip(p.len() as int) =~= y);
}

} // verus!
