//! Text wrapped to a number of columns.

use crate::text::{
    chars_of, first_index, join, joined, lemma_first_index, lemma_is_first_index,
    lemma_split_concat, lemma_split_extend, lemma_split_parts, lemma_split_push, split, split_on,
    text_between, texts, trim, trim_start, trimmed, whitespace,
};
use unicode_width::UnicodeWidthStr;
use vstd::prelude::*;
use vstd::string::*;

verus! {

broadcast use vstd::string::group_string_axioms;

/// Nothing but the characters from the space to the tilde.
pub open spec fn printable_ascii(s: Seq<char>) -> bool {
    forall|i: int| 0 <= i < s.len() ==> ' ' <= #[trigger] s[i] <= '~'
}

/// The number of columns that a text takes, as `UnicodeWidthStr::width` measures it.
pub uninterp spec fn measured_columns(s: Seq<char>) -> usize;

/// `unicode_width::UnicodeWidthStr::width`: a function of the text alone, named and not
/// spelled out. A text of printable ASCII takes a column for each of its characters.
#[verifier::external_body]
fn measure(s: &str) -> (r: usize)
    ensures
        r == measured_columns(s@),
        printable_ascii(s@) ==> r == s@.len(),
{
    UnicodeWidthStr::width(s)
}

/// The number of columns that a text takes.
pub open spec fn columns(s: Seq<char>) -> usize {
    if printable_ascii(s) {
        s.len() as usize
    } else {
        measured_columns(s)
    }
}

fn column_count(s: &str) -> (r: usize)
    ensures
        r == columns(s@),
{
    measure(s)
}

/// The value of a text of decimal digits.
pub open spec fn digits_number(s: Seq<char>) -> Option<nat>
    decreases s.len(),
{
    if s.len() == 0 {
        Some(0)
    } else {
        match digits_number(s.drop_last()) {
            Some(n) if '0' <= s.last() <= '9' => Some(
                n * 10 + (s.last() as nat - '0' as nat) as nat,
            ),
            _ => None,
        }
    }
}

/// The number that a text stands for: digits, perhaps behind a plus sign, that fit a
/// machine word.
pub open spec fn parsed_number(s: Seq<char>) -> Option<usize> {
    let digits = if s.len() > 0 && s[0] == '+' {
        s.skip(1)
    } else {
        s
    };
    match digits_number(digits) {
        Some(n) if digits.len() > 0 && n <= usize::MAX => Some(n as usize),
        _ => None,
    }
}

proof fn lemma_digits_fail(s: Seq<char>, n: int)
    requires
        0 <= n <= s.len(),
        digits_number(s.take(n)) is None || digits_number(s.take(n))->0 > usize::MAX,
    ensures
        digits_number(s) is None || digits_number(s)->0 > usize::MAX,
    decreases s.len() - n,
{
    if n == s.len() {
        assert(s.take(n) =~= s);
    } else {
        assert(s.take(n + 1).drop_last() =~= s.take(n));
        lemma_digits_fail(s, n + 1);
    }
}

pub fn parse_number(s: &str) -> (r: Option<usize>)
    ensures
        r == parsed_number(s@),
{
    let chars = chars_of(s);
    let start: usize = if chars.len() > 0 && chars[0] == '+' {
        1
    } else {
        0
    };
    let ghost digits = s@.skip(start as int);
    assert(start == 0 ==> digits =~= s@);
    if start >= chars.len() {
        return None;
    }
    let mut value: usize = 0;
    let mut i: usize = start;
    assert(digits.take(0) =~= Seq::<char>::empty());
    while i < chars.len()
        invariant
            start <= i <= chars@.len(),
            chars@ == s@,
            digits == s@.skip(start as int),
            start < chars@.len(),
            digits == if s@.len() > 0 && s@[0] == '+' {
                s@.skip(1)
            } else {
                s@
            },
            digits_number(digits.take(i - start)) == Some(value as nat),
        decreases chars@.len() - i,
    {
        let c = chars[i];
        proof {
            assert(digits.take(i - start + 1).drop_last() =~= digits.take(i - start));
            assert(digits.take(i - start + 1).last() == c);
        }
        if !('0' <= c && c <= '9') {
            proof {
                lemma_digits_fail(digits, i - start + 1);
            }
            return None;
        }
        let d: usize = c as usize - '0' as usize;
        if value > (usize::MAX - d) / 10 {
            proof {
                assert(value * 10 + d > usize::MAX);
                lemma_digits_fail(digits, i - start + 1);
            }
            return None;
        }
        value = value * 10 + d;
        i += 1;
    }
    assert(digits.take(digits.len() as int) =~= digits);
    Some(value)
}

/// The width that free text is wrapped to: the one that is set, where it is sane.
pub open spec fn wrap_width(set: Option<Seq<char>>) -> usize {
    match set {
        Some(s) => match parsed_number(trim(s)) {
            Some(n) if n >= 20 => n,
            _ => 100,
        },
        None => 100,
    }
}

pub fn compact_wrap_width(set: Option<&str>) -> (r: usize)
    ensures
        r == wrap_width(crate::text::opt_str(set)),
{
    match set {
        Some(s) => {
            let text = trimmed(s);
            match parse_number(text.as_str()) {
                Some(n) => if n >= 20 {
                    n
                } else {
                    100
                },
                None => 100,
            }
        },
        None => 100,
    }
}

/// Words laid out so far, and the columns that the last line of them takes.
pub struct Layout {
    pub text: Seq<char>,
    pub used: int,
}

/// The words with a space between them, or a line end and the indent where the line would
/// take more than `avail` columns. `widths` are the columns that the words take.
pub open spec fn laid_out(
    words: Seq<Seq<char>>,
    widths: Seq<usize>,
    indent: Seq<char>,
    avail: int,
) -> Layout
    decreases words.len(),
{
    if words.len() == 0 {
        Layout { text: indent, used: 0 }
    } else {
        let before = laid_out(words.drop_last(), widths, indent, avail);
        let word = words.last();
        let width = widths[words.len() - 1] as int;
        if words.len() == 1 {
            Layout { text: before.text + word, used: width }
        } else if before.used > 0 && before.used + 1 + width > avail {
            Layout { text: before.text + "\n"@ + indent + word, used: width }
        } else {
            Layout { text: before.text + " "@ + word, used: before.used + 1 + width }
        }
    }
}

/// Lays words out whose widths are known.
pub fn lay_out(words: &Vec<String>, widths: &Vec<usize>, indent: &str, avail: usize) -> (r: String)
    requires
        widths@.len() == words@.len(),
    ensures
        r@ == laid_out(texts(words@), widths@, indent@, avail as int).text,
{
    let ghost all = texts(words@);
    let mut out: String = indent.to_owned();
    let mut used: u128 = 0;
    let mut i: usize = 0;
    while i < words.len()
        invariant
            i <= words@.len(),
            widths@.len() == words@.len(),
            all == texts(words@),
            used <= usize::MAX + 1,
            out@ == laid_out(all.take(i as int), widths@, indent@, avail as int).text,
            used == laid_out(all.take(i as int), widths@, indent@, avail as int).used,
        decreases words@.len() - i,
    {
        assert(all.take(i + 1).drop_last() =~= all.take(i as int));
        assert(all.take(i + 1).last() == words@[i as int]@);
        let width = widths[i];
        if i == 0 {
            out.append(words[i].as_str());
            used = width as u128;
        } else if used > 0 && used + 1 + width as u128 > avail as u128 {
            out.append("\n");
            out.append(indent);
            out.append(words[i].as_str());
            used = width as u128;
        } else {
            out.append(" ");
            out.append(words[i].as_str());
            used = used + 1 + width as u128;
        }
        i += 1;
    }
    assert(all.take(all.len() as int) =~= all);
    out
}

/// The columns that each of the words takes.
pub open spec fn widths_of(words: Seq<Seq<char>>) -> Seq<usize> {
    words.map_values(|w: Seq<char>| columns(w))
}

/// The white space that a line begins with.
pub open spec fn indent_of(line: Seq<char>) -> Seq<char> {
    line.take(line.len() - trim_start(line).len())
}

/// The columns that are left beside the indent: one at least.
pub open spec fn columns_left(indent: Seq<char>, width: usize) -> int {
    if columns(indent) < width {
        width - columns(indent)
    } else {
        1
    }
}

/// One line, wrapped where it takes more than `width` columns.
pub open spec fn wrapped_line(line: Seq<char>, width: usize) -> Seq<char> {
    if columns(line) <= width {
        line
    } else {
        let indent = indent_of(line);
        laid_out(
            split(trim_start(line), ' '),
            widths_of(split(trim_start(line), ' ')),
            indent,
            columns_left(indent, width),
        ).text
    }
}

/// A text, each of its lines wrapped.
pub open spec fn wrapped(text: Seq<char>, width: usize) -> Seq<char> {
    join(
        split(text, '\n').map_values(
            |line: Seq<char>|
                wrapped_line(
                    line,
                    if width == 0 {
                        1
                    } else {
                        width
                    },
                ),
        ),
        "\n"@,
    )
}

fn wrap_line(line: &str, width: usize) -> (r: String)
    requires
        width > 0,
    ensures
        r@ == wrapped_line(line@, width),
{
    if column_count(line) <= width {
        return line.to_owned();
    }
    let chars = chars_of(line);
    let rest = crate::text::trimmed_start(line);
    let rest_chars = chars_of(rest.as_str());
    proof {
        lemma_trim_start_len(line@);
    }
    let indent = text_between(&chars, 0, chars.len() - rest_chars.len());
    assert(indent@ =~= indent_of(line@));
    let used_by_indent = column_count(indent.as_str());
    let avail: usize = if used_by_indent < width {
        width - used_by_indent
    } else {
        1
    };
    let words = split_on(rest.as_str(), ' ');
    let ghost all = texts(words@);
    let mut widths: Vec<usize> = Vec::new();
    let mut i: usize = 0;
    while i < words.len()
        invariant
            i <= words@.len(),
            all == texts(words@),
            widths@ == widths_of(all).take(i as int),
        decreases words@.len() - i,
    {
        assert(all[i as int] == words@[i as int]@);
        widths.push(column_count(words[i].as_str()));
        i += 1;
        assert(widths@ =~= widths_of(all).take(i as int));
    }
    assert(widths@ =~= widths_of(all));
    lay_out(&words, &widths, indent.as_str(), avail)
}

proof fn lemma_trim_start_len(s: Seq<char>)
    ensures
        trim_start(s).len() <= s.len(),
        forall|i: int|
            0 <= i < s.len() - trim_start(s).len() ==> whitespace(#[trigger] s[i]),
        trim_start(s) == s.skip(s.len() - trim_start(s).len()),
    decreases s.len(),
{
    if s.len() > 0 && whitespace(s[0]) {
        lemma_trim_start_len(s.skip(1));
        let rest = s.skip(1);
        assert forall|i: int| 0 <= i < s.len() - trim_start(s).len() implies whitespace(
            #[trigger] s[i],
        ) by {
            if i > 0 {
                assert(rest[i - 1] == s[i]);
            }
        }
        assert(trim_start(s) =~= s.skip(s.len() - trim_start(s).len()));
    } else {
        assert(s.skip(0) =~= s);
    }
}

/// The text with each of its lines wrapped on word boundaries to `width` columns. Line ends
/// stay, a line's indent is carried on, and no word is split.
pub fn wrap_body(text: &str, width: usize) -> (r: String)
    ensures
        r@ == wrapped(text@, width),
{
    let limit: usize = if width == 0 {
        1
    } else {
        width
    };
    let lines = split_on(text, '\n');
    let ghost wanted = split(text@, '\n').map_values(|line: Seq<char>| wrapped_line(line, limit));
    let mut out: Vec<String> = Vec::new();
    let mut i: usize = 0;
    while i < lines.len()
        invariant
            i <= lines@.len(),
            limit > 0,
            texts(lines@) == split(text@, '\n'),
            wanted == split(text@, '\n').map_values(
                |line: Seq<char>| wrapped_line(line, limit),
            ),
            texts(out@) == wanted.take(i as int),
        decreases lines@.len() - i,
    {
        assert(texts(lines@)[i as int] == lines@[i as int]@);
        let ghost before = texts(out@);
        let line = wrap_line(lines[i].as_str(), limit);
        let ghost shown = line@;
        out.push(line);
        i += 1;
        assert(texts(out@) =~= before.push(shown));
        assert(texts(out@) =~= wanted.take(i as int));
    }
    assert(texts(out@) =~= wanted);
    proof {
        let direct = split(text@, '\n').map_values(
            |line: Seq<char>|
                wrapped_line(
                    line,
                    if width == 0 {
                        1
                    } else {
                        width
                    },
                ),
        );
        assert(direct =~= wanted);
    }
    joined(&out, "\n")
}

proof fn lemma_join_front(head: Seq<char>, rest: Seq<Seq<char>>, sep: Seq<char>)
    requires
        rest.len() > 0,
    ensures
        join(seq![head] + rest, sep) == head + sep + join(rest, sep),
    decreases rest.len(),
{
    let all = seq![head] + rest;
    assert(all.drop_last() =~= seq![head] + rest.drop_last());
    assert(all.last() == rest.last());
    if rest.len() == 1 {
        assert(all.drop_last() =~= seq![head]);
        assert(seq![head][0] == head);
        assert(join(seq![head], sep) == head);
        assert(join(rest, sep) == rest[0]);
        assert(join(all, sep) =~= head + sep + join(rest, sep));
    } else {
        lemma_join_front(head, rest.drop_last(), sep);
        assert(join(all, sep) =~= head + sep + join(rest, sep));
    }
}

proof fn lemma_split_nonempty(s: Seq<char>, sep: char)
    ensures
        split(s, sep).len() > 0,
{
}

/// A text is its parts with the separators between them.
pub proof fn law_join_undoes_split(s: Seq<char>, sep: char)
    ensures
        join(split(s, sep), seq![sep]) == s,
    decreases s.len(),
{
    lemma_first_index(s, sep);
    let at = first_index(s, sep);
    if at < s.len() {
        let rest = s.skip(at + 1);
        law_join_undoes_split(rest, sep);
        lemma_split_nonempty(rest, sep);
        lemma_join_front(s.take(at), split(rest, sep), seq![sep]);
        assert(s.take(at) + seq![sep] + rest =~= s);
    }
}

/// Without a limit nothing is wrapped.
pub proof fn law_no_limit_keeps_text(text: Seq<char>)
    ensures
        wrapped(text, usize::MAX) == text,
{
    let parts = split(text, '\n');
    let lines = parts.map_values(
        |line: Seq<char>|
            wrapped_line(
                line,
                if usize::MAX == 0 {
                    1
                } else {
                    usize::MAX
                },
            ),
    );
    assert(lines =~= parts);
    reveal_strlit("\n");
    assert("\n"@ =~= seq!['\n']);
    law_join_undoes_split(text, '\n');
}

/// What is not white space.
pub open spec fn ink(s: Seq<char>) -> Seq<char> {
    s.filter(|c: char| !whitespace(c))
}

proof fn lemma_ink_concat(a: Seq<char>, b: Seq<char>)
    ensures
        ink(a + b) == ink(a) + ink(b),
{
    Seq::filter_distributes_over_add(a, b, |c: char| !whitespace(c));
}

proof fn lemma_blank_ink(s: Seq<char>)
    requires
        forall|i: int| 0 <= i < s.len() ==> whitespace(#[trigger] s[i]),
    ensures
        ink(s) == Seq::<char>::empty(),
    decreases s.len(),
{
    reveal(Seq::filter);
    if s.len() > 0 {
        assert(forall|i: int| 0 <= i < s.drop_last().len() ==> s.drop_last()[i] == s[i]);
        lemma_blank_ink(s.drop_last());
        assert(whitespace(s.last()));
    }
}

/// The ink of the parts, end to end.
spec fn ink_of(parts: Seq<Seq<char>>) -> Seq<char>
    decreases parts.len(),
{
    if parts.len() == 0 {
        Seq::empty()
    } else {
        ink_of(parts.drop_last()) + ink(parts.last())
    }
}

proof fn lemma_join_ink(parts: Seq<Seq<char>>, sep: Seq<char>)
    requires
        forall|i: int| 0 <= i < sep.len() ==> whitespace(#[trigger] sep[i]),
    ensures
        ink(join(parts, sep)) == ink_of(parts),
    decreases parts.len(),
{
    reveal(Seq::filter);
    lemma_blank_ink(sep);
    if parts.len() == 0 {
    } else if parts.len() == 1 {
        assert(ink_of(parts.drop_last()) =~= Seq::<char>::empty());
        assert(ink_of(parts) =~= ink(parts[0]));
    } else {
        lemma_join_ink(parts.drop_last(), sep);
        lemma_ink_concat(join(parts.drop_last(), sep) + sep, parts.last());
        lemma_ink_concat(join(parts.drop_last(), sep), sep);
        assert(ink(join(parts.drop_last(), sep)) + Seq::<char>::empty() =~= ink(
            join(parts.drop_last(), sep),
        ));
    }
}

proof fn lemma_laid_out_ink(
    words: Seq<Seq<char>>,
    widths: Seq<usize>,
    indent: Seq<char>,
    avail: int,
)
    requires
        forall|i: int| 0 <= i < indent.len() ==> whitespace(#[trigger] indent[i]),
    ensures
        ink(laid_out(words, widths, indent, avail).text) == ink_of(words),
    decreases words.len(),
{
    lemma_blank_ink(indent);
    if words.len() > 0 {
        let before = laid_out(words.drop_last(), widths, indent, avail);
        let word = words.last();
        lemma_laid_out_ink(words.drop_last(), widths, indent, avail);
        reveal_strlit("\n");
        reveal_strlit(" ");
        lemma_blank_ink("\n"@);
        lemma_blank_ink(" "@);
        lemma_ink_concat(before.text, word);
        lemma_ink_concat(before.text + " "@, word);
        lemma_ink_concat(before.text, " "@);
        lemma_ink_concat(before.text + "\n"@ + indent, word);
        lemma_ink_concat(before.text + "\n"@, indent);
        lemma_ink_concat(before.text, "\n"@);
        assert(ink(before.text) + Seq::<char>::empty() =~= ink(before.text));
    }
}

proof fn lemma_wrapped_line_ink(line: Seq<char>, width: usize)
    ensures
        ink(wrapped_line(line, width)) == ink(line),
{
    if columns(line) > width {
        let indent = indent_of(line);
        let rest = trim_start(line);
        lemma_trim_start_len(line);
        let words = split(rest, ' ');
        lemma_laid_out_ink(words, widths_of(words), indent, columns_left(indent, width));
        assert(whitespace(' '));
        lemma_join_ink(words, seq![' ']);
        law_join_undoes_split(rest, ' ');
        lemma_blank_ink(indent);
        lemma_ink_concat(indent, rest);
        assert(indent + rest =~= line);
        assert(Seq::<char>::empty() + ink(rest) =~= ink(rest));
    }
}

proof fn lemma_lines_ink(parts: Seq<Seq<char>>, shown: Seq<Seq<char>>)
    requires
        parts.len() == shown.len(),
        forall|i: int| 0 <= i < parts.len() ==> ink(#[trigger] shown[i]) == ink(parts[i]),
    ensures
        ink_of(parts) == ink_of(shown),
    decreases parts.len(),
{
    if parts.len() > 0 {
        assert(forall|i: int|
            0 <= i < parts.drop_last().len() ==> shown.drop_last()[i] == shown[i]
                && parts.drop_last()[i] == parts[i]);
        lemma_lines_ink(parts.drop_last(), shown.drop_last());
        assert(ink(shown[parts.len() - 1]) == ink(parts[parts.len() - 1]));
    }
}

/// Wrapping moves white space only: everything else stays, in order.
pub proof fn law_wrapping_keeps_ink(text: Seq<char>, width: usize)
    ensures
        ink(wrapped(text, width)) == ink(text),
{
    let limit: usize = if width == 0 {
        1
    } else {
        width
    };
    let parts = split(text, '\n');
    let shown = parts.map_values(
        |line: Seq<char>|
            wrapped_line(
                line,
                if width == 0 {
                    1
                } else {
                    width
                },
            ),
    );
    assert forall|i: int| 0 <= i < parts.len() implies ink(#[trigger] shown[i]) == ink(
        parts[i],
    ) by {
        lemma_wrapped_line_ink(parts[i], limit);
    }
    lemma_lines_ink(parts, shown);
    reveal_strlit("\n");
    assert("\n"@ =~= seq!['\n']);
    assert(whitespace('\n'));
    lemma_join_ink(shown, "\n"@);
    lemma_join_ink(parts, seq!['\n']);
    law_join_undoes_split(text, '\n');
}

/// Every character of `a` is one of `b`, or breaks a line or parts two words.
pub open spec fn drawn_from(a: Seq<char>, b: Seq<char>) -> bool {
    forall|i: int| 0 <= i < a.len() ==> (#[trigger] a[i]) == '\n' || a[i] == ' ' || b.contains(a[i])
}

proof fn lemma_drawn_through(a: Seq<char>, b: Seq<char>, c: Seq<char>)
    requires
        drawn_from(a, b),
        forall|i: int| 0 <= i < b.len() ==> c.contains(#[trigger] b[i]),
    ensures
        drawn_from(a, c),
{
    assert forall|i: int| 0 <= i < a.len() implies (#[trigger] a[i]) == '\n' || a[i] == ' '
        || c.contains(a[i]) by {
        if b.contains(a[i]) {
            let k = b.index_of(a[i]);
            assert(c.contains(b[k]));
        }
    }
}

proof fn lemma_part_of_split(s: Seq<char>, sep: char)
    ensures
        forall|i: int, k: int|
            0 <= i < split(s, sep).len() && 0 <= k < split(s, sep)[i].len() ==> s.contains(
                #[trigger] split(s, sep)[i][k],
            ),
    decreases s.len(),
{
    lemma_first_index(s, sep);
    let at = first_index(s, sep);
    if at < s.len() {
        let rest = s.skip(at + 1);
        lemma_part_of_split(rest, sep);
        assert forall|i: int, k: int|
            0 <= i < split(s, sep).len() && 0 <= k < split(s, sep)[i].len() implies s.contains(
            #[trigger] split(s, sep)[i][k],
        ) by {
            if i == 0 {
                assert(s[k] == split(s, sep)[0][k]);
            } else {
                let c = split(rest, sep)[i - 1][k];
                assert(rest.contains(c));
                let j = rest.index_of(c);
                assert(s[j + at + 1] == c);
            }
        }
    } else {
        assert(forall|k: int| 0 <= k < s.len() ==> s.contains(s[k]));
    }
}

proof fn lemma_laid_out_drawn(
    words: Seq<Seq<char>>,
    widths: Seq<usize>,
    indent: Seq<char>,
    avail: int,
    line: Seq<char>,
)
    requires
        drawn_from(indent, line),
        forall|i: int| 0 <= i < words.len() ==> drawn_from(#[trigger] words[i], line),
    ensures
        drawn_from(laid_out(words, widths, indent, avail).text, line),
    decreases words.len(),
{
    if words.len() > 0 {
        assert(forall|i: int| 0 <= i < words.drop_last().len() ==> words.drop_last()[i] == words[i]);
        lemma_laid_out_drawn(words.drop_last(), widths, indent, avail, line);
        assert(drawn_from(words[words.len() - 1], line));
        reveal_strlit("\n");
        reveal_strlit(" ");
    }
}

proof fn lemma_wrapped_line_drawn(line: Seq<char>, width: usize)
    ensures
        drawn_from(wrapped_line(line, width), line),
{
    if columns(line) > width {
        let indent = indent_of(line);
        let rest = trim_start(line);
        lemma_trim_start_len(line);
        let words = split(rest, ' ');
        lemma_part_of_split(rest, ' ');
        assert forall|i: int| 0 <= i < words.len() implies drawn_from(#[trigger] words[i], line) by {
            assert forall|k: int| 0 <= k < words[i].len() implies (#[trigger] words[i][k]) == '\n'
                || words[i][k] == ' ' || line.contains(words[i][k]) by {
                assert(rest.contains(words[i][k]));
                let j = rest.index_of(words[i][k]);
                assert(line[j + indent.len()] == rest[j]);
            }
        }
        assert(forall|k: int| 0 <= k < indent.len() ==> indent[k] == line[k]);
        lemma_laid_out_drawn(
            words,
            widths_of(words),
            indent,
            columns_left(indent, width),
            line,
        );
    }
}

proof fn lemma_join_drawn(parts: Seq<Seq<char>>, sep: Seq<char>, text: Seq<char>)
    requires
        forall|i: int| 0 <= i < parts.len() ==> drawn_from(#[trigger] parts[i], text),
        drawn_from(sep, text),
    ensures
        drawn_from(join(parts, sep), text),
    decreases parts.len(),
{
    if parts.len() > 1 {
        assert(forall|i: int| 0 <= i < parts.drop_last().len() ==> parts.drop_last()[i] == parts[i]);
        lemma_join_drawn(parts.drop_last(), sep, text);
        assert(drawn_from(parts[parts.len() - 1], text));
    } else if parts.len() == 1 {
        assert(drawn_from(parts[0], text));
    }
}

/// Wrapping brings in no character but line ends and spaces.
pub proof fn law_wrapping_adds_only_breaks(text: Seq<char>, width: usize)
    ensures
        drawn_from(wrapped(text, width), text),
{
    let parts = split(text, '\n');
    let shown = parts.map_values(
        |line: Seq<char>|
            wrapped_line(
                line,
                if width == 0 {
                    1
                } else {
                    width
                },
            ),
    );
    lemma_part_of_split(text, '\n');
    assert forall|i: int| 0 <= i < shown.len() implies drawn_from(#[trigger] shown[i], text) by {
        lemma_wrapped_line_drawn(
            parts[i],
            if width == 0 {
                1
            } else {
                width
            },
        );
        assert(forall|k: int| 0 <= k < parts[i].len() ==> text.contains(#[trigger] parts[i][k]));
        lemma_drawn_through(shown[i], parts[i], text);
    }
    reveal_strlit("\n");
    lemma_join_drawn(shown, "\n"@, text);
}

/// A line that takes no more than the width stays as it is, and so does a text of such lines.
pub proof fn law_short_lines_stay(text: Seq<char>, width: usize)
    requires
        width > 0,
    ensures
        forall|i: int|
            0 <= i < split(text, '\n').len() && columns(#[trigger] split(text, '\n')[i]) <= width
                ==> wrapped_line(split(text, '\n')[i], width) == split(text, '\n')[i],
        (forall|i: int|
            0 <= i < split(text, '\n').len() ==> columns(#[trigger] split(text, '\n')[i]) <= width)
            ==> wrapped(text, width) == text,
{
    let parts = split(text, '\n');
    if forall|i: int| 0 <= i < parts.len() ==> columns(#[trigger] parts[i]) <= width {
        lemma_lines_stay(text, width);
    }
}

proof fn lemma_lines_stay(text: Seq<char>, width: usize)
    requires
        width > 0,
        forall|i: int|
            0 <= i < split(text, '\n').len() ==> wrapped_line(
                #[trigger] split(text, '\n')[i],
                width,
            ) == split(text, '\n')[i],
    ensures
        wrapped(text, width) == text,
{
    let parts = split(text, '\n');
    let shown = parts.map_values(
        |line: Seq<char>|
            wrapped_line(
                line,
                if width == 0 {
                    1
                } else {
                    width
                },
            ),
    );
    assert(shown =~= parts);
    reveal_strlit("\n");
    assert("\n"@ =~= seq!['\n']);
    law_join_undoes_split(text, '\n');
}

/// The lines without their indent, put back together with spaces between them.
pub open spec fn rejoined(lines: Seq<Seq<char>>, indent: Seq<char>) -> Seq<char> {
    join(lines.map_values(|line: Seq<char>| line.skip(indent.len() as int)), " "@)
}

/// Every line begins with the indent.
pub open spec fn all_indented(lines: Seq<Seq<char>>, indent: Seq<char>) -> bool {
    forall|i: int| 0 <= i < lines.len() ==> indent.is_prefix_of(#[trigger] lines[i])
}

proof fn lemma_laid_out_breaks(
    words: Seq<Seq<char>>,
    widths: Seq<usize>,
    indent: Seq<char>,
    avail: int,
)
    requires
        words.len() > 0,
        !indent.contains('\n'),
        forall|i: int| 0 <= i < words.len() ==> !(#[trigger] words[i]).contains('\n'),
    ensures
        ({
            let lines = split(laid_out(words, widths, indent, avail).text, '\n');
            &&& lines.len() > 0
            &&& all_indented(lines, indent)
            &&& rejoined(lines, indent) == join(words, " "@)
        }),
    decreases words.len(),
{
    reveal_strlit("\n");
    reveal_strlit(" ");
    let out = laid_out(words, widths, indent, avail);
    let n = words.len();
    let word = words.last();
    let head = words.drop_last();
    let bare = |line: Seq<char>| line.skip(indent.len() as int);
    assert(!words[n - 1].contains('\n'));
    let fresh = indent + word;
    lemma_no_line_end_in_both(indent, word);
    assert(bare(fresh) =~= word);
    assert(indent.is_prefix_of(fresh));
    if n == 1 {
        assert(laid_out(head, widths, indent, avail).text == indent);
        lemma_single_line(fresh);
        assert(seq![fresh].map_values(bare) =~= seq![word]);
    } else {
        assert(forall|i: int| 0 <= i < head.len() ==> head[i] == words[i]);
        lemma_laid_out_breaks(head, widths, indent, avail);
        let before = laid_out(head, widths, indent, avail);
        let lines = split(before.text, '\n');
        if before.used > 0 && before.used + 1 + widths[n - 1] as int > avail {
            lemma_split_push(before.text, '\n', fresh);
            assert(out.text =~= before.text + seq!['\n'] + fresh);
            let now = lines.push(fresh);
            assert forall|i: int| 0 <= i < now.len() implies indent.is_prefix_of(
                #[trigger] now[i],
            ) by {
                if i < lines.len() {
                    assert(now[i] == lines[i]);
                }
            }
            assert(now.map_values(bare).drop_last() =~= lines.map_values(bare));
        } else {
            let more = " "@ + word;
            lemma_no_line_end_in_both(" "@, word);
            lemma_split_extend(before.text, '\n', more);
            assert(out.text =~= before.text + more);
            let last = lines.last() + more;
            let now = lines.drop_last().push(last);
            assert(indent.is_prefix_of(lines[lines.len() - 1]));
            assert(indent.is_prefix_of(last)) by {
                assert(last.subrange(0, indent.len() as int) =~= lines.last().subrange(
                    0,
                    indent.len() as int,
                ));
            }
            assert forall|i: int| 0 <= i < now.len() implies indent.is_prefix_of(
                #[trigger] now[i],
            ) by {
                if i < lines.len() - 1 {
                    assert(now[i] == lines[i]);
                }
            }
            assert(bare(last) =~= bare(lines.last()) + more);
            let was = lines.map_values(bare);
            let is = now.map_values(bare);
            assert(is.drop_last() =~= was.drop_last());
            assert(join(is, " "@) =~= join(was, " "@) + more);
            assert(join(words, " "@) =~= join(head, " "@) + more);
        }
    }
}

proof fn lemma_no_line_end_in_both(a: Seq<char>, b: Seq<char>)
    requires
        !a.contains('\n'),
        !b.contains('\n'),
    ensures
        !(a + b).contains('\n'),
{
    if (a + b).contains('\n') {
        let k = (a + b).index_of('\n');
        if k < a.len() {
            assert(a[k] == '\n');
        } else {
            assert(b[k - a.len()] == '\n');
        }
    }
}

/// Wrapping keeps the line breaks of a text. Within a line it breaks only where a space parts
/// two words, so no word is split, and it carries the indent onto every further line: without
/// it, the lines put back together are the line as it was.
pub proof fn law_wrapping_breaks_between_words(text: Seq<char>, width: usize)
    requires
        width > 0,
    ensures
        wrapped(text, width) == join(
            split(text, '\n').map_values(|line: Seq<char>| wrapped_line(line, width)),
            "\n"@,
        ),
        forall|i: int|
            0 <= i < split(text, '\n').len() ==> ({
                let line = #[trigger] split(text, '\n')[i];
                let lines = split(wrapped_line(line, width), '\n');
                &&& all_indented(lines, indent_of(line))
                &&& indent_of(line) + rejoined(lines, indent_of(line)) == line
            }),
{
    let parts = split(text, '\n');
    assert(parts.map_values(
        |line: Seq<char>|
            wrapped_line(
                line,
                if width == 0 {
                    1
                } else {
                    width
                },
            ),
    ) =~= parts.map_values(|line: Seq<char>| wrapped_line(line, width)));
    lemma_split_parts(text, '\n');
    assert forall|i: int| 0 <= i < parts.len() implies ({
        let line = #[trigger] parts[i];
        let lines = split(wrapped_line(line, width), '\n');
        &&& all_indented(lines, indent_of(line))
        &&& indent_of(line) + rejoined(lines, indent_of(line)) == line
    }) by {
        lemma_line_breaks(parts[i], width);
    }
}

proof fn lemma_line_breaks(line: Seq<char>, width: usize)
    requires
        !line.contains('\n'),
    ensures
        all_indented(split(wrapped_line(line, width), '\n'), indent_of(line)),
        indent_of(line) + rejoined(split(wrapped_line(line, width), '\n'), indent_of(line)) == line,
{
    let indent = indent_of(line);
    let rest = trim_start(line);
    lemma_trim_start_len(line);
    assert(indent + rest =~= line);
    reveal_strlit(" ");
    assert(" "@ =~= seq![' ']);
    if columns(line) <= width {
        lemma_single_line(line);
        assert(seq![line].map_values(|l: Seq<char>| l.skip(indent.len() as int)) =~= seq![rest]);
        assert(indent.is_prefix_of(line));
    } else {
        let words = split(rest, ' ');
        lemma_split_nonempty(rest, ' ');
        lemma_part_of_split(rest, ' ');
        assert(!indent.contains('\n')) by {
            if indent.contains('\n') {
                let k = indent.index_of('\n');
                assert(line[k] == '\n');
            }
        }
        assert forall|i: int| 0 <= i < words.len() implies !(#[trigger] words[i]).contains(
            '\n',
        ) by {
            if words[i].contains('\n') {
                let k = words[i].index_of('\n');
                assert(rest.contains(words[i][k]));
                let j = rest.index_of('\n');
                assert(line[j + indent.len()] == '\n');
            }
        }
        lemma_laid_out_breaks(words, widths_of(words), indent, columns_left(indent, width));
        law_join_undoes_split(rest, ' ');
    }
}

/// Spaces, and then at most one word.
pub open spec fn one_word(line: Seq<char>) -> bool {
    forall|i: int, j: int|
        0 <= i < j < line.len() && (#[trigger] line[i]) != ' ' ==> (#[trigger] line[j]) != ' '
}

/// A line that needs no wrapping: it fits, or it holds no more than one word.
pub open spec fn settled_line(line: Seq<char>, width: usize) -> bool {
    line.len() <= width || one_word(line)
}

/// Every line is printable ASCII of no more than `most` characters, and settled.
spec fn settled_lines(lines: Seq<Seq<char>>, width: usize, most: int) -> bool {
    forall|i: int|
        0 <= i < lines.len() ==> printable_ascii(#[trigger] lines[i]) && lines[i].len() <= most
            && settled_line(lines[i], width)
}

/// Nothing but spaces.
spec fn blank(s: Seq<char>) -> bool {
    forall|i: int| 0 <= i < s.len() ==> (#[trigger] s[i]) == ' '
}

proof fn lemma_no_line_end(s: Seq<char>)
    requires
        printable_ascii(s),
    ensures
        !s.contains('\n'),
{
    if s.contains('\n') {
        let k = s.index_of('\n');
        assert(' ' <= s[k]);
    }
}

/// The columns that the words of a line of printable ASCII take with a space between them.
spec fn spread(words: Seq<Seq<char>>) -> int
    decreases words.len(),
{
    if words.len() == 0 {
        -1
    } else {
        spread(words.drop_last()) + 1 + words.last().len()
    }
}

proof fn lemma_spread(words: Seq<Seq<char>>)
    ensures
        words.len() > 0 ==> spread(words) == join(words, seq![' ']).len(),
        spread(words) >= -1,
        words.len() > 0 ==> spread(words) >= 0,
    decreases words.len(),
{
    if words.len() > 1 {
        lemma_spread(words.drop_last());
    } else if words.len() == 1 {
        assert(spread(words.drop_last()) == -1);
    }
}

proof fn lemma_laid_out_settles(
    words: Seq<Seq<char>>,
    widths: Seq<usize>,
    indent: Seq<char>,
    avail: int,
    width: usize,
    most: int,
)
    requires
        words.len() > 0,
        words.len() <= widths.len(),
        blank(indent),
        width > 0,
        avail == if indent.len() < width {
            width - indent.len()
        } else {
            1
        },
        indent.len() + spread(words) <= most,
        forall|i: int|
            0 <= i < words.len() ==> printable_ascii(#[trigger] words[i]) && !words[i].contains(' ')
                && widths[i] == words[i].len(),
    ensures
        ({
            let out = laid_out(words, widths, indent, avail);
            let lines = split(out.text, '\n');
            &&& lines.len() > 0
            &&& settled_lines(lines, width, most)
            &&& lines.last().len() == indent.len() + out.used
            &&& 0 <= out.used <= spread(words)
            &&& out.used <= avail || one_word(lines.last())
            &&& out.used == 0 ==> lines.last() == indent
        }),
    decreases words.len(),
{
    reveal_strlit("\n");
    reveal_strlit(" ");
    let out = laid_out(words, widths, indent, avail);
    let word = words.last();
    let n = words.len();
    assert(printable_ascii(words[n - 1]) && !words[n - 1].contains(' ') && widths[n - 1]
        == words[n - 1].len());
    let fresh = indent + word;
    assert(printable_ascii(fresh));
    assert(one_word(fresh)) by {
        assert forall|i: int, j: int|
            0 <= i < j < fresh.len() && (#[trigger] fresh[i]) != ' ' implies (#[trigger] fresh[j])
            != ' ' by {
            if j >= indent.len() {
                assert(word.contains(word[j - indent.len()]));
            }
        }
    }
    lemma_no_line_end(fresh);
    lemma_no_line_end(word);
    lemma_spread(words.drop_last());
    let head = words.drop_last();
    if n == 1 {
        assert(spread(head) == -1);
        assert(laid_out(head, widths, indent, avail).text == indent);
        lemma_no_line_end(indent);
        lemma_single_line(fresh);
        assert(out.text == fresh);
        assert(out.used == 0 ==> fresh =~= indent);
    } else {
        assert forall|i: int| 0 <= i < head.len() implies printable_ascii(#[trigger] head[i])
            && !head[i].contains(' ') && widths[i] == head[i].len() by {
            assert(head[i] == words[i]);
        }
        lemma_laid_out_settles(head, widths, indent, avail, width, most);
        let before = laid_out(head, widths, indent, avail);
        let lines = split(before.text, '\n');
        if before.used > 0 && before.used + 1 + word.len() > avail {
            lemma_split_push(before.text, '\n', fresh);
            assert(out.text =~= before.text + seq!['\n'] + fresh);
            let now = lines.push(fresh);
            assert(split(out.text, '\n') == now);
            assert(settled_lines(now, width, most)) by {
                assert forall|i: int| 0 <= i < now.len() implies printable_ascii(#[trigger] now[i])
                    && now[i].len() <= most && settled_line(now[i], width) by {
                    if i < lines.len() {
                        assert(now[i] == lines[i]);
                    }
                }
            }
            assert(out.used == 0 ==> fresh =~= indent);
        } else {
            let more = " "@ + word;
            assert(printable_ascii(more));
            lemma_no_line_end(more);
            lemma_split_extend(before.text, '\n', more);
            assert(out.text =~= before.text + more);
            let last = lines.last() + more;
            let now = lines.drop_last().push(last);
            assert(split(out.text, '\n') == now);
            assert(printable_ascii(lines[lines.len() - 1]));
            assert(printable_ascii(last));
            if before.used == 0 {
                assert(last =~= indent + more);
                assert(one_word(last)) by {
                    assert forall|i: int, j: int|
                        0 <= i < j < last.len() && (#[trigger] last[i]) != ' ' implies (
                    #[trigger] last[j]) != ' ' by {
                        if j > indent.len() {
                            assert(word.contains(word[j - indent.len() - 1]));
                        }
                    }
                }
            } else {
                assert(out.used <= avail);
                lemma_fits(last, indent, out.used, width);
            }
            assert(settled_lines(now, width, most)) by {
                assert forall|i: int| 0 <= i < now.len() implies printable_ascii(#[trigger] now[i])
                    && now[i].len() <= most && settled_line(now[i], width) by {
                    if i < lines.len() - 1 {
                        assert(now[i] == lines[i]);
                    }
                }
            }
        }
    }
}

proof fn lemma_fits(line: Seq<char>, indent: Seq<char>, used: int, width: usize)
    requires
        line.len() == indent.len() + used,
        used > 1,
        used <= if indent.len() < width {
            width - indent.len()
        } else {
            1
        },
    ensures
        line.len() <= width,
{
}

proof fn lemma_single_line(s: Seq<char>)
    requires
        !s.contains('\n'),
    ensures
        split(s, '\n') == seq![s],
{
    assert forall|i: int| 0 <= i < s.len() implies s[i] != '\n' by {
        assert(s.contains(s[i]));
    }
    lemma_is_first_index(s, '\n', s.len() as int);
}

proof fn lemma_ascii_whitespace(c: char)
    requires
        ' ' <= c <= '~',
    ensures
        whitespace(c) == (c == ' '),
{
}

proof fn lemma_wrapped_line_settles(line: Seq<char>, width: usize)
    requires
        width > 0,
        printable_ascii(line),
        line.len() <= usize::MAX,
    ensures
        settled_lines(split(wrapped_line(line, width), '\n'), width, line.len() as int),
{
    if columns(line) <= width {
        lemma_no_line_end(line);
        lemma_single_line(line);
    } else {
        let indent = indent_of(line);
        let rest = trim_start(line);
        lemma_trim_start_len(line);
        assert(blank(indent)) by {
            assert forall|i: int| 0 <= i < indent.len() implies (#[trigger] indent[i]) == ' ' by {
                assert(indent[i] == line[i]);
                lemma_ascii_whitespace(line[i]);
            }
        }
        let words = split(rest, ' ');
        lemma_split_nonempty(rest, ' ');
        lemma_part_of_split(rest, ' ');
        lemma_split_parts(rest, ' ');
        assert forall|i: int| 0 <= i < words.len() implies printable_ascii(#[trigger] words[i])
            && !words[i].contains(' ') && widths_of(words)[i] == words[i].len() by {
            assert forall|k: int| 0 <= k < words[i].len() implies ' ' <= #[trigger] words[i][k]
                <= '~' by {
                assert(rest.contains(words[i][k]));
                let j = rest.index_of(words[i][k]);
                assert(line[j + indent.len()] == rest[j]);
            }
            lemma_part_len(words, i);
            lemma_spread(words);
            law_join_undoes_split(rest, ' ');
        }
        lemma_spread(words);
        law_join_undoes_split(rest, ' ');
        assert(printable_ascii(indent));
        lemma_laid_out_settles(
            words,
            widths_of(words),
            indent,
            columns_left(indent, width),
            width,
            line.len() as int,
        );
    }
}

proof fn lemma_part_len(words: Seq<Seq<char>>, i: int)
    requires
        0 <= i < words.len(),
    ensures
        words[i].len() <= spread(words),
    decreases words.len(),
{
    let head = words.drop_last();
    lemma_spread(head);
    if i < head.len() {
        lemma_part_len(head, i);
        assert(head[i] == words[i]);
    }
}

proof fn lemma_settled_line_stays(line: Seq<char>, width: usize)
    requires
        width > 0,
        printable_ascii(line),
        line.len() <= usize::MAX,
        settled_line(line, width),
    ensures
        wrapped_line(line, width) == line,
{
    if columns(line) > width {
        let indent = indent_of(line);
        let rest = trim_start(line);
        lemma_trim_start_len(line);
        lemma_trim_start_first(line);
        assert(!rest.contains(' ')) by {
            if rest.contains(' ') {
                let k = rest.index_of(' ');
                let at = indent.len() as int;
                assert(line[at] == rest[0]);
                lemma_ascii_whitespace(line[at]);
                assert(line[at + k] == rest[k]);
                assert(k > 0);
            }
        }
        assert forall|i: int| 0 <= i < rest.len() implies rest[i] != ' ' by {
            assert(rest.contains(rest[i]));
        }
        lemma_is_first_index(rest, ' ', rest.len() as int);
        let words = split(rest, ' ');
        assert(words == seq![rest]);
        assert(words.drop_last() =~= Seq::<Seq<char>>::empty());
        let left = columns_left(indent, width);
        assert(laid_out(words.drop_last(), widths_of(words), indent, left).text == indent);
        assert(indent + rest =~= line);
    }
}

proof fn lemma_trim_start_first(s: Seq<char>)
    ensures
        trim_start(s).len() > 0 ==> !whitespace(trim_start(s)[0]),
    decreases s.len(),
{
    if s.len() > 0 && whitespace(s[0]) {
        lemma_trim_start_first(s.skip(1));
    }
}

proof fn lemma_joined_lines_settle(shown: Seq<Seq<char>>, width: usize, most: int)
    requires
        shown.len() > 0,
        forall|i: int|
            0 <= i < shown.len() ==> settled_lines(split(#[trigger] shown[i], '\n'), width, most),
    ensures
        settled_lines(split(join(shown, "\n"@), '\n'), width, most),
    decreases shown.len(),
{
    if shown.len() == 1 {
        assert(settled_lines(split(shown[0], '\n'), width, most));
    } else {
        let head = shown.drop_last();
        assert forall|i: int| 0 <= i < head.len() implies settled_lines(
            split(#[trigger] head[i], '\n'),
            width,
            most,
        ) by {
            assert(head[i] == shown[i]);
        }
        lemma_joined_lines_settle(head, width, most);
        reveal_strlit("\n");
        let (a, b) = (join(head, "\n"@), shown.last());
        assert(join(shown, "\n"@) =~= a + seq!['\n'] + b);
        lemma_split_concat(a, '\n', b);
        assert(settled_lines(split(shown[shown.len() - 1], '\n'), width, most));
        let all = split(a, '\n') + split(b, '\n');
        assert forall|i: int| 0 <= i < all.len() implies printable_ascii(#[trigger] all[i])
            && all[i].len() <= most && settled_line(all[i], width) by {
            if i < split(a, '\n').len() {
                assert(all[i] == split(a, '\n')[i]);
            } else {
                assert(all[i] == split(b, '\n')[i - split(a, '\n').len()]);
            }
        }
    }
}

/// In a text of printable ASCII and line ends every line of the wrapped text is no longer than
/// the width, or it is a single word behind spaces, which is never split; and wrapping the text
/// again changes nothing.
pub proof fn law_wrapping_fits_and_settles(text: Seq<char>, width: usize)
    requires
        width > 0,
        text.len() <= usize::MAX,
        forall|i: int| 0 <= i < text.len() ==> (#[trigger] text[i]) == '\n' || ' ' <= text[i] <= '~',
    ensures
        forall|i: int|
            0 <= i < split(wrapped(text, width), '\n').len() ==> settled_line(
                #[trigger] split(wrapped(text, width), '\n')[i],
                width,
            ),
        wrapped(wrapped(text, width), width) == wrapped(text, width),
{
    let parts = split(text, '\n');
    let most = text.len() as int;
    let shown = parts.map_values(
        |line: Seq<char>|
            wrapped_line(
                line,
                if width == 0 {
                    1
                } else {
                    width
                },
            ),
    );
    lemma_split_nonempty(text, '\n');
    lemma_part_of_split(text, '\n');
    lemma_split_parts(text, '\n');
    lemma_spread(parts);
    assert forall|i: int| 0 <= i < shown.len() implies settled_lines(
        split(#[trigger] shown[i], '\n'),
        width,
        most,
    ) by {
        let part = parts[i];
        assert(printable_ascii(part)) by {
            assert forall|k: int| 0 <= k < part.len() implies ' ' <= #[trigger] part[k] <= '~' by {
                assert(text.contains(parts[i][k]));
                let j = text.index_of(part[k]);
                assert(part.contains(part[k]));
                assert(text[j] == part[k]);
            }
        }
        lemma_line_len(text, i);
        lemma_wrapped_line_settles(part, width);
        let lines = split(shown[i], '\n');
        assert forall|k: int| 0 <= k < lines.len() implies printable_ascii(#[trigger] lines[k])
            && lines[k].len() <= most && settled_line(lines[k], width) by {}
    }
    lemma_joined_lines_settle(shown, width, most);
    let out = wrapped(text, width);
    let lines = split(out, '\n');
    assert forall|i: int| 0 <= i < lines.len() implies wrapped_line(#[trigger] lines[i], width)
        == lines[i] by {
        lemma_settled_line_stays(lines[i], width);
    }
    lemma_lines_stay(out, width);
}

proof fn lemma_line_len(s: Seq<char>, i: int)
    requires
        0 <= i < split(s, '\n').len(),
    ensures
        split(s, '\n')[i].len() <= s.len(),
    decreases s.len(),
{
    lemma_first_index(s, '\n');
    let at = first_index(s, '\n');
    if at < s.len() && i > 0 {
        lemma_line_len(s.skip(at + 1), i - 1);
    }
}

} // verus!
