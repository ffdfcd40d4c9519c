//! Text made safe for a terminal: control characters are shown as escapes.

use crate::numbers::{hex_digit, hex_number, hex_number_text};
use crate::text::{chars_of, control, expand, is_control, join, joined, texts};
use vstd::prelude::*;
use vstd::string::*;

verus! {

broadcast use vstd::string::group_string_axioms;

/// How a control character is shown: `\t`, `\r` and `\n` by name, any other by number.
pub open spec fn escaped_control(c: char) -> Seq<char> {
    if c == '\t' {
        seq!['\\', 't']
    } else if c == '\r' {
        seq!['\\', 'r']
    } else if c == '\n' {
        seq!['\\', 'n']
    } else {
        seq!['\\', 'u', '{'] + hex_number(c as nat) + seq!['}']
    }
}

/// One character of a sanitized line.
pub open spec fn inline_char(c: char) -> Seq<char> {
    if control(c) {
        escaped_control(c)
    } else {
        seq![c]
    }
}

/// One character of a sanitized text, which keeps its line ends and tabs.
pub open spec fn text_char(c: char) -> Seq<char> {
    if c == '\n' || c == '\t' {
        seq![c]
    } else {
        inline_char(c)
    }
}

/// `s` as one line without control characters.
pub open spec fn one_line(s: Seq<char>) -> Seq<char> {
    expand(s, |c: char| inline_char(c))
}

/// `s` without control characters other than line ends and tabs.
pub open spec fn multiline(s: Seq<char>) -> Seq<char> {
    expand(s, |c: char| text_char(c))
}

fn push_escaped_control(out: &mut String, c: char)
    ensures
        final(out)@ == old(out)@ + escaped_control(c),
{
    out.push('\\');
    if c == '\t' {
        out.push('t');
    } else if c == '\r' {
        out.push('r');
    } else if c == '\n' {
        out.push('n');
    } else {
        out.push('u');
        out.push('{');
        let digits = hex_number_text(c as u32);
        out.append(digits.as_str());
        out.push('}');
    }
    assert(out@ =~= old(out)@ + escaped_control(c));
}

pub fn sanitize_terminal_inline(value: &str) -> (r: String)
    ensures
        r@ == one_line(value@),
{
    let chars = chars_of(value);
    let mut out: String = String::new();
    let mut i: usize = 0;
    while i < chars.len()
        invariant
            i <= chars@.len(),
            chars@ == value@,
            out@ == one_line(value@.take(i as int)),
        decreases chars@.len() - i,
    {
        let c = chars[i];
        assert(value@.take(i + 1).drop_last() =~= value@.take(i as int));
        if is_control(c) {
            push_escaped_control(&mut out, c);
        } else {
            out.push(c);
        }
        i += 1;
        assert(out@ =~= one_line(value@.take(i as int)));
    }
    assert(value@.take(value@.len() as int) =~= value@);
    out
}

pub fn sanitize_terminal_text(value: &str) -> (r: String)
    ensures
        r@ == multiline(value@),
{
    let chars = chars_of(value);
    let mut out: String = String::new();
    let mut i: usize = 0;
    while i < chars.len()
        invariant
            i <= chars@.len(),
            chars@ == value@,
            out@ == multiline(value@.take(i as int)),
        decreases chars@.len() - i,
    {
        let c = chars[i];
        assert(value@.take(i + 1).drop_last() =~= value@.take(i as int));
        if c != '\n' && c != '\t' && is_control(c) {
            push_escaped_control(&mut out, c);
        } else {
            out.push(c);
        }
        i += 1;
        assert(out@ =~= multiline(value@.take(i as int)));
    }
    assert(value@.take(value@.len() as int) =~= value@);
    out
}

/// The hexadecimal digits of a number are no control characters.
proof fn lemma_hex_number_printable(n: nat)
    ensures
        forall|i: int| 0 <= i < hex_number(n).len() ==> !control(#[trigger] hex_number(n)[i]),
    decreases n,
{
    let d = (n % 16) as int;
    assert(hex_digit(d) as int == if d < 10 { '0' as int + d } else { 'a' as int + (d - 10) });
    if n >= 16 {
        lemma_hex_number_printable(n / 16);
        assert(hex_number(n) == hex_number(n / 16).push(hex_digit(d)));
    } else {
        assert(hex_number(n) == seq![hex_digit(d)]);
    }
}

/// A sanitized line holds no control character.
pub proof fn law_inline_has_no_control(s: Seq<char>)
    ensures
        forall|i: int| 0 <= i < one_line(s).len() ==> !control(#[trigger] one_line(s)[i]),
    decreases s.len(),
{
    if s.len() > 0 {
        law_inline_has_no_control(s.drop_last());
        lemma_hex_number_printable(s.last() as nat);
        let last = inline_char(s.last());
        assert(one_line(s) == one_line(s.drop_last()) + last);
        assert forall|i: int| 0 <= i < last.len() implies !control(#[trigger] last[i]) by {}
    }
}

/// A sanitized text holds no control character but line ends and tabs.
pub proof fn law_multiline_has_no_other_control(s: Seq<char>)
    ensures
        forall|i: int|
            0 <= i < multiline(s).len() ==> !control(#[trigger] multiline(s)[i])
                || multiline(s)[i] == '\n' || multiline(s)[i] == '\t',
    decreases s.len(),
{
    if s.len() > 0 {
        law_multiline_has_no_other_control(s.drop_last());
        lemma_hex_number_printable(s.last() as nat);
        let last = text_char(s.last());
        assert(multiline(s) == multiline(s.drop_last()) + last);
        assert forall|i: int| 0 <= i < last.len() implies !control(#[trigger] last[i]) || last[i]
            == '\n' || last[i] == '\t' by {}
    }
}

/// A line without control characters is left as it is, so sanitizing twice is
/// sanitizing once.
pub proof fn law_inline_keeps_printable(s: Seq<char>)
    requires
        forall|i: int| 0 <= i < s.len() ==> !control(#[trigger] s[i]),
    ensures
        one_line(s) == s,
    decreases s.len(),
{
    if s.len() > 0 {
        assert forall|i: int| 0 <= i < s.drop_last().len() implies !control(
            #[trigger] s.drop_last()[i],
        ) by {
            assert(s.drop_last()[i] == s[i]);
        }
        law_inline_keeps_printable(s.drop_last());
        assert(one_line(s) =~= s);
    } else {
        assert(one_line(s) =~= s);
    }
}

/// The texts, each as a sanitized line.
pub open spec fn inline_each(v: Seq<Seq<char>>) -> Seq<Seq<char>> {
    v.map_values(|s: Seq<char>| one_line(s))
}

/// The texts as one line, sanitized and separated by commas.
pub fn inline_list(values: &Vec<String>) -> (r: String)
    ensures
        r@ == join(inline_each(texts(values@)), ", "@),
{
    let mut parts: Vec<String> = Vec::new();
    let mut i: usize = 0;
    while i < values.len()
        invariant
            i <= values@.len(),
            texts(parts@) == inline_each(texts(values@)).take(i as int),
        decreases values@.len() - i,
    {
        let ghost before = texts(parts@);
        let part = sanitize_terminal_inline(values[i].as_str());
        parts.push(part);
        i += 1;
        assert(texts(parts@) =~= before.push(part@));
        assert(texts(parts@) =~= inline_each(texts(values@)).take(i as int));
    }
    assert(texts(parts@) =~= inline_each(texts(values@)));
    joined(&parts, ", ")
}

} // verus!
