//! Promises of how text is taken apart, cleaned and put together.

use crate::json::{json_bool, json_contents, json_string};
use crate::numbers::{hex_digit, hex_number};
use crate::sanitize::{inline_each, multiline, one_line};
use crate::shell::single_quoted;
use crate::text::{
    ascii_alphanumeric, ascii_lowercase, control, deduped, distinct, ends_with, given_texts,
    has_text, join, lemma_is_first_index, lines, occurs, occurs_at, replace_char, replacing, split,
    split_once, starts_with, strip_prefix, trim, trim_end, trim_start, whitespace, without_cr,
};
use vstd::prelude::*;
use vstd::string::*;

verus! {

broadcast use vstd::string::group_string_axioms;

/// White space is blanks, tabs and line ends; what is printed is none, nor is it a control
/// character, which the others but the blank are.
pub proof fn law_blanks_and_line_ends_are_white_space(c: char)
    ensures
        whitespace(' ') && whitespace('\t') && whitespace('\n') && whitespace('\r'),
        '!' <= c <= '~' ==> !whitespace(c) && !control(c),
        !control(' '),
        control('\t') && control('\n') && control('\r') && control('\u{1b}') && control('\u{7f}')
            && control('\u{9b}'),
        c as int <= 0x1f ==> control(c),
        c as int > 0x9f ==> !control(c),
        ascii_alphanumeric(c) <==> '0' <= c <= '9' || 'a' <= c <= 'z' || 'A' <= c <= 'Z',
{
}

/// White space at either end goes, however much of it there is, and what begins and ends with
/// something else stays as it is.
pub proof fn law_trimming_takes_white_space_off(c: char, s: Seq<char>)
    requires
        whitespace(c),
    ensures
        trim_start(seq![c] + s) == trim_start(s),
        trim_end(s.push(c)) == trim_end(s),
        s.len() > 0 && !whitespace(s[0]) ==> trim_start(s) == s,
        s.len() > 0 && !whitespace(s.last()) ==> trim_end(s) == s,
        s.len() > 0 && !whitespace(s[0]) && !whitespace(s.last()) ==> trim(s) == s && trim(
            seq![c] + s,
        ) == s && trim(s.push(c)) == s,
        trim(Seq::empty()).len() == 0,
{
    assert((seq![c] + s).skip(1) =~= s);
    assert(s.push(c).drop_last() =~= s);
    if s.len() > 0 && !whitespace(s[0]) {
        assert(trim_start(s.push(c)) == s.push(c));
    }
}

/// What is trimmed neither begins nor ends with white space.
pub proof fn law_trimmed_text_has_firm_ends(s: Seq<char>)
    ensures
        trim(s).len() > 0 ==> !whitespace(trim(s)[0]) && !whitespace(trim(s).last()),
        trim(s).len() <= s.len(),
{
    lemma_trim_start(s);
    lemma_trim_end(trim_start(s));
}

proof fn lemma_trim_start(s: Seq<char>)
    ensures
        trim_start(s).len() <= s.len(),
        trim_start(s).len() > 0 ==> !whitespace(trim_start(s)[0]),
    decreases s.len(),
{
    if s.len() > 0 && whitespace(s[0]) {
        lemma_trim_start(s.skip(1));
    }
}

proof fn lemma_trim_end(s: Seq<char>)
    ensures
        trim_end(s).len() <= s.len(),
        trim_end(s).len() > 0 ==> !whitespace(trim_end(s).last()) && trim_end(s)[0] == s[0],
    decreases s.len(),
{
    if s.len() > 0 && whitespace(s.last()) {
        lemma_trim_end(s.drop_last());
    }
}

/// Capitals become small letters, one for one, and nothing else changes.
pub proof fn law_lower_case_changes_capitals_alone(s: Seq<char>, i: int)
    requires
        0 <= i < s.len(),
    ensures
        ascii_lowercase(s).len() == s.len(),
        'A' <= s[i] <= 'Z' ==> ascii_lowercase(s)[i] as int == s[i] as int + 32,
        !('A' <= s[i] <= 'Z') ==> ascii_lowercase(s)[i] == s[i],
{
}

/// A text occurs where it stands, at the front, in the middle or at the end, and begins or ends
/// what it stands at the front or the end of.
pub proof fn law_parts_occur_in_the_whole(a: Seq<char>, b: Seq<char>, c: Seq<char>)
    ensures
        occurs(a + b + c, b),
        starts_with(b + c, b),
        ends_with(a + b, b),
        strip_prefix(b + c, b) == Some(c),
{
    assert((a + b + c).subrange(a.len() as int, a.len() as int + b.len()) =~= b);
    assert(occurs_at(a + b + c, b, a.len() as int));
    assert((b + c).subrange(0, b.len() as int) =~= b);
    assert((a + b).subrange((a + b).len() - b.len(), (a + b).len() as int) =~= b);
    assert((b + c).skip(b.len() as int) =~= c);
}

/// What occurs stands somewhere: there is something before it and something behind it.
pub proof fn law_what_occurs_stands_somewhere(hay: Seq<char>, needle: Seq<char>)
    ensures
        occurs(hay, needle) ==> exists|a: Seq<char>, b: Seq<char>|
            hay == #[trigger] (a + needle + b),
        starts_with(hay, needle) ==> hay == needle + hay.skip(needle.len() as int),
        ends_with(hay, needle) ==> hay == hay.take(hay.len() - needle.len()) + needle,
{
    if occurs(hay, needle) {
        let at = choose|at: int| occurs_at(hay, needle, at);
        let a = hay.take(at);
        let b = hay.skip(at + needle.len());
        assert(hay.subrange(at, at + needle.len()) == needle);
        assert(hay =~= a + hay.subrange(at, at + needle.len()) + b);
        assert(hay == a + needle + b);
    }
    if starts_with(hay, needle) {
        assert(hay =~= hay.subrange(0, needle.len() as int) + hay.skip(needle.len() as int));
    }
    if ends_with(hay, needle) {
        let n = hay.len() - needle.len();
        assert(hay =~= hay.take(n) + hay.subrange(n, hay.len() as int));
    }
}

/// A text is parted at the first separator.
pub proof fn law_text_is_parted_at_the_first_separator(a: Seq<char>, c: char, b: Seq<char>)
    requires
        !a.contains(c),
    ensures
        split_once(a + seq![c] + b, c) == Some((a, b)),
        split_once(a, c) is None,
        split(a, c) == seq![a],
        split(a + seq![c] + b, c) == seq![a] + split(b, c),
{
    let s = a + seq![c] + b;
    assert forall|i: int| 0 <= i < a.len() implies s[i] != c by {
        assert(a.contains(a[i]));
    }
    assert forall|i: int| 0 <= i < a.len() implies a[i] != c by {
        assert(a.contains(a[i]));
    }
    lemma_is_first_index(s, c, a.len() as int);
    lemma_is_first_index(a, c, a.len() as int);
    assert(s.take(a.len() as int) =~= a);
    assert(s.skip(a.len() as int + 1) =~= b);
}

/// Lines end at line ends, with or without a carriage return before them; the last line needs
/// none, and an empty text has no line.
pub proof fn law_lines_end_at_line_ends(a: Seq<char>, rest: Seq<char>)
    requires
        !a.contains('\n'),
    ensures
        lines(a + seq!['\n'] + rest) == seq![without_cr(a)] + lines(rest),
        a.len() > 0 ==> lines(a) == seq![a],
        lines(Seq::empty()).len() == 0,
        without_cr(a.push('\r')) == a,
        a.len() == 0 || a.last() != '\r' ==> without_cr(a) == a,
{
    let s = a + seq!['\n'] + rest;
    assert forall|i: int| 0 <= i < a.len() implies s[i] != '\n' by {
        assert(a.contains(a[i]));
    }
    assert forall|i: int| 0 <= i < a.len() implies a[i] != '\n' by {
        assert(a.contains(a[i]));
    }
    lemma_is_first_index(s, '\n', a.len() as int);
    lemma_is_first_index(a, '\n', a.len() as int);
    assert(s.take(a.len() as int) =~= a);
    assert(s.skip(a.len() as int + 1) =~= rest);
    assert(a.push('\r').drop_last() =~= a);
}

/// Parts are joined with the separator between any two, and nowhere else.
pub proof fn law_separators_stand_between_parts(
    parts: Seq<Seq<char>>,
    sep: Seq<char>,
    more: Seq<char>,
)
    ensures
        join(Seq::empty(), sep).len() == 0,
        join(seq![more], sep) == more,
        parts.len() > 0 ==> join(parts.push(more), sep) == join(parts, sep) + sep + more,
{
    assert(parts.push(more).drop_last() =~= parts);
}

/// A text is kept where it comes first, and left out where it comes again.
pub proof fn law_texts_are_kept_once(v: Seq<Seq<char>>, more: Seq<char>)
    ensures
        distinct(v.push(more)) == if has_text(v, more) {
            distinct(v)
        } else {
            distinct(v).push(more)
        },
        has_text(v, more) <==> exists|i: int| 0 <= i < v.len() && #[trigger] v[i] == more,
{
    assert(v.push(more).drop_last() =~= v);
    lemma_distinct_has(v, more);
}

proof fn lemma_distinct_has(v: Seq<Seq<char>>, x: Seq<char>)
    ensures
        has_text(distinct(v), x) <==> has_text(v, x),
    decreases v.len(),
{
    if v.len() > 0 {
        let rest = v.drop_last();
        lemma_distinct_has(rest, x);
        lemma_distinct_has(rest, v.last());
        let (d, e) = (distinct(rest), distinct(v));
        if has_text(v, x) {
            let i = choose|i: int| 0 <= i < v.len() && #[trigger] v[i] == x;
            if i < rest.len() {
                assert(rest[i] == x);
                assert(has_text(rest, x));
                let j = choose|j: int| 0 <= j < d.len() && #[trigger] d[j] == x;
                assert(e[j] == x);
            } else if !has_text(d, x) {
                assert(e[e.len() - 1] == x);
            }
        }
        if has_text(e, x) {
            let j = choose|j: int| 0 <= j < e.len() && #[trigger] e[j] == x;
            if j < d.len() {
                assert(d[j] == x);
                assert(has_text(rest, x));
                let i = choose|i: int| 0 <= i < rest.len() && #[trigger] rest[i] == x;
                assert(v[i] == x);
            } else {
                assert(v[v.len() - 1] == x);
            }
        }
    }
}

/// Of neighbours that are the same one is kept.
pub proof fn law_equal_neighbours_become_one(v: Seq<Seq<char>>, more: Seq<char>)
    ensures
        v.len() > 0 && v.last() == more ==> deduped(v.push(more)) == deduped(v),
        v.len() == 0 || v.last() != more ==> deduped(v.push(more)) == deduped(v).push(more),
{
    assert(v.push(more).drop_last() =~= v);
    lemma_deduped_last(v);
}

proof fn lemma_deduped_last(v: Seq<Seq<char>>)
    ensures
        v.len() > 0 ==> deduped(v).len() > 0 && deduped(v).last() == v.last(),
        v.len() == 0 ==> deduped(v).len() == 0,
{
}

/// Of texts that may be missing those that are there are kept, in order.
pub proof fn law_given_texts_are_kept(v: Seq<Option<Seq<char>>>, more: Option<Seq<char>>)
    ensures
        given_texts(v.push(more)) == match more {
            Some(s) => given_texts(v).push(s),
            None => given_texts(v),
        },
{
    assert(v.push(more).drop_last() =~= v);
}

/// Every character is replaced where it is the one to replace, and stays where it is not.
pub proof fn law_every_occurrence_is_replaced(s: Seq<char>, from: char, to: Seq<char>, c: char)
    ensures
        replace_char(s.push(from), from, to) == replace_char(s, from, to) + to,
        c != from ==> replace_char(s.push(c), from, to) == replace_char(s, from, to).push(c),
        replace_char(Seq::empty(), from, to).len() == 0,
{
    let f = replacing(from, to);
    assert(s.push(from).drop_last() =~= s);
    assert(s.push(c).drop_last() =~= s);
    if c != from {
        assert(replace_char(s, from, to) + seq![c] =~= replace_char(s, from, to).push(c));
    }
}

/// On one line, a control character is shown by its name or its number, and every other
/// character as it is.
pub proof fn law_control_characters_are_shown_by_name(s: Seq<char>, c: char)
    ensures
        !control(c) ==> one_line(s.push(c)) == one_line(s).push(c),
        one_line(s.push('\t')) == one_line(s) + seq!['\\', 't'],
        one_line(s.push('\r')) == one_line(s) + seq!['\\', 'r'],
        one_line(s.push('\n')) == one_line(s) + seq!['\\', 'n'],
        control(c) && c != '\t' && c != '\r' && c != '\n' ==> one_line(s.push(c)) == one_line(s)
            + seq!['\\', 'u', '{'] + hex_number(c as nat) + seq!['}'],
        one_line(Seq::empty()).len() == 0,
{
    assert(s.push(c).drop_last() =~= s);
    assert(s.push('\t').drop_last() =~= s);
    assert(s.push('\r').drop_last() =~= s);
    assert(s.push('\n').drop_last() =~= s);
    if !control(c) {
        assert(one_line(s) + seq![c] =~= one_line(s).push(c));
    }
    if control(c) && c != '\t' && c != '\r' && c != '\n' {
        assert(one_line(s.push(c)) =~= one_line(s) + seq!['\\', 'u', '{'] + hex_number(c as nat)
            + seq!['}']);
    }
}

/// On several lines, line ends and tabs stay, and other control characters are shown as on one.
pub proof fn law_line_ends_stay_on_several_lines(s: Seq<char>, c: char)
    ensures
        multiline(s.push('\n')) == multiline(s).push('\n'),
        multiline(s.push('\t')) == multiline(s).push('\t'),
        !control(c) ==> multiline(s.push(c)) == multiline(s).push(c),
        multiline(s.push('\r')) == multiline(s) + seq!['\\', 'r'],
        control(c) && c != '\t' && c != '\r' && c != '\n' ==> multiline(s.push(c)) == multiline(s)
            + seq!['\\', 'u', '{'] + hex_number(c as nat) + seq!['}'],
{
    assert(s.push(c).drop_last() =~= s);
    assert(s.push('\n').drop_last() =~= s);
    assert(s.push('\t').drop_last() =~= s);
    assert(s.push('\r').drop_last() =~= s);
    assert(multiline(s) + seq!['\n'] =~= multiline(s).push('\n'));
    assert(multiline(s) + seq!['\t'] =~= multiline(s).push('\t'));
    if !control(c) {
        assert(multiline(s) + seq![c] =~= multiline(s).push(c));
    }
    if control(c) && c != '\t' && c != '\r' && c != '\n' {
        assert(multiline(s.push(c)) =~= multiline(s) + seq!['\\', 'u', '{'] + hex_number(c as nat)
            + seq!['}']);
    }
}

/// Every value of a list is shown on one line.
pub proof fn law_every_listed_value_is_inline(v: Seq<Seq<char>>, i: int)
    requires
        0 <= i < v.len(),
    ensures
        inline_each(v).len() == v.len(),
        inline_each(v)[i] == one_line(v[i]),
{
}

/// A value is quoted for the shell between single quotes.
pub proof fn law_values_are_quoted(a: Seq<char>)
    requires
        !a.contains('\''),
    ensures
        single_quoted(a) == "'"@ + a + "'"@,
{
    lemma_untouched(a, '\'', "'\"'\"'"@);
}

proof fn lemma_untouched(a: Seq<char>, from: char, to: Seq<char>)
    requires
        !a.contains(from),
    ensures
        replace_char(a, from, to) == a,
    decreases a.len(),
{
    if a.len() > 0 {
        let rest = a.drop_last();
        assert(!rest.contains(from)) by {
            if rest.contains(from) {
                let i = choose|i: int| 0 <= i < rest.len() && rest[i] == from;
                assert(a[i] == from);
            }
        }
        lemma_untouched(rest, from, to);
        assert(a.contains(a[a.len() - 1]));
        law_every_occurrence_is_replaced(rest, from, to, a.last());
        assert(rest.push(a.last()) =~= a);
    } else {
        assert(replace_char(a, from, to) =~= a);
    }
}

/// In data a text stands between double quotes, with what would end it or cannot stand in it
/// escaped.
pub proof fn law_texts_in_data_are_escaped(s: Seq<char>, c: char)
    ensures
        json_string(s) == seq!['"'] + json_contents(s) + seq!['"'],
        json_contents(s.push('"')) == json_contents(s) + seq!['\\', '"'],
        json_contents(s.push('\\')) == json_contents(s) + seq!['\\', '\\'],
        json_contents(s.push('\n')) == json_contents(s) + seq!['\\', 'n'],
        json_contents(s.push('\r')) == json_contents(s) + seq!['\\', 'r'],
        json_contents(s.push('\t')) == json_contents(s) + seq!['\\', 't'],
        c as int >= 0x20 && c != '"' && c != '\\' ==> json_contents(s.push(c)) == json_contents(
            s,
        ).push(c),
        (c as int) < 0x8 ==> json_contents(s.push(c)) == json_contents(s) + seq![
            '\\',
            'u',
            '0',
            '0',
            hex_digit(c as int / 16),
            hex_digit(c as int % 16),
        ],
        json_bool(true) == "true"@,
        json_bool(false) == "false"@,
{
    assert(s.push('"').drop_last() =~= s);
    assert(s.push('\\').drop_last() =~= s);
    assert(s.push('\n').drop_last() =~= s);
    assert(s.push('\r').drop_last() =~= s);
    assert(s.push('\t').drop_last() =~= s);
    assert(s.push(c).drop_last() =~= s);
    if c as int >= 0x20 && c != '"' && c != '\\' {
        assert(json_contents(s) + seq![c] =~= json_contents(s).push(c));
    }
}

/// Control characters that have no name of their own stand in data by their number, in four
/// digits.
pub proof fn law_control_characters_in_data_are_numbered(s: Seq<char>, c: char)
    requires
        (c as int) < 0x20,
        c as int != 0x8,
        c as int != 0xc,
        c != '\t',
        c != '\n',
        c != '\r',
    ensures
        json_contents(s.push(c)) == json_contents(s) + seq!['\\', 'u', '0', '0'] + seq![
            if c as int >= 16 {
                '1'
            } else {
                '0'
            },
            hex_digit(if c as int >= 16 {
                c as int - 16
            } else {
                c as int
            }),
        ],
{
    assert(s.push(c).drop_last() =~= s);
    assert(json_contents(s.push(c)) =~= json_contents(s) + seq!['\\', 'u', '0', '0'] + seq![
        if c as int >= 16 {
            '1'
        } else {
            '0'
        },
        hex_digit(if c as int >= 16 {
            c as int - 16
        } else {
            c as int
        }),
    ]);
}

} // verus!
