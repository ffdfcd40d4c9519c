//! Words that a shell reads back as they were.

use crate::text::{expand, lemma_expand_concat, replace_char, replaced_char, replacing, text3};
use vstd::prelude::*;
use vstd::string::*;

verus! {

broadcast use vstd::string::group_string_axioms;

/// The value between single quotes; a single quote in it stands between double quotes.
pub open spec fn single_quoted(value: Seq<char>) -> Seq<char> {
    "'"@ + replace_char(value, '\'', "'\"'\"'"@) + "'"@
}

pub fn quote_for_shell(value: &str) -> (r: String)
    ensures
        r@ == single_quoted(value@),
{
    let inner = replaced_char(value, '\'', "'\"'\"'");
    text3("'", inner.as_str(), "'")
}

/// Where a shell stands while it reads a quoted word.
pub enum Quoting {
    Outside,
    Single,
    Double,
}

/// The value of a word made of quoted parts, as a POSIX shell reads it: every character
/// between single quotes stands for itself, and so does one between double quotes that has
/// no meaning there. Other words have no value here.
pub open spec fn shell_value(s: Seq<char>, quoting: Quoting) -> Option<Seq<char>>
    decreases s.len(),
{
    if s.len() == 0 {
        if quoting is Outside {
            Some(Seq::empty())
        } else {
            None
        }
    } else {
        let (c, rest) = (s[0], s.skip(1));
        match quoting {
            Quoting::Outside => if c == '\'' {
                shell_value(rest, Quoting::Single)
            } else if c == '"' {
                shell_value(rest, Quoting::Double)
            } else {
                None
            },
            Quoting::Single => if c == '\'' {
                shell_value(rest, Quoting::Outside)
            } else {
                prepended(c, shell_value(rest, Quoting::Single))
            },
            Quoting::Double => if c == '"' {
                shell_value(rest, Quoting::Outside)
            } else if c == '$' || c == '`' || c == '\\' || c == '!' {
                None
            } else {
                prepended(c, shell_value(rest, Quoting::Double))
            },
        }
    }
}

/// The value with a character before it.
pub open spec fn prepended(c: char, value: Option<Seq<char>>) -> Option<Seq<char>> {
    match value {
        Some(v) => Some(seq![c] + v),
        None => None,
    }
}

proof fn lemma_replace_front(s: Seq<char>, from: char, to: Seq<char>)
    requires
        s.len() > 0,
    ensures
        replace_char(s, from, to) == (if s[0] == from {
            to
        } else {
            seq![s[0]]
        }) + replace_char(s.skip(1), from, to),
{
    let f = replacing(from, to);
    assert(s =~= seq![s[0]] + s.skip(1));
    lemma_expand_concat(seq![s[0]], s.skip(1), f);
    assert(seq![s[0]].drop_last() =~= Seq::<char>::empty());
    assert(expand(Seq::<char>::empty(), f) =~= Seq::<char>::empty());
    assert(expand(seq![s[0]], f) =~= f(s[0]));
}

proof fn lemma_quoted_rest(value: Seq<char>)
    ensures
        shell_value(replace_char(value, '\'', "'\"'\"'"@) + "'"@, Quoting::Single) == Some(value),
    decreases value.len(),
{
    reveal_strlit("'");
    reveal_strlit("'\"'\"'");
    let q = "'\"'\"'"@;
    let end = "'"@;
    let s = replace_char(value, '\'', q) + end;
    if value.len() == 0 {
        assert(replace_char(value, '\'', q) =~= Seq::<char>::empty());
        assert(s =~= end);
        assert(s.skip(1) =~= Seq::<char>::empty());
        assert(shell_value(s.skip(1), Quoting::Outside) == Some(Seq::<char>::empty()));
        assert(value =~= Seq::<char>::empty());
    } else {
        lemma_replace_front(value, '\'', q);
        let tail = replace_char(value.skip(1), '\'', q) + end;
        lemma_quoted_rest(value.skip(1));
        assert(value =~= seq![value[0]] + value.skip(1));
        if value[0] == '\'' {
            assert(s =~= q + tail);
            assert(s.skip(1).skip(1).skip(1).skip(1).skip(1) =~= tail);
            assert(s[0] == '\'' && s.skip(1)[0] == '"' && s.skip(1).skip(1)[0] == '\''
                && s.skip(1).skip(1).skip(1)[0] == '"' && s.skip(1).skip(1).skip(1).skip(1)[0]
                == '\'');
            let s4 = s.skip(1).skip(1).skip(1).skip(1);
            assert(shell_value(s4, Quoting::Outside) == Some(value.skip(1)));
            let s3 = s.skip(1).skip(1).skip(1);
            assert(shell_value(s3, Quoting::Double) == Some(value.skip(1)));
            let s2 = s.skip(1).skip(1);
            assert(shell_value(s2, Quoting::Double) == Some(seq!['\''] + value.skip(1)));
            let s1 = s.skip(1);
            assert(shell_value(s1, Quoting::Outside) == Some(seq!['\''] + value.skip(1)));
        } else {
            assert(s =~= seq![value[0]] + tail);
            assert(s.skip(1) =~= tail);
        }
    }
}

/// A shell reads a quoted value back as it was.
pub proof fn law_shell_reads_value_back(value: Seq<char>)
    ensures
        shell_value(single_quoted(value), Quoting::Outside) == Some(value),
{
    reveal_strlit("'");
    lemma_quoted_rest(value);
    let s = single_quoted(value);
    assert(s.skip(1) =~= replace_char(value, '\'', "'\"'\"'"@) + "'"@);
}

} // verus!
