//! Styled text: pieces of text, each with the part that it plays.

use crate::sorting::views;
use vstd::prelude::*;
use vstd::string::*;

verus! {

broadcast use vstd::string::group_string_axioms;

/// The part that a piece of text plays, which decides how it is styled.
#[derive(Debug, Clone, Copy, PartialEq, Eq, Structural)]
pub enum Role {
    Normal,
    Success,
    Warning,
    Dimmed,
    Muted,
    Emphasis,
    Accent,
    Section,
    IssueId,
    IssueTitle,
    TypeTask,
    TypeBug,
    TypeFeature,
    TypeEpic,
    TypeChore,
    TypeDocs,
    TypeQuestion,
}

/// A piece of text.
#[derive(Debug)]
pub struct Span {
    pub text: String,
    pub role: Role,
}

/// What a [`Span`] says.
#[verifier::ext_equal]
pub struct SpanModel {
    pub text: Seq<char>,
    pub role: Role,
}

impl View for Span {
    type V = SpanModel;

    open spec fn view(&self) -> SpanModel {
        SpanModel { text: self.text@, role: self.role }
    }
}

/// A piece of text with a role.
pub open spec fn styled(text: Seq<char>, role: Role) -> SpanModel {
    SpanModel { text, role }
}

/// A piece of text without one.
pub open spec fn unstyled(text: Seq<char>) -> SpanModel {
    SpanModel { text, role: Role::Normal }
}

pub fn push_styled(out: &mut Vec<Span>, text: &str, role: Role)
    ensures
        views(final(out)@) == views(old(out)@).push(styled(text@, role)),
{
    let ghost before = views(out@);
    out.push(Span { text: text.to_owned(), role });
    assert(views(out@) =~= before.push(styled(text@, role)));
}

pub fn push_unstyled(out: &mut Vec<Span>, text: &str)
    ensures
        views(final(out)@) == views(old(out)@).push(unstyled(text@)),
{
    push_styled(out, text, Role::Normal);
}

/// A line of a dimmed label, a value and a line end.
pub open spec fn labelled(label: Seq<char>, value: Seq<char>, role: Role) -> Seq<SpanModel> {
    seq![styled(label, Role::Dimmed), styled(value, role), unstyled("\n"@)]
}

pub fn push_labelled(out: &mut Vec<Span>, label: &str, value: &str, role: Role)
    ensures
        views(final(out)@) == views(old(out)@) + labelled(label@, value@, role),
{
    let ghost before = views(out@);
    push_styled(out, label, Role::Dimmed);
    push_styled(out, value, role);
    push_unstyled(out, "\n");
    assert(views(out@) =~= before + labelled(label@, value@, role));
}

pub fn push_all(out: &mut Vec<Span>, more: Vec<Span>)
    ensures
        views(final(out)@) == views(old(out)@) + views(more@),
{
    let ghost before = views(out@);
    let ghost added = more@;
    assert(before + views(added).take(0) =~= before);
    for span in it: more
        invariant
            it.seq() == added,
            views(out@) == before + views(added).take(it.index() as int),
    {
        let ghost now = views(out@);
        let ghost shown = span@;
        assert(views(added)[it.index() as int] == shown);
        out.push(span);
        assert(views(out@) =~= now.push(shown));
        assert(views(out@) =~= before + views(added).take(it.index() + 1));
    }
    assert(views(added).take(added.len() as int) =~= views(added));
}

/// The text of the pieces, end to end.
pub open spec fn text_of_spans(spans: Seq<SpanModel>) -> Seq<char>
    decreases spans.len(),
{
    if spans.len() == 0 {
        ""@
    } else {
        text_of_spans(spans.drop_last()) + spans.last().text
    }
}

/// The text of the pieces, without their styles.
pub fn plain(spans: &Vec<Span>) -> (r: String)
    ensures
        r@ == text_of_spans(views(spans@)),
{
    let ghost all = views(spans@);
    let mut out: String = "".to_owned();
    let mut i: usize = 0;
    while i < spans.len()
        invariant
            i <= spans@.len(),
            all == views(spans@),
            out@ == text_of_spans(all.take(i as int)),
        decreases spans@.len() - i,
    {
        assert(all.take(i + 1).drop_last() =~= all.take(i as int));
        assert(all.take(i + 1).last() == spans@[i as int]@);
        out.append(spans[i].text.as_str());
        i += 1;
    }
    assert(all.take(all.len() as int) =~= all);
    out
}

} // verus!
