//! What a command shows, by the way in which it was asked to speak.

use crate::show::OutputMode;
use crate::sorting::views;
use crate::spans::{push_unstyled, unstyled, Span, SpanModel};
use vstd::prelude::*;
use vstd::string::*;

verus! {

broadcast use vstd::string::group_string_axioms;

/// What a command shows.
#[derive(Debug)]
pub enum Shown {
    /// Nothing.
    Nothing,
    /// Its data, for a program to read.
    Data,
    /// Pieces of text in a panel with a title.
    Panel { title: String, body: Vec<Span> },
    /// Pieces of text, with the line ends that they hold.
    Text { body: Vec<Span> },
}

/// What a [`Shown`] says.
#[verifier::ext_equal]
pub enum ShownModel {
    Nothing,
    Data,
    Panel { title: Seq<char>, body: Seq<SpanModel> },
    Text { body: Seq<SpanModel> },
}

impl View for Shown {
    type V = ShownModel;

    open spec fn view(&self) -> ShownModel {
        match *self {
            Shown::Nothing => ShownModel::Nothing,
            Shown::Data => ShownModel::Data,
            Shown::Panel { title, body } => ShownModel::Panel { title: title@, body: views(body@) },
            Shown::Text { body } => ShownModel::Text { body: views(body@) },
        }
    }
}

/// What is shown of a panel, a text and their data: one of them, as the mode asks for.
pub open spec fn shown_in(
    mode: OutputMode,
    title: Seq<char>,
    panel: Seq<SpanModel>,
    text: Seq<SpanModel>,
) -> ShownModel {
    match mode {
        OutputMode::Quiet => ShownModel::Nothing,
        OutputMode::Json => ShownModel::Data,
        OutputMode::Toon => ShownModel::Data,
        OutputMode::Rich => ShownModel::Panel { title, body: panel },
        OutputMode::Plain => ShownModel::Text { body: text },
    }
}

pub fn shown(mode: OutputMode, title: &str, panel: Vec<Span>, text: Vec<Span>) -> (r: Shown)
    ensures
        r@ == shown_in(mode, title@, views(panel@), views(text@)),
{
    match mode {
        OutputMode::Quiet => Shown::Nothing,
        OutputMode::Json => Shown::Data,
        OutputMode::Toon => Shown::Data,
        OutputMode::Rich => Shown::Panel { title: title.to_owned(), body: panel },
        OutputMode::Plain => Shown::Text { body: text },
    }
}

/// One piece of text without a style.
pub open spec fn one_piece(text: Seq<char>) -> Seq<SpanModel> {
    seq![unstyled(text)]
}

pub fn one_span(text: &str) -> (r: Vec<Span>)
    ensures
        views(r@) == one_piece(text@),
{
    let mut out: Vec<Span> = Vec::new();
    push_unstyled(&mut out, text);
    assert(views(out@) =~= one_piece(text@));
    out
}

} // verus!
