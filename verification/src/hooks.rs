//! The `hooks` command: the trailer that names who made a commit.

use crate::error::{checked, validation, BeadsError, ErrorModel};
use crate::text::{
    chars_of, control, ends_with, has_prefix, has_suffix, is_control, lemma_is_first_index,
    lemma_lines_concat, lines, lines_of, opt_str, opt_text, same_text, starts_with, text3, texts,
    trim, trim_end, trimmed, trimmed_end, without_cr,
};
use vstd::prelude::*;
use vstd::string::*;

verus! {

broadcast use vstd::string::group_string_axioms;

/// The variables of the environment that may name the actor, the first of them first.
pub fn actor_env_keys() -> (r: Vec<String>)
    ensures
        texts(r@) == seq!["BR_ACTOR"@, "BD_ACTOR"@, "BEADS_ACTOR"@],
{
    let mut out: Vec<String> = Vec::new();
    out.push("BR_ACTOR".to_owned());
    out.push("BD_ACTOR".to_owned());
    out.push("BEADS_ACTOR".to_owned());
    assert(texts(out@) =~= seq!["BR_ACTOR"@, "BD_ACTOR"@, "BEADS_ACTOR"@]);
    out
}

/// A name without the white space around it, unless nothing is left.
pub open spec fn named(value: Option<Seq<char>>) -> Option<Seq<char>> {
    match value {
        Some(v) if trim(v).len() > 0 => Some(trim(v)),
        _ => None,
    }
}

/// The first value that names somebody.
pub open spec fn first_named(values: Seq<Option<String>>) -> Option<Seq<char>>
    decreases values.len(),
{
    if values.len() == 0 {
        None
    } else if named(opt_text(values[0])) is Some {
        named(opt_text(values[0]))
    } else {
        first_named(values.skip(1))
    }
}

/// Who the hook names: the actor of the command line, or else of the environment.
pub open spec fn hook_actor(given: Option<Seq<char>>, environment: Seq<Option<String>>) -> Option<
    Seq<char>,
> {
    if named(given) is Some {
        named(given)
    } else {
        first_named(environment)
    }
}

/// Who the hook names. `environment` holds the values of [`actor_env_keys`], in order.
pub fn resolve_hook_actor(actor_override: Option<&str>, environment: &Vec<Option<String>>) -> (r:
    Option<String>)
    ensures
        opt_text(r) == hook_actor(opt_str(actor_override), environment@),
{
    if let Some(given) = actor_override {
        let name = trimmed(given);
        if !name.as_str().is_empty() {
            return Some(name);
        }
    }
    let mut i: usize = 0;
    assert(environment@.skip(0) =~= environment@);
    while i < environment.len()
        invariant
            i <= environment@.len(),
            named(opt_str(actor_override)) is None,
            first_named(environment@) == first_named(environment@.skip(i as int)),
        decreases environment@.len() - i,
    {
        if let Some(value) = &environment[i] {
            let name = trimmed(value.as_str());
            if !name.as_str().is_empty() {
                return Some(name);
            }
        }
        assert(environment@.skip(i as int).skip(1) =~= environment@.skip(i + 1));
        i += 1;
    }
    None
}

/// Holds a control character.
pub open spec fn has_control(s: Seq<char>) -> bool {
    exists|i: int| 0 <= i < s.len() && control(#[trigger] s[i])
}

/// An actor is one printable line.
pub open spec fn actor_check(actor: Seq<char>) -> Result<(), ErrorModel> {
    if has_control(actor) {
        Err(
            ErrorModel::Validation {
                field: "actor"@,
                reason: "must be a single printable line"@,
            },
        )
    } else {
        Ok(())
    }
}

pub fn validate_actor(actor: &str) -> (r: Result<(), BeadsError>)
    ensures
        checked(r) == actor_check(actor@),
{
    let chars = chars_of(actor);
    let mut i: usize = 0;
    while i < chars.len()
        invariant
            i <= chars@.len(),
            chars@ == actor@,
            forall|k: int| 0 <= k < i ==> !control(#[trigger] actor@[k]),
        decreases chars@.len() - i,
    {
        if is_control(chars[i]) {
            assert(control(actor@[i as int]));
            return Err(validation("actor", "must be a single printable line"));
        }
        i += 1;
    }
    Ok(())
}

/// Some line of the message is the trailer.
pub open spec fn has_trailer(message_lines: Seq<Seq<char>>) -> bool {
    exists|i: int|
        0 <= i < message_lines.len() && starts_with(#[trigger] message_lines[i], "Executed-By:"@)
}

/// What sets the trailer off from the message.
pub open spec fn trailer_separator(content: Seq<char>) -> Seq<char> {
    if trim_end(content).len() == 0 {
        ""@
    } else if ends_with(content, "\n"@) {
        "\n"@
    } else {
        "\n\n"@
    }
}

/// What is added to a message, unless it has the trailer.
pub open spec fn trailer(content: Seq<char>, actor: Seq<char>) -> Option<Seq<char>> {
    if has_trailer(lines(content)) {
        None
    } else {
        Some(trailer_separator(content) + "Executed-By: "@ + actor + "\n"@)
    }
}

pub fn trailer_for(content: &str, actor: &str) -> (r: Option<String>)
    ensures
        opt_text(r) == trailer(content@, actor@),
{
    let message_lines = lines_of(content);
    let ghost all = texts(message_lines@);
    let mut i: usize = 0;
    while i < message_lines.len()
        invariant
            i <= message_lines@.len(),
            all == texts(message_lines@),
            all == lines(content@),
            forall|k: int|
                0 <= k < i ==> !starts_with(#[trigger] all[k], "Executed-By:"@),
        decreases message_lines@.len() - i,
    {
        assert(all[i as int] == message_lines@[i as int]@);
        if has_prefix(message_lines[i].as_str(), "Executed-By:") {
            return None;
        }
        i += 1;
    }
    let rest = trimmed_end(content);
    let separator = if rest.as_str().is_empty() {
        ""
    } else if has_suffix(content, "\n") {
        "\n"
    } else {
        "\n\n"
    };
    let mut out = text3(separator, "Executed-By: ", actor);
    out.append("\n");
    Some(out)
}

/// The actor that the trailer names, where there is to be one: a merge gets none.
pub open spec fn trailer_actor(source: Option<Seq<char>>, actor: Option<Seq<char>>) -> Result<
    Option<Seq<char>>,
    ErrorModel,
> {
    if source == Some("merge"@) {
        Ok(None)
    } else {
        match actor {
            None => Ok(None),
            Some(name) => match actor_check(name) {
                Ok(()) => Ok(Some(name)),
                Err(e) => Err(e),
            },
        }
    }
}

/// Decides before the message is read whether there is to be a trailer, and whom it names.
pub fn begin_prepare_commit_msg(source: Option<&str>, actor: Option<String>) -> (r: Result<
    Option<String>,
    BeadsError,
>)
    ensures
        match r {
            Ok(name) => trailer_actor(opt_str(source), opt_text(actor)) == Ok::<
                Option<Seq<char>>,
                ErrorModel,
            >(opt_text(name)),
            Err(e) => trailer_actor(opt_str(source), opt_text(actor)) == Err::<
                Option<Seq<char>>,
                ErrorModel,
            >(e.model()),
        },
{
    if let Some(kind) = source {
        if same_text(kind, "merge") {
            return Ok(None);
        }
    }
    match actor {
        None => Ok(None),
        Some(name) => match validate_actor(name.as_str()) {
            Ok(()) => Ok(Some(name)),
            Err(e) => Err(e),
        },
    }
}

/// What is added to the message of a commit, if anything.
pub open spec fn message_addition(
    source: Option<Seq<char>>,
    actor: Option<Seq<char>>,
    content: Seq<char>,
) -> Result<Option<Seq<char>>, ErrorModel> {
    match trailer_actor(source, actor) {
        Err(e) => Err(e),
        Ok(None) => Ok(None),
        Ok(Some(name)) => Ok(trailer(content, name)),
    }
}

/// The addition, none, or what the error says.
pub open spec fn addition_or_error(r: Result<Option<String>, BeadsError>) -> Result<
    Option<Seq<char>>,
    ErrorModel,
> {
    match r {
        Ok(text) => Ok(opt_text(text)),
        Err(e) => Err(e.model()),
    }
}

/// What is added to the message of a commit, if anything.
pub fn apply_prepare_commit_msg(source: Option<&str>, actor: Option<String>, content: &str) -> (r:
    Result<Option<String>, BeadsError>)
    ensures
        addition_or_error(r) == message_addition(opt_str(source), opt_text(actor), content@),
{
    match begin_prepare_commit_msg(source, actor) {
        Err(e) => Err(e),
        Ok(None) => Ok(None),
        Ok(Some(name)) => Ok(trailer_for(content, name.as_str())),
    }
}

/// Runs the hook on a message. `environment` holds the values of [`actor_env_keys`].
pub fn execute(
    source: Option<&str>,
    actor_override: Option<&str>,
    environment: &Vec<Option<String>>,
    content: &str,
) -> (r: Result<Option<String>, BeadsError>)
    ensures
        addition_or_error(r) == message_addition(
            opt_str(source),
            hook_actor(opt_str(actor_override), environment@),
            content@,
        ),
{
    let actor = resolve_hook_actor(actor_override, environment);
    apply_prepare_commit_msg(source, actor, content)
}

/// The error of a message that cannot be read.
pub fn unreadable_message(path: &str, error: &str) -> (r: BeadsError)
    ensures
        r.model() == ErrorModel::Config(
            "cannot read commit message '"@ + path@ + "': "@ + error@,
        ),
{
    let mut out = text3("cannot read commit message '", path, "': ");
    out.append(error);
    BeadsError::Config(out)
}

/// The error of a message that cannot be added to.
pub fn unwritable_message(path: &str, error: &str) -> (r: BeadsError)
    ensures
        r.model() == ErrorModel::Config(
            "cannot update commit message '"@ + path@ + "': "@ + error@,
        ),
{
    let mut out = text3("cannot update commit message '", path, "': ");
    out.append(error);
    BeadsError::Config(out)
}

/// A message whose text is broken off within a blank line gets its trailer on that line.
pub open spec fn broken_blank_line(content: Seq<char>) -> bool {
    trim_end(content).len() == 0 && content.len() > 0 && content.last() != '\n'
}

proof fn lemma_trailer_line(actor: Seq<char>)
    requires
        !has_control(actor),
    ensures
        has_trailer(lines("Executed-By: "@ + actor + "\n"@)),
{
    reveal_strlit("Executed-By: ");
    reveal_strlit("Executed-By:");
    reveal_strlit("\n");
    let line = "Executed-By: "@ + actor;
    let text = line + "\n"@;
    assert forall|i: int| 0 <= i < line.len() implies text[i] != '\n' by {
        if i >= "Executed-By: "@.len() {
            let c = actor[i - "Executed-By: "@.len()];
            assert(!control(c));
            assert(control('\n'));
        }
    }
    lemma_is_first_index(text, '\n', line.len() as int);
    let first = without_cr(text.take(line.len() as int));
    assert(text.take(line.len() as int) =~= line);
    assert(lines(text)[0] == first);
    assert(starts_with(first, "Executed-By:"@)) by {
        let head = "Executed-By:"@;
        assert(first.len() >= head.len());
        assert forall|i: int| 0 <= i < head.len() implies first[i] == head[i] by {}
        assert(first.take(head.len() as int) =~= head);
    }
    assert(starts_with(lines(text)[0], "Executed-By:"@));
}

/// The trailer is added once: a message that it was added to gets no other, unless the
/// message was broken off within a blank line.
pub proof fn law_trailer_is_added_once(content: Seq<char>, actor: Seq<char>, again: Seq<char>)
    requires
        !has_control(actor),
        !broken_blank_line(content),
        trailer(content, actor) is Some,
    ensures
        trailer(content + trailer(content, actor)->0, again) is None,
{
    reveal_strlit("");
    reveal_strlit("\n");
    reveal_strlit("\n\n");
    let separator = trailer_separator(content);
    let line = "Executed-By: "@ + actor + "\n"@;
    let before = content + separator;
    let added = trailer(content, actor)->0;
    assert(added =~= separator + line);
    assert(content + added =~= before + line);
    assert(before.len() == 0 || before.last() == '\n') by {
        if separator.len() == 0 {
            assert(before =~= content);
        } else {
            assert(before.last() == separator.last());
        }
    }
    lemma_lines_concat(before, line);
    lemma_trailer_line(actor);
    let all = lines(before) + lines(line);
    let i = choose|i: int|
        0 <= i < lines(line).len() && starts_with(#[trigger] lines(line)[i], "Executed-By:"@);
    assert(all[lines(before).len() + i] == lines(line)[i]);
    assert(has_trailer(all));
}

} // verus!
