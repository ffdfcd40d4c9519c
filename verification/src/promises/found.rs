//! Promises of how `show` finds the issues that it was asked for.

use crate::error::ErrorModel;
use crate::model::{IssueModel, StatusModel};
use crate::numbers::decimal;
use crate::paths::same_path;
use crate::show::{
    issues_shown, new_blocks, show_plan, shown_ids, sources, BatchModel, Opened, OutputFormat,
    PlanModel,
};
use crate::show_external::{
    all_looked_up, answers, before_dot, direct_ids, exact_details, external_parts, external_title,
    ids_answering, jsonl_details, lines_check, looked_up, met, resolved_details,
    with_external_status, with_external_statuses, with_prefix, KnownId, StorageLookup,
};
use crate::show_jsonl::{
    details_of, find_issue, issues_on, latest, DetailsModel, InheritedBlock, LineModel,
    MetadataModel,
};
use crate::text::{
    first_index, has_text, lemma_first_index, lemma_is_first_index, occurs, starts_with, trim,
    unicode_lowercase,
};
use vstd::prelude::*;
use vstd::string::*;

verus! {

broadcast use vstd::string::group_string_axioms;

/// The issues that are shown are those asked for, and the one last touched where none was.
pub proof fn law_asked_issues_are_shown(ids: Seq<Seq<char>>, last: Seq<char>)
    ensures
        ids.len() > 0 ==> shown_ids(ids, last) == Ok::<Seq<Seq<char>>, ErrorModel>(ids),
        ids.len() == 0 && last.len() > 0 ==> shown_ids(ids, last) == Ok::<
            Seq<Seq<char>>,
            ErrorModel,
        >(seq![last]),
        ids.len() == 0 && last.len() == 0 ==> shown_ids(ids, last) == Err::<
            Seq<Seq<char>>,
            ErrorModel,
        >(
            ErrorModel::Validation {
                field: "ids"@,
                reason: "no issue IDs provided and no last-touched issue"@,
            },
        ),
{
}

/// Issues are gathered from several workspaces exactly where one of them is elsewhere. Then
/// every batch is read where it lies: under a lock and newly opened, but for the caller's own,
/// which is read from what the caller has opened.
pub proof fn law_batches_are_read_where_they_lie(
    ids: Seq<Seq<char>>,
    format: OutputFormat,
    last: Seq<char>,
    here: Seq<char>,
    batches: Seq<BatchModel>,
    opened: Opened,
)
    requires
        shown_ids(ids, last) is Ok,
    ensures
        ({
            let plan = show_plan(ids, format, last, here, batches, opened);
            let elsewhere = exists|i: int|
                0 <= i < batches.len() && (#[trigger] batches[i]).is_external;
            &&& plan is Ok
            &&& !elsewhere ==> plan->Ok_0 == (PlanModel::Local {
                target_ids: shown_ids(ids, last)->Ok_0,
                opened,
            })
            &&& elsewhere ==> plan->Ok_0 is Routed && plan->Ok_0->Routed_target_ids == shown_ids(
                ids,
                last,
            )->Ok_0 && (plan->Ok_0->structured <==> format == OutputFormat::Json || format
                == OutputFormat::Toon) && plan->Ok_0->batches.len() == batches.len() && forall|
                i: int,
            |
                0 <= i < batches.len() ==> {
                    let b = #[trigger] plan->Ok_0->batches[i];
                    &&& b.issue_inputs == batches[i].issue_inputs
                    &&& b.beads_dir == batches[i].beads_dir
                    &&& b.under_lock <==> !same_path(batches[i].beads_dir, here)
                    &&& b.opened == if same_path(batches[i].beads_dir, here) {
                        opened
                    } else {
                        Opened::Nothing
                    }
                }
        }),
{
}

/// One issue more is shown at the end, behind an empty line where it is not the first, and
/// behind its context on lines of their own where it has one.
pub proof fn law_each_issue_is_shown_behind_its_context(
    contexts: Seq<Option<String>>,
    bodies: Seq<String>,
    context: Option<String>,
    body: String,
)
    requires
        contexts.len() == bodies.len(),
    ensures
        ({
            let all = issues_shown(contexts.push(context), bodies.push(body));
            let gap = if bodies.len() > 0 {
                "\n"@
            } else {
                Seq::empty()
            };
            &&& context is None ==> all == issues_shown(contexts, bodies) + gap + body@
            &&& context is Some && context->0@.len() > 0 && context->0@.last() == '\n' ==> all
                == issues_shown(contexts, bodies) + gap + context->0@ + body@
            &&& context is Some && (context->0@.len() == 0 || context->0@.last() != '\n') ==> all
                == issues_shown(contexts, bodies) + gap + context->0@ + "\n"@ + body@
        }),
{
    reveal_strlit("");
    reveal_strlit("\n");
    assert(contexts.push(context).drop_last() =~= contexts);
    assert(bodies.push(body).drop_last() =~= bodies);
    let all = issues_shown(contexts.push(context), bodies.push(body));
    let before = issues_shown(contexts, bodies);
    let gap = if bodies.len() > 0 {
        "\n"@
    } else {
        Seq::empty()
    };
    match context {
        None => {
            assert(all =~= before + gap + body@);
        },
        Some(text) => {
            let t = text@;
            if t.len() > 0 && t.last() == '\n' {
                assert(t.skip(t.len() - 1) =~= "\n"@);
                assert(all =~= before + gap + t + body@);
            } else {
                if t.len() > 0 {
                    assert(t.skip(t.len() - 1)[0] == t.last());
                    assert("\n"@[0] == '\n');
                }
                assert(all =~= before + gap + t + "\n"@ + body@);
            }
        },
    }
}

/// A block of context is shown where its source was not shown before, and else left out.
pub proof fn law_each_source_is_shown_when_new(
    shown: Seq<Seq<char>>,
    blocks: Seq<InheritedBlock>,
    more: InheritedBlock,
)
    ensures
        new_blocks(shown, blocks.push(more)) == if has_text(
            shown + sources(new_blocks(shown, blocks)),
            more.source_id@,
        ) {
            new_blocks(shown, blocks)
        } else {
            new_blocks(shown, blocks).push(more)
        },
{
    assert(blocks.push(more).drop_last() =~= blocks);
}

/// A full id is taken as it is, and a bare one gets the prefix of the workspace.
pub proof fn law_bare_ids_get_the_prefix(id: Seq<char>, prefix: Seq<char>)
    ensures
        id.contains('-') ==> with_prefix(id, prefix) == id,
        !id.contains('-') ==> with_prefix(id, prefix) == prefix + "-"@ + id,
{
    lemma_first_index(id, '-');
    if id.contains('-') {
        let i = choose|i: int| 0 <= i < id.len() && id[i] == '-';
        assert(id[i] == '-');
    }
}

/// Words are taken for ids without white space round them and in lower case, one for one; where
/// one of them is blank they are not taken for ids at all.
pub proof fn law_words_are_taken_for_ids(inputs: Seq<Seq<char>>, prefix: Seq<char>, i: int)
    requires
        0 <= i < inputs.len(),
    ensures
        trim(inputs[i]).len() == 0 ==> direct_ids(inputs, prefix) is None,
        (forall|j: int| 0 <= j < inputs.len() ==> trim(#[trigger] inputs[j]).len() > 0) ==> {
            let ids = direct_ids(inputs, prefix);
            &&& ids is Some
            &&& ids->0.len() == inputs.len()
            &&& ids->0[i] == with_prefix(unicode_lowercase(trim(inputs[i])), prefix)
        },
{
}

/// A part of a hash finds every id whose hash holds it; with a dot the child numbers must be
/// the same, and without one they do not matter.
pub proof fn law_parts_of_a_hash_find_ids(
    hash: Seq<char>,
    children: Seq<char>,
    part: Seq<char>,
    others: Seq<char>,
)
    requires
        !hash.contains('.'),
        !part.contains('.'),
    ensures
        answers(hash, part) <==> occurs(hash, part),
        answers(hash + seq!['.'] + children, part) <==> occurs(hash, part),
        answers(hash + seq!['.'] + children, part + seq!['.'] + others) <==> occurs(hash, part)
            && children == others,
        !answers(hash, part + seq!['.'] + others),
{
    lemma_dot_in(hash, children);
    lemma_dot_in(part, others);
    lemma_no_dot(hash);
    lemma_no_dot(part);
}

proof fn lemma_no_dot(s: Seq<char>)
    requires
        !s.contains('.'),
    ensures
        first_index(s, '.') == s.len(),
        before_dot(s) == s,
{
    lemma_first_index(s, '.');
    if first_index(s, '.') < s.len() {
        assert(s.contains(s[first_index(s, '.')]));
    }
    assert(s.take(s.len() as int) =~= s);
}

proof fn lemma_dot_in(a: Seq<char>, b: Seq<char>)
    requires
        !a.contains('.'),
    ensures
        ({
            let s = a + seq!['.'] + b;
            first_index(s, '.') == a.len() && s.take(a.len() as int) == a && s.skip(
                a.len() as int + 1,
            ) == b
        }),
{
    let s = a + seq!['.'] + b;
    assert forall|i: int| 0 <= i < a.len() implies s[i] != '.' by {
        assert(a.contains(a[i]));
    }
    lemma_is_first_index(s, '.', a.len() as int);
    assert(s.take(a.len() as int) =~= a);
    assert(s.skip(a.len() as int + 1) =~= b);
}

/// Every known id that answers is found, in order, and no other.
pub proof fn law_every_answering_id_is_found(known: Seq<KnownId>, search: Seq<char>, more: KnownId)
    ensures
        ids_answering(known.push(more), search) == if more.remainder is Some && answers(
            more.remainder->0@,
            search,
        ) {
            ids_answering(known, search).push(more.id@)
        } else {
            ids_answering(known, search)
        },
{
    assert(known.push(more).drop_last() =~= known);
}

/// An id outside the workspace names a project and a capability, both of them; the capability
/// may itself hold colons.
pub proof fn law_external_ids_name_project_and_capability(
    project: Seq<char>,
    capability: Seq<char>,
    satisfied: bool,
)
    requires
        !project.contains(':'),
    ensures
        ({
            let id = "external:"@ + project + ":"@ + capability;
            let mark = if satisfied {
                "✓"@
            } else {
                "⏳"@
            };
            &&& project.len() > 0 && capability.len() > 0 ==> external_parts(id) == Some(
                (project, capability),
            ) && external_title(id, satisfied) == mark + " "@ + project + ":"@ + capability
            &&& project.len() == 0 || capability.len() == 0 ==> external_parts(id) is None
                && external_title(id, satisfied) == mark + " "@ + id
        }),
{
    reveal_strlit("external:");
    reveal_strlit("external");
    reveal_strlit(":");
    let id = "external:"@ + project + ":"@ + capability;
    lemma_is_first_index(id, ':', 8);
    assert(id.take(8) =~= "external"@);
    let rest = id.skip(9);
    assert(rest =~= project + seq![':'] + capability);
    assert forall|i: int| 0 <= i < project.len() implies rest[i] != ':' by {
        assert(project.contains(project[i]));
    }
    lemma_is_first_index(rest, ':', project.len() as int);
    assert(rest.take(project.len() as int) =~= project);
    assert(rest.skip(project.len() as int + 1) =~= capability);
}

/// Whether an outside dependency is met is what was first found of it, and not met where
/// nothing was.
pub proof fn law_met_is_what_was_found(statuses: Seq<(String, bool)>, id: Seq<char>, i: int)
    ensures
        0 <= i < statuses.len() && statuses[i].0@ == id && (forall|j: int|
            0 <= j < i ==> (#[trigger] statuses[j]).0@ != id) ==> met(statuses, id)
            == statuses[i].1,
        (forall|j: int| 0 <= j < statuses.len() ==> (#[trigger] statuses[j]).0@ != id) ==> !met(
            statuses,
            id,
        ),
    decreases statuses.len(),
{
    if statuses.len() > 0 {
        let rest = statuses.skip(1);
        law_met_is_what_was_found(rest, id, i - 1);
        assert forall|j: int| 0 <= j < rest.len() implies #[trigger] rest[j] == statuses[j + 1] by {
        }
    }
}

/// An outside dependency is closed where it is met and blocked where it is not; its title is
/// made where it had none of its own, and all else stays.
pub proof fn law_outside_dependencies_are_closed_or_blocked(
    item: MetadataModel,
    satisfied: bool,
)
    ensures
        ({
            let out = with_external_status(item, satisfied);
            let outside = starts_with(item.id, "external:"@);
            let unnamed = item.title.len() == 0 || "external:"@ + item.title == item.id;
            &&& out.id == item.id
            &&& out.priority == item.priority
            &&& out.dep_type == item.dep_type
            &&& !outside ==> out == item
            &&& outside && satisfied ==> out.status == StatusModel::Closed
            &&& outside && !satisfied ==> out.status == StatusModel::Blocked
            &&& outside && unnamed ==> out.title == external_title(item.id, satisfied)
            &&& outside && !unnamed ==> out.title == item.title
        }),
{
    reveal_strlit("external:");
    if starts_with(item.id, "external:"@) {
        assert("external:"@ + item.id.skip(9) =~= item.id);
        if "external:"@ + item.title == item.id {
            assert(item.id.skip(9) =~= item.title);
        }
    }
}

/// Every line of dependencies is looked at.
pub proof fn law_every_outside_dependency_is_settled(
    items: Seq<MetadataModel>,
    statuses: Seq<(String, bool)>,
    i: int,
)
    requires
        0 <= i < items.len(),
    ensures
        with_external_statuses(items, statuses).len() == items.len(),
        with_external_statuses(items, statuses)[i] == with_external_status(
            items[i],
            met(statuses, items[i].id),
        ),
{
}

/// Lines can be read exactly where none of them is broken; the first that is is told by its
/// number.
pub proof fn law_lines_are_read_unless_broken(lines: Seq<LineModel>, i: int)
    ensures
        lines_check(lines, 0) is Ok <==> forall|j: int|
            0 <= j < lines.len() ==> !((#[trigger] lines[j]) is Invalid),
        0 <= i < lines.len() && lines[i] is Invalid && (forall|j: int|
            0 <= j < i ==> !((#[trigger] lines[j]) is Invalid)) ==> lines_check(lines, 0) == Err::<
            (),
            ErrorModel,
        >(
            ErrorModel::Config(
                "Invalid JSON at line "@ + decimal((i + 1) as nat) + ": "@
                    + lines[i]->Invalid_error,
            ),
        ),
{
    lemma_lines_check(lines, 0, i);
}

proof fn lemma_lines_check(lines: Seq<LineModel>, from: nat, i: int)
    ensures
        lines_check(lines, from) is Ok <==> forall|j: int|
            from <= j < lines.len() ==> !((#[trigger] lines[j]) is Invalid),
        from <= i < lines.len() && lines[i] is Invalid && (forall|j: int|
            from <= j < i ==> !((#[trigger] lines[j]) is Invalid)) ==> lines_check(lines, from)
            == Err::<(), ErrorModel>(
            ErrorModel::Config(
                "Invalid JSON at line "@ + decimal((i + 1) as nat) + ": "@
                    + lines[i]->Invalid_error,
            ),
        ),
    decreases lines.len() - from,
{
    if from < lines.len() {
        lemma_lines_check(lines, from + 1, i);
        if lines_check(lines, from) is Ok {
            assert(!(lines[from as int] is Invalid));
        } else if !(lines[from as int] is Invalid) {
            let j = choose|j: int| from + 1 <= j < lines.len() && (#[trigger] lines[j]) is Invalid;
            assert(lines[j] is Invalid);
        }
    }
}

/// The details are those of the issues that were asked for, in that order; the first that was
/// not resolved, or is not there, is told.
pub proof fn law_each_resolved_issue_has_its_details(
    resolved: Seq<Result<Seq<char>, ErrorModel>>,
    issues: Seq<IssueModel>,
    more: Result<Seq<char>, ErrorModel>,
)
    ensures
        ({
            let before = resolved_details(resolved, issues);
            resolved_details(resolved.push(more), issues) == match (before, more) {
                (Err(e), _) => Err::<Seq<DetailsModel>, ErrorModel>(e),
                (_, Err(e)) => Err::<Seq<DetailsModel>, ErrorModel>(e),
                (Ok(list), Ok(id)) => match find_issue(issues, id) {
                    Some(issue) => Ok::<Seq<DetailsModel>, ErrorModel>(
                        list.push(details_of(issue, issues)),
                    ),
                    None => Err::<Seq<DetailsModel>, ErrorModel>(
                        ErrorModel::IssueNotFound { id },
                    ),
                },
            }
        }),
{
    assert(resolved.push(more).drop_last() =~= resolved);
}

/// Where the words are no ids that are all there, the resolved ids decide, on the latest of
/// each issue; else what they name is shown.
pub proof fn law_unknown_words_are_resolved(
    inputs: Seq<Seq<char>>,
    prefix: Seq<char>,
    lines: Seq<LineModel>,
    path: Seq<char>,
    resolved: Seq<Result<Seq<char>, ErrorModel>>,
)
    ensures
        ({
            let exact = exact_details(inputs, prefix, lines, path);
            let all = jsonl_details(inputs, prefix, lines, path, resolved);
            match exact {
                Err(e) => all == Err::<Seq<DetailsModel>, ErrorModel>(e),
                Ok(Some(list)) => all == Ok::<Seq<DetailsModel>, ErrorModel>(list),
                Ok(None) => lines_check(lines, 0) is Ok ==> all == resolved_details(
                    resolved,
                    latest(issues_on(lines)),
                ),
            }
        }),
{
}

/// Every lookup is answered in its place, and the first that fails stops the command.
pub proof fn law_every_lookup_is_answered(
    lookups: Seq<StorageLookup>,
    statuses: Seq<(String, bool)>,
    more: StorageLookup,
)
    ensures
        all_looked_up(lookups.push(more), statuses) == match all_looked_up(lookups, statuses) {
            Err(e) => Err::<Seq<DetailsModel>, ErrorModel>(e),
            Ok(before) => match looked_up(more, statuses) {
                Err(e) => Err::<Seq<DetailsModel>, ErrorModel>(e),
                Ok(details) => Ok::<Seq<DetailsModel>, ErrorModel>(before.push(details)),
            },
        },
{
    assert(lookups.push(more).drop_last() =~= lookups);
}

/// Where the resolved ids decide, a broken line is told before any of them.
pub proof fn law_broken_lines_are_told_first(
    inputs: Seq<Seq<char>>,
    prefix: Seq<char>,
    lines: Seq<LineModel>,
    path: Seq<char>,
    resolved: Seq<Result<Seq<char>, ErrorModel>>,
)
    requires
        exact_details(inputs, prefix, lines, path) == Ok::<Option<Seq<DetailsModel>>, ErrorModel>(
            None,
        ),
    ensures
        (exists|j: int| 0 <= j < lines.len() && (#[trigger] lines[j]) is Invalid)
            ==> jsonl_details(inputs, prefix, lines, path, resolved) == Err::<
            Seq<DetailsModel>,
            ErrorModel,
        >(lines_check(lines, 0)->Err_0),
{
    lemma_lines_check(lines, 0, 0);
}

} // verus!
