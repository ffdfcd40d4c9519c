//! Promises of the `q` command.

use crate::error::ErrorModel;
use crate::model::StatusModel;
use crate::numbers::decimal;
use crate::q::{
    child_of, child_step_after, created_panel, drafted, label_warnings, labels_in, quick_issue,
    title_of, trimmed_parts, usable_labels, ChildStep, QuickRequest,
};
use crate::sanitize::one_line;
use crate::spans::{styled, unstyled, Role};
use crate::text::{has_text, join, opt_text, split, texts, trim};
use vstd::prelude::*;
use vstd::string::*;

verus! {

broadcast use vstd::string::group_string_axioms;

/// A quick issue is what was asked for: open, of the type and priority, with the labels and the
/// description that were given, and a child of the parent that was named.
pub proof fn law_quick_issues_are_what_was_asked(r: QuickRequest)
    requires
        drafted(r) is Ok,
    ensures
        ({
            let issue = drafted(r)->Ok_0;
            &&& issue.id == r.id@
            &&& issue.issue_type == r.issue_type@
            &&& issue.priority == r.priority
            &&& issue.description == opt_text(r.description)
            &&& issue.estimated_minutes == r.estimate
            &&& issue.labels == texts(r.labels@)
            &&& issue.status == StatusModel::Open
            &&& issue.created_by == Some(r.actor@)
            &&& issue.created_at == r.now
            &&& issue.updated_at == r.now
            &&& issue.title == trim(join(texts(r.title@), " "@))
            &&& r.parent_id is None ==> issue.dependencies.len() == 0
            &&& r.parent_id is Some ==> issue.dependencies.len() == 1
                && issue.dependencies[0].issue_id == r.id@ && issue.dependencies[0].depends_on_id
                == r.parent_id->0@ && issue.dependencies[0].dep_type == "parent-child"@
                && issue.dependencies[0].created_at == r.now && issue.dependencies[0].created_by
                == Some(r.actor@)
            &&& issue.closed_at is None
            &&& issue.deleted_at is None
            &&& issue.assignee is None
            &&& !issue.ephemeral && !issue.pinned && !issue.is_template
        }),
{
}

/// An issue can be made exactly where its title says something and its parent makes no cycle.
pub proof fn law_only_blank_titles_and_cycles_are_refused(r: QuickRequest)
    ensures
        drafted(r) is Ok <==> trim(join(texts(r.title@), " "@)).len() > 0 && !(r.parent_id is Some
            && r.parent_makes_cycle),
        trim(join(texts(r.title@), " "@)).len() == 0 ==> drafted(r) == Err::<
            crate::model::IssueModel,
            ErrorModel,
        >(ErrorModel::Validation { field: "title"@, reason: "cannot be empty"@ }),
        trim(join(texts(r.title@), " "@)).len() > 0 && r.parent_id is Some && r.parent_makes_cycle
            ==> drafted(r) == Err::<crate::model::IssueModel, ErrorModel>(
            ErrorModel::DependencyCycle { path: r.id@ + " -> "@ + r.parent_id->0@ },
        ),
{
}

/// An issue that could be made is refused only by what the store says of it, and carries the
/// hash of its content.
pub proof fn law_quick_issues_carry_their_hash(r: QuickRequest, hash: Seq<char>)
    requires
        drafted(r) is Ok,
    ensures
        quick_issue(r, hash, None) is Ok,
        quick_issue(r, hash, None)->Ok_0.content_hash == Some(hash),
        quick_issue(r, hash, None)->Ok_0.title == drafted(r)->Ok_0.title,
        quick_issue(r, hash, None)->Ok_0.issue_type == r.issue_type@,
        quick_issue(r, hash, None)->Ok_0.dependencies == drafted(r)->Ok_0.dependencies,
{
}

/// Words make a title with a space between any two, and without white space at either end.
pub proof fn law_titles_are_the_words(words: Seq<Seq<char>>)
    ensures
        title_of(words) is Ok <==> trim(join(words, " "@)).len() > 0,
        title_of(words) is Ok ==> title_of(words)->Ok_0 == trim(join(words, " "@)),
{
}

/// Labels are what stands between commas, without white space round it, as far as anything is
/// left; those of one value come behind those before it.
pub proof fn law_labels_stand_between_commas(values: Seq<Seq<char>>, more: Seq<char>)
    ensures
        labels_in(values.push(more)) == labels_in(values) + trimmed_parts(split(more, ',')),
{
    assert(values.push(more).drop_last() =~= values);
}

/// A part that says something is kept without white space round it, and a blank one is not.
pub proof fn law_blank_parts_are_no_labels(parts: Seq<Seq<char>>, more: Seq<char>)
    ensures
        trim(more).len() > 0 ==> trimmed_parts(parts.push(more)) == trimmed_parts(parts).push(
            trim(more),
        ),
        trim(more).len() == 0 ==> trimmed_parts(parts.push(more)) == trimmed_parts(parts),
{
    assert(parts.push(more).drop_last() =~= parts);
}

/// A label that nothing speaks against is used once, and one that is refused is warned of
/// instead.
pub proof fn law_each_label_is_used_or_warned_of(
    labels: Seq<Seq<char>>,
    refusals: Seq<Option<String>>,
    more: Seq<char>,
    refusal: Option<String>,
)
    requires
        refusals.len() == labels.len(),
    ensures
        ({
            let used = usable_labels(labels.push(more), refusals.push(refusal));
            let told = label_warnings(labels.push(more), refusals.push(refusal));
            let before = usable_labels(labels, refusals);
            match refusal {
                None => told == label_warnings(labels, refusals) && has_text(used, more) && (
                has_text(before, more) ==> used == before) && (!has_text(before, more) ==> used
                    == before.push(more)),
                Some(reason) => used == before && told == label_warnings(labels, refusals).push(
                    "Warning: invalid label '"@ + one_line(more) + "': "@ + one_line(reason@),
                ),
            }
        }),
{
    assert(labels.push(more).drop_last() =~= labels);
    lemma_usable_extend(labels, refusals, refusal);
    let before = usable_labels(labels, refusals);
    if refusal is None && !has_text(before, more) {
        let used = before.push(more);
        assert(used[used.len() - 1] == more);
        assert(has_text(used, more));
    }
}

proof fn lemma_usable_extend(
    labels: Seq<Seq<char>>,
    refusals: Seq<Option<String>>,
    refusal: Option<String>,
)
    requires
        refusals.len() >= labels.len(),
    ensures
        usable_labels(labels, refusals.push(refusal)) == usable_labels(labels, refusals),
        label_warnings(labels, refusals.push(refusal)) == label_warnings(labels, refusals),
    decreases labels.len(),
{
    if labels.len() > 0 {
        lemma_usable_extend(labels.drop_last(), refusals, refusal);
        assert(refusals.push(refusal)[labels.len() - 1] == refusals[labels.len() - 1]);
    }
}

/// A child is named by its parent and its number.
pub proof fn law_children_are_numbered(parent: Seq<char>, number: nat)
    ensures
        child_of(parent, number) == parent + "."@ + decimal(number),
{
}

/// A number that is free is used. One that is taken is followed by the next, up to a hundred
/// beyond the first, and then the search ends.
pub proof fn law_taken_numbers_are_passed_over(first: u32, number: u32)
    ensures
        child_step_after(first, number, false) == (ChildStep::Use { number }),
        number < first + 100 && number < u32::MAX ==> child_step_after(first, number, true) == (
        ChildStep::Try { number: (number + 1) as u32 }),
        number >= first + 100 || number == u32::MAX ==> child_step_after(first, number, true)
            == ChildStep::Exhausted,
{
}

/// What is told of a new issue names it and its title.
pub proof fn law_new_issues_are_told(id: Seq<char>, title: Seq<char>)
    ensures
        created_panel(id, title).contains(styled(id, Role::Emphasis)),
        created_panel(id, title).contains(unstyled(one_line(title))),
        created_panel(id, title)[1].text == "Created "@,
{
    assert(created_panel(id, title)[2] == styled(id, Role::Emphasis));
    assert(created_panel(id, title)[5] == unstyled(one_line(title)));
}

} // verus!
