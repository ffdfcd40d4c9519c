//! Promises of what `show` reads from a file of issues.

use crate::error::ErrorModel;
use crate::model::{not_after, DependencyModel, IssueModel, StatusModel};
use crate::numbers::decimal;
use crate::show_jsonl::{
    dependency_entry, dependent_entries, dependent_entry, details_of, entries_towards, entry_le,
    find_issue, find_summary, has_issue, index_of, issues_on, latest, parent_in, scan_check, shown,
    summary_of, EntryModel, LineModel, MetadataModel, SummaryModel,
};
use crate::sorting::{law_sort_is_permutation, stable_sort, text_le};
use crate::text::{has_text, starts_with};
use vstd::prelude::*;
use vstd::string::*;

verus! {

broadcast use vstd::string::group_string_axioms;

/// An issue is found by its id, the last one where several have it, and none where none has.
pub proof fn law_the_last_issue_with_the_id_is_found(
    issues: Seq<IssueModel>,
    id: Seq<char>,
    i: int,
)
    ensures
        0 <= i < issues.len() && issues[i].id == id && (forall|j: int|
            i < j < issues.len() ==> (#[trigger] issues[j]).id != id) ==> find_issue(issues, id)
            == Some(issues[i]),
        find_issue(issues, id) is None <==> forall|j: int|
            0 <= j < issues.len() ==> (#[trigger] issues[j]).id != id,
    decreases issues.len(),
{
    if issues.len() > 0 {
        let rest = issues.drop_last();
        law_the_last_issue_with_the_id_is_found(rest, id, i);
        assert forall|j: int| 0 <= j < rest.len() implies #[trigger] rest[j] == issues[j] by {}
        assert(issues.last() == issues[issues.len() - 1]);
        if find_issue(issues, id) is None {
            assert forall|j: int| 0 <= j < issues.len() implies (#[trigger] issues[j]).id != id by {
                if j < rest.len() {
                    assert(rest[j].id != id);
                }
            }
        } else if issues.last().id != id {
            let j = choose|j: int| 0 <= j < rest.len() && (#[trigger] rest[j]).id == id;
            assert(issues[j].id == id);
        }
        if 0 <= i < rest.len() {
            assert(rest[i] == issues[i]);
        }
    }
}

/// A summary is found by its id, the last one where several have it.
pub proof fn law_the_last_summary_with_the_id_is_found(
    all: Seq<SummaryModel>,
    id: Seq<char>,
    i: int,
)
    ensures
        0 <= i < all.len() && all[i].id == id && (forall|j: int|
            i < j < all.len() ==> (#[trigger] all[j]).id != id) ==> find_summary(all, id) == Some(
            all[i],
        ),
        (forall|j: int| 0 <= j < all.len() ==> (#[trigger] all[j]).id != id) ==> find_summary(
            all,
            id,
        ) is None,
    decreases all.len(),
{
    if all.len() > 0 {
        let rest = all.drop_last();
        law_the_last_summary_with_the_id_is_found(rest, id, i);
        assert forall|j: int| 0 <= j < rest.len() implies #[trigger] rest[j] == all[j] by {}
        assert(all.last() == all[all.len() - 1]);
        if 0 <= i < rest.len() {
            assert(rest[i] == all[i]);
        }
    }
}

/// A dependency is shown with what is known of the issue it names. One outside the workspace is
/// shown as blocked under its own name, and one that is nowhere as deleted and missing.
pub proof fn law_dependencies_are_shown_as_known(dep: DependencyModel, target: SummaryModel)
    ensures
        ({
            let e = dependency_entry(dep, Some(target));
            &&& e.item.id == target.id
            &&& e.item.title == target.title
            &&& e.item.status == target.status
            &&& e.item.priority == target.priority
            &&& e.item.dep_type == dep.dep_type
            &&& e.priority == target.priority
            &&& e.created_at == target.created_at
        }),
        ({
            let e = dependency_entry(dep, None);
            &&& e.item.id == dep.depends_on_id
            &&& e.item.dep_type == dep.dep_type
            &&& e.item.priority.level == 2
            &&& e.priority.level == 2
            &&& e.created_at == dep.created_at
            &&& starts_with(dep.depends_on_id, "external:"@) ==> e.item.status
                == StatusModel::Blocked && "external:"@ + e.item.title == dep.depends_on_id
            &&& !starts_with(dep.depends_on_id, "external:"@) ==> e.item.status
                == StatusModel::Tombstone && e.item.title == "[missing issue: "@
                + dep.depends_on_id + "]"@
        }),
{
    reveal_strlit("external:");
    if starts_with(dep.depends_on_id, "external:"@) {
        assert("external:"@ + dep.depends_on_id.skip(9) =~= dep.depends_on_id);
    }
}

/// What is more urgent comes first, then what is newer, then what has the smaller id.
pub proof fn law_urgent_and_new_come_first(a: EntryModel, b: EntryModel)
    ensures
        a.priority.level < b.priority.level ==> entry_le(a, b) && !entry_le(b, a),
        a.priority.level == b.priority.level && !not_after(a.created_at, b.created_at)
            && not_after(b.created_at, a.created_at) && a.created_at != b.created_at ==> entry_le(
            a,
            b,
        ) && !entry_le(b, a),
        a.priority.level == b.priority.level && a.created_at == b.created_at && not_after(
            a.created_at,
            a.created_at,
        ) ==> (entry_le(a, b) <==> text_le(a.item.id, b.item.id)),
{
}

/// Every entry is shown once, and nothing else is.
pub proof fn law_every_entry_is_shown(entries: Seq<EntryModel>, i: int)
    requires
        0 <= i < entries.len(),
    ensures
        shown(entries).len() == entries.len(),
        shown(entries).contains(entries[i].item),
{
    let le = |a: EntryModel, b: EntryModel| entry_le(a, b);
    law_sort_is_permutation(entries, le);
    let sorted = stable_sort(entries, le);
    broadcast use vstd::seq_lib::group_to_multiset_ensures;

    assert(entries.contains(entries[i]));
    assert(sorted.to_multiset().count(entries[i]) > 0);
    assert(sorted.contains(entries[i]));
    let at = choose|at: int| 0 <= at < sorted.len() && sorted[at] == entries[i];
    assert(shown(entries)[at] == entries[i].item);
}

/// Every dependency of an issue is among those of its details, with its type.
pub proof fn law_details_hold_every_dependency(issue: IssueModel, issues: Seq<IssueModel>, i: int)
    requires
        0 <= i < issue.dependencies.len(),
    ensures
        details_of(issue, issues).dependencies.len() == issue.dependencies.len(),
        exists|k: int|
            0 <= k < details_of(issue, issues).dependencies.len() && (
            #[trigger] details_of(issue, issues).dependencies[k]).dep_type
                == issue.dependencies[i].dep_type && (details_of(issue, issues).dependencies[k].id
                == issue.dependencies[i].depends_on_id),
{
    let summaries = crate::show_jsonl::summaries_of(issues);
    let entries = crate::show_jsonl::dependency_entries(issue.dependencies, summaries);
    law_every_entry_is_shown(entries, i);
    let dep = issue.dependencies[i];
    lemma_summary_id(summaries, dep.depends_on_id);
    let out = details_of(issue, issues).dependencies;
    let k = choose|k: int| 0 <= k < out.len() && out[k] == entries[i].item;
    assert(out[k].dep_type == dep.dep_type && out[k].id == dep.depends_on_id);
}

proof fn lemma_summary_id(all: Seq<SummaryModel>, id: Seq<char>)
    ensures
        find_summary(all, id) is Some ==> find_summary(all, id)->0.id == id,
    decreases all.len(),
{
    if all.len() > 0 {
        lemma_summary_id(all.drop_last(), id);
    }
}

/// Every issue that depends on one is among the dependents of its details, with the type of
/// that dependency.
pub proof fn law_details_hold_every_dependent(
    issue: IssueModel,
    issues: Seq<IssueModel>,
    i: int,
    j: int,
)
    requires
        0 <= i < issues.len(),
        0 <= j < issues[i].dependencies.len(),
        issues[i].dependencies[j].depends_on_id == issue.id,
    ensures
        details_of(issue, issues).dependents.contains(
            (MetadataModel {
                id: issues[i].id,
                title: issues[i].title,
                status: issues[i].status,
                priority: issues[i].priority,
                dep_type: issues[i].dependencies[j].dep_type,
            }),
        ),
{
    lemma_dependent_there(issues, issue.id, i, j);
    let entries = dependent_entries(issues, issue.id);
    let wanted = dependent_entry(issues[i], issues[i].dependencies[j].dep_type);
    let k = choose|k: int| 0 <= k < entries.len() && entries[k] == wanted;
    law_every_entry_is_shown(entries, k);
}

proof fn lemma_towards_there(
    issue: IssueModel,
    deps: Seq<DependencyModel>,
    target: Seq<char>,
    j: int,
)
    requires
        0 <= j < deps.len(),
        deps[j].depends_on_id == target,
    ensures
        entries_towards(issue, deps, target).contains(dependent_entry(issue, deps[j].dep_type)),
    decreases deps.len(),
{
    let all = entries_towards(issue, deps, target);
    if j == deps.len() - 1 {
        assert(all.last() == dependent_entry(issue, deps[j].dep_type));
    } else {
        lemma_towards_there(issue, deps.drop_last(), target, j);
        let before = entries_towards(issue, deps.drop_last(), target);
        let wanted = dependent_entry(issue, deps[j].dep_type);
        let k = choose|k: int| 0 <= k < before.len() && before[k] == wanted;
        assert(all[k] == wanted);
    }
}

proof fn lemma_dependent_there(issues: Seq<IssueModel>, target: Seq<char>, i: int, j: int)
    requires
        0 <= i < issues.len(),
        0 <= j < issues[i].dependencies.len(),
        issues[i].dependencies[j].depends_on_id == target,
    ensures
        dependent_entries(issues, target).contains(
            dependent_entry(issues[i], issues[i].dependencies[j].dep_type),
        ),
    decreases issues.len(),
{
    let all = dependent_entries(issues, target);
    let wanted = dependent_entry(issues[i], issues[i].dependencies[j].dep_type);
    let before = dependent_entries(issues.drop_last(), target);
    let last = entries_towards(issues.last(), issues.last().dependencies, target);
    if i == issues.len() - 1 {
        lemma_towards_there(issues[i], issues[i].dependencies, target, j);
        let k = choose|k: int| 0 <= k < last.len() && last[k] == wanted;
        assert(all[before.len() + k] == wanted);
    } else {
        lemma_dependent_there(issues.drop_last(), target, i, j);
        let k = choose|k: int| 0 <= k < before.len() && before[k] == wanted;
        assert(all[k] == wanted);
    }
}

/// Only what depends on the issue is a dependent of it: an issue without such a dependency adds
/// nothing.
pub proof fn law_others_are_no_dependents(
    issues: Seq<IssueModel>,
    target: Seq<char>,
    more: IssueModel,
)
    requires
        forall|j: int|
            0 <= j < more.dependencies.len() ==> (
            #[trigger] more.dependencies[j]).depends_on_id != target,
    ensures
        dependent_entries(issues.push(more), target) == dependent_entries(issues, target),
{
    assert(issues.push(more).drop_last() =~= issues);
    lemma_none_towards(more, more.dependencies, target);
}

proof fn lemma_none_towards(issue: IssueModel, deps: Seq<DependencyModel>, target: Seq<char>)
    requires
        forall|j: int| 0 <= j < deps.len() ==> (#[trigger] deps[j]).depends_on_id != target,
    ensures
        entries_towards(issue, deps, target) == Seq::<EntryModel>::empty(),
    decreases deps.len(),
{
    if deps.len() > 0 {
        assert(deps[deps.len() - 1].depends_on_id != target);
        lemma_none_towards(issue, deps.drop_last(), target);
    }
}

/// The parent is the last issue that one is a child of, and no other dependency makes one.
pub proof fn law_the_last_parent_counts(deps: Seq<DependencyModel>, more: DependencyModel)
    ensures
        more.dep_type == "parent-child"@ ==> parent_in(deps.push(more)) == Some(
            more.depends_on_id,
        ),
        more.dep_type != "parent-child"@ ==> parent_in(deps.push(more)) == parent_in(deps),
        parent_in(Seq::empty()) is None,
{
    assert(deps.push(more).drop_last() =~= deps);
}

/// Details keep the issue with its labels, comments and parent.
pub proof fn law_details_keep_the_issue(issue: IssueModel, issues: Seq<IssueModel>)
    ensures
        ({
            let d = details_of(issue, issues);
            &&& d.issue.id == issue.id
            &&& d.issue.title == issue.title
            &&& d.issue.status == issue.status
            &&& d.issue.priority == issue.priority
            &&& d.issue.issue_type == issue.issue_type
            &&& d.issue.description == issue.description
            &&& d.labels == issue.labels
            &&& d.comments == issue.comments
            &&& d.parent == parent_in(issue.dependencies)
            &&& d.rollup is None
        }),
{
}

/// A line that holds an issue adds it, and no other line adds anything.
pub proof fn law_each_issue_line_counts(lines: Seq<LineModel>, more: LineModel)
    ensures
        issues_on(lines.push(more)) == match more {
            LineModel::Issue { issue } => issues_on(lines).push(issue),
            LineModel::Blank => issues_on(lines),
            LineModel::Invalid { .. } => issues_on(lines),
        },
{
    assert(lines.push(more).drop_last() =~= lines);
}

/// A file is read exactly where every line of it is blank or holds an issue, and no issue comes
/// twice. The first line that is neither is told by its number.
pub proof fn law_a_file_is_read_line_by_line(
    lines: Seq<LineModel>,
    path: Seq<char>,
    more: LineModel,
)
    requires
        scan_check(lines, path, 0) is Ok,
    ensures
        scan_check(lines.push(more), path, 0) == match more {
            LineModel::Blank => Ok::<(), ErrorModel>(()),
            LineModel::Invalid { error } => Err::<(), ErrorModel>(
                ErrorModel::Config(
                    "Invalid JSON at line "@ + decimal(lines.len() + 1) + ": "@ + error,
                ),
            ),
            LineModel::Issue { issue } => if exists|i: int|
                0 <= i < issues_on(lines).len() && (#[trigger] issues_on(lines)[i]).id
                    == issue.id {
                Err::<(), ErrorModel>(
                    ErrorModel::Config(
                        "Duplicate issue id '"@ + issue.id + "' in "@ + path + " at line "@
                            + decimal(lines.len() + 1),
                    ),
                )
            } else {
                Ok::<(), ErrorModel>(())
            },
        },
{
    lemma_scan_push(lines, path, more, 0);
}

proof fn lemma_scan_push(lines: Seq<LineModel>, path: Seq<char>, more: LineModel, upto: nat)
    requires
        scan_check(lines, path, upto) is Ok,
        upto <= lines.len(),
    ensures
        scan_check(lines.push(more), path, upto) == scan_check(
            lines.push(more),
            path,
            lines.len(),
        ),
        lines.push(more).take(lines.len() as int) == lines,
        scan_check(lines.push(more), path, lines.len() + 1) is Ok,
    decreases lines.len() - upto,
{
    let all = lines.push(more);
    assert(all.take(lines.len() as int) =~= lines);
    if upto < lines.len() {
        assert(all[upto as int] == lines[upto as int]);
        assert(all.take(upto as int) =~= lines.take(upto as int));
        lemma_scan_push(lines, path, more, upto + 1);
    }
}

/// A line that cannot be read stops the reading, whatever follows it.
pub proof fn law_a_bad_line_stops_the_reading(
    lines: Seq<LineModel>,
    path: Seq<char>,
    more: LineModel,
)
    requires
        scan_check(lines, path, 0) is Err,
    ensures
        scan_check(lines.push(more), path, 0) == scan_check(lines, path, 0),
{
    lemma_scan_stops(lines, path, more, 0);
}

proof fn lemma_scan_stops(lines: Seq<LineModel>, path: Seq<char>, more: LineModel, upto: nat)
    requires
        scan_check(lines, path, upto) is Err,
    ensures
        scan_check(lines.push(more), path, upto) == scan_check(lines, path, upto),
    decreases lines.len() - upto,
{
    let all = lines.push(more);
    assert(all[upto as int] == lines[upto as int]);
    assert(all.take(upto as int) =~= lines.take(upto as int));
    if scan_check(lines, path, upto + 1) is Err {
        lemma_scan_stops(lines, path, more, upto + 1);
    }
}

/// Of issues with one id the last is kept: one more takes the place of those before it.
pub proof fn law_the_latest_issue_is_kept(issues: Seq<IssueModel>, i: int)
    requires
        0 <= i < issues.len(),
    ensures
        has_issue(latest(issues), issues[i].id),
        (forall|j: int| i < j < issues.len() ==> (#[trigger] issues[j]).id != issues[i].id)
            ==> latest(issues).contains(issues[i]),
    decreases issues.len(),
{
    let rest = issues.skip(1);
    let all = latest(issues);
    assert forall|j: int| 0 <= j < rest.len() implies #[trigger] rest[j] == issues[j + 1] by {}
    if i > 0 {
        law_the_latest_issue_is_kept(rest, i - 1);
        let tail = latest(rest);
        let shift: int = all.len() - tail.len();
        assert forall|k: int| 0 <= k < tail.len() implies #[trigger] all[k + shift] == tail[k] by {}
        let k = choose|k: int| 0 <= k < tail.len() && (#[trigger] tail[k]).id == issues[i].id;
        assert(all[k + shift].id == issues[i].id);
        if forall|j: int| i < j < issues.len() ==> (#[trigger] issues[j]).id != issues[i].id {
            assert(tail.contains(issues[i]));
            let m = choose|m: int| 0 <= m < tail.len() && tail[m] == issues[i];
            assert(all[m + shift] == issues[i]);
        }
    } else if has_issue(rest, issues[0].id) {
        let j = choose|j: int| 0 <= j < rest.len() && (#[trigger] rest[j]).id == issues[0].id;
        law_the_latest_issue_is_kept(rest, j);
        assert(issues[j + 1].id == issues[0].id);
    } else {
        assert(all[0] == issues[0]);
    }
}

/// The index holds a summary of every issue, and the issues that were asked for whole.
pub proof fn law_the_index_holds_every_issue(
    issues: Seq<IssueModel>,
    targets: Seq<Seq<char>>,
    more: IssueModel,
)
    ensures
        index_of(issues.push(more), targets).summaries == index_of(issues, targets).summaries.push(
            summary_of(more),
        ),
        index_of(issues.push(more), targets).targets == if has_text(targets, more.id) {
            index_of(issues, targets).targets.push(more)
        } else {
            index_of(issues, targets).targets
        },
        summary_of(more).id == more.id,
        summary_of(more).title == more.title,
        summary_of(more).status == more.status,
        summary_of(more).priority == more.priority,
        summary_of(more).created_at == more.created_at,
{
    assert(issues.push(more).drop_last() =~= issues);
}

} // verus!
