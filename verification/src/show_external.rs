//! The issues that `show` was asked for, and their dependencies on other projects.

use crate::error::{debug_quoted, debug_text, text_or_error, BeadsError, ErrorModel};
use crate::model::{Issue, IssueModel, Status, StatusModel};
use crate::numbers::{decimal, decimal_text, wide_decimal_text};
use crate::show_jsonl::{
    build_issue_details_from_exact_jsonl_index, build_issue_details_from_jsonl, details_of,
    external_id, find_issue, find_issue_in, index_of, indexed_details, issues_on, latest,
    latest_issues, law_scan_matches_materialized, law_scanned_ids_differ, lemma_index_targets,
    scan_check, scan_exact_jsonl_show_index, DetailsModel, IssueDetails,
    IssueWithDependencyMetadata, JsonlLine, LineModel, MetadataModel,
};
use crate::sorting::views;
use crate::text::{
    any_text, chars_of, contains_text, find_from, first_index, has_prefix, has_text,
    lemma_first_index, lowercased, occurs, same_text, text3, text5, text_between, texts, trim,
    trimmed, unicode_lowercase,
};
use vstd::prelude::*;
use vstd::string::*;

verus! {

broadcast use vstd::string::group_string_axioms;

/// An id with the prefix of the workspace where it has none.
pub open spec fn with_prefix(id: Seq<char>, default_prefix: Seq<char>) -> Seq<char> {
    if first_index(id, '-') < id.len() {
        id
    } else {
        default_prefix + "-"@ + id
    }
}

pub fn prefixed_id(id: String, default_prefix: &str) -> (r: String)
    ensures
        r@ == with_prefix(id@, default_prefix@),
{
    let chars = chars_of(id.as_str());
    let at = find_from(&chars, '-', 0);
    assert(chars@.skip(0) =~= chars@);
    if at < chars.len() {
        id
    } else {
        text3(default_prefix, "-", id.as_str())
    }
}

/// The id that an input names when it is taken literally: in lower case, and with the
/// prefix of the workspace where it has none. Lower case is the normal form of ids, here as in
/// the messages of commits.
pub open spec fn direct_id(input: Seq<char>, default_prefix: Seq<char>) -> Seq<char> {
    with_prefix(unicode_lowercase(trim(input)), default_prefix)
}

/// The ids that the inputs name, or none where an input is blank.
pub open spec fn direct_ids(inputs: Seq<Seq<char>>, default_prefix: Seq<char>) -> Option<
    Seq<Seq<char>>,
> {
    if exists|i: int| 0 <= i < inputs.len() && trim(#[trigger] inputs[i]).len() == 0 {
        None
    } else {
        Some(inputs.map_values(|s: Seq<char>| direct_id(s, default_prefix)))
    }
}

/// The texts, where there are any.
pub open spec fn opt_texts(v: Option<Vec<String>>) -> Option<Seq<Seq<char>>> {
    match v {
        Some(v) => Some(texts(v@)),
        None => None,
    }
}

pub fn direct_jsonl_target_ids(target_ids: &Vec<String>, default_prefix: &str) -> (r: Option<
    Vec<String>,
>)
    ensures
        opt_texts(r) == direct_ids(texts(target_ids@), default_prefix@),
{
    let ghost inputs = texts(target_ids@);
    let ghost wanted = inputs.map_values(|s: Seq<char>| direct_id(s, default_prefix@));
    let mut out: Vec<String> = Vec::new();
    let mut i: usize = 0;
    while i < target_ids.len()
        invariant
            i <= target_ids@.len(),
            inputs == texts(target_ids@),
            wanted == inputs.map_values(|s: Seq<char>| direct_id(s, default_prefix@)),
            forall|k: int| 0 <= k < i ==> trim(#[trigger] inputs[k]).len() > 0,
            texts(out@) == wanted.take(i as int),
        decreases target_ids@.len() - i,
    {
        assert(inputs[i as int] == target_ids@[i as int]@);
        let id = trimmed(target_ids[i].as_str());
        if id.as_str().is_empty() {
            return None;
        }
        let ghost before = texts(out@);
        let direct = prefixed_id(lowercased(id.as_str()), default_prefix);
        let ghost shown = direct@;
        assert(shown == direct_id(inputs[i as int], default_prefix@));
        out.push(direct);
        i += 1;
        assert(texts(out@) =~= before.push(shown));
        assert(texts(out@) =~= wanted.take(i as int));
    }
    assert(texts(out@) =~= wanted);
    Some(out)
}

/// What stands before the first dot.
pub open spec fn before_dot(s: Seq<char>) -> Seq<char> {
    s.take(first_index(s, '.'))
}

/// What stands behind the first dot, where there is one.
pub open spec fn after_dot(s: Seq<char>) -> Option<Seq<char>> {
    if first_index(s, '.') < s.len() {
        Some(s.skip(first_index(s, '.') + 1))
    } else {
        None
    }
}

/// The part of an id behind its prefix answers a search: its hash holds the hash that is
/// searched for, and where the search names a child, it is that child.
pub open spec fn answers(remainder: Seq<char>, search: Seq<char>) -> bool {
    &&& occurs(before_dot(remainder), before_dot(search))
    &&& after_dot(search) is Some ==> after_dot(remainder) == after_dot(search)
}

fn split_at_dot(s: &str) -> (r: (String, Option<String>))
    ensures
        r.0@ == before_dot(s@),
        crate::text::opt_text(r.1) == after_dot(s@),
{
    let chars = chars_of(s);
    let at = find_from(&chars, '.', 0);
    assert(chars@.skip(0) =~= s@);
    let head = text_between(&chars, 0, at);
    assert(head@ =~= s@.take(at as int));
    if at < chars.len() {
        let tail = text_between(&chars, at + 1, chars.len());
        assert(tail@ =~= s@.skip(at + 1));
        (head, Some(tail))
    } else {
        (head, None)
    }
}

pub fn answers_search(remainder: &str, search: &str) -> (r: bool)
    ensures
        r == answers(remainder@, search@),
{
    let (search_base, search_child) = split_at_dot(search);
    let (base, child) = split_at_dot(remainder);
    if !contains_text(base.as_str(), search_base.as_str()) {
        return false;
    }
    match search_child {
        None => true,
        Some(wanted) => match child {
            None => false,
            Some(found) => same_text(found.as_str(), wanted.as_str()),
        },
    }
}

/// An id, and the part behind its prefix where it has a prefix.
#[derive(Debug)]
pub struct KnownId {
    pub id: String,
    pub remainder: Option<String>,
}

/// The ids that answer a search, in order.
pub open spec fn ids_answering(known: Seq<KnownId>, search: Seq<char>) -> Seq<Seq<char>>
    decreases known.len(),
{
    if known.len() == 0 {
        Seq::empty()
    } else {
        let before = ids_answering(known.drop_last(), search);
        let last = known.last();
        if last.remainder is Some && answers(last.remainder->0@, search) {
            before.push(last.id@)
        } else {
            before
        }
    }
}

pub fn find_ids_by_hash_in_memory(known: &Vec<KnownId>, hash_suffix: &str) -> (r: Vec<String>)
    ensures
        texts(r@) == ids_answering(known@, hash_suffix@),
{
    let mut out: Vec<String> = Vec::new();
    let mut i: usize = 0;
    assert(texts(out@) =~= ids_answering(known@.take(0), hash_suffix@));
    while i < known.len()
        invariant
            i <= known@.len(),
            texts(out@) == ids_answering(known@.take(i as int), hash_suffix@),
        decreases known@.len() - i,
    {
        assert(known@.take(i + 1).drop_last() =~= known@.take(i as int));
        assert(known@.take(i + 1).last() == known@[i as int]);
        let answering = match &known[i].remainder {
            Some(remainder) => answers_search(remainder.as_str(), hash_suffix),
            None => false,
        };
        if answering {
            let ghost before = texts(out@);
            out.push(known[i].id.clone());
            assert(texts(out@) =~= before.push(known@[i as int].id@));
        }
        i += 1;
    }
    assert(known@.take(known@.len() as int) =~= known@);
    out
}

/// The project and the capability that an external dependency names.
pub open spec fn external_parts(id: Seq<char>) -> Option<(Seq<char>, Seq<char>)> {
    let first = first_index(id, ':');
    let rest = id.skip(first + 1);
    let second = first_index(rest, ':');
    if first >= id.len() || id.take(first) != "external"@ || second >= rest.len() {
        None
    } else if second == 0 || second + 1 == rest.len() {
        None
    } else {
        Some((rest.take(second), rest.skip(second + 1)))
    }
}

pub fn parse_external_dep_id(dep_id: &str) -> (r: Option<(String, String)>)
    ensures
        match r {
            Some(p) => external_parts(dep_id@) == Some((p.0@, p.1@)),
            None => external_parts(dep_id@) is None,
        },
{
    let chars = chars_of(dep_id);
    let first = find_from(&chars, ':', 0);
    assert(chars@.skip(0) =~= dep_id@);
    if first >= chars.len() {
        return None;
    }
    let scheme = text_between(&chars, 0, first);
    assert(scheme@ =~= dep_id@.take(first as int));
    if !same_text(scheme.as_str(), "external") {
        return None;
    }
    let second = find_from(&chars, ':', first + 1);
    if second >= chars.len() || second == first + 1 || second + 1 == chars.len() {
        return None;
    }
    let project = text_between(&chars, first + 1, second);
    let capability = text_between(&chars, second + 1, chars.len());
    let ghost rest = dep_id@.skip(first + 1);
    assert(project@ =~= rest.take(second - first - 1));
    assert(capability@ =~= rest.skip(second - first));
    Some((project, capability))
}

/// The title of an external dependency: a mark for whether it is met, and what it names.
pub open spec fn external_title(id: Seq<char>, satisfied: bool) -> Seq<char> {
    let mark = if satisfied {
        "✓"@
    } else {
        "⏳"@
    };
    match external_parts(id) {
        Some((project, capability)) => mark + " "@ + project + ":"@ + capability,
        None => mark + " "@ + id,
    }
}

pub fn format_external_dependency_title(dep_id: &str, satisfied: bool) -> (r: String)
    ensures
        r@ == external_title(dep_id@, satisfied),
{
    let mark = if satisfied {
        "✓"
    } else {
        "⏳"
    };
    match parse_external_dep_id(dep_id) {
        Some((project, capability)) => text5(
            mark,
            " ",
            project.as_str(),
            ":",
            capability.as_str(),
        ),
        None => text3(mark, " ", dep_id),
    }
}

/// Which external dependencies are met.
pub open spec fn met(statuses: Seq<(String, bool)>, id: Seq<char>) -> bool
    decreases statuses.len(),
{
    if statuses.len() == 0 {
        false
    } else if statuses[0].0@ == id {
        statuses[0].1
    } else {
        met(statuses.skip(1), id)
    }
}

fn is_met(statuses: &Vec<(String, bool)>, id: &str) -> (r: bool)
    ensures
        r == met(statuses@, id@),
{
    let mut i: usize = 0;
    assert(statuses@.skip(0) =~= statuses@);
    while i < statuses.len()
        invariant
            i <= statuses@.len(),
            met(statuses@, id@) == met(statuses@.skip(i as int), id@),
        decreases statuses@.len() - i,
    {
        if same_text(statuses[i].0.as_str(), id) {
            return statuses[i].1;
        }
        assert(statuses@.skip(i as int).skip(1) =~= statuses@.skip(i + 1));
        i += 1;
    }
    false
}

/// A line with what is known of an external dependency; any other line as it is. A title
/// that somebody wrote stays.
pub open spec fn with_external_status(item: MetadataModel, satisfied: bool) -> MetadataModel {
    if !external_id(item.id) {
        item
    } else {
        MetadataModel {
            status: if satisfied {
                StatusModel::Closed
            } else {
                StatusModel::Blocked
            },
            title: if item.title.len() == 0 || item.title == item.id.skip("external:"@.len() as int) {
                external_title(item.id, satisfied)
            } else {
                item.title
            },
            ..item
        }
    }
}

/// The lines with what is known of the external dependencies.
pub open spec fn with_external_statuses(
    items: Seq<MetadataModel>,
    statuses: Seq<(String, bool)>,
) -> Seq<MetadataModel> {
    items.map_values(|item: MetadataModel| with_external_status(item, met(statuses, item.id)))
}

pub fn apply_external_dependency_metadata(
    items: &mut Vec<IssueWithDependencyMetadata>,
    external_statuses: &Vec<(String, bool)>,
)
    ensures
        views(final(items)@) == with_external_statuses(views(old(items)@), external_statuses@),
{
    let ghost given = views(items@);
    let ghost wanted = with_external_statuses(given, external_statuses@);
    let total: usize = items.len();
    let mut i: usize = 0;
    while i < total
        invariant
            i <= total,
            total == items@.len(),
            given.len() == total,
            wanted == with_external_statuses(given, external_statuses@),
            forall|k: int| 0 <= k < i ==> (#[trigger] items@[k])@ == wanted[k],
            forall|k: int| i <= k < total ==> (#[trigger] items@[k])@ == given[k],
        decreases total - i,
    {
        assert(items@[i as int]@ == given[i as int]);
        assert(wanted[i as int] == with_external_status(
            given[i as int],
            met(external_statuses@, given[i as int].id),
        ));
        match crate::text::without_prefix(items[i].id.as_str(), "external:") {
            None => {},
            Some(placeholder) => {
                let satisfied = is_met(external_statuses, items[i].id.as_str());
                let title = if items[i].title.as_str().is_empty() || same_text(
                    items[i].title.as_str(),
                    placeholder.as_str(),
                ) {
                    format_external_dependency_title(items[i].id.as_str(), satisfied)
                } else {
                    items[i].title.clone()
                };
                let updated = IssueWithDependencyMetadata {
                    id: items[i].id.clone(),
                    title,
                    status: if satisfied {
                        Status::Closed
                    } else {
                        Status::Blocked
                    },
                    priority: items[i].priority,
                    dep_type: items[i].dep_type.clone(),
                };
                assert(updated@ == wanted[i as int]);
                items.set(i, updated);
            },
        }
        i += 1;
    }
    assert(views(items@) =~= wanted);
}

proof fn lemma_external_title_is_longer(id: Seq<char>, satisfied: bool)
    requires
        external_id(id),
    ensures
        external_title(id, satisfied).len() > id.skip("external:"@.len() as int).len(),
{
    reveal_strlit("external:");
    reveal_strlit("external");
    reveal_strlit("✓");
    reveal_strlit("⏳");
    reveal_strlit(" ");
    reveal_strlit(":");
    lemma_first_index(id, ':');
    if let Some((project, capability)) = external_parts(id) {
        let first = first_index(id, ':');
        assert(id.take(first).len() == 8);
        lemma_first_index(id.skip(first + 1), ':');
    }
}

/// What is known of the external dependencies can be applied twice: the second time changes
/// nothing.
pub proof fn law_external_statuses_settle(
    items: Seq<MetadataModel>,
    statuses: Seq<(String, bool)>,
)
    ensures
        with_external_statuses(with_external_statuses(items, statuses), statuses)
            == with_external_statuses(items, statuses),
{
    let once = with_external_statuses(items, statuses);
    let twice = with_external_statuses(once, statuses);
    assert forall|i: int| 0 <= i < items.len() implies once[i] == #[trigger] twice[i] by {
        let item = items[i];
        let satisfied = met(statuses, item.id);
        assert(once[i] == with_external_status(item, satisfied));
        assert(twice[i] == with_external_status(once[i], met(statuses, once[i].id)));
        if external_id(item.id) {
            lemma_external_title_is_longer(item.id, satisfied);
        }
    }
    assert(once =~= twice);
}

/// Lines that name no external dependency stay as they are.
pub proof fn law_other_lines_stay(items: Seq<MetadataModel>, statuses: Seq<(String, bool)>)
    requires
        forall|i: int| 0 <= i < items.len() ==> !external_id((#[trigger] items[i]).id),
    ensures
        with_external_statuses(items, statuses) == items,
{
    assert(with_external_statuses(items, statuses) =~= items);
}

/// Some line names an external dependency.
pub open spec fn any_external(items: Seq<MetadataModel>) -> bool {
    exists|i: int| 0 <= i < items.len() && external_id((#[trigger] items[i]).id)
}

fn has_external(items: &Vec<IssueWithDependencyMetadata>) -> (r: bool)
    ensures
        r == any_external(views(items@)),
{
    let mut i: usize = 0;
    while i < items.len()
        invariant
            i <= items@.len(),
            forall|k: int| 0 <= k < i ==> !external_id((#[trigger] views(items@)[k]).id),
        decreases items@.len() - i,
    {
        assert(views(items@)[i as int] == items@[i as int]@);
        if has_prefix(items[i].id.as_str(), "external:") {
            return true;
        }
        i += 1;
    }
    false
}

pub fn issue_details_have_external_dependencies(details: &IssueDetails) -> (r: bool)
    ensures
        r == (any_external(details@.dependencies) || any_external(details@.dependents)),
{
    has_external(&details.dependencies) || has_external(&details.dependents)
}

/// The line names this external dependency.
pub open spec fn names_external(items: Seq<MetadataModel>, id: Seq<char>) -> bool {
    external_id(id) && exists|i: int| 0 <= i < items.len() && (#[trigger] items[i]).id == id
}

/// One of the issues has this external dependency, or is one of it.
pub open spec fn involves_external(details: Seq<DetailsModel>, id: Seq<char>) -> bool {
    exists|i: int|
        0 <= i < details.len() && (names_external((#[trigger] details[i]).dependencies, id)
            || names_external(details[i].dependents, id))
}

fn push_external_ids(out: &mut Vec<String>, items: &Vec<IssueWithDependencyMetadata>)
    requires
        texts(old(out)@).no_duplicates(),
    ensures
        texts(final(out)@).no_duplicates(),
        forall|id: Seq<char>| #[trigger]
            has_text(texts(final(out)@), id) <==> (has_text(texts(old(out)@), id)
                || names_external(views(items@), id)),
{
    let ghost before = texts(out@);
    let ghost all = views(items@);
    let mut i: usize = 0;
    proof {
        assert forall|id: Seq<char>| #[trigger]
            has_text(texts(out@), id) <==> (has_text(before, id) || names_external(
                all.take(0),
                id,
            )) by {}
    }
    while i < items.len()
        invariant
            i <= items@.len(),
            all == views(items@),
            texts(out@).no_duplicates(),
            forall|id: Seq<char>| #[trigger]
                has_text(texts(out@), id) <==> (has_text(before, id) || names_external(
                    all.take(i as int),
                    id,
                )),
        decreases items@.len() - i,
    {
        assert(all[i as int] == items@[i as int]@);
        let ghost then = texts(out@);
        let ghost now_id = items@[i as int].id@;
        if has_prefix(items[i].id.as_str(), "external:") && !any_text(
            out,
            items[i].id.as_str(),
        ) {
            out.push(items[i].id.clone());
            assert(texts(out@) =~= then.push(now_id));
            assert(texts(out@)[then.len() as int] == now_id);
            assert forall|a: int, b: int|
                0 <= a < then.push(now_id).len() && 0 <= b < then.push(now_id).len() && a
                    != b implies then.push(now_id)[a] != then.push(now_id)[b] by {
                if a == then.len() {
                    assert(then[b] != now_id);
                } else if b == then.len() {
                    assert(then[a] != now_id);
                }
            }
        }
        proof {
            let head = all.take(i as int);
            let more = all.take(i + 1);
            assert forall|id: Seq<char>| #[trigger]
                has_text(texts(out@), id) <==> (has_text(before, id) || names_external(
                    more,
                    id,
                )) by {
                assert(more[i as int].id == now_id);
                if has_text(texts(out@), id) {
                    let k = choose|k: int| 0 <= k < texts(out@).len() && texts(out@)[k] == id;
                    if k < then.len() {
                        assert(then[k] == id);
                        assert(has_text(then, id));
                        if names_external(head, id) {
                            let j = choose|j: int|
                                0 <= j < head.len() && (#[trigger] head[j]).id == id;
                            assert(more[j].id == id);
                        }
                    } else {
                        assert(id == now_id);
                    }
                }
                if has_text(before, id) || names_external(head, id) {
                    assert(has_text(then, id));
                    let k = choose|k: int| 0 <= k < then.len() && then[k] == id;
                    assert(texts(out@)[k] == id);
                }
                if names_external(more, id) && !names_external(head, id) {
                    let j = choose|j: int| 0 <= j < more.len() && (#[trigger] more[j]).id == id;
                    if j < i {
                        assert(head[j].id == id);
                    }
                    assert(id == now_id);
                    if has_text(then, id) {
                        let k = choose|k: int| 0 <= k < then.len() && then[k] == id;
                        assert(texts(out@)[k] == id);
                    }
                }
            }
        }
        i += 1;
    }
    assert(all.take(all.len() as int) =~= all);
}

/// The external dependencies of the issues, each once.
pub fn collect_external_dependency_ids(details_list: &Vec<IssueDetails>) -> (r: Vec<String>)
    ensures
        texts(r@).no_duplicates(),
        forall|id: Seq<char>| #[trigger]
            has_text(texts(r@), id) <==> involves_external(views(details_list@), id),
{
    let ghost all = views(details_list@);
    let mut out: Vec<String> = Vec::new();
    let mut i: usize = 0;
    while i < details_list.len()
        invariant
            i <= details_list@.len(),
            all == views(details_list@),
            texts(out@).no_duplicates(),
            forall|id: Seq<char>| #[trigger]
                has_text(texts(out@), id) <==> involves_external(all.take(i as int), id),
        decreases details_list@.len() - i,
    {
        let ghost then = texts(out@);
        assert(all[i as int] == details_list@[i as int]@);
        push_external_ids(&mut out, &details_list[i].dependencies);
        let ghost between = texts(out@);
        push_external_ids(&mut out, &details_list[i].dependents);
        proof {
            let head = all.take(i as int);
            let more = all.take(i + 1);
            assert forall|id: Seq<char>| #[trigger]
                has_text(texts(out@), id) <==> involves_external(more, id) by {
                assert(has_text(between, id) <==> (has_text(then, id) || names_external(
                    all[i as int].dependencies,
                    id,
                )));
                assert(has_text(then, id) <==> involves_external(head, id));
                assert(more[i as int] == all[i as int]);
                if involves_external(head, id) {
                    let k = choose|k: int|
                        0 <= k < head.len() && (names_external((#[trigger] head[k]).dependencies, id)
                            || names_external(head[k].dependents, id));
                    assert(more[k] == head[k]);
                }
                if involves_external(more, id) {
                    let k = choose|k: int|
                        0 <= k < more.len() && (names_external((#[trigger] more[k]).dependencies, id)
                            || names_external(more[k].dependents, id));
                    if k < i {
                        assert(head[k] == more[k]);
                    }
                }
            }
        }
        i += 1;
    }
    assert(all.take(all.len() as int) =~= all);
    out
}

/// The details with what is known of the external dependencies.
pub open spec fn details_with_statuses(
    details: DetailsModel,
    statuses: Seq<(String, bool)>,
) -> DetailsModel {
    DetailsModel {
        dependencies: with_external_statuses(details.dependencies, statuses),
        dependents: with_external_statuses(details.dependents, statuses),
        ..details
    }
}

/// Each issue with what is known of its external dependencies.
pub fn apply_external_statuses(
    details_list: Vec<IssueDetails>,
    external_statuses: &Vec<(String, bool)>,
) -> (r: Vec<IssueDetails>)
    ensures
        views(r@) == views(details_list@).map_values(
            |d: DetailsModel| details_with_statuses(d, external_statuses@),
        ),
{
    let ghost all = views(details_list@);
    let ghost given = details_list@;
    let ghost wanted = all.map_values(
        |d: DetailsModel| details_with_statuses(d, external_statuses@),
    );
    let mut out: Vec<IssueDetails> = Vec::new();
    for details in it: details_list
        invariant
            it.seq() == given,
            all == views(given),
            wanted == all.map_values(
                |d: DetailsModel| details_with_statuses(d, external_statuses@),
            ),
            views(out@) == wanted.take(it.index() as int),
    {
        let ghost before = views(out@);
        let mut details = details;
        assert(all[it.index() as int] == details@);
        apply_external_dependency_metadata(&mut details.dependencies, external_statuses);
        apply_external_dependency_metadata(&mut details.dependents, external_statuses);
        let ghost shown = details@;
        assert(shown == wanted[it.index() as int]);
        out.push(details);
        assert(views(out@) =~= before.push(shown));
        assert(views(out@) =~= wanted.take(it.index() + 1));
    }
    assert(views(out@) =~= wanted);
    out
}

/// The details of the issues with these ids, or the first id that no issue has.
pub open spec fn details_for(ids: Seq<Seq<char>>, issues: Seq<IssueModel>) -> Result<
    Seq<DetailsModel>,
    ErrorModel,
>
    decreases ids.len(),
{
    if ids.len() == 0 {
        Ok(Seq::empty())
    } else {
        match details_for(ids.drop_last(), issues) {
            Err(e) => Err(e),
            Ok(before) => match find_issue(issues, ids.last()) {
                None => Err(ErrorModel::IssueNotFound { id: ids.last() }),
                Some(issue) => Ok(before.push(details_of(issue, issues))),
            },
        }
    }
}

/// The details, or what the error says.
pub open spec fn details_or_error(r: Result<Vec<IssueDetails>, BeadsError>) -> Result<
    Seq<DetailsModel>,
    ErrorModel,
> {
    match r {
        Ok(v) => Ok(views(v@)),
        Err(e) => Err(e.model()),
    }
}

/// What the inputs were resolved to, each an id or an error.
pub open spec fn resolutions(resolved: Seq<Result<String, BeadsError>>) -> Seq<
    Result<Seq<char>, ErrorModel>,
> {
    resolved.map_values(|r: Result<String, BeadsError>| text_or_error(r))
}

/// The details of the issues that the inputs were resolved to, or the first error: an input
/// that was not resolved, or an id that no issue has.
pub open spec fn resolved_details(
    resolved: Seq<Result<Seq<char>, ErrorModel>>,
    issues: Seq<IssueModel>,
) -> Result<Seq<DetailsModel>, ErrorModel>
    decreases resolved.len(),
{
    if resolved.len() == 0 {
        Ok(Seq::empty())
    } else {
        match resolved_details(resolved.drop_last(), issues) {
            Err(e) => Err(e),
            Ok(before) => match resolved.last() {
                Err(e) => Err(e),
                Ok(id) => match find_issue(issues, id) {
                    None => Err(ErrorModel::IssueNotFound { id }),
                    Some(issue) => Ok(before.push(details_of(issue, issues))),
                },
            },
        }
    }
}

proof fn lemma_resolved_details_fail(
    resolved: Seq<Result<Seq<char>, ErrorModel>>,
    issues: Seq<IssueModel>,
    n: int,
)
    requires
        0 <= n <= resolved.len(),
        resolved_details(resolved.take(n), issues) is Err,
    ensures
        resolved_details(resolved, issues) == resolved_details(resolved.take(n), issues),
    decreases resolved.len() - n,
{
    if n == resolved.len() {
        assert(resolved.take(n) =~= resolved);
    } else {
        assert(resolved.take(n + 1).drop_last() =~= resolved.take(n));
        lemma_resolved_details_fail(resolved, issues, n + 1);
    }
}

/// Inputs that were resolved have the details of the ids.
proof fn lemma_resolved_ids(
    ids: Seq<Seq<char>>,
    resolved: Seq<Result<Seq<char>, ErrorModel>>,
    issues: Seq<IssueModel>,
)
    requires
        resolved.len() == ids.len(),
        forall|i: int|
            0 <= i < ids.len() ==> #[trigger] resolved[i] == Ok::<Seq<char>, ErrorModel>(ids[i]),
        all_found(ids, issues),
    ensures
        ({
            let answer = resolved_details(resolved, issues);
            answer is Ok && answer->Ok_0.len() == ids.len() && forall|i: int|
                0 <= i < ids.len() ==> #[trigger] answer->Ok_0[i] == details_of(
                    find_issue(issues, ids[i])->0,
                    issues,
                )
        }),
    decreases ids.len(),
{
    if ids.len() > 0 {
        let init = ids.drop_last();
        assert(forall|i: int| 0 <= i < init.len() ==> init[i] == ids[i]);
        assert(forall|i: int|
            0 <= i < init.len() ==> #[trigger] resolved.drop_last()[i] == resolved[i]);
        lemma_resolved_ids(init, resolved.drop_last(), issues);
        assert(resolved[ids.len() - 1] == Ok::<Seq<char>, ErrorModel>(ids[ids.len() - 1]));
        assert(find_issue(issues, ids[ids.len() - 1]) is Some);
    }
}

/// The details of the issues that the inputs were resolved to, from all issues of the file.
/// Of several issues with one id the last counts.
pub fn load_issue_details_from_jsonl_materialized(
    resolved: Vec<Result<String, BeadsError>>,
    issues: &Vec<Issue>,
) -> (r: Result<Vec<IssueDetails>, BeadsError>)
    ensures
        details_or_error(r) == resolved_details(
            resolutions(resolved@),
            latest(views(issues@)),
        ),
{
    let kept = latest_issues(issues);
    let ghost given = resolved@;
    let ghost wanted = resolutions(given);
    let ghost all = views(kept@);
    let mut out: Vec<IssueDetails> = Vec::new();
    assert(views(out@) =~= Seq::<DetailsModel>::empty());
    for resolution in it: resolved
        invariant
            it.seq() == given,
            given == resolved@,
            wanted == resolutions(given),
            all == views(kept@),
            all == latest(views(issues@)),
            resolved_details(wanted.take(it.index() as int), all) == Ok::<
                Seq<DetailsModel>,
                ErrorModel,
            >(views(out@)),
    {
        let ghost n = it.index() as int;
        assert(wanted.take(n + 1).drop_last() =~= wanted.take(n));
        assert(wanted.take(n + 1).last() == text_or_error(resolution));
        match resolution {
            Err(e) => {
                proof {
                    lemma_resolved_details_fail(wanted, all, n + 1);
                }
                return Err(e);
            },
            Ok(id) => match find_issue_in(&kept, id.as_str()) {
                None => {
                    proof {
                        lemma_resolved_details_fail(wanted, all, n + 1);
                    }
                    return Err(BeadsError::IssueNotFound { id });
                },
                Some(issue) => {
                    let ghost before = views(out@);
                    let details = build_issue_details_from_jsonl(issue, &kept);
                    let ghost shown = details@;
                    out.push(details);
                    assert(views(out@) =~= before.push(shown));
                },
            },
        }
    }
    assert(wanted.take(wanted.len() as int) =~= wanted);
    Ok(out)
}

/// Each of the ids was found.
pub open spec fn all_found(ids: Seq<Seq<char>>, issues: Seq<IssueModel>) -> bool {
    forall|i: int| 0 <= i < ids.len() ==> find_issue(issues, #[trigger] ids[i]) is Some
}

/// The details of the issues that the inputs name literally. None where an input is blank
/// or names no issue: it may still be an abbreviation.
pub open spec fn exact_details(
    inputs: Seq<Seq<char>>,
    default_prefix: Seq<char>,
    lines: Seq<LineModel>,
    path: Seq<char>,
) -> Result<Option<Seq<DetailsModel>>, ErrorModel> {
    match direct_ids(inputs, default_prefix) {
        None => Ok(None),
        Some(ids) => match scan_check(lines, path, 0) {
            Err(e) => Err(e),
            Ok(()) => {
                let index = index_of(issues_on(lines), ids);
                if all_found(ids, index.targets) {
                    Ok(Some(ids.map_values(|id: Seq<char>| indexed_details(id, index)->Ok_0)))
                } else {
                    Ok(None)
                }
            },
        },
    }
}

/// The details, none, or what the error says.
pub open spec fn opt_details_or_error(r: Result<Option<Vec<IssueDetails>>, BeadsError>) -> Result<
    Option<Seq<DetailsModel>>,
    ErrorModel,
> {
    match r {
        Ok(Some(v)) => Ok(Some(views(v@))),
        Ok(None) => Ok(None),
        Err(e) => Err(e.model()),
    }
}

/// The details of the issues that the inputs name literally, from one pass over the lines.
pub fn load_exact_issue_details_from_jsonl(
    target_ids: &Vec<String>,
    default_prefix: &str,
    lines: Vec<JsonlLine>,
    path: &str,
) -> (r: Result<Option<Vec<IssueDetails>>, BeadsError>)
    ensures
        opt_details_or_error(r) == exact_details(
            texts(target_ids@),
            default_prefix@,
            views(lines@),
            path@,
        ),
{
    let ids = match direct_jsonl_target_ids(target_ids, default_prefix) {
        None => return Ok(None),
        Some(ids) => ids,
    };
    let ghost wanted = texts(ids@);
    let index = match scan_exact_jsonl_show_index(lines, &ids, path) {
        Err(e) => return Err(e),
        Ok(index) => index,
    };
    let ghost targets = index@.targets;
    let ghost list = wanted.map_values(|id: Seq<char>| indexed_details(id, index@)->Ok_0);
    let mut out: Vec<IssueDetails> = Vec::new();
    let mut i: usize = 0;
    while i < ids.len()
        invariant
            i <= ids@.len(),
            wanted == texts(ids@),
            targets == index@.targets,
            list == wanted.map_values(|id: Seq<char>| indexed_details(id, index@)->Ok_0),
            forall|k: int| 0 <= k < i ==> find_issue(targets, #[trigger] wanted[k]) is Some,
            views(out@) == list.take(i as int),
            direct_ids(texts(target_ids@), default_prefix@) == Some(wanted),
            scan_check(views(lines@), path@, 0) is Ok,
            index@ == index_of(issues_on(views(lines@)), wanted),
        decreases ids@.len() - i,
    {
        assert(wanted[i as int] == ids@[i as int]@);
        match build_issue_details_from_exact_jsonl_index(ids[i].as_str(), &index) {
            Err(_) => {
                assert(find_issue(targets, wanted[i as int]) is None);
                return Ok(None);
            },
            Ok(details) => {
                let ghost before = views(out@);
                let ghost shown = details@;
                out.push(details);
                assert(views(out@) =~= before.push(shown));
                assert(list[i as int] == shown);
                assert(views(out@) =~= list.take(i + 1));
            },
        }
        i += 1;
    }
    assert(views(out@) =~= list);
    Ok(Some(out))
}

/// What one pass over the lines gives is what all issues together give. Where the file can
/// be read and has no id twice, the pass answers exactly for inputs none of which is blank and
/// each of which names an issue of the file.
pub proof fn law_exact_details_match_materialized(
    inputs: Seq<Seq<char>>,
    default_prefix: Seq<char>,
    lines: Seq<LineModel>,
    path: Seq<char>,
)
    ensures
        ({
            let ids = direct_ids(inputs, default_prefix);
            let issues = issues_on(lines);
            let answer = exact_details(inputs, default_prefix, lines, path);
            &&& scan_check(lines, path, 0) is Ok ==> (answer matches Ok(Some(_)) <==> ids is Some
                && all_found(ids->0, issues))
            &&& match answer {
                Ok(Some(list)) => details_for(ids->0, latest(issues)) == Ok::<
                    Seq<DetailsModel>,
                    ErrorModel,
                >(list) && list.len() == ids->0.len() && forall|i: int|
                    0 <= i < list.len() ==> #[trigger] list[i] == details_of(
                        find_issue(issues, ids->0[i])->0,
                        issues,
                    ),
                _ => true,
            }
        }),
{
    let issues = issues_on(lines);
    if let Some(ids) = direct_ids(inputs, default_prefix) {
        let index = index_of(issues, ids);
        assert forall|i: int| 0 <= i < ids.len() implies find_issue(index.targets, #[trigger] ids[i])
            == find_issue(issues, ids[i]) by {
            assert(has_text(ids, ids[i]));
            lemma_index_targets(issues, ids, ids[i]);
        }
        assert(all_found(ids, index.targets) == all_found(ids, issues));
        if let Ok(Some(list)) = exact_details(inputs, default_prefix, lines, path) {
            law_scanned_ids_differ(lines, path);
            lemma_exact_prefix(ids, issues, ids.len() as int);
            assert(ids.take(ids.len() as int) =~= ids);
            assert(list.take(list.len() as int) =~= list);
            assert forall|i: int| 0 <= i < list.len() implies #[trigger] list[i] == details_of(
                find_issue(issues, ids[i])->0,
                issues,
            ) by {
                assert(has_text(ids, ids[i]));
                law_scan_matches_materialized(issues, ids, ids[i]);
            }
        }
    }
}

proof fn lemma_exact_prefix(ids: Seq<Seq<char>>, issues: Seq<IssueModel>, n: int)
    requires
        0 <= n <= ids.len(),
        all_found(ids, index_of(issues, ids).targets),
    ensures
        details_for(ids.take(n), issues) == Ok::<Seq<DetailsModel>, ErrorModel>(
            ids.map_values(
                |id: Seq<char>| indexed_details(id, index_of(issues, ids))->Ok_0,
            ).take(n),
        ),
    decreases n,
{
    let list = ids.map_values(
        |id: Seq<char>| indexed_details(id, index_of(issues, ids))->Ok_0,
    );
    if n == 0 {
        assert(list.take(0) =~= Seq::<DetailsModel>::empty());
    } else {
        lemma_exact_prefix(ids, issues, n - 1);
        assert(ids.take(n).drop_last() =~= ids.take(n - 1));
        let id = ids[n - 1];
        assert(has_text(ids, id));
        assert(find_issue(index_of(issues, ids).targets, id) is Some);
        law_scan_matches_materialized(issues, ids, id);
        assert(list.take(n) =~= list.take(n - 1).push(list[n - 1]));
    }
}

/// The first line that is no issue.
pub open spec fn lines_check(lines: Seq<LineModel>, upto: nat) -> Result<(), ErrorModel>
    decreases lines.len() - upto,
{
    if upto >= lines.len() {
        Ok(())
    } else {
        match lines[upto as int] {
            LineModel::Invalid { error } => Err(
                ErrorModel::Config(
                    "Invalid JSON at line "@ + decimal(upto + 1) + ": "@ + error,
                ),
            ),
            _ => lines_check(lines, upto + 1),
        }
    }
}

/// The issues on the lines, or the first line that is none.
pub fn read_issues_from_jsonl(lines: &Vec<JsonlLine>) -> (r: Result<Vec<Issue>, BeadsError>)
    ensures
        match r {
            Ok(issues) => lines_check(views(lines@), 0) is Ok && views(issues@) == issues_on(
                views(lines@),
            ),
            Err(e) => lines_check(views(lines@), 0) == Err::<(), ErrorModel>(e.model()),
        },
{
    let ghost all = views(lines@);
    let mut out: Vec<Issue> = Vec::new();
    let mut i: usize = 0;
    assert(views(out@) =~= issues_on(all.take(0)));
    while i < lines.len()
        invariant
            i <= lines@.len(),
            all == views(lines@),
            views(out@) == issues_on(all.take(i as int)),
            lines_check(all, 0) == lines_check(all, i as nat),
        decreases lines@.len() - i,
    {
        assert(all[i as int] == lines@[i as int]@);
        assert(all.take(i + 1).drop_last() =~= all.take(i as int));
        assert(all.take(i + 1).last() == all[i as int]);
        match &lines[i] {
            JsonlLine::Blank => {},
            JsonlLine::Invalid { error } => {
                let number = wide_decimal_text(i as u128 + 1);
                let mut said = text3("Invalid JSON at line ", number.as_str(), ": ");
                said.append(error.as_str());
                return Err(BeadsError::Config(said));
            },
            JsonlLine::Issue { issue } => {
                let ghost before = views(out@);
                let copied = issue.copy();
                let ghost shown = copied@;
                out.push(copied);
                assert(views(out@) =~= before.push(shown));
            },
        }
        i += 1;
    }
    assert(all.take(all.len() as int) =~= all);
    Ok(out)
}

/// The details of the issues that the inputs name: literally where all of them are found that
/// way, and else as they were resolved.
pub open spec fn jsonl_details(
    inputs: Seq<Seq<char>>,
    default_prefix: Seq<char>,
    lines: Seq<LineModel>,
    path: Seq<char>,
    resolved: Seq<Result<Seq<char>, ErrorModel>>,
) -> Result<Seq<DetailsModel>, ErrorModel> {
    match exact_details(inputs, default_prefix, lines, path) {
        Err(e) => Err(e),
        Ok(Some(list)) => Ok(list),
        Ok(None) => match lines_check(lines, 0) {
            Err(e) => Err(e),
            Ok(()) => resolved_details(resolved, latest(issues_on(lines))),
        },
    }
}

/// The details of the issues that the inputs name, from the lines of the issues file.
/// `resolved` says what each input is resolved to among the ids there.
pub fn load_issue_details_from_jsonl(
    target_ids: &Vec<String>,
    default_prefix: &str,
    lines: Vec<JsonlLine>,
    path: &str,
    resolved: Vec<Result<String, BeadsError>>,
) -> (r: Result<Vec<IssueDetails>, BeadsError>)
    ensures
        details_or_error(r) == jsonl_details(
            texts(target_ids@),
            default_prefix@,
            views(lines@),
            path@,
            resolutions(resolved@),
        ),
{
    let read = read_issues_from_jsonl(&lines);
    match load_exact_issue_details_from_jsonl(target_ids, default_prefix, lines, path) {
        Err(e) => Err(e),
        Ok(Some(list)) => Ok(list),
        Ok(None) => match read {
            Err(e) => Err(e),
            Ok(issues) => load_issue_details_from_jsonl_materialized(resolved, &issues),
        },
    }
}

proof fn lemma_scanned_lines_are_issues(lines: Seq<LineModel>, path: Seq<char>, upto: nat)
    requires
        scan_check(lines, path, upto) is Ok,
    ensures
        lines_check(lines, upto) is Ok,
    decreases lines.len() - upto,
{
    if upto < lines.len() {
        lemma_scanned_lines_are_issues(lines, path, upto + 1);
    }
}

/// Full ids are found, however they are written. Where the file can be read and has no id
/// twice, every input is the id of an issue there, and each is resolved to itself, the answer is
/// the details of those issues, in order, as all issues together give them: one pass over the
/// lines and the way through all issues do not differ. Left out is only a file in which the
/// inputs, taken literally, all name issues, but not those with the very ids.
pub proof fn law_full_ids_are_found(
    ids: Seq<Seq<char>>,
    default_prefix: Seq<char>,
    lines: Seq<LineModel>,
    path: Seq<char>,
    resolved: Seq<Result<Seq<char>, ErrorModel>>,
)
    requires
        scan_check(lines, path, 0) is Ok,
        all_found(ids, issues_on(lines)),
        resolved.len() == ids.len(),
        forall|i: int|
            0 <= i < ids.len() ==> #[trigger] resolved[i] == Ok::<Seq<char>, ErrorModel>(ids[i]),
        match direct_ids(ids, default_prefix) {
            Some(direct) => all_found(direct, issues_on(lines)) ==> direct == ids,
            None => true,
        },
    ensures
        ({
            let issues = issues_on(lines);
            let answer = jsonl_details(ids, default_prefix, lines, path, resolved);
            answer is Ok && answer->Ok_0.len() == ids.len() && forall|i: int|
                0 <= i < ids.len() ==> #[trigger] answer->Ok_0[i] == details_of(
                    find_issue(issues, ids[i])->0,
                    issues,
                )
        }),
{
    law_exact_details_match_materialized(ids, default_prefix, lines, path);
    law_scanned_ids_differ(lines, path);
    lemma_scanned_lines_are_issues(lines, path, 0);
    lemma_resolved_ids(ids, resolved, issues_on(lines));
}

/// What a search for a candidate in the issues file gave.
#[derive(Debug)]
pub enum JsonlResolution {
    /// It is this issue.
    Resolved { id: String },
    /// It could be this many issues.
    Ambiguous { matches: u64, error: BeadsError },
    /// It is no issue there.
    Absent,
    /// The search failed.
    Failed { error: BeadsError },
}

/// What the outcome of a search for `candidate` stops the command with.
pub open spec fn divergence(candidate: Seq<char>, outcome: JsonlResolution) -> Option<ErrorModel> {
    match outcome {
        JsonlResolution::Absent => None,
        JsonlResolution::Failed { error } => Some(error.model()),
        JsonlResolution::Resolved { id } => Some(
            ErrorModel::SyncConflict {
                message: "Database/JSONL divergence: issue "@ + id@ + DIVERGENT_ISSUE@,
            },
        ),
        JsonlResolution::Ambiguous { matches, error } => if matches == 0 {
            Some(error.model())
        } else {
            Some(
                ErrorModel::SyncConflict {
                    message: "Database/JSONL divergence: "@ + debug_text(candidate) + " matches "@
                        + decimal(matches as nat) + DIVERGENT_ISSUES@,
                },
            )
        },
    }
}

/// How the refusal goes on after the issue.
pub const DIVERGENT_ISSUE: &'static str =
    " exists in JSONL but is not addressable in SQLite; refusing a false missing-issue result. Run `br doctor --repair` against a preserved workspace copy before trusting database-backed reads";

/// How the refusal goes on after the number of issues.
pub const DIVERGENT_ISSUES: &'static str =
    " issue IDs in JSONL but none are addressable in SQLite; refusing a false missing-issue result. Run `br doctor --repair` against a preserved workspace copy before trusting database-backed reads";

/// The first outcome that stops the command.
pub open spec fn first_divergence(outcomes: Seq<(String, JsonlResolution)>) -> Result<
    (),
    ErrorModel,
>
    decreases outcomes.len(),
{
    if outcomes.len() == 0 {
        Ok(())
    } else {
        match divergence(outcomes[0].0@, outcomes[0].1) {
            Some(e) => Err(e),
            None => first_divergence(outcomes.skip(1)),
        }
    }
}

/// Refuses to call an issue missing that the issues file holds. `outcomes` are the searches
/// for its candidates there, in order; there are none without such a file.
pub fn fail_if_jsonl_contains_missing_database_id(outcomes: Vec<(String, JsonlResolution)>) -> (r:
    Result<(), BeadsError>)
    ensures
        crate::error::checked(r) == first_divergence(outcomes@),
{
    let ghost given = outcomes@;
    assert(given.skip(0) =~= given);
    for outcome in it: outcomes
        invariant
            it.seq() == given,
            given == outcomes@,
            first_divergence(given) == first_divergence(given.skip(it.index() as int)),
    {
        let ghost rest = given.skip(it.index() as int);
        assert(rest[0] == outcome);
        assert(rest.skip(1) =~= given.skip(it.index() + 1));
        match outcome.1 {
            JsonlResolution::Absent => {},
            JsonlResolution::Failed { error } => return Err(error),
            JsonlResolution::Resolved { id } => return Err(
                BeadsError::SyncConflict {
                    message: text3(
                        "Database/JSONL divergence: issue ",
                        id.as_str(),
                        DIVERGENT_ISSUE,
                    ),
                },
            ),
            JsonlResolution::Ambiguous { matches, error } => {
                if matches == 0 {
                    return Err(error);
                }
                let candidate = debug_quoted(outcome.0.as_str());
                let count = decimal_text(matches);
                return Err(
                    BeadsError::SyncConflict {
                        message: text5(
                            "Database/JSONL divergence: ",
                            candidate.as_str(),
                            " matches ",
                            count.as_str(),
                            DIVERGENT_ISSUES,
                        ),
                    },
                );
            },
        }
    }
    Ok(())
}

/// What is asked of the database besides an issue itself.
#[derive(Debug, Clone, Copy, PartialEq, Eq, Structural)]
pub struct DetailsQuery {
    pub include_comments: bool,
    pub include_events: bool,
    pub event_limit: usize,
}

/// Issues are shown with their comments and without their events.
pub fn details_query() -> (r: DetailsQuery)
    ensures
        r == (DetailsQuery { include_comments: true, include_events: false, event_limit: 10 }),
{
    DetailsQuery { include_comments: true, include_events: false, event_limit: 10 }
}

/// What the database gave for an id that was asked for.
#[derive(Debug)]
pub enum StorageLookup {
    /// The issue.
    Found { details: IssueDetails },
    /// No issue: `outcomes` are the searches for it in the issues file.
    Missing { id: String, outcomes: Vec<(String, JsonlResolution)> },
    /// The lookup failed.
    Failed { error: BeadsError },
}

/// The details that a lookup gives, or what it stops the command with: an issue that the
/// issues file holds is never called missing.
pub open spec fn looked_up(lookup: StorageLookup, statuses: Seq<(String, bool)>) -> Result<
    DetailsModel,
    ErrorModel,
> {
    match lookup {
        StorageLookup::Found { details } => Ok(details_with_statuses(details@, statuses)),
        StorageLookup::Failed { error } => Err(error.model()),
        StorageLookup::Missing { id, outcomes } => match first_divergence(outcomes@) {
            Err(e) => Err(e),
            Ok(()) => Err(ErrorModel::IssueNotFound { id: id@ }),
        },
    }
}

/// The details that the lookups give, in order, or what the first one that fails says.
pub open spec fn all_looked_up(lookups: Seq<StorageLookup>, statuses: Seq<(String, bool)>) -> Result<
    Seq<DetailsModel>,
    ErrorModel,
>
    decreases lookups.len(),
{
    if lookups.len() == 0 {
        Ok(Seq::empty())
    } else {
        match all_looked_up(lookups.drop_last(), statuses) {
            Err(e) => Err(e),
            Ok(before) => match looked_up(lookups.last(), statuses) {
                Err(e) => Err(e),
                Ok(details) => Ok(before.push(details)),
            },
        }
    }
}

proof fn lemma_lookup_fails(
    lookups: Seq<StorageLookup>,
    statuses: Seq<(String, bool)>,
    n: int,
)
    requires
        0 <= n <= lookups.len(),
        all_looked_up(lookups.take(n), statuses) is Err,
    ensures
        all_looked_up(lookups, statuses) == all_looked_up(lookups.take(n), statuses),
    decreases lookups.len() - n,
{
    if n == lookups.len() {
        assert(lookups.take(n) =~= lookups);
    } else {
        assert(lookups.take(n + 1).drop_last() =~= lookups.take(n));
        lemma_lookup_fails(lookups, statuses, n + 1);
    }
}

/// The details of the issues that were asked for, from what the database gave, with what is
/// known of their external dependencies.
pub fn load_issue_details_from_storage(
    lookups: Vec<StorageLookup>,
    external_statuses: &Vec<(String, bool)>,
) -> (r: Result<Vec<IssueDetails>, BeadsError>)
    ensures
        details_or_error(r) == all_looked_up(lookups@, external_statuses@),
{
    let ghost given = lookups@;
    let mut out: Vec<IssueDetails> = Vec::new();
    assert(views(out@) =~= Seq::<DetailsModel>::empty());
    for lookup in it: lookups
        invariant
            it.seq() == given,
            given == lookups@,
            all_looked_up(given.take(it.index() as int), external_statuses@) == Ok::<
                Seq<DetailsModel>,
                ErrorModel,
            >(views(out@)),
    {
        let ghost n = it.index() as int;
        assert(given.take(n + 1).drop_last() =~= given.take(n));
        assert(given.take(n + 1).last() == lookup);
        match lookup {
            StorageLookup::Failed { error } => {
                proof {
                    lemma_lookup_fails(given, external_statuses@, n + 1);
                }
                return Err(error);
            },
            StorageLookup::Missing { id, outcomes } => {
                proof {
                    lemma_lookup_fails(given, external_statuses@, n + 1);
                }
                match fail_if_jsonl_contains_missing_database_id(outcomes) {
                    Err(e) => return Err(e),
                    Ok(()) => return Err(BeadsError::IssueNotFound { id }),
                }
            },
            StorageLookup::Found { details } => {
                let ghost before = views(out@);
                let mut details = details;
                apply_external_dependency_metadata(&mut details.dependencies, external_statuses);
                apply_external_dependency_metadata(&mut details.dependents, external_statuses);
                let ghost shown = details@;
                out.push(details);
                assert(views(out@) =~= before.push(shown));
            },
        }
    }
    assert(given.take(given.len() as int) =~= given);
    Ok(out)
}

} // verus!
