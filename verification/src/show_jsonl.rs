//! The details of an issue, put together from the issues of a JSONL file.

use crate::error::{config_error, BeadsError, ErrorModel};
use crate::model::{
    copy_comments, copy_texts, not_after, without_relations, Comment, CommentModel, Dependency,
    DependencyModel, Issue, IssueModel, Priority, Status, StatusModel, Timestamp, MEDIUM,
};
use crate::numbers::{decimal, decimal_text};
use crate::sorting::{sorted, stable_sort, text_le, text_may_precede, views, Ranked};
use crate::text::{
    any_text, has_text, opt_text, same_text, starts_with, text3, text5, texts, without_prefix,
};
use vstd::prelude::*;
use vstd::string::*;

verus! {

broadcast use vstd::string::group_string_axioms;

/// Another issue, seen from one that depends on it or that it depends on.
#[derive(Debug)]
pub struct IssueWithDependencyMetadata {
    pub id: String,
    pub title: String,
    pub status: Status,
    pub priority: Priority,
    pub dep_type: String,
}

/// What an [`IssueWithDependencyMetadata`] says.
#[verifier::ext_equal]
pub struct MetadataModel {
    pub id: Seq<char>,
    pub title: Seq<char>,
    pub status: StatusModel,
    pub priority: Priority,
    pub dep_type: Seq<char>,
}

impl View for IssueWithDependencyMetadata {
    type V = MetadataModel;

    open spec fn view(&self) -> MetadataModel {
        MetadataModel {
            id: self.id@,
            title: self.title@,
            status: self.status@,
            priority: self.priority,
            dep_type: self.dep_type@,
        }
    }
}

/// How the descendants of an issue stand.
#[derive(Debug)]
pub struct Rollup {
    pub status: String,
    pub descendants: Vec<(String, u64)>,
}

/// What a [`Rollup`] says.
#[verifier::ext_equal]
pub struct RollupModel {
    pub status: Seq<char>,
    pub descendants: Seq<(Seq<char>, u64)>,
}

impl View for Rollup {
    type V = RollupModel;

    open spec fn view(&self) -> RollupModel {
        RollupModel {
            status: self.status@,
            descendants: self.descendants@.map_values(|p: (String, u64)| (p.0@, p.1)),
        }
    }
}

/// How the descendants stand, where that is known.
pub open spec fn opt_rollup(rollup: Option<Rollup>) -> Option<RollupModel> {
    match rollup {
        Some(r) => Some(r@),
        None => None,
    }
}

/// Context that an issue has from an ancestor.
#[derive(Debug)]
pub struct InheritedBlock {
    pub source_id: String,
    pub text: String,
}

/// What an [`InheritedBlock`] says.
#[verifier::ext_equal]
pub struct BlockModel {
    pub source_id: Seq<char>,
    pub text: Seq<char>,
}

impl View for InheritedBlock {
    type V = BlockModel;

    open spec fn view(&self) -> BlockModel {
        BlockModel { source_id: self.source_id@, text: self.text@ }
    }
}

/// An issue with everything that is shown of it.
#[derive(Debug)]
pub struct IssueDetails {
    pub issue: Issue,
    pub labels: Vec<String>,
    pub dependencies: Vec<IssueWithDependencyMetadata>,
    pub dependents: Vec<IssueWithDependencyMetadata>,
    pub comments: Vec<Comment>,
    pub parent: Option<String>,
    pub rollup: Option<Rollup>,
    pub inherited_context: Vec<InheritedBlock>,
}

/// What [`IssueDetails`] say.
#[verifier::ext_equal]
pub struct DetailsModel {
    pub issue: IssueModel,
    pub labels: Seq<Seq<char>>,
    pub dependencies: Seq<MetadataModel>,
    pub dependents: Seq<MetadataModel>,
    pub comments: Seq<CommentModel>,
    pub parent: Option<Seq<char>>,
    pub rollup: Option<RollupModel>,
    pub inherited_context: Seq<BlockModel>,
}

impl View for IssueDetails {
    type V = DetailsModel;

    open spec fn view(&self) -> DetailsModel {
        DetailsModel {
            issue: self.issue@,
            labels: texts(self.labels@),
            dependencies: views(self.dependencies@),
            dependents: views(self.dependents@),
            comments: views(self.comments@),
            parent: opt_text(self.parent),
            rollup: opt_rollup(self.rollup),
            inherited_context: views(self.inherited_context@),
        }
    }
}

/// What an issue shows of itself to others.
#[derive(Debug)]
pub struct JsonlIssueSummary {
    pub id: String,
    pub title: String,
    pub status: Status,
    pub priority: Priority,
    pub created_at: Timestamp,
}

/// What a [`JsonlIssueSummary`] says.
#[verifier::ext_equal]
pub struct SummaryModel {
    pub id: Seq<char>,
    pub title: Seq<char>,
    pub status: StatusModel,
    pub priority: Priority,
    pub created_at: Timestamp,
}

impl View for JsonlIssueSummary {
    type V = SummaryModel;

    open spec fn view(&self) -> SummaryModel {
        SummaryModel {
            id: self.id@,
            title: self.title@,
            status: self.status@,
            priority: self.priority,
            created_at: self.created_at,
        }
    }
}

/// The summary of an issue.
pub open spec fn summary_of(issue: IssueModel) -> SummaryModel {
    SummaryModel {
        id: issue.id,
        title: issue.title,
        status: issue.status,
        priority: issue.priority,
        created_at: issue.created_at,
    }
}

/// The summaries of the issues.
pub open spec fn summaries_of(issues: Seq<IssueModel>) -> Seq<SummaryModel> {
    issues.map_values(|i: IssueModel| summary_of(i))
}

/// The summary under the name of a dependency.
pub open spec fn summary_metadata(s: SummaryModel, dep_type: Seq<char>) -> MetadataModel {
    MetadataModel { id: s.id, title: s.title, status: s.status, priority: s.priority, dep_type }
}

impl JsonlIssueSummary {
    pub fn from_issue(issue: &Issue) -> (r: JsonlIssueSummary)
        ensures
            r@ == summary_of(issue@),
    {
        JsonlIssueSummary {
            id: issue.id.clone(),
            title: issue.title.clone(),
            status: issue.status.copy(),
            priority: issue.priority,
            created_at: issue.created_at,
        }
    }

    pub fn dependency_metadata(&self, dep_type: &str) -> (r: IssueWithDependencyMetadata)
        ensures
            r@ == summary_metadata(self@, dep_type@),
    {
        IssueWithDependencyMetadata {
            id: self.id.clone(),
            title: self.title.clone(),
            status: self.status.copy(),
            priority: self.priority,
            dep_type: dep_type.to_owned(),
        }
    }
}

/// A line of dependencies or dependents, with what it is ordered by.
#[derive(Debug)]
pub struct DependencyDisplayEntry {
    pub item: IssueWithDependencyMetadata,
    pub priority: Priority,
    pub created_at: Timestamp,
}

/// What a [`DependencyDisplayEntry`] says.
#[verifier::ext_equal]
pub struct EntryModel {
    pub item: MetadataModel,
    pub priority: Priority,
    pub created_at: Timestamp,
}

impl View for DependencyDisplayEntry {
    type V = EntryModel;

    open spec fn view(&self) -> EntryModel {
        EntryModel { item: self.item@, priority: self.priority, created_at: self.created_at }
    }
}

/// The order of the lines: the most urgent first, then the newest, then by id.
pub open spec fn entry_le(a: EntryModel, b: EntryModel) -> bool {
    ||| a.priority.level < b.priority.level
    ||| a.priority.level == b.priority.level && !not_after(a.created_at, b.created_at)
    ||| a.priority.level == b.priority.level && a.created_at == b.created_at && text_le(
        a.item.id,
        b.item.id,
    )
}

impl Ranked for DependencyDisplayEntry {
    open spec fn ranks_le(a: EntryModel, b: EntryModel) -> bool {
        entry_le(a, b)
    }

    fn may_precede(&self, other: &Self) -> (r: bool) {
        if self.priority.level != other.priority.level {
            return self.priority.level < other.priority.level;
        }
        if !self.created_at.is_not_after(&other.created_at) {
            return true;
        }
        self.created_at == other.created_at && text_may_precede(
            self.item.id.as_str(),
            other.item.id.as_str(),
        )
    }
}

/// The last summary with this id.
pub open spec fn find_summary(all: Seq<SummaryModel>, id: Seq<char>) -> Option<SummaryModel>
    decreases all.len(),
{
    if all.len() == 0 {
        None
    } else if all.last().id == id {
        Some(all.last())
    } else {
        find_summary(all.drop_last(), id)
    }
}

/// A dependency on something outside the workspace.
pub open spec fn external_id(id: Seq<char>) -> bool {
    starts_with(id, "external:"@)
}

/// The line of a dependency: the issue that it names, a placeholder for an external one, or
/// one for an issue that is missing.
pub open spec fn dependency_entry(dep: DependencyModel, found: Option<SummaryModel>) -> EntryModel {
    match found {
        Some(target) => EntryModel {
            item: summary_metadata(target, dep.dep_type),
            priority: target.priority,
            created_at: target.created_at,
        },
        None => EntryModel {
            item: MetadataModel {
                id: dep.depends_on_id,
                title: if external_id(dep.depends_on_id) {
                    dep.depends_on_id.skip("external:"@.len() as int)
                } else {
                    "[missing issue: "@ + dep.depends_on_id + "]"@
                },
                status: if external_id(dep.depends_on_id) {
                    StatusModel::Blocked
                } else {
                    StatusModel::Tombstone
                },
                priority: Priority { level: MEDIUM },
                dep_type: dep.dep_type,
            },
            priority: Priority { level: MEDIUM },
            created_at: dep.created_at,
        },
    }
}

fn placeholder_entry(dep: &Dependency) -> (r: DependencyDisplayEntry)
    ensures
        r@ == dependency_entry(dep@, None),
{
    let id = dep.depends_on_id.as_str();
    let medium = Priority { level: MEDIUM };
    match without_prefix(id, "external:") {
        Some(title) => DependencyDisplayEntry {
            item: IssueWithDependencyMetadata {
                id: dep.depends_on_id.clone(),
                title,
                status: Status::Blocked,
                priority: medium,
                dep_type: dep.dep_type.as_str().to_owned(),
            },
            priority: medium,
            created_at: dep.created_at,
        },
        None => DependencyDisplayEntry {
            item: IssueWithDependencyMetadata {
                id: dep.depends_on_id.clone(),
                title: text3("[missing issue: ", id, "]"),
                status: Status::Tombstone,
                priority: medium,
                dep_type: dep.dep_type.as_str().to_owned(),
            },
            priority: medium,
            created_at: dep.created_at,
        },
    }
}

/// The line of a dependency, looked up among summaries.
pub fn dependency_metadata_from_jsonl_summary(
    dep: &Dependency,
    summaries: &Vec<JsonlIssueSummary>,
) -> (r: DependencyDisplayEntry)
    ensures
        r@ == dependency_entry(dep@, find_summary(views(summaries@), dep@.depends_on_id)),
{
    let ghost all = views(summaries@);
    let mut n: usize = summaries.len();
    assert(all.take(n as int) =~= all);
    while n > 0
        invariant
            n <= summaries@.len(),
            all == views(summaries@),
            find_summary(all, dep@.depends_on_id) == find_summary(
                all.take(n as int),
                dep@.depends_on_id,
            ),
        decreases n,
    {
        assert(all.take(n as int).drop_last() =~= all.take(n - 1));
        assert(all.take(n as int).last() == summaries@[n - 1]@);
        let last = &summaries[n - 1];
        if same_text(last.id.as_str(), dep.depends_on_id.as_str()) {
            return DependencyDisplayEntry {
                item: last.dependency_metadata(dep.dep_type.as_str()),
                priority: last.priority,
                created_at: last.created_at,
            };
        }
        n -= 1;
    }
    placeholder_entry(dep)
}

/// The line of a dependency, looked up among issues.
pub fn dependency_metadata_from_jsonl(dep: &Dependency, issues: &Vec<Issue>) -> (r:
    DependencyDisplayEntry)
    ensures
        r@ == dependency_entry(
            dep@,
            find_summary(summaries_of(views(issues@)), dep@.depends_on_id),
        ),
{
    let ghost all = summaries_of(views(issues@));
    let mut n: usize = issues.len();
    assert(all.take(n as int) =~= all);
    while n > 0
        invariant
            n <= issues@.len(),
            all == summaries_of(views(issues@)),
            find_summary(all, dep@.depends_on_id) == find_summary(
                all.take(n as int),
                dep@.depends_on_id,
            ),
        decreases n,
    {
        assert(all.take(n as int).drop_last() =~= all.take(n - 1));
        assert(all.take(n as int).last() == summary_of(issues@[n - 1]@));
        let last = &issues[n - 1];
        if same_text(last.id.as_str(), dep.depends_on_id.as_str()) {
            let summary = JsonlIssueSummary::from_issue(last);
            return DependencyDisplayEntry {
                item: summary.dependency_metadata(dep.dep_type.as_str()),
                priority: last.priority,
                created_at: last.created_at,
            };
        }
        n -= 1;
    }
    placeholder_entry(dep)
}

/// The lines of the dependencies, in the order in which the issue names them.
pub open spec fn dependency_entries(
    deps: Seq<DependencyModel>,
    summaries: Seq<SummaryModel>,
) -> Seq<EntryModel> {
    deps.map_values(
        |d: DependencyModel| dependency_entry(d, find_summary(summaries, d.depends_on_id)),
    )
}

/// The lines in the order in which they are shown.
pub open spec fn shown(entries: Seq<EntryModel>) -> Seq<MetadataModel> {
    stable_sort(entries, |a: EntryModel, b: EntryModel| entry_le(a, b)).map_values(
        |e: EntryModel| e.item,
    )
}

/// The line that a dependent makes.
pub open spec fn dependent_entry(issue: IssueModel, dep_type: Seq<char>) -> EntryModel {
    EntryModel {
        item: summary_metadata(summary_of(issue), dep_type),
        priority: issue.priority,
        created_at: issue.created_at,
    }
}

/// The lines that one issue makes among the dependents of `target`: one for each of its
/// dependencies on it.
pub open spec fn entries_towards(
    issue: IssueModel,
    deps: Seq<DependencyModel>,
    target: Seq<char>,
) -> Seq<EntryModel>
    decreases deps.len(),
{
    if deps.len() == 0 {
        Seq::empty()
    } else if deps.last().depends_on_id == target {
        entries_towards(issue, deps.drop_last(), target).push(
            dependent_entry(issue, deps.last().dep_type),
        )
    } else {
        entries_towards(issue, deps.drop_last(), target)
    }
}

/// The lines of all dependents of `target`, in the order of the issues.
pub open spec fn dependent_entries(issues: Seq<IssueModel>, target: Seq<char>) -> Seq<EntryModel>
    decreases issues.len(),
{
    if issues.len() == 0 {
        Seq::empty()
    } else {
        dependent_entries(issues.drop_last(), target) + entries_towards(
            issues.last(),
            issues.last().dependencies,
            target,
        )
    }
}

/// The issue that the last parent-child dependency names.
pub open spec fn parent_in(deps: Seq<DependencyModel>) -> Option<Seq<char>>
    decreases deps.len(),
{
    if deps.len() == 0 {
        None
    } else if deps.last().dep_type == "parent-child"@ {
        Some(deps.last().depends_on_id)
    } else {
        parent_in(deps.drop_last())
    }
}

/// The details of an issue, with the lines of its dependencies and dependents.
pub open spec fn details_with(
    issue: IssueModel,
    dependencies: Seq<EntryModel>,
    dependents: Seq<EntryModel>,
) -> DetailsModel {
    DetailsModel {
        issue: without_relations(issue),
        labels: issue.labels,
        dependencies: shown(dependencies),
        dependents: shown(dependents),
        comments: issue.comments,
        parent: parent_in(issue.dependencies),
        rollup: None,
        inherited_context: Seq::empty(),
    }
}

/// The details of an issue among all issues.
pub open spec fn details_of(issue: IssueModel, issues: Seq<IssueModel>) -> DetailsModel {
    details_with(
        issue,
        dependency_entries(issue.dependencies, summaries_of(issues)),
        dependent_entries(issues, issue.id),
    )
}

fn show_entries(entries: Vec<DependencyDisplayEntry>) -> (r: Vec<IssueWithDependencyMetadata>)
    ensures
        views(r@) == shown(views(entries@)),
{
    let ghost given = views(entries@);
    let in_order = sorted(entries);
    let ghost order = stable_sort(given, |a: EntryModel, b: EntryModel| entry_le(a, b));
    assert(views(in_order@) == order) by {
        assert((|a: EntryModel, b: EntryModel| <DependencyDisplayEntry as Ranked>::ranks_le(a, b))
            =~= (|a: EntryModel, b: EntryModel| entry_le(a, b)));
    }
    let ghost sequence = in_order@;
    let mut out: Vec<IssueWithDependencyMetadata> = Vec::new();
    for entry in it: in_order
        invariant
            it.seq() == sequence,
            views(sequence) == order,
            views(out@) == order.take(it.index() as int).map_values(|e: EntryModel| e.item),
    {
        let ghost before = views(out@);
        let ghost model = entry@;
        assert(model == order[it.index() as int]);
        out.push(entry.item);
        assert(views(out@) =~= before.push(model.item));
        assert(views(out@) =~= order.take(it.index() + 1).map_values(|e: EntryModel| e.item));
    }
    assert(order.take(order.len() as int) =~= order);
    out
}

fn last_parent(issue: &Issue) -> (r: Option<String>)
    ensures
        opt_text(r) == parent_in(issue@.dependencies),
{
    let ghost deps = views(issue.dependencies@);
    let mut i: usize = issue.dependencies.len();
    assert(deps.take(i as int) =~= deps);
    while i > 0
        invariant
            i <= issue.dependencies@.len(),
            deps == views(issue.dependencies@),
            parent_in(deps) == parent_in(deps.take(i as int)),
        decreases i,
    {
        assert(deps.take(i as int).drop_last() =~= deps.take(i - 1));
        assert(deps.take(i as int).last() == issue.dependencies@[i - 1]@);
        if same_text(issue.dependencies[i - 1].dep_type.as_str(), "parent-child") {
            return Some(issue.dependencies[i - 1].depends_on_id.clone());
        }
        i -= 1;
    }
    None
}

fn assemble_details(
    issue: &Issue,
    dependencies: Vec<DependencyDisplayEntry>,
    dependents: Vec<DependencyDisplayEntry>,
) -> (r: IssueDetails)
    ensures
        r@ == details_with(issue@, views(dependencies@), views(dependents@)),
{
    let inherited_context: Vec<InheritedBlock> = Vec::new();
    assert(views(inherited_context@) =~= Seq::<BlockModel>::empty());
    IssueDetails {
        issue: issue.copy_without_relations(),
        labels: copy_texts(&issue.labels),
        dependencies: show_entries(dependencies),
        dependents: show_entries(dependents),
        comments: copy_comments(&issue.comments),
        parent: last_parent(issue),
        rollup: None,
        inherited_context,
    }
}

fn push_entries_towards(
    out: &mut Vec<DependencyDisplayEntry>,
    issue: &Issue,
    summary: &JsonlIssueSummary,
    target: &str,
)
    requires
        summary@ == summary_of(issue@),
    ensures
        views(final(out)@) == views(old(out)@) + entries_towards(
            issue@,
            issue@.dependencies,
            target@,
        ),
{
    let ghost start = views(out@);
    let ghost deps = views(issue.dependencies@);
    let mut k: usize = 0;
    assert(start =~= start + entries_towards(issue@, deps.take(0), target@));
    while k < issue.dependencies.len()
        invariant
            k <= issue.dependencies@.len(),
            summary@ == summary_of(issue@),
            deps == views(issue.dependencies@),
            views(out@) == start + entries_towards(issue@, deps.take(k as int), target@),
        decreases issue.dependencies@.len() - k,
    {
        assert(deps.take(k + 1).drop_last() =~= deps.take(k as int));
        assert(deps.take(k + 1).last() == issue.dependencies@[k as int]@);
        if same_text(issue.dependencies[k].depends_on_id.as_str(), target) {
            let ghost before = views(out@);
            let entry = DependencyDisplayEntry {
                item: summary.dependency_metadata(issue.dependencies[k].dep_type.as_str()),
                priority: summary.priority,
                created_at: summary.created_at,
            };
            let ghost model = entry@;
            out.push(entry);
            assert(views(out@) =~= before.push(model));
            assert(views(out@) =~= start + entries_towards(issue@, deps.take(k + 1), target@));
        }
        k += 1;
    }
    assert(deps.take(deps.len() as int) =~= deps);
}

/// The details of an issue, from all issues of the file.
pub fn build_issue_details_from_jsonl(issue: &Issue, issues: &Vec<Issue>) -> (r: IssueDetails)
    ensures
        r@ == details_of(issue@, views(issues@)),
{
    let ghost all = views(issues@);
    let ghost wanted = dependency_entries(issue@.dependencies, summaries_of(all));
    let mut dependencies: Vec<DependencyDisplayEntry> = Vec::new();
    let mut i: usize = 0;
    while i < issue.dependencies.len()
        invariant
            i <= issue.dependencies@.len(),
            all == views(issues@),
            wanted == dependency_entries(issue@.dependencies, summaries_of(all)),
            views(dependencies@) == wanted.take(i as int),
        decreases issue.dependencies@.len() - i,
    {
        let ghost before = views(dependencies@);
        let entry = dependency_metadata_from_jsonl(&issue.dependencies[i], issues);
        let ghost model = entry@;
        assert(issue@.dependencies[i as int] == issue.dependencies@[i as int]@);
        dependencies.push(entry);
        i += 1;
        assert(views(dependencies@) =~= before.push(model));
        assert(views(dependencies@) =~= wanted.take(i as int));
    }
    assert(views(dependencies@) =~= wanted);
    let mut dependents: Vec<DependencyDisplayEntry> = Vec::new();
    let mut k: usize = 0;
    assert(views(dependents@) =~= dependent_entries(all.take(0), issue@.id));
    while k < issues.len()
        invariant
            k <= issues@.len(),
            all == views(issues@),
            views(dependents@) == dependent_entries(all.take(k as int), issue@.id),
        decreases issues@.len() - k,
    {
        assert(all.take(k + 1).drop_last() =~= all.take(k as int));
        assert(all.take(k + 1).last() == issues@[k as int]@);
        let summary = JsonlIssueSummary::from_issue(&issues[k]);
        push_entries_towards(&mut dependents, &issues[k], &summary, issue.id.as_str());
        k += 1;
    }
    assert(all.take(all.len() as int) =~= all);
    assemble_details(issue, dependencies, dependents)
}

/// What a scan keeps of a file for the issues that were asked for.
#[derive(Debug)]
pub struct ExactJsonlShowIndex {
    pub summaries: Vec<JsonlIssueSummary>,
    pub targets: Vec<Issue>,
    pub dependents: Vec<(String, DependencyDisplayEntry)>,
}

/// What an [`ExactJsonlShowIndex`] says.
#[verifier::ext_equal]
pub struct IndexModel {
    pub summaries: Seq<SummaryModel>,
    pub targets: Seq<IssueModel>,
    pub dependents: Seq<(Seq<char>, EntryModel)>,
}

/// The dependents, with the issue that each depends on.
pub open spec fn addressed(v: Seq<(String, DependencyDisplayEntry)>) -> Seq<
    (Seq<char>, EntryModel),
> {
    v.map_values(|p: (String, DependencyDisplayEntry)| (p.0@, p.1@))
}

impl View for ExactJsonlShowIndex {
    type V = IndexModel;

    open spec fn view(&self) -> IndexModel {
        IndexModel {
            summaries: views(self.summaries@),
            targets: views(self.targets@),
            dependents: addressed(self.dependents@),
        }
    }
}

/// The lines of one issue towards any of the issues that were asked for.
pub open spec fn entries_towards_any(
    issue: IssueModel,
    deps: Seq<DependencyModel>,
    targets: Seq<Seq<char>>,
) -> Seq<(Seq<char>, EntryModel)>
    decreases deps.len(),
{
    if deps.len() == 0 {
        Seq::empty()
    } else if has_text(targets, deps.last().depends_on_id) {
        entries_towards_any(issue, deps.drop_last(), targets).push(
            (deps.last().depends_on_id, dependent_entry(issue, deps.last().dep_type)),
        )
    } else {
        entries_towards_any(issue, deps.drop_last(), targets)
    }
}

/// What a scan keeps of these issues.
pub open spec fn index_of(issues: Seq<IssueModel>, targets: Seq<Seq<char>>) -> IndexModel
    decreases issues.len(),
{
    if issues.len() == 0 {
        IndexModel { summaries: Seq::empty(), targets: Seq::empty(), dependents: Seq::empty() }
    } else {
        let before = index_of(issues.drop_last(), targets);
        let issue = issues.last();
        IndexModel {
            summaries: before.summaries.push(summary_of(issue)),
            targets: if has_text(targets, issue.id) {
                before.targets.push(issue)
            } else {
                before.targets
            },
            dependents: before.dependents + entries_towards_any(
                issue,
                issue.dependencies,
                targets,
            ),
        }
    }
}

/// What one line of the file holds.
#[derive(Debug)]
pub enum JsonlLine {
    Blank,
    Invalid { error: String },
    Issue { issue: Issue },
}

/// What a [`JsonlLine`] says.
pub enum LineModel {
    Blank,
    Invalid { error: Seq<char> },
    Issue { issue: IssueModel },
}

impl View for JsonlLine {
    type V = LineModel;

    open spec fn view(&self) -> LineModel {
        match self {
            JsonlLine::Blank => LineModel::Blank,
            JsonlLine::Invalid { error } => LineModel::Invalid { error: error@ },
            JsonlLine::Issue { issue } => LineModel::Issue { issue: issue@ },
        }
    }
}

/// The issues on the lines.
pub open spec fn issues_on(lines: Seq<LineModel>) -> Seq<IssueModel>
    decreases lines.len(),
{
    if lines.len() == 0 {
        Seq::empty()
    } else {
        match lines.last() {
            LineModel::Issue { issue } => issues_on(lines.drop_last()).push(issue),
            _ => issues_on(lines.drop_last()),
        }
    }
}

/// Some issue has this id.
pub open spec fn has_issue(issues: Seq<IssueModel>, id: Seq<char>) -> bool {
    exists|i: int| 0 <= i < issues.len() && (#[trigger] issues[i]).id == id
}

/// The first line that cannot be used: it is no issue, or its id was there before.
pub open spec fn scan_check(lines: Seq<LineModel>, path: Seq<char>, upto: nat) -> Result<
    (),
    ErrorModel,
>
    decreases lines.len() - upto,
{
    if upto >= lines.len() {
        Ok(())
    } else {
        match lines[upto as int] {
            LineModel::Blank => scan_check(lines, path, upto + 1),
            LineModel::Invalid { error } => Err(
                ErrorModel::Config(
                    "Invalid JSON at line "@ + decimal(upto + 1) + ": "@ + error,
                ),
            ),
            LineModel::Issue { issue } => if has_issue(
                issues_on(lines.take(upto as int)),
                issue.id,
            ) {
                Err(
                    ErrorModel::Config(
                        "Duplicate issue id '"@ + issue.id + "' in "@ + path + " at line "@
                            + decimal(upto + 1),
                    ),
                )
            } else {
                scan_check(lines, path, upto + 1)
            },
        }
    }
}

fn any_summary(summaries: &Vec<JsonlIssueSummary>, id: &str) -> (r: bool)
    ensures
        r == exists|i: int| 0 <= i < summaries@.len() && (#[trigger] summaries@[i]).id@ == id@,
{
    let mut i: usize = 0;
    while i < summaries.len()
        invariant
            i <= summaries@.len(),
            forall|k: int| 0 <= k < i ==> (#[trigger] summaries@[k]).id@ != id@,
        decreases summaries@.len() - i,
    {
        if same_text(summaries[i].id.as_str(), id) {
            return true;
        }
        i += 1;
    }
    false
}

fn push_entries_towards_any(
    out: &mut Vec<(String, DependencyDisplayEntry)>,
    issue: &Issue,
    summary: &JsonlIssueSummary,
    targets: &Vec<String>,
)
    requires
        summary@ == summary_of(issue@),
    ensures
        addressed(final(out)@) == addressed(old(out)@) + entries_towards_any(
            issue@,
            issue@.dependencies,
            texts(targets@),
        ),
{
    let ghost start = addressed(out@);
    let ghost deps = views(issue.dependencies@);
    let ghost wanted = texts(targets@);
    let mut k: usize = 0;
    assert(start =~= start + entries_towards_any(issue@, deps.take(0), wanted));
    while k < issue.dependencies.len()
        invariant
            k <= issue.dependencies@.len(),
            summary@ == summary_of(issue@),
            deps == views(issue.dependencies@),
            wanted == texts(targets@),
            addressed(out@) == start + entries_towards_any(issue@, deps.take(k as int), wanted),
        decreases issue.dependencies@.len() - k,
    {
        assert(deps.take(k + 1).drop_last() =~= deps.take(k as int));
        assert(deps.take(k + 1).last() == issue.dependencies@[k as int]@);
        if any_text(targets, issue.dependencies[k].depends_on_id.as_str()) {
            let ghost before = addressed(out@);
            let target = issue.dependencies[k].depends_on_id.clone();
            let entry = DependencyDisplayEntry {
                item: summary.dependency_metadata(issue.dependencies[k].dep_type.as_str()),
                priority: summary.priority,
                created_at: summary.created_at,
            };
            let ghost model = (target@, entry@);
            out.push((target, entry));
            assert(addressed(out@) =~= before.push(model));
            assert(addressed(out@) =~= start + entries_towards_any(
                issue@,
                deps.take(k + 1),
                wanted,
            ));
        }
        k += 1;
    }
    assert(deps.take(deps.len() as int) =~= deps);
}

proof fn lemma_index_summaries(issues: Seq<IssueModel>, targets: Seq<Seq<char>>)
    ensures
        index_of(issues, targets).summaries == summaries_of(issues),
    decreases issues.len(),
{
    if issues.len() > 0 {
        lemma_index_summaries(issues.drop_last(), targets);
        assert(summaries_of(issues) =~= summaries_of(issues.drop_last()).push(
            summary_of(issues.last()),
        ));
    } else {
        assert(summaries_of(issues) =~= Seq::<SummaryModel>::empty());
    }
}

/// What a scan of the lines keeps for the issues that were asked for, or the line that
/// stops it.
pub fn scan_exact_jsonl_show_index(
    lines: Vec<JsonlLine>,
    targets: &Vec<String>,
    path: &str,
) -> (r: Result<ExactJsonlShowIndex, BeadsError>)
    ensures
        match r {
            Ok(index) => scan_check(views(lines@), path@, 0) is Ok && index@ == index_of(
                issues_on(views(lines@)),
                texts(targets@),
            ),
            Err(e) => scan_check(views(lines@), path@, 0) == Err::<(), ErrorModel>(e.model()),
        },
{
    let ghost all = views(lines@);
    let ghost wanted = texts(targets@);
    let ghost given = lines@;
    let total: usize = lines.len();
    let mut summaries: Vec<JsonlIssueSummary> = Vec::new();
    let mut found: Vec<Issue> = Vec::new();
    let mut dependents: Vec<(String, DependencyDisplayEntry)> = Vec::new();
    let mut line_num: usize = 0;
    proof {
        let start = index_of(issues_on(all.take(0)), wanted);
        assert(views(summaries@) =~= start.summaries);
        assert(views(found@) =~= start.targets);
        assert(addressed(dependents@) =~= start.dependents);
    }
    for line in it: lines
        invariant
            it.seq() == given,
            given == lines@,
            all == views(given),
            wanted == texts(targets@),
            line_num == it.index(),
            total == given.len(),
            scan_check(all, path@, 0) == scan_check(all, path@, line_num as nat),
            views(summaries@) == index_of(issues_on(all.take(line_num as int)), wanted).summaries,
            views(found@) == index_of(issues_on(all.take(line_num as int)), wanted).targets,
            addressed(dependents@) == index_of(
                issues_on(all.take(line_num as int)),
                wanted,
            ).dependents,
    {
        let ghost before = issues_on(all.take(line_num as int));
        assert(all.take(line_num + 1).drop_last() =~= all.take(line_num as int));
        assert(all.take(line_num + 1).last() == line@);
        match line {
            JsonlLine::Blank => {},
            JsonlLine::Invalid { error } => {
                let number = decimal_text(line_num as u64 + 1);
                let mut out = text3("Invalid JSON at line ", number.as_str(), ": ");
                out.append(error.as_str());
                return Err(config_error(out));
            },
            JsonlLine::Issue { issue } => {
                proof {
                    lemma_index_summaries(before, wanted);
                    assert(views(summaries@).len() == summaries@.len());
                    assert(summaries_of(before).len() == before.len());
                    assert forall|i: int| 0 <= i < summaries@.len() implies (
                    #[trigger] summaries@[i]).id@ == before[i].id by {
                        assert(views(summaries@)[i] == summaries@[i]@);
                        assert(summaries_of(before)[i] == summary_of(before[i]));
                    }
                    assert(summaries@.len() == before.len());
                }
                if any_summary(&summaries, issue.id.as_str()) {
                    proof {
                        let i = choose|i: int|
                            0 <= i < summaries@.len() && (#[trigger] summaries@[i]).id@
                                == issue.id@;
                        assert(before[i].id == issue@.id);
                    }
                    let number = decimal_text(line_num as u64 + 1);
                    let mut out = text5(
                        "Duplicate issue id '",
                        issue.id.as_str(),
                        "' in ",
                        path,
                        " at line ",
                    );
                    out.append(number.as_str());
                    return Err(config_error(out));
                }
                assert(!has_issue(before, issue@.id)) by {
                    if has_issue(before, issue@.id) {
                        let i = choose|i: int|
                            0 <= i < before.len() && (#[trigger] before[i]).id == issue@.id;
                        assert(summaries@[i].id@ == issue.id@);
                    }
                }
                let ghost now = before.push(issue@);
                assert(now.drop_last() =~= before);
                assert(issues_on(all.take(line_num + 1)) == now);
                let summary = JsonlIssueSummary::from_issue(&issue);
                push_entries_towards_any(&mut dependents, &issue, &summary, targets);
                let ghost kept = views(found@);
                let ghost model = issue@;
                if any_text(targets, issue.id.as_str()) {
                    found.push(issue);
                    assert(views(found@) =~= kept.push(model));
                }
                let ghost old_summaries = views(summaries@);
                let ghost shown_summary = summary@;
                summaries.push(summary);
                assert(views(summaries@) =~= old_summaries.push(shown_summary));
            },
        }
        line_num += 1;
    }
    assert(all.take(all.len() as int) =~= all);
    Ok(ExactJsonlShowIndex { summaries, targets: found, dependents })
}

/// The last issue with this id.
pub open spec fn find_issue(issues: Seq<IssueModel>, id: Seq<char>) -> Option<IssueModel>
    decreases issues.len(),
{
    if issues.len() == 0 {
        None
    } else if issues.last().id == id {
        Some(issues.last())
    } else {
        find_issue(issues.drop_last(), id)
    }
}

/// The issues without those that a later one with the same id replaces.
pub open spec fn latest(issues: Seq<IssueModel>) -> Seq<IssueModel>
    decreases issues.len(),
{
    if issues.len() == 0 {
        Seq::empty()
    } else if has_issue(issues.skip(1), issues[0].id) {
        latest(issues.skip(1))
    } else {
        seq![issues[0]] + latest(issues.skip(1))
    }
}

fn replaced_later(issues: &Vec<Issue>, at: usize) -> (r: bool)
    requires
        at < issues@.len(),
    ensures
        r == has_issue(views(issues@).skip(at + 1), issues@[at as int]@.id),
{
    let ghost rest = views(issues@).skip(at + 1);
    let len: usize = issues.len();
    let mut i: usize = at + 1;
    while i < len
        invariant
            at < i <= len,
            len == issues@.len(),
            rest == views(issues@).skip(at + 1),
            forall|k: int| 0 <= k < i - at - 1 ==> (#[trigger] rest[k]).id != issues@[at as int]@.id,
        decreases issues@.len() - i,
    {
        assert(rest[i - at - 1] == issues@[i as int]@);
        if same_text(issues[i].id.as_str(), issues[at].id.as_str()) {
            return true;
        }
        i += 1;
    }
    false
}

/// The issues, each id once: of several issues with one id the last counts.
pub fn latest_issues(issues: &Vec<Issue>) -> (r: Vec<Issue>)
    ensures
        views(r@) == latest(views(issues@)),
{
    let ghost all = views(issues@);
    let mut out: Vec<Issue> = Vec::new();
    let mut i: usize = 0;
    assert(all.skip(0) =~= all);
    assert(views(out@) + latest(all) =~= latest(all));
    while i < issues.len()
        invariant
            i <= issues@.len(),
            all == views(issues@),
            views(out@) + latest(all.skip(i as int)) == latest(all),
        decreases issues@.len() - i,
    {
        let ghost rest = all.skip(i as int);
        let ghost before = views(out@);
        assert(rest.skip(1) =~= all.skip(i + 1));
        assert(rest[0] == issues@[i as int]@);
        if !replaced_later(issues, i) {
            let kept = issues[i].copy();
            let ghost shown = kept@;
            out.push(kept);
            assert(views(out@) =~= before.push(shown));
            assert(before + (seq![shown] + latest(rest.skip(1))) =~= views(out@) + latest(
                rest.skip(1),
            ));
        }
        i += 1;
    }
    assert(all.skip(all.len() as int) =~= Seq::<IssueModel>::empty());
    assert(views(out@) + Seq::<IssueModel>::empty() =~= views(out@));
    out
}

/// No two issues have one id.
pub open spec fn ids_differ(issues: Seq<IssueModel>) -> bool {
    forall|i: int, j: int|
        0 <= i < j < issues.len() ==> (#[trigger] issues[i]).id != (#[trigger] issues[j]).id
}

proof fn lemma_latest_keeps(issues: Seq<IssueModel>)
    requires
        ids_differ(issues),
    ensures
        latest(issues) == issues,
    decreases issues.len(),
{
    if issues.len() > 0 {
        let rest = issues.skip(1);
        assert(ids_differ(rest)) by {
            assert forall|i: int, j: int| 0 <= i < j < rest.len() implies (#[trigger] rest[i]).id != (
            #[trigger] rest[j]).id by {
                assert(rest[i] == issues[i + 1] && rest[j] == issues[j + 1]);
            }
        }
        lemma_latest_keeps(rest);
        if has_issue(rest, issues[0].id) {
            let k = choose|k: int| 0 <= k < rest.len() && (#[trigger] rest[k]).id == issues[0].id;
            assert(rest[k] == issues[k + 1]);
        }
        assert(seq![issues[0]] + rest =~= issues);
    }
}

/// A scan that goes through has met every id once, so no issue replaces another.
pub proof fn law_scanned_ids_differ(lines: Seq<LineModel>, path: Seq<char>)
    requires
        scan_check(lines, path, 0) is Ok,
    ensures
        ids_differ(issues_on(lines)),
        latest(issues_on(lines)) == issues_on(lines),
{
    lemma_scanned_prefix(lines, path, lines.len());
    assert(lines.take(lines.len() as int) =~= lines);
    lemma_latest_keeps(issues_on(lines));
}

proof fn lemma_scanned_prefix(lines: Seq<LineModel>, path: Seq<char>, n: nat)
    requires
        n <= lines.len(),
        scan_check(lines, path, 0) is Ok,
    ensures
        scan_check(lines, path, n) is Ok,
        ids_differ(issues_on(lines.take(n as int))),
    decreases n,
{
    if n > 0 {
        let before = issues_on(lines.take(n - 1));
        lemma_scanned_prefix(lines, path, (n - 1) as nat);
        assert(lines.take(n as int).drop_last() =~= lines.take(n - 1));
        assert(lines.take(n as int).last() == lines[n - 1]);
        if let LineModel::Issue { issue } = lines[n - 1] {
            let now = before.push(issue);
            assert(!has_issue(before, issue.id));
            assert forall|i: int, j: int| 0 <= i < j < now.len() implies (#[trigger] now[i]).id != (
            #[trigger] now[j]).id by {
                if j == before.len() {
                    assert(now[i] == before[i]);
                } else {
                    assert(now[i] == before[i] && now[j] == before[j]);
                }
            }
        }
    }
}

/// The lines that are addressed to `id`.
pub open spec fn addressed_to(v: Seq<(Seq<char>, EntryModel)>, id: Seq<char>) -> Seq<EntryModel>
    decreases v.len(),
{
    if v.len() == 0 {
        Seq::empty()
    } else if v.last().0 == id {
        addressed_to(v.drop_last(), id).push(v.last().1)
    } else {
        addressed_to(v.drop_last(), id)
    }
}

/// The details of an issue, from what a scan kept.
pub open spec fn indexed_details(id: Seq<char>, index: IndexModel) -> Result<
    DetailsModel,
    ErrorModel,
> {
    match find_issue(index.targets, id) {
        None => Err(ErrorModel::IssueNotFound { id }),
        Some(issue) => Ok(
            details_with(
                issue,
                dependency_entries(issue.dependencies, index.summaries),
                addressed_to(index.dependents, id),
            ),
        ),
    }
}

pub fn find_issue_in<'a>(issues: &'a Vec<Issue>, id: &str) -> (r: Option<&'a Issue>)
    ensures
        match find_issue(views(issues@), id@) {
            Some(m) => r is Some && r->0@ == m,
            None => r is None,
        },
{
    let ghost all = views(issues@);
    let mut n: usize = issues.len();
    assert(all.take(n as int) =~= all);
    while n > 0
        invariant
            n <= issues@.len(),
            all == views(issues@),
            find_issue(all, id@) == find_issue(all.take(n as int), id@),
        decreases n,
    {
        assert(all.take(n as int).drop_last() =~= all.take(n - 1));
        assert(all.take(n as int).last() == issues@[n - 1]@);
        if same_text(issues[n - 1].id.as_str(), id) {
            return Some(&issues[n - 1]);
        }
        n -= 1;
    }
    None
}

fn copy_entry(e: &DependencyDisplayEntry) -> (r: DependencyDisplayEntry)
    ensures
        r@ == e@,
{
    DependencyDisplayEntry {
        item: IssueWithDependencyMetadata {
            id: e.item.id.clone(),
            title: e.item.title.clone(),
            status: e.item.status.copy(),
            priority: e.item.priority,
            dep_type: e.item.dep_type.clone(),
        },
        priority: e.priority,
        created_at: e.created_at,
    }
}

/// The details of an issue, from what a scan kept.
pub fn build_issue_details_from_exact_jsonl_index(issue_id: &str, index: &ExactJsonlShowIndex) -> (r:
    Result<IssueDetails, BeadsError>)
    ensures
        match r {
            Ok(details) => indexed_details(issue_id@, index@) == Ok::<DetailsModel, ErrorModel>(
                details@,
            ),
            Err(e) => indexed_details(issue_id@, index@) == Err::<DetailsModel, ErrorModel>(
                e.model(),
            ),
        },
{
    let issue = match find_issue_in(&index.targets, issue_id) {
        Some(issue) => issue,
        None => return Err(BeadsError::IssueNotFound { id: issue_id.to_owned() }),
    };
    let ghost wanted = dependency_entries(issue@.dependencies, index@.summaries);
    let mut dependencies: Vec<DependencyDisplayEntry> = Vec::new();
    let mut i: usize = 0;
    while i < issue.dependencies.len()
        invariant
            i <= issue.dependencies@.len(),
            wanted == dependency_entries(issue@.dependencies, index@.summaries),
            views(dependencies@) == wanted.take(i as int),
        decreases issue.dependencies@.len() - i,
    {
        let ghost before = views(dependencies@);
        let entry = dependency_metadata_from_jsonl_summary(
            &issue.dependencies[i],
            &index.summaries,
        );
        let ghost model = entry@;
        assert(issue@.dependencies[i as int] == issue.dependencies@[i as int]@);
        dependencies.push(entry);
        i += 1;
        assert(views(dependencies@) =~= before.push(model));
        assert(views(dependencies@) =~= wanted.take(i as int));
    }
    assert(views(dependencies@) =~= wanted);
    let ghost all = addressed(index.dependents@);
    let mut dependents: Vec<DependencyDisplayEntry> = Vec::new();
    let mut k: usize = 0;
    assert(views(dependents@) =~= addressed_to(all.take(0), issue_id@));
    while k < index.dependents.len()
        invariant
            k <= index.dependents@.len(),
            all == addressed(index.dependents@),
            views(dependents@) == addressed_to(all.take(k as int), issue_id@),
        decreases index.dependents@.len() - k,
    {
        assert(all.take(k + 1).drop_last() =~= all.take(k as int));
        assert(all.take(k + 1).last() == (
            index.dependents@[k as int].0@,
            index.dependents@[k as int].1@,
        ));
        if same_text(index.dependents[k].0.as_str(), issue_id) {
            let ghost before = views(dependents@);
            let entry = copy_entry(&index.dependents[k].1);
            let ghost model = entry@;
            dependents.push(entry);
            assert(views(dependents@) =~= before.push(model));
        }
        k += 1;
    }
    assert(all.take(all.len() as int) =~= all);
    Ok(assemble_details(issue, dependencies, dependents))
}

proof fn lemma_addressed_concat(
    a: Seq<(Seq<char>, EntryModel)>,
    b: Seq<(Seq<char>, EntryModel)>,
    id: Seq<char>,
)
    ensures
        addressed_to(a + b, id) == addressed_to(a, id) + addressed_to(b, id),
    decreases b.len(),
{
    if b.len() == 0 {
        assert(a + b =~= a);
        assert(addressed_to(a, id) + addressed_to(b, id) =~= addressed_to(a, id));
    } else {
        assert((a + b).drop_last() =~= a + b.drop_last());
        lemma_addressed_concat(a, b.drop_last(), id);
        assert(addressed_to(a + b, id) =~= addressed_to(a, id) + addressed_to(b, id));
    }
}

proof fn lemma_entries_of_target(
    issue: IssueModel,
    deps: Seq<DependencyModel>,
    targets: Seq<Seq<char>>,
    id: Seq<char>,
)
    requires
        has_text(targets, id),
    ensures
        addressed_to(entries_towards_any(issue, deps, targets), id) == entries_towards(
            issue,
            deps,
            id,
        ),
    decreases deps.len(),
{
    if deps.len() > 0 {
        lemma_entries_of_target(issue, deps.drop_last(), targets, id);
        let head = entries_towards_any(issue, deps.drop_last(), targets);
        if has_text(targets, deps.last().depends_on_id) {
            let last = (deps.last().depends_on_id, dependent_entry(issue, deps.last().dep_type));
            assert(head.push(last).drop_last() =~= head);
        }
    }
}

proof fn lemma_index_dependents(
    issues: Seq<IssueModel>,
    targets: Seq<Seq<char>>,
    id: Seq<char>,
)
    requires
        has_text(targets, id),
    ensures
        addressed_to(index_of(issues, targets).dependents, id) == dependent_entries(issues, id),
    decreases issues.len(),
{
    if issues.len() > 0 {
        lemma_index_dependents(issues.drop_last(), targets, id);
        lemma_entries_of_target(issues.last(), issues.last().dependencies, targets, id);
        lemma_addressed_concat(
            index_of(issues.drop_last(), targets).dependents,
            entries_towards_any(issues.last(), issues.last().dependencies, targets),
            id,
        );
    }
}

/// The scan keeps the issues that were asked for.
pub proof fn lemma_index_targets(issues: Seq<IssueModel>, targets: Seq<Seq<char>>, id: Seq<char>)
    requires
        has_text(targets, id),
    ensures
        find_issue(index_of(issues, targets).targets, id) == find_issue(issues, id),
    decreases issues.len(),
{
    if issues.len() > 0 {
        let init = issues.drop_last();
        let kept = index_of(init, targets).targets;
        lemma_index_targets(init, targets, id);
        assert(kept.push(issues.last()).drop_last() =~= kept);
    }
}

proof fn lemma_find_issue_id(issues: Seq<IssueModel>, id: Seq<char>)
    ensures
        find_issue(issues, id) is Some ==> find_issue(issues, id)->0.id == id,
    decreases issues.len(),
{
    if issues.len() > 0 && issues.last().id != id {
        lemma_find_issue_id(issues.drop_last(), id);
    }
}

/// A scan that keeps only what is needed gives the same details as all issues together.
pub proof fn law_scan_matches_materialized(
    issues: Seq<IssueModel>,
    targets: Seq<Seq<char>>,
    id: Seq<char>,
)
    requires
        has_text(targets, id),
    ensures
        indexed_details(id, index_of(issues, targets)) == match find_issue(issues, id) {
            Some(issue) => Ok::<DetailsModel, ErrorModel>(details_of(issue, issues)),
            None => Err(ErrorModel::IssueNotFound { id }),
        },
{
    lemma_index_targets(issues, targets, id);
    lemma_index_summaries(issues, targets);
    lemma_index_dependents(issues, targets, id);
    lemma_find_issue_id(issues, id);
}

/// How many issues a scan makes room for at first.
pub const MAX_EXACT_JSONL_SHOW_INITIAL_CAPACITY: usize = 65536;

/// Room for as many issues as a file of this size may hold, up to a limit.
pub fn estimated_jsonl_show_capacity(file_size: u64) -> (r: usize)
    ensures
        r == if file_size / 500 < 65536 {
            (file_size / 500) as usize
        } else {
            65536
        },
        r <= 65536,
        r < 65536 ==> r * 500 <= file_size < (r + 1) * 500,
        file_size >= 32768000 ==> r == 65536,
{
    let estimate: u64 = file_size / 500;
    if estimate < 65536 {
        estimate as usize
    } else {
        MAX_EXACT_JSONL_SHOW_INITIAL_CAPACITY
    }
}

} // verus!
