//! The `q` command: an issue from one line.

use crate::error::{checked, validation, BeadsError, ErrorModel};
use crate::model::{
    copy_opt, copy_texts, Dependency, DependencyModel, DependencyType, Issue, IssueModel, IssueType,
    Priority, Status, StatusModel, Timestamp,
};
use crate::numbers::{decimal, decimal_text};
use crate::sanitize::{one_line, sanitize_terminal_inline};
use crate::show::OutputMode;
use crate::shown::{one_piece, one_span, shown, shown_in, Shown};
use crate::sorting::views;
use crate::spans::{push_styled, push_unstyled, styled, unstyled, Role, Span, SpanModel};
use crate::text::{
    any_text, has_text, join, joined, opt_text, split, split_on, text2, text3, texts, trim, trimmed,
};
use vstd::prelude::*;
use vstd::string::*;

verus! {

broadcast use vstd::string::group_string_axioms;

/// The parts without the white space around them, but for those where nothing is left.
pub open spec fn trimmed_parts(parts: Seq<Seq<char>>) -> Seq<Seq<char>>
    decreases parts.len(),
{
    if parts.len() == 0 {
        Seq::empty()
    } else if trim(parts.last()).len() > 0 {
        trimmed_parts(parts.drop_last()).push(trim(parts.last()))
    } else {
        trimmed_parts(parts.drop_last())
    }
}

/// The labels in the values, which are separated by commas.
pub open spec fn labels_in(values: Seq<Seq<char>>) -> Seq<Seq<char>>
    decreases values.len(),
{
    if values.len() == 0 {
        Seq::empty()
    } else {
        labels_in(values.drop_last()) + trimmed_parts(split(values.last(), ','))
    }
}

fn push_trimmed_parts(out: &mut Vec<String>, value: &str)
    ensures
        texts(final(out)@) == texts(old(out)@) + trimmed_parts(split(value@, ',')),
{
    let ghost before = texts(out@);
    let parts = split_on(value, ',');
    let ghost all = texts(parts@);
    let mut i: usize = 0;
    assert(before + trimmed_parts(all.take(0)) =~= before);
    while i < parts.len()
        invariant
            i <= parts@.len(),
            all == texts(parts@),
            texts(out@) == before + trimmed_parts(all.take(i as int)),
        decreases parts@.len() - i,
    {
        assert(all.take(i + 1).drop_last() =~= all.take(i as int));
        assert(all.take(i + 1).last() == parts@[i as int]@);
        let label = trimmed(parts[i].as_str());
        if !label.as_str().is_empty() {
            let ghost now = texts(out@);
            let ghost shown = label@;
            out.push(label);
            assert(texts(out@) =~= now.push(shown));
            assert(texts(out@) =~= before + trimmed_parts(all.take(i + 1)));
        }
        i += 1;
    }
    assert(all.take(all.len() as int) =~= all);
}

pub fn split_labels(values: &Vec<String>) -> (r: Vec<String>)
    ensures
        texts(r@) == labels_in(texts(values@)),
{
    let ghost all = texts(values@);
    let mut out: Vec<String> = Vec::new();
    let mut i: usize = 0;
    assert(texts(out@) =~= labels_in(all.take(0)));
    while i < values.len()
        invariant
            i <= values@.len(),
            all == texts(values@),
            texts(out@) == labels_in(all.take(i as int)),
        decreases values@.len() - i,
    {
        assert(all.take(i + 1).drop_last() =~= all.take(i as int));
        assert(all.take(i + 1).last() == values@[i as int]@);
        push_trimmed_parts(&mut out, values[i].as_str());
        i += 1;
    }
    assert(all.take(all.len() as int) =~= all);
    out
}

/// The labels with this one, unless they have it.
pub open spec fn with_label(labels: Seq<Seq<char>>, label: Seq<char>) -> Seq<Seq<char>> {
    if has_text(labels, label) {
        labels
    } else {
        labels.push(label)
    }
}

pub fn push_unique_label(labels: &mut Vec<String>, label: &str)
    ensures
        texts(final(labels)@) == with_label(texts(old(labels)@), label@),
{
    if !any_text(labels, label) {
        let ghost before = texts(labels@);
        labels.push(label.to_owned());
        assert(texts(labels@) =~= before.push(label@));
    }
}

/// The warning about a label that cannot be used.
pub open spec fn label_warning(label: Seq<char>, reason: Seq<char>) -> Seq<char> {
    "Warning: invalid label '"@ + one_line(label) + "': "@ + one_line(reason)
}

pub fn invalid_label_warning(label: &str, reason: &str) -> (r: String)
    ensures
        r@ == label_warning(label@, reason@),
{
    let shown = sanitize_terminal_inline(label);
    let why = sanitize_terminal_inline(reason);
    let mut out = text3("Warning: invalid label '", shown.as_str(), "': ");
    out.append(why.as_str());
    out
}

/// The labels that can be used, each once. `refusals` says of each label why it cannot,
/// where it cannot.
pub open spec fn usable_labels(labels: Seq<Seq<char>>, refusals: Seq<Option<String>>) -> Seq<
    Seq<char>,
>
    decreases labels.len(),
{
    if labels.len() == 0 {
        Seq::empty()
    } else {
        let before = usable_labels(labels.drop_last(), refusals);
        if refusals[labels.len() - 1] is None {
            with_label(before, labels.last())
        } else {
            before
        }
    }
}

/// The warnings about the labels that cannot be used, in order.
pub open spec fn label_warnings(labels: Seq<Seq<char>>, refusals: Seq<Option<String>>) -> Seq<
    Seq<char>,
>
    decreases labels.len(),
{
    if labels.len() == 0 {
        Seq::empty()
    } else {
        let before = label_warnings(labels.drop_last(), refusals);
        match refusals[labels.len() - 1] {
            Some(reason) => before.push(label_warning(labels.last(), reason@)),
            None => before,
        }
    }
}

/// Parts the labels that can be used from those that cannot.
pub fn accept_labels(labels: &Vec<String>, refusals: &Vec<Option<String>>) -> (r: (
    Vec<String>,
    Vec<String>,
))
    requires
        refusals@.len() == labels@.len(),
    ensures
        texts(r.0@) == usable_labels(texts(labels@), refusals@),
        texts(r.1@) == label_warnings(texts(labels@), refusals@),
{
    let ghost all = texts(labels@);
    let mut usable: Vec<String> = Vec::new();
    let mut warnings: Vec<String> = Vec::new();
    let mut i: usize = 0;
    assert(texts(usable@) =~= usable_labels(all.take(0), refusals@));
    assert(texts(warnings@) =~= label_warnings(all.take(0), refusals@));
    while i < labels.len()
        invariant
            i <= labels@.len(),
            refusals@.len() == labels@.len(),
            all == texts(labels@),
            texts(usable@) == usable_labels(all.take(i as int), refusals@),
            texts(warnings@) == label_warnings(all.take(i as int), refusals@),
        decreases labels@.len() - i,
    {
        assert(all.take(i + 1).drop_last() =~= all.take(i as int));
        assert(all.take(i + 1).last() == labels@[i as int]@);
        match &refusals[i] {
            Some(reason) => {
                let ghost before = texts(warnings@);
                let warning = invalid_label_warning(labels[i].as_str(), reason.as_str());
                let ghost shown = warning@;
                warnings.push(warning);
                assert(texts(warnings@) =~= before.push(shown));
            },
            None => {
                push_unique_label(&mut usable, labels[i].as_str());
            },
        }
        i += 1;
    }
    assert(all.take(all.len() as int) =~= all);
    (usable, warnings)
}

/// No label stands twice.
pub proof fn law_labels_are_unique(labels: Seq<Seq<char>>, refusals: Seq<Option<String>>)
    ensures
        usable_labels(labels, refusals).no_duplicates(),
    decreases labels.len(),
{
    if labels.len() > 0 {
        law_labels_are_unique(labels.drop_last(), refusals);
        let before = usable_labels(labels.drop_last(), refusals);
        let label = labels.last();
        if !has_text(before, label) {
            let now = before.push(label);
            assert forall|a: int, b: int|
                0 <= a < now.len() && 0 <= b < now.len() && a != b implies now[a] != now[b] by {
                if a == before.len() {
                    assert(before[b] != label);
                } else if b == before.len() {
                    assert(before[a] != label);
                }
            }
        }
    }
}

/// The title that the words make.
pub open spec fn title_of(words: Seq<Seq<char>>) -> Result<Seq<char>, ErrorModel> {
    let title = trim(join(words, " "@));
    if title.len() == 0 {
        Err(ErrorModel::Validation { field: "title"@, reason: "cannot be empty"@ })
    } else {
        Ok(title)
    }
}

pub fn quick_title(words: &Vec<String>) -> (r: Result<String, BeadsError>)
    ensures
        crate::error::text_or_error(r) == title_of(texts(words@)),
{
    let whole = joined(words, " ");
    let title = trimmed(whole.as_str());
    if title.as_str().is_empty() {
        return Err(validation("title", "cannot be empty"));
    }
    Ok(title)
}

/// The id of a child.
pub open spec fn child_of(parent: Seq<char>, number: nat) -> Seq<char> {
    parent + "."@ + decimal(number)
}

pub fn child_id(parent: &str, number: u32) -> (r: String)
    ensures
        r@ == child_of(parent@, number as nat),
{
    let shown = decimal_text(number as u64);
    text3(parent, ".", shown.as_str())
}

/// What is done to find a number for a child.
#[derive(Debug, Clone, Copy, PartialEq, Eq, Structural)]
pub enum ChildStep {
    /// See whether this number is taken.
    Try { number: u32 },
    /// Use this number.
    Use { number: u32 },
    /// Give up.
    Exhausted,
}

/// How many numbers behind the first are tried.
pub const CHILD_ATTEMPTS: u32 = 100;

/// The last number that may be tried.
pub open spec fn last_child_number(first: u32) -> int {
    if first + CHILD_ATTEMPTS > u32::MAX {
        u32::MAX as int
    } else {
        first + CHILD_ATTEMPTS
    }
}

/// The step after a number was tried: the next number, up to a limit.
pub open spec fn child_step_after(first: u32, number: u32, taken: bool) -> ChildStep {
    if !taken {
        ChildStep::Use { number }
    } else if number >= last_child_number(first) {
        ChildStep::Exhausted
    } else {
        ChildStep::Try { number: (number + 1) as u32 }
    }
}

pub fn next_child_step(first: u32, number: u32, taken: bool) -> (r: ChildStep)
    ensures
        r == child_step_after(first, number, taken),
{
    if !taken {
        ChildStep::Use { number }
    } else if number >= first.saturating_add(CHILD_ATTEMPTS) {
        ChildStep::Exhausted
    } else {
        ChildStep::Try { number: number + 1 }
    }
}

/// Where the search ends, from a number on.
pub open spec fn child_search(first: u32, number: u32, taken: spec_fn(u32) -> bool) -> ChildStep
    decreases last_child_number(first) - number,
{
    match child_step_after(first, number, taken(number)) {
        ChildStep::Try { number: next } => child_search(first, next, taken),
        end => end,
    }
}

/// The search ends with the lowest number from the first on that is free, or gives up once
/// all that it may try are taken.
pub proof fn law_child_gets_lowest_free_number(
    first: u32,
    number: u32,
    taken: spec_fn(u32) -> bool,
)
    requires
        first <= number <= last_child_number(first),
    ensures
        match child_search(first, number, taken) {
            ChildStep::Use { number: used } => number <= used <= last_child_number(first) && !taken(
                used,
            ) && forall|k: u32| number <= k < used ==> #[trigger] taken(k),
            ChildStep::Exhausted => forall|k: u32|
                number <= k <= last_child_number(first) ==> #[trigger] taken(k),
            ChildStep::Try { .. } => false,
        },
    decreases last_child_number(first) - number,
{
    if taken(number) && number < last_child_number(first) {
        law_child_gets_lowest_free_number(first, (number + 1) as u32, taken);
    }
}

/// The error where every number is taken.
pub fn no_child_id() -> (r: BeadsError)
    ensures
        r.model() == (ErrorModel::Validation {
            field: "parent"@,
            reason: "could not find available child ID"@,
        }),
{
    validation("parent", "could not find available child ID")
}

/// What an issue is made from.
#[derive(Debug)]
pub struct QuickRequest {
    pub title: Vec<String>,
    pub description: Option<String>,
    pub estimate: Option<i32>,
    pub labels: Vec<String>,
    pub id: String,
    pub parent_id: Option<String>,
    pub priority: Priority,
    pub issue_type: IssueType,
    pub actor: String,
    pub now: Timestamp,
    pub parent_makes_cycle: bool,
}

/// The dependency of a child on its parent.
pub open spec fn parent_link(r: QuickRequest) -> Seq<DependencyModel> {
    match r.parent_id {
        Some(parent) => seq![
            DependencyModel {
                issue_id: r.id@,
                depends_on_id: parent@,
                dep_type: "parent-child"@,
                created_at: r.now,
                created_by: Some(r.actor@),
                metadata: None,
                thread_id: None,
            },
        ],
        None => Seq::empty(),
    }
}

/// The issue that a request makes, before its content is hashed.
pub open spec fn drafted(r: QuickRequest) -> Result<IssueModel, ErrorModel> {
    match title_of(texts(r.title@)) {
        Err(e) => Err(e),
        Ok(title) => if r.parent_id is Some && r.parent_makes_cycle {
            Err(ErrorModel::DependencyCycle { path: r.id@ + " -> "@ + r.parent_id->0@ })
        } else {
            Ok(
                IssueModel {
                    id: r.id@,
                    content_hash: None,
                    title,
                    description: opt_text(r.description),
                    design: None,
                    acceptance_criteria: None,
                    notes: None,
                    status: StatusModel::Open,
                    priority: r.priority,
                    issue_type: r.issue_type@,
                    assignee: None,
                    owner: None,
                    estimated_minutes: r.estimate,
                    created_at: r.now,
                    created_by: Some(r.actor@),
                    updated_at: r.now,
                    closed_at: None,
                    close_reason: None,
                    closed_by_session: None,
                    bypassed_policy: None,
                    bypass_reason: None,
                    policy_gates_fired: None,
                    due_at: None,
                    defer_until: None,
                    external_ref: None,
                    source_system: None,
                    source_repo: None,
                    source_repo_path: None,
                    agent_context: None,
                    deleted_at: None,
                    deleted_by: None,
                    delete_reason: None,
                    original_type: None,
                    compaction_level: None,
                    compacted_at: None,
                    compacted_at_commit: None,
                    original_size: None,
                    sender: None,
                    ephemeral: false,
                    pinned: false,
                    is_template: false,
                    labels: texts(r.labels@),
                    dependencies: parent_link(r),
                    comments: Seq::empty(),
                },
            )
        },
    }
}

/// Every field of the issue is that of the request, it is open, and it was made now by the
/// actor; a child depends on its parent and on nothing else.
pub open spec fn made_from(issue: IssueModel, r: QuickRequest) -> bool {
    &&& issue.id == r.id@
    &&& title_of(texts(r.title@)) == Ok::<Seq<char>, ErrorModel>(issue.title)
    &&& issue.description == opt_text(r.description)
    &&& issue.estimated_minutes == r.estimate
    &&& issue.labels == texts(r.labels@)
    &&& issue.priority == r.priority
    &&& issue.issue_type == r.issue_type@
    &&& issue.status == StatusModel::Open
    &&& issue.created_at == r.now && issue.updated_at == r.now
    &&& issue.created_by == Some(r.actor@)
    &&& issue.closed_at is None && issue.close_reason is None
    &&& issue.assignee is None && issue.owner is None
    &&& issue.comments.len() == 0
    &&& issue.dependencies.len() == if r.parent_id is Some {
        1int
    } else {
        0int
    }
    &&& r.parent_id is Some ==> issue.dependencies[0].issue_id == r.id@
        && issue.dependencies[0].depends_on_id == r.parent_id->0@
        && issue.dependencies[0].dep_type == "parent-child"@
        && issue.dependencies[0].created_at == r.now && issue.dependencies[0].created_by == Some(
        r.actor@,
    )
}

/// The issue, or what the error says.
pub open spec fn issue_or_error(r: Result<Issue, BeadsError>) -> Result<IssueModel, ErrorModel> {
    match r {
        Ok(issue) => Ok(issue@),
        Err(e) => Err(e.model()),
    }
}

/// Makes the issue of a request. It is whole but for the hash of its content, which is taken
/// from it.
pub fn draft_issue(request: &QuickRequest) -> (r: Result<Issue, BeadsError>)
    ensures
        issue_or_error(r) == drafted(*request),
        r matches Ok(issue) ==> made_from(issue@, *request),
        r is Ok <==> title_of(texts(request.title@)) is Ok && !(request.parent_id is Some
            && request.parent_makes_cycle),
{
    let title = match quick_title(&request.title) {
        Ok(title) => title,
        Err(e) => return Err(e),
    };
    let mut dependencies: Vec<Dependency> = Vec::new();
    if let Some(parent) = &request.parent_id {
        if request.parent_makes_cycle {
            return Err(
                BeadsError::DependencyCycle {
                    path: text3(request.id.as_str(), " -> ", parent.as_str()),
                },
            );
        }
        dependencies.push(
            Dependency {
                issue_id: request.id.clone(),
                depends_on_id: parent.clone(),
                dep_type: DependencyType::ParentChild,
                created_at: request.now,
                created_by: Some(request.actor.clone()),
                metadata: None,
                thread_id: None,
            },
        );
    }
    assert(views(dependencies@) =~= parent_link(*request));
    let comments: Vec<crate::model::Comment> = Vec::new();
    assert(views(comments@) =~= Seq::<crate::model::CommentModel>::empty());
    Ok(
        Issue {
            id: request.id.clone(),
            content_hash: None,
            title,
            description: copy_opt(&request.description),
            design: None,
            acceptance_criteria: None,
            notes: None,
            status: Status::Open,
            priority: request.priority,
            issue_type: request.issue_type.copy(),
            assignee: None,
            owner: None,
            estimated_minutes: request.estimate,
            created_at: request.now,
            created_by: Some(request.actor.clone()),
            updated_at: request.now,
            closed_at: None,
            close_reason: None,
            closed_by_session: None,
            bypassed_policy: None,
            bypass_reason: None,
            policy_gates_fired: None,
            due_at: None,
            defer_until: None,
            external_ref: None,
            source_system: None,
            source_repo: None,
            source_repo_path: None,
            agent_context: None,
            deleted_at: None,
            deleted_by: None,
            delete_reason: None,
            original_type: None,
            compaction_level: None,
            compacted_at: None,
            compacted_at_commit: None,
            original_size: None,
            sender: None,
            ephemeral: false,
            pinned: false,
            is_template: false,
            labels: copy_texts(&request.labels),
            dependencies,
            comments,
        },
    )
}

/// The issue with the hash of its content.
pub open spec fn hashed(issue: IssueModel, content_hash: Seq<char>) -> IssueModel {
    IssueModel { content_hash: Some(content_hash), ..issue }
}

pub fn with_content_hash(issue: Issue, content_hash: String) -> (r: Issue)
    ensures
        r@ == hashed(issue@, content_hash@),
{
    let mut issue = issue;
    issue.content_hash = Some(content_hash);
    issue
}

/// The issue to store: the one that the request makes, with the hash of its content, where
/// nothing speaks against it.
pub open spec fn quick_issue(
    r: QuickRequest,
    content_hash: Seq<char>,
    refusal: Option<BeadsError>,
) -> Result<IssueModel, ErrorModel> {
    match drafted(r) {
        Err(e) => Err(e),
        Ok(issue) => match refusal {
            Some(e) => Err(e.model()),
            None => Ok(hashed(issue, content_hash)),
        },
    }
}

/// The issue to store for a request. `content_hash` is the hash of the content of its draft,
/// and `refusal` is what the rules for issues say against the draft with that hash.
pub fn execute(request: &QuickRequest, content_hash: String, refusal: Option<BeadsError>) -> (r:
    Result<Issue, BeadsError>)
    ensures
        issue_or_error(r) == quick_issue(*request, content_hash@, refusal),
        r matches Ok(issue) ==> made_from(issue@, *request) && issue@.content_hash == Some(
            content_hash@,
        ),
        r is Ok ==> refusal is None,
        refusal is None && title_of(texts(request.title@)) is Ok && !(request.parent_id is Some
            && request.parent_makes_cycle) ==> r is Ok,
{
    let draft = match draft_issue(request) {
        Ok(draft) => draft,
        Err(e) => return Err(e),
    };
    match refusal {
        Some(e) => Err(e),
        None => Ok(with_content_hash(draft, content_hash)),
    }
}

/// A child needs a parent that is there.
pub fn require_parent(parent_id: &str, is_there: bool) -> (r: Result<(), BeadsError>)
    ensures
        checked(r) == if is_there {
            Ok(())
        } else {
            Err(ErrorModel::IssueNotFound { id: parent_id@ })
        },
        r is Ok <==> is_there,
{
    if is_there {
        Ok(())
    } else {
        Err(BeadsError::IssueNotFound { id: parent_id.to_owned() })
    }
}

/// What is done once an issue is stored. An issue that lives in a file counts as touched only
/// when the file is written.
#[derive(Debug, Clone, Copy, PartialEq, Eq, Structural)]
pub enum AfterCreate {
    TouchThenFlush,
    FlushThenTouch,
}

pub fn after_create(no_db: bool) -> (r: AfterCreate)
    ensures
        r == if no_db {
            AfterCreate::FlushThenTouch
        } else {
            AfterCreate::TouchThenFlush
        },
        r == AfterCreate::FlushThenTouch <==> no_db,
{
    if no_db {
        AfterCreate::FlushThenTouch
    } else {
        AfterCreate::TouchThenFlush
    }
}

/// What the panel shows.
pub open spec fn created_panel(id: Seq<char>, title: Seq<char>) -> Seq<SpanModel> {
    seq![
        styled("✓ "@, Role::Success),
        styled("Created "@, Role::Success),
        styled(id, Role::Emphasis),
        unstyled("\n"@),
        styled("  \""@, Role::Dimmed),
        unstyled(one_line(title)),
        styled("\""@, Role::Dimmed),
        unstyled("\n"@),
    ]
}

pub fn render_quick_created_rich(id: &str, title: &str) -> (r: Vec<Span>)
    ensures
        views(r@) == created_panel(id@, title@),
{
    let shown = sanitize_terminal_inline(title);
    let mut out: Vec<Span> = Vec::new();
    push_styled(&mut out, "✓ ", Role::Success);
    push_styled(&mut out, "Created ", Role::Success);
    push_styled(&mut out, id, Role::Emphasis);
    push_unstyled(&mut out, "\n");
    push_styled(&mut out, "  \"", Role::Dimmed);
    push_unstyled(&mut out, shown.as_str());
    push_styled(&mut out, "\"", Role::Dimmed);
    push_unstyled(&mut out, "\n");
    assert(views(out@) =~= created_panel(id@, title@));
    out
}

/// What the command shows of the issue that it made.
pub fn created_shown(mode: OutputMode, id: &str, title: &str) -> (r: Shown)
    ensures
        r@ == shown_in(
            mode,
            "Quick Create"@,
            created_panel(id@, title@),
            one_piece(id@ + "\n"@),
        ),
{
    let panel = render_quick_created_rich(id, title);
    let line = text2(id, "\n");
    shown(mode, "Quick Create", panel, one_span(line.as_str()))
}

} // verus!
