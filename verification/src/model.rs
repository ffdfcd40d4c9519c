//! Issues, and what they are made of.

use crate::sorting::views;
use crate::text::{ascii_lowercase, ascii_lowercased, opt_text, same_text, texts, trim, trimmed};
use vstd::prelude::*;
use vstd::string::*;

verus! {

broadcast use vstd::string::group_string_axioms;

/// A point in time: seconds and nanoseconds after the epoch.
#[derive(Debug, Clone, Copy, PartialEq, Eq, Structural)]
pub struct Timestamp {
    pub seconds: i64,
    pub nanos: u32,
}

/// `a` is not after `b`.
pub open spec fn not_after(a: Timestamp, b: Timestamp) -> bool {
    a.seconds < b.seconds || (a.seconds == b.seconds && a.nanos <= b.nanos)
}

impl Timestamp {
    pub fn is_not_after(&self, other: &Timestamp) -> (r: bool)
        ensures
            r == not_after(*self, *other),
    {
        self.seconds < other.seconds || (self.seconds == other.seconds && self.nanos <= other.nanos)
    }
}

/// How urgent an issue is: the lower, the more urgent.
#[derive(Debug, Clone, Copy, PartialEq, Eq, Structural)]
pub struct Priority {
    pub level: i32,
}

/// The priority of an issue that must be done at once.
pub const CRITICAL: i32 = 0;

/// The priority of an issue that must be done soon.
pub const HIGH: i32 = 1;

/// The priority of an ordinary issue.
pub const MEDIUM: i32 = 2;

/// Where an issue stands.
#[derive(Debug, PartialEq, Eq)]
pub enum Status {
    Open,
    InProgress,
    Blocked,
    Deferred,
    Closed,
    Tombstone,
    Custom(String),
}

/// What a [`Status`] says.
pub enum StatusModel {
    Open,
    InProgress,
    Blocked,
    Deferred,
    Closed,
    Tombstone,
    Custom(Seq<char>),
}

impl View for Status {
    type V = StatusModel;

    open spec fn view(&self) -> StatusModel {
        match self {
            Status::Open => StatusModel::Open,
            Status::InProgress => StatusModel::InProgress,
            Status::Blocked => StatusModel::Blocked,
            Status::Deferred => StatusModel::Deferred,
            Status::Closed => StatusModel::Closed,
            Status::Tombstone => StatusModel::Tombstone,
            Status::Custom(name) => StatusModel::Custom(name@),
        }
    }
}

/// The name of a status.
pub open spec fn status_name(s: StatusModel) -> Seq<char> {
    match s {
        StatusModel::Open => "open"@,
        StatusModel::InProgress => "in_progress"@,
        StatusModel::Blocked => "blocked"@,
        StatusModel::Deferred => "deferred"@,
        StatusModel::Closed => "closed"@,
        StatusModel::Tombstone => "tombstone"@,
        StatusModel::Custom(name) => name,
    }
}

/// The status of this name, in any case and with white space around it. This grammar of
/// names is assumed of the tracker's data, and so is that any other name is a status of its own.
pub open spec fn status_named(name: Seq<char>) -> StatusModel {
    let key = ascii_lowercase(trim(name));
    if key == "open"@ {
        StatusModel::Open
    } else if key == "in_progress"@ {
        StatusModel::InProgress
    } else if key == "blocked"@ {
        StatusModel::Blocked
    } else if key == "deferred"@ {
        StatusModel::Deferred
    } else if key == "closed"@ {
        StatusModel::Closed
    } else if key == "tombstone"@ {
        StatusModel::Tombstone
    } else {
        StatusModel::Custom(key)
    }
}

/// A status that an issue does not leave.
pub open spec fn terminal(s: StatusModel) -> bool {
    s == StatusModel::Closed || s == StatusModel::Tombstone
}

impl Status {
    pub fn as_str(&self) -> (r: &str)
        ensures
            r@ == status_name(self@),
    {
        match self {
            Status::Open => "open",
            Status::InProgress => "in_progress",
            Status::Blocked => "blocked",
            Status::Deferred => "deferred",
            Status::Closed => "closed",
            Status::Tombstone => "tombstone",
            Status::Custom(name) => name.as_str(),
        }
    }

    pub fn is_terminal(&self) -> (r: bool)
        ensures
            r == terminal(self@),
    {
        match self {
            Status::Closed => true,
            Status::Tombstone => true,
            _ => false,
        }
    }

    pub fn parse(name: &str) -> (r: Status)
        ensures
            r@ == status_named(name@),
    {
        let inner = trimmed(name);
        let key = ascii_lowercased(inner.as_str());
        if same_text(key.as_str(), "open") {
            Status::Open
        } else if same_text(key.as_str(), "in_progress") {
            Status::InProgress
        } else if same_text(key.as_str(), "blocked") {
            Status::Blocked
        } else if same_text(key.as_str(), "deferred") {
            Status::Deferred
        } else if same_text(key.as_str(), "closed") {
            Status::Closed
        } else if same_text(key.as_str(), "tombstone") {
            Status::Tombstone
        } else {
            Status::Custom(key)
        }
    }

    pub fn copy(&self) -> (r: Status)
        ensures
            r@ == self@,
    {
        match self {
            Status::Open => Status::Open,
            Status::InProgress => Status::InProgress,
            Status::Blocked => Status::Blocked,
            Status::Deferred => Status::Deferred,
            Status::Closed => Status::Closed,
            Status::Tombstone => Status::Tombstone,
            Status::Custom(name) => Status::Custom(name.clone()),
        }
    }
}

/// What an issue is about.
#[derive(Debug)]
pub enum IssueType {
    Task,
    Bug,
    Feature,
    Epic,
    Chore,
    Docs,
    Question,
    Custom(String),
}

/// What an [`IssueType`] says.
pub enum IssueTypeModel {
    Task,
    Bug,
    Feature,
    Epic,
    Chore,
    Docs,
    Question,
    Custom(Seq<char>),
}

impl View for IssueType {
    type V = IssueTypeModel;

    open spec fn view(&self) -> IssueTypeModel {
        match self {
            IssueType::Task => IssueTypeModel::Task,
            IssueType::Bug => IssueTypeModel::Bug,
            IssueType::Feature => IssueTypeModel::Feature,
            IssueType::Epic => IssueTypeModel::Epic,
            IssueType::Chore => IssueTypeModel::Chore,
            IssueType::Docs => IssueTypeModel::Docs,
            IssueType::Question => IssueTypeModel::Question,
            IssueType::Custom(name) => IssueTypeModel::Custom(name@),
        }
    }
}

/// The name of an issue type.
pub open spec fn issue_type_name(t: IssueTypeModel) -> Seq<char> {
    match t {
        IssueTypeModel::Task => "task"@,
        IssueTypeModel::Bug => "bug"@,
        IssueTypeModel::Feature => "feature"@,
        IssueTypeModel::Epic => "epic"@,
        IssueTypeModel::Chore => "chore"@,
        IssueTypeModel::Docs => "docs"@,
        IssueTypeModel::Question => "question"@,
        IssueTypeModel::Custom(name) => name,
    }
}

/// The issue type of this name; any other name is a type of its own. This grammar of names
/// is assumed of the tracker's data.
pub open spec fn issue_type_named(name: Seq<char>) -> IssueTypeModel {
    let key = ascii_lowercase(trim(name));
    if key == "task"@ {
        IssueTypeModel::Task
    } else if key == "bug"@ {
        IssueTypeModel::Bug
    } else if key == "feature"@ {
        IssueTypeModel::Feature
    } else if key == "epic"@ {
        IssueTypeModel::Epic
    } else if key == "chore"@ {
        IssueTypeModel::Chore
    } else if key == "docs"@ {
        IssueTypeModel::Docs
    } else if key == "question"@ {
        IssueTypeModel::Question
    } else {
        IssueTypeModel::Custom(key)
    }
}

impl IssueType {
    pub fn as_str(&self) -> (r: &str)
        ensures
            r@ == issue_type_name(self@),
    {
        match self {
            IssueType::Task => "task",
            IssueType::Bug => "bug",
            IssueType::Feature => "feature",
            IssueType::Epic => "epic",
            IssueType::Chore => "chore",
            IssueType::Docs => "docs",
            IssueType::Question => "question",
            IssueType::Custom(name) => name.as_str(),
        }
    }

    pub fn is_standard(&self) -> (r: bool)
        ensures
            r == !(self@ is Custom),
    {
        match self {
            IssueType::Custom(_) => false,
            _ => true,
        }
    }

    pub fn parse(name: &str) -> (r: IssueType)
        ensures
            r@ == issue_type_named(name@),
    {
        let inner = trimmed(name);
        let key = ascii_lowercased(inner.as_str());
        if same_text(key.as_str(), "task") {
            IssueType::Task
        } else if same_text(key.as_str(), "bug") {
            IssueType::Bug
        } else if same_text(key.as_str(), "feature") {
            IssueType::Feature
        } else if same_text(key.as_str(), "epic") {
            IssueType::Epic
        } else if same_text(key.as_str(), "chore") {
            IssueType::Chore
        } else if same_text(key.as_str(), "docs") {
            IssueType::Docs
        } else if same_text(key.as_str(), "question") {
            IssueType::Question
        } else {
            IssueType::Custom(key)
        }
    }

    pub fn copy(&self) -> (r: IssueType)
        ensures
            r@ == self@,
    {
        match self {
            IssueType::Task => IssueType::Task,
            IssueType::Bug => IssueType::Bug,
            IssueType::Feature => IssueType::Feature,
            IssueType::Epic => IssueType::Epic,
            IssueType::Chore => IssueType::Chore,
            IssueType::Docs => IssueType::Docs,
            IssueType::Question => IssueType::Question,
            IssueType::Custom(name) => IssueType::Custom(name.clone()),
        }
    }
}

/// How an issue depends on another.
#[derive(Debug)]
pub enum DependencyType {
    Blocks,
    ParentChild,
    Related,
    Custom(String),
}

/// The name of a way to depend.
pub open spec fn dep_type_name(t: DependencyType) -> Seq<char> {
    match t {
        DependencyType::Blocks => "blocks"@,
        DependencyType::ParentChild => "parent-child"@,
        DependencyType::Related => "related"@,
        DependencyType::Custom(name) => name@,
    }
}

impl DependencyType {
    pub fn as_str(&self) -> (r: &str)
        ensures
            r@ == dep_type_name(*self),
    {
        match self {
            DependencyType::Blocks => "blocks",
            DependencyType::ParentChild => "parent-child",
            DependencyType::Related => "related",
            DependencyType::Custom(name) => name.as_str(),
        }
    }

    pub fn copy(&self) -> (r: DependencyType)
        ensures
            dep_type_name(r) == dep_type_name(*self),
    {
        match self {
            DependencyType::Blocks => DependencyType::Blocks,
            DependencyType::ParentChild => DependencyType::ParentChild,
            DependencyType::Related => DependencyType::Related,
            DependencyType::Custom(name) => DependencyType::Custom(name.clone()),
        }
    }
}

/// One issue depends on another.
#[derive(Debug)]
pub struct Dependency {
    pub issue_id: String,
    pub depends_on_id: String,
    pub dep_type: DependencyType,
    pub created_at: Timestamp,
    pub created_by: Option<String>,
    pub metadata: Option<String>,
    pub thread_id: Option<String>,
}

/// What a [`Dependency`] says.
#[verifier::ext_equal]
pub struct DependencyModel {
    pub issue_id: Seq<char>,
    pub depends_on_id: Seq<char>,
    pub dep_type: Seq<char>,
    pub created_at: Timestamp,
    pub created_by: Option<Seq<char>>,
    pub metadata: Option<Seq<char>>,
    pub thread_id: Option<Seq<char>>,
}

impl View for Dependency {
    type V = DependencyModel;

    open spec fn view(&self) -> DependencyModel {
        DependencyModel {
            issue_id: self.issue_id@,
            depends_on_id: self.depends_on_id@,
            dep_type: dep_type_name(self.dep_type),
            created_at: self.created_at,
            created_by: opt_text(self.created_by),
            metadata: opt_text(self.metadata),
            thread_id: opt_text(self.thread_id),
        }
    }
}

/// A remark on an issue.
#[derive(Debug)]
pub struct Comment {
    pub id: i64,
    pub issue_id: String,
    pub author: String,
    pub body: String,
    pub created_at: Timestamp,
}

/// What a [`Comment`] says.
#[verifier::ext_equal]
pub struct CommentModel {
    pub id: i64,
    pub issue_id: Seq<char>,
    pub author: Seq<char>,
    pub body: Seq<char>,
    pub created_at: Timestamp,
}

impl View for Comment {
    type V = CommentModel;

    open spec fn view(&self) -> CommentModel {
        CommentModel {
            id: self.id,
            issue_id: self.issue_id@,
            author: self.author@,
            body: self.body@,
            created_at: self.created_at,
        }
    }
}

/// An issue.
#[derive(Debug)]
pub struct Issue {
    pub id: String,
    pub content_hash: Option<String>,
    pub title: String,
    pub description: Option<String>,
    pub design: Option<String>,
    pub acceptance_criteria: Option<String>,
    pub notes: Option<String>,
    pub status: Status,
    pub priority: Priority,
    pub issue_type: IssueType,
    pub assignee: Option<String>,
    pub owner: Option<String>,
    pub estimated_minutes: Option<i32>,
    pub created_at: Timestamp,
    pub created_by: Option<String>,
    pub updated_at: Timestamp,
    pub closed_at: Option<Timestamp>,
    pub close_reason: Option<String>,
    pub closed_by_session: Option<String>,
    /// What was bypassed as the issue was closed, as JSON.
    pub bypassed_policy: Option<String>,
    pub bypass_reason: Option<String>,
    /// The gates that fired as the issue was closed, as JSON.
    pub policy_gates_fired: Option<String>,
    pub due_at: Option<Timestamp>,
    pub defer_until: Option<Timestamp>,
    pub external_ref: Option<String>,
    pub source_system: Option<String>,
    pub source_repo: Option<String>,
    pub source_repo_path: Option<String>,
    /// What agents are told that work below the issue, as JSON.
    pub agent_context: Option<String>,
    pub deleted_at: Option<Timestamp>,
    pub deleted_by: Option<String>,
    pub delete_reason: Option<String>,
    pub original_type: Option<String>,
    pub compaction_level: Option<i64>,
    pub compacted_at: Option<Timestamp>,
    pub compacted_at_commit: Option<String>,
    pub original_size: Option<i64>,
    pub sender: Option<String>,
    pub ephemeral: bool,
    pub pinned: bool,
    pub is_template: bool,
    pub labels: Vec<String>,
    pub dependencies: Vec<Dependency>,
    pub comments: Vec<Comment>,
}

/// What an [`Issue`] says.
#[verifier::ext_equal]
pub struct IssueModel {
    pub id: Seq<char>,
    pub content_hash: Option<Seq<char>>,
    pub title: Seq<char>,
    pub description: Option<Seq<char>>,
    pub design: Option<Seq<char>>,
    pub acceptance_criteria: Option<Seq<char>>,
    pub notes: Option<Seq<char>>,
    pub status: StatusModel,
    pub priority: Priority,
    pub issue_type: IssueTypeModel,
    pub assignee: Option<Seq<char>>,
    pub owner: Option<Seq<char>>,
    pub estimated_minutes: Option<i32>,
    pub created_at: Timestamp,
    pub created_by: Option<Seq<char>>,
    pub updated_at: Timestamp,
    pub closed_at: Option<Timestamp>,
    pub close_reason: Option<Seq<char>>,
    pub closed_by_session: Option<Seq<char>>,
    pub bypassed_policy: Option<Seq<char>>,
    pub bypass_reason: Option<Seq<char>>,
    pub policy_gates_fired: Option<Seq<char>>,
    pub due_at: Option<Timestamp>,
    pub defer_until: Option<Timestamp>,
    pub external_ref: Option<Seq<char>>,
    pub source_system: Option<Seq<char>>,
    pub source_repo: Option<Seq<char>>,
    pub source_repo_path: Option<Seq<char>>,
    pub agent_context: Option<Seq<char>>,
    pub deleted_at: Option<Timestamp>,
    pub deleted_by: Option<Seq<char>>,
    pub delete_reason: Option<Seq<char>>,
    pub original_type: Option<Seq<char>>,
    pub compaction_level: Option<i64>,
    pub compacted_at: Option<Timestamp>,
    pub compacted_at_commit: Option<Seq<char>>,
    pub original_size: Option<i64>,
    pub sender: Option<Seq<char>>,
    pub ephemeral: bool,
    pub pinned: bool,
    pub is_template: bool,
    pub labels: Seq<Seq<char>>,
    pub dependencies: Seq<DependencyModel>,
    pub comments: Seq<CommentModel>,
}

impl View for Issue {
    type V = IssueModel;

    open spec fn view(&self) -> IssueModel {
        IssueModel {
            id: self.id@,
            content_hash: opt_text(self.content_hash),
            title: self.title@,
            description: opt_text(self.description),
            design: opt_text(self.design),
            acceptance_criteria: opt_text(self.acceptance_criteria),
            notes: opt_text(self.notes),
            status: self.status@,
            priority: self.priority,
            issue_type: self.issue_type@,
            assignee: opt_text(self.assignee),
            owner: opt_text(self.owner),
            estimated_minutes: self.estimated_minutes,
            created_at: self.created_at,
            created_by: opt_text(self.created_by),
            updated_at: self.updated_at,
            closed_at: self.closed_at,
            close_reason: opt_text(self.close_reason),
            closed_by_session: opt_text(self.closed_by_session),
            bypassed_policy: opt_text(self.bypassed_policy),
            bypass_reason: opt_text(self.bypass_reason),
            policy_gates_fired: opt_text(self.policy_gates_fired),
            due_at: self.due_at,
            defer_until: self.defer_until,
            external_ref: opt_text(self.external_ref),
            source_system: opt_text(self.source_system),
            source_repo: opt_text(self.source_repo),
            source_repo_path: opt_text(self.source_repo_path),
            agent_context: opt_text(self.agent_context),
            deleted_at: self.deleted_at,
            deleted_by: opt_text(self.deleted_by),
            delete_reason: opt_text(self.delete_reason),
            original_type: opt_text(self.original_type),
            compaction_level: self.compaction_level,
            compacted_at: self.compacted_at,
            compacted_at_commit: opt_text(self.compacted_at_commit),
            original_size: self.original_size,
            sender: opt_text(self.sender),
            ephemeral: self.ephemeral,
            pinned: self.pinned,
            is_template: self.is_template,
            labels: texts(self.labels@),
            dependencies: views(self.dependencies@),
            comments: views(self.comments@),
        }
    }
}

pub fn copy_opt(a: &Option<String>) -> (r: Option<String>)
    ensures
        opt_text(r) == opt_text(*a),
{
    match a {
        Some(x) => Some(x.clone()),
        None => None,
    }
}

pub fn copy_texts(v: &Vec<String>) -> (r: Vec<String>)
    ensures
        texts(r@) == texts(v@),
{
    let mut out: Vec<String> = Vec::new();
    let mut i: usize = 0;
    while i < v.len()
        invariant
            i <= v@.len(),
            texts(out@) == texts(v@).take(i as int),
        decreases v@.len() - i,
    {
        let ghost before = texts(out@);
        out.push(v[i].clone());
        assert(texts(out@) =~= before.push(v@[i as int]@));
        i += 1;
        assert(texts(out@) =~= texts(v@).take(i as int));
    }
    assert(texts(out@) =~= texts(v@));
    out
}

pub fn copy_comments(v: &Vec<Comment>) -> (r: Vec<Comment>)
    ensures
        views(r@) == views(v@),
{
    let mut out: Vec<Comment> = Vec::new();
    let mut i: usize = 0;
    while i < v.len()
        invariant
            i <= v@.len(),
            views(out@) == views(v@).take(i as int),
        decreases v@.len() - i,
    {
        let ghost before = views(out@);
        let item = Comment {
            id: v[i].id,
            issue_id: v[i].issue_id.clone(),
            author: v[i].author.clone(),
            body: v[i].body.clone(),
            created_at: v[i].created_at,
        };
        let ghost shown = item@;
        out.push(item);
        i += 1;
        assert(views(out@) =~= before.push(shown));
        assert(views(out@) =~= views(v@).take(i as int));
    }
    assert(views(out@) =~= views(v@));
    out
}

/// The issue without its labels, dependencies and comments.
pub open spec fn without_relations(issue: IssueModel) -> IssueModel {
    IssueModel {
        labels: Seq::empty(),
        dependencies: Seq::empty(),
        comments: Seq::empty(),
        ..issue
    }
}

impl Dependency {
    pub fn copy(&self) -> (r: Dependency)
        ensures
            r@ == self@,
    {
        Dependency {
            issue_id: self.issue_id.clone(),
            depends_on_id: self.depends_on_id.clone(),
            dep_type: self.dep_type.copy(),
            created_at: self.created_at,
            created_by: copy_opt(&self.created_by),
            metadata: copy_opt(&self.metadata),
            thread_id: copy_opt(&self.thread_id),
        }
    }
}

pub fn copy_dependencies(v: &Vec<Dependency>) -> (r: Vec<Dependency>)
    ensures
        views(r@) == views(v@),
{
    let mut out: Vec<Dependency> = Vec::new();
    let mut i: usize = 0;
    while i < v.len()
        invariant
            i <= v@.len(),
            views(out@) == views(v@).take(i as int),
        decreases v@.len() - i,
    {
        let ghost before = views(out@);
        let copied = v[i].copy();
        let ghost shown = copied@;
        out.push(copied);
        i += 1;
        assert(views(out@) =~= before.push(shown));
        assert(views(out@) =~= views(v@).take(i as int));
    }
    assert(views(out@) =~= views(v@));
    out
}

impl Issue {
    pub fn copy(&self) -> (r: Issue)
        ensures
            r@ == self@,
    {
        let mut out = self.copy_without_relations();
        out.labels = copy_texts(&self.labels);
        out.dependencies = copy_dependencies(&self.dependencies);
        out.comments = copy_comments(&self.comments);
        assert(out@ =~= self@);
        out
    }

    /// A copy of the issue without its labels, dependencies and comments.
    pub fn copy_without_relations(&self) -> (r: Issue)
        ensures
            r@ == without_relations(self@),
    {
        let labels: Vec<String> = Vec::new();
        let dependencies: Vec<Dependency> = Vec::new();
        let comments: Vec<Comment> = Vec::new();
        assert(texts(labels@) =~= Seq::<Seq<char>>::empty());
        assert(views(dependencies@) =~= Seq::<DependencyModel>::empty());
        assert(views(comments@) =~= Seq::<CommentModel>::empty());
        Issue {
            id: self.id.clone(),
            content_hash: copy_opt(&self.content_hash),
            title: self.title.clone(),
            description: copy_opt(&self.description),
            design: copy_opt(&self.design),
            acceptance_criteria: copy_opt(&self.acceptance_criteria),
            notes: copy_opt(&self.notes),
            status: self.status.copy(),
            priority: self.priority,
            issue_type: self.issue_type.copy(),
            assignee: copy_opt(&self.assignee),
            owner: copy_opt(&self.owner),
            estimated_minutes: self.estimated_minutes,
            created_at: self.created_at,
            created_by: copy_opt(&self.created_by),
            updated_at: self.updated_at,
            closed_at: self.closed_at,
            close_reason: copy_opt(&self.close_reason),
            closed_by_session: copy_opt(&self.closed_by_session),
            bypassed_policy: copy_opt(&self.bypassed_policy),
            bypass_reason: copy_opt(&self.bypass_reason),
            policy_gates_fired: copy_opt(&self.policy_gates_fired),
            due_at: self.due_at,
            defer_until: self.defer_until,
            external_ref: copy_opt(&self.external_ref),
            source_system: copy_opt(&self.source_system),
            source_repo: copy_opt(&self.source_repo),
            source_repo_path: copy_opt(&self.source_repo_path),
            agent_context: copy_opt(&self.agent_context),
            deleted_at: self.deleted_at,
            deleted_by: copy_opt(&self.deleted_by),
            delete_reason: copy_opt(&self.delete_reason),
            original_type: copy_opt(&self.original_type),
            compaction_level: self.compaction_level,
            compacted_at: self.compacted_at,
            compacted_at_commit: copy_opt(&self.compacted_at_commit),
            original_size: self.original_size,
            sender: copy_opt(&self.sender),
            ephemeral: self.ephemeral,
            pinned: self.pinned,
            is_template: self.is_template,
            labels,
            dependencies,
            comments,
        }
    }
}

} // verus!
