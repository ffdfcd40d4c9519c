//! The errors of the commands.

use vstd::prelude::*;
use vstd::string::*;

verus! {

broadcast use vstd::string::group_string_axioms;

/// Why a command was refused or failed.
#[derive(Debug)]
pub enum BeadsError {
    /// The request does not fit the workspace.
    Config(String),
    /// A field of the request does not hold what it must.
    Validation { field: String, reason: String },
    /// The workspace has no issue of this id.
    IssueNotFound { id: String },
    /// There is no workspace.
    NotInitialized,
    /// There is a workspace already.
    AlreadyInitialized { path: String },
    /// The database file is missing.
    DatabaseNotFound { path: String },
    /// The issue type is not one of the standard ones.
    InvalidType { issue_type: String },
    /// The status is none that issues have.
    InvalidStatus { status: String },
    /// A new dependency would close a cycle.
    DependencyCycle { path: String },
    /// The database reported this.
    Database(String),
    /// An invariant of the tool does not hold.
    Internal(String),
    /// The database and the issues file do not agree.
    SyncConflict { message: String },
    /// A child process failed.
    ExternalCommand { command: String, detail: String },
    /// The file system or another service reported this.
    Outside(String),
    /// Another error, with what was being done.
    WithContext { context: String, source: Box<BeadsError> },
}

/// What an error says.
pub enum ErrorModel {
    Config(Seq<char>),
    Validation { field: Seq<char>, reason: Seq<char> },
    IssueNotFound { id: Seq<char> },
    NotInitialized,
    AlreadyInitialized { path: Seq<char> },
    DatabaseNotFound { path: Seq<char> },
    InvalidType { issue_type: Seq<char> },
    InvalidStatus { status: Seq<char> },
    DependencyCycle { path: Seq<char> },
    Database(Seq<char>),
    Internal(Seq<char>),
    SyncConflict { message: Seq<char> },
    ExternalCommand { command: Seq<char>, detail: Seq<char> },
    Outside(Seq<char>),
    WithContext { context: Seq<char>, source: Box<ErrorModel> },
}

impl BeadsError {
    /// What the error says.
    pub open spec fn model(&self) -> ErrorModel
        decreases self,
    {
        match self {
            BeadsError::Config(m) => ErrorModel::Config(m@),
            BeadsError::Validation { field, reason } => ErrorModel::Validation {
                field: field@,
                reason: reason@,
            },
            BeadsError::IssueNotFound { id } => ErrorModel::IssueNotFound { id: id@ },
            BeadsError::NotInitialized => ErrorModel::NotInitialized,
            BeadsError::AlreadyInitialized { path } => ErrorModel::AlreadyInitialized {
                path: path@,
            },
            BeadsError::DatabaseNotFound { path } => ErrorModel::DatabaseNotFound { path: path@ },
            BeadsError::InvalidType { issue_type } => ErrorModel::InvalidType {
                issue_type: issue_type@,
            },
            BeadsError::InvalidStatus { status } => ErrorModel::InvalidStatus { status: status@ },
            BeadsError::DependencyCycle { path } => ErrorModel::DependencyCycle { path: path@ },
            BeadsError::Database(m) => ErrorModel::Database(m@),
            BeadsError::Internal(m) => ErrorModel::Internal(m@),
            BeadsError::SyncConflict { message } => ErrorModel::SyncConflict { message: message@ },
            BeadsError::ExternalCommand { command, detail } => ErrorModel::ExternalCommand {
                command: command@,
                detail: detail@,
            },
            BeadsError::Outside(m) => ErrorModel::Outside(m@),
            BeadsError::WithContext { context, source } => ErrorModel::WithContext {
                context: context@,
                source: Box::new(source.model()),
            },
        }
    }

    /// The text that the error carries.
    pub fn detail(&self) -> (r: String)
        ensures
            r@ == error_detail(self.model()),
        decreases self,
    {
        match self {
            BeadsError::Config(m) => m.clone(),
            BeadsError::Validation { field, reason } => {
                let mut out: String = "Validation failed: ".to_owned();
                out.append(field.as_str());
                out.append(": ");
                out.append(reason.as_str());
                out
            },
            BeadsError::IssueNotFound { id } => {
                let mut out: String = "Issue not found: ".to_owned();
                out.append(id.as_str());
                out
            },
            BeadsError::NotInitialized => "Beads workspace is not initialized".to_owned(),
            BeadsError::AlreadyInitialized { path } => {
                let mut out: String = "Already initialized at ".to_owned();
                out.append(path.as_str());
                out
            },
            BeadsError::DatabaseNotFound { path } => {
                let mut out: String = "Database not found at ".to_owned();
                out.append(path.as_str());
                out
            },
            BeadsError::InvalidType { issue_type } => {
                let mut out: String = "Invalid issue type: ".to_owned();
                out.append(issue_type.as_str());
                out
            },
            BeadsError::InvalidStatus { status } => {
                let mut out: String = "Invalid status: ".to_owned();
                out.append(status.as_str());
                out
            },
            BeadsError::DependencyCycle { path } => {
                let mut out: String = "Dependency cycle: ".to_owned();
                out.append(path.as_str());
                out
            },
            BeadsError::Database(m) => m.clone(),
            BeadsError::Internal(m) => m.clone(),
            BeadsError::SyncConflict { message } => message.clone(),
            BeadsError::ExternalCommand { command, detail } => {
                let mut out: String = command.clone();
                out.append(": ");
                out.append(detail.as_str());
                out
            },
            BeadsError::Outside(m) => m.clone(),
            BeadsError::WithContext { context, source } => {
                let mut out: String = context.clone();
                out.append(": ");
                let inner = source.detail();
                out.append(inner.as_str());
                out
            },
        }
    }
}

/// How an error reads: the message that it carries, or what it holds behind a few words of
/// this library.
pub open spec fn error_detail(e: ErrorModel) -> Seq<char>
    decreases e,
{
    match e {
        ErrorModel::Config(m) => m,
        ErrorModel::Validation { field, reason } => "Validation failed: "@ + field + ": "@ + reason,
        ErrorModel::IssueNotFound { id } => "Issue not found: "@ + id,
        ErrorModel::NotInitialized => "Beads workspace is not initialized"@,
        ErrorModel::AlreadyInitialized { path } => "Already initialized at "@ + path,
        ErrorModel::DatabaseNotFound { path } => "Database not found at "@ + path,
        ErrorModel::InvalidType { issue_type } => "Invalid issue type: "@ + issue_type,
        ErrorModel::InvalidStatus { status } => "Invalid status: "@ + status,
        ErrorModel::DependencyCycle { path } => "Dependency cycle: "@ + path,
        ErrorModel::Database(m) => m,
        ErrorModel::Internal(m) => m,
        ErrorModel::SyncConflict { message } => message,
        ErrorModel::ExternalCommand { command, detail } => command + ": "@ + detail,
        ErrorModel::Outside(m) => m,
        ErrorModel::WithContext { context, source } => context + ": "@ + error_detail(*source),
    }
}

/// Success, or what the error says.
pub open spec fn checked(r: Result<(), BeadsError>) -> Result<(), ErrorModel> {
    match r {
        Ok(()) => Ok(()),
        Err(e) => Err(e.model()),
    }
}

/// The text, or what the error says.
pub open spec fn text_or_error(r: Result<String, BeadsError>) -> Result<Seq<char>, ErrorModel> {
    match r {
        Ok(s) => Ok(s@),
        Err(e) => Err(e.model()),
    }
}

pub fn internal(message: String) -> (e: BeadsError)
    ensures
        e.model() == ErrorModel::Internal(message@),
{
    BeadsError::Internal(message)
}

pub fn config_error(message: String) -> (e: BeadsError)
    ensures
        e.model() == ErrorModel::Config(message@),
{
    BeadsError::Config(message)
}

pub fn validation(field: &str, reason: &str) -> (e: BeadsError)
    ensures
        e.model() == (ErrorModel::Validation { field: field@, reason: reason@ }),
{
    BeadsError::Validation { field: field.to_owned(), reason: reason.to_owned() }
}

/// A text as Rust's debug output shows it, in quotes and with escapes.
pub uninterp spec fn debug_text(s: Seq<char>) -> Seq<char>;

/// `format!("{s:?}")`: a function of the text alone, named and not spelled out.
#[verifier::external_body]
pub(crate) fn debug_quoted(s: &str) -> (r: String)
    ensures
        r@ == debug_text(s@),
{
    format!("{s:?}")
}

} // verus!
