//! What a command does when a write fails: the cache of blocked issues, one retry after a
//! rebuild, and the warning about an export that is owed.

use crate::error::{error_detail, BeadsError, ErrorModel};
use crate::json::{json_string, json_string_text};
use crate::sanitize::{multiline, sanitize_terminal_text};
use crate::text::{opt_str, text3, text5};
use vstd::prelude::*;
use vstd::string::*;

verus! {

broadcast use vstd::string::group_string_axioms;

/// What is done about the cache of blocked issues.
#[derive(Debug)]
pub enum CacheStep {
    /// See whether the cache is marked stale.
    CheckStale,
    /// Mark it stale.
    MarkStale,
    /// Rebuild it, since it could not be marked.
    Rebuild { mark_error: String },
    /// Bring it up to date.
    Refresh,
    /// Mark it stale again, since it could not be brought up to date.
    Remark { refresh_error: String },
    /// Nothing is left to do.
    Done,
    /// The command fails.
    Failed { error: BeadsError },
}

/// What a [`CacheStep`] says.
pub enum CacheStepModel {
    CheckStale,
    MarkStale,
    Rebuild { mark_error: Seq<char> },
    Refresh,
    Remark { refresh_error: Seq<char> },
    Done,
    Failed { error: ErrorModel },
}

impl View for CacheStep {
    type V = CacheStepModel;

    open spec fn view(&self) -> CacheStepModel {
        match self {
            CacheStep::CheckStale => CacheStepModel::CheckStale,
            CacheStep::MarkStale => CacheStepModel::MarkStale,
            CacheStep::Rebuild { mark_error } => CacheStepModel::Rebuild {
                mark_error: mark_error@,
            },
            CacheStep::Refresh => CacheStepModel::Refresh,
            CacheStep::Remark { refresh_error } => CacheStepModel::Remark {
                refresh_error: refresh_error@,
            },
            CacheStep::Done => CacheStepModel::Done,
            CacheStep::Failed { error } => CacheStepModel::Failed { error: error.model() },
        }
    }
}

/// What came of a step on the cache.
#[derive(Debug)]
pub enum CacheEvent {
    /// It was done.
    Succeeded,
    /// The cache is marked stale.
    Stale,
    /// It failed.
    Failed { error: BeadsError },
}

/// What a [`CacheEvent`] says.
pub enum CacheEventModel {
    Succeeded,
    Stale,
    Failed { error: ErrorModel },
}

impl View for CacheEvent {
    type V = CacheEventModel;

    open spec fn view(&self) -> CacheEventModel {
        match self {
            CacheEvent::Succeeded => CacheEventModel::Succeeded,
            CacheEvent::Stale => CacheEventModel::Stale,
            CacheEvent::Failed { error } => CacheEventModel::Failed { error: error.model() },
        }
    }
}

/// The first step after a mutation that was left half done.
pub fn begin_partial_cache_repair(cache_dirty: bool) -> (r: CacheStep)
    ensures
        r@ == if cache_dirty {
            CacheStepModel::MarkStale
        } else {
            CacheStepModel::Done
        },
        r@ is Done <==> !cache_dirty,
{
    if cache_dirty {
        CacheStep::MarkStale
    } else {
        CacheStep::Done
    }
}

/// The error of a rebuild that failed after a mutation that was left half done.
pub open spec fn partial_rebuild_error(
    command: Seq<char>,
    mark_error: Seq<char>,
    error: ErrorModel,
) -> ErrorModel {
    ErrorModel::WithContext {
        context: "failed to rebuild blocked cache after partial "@ + command
            + " mutation; pre-marking it stale also failed: "@ + mark_error,
        source: Box::new(error),
    }
}

/// The next step after a mutation that was left half done: the cache is marked stale, or
/// else rebuilt.
pub open spec fn partial_repair_after(
    step: CacheStepModel,
    event: CacheEventModel,
    command: Seq<char>,
) -> CacheStepModel {
    match (step, event) {
        (CacheStepModel::MarkStale, CacheEventModel::Failed { error }) => CacheStepModel::Rebuild {
            mark_error: error_detail(error),
        },
        (
            CacheStepModel::Rebuild { mark_error },
            CacheEventModel::Failed { error },
        ) => CacheStepModel::Failed { error: partial_rebuild_error(command, mark_error, error) },
        (CacheStepModel::MarkStale, _) => CacheStepModel::Done,
        (CacheStepModel::Rebuild { .. }, _) => CacheStepModel::Done,
        (other, _) => other,
    }
}

pub fn rebuild_blocked_cache_after_partial_mutation(
    step: CacheStep,
    event: CacheEvent,
    command: &str,
) -> (r: CacheStep)
    ensures
        r@ == partial_repair_after(step@, event@, command@),
{
    match step {
        CacheStep::MarkStale => match event {
            CacheEvent::Failed { error } => CacheStep::Rebuild { mark_error: error.detail() },
            _ => CacheStep::Done,
        },
        CacheStep::Rebuild { mark_error } => match event {
            CacheEvent::Failed { error } => {
                let mut context = text3(
                    "failed to rebuild blocked cache after partial ",
                    command,
                    " mutation; pre-marking it stale also failed: ",
                );
                context.append(mark_error.as_str());
                CacheStep::Failed {
                    error: BeadsError::WithContext { context, source: Box::new(error) },
                }
            },
            _ => CacheStep::Done,
        },
        other => other,
    }
}

/// The error of an operation whose half-done work could not be made safe.
pub open spec fn preserve_error(
    command: Seq<char>,
    operation: ErrorModel,
    rebuild: ErrorModel,
) -> ErrorModel {
    ErrorModel::WithContext {
        context: "failed to preserve blocked cache after partial "@ + command
            + " mutation; original operation error: "@ + error_detail(operation),
        source: Box::new(rebuild),
    }
}

/// The result of an operation, once the cache was seen to. `repaired` is what came of
/// that where the operation failed.
pub fn preserve_blocked_cache_on_error<T>(
    command: &str,
    result: Result<T, BeadsError>,
    repaired: Result<(), BeadsError>,
) -> (r: Result<T, BeadsError>)
    ensures
        match result {
            Ok(value) => r == Ok::<T, BeadsError>(value),
            Err(operation) => match repaired {
                Ok(()) => r == Err::<T, BeadsError>(operation),
                Err(rebuild) => r is Err && r->Err_0.model() == preserve_error(
                    command@,
                    operation.model(),
                    rebuild.model(),
                ),
            },
        },
        r is Ok <==> result is Ok,
        result is Ok ==> r == result,
{
    match result {
        Ok(value) => Ok(value),
        Err(operation) => match repaired {
            Ok(()) => Err(operation),
            Err(rebuild) => {
                let detail = operation.detail();
                let mut context = text3(
                    "failed to preserve blocked cache after partial ",
                    command,
                    " mutation; original operation error: ",
                );
                context.append(detail.as_str());
                Err(BeadsError::WithContext { context, source: Box::new(rebuild) })
            },
        },
    }
}

/// The first step after a batch of mutations.
pub fn begin_batched_cache_refresh(cache_dirty: bool) -> (r: CacheStep)
    ensures
        r@ == if cache_dirty {
            CacheStepModel::CheckStale
        } else {
            CacheStepModel::Done
        },
        r@ is Done <==> !cache_dirty,
{
    if cache_dirty {
        CacheStep::CheckStale
    } else {
        CacheStep::Done
    }
}

/// The next step after a batch of mutations: the cache is marked stale before it is brought
/// up to date, and stays marked where that fails.
pub open spec fn batched_refresh_after(
    step: CacheStepModel,
    event: CacheEventModel,
    command: Seq<char>,
) -> CacheStepModel {
    match (step, event) {
        (CacheStepModel::CheckStale, CacheEventModel::Stale) => CacheStepModel::Refresh,
        (CacheStepModel::CheckStale, _) => CacheStepModel::MarkStale,
        (CacheStepModel::MarkStale, CacheEventModel::Failed { error }) => CacheStepModel::Rebuild {
            mark_error: error_detail(error),
        },
        (CacheStepModel::MarkStale, _) => CacheStepModel::Refresh,
        (
            CacheStepModel::Rebuild { mark_error },
            CacheEventModel::Failed { error },
        ) => CacheStepModel::Failed {
            error: ErrorModel::WithContext {
                context: "failed to rebuild blocked cache after successful batched "@ + command
                    + " mutation; leaving the cache stale also failed first: "@ + mark_error,
                source: Box::new(error),
            },
        },
        (CacheStepModel::Rebuild { .. }, _) => CacheStepModel::Done,
        (CacheStepModel::Refresh, CacheEventModel::Failed { error }) => CacheStepModel::Remark {
            refresh_error: error_detail(error),
        },
        (CacheStepModel::Refresh, _) => CacheStepModel::Done,
        (
            CacheStepModel::Remark { refresh_error },
            CacheEventModel::Failed { error },
        ) => CacheStepModel::Failed {
            error: ErrorModel::WithContext {
                context:
                    "failed to preserve blocked cache stale marker after successful batched "@
                    + command + " mutation; original refresh error: "@ + refresh_error,
                source: Box::new(error),
            },
        },
        (CacheStepModel::Remark { .. }, _) => CacheStepModel::Done,
        (other, _) => other,
    }
}

pub fn finalize_batched_blocked_cache_refresh(
    step: CacheStep,
    event: CacheEvent,
    command: &str,
) -> (r: CacheStep)
    ensures
        r@ == batched_refresh_after(step@, event@, command@),
{
    match step {
        CacheStep::CheckStale => match event {
            CacheEvent::Stale => CacheStep::Refresh,
            _ => CacheStep::MarkStale,
        },
        CacheStep::MarkStale => match event {
            CacheEvent::Failed { error } => CacheStep::Rebuild { mark_error: error.detail() },
            _ => CacheStep::Refresh,
        },
        CacheStep::Rebuild { mark_error } => match event {
            CacheEvent::Failed { error } => {
                let mut context = text3(
                    "failed to rebuild blocked cache after successful batched ",
                    command,
                    " mutation; leaving the cache stale also failed first: ",
                );
                context.append(mark_error.as_str());
                CacheStep::Failed {
                    error: BeadsError::WithContext { context, source: Box::new(error) },
                }
            },
            _ => CacheStep::Done,
        },
        CacheStep::Refresh => match event {
            CacheEvent::Failed { error } => CacheStep::Remark { refresh_error: error.detail() },
            _ => CacheStep::Done,
        },
        CacheStep::Remark { refresh_error } => match event {
            CacheEvent::Failed { error } => {
                let mut context = text3(
                    "failed to preserve blocked cache stale marker after successful batched ",
                    command,
                    " mutation; original refresh error: ",
                );
                context.append(refresh_error.as_str());
                CacheStep::Failed {
                    error: BeadsError::WithContext { context, source: Box::new(error) },
                }
            },
            _ => CacheStep::Done,
        },
        other => other,
    }
}

/// The steps that end the work.
pub open spec fn cache_settled(step: CacheStepModel) -> bool {
    step is Done || step is Failed
}

/// No failure is passed over: work on the cache ends well only with a step that succeeded.
pub proof fn law_cache_work_ends_well_only_on_success(
    step: CacheStepModel,
    event: CacheEventModel,
    command: Seq<char>,
)
    requires
        !cache_settled(step),
        event is Failed,
    ensures
        !(partial_repair_after(step, event, command) is Done),
        !(batched_refresh_after(step, event, command) is Done),
{
}

/// How many steps are left at most.
pub open spec fn cache_steps_left(step: CacheStepModel) -> nat {
    match step {
        CacheStepModel::CheckStale => 4,
        CacheStepModel::MarkStale => 3,
        CacheStepModel::Refresh => 2,
        CacheStepModel::Rebuild { .. } => 1,
        CacheStepModel::Remark { .. } => 1,
        _ => 0,
    }
}

/// The work on the cache ends: every step leaves fewer to do.
pub proof fn law_batched_refresh_ends(
    step: CacheStepModel,
    event: CacheEventModel,
    command: Seq<char>,
)
    requires
        !cache_settled(step),
    ensures
        cache_steps_left(batched_refresh_after(step, event, command)) < cache_steps_left(step),
{
}

/// The cache is brought up to date only once it is marked stale: a refresh that breaks off
/// leaves the mark.
pub proof fn law_refresh_follows_stale_mark(
    step: CacheStepModel,
    event: CacheEventModel,
    command: Seq<char>,
)
    requires
        !(step is Refresh),
        batched_refresh_after(step, event, command) is Refresh,
    ensures
        (step is CheckStale && event is Stale) || (step is MarkStale && !(event is Failed)),
{
}

/// The operation failed in a way that a rebuild from the issues file may mend: a database
/// error that says so, or one for which a probe of the write path does.
pub open spec fn calls_for_recovery(
    operation: ErrorModel,
    recoverable: bool,
    probe_recoverable: Option<bool>,
) -> bool {
    operation is Database && (recoverable || probe_recoverable == Some(true))
}

pub fn should_attempt_mutation_jsonl_recovery(
    operation: &BeadsError,
    recoverable: bool,
    probe_recoverable: Option<bool>,
) -> (r: bool)
    ensures
        r == calls_for_recovery(operation.model(), recoverable, probe_recoverable),
{
    match operation {
        BeadsError::Database(_) => recoverable || match probe_recoverable {
            Some(said) => said,
            None => false,
        },
        _ => false,
    }
}

/// What is done about a mutation.
#[derive(Debug)]
pub enum RetryStep {
    /// Try it.
    Attempt,
    /// Probe the write path of the issue.
    Probe { operation: BeadsError },
    /// Rebuild the database from the issues file.
    Recover { operation: BeadsError },
    /// Try it once more.
    Retry,
    /// It succeeded.
    Succeed,
    /// It failed.
    Fail { error: BeadsError },
}

/// What a [`RetryStep`] says.
pub enum RetryModel {
    Attempt,
    Probe { operation: ErrorModel },
    Recover { operation: ErrorModel },
    Retry,
    Succeed,
    Fail { error: ErrorModel },
}

impl View for RetryStep {
    type V = RetryModel;

    open spec fn view(&self) -> RetryModel {
        match self {
            RetryStep::Attempt => RetryModel::Attempt,
            RetryStep::Probe { operation } => RetryModel::Probe { operation: operation.model() },
            RetryStep::Recover { operation } => RetryModel::Recover {
                operation: operation.model(),
            },
            RetryStep::Retry => RetryModel::Retry,
            RetryStep::Succeed => RetryModel::Succeed,
            RetryStep::Fail { error } => RetryModel::Fail { error: error.model() },
        }
    }
}

/// What came of a step. `recoverable` says whether a rebuild may mend the failure.
#[derive(Debug)]
pub enum RetryEvent {
    Succeeded,
    Failed { error: BeadsError, recoverable: bool },
}

/// What a [`RetryEvent`] says.
pub enum RetryEventModel {
    Succeeded,
    Failed { error: ErrorModel, recoverable: bool },
}

impl View for RetryEvent {
    type V = RetryEventModel;

    open spec fn view(&self) -> RetryEventModel {
        match self {
            RetryEvent::Succeeded => RetryEventModel::Succeeded,
            RetryEvent::Failed { error, recoverable } => RetryEventModel::Failed {
                error: error.model(),
                recoverable: *recoverable,
            },
        }
    }
}

/// The error of a rebuild that failed after a write that failed.
pub open spec fn recovery_error(
    command: Seq<char>,
    probe_issue_id: Option<Seq<char>>,
    operation: ErrorModel,
    recovery: ErrorModel,
) -> ErrorModel {
    ErrorModel::WithContext {
        context: match probe_issue_id {
            None => "automatic database recovery failed after "@ + command
                + " write; original write error: "@ + error_detail(operation),
            Some(id) => "automatic database recovery failed after "@ + command
                + " write for issue '"@ + id + "'; original write error: "@ + error_detail(
                operation,
            ),
        },
        source: Box::new(recovery),
    }
}

/// The next step of a mutation: where it fails for a reason that a rebuild may mend, the
/// database is rebuilt and the mutation tried once more.
pub open spec fn retry_after(
    step: RetryModel,
    event: RetryEventModel,
    allow_recovery: bool,
    command: Seq<char>,
    probe_issue_id: Option<Seq<char>>,
) -> RetryModel {
    match (step, event) {
        (RetryModel::Attempt, RetryEventModel::Succeeded) => RetryModel::Succeed,
        (
            RetryModel::Attempt,
            RetryEventModel::Failed { error, recoverable },
        ) => if !allow_recovery || !(error is Database) {
            RetryModel::Fail { error }
        } else if calls_for_recovery(error, recoverable, None) {
            RetryModel::Recover { operation: error }
        } else if probe_issue_id is Some {
            RetryModel::Probe { operation: error }
        } else {
            RetryModel::Fail { error }
        },
        (RetryModel::Probe { operation }, RetryEventModel::Succeeded) => RetryModel::Fail {
            error: operation,
        },
        (
            RetryModel::Probe { operation },
            RetryEventModel::Failed { error, recoverable },
        ) => if calls_for_recovery(operation, false, Some(recoverable)) {
            RetryModel::Recover { operation }
        } else {
            RetryModel::Fail { error: operation }
        },
        (RetryModel::Recover { operation }, RetryEventModel::Succeeded) => RetryModel::Retry,
        (
            RetryModel::Recover { operation },
            RetryEventModel::Failed { error, recoverable },
        ) => RetryModel::Fail {
            error: recovery_error(command, probe_issue_id, operation, error),
        },
        (RetryModel::Retry, RetryEventModel::Succeeded) => RetryModel::Succeed,
        (RetryModel::Retry, RetryEventModel::Failed { error, recoverable }) => RetryModel::Fail {
            error,
        },
        (other, _) => other,
    }
}

pub fn retry_mutation_with_jsonl_recovery(
    step: RetryStep,
    event: RetryEvent,
    allow_recovery: bool,
    command: &str,
    probe_issue_id: Option<&str>,
) -> (r: RetryStep)
    ensures
        r@ == retry_after(step@, event@, allow_recovery, command@, opt_str(probe_issue_id)),
{
    match step {
        RetryStep::Attempt => match event {
            RetryEvent::Succeeded => RetryStep::Succeed,
            RetryEvent::Failed { error, recoverable } => {
                let database = match &error {
                    BeadsError::Database(_) => true,
                    _ => false,
                };
                if !allow_recovery || !database {
                    RetryStep::Fail { error }
                } else if should_attempt_mutation_jsonl_recovery(&error, recoverable, None) {
                    RetryStep::Recover { operation: error }
                } else if probe_issue_id.is_some() {
                    RetryStep::Probe { operation: error }
                } else {
                    RetryStep::Fail { error }
                }
            },
        },
        RetryStep::Probe { operation } => match event {
            RetryEvent::Succeeded => RetryStep::Fail { error: operation },
            RetryEvent::Failed { error, recoverable } => {
                if should_attempt_mutation_jsonl_recovery(&operation, false, Some(recoverable)) {
                    RetryStep::Recover { operation }
                } else {
                    RetryStep::Fail { error: operation }
                }
            },
        },
        RetryStep::Recover { operation } => match event {
            RetryEvent::Succeeded => RetryStep::Retry,
            RetryEvent::Failed { error, recoverable } => {
                let detail = operation.detail();
                let context = match probe_issue_id {
                    None => {
                        let mut context = text3(
                            "automatic database recovery failed after ",
                            command,
                            " write; original write error: ",
                        );
                        context.append(detail.as_str());
                        context
                    },
                    Some(id) => {
                        let mut context = text5(
                            "automatic database recovery failed after ",
                            command,
                            " write for issue '",
                            id,
                            "'; original write error: ",
                        );
                        context.append(detail.as_str());
                        context
                    },
                };
                RetryStep::Fail {
                    error: BeadsError::WithContext { context, source: Box::new(error) },
                }
            },
        },
        RetryStep::Retry => match event {
            RetryEvent::Succeeded => RetryStep::Succeed,
            RetryEvent::Failed { error, recoverable } => RetryStep::Fail { error },
        },
        other => other,
    }
}

/// How often the mutation may still be tried.
pub open spec fn attempts_left(step: RetryModel) -> nat {
    match step {
        RetryModel::Attempt => 2,
        RetryModel::Probe { .. } => 1,
        RetryModel::Recover { .. } => 1,
        RetryModel::Retry => 1,
        _ => 0,
    }
}

/// A mutation is tried twice at most: each try uses one up, and no other step gives one back.
pub proof fn law_retries_once(
    step: RetryModel,
    event: RetryEventModel,
    allow_recovery: bool,
    command: Seq<char>,
    probe_issue_id: Option<Seq<char>>,
)
    ensures
        ({
            let next = retry_after(step, event, allow_recovery, command, probe_issue_id);
            &&& attempts_left(next) <= attempts_left(step)
            &&& (step is Attempt || step is Retry) ==> attempts_left(next) < attempts_left(step)
        }),
{
}

/// The database is rebuilt only after a database error, with leave to do so, that itself or
/// by a probe asks for it; and the mutation is tried again only after a rebuild that worked.
pub proof fn law_recovery_is_called_for(
    step: RetryModel,
    event: RetryEventModel,
    allow_recovery: bool,
    command: Seq<char>,
    probe_issue_id: Option<Seq<char>>,
)
    ensures
        ({
            let next = retry_after(step, event, allow_recovery, command, probe_issue_id);
            &&& step is Attempt && next is Recover ==> allow_recovery && event is Failed
                && event->error is Database && event->recoverable && next->Recover_operation
                == event->error
            &&& step is Probe && next is Recover ==> event is Failed && event->recoverable
                && next->Recover_operation == step->Probe_operation
            &&& !(step is Retry) && next is Retry ==> step is Recover && event is Succeeded
        }),
{
}

/// A mutation that fails without a rebuild fails with its own error.
pub proof fn law_own_error_without_recovery(
    step: RetryModel,
    event: RetryEventModel,
    allow_recovery: bool,
    command: Seq<char>,
    probe_issue_id: Option<Seq<char>>,
)
    requires
        retry_after(step, event, allow_recovery, command, probe_issue_id) is Fail,
        step is Attempt || step is Probe || step is Retry,
    ensures
        retry_after(step, event, allow_recovery, command, probe_issue_id)->error == match step {
            RetryModel::Probe { operation } => operation,
            _ => event->error,
        },
{
}

/// How a command speaks to its caller.
#[derive(Debug, Clone, Copy, PartialEq, Eq, Structural)]
pub enum Voice {
    Quiet,
    Structured,
    Plain,
}

/// What an export that failed is reported with.
pub const AUTO_FLUSH_MESSAGE: &'static str =
    "Mutation succeeded, but automatic JSONL export failed. Fix the export problem, run `br sync --flush-only`, then commit the updated .beads/issues.jsonl.";

/// How an export that failed is mended.
pub const AUTO_FLUSH_RECOVERY: &'static str =
    "Run br sync --flush-only after fixing the export problem before committing .beads/issues.jsonl";

/// The warning that an export failed, as structured output.
pub open spec fn structured_flush_warning(
    beads_dir: Seq<char>,
    jsonl_path: Seq<char>,
    error: Seq<char>,
) -> Seq<char> {
    "{\"warning\":{\"beads_dir\":"@ + json_string(beads_dir)
        + ",\"code\":\"AUTO_FLUSH_FAILED\",\"error\":"@ + json_string(error) + ",\"jsonl_path\":"@
        + json_string(jsonl_path) + ",\"message\":"@ + json_string(AUTO_FLUSH_MESSAGE@)
        + ",\"recovery\":"@ + json_string(AUTO_FLUSH_RECOVERY@) + "}}"@
}

/// The warning that an export failed, as plain text.
pub open spec fn plain_flush_warning(jsonl_path: Seq<char>, error: Seq<char>) -> Seq<char> {
    multiline(
        "Warning: "@ + AUTO_FLUSH_MESSAGE@ + " JSONL path: "@ + jsonl_path + ". Error: "@ + error,
    )
}

/// The warning, on the error stream, that a mutation succeeded and its export failed.
pub fn report_auto_flush_failure(
    voice: Voice,
    beads_dir: &str,
    jsonl_path: &str,
    error: &BeadsError,
) -> (r: Option<String>)
    ensures
        crate::text::opt_text(r) == match voice {
            Voice::Quiet => None,
            Voice::Structured => Some(
                structured_flush_warning(beads_dir@, jsonl_path@, error_detail(error.model())),
            ),
            Voice::Plain => Some(plain_flush_warning(jsonl_path@, error_detail(error.model()))),
        },
{
    let detail = error.detail();
    match voice {
        Voice::Quiet => None,
        Voice::Structured => {
            let dir_json = json_string_text(beads_dir);
            let error_json = json_string_text(detail.as_str());
            let path_json = json_string_text(jsonl_path);
            let message_json = json_string_text(AUTO_FLUSH_MESSAGE);
            let recovery_json = json_string_text(AUTO_FLUSH_RECOVERY);
            let mut out = text5(
                "{\"warning\":{\"beads_dir\":",
                dir_json.as_str(),
                ",\"code\":\"AUTO_FLUSH_FAILED\",\"error\":",
                error_json.as_str(),
                ",\"jsonl_path\":",
            );
            out.append(path_json.as_str());
            out.append(",\"message\":");
            out.append(message_json.as_str());
            out.append(",\"recovery\":");
            out.append(recovery_json.as_str());
            out.append("}}");
            Some(out)
        },
        Voice::Plain => {
            let mut out = text5(
                "Warning: ",
                AUTO_FLUSH_MESSAGE,
                " JSONL path: ",
                jsonl_path,
                ". Error: ",
            );
            out.append(detail.as_str());
            Some(sanitize_terminal_text(out.as_str()))
        },
    }
}

} // verus!
