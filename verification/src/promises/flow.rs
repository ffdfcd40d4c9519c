//! Promises of what the commands share: hooks, recovery and other workspaces.

use crate::error::ErrorModel;
use crate::hooks::{
    actor_check, first_named, hook_actor, message_addition, trailer, trailer_separator,
};
use crate::recovery::{
    batched_refresh_after, calls_for_recovery, partial_repair_after, retry_after, CacheEventModel,
    CacheStepModel, RetryEventModel, RetryModel,
};
use crate::text::{ascii_lowercase, control, ends_with, lines, starts_with, trim, trim_end};
use crate::workspace::{
    asked, asks_for_all, import_step_after, routed_overrides, session_in, ImportStep,
    OverridesModel,
};
use vstd::prelude::*;
use vstd::string::*;

verus! {

broadcast use vstd::string::group_string_axioms;

/// The name that is given is taken where it says something, without white space round it, and
/// else the first of the environment that does.
pub proof fn law_the_first_name_is_the_actor(
    given: Option<Seq<char>>,
    environment: Seq<Option<String>>,
    i: int,
)
    ensures
        given is Some && trim(given->0).len() > 0 ==> hook_actor(given, environment) == Some(
            trim(given->0),
        ),
        (given is None || trim(given->0).len() == 0) && 0 <= i < environment.len()
            && environment[i] is Some && trim(environment[i]->0@).len() > 0 && (forall|j: int|
            0 <= j < i ==> (#[trigger] environment[j]) is None || trim(environment[j]->0@).len()
                == 0) ==> hook_actor(given, environment) == Some(trim(environment[i]->0@)),
        (given is None || trim(given->0).len() == 0) && (forall|j: int|
            0 <= j < environment.len() ==> (#[trigger] environment[j]) is None || trim(
                environment[j]->0@,
            ).len() == 0) ==> hook_actor(given, environment) is None,
{
    lemma_first_named(environment, i);
}

proof fn lemma_first_named(environment: Seq<Option<String>>, i: int)
    ensures
        0 <= i < environment.len() && environment[i] is Some && trim(environment[i]->0@).len() > 0
            && (forall|j: int|
            0 <= j < i ==> (#[trigger] environment[j]) is None || trim(environment[j]->0@).len()
                == 0) ==> first_named(environment) == Some(trim(environment[i]->0@)),
        (forall|j: int|
            0 <= j < environment.len() ==> (#[trigger] environment[j]) is None || trim(
                environment[j]->0@,
            ).len() == 0) ==> first_named(environment) is None,
    decreases environment.len(),
{
    if environment.len() > 0 {
        let rest = environment.skip(1);
        lemma_first_named(rest, i - 1);
        assert forall|j: int| 0 <= j < rest.len() implies #[trigger] rest[j] == environment[j
            + 1] by {}
    }
}

/// A name with a control character in it is refused, and every other one is fine.
pub proof fn law_actors_are_one_line(actor: Seq<char>)
    ensures
        actor_check(actor) is Err <==> exists|i: int|
            0 <= i < actor.len() && control(#[trigger] actor[i]),
        actor_check(actor) is Err ==> actor_check(actor)->Err_0 == (ErrorModel::Validation {
            field: "actor"@,
            reason: "must be a single printable line"@,
        }),
{
}

/// The trailer names the actor at the end of the message, on a line of its own behind an empty
/// one; a message that has one already gets none.
pub proof fn law_trailers_name_the_actor(content: Seq<char>, actor: Seq<char>)
    ensures
        ({
            let there = exists|i: int|
                0 <= i < lines(content).len() && starts_with(
                    #[trigger] lines(content)[i],
                    "Executed-By:"@,
                );
            let line = "Executed-By: "@ + actor + "\n"@;
            &&& there ==> trailer(content, actor) is None
            &&& !there && trim_end(content).len() == 0 ==> trailer(content, actor) == Some(line)
            &&& !there && trim_end(content).len() > 0 && ends_with(content, "\n"@) ==> trailer(
                content,
                actor,
            ) == Some("\n"@ + line)
            &&& !there && trim_end(content).len() > 0 && !ends_with(content, "\n"@) ==> trailer(
                content,
                actor,
            ) == Some("\n\n"@ + line)
        }),
{
    reveal_strlit("");
    let line = "Executed-By: "@ + actor + "\n"@;
    let gap = trailer_separator(content);
    assert(gap + "Executed-By: "@ + actor + "\n"@ =~= gap + line);
    assert(""@ + line =~= line);
}

/// A merge gets no trailer, nor does a commit without an actor; an actor that cannot be named is
/// refused, and any other commit gets the trailer of its actor.
pub proof fn law_merges_get_no_trailer(
    source: Option<Seq<char>>,
    actor: Seq<char>,
    content: Seq<char>,
)
    ensures
        message_addition(Some("merge"@), Some(actor), content) == Ok::<
            Option<Seq<char>>,
            ErrorModel,
        >(None),
        message_addition(source, None, content) == Ok::<Option<Seq<char>>, ErrorModel>(None),
        source != Some("merge"@) && actor_check(actor) is Ok ==> message_addition(
            source,
            Some(actor),
            content,
        ) == Ok::<Option<Seq<char>>, ErrorModel>(trailer(content, actor)),
        source != Some("merge"@) && actor_check(actor) is Err ==> message_addition(
            source,
            Some(actor),
            content,
        ) == Err::<Option<Seq<char>>, ErrorModel>(actor_check(actor)->Err_0),
{
}

/// After a change that was not finished the cache is marked stale; where it cannot be, it is
/// rebuilt, and where that fails too the command does.
pub proof fn law_partial_changes_mark_the_cache(
    event: CacheEventModel,
    error: ErrorModel,
    mark: Seq<char>,
    command: Seq<char>,
)
    ensures
        ({
            let failed = CacheEventModel::Failed { error };
            let rebuild = CacheStepModel::Rebuild { mark_error: mark };
            &&& !(event is Failed) ==> partial_repair_after(
                CacheStepModel::MarkStale,
                event,
                command,
            ) == CacheStepModel::Done && partial_repair_after(rebuild, event, command)
                == CacheStepModel::Done
            &&& partial_repair_after(CacheStepModel::MarkStale, failed, command) is Rebuild
            &&& partial_repair_after(rebuild, failed, command) is Failed
            &&& partial_repair_after(CacheStepModel::Done, event, command) == CacheStepModel::Done
        }),
{
}

/// After a batch of changes the cache is brought up to date: first marked stale where it is
/// not, then refreshed; where it cannot be marked it is rebuilt, and where it cannot be
/// refreshed it is marked again.
pub proof fn law_batches_refresh_the_cache(
    event: CacheEventModel,
    error: ErrorModel,
    mark: Seq<char>,
    command: Seq<char>,
)
    ensures
        ({
            let good = CacheEventModel::Succeeded;
            let failed = CacheEventModel::Failed { error };
            let rebuild = CacheStepModel::Rebuild { mark_error: mark };
            let remark = CacheStepModel::Remark { refresh_error: mark };
            let check = CacheStepModel::CheckStale;
            &&& batched_refresh_after(check, CacheEventModel::Stale, command)
                == CacheStepModel::Refresh
            &&& batched_refresh_after(check, good, command) == CacheStepModel::MarkStale
            &&& batched_refresh_after(check, failed, command) == CacheStepModel::MarkStale
            &&& batched_refresh_after(CacheStepModel::MarkStale, good, command)
                == CacheStepModel::Refresh
            &&& batched_refresh_after(CacheStepModel::MarkStale, failed, command) is Rebuild
            &&& batched_refresh_after(CacheStepModel::Refresh, good, command)
                == CacheStepModel::Done
            &&& batched_refresh_after(CacheStepModel::Refresh, failed, command) is Remark
            &&& batched_refresh_after(rebuild, good, command) == CacheStepModel::Done
            &&& batched_refresh_after(rebuild, failed, command) is Failed
            &&& batched_refresh_after(remark, good, command) == CacheStepModel::Done
            &&& batched_refresh_after(remark, failed, command) is Failed
            &&& batched_refresh_after(CacheStepModel::Done, event, command)
                == CacheStepModel::Done
        }),
{
}

/// Recovery is called for exactly by an error of the database that can be recovered from, as
/// itself or as a probe finds.
pub proof fn law_database_errors_call_for_recovery(
    operation: ErrorModel,
    recoverable: bool,
    probe: Option<bool>,
)
    ensures
        calls_for_recovery(operation, recoverable, probe) <==> operation is Database && (
        recoverable || probe == Some(true)),
{
}

/// A change that fails is tried again after recovery, exactly where recovery is allowed and
/// called for, by the error itself or by a probe of an issue; else its own error is told.
pub proof fn law_changes_are_tried_again_after_recovery(
    error: ErrorModel,
    later: ErrorModel,
    recoverable: bool,
    allow: bool,
    command: Seq<char>,
    issue: Option<Seq<char>>,
)
    ensures
        ({
            let next = |step: RetryModel, event: RetryEventModel|
                retry_after(step, event, allow, command, issue);
            let good = RetryEventModel::Succeeded;
            let failed = RetryEventModel::Failed { error, recoverable };
            let failed_later = RetryEventModel::Failed { error: later, recoverable };
            let probe = RetryModel::Probe { operation: error };
            let recover = RetryModel::Recover { operation: error };
            &&& next(RetryModel::Attempt, good) == RetryModel::Succeed
            &&& allow && error is Database && recoverable ==> next(RetryModel::Attempt, failed)
                == recover
            &&& allow && error is Database && !recoverable && issue is Some ==> next(
                RetryModel::Attempt,
                failed,
            ) == probe
            &&& !allow || !(error is Database) || (!recoverable && issue is None) ==> next(
                RetryModel::Attempt,
                failed,
            ) == (RetryModel::Fail { error })
            &&& next(probe, good) == (RetryModel::Fail { error })
            &&& error is Database && recoverable ==> next(probe, failed_later) == recover
            &&& !recoverable ==> next(probe, failed_later) == (RetryModel::Fail { error })
            &&& next(recover, good) == RetryModel::Retry
            &&& next(recover, failed_later) is Fail
            &&& next(RetryModel::Retry, good) == RetryModel::Succeed
            &&& next(RetryModel::Retry, failed) == (RetryModel::Fail { error })
        }),
{
}

/// `all` is asked for in any case and with white space round it.
pub proof fn law_all_is_all_in_any_case(word: Seq<char>)
    ensures
        asks_for_all(word) <==> ascii_lowercase(trim(word)) == "all"@,
{
    reveal_strlit("all");
    assert(ascii_lowercase("all"@) =~= "all"@);
}

/// A session is named by what says something, without white space round it.
pub proof fn law_blank_sessions_are_none(value: Seq<char>)
    ensures
        session_in(None) is None,
        trim(value).len() == 0 ==> session_in(Some(value)) is None,
        trim(value).len() > 0 ==> session_in(Some(value)) == Some(trim(value)),
{
}

/// Another workspace is opened without the database that was named for this one, and not for
/// reading only; all else that was asked for stays. This one is opened as it was asked for.
pub proof fn law_other_workspaces_keep_what_was_asked(cli: OverridesModel)
    ensures
        routed_overrides(cli, false) == cli,
        routed_overrides(cli, true).db is None,
        !routed_overrides(cli, true).read_only_fast_open,
        (OverridesModel {
            db: cli.db,
            read_only_fast_open: cli.read_only_fast_open,
            ..routed_overrides(cli, true)
        }) == cli,
{
}

/// A project is brought up to date step by step, and left at the first step that fails.
pub proof fn law_projects_are_imported_step_by_step(step: ImportStep)
    ensures
        import_step_after(step, false) == ImportStep::NextProject,
        import_step_after(ImportStep::ResolvePaths, true) == ImportStep::LookForFiles,
        import_step_after(ImportStep::LookForFiles, true) == ImportStep::TakeLock,
        import_step_after(ImportStep::TakeLock, true) == ImportStep::OpenStorage,
        import_step_after(ImportStep::OpenStorage, true) == ImportStep::Import,
        import_step_after(ImportStep::Import, true) == ImportStep::NextProject,
{
}

/// A switch is asked for exactly where it is given and on.
pub proof fn law_switches_are_asked_for_when_on(flag: Option<bool>)
    ensures
        asked(flag) <==> flag is Some && flag->0,
{
}

} // verus!
