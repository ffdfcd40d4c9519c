use beads_commands::error::BeadsError;
use beads_commands::recovery::{
    begin_batched_cache_refresh, begin_partial_cache_repair,
    finalize_batched_blocked_cache_refresh, preserve_blocked_cache_on_error,
    rebuild_blocked_cache_after_partial_mutation, report_auto_flush_failure,
    retry_mutation_with_jsonl_recovery, should_attempt_mutation_jsonl_recovery, CacheEvent,
    CacheStep, RetryEvent, RetryStep, Voice,
};
use beads_commands::error::validation;
use beads_commands::workspace::{
    cli_for_routed_workspace, github_latest_release_api_url, github_raw_main_url,
    github_releases_url, imports_external_projects, next_import_step, routed_workspace_busy,
    session_attribution_from_env, status_filter_requests_all, CliOverrides, ImportStep,
};

fn database(text: &str) -> BeadsError {
    BeadsError::Database(text.to_string())
}

fn cache_failed(text: &str) -> CacheEvent {
    CacheEvent::Failed { error: database(text) }
}

#[test]
fn partial_mutation_rebuild_skips_clean_state() {
    assert!(matches!(begin_partial_cache_repair(false), CacheStep::Done));
    assert!(matches!(begin_partial_cache_repair(true), CacheStep::MarkStale));
}

#[test]
fn preserve_returns_original_error_when_cache_is_marked_stale() {
    let step = begin_partial_cache_repair(true);
    let step = rebuild_blocked_cache_after_partial_mutation(step, CacheEvent::Succeeded, "close");
    assert!(matches!(step, CacheStep::Done));
    let result: Result<(), BeadsError> = Err(validation("ids", "boom"));
    let err = preserve_blocked_cache_on_error("close", result, Ok(()))
        .expect_err("operation should still fail");

    assert!(matches!(err, BeadsError::Validation { .. }));
}

#[test]
fn preserve_surfaces_rebuild_failure_when_stale_marker_write_also_fails() {
    let step = begin_partial_cache_repair(true);
    let step =
        rebuild_blocked_cache_after_partial_mutation(step, cache_failed("no metadata"), "reopen");
    assert!(matches!(step, CacheStep::Rebuild { .. }));
    let step = rebuild_blocked_cache_after_partial_mutation(step, cache_failed("no table"), "reopen");
    let rebuild = match step {
        CacheStep::Failed { error } => error,
        other => panic!("{other:?}"),
    };
    assert_eq!(
        rebuild.detail(),
        "failed to rebuild blocked cache after partial reopen mutation; pre-marking it stale also failed: no metadata: no table"
    );
    let result: Result<(), BeadsError> = Err(validation("ids", "boom"));
    let err = preserve_blocked_cache_on_error("reopen", result, Err(rebuild))
        .expect_err("rebuild failure should be surfaced");

    assert!(
        matches!(err, BeadsError::WithContext { .. }),
        "expected WithContext, got {err:?}"
    );
    if let BeadsError::WithContext { context, .. } = err {
        assert!(context.contains("partial reopen mutation"));
        assert!(context.contains("Validation failed: ids: boom"));
    }
    assert_eq!(preserve_blocked_cache_on_error("x", Ok(5), Err(database("ignored"))).unwrap(), 5);
}

#[test]
fn finalize_batched_refresh_rebuilds_when_cache_table_is_missing() {
    let step = begin_batched_cache_refresh(true);
    let step = finalize_batched_blocked_cache_refresh(step, CacheEvent::Succeeded, "close");
    assert!(matches!(step, CacheStep::MarkStale));
    let step = finalize_batched_blocked_cache_refresh(step, cache_failed("no table"), "close");
    assert!(matches!(step, CacheStep::Rebuild { .. }));
    let step = finalize_batched_blocked_cache_refresh(step, CacheEvent::Succeeded, "close");
    assert!(matches!(step, CacheStep::Done));
}

#[test]
fn finalize_batched_refresh_clears_preexisting_stale_marker() {
    let step = begin_batched_cache_refresh(true);
    let step = finalize_batched_blocked_cache_refresh(step, CacheEvent::Stale, "close");
    assert!(matches!(step, CacheStep::Refresh));
    let step = finalize_batched_blocked_cache_refresh(step, CacheEvent::Succeeded, "close");
    assert!(matches!(step, CacheStep::Done));
    assert!(matches!(begin_batched_cache_refresh(false), CacheStep::Done));
}

#[test]
fn batched_failures_are_reported() {
    let step = finalize_batched_blocked_cache_refresh(CacheStep::Refresh, cache_failed("locked"), "close");
    assert!(matches!(step, CacheStep::Remark { .. }));
    match finalize_batched_blocked_cache_refresh(step, cache_failed("full"), "close") {
        CacheStep::Failed { error } => assert_eq!(
            error.detail(),
            "failed to preserve blocked cache stale marker after successful batched close mutation; original refresh error: locked: full"
        ),
        other => panic!("{other:?}"),
    }
    let step = CacheStep::Rebuild { mark_error: "m".to_string() };
    match finalize_batched_blocked_cache_refresh(step, cache_failed("r"), "close") {
        CacheStep::Failed { error } => assert_eq!(
            error.detail(),
            "failed to rebuild blocked cache after successful batched close mutation; leaving the cache stale also failed first: m: r"
        ),
        other => panic!("{other:?}"),
    }
}

fn retry(step: RetryStep, event: RetryEvent, allow: bool, probe: Option<&str>) -> RetryStep {
    retry_mutation_with_jsonl_recovery(step, event, allow, "test-mutation", probe)
}

fn retry_failed(error: BeadsError, recoverable: bool) -> RetryEvent {
    RetryEvent::Failed { error, recoverable }
}

#[test]
fn retry_mutation_recovers_from_recoverable_database_error() {
    let mut attempts = 0;
    let mut step = RetryStep::Attempt;
    loop {
        let event = match &step {
            RetryStep::Attempt => {
                attempts += 1;
                retry_failed(database("synthetic corruption"), true)
            }
            RetryStep::Recover { .. } => RetryEvent::Succeeded,
            RetryStep::Retry => {
                attempts += 1;
                RetryEvent::Succeeded
            }
            _ => panic!("{step:?}"),
        };
        step = retry(step, event, true, Some("bd-1"));
        if matches!(step, RetryStep::Succeed) {
            break;
        }
    }
    assert_eq!(attempts, 2);
}

#[test]
fn a_second_failure_is_final() {
    match retry(RetryStep::Retry, retry_failed(database("again"), true), true, Some("bd-1")) {
        RetryStep::Fail { error } => assert_eq!(error.detail(), "again"),
        other => panic!("{other:?}"),
    }
    assert!(matches!(
        retry(RetryStep::Attempt, retry_failed(database("x"), true), false, None),
        RetryStep::Fail { .. }
    ));
    assert!(matches!(
        retry(RetryStep::Attempt, retry_failed(validation("a", "b"), true), true, None),
        RetryStep::Fail { .. }
    ));
    assert!(matches!(
        retry(RetryStep::Attempt, retry_failed(database("x"), false), true, None),
        RetryStep::Fail { .. }
    ));
    let recover = || RetryStep::Recover { operation: database("w") };
    match retry(recover(), retry_failed(database("r"), false), true, Some("bd-1")) {
        RetryStep::Fail { error } => assert_eq!(
            error.detail(),
            "automatic database recovery failed after test-mutation write for issue 'bd-1'; original write error: w: r"
        ),
        other => panic!("{other:?}"),
    }
    match retry(recover(), retry_failed(database("r"), false), true, None) {
        RetryStep::Fail { error } => assert_eq!(
            error.detail(),
            "automatic database recovery failed after test-mutation write; original write error: w: r"
        ),
        other => panic!("{other:?}"),
    }
}

#[test]
fn mutation_recovery_can_be_signaled_by_probe_after_constraint_style_error() {
    let operation_err = database("constraint verification failed");

    assert!(
        !should_attempt_mutation_jsonl_recovery(&operation_err, false, None),
        "constraint-style write errors should not recover without a corruption probe"
    );
    assert!(
        should_attempt_mutation_jsonl_recovery(&operation_err, false, Some(true)),
        "a recoverable rollback-only write probe should trigger JSONL recovery"
    );
    let step = retry(RetryStep::Attempt, retry_failed(operation_err, false), true, Some("bd-1"));
    assert!(matches!(step, RetryStep::Probe { .. }));
    let step = retry(step, retry_failed(database("malformed"), true), true, Some("bd-1"));
    assert!(matches!(step, RetryStep::Recover { .. }));
    let probed = RetryStep::Probe { operation: database("first") };
    match retry(probed, RetryEvent::Succeeded, true, Some("bd-1")) {
        RetryStep::Fail { error } => assert_eq!(error.detail(), "first"),
        other => panic!("{other:?}"),
    }
}

#[test]
fn failed_exports_are_reported_on_the_error_stream() {
    let error = BeadsError::Outside("disk\x07 full".to_string());
    assert_eq!(report_auto_flush_failure(Voice::Quiet, "/d", "/d/i.jsonl", &error), None);
    let warning = report_auto_flush_failure(Voice::Structured, "/d", "/d/\"i\".jsonl", &error).unwrap();
    let parsed: serde_json::Value = serde_json::from_str(&warning).unwrap();
    assert_eq!(parsed["warning"]["code"], "AUTO_FLUSH_FAILED");
    assert_eq!(parsed["warning"]["beads_dir"], "/d");
    assert_eq!(parsed["warning"]["jsonl_path"], "/d/\"i\".jsonl");
    assert_eq!(parsed["warning"]["error"], "disk\x07 full");
    assert_eq!(serde_json::to_string(&parsed).unwrap(), warning);
    let plain = report_auto_flush_failure(Voice::Plain, "/d", "/d/i.jsonl", &error).unwrap();
    assert_eq!(
        plain,
        "Warning: Mutation succeeded, but automatic JSONL export failed. Fix the export problem, run `br sync --flush-only`, then commit the updated .beads/issues.jsonl. JSONL path: /d/i.jsonl. Error: disk\\u{7} full"
    );
}

fn overrides() -> CliOverrides {
    CliOverrides {
        db: Some("/x.db".to_string()),
        actor: Some("me".to_string()),
        quiet: Some(true),
        no_db: None,
        no_auto_import: Some(false),
        allow_stale: None,
        lock_timeout: Some(5),
        read_only_fast_open: true,
    }
}

#[test]
fn other_workspaces_keep_their_own_database() {
    let routed = cli_for_routed_workspace(&overrides(), true);
    assert_eq!(routed.db, None);
    assert!(!routed.read_only_fast_open);
    assert_eq!(routed.actor.as_deref(), Some("me"));
    assert_eq!(routed.lock_timeout, Some(5));
    let local = cli_for_routed_workspace(&overrides(), false);
    assert_eq!(local.db.as_deref(), Some("/x.db"));
    assert!(local.read_only_fast_open);
}

#[test]
fn other_projects_are_imported_unless_ruled_out() {
    assert!(imports_external_projects(&overrides(), None, Some(false)));
    assert!(!imports_external_projects(&overrides(), Some(true), None));
    let mut cli = overrides();
    cli.allow_stale = Some(true);
    assert!(!imports_external_projects(&cli, None, None));
    let mut step = ImportStep::ResolvePaths;
    let mut count = 0;
    while step != ImportStep::NextProject {
        step = next_import_step(step, true);
        count += 1;
    }
    assert_eq!(count, 5);
    assert_eq!(next_import_step(ImportStep::TakeLock, false), ImportStep::NextProject);
    assert_eq!(
        routed_workspace_busy("/b/.beads", "Timed out after 1ms waiting for write lock").detail(),
        "Routed external workspace is busy: target write lock at /b/.beads/.write.lock could not be acquired: Timed out after 1ms waiting for write lock"
    );
}

#[test]
fn filters_and_sessions_are_trimmed() {
    assert!(status_filter_requests_all(&vec!["open".to_string(), " All ".to_string()]));
    assert!(!status_filter_requests_all(&vec!["overall".to_string()]));
    assert_eq!(session_attribution_from_env(Some(" s1 ")), Some("s1".to_string()));
    assert_eq!(session_attribution_from_env(Some("  ")), None);
    assert_eq!(session_attribution_from_env(None), None);
    assert_eq!(
        github_latest_release_api_url(),
        "https://api.github.com/repos/Dicklesworthstone/beads_rust/releases/latest"
    );
    assert_eq!(github_releases_url(), "https://github.com/Dicklesworthstone/beads_rust/releases");
    assert_eq!(
        github_raw_main_url("install.sh"),
        "https://raw.githubusercontent.com/Dicklesworthstone/beads_rust/main/install.sh"
    );
}
