use beads_commands::epic::{
    close_eligible_result, execute, show_closed, show_closed_with_warnings, show_plan, EpicCommand,
    EpicPlan,
};
use beads_commands::history::{
    diff_backup, emit_restore_output, prune_backups, DiffFileSummary, HistoryFileDiff,
    TextDiffFallbackReason, FILES_IDENTICAL,
};
use beads_commands::init::{init_shown, InitStep, InitStepStatus};
use beads_commands::lint::{render_lint_output, LintSummary};
use beads_commands::orphans::{output_empty, OrphanRenderMode};
use beads_commands::q::created_shown;
use beads_commands::show::OutputMode;
use beads_commands::shown::Shown;
use beads_commands::spans::{plain, Role};
use beads_commands::workspace::{
    acquire_routed_workspace_write_lock, auto_import_storage_ctx_if_stale,
    external_project_db_paths_after_auto_import_if_needed, CliOverrides, ExternalNeed, ImportFlags,
};

fn text(shown: Shown) -> String {
    match shown {
        Shown::Text { body } => plain(&body),
        other => panic!("{other:?}"),
    }
}

fn panel(shown: Shown) -> (String, String) {
    match shown {
        Shown::Panel { title, body } => (title, plain(&body)),
        other => panic!("{other:?}"),
    }
}

#[test]
fn structured_and_quiet_output_show_no_text() {
    for mode in [OutputMode::Json, OutputMode::Toon] {
        assert!(matches!(created_shown(mode, "bd-1", "T"), Shown::Data));
        assert!(matches!(show_closed(mode, &Vec::new()), Shown::Data));
        assert!(matches!(prune_backups(mode, 1, 2, None, None), Shown::Data));
    }
    assert!(matches!(created_shown(OutputMode::Quiet, "bd-1", "T"), Shown::Nothing));
    assert!(matches!(show_closed(OutputMode::Quiet, &Vec::new()), Shown::Nothing));
    assert!(matches!(prune_backups(OutputMode::Quiet, 1, 2, None, None), Shown::Nothing));
}

#[test]
fn created_issues_are_shown() {
    assert_eq!(text(created_shown(OutputMode::Plain, "bd-1", "T")), "bd-1\n");
    let (title, body) = panel(created_shown(OutputMode::Rich, "bd-1", "T"));
    assert_eq!(title, "Quick Create");
    assert_eq!(body, "✓ Created bd-1\n  \"T\"\n");
}

#[test]
fn workspaces_are_shown_as_they_were_made() {
    let steps = vec![InitStep { label: "Created .beads".to_string(), status: InitStepStatus::Created }];
    for mode in [OutputMode::Plain, OutputMode::Json, OutputMode::Toon] {
        assert_eq!(
            text(init_shown(mode, "/w/.beads", &steps, "bd")),
            "Prefix set to: bd\nInitialized beads workspace in /w/.beads\n"
        );
    }
    let (title, body) = panel(init_shown(OutputMode::Rich, "/w/.beads", &steps, "bd"));
    assert_eq!(title, "Beads Initialized");
    assert!(body.contains("Created .beads"), "{body}");
    assert!(matches!(init_shown(OutputMode::Quiet, "/w", &steps, "bd"), Shown::Nothing));
}

#[test]
fn absent_orphans_are_shown() {
    assert!(matches!(output_empty(OrphanRenderMode::Quiet), Shown::Nothing));
    assert!(matches!(output_empty(OrphanRenderMode::Json), Shown::Data));
    assert!(matches!(output_empty(OrphanRenderMode::Toon), Shown::Data));
    assert_eq!(
        panel(output_empty(OrphanRenderMode::Rich)),
        ("Orphans".to_string(), "No orphaned issues found.".to_string())
    );
    assert_eq!(text(output_empty(OrphanRenderMode::Plain)), "✓ No orphaned issues found\n");
}

#[test]
fn lint_results_are_shown_and_end_the_process() {
    let clean = LintSummary { checked: 2, warnings: 0, results: Vec::new() };
    let (shown, code) = render_lint_output(&clean, OutputMode::Plain);
    assert_eq!(text(shown), "✓ No template warnings found (2 issues checked)\n");
    assert_eq!(code, None);
    let (shown, code) = render_lint_output(&clean, OutputMode::Rich);
    assert_eq!(panel(shown).0, "Lint Results");
    assert_eq!(code, Some(0));
    let (shown, code) = render_lint_output(&clean, OutputMode::Json);
    assert!(matches!(shown, Shown::Data));
    assert_eq!(code, None);
}

#[test]
fn epics_are_shown_by_plan() {
    let none = execute(EpicCommand::Status { eligible_only: false }, Vec::new());
    assert_eq!(text(show_plan(&none, OutputMode::Plain, false)), "No open epics found\n");
    assert_eq!(panel(show_plan(&none, OutputMode::Rich, false)).0, "Epic Status");
    let preview = execute(EpicCommand::CloseEligible { dry_run: true }, Vec::new());
    assert_eq!(text(show_plan(&preview, OutputMode::Plain, false)), "Would close 0 epic(s):\n");
    assert_eq!(panel(show_plan(&preview, OutputMode::Rich, false)).0, "Epic Close (Dry Run)");
    let nothing = execute(EpicCommand::CloseEligible { dry_run: false }, Vec::new());
    assert!(matches!(nothing, EpicPlan::NothingToClose));
    assert_eq!(
        text(show_plan(&nothing, OutputMode::Plain, false)),
        "No epics eligible for closure\n"
    );
    let closed = vec!["bd-1".to_string()];
    assert_eq!(text(show_closed(OutputMode::Plain, &closed)), "✓ Closed 1 epic(s)\n  - bd-1\n");
    assert_eq!(panel(show_closed(OutputMode::Rich, &closed)).0, "Epic Close");
}

#[test]
fn backups_are_shown_as_they_were_used() {
    let shown = emit_restore_output(OutputMode::Plain, "b.jsonl", "/w/issues.jsonl", "br sync");
    assert!(text(shown).starts_with("Restored b.jsonl to issues.jsonl\nNext: br sync\nNote: "));
    let shown = emit_restore_output(OutputMode::Rich, "b.jsonl", "/w/issues.jsonl", "br sync");
    let (title, body) = panel(shown);
    assert_eq!(title, "History Restore");
    assert!(body.starts_with("Restored b.jsonl to issues.jsonl.\nNext: br sync\n"), "{body}");
    assert_eq!(text(prune_backups(OutputMode::Plain, 3, 2, None, None)), "Pruned 3 backup(s).\n");
    assert_eq!(
        panel(prune_backups(OutputMode::Rich, 3, 2, Some(9), None)),
        (
            "History Prune".to_string(),
            "Pruned 3 backup(s).\nCriteria: keep 2, delete older than 9 days".to_string()
        )
    );
}

#[test]
fn comparisons_are_shown_behind_their_heading() {
    let show = |mode: OutputMode, diff: &HistoryFileDiff| diff_backup(mode, "/w/issues.jsonl", "b", diff);
    let same = HistoryFileDiff::Text(String::new());
    let (heading, body) = show(OutputMode::Plain, &same);
    assert_eq!(text(heading), "Diffing current issues.jsonl vs b...\n");
    assert_eq!(text(body), format!("{FILES_IDENTICAL}\n"));
    let (heading, body) = show(OutputMode::Rich, &HistoryFileDiff::Text("-a\n+b\n".to_string()));
    assert_eq!(
        panel(heading),
        ("History Diff".to_string(), "Current: issues.jsonl\nBackup: b".to_string())
    );
    assert_eq!(text(body), "-a\n+b\n");
    let summary = DiffFileSummary {
        identical: false,
        diff_available: false,
        current_size: 1,
        backup_size: 2,
        fallback_reason: Some(TextDiffFallbackReason::NonUtf8),
    };
    let fallback = HistoryFileDiff::Fallback { summary, reason: TextDiffFallbackReason::NonUtf8 };
    let (_, body) = show(OutputMode::Rich, &fallback);
    match body {
        Shown::Text { body } => {
            assert_eq!(body[0].role, Role::Warning);
            assert!(plain(&body).starts_with("Files differ. Text diff unavailable: "));
        }
        other => panic!("{other:?}"),
    }
    let (heading, body) = show(OutputMode::Json, &fallback);
    assert!(matches!(heading, Shown::Data));
    assert!(matches!(body, Shown::Nothing));
}

fn overrides() -> CliOverrides {
    CliOverrides {
        db: None,
        actor: None,
        quiet: None,
        no_db: None,
        no_auto_import: None,
        allow_stale: Some(true),
        lock_timeout: None,
        read_only_fast_open: false,
    }
}

#[test]
fn other_projects_are_imported_where_they_matter() {
    let need = |has: bool, cli: &CliOverrides| {
        external_project_db_paths_after_auto_import_if_needed(has, cli, None, None)
    };
    let mut cli = overrides();
    assert_eq!(need(false, &cli), ExternalNeed::Nothing);
    assert_eq!(need(true, &cli), ExternalNeed::Paths);
    assert_eq!(
        auto_import_storage_ctx_if_stale(false, &cli, Some(false)),
        Some(ImportFlags { allow_stale: true, no_auto_import: false })
    );
    assert_eq!(auto_import_storage_ctx_if_stale(true, &cli, None), None);
    cli.allow_stale = None;
    assert_eq!(need(true, &cli), ExternalNeed::ImportThenPaths);
    assert_eq!(
        acquire_routed_workspace_write_lock("/w/.beads", true).as_deref(),
        Some("/w/.beads/.write.lock")
    );
    assert_eq!(acquire_routed_workspace_write_lock("/w/.beads", false), None);
}

#[test]
fn exceeded_capacities_are_told_behind_closed_epics() {
    let closed = vec!["bd-1".to_string()];
    let warnings = vec!["status closed: 4 over 3".to_string(), "second".to_string()];
    for mode in [OutputMode::Plain, OutputMode::Rich] {
        let (shown, behind) = show_closed_with_warnings(mode, &closed, &warnings);
        match mode {
            OutputMode::Plain => assert_eq!(text(shown), "✓ Closed 1 epic(s)\n  - bd-1\n"),
            _ => assert_eq!(panel(shown).0, "Epic Close"),
        }
        assert_eq!(text(behind), "status closed: 4 over 3\nsecond\n");
        let (_, none) = show_closed_with_warnings(mode, &closed, &Vec::new());
        assert!(matches!(none, Shown::Nothing));
    }
    for mode in [OutputMode::Json, OutputMode::Toon] {
        let (shown, behind) = show_closed_with_warnings(mode, &closed, &warnings);
        assert!(matches!(shown, Shown::Data));
        assert!(matches!(behind, Shown::Nothing));
    }
    let result = close_eligible_result(&closed, &warnings);
    assert_eq!(result.closed, closed);
    assert_eq!(result.count, 1);
    assert_eq!(result.warnings, warnings);
}
