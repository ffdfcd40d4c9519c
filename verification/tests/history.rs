use beads_commands::error::BeadsError;
use beads_commands::history::{
    begin_comparison, begin_restore, commit_restored_target_with_rollback, compare_pieces,
    current_jsonl_path_for_backup, diff_fallback_message, diff_panel_text, diff_plain_text,
    diff_status_for_json, ensure_regular_backup_file, execute, file_is_utf8, history_dir,
    history_backup_list_payload, history_diff_for_files, history_display_filename,
    history_display_text, list_backups, next_restore_step, normalize_jsonl_match_path,
    prune_panel_text, prune_plain_text, require_current, restore_name_error, restore_next_step,
    restore_panel_text, restore_plain_text, restore_rollback_path, restore_temp_path_for_attempt,
    shell_quote, summarize_diff_files, unified_diff_for_files, validated_backup_filename,
    ActivePath, BackupEntry, CanonicalPaths, CommitStep, HistoryCommand, HistoryFileDiff,
    PathKind, PieceVerdict, RenameEvent, RestoreEvent, RestoreStep, TextDiffFallbackReason,
    MAX_HISTORY_TEXT_DIFF_BYTES,
};
use beads_commands::model::Timestamp;

#[test]
fn history_display_text_sanitizes_terminal_controls() {
    let rendered = history_display_text("issues\x1b[2J\rreset\x08\nnext\x07\u{9b}.jsonl");

    assert!(!rendered.chars().any(char::is_control));
    assert!(rendered.contains("\\u{1b}[2J"));
    assert!(rendered.contains("\\r"));
    assert!(rendered.contains("\\u{8}"));
    assert!(rendered.contains("\\n"));
    assert!(rendered.contains("\\u{7}"));
    assert!(rendered.contains("\\u{9b}"));
}

#[test]
fn validated_backup_filename_errors_escape_terminal_controls() {
    let err = validated_backup_filename("bad\x1b[2J/name").unwrap_err();

    assert!(
        matches!(err, BeadsError::Config(_)),
        "unexpected error: {err:?}"
    );
    if let BeadsError::Config(message) = err {
        assert!(!message.chars().any(char::is_control));
        assert!(message.contains("\\u{1b}[2J"));
    }
}

#[test]
fn unified_diff_for_files_escapes_terminal_controls() {
    let diff = unified_diff_for_files(
        "/tmp/current\x1b[2J\nfake.jsonl",
        "/tmp/backup.jsonl",
        "{\"title\":\"current\u{7}\"}\n",
        "{\"title\":\"backup\u{8}\"}\n",
    );

    assert!(
        !diff
            .chars()
            .any(|ch| ch.is_control() && ch != '\n' && ch != '\t')
    );
    assert!(diff.contains("\\u{1b}[2J"));
    assert!(diff.contains("\\nfake.jsonl"));
    assert!(diff.contains("\\u{7}"));
    assert!(diff.contains("\\u{8}"));
}

#[test]
fn test_current_jsonl_path_for_backup_rejects_path_traversal() {
    let err = validated_backup_filename("../issues.20260220_120000.jsonl").unwrap_err();

    match err {
        BeadsError::Config(msg) => assert!(msg.contains("Invalid backup filename format")),
        other => assert!(
            matches!(other, BeadsError::Config(_)),
            "unexpected error: {other:?}"
        ),
    }
}

#[test]
fn backup_names_are_single_names() {
    assert_eq!(validated_backup_filename("issues.1.jsonl").unwrap(), "issues.1.jsonl");
    for bad in ["", ".", "..", "/", "/a", "a/b", "./a"] {
        assert!(validated_backup_filename(bad).is_err(), "{bad}");
    }
}

#[test]
fn test_unified_diff_for_files_reports_differences() {
    let diff = unified_diff_for_files(
        "current.jsonl",
        "backup.jsonl",
        "{\"id\":\"one\",\"title\":\"current\"}\n",
        "{\"id\":\"one\",\"title\":\"backup\"}\n",
    );

    assert!(
        diff.contains("--- ") && diff.contains("+++ ") && diff.contains("@@"),
        "diff should include unified diff headers: {diff}"
    );
    assert!(
        diff.contains("-{\"id\":\"one\",\"title\":\"current\"}")
            && diff.contains("+{\"id\":\"one\",\"title\":\"backup\"}"),
        "diff should include current and backup lines: {diff}"
    );
}

#[test]
fn test_unified_diff_for_files_returns_empty_for_identical_files() {
    let same = "{\"id\":\"one\",\"title\":\"same\"}\n";
    let diff = unified_diff_for_files("current.jsonl", "backup.jsonl", same, same);

    assert!(
        diff.is_empty(),
        "identical files should not emit diff: {diff}"
    );
}

#[test]
fn test_diff_status_for_json_falls_back_for_invalid_utf8() {
    let current = vec![0xff, b'{', b'}'];
    let backup = b"{}".to_vec();
    let identical = compare_pieces(&current, &backup) != PieceVerdict::Different;
    let summary = summarize_diff_files(3, 2, identical, file_is_utf8(&current) && file_is_utf8(&backup));

    let (status, diff_available, sizes) = diff_status_for_json(&summary);

    assert_eq!(status, "different");
    assert!(!diff_available, "invalid UTF-8 cannot produce text diff");
    assert_eq!(sizes, Some((3, 2)));
}

#[test]
fn test_history_diff_for_files_reports_identical_non_utf8_without_text_diff() {
    let bytes = vec![0xff, 0x00, 0xfe];
    let identical = compare_pieces(&bytes, &bytes) != PieceVerdict::Different;
    let summary = summarize_diff_files(3, 3, identical, file_is_utf8(&bytes));
    let diff = history_diff_for_files(&summary, "current.jsonl", "backup.jsonl", "", "");

    assert!(
        matches!(&diff, HistoryFileDiff::Fallback { .. }),
        "non-UTF-8 files should not produce text diff"
    );
    if let HistoryFileDiff::Fallback { summary, reason } = diff {
        assert!(summary.identical);
        assert_eq!(summary.current_size, 3);
        assert_eq!(summary.backup_size, 3);
        assert_eq!(reason, TextDiffFallbackReason::NonUtf8);
        assert_eq!(
            diff_fallback_message(&summary, reason),
            "Files are byte-identical. Text diff unavailable: one or both files are not valid UTF-8. Current size: 3 B; backup size: 3 B."
        );
    }
}

#[test]
fn test_diff_status_for_json_falls_back_for_large_inputs() {
    let summary = summarize_diff_files(MAX_HISTORY_TEXT_DIFF_BYTES + 1, 6, false, true);

    let (status, diff_available, sizes) = diff_status_for_json(&summary);

    assert_eq!(status, "different");
    assert!(!diff_available, "large inputs should not build full diffs");
    assert_eq!(sizes, Some((MAX_HISTORY_TEXT_DIFF_BYTES + 1, 6)));
    assert_eq!(summary.fallback_reason, Some(TextDiffFallbackReason::TooLarge));
    let fine = summarize_diff_files(5, 6, false, true);
    assert_eq!(diff_status_for_json(&fine), ("different", true, None));
}

#[test]
fn pieces_of_files_are_compared_in_turn() {
    assert_eq!(compare_pieces(&vec![1, 2], &vec![1, 2]), PieceVerdict::ReadOn);
    assert_eq!(compare_pieces(&vec![1, 2], &vec![1, 3]), PieceVerdict::Different);
    assert_eq!(compare_pieces(&vec![1], &Vec::new()), PieceVerdict::Different);
    assert_eq!(compare_pieces(&Vec::new(), &Vec::new()), PieceVerdict::Identical);
}

fn canonical(beads_dir: &str, target: &str) -> CanonicalPaths {
    CanonicalPaths {
        beads_dir: beads_dir.to_string(),
        target: target.to_string(),
        default_target: format!("{beads_dir}/issues.jsonl"),
    }
}

#[test]
fn test_restore_next_step_uses_default_import_for_internal_targets() {
    let target = "/tmp/x/.beads/issues.jsonl";
    assert_eq!(
        restore_next_step("/tmp/x/.beads", target, &canonical("/tmp/x/.beads", target)),
        "br sync --import-only --force"
    );
}

#[test]
fn test_restore_next_step_sets_jsonl_path_for_internal_custom_targets() {
    let target = "/tmp/x/.beads/custom.jsonl";
    assert_eq!(
        restore_next_step("/tmp/x/.beads", target, &canonical("/tmp/x/.beads", target)),
        format!(
            "BEADS_JSONL={} br sync --import-only --force",
            shell_quote(target)
        )
    );
}

#[test]
fn test_restore_next_step_requires_external_flag_for_external_targets() {
    let target = "/tmp/x/external/issues.jsonl";
    assert_eq!(
        restore_next_step("/tmp/x/.beads", target, &canonical("/tmp/x/.beads", target)),
        format!(
            "BEADS_JSONL={} br sync --import-only --force --allow-external-jsonl",
            shell_quote(target)
        )
    );
}

#[test]
fn test_shell_quote_escapes_single_quotes() {
    assert_eq!(
        shell_quote("/tmp/issue's.jsonl"),
        r#"'/tmp/issue'"'"'s.jsonl'"#
    );
}

#[test]
fn test_current_jsonl_path_for_backup_accepts_relative_external_active_path_when_missing() {
    let target = "/tmp/x/external/issues.jsonl";
    let normalized = normalize_jsonl_match_path("external/issues.jsonl", Some("/tmp/x"));
    assert_eq!(normalized, target);
    assert_eq!(normalize_jsonl_match_path("external/issues.jsonl", None), "external/issues.jsonl");
    assert_eq!(normalize_jsonl_match_path("/a", Some("/b")), "/a");
    let active = Some(ActivePath { path: "external/issues.jsonl".to_string(), canonical: normalized });
    let resolved =
        current_jsonl_path_for_backup("/tmp/x/.beads", "/tmp/x/.beads", target, target, &active).unwrap();
    assert_eq!(resolved, target);
}

#[test]
fn external_targets_must_be_in_use() {
    let target = "/tmp/x/external/issues.jsonl";
    let err = current_jsonl_path_for_backup("/tmp/x/.beads", "/tmp/x/.beads", target, target, &None)
        .unwrap_err();
    assert_eq!(
        err.detail(),
        "External backup target '/tmp/x/external/issues.jsonl' requires the current active JSONL path"
    );
    let other = Some(ActivePath { path: "/tmp/y.jsonl".to_string(), canonical: "/tmp/y.jsonl".to_string() });
    let err = current_jsonl_path_for_backup("/tmp/x/.beads", "/tmp/x/.beads", target, target, &other)
        .unwrap_err();
    assert_eq!(
        err.detail(),
        "Backup target '/tmp/x/external/issues.jsonl' does not match the active JSONL path '/tmp/y.jsonl'"
    );
    let inside = "/real/.beads/custom.jsonl";
    assert_eq!(
        current_jsonl_path_for_backup("/tmp/x/.beads", "/real/.beads", inside, inside, &None).unwrap(),
        inside
    );
}

#[test]
fn backups_must_be_regular_files() {
    assert!(ensure_regular_backup_file(PathKind::File, "a").is_ok());
    assert_eq!(
        ensure_regular_backup_file(PathKind::Link, "a").unwrap_err().detail(),
        "History backup 'a' must not be a symlink"
    );
    assert_eq!(
        ensure_regular_backup_file(PathKind::Other, "a").unwrap_err().detail(),
        "History backup 'a' must be a regular file"
    );
    assert_eq!(
        ensure_regular_backup_file(PathKind::Missing, "a").unwrap_err().detail(),
        "Backup file not found: a"
    );
}

#[test]
fn temporary_names_carry_process_and_attempt() {
    assert_eq!(
        restore_temp_path_for_attempt("/w/.beads/issues.jsonl", 42, 0),
        "/w/.beads/issues.jsonl.42.tmp"
    );
    assert_eq!(
        restore_temp_path_for_attempt("/w/.beads/issues.jsonl", 42, 3),
        "/w/.beads/issues.jsonl.4203.tmp"
    );
    assert_eq!(
        restore_rollback_path("/w/.beads/issues.jsonl", 42, 7),
        "/w/.beads/issues.jsonl.49.tmp"
    );
    let names: Vec<String> =
        (0..64).map(|a| restore_temp_path_for_attempt("/w/i.jsonl", 1, a)).collect();
    for (i, a) in names.iter().enumerate() {
        for b in &names[i + 1..] {
            assert_ne!(a, b);
        }
    }
}

fn failed(error: &str, target_exists: bool) -> RenameEvent {
    RenameEvent::Failed { error: error.to_string(), target_exists }
}

#[test]
fn test_commit_restored_target_restores_original_file_when_replace_fails() {
    let step = commit_restored_target_with_rollback(
        CommitStep::Rename,
        failed("synthetic", false),
        "/w/issues.jsonl",
        Some("/w/issues.jsonl.7.tmp"),
    );
    assert!(matches!(step, CommitStep::RestoreOriginal { .. }));
    match commit_restored_target_with_rollback(
        step,
        RenameEvent::Renamed,
        "/w/issues.jsonl",
        Some("/w/issues.jsonl.7.tmp"),
    ) {
        CommitStep::Failed { error, keep_snapshot } => {
            assert_eq!(
                error.detail(),
                "Failed to replace '/w/issues.jsonl' with the restored backup: synthetic. The original target was restored."
            );
            assert!(!keep_snapshot);
        }
        other => panic!("{other:?}"),
    }
}

#[test]
fn commit_restored_target_replaces_existing_atomically() {
    let step = commit_restored_target_with_rollback(
        CommitStep::Rename,
        RenameEvent::Renamed,
        "/w/issues.jsonl",
        None,
    );
    assert!(matches!(step, CommitStep::Committed));
}

#[test]
fn commit_restored_target_rollback_on_rename_failure() {
    match commit_restored_target_with_rollback(CommitStep::Rename, failed("no", true), "/w/t", None) {
        CommitStep::Failed { error, keep_snapshot } => {
            assert!(matches!(error, BeadsError::Outside(_)));
            assert!(!keep_snapshot);
        }
        other => panic!("{other:?}"),
    }
    match commit_restored_target_with_rollback(CommitStep::Rename, failed("no", true), "/w/t", Some("/w/s")) {
        CommitStep::Failed { error, keep_snapshot } => {
            assert_eq!(
                error.detail(),
                "Failed to replace '/w/t' with the restored backup: no. The original target snapshot was preserved at '/w/s'."
            );
            assert!(keep_snapshot);
        }
        other => panic!("{other:?}"),
    }
    match commit_restored_target_with_rollback(
        CommitStep::RestoreOriginal { rename_error: "no".to_string() },
        failed("still no", false),
        "/w/t",
        Some("/w/s"),
    ) {
        CommitStep::Failed { error, keep_snapshot } => {
            assert_eq!(
                error.detail(),
                "Failed to replace '/w/t' with the restored backup: no. Restoring the original target from '/w/s' also failed: still no"
            );
            assert!(keep_snapshot);
        }
        other => panic!("{other:?}"),
    }
}

#[test]
fn restores_go_through_their_steps() {
    assert_eq!(
        begin_restore(true, false, "/w/custom.jsonl").unwrap_err().detail(),
        "Current custom.jsonl exists. Use --force to overwrite."
    );
    let mut step = begin_restore(true, true, "/w/custom.jsonl").unwrap();
    let mut seen = Vec::new();
    while step != RestoreStep::Commit {
        seen.push(step);
        step = next_restore_step(step, RestoreEvent::Done, true);
    }
    assert_eq!(
        seen,
        vec![
            RestoreStep::CheckTempPath,
            RestoreStep::CreateParent,
            RestoreStep::OpenBackup,
            RestoreStep::CreateTemp { attempt: 0 },
            RestoreStep::CopyBackup,
            RestoreStep::CheckOverwrite,
            RestoreStep::CreateRollback { offset: 1 },
            RestoreStep::CopyTarget,
        ]
    );
    assert_eq!(
        next_restore_step(RestoreStep::CopyBackup, RestoreEvent::Done, false),
        RestoreStep::Commit
    );
    assert_eq!(
        next_restore_step(RestoreStep::CreateTemp { attempt: 63 }, RestoreEvent::NameTaken, true),
        RestoreStep::OutOfTempNames
    );
    assert_eq!(
        next_restore_step(RestoreStep::CreateRollback { offset: 1024 }, RestoreEvent::NameTaken, true),
        RestoreStep::OutOfRollbackNames
    );
    assert_eq!(
        next_restore_step(RestoreStep::CopyTarget, RestoreEvent::Failed, true),
        RestoreStep::Failed
    );
    let error = |step| restore_name_error(step, "/w/t", "/w/t.1.tmp").unwrap().detail();
    assert_eq!(
        error(RestoreStep::OutOfTempNames),
        "Failed to allocate temporary restore file for '/w/t'"
    );
    assert_eq!(
        error(RestoreStep::LinkInTheWay),
        "Temporary restore file already exists: /w/t.1.tmp"
    );
    assert_eq!(
        error(RestoreStep::OutOfRollbackNames),
        "Failed to allocate rollback snapshot path for '/w/t'"
    );
    assert!(restore_name_error(RestoreStep::Commit, "/w/t", "/w/t.1.tmp").is_none());
}

#[test]
fn test_diff_backup_reports_missing_current_stem_file() {
    let err = require_current(false, "/w/.beads/custom.jsonl").unwrap_err();
    match err {
        BeadsError::Config(msg) => assert!(msg.contains("Current custom.jsonl not found")),
        other => panic!("unexpected error: {other:?}"),
    }
    assert!(require_current(true, "/w/.beads/custom.jsonl").is_ok());
}

fn entry() -> BackupEntry {
    BackupEntry {
        path: "/w/.beads/.br_history/issues.1.jsonl".to_string(),
        target_path: "/w/.beads/issues.jsonl".to_string(),
        size: 1536,
        timestamp: Timestamp { seconds: 1_735_787_040, nanos: 0 },
    }
}

#[test]
fn backups_are_listed() {
    assert_eq!(list_backups("/w", &Vec::new()), "No backups found in /w\n");
    let list = list_backups("/w", &vec![entry()]);
    let lines: Vec<&str> = list.lines().collect();
    assert_eq!(lines[0], "Backups in /w:");
    assert_eq!(
        lines[1],
        format!("{:<30} {:<36} {:<10} {:<20}", "FILENAME", "TARGET", "SIZE", "TIMESTAMP")
    );
    assert_eq!(lines[2], "-".repeat(100));
    assert_eq!(
        lines[3],
        format!(
            "{:<30} {:<36} {:<10} {:<20}",
            "issues.1.jsonl", "/w/.beads/issues.jsonl", "1.5 KB", "2025-01-02 03:04:00 UTC"
        )
    );
    let items = history_backup_list_payload(&vec![entry()]);
    assert_eq!(items[0].filename, "issues.1.jsonl");
    assert_eq!(items[0].target, "/w/.beads/issues.jsonl");
    assert_eq!(items[0].size_bytes, 1536);
    assert_eq!(items[0].size, "1.5 KB");
    assert_eq!(items[0].timestamp, "2025-01-02T03:04:00+00:00");
}

#[test]
fn messages_are_sanitized_and_complete() {
    assert_eq!(history_display_filename("/a/b\x07.jsonl"), "b\\u{7}.jsonl");
    assert_eq!(diff_panel_text("/w/c.jsonl", "b"), "Current: c.jsonl\nBackup: b");
    assert_eq!(diff_plain_text("/w/c.jsonl", "b"), "Diffing current c.jsonl vs b...\n");
    assert_eq!(
        restore_plain_text("b", "/w/c.jsonl", "br sync"),
        "Restored b to c.jsonl\nNext: br sync\nNote: SQLite is unchanged until you run the import step.\nNote: Tombstone protection remains active; deleted issues are not resurrected by import.\n"
    );
    assert!(restore_panel_text("b", "/w/c.jsonl", "br sync").starts_with("Restored b to c.jsonl.\nNext: br sync\nNote: "));
    assert_eq!(prune_plain_text(3), "Pruned 3 backup(s).\n");
    assert_eq!(
        prune_panel_text(3, 5, Some(30), Some(1000)),
        "Pruned 3 backup(s).\nCriteria: keep 5, delete older than 30 days\nGlobal logical-byte budget: 1000 bytes"
    );
    assert_eq!(
        prune_panel_text(0, 5, None, None),
        "Pruned 0 backup(s).\nCriteria: keep 5 newest backups"
    );
}

#[test]
fn commands_default_to_the_list() {
    assert!(matches!(execute(None), (HistoryCommand::List, false)));
    let (command, needs_active) =
        execute(Some(HistoryCommand::Restore { file: "f".to_string(), force: true }));
    assert!(matches!(command, HistoryCommand::Restore { force: true, .. }));
    assert!(needs_active);
    let prune = HistoryCommand::Prune { keep: 3, older_than: None, max_bytes: None };
    assert!(!execute(Some(prune)).1);
    assert_eq!(history_dir("/w/.beads"), "/w/.beads/.br_history");
}

#[test]
fn test_restore_backup_rejects_symlinked_backup_file() {
    let backup_name = "issues.20260220_120000.jsonl";
    let name = validated_backup_filename(backup_name).unwrap();
    match ensure_regular_backup_file(PathKind::Link, &name).unwrap_err() {
        BeadsError::Config(msg) => assert!(msg.contains("must not be a symlink")),
        other => panic!("unexpected error: {other:?}"),
    }
}

#[test]
fn test_restore_backup_skips_stale_regular_temp_file() {
    let mut step = begin_restore(true, true, "/w/.beads/issues.jsonl").unwrap();
    while step != (RestoreStep::CreateTemp { attempt: 0 }) {
        step = next_restore_step(step, RestoreEvent::Done, true);
    }
    step = next_restore_step(step, RestoreEvent::NameTaken, true);
    assert_eq!(step, RestoreStep::CreateTemp { attempt: 1 });
    let stale = restore_temp_path_for_attempt("/w/.beads/issues.jsonl", 7, 0);
    let next = restore_temp_path_for_attempt("/w/.beads/issues.jsonl", 7, 1);
    assert_ne!(stale, next, "restore should not overwrite or delete a stale regular temp file");
}

#[test]
fn files_of_different_sizes_are_not_read() {
    assert_eq!(begin_comparison(3, 3), PieceVerdict::ReadOn);
    assert_eq!(begin_comparison(3, 4), PieceVerdict::Different);
}
