use beads_commands::error::BeadsError;
use beads_commands::model::{Issue, IssueType, Priority, Status, Timestamp, MEDIUM};
use beads_commands::orphans::{
    close_question, closes_orphan, context_snippet, execute, execute_with_storage_ctx, failed_line,
    find_orphans, git_log_error, imports_before_scan, issue_prefixes_for_orphan_scan,
    next_scan_step, orphan_display_text, orphan_filters, parse_git_log_for_prefixes, references, render_plain, repository_root,
    resolve_render_mode, skipped_line, table_title, validate_fix_render_mode, CommitRef,
    OrphanRenderMode, ScanStep,
};
use beads_commands::show::OutputMode;
use beads_commands::workspace::CliOverrides;

fn parse_git_log(log: &str, prefix: &str) -> Result<Vec<CommitRef>, BeadsError> {
    parse_git_log_for_prefixes(log, &vec![prefix.to_string()])
}

fn issue(id: &str, title: &str, status: Status) -> Issue {
    Issue {
        id: id.to_string(),
        content_hash: None,
        title: title.to_string(),
        description: None,
        design: None,
        acceptance_criteria: None,
        notes: None,
        status,
        priority: Priority { level: MEDIUM },
        issue_type: IssueType::Task,
        assignee: None,
        owner: None,
        estimated_minutes: None,
        created_at: Timestamp { seconds: 0, nanos: 0 },
        created_by: None,
        updated_at: Timestamp { seconds: 0, nanos: 0 },
        closed_at: None,
        close_reason: None,
        closed_by_session: None,
        bypassed_policy: None,
        bypass_reason: None,
        policy_gates_fired: None,
        due_at: None,
        defer_until: None,
        external_ref: None,
        source_system: None,
        source_repo: None,
        source_repo_path: None,
        agent_context: None,
        deleted_at: None,
        deleted_by: None,
        delete_reason: None,
        original_type: None,
        compaction_level: None,
        compacted_at: None,
        compacted_at_commit: None,
        original_size: None,
        sender: None,
        ephemeral: false,
        pinned: false,
        is_template: false,
        labels: vec![],
        dependencies: vec![],
        comments: vec![],
    }
}

#[test]
fn orphan_display_text_sanitizes_terminal_controls() {
    let rendered = orphan_display_text("bd-1\x1b[2J\rreset\x08\nnext\x07\u{9b}");

    assert!(!rendered.chars().any(char::is_control));
    assert!(rendered.contains("\\u{1b}[2J"));
    assert!(rendered.contains("\\r"));
    assert!(rendered.contains("\\u{8}"));
    assert!(rendered.contains("\\n"));
    assert!(rendered.contains("\\u{7}"));
    assert!(rendered.contains("\\u{9b}"));
}

#[test]
fn fix_mode_requires_human_output() {
    assert!(validate_fix_render_mode(true, OrphanRenderMode::Plain).is_ok());
    assert!(validate_fix_render_mode(true, OrphanRenderMode::Rich).is_ok());

    for mode in [
        OrphanRenderMode::Json,
        OrphanRenderMode::Toon,
        OrphanRenderMode::Quiet,
    ] {
        let err = validate_fix_render_mode(true, mode).unwrap_err();
        assert!(
            err.detail().contains("--fix is interactive"),
            "unexpected error for {mode:?}: {err:?}"
        );
        assert!(validate_fix_render_mode(false, mode).is_ok());
    }
}

#[test]
fn test_parse_git_log_extracts_issue_ids() {
    let log = r"abc1234 Fix bug (bd-abc)
def5678 Another commit
ghi9012 Implement feature bd-xyz123
jkl3456 Multi-ref (bd-foo) and bd-bar";

    let refs = parse_git_log(log, "bd").unwrap();

    assert_eq!(refs.len(), 4);
    assert_eq!(refs[0].issue_id, "bd-abc");
    assert_eq!(refs[1].issue_id, "bd-xyz123");
    assert_eq!(refs[2].issue_id, "bd-foo");
    assert_eq!(refs[3].issue_id, "bd-bar");
}

#[test]
fn test_parse_git_log_hierarchical_ids() {
    let log = "abc1234 Fix child (bd-parent.1.2)";
    let refs = parse_git_log(log, "bd").unwrap();

    assert_eq!(refs.len(), 1);
    assert_eq!(refs[0].issue_id, "bd-parent.1.2");
}

#[test]
fn test_parse_git_log_custom_prefix() {
    let log = "abc1234 Fix issue (proj-xyz)";
    let refs = parse_git_log(log, "proj").unwrap();

    assert_eq!(refs.len(), 1);
    assert_eq!(refs[0].issue_id, "proj-xyz");
}

#[test]
fn test_parse_git_log_multiple_prefixes() {
    let log = "abc1234 Fix imported issue ext-xyz and local bd-abc";
    let prefixes = vec!["bd".to_string(), "ext".to_string()];
    let refs = parse_git_log_for_prefixes(log, &prefixes).unwrap();

    assert_eq!(refs.len(), 2);
    assert_eq!(refs[0].issue_id, "ext-xyz");
    assert_eq!(refs[1].issue_id, "bd-abc");
}

#[test]
fn test_parse_git_log_prefers_longest_slugged_prefix() {
    let log = "abc1234 Fix slugged issue bd-survey-abc";
    let prefixes = vec!["bd".to_string(), "bd-survey".to_string()];
    let refs = parse_git_log_for_prefixes(log, &prefixes).unwrap();

    assert_eq!(refs.len(), 1);
    assert_eq!(refs[0].issue_id, "bd-survey-abc");
}

#[test]
fn test_parse_git_log_no_matches() {
    let log = "abc1234 Regular commit without issue refs";
    let refs = parse_git_log(log, "bd").unwrap();

    assert!(refs.is_empty());
}

#[test]
fn test_parse_git_log_preserves_order() {
    let log = r"aaa Latest (bd-1)
bbb Middle (bd-2)
ccc Oldest (bd-1)";

    let refs = parse_git_log(log, "bd").unwrap();

    assert_eq!(refs[0].commit, "aaa");
    assert_eq!(refs[0].issue_id, "bd-1");

    assert_eq!(refs[1].commit, "bbb");
    assert_eq!(refs[1].issue_id, "bd-2");

    assert_eq!(refs[2].commit, "ccc");
    assert_eq!(refs[2].issue_id, "bd-1");
}

#[test]
fn test_parse_git_log_normalizes_case() {
    let log = "abc1234 Fix bug (BD-ABC)";
    let refs = parse_git_log(log, "bd").unwrap();
    assert_eq!(refs[0].issue_id, "bd-abc");
}

#[test]
fn prefixes_with_special_characters_are_taken_literally() {
    let refs = parse_git_log("a1 see a.b-1 and axb-2", "a.b").unwrap();
    assert_eq!(refs.len(), 1);
    assert_eq!(refs[0].issue_id, "a.b-1");
    assert!(parse_git_log("a1 bd-1", "").unwrap().is_empty());
    assert!(parse_git_log_for_prefixes("a1 bd-1", &Vec::new()).unwrap().is_empty());
    assert!(parse_git_log("no-space-here", "bd").unwrap().is_empty());
}

#[test]
fn references_pair_commits_with_their_ids() {
    let refs = references(
        &vec!["c1".to_string(), "c2".to_string()],
        &vec!["m1".to_string(), "m2".to_string()],
        &vec![vec!["bd-1".to_string(), "bd-2".to_string()], Vec::new()],
    );
    assert_eq!(refs.len(), 2);
    assert_eq!(refs[0].commit, "c1");
    assert_eq!(refs[0].message, "m1");
    assert_eq!(refs[0].issue_id, "bd-1");
    assert_eq!(refs[1].issue_id, "bd-2");
}

#[test]
fn prefixes_are_searched_the_longest_first() {
    let prefixes = issue_prefixes_for_orphan_scan(
        &vec![Some("bd-survey".to_string()), None, Some("ab".to_string()), Some("bd".to_string())],
        "bd",
    );
    assert_eq!(prefixes, vec!["bd-survey".to_string(), "ab".to_string(), "bd".to_string()]);
}

#[test]
fn orphans_are_the_referenced_candidates_with_their_latest_commit() {
    let log = "aaa Latest bd-2 and bd-1\nbbb Older bd-1\nccc About bd-9";
    let refs = parse_git_log(log, "bd").unwrap();
    let issues = vec![
        issue("bd-2", "Two", Status::InProgress),
        issue("bd-1", "One\x07", Status::Open),
        issue("bd-3", "Three", Status::Open),
    ];
    let orphans = find_orphans(&issues, &refs);
    assert_eq!(orphans.len(), 2);
    assert_eq!(orphans[0].issue_id, "bd-1");
    assert_eq!(orphans[0].latest_commit, "aaa");
    assert_eq!(orphans[0].latest_commit_message, "Latest bd-2 and bd-1");
    assert_eq!(orphans[1].status, "in_progress");
    assert_eq!(
        render_plain(&orphans, true),
        "Orphan issues (2 open/in_progress referenced in commits):\n\n\
         1. [open] bd-1 One\\u{7}\n   Commit: aaa Latest bd-2 and bd-1\n\
         2. [in_progress] bd-2 Two\n   Commit: aaa Latest bd-2 and bd-1\n"
    );
    assert_eq!(
        render_plain(&orphans, false),
        "Orphan issues (2 open/in_progress referenced in commits):\n\n\
         1. [open] bd-1 One\\u{7}\n2. [in_progress] bd-2 Two\n"
    );
    assert_eq!(table_title(2), "Orphan Issues (2)");
    assert_eq!(context_snippet(&orphans[0]), "aaa Latest bd-2 and bd-1");
    assert_eq!(close_question(&orphans[0]), "Close bd-1 (One\\u{7})? [y/N] ");
    assert_eq!(skipped_line(&orphans[0]), "  Skipped bd-1\n");
    assert_eq!(failed_line(&orphans[0], "no\nway"), "  Failed to close bd-1: no\\nway\n");
}

#[test]
fn answers_agree_only_by_yes() {
    for yes in ["y", "Y\n", " yes ", "YES"] {
        assert!(closes_orphan(yes), "{yes}");
    }
    for no in ["", "n", "yep", "ye s"] {
        assert!(!closes_orphan(no), "{no}");
    }
}

#[test]
fn git_answers_are_read() {
    assert_eq!(repository_root("/repo\n"), Some("/repo".to_string()));
    assert_eq!(repository_root(" \n"), None);
    match git_log_error("fatal: bad\n") {
        BeadsError::ExternalCommand { command, detail } => {
            assert_eq!(command, "git");
            assert_eq!(detail, "git log failed: fatal: bad");
        }
        other => panic!("{other:?}"),
    }
    assert_eq!(git_log_error("").detail(), "git: git log failed");
}

#[test]
fn scans_stop_where_nothing_is_found() {
    let mut step = ScanStep::ListCandidates;
    for _ in 0..4 {
        step = next_scan_step(step, true);
    }
    assert_eq!(step, ScanStep::Report);
    assert_eq!(next_scan_step(ScanStep::ListCandidates, false), ScanStep::ReportNone);
    assert_eq!(
        execute(false, false, OutputMode::Plain, false).unwrap(),
        (OrphanRenderMode::Plain, ScanStep::ReportNone)
    );
    assert!(execute(true, true, OutputMode::Plain, true).is_err());
    assert_eq!(
        execute_with_storage_ctx(true, false, OutputMode::Rich).unwrap(),
        (OrphanRenderMode::Rich, ScanStep::ListCandidates)
    );
}

#[test]
fn test_resolve_render_mode_robot_overrides_inherited_toon() {
    assert_eq!(
        resolve_render_mode(true, OutputMode::Toon),
        OrphanRenderMode::Json
    );
}

#[test]
fn test_resolve_render_mode_robot_overrides_rich() {
    assert_eq!(
        resolve_render_mode(true, OutputMode::Rich),
        OrphanRenderMode::Json
    );
}

#[test]
fn test_resolve_render_mode_robot_overrides_plain() {
    assert_eq!(
        resolve_render_mode(true, OutputMode::Plain),
        OrphanRenderMode::Json
    );
}

#[test]
fn test_resolve_render_mode_robot_overrides_quiet() {
    assert_eq!(
        resolve_render_mode(true, OutputMode::Quiet),
        OrphanRenderMode::Json
    );
}

#[test]
fn test_resolve_render_mode_preserves_toon_without_robot() {
    assert_eq!(
        resolve_render_mode(false, OutputMode::Toon),
        OrphanRenderMode::Toon
    );
}

#[test]
fn test_resolve_render_mode_preserves_json_context() {
    assert_eq!(
        resolve_render_mode(false, OutputMode::Json),
        OrphanRenderMode::Json
    );
}

#[test]
fn test_resolve_render_mode_respects_quiet() {
    assert_eq!(
        resolve_render_mode(false, OutputMode::Quiet),
        OrphanRenderMode::Quiet
    );
}

#[test]
fn only_unfinished_issues_are_orphans() {
    let filters = orphan_filters();
    assert_eq!(filters.statuses, Some(vec![Status::Open, Status::InProgress]));
    assert!(filters.types.is_none());
    assert!(!filters.include_closed && !filters.include_deferred && !filters.include_templates);
    let refs = parse_git_log("abc (bd-1) (bd-2) (bd-3) (bd-4) (bd-5)", "bd").unwrap();
    let issues = vec![
        issue("bd-5", "Closed", Status::Closed),
        issue("bd-4", "Deferred", Status::Deferred),
        issue("bd-3", "Begun", Status::InProgress),
        issue("bd-2", "Blocked", Status::Blocked),
        issue("bd-1", "Open", Status::Open),
    ];
    let ids: Vec<String> = find_orphans(&issues, &refs).into_iter().map(|o| o.issue_id).collect();
    assert_eq!(ids, vec!["bd-1".to_string(), "bd-3".to_string()]);
    assert!(find_orphans(&vec![issue("bd-5", "Closed", Status::Closed)], &refs).is_empty());
}

#[test]
fn scans_of_their_own_look_at_the_issues_file_first() {
    let cli = |read_only_fast_open: bool| CliOverrides {
        db: None,
        actor: None,
        quiet: None,
        no_db: None,
        no_auto_import: None,
        allow_stale: None,
        lock_timeout: None,
        read_only_fast_open,
    };
    assert!(imports_before_scan(true, &cli(false)));
    assert!(!imports_before_scan(true, &cli(true)));
    assert!(!imports_before_scan(false, &cli(false)));
}
