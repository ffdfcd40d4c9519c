use beads_commands::info::{
    begin_snapshot, build_projection_info, collect_info_output, collect_info_snapshot,
    combined_projection_parity_status, count_from_row, detect_prefix, empty_snapshot, execute,
    info_display_list, info_display_text, info_shown, load_config_map, next_snapshot_step,
    print_human, print_message, projection_row_count_query, render_info_rich, resolve_prefix,
    schema_version_text, BlockedHealth, InfoOutput, InfoPlan, InfoSnapshot, ReadyHealth,
    SchemaInfo, SchemaRows, SnapshotStep,
};
use beads_commands::show::OutputMode;
use beads_commands::shown::Shown;
use beads_commands::sizes::{format_bytes, format_size};
use beads_commands::spans::{plain, Role};

#[test]
fn test_format_bytes_small() {
    assert_eq!(format_bytes(500), "500 B");
    assert_eq!(format_bytes(0), "0 B");
}

#[test]
fn test_format_bytes_kb() {
    assert_eq!(format_bytes(1024), "1.0 KB");
    assert_eq!(format_bytes(1536), "1.5 KB");
}

#[test]
fn test_format_bytes_mb() {
    assert_eq!(format_bytes(1024 * 1024), "1.0 MB");
    assert_eq!(format_bytes(2_500_000), "2.4 MB");
}

#[test]
fn test_format_bytes_gb() {
    assert_eq!(format_bytes(1024 * 1024 * 1024), "1.0 GB");
}

fn by_float(bytes: u64) -> String {
    const KB: u64 = 1024;
    const MB: u64 = KB * 1024;
    const GB: u64 = MB * 1024;
    if bytes >= GB {
        format!("{:.1} GB", bytes as f64 / GB as f64)
    } else if bytes >= MB {
        format!("{:.1} MB", bytes as f64 / MB as f64)
    } else if bytes >= KB {
        format!("{:.1} KB", bytes as f64 / KB as f64)
    } else {
        format!("{bytes} B")
    }
}

#[test]
fn sizes_are_those_of_floating_point_division() {
    for base in 0..64u32 {
        for step in [0u64, 1, 2, 3, 51, 52, 256, 511, 512, 513, 768, 1023] {
            let bytes = (1u64 << base).wrapping_add(step.wrapping_mul(1 + (1u64 << base) / 1024));
            assert_eq!(format_bytes(bytes), by_float(bytes), "{bytes}");
        }
    }
    let mut bytes: u64 = 88172645463325252;
    for _ in 0..5000 {
        bytes ^= bytes << 13;
        bytes ^= bytes >> 7;
        bytes ^= bytes << 17;
        assert_eq!(format_bytes(bytes), by_float(bytes), "{bytes}");
        let small = bytes >> 30;
        assert_eq!(format_bytes(small), by_float(small), "{small}");
    }
    assert_eq!(format_bytes(u64::MAX), by_float(u64::MAX));
    assert_eq!(format_bytes(0x20_0000_0000_0001), by_float(0x20_0000_0000_0001));
    for k in [1u64, 7, 1023] {
        assert_eq!(format_bytes(k * 1024), format!("{k}.0 KB"));
    }
    assert_eq!(format_size(5 * 1024 * 1024 * 1024), "5120.0 MB");
    assert_eq!(format_size(1024), "1.0 KB");
    assert_eq!(format_size(7), "7 B");
}

#[test]
fn info_display_helpers_sanitize_terminal_controls() {
    let rendered = info_display_text("/tmp/bd\x1b[2J\rreset\x08\nnext\x07\u{9b}");

    assert!(!rendered.chars().any(char::is_control));
    assert!(rendered.contains("\\u{1b}[2J"));
    assert!(rendered.contains("\\r"));
    assert!(rendered.contains("\\u{8}"));
    assert!(rendered.contains("\\n"));
    assert!(rendered.contains("\\u{7}"));
    assert!(rendered.contains("\\u{9b}"));

    let rendered_list = info_display_list(&vec!["issues".to_string(), "bad\x1b[2Jtable".to_string()]);
    assert!(!rendered_list.chars().any(char::is_control));
    assert!(rendered_list.contains("issues, bad\\u{1b}[2Jtable"));
}

fn healthy() -> (BlockedHealth, ReadyHealth) {
    (
        BlockedHealth {
            parity_status: "matches".to_string(),
            mismatch: false,
            direct_blocked_rows: Some(2),
            cached_missing_rows: Some(0),
            cached_extra_rows: Some(0),
            cached_mismatched_rows: Some(0),
        },
        ReadyHealth {
            parity_status: "matches".to_string(),
            mismatch: false,
            cached_ready_rows: Some(4),
            direct_ready_rows: Some(4),
            cached_ready_missing_rows: Some(0),
            cached_ready_extra_rows: Some(0),
        },
    )
}

#[test]
fn fresh_projections_need_no_rebuild() {
    let (blocked, ready) = healthy();
    let info = build_projection_info(None, Some(9), Some(3), Some(2), Some(1), blocked, ready);
    assert_eq!(info.schema_version, "br.graph-projections.v1");
    assert_eq!(info.blocked_cache_state, "fresh");
    assert!(!info.blocked_cache_stale);
    assert!(!info.rebuild_needed);
    assert!(info.rebuild_reasons.is_empty());
    assert_eq!(info.parity_status, "matches");
    assert_eq!(info.issue_rows, Some(9));
}

#[test]
fn every_fault_of_the_projections_is_a_reason() {
    let (mut blocked, mut ready) = healthy();
    blocked.mismatch = true;
    blocked.parity_status = "mismatch".to_string();
    ready.mismatch = true;
    ready.parity_status = "unavailable".to_string();
    let info = build_projection_info(Some("stale".to_string()), None, None, None, None, blocked, ready);
    assert!(info.blocked_cache_stale);
    assert!(info.rebuild_needed);
    assert_eq!(
        info.rebuild_reasons,
        vec![
            "blocked_cache_marked_stale",
            "blocked_cache_content_mismatch",
            "ready_projection_content_mismatch",
            "blocked_issues_cache_missing",
            "child_counters_missing",
        ]
    );
    assert_eq!(info.parity_status, "mismatch");
    assert_eq!(combined_projection_parity_status("matches", "unavailable"), "unavailable");
    assert_eq!(combined_projection_parity_status("unavailable", "mismatch"), "mismatch");
    assert_eq!(combined_projection_parity_status("matches", "odd"), "matches");
}

#[test]
fn rows_of_the_database_are_read() {
    assert_eq!(count_from_row(Some(5)), Some(5));
    assert_eq!(count_from_row(Some(-1)), None);
    assert_eq!(count_from_row(None), None);
    assert_eq!(
        projection_row_count_query("child_counters"),
        Some("SELECT COUNT(*) FROM child_counters")
    );
    assert_eq!(projection_row_count_query("issues; DROP"), None);
    assert_eq!(schema_version_text(Some(15)), "15");
    assert_eq!(schema_version_text(None), "unknown");
    let some = |s: &str| Some(s.to_string());
    assert_eq!(load_config_map(vec![(some("a"), None), (None, some("b"))]), None);
    assert_eq!(
        load_config_map(vec![(some("a"), some("1")), (some("b"), some("2")), (some("a"), some("3"))]),
        Some(vec![("a".to_string(), "3".to_string()), ("b".to_string(), "2".to_string())])
    );
    assert_eq!(resolve_prefix(None, some("db"), some("file")), some("db"));
    assert_eq!(resolve_prefix(some("cfg"), some("db"), None), some("cfg"));
    assert_eq!(resolve_prefix(None, None, some("file")), some("file"));
}

#[test]
fn a_missing_database_is_not_read() {
    assert_eq!(begin_snapshot(false, false), SnapshotStep::Nowhere);
    assert_eq!(begin_snapshot(true, true), SnapshotStep::FamilyCopy);
    assert_eq!(begin_snapshot(true, false), SnapshotStep::Direct);
    assert_eq!(next_snapshot_step(SnapshotStep::Direct, false), SnapshotStep::FamilyCopy);
    assert_eq!(next_snapshot_step(SnapshotStep::FamilyCopy, false), SnapshotStep::Nowhere);
    assert_eq!(next_snapshot_step(SnapshotStep::Direct, true), SnapshotStep::Read);
}

fn output(snapshot: InfoSnapshot) -> InfoOutput {
    collect_info_output(
        "/w/.beads/beads.db".to_string(),
        "/w/.beads".to_string(),
        "/w/.beads/issues.jsonl".to_string(),
        Some("bd".to_string()),
        snapshot,
        Some(2048),
        None,
    )
}

#[test]
fn human_output_has_its_lines() {
    let text = print_human(&output(empty_snapshot()));
    assert_eq!(
        text,
        "Beads Database Information\n\
         Beads dir: /w/.beads\n\
         Database: /w/.beads/beads.db\n\
         Database size: 2.0 KB\n\
         JSONL: /w/.beads/issues.jsonl\n\
         Mode: direct\n\
         Daemon: not connected (no-daemon)\n\
         \u{20} br runs in direct mode only\n\
         Issue prefix: bd\n"
    );
    let (blocked, ready) = healthy();
    let snapshot = InfoSnapshot {
        issue_count: Some(3),
        config_map: None,
        detected_prefix: None,
        schema: Some(SchemaInfo {
            tables: vec!["issues".to_string(), "labels".to_string()],
            schema_version: "15".to_string(),
            config: None,
            sample_issue_ids: vec!["bd-1".to_string()],
            detected_prefix: Some("bd".to_string()),
        }),
        projections: Some(build_projection_info(
            Some("stale".to_string()),
            Some(3),
            Some(1),
            Some(2),
            None,
            blocked,
            ready,
        )),
    };
    let text = print_human(&output(snapshot));
    assert!(text.contains("Issue count: 3\n"));
    assert!(text.contains(
        "\nSchema:\n  Version: 15\n  Tables: issues, labels\n  Detected prefix: bd\n  Sample IDs: bd-1\n"
    ));
    assert!(text.contains(
        "\nGraph projections:\n  Blocked cache: stale\n  Rebuild needed: yes\n  Cache parity: matches\n  Ready parity: matches\n  Cached blocked rows: 2\n"
    ));
    assert!(text.ends_with(
        "  Rebuild reasons: blocked_cache_marked_stale, child_counters_missing\n"
    ));
}

#[test]
fn panels_have_their_lines() {
    let (blocked, ready) = healthy();
    let mut info = output(empty_snapshot());
    info.issue_count = Some(3);
    info.projections =
        Some(build_projection_info(None, Some(3), Some(1), Some(2), Some(5), blocked, ready));
    let text = plain(&render_info_rich(&info));
    assert!(text.starts_with(
        "Location    /w/.beads\nPrefix      bd\n\nDatabase\n  Path      /w/.beads/beads.db\n  Size      2.0 KB\n  Issues    3 total\n\nJSONL\n  Path      /w/.beads/issues.jsonl\n\nMode        direct (no daemon)\n"
    ));
    assert!(text.ends_with(
        "\nGraph projections\n  Blocked  fresh\n  Rebuild  not needed\n  Parity   matches\n  Ready    matches parity\n  Cached   2 blocked rows\n  Direct   2 blocked rows\n  Ready    4 cached rows\n  Direct   4 ready rows\n  Children 5 counter rows\n"
    ));
}

#[test]
fn messages_come_before_facts() {
    match execute(true, true) {
        InfoPlan::Message { key, text } => {
            assert_eq!(key, "whats_new");
            assert_eq!(text, "No whats-new data available for br.");
        }
        other => panic!("{other:?}"),
    }
    match execute(false, true) {
        InfoPlan::Message { key, .. } => assert_eq!(key, "thanks"),
        other => panic!("{other:?}"),
    }
    assert!(matches!(execute(false, false), InfoPlan::Collect));
}

#[test]
fn messages_are_shown_by_mode() {
    assert!(matches!(print_message(OutputMode::Quiet, "m"), Shown::Nothing));
    assert!(matches!(print_message(OutputMode::Json, "m"), Shown::Data));
    assert!(matches!(print_message(OutputMode::Toon, "m"), Shown::Data));
    match print_message(OutputMode::Rich, "m") {
        Shown::Text { body } => {
            assert_eq!(plain(&body), "m\n");
            assert_eq!(body[0].role, Role::Muted);
        }
        other => panic!("{other:?}"),
    }
    match print_message(OutputMode::Plain, "m") {
        Shown::Text { body } => assert_eq!(plain(&body), "m\n"),
        other => panic!("{other:?}"),
    }
}

fn rows() -> SchemaRows {
    SchemaRows {
        tables: vec![Some("issues".to_string()), None, Some("labels".to_string())],
        version: Some(17),
        sample_issue_ids: vec![Some("bd-1".to_string()), None],
    }
}

#[test]
fn snapshots_hold_what_was_asked_for() {
    let settings = load_config_map(vec![(Some("k".to_string()), Some("v".to_string()))]);
    let snapshot =
        collect_info_snapshot(Some(3), settings, Some("bd".to_string()), Some(rows()), None);
    let schema = snapshot.schema.expect("asked for");
    assert_eq!(schema.tables, vec!["issues".to_string(), "labels".to_string()]);
    assert_eq!(schema.schema_version, "17");
    assert_eq!(schema.sample_issue_ids, vec!["bd-1".to_string()]);
    assert_eq!(schema.config, Some(vec![("k".to_string(), "v".to_string())]));
    assert_eq!(schema.detected_prefix.as_deref(), Some("bd"));
    assert!(snapshot.projections.is_none());
    assert!(collect_info_snapshot(None, None, None, None, None).schema.is_none());
    let first = || Some("of-issue".to_string());
    assert_eq!(detect_prefix(Some("set".to_string()), first()).as_deref(), Some("set"));
    assert_eq!(detect_prefix(None, first()).as_deref(), Some("of-issue"));
}

#[test]
fn facts_are_shown_by_mode() {
    let info = collect_info_output(
        "/w/.beads/beads.db".to_string(),
        "/w/.beads".to_string(),
        "/w/.beads/issues.jsonl".to_string(),
        None,
        empty_snapshot(),
        None,
        None,
    );
    assert!(matches!(info_shown(OutputMode::Quiet, &info), Shown::Nothing));
    assert!(matches!(info_shown(OutputMode::Json, &info), Shown::Data));
    match info_shown(OutputMode::Rich, &info) {
        Shown::Panel { title, body } => {
            assert_eq!(title, "Project Information");
            assert_eq!(plain(&body), plain(&render_info_rich(&info)));
        }
        other => panic!("{other:?}"),
    }
    match info_shown(OutputMode::Plain, &info) {
        Shown::Text { body } => assert_eq!(plain(&body), print_human(&info)),
        other => panic!("{other:?}"),
    }
}

fn collected(snapshot: InfoSnapshot, prefix: Option<String>) -> InfoOutput {
    collect_info_output(
        "/w/.beads/beads.db".to_string(),
        "/w/.beads".to_string(),
        "/w/.beads/issues.jsonl".to_string(),
        prefix,
        snapshot,
        None,
        None,
    )
}

fn setting<'a>(info: &'a InfoOutput, key: &str) -> Option<&'a str> {
    info.config.as_ref()?.iter().find(|(k, _)| k == key).map(|(_, v)| v.as_str())
}

#[test]
fn test_collect_info_output_reports_actual_schema_snapshot() {
    let rows = SchemaRows {
        tables: vec![Some("issues".to_string())],
        version: Some(1),
        sample_issue_ids: Vec::new(),
    };
    let snapshot =
        collect_info_snapshot(Some(0), load_config_map(Vec::new()), None, Some(rows), None);
    let schema = collected(snapshot, None).schema.expect("schema details");
    assert_eq!(schema.schema_version, "1");
    assert_eq!(schema.tables, vec!["issues".to_string()]);
    assert!(schema.config.is_none());
    assert!(schema.sample_issue_ids.is_empty());
}

#[test]
fn test_collect_info_output_prefers_startup_issue_prefix_over_db_config() {
    let settings =
        load_config_map(vec![(Some("issue_prefix".to_string()), Some("bd".to_string()))]);
    let snapshot = collect_info_snapshot(Some(0), settings, Some("bd".to_string()), None, None);
    let prefix = resolve_prefix(Some("proj".to_string()), snapshot.detected_prefix.clone(), None);
    let output = collected(snapshot, prefix);
    assert_eq!(output.resolved_prefix.as_deref(), Some("proj"));
    assert_eq!(
        setting(&output, "issue_prefix"),
        Some("bd"),
        "serialized DB config should remain unchanged"
    );
}

#[test]
fn test_collect_info_output_detects_prefix_without_schema_flag() {
    let detected = detect_prefix(None, Some("proj".to_string()));
    let snapshot = collect_info_snapshot(Some(1), None, detected, None, None);
    let prefix = resolve_prefix(None, snapshot.detected_prefix.clone(), None);
    let output = collected(snapshot, prefix);
    assert_eq!(output.resolved_prefix.as_deref(), Some("proj"));
    assert!(output.schema.is_none());
    assert!(setting(&output, "issue_prefix").is_none());
}

#[test]
fn test_collect_info_output_uses_jsonl_prefix_when_db_is_missing() {
    let prefix = resolve_prefix(None, None, Some("proj".to_string()));
    let output = collected(empty_snapshot(), prefix);
    assert_eq!(output.resolved_prefix.as_deref(), Some("proj"));
    assert!(output.issue_count.is_none());
    assert!(output.config.is_none());
    assert!(output.schema.is_none());
}

fn matching() -> (BlockedHealth, ReadyHealth) {
    let (mut blocked, mut ready) = healthy();
    blocked.direct_blocked_rows = Some(1);
    ready.cached_ready_rows = Some(1);
    ready.direct_ready_rows = Some(1);
    (blocked, ready)
}

#[test]
fn test_collect_info_output_reports_fresh_projection_health() {
    let (blocked, ready) = matching();
    let projections =
        build_projection_info(None, Some(2), Some(1), Some(1), Some(0), blocked, ready);
    assert_eq!(projections.schema_version, "br.graph-projections.v1");
    assert_eq!(projections.blocked_cache_state, "fresh");
    assert!(!projections.blocked_cache_stale);
    assert_eq!(projections.parity_status, "matches");
    assert_eq!(projections.ready_parity_status, "matches");
    assert!(!projections.rebuild_needed);
    assert_eq!(projections.issue_rows, Some(2));
    assert_eq!(projections.dependency_rows, Some(1));
    assert_eq!(projections.cached_blocked_rows, Some(1));
    assert_eq!(projections.direct_blocked_rows, Some(1));
    assert_eq!(projections.cached_missing_rows, Some(0));
    assert_eq!(projections.cached_extra_rows, Some(0));
    assert_eq!(projections.cached_mismatched_rows, Some(0));
    assert_eq!(projections.cached_ready_rows, Some(1));
    assert_eq!(projections.direct_ready_rows, Some(1));
    assert_eq!(projections.cached_ready_missing_rows, Some(0));
    assert_eq!(projections.cached_ready_extra_rows, Some(0));
}

#[test]
fn test_collect_info_output_reports_stale_projection_rebuild_needed() {
    let (blocked, ready) = matching();
    let state = Some("stale".to_string());
    let projections =
        build_projection_info(state, Some(2), Some(1), Some(1), Some(0), blocked, ready);
    assert_eq!(projections.blocked_cache_state, "stale");
    assert!(projections.blocked_cache_stale);
    assert_eq!(projections.parity_status, "matches");
    assert_eq!(projections.ready_parity_status, "matches");
    assert!(projections.rebuild_needed);
    assert_eq!(projections.rebuild_reasons, vec!["blocked_cache_marked_stale".to_string()]);
}

#[test]
fn test_collect_info_output_reports_projection_parity_mismatch() {
    let (mut blocked, ready) = matching();
    blocked.parity_status = "mismatch".to_string();
    blocked.mismatch = true;
    blocked.cached_mismatched_rows = Some(1);
    let projections =
        build_projection_info(None, Some(2), Some(1), Some(1), Some(0), blocked, ready);
    assert_eq!(projections.blocked_cache_state, "fresh");
    assert_eq!(projections.parity_status, "mismatch");
    assert_eq!(projections.ready_parity_status, "matches");
    assert!(projections.rebuild_needed);
    assert_eq!(projections.direct_blocked_rows, Some(1));
    assert_eq!(projections.cached_missing_rows, Some(0));
    assert_eq!(projections.cached_extra_rows, Some(0));
    assert_eq!(projections.cached_mismatched_rows, Some(1));
    assert_eq!(projections.cached_ready_rows, Some(1));
    assert_eq!(projections.direct_ready_rows, Some(1));
    assert_eq!(projections.cached_ready_missing_rows, Some(0));
    assert_eq!(projections.cached_ready_extra_rows, Some(0));
    assert!(projections.rebuild_reasons.contains(&"blocked_cache_content_mismatch".to_string()));
}

#[test]
fn test_collect_info_output_reports_ready_projection_parity_mismatch() {
    let (mut blocked, mut ready) = matching();
    blocked.parity_status = "mismatch".to_string();
    blocked.mismatch = true;
    blocked.cached_missing_rows = Some(1);
    ready.parity_status = "mismatch".to_string();
    ready.mismatch = true;
    ready.cached_ready_rows = Some(2);
    ready.cached_ready_extra_rows = Some(1);
    let projections =
        build_projection_info(None, Some(2), Some(1), Some(0), Some(0), blocked, ready);
    assert_eq!(projections.blocked_cache_state, "fresh");
    assert_eq!(projections.parity_status, "mismatch");
    assert_eq!(projections.ready_parity_status, "mismatch");
    assert!(projections.rebuild_needed);
    assert_eq!(projections.cached_missing_rows, Some(1));
    assert_eq!(projections.cached_ready_rows, Some(2));
    assert_eq!(projections.direct_ready_rows, Some(1));
    assert_eq!(projections.cached_ready_missing_rows, Some(0));
    assert_eq!(projections.cached_ready_extra_rows, Some(1));
    assert!(projections
        .rebuild_reasons
        .contains(&"ready_projection_content_mismatch".to_string()));
}
