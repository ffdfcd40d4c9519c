use beads_commands::epic::{
    close_updates, closed_text, completion_bar_filled_width, completion_percentage, epic_filters,
    execute, execute_with_storage_ctx, format_epic_id, format_epic_title, load_epic_statuses,
    preview_text, render_close_result_rich, render_dry_run_rich, render_epic_status,
    render_epic_status_list_rich, render_note_rich, render_progress_bar, ChildCount, EpicCommand,
    EpicPlan, EpicStatus, EPIC_CLOSE_REASON, NO_OPEN_EPICS,
};
use beads_commands::model::{Issue, IssueType, Priority, Status, Timestamp, MEDIUM};
use beads_commands::spans::{plain, Role};

fn base_issue(id: &str, title: &str, issue_type: IssueType, status: Status) -> Issue {
    Issue {
        id: id.to_string(),
        content_hash: None,
        title: title.to_string(),
        description: None,
        design: None,
        acceptance_criteria: None,
        notes: None,
        status,
        priority: Priority { level: MEDIUM },
        issue_type,
        assignee: None,
        owner: None,
        estimated_minutes: None,
        created_at: Timestamp { seconds: 1_735_689_600, nanos: 0 },
        created_by: None,
        updated_at: Timestamp { seconds: 1_735_689_600, nanos: 0 },
        closed_at: None,
        close_reason: None,
        closed_by_session: None,
        bypassed_policy: None,
        bypass_reason: None,
        policy_gates_fired: None,
        due_at: None,
        defer_until: None,
        external_ref: None,
        source_system: None,
        source_repo: None,
        source_repo_path: None,
        agent_context: None,
        deleted_at: None,
        deleted_by: None,
        delete_reason: None,
        original_type: None,
        compaction_level: None,
        compacted_at: None,
        compacted_at_commit: None,
        original_size: None,
        sender: None,
        ephemeral: false,
        pinned: false,
        is_template: false,
        labels: vec![],
        dependencies: vec![],
        comments: vec![],
    }
}

fn count(id: &str, total: usize, closed: usize) -> ChildCount {
    ChildCount { epic_id: id.to_string(), total, closed }
}

fn find_epic<'a>(epics: &'a [EpicStatus], id: &str) -> Option<&'a EpicStatus> {
    epics.iter().find(|e| e.epic.id == id)
}

#[test]
fn epic_status_tracks_children_and_eligibility() {
    for (closed, eligible) in [(0, false), (1, false), (2, true)] {
        let task = |id: &str, title: &str, done: bool| {
            let status = if done { Status::Closed } else { Status::Open };
            base_issue(id, title, IssueType::Task, status)
        };
        let issues = vec![
            base_issue("bd-epic-1", "Epic", IssueType::Epic, Status::Open),
            task("bd-task-1", "Task 1", closed > 0),
            task("bd-task-2", "Task 2", closed > 1),
        ];
        let epics = load_epic_statuses(issues, &vec![count("bd-epic-1", 2, closed)]);
        assert_eq!(epics.len(), 1);
        let epic_status = find_epic(&epics, "bd-epic-1").expect("epic not found");
        assert_eq!(epic_status.total_children, 2);
        assert_eq!(epic_status.closed_children, closed);
        assert_eq!(epic_status.eligible_for_close, eligible);
    }
}

#[test]
fn epic_status_childless_epic_not_eligible() {
    let epic = base_issue("bd-epic-2", "Childless", IssueType::Epic, Status::Open);
    let epics = load_epic_statuses(vec![epic], &Vec::new());
    let epic_status = find_epic(&epics, "bd-epic-2").expect("epic not found");
    assert_eq!(epic_status.total_children, 0);
    assert_eq!(epic_status.closed_children, 0);
    assert!(!epic_status.eligible_for_close);
}

#[test]
fn epic_status_includes_deferred_epics() {
    let epic = base_issue(
        "bd-epic-deferred",
        "Deferred epic",
        IssueType::Epic,
        Status::Deferred,
    );
    let filters = epic_filters();
    assert!(matches!(filters.types.as_deref(), Some([IssueType::Epic])));
    assert!(filters.statuses.is_none());
    assert!(filters.include_deferred, "deferred epics are asked for");
    assert!(!filters.include_closed && !filters.include_templates);
    let issues = vec![
        base_issue("bd-epic-closed", "Closed epic", IssueType::Epic, Status::Closed),
        epic,
        base_issue("bd-task", "Task", IssueType::Task, Status::Open),
        base_issue("bd-epic-gone", "Deleted epic", IssueType::Epic, Status::Tombstone),
    ];
    let epics = load_epic_statuses(issues, &Vec::new());
    assert_eq!(epics.len(), 1);
    let epic_status = find_epic(&epics, "bd-epic-deferred").expect("deferred epic not found");
    assert_eq!(epic_status.total_children, 0);
    assert_eq!(epic_status.closed_children, 0);
    assert!(!epic_status.eligible_for_close);
}

#[test]
fn epic_display_fields_sanitize_terminal_controls() {
    let id = format_epic_id("bd-epic\x1b]52;c;bad\x07", false).text;
    let title = format_epic_title("Title\x1b[2J\rreset", false).text;

    assert!(!id.contains('\x1b'));
    assert!(!id.contains('\x07'));
    assert!(!title.contains('\x1b'));
    assert!(!title.contains('\r'));
    assert_eq!(id, "bd-epic\\u{1b}]52;c;bad\\u{7}");
    assert_eq!(title, "Title\\u{1b}[2J\\rreset");
}

#[test]
fn epic_completion_helpers_handle_zero_and_inconsistent_counts() {
    assert_eq!(completion_percentage(0, 0), 0);
    assert_eq!(completion_percentage(2, 4), 50);
    assert_eq!(completion_percentage(usize::MAX, 2), 100);
    assert_eq!(completion_percentage(usize::MAX, usize::MAX), 100);

    assert_eq!(completion_bar_filled_width(0, 0, 20), 0);
    assert_eq!(completion_bar_filled_width(1, 4, 20), 5);
    assert_eq!(completion_bar_filled_width(usize::MAX, 2, 20), 20);
    assert_eq!(completion_bar_filled_width(usize::MAX, usize::MAX, 20), 20);
}

#[test]
fn epic_progress_bar_clamps_inconsistent_closed_counts() {
    let content = render_progress_bar(3, 2, completion_percentage(3, 2));

    let rendered = plain(&content);
    assert_eq!(rendered.matches('█').count(), 20);
    assert!(!rendered.contains('░'));
    assert!(rendered.contains("3/2 (100%)"));
}

#[test]
fn full_bars_mean_that_all_is_done() {
    assert_eq!(completion_percentage(999, 1000), 99);
    assert_eq!(completion_percentage(1000, 1000), 100);
    let rendered = plain(&render_progress_bar(1, 3, completion_percentage(1, 3)));
    assert_eq!(rendered, "[██████░░░░░░░░░░░░░░] 1/3 (33%)");
}

fn epics() -> Vec<EpicStatus> {
    load_epic_statuses(
        vec![
            base_issue("e1", "Done", IssueType::Epic, Status::Open),
            base_issue("e2", "Begun", IssueType::Epic, Status::Open),
            base_issue("e3", "New", IssueType::Epic, Status::Open),
        ],
        &vec![count("e1", 2, 2), count("e2", 4, 1)],
    )
}

#[test]
fn plans_close_only_finished_epics() {
    match execute(EpicCommand::CloseEligible { dry_run: false }, epics()) {
        EpicPlan::Close { epics } => {
            assert_eq!(epics.len(), 1);
            let now = Timestamp { seconds: 7, nanos: 0 };
            let updates = close_updates(&epics, now, EPIC_CLOSE_REASON, &Some("c".to_string()));
            assert_eq!(updates[0].id, "e1");
            assert_eq!(updates[0].status, Status::Closed);
            assert_eq!(updates[0].closed_at, now);
            assert_eq!(updates[0].close_reason, "All children completed");
            assert_eq!(updates[0].transition_comment.as_deref(), Some("c"));
        }
        other => panic!("{other:?}"),
    }
    assert!(matches!(
        execute(EpicCommand::CloseEligible { dry_run: true }, epics()),
        EpicPlan::Preview { .. }
    ));
    assert!(matches!(
        execute(EpicCommand::CloseEligible { dry_run: false }, Vec::new()),
        EpicPlan::NothingToClose
    ));
    match execute(EpicCommand::Status { eligible_only: false }, epics()) {
        EpicPlan::Show { epics } => assert_eq!(epics.len(), 3),
        other => panic!("{other:?}"),
    }
    match execute_with_storage_ctx(EpicCommand::Status { eligible_only: true }, epics()) {
        Some(EpicPlan::Show { epics }) => assert_eq!(epics.len(), 1),
        other => panic!("{other:?}"),
    }
    assert!(execute_with_storage_ctx(EpicCommand::CloseEligible { dry_run: true }, epics()).is_none());
}

#[test]
fn epics_are_rendered_as_lines() {
    let list = epics();
    let lines = render_epic_status(&list[0], true);
    assert_eq!(lines[0].role, Role::Success);
    assert_eq!(
        plain(&lines),
        "✓ e1 Done\n   Progress: 2/2 children closed (100%)\n   Eligible for closure\n\n"
    );
    let lines = render_epic_status(&list[1], false);
    assert!(lines.iter().all(|s| s.role == Role::Normal));
    assert_eq!(plain(&lines), "○ e2 Begun\n   Progress: 1/4 children closed (25%)\n\n");
    assert_eq!(
        preview_text(&list),
        "Would close 3 epic(s):\n  - e1: Done\n  - e2: Begun\n  - e3: New\n"
    );
    assert_eq!(
        closed_text(&vec!["e1".to_string()]),
        "✓ Closed 1 epic(s)\n  - e1\n"
    );
}

#[test]
fn epics_are_rendered_in_panels() {
    let list = epics();
    let panel = plain(&render_epic_status_list_rich(&list));
    assert!(panel.starts_with("✓ e1 Done\n   [████████████████████] 2/2 (100%)\n   Ready for closure\n\n○ e2"));
    assert!(panel.ends_with("○ e3 New\n   [░░░░░░░░░░░░░░░░░░░░] 0/0 (0%)\n"));
    assert_eq!(
        plain(&render_dry_run_rich(&list)),
        "⚡ Dry-run mode (no changes will be made)\n\nWould close 3 epics:\n\n  • e1 Done\n  • e2 Begun\n  • e3 New\n"
    );
    assert_eq!(
        plain(&render_close_result_rich(&vec!["e1".to_string()])),
        "✓ Closed 1 epic\n\n  • e1\n"
    );
    assert_eq!(plain(&render_close_result_rich(&Vec::new())), "✓ Closed 0 epics\n");
    assert_eq!(plain(&render_note_rich(NO_OPEN_EPICS)), "No open epics found\n");
}
