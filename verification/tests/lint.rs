use beads_commands::error::BeadsError;
use beads_commands::filters::ListFilters;
use beads_commands::lint::{
    asked_status, build_filters, execute, execute_with_storage_ctx, fetch_issues_in_resolved_order,
    issue_type_style, lint_issue, lint_issues, missing_sections, render_lint_plain,
    render_lint_rich, required_sections, resolve_issues, strip_heading_prefix, AskedType,
    LintPlan,
};
use beads_commands::model::{Issue, IssueType, Priority, Status, Timestamp, MEDIUM};
use beads_commands::show::OutputMode;
use beads_commands::spans::{plain, Role};

fn make_issue(issue_type: IssueType, description: Option<&str>) -> Issue {
    Issue {
        id: "bd-123".to_string(),
        content_hash: None,
        title: "Sample".to_string(),
        description: description.map(str::to_string),
        design: None,
        acceptance_criteria: None,
        notes: None,
        status: Status::Open,
        priority: Priority { level: MEDIUM },
        issue_type,
        assignee: None,
        owner: None,
        estimated_minutes: None,
        created_at: Timestamp { seconds: 0, nanos: 0 },
        created_by: None,
        updated_at: Timestamp { seconds: 0, nanos: 0 },
        closed_at: None,
        close_reason: None,
        closed_by_session: None,
        bypassed_policy: None,
        bypass_reason: None,
        policy_gates_fired: None,
        due_at: None,
        defer_until: None,
        external_ref: None,
        source_system: None,
        source_repo: None,
        source_repo_path: None,
        agent_context: None,
        deleted_at: None,
        deleted_by: None,
        delete_reason: None,
        original_type: None,
        compaction_level: None,
        compacted_at: None,
        compacted_at_commit: None,
        original_size: None,
        sender: None,
        ephemeral: false,
        pinned: false,
        is_template: false,
        labels: vec![],
        dependencies: vec![],
        comments: vec![],
    }
}

fn some(s: &str) -> Option<String> {
    Some(s.to_string())
}

#[test]
fn test_missing_sections_for_bug() {
    let issue = make_issue(IssueType::Bug, Some("Bug report"));
    let result = lint_issue(&issue).expect("lint result");
    assert_eq!(result.warnings, 2);
    assert!(
        result
            .missing
            .contains(&"## Steps to Reproduce".to_string())
    );
    assert!(
        result
            .missing
            .contains(&"## Acceptance Criteria".to_string())
    );
    assert!(result.suggestions.iter().any(|suggestion| {
        suggestion.section == "## Steps to Reproduce"
            && suggestion.hint == "Describe how to reproduce the bug"
    }));
    assert!(result.suggestions.iter().any(|suggestion| {
        suggestion.section == "## Acceptance Criteria"
            && suggestion.hint == "Define criteria to verify the fix"
    }));
}

#[test]
fn test_required_sections_present_case_insensitive() {
    let description = "## steps to reproduce\n- foo\n# acceptance criteria\n- bar";
    let issue = make_issue(IssueType::Bug, Some(description));
    assert!(lint_issue(&issue).is_none());
}

#[test]
fn lint_issues_with_storage_matches_full_hydration_results() {
    let mut missing = make_issue(IssueType::Task, Some("Needs a real section"));
    missing.id = "bd-lint-missing".to_string();
    missing.title = "Lint missing section".to_string();
    let projected = missing.copy();
    missing.design = Some("unused design".repeat(512));
    missing.acceptance_criteria = Some("unused criteria".repeat(512));
    missing.notes = Some("unused notes".repeat(512));
    missing.owner = Some("owner".to_string());

    let mut complete = make_issue(
        IssueType::Task,
        Some("## Acceptance Criteria\n- Already present"),
    );
    complete.id = "bd-lint-complete".to_string();
    complete.title = "Lint complete section".to_string();

    let full_summary = lint_issues(&vec![missing, complete.copy()]);
    let projected_summary = lint_issues(&vec![projected, complete]);
    assert_eq!(projected_summary.checked, full_summary.checked);
    assert_eq!(projected_summary.warnings, full_summary.warnings);
    assert_eq!(
        format!("{:?}", projected_summary.results),
        format!("{:?}", full_summary.results)
    );
}

#[test]
fn fetch_issues_in_resolved_order_preserves_duplicate_ids() {
    let stored = vec![make_issue(IssueType::Bug, Some("Bug report"))];
    let duplicate_ids = vec!["bd-123".to_string(), "bd-123".to_string()];
    let issues =
        fetch_issues_in_resolved_order(&stored, &duplicate_ids).expect("duplicate lookup");

    assert_eq!(issues.len(), 2);
    assert_eq!(issues[0].id, "bd-123");
    assert_eq!(issues[1].id, "bd-123");
    let err = fetch_issues_in_resolved_order(&stored, &vec!["bd-9".to_string()]).unwrap_err();
    assert_eq!(err.detail(), "Issue not found: bd-9");
}

#[test]
fn test_exit_code_behavior() {
    let issue = make_issue(IssueType::Task, Some("No criteria"));
    let summary = lint_issues(&vec![issue]);
    assert_eq!(summary.exit_code(true), 0);
    assert_eq!(summary.exit_code(false), 1);
}

#[test]
fn the_process_ends_only_for_humans() {
    let faulty = lint_issues(&vec![make_issue(IssueType::Epic, None)]);
    let clean = lint_issues(&vec![make_issue(IssueType::Chore, None)]);
    assert_eq!(faulty.exit_after(OutputMode::Json), None);
    assert_eq!(faulty.exit_after(OutputMode::Quiet), Some(1));
    assert_eq!(faulty.exit_after(OutputMode::Plain), Some(1));
    assert_eq!(clean.exit_after(OutputMode::Plain), None);
    assert_eq!(clean.exit_after(OutputMode::Rich), Some(0));
    assert_eq!(clean.results.len(), 0);
}

#[test]
fn headings_lose_their_marks() {
    assert_eq!(strip_heading_prefix("  ## Steps  "), "Steps");
    assert_eq!(strip_heading_prefix("# Steps"), "Steps");
    assert_eq!(strip_heading_prefix("### Steps"), "### Steps");
    assert_eq!(strip_heading_prefix("Steps"), "Steps");
    assert_eq!(required_sections(&IssueType::Question).len(), 0);
    let sections = required_sections(&IssueType::Feature);
    assert_eq!(missing_sections("ACCEPTANCE CRITERIA", &sections).len(), 0);
    assert_eq!(missing_sections("", &sections)[0].heading, "## Acceptance Criteria");
}

fn asked(name: Option<&str>) -> Option<AskedType> {
    name.map(|name| AskedType { name: name.to_string(), parsed: Ok(IssueType::parse(name)) })
}

fn filters_of(type_: Option<&str>, status: Option<&str>) -> Result<ListFilters, BeadsError> {
    let status = status.map(str::to_string);
    let parsed = Ok(Status::parse(&asked_status(&status)));
    build_filters(asked(type_), &status, parsed)
}

#[test]
fn filters_follow_type_and_status() {
    let filters = filters_of(None, None).unwrap();
    assert!(filters.types.is_none());
    assert_eq!(filters.statuses, Some(vec![Status::Open]));
    assert!(!filters.include_closed && !filters.include_deferred && !filters.include_templates);
    let filters = filters_of(Some("bug"), Some(" ALL ")).unwrap();
    assert!(matches!(filters.types.as_deref(), Some([IssueType::Bug])));
    assert_eq!(filters.statuses, None);
    assert!(filters.include_closed && filters.include_deferred);
    let filters = filters_of(None, Some("closed")).unwrap();
    assert_eq!(filters.statuses, Some(vec![Status::Closed]));
    assert!(filters.include_closed && !filters.include_deferred);
    let filters = filters_of(None, Some("deferred")).unwrap();
    assert!(filters.include_deferred && !filters.include_closed);
    let filters = filters_of(None, Some("  ")).unwrap();
    assert_eq!(filters.statuses, None);
    assert!(!filters.include_closed);
    let filters = filters_of(None, Some("parked")).unwrap();
    assert_eq!(filters.statuses, Some(vec![Status::Custom("parked".to_string())]));
    let err = filters_of(Some("saga"), None).unwrap_err();
    assert!(matches!(err, BeadsError::InvalidType { .. }));
    assert_eq!(err.detail(), "Invalid issue type: saga");
    let refused = || BeadsError::Config("unknown".to_string());
    let asked = AskedType { name: "x".to_string(), parsed: Err(refused()) };
    let err = build_filters(Some(asked), &None, Ok(Status::Open)).unwrap_err();
    assert_eq!(err.detail(), "unknown");
    let err = build_filters(None, &some("odd"), Err(refused())).unwrap_err();
    assert_eq!(err.detail(), "unknown");
    assert!(build_filters(None, &some("all"), Err(refused())).is_ok());
    assert!(build_filters(None, &some(""), Err(refused())).is_ok());
    assert_eq!(asked_status(&None), "open");
    assert_eq!(asked_status(&some(" closed ")), "closed");
}

#[test]
fn ids_are_resolved_before_they_are_looked_at() {
    let ids = vec!["bd-1".to_string()];
    let open = || Ok(Status::Open);
    assert!(matches!(execute(&ids, None, &None, open()).unwrap(), LintPlan::Resolve));
    assert!(matches!(execute(&Vec::new(), None, &None, open()).unwrap(), LintPlan::Scan { .. }));
    assert!(execute(&Vec::new(), asked(Some("saga")), &None, open()).is_err());
    assert!(execute_with_storage_ctx(&ids, None, &None, open()).unwrap().is_none());
    assert!(execute_with_storage_ctx(&Vec::new(), None, &None, open()).unwrap().is_some());
    let mut later = make_issue(IssueType::Bug, None);
    later.title = "later".to_string();
    let answers = vec![
        ("a".to_string(), make_issue(IssueType::Bug, None)),
        ("a".to_string(), later),
    ];
    let issues = resolve_issues(&vec!["a".to_string()], &answers).unwrap();
    assert_eq!(issues[0].title, "later");
    assert!(resolve_issues(&vec!["b".to_string()], &answers).is_err());
}

#[test]
fn summaries_are_rendered() {
    let mut task = make_issue(IssueType::Task, None);
    task.id = "bd-t".to_string();
    task.title = "T\x07".to_string();
    let bug = make_issue(IssueType::Bug, Some("acceptance criteria"));
    let summary = lint_issues(&vec![task, bug]);
    assert_eq!(summary.warnings, 2);
    assert_eq!(
        render_lint_plain(&summary),
        "Template warnings (2 issues, 2 warnings):\n\n\
         bd-t [task]: T\\u{7}\n  ⚠ Missing: ## Acceptance Criteria - Define criteria to verify completion\n\n\
         bd-123 [bug]: Sample\n  ⚠ Missing: ## Steps to Reproduce - Describe how to reproduce the bug\n\n"
    );
    let spans = render_lint_rich(&summary);
    assert_eq!(
        plain(&spans),
        "Template Lint\n\nChecked: 2    Warnings: 2\n\n\
         bug (1)\n- bd-123 [bug] Sample\n    missing: ## Steps to Reproduce - Describe how to reproduce the bug\n\n\
         task (1)\n- bd-t [task] T\\u{7}\n    missing: ## Acceptance Criteria - Define criteria to verify completion\n\n\
         Tip: Add the missing sections to issue descriptions to clear warnings.\n"
    );
    let clean = lint_issues(&Vec::new());
    assert_eq!(render_lint_plain(&clean), "✓ No template warnings found (0 issues checked)\n");
    assert_eq!(
        plain(&render_lint_rich(&clean)),
        "Template Lint\n\nChecked: 0    Warnings: 0\n\n✓ No template warnings found (0 issues checked)"
    );
    assert_eq!(issue_type_style("docs"), Role::TypeDocs);
    assert_eq!(issue_type_style("saga"), Role::Dimmed);
}
