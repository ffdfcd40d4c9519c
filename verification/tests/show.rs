use beads_commands::error::BeadsError;
use beads_commands::model::{
    Comment, Dependency, DependencyType, Issue, IssueType, Priority, Status, Timestamp, CRITICAL,
    HIGH, MEDIUM,
};
use beads_commands::routing::reorder_routed_items_by_requested_inputs;
use beads_commands::show::{
    attach_inherited_context, context_place, execute, execute_with_storage,
    execute_with_storage_ctx, front_text, inheritance_source, load_issue_details_for_route, local_rendering, requested_target_ids,
    routed_rendering, show_issues, take_new_blocks, ContextPlace, DetailsSource, InheritanceSource, Opened,
    OutputFormat, OutputMode, Rendering, RouteBatch, ShowPlan, ShowRequest,
};
use beads_commands::show_external::{
    answers_search, apply_external_dependency_metadata, apply_external_statuses,
    collect_external_dependency_ids, details_query, direct_jsonl_target_ids,
    fail_if_jsonl_contains_missing_database_id, find_ids_by_hash_in_memory,
    format_external_dependency_title, issue_details_have_external_dependencies,
    load_exact_issue_details_from_jsonl, load_issue_details_from_jsonl,
    load_issue_details_from_jsonl_materialized, load_issue_details_from_storage,
    parse_external_dep_id, read_issues_from_jsonl, JsonlResolution, KnownId,
    StorageLookup,
};
use beads_commands::show_jsonl::{
    build_issue_details_from_exact_jsonl_index, build_issue_details_from_jsonl,
    estimated_jsonl_show_capacity, find_issue_in, latest_issues, scan_exact_jsonl_show_index,
    InheritedBlock, IssueDetails, IssueWithDependencyMetadata, JsonlLine, Rollup,
    MAX_EXACT_JSONL_SHOW_INITIAL_CAPACITY,
};
use beads_commands::show_render::{format_issue_details, ShownLabels};
use beads_commands::wrap::{compact_wrap_width, parse_number, wrap_body};

const JAN_1: i64 = 1_735_689_600;
const JAN_2_0304: i64 = 1_735_787_040;

fn at(seconds: i64) -> Timestamp {
    Timestamp { seconds, nanos: 0 }
}

fn make_test_issue(id: &str, title: &str) -> Issue {
    Issue {
        id: id.to_string(),
        content_hash: None,
        title: title.to_string(),
        description: Some("Test description".to_string()),
        design: None,
        acceptance_criteria: None,
        notes: None,
        status: Status::Open,
        priority: Priority { level: MEDIUM },
        issue_type: IssueType::Task,
        assignee: None,
        owner: None,
        estimated_minutes: None,
        created_at: at(JAN_1),
        created_by: None,
        updated_at: at(JAN_1),
        closed_at: None,
        close_reason: None,
        closed_by_session: None,
        bypassed_policy: None,
        bypass_reason: None,
        policy_gates_fired: None,
        due_at: None,
        defer_until: None,
        external_ref: None,
        source_system: None,
        source_repo: None,
        source_repo_path: None,
        agent_context: None,
        deleted_at: None,
        deleted_by: None,
        delete_reason: None,
        original_type: None,
        compaction_level: None,
        compacted_at: None,
        compacted_at_commit: None,
        original_size: None,
        sender: None,
        ephemeral: false,
        pinned: false,
        is_template: false,
        labels: vec![],
        dependencies: vec![],
        comments: vec![],
    }
}

fn dependency(issue_id: &str, target: &str, dep_type: DependencyType) -> Dependency {
    Dependency {
        issue_id: issue_id.to_string(),
        depends_on_id: target.to_string(),
        dep_type,
        created_at: at(JAN_1 + 3600),
        created_by: Some("tester".to_string()),
        metadata: None,
        thread_id: None,
    }
}

fn details_of(issue: Issue) -> IssueDetails {
    IssueDetails {
        issue,
        labels: Vec::new(),
        dependencies: Vec::new(),
        dependents: Vec::new(),
        comments: Vec::new(),
        parent: None,
        rollup: None,
        inherited_context: Vec::new(),
    }
}

fn metadata(id: &str, title: &str, dep_type: &str) -> IssueWithDependencyMetadata {
    IssueWithDependencyMetadata {
        id: id.to_string(),
        title: title.to_string(),
        status: Status::Open,
        priority: Priority { level: MEDIUM },
        dep_type: dep_type.to_string(),
    }
}

fn labels() -> ShownLabels {
    ShownLabels {
        status_icon: "○".to_string(),
        priority: "P2".to_string(),
        status: "open".to_string(),
        issue_type: "task".to_string(),
    }
}

fn resolved(ids: &[&str]) -> Vec<Result<String, BeadsError>> {
    ids.iter().map(|id| Ok(id.to_string())).collect()
}

fn strings(values: &[&str]) -> Vec<String> {
    values.iter().map(|v| v.to_string()).collect()
}

#[test]
fn test_show_retrieves_issue_by_id() {
    let issues = vec![make_test_issue("bd-001", "Test Issue")];
    let retrieved = find_issue_in(&issues, "bd-001");
    assert!(retrieved.is_some());
    let retrieved = retrieved.unwrap();
    assert_eq!(retrieved.id, "bd-001");
    assert_eq!(retrieved.title, "Test Issue");
}

#[test]
fn test_show_returns_none_for_missing_id() {
    let issues: Vec<Issue> = Vec::new();
    let retrieved = find_issue_in(&issues, "nonexistent");
    assert!(retrieved.is_none());
}

#[test]
fn test_show_multiple_issues() {
    let issues = vec![
        make_test_issue("bd-001", "First Issue"),
        make_test_issue("bd-002", "Second Issue"),
    ];
    assert_eq!(find_issue_in(&issues, "bd-001").unwrap().title, "First Issue");
    assert_eq!(find_issue_in(&issues, "bd-002").unwrap().title, "Second Issue");
}

#[test]
fn test_show_text_includes_dependencies_and_comments() {
    let mut issue = make_test_issue("bd-001", "Test Issue");
    issue.description = None;
    let mut details = details_of(issue);
    details.dependencies = vec![metadata("bd-002", "Dep", "blocks")];
    details.comments = vec![Comment {
        id: 1,
        issue_id: "bd-001".to_string(),
        author: "alice".to_string(),
        body: "Looks good".to_string(),
        created_at: at(JAN_2_0304),
    }];
    let output = format_issue_details(&details, &labels(), None, None, false);
    assert!(output.contains("Dependencies:"));
    assert!(output.contains("-> bd-002 (blocks) - Dep"));
    assert!(output.contains("Comments:"));
    assert!(output.contains("alice: Looks good"));
    assert_eq!(
        output,
        "○ bd-001 · Test Issue   [● P2 · OPEN]\n\
         Owner: unknown · Type: task\n\
         Created: 2025-01-01 · Updated: 2025-01-01\n\
         \n\
         Dependencies:\n\
         \u{20} -> bd-002 (blocks) - Dep\n\
         \n\
         Comments:\n\
         \u{20} [2025-01-02 03:04 UTC] alice: Looks good\n"
    );
}

#[test]
fn test_show_text_sanitizes_ids_and_dependency_types() {
    let mut issue = make_test_issue("bd-001\x1b]52;c;bad\x07", "Test Issue");
    issue.description = None;
    let mut details = details_of(issue);
    details.dependencies = vec![metadata("bd-002\x1b[2J", "Dep\x07", "blocks\x1b[31m")];
    details.dependents = vec![metadata("bd-003", "Dependent", "waits-for\x07")];

    let output = format_issue_details(&details, &labels(), None, None, false);

    assert!(!output.contains('\x1b'));
    assert!(!output.contains('\x07'));
    assert!(output.contains("bd-001\\u{1b}]52;c;bad\\u{7}"));
    assert!(output.contains("bd-002\\u{1b}[2J"));
    assert!(output.contains("(blocks\\u{1b}[31m)"));
    assert!(output.contains("(waits-for\\u{7})"));
    assert!(output.contains("Dep\\u{7}"));
}

#[test]
fn show_text_has_every_section() {
    let mut issue = make_test_issue("bd-9", "All of it");
    issue.owner = Some("olga".to_string());
    issue.assignee = Some("amir".to_string());
    issue.external_ref = Some("GH-7".to_string());
    issue.due_at = Some(at(JAN_1 + 86_400));
    issue.defer_until = Some(at(JAN_1 + 2 * 86_400));
    issue.estimated_minutes = Some(90);
    issue.closed_at = Some(at(JAN_1 + 3 * 86_400));
    issue.close_reason = Some("done".to_string());
    issue.design = Some("A design".to_string());
    issue.acceptance_criteria = Some("It works".to_string());
    issue.notes = Some("A note".to_string());
    let mut details = details_of(issue);
    details.labels = strings(&["ops", "backend"]);
    details.rollup = Some(Rollup {
        status: "in_progress".to_string(),
        descendants: vec![("open".to_string(), 2), ("closed".to_string(), 1)],
    });
    details.dependents = vec![metadata("bd-10", "Later", "blocks")];
    let output = format_issue_details(&details, &labels(), Some("someone"), Some("80"), true);
    assert_eq!(
        output,
        "○ bd-9 · All of it   [● P2 · OPEN]\n\
         Owner: olga · Type: task\n\
         Created: 2025-01-01 · Updated: 2025-01-01\n\
         Assignee: amir\n\
         Labels: ops, backend\n\
         Ref: GH-7\n\
         Due: 2025-01-02\n\
         Deferred until: 2025-01-03\n\
         Estimate: 1h 30m\n\
         Closed: 2025-01-04 (done)\n\
         Rollup: in_progress (2 open, 1 closed)\n\
         \n\
         Test description\n\
         \n\
         Design:\n\
         A design\n\
         \n\
         Acceptance Criteria:\n\
         It works\n\
         \n\
         Notes:\n\
         A note\n\
         \n\
         Dependents:\n\
         \u{20} <- bd-10 (blocks) - Later\n"
    );
}

#[test]
fn estimates_and_owner_have_their_forms() {
    for (minutes, line) in [(45, "Estimate: 45m\n"), (120, "Estimate: 2h\n"), (61, "Estimate: 1h 1m\n")] {
        let mut issue = make_test_issue("bd-1", "t");
        issue.estimated_minutes = Some(minutes);
        let output = format_issue_details(&details_of(issue), &labels(), None, None, false);
        assert!(output.contains(line), "{output}");
    }
    let mut issue = make_test_issue("bd-1", "t");
    issue.estimated_minutes = Some(0);
    issue.external_ref = Some(String::new());
    issue.closed_at = Some(at(JAN_1));
    let output = format_issue_details(&details_of(issue), &labels(), Some("me"), None, false);
    assert!(!output.contains("Estimate"));
    assert!(!output.contains("Ref:"));
    assert!(output.contains("Owner: me · "));
    assert!(output.contains("Closed: 2025-01-01 (closed)\n"));
}

#[test]
fn test_apply_external_dependency_metadata_updates_generated_placeholder() {
    let mut dependencies = vec![IssueWithDependencyMetadata {
        id: "external:proj:cap".to_string(),
        title: "proj:cap".to_string(),
        status: Status::Blocked,
        priority: Priority { level: MEDIUM },
        dep_type: "blocks".to_string(),
    }];
    let statuses = vec![("external:proj:cap".to_string(), true)];

    apply_external_dependency_metadata(&mut dependencies, &statuses);

    assert_eq!(dependencies[0].status, Status::Closed);
    assert_eq!(dependencies[0].title, "✓ proj:cap");
}

#[test]
fn external_metadata_settles_and_leaves_others_alone() {
    let mut items = vec![
        metadata("external:proj:cap", "", "blocks"),
        metadata("external:proj:cap", "Written by hand", "blocks"),
        metadata("external:odd", "odd", "blocks"),
        metadata("bd-1", "", "blocks"),
    ];
    let statuses: Vec<(String, bool)> = Vec::new();
    apply_external_dependency_metadata(&mut items, &statuses);
    let titles: Vec<String> = items.iter().map(|i| i.title.clone()).collect();
    assert_eq!(titles, vec!["⏳ proj:cap", "Written by hand", "⏳ external:odd", ""]);
    assert_eq!(items[0].status, Status::Blocked);
    assert_eq!(items[3].status, Status::Open);
    apply_external_dependency_metadata(&mut items, &statuses);
    let again: Vec<String> = items.iter().map(|i| i.title.clone()).collect();
    assert_eq!(titles, again);
}

#[test]
fn external_ids_are_parsed_and_titled() {
    assert_eq!(
        parse_external_dep_id("external:proj:cap:more"),
        Some(("proj".to_string(), "cap:more".to_string()))
    );
    assert_eq!(parse_external_dep_id("external:proj:"), None);
    assert_eq!(parse_external_dep_id("external::cap"), None);
    assert_eq!(parse_external_dep_id("external:proj"), None);
    assert_eq!(parse_external_dep_id("other:proj:cap"), None);
    assert_eq!(format_external_dependency_title("external:p:c", false), "⏳ p:c");
    assert_eq!(format_external_dependency_title("external:p", true), "✓ external:p");
}

#[test]
fn external_dependencies_are_collected_once() {
    let mut a = details_of(make_test_issue("bd-1", "a"));
    a.dependencies = vec![metadata("external:p:c", "x", "blocks"), metadata("bd-2", "y", "blocks")];
    let mut b = details_of(make_test_issue("bd-2", "b"));
    b.dependents = vec![metadata("external:p:c", "x", "blocks"), metadata("external:q:d", "z", "blocks")];
    let c = details_of(make_test_issue("bd-3", "c"));
    assert!(issue_details_have_external_dependencies(&a));
    assert!(issue_details_have_external_dependencies(&b));
    assert!(!issue_details_have_external_dependencies(&c));
    let list = vec![a, b, c];
    let mut ids = collect_external_dependency_ids(&list);
    ids.sort();
    assert_eq!(ids, strings(&["external:p:c", "external:q:d"]));
    let shown = apply_external_statuses(list, &vec![("external:q:d".to_string(), true)]);
    assert_eq!(shown[1].dependents[1].status, Status::Closed);
    assert_eq!(shown[0].dependencies[0].status, Status::Blocked);
    assert_eq!(shown[0].dependencies[1].status, Status::Open);
}

#[test]
fn test_build_issue_details_from_jsonl_derives_parent_and_dependents() {
    let mut parent = make_test_issue("bd-parent", "Parent");
    parent.priority = Priority { level: HIGH };

    let mut child = make_test_issue("bd-child", "Child");
    child.labels = vec!["backend".to_string()];
    child.comments = vec![Comment {
        id: 7,
        issue_id: "bd-child".to_string(),
        author: "alice".to_string(),
        body: "Investigating".to_string(),
        created_at: at(JAN_2_0304),
    }];
    child.dependencies = vec![dependency("bd-child", "bd-parent", DependencyType::ParentChild)];

    let issues = vec![parent.copy(), child.copy()];

    let child_details = build_issue_details_from_jsonl(&child, &issues);
    assert_eq!(child_details.parent.as_deref(), Some("bd-parent"));
    assert_eq!(child_details.labels, vec!["backend".to_string()]);
    assert_eq!(child_details.comments.len(), 1);
    assert!(child_details.issue.labels.is_empty());
    assert!(child_details.issue.dependencies.is_empty());
    assert!(child_details.issue.comments.is_empty());

    let parent_details = build_issue_details_from_jsonl(&parent, &issues);
    assert_eq!(parent_details.dependents.len(), 1);
    assert_eq!(parent_details.dependents[0].id, "bd-child");
    assert_eq!(parent_details.dependents[0].dep_type, "parent-child");
}

#[test]
fn test_build_issue_details_from_jsonl_preserves_missing_dependency_placeholder() {
    let mut issue = make_test_issue("bd-root", "Root");
    issue.dependencies = vec![dependency("bd-root", "bd-missing", DependencyType::Blocks)];
    let issues = vec![issue.copy()];
    let details = build_issue_details_from_jsonl(&issue, &issues);

    assert_eq!(details.dependencies.len(), 1);
    assert_eq!(details.dependencies[0].id, "bd-missing");
    assert_eq!(details.dependencies[0].title, "[missing issue: bd-missing]");
    assert_eq!(details.dependencies[0].status, Status::Tombstone);
    assert_eq!(details.dependencies[0].priority, Priority { level: MEDIUM });
}

#[test]
fn dependencies_are_sorted_and_external_ones_have_placeholders() {
    let mut urgent = make_test_issue("bd-u", "Urgent");
    urgent.priority = Priority { level: CRITICAL };
    let mut newer = make_test_issue("bd-z", "Newer");
    newer.created_at = at(JAN_1 + 10);
    let older = make_test_issue("bd-a", "Older");
    let mut root = make_test_issue("bd-root", "Root");
    root.dependencies = vec![
        dependency("bd-root", "bd-a", DependencyType::Blocks),
        dependency("bd-root", "external:p:c", DependencyType::Blocks),
        dependency("bd-root", "bd-z", DependencyType::Related),
        dependency("bd-root", "bd-u", DependencyType::Custom("waits-for".to_string())),
    ];
    let issues = vec![root.copy(), older, newer, urgent];
    let details = build_issue_details_from_jsonl(&root, &issues);
    let ids: Vec<&str> = details.dependencies.iter().map(|d| d.id.as_str()).collect();
    assert_eq!(ids, vec!["bd-u", "external:p:c", "bd-z", "bd-a"]);
    assert_eq!(details.dependencies[0].dep_type, "waits-for");
    assert_eq!(details.dependencies[1].title, "p:c");
    assert_eq!(details.dependencies[1].status, Status::Blocked);
    assert_eq!(details.parent, None);
}

fn assert_same_details(a: &IssueDetails, b: &IssueDetails) {
    assert_eq!(format!("{a:?}"), format!("{b:?}"));
}

#[test]
fn test_load_issue_details_from_jsonl_exact_streaming_matches_materialized() {
    let mut dep = make_test_issue("bd-dep01", "Dependency");
    dep.priority = Priority { level: HIGH };
    let mut target = make_test_issue("bd-target", "Target");
    target.dependencies.push(dependency("bd-target", "bd-dep01", DependencyType::Blocks));
    let mut dependent = make_test_issue("bd-dependent", "Dependent");
    dependent.priority = Priority { level: CRITICAL };
    dependent.dependencies.push(dependency("bd-dependent", "bd-target", DependencyType::Related));

    let issues = vec![dep.copy(), target.copy(), dependent.copy()];
    let expected = build_issue_details_from_jsonl(&target, &issues);

    let lines = vec![
        JsonlLine::Issue { issue: dep },
        JsonlLine::Issue { issue: target.copy() },
        JsonlLine::Issue { issue: dependent },
    ];
    let actual = load_exact_issue_details_from_jsonl(&strings(&["bd-target"]), "bd", lines, "issues.jsonl")
        .unwrap()
        .unwrap();
    assert_eq!(actual.len(), 1);
    assert_same_details(&actual[0], &expected);

    let materialized =
        load_issue_details_from_jsonl_materialized(resolved(&["bd-target"]), &issues).unwrap();
    assert_same_details(&materialized[0], &expected);

    let lines = issues.into_iter().map(|issue| JsonlLine::Issue { issue }).collect();
    let actual = load_issue_details_from_jsonl(
        &strings(&["bd-target"]),
        "bd",
        lines,
        "issues.jsonl",
        resolved(&["bd-target"]),
    )
    .unwrap();
    assert_eq!(actual.len(), 1);
    assert_same_details(&actual[0], &expected);
}

#[test]
fn a_scan_reports_bad_lines_and_duplicates() {
    let lines = vec![
        JsonlLine::Blank,
        JsonlLine::Invalid { error: "EOF while parsing".to_string() },
    ];
    let err = scan_exact_jsonl_show_index(lines, &strings(&["bd-1"]), "x.jsonl").unwrap_err();
    assert_eq!(err.detail(), "Invalid JSON at line 2: EOF while parsing");
    let lines = vec![
        JsonlLine::Issue { issue: make_test_issue("bd-1", "a") },
        JsonlLine::Issue { issue: make_test_issue("bd-1", "b") },
    ];
    let err = scan_exact_jsonl_show_index(lines, &strings(&["bd-1"]), "x.jsonl").unwrap_err();
    assert!(matches!(err, BeadsError::Config(_)));
    assert_eq!(err.detail(), "Duplicate issue id 'bd-1' in x.jsonl at line 2");
    let lines = vec![JsonlLine::Issue { issue: make_test_issue("bd-1", "a") }];
    let index = scan_exact_jsonl_show_index(lines, &strings(&["bd-2"]), "x.jsonl").unwrap();
    assert_eq!(index.summaries.len(), 1);
    let err = build_issue_details_from_exact_jsonl_index("bd-2", &index).unwrap_err();
    assert!(matches!(err, BeadsError::IssueNotFound { .. }));
}

#[test]
fn literal_ids_are_lowered_and_prefixed() {
    assert_eq!(
        direct_jsonl_target_ids(&strings(&[" BD-Abc ", "xyz"]), "bd"),
        Some(strings(&["bd-abc", "bd-xyz"]))
    );
    assert_eq!(direct_jsonl_target_ids(&strings(&["bd-1", "  "]), "bd"), None);
    let lines = vec![JsonlLine::Issue { issue: make_test_issue("bd-1", "a") }];
    let found = load_exact_issue_details_from_jsonl(&strings(&["bd-2"]), "bd", lines, "x").unwrap();
    assert!(found.is_none());
}

#[test]
fn hashes_are_searched_with_their_children() {
    assert!(answers_search("64up6.4", "64up6.4"));
    assert!(answers_search("64up6.4", "4up"));
    assert!(!answers_search("64up6.4", "64up6.5"));
    assert!(!answers_search("64up6", "64up6.4"));
    let known = vec![
        KnownId { id: "bd-64up6.4".to_string(), remainder: Some("64up6.4".to_string()) },
        KnownId { id: "bd-64up6".to_string(), remainder: Some("64up6".to_string()) },
        KnownId { id: "odd".to_string(), remainder: None },
    ];
    assert_eq!(find_ids_by_hash_in_memory(&known, "64up6.4"), strings(&["bd-64up6.4"]));
    assert_eq!(
        find_ids_by_hash_in_memory(&known, "up6"),
        strings(&["bd-64up6.4", "bd-64up6"])
    );
}

#[test]
fn an_issue_in_the_file_is_never_called_missing() {
    let resolved = vec![
        ("bd-9".to_string(), JsonlResolution::Absent),
        ("bd-1".to_string(), JsonlResolution::Resolved { id: "bd-1".to_string() }),
    ];
    let err = fail_if_jsonl_contains_missing_database_id(resolved).unwrap_err();
    assert!(matches!(err, BeadsError::SyncConflict { .. }));
    assert!(err.detail().starts_with("Database/JSONL divergence: issue bd-1 exists in JSONL but"));
    let ambiguous = vec![(
        "ab".to_string(),
        JsonlResolution::Ambiguous { matches: 3, error: BeadsError::Config("ambiguous".to_string()) },
    )];
    let err = fail_if_jsonl_contains_missing_database_id(ambiguous).unwrap_err();
    assert!(err.detail().starts_with("Database/JSONL divergence: \"ab\" matches 3 issue IDs in JSONL"));
    let none = vec![(
        "ab".to_string(),
        JsonlResolution::Ambiguous { matches: 0, error: BeadsError::Config("ambiguous".to_string()) },
    )];
    assert_eq!(fail_if_jsonl_contains_missing_database_id(none).unwrap_err().detail(), "ambiguous");
    let failed = vec![("ab".to_string(), JsonlResolution::Failed { error: BeadsError::Outside("io".to_string()) })];
    assert_eq!(fail_if_jsonl_contains_missing_database_id(failed).unwrap_err().detail(), "io");
    assert!(fail_if_jsonl_contains_missing_database_id(Vec::new()).is_ok());
}

#[test]
fn lookups_in_the_database_stop_at_the_first_failure() {
    let mut found = details_of(make_test_issue("bd-1", "a"));
    found.dependencies = vec![metadata("external:p:c", "", "blocks")];
    let statuses = vec![("external:p:c".to_string(), true)];
    let list =
        load_issue_details_from_storage(vec![StorageLookup::Found { details: found }], &statuses).unwrap();
    assert_eq!(list[0].dependencies[0].title, "✓ p:c");
    let err = load_issue_details_from_storage(
        vec![
            StorageLookup::Missing {
                id: "bd-2".to_string(),
                outcomes: vec![("bd-2".to_string(), JsonlResolution::Absent)],
            },
            StorageLookup::Failed { error: BeadsError::Outside("late".to_string()) },
        ],
        &statuses,
    )
    .unwrap_err();
    assert!(matches!(err, BeadsError::IssueNotFound { ref id } if id == "bd-2"));
    let err = load_issue_details_from_storage(
        vec![StorageLookup::Missing {
            id: "bd-2".to_string(),
            outcomes: vec![("2".to_string(), JsonlResolution::Resolved { id: "bd-2".to_string() })],
        }],
        &statuses,
    )
    .unwrap_err();
    assert!(matches!(err, BeadsError::SyncConflict { .. }));
}

#[test]
fn test_exact_jsonl_show_capacity_is_capped_for_sparse_or_huge_files() {
    assert_eq!(estimated_jsonl_show_capacity(0), 0);
    assert_eq!(estimated_jsonl_show_capacity(12_500), 25);
    assert_eq!(
        estimated_jsonl_show_capacity(u64::MAX),
        MAX_EXACT_JSONL_SHOW_INITIAL_CAPACITY
    );
}

#[test]
fn test_reorder_details_by_requested_inputs_restores_mixed_route_order() {
    let local_first = details_of(make_test_issue("bd-local-1", "Local first"));
    let local_last = details_of(make_test_issue("bd-local-2", "Local last"));
    let external_middle = details_of(make_test_issue("ext-middle", "External middle"));

    let ordered = reorder_routed_items_by_requested_inputs(
        &strings(&["bd-local-1", "ext-middle", "bd-local-2"]),
        vec![
            (strings(&["bd-local-1", "bd-local-2"]), vec![local_first, local_last]),
            (strings(&["ext-middle"]), vec![external_middle]),
        ],
        "show routing",
    )
    .unwrap();

    assert_eq!(ordered.len(), 3);
    assert_eq!(ordered[0].issue.id, "bd-local-1");
    assert_eq!(ordered[1].issue.id, "ext-middle");
    assert_eq!(ordered[2].issue.id, "bd-local-2");
}

#[test]
fn reordering_reports_what_does_not_fit() {
    let err = reorder_routed_items_by_requested_inputs(
        &strings(&["a"]),
        vec![(strings(&["a"]), Vec::<u8>::new())],
        "show routing",
    )
    .unwrap_err();
    assert_eq!(err.detail(), "show routing produced mismatched issue/result counts");
    let err = reorder_routed_items_by_requested_inputs(
        &strings(&["a"]),
        vec![(strings(&["b"]), vec![1u8])],
        "show routing",
    )
    .unwrap_err();
    assert_eq!(err.detail(), "show routing returned unexpected issue input b");
    let err = reorder_routed_items_by_requested_inputs(
        &strings(&["a", "b"]),
        vec![(strings(&["a"]), vec![1u8])],
        "show routing",
    )
    .unwrap_err();
    assert_eq!(err.detail(), "show routing did not produce a result for b");
    let twice = reorder_routed_items_by_requested_inputs(
        &strings(&["a", "b", "a"]),
        vec![(strings(&["a", "a"]), vec![1u8, 2]), (strings(&["b"]), vec![3])],
        "show routing",
    )
    .unwrap();
    assert_eq!(twice, vec![1, 3, 2]);
    let spread = reorder_routed_items_by_requested_inputs(
        &strings(&["a", "a", "b", "a"]),
        vec![(strings(&["a"]), vec![7u8]), (strings(&["b", "a", "a"]), vec![8, 9, 6])],
        "show routing",
    )
    .unwrap();
    assert_eq!(spread, vec![7, 9, 8, 6]);
}

#[test]
fn routed_structured_output_guard_excludes_text_and_csv() {
    let structured_formats = [OutputFormat::Json, OutputFormat::Toon];
    let text_formats = [OutputFormat::Text, OutputFormat::Csv];

    for fmt in &structured_formats {
        assert!(
            fmt.is_structured(),
            "{fmt:?} should pass the structured-output guard"
        );
    }
    for fmt in &text_formats {
        assert!(
            !fmt.is_structured(),
            "{fmt:?} should NOT pass the structured-output guard"
        );
    }
}

#[test]
fn targets_come_from_the_request_or_the_last_touched_issue() {
    assert_eq!(requested_target_ids(&strings(&["a", "b"]), "c").unwrap(), strings(&["a", "b"]));
    assert_eq!(requested_target_ids(&Vec::new(), "c").unwrap(), strings(&["c"]));
    let err = requested_target_ids(&Vec::new(), "").unwrap_err();
    assert_eq!(
        err.detail(),
        "Validation failed: ids: no issue IDs provided and no last-touched issue"
    );
}

fn batch(inputs: &[&str], dir: &str, is_external: bool) -> RouteBatch {
    RouteBatch { issue_inputs: strings(inputs), beads_dir: dir.to_string(), is_external }
}

#[test]
fn plans_are_local_unless_a_batch_is_external() {
    let request = ShowRequest { ids: strings(&["bd-1"]), format: OutputFormat::Json };
    let plan = execute(&request, "", "/a/.beads", vec![batch(&["bd-1"], "/a/.beads", false)]).unwrap();
    assert!(matches!(plan, ShowPlan::Local { opened: Opened::Nothing, .. }));
    let plan =
        execute_with_storage(&request, "", "/a/.beads", vec![batch(&["bd-1"], "/a/.beads", false)]).unwrap();
    assert!(matches!(plan, ShowPlan::Local { opened: Opened::Storage, .. }));
    let plan = execute_with_storage_ctx(
        &request,
        "",
        "/a/.beads",
        vec![batch(&["bd-1"], "/a/.beads", false), batch(&["x-2"], "/b/.beads", true)],
    )
    .unwrap();
    match plan {
        ShowPlan::Routed { target_ids, structured, batches } => {
            assert_eq!(target_ids, strings(&["bd-1"]));
            assert!(structured);
            assert_eq!(batches[0].opened, Opened::Context);
            assert!(!batches[0].under_lock);
            assert_eq!(batches[1].opened, Opened::Nothing);
            assert!(batches[1].under_lock);
        }
        other => panic!("{other:?}"),
    }
    let none = ShowRequest { ids: Vec::new(), format: OutputFormat::Text };
    assert!(execute(&none, "", "/a/.beads", Vec::new()).is_err());
}

#[test]
fn renderings_follow_mode_and_format() {
    assert_eq!(local_rendering(OutputMode::Quiet, OutputFormat::Json), Rendering::Nothing);
    assert_eq!(local_rendering(OutputMode::Json, OutputFormat::Json), Rendering::JsonArray);
    assert_eq!(local_rendering(OutputMode::Rich, OutputFormat::Text), Rendering::Panels);
    assert_eq!(local_rendering(OutputMode::Plain, OutputFormat::Csv), Rendering::Plain);
    assert_eq!(routed_rendering(OutputMode::Plain, OutputFormat::Toon, true), Rendering::Toon);
    assert_eq!(routed_rendering(OutputMode::Plain, OutputFormat::Text, true), Rendering::Nothing);
    assert_eq!(inheritance_source(false, Opened::Nothing), InheritanceSource::Off);
    assert_eq!(inheritance_source(true, Opened::Nothing), InheritanceSource::Transient);
    assert_eq!(inheritance_source(true, Opened::Context), InheritanceSource::Caller);
    assert_eq!(load_issue_details_for_route(Opened::Context, true), DetailsSource::CallerContext);
    assert_eq!(load_issue_details_for_route(Opened::Storage, true), DetailsSource::IssuesFile);
    assert_eq!(load_issue_details_for_route(Opened::Storage, false), DetailsSource::CallerStorage);
    assert_eq!(load_issue_details_for_route(Opened::Nothing, false), DetailsSource::OwnStorage);
}

fn block(source: &str) -> InheritedBlock {
    InheritedBlock { source_id: source.to_string(), text: "t".to_string() }
}

#[test]
fn inherited_sources_are_shown_once() {
    let mut shown: Vec<String> = Vec::new();
    let first = take_new_blocks(&mut shown, vec![block("e1"), block("e2"), block("e1")]);
    assert_eq!(first.len(), 2);
    let second = take_new_blocks(&mut shown, vec![block("e2"), block("e3")]);
    assert_eq!(second.len(), 1);
    assert_eq!(second[0].source_id, "e3");
    assert_eq!(shown, strings(&["e1", "e2", "e3"]));
    let list = attach_inherited_context(
        vec![details_of(make_test_issue("a", "a")), details_of(make_test_issue("b", "b"))],
        vec![Some(vec![block("e1")]), None],
    );
    assert_eq!(list[0].inherited_context.len(), 1);
    assert!(list[1].inherited_context.is_empty());
}

#[test]
fn issues_are_shown_one_after_the_other() {
    let text = show_issues(
        &vec![Some("context".to_string()), None, Some("more\n".to_string())],
        &strings(&["one\n", "two\n", "three\n"]),
    );
    assert_eq!(text, "context\none\n\ntwo\n\nmore\nthree\n");
}

#[test]
fn text_is_wrapped_on_word_boundaries() {
    assert_eq!(wrap_body("aaa bbb ccc", 7), "aaa bbb\nccc");
    assert_eq!(wrap_body("  aaa bbb ccc", 9), "  aaa bbb\n  ccc");
    assert_eq!(wrap_body("abcdefghij kl", 4), "abcdefghij\nkl");
    assert_eq!(wrap_body("one\ntwo three", 100), "one\ntwo three");
    assert_eq!(wrap_body("日本 語語 x", 5), "日本\n語語\nx");
    let long = "many words that go on and on ".repeat(20);
    assert_eq!(wrap_body(&long, usize::MAX), long);
    let wrapped = wrap_body(&long, 30);
    let ink = |s: &str| s.chars().filter(|c| !c.is_whitespace()).collect::<String>();
    assert_eq!(ink(&wrapped), ink(&long));
    assert!(wrapped.lines().count() > 10);
}

#[test]
fn wrap_width_honours_sane_settings() {
    assert_eq!(compact_wrap_width(None), 100);
    assert_eq!(compact_wrap_width(Some(" 72 ")), 72);
    assert_eq!(compact_wrap_width(Some("19")), 100);
    assert_eq!(compact_wrap_width(Some("wide")), 100);
    assert_eq!(parse_number("+5"), Some(5));
    for text in ["", "+", "-1", "1x", "18446744073709551615", "18446744073709551616", "007"] {
        assert_eq!(parse_number(text), text.parse::<usize>().ok(), "{text}");
    }
}

#[test]
fn the_last_issue_of_an_id_counts() {
    let issues = vec![
        make_test_issue("bd-1", "old"),
        make_test_issue("bd-2", "other"),
        make_test_issue("bd-1", "new"),
    ];
    assert_eq!(find_issue_in(&issues, "bd-1").unwrap().title, "new");
    let kept = latest_issues(&issues);
    let titles: Vec<&str> = kept.iter().map(|issue| issue.title.as_str()).collect();
    assert_eq!(titles, vec!["other", "new"]);
    let details = load_issue_details_from_jsonl_materialized(resolved(&["bd-1"]), &issues).unwrap();
    assert_eq!(details[0].issue.title, "new");
}

#[test]
fn details_keep_their_rollup_and_context() {
    let with_rollup = || {
        let mut details = details_of(make_test_issue("bd-1", "a"));
        details.dependencies = vec![metadata("external:p:c", "", "blocks")];
        details.rollup =
            Some(Rollup { status: "active".to_string(), descendants: vec![("open".to_string(), 2)] });
        details
    };
    let statuses = vec![("external:p:c".to_string(), true)];
    let lookups = vec![StorageLookup::Found { details: with_rollup() }];
    let loaded = load_issue_details_from_storage(lookups, &statuses).unwrap();
    let applied = apply_external_statuses(vec![with_rollup()], &statuses);
    for details in [&loaded[0], &applied[0]] {
        let rollup = details.rollup.as_ref().unwrap();
        assert_eq!(rollup.status, "active");
        assert_eq!(rollup.descendants, vec![("open".to_string(), 2)]);
        assert_eq!(details.dependencies[0].title, "✓ p:c");
        assert!(details.inherited_context.is_empty());
    }
}

#[test]
fn wrapped_text_fits_and_stays() {
    let texts = [
        "many words that go on and on, and a verylongwordthatfitsnowhere  here",
        "    indented text with words\n\n  x  y   z\nshort",
        "          deep indent here",
        "   ",
        "",
    ];
    for text in texts {
        for width in 1..40 {
            let out = wrap_body(text, width);
            for line in out.split('\n') {
                let fits = line.len() <= width;
                assert!(fits || !line.trim().contains(' '), "{line:?} at {width}");
            }
            assert_eq!(wrap_body(&out, width), out);
        }
    }
    assert_eq!(wrap_body("short line\n  and  one", 10), "short line\n  and  one");
}

#[test]
fn full_ids_are_found_however_they_are_written() {
    let lines = || {
        vec![
            JsonlLine::Issue { issue: make_test_issue("BD-One", "upper") },
            JsonlLine::Blank,
            JsonlLine::Issue { issue: make_test_issue("bd-two", "lower") },
        ]
    };
    let load = |ids: &[&str], resolutions| {
        load_issue_details_from_jsonl(&strings(ids), "bd", lines(), "x.jsonl", resolutions)
    };
    let titles = |list: Vec<IssueDetails>| {
        list.into_iter().map(|d| d.issue.title).collect::<Vec<_>>()
    };
    let found = load(&["BD-One", "bd-two"], resolved(&["BD-One", "bd-two"])).unwrap();
    assert_eq!(titles(found), strings(&["upper", "lower"]));
    let literal = load(&["two"], vec![Err(BeadsError::Config("unused".to_string()))]).unwrap();
    assert_eq!(titles(literal), strings(&["lower"]));
    let err = load(&["BD-One"], vec![Err(BeadsError::Config("ambiguous".to_string()))]).unwrap_err();
    assert_eq!(err.detail(), "ambiguous");
    let err = load(&["nine"], resolved(&["bd-nine"])).unwrap_err();
    assert!(matches!(err, BeadsError::IssueNotFound { ref id } if id == "bd-nine"));
    assert_eq!(read_issues_from_jsonl(&lines()).unwrap().len(), 2);
    let broken = vec![JsonlLine::Blank, JsonlLine::Invalid { error: "EOF".to_string() }];
    assert_eq!(
        read_issues_from_jsonl(&broken).unwrap_err().detail(),
        "Invalid JSON at line 2: EOF"
    );
}

#[test]
fn context_stands_where_the_output_wants_it() {
    for routed in [false, true] {
        assert_eq!(context_place(Rendering::Nothing, routed), ContextPlace::Nowhere);
        assert_eq!(context_place(Rendering::JsonArray, routed), ContextPlace::InRecord);
        assert_eq!(context_place(Rendering::Toon, routed), ContextPlace::InRecord);
        let text = if routed { ContextPlace::Nowhere } else { ContextPlace::InFront };
        assert_eq!(context_place(Rendering::Panels, routed), text);
        assert_eq!(context_place(Rendering::Plain, routed), text);
    }
    assert_eq!(front_text(true, &None), "");
    assert_eq!(front_text(false, &None), "\n");
    assert_eq!(front_text(true, &Some("a".to_string())), "a\n");
    assert_eq!(front_text(false, &Some("a\n".to_string())), "\na\n");
    let query = details_query();
    assert!(query.include_comments && !query.include_events);
    assert_eq!(query.event_limit, 10);
}
