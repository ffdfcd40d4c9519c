use beads_commands::error::BeadsError;
use beads_commands::model::{IssueType, Priority, Status, Timestamp, HIGH};
use beads_commands::q::{
    accept_labels, after_create, child_id, draft_issue, execute, invalid_label_warning,
    next_child_step, no_child_id, push_unique_label, quick_title, render_quick_created_rich,
    require_parent, split_labels, with_content_hash, AfterCreate, ChildStep, QuickRequest,
};
use beads_commands::spans::plain;

fn strings(values: &[&str]) -> Vec<String> {
    values.iter().map(|v| v.to_string()).collect()
}

#[test]
fn push_unique_label_deduplicates_repeated_values() {
    let mut labels = Vec::new();
    push_unique_label(&mut labels, "backend");
    push_unique_label(&mut labels, "backend");
    push_unique_label(&mut labels, "ops");

    assert_eq!(labels, vec!["backend".to_string(), "ops".to_string()]);
}

#[test]
fn invalid_label_warning_sanitizes_terminal_controls() {
    let warning = invalid_label_warning("bad\x1b[2J\rlabel", "no bell\x07 allowed");

    assert!(!warning.chars().any(char::is_control));
    assert!(warning.contains("\\u{1b}[2J"));
    assert!(warning.contains("\\r"));
    assert!(warning.contains("\\u{7}"));
    assert_eq!(invalid_label_warning("a", "b"), "Warning: invalid label 'a': b");
}

#[test]
fn labels_are_split_and_sorted_out() {
    let labels = split_labels(&strings(&["a, b,,c ", " ", "a"]));
    assert_eq!(labels, strings(&["a", "b", "c", "a"]));
    let refusals = vec![None, Some("too short".to_string()), None, None];
    let (usable, warnings) = accept_labels(&labels, &refusals);
    assert_eq!(usable, strings(&["a", "c"]));
    assert_eq!(warnings, strings(&["Warning: invalid label 'b': too short"]));
}

#[test]
fn titles_are_joined_and_trimmed() {
    assert_eq!(quick_title(&strings(&[" Fix", "it "])).unwrap(), "Fix it");
    assert_eq!(
        quick_title(&strings(&[" ", ""])).unwrap_err().detail(),
        "Validation failed: title: cannot be empty"
    );
}

#[test]
fn children_get_the_lowest_free_number() {
    assert_eq!(child_id("bd-1", 3), "bd-1.3");
    assert_eq!(next_child_step(3, 3, false), ChildStep::Use { number: 3 });
    assert_eq!(next_child_step(3, 3, true), ChildStep::Try { number: 4 });
    assert_eq!(next_child_step(3, 103, true), ChildStep::Exhausted);
    assert_eq!(next_child_step(3, 103, false), ChildStep::Use { number: 103 });
    let taken = [5u32, 6, 8];
    let mut step = ChildStep::Try { number: 5 };
    while let ChildStep::Try { number } = step {
        step = next_child_step(5, number, taken.contains(&number));
    }
    assert_eq!(step, ChildStep::Use { number: 7 });
    let near = u32::MAX - 3;
    assert_eq!(next_child_step(near, near, false), ChildStep::Use { number: near });
    assert_eq!(next_child_step(near, near, true), ChildStep::Try { number: u32::MAX - 2 });
    assert_eq!(next_child_step(near, u32::MAX, false), ChildStep::Use { number: u32::MAX });
    assert_eq!(next_child_step(near, u32::MAX, true), ChildStep::Exhausted);
    assert_eq!(
        no_child_id().detail(),
        "Validation failed: parent: could not find available child ID"
    );
}

fn request() -> QuickRequest {
    QuickRequest {
        title: strings(&["Fix", "it"]),
        description: Some("d".to_string()),
        estimate: Some(30),
        labels: strings(&["ops"]),
        id: "bd-1.2".to_string(),
        parent_id: Some("bd-1".to_string()),
        priority: Priority { level: HIGH },
        issue_type: IssueType::Bug,
        actor: "me".to_string(),
        now: Timestamp { seconds: 5, nanos: 6 },
        parent_makes_cycle: false,
    }
}

#[test]
fn a_request_makes_an_open_issue() {
    let draft = draft_issue(&request()).unwrap();
    assert_eq!(draft.content_hash, None);
    let whole = with_content_hash(draft, "h1".to_string());
    assert_eq!(whole.content_hash.as_deref(), Some("h1"));
    let issue = execute(&request(), "h1".to_string(), None).unwrap();
    assert_eq!(issue.content_hash.as_deref(), Some("h1"));
    assert!(issue.sender.is_none() && !issue.ephemeral && !issue.pinned && !issue.is_template);
    assert!(issue.dependencies[0].metadata.is_none() && issue.dependencies[0].thread_id.is_none());
    assert_eq!(issue.id, "bd-1.2");
    assert_eq!(issue.title, "Fix it");
    assert_eq!(issue.status, Status::Open);
    assert_eq!(issue.priority.level, HIGH);
    assert_eq!(issue.created_by.as_deref(), Some("me"));
    assert_eq!(issue.created_at, issue.updated_at);
    assert_eq!(issue.labels, strings(&["ops"]));
    assert_eq!(issue.dependencies.len(), 1);
    assert_eq!(issue.dependencies[0].depends_on_id, "bd-1");
    assert_eq!(issue.dependencies[0].dep_type.as_str(), "parent-child");
    let mut alone = request();
    alone.parent_id = None;
    alone.parent_makes_cycle = true;
    assert!(execute(&alone, "h".to_string(), None).unwrap().dependencies.is_empty());
    let mut cyclic = request();
    cyclic.parent_makes_cycle = true;
    let err = execute(&cyclic, "h".to_string(), None).unwrap_err();
    assert!(matches!(err, BeadsError::DependencyCycle { .. }));
    assert_eq!(err.detail(), "Dependency cycle: bd-1.2 -> bd-1");
    let mut untitled = request();
    untitled.title = Vec::new();
    let refusal = || Some(BeadsError::Config("refused".to_string()));
    let err = execute(&untitled, "h".to_string(), refusal()).unwrap_err();
    assert_eq!(err.detail(), "Validation failed: title: cannot be empty");
    let err = execute(&request(), "h".to_string(), refusal()).unwrap_err();
    assert_eq!(err.detail(), "refused");
}

#[test]
fn children_need_a_parent() {
    assert!(require_parent("bd-1", true).is_ok());
    let err = require_parent("bd-1", false).unwrap_err();
    assert!(matches!(err, BeadsError::IssueNotFound { ref id } if id == "bd-1"));
}

#[test]
fn created_issues_are_reported() {
    assert_eq!(after_create(true), AfterCreate::FlushThenTouch);
    assert_eq!(after_create(false), AfterCreate::TouchThenFlush);
    assert_eq!(
        plain(&render_quick_created_rich("bd-1", "A\x07b")),
        "✓ Created bd-1\n  \"A\\u{7}b\"\n"
    );
}
