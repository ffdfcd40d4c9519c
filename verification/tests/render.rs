use beads_commands::lint::{missing_sections_among, RequiredSection};
use beads_commands::model::{Priority, Status, HIGH};
use beads_commands::orphans::is_affirmative;
use beads_commands::show_external::prefixed_id;
use beads_commands::show_jsonl::{IssueWithDependencyMetadata, Rollup};
use beads_commands::show_render::{
    body_text, closed_text, comments_text, dates_text, day_line, estimate_text, field_text,
    labels_text, reference_text, relations_text, rollup_text, ShownComment,
};
use beads_commands::wrap::lay_out;

fn some(text: &str) -> Option<String> {
    Some(text.to_string())
}

#[test]
fn sections_are_there_where_their_values_are() {
    assert_eq!(dates_text("2025-01-02", "2025-01-03"), "Created: 2025-01-02 · Updated: 2025-01-03\n");
    assert_eq!(field_text("Assignee: ", &some("a\u{1b}b")), "Assignee: a\\u{1b}b\n");
    assert_eq!(field_text("Assignee: ", &None), "");
    assert_eq!(labels_text(&vec!["x".to_string(), "y\r".to_string()]), "Labels: x, y\\r\n");
    assert_eq!(labels_text(&Vec::new()), "");
    assert_eq!(reference_text(&some("gh-1")), "Ref: gh-1\n");
    assert_eq!(reference_text(&some("")), "");
    assert_eq!(day_line("Due: ", &some("2025-01-02")), "Due: 2025-01-02\n");
    assert_eq!(day_line("Due: ", &None), "");
    assert_eq!(body_text("Notes:\n", &some("text")), "\nNotes:\ntext\n");
    assert_eq!(body_text("Notes:\n", &None), "");
    assert_eq!(closed_text(&some("2025-01-02"), &None), "Closed: 2025-01-02 (closed)\n");
    assert_eq!(closed_text(&some("2025-01-02"), &some("done")), "Closed: 2025-01-02 (done)\n");
    assert_eq!(closed_text(&None, &some("done")), "");
}

#[test]
fn estimates_are_in_hours_and_minutes() {
    assert_eq!(estimate_text(Some(90)), "Estimate: 1h 30m\n");
    assert_eq!(estimate_text(Some(120)), "Estimate: 2h\n");
    assert_eq!(estimate_text(Some(59)), "Estimate: 59m\n");
    assert_eq!(estimate_text(Some(0)), "");
    assert_eq!(estimate_text(Some(-5)), "");
    assert_eq!(estimate_text(None), "");
}

#[test]
fn relations_rollups_and_comments_are_listed() {
    let rollup = Rollup {
        status: "in_progress".to_string(),
        descendants: vec![("open".to_string(), 2), ("closed".to_string(), 1)],
    };
    assert_eq!(rollup_text(&Some(rollup)), "Rollup: in_progress (2 open, 1 closed)\n");
    assert_eq!(rollup_text(&None), "");
    let items = vec![IssueWithDependencyMetadata {
        id: "bd-1".to_string(),
        title: "Title".to_string(),
        status: Status::Open,
        priority: Priority { level: HIGH },
        dep_type: "blocks".to_string(),
    }];
    assert_eq!(relations_text("Head:\n", "-> ", &items), "Head:\n-> bd-1 (blocks) - Title\n");
    assert_eq!(relations_text("Head:\n", "-> ", &Vec::new()), "");
    let comments = vec![ShownComment {
        when: "2025-01-02 03:04 UTC".to_string(),
        author: "me".to_string(),
        body: "text".to_string(),
    }];
    let shown = comments_text(&comments);
    assert!(shown.contains("2025-01-02 03:04 UTC"), "{shown}");
    assert!(shown.contains("me"), "{shown}");
    assert_eq!(comments_text(&Vec::new()), "");
}

#[test]
fn words_are_laid_out_by_their_widths() {
    let words: Vec<String> = ["aa", "bb", "cc"].iter().map(|w| w.to_string()).collect();
    assert_eq!(lay_out(&words, &vec![2, 2, 2], "", 5), "aa bb\ncc");
    assert_eq!(lay_out(&words, &vec![2, 9, 2], "  ", 5), "  aa\n  bb\n  cc");
    assert_eq!(lay_out(&words, &vec![0, 0, 0], "", 5), "aa bb cc");
}

#[test]
fn sections_are_missed_by_their_headings() {
    let sections = vec![
        RequiredSection { heading: "## Steps", hint: "how" },
        RequiredSection { heading: "## Result", hint: "what" },
    ];
    let headings = vec!["steps".to_string(), "result".to_string()];
    let missing = missing_sections_among("the steps are", &headings, &sections);
    assert_eq!(missing.len(), 1);
    assert_eq!(missing[0].heading, "## Result");
}

#[test]
fn ids_and_answers_are_read() {
    assert_eq!(prefixed_id("abc".to_string(), "bd"), "bd-abc");
    assert_eq!(prefixed_id("x-abc".to_string(), "bd"), "x-abc");
    assert!(is_affirmative("y"));
    assert!(is_affirmative("yes"));
    assert!(!is_affirmative("Y"));
    assert!(!is_affirmative(""));
}
