use beads_commands::error::BeadsError;
use beads_commands::hooks::{
    actor_env_keys, apply_prepare_commit_msg, execute, resolve_hook_actor, trailer_for,
    unreadable_message, unwritable_message, validate_actor,
};

fn actor(name: &str) -> Option<String> {
    Some(name.to_string())
}

fn applied(content: &str, source: Option<&str>, name: Option<String>) -> String {
    let added = apply_prepare_commit_msg(source, name, content).unwrap();
    format!("{content}{}", added.unwrap_or_default())
}

#[test]
fn appends_actor_trailer_exactly_once() {
    let once = applied("subject\n", None, actor("aegis/crew/muldoon"));
    let twice = applied(&once, None, actor("aegis/crew/muldoon"));

    assert_eq!(twice, "subject\n\nExecuted-By: aegis/crew/muldoon\n");
}

#[test]
fn no_actor_and_merge_source_leave_message_unchanged() {
    assert_eq!(applied("subject\n", None, None), "subject\n");
    assert_eq!(applied("merge subject\n", Some("merge"), actor("actor")), "merge subject\n");
}

#[test]
fn rejects_multiline_actor() {
    let result = apply_prepare_commit_msg(None, actor("actor\nInjected: value"), "subject\n");

    assert!(result.is_err());
    assert!(matches!(result.unwrap_err(), BeadsError::Validation { .. }));
    assert_eq!(
        validate_actor("a\tb").unwrap_err().detail(),
        "Validation failed: actor: must be a single printable line"
    );
    assert!(apply_prepare_commit_msg(Some("merge"), actor("a\nb"), "x").unwrap().is_none());
}

#[test]
fn separators_depend_on_the_end_of_the_message() {
    assert_eq!(applied("", None, actor("a")), "Executed-By: a\n");
    assert_eq!(applied("\n\n", None, actor("a")), "\n\nExecuted-By: a\n");
    assert_eq!(applied("subject", None, actor("a")), "subject\n\nExecuted-By: a\n");
    assert_eq!(trailer_for("x\r\nExecuted-By: someone\r\n", "a"), None);
    assert!(trailer_for("x Executed-By: someone", "a").is_some());
}

#[test]
fn actors_come_from_the_command_line_then_the_environment() {
    assert_eq!(actor_env_keys(), vec!["BR_ACTOR", "BD_ACTOR", "BEADS_ACTOR"]);
    let env = vec![None, Some("  ".to_string()), Some(" env ".to_string())];
    assert_eq!(resolve_hook_actor(Some(" me "), &env), actor("me"));
    assert_eq!(resolve_hook_actor(Some(" "), &env), actor("env"));
    assert_eq!(resolve_hook_actor(None, &vec![None, None, None]), None);
    assert_eq!(
        execute(None, None, &env, "s\n").unwrap(),
        Some("\nExecuted-By: env\n".to_string())
    );
    assert_eq!(execute(Some("merge"), None, &env, "s\n").unwrap(), None);
}

#[test]
fn file_errors_name_the_message() {
    assert_eq!(
        unreadable_message("/m", "gone").detail(),
        "cannot read commit message '/m': gone"
    );
    assert_eq!(
        unwritable_message("/m", "locked").detail(),
        "cannot update commit message '/m': locked"
    );
}
