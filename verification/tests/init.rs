use beads_commands::error::BeadsError;
use beads_commands::init::{
    build_init_steps, choose_prefix, execute, next_replace_step, out_of_names, render_init_plain,
    render_init_rich, resolve_init_beads_dir, temp_init_path, InitPlan, InitState, InitStepStatus,
    ReplaceStep, StepOutcome, WriteMode, GITIGNORE, METADATA,
};
use beads_commands::spans::plain;

fn empty() -> InitState {
    InitState {
        dir_exists: false,
        db_exists: false,
        metadata_exists: false,
        config_exists: false,
        gitignore_exists: false,
        jsonl_exists: false,
    }
}

fn full() -> InitState {
    InitState {
        dir_exists: true,
        db_exists: true,
        metadata_exists: true,
        config_exists: true,
        gitignore_exists: true,
        jsonl_exists: true,
    }
}

fn init(prefix: Option<&str>, force: bool, state: &InitState) -> Result<InitPlan, BeadsError> {
    execute(
        prefix.map(str::to_string),
        force,
        "/w/proj/.beads",
        "/w/proj/.beads/beads.db",
        Some("proj"),
        state,
    )
}

fn paths(plan: &InitPlan) -> Vec<&str> {
    plan.writes.iter().map(|w| w.path.as_str()).collect()
}

#[test]
fn test_init_creates_beads_directory() {
    let plan = init(None, false, &empty()).unwrap();

    assert!(plan.create_dir);
    assert_eq!(plan.beads_dir, "/w/proj/.beads");
    assert_eq!(plan.db_path, "/w/proj/.beads/beads.db");
    assert_eq!(plan.db_parent.as_deref(), Some("/w/proj/.beads"));
    assert_eq!(
        paths(&plan),
        vec![
            "/w/proj/.beads/metadata.json",
            "/w/proj/.beads/config.yaml",
            "/w/proj/.beads/.gitignore",
            "/w/proj/.beads/issues.jsonl",
        ]
    );
    assert!(plan.writes.iter().all(|w| w.mode == WriteMode::CreateOnly));
    assert_eq!(plan.writes[3].contents, "");
}

#[test]
fn test_init_does_not_follow_dangling_config_symlink() {
    let mut state = empty();
    state.dir_exists = true;
    state.config_exists = true;
    let plan = init(None, false, &state).unwrap();
    assert!(!paths(&plan).contains(&"/w/proj/.beads/config.yaml"));
}

#[test]
fn test_init_force_replaces_metadata_symlink_not_target() {
    let mut state = empty();
    state.dir_exists = true;
    state.metadata_exists = true;
    let plan = init(None, true, &state).unwrap();
    assert_eq!(plan.writes[0].path, "/w/proj/.beads/metadata.json");
    assert_eq!(plan.writes[0].mode, WriteMode::Replace);
}

#[test]
fn test_init_with_prefix() {
    let plan = init(Some("test"), false, &empty()).unwrap();
    assert_eq!(plan.prefix, "test");
}

#[test]
fn test_init_fails_if_already_initialized() {
    let result1 = init(None, false, &empty());
    assert!(result1.is_ok());

    let result2 = init(None, false, &full());

    assert!(result2.is_err());
    let err = result2.unwrap_err();
    assert!(matches!(err, BeadsError::AlreadyInitialized { .. }));
    assert_eq!(err.detail(), "Already initialized at /w/proj/.beads/beads.db");
}

#[test]
fn test_init_force_overwrites_existing() {
    init(Some("first"), false, &empty()).unwrap();

    let plan = init(Some("second"), true, &full()).unwrap();

    assert_eq!(plan.prefix, "second");
    assert_eq!(paths(&plan), vec!["/w/proj/.beads/metadata.json"]);
    assert!(!plan.create_dir);
}

#[test]
fn test_metadata_json_content() {
    let plan = init(None, false, &empty()).unwrap();
    assert_eq!(plan.writes[0].contents, METADATA);
    let parsed: serde_json::Value = serde_json::from_str(METADATA).unwrap();

    assert_eq!(parsed["database"], "beads.db");
    assert_eq!(parsed["jsonl_export"], "issues.jsonl");
}

#[test]
fn test_gitignore_excludes_db_files() {
    let plan = init(None, false, &empty()).unwrap();
    let content = &plan.writes[2].contents;
    assert_eq!(content, GITIGNORE);

    assert!(content.contains("*.db"));
    assert!(content.contains("*.db-journal"));
    assert!(
        content.lines().any(|line| line.trim() == "*.db-wal*"),
        "init must ignore classic WAL files and fsqlite WAL certificate sidecars: {content}"
    );
    assert!(content.contains("*.db-shm"));
    assert!(
        content.lines().any(|line| line.trim() == ".write.lock"),
        "init must emit the canonical write-lock rule expected by doctor: {content}"
    );
    assert!(content.contains("*.lock"));
}

#[test]
fn prefixes_are_cleaned_and_lowered() {
    let plan = init(None, false, &empty()).unwrap();
    assert_eq!(plan.prefix, "proj");
    assert_eq!(
        plan.writes[1].contents,
        "# Beads Project Configuration\n# issue_prefix: proj\n# default_priority: 2\n# default_type: task\n"
    );
    assert_eq!(choose_prefix(&None, Some("My Proj_1-x!")), "myproj_1-x");
    assert_eq!(choose_prefix(&None, Some("日本")), "br");
    assert_eq!(choose_prefix(&None, None), "br");
    assert_eq!(choose_prefix(&Some("ABC d".to_string()), Some("x")), "abc d");
}

#[test]
fn the_environment_may_name_the_directory() {
    assert_eq!(resolve_init_beads_dir(Some(" /e "), "/w"), "/e");
    assert_eq!(resolve_init_beads_dir(Some("  "), "/w"), "/w/.beads");
    assert_eq!(resolve_init_beads_dir(None, "."), "./.beads");
}

#[test]
fn files_are_replaced_in_steps() {
    let mut step = ReplaceStep::CreateTemp { attempt: 0 };
    let mut count = 0;
    while step != ReplaceStep::Done {
        step = next_replace_step(step, StepOutcome::Done);
        count += 1;
    }
    assert_eq!(count, 4);
    assert_eq!(
        next_replace_step(ReplaceStep::CreateTemp { attempt: 63 }, StepOutcome::NameTaken),
        ReplaceStep::OutOfNames
    );
    assert_eq!(
        next_replace_step(ReplaceStep::CreateTemp { attempt: 0 }, StepOutcome::NameTaken),
        ReplaceStep::CreateTemp { attempt: 1 }
    );
    assert_eq!(
        next_replace_step(ReplaceStep::CopyPermissions, StepOutcome::Failed),
        ReplaceStep::Write
    );
    assert_eq!(next_replace_step(ReplaceStep::Write, StepOutcome::Failed), ReplaceStep::RemoveTemp);
    assert_eq!(next_replace_step(ReplaceStep::Rename, StepOutcome::Failed), ReplaceStep::RemoveTemp);
    assert_eq!(next_replace_step(ReplaceStep::RemoveTemp, StepOutcome::Done), ReplaceStep::Failed);
    assert_eq!(temp_init_path("/w/metadata.json", 7, 0), "/w/metadata.json.7.tmp");
    assert_eq!(temp_init_path("/w/metadata.json", 7, 2), "/w/metadata.json.7.2.tmp");
    assert_eq!(temp_init_path("/w/.gitignore", 7, 0), "/w/.gitignore.tmp.7.tmp");
    assert_eq!(out_of_names("/w/x").detail(), "Failed to allocate temp init file for /w/x");
}

#[test]
fn steps_say_what_became_of_each_part() {
    let mut state = empty();
    state.metadata_exists = true;
    state.config_exists = true;
    let steps = build_init_steps(&state, true, Some("bd"));
    let statuses: Vec<InitStepStatus> = steps.iter().map(|s| s.status).collect();
    assert_eq!(
        statuses,
        vec![
            InitStepStatus::Created,
            InitStepStatus::Created,
            InitStepStatus::Updated,
            InitStepStatus::Existing,
            InitStepStatus::Created,
            InitStepStatus::Created,
            InitStepStatus::Updated,
        ]
    );
    assert_eq!(steps[6].label, "Issue prefix set to 'bd'");
    let text = plain(&render_init_rich("/w/.beads", &steps, Some("bd")));
    assert!(text.starts_with(
        "Workspace initialized\n\nLocation: /w/.beads\n\nSteps:\n[+] .beads/ directory\n[+] SQLite database (beads.db)\n[*] metadata.json\n[=] config.yaml\n"
    ));
    assert!(text.ends_with("Next steps:\n  br create \"My first issue\"\n  br list\n"));
    let untold = plain(&render_init_rich("/w/.beads", &build_init_steps(&state, false, None), None));
    assert!(untold.ends_with("\nTip: Set a custom prefix with `br init --prefix <name>`\n"));
    assert_eq!(
        render_init_plain("/w/.beads", "bd"),
        "Prefix set to: bd\nInitialized beads workspace in /w/.beads\n"
    );
}
