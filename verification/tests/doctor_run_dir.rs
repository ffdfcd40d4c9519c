use beads_commands::doctor_subsystems::run_dir::{
    create_run_dir, ensure_doctor_in_gitignore, generate_run_id,
    is_windows_symlink_privilege_error, runs_root_with_override, shell_single_quote,
    write_undo_sh, RepoState, RunDir, RunMoment,
};

fn moment(ordinal: u64) -> RunMoment {
    RunMoment { seconds: 1_735_787_040, nanos: 1_735_787_040_000_000_000, pid: 42, ordinal }
}

fn state(runs_override: Option<&str>) -> RepoState {
    RepoState {
        exists: true,
        runs_override: runs_override.map(str::to_string),
        gitignore: "node_modules\n".to_string(),
        gitignore_mode: Some(0o644),
    }
}

#[test]
fn create_run_dir_produces_stable_run_id_format() {
    let new = create_run_dir("/repo", &state(None), moment(0)).unwrap();
    let run = &new.run;

    let parts: Vec<&str> = run.run_id.split("__").collect();
    assert_eq!(parts.len(), 2, "run_id must split into ts__hash");
    assert_eq!(parts[0].len(), 16, "iso ts must be 16 chars");
    assert_eq!(parts[0], "20250102T030400Z");
    assert_eq!(parts[1].len(), 6, "short hash must be 6 hex");
    assert!(parts[1].chars().all(|c| c.is_ascii_hexdigit()));

    assert_eq!(run.root, format!("/repo/.doctor/runs/{}", run.run_id));
    assert_eq!(run.backups, format!("{}/backups", run.root));
    assert_eq!(run.actions_file, format!("{}/actions.jsonl", run.root));
    assert_eq!(run.report_file, format!("{}/report.json", run.root));
    assert!(
        new.latest_target.contains(&run.run_id),
        "symlink target {} must contain run_id {}",
        new.latest_target,
        run.run_id
    );
    assert!(new.gitignore.unwrap().contains(".doctor/"));
}

#[test]
fn second_run_replaces_latest_atomically() {
    let run1 = create_run_dir("/repo", &state(None), moment(0)).unwrap();
    let mut later = moment(0);
    later.seconds += 2;
    let run2 = create_run_dir("/repo", &state(None), later).unwrap();
    assert_ne!(run1.run.run_id, run2.run.run_id);
    assert_eq!(run1.run.latest_link, run2.run.latest_link);
    assert!(run2.latest_target.contains(&run2.run.run_id));
    assert_ne!(run2.latest_temporary, run2.run.latest_link);
}

#[test]
fn a_run_needs_a_repository() {
    let mut gone = state(None);
    gone.exists = false;
    let err = create_run_dir("/repo", &gone, moment(0)).unwrap_err();
    assert_eq!(err.detail(), "doctor: repo_root /repo does not exist");
}

#[test]
fn generated_run_ids_are_unique_inside_one_process_second() {
    let mut seen: Vec<String> = Vec::new();
    for ordinal in 0..8 {
        let run_id = generate_run_id("/repo", moment(ordinal));
        assert!(!seen.contains(&run_id), "run_id collision inside one process");
        seen.push(run_id);
    }
}

#[test]
fn windows_symlink_fallback_matches_only_privilege_error() {
    assert!(is_windows_symlink_privilege_error(Some(1314)));
    assert!(!is_windows_symlink_privilege_error(Some(5)));
    assert!(!is_windows_symlink_privilege_error(None));
}

#[test]
fn write_undo_sh_emits_executable_script() {
    let new = create_run_dir("/repo", &state(None), moment(0)).unwrap();
    let body = write_undo_sh(&new.run);
    assert!(body.starts_with("#!/usr/bin/env bash"));
    assert!(body.contains(&new.run.run_id));
    assert!(
        body.contains(r#"rename_source="${rename_to}""#),
        "rename undo must normalize the recorded destination before mv"
    );
    assert!(
        body.contains(r#"rename_source="${repo_root}/${rename_source}""#),
        "relative rename destinations must be resolved from repo_root"
    );
}

#[test]
fn write_undo_sh_keeps_relative_repo_root_for_default_layout() {
    let new = create_run_dir("/repo", &state(None), moment(0)).unwrap();
    let body = write_undo_sh(&new.run);
    assert!(
        body.contains(r#"repo_root="$(cd "${run_dir}/../../.." && pwd)""#),
        "default in-repo run dirs should keep the move-tolerant repo_root derivation"
    );
}

#[test]
fn write_undo_sh_embeds_repo_root_for_redirected_run_dir() {
    let run_root = "/redirected/runs/run-one";
    let run = RunDir {
        run_id: "run-one".to_string(),
        repo_root: "/some repo's".to_string(),
        root: run_root.to_string(),
        backups: format!("{run_root}/backups"),
        actions_file: format!("{run_root}/actions.jsonl"),
        report_file: format!("{run_root}/report.json"),
        undo_script: format!("{run_root}/undo.sh"),
        latest_link: "/redirected/latest".to_string(),
    };

    let body = write_undo_sh(&run);
    assert!(
        body.contains(&format!("repo_root={}", shell_single_quote("/some repo's"))),
        "redirected run dirs must restore against the original workspace root"
    );
    assert!(
        !body.contains(r#"repo_root="$(cd "${run_dir}/../../.." && pwd)""#),
        "redirected run dirs cannot infer repo_root from the artifact path"
    );
}

#[test]
fn runs_root_with_override_redirects_runs_root() {
    let computed = runs_root_with_override("/outer", &Some("/override".to_string()));
    assert!(computed.starts_with("/override"));
    assert!(computed.ends_with("runs"));

    let fallback = runs_root_with_override("/outer", &None);
    assert_eq!(fallback, "/outer/.doctor/runs");
}

#[test]
fn ensure_doctor_in_gitignore_is_noop_when_already_present() {
    let initial = "node_modules\n.doctor/\nbuild/\n";
    assert_eq!(ensure_doctor_in_gitignore(initial, Some(0o644)), None);
    let once = ensure_doctor_in_gitignore("node_modules", None).unwrap();
    assert!(once.lines().any(|l| l == "node_modules"));
    assert!(once.lines().any(|l| l == ".doctor/"));
    assert_eq!(ensure_doctor_in_gitignore(&once, None), None);
}

#[test]
fn ensure_doctor_in_gitignore_skips_readonly_gitignore() {
    let initial = "node_modules\nbuild/\n";
    assert_eq!(ensure_doctor_in_gitignore(initial, Some(0o444)), None);
}

#[test]
fn create_run_dir_call_to_gitignore_is_gated_on_env_override() {
    let redirected = create_run_dir("/repo", &state(Some("/override")), moment(0)).unwrap();
    assert!(redirected.gitignore.is_none());
    assert!(redirected.run.root.starts_with("/override/"));
    let in_repo = create_run_dir("/repo", &state(None), moment(0)).unwrap();
    assert!(in_repo.gitignore.is_some());
}

#[test]
fn runs_have_directories_of_their_own() {
    let mut roots = Vec::new();
    for ordinal in 0..20 {
        let new = create_run_dir("/repo", &state(None), moment(ordinal)).unwrap();
        assert_eq!(new.latest_target, format!("runs/{}", new.run.run_id));
        assert!(!new.run.run_id.contains('/'));
        assert!(!roots.contains(&new.run.root));
        roots.push(new.run.root);
    }
}
