use beads_commands::doctor_subsystems::encoding::SqlValue;
use beads_commands::doctor_subsystems::mutate::{
    begin_climb, canonicalize_existing_or_parent, climb_on, cmp_strict, ensure_in_scope,
    execute_atomic, legacy_line, legacy_record, mutate, record_action, record_legacy_op,
    ActionDraft, Backup, Capabilities, DbArg, FileChange, LegacyPlan, LegacyTarget, MutateContext,
    MutationPlan, Op, PreState, SHA256_EMPTY_PREFIXED,
};
use beads_commands::doctor_subsystems::mutate_db::{
    collect_column_names, migrate_failed_error, migrate_range_check, migrate_version_check,
    mutate_db, next_db_exec_step, next_db_migrate_step, next_snapshot_collision,
    snapshot_artifact, snapshot_file_name, snapshot_row, snapshot_sql, validate_identifier, DbExecStep,
    DbMigrateStep, DbSnapshotArtifact, SnapshotCell, BLOB_KEY,
};
use beads_commands::digest::{sha256_hex_prefixed, sha256_hex_text};
use beads_commands::error::BeadsError;
use beads_commands::model::Timestamp;

const CHANGED: Timestamp = Timestamp { seconds: 1_700_000_000, nanos: 5 };

fn make_ctx(dry_run: bool) -> MutateContext {
    MutateContext {
        run_id: "test-run".to_string(),
        run_dir: "/tmp/r/.doctor/runs/test-run".to_string(),
        capabilities: Capabilities::for_repo("/tmp/r"),
        fixer_id: "test-fixer".to_string(),
        repo_root: "/tmp/r".to_string(),
        dry_run,
        start_ns: 1_000,
    }
}

fn pre(path: &str, before: Option<&[u8]>) -> PreState {
    PreState {
        before: before.map(|b| b.to_vec()),
        existing_mode: before.map(|_| 0o600),
        modified: before.map(|_| CHANGED),
        canonical: path.to_string(),
        target_canonical: None,
        canonical_scopes: vec!["/tmp/r/.beads".to_string(), "/tmp/r/.doctor".to_string()],
        primary_taken: false,
        collision: 0,
        now_ns: 5_000,
        pid: 9,
    }
}

fn write_plan(plan: MutationPlan) -> (Option<Backup>, FileChange, ActionDraft) {
    match plan {
        MutationPlan::Write { backup, change, draft } => (backup, change, draft),
        other => panic!("{other:?}"),
    }
}

#[test]
fn write_file_creates_backup_and_records_action() {
    let target = "/tmp/r/.beads/foo.txt";
    let plan = mutate(
        &make_ctx(false),
        target,
        Op::WriteFile { content: b"updated".to_vec(), mode: Some(0o644) },
        pre(target, Some(b"original")),
    )
    .expect("mutate should succeed");
    let (backup, change, draft) = write_plan(plan);
    let backup = backup.expect("backup must exist");
    assert_eq!(backup.path, "/tmp/r/.doctor/runs/test-run/backups/.beads/foo.txt");
    assert_eq!(backup.bytes, b"original");
    assert_eq!(backup.mode, Some(0o600));
    assert_eq!(backup.modified, Some(CHANGED));
    match change {
        FileChange::Replace { bytes, mode } => {
            assert_eq!(bytes, b"updated");
            assert_eq!(mode, 0o644);
        }
        other => panic!("{other:?}"),
    }
    let (record, result) = record_action(draft, &Some(b"updated".to_vec()), 9_000);
    assert!(result.ok);
    assert!(result.before_hash.starts_with("sha256:"));
    assert!(result.after_hash.starts_with("sha256:"));
    assert_ne!(result.before_hash, result.after_hash);
    assert_eq!(record.op, "write_file");
    assert_eq!(record.fixer_id, "test-fixer");
    assert_eq!(record.run_id, "test-run");
    assert!(record.ok);
}

#[test]
fn dry_run_does_not_touch_disk() {
    let target = "/tmp/r/.beads/dry.txt";
    let plan = mutate(
        &make_ctx(true),
        target,
        Op::WriteFile { content: b"would not write".to_vec(), mode: Some(0o644) },
        pre(target, Some(b"keep me")),
    )
    .expect("dry-run mutate should succeed");
    match plan {
        MutationPlan::DryRun { notice, result } => {
            assert!(result.ok);
            assert_eq!(result.before_hash, result.after_hash);
            assert_eq!(notice, "[dry-run] would mutate /tmp/r/.beads/dry.txt: write_file");
        }
        other => panic!("{other:?}"),
    }
}

#[test]
fn rename_moves_file_and_after_hash_is_empty_sentinel() {
    let src = "/tmp/r/.beads/orphan.lock";
    let dst = "/tmp/r/.doctor/runs/test-run/quarantine/orphan.lock";
    let mut state = pre(src, Some(b"lock-bytes"));
    state.target_canonical = Some(dst.to_string());
    let plan = mutate(&make_ctx(false), src, Op::Rename { to: dst.to_string() }, state)
        .expect("rename should succeed");
    let (_, change, draft) = write_plan(plan);
    assert!(matches!(change, FileChange::Rename { ref to, .. } if to == dst));
    let (record, result) = record_action(draft, &None, 9_000);
    assert!(result.ok);
    assert_ne!(result.before_hash, SHA256_EMPTY_PREFIXED);
    assert_eq!(result.after_hash, SHA256_EMPTY_PREFIXED);
    assert_eq!(record.rename_to.as_deref(), Some(dst));
}

#[test]
fn append_file_preserves_backed_up_bytes_and_mode() {
    let target = "/tmp/r/.beads/append.log";
    let plan = mutate(
        &make_ctx(false),
        target,
        Op::AppendFile { content: b"-after".to_vec() },
        pre(target, Some(b"before")),
    )
    .expect("append should succeed");
    let (backup, change, draft) = write_plan(plan);
    let backup = backup.unwrap();
    assert_eq!(backup.path, "/tmp/r/.doctor/runs/test-run/backups/.beads/append.log");
    assert_eq!(backup.bytes, b"before");
    match change {
        FileChange::Replace { bytes, mode } => {
            assert_eq!(bytes, b"before-after");
            assert_eq!(mode, 0o600);
        }
        other => panic!("{other:?}"),
    }
    let (record, result) = record_action(draft, &Some(b"before-after".to_vec()), 9_000);
    assert!(result.ok);
    assert_eq!(record.op, "append_file");
    assert!(record.ok);
}

#[test]
fn out_of_scope_path_is_refused() {
    let err = mutate(
        &make_ctx(false),
        "/tmp/other/victim.txt",
        Op::WriteFile { content: b"oops".to_vec(), mode: None },
        pre("/tmp/other/victim.txt", Some(b"untouched")),
    )
    .expect_err("out-of-scope writes must be refused");
    assert!(
        err.detail().contains("outside write_scopes"),
        "error must mention scope refusal: {err:?}"
    );
}

#[test]
fn rename_destination_outside_write_scope_is_refused() {
    let src = "/tmp/r/.beads/keep-inside.txt";
    let mut state = pre(src, Some(b"keep inside"));
    state.target_canonical = Some("/tmp/other/escaped.txt".to_string());
    let err = mutate(
        &make_ctx(false),
        src,
        Op::Rename { to: "/tmp/other/escaped.txt".to_string() },
        state,
    )
    .expect_err("out-of-scope rename destinations must be refused");
    assert!(
        err.detail().contains("outside write_scopes"),
        "error must mention scope refusal: {err:?}"
    );
}

#[test]
fn append_file_anchors_to_supplied_bytes_not_live_file() {
    let change = execute_atomic(
        "/tmp/r/.beads/append.log",
        Op::AppendFile { content: b"new\n".to_vec() },
        &Some(b"original\n".to_vec()),
        Some(0o600),
        9,
        5_000,
    );
    match change {
        FileChange::Replace { bytes, mode } => {
            assert_eq!(bytes, b"original\nnew\n");
            assert_eq!(mode & 0o777, 0o600);
        }
        other => panic!("{other:?}"),
    }
}

#[test]
fn backups_are_compared_byte_by_byte() {
    assert!(cmp_strict(&b"a".to_vec(), &b"a".to_vec()).is_ok());
    assert!(cmp_strict(&b"a".to_vec(), &b"b".to_vec()).is_err());
}

fn legacy_target(path: &str, before: &[u8], primary_taken: bool) -> LegacyTarget {
    LegacyTarget {
        path: path.to_string(),
        canonical: path.to_string(),
        before: Some(before.to_vec()),
        existing_mode: Some(0o640),
        modified: Some(CHANGED),
        primary_taken,
        collision: 0,
    }
}

fn scopes() -> Vec<String> {
    vec!["/tmp/r/.beads".to_string(), "/tmp/r/.doctor".to_string()]
}

#[test]
fn legacy_op_dry_run_does_not_invoke_legacy_closure() {
    let plan = record_legacy_op(
        &make_ctx(true),
        "legacy-dry-run",
        &vec![legacy_target("/tmp/r/.beads/legacy.txt", b"original", false)],
        &scopes(),
        5_000,
    )
    .expect("dry-run legacy op should succeed");
    assert!(matches!(plan, LegacyPlan::DryRun { ref notices } if notices.len() == 1));
}

#[test]
fn legacy_op_records_closure_error_in_actions_jsonl() {
    let plan = record_legacy_op(
        &make_ctx(false),
        "legacy-error",
        &vec![legacy_target("/tmp/r/.beads/legacy-error.txt", b"original", false)],
        &scopes(),
        5_000,
    )
    .unwrap();
    let mut targets = match plan {
        LegacyPlan::Run { targets } => targets,
        other => panic!("{other:?}"),
    };
    let backup = targets[0].backup.as_ref().unwrap();
    assert_eq!(backup.path, "/tmp/r/.doctor/runs/test-run/backups/.beads/legacy-error.txt");
    assert_eq!(backup.bytes, b"original");
    assert_eq!((backup.mode, backup.modified), (Some(0o640), Some(CHANGED)));
    let action = legacy_record(
        targets.remove(0),
        &Some(b"partially mutated".to_vec()),
        9_000,
        &Some("legacy fixer failed".to_string()),
    );
    assert_eq!(action.op, "legacy_op");
    assert_eq!(action.fixer_id, "legacy-error");
    assert!(!action.ok);
    assert!(action.error.is_some_and(|msg| msg.contains("legacy fixer failed")));
    assert!(!legacy_line("{}", true).is_empty());
}

#[test]
fn repeated_legacy_ops_preserve_each_pre_mutation_backup() {
    let first = record_legacy_op(
        &make_ctx(false),
        "first",
        &vec![legacy_target("/tmp/r/.beads/repeated.txt", b"original", false)],
        &scopes(),
        5_000,
    )
    .unwrap();
    let second = record_legacy_op(
        &make_ctx(false),
        "second",
        &vec![legacy_target("/tmp/r/.beads/repeated.txt", b"intermediate", true)],
        &scopes(),
        6_000,
    )
    .unwrap();
    let (first, second) = match (first, second) {
        (LegacyPlan::Run { targets: a }, LegacyPlan::Run { targets: b }) => (a, b),
        other => panic!("{other:?}"),
    };
    assert!(first[0].draft.backup_path.is_none());
    let second_backup = second[0]
        .draft
        .backup_path
        .clone()
        .expect("repeated path should use a versioned backup");
    let (kept, later) = (first[0].backup.as_ref().unwrap(), second[0].backup.as_ref().unwrap());
    assert_eq!(kept.path, "/tmp/r/.doctor/runs/test-run/backups/.beads/repeated.txt");
    assert_eq!(kept.bytes, b"original");
    assert_eq!(later.path, format!("/tmp/r/.doctor/runs/test-run/backups/{second_backup}"));
    assert_eq!(later.bytes, b"intermediate");
    assert_eq!(first[0].draft.before_hash, sha256_hex_prefixed(b"original"));
    assert_eq!(second[0].draft.before_hash, sha256_hex_prefixed(b"intermediate"));
}

#[test]
fn legacy_op_validates_every_target_before_writing_backups() {
    let error = record_legacy_op(
        &make_ctx(false),
        "preflight-all-targets",
        &vec![
            legacy_target("/tmp/r/.beads/in-scope.txt", b"original", false),
            legacy_target("/tmp/other/out-of-scope.txt", b"outside", false),
        ],
        &scopes(),
        5_000,
    )
    .expect_err("an out-of-scope target must reject the whole legacy operation");
    assert!(error.detail().contains("outside write_scopes"));
}

#[test]
fn digests_are_those_of_sha256() {
    assert_eq!(
        sha256_hex_text(b"abc"),
        "ba7816bf8f01cfea414140de5dae2223b00361a396177a9cb410ff61f20015ad"
    );
    assert_eq!(sha256_hex_prefixed(b""), SHA256_EMPTY_PREFIXED);
}

#[test]
fn db_snapshot_writer_never_overwrites_same_stamp() {
    let first = snapshot_file_name("sample_widgets", "abcdef12", 42, 0);
    let collision = next_snapshot_collision("sample_widgets", "abcdef12", 42, 0)
        .expect("second snapshot");
    let second = snapshot_file_name("sample_widgets", "abcdef12", 42, collision);
    assert_ne!(first, second);
    assert_eq!(first, "sample_widgets__abcdef12__00000000000000000042.json");
    assert!(
        second.ends_with("__001.json"),
        "collision suffix should be visible in second filename: {second}"
    );
}

#[test]
fn snapshots_read_the_rows_of_a_predicate() {
    assert_eq!(snapshot_sql("issues", &None), "SELECT * FROM issues");
    assert_eq!(
        snapshot_sql("issues", &Some("id = 1".to_string())),
        "SELECT * FROM issues WHERE id = 1"
    );
}

#[test]
fn statements_wait_for_their_snapshots() {
    let mut step = DbExecStep::Validate;
    let mut seen = Vec::new();
    while step != DbExecStep::Done {
        seen.push(step);
        step = next_db_exec_step(step, true, 2);
    }
    let at = |s: DbExecStep| seen.iter().position(|x| *x == s).unwrap();
    assert!(at(DbExecStep::Snapshot { taken: 1 }) < at(DbExecStep::Execute));
    assert_eq!(next_db_exec_step(DbExecStep::Execute, false, 2), DbExecStep::RollBack { taken: 2 });
    assert_eq!(
        next_db_exec_step(DbExecStep::Snapshot { taken: 1 }, false, 2),
        DbExecStep::RollBack { taken: 1 }
    );
}

#[test]
fn test_db_migrate_user_version_mismatch_refuses() {
    assert!(migrate_range_check(4, 6).is_ok());
    let err = migrate_version_check(4, &vec![SqlValue::Integer(5)])
        .expect_err("user_version mismatch must refuse");
    let msg = err.detail();
    assert!(
        msg.contains("user_version mismatch"),
        "error should reference user_version mismatch; got {msg}"
    );
    assert_eq!(
        msg,
        "doctor: db migrate refused — user_version mismatch (expected 4, got 5)"
    );
    let mut step = DbMigrateStep::CheckVersion;
    let mut taken = Vec::new();
    while step != DbMigrateStep::Failed {
        let ok = step != DbMigrateStep::CheckVersion;
        step = next_db_migrate_step(step, ok);
        taken.push(step);
    }
    assert_eq!(
        taken,
        vec![
            DbMigrateStep::RestoreUntouched,
            DbMigrateStep::DiscardSnapshot,
            DbMigrateStep::Failed,
        ],
        "refused migrate must not leave a stale snapshot"
    );
}

#[test]
fn versions_and_ranges_are_checked() {
    assert!(migrate_version_check(14, &vec![SqlValue::Integer(14)]).is_ok());
    assert!(migrate_version_check(14, &vec![SqlValue::Integer(13)]).is_err());
    assert!(migrate_version_check(14, &Vec::new()).is_err());
    assert!(migrate_version_check(0, &Vec::new()).is_ok());
    assert!(migrate_range_check(14, 15).is_ok());
    assert!(migrate_range_check(15, 14).is_err());
}

#[test]
fn identifiers_and_columns_are_checked() {
    assert!(validate_identifier("issues_2").is_ok());
    for bad in ["", "a-b", "x; DROP", "é"] {
        assert!(validate_identifier(bad).is_err(), "{bad}");
    }
    let rows = vec![vec![
        SqlValue::Integer(0),
        SqlValue::Text("id".to_string()),
        SqlValue::Text("TEXT".to_string()),
    ]];
    assert_eq!(collect_column_names("issues", &rows).unwrap(), vec!["id".to_string()]);
    let cells = snapshot_row(3, &vec![SqlValue::Integer(5), SqlValue::Blob(vec![0xab, 1])]);
    assert!(matches!(cells[0], SnapshotCell::Integer(5)));
    assert!(matches!(cells[1], SnapshotCell::BlobBase64(ref t) if t == "qwE="));
    assert!(matches!(cells[2], SnapshotCell::Null));
    let cells = snapshot_row(1, &vec![SqlValue::Blob(vec![0x00, 0xff])]);
    assert!(matches!(cells[0], SnapshotCell::BlobBase64(ref t) if t == "AP8="));
    assert_eq!(BLOB_KEY, "$blob_b64");
    assert!(matches!(DbArg::Text("x".to_string()).to_sqlite_value(), SqlValue::Text(_)));
}

#[test]
fn database_actions_are_recorded() {
    let op = Op::DbMigrate { from: 14, to: 15 };
    let (record, result) = mutate_db(
        &make_ctx(false),
        &op,
        ".beads/beads.db",
        "sha256:x",
        &Some(b"abc".to_vec()),
        4_000,
        9_000,
        &Vec::<DbSnapshotArtifact>::new(),
    );
    assert!(record.ok && result.ok);
    assert_eq!(record.op, "db_migrate");
    assert_eq!(record.migrate_from, Some(14));
    assert_eq!(record.migrate_to, Some(15));
    assert_eq!(record.after_hash, sha256_hex_prefixed(b"abc"));
}

#[test]
fn missing_paths_are_resolved_from_what_is_there() {
    let real = |at: &str| if at == "." { "/cwd".to_string() } else { format!("/real{at}") };
    assert_eq!(find("/r/a", &["/r/a"], &real), "/real/r/a");
    assert_eq!(find("/r/a/b/c", &["/r"], &real), "/real/r/a/b/c");
    assert_eq!(find("a/b", &[], &real), "/cwd/a/b");
    assert_eq!(find("/x", &["/"], &|_| "/".to_string()), "/x");
    let same = |at: &str| at.to_string();
    let there = ["/r/.beads", "/r", "/"];
    assert_eq!(find("/r/.beads/missing/../../victim.txt", &there, &same), "/r/victim.txt");
    assert_eq!(find("/r/.beads/missing/../x.txt", &there, &same), "/r/.beads/x.txt");
    assert_eq!(find("/r/gone/../../../../x", &there, &same), "/x");
    let through_link = |at: &str| at.replace("/r/.beads/link", "/elsewhere");
    assert_eq!(
        find("/r/.beads/missing/../link/x", &["/r/.beads", "/r/.beads/link"], &through_link),
        "/elsewhere/x"
    );
}

/// The canonical form of a path, where only these places are there.
fn find(path: &str, there: &[&str], canonical: &dyn Fn(&str) -> String) -> String {
    let mut sought = path.to_string();
    loop {
        let mut climb = begin_climb(&sought);
        while !climb.settled {
            let is_there = there.contains(&climb.at.as_str());
            climb = climb_on(climb, is_there);
        }
        let (resolved, look_again) =
            canonicalize_existing_or_parent(&canonical(&climb.at), &climb.below);
        if !look_again {
            return resolved;
        }
        assert_ne!(resolved, sought);
        sought = resolved;
    }
}

#[test]
fn paths_that_climb_out_of_a_scope_are_refused() {
    let scopes = vec!["/r/.beads".to_string(), "/r/.doctor".to_string()];
    let shown = "/r/.beads/missing/../../victim.txt";
    let err = ensure_in_scope(shown, &scopes, shown).expect_err("the path names /r/victim.txt");
    assert!(err.detail().contains("outside write_scopes"), "{err:?}");
    let there = ["/r/.beads", "/r", "/"];
    let named = find(shown, &there, &|at| at.to_string());
    assert!(ensure_in_scope(&named, &scopes, shown).is_err());
    let inside = find("/r/.beads/missing/../x.txt", &there, &|at| at.to_string());
    assert!(ensure_in_scope(&inside, &scopes, "/r/.beads/missing/../x.txt").is_ok());
    assert!(ensure_in_scope("/r/.beads/a/b", &scopes, "/r/.beads/a/b").is_ok());
    assert!(ensure_in_scope("/r/.beads/..a", &scopes, "/r/.beads/..a").is_ok());
    assert!(ensure_in_scope("/r/.beads2", &scopes, "/r/.beads2").is_err());
}

#[test]
fn backups_bring_back_what_was_there() {
    let target = "/tmp/r/.beads/any.bin";
    let orig: &[u8] = &[0, 255, 10, 13, 0];
    let ops = [
        (Op::WriteFile { content: b"x".to_vec(), mode: Some(0o644) }, b"x".to_vec()),
        (Op::AppendFile { content: b"x".to_vec() }, vec![0, 255, 10, 13, 0, 120]),
        (Op::Chmod { mode: 0o444 }, orig.to_vec()),
    ];
    for (op, now) in ops {
        let plan = mutate(&make_ctx(false), target, op, pre(target, Some(orig))).unwrap();
        let (backup, change, draft) = write_plan(plan);
        let backup = backup.unwrap();
        assert_eq!(backup.bytes, orig);
        assert_eq!((backup.mode, backup.modified), (Some(0o600), Some(CHANGED)));
        match change {
            FileChange::Replace { bytes, .. } => assert_eq!(bytes, now),
            FileChange::Chmod { mode } => assert_eq!(mode, 0o444),
            other => panic!("{other:?}"),
        }
        let (_, result) = record_action(draft, &Some(now.clone()), 9_000);
        assert_eq!(result.before_hash, sha256_hex_prefixed(orig));
        assert_eq!(result.after_hash, sha256_hex_prefixed(&now));
    }
}

#[test]
fn snapshot_names_run_out() {
    assert_eq!(next_snapshot_collision("t", "tag", 5, 0).unwrap(), 1);
    assert_eq!(next_snapshot_collision("t", "tag", 5, 998).unwrap(), 999);
    assert_eq!(
        next_snapshot_collision("t", "tag", 5, 999).unwrap_err().detail(),
        "doctor: exhausted DB snapshot collision suffixes for t__tag__00000000000000000005"
    );
}

#[test]
fn migrations_of_the_database_keep_a_way_back() {
    let mut step = DbMigrateStep::CheckRange;
    let mut seen = Vec::new();
    while step != DbMigrateStep::Done {
        seen.push(step);
        step = next_db_migrate_step(step, true);
    }
    assert_eq!(
        seen,
        vec![
            DbMigrateStep::CheckRange,
            DbMigrateStep::Snapshot,
            DbMigrateStep::ReadVersion,
            DbMigrateStep::CheckVersion,
            DbMigrateStep::Open,
            DbMigrateStep::Migrate,
        ]
    );
    assert_eq!(
        next_db_migrate_step(DbMigrateStep::CheckVersion, false),
        DbMigrateStep::RestoreUntouched
    );
    for opened in [DbMigrateStep::ReadVersion, DbMigrateStep::Open, DbMigrateStep::Migrate] {
        assert_eq!(next_db_migrate_step(opened, false), DbMigrateStep::RestoreSnapshot);
    }
    for step in [
        DbMigrateStep::CheckRange,
        DbMigrateStep::Snapshot,
        DbMigrateStep::RestoreUntouched,
        DbMigrateStep::RestoreSnapshot,
    ] {
        assert_eq!(next_db_migrate_step(step, false), DbMigrateStep::Failed);
    }
    let cause = || BeadsError::Database("locked".to_string());
    let shown = cause().detail();
    assert_eq!(migrate_failed_error(cause(), &shown, &Ok(())).detail(), shown);
    assert_eq!(
        migrate_failed_error(cause(), "locked", &Err("gone".to_string())).detail(),
        "doctor: db migrate failed (locked); restore from snapshot also failed: gone"
    );
}

#[test]
fn snapshots_are_recorded_with_the_digest_of_their_bytes() {
    let artifact = snapshot_artifact("/r/backups/db/t.json", &b"abc".to_vec());
    assert_eq!(artifact.path, "/r/backups/db/t.json");
    assert_eq!(
        artifact.sha256_prefixed,
        "sha256:ba7816bf8f01cfea414140de5dae2223b00361a396177a9cb410ff61f20015ad"
    );
}
