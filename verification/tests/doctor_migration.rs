use beads_commands::digest::sha256_hex_text;
use beads_commands::doctor_subsystems::apply::{
    applied_receipt, apply_report, attest, authorize, failed_error, failed_receipt,
    marked_at_time, next_apply_step, prepared_receipt, require_token, ApplyStep, Attestation,
};
use beads_commands::doctor_subsystems::encoding::{encode_row, SqlValue};
use beads_commands::doctor_subsystems::family::{
    directory_needed, file_sha256, hash_regular_file, observed_file, parent_directory,
    quarantine_step, raced_directory, raw_component_witness,
    require_copy_source, require_receipt, require_same_identity, restore_step, restored_mode,
    secure_file, stable_raw_eq, validate_raw_family_witness, verify_backup_component,
    DirectoryEntry, FileIdentity, Observed, QuarantineAction, RestoreAction,
};
use beads_commands::doctor_subsystems::maintenance::{
    adopt_failed_error, check_candidate, check_source_unchanged, install_rollback, install_script,
    maintenance_effects, next_maintenance_step, rename_install_rollback, rename_install_script,
    require_displaced_absent, require_rejected_absent, retain_failed_error,
    rollback_compacted_install, rollback_order, rollback_renamed_install, sidecar_step,
    InstallAction, MaintenanceStep, RejectAction, RenameAction, SidecarDecision,
};
use beads_commands::doctor_subsystems::receipts::{
    compute_plan_token, MigrationForecast, MigrationPlanReceipt,
};
use beads_commands::doctor_subsystems::schema_migration::{
    allocate_run_id, build_plan, constant_time_text_eq, execute, maintenance_candidate_path,
    next_run_counter, plan_route, run_id_text, validate_run_id, vacuum_sql, MigrateSchemaCommand,
    MigrationTask, PlanFacts, PlanRoute, SourceFacts,
};
use beads_commands::doctor_subsystems::undo::{
    finish_undo, next_undo_step, quarantine_dir_at, require_still_restored,
    require_unchanged_applied_state, undo_receipt, validate_applied_receipt,
    validate_completed_undo_receipt, validate_completed_undo_state, validate_prepared_digest,
    validate_prepared_receipt, validate_prepared_undo_receipt, UndoOutcome, UndoStep,
};
use beads_commands::doctor_subsystems::witness::{
    integrity_check_is_clean, integrity_check_is_repairable, logical_witness_of, quote_identifier,
    settle_witness, LogicalDatabaseWitness, LogicalTableWitness, RawComponentWitness,
    RawFamilyWitness, TableDump,
};
use beads_commands::error::BeadsError;

fn logical(version: u32) -> LogicalDatabaseWitness {
    LogicalDatabaseWitness {
        user_version: version,
        integrity_check: "ok".to_string(),
        schema_sha256: "schema".to_string(),
        contents_sha256: "contents".to_string(),
        tables: Vec::new(),
    }
}

fn component(suffix: &str, present: bool) -> RawComponentWitness {
    RawComponentWitness {
        suffix: suffix.to_string(),
        present,
        length: if present { Some(3) } else { None },
        sha256: if present { Some("ab".repeat(32)) } else { None },
        unix_mode: if present { Some(0o600) } else { None },
    }
}

fn family() -> RawFamilyWitness {
    RawFamilyWitness {
        components: vec![
            component("", true),
            component("-wal", false),
            component("-shm", false),
            component("-journal", false),
        ],
    }
}

fn forecast() -> MigrationForecast {
    MigrationForecast {
        from_version: 14,
        to_version: 15,
        content_hash_rows_rebuilt: 0,
        gate_result_history_created: true,
        post_migration_maintenance: true,
    }
}

#[test]
fn plan_token_binds_logical_state_not_sqlite_file_layout() {
    let mut logical = logical(14);
    let forecast = forecast();
    let first = compute_plan_token("db", &logical, &forecast);
    assert_eq!(
        first,
        compute_plan_token("db", &logical, &forecast),
        "a repeated logical observation must be stable even when SQLite checkpoints or \
         retires sidecars between CLI processes"
    );
    logical.contents_sha256 = "changed".to_string();
    assert_ne!(
        first,
        compute_plan_token("db", &logical, &forecast),
        "any logical content change must stale the token"
    );
    logical.contents_sha256 = "contents".to_string();
    assert_ne!(
        first,
        compute_plan_token("different-db", &logical, &forecast),
        "the absolute database route remains token-bound"
    );
    assert_eq!(first.len(), 64);
    assert!(first.chars().all(|c| c.is_ascii_hexdigit() && !c.is_ascii_uppercase()));
}

#[test]
fn constant_time_text_comparison_covers_length_and_content() {
    assert!(constant_time_text_eq("abc", "abc"));
    assert!(!constant_time_text_eq("abc", "abd"));
    assert!(!constant_time_text_eq("abc", "ab"));
    assert!(!constant_time_text_eq("", "x"));
}

#[test]
fn integrity_classification_allows_only_known_page_layout_artifacts() {
    assert!(integrity_check_is_clean("ok"));
    assert!(!integrity_check_is_repairable("ok"));
    assert!(integrity_check_is_repairable(
        "database disk image is malformed: page 54 is never used"
    ));
    assert!(integrity_check_is_repairable(
        "*** in database main ***\nrow 3 missing from index idx_issues_ready"
    ));
    assert!(!integrity_check_is_repairable(
        "database disk image is malformed: btree page 12 cell 4"
    ));
    assert!(!integrity_check_is_repairable(
        "page 54 is never used\nforeign key constraint failed"
    ));
}

#[test]
fn run_id_validation_refuses_path_traversal() {
    for invalid in ["", ".", "..", "../run", "a/b", "a\\b"] {
        assert!(validate_run_id(invalid).is_err(), "{invalid:?}");
    }
    assert!(validate_run_id("20260727T120000.000000Z-1-0").is_ok());
}

#[test]
fn run_ids_carry_time_process_and_counter() {
    assert_eq!(run_id_text("stamp", 7, 3), "stamp-7-3");
    let id = allocate_run_id(1_735_787_040, 5_000, 7, 3);
    assert_eq!(id, "20250102T030400.000005Z-7-3");
    assert!(validate_run_id(&id).is_ok());
    assert_eq!(next_run_counter(0).unwrap(), 1);
    assert_eq!(
        next_run_counter(999).unwrap_err().detail(),
        "could not allocate a unique schema-migration run id"
    );
}

fn source() -> SourceFacts {
    SourceFacts {
        has_issues: true,
        has_dirty_issues: true,
        has_export_hashes: true,
        issue_count: 1,
        has_gate_result_history: false,
    }
}

#[test]
fn reviewed_apply_refuses_stale_plan_before_creating_a_run() {
    assert_eq!(plan_route(&logical(14), 15).unwrap(), PlanRoute::ReadSource);
    let plan = build_plan("/w/beads.db", logical(14), family(), 15, PlanFacts::Source(source())).unwrap();
    assert!(plan.eligible);
    assert_eq!(plan.from_version, 14);
    assert_eq!(plan.to_version, 15);
    let token = plan.plan_token.clone().expect("plan token");
    assert_eq!(authorize(&plan, &token).unwrap(), plan.forecast.unwrap());

    let mut changed = logical(14);
    changed.contents_sha256 = "changed".to_string();
    let fresh = build_plan("/w/beads.db", changed, family(), 15, PlanFacts::Source(source())).unwrap();
    let error = authorize(&fresh, &token).unwrap_err();
    assert!(error.detail().contains("plan token is stale"), "{error:?}");
    assert_eq!(next_apply_step(ApplyStep::Authorize, false), ApplyStep::Failed);
}

#[test]
fn tokens_must_be_given() {
    assert!(require_token("  ").is_err());
    assert_eq!(require_token(" abc ").unwrap(), "abc");
}

#[test]
fn migrations_wait_for_the_recovery_bundle() {
    let mut step = ApplyStep::Authorize;
    let mut seen = Vec::new();
    while step != ApplyStep::Report {
        seen.push(step);
        step = next_apply_step(step, true);
    }
    let at = |s: ApplyStep| seen.iter().position(|x| *x == s).unwrap();
    assert!(at(ApplyStep::VerifyBundle) < at(ApplyStep::WritePrepared));
    assert!(at(ApplyStep::WritePrepared) < at(ApplyStep::Migrate));
    assert!(at(ApplyStep::Migrate) < at(ApplyStep::Attest));
    assert_eq!(next_apply_step(ApplyStep::Migrate, false), ApplyStep::ReverifyAuthorityAfterFailure);
}

#[test]
fn attestation_names_what_differs() {
    let effects = || {
        let mut e = maintenance_effects(15);
        e.from_version = 14;
        e.to_version = 15;
        e.gate_result_history_created = true;
        e.post_migration_maintenance_completed = true;
        e
    };
    let good = Attestation {
        effects: effects(),
        logical_after: Ok(logical(15)),
        raw_after: Ok(family()),
        shape_canonical: Ok(true),
    };
    assert!(attest(&forecast(), &good).is_empty(), "{:?}", attest(&forecast(), &good));
    let bad = Attestation {
        effects: effects(),
        logical_after: Ok(logical(14)),
        raw_after: Err("gone".to_string()),
        shape_canonical: Ok(false),
    };
    assert!(attest(&forecast(), &bad).len() >= 3);
    let mut other = forecast();
    other.content_hash_rows_rebuilt = 7;
    assert_eq!(attest(&other, &good).len(), 1);
}

#[test]
fn candidates_must_hold_what_the_source_holds() {
    assert!(check_source_unchanged(&logical(14), &logical(14), "/c").is_ok());
    let mut changed = logical(14);
    changed.contents_sha256 = "x".to_string();
    assert!(check_source_unchanged(&logical(14), &changed, "/c").is_err());
    assert!(check_candidate(&logical(15), &logical(15), 15, 15, true, "/c").is_ok());
    assert!(check_candidate(&logical(15), &changed, 15, 15, true, "/c").is_err());
    let mut step = MaintenanceStep::VerifyAuthority;
    let mut count = 0;
    while step != MaintenanceStep::Done {
        step = next_maintenance_step(step, true, true);
        count += 1;
        assert!(count < 40);
    }
    assert_eq!(next_maintenance_step(MaintenanceStep::Install, false, true), MaintenanceStep::PutSidecarsBack);
    assert_eq!(next_maintenance_step(MaintenanceStep::Vacuum, true, false), MaintenanceStep::Reindex);
    let script = install_script();
    assert!(script.contains(&InstallAction::Exchange));
    assert!(install_rollback(InstallAction::RequireDisplacedAbsent).is_empty());
}

#[test]
fn reviewed_undo_resumes_after_partial_quarantine() {
    let present = Observed::Regular { length: 3, sha256: "ab".repeat(32) };
    let gone = Observed::Missing;
    let restored = family();
    assert_eq!(
        quarantine_step(&component("", true), &present, &gone, &restored, "/s", "/d").unwrap(),
        QuarantineAction::Move
    );
    let other = Observed::Regular { length: 9, sha256: "zzz".to_string() };
    assert_eq!(
        quarantine_step(&component("", true), &gone, &present, &restored, "/s", "/d").unwrap(),
        QuarantineAction::Keep
    );
    assert!(quarantine_step(&component("", true), &other, &gone, &restored, "/s", "/d").is_err());
    assert!(matches!(
        restore_step(&component("", true), &gone, "/l").unwrap(),
        RestoreAction::Copy(Some(0o600))
    ));
    assert!(matches!(
        restore_step(&component("-wal", false), &gone, "/l").unwrap(),
        RestoreAction::LeaveAbsent
    ));
    let mut step = UndoStep::FindCompleted;
    for outcome in [
        UndoOutcome::NotFound,
        UndoOutcome::Done,
        UndoOutcome::Done,
        UndoOutcome::Done,
        UndoOutcome::Done,
    ] {
        step = next_undo_step(step, outcome, false);
    }
    assert_eq!(step, UndoStep::EnsureQuarantine);
    assert_eq!(next_undo_step(UndoStep::FindBegun, UndoOutcome::Done, true), UndoStep::Failed);
    assert_eq!(next_undo_step(UndoStep::CheckLive, UndoOutcome::Done, true), UndoStep::ReportDryRun);
}

#[test]
fn witnesses_of_files_are_validated() {
    assert!(validate_raw_family_witness(&family()).is_ok());
    let mut broken = family();
    broken.components.pop();
    assert!(validate_raw_family_witness(&broken).is_err());
    assert!(stable_raw_eq(&family(), &family()));
    assert!(secure_file(&Observed::Symlink, "/x").is_err());
    assert!(!secure_file(&Observed::Missing, "/x").unwrap());
}

#[test]
fn witnesses_of_contents_tell_rows_apart() {
    let dump = |rows: Vec<Vec<SqlValue>>| {
        vec![TableDump { name: "issues".to_string(), columns: 2, rows }]
    };
    let row = |a: &str, b: &str| vec![SqlValue::Text(a.to_string()), SqlValue::Text(b.to_string())];
    let one = logical_witness_of(15, "ok", &Vec::new(), &dump(vec![row("a", "bc"), row("d", "e")]));
    let same = logical_witness_of(15, "ok", &Vec::new(), &dump(vec![row("d", "e"), row("a", "bc")]));
    let other = logical_witness_of(15, "ok", &Vec::new(), &dump(vec![row("ab", "c"), row("d", "e")]));
    assert!(one.same(&same));
    assert!(!one.same(&other));
    assert_eq!(one.tables[0].row_count, 2);
    assert_ne!(
        encode_row(&vec![SqlValue::Null, SqlValue::Integer(0)], 2),
        encode_row(&vec![SqlValue::Integer(0), SqlValue::Null], 2)
    );
    assert_eq!(quote_identifier("a\"b"), "\"a\"\"b\"");
    assert!(settle_witness(logical(15), "ok", "ok").is_ok());
}

#[test]
fn commands_become_tasks() {
    let plan = execute(&MigrateSchemaCommand::Plan, Some("/w/.beads")).unwrap();
    assert!(matches!(plan, MigrationTask::Plan));
    let apply = execute(
        &MigrateSchemaCommand::Apply { plan_token: " t ".to_string() },
        Some("/w/.beads"),
    )
    .unwrap();
    match apply {
        MigrationTask::Apply { token, runs_root } => {
            assert_eq!(token, "t");
            assert!(runs_root.starts_with("/w/.beads/.br_recovery"));
        }
        other => panic!("{other:?}"),
    }
    let undo = MigrateSchemaCommand::Undo { run_id: "../x".to_string(), dry_run: true };
    assert!(execute(&undo, Some("/w/.beads")).is_err());
    assert!(matches!(
        execute(&MigrateSchemaCommand::Plan, None).unwrap_err(),
        BeadsError::NotInitialized
    ));
    assert!(maintenance_candidate_path("/w/beads.db", "/w/runs/r1").unwrap().starts_with("/w/"));
    assert_eq!(vacuum_sql("/a'b"), "VACUUM INTO '/a''b'");
}

fn plan() -> MigrationPlanReceipt {
    build_plan("/w/beads.db", logical(14), family(), 15, PlanFacts::Source(source())).unwrap()
}

fn attestation() -> Attestation {
    let mut effects = maintenance_effects(14);
    effects.to_version = 15;
    effects.gate_result_history_created = true;
    effects.post_migration_maintenance_completed = true;
    Attestation {
        effects,
        logical_after: Ok(logical(15)),
        raw_after: Ok(family()),
        shape_canonical: Ok(true),
    }
}

#[test]
fn receipts_of_one_run_are_accepted_together() {
    let digest = "cd".repeat(32);
    let applied_digest = "ef".repeat(32);
    let marked = marked_at_time(1_735_787_040, 0);
    assert_eq!(marked, "2025-01-02T03:04:00+00:00");
    let prepared = || prepared_receipt(&plan(), "r1", &marked);
    let applied = applied_receipt(prepared(), &digest, attestation());
    assert!(applied.attested, "{:?}", applied.attestation_errors);
    assert_eq!(Some(applied.forecast), plan().forecast);
    assert_eq!(applied.effects.to_version, applied.forecast.to_version);
    let mut rebuilt = attestation();
    rebuilt.effects.content_hash_rows_rebuilt += 1;
    let differs = applied_receipt(prepared(), &digest, rebuilt);
    assert!(!differs.attested);
    assert!(differs.attestation_errors[0].starts_with("committed effects differ"));
    assert_eq!(applied.undo_command, "br doctor migrate-schema undo r1");
    let report = apply_report(&applied, "/w/runs/r1").unwrap();
    assert!(report[0].contains("14 -> 15 (run r1)"), "{report:?}");

    assert!(validate_applied_receipt(&applied, "r1", "/w/beads.db").is_ok());
    assert!(validate_applied_receipt(&applied, "r2", "/w/beads.db").is_err());
    assert!(validate_applied_receipt(&applied, "r1", "/v/beads.db").is_err());
    assert!(validate_prepared_digest(&applied, &digest, "r1").is_ok());
    assert!(validate_prepared_digest(&applied, &applied_digest, "r1").is_err());
    assert!(validate_prepared_receipt(&prepared(), &applied, "r1").is_ok());
    let other = prepared_receipt(&plan(), "r1", "later");
    assert!(validate_prepared_receipt(&other, &applied, "r1").is_err());

    assert!(require_unchanged_applied_state(&applied, &family(), &Some(logical(15)), "r1").is_ok());
    assert!(require_unchanged_applied_state(&applied, &family(), &Some(logical(14)), "r1").is_err());
    let quarantine = quarantine_dir_at("/w/runs/r1", 1_735_787_040, 5_000, 7);
    assert_eq!(quarantine, "/w/runs/r1/undo-quarantine/undo-20250102T030400.000005Z-7");
    let begun = || {
        undo_receipt(
            &applied,
            "r1",
            false,
            "/w/beads.db",
            &quarantine,
            &applied_digest,
            family(),
            Some(logical(15)),
        )
    };
    let resumes = |run_dir: &str, digest: &str| {
        validate_prepared_undo_receipt(&begun(), "r1", "/w/beads.db", run_dir, digest, &applied)
    };
    assert!(resumes("/w/runs/r1", &applied_digest).is_ok());
    assert!(resumes("/w/runs/r2", &applied_digest).is_err());
    assert!(resumes("/w/runs/r1", &digest).is_err());

    let wrong = finish_undo(begun(), &applied, family(), logical(15), "r1", &quarantine);
    assert!(wrong.is_err());
    let done = finish_undo(begun(), &applied, family(), logical(14), "r1", &quarantine).unwrap();
    assert!(validate_completed_undo_receipt(&done, "r1", "/w/beads.db").is_ok());
    assert!(validate_completed_undo_receipt(&begun(), "r2", "/w/beads.db").is_err());
    assert!(validate_completed_undo_state(&done, "r1", "/w/runs/r1", &applied_digest).is_ok());
    assert!(validate_completed_undo_state(&begun(), "r1", "/w/runs/r1", &applied_digest).is_err());
    assert!(require_still_restored(&done, &logical(14), "r1").is_ok());
    assert!(require_still_restored(&done, &logical(15), "r1").is_err());
}

#[test]
fn failures_name_the_bundle_that_remains() {
    let prepared = prepared_receipt(&plan(), "r1", "now");
    let failed = failed_receipt(prepared, "no space", Some(family()), None);
    assert_eq!(failed.error, "no space");
    assert_eq!(failed.run_id, "r1");
    assert!(failed.raw_observed_after_failure.is_some());
    assert!(failed.logical_observed_after_failure.is_none());
    let error = failed_error("r1", "/w/runs/r1/before", BeadsError::Outside("no space".to_string()));
    assert!(error.detail().contains("/w/runs/r1/before"), "{error:?}");
}

#[test]
fn files_are_opened_only_as_they_were_seen() {
    let seen = FileIdentity { device: 1, inode: 2, length: 3 };
    let other = FileIdentity { device: 1, inode: 9, length: 3 };
    assert!(require_same_identity(seen, seen, "/f", true).is_ok());
    assert_eq!(
        require_same_identity(seen, other, "/f", true).unwrap_err().detail(),
        "schema migration source changed identity before copy: /f"
    );
    assert_eq!(
        require_same_identity(seen, other, "/f", false).unwrap_err().detail(),
        "schema migration file changed identity while opening /f"
    );
    let digest = "ba7816bf8f01cfea414140de5dae2223b00361a396177a9cb410ff61f20015ad";
    let file = hash_regular_file(seen, seen, &b"abc".to_vec(), "/f").unwrap();
    assert!(matches!(file, Observed::Regular { length: 3, ref sha256 } if sha256 == digest));
    assert_eq!(
        hash_regular_file(seen, other, &b"abc".to_vec(), "/f").unwrap_err().detail(),
        "schema migration file changed identity while opening /f"
    );
    assert_eq!(file_sha256(&file, "/f").unwrap(), digest);
    let witness = raw_component_witness("/w/beads.db", "-wal", &file, Some(0o600)).unwrap();
    assert_eq!(witness.length, Some(3));
    assert_eq!(witness.sha256.as_deref(), Some(digest));
    assert!(verify_backup_component(&witness, &observed_file(&b"abc".to_vec()), "/b").is_ok());
    assert!(verify_backup_component(&witness, &observed_file(&b"abd".to_vec()), "/b").is_err());
    let regular = |length: u64| Observed::Regular { length, sha256: "ab".repeat(32) };
    assert!(require_copy_source(&regular(3), "/f").is_ok());
    assert_eq!(
        require_copy_source(&Observed::Missing, "/f").unwrap_err().detail(),
        "schema migration source disappeared before copy: /f"
    );
    assert_eq!(
        file_sha256(&Observed::Missing, "/f").unwrap_err().detail(),
        "schema migration artifact does not exist: /f"
    );
    assert!(require_receipt(&regular(16 * 1024 * 1024), "/f").is_ok());
    assert_eq!(
        require_receipt(&regular(16 * 1024 * 1024 + 1), "/f").unwrap_err().detail(),
        "schema migration receipt exceeds 16 MiB: /f"
    );
    assert_eq!(
        require_receipt(&Observed::Missing, "/f").unwrap_err().detail(),
        "schema migration receipt does not exist: /f"
    );
    assert_eq!(
        require_receipt(&Observed::Symlink, "/f").unwrap_err().detail(),
        "refusing schema migration file-family symlink /f"
    );
    assert!(verify_backup_component(&component("", true), &regular(3), "/b").is_ok());
    assert!(verify_backup_component(&component("", true), &regular(4), "/b").is_err());
    assert_eq!(restored_mode(None), 0o600);
    assert_eq!(restored_mode(Some(0o100644)), 0o644);
}

#[test]
fn directories_are_real_ones() {
    assert!(directory_needed(DirectoryEntry::Missing, "/d").unwrap());
    assert!(!directory_needed(DirectoryEntry::Directory, "/d").unwrap());
    assert!(directory_needed(DirectoryEntry::Other, "/d").is_err());
    assert_eq!(parent_directory("/d/e", false).unwrap(), "/d");
    assert_eq!(
        parent_directory("/", true).unwrap_err().detail(),
        "schema migration directory has no parent: /"
    );
    assert_eq!(
        parent_directory("/", false).unwrap_err().detail(),
        "schema migration artifact directory has no parent: /"
    );
    assert!(raced_directory(DirectoryEntry::Directory, "/d").is_ok());
    assert_eq!(
        raced_directory(DirectoryEntry::Other, "/d").unwrap_err().detail(),
        "schema migration artifact path raced to a non-directory: /d"
    );
}

#[test]
fn kept_databases_are_not_overwritten() {
    let present = Observed::Regular { length: 3, sha256: "ab".repeat(32) };
    assert!(require_displaced_absent(&Observed::Missing, "/k").is_ok());
    assert_eq!(
        require_displaced_absent(&present, "/k").unwrap_err().detail(),
        "refusing to overwrite retained pre-compaction database /k"
    );
    assert!(require_rejected_absent(&Observed::Missing, "/k").is_ok());
    assert_eq!(
        require_rejected_absent(&present, "/k").unwrap_err().detail(),
        "refusing to overwrite retained failed compacted database /k"
    );
}

/// What stands at the live path, the candidate's, the displaced one's and the rejected one's.
type Places = [Option<char>; 4];

fn moved(mut at: Places, from: usize, to: usize) -> Places {
    at[to] = at[from];
    at[from] = None;
    at
}

fn swapped(mut at: Places, a: usize, b: usize) -> Places {
    at.swap(a, b);
    at
}

fn rejected(mut at: Places, actions: Vec<RejectAction>) -> Places {
    for action in actions {
        at = match action {
            RejectAction::Exchange => swapped(at, 0, 2),
            RejectAction::KeepRejected => moved(at, 2, 3),
            RejectAction::MoveRejectedAway => moved(at, 0, 3),
            RejectAction::MoveOldBack => moved(at, 2, 0),
            _ => at,
        };
    }
    at
}

#[test]
fn installations_by_moves_and_by_exchange_agree() {
    let start: Places = [Some('o'), Some('n'), None, None];
    let mut by_exchange = start;
    for action in install_script() {
        by_exchange = match action {
            InstallAction::Exchange => swapped(by_exchange, 0, 1),
            InstallAction::RetainDisplaced => moved(by_exchange, 1, 2),
            _ => by_exchange,
        };
    }
    let rename = |mut at: Places, actions: Vec<RenameAction>| {
        for action in actions {
            at = match action {
                RenameAction::MoveLiveAway => moved(at, 0, 2),
                RenameAction::MoveCandidateIn => moved(at, 1, 0),
                RenameAction::MoveCandidateBack => moved(at, 0, 1),
                RenameAction::MoveLiveBack => moved(at, 2, 0),
                _ => at,
            };
        }
        at
    };
    let by_moves = rename(start, rename_install_script());
    assert_eq!(by_exchange, [Some('n'), None, Some('o'), None]);
    assert_eq!(by_moves, by_exchange);
    let back = rejected(by_exchange, rollback_compacted_install());
    assert_eq!(back, [Some('o'), None, None, Some('n')]);
    assert_eq!(rejected(by_moves, rollback_renamed_install()), back);
    let upto_adopt = rename_install_script().into_iter().take(3).collect();
    let failed = rename(start, upto_adopt);
    assert_eq!(rename(failed, rename_install_rollback(RenameAction::Adopt)), start);
}

#[test]
fn failed_installations_say_what_was_taken_back() {
    let cause = || BeadsError::Outside("busy".to_string());
    assert_eq!(adopt_failed_error(cause(), "busy", &Ok(())).detail(), "busy");
    assert_eq!(
        adopt_failed_error(cause(), "busy", &Err("gone".to_string())).detail(),
        "database replacement authority adoption failed (busy); atomic exchange rollback also \
         failed (gone)"
    );
    assert_eq!(retain_failed_error("busy", &Ok(()), &Ok(())).detail(), "busy");
    assert!(retain_failed_error("busy", &Ok(()), &Err("gone".to_string()))
        .detail()
        .contains("exchange rollback=Ok(())"));
    let moved = vec!["-wal".to_string(), "-shm".to_string()];
    assert_eq!(rollback_order(&moved), vec!["-shm".to_string(), "-wal".to_string()]);
    let present = Observed::Regular { length: 3, sha256: "ab".repeat(32) };
    let wal = component("-wal", true);
    assert!(matches!(
        sidecar_step(&wal, &present, &Observed::Missing, "/s", "/d"),
        SidecarDecision::Move
    ));
    assert!(matches!(
        sidecar_step(&wal, &present, &present, "/s", "/d"),
        SidecarDecision::RollBack { .. }
    ));
    assert!(matches!(
        sidecar_step(&wal, &Observed::Missing, &Observed::Missing, "/s", "/d"),
        SidecarDecision::Refuse { .. }
    ));
}

#[test]
fn plan_tokens_are_digests_of_their_material() {
    let mut witness = logical(14);
    witness.integrity_check = "a\"b\n".to_string();
    witness.tables = ["issues", "labels"]
        .iter()
        .map(|name| LogicalTableWitness {
            name: name.to_string(),
            row_count: 2,
            rows_sha256: "rows".to_string(),
        })
        .collect();
    let material = |forecast_end: &str| {
        let head = "{\"contract\":\"br.doctor.schema_migration.plan.v1\",\
                    \"database_path\":\"/w/\u{e9}.db\",\"from_version\":14,\"to_version\":15,\
                    \"logical_witness\":{\"user_version\":14,\"integrity_check\":\"a\\\"b\\n\",\
                    \"schema_sha256\":\"schema\",\"contents_sha256\":\"contents\",\"tables\":[\
                    {\"name\":\"issues\",\"row_count\":2,\"rows_sha256\":\"rows\"},\
                    {\"name\":\"labels\",\"row_count\":2,\"rows_sha256\":\"rows\"}]},\
                    \"forecast\":{\"from_version\":14,\"to_version\":15,\
                    \"content_hash_rows_rebuilt\":0,\"gate_result_history_created\":true";
        sha256_hex_text(format!("{head}{forecast_end}}}}}").as_bytes())
    };
    let mut forecast = forecast();
    assert_eq!(
        compute_plan_token("/w/\u{e9}.db", &witness, &forecast),
        material(",\"post_migration_maintenance\":true")
    );
    forecast.post_migration_maintenance = false;
    assert_eq!(compute_plan_token("/w/\u{e9}.db", &witness, &forecast), material(""));
}

#[test]
fn plans_without_a_route_are_refused() {
    let facts = || PlanFacts::Source(source());
    let refused = plan_route(&logical(9), 15).unwrap_err().detail();
    assert_eq!(
        refused,
        "reviewed schema migration is available only from source schemas 13, 14, 15, and 16 to 15; \
         observed unsupported source version 9"
    );
    let err = build_plan("/w/beads.db", logical(9), family(), 15, facts()).unwrap_err();
    assert_eq!(err.detail(), refused);
    let mut broken = logical(14);
    broken.integrity_check = "btree page 12".to_string();
    let err = build_plan("/w/beads.db", broken, family(), 15, facts()).unwrap_err();
    assert!(err.detail().contains("PRAGMA integrity_check returned diagnostics"), "{err:?}");
}

#[test]
fn undone_migrations_are_reported_only_after_a_check() {
    let run = |failing: Option<UndoStep>, completed: bool| {
        let mut step = UndoStep::FindCompleted;
        let mut seen = Vec::new();
        while !matches!(step, UndoStep::Report | UndoStep::Failed) {
            seen.push(step);
            let outcome = if failing == Some(step) {
                UndoOutcome::Failed
            } else if step == UndoStep::FindBegun || (step == UndoStep::FindCompleted && !completed) {
                UndoOutcome::NotFound
            } else {
                UndoOutcome::Done
            };
            step = next_undo_step(step, outcome, false);
        }
        (step, seen)
    };
    let (end, seen) = run(None, false);
    assert_eq!(end, UndoStep::Report);
    assert!(seen.contains(&UndoStep::CheckRestored));
    let (end, again) = run(None, true);
    assert_eq!(end, UndoStep::Report);
    assert_eq!(again, vec![UndoStep::FindCompleted, UndoStep::CheckCompleted]);
    for step in seen {
        assert_eq!(run(Some(step), false).0, UndoStep::Failed);
    }
    assert_eq!(run(Some(UndoStep::CheckCompleted), true).0, UndoStep::Failed);
}

#[test]
fn applied_migrations_are_undone_file_by_file() {
    let seen = |file: Option<&str>| match file {
        Some(bytes) => observed_file(&bytes.as_bytes().to_vec()),
        None => Observed::Missing,
    };
    let suffixes = ["", "-wal", "-shm", "-journal"];
    let witness = |files: [Option<&str>; 4]| RawFamilyWitness {
        components: suffixes
            .iter()
            .zip(files)
            .map(|(suffix, file)| {
                let mode = file.map(|_| 0o600);
                raw_component_witness("/w/beads.db", suffix, &seen(file), mode).unwrap()
            })
            .collect(),
    };
    let old_files = [Some("old"), None, None, Some("journal")];
    let new_files = [Some("migrated"), Some("wal"), None, None];
    let (old, new) = (witness(old_files), witness(new_files));
    for i in 0..4 {
        let (before, after) = (&old.components[i], &new.components[i]);
        let (live, bundle) = (seen(new_files[i]), seen(old_files[i]));
        assert!(verify_backup_component(before, &bundle, "/b").is_ok());
        let action = quarantine_step(after, &live, &Observed::Missing, &old, "/s", "/d").unwrap();
        assert_eq!(action == QuarantineAction::Move, after.present);
        let restored = restore_step(before, &Observed::Missing, "/l").unwrap();
        if before.present {
            assert!(matches!(restored, RestoreAction::Copy(Some(0o600))));
        } else {
            assert!(matches!(restored, RestoreAction::LeaveAbsent));
        }
    }
}
