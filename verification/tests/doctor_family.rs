use beads_commands::digest::sha256_hex_text;
use beads_commands::doctor_subsystems::encoding::SqlValue;
use beads_commands::doctor_subsystems::family::{
    backup_component_path, component_for_suffix, family_component_path, family_suffix,
    present_sidecars, raw_component_witness, refuse_non_regular_component, require_absent_family,
    same_file_identity, verify_component_bytes, FileIdentity, Observed,
};
use beads_commands::doctor_subsystems::maintenance::{
    adopt_moved_failed_error, completed_effects, install_failed_error, installed_is_exact,
    maintenance_effects, move_in_failed_error, rejected_error, restore_moved_check,
    sidecar_move_error, sidecar_rolled_back_error,
};
use beads_commands::doctor_subsystems::mutate::{
    directory_path, elapsed_ns, ensure_in_scope, primary_backup_path, verbatim_backup_path,
};
use beads_commands::doctor_subsystems::mutate_db::{predicate_hash, validate_identifiers};
use beads_commands::doctor_subsystems::run_dir::{
    generate_run_id, run_id_from, run_material_bytes, RunMoment,
};
use beads_commands::doctor_subsystems::schema_migration::{
    build_plan, current_runtime_shape_is_canonical, current_schema_version, emit_plan, migration_runs_root, named_table_sql,
    require_source_tables, PlanFacts, SourceFacts,
};
use beads_commands::doctor_subsystems::undo::{begun_undo_error, validate_quarantine_path};
use beads_commands::doctor_subsystems::witness::{
    columns_query, integrity_check_messages, logical_witnesses_match_except_integrity, query_count,
    query_user_version, rows_query, table_name, LogicalDatabaseWitness, RawComponentWitness, RawFamilyWitness,
};
use beads_commands::error::BeadsError;

fn text(value: &str) -> SqlValue {
    SqlValue::Text(value.to_string())
}

fn regular() -> Observed {
    Observed::Regular { length: 3, sha256: "ab".repeat(32) }
}

fn logical(version: u32) -> LogicalDatabaseWitness {
    LogicalDatabaseWitness {
        user_version: version,
        integrity_check: "ok".to_string(),
        schema_sha256: "schema".to_string(),
        contents_sha256: "contents".to_string(),
        tables: Vec::new(),
    }
}

fn component(suffix: &str, present: bool) -> RawComponentWitness {
    let seen = if present { regular() } else { Observed::Missing };
    raw_component_witness("/w/beads.db", suffix, &seen, present.then_some(0o100600)).unwrap()
}

fn family(wal: bool) -> RawFamilyWitness {
    RawFamilyWitness {
        components: vec![
            component("", true),
            component("-wal", wal),
            component("-shm", false),
            component("-journal", false),
        ],
    }
}

#[test]
fn family_files_are_named_after_the_database() {
    assert_eq!((0..4).map(family_suffix).collect::<Vec<_>>(), ["", "-wal", "-shm", "-journal"]);
    assert_eq!(family_component_path("/w/beads.db", "-wal"), "/w/beads.db-wal");
    assert_eq!(backup_component_path("/b", "/w/beads.db", "-wal").unwrap(), "/b/beads.db-wal");
    assert_eq!(
        backup_component_path("/b", "/", "").unwrap_err().detail(),
        "database path has no file name: /"
    );
}

#[test]
fn families_are_witnessed_file_by_file() {
    let main = component("", true);
    assert!(main.present);
    assert_eq!(main.length, Some(3));
    assert_eq!(main.sha256, Some("ab".repeat(32)));
    assert_eq!(main.unix_mode, Some(0o100600));
    assert!(!component("-wal", false).present);
    assert!(raw_component_witness("/w/beads.db", "", &Observed::Symlink, None).is_err());
    assert_eq!(component_for_suffix(&family(true), "-wal").unwrap().length, Some(3));
    assert_eq!(
        component_for_suffix(&family(true), "-x").unwrap_err().detail(),
        "schema migration witness omits required family suffix \"-x\""
    );
    assert_eq!(present_sidecars(&family(true)), vec!["-wal".to_string()]);
    assert!(present_sidecars(&family(false)).is_empty());
    assert!(verify_component_bytes("/f", 3, &"ab".repeat(32), &main).is_ok());
    assert_eq!(
        verify_component_bytes("/f", 4, &"ab".repeat(32), &main).unwrap_err().detail(),
        "schema migration component does not match its receipt: /f"
    );
    let at = |length: u64| FileIdentity { device: 1, inode: 2, length };
    assert!(same_file_identity(at(3), at(3)));
    assert!(!same_file_identity(at(3), at(4)));
}

#[test]
fn families_must_be_regular_or_absent() {
    let seen = |first: Observed| vec![first, Observed::Missing, Observed::Missing, Observed::Missing];
    assert!(refuse_non_regular_component("/w/beads.db", &seen(regular())).is_ok());
    assert!(matches!(
        refuse_non_regular_component("/w/beads.db", &seen(Observed::Missing)).unwrap_err(),
        BeadsError::DatabaseNotFound { path } if path == "/w/beads.db"
    ));
    assert_eq!(
        refuse_non_regular_component("/w/beads.db", &seen(Observed::Irregular)).unwrap_err().detail(),
        "schema migration family member is not a regular file: /w/beads.db"
    );
    assert!(require_absent_family("/c", &seen(Observed::Missing)).is_ok());
    assert_eq!(
        require_absent_family("/c", &seen(regular())).unwrap_err().detail(),
        "refusing to overwrite retained schema-migration candidate /c"
    );
}

#[test]
fn installed_databases_must_be_the_candidate() {
    assert!(installed_is_exact(&logical(15), &Some(logical(15))));
    assert!(!installed_is_exact(&logical(15), &Some(logical(14))));
    assert!(!installed_is_exact(&logical(15), &None));
    assert!(rejected_error(&None, "/failed").detail().contains("logical witness unavailable"));
    assert!(rejected_error(&Some(logical(15)), "/failed").detail().contains("(\"ok\")"));
    assert!(completed_effects(maintenance_effects(15)).post_migration_maintenance_completed);
    assert!(restore_moved_check(&Observed::Missing, "/l").is_ok());
    assert!(restore_moved_check(&regular(), "/l").unwrap_err().detail().ends_with(": /l"));
}

#[test]
fn failed_work_says_whether_it_was_taken_back() {
    let cause = || BeadsError::Outside("busy".to_string());
    let gone = || Err("gone".to_string());
    assert_eq!(install_failed_error(cause(), &Ok(()), "busy").detail(), "busy");
    assert_eq!(
        install_failed_error(cause(), &gone(), "busy").detail(),
        "compacted database installation failed (busy); restoring retained sidecars also failed \
         (gone)"
    );
    assert_eq!(move_in_failed_error("busy", &Ok(())).detail(), "busy");
    assert_eq!(
        move_in_failed_error("busy", &gone()).detail(),
        "could not install compacted database (busy); restoring the retained original also failed \
         (gone)"
    );
    assert_eq!(adopt_moved_failed_error(cause(), "busy", &Ok(()), &Ok(())).detail(), "busy");
    assert_eq!(
        adopt_moved_failed_error(cause(), "busy", &Ok(()), &gone()).detail(),
        "database replacement authority adoption failed (busy); candidate rollback=Ok(()), \
         original rollback=Err(gone)"
    );
    assert_eq!(sidecar_rolled_back_error("taken", &Ok(())).detail(), "taken");
    assert!(sidecar_rolled_back_error("taken", &gone()).detail().contains("gone"));
    assert_eq!(sidecar_move_error("/s", "busy", &Ok(())).detail(), "busy");
    assert_eq!(
        sidecar_move_error("/s", "busy", &gone()).detail(),
        "could not retain schema-migration sidecar /s (busy); rollback of prior sidecar moves also \
         failed: gone"
    );
}

#[test]
fn rows_of_the_schema_are_read() {
    assert_eq!(table_name(&vec![text("issues")]).unwrap(), "issues");
    assert_eq!(
        table_name(&vec![SqlValue::Integer(1)]).unwrap_err().detail(),
        "sqlite_master table name was not text"
    );
    assert_eq!(query_user_version(&vec![SqlValue::Integer(17)]).unwrap(), 17);
    assert_eq!(
        query_user_version(&vec![SqlValue::Integer(-1)]).unwrap_err().detail(),
        "PRAGMA user_version was not a nonnegative u32"
    );
    assert_eq!(query_count(&vec![SqlValue::Integer(3)], "Q").unwrap(), 3);
    assert_eq!(
        query_count(&vec![SqlValue::Null], "Q").unwrap_err().detail(),
        "count query returned an invalid value: Q"
    );
    assert_eq!(
        integrity_check_messages(&vec![text(" ok "), SqlValue::Null, text("  ")]),
        vec!["ok".to_string()]
    );
    assert_eq!(
        integrity_check_messages(&Vec::new()),
        vec!["integrity_check returned no diagnostic rows".to_string()]
    );
    let mut other = logical(15);
    other.integrity_check = "page 5 is never used".to_string();
    assert!(logical_witnesses_match_except_integrity(&logical(15), &other));
    other.contents_sha256 = "x".to_string();
    assert!(!logical_witnesses_match_except_integrity(&logical(15), &other));
}

#[test]
fn plans_are_told_in_lines() {
    assert_eq!(current_schema_version(17).unwrap(), 17);
    assert_eq!(
        current_schema_version(-1).unwrap_err().detail(),
        "current schema version -1 cannot be represented as u32"
    );
    let mut facts = SourceFacts {
        has_issues: true,
        has_dirty_issues: true,
        has_export_hashes: true,
        issue_count: 4,
        has_gate_result_history: true,
    };
    assert!(require_source_tables(&facts, 13, 17).is_ok());
    let plan =
        build_plan("/w/beads.db", logical(13), family(false), 17, PlanFacts::Source(facts)).unwrap();
    assert_eq!(plan.forecast.unwrap().content_hash_rows_rebuilt, 4);
    let lines = emit_plan(&plan);
    assert_eq!(lines[0], "Reviewed schema migration: 13 -> 17");
    assert_eq!(lines[1], format!("Plan token: {}", plan.plan_token.unwrap()));
    facts.has_dirty_issues = false;
    assert_eq!(
        require_source_tables(&facts, 13, 17).unwrap_err().detail(),
        "reviewed 13->17 migration requires table dirty_issues, but it is absent"
    );
    let shape = PlanFacts::Shape { canonical: true };
    let current = build_plan("/w/beads.db", logical(17), family(false), 17, shape).unwrap();
    assert_eq!(
        emit_plan(&current),
        vec!["database already has the current canonical schema; no migration is needed".to_string()]
    );
    assert_eq!(migration_runs_root("/w/.beads"), "/w/.beads/.br_recovery/schema-migrations");
    assert_eq!(
        named_table_sql("a'b"),
        "SELECT 1 FROM sqlite_master WHERE type='table' AND name='a''b' LIMIT 1"
    );
}

#[test]
fn quarantines_stay_in_their_run() {
    assert!(validate_quarantine_path("/r/undo-quarantine/undo-1", "/r").is_ok());
    for path in ["/r/undo-1", "/r/undo-quarantine", "/x/undo-quarantine/undo-1"] {
        assert_eq!(
            validate_quarantine_path(path, "/r").unwrap_err().detail(),
            format!("schema migration undo quarantine path escapes its run directory: {path}")
        );
    }
    assert!(validate_quarantine_path("/r/undo-quarantine/..", "/r").is_err());
    assert_eq!(
        begun_undo_error("r1").detail(),
        "schema migration undo for run r1 is already prepared; rerun without --dry-run to resume it"
    );
}

#[test]
fn writes_are_scoped_and_backed_up() {
    let scopes = vec!["/w/.beads".to_string()];
    assert!(ensure_in_scope("/w/.beads/a", &scopes, "a").is_ok());
    assert_eq!(
        ensure_in_scope("/w/.beadsx/a", &scopes, "a").unwrap_err().detail(),
        "doctor: path a is outside write_scopes (refused for safety)"
    );
    assert_eq!(primary_backup_path("/run", ".beads/a"), "/run/backups/.beads/a");
    assert_eq!(
        verbatim_backup_path("/run", ".beads/a", false, 7, 2),
        ("/run/backups/.beads/a".to_string(), None)
    );
    assert_eq!(
        verbatim_backup_path("/run", ".beads/a", true, 7, 2),
        (
            "/run/backups/.versions/7-2/.beads/a".to_string(),
            Some(".versions/7-2/.beads/a".to_string())
        )
    );
    assert_eq!(elapsed_ns(9, 4), 5);
    assert_eq!(elapsed_ns(4, 9), 0);
    assert_eq!(directory_path("/a/b"), "/a");
    assert!(validate_identifiers(&vec!["issues".to_string()]).is_ok());
    assert!(validate_identifiers(&vec!["issues".to_string(), "a b".to_string()]).is_err());
    assert_eq!(predicate_hash(&None), &sha256_hex_text(b"")[..8]);
    assert_eq!(predicate_hash(&Some(" id = 1 ".to_string())), &sha256_hex_text(b"id = 1")[..8]);
}

#[test]
fn run_ids_are_stamped_digests() {
    assert_eq!(run_id_from("stamp", &vec![0xab, 0x01, 0xff, 0x77]), "stamp__ab01ff");
    let moment = RunMoment { seconds: 1_735_787_040, nanos: 1, pid: 2, ordinal: 3 };
    let material = run_material_bytes("/r", "20250102T030400Z", moment);
    let mut expected = b"/r20250102T030400Z".to_vec();
    expected.extend(1_i64.to_le_bytes());
    expected.extend(2_u32.to_le_bytes());
    expected.extend(3_u64.to_le_bytes());
    assert_eq!(material, expected);
    assert_eq!(
        generate_run_id("/r", moment),
        format!("20250102T030400Z__{}", &sha256_hex_text(&material)[..6])
    );
}

#[test]
fn witnesses_read_whole_tables() {
    assert_eq!(columns_query("\"a b\""), "PRAGMA table_info(\"a b\")");
    assert_eq!(rows_query("\"a b\""), "SELECT * FROM \"a b\"");
    assert!(current_runtime_shape_is_canonical(17, 17, true));
    assert!(!current_runtime_shape_is_canonical(17, 17, false));
    assert!(!current_runtime_shape_is_canonical(16, 17, true));
}
