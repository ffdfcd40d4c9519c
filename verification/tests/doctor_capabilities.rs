use beads_commands::doctor_subsystems::capabilities_doctor::{DoctorCapabilities, ExitCodeEntry};
use beads_commands::doctor_subsystems::run_dir::ENV_RUNS_DIR;

const VERSION: &str = "1.2.3";

fn exit_codes() -> Vec<ExitCodeEntry> {
    vec![
        ExitCodeEntry { code: 0, name: "healthy", description: "Nothing was found." },
        ExitCodeEntry { code: 4, name: "refused-unsafe", description: "A repair was refused." },
        ExitCodeEntry { code: 74, name: "io-error", description: "A file could not be used." },
    ]
}

fn build() -> DoctorCapabilities {
    DoctorCapabilities::build(VERSION, exit_codes(), &vec![("check", "finding")])
}

#[test]
fn capabilities_builds_with_expected_shape() {
    let caps = build();
    assert_eq!(caps.schema, "br.doctor.capabilities");
    assert_eq!(caps.contract_version, "1");
    assert_eq!(caps.doctor_version, VERSION);
    assert!(!caps.exit_codes.is_empty());
    let mut codes: Vec<i32> = caps.exit_codes.iter().map(|e| e.code).collect();
    codes.sort_unstable();
    assert!(codes.contains(&0));
    assert!(codes.contains(&4));
    assert!(codes.contains(&74));
    assert!(caps.write_scopes.contains(&".beads/".to_string()));
    assert!(caps.write_scopes.contains(&".doctor/".to_string()));
    assert!(caps.env_vars.contains(&ENV_RUNS_DIR));
}

#[test]
fn capabilities_advertise_routed_operations() {
    let caps = DoctorCapabilities::build_for_repo("/repo", VERSION, exit_codes(), &Vec::new());
    assert!(
        caps.ops_supported
            .iter()
            .any(|o| o.name == "db_exec" && o.fully_routed),
        "db_exec must be advertised as fully routed"
    );
    assert!(
        caps.ops_supported
            .iter()
            .any(|o| o.name == "db_migrate" && o.fully_routed),
        "db_migrate must be advertised as fully routed"
    );
    assert!(caps.ops_supported.iter().all(|o| !o.params.is_empty()));
    assert!(caps.finding_id_map.is_empty());
}

#[test]
fn capabilities_detectors_and_fixers_are_populated() {
    let caps = build();
    assert!(
        !caps.detectors.is_empty(),
        "detector registry must enumerate the check_* family"
    );
    assert!(
        !caps.fixers.is_empty(),
        "fixer registry must enumerate the repair_* family"
    );
    let detector_ids: Vec<&str> = caps.detectors.iter().map(|d| d.id.as_str()).collect();
    let mut sorted_detector_ids = detector_ids.clone();
    sorted_detector_ids.sort_unstable();
    sorted_detector_ids.dedup();
    assert_eq!(
        sorted_detector_ids.len(),
        detector_ids.len(),
        "detector registry must not contain duplicate ids"
    );
    for required in &[
        "gitignore.beads_inner",
        "jsonl.parse",
        "db.open",
        "sqlite.integrity_check",
        "schema.tables",
    ] {
        assert!(
            detector_ids.contains(required),
            "detector registry missing {required}"
        );
    }
    for obsolete in &["merge_artifacts", "sqlite.cli_integrity"] {
        assert!(
            !detector_ids.contains(obsolete),
            "detector registry must not advertise obsolete check id {obsolete}"
        );
    }
    let detector = |id: &str| {
        caps.detectors
            .iter()
            .find(|d| d.id == id)
            .unwrap_or_else(|| panic!("missing detector {id}"))
    };
    assert_eq!(detector("jsonl.merge_artifacts").severity_default, "warn");
    assert_eq!(detector("schema.inspect").severity_default, "error");
    let fixer_ids: Vec<&str> = caps.fixers.iter().map(|f| f.id.as_str()).collect();
    assert_eq!(
        fixer_ids,
        vec![
            "doctor.gitignore_repair",
            "doctor.merge_artifact_quarantine",
            "doctor.startup_cache_quarantine",
            "doctor.recovery_artifacts_aged_quarantine",
            "doctor.export_hash_cache_repair",
            "doctor.base_jsonl_symlink_quarantine",
            "doctor.base_jsonl_regen",
            "doctor.orphan_tmp_quarantine",
            "doctor.jsonl_trailing_newline_append",
            "doctor.jsonl_bom_strip",
            "doctor.jsonl_crlf_to_lf",
            "doctor.jsonl_world_writable_chmod",
            "doctor.config_yaml_secret_chmod",
            "doctor.db_sidecar_mode_chmod",
            "doctor.inner_gitignore_append",
            "doctor.dirty_bitmap_orphan_prune",
            "doctor.comments_orphan_prune",
            "doctor.labels_orphan_prune",
            "doctor.dependencies_orphan_prune",
            "doctor.wal_checkpoint_truncate",
            "doctor.null_defaults_backfill",
            "doctor.repair_recoverable_db_state",
            "doctor.repair_partial_indexes",
            "doctor.repair_via_vacuum",
            "doctor.db_bloat_vacuum",
            "doctor.repair_database_from_jsonl",
            "doctor.repair_database_sidecars",
            "refuse_gates.schema_version_downgrade",
            "refuse_gates.recovery_fingerprint_integrity",
        ],
        "fixer registry order is part of the stable capabilities JSON"
    );
    for required in &[
        "doctor.gitignore_repair",
        "doctor.merge_artifact_quarantine",
        "doctor.repair_via_vacuum",
        "doctor.repair_database_from_jsonl",
        "refuse_gates.schema_version_downgrade",
    ] {
        assert!(
            fixer_ids.contains(required),
            "fixer registry missing {required}"
        );
    }
    for d in &caps.detectors {
        assert!(
            !d.subsystem.is_empty(),
            "detector {} missing subsystem",
            d.id
        );
    }
    assert!(
        caps.fixers.iter().any(|f| f.mutates),
        "at least one fixer must route through mutate()"
    );
}

#[test]
fn tables_of_the_program_are_handed_in() {
    let codes = vec![
        ExitCodeEntry { code: 0, name: "healthy", description: "fine" },
        ExitCodeEntry { code: 9, name: "other", description: "else" },
    ];
    let caps = DoctorCapabilities::build("9.0.1", codes, &vec![("a", "x"), ("b", "y")]);
    assert_eq!(caps.doctor_version, "9.0.1");
    assert_eq!(caps.exit_codes.len(), 2);
    assert_eq!(caps.exit_codes[1].code, 9);
    assert_eq!(caps.exit_codes[1].name, "other");
    assert_eq!(caps.exit_codes[1].description, "else");
    assert_eq!(caps.finding_id_map.len(), 2);
    assert_eq!(caps.finding_id_map[1].check_name, "b");
    assert_eq!(caps.finding_id_map[1].finding_id, "y");
}
