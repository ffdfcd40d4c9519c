//! The capabilities document: what the doctor can find, what it can repair, and by which
//! changes.

use crate::doctor_subsystems::run_dir::ENV_RUNS_DIR;
use crate::sorting::views;
use crate::text::texts;
use vstd::prelude::*;
use vstd::string::*;

verus! {

broadcast use vstd::string::group_string_axioms;

/// One exit code of the doctor.
#[derive(Debug)]
pub struct ExitCodeEntry {
    pub code: i32,
    pub name: &'static str,
    pub description: &'static str,
}

/// The canonical id of what a check finds.
#[derive(Debug)]
pub struct FindingIdEntry {
    pub check_name: &'static str,
    pub finding_id: &'static str,
}

/// One change that a fixer can ask for.
#[derive(Debug)]
pub struct OpEntry {
    pub name: &'static str,
    pub summary: &'static str,
    pub params: Vec<&'static str>,
    pub fully_routed: bool,
}

/// One fixer.
#[derive(Debug)]
pub struct FixerEntry {
    pub id: String,
    pub subsystem: String,
    pub auto_fixable: bool,
    pub mutates: bool,
    pub addressed_findings: Vec<String>,
    pub filter_ids: Vec<String>,
}

/// One detector.
#[derive(Debug)]
pub struct DetectorEntry {
    pub id: String,
    pub subsystem: String,
    pub severity_default: String,
    pub fast_path: bool,
}

/// The capabilities document.
#[derive(Debug)]
pub struct DoctorCapabilities {
    pub schema: &'static str,
    pub contract_version: &'static str,
    pub doctor_version: &'static str,
    pub exit_codes: Vec<ExitCodeEntry>,
    pub write_scopes: Vec<String>,
    pub env_vars: Vec<&'static str>,
    pub fixers: Vec<FixerEntry>,
    pub detectors: Vec<DetectorEntry>,
    pub ops_supported: Vec<OpEntry>,
    pub finding_id_map: Vec<FindingIdEntry>,
}

/// What an [`ExitCodeEntry`] says.
#[verifier::ext_equal]
pub struct ExitCodeModel {
    pub code: i32,
    pub name: Seq<char>,
    pub description: Seq<char>,
}

/// What a [`FindingIdEntry`] says.
#[verifier::ext_equal]
pub struct FindingIdModel {
    pub check_name: Seq<char>,
    pub finding_id: Seq<char>,
}

/// What an [`OpEntry`] says.
#[verifier::ext_equal]
pub struct OpEntryModel {
    pub name: Seq<char>,
    pub summary: Seq<char>,
    pub params: Seq<Seq<char>>,
    pub fully_routed: bool,
}

/// What a [`FixerEntry`] says.
#[verifier::ext_equal]
pub struct FixerModel {
    pub id: Seq<char>,
    pub subsystem: Seq<char>,
    pub auto_fixable: bool,
    pub mutates: bool,
    pub addressed_findings: Seq<Seq<char>>,
    pub filter_ids: Seq<Seq<char>>,
}

/// What a [`DetectorEntry`] says.
#[verifier::ext_equal]
pub struct DetectorModel {
    pub id: Seq<char>,
    pub subsystem: Seq<char>,
    pub severity_default: Seq<char>,
    pub fast_path: bool,
}

/// What a [`DoctorCapabilities`] says.
#[verifier::ext_equal]
pub struct CapabilitiesModel {
    pub schema: Seq<char>,
    pub contract_version: Seq<char>,
    pub doctor_version: Seq<char>,
    pub exit_codes: Seq<ExitCodeModel>,
    pub write_scopes: Seq<Seq<char>>,
    pub env_vars: Seq<Seq<char>>,
    pub fixers: Seq<FixerModel>,
    pub detectors: Seq<DetectorModel>,
    pub ops_supported: Seq<OpEntryModel>,
    pub finding_id_map: Seq<FindingIdModel>,
}

/// The views of string slices.
pub open spec fn slices(v: Seq<&'static str>) -> Seq<Seq<char>> {
    v.map_values(|s: &'static str| s@)
}

impl View for ExitCodeEntry {
    type V = ExitCodeModel;

    open spec fn view(&self) -> ExitCodeModel {
        ExitCodeModel { code: self.code, name: self.name@, description: self.description@ }
    }
}

impl View for FindingIdEntry {
    type V = FindingIdModel;

    open spec fn view(&self) -> FindingIdModel {
        FindingIdModel { check_name: self.check_name@, finding_id: self.finding_id@ }
    }
}

impl View for OpEntry {
    type V = OpEntryModel;

    open spec fn view(&self) -> OpEntryModel {
        OpEntryModel {
            name: self.name@,
            summary: self.summary@,
            params: slices(self.params@),
            fully_routed: self.fully_routed,
        }
    }
}

impl View for FixerEntry {
    type V = FixerModel;

    open spec fn view(&self) -> FixerModel {
        FixerModel {
            id: self.id@,
            subsystem: self.subsystem@,
            auto_fixable: self.auto_fixable,
            mutates: self.mutates,
            addressed_findings: texts(self.addressed_findings@),
            filter_ids: texts(self.filter_ids@),
        }
    }
}

impl View for DetectorEntry {
    type V = DetectorModel;

    open spec fn view(&self) -> DetectorModel {
        DetectorModel {
            id: self.id@,
            subsystem: self.subsystem@,
            severity_default: self.severity_default@,
            fast_path: self.fast_path,
        }
    }
}

impl View for DoctorCapabilities {
    type V = CapabilitiesModel;

    open spec fn view(&self) -> CapabilitiesModel {
        CapabilitiesModel {
            schema: self.schema@,
            contract_version: self.contract_version@,
            doctor_version: self.doctor_version@,
            exit_codes: views(self.exit_codes@),
            write_scopes: texts(self.write_scopes@),
            env_vars: slices(self.env_vars@),
            fixers: views(self.fixers@),
            detectors: views(self.detectors@),
            ops_supported: views(self.ops_supported@),
            finding_id_map: views(self.finding_id_map@),
        }
    }
}

fn strings(items: &Vec<&'static str>) -> (r: Vec<String>)
    ensures
        texts(r@) == slices(items@),
{
    let mut out: Vec<String> = Vec::new();
    let mut i: usize = 0;
    while i < items.len()
        invariant
            i <= items@.len(),
            texts(out@) == slices(items@).take(i as int),
        decreases items@.len() - i,
    {
        let ghost before = texts(out@);
        let s = items[i].to_owned();
        let ghost shown = s@;
        out.push(s);
        assert(texts(out@) =~= before.push(shown));
        assert(slices(items@)[i as int] == items@[i as int]@);
        i += 1;
        assert(texts(out@) =~= slices(items@).take(i as int));
    }
    assert(texts(out@) =~= slices(items@));
    out
}

/// The detectors: id, subsystem, severity, and whether a quick run keeps it.
pub open spec fn detector_row(i: int) -> (Seq<char>, Seq<char>, Seq<char>, bool) {
    if i == 0 {
        ("beads_dir"@, "configs"@, "error"@, true)
    } else if i == 1 {
        ("metadata"@, "configs"@, "error"@, true)
    } else if i == 2 {
        ("gitignore.beads_inner"@, "configs"@, "warn"@, true)
    } else if i == 3 {
        ("gitignore.root"@, "configs"@, "warn"@, true)
    } else if i == 4 {
        ("routes_jsonl"@, "routes_external"@, "warn"@, true)
    } else if i == 5 {
        ("routes.targets"@, "routes_external"@, "warn"@, true)
    } else if i == 6 {
        ("rust_log"@, "observability"@, "warn"@, true)
    } else if i == 7 {
        ("permissions.beads_dir"@, "permissions"@, "warn"@, true)
    } else if i == 8 {
        ("config.yaml"@, "configs"@, "warn"@, true)
    } else if i == 9 {
        ("metadata.json"@, "configs"@, "warn"@, true)
    } else if i == 10 {
        ("binary_version"@, "external_artifacts"@, "warn"@, true)
    } else if i == 11 {
        ("write_lock"@, "concurrency_primitives"@, "warn"@, true)
    } else if i == 12 {
        ("jsonl.parse"@, "state_files"@, "error"@, true)
    } else if i == 13 {
        ("jsonl.merge_artifacts"@, "state_files"@, "warn"@, true)
    } else if i == 14 {
        ("base_jsonl"@, "state_files"@, "warn"@, true)
    } else if i == 15 {
        ("base_jsonl.missing_post_flush"@, "state_files"@, "warn"@, false)
    } else if i == 16 {
        ("dirty_bitmap"@, "caches_indexes"@, "warn"@, false)
    } else if i == 17 {
        ("doctor.runs_dir"@, "observability"@, "warn"@, true)
    } else if i == 18 {
        ("doctor.runs_creatable"@, "permissions"@, "warn"@, true)
    } else if i == 19 {
        ("permissions.recovery_dir"@, "permissions"@, "warn"@, true)
    } else if i == 20 {
        ("permissions.write_lock"@, "permissions"@, "warn"@, true)
    } else if i == 21 {
        ("permissions.root_gitignore"@, "permissions"@, "warn"@, true)
    } else if i == 22 {
        ("permissions.db_sidecars"@, "permissions"@, "warn"@, true)
    } else if i == 23 {
        ("jsonl.duplicate_ids"@, "state_files"@, "warn"@, false)
    } else if i == 24 {
        ("comments.orphans"@, "caches_indexes"@, "warn"@, false)
    } else if i == 25 {
        ("labels.orphans"@, "caches_indexes"@, "warn"@, false)
    } else if i == 26 {
        ("dependencies.orphans"@, "caches_indexes"@, "warn"@, false)
    } else if i == 27 {
        ("permissions.config_yaml_secrets"@, "permissions"@, "warn"@, true)
    } else if i == 28 {
        ("br_path_dupes"@, "external_artifacts"@, "warn"@, true)
    } else if i == 29 {
        ("gitignore.beads_inner_present"@, "configs"@, "warn"@, true)
    } else if i == 30 {
        ("permissions.jsonl_world_writable"@, "permissions"@, "warn"@, true)
    } else if i == 31 {
        ("tmp_files_orphan"@, "state_files"@, "warn"@, true)
    } else if i == 32 {
        ("jsonl_size"@, "state_files"@, "warn"@, true)
    } else if i == 33 {
        ("br_history.size"@, "state_files"@, "warn"@, true)
    } else if i == 34 {
        ("jsonl_eof_newline"@, "state_files"@, "warn"@, true)
    } else if i == 35 {
        ("jsonl_crlf"@, "state_files"@, "warn"@, true)
    } else if i == 36 {
        ("jsonl_bom"@, "state_files"@, "warn"@, true)
    } else if i == 37 {
        ("db_bloat"@, "caches_indexes"@, "warn"@, true)
    } else if i == 38 {
        ("wal_size"@, "state_files"@, "warn"@, true)
    } else if i == 39 {
        ("startup_cache.health"@, "configs"@, "warn"@, true)
    } else if i == 40 {
        ("sync_jsonl_path"@, "state_files"@, "warn"@, true)
    } else if i == 41 {
        ("sync_conflict_markers"@, "state_files"@, "error"@, true)
    } else if i == 42 {
        ("db.exists"@, "state_files"@, "error"@, true)
    } else if i == 43 {
        ("db.open"@, "state_files"@, "error"@, true)
    } else if i == 44 {
        ("db.sidecars"@, "state_files"@, "error"@, true)
    } else if i == 45 {
        ("db.read_only_open_observational"@, "state_files"@, "warn"@, true)
    } else if i == 46 {
        ("db.recovery_artifacts"@, "state_files"@, "info"@, true)
    } else if i == 47 {
        ("db.recovery_artifacts.aged"@, "state_files"@, "warn"@, true)
    } else if i == 48 {
        ("db.foreign_recovery_debris"@, "state_files"@, "info"@, true)
    } else if i == 49 {
        ("db.export_hash_cache"@, "caches_indexes"@, "warn"@, true)
    } else if i == 50 {
        ("schema.tables"@, "schemas"@, "error"@, true)
    } else if i == 51 {
        ("schema.columns"@, "schemas"@, "error"@, true)
    } else if i == 52 {
        ("schema.inspect"@, "schemas"@, "error"@, true)
    } else if i == 53 {
        ("db.null_defaults"@, "schemas"@, "warn"@, true)
    } else if i == 54 {
        ("sqlite.integrity_check"@, "state_files"@, "error"@, true)
    } else if i == 55 {
        ("db.recoverable_anomalies"@, "caches_indexes"@, "warn"@, false)
    } else if i == 56 {
        ("counts.db_vs_jsonl"@, "state_files"@, "warn"@, false)
    } else if i == 57 {
        ("sync.metadata"@, "state_files"@, "warn"@, false)
    } else if i == 58 {
        ("sqlite3.integrity_check"@, "state_files"@, "error"@, false)
    } else if i == 59 {
        ("db.write_probe"@, "state_files"@, "warn"@, false)
    } else {
        ("audit.suspect_close_reasons"@, "agent_coordination"@, "warn"@, true)
    }
}

fn detector_row_at(i: usize) -> (r: (&'static str, &'static str, &'static str, bool))
    requires
        i < 61,
    ensures
        (r.0@, r.1@, r.2@, r.3) == detector_row(i as int),
{
    if i == 0 {
        ("beads_dir", "configs", "error", true)
    } else if i == 1 {
        ("metadata", "configs", "error", true)
    } else if i == 2 {
        ("gitignore.beads_inner", "configs", "warn", true)
    } else if i == 3 {
        ("gitignore.root", "configs", "warn", true)
    } else if i == 4 {
        ("routes_jsonl", "routes_external", "warn", true)
    } else if i == 5 {
        ("routes.targets", "routes_external", "warn", true)
    } else if i == 6 {
        ("rust_log", "observability", "warn", true)
    } else if i == 7 {
        ("permissions.beads_dir", "permissions", "warn", true)
    } else if i == 8 {
        ("config.yaml", "configs", "warn", true)
    } else if i == 9 {
        ("metadata.json", "configs", "warn", true)
    } else if i == 10 {
        ("binary_version", "external_artifacts", "warn", true)
    } else if i == 11 {
        ("write_lock", "concurrency_primitives", "warn", true)
    } else if i == 12 {
        ("jsonl.parse", "state_files", "error", true)
    } else if i == 13 {
        ("jsonl.merge_artifacts", "state_files", "warn", true)
    } else if i == 14 {
        ("base_jsonl", "state_files", "warn", true)
    } else if i == 15 {
        ("base_jsonl.missing_post_flush", "state_files", "warn", false)
    } else if i == 16 {
        ("dirty_bitmap", "caches_indexes", "warn", false)
    } else if i == 17 {
        ("doctor.runs_dir", "observability", "warn", true)
    } else if i == 18 {
        ("doctor.runs_creatable", "permissions", "warn", true)
    } else if i == 19 {
        ("permissions.recovery_dir", "permissions", "warn", true)
    } else if i == 20 {
        ("permissions.write_lock", "permissions", "warn", true)
    } else if i == 21 {
        ("permissions.root_gitignore", "permissions", "warn", true)
    } else if i == 22 {
        ("permissions.db_sidecars", "permissions", "warn", true)
    } else if i == 23 {
        ("jsonl.duplicate_ids", "state_files", "warn", false)
    } else if i == 24 {
        ("comments.orphans", "caches_indexes", "warn", false)
    } else if i == 25 {
        ("labels.orphans", "caches_indexes", "warn", false)
    } else if i == 26 {
        ("dependencies.orphans", "caches_indexes", "warn", false)
    } else if i == 27 {
        ("permissions.config_yaml_secrets", "permissions", "warn", true)
    } else if i == 28 {
        ("br_path_dupes", "external_artifacts", "warn", true)
    } else if i == 29 {
        ("gitignore.beads_inner_present", "configs", "warn", true)
    } else if i == 30 {
        ("permissions.jsonl_world_writable", "permissions", "warn", true)
    } else if i == 31 {
        ("tmp_files_orphan", "state_files", "warn", true)
    } else if i == 32 {
        ("jsonl_size", "state_files", "warn", true)
    } else if i == 33 {
        ("br_history.size", "state_files", "warn", true)
    } else if i == 34 {
        ("jsonl_eof_newline", "state_files", "warn", true)
    } else if i == 35 {
        ("jsonl_crlf", "state_files", "warn", true)
    } else if i == 36 {
        ("jsonl_bom", "state_files", "warn", true)
    } else if i == 37 {
        ("db_bloat", "caches_indexes", "warn", true)
    } else if i == 38 {
        ("wal_size", "state_files", "warn", true)
    } else if i == 39 {
        ("startup_cache.health", "configs", "warn", true)
    } else if i == 40 {
        ("sync_jsonl_path", "state_files", "warn", true)
    } else if i == 41 {
        ("sync_conflict_markers", "state_files", "error", true)
    } else if i == 42 {
        ("db.exists", "state_files", "error", true)
    } else if i == 43 {
        ("db.open", "state_files", "error", true)
    } else if i == 44 {
        ("db.sidecars", "state_files", "error", true)
    } else if i == 45 {
        ("db.read_only_open_observational", "state_files", "warn", true)
    } else if i == 46 {
        ("db.recovery_artifacts", "state_files", "info", true)
    } else if i == 47 {
        ("db.recovery_artifacts.aged", "state_files", "warn", true)
    } else if i == 48 {
        ("db.foreign_recovery_debris", "state_files", "info", true)
    } else if i == 49 {
        ("db.export_hash_cache", "caches_indexes", "warn", true)
    } else if i == 50 {
        ("schema.tables", "schemas", "error", true)
    } else if i == 51 {
        ("schema.columns", "schemas", "error", true)
    } else if i == 52 {
        ("schema.inspect", "schemas", "error", true)
    } else if i == 53 {
        ("db.null_defaults", "schemas", "warn", true)
    } else if i == 54 {
        ("sqlite.integrity_check", "state_files", "error", true)
    } else if i == 55 {
        ("db.recoverable_anomalies", "caches_indexes", "warn", false)
    } else if i == 56 {
        ("counts.db_vs_jsonl", "state_files", "warn", false)
    } else if i == 57 {
        ("sync.metadata", "state_files", "warn", false)
    } else if i == 58 {
        ("sqlite3.integrity_check", "state_files", "error", false)
    } else if i == 59 {
        ("db.write_probe", "state_files", "warn", false)
    } else {
        ("audit.suspect_close_reasons", "agent_coordination", "warn", true)
    }
}

/// The detector of row `i`.
pub open spec fn detector_of(i: int) -> DetectorModel {
    let row = detector_row(i);
    DetectorModel { id: row.0, subsystem: row.1, severity_default: row.2, fast_path: row.3 }
}

/// All detectors, in the order of the document.
pub open spec fn detectors() -> Seq<DetectorModel> {
    Seq::new(61, |i: int| detector_of(i))
}

pub fn build_detector_registry() -> (r: Vec<DetectorEntry>)
    ensures
        views(r@) == detectors(),
{
    let mut out: Vec<DetectorEntry> = Vec::new();
    let mut i: usize = 0;
    while i < 61
        invariant
            i <= 61,
            views(out@) == detectors().take(i as int),
        decreases 61 - i,
    {
        let ghost before = views(out@);
        let row = detector_row_at(i);
        let entry = DetectorEntry {
            id: row.0.to_owned(),
            subsystem: row.1.to_owned(),
            severity_default: row.2.to_owned(),
            fast_path: row.3,
        };
        let ghost shown = entry@;
        assert(shown == detector_of(i as int));
        out.push(entry);
        i += 1;
        assert(views(out@) =~= before.push(shown));
        assert(views(out@) =~= detectors().take(i as int));
    }
    assert(views(out@) =~= detectors());
    out
}

fn push_fixer(
    out: &mut Vec<FixerEntry>,
    id: &'static str,
    subsystem: &'static str,
    auto_fixable: bool,
    mutates: bool,
    addressed: Vec<&'static str>,
    filter_ids: Vec<&'static str>,
)
    ensures
        views(final(out)@) == views(old(out)@).push(
            FixerModel {
                id: id@,
                subsystem: subsystem@,
                auto_fixable,
                mutates,
                addressed_findings: slices(addressed@),
                filter_ids: slices(filter_ids@),
            },
        ),
{
    let entry = FixerEntry {
        id: id.to_owned(),
        subsystem: subsystem.to_owned(),
        auto_fixable,
        mutates,
        addressed_findings: strings(&addressed),
        filter_ids: strings(&filter_ids),
    };
    let ghost shown = entry@;
    out.push(entry);
    assert(views(out@) =~= views(old(out)@).push(shown));
}

/// The fixers that write through the chokepoint, in order: the first part.
pub open spec fn first_fixers() -> Seq<FixerModel> {
    seq![
        FixerModel {
            id: "doctor.gitignore_repair"@,
            subsystem: "configs"@,
            auto_fixable: true,
            mutates: true,
            addressed_findings: seq!["gitignore.beads_inner"@, "gitignore.root"@],
            filter_ids: seq!["fm-configs-gitignore-leaking-beads"@],
        },
        FixerModel {
            id: "doctor.merge_artifact_quarantine"@,
            subsystem: "state_files"@,
            auto_fixable: true,
            mutates: true,
            addressed_findings: seq!["jsonl.merge_artifacts"@],
            filter_ids: seq!["fm-state_files-merge-artifact-stuck"@],
        },
        FixerModel {
            id: "doctor.startup_cache_quarantine"@,
            subsystem: "configs"@,
            auto_fixable: true,
            mutates: true,
            addressed_findings: seq!["startup_cache.health"@],
            filter_ids: seq!["fm-configs-startup-cache-poisoned"@],
        },
        FixerModel {
            id: "doctor.recovery_artifacts_aged_quarantine"@,
            subsystem: "state_files"@,
            auto_fixable: true,
            mutates: true,
            addressed_findings: seq!["db.recovery_artifacts.aged"@],
            filter_ids: seq!["fm-state_files-recovery-artifacts-orphaned"@],
        },
        FixerModel {
            id: "doctor.export_hash_cache_repair"@,
            subsystem: "caches_indexes"@,
            auto_fixable: true,
            mutates: true,
            addressed_findings: seq!["db.export_hash_cache"@],
            filter_ids: seq!["fm-caches_indexes-export-hash-cache-divergence"@],
        },
        FixerModel {
            id: "doctor.base_jsonl_symlink_quarantine"@,
            subsystem: "state_files"@,
            auto_fixable: true,
            mutates: true,
            addressed_findings: seq!["base_jsonl"@],
            filter_ids: seq!["fm-state_files-base-jsonl-missing-or-stale"@],
        },
        FixerModel {
            id: "doctor.base_jsonl_regen"@,
            subsystem: "state_files"@,
            auto_fixable: true,
            mutates: true,
            addressed_findings: seq!["base_jsonl"@],
            filter_ids: seq!["fm-state_files-base-jsonl-missing-or-stale"@],
        },
    ]
}

fn push_first_fixers(out: &mut Vec<FixerEntry>)
    ensures
        views(final(out)@) == views(old(out)@) + first_fixers(),
{
    let ghost before = views(out@);
    push_fixer(out, "doctor.gitignore_repair", "configs", true, true, vec!["gitignore.beads_inner", "gitignore.root"], vec!["fm-configs-gitignore-leaking-beads"]);
    push_fixer(out, "doctor.merge_artifact_quarantine", "state_files", true, true, vec!["jsonl.merge_artifacts"], vec!["fm-state_files-merge-artifact-stuck"]);
    push_fixer(out, "doctor.startup_cache_quarantine", "configs", true, true, vec!["startup_cache.health"], vec!["fm-configs-startup-cache-poisoned"]);
    push_fixer(out, "doctor.recovery_artifacts_aged_quarantine", "state_files", true, true, vec!["db.recovery_artifacts.aged"], vec!["fm-state_files-recovery-artifacts-orphaned"]);
    push_fixer(out, "doctor.export_hash_cache_repair", "caches_indexes", true, true, vec!["db.export_hash_cache"], vec!["fm-caches_indexes-export-hash-cache-divergence"]);
    push_fixer(out, "doctor.base_jsonl_symlink_quarantine", "state_files", true, true, vec!["base_jsonl"], vec!["fm-state_files-base-jsonl-missing-or-stale"]);
    push_fixer(out, "doctor.base_jsonl_regen", "state_files", true, true, vec!["base_jsonl"], vec!["fm-state_files-base-jsonl-missing-or-stale"]);
    assert(views(out@) =~~= before + first_fixers());
}

/// The second part of the fixers that write through the chokepoint.
pub open spec fn second_fixers() -> Seq<FixerModel> {
    seq![
        FixerModel {
            id: "doctor.orphan_tmp_quarantine"@,
            subsystem: "state_files"@,
            auto_fixable: true,
            mutates: true,
            addressed_findings: seq!["tmp_files_orphan"@],
            filter_ids: seq!["fm-state_files-orphan-tmp-files"@],
        },
        FixerModel {
            id: "doctor.jsonl_trailing_newline_append"@,
            subsystem: "state_files"@,
            auto_fixable: true,
            mutates: true,
            addressed_findings: seq!["jsonl_eof_newline"@],
            filter_ids: seq!["fm-state_files-jsonl-missing-trailing-newline"@],
        },
        FixerModel {
            id: "doctor.jsonl_bom_strip"@,
            subsystem: "state_files"@,
            auto_fixable: true,
            mutates: true,
            addressed_findings: seq!["jsonl_bom"@],
            filter_ids: seq!["fm-state_files-jsonl-utf8-bom-prefix"@],
        },
        FixerModel {
            id: "doctor.jsonl_crlf_to_lf"@,
            subsystem: "state_files"@,
            auto_fixable: true,
            mutates: true,
            addressed_findings: seq!["jsonl_crlf"@],
            filter_ids: seq!["fm-state_files-jsonl-crlf-line-endings"@],
        },
        FixerModel {
            id: "doctor.jsonl_world_writable_chmod"@,
            subsystem: "permissions"@,
            auto_fixable: true,
            mutates: true,
            addressed_findings: seq!["permissions.jsonl_world_writable"@],
            filter_ids: seq!["fm-permissions-jsonl-world-writable"@],
        },
        FixerModel {
            id: "doctor.config_yaml_secret_chmod"@,
            subsystem: "permissions"@,
            auto_fixable: true,
            mutates: true,
            addressed_findings: seq!["permissions.config_yaml_secrets"@],
            filter_ids: seq!["fm-permissions-config-yaml-mode-leaks-secrets"@],
        },
        FixerModel {
            id: "doctor.db_sidecar_mode_chmod"@,
            subsystem: "permissions"@,
            auto_fixable: true,
            mutates: true,
            addressed_findings: seq!["permissions.db_sidecars"@],
            filter_ids: seq!["fm-permissions-db-sidecar-mode-too-open"@],
        },
    ]
}

fn push_second_fixers(out: &mut Vec<FixerEntry>)
    ensures
        views(final(out)@) == views(old(out)@) + second_fixers(),
{
    let ghost before = views(out@);
    push_fixer(out, "doctor.orphan_tmp_quarantine", "state_files", true, true, vec!["tmp_files_orphan"], vec!["fm-state_files-orphan-tmp-files"]);
    push_fixer(out, "doctor.jsonl_trailing_newline_append", "state_files", true, true, vec!["jsonl_eof_newline"], vec!["fm-state_files-jsonl-missing-trailing-newline"]);
    push_fixer(out, "doctor.jsonl_bom_strip", "state_files", true, true, vec!["jsonl_bom"], vec!["fm-state_files-jsonl-utf8-bom-prefix"]);
    push_fixer(out, "doctor.jsonl_crlf_to_lf", "state_files", true, true, vec!["jsonl_crlf"], vec!["fm-state_files-jsonl-crlf-line-endings"]);
    push_fixer(out, "doctor.jsonl_world_writable_chmod", "permissions", true, true, vec!["permissions.jsonl_world_writable"], vec!["fm-permissions-jsonl-world-writable"]);
    push_fixer(out, "doctor.config_yaml_secret_chmod", "permissions", true, true, vec!["permissions.config_yaml_secrets"], vec!["fm-permissions-config-yaml-mode-leaks-secrets"]);
    push_fixer(out, "doctor.db_sidecar_mode_chmod", "permissions", true, true, vec!["permissions.db_sidecars"], vec!["fm-permissions-db-sidecar-mode-too-open"]);
    assert(views(out@) =~~= before + second_fixers());
}

/// The last part of the fixers that write through the chokepoint.
pub open spec fn third_fixers() -> Seq<FixerModel> {
    seq![
        FixerModel {
            id: "doctor.inner_gitignore_append"@,
            subsystem: "configs"@,
            auto_fixable: true,
            mutates: true,
            addressed_findings: seq!["gitignore.beads_inner_present"@],
            filter_ids: seq!["fm-configs-gitignore-leaking-beads"@],
        },
        FixerModel {
            id: "doctor.dirty_bitmap_orphan_prune"@,
            subsystem: "caches_indexes"@,
            auto_fixable: true,
            mutates: true,
            addressed_findings: seq!["dirty_bitmap"@],
            filter_ids: seq!["fm-caches_indexes-dirty-bitmap-divergence"@],
        },
        FixerModel {
            id: "doctor.comments_orphan_prune"@,
            subsystem: "caches_indexes"@,
            auto_fixable: true,
            mutates: true,
            addressed_findings: seq!["comments.orphans"@],
            filter_ids: seq!["fm-caches_indexes-comments-orphans"@],
        },
        FixerModel {
            id: "doctor.labels_orphan_prune"@,
            subsystem: "caches_indexes"@,
            auto_fixable: true,
            mutates: true,
            addressed_findings: seq!["labels.orphans"@],
            filter_ids: seq!["fm-caches_indexes-labels-orphans"@],
        },
        FixerModel {
            id: "doctor.dependencies_orphan_prune"@,
            subsystem: "caches_indexes"@,
            auto_fixable: true,
            mutates: true,
            addressed_findings: seq!["dependencies.orphans"@],
            filter_ids: seq!["fm-caches_indexes-dependencies-orphans"@],
        },
        FixerModel {
            id: "doctor.wal_checkpoint_truncate"@,
            subsystem: "state_files"@,
            auto_fixable: true,
            mutates: true,
            addressed_findings: seq!["wal_size"@],
            filter_ids: seq!["fm-state_files-wal-oversized"@],
        },
        FixerModel {
            id: "doctor.null_defaults_backfill"@,
            subsystem: "schemas"@,
            auto_fixable: true,
            mutates: true,
            addressed_findings: seq!["db.null_defaults"@],
            filter_ids: seq!["fm-schemas-missing-required-column"@],
        },
    ]
}

fn push_third_fixers(out: &mut Vec<FixerEntry>)
    ensures
        views(final(out)@) == views(old(out)@) + third_fixers(),
{
    let ghost before = views(out@);
    push_fixer(out, "doctor.inner_gitignore_append", "configs", true, true, vec!["gitignore.beads_inner_present"], vec!["fm-configs-gitignore-leaking-beads"]);
    push_fixer(out, "doctor.dirty_bitmap_orphan_prune", "caches_indexes", true, true, vec!["dirty_bitmap"], vec!["fm-caches_indexes-dirty-bitmap-divergence"]);
    push_fixer(out, "doctor.comments_orphan_prune", "caches_indexes", true, true, vec!["comments.orphans"], vec!["fm-caches_indexes-comments-orphans"]);
    push_fixer(out, "doctor.labels_orphan_prune", "caches_indexes", true, true, vec!["labels.orphans"], vec!["fm-caches_indexes-labels-orphans"]);
    push_fixer(out, "doctor.dependencies_orphan_prune", "caches_indexes", true, true, vec!["dependencies.orphans"], vec!["fm-caches_indexes-dependencies-orphans"]);
    push_fixer(out, "doctor.wal_checkpoint_truncate", "state_files", true, true, vec!["wal_size"], vec!["fm-state_files-wal-oversized"]);
    push_fixer(out, "doctor.null_defaults_backfill", "schemas", true, true, vec!["db.null_defaults"], vec!["fm-schemas-missing-required-column"]);
    assert(views(out@) =~~= before + third_fixers());
}

/// The fixers that run before the chokepoint and are only recorded by it.
pub open spec fn legacy_fixers() -> Seq<FixerModel> {
    seq![
        FixerModel {
            id: "doctor.repair_recoverable_db_state"@,
            subsystem: "caches_indexes"@,
            auto_fixable: true,
            mutates: false,
            addressed_findings: seq!["db.recoverable_anomalies"@, "db.sidecars"@],
            filter_ids: seq!["fm-caches_indexes-blocked-cache-stale"@, "fm-state_files-wal-shm-sidecar-orphan"@],
        },
        FixerModel {
            id: "doctor.repair_partial_indexes"@,
            subsystem: "caches_indexes"@,
            auto_fixable: true,
            mutates: false,
            addressed_findings: seq!["sqlite.integrity_check"@, "sqlite3.integrity_check"@],
            filter_ids: seq!["fm-caches_indexes-partial-index-stale"@],
        },
        FixerModel {
            id: "doctor.repair_via_vacuum"@,
            subsystem: "state_files"@,
            auto_fixable: true,
            mutates: false,
            addressed_findings: seq!["sqlite.integrity_check"@, "sqlite3.integrity_check"@],
            filter_ids: seq!["fm-state_files-sqlite-page-malformed"@],
        },
        FixerModel {
            id: "doctor.db_bloat_vacuum"@,
            subsystem: "caches_indexes"@,
            auto_fixable: false,
            mutates: false,
            addressed_findings: seq!["db_bloat"@],
            filter_ids: seq!["fm-caches_indexes-db-bloat-vs-jsonl"@],
        },
    ]
}

fn push_legacy_fixers(out: &mut Vec<FixerEntry>)
    ensures
        views(final(out)@) == views(old(out)@) + legacy_fixers(),
{
    let ghost before = views(out@);
    push_fixer(out, "doctor.repair_recoverable_db_state", "caches_indexes", true, false, vec!["db.recoverable_anomalies", "db.sidecars"], vec!["fm-caches_indexes-blocked-cache-stale", "fm-state_files-wal-shm-sidecar-orphan"]);
    push_fixer(out, "doctor.repair_partial_indexes", "caches_indexes", true, false, vec!["sqlite.integrity_check", "sqlite3.integrity_check"], vec!["fm-caches_indexes-partial-index-stale"]);
    push_fixer(out, "doctor.repair_via_vacuum", "state_files", true, false, vec!["sqlite.integrity_check", "sqlite3.integrity_check"], vec!["fm-state_files-sqlite-page-malformed"]);
    push_fixer(out, "doctor.db_bloat_vacuum", "caches_indexes", false, false, vec!["db_bloat"], vec!["fm-caches_indexes-db-bloat-vs-jsonl"]);
    assert(views(out@) =~~= before + legacy_fixers());
}

/// The fixers that rebuild the database.
pub open spec fn rebuild_fixers() -> Seq<FixerModel> {
    seq![
        FixerModel {
            id: "doctor.repair_database_from_jsonl"@,
            subsystem: "state_files"@,
            auto_fixable: true,
            mutates: true,
            addressed_findings: seq!["db.open"@, "counts.db_vs_jsonl"@, "schema.tables"@, "schema.columns"@],
            filter_ids: seq!["fm-state_files-jsonl-row-count-mismatch"@, "fm-state_files-empty-or-truncated-database"@, "fm-state_files-sqlite-page-malformed"@, "fm-schemas-missing-required-table"@, "fm-schemas-missing-required-column"@, "fm-caches_indexes-blocked-cache-stale"@],
        },
        FixerModel {
            id: "doctor.repair_database_sidecars"@,
            subsystem: "state_files"@,
            auto_fixable: true,
            mutates: true,
            addressed_findings: seq!["db.sidecars"@],
            filter_ids: seq!["fm-state_files-wal-shm-sidecar-orphan"@],
        },
    ]
}

fn push_rebuild_fixers(out: &mut Vec<FixerEntry>)
    ensures
        views(final(out)@) == views(old(out)@) + rebuild_fixers(),
{
    let ghost before = views(out@);
    push_fixer(out, "doctor.repair_database_from_jsonl", "state_files", true, true, vec!["db.open", "counts.db_vs_jsonl", "schema.tables", "schema.columns"], vec!["fm-state_files-jsonl-row-count-mismatch", "fm-state_files-empty-or-truncated-database", "fm-state_files-sqlite-page-malformed", "fm-schemas-missing-required-table", "fm-schemas-missing-required-column", "fm-caches_indexes-blocked-cache-stale"]);
    push_fixer(out, "doctor.repair_database_sidecars", "state_files", true, true, vec!["db.sidecars"], vec!["fm-state_files-wal-shm-sidecar-orphan"]);
    assert(views(out@) =~~= before + rebuild_fixers());
}

/// The gates that refuse a repair.
pub open spec fn refuse_gates() -> Seq<FixerModel> {
    seq![
        FixerModel {
            id: "refuse_gates.schema_version_downgrade"@,
            subsystem: "schemas"@,
            auto_fixable: false,
            mutates: false,
            addressed_findings: seq!["schema.columns"@],
            filter_ids: Seq::empty(),
        },
        FixerModel {
            id: "refuse_gates.recovery_fingerprint_integrity"@,
            subsystem: "state_files"@,
            auto_fixable: false,
            mutates: false,
            addressed_findings: seq!["db.recovery_artifacts"@],
            filter_ids: Seq::empty(),
        },
    ]
}

fn push_refuse_gates(out: &mut Vec<FixerEntry>)
    ensures
        views(final(out)@) == views(old(out)@) + refuse_gates(),
{
    let ghost before = views(out@);
    push_fixer(out, "refuse_gates.schema_version_downgrade", "schemas", false, false, vec!["schema.columns"], Vec::new());
    push_fixer(out, "refuse_gates.recovery_fingerprint_integrity", "state_files", false, false, vec!["db.recovery_artifacts"], Vec::new());
    assert(views(out@) =~~= before + refuse_gates());
}

/// All fixers, in the order of the document.
pub open spec fn fixers() -> Seq<FixerModel> {
    first_fixers() + second_fixers() + third_fixers() + legacy_fixers() + rebuild_fixers()
        + refuse_gates()
}

pub fn build_fixer_registry() -> (r: Vec<FixerEntry>)
    ensures
        views(r@) == fixers(),
{
    let mut out: Vec<FixerEntry> = Vec::new();
    assert(views(out@) =~= Seq::<FixerModel>::empty());
    push_first_fixers(&mut out);
    push_second_fixers(&mut out);
    push_third_fixers(&mut out);
    push_legacy_fixers(&mut out);
    push_rebuild_fixers(&mut out);
    push_refuse_gates(&mut out);
    assert(views(out@) =~= fixers());
    out
}

/// The changes that fixers can ask for, in the order of the document.
pub open spec fn supported_ops() -> Seq<OpEntryModel> {
    seq![
        OpEntryModel {
            name: "write_file"@,
            summary: "Atomic create-or-overwrite via tmpfile + rename(2)."@,
            params: seq!["content"@, "mode"@],
            fully_routed: true,
        },
        OpEntryModel {
            name: "append_file"@,
            summary: "Append-only write; creates the file if missing."@,
            params: seq!["content"@],
            fully_routed: true,
        },
        OpEntryModel {
            name: "rename"@,
            summary: "Move a path within write_scopes (no Op::Delete by design)."@,
            params: seq!["to"@],
            fully_routed: true,
        },
        OpEntryModel {
            name: "chmod"@,
            summary: "Set the mode bits of a path."@,
            params: seq!["mode"@],
            fully_routed: true,
        },
        OpEntryModel {
            name: "symlink_atomic"@,
            summary: "Replace the symlink at path with one pointing at target."@,
            params: seq!["target"@],
            fully_routed: true,
        },
        OpEntryModel {
            name: "db_exec"@,
            summary: "Run a parameterized SQL statement inside BEGIN IMMEDIATE; snapshots affected rows to backups/db/ before COMMIT."@,
            params: seq!["sql"@, "args"@, "affected_tables"@, "affected_predicate"@],
            fully_routed: true,
        },
        OpEntryModel {
            name: "db_migrate"@,
            summary: "Versioned schema migration. Verifies PRAGMA user_version matches `from`, snapshots the DB file verbatim to backups/db/beads.db.pre-migrate, then drives schema::run_migrations_atomic inside BEGIN IMMEDIATE / COMMIT (rolls back + restores from snapshot on failure)."@,
            params: seq!["from"@, "to"@],
            fully_routed: true,
        },
    ]
}

fn push_op(
    out: &mut Vec<OpEntry>,
    name: &'static str,
    summary: &'static str,
    params: Vec<&'static str>,
)
    ensures
        views(final(out)@) == views(old(out)@).push(
            OpEntryModel { name: name@, summary: summary@, params: slices(params@), fully_routed: true },
        ),
{
    let entry = OpEntry { name, summary, params, fully_routed: true };
    let ghost shown = entry@;
    out.push(entry);
    assert(views(out@) =~= views(old(out)@).push(shown));
}

fn build_supported_ops() -> (r: Vec<OpEntry>)
    ensures
        views(r@) == supported_ops(),
{
    let mut out: Vec<OpEntry> = Vec::new();
    push_op(&mut out, "write_file", "Atomic create-or-overwrite via tmpfile + rename(2).", vec!["content", "mode"]);
    push_op(&mut out, "append_file", "Append-only write; creates the file if missing.", vec!["content"]);
    push_op(&mut out, "rename", "Move a path within write_scopes (no Op::Delete by design).", vec!["to"]);
    push_op(&mut out, "chmod", "Set the mode bits of a path.", vec!["mode"]);
    push_op(&mut out, "symlink_atomic", "Replace the symlink at path with one pointing at target.", vec!["target"]);
    push_op(&mut out, "db_exec", "Run a parameterized SQL statement inside BEGIN IMMEDIATE; snapshots affected rows to backups/db/ before COMMIT.", vec!["sql", "args", "affected_tables", "affected_predicate"]);
    push_op(&mut out, "db_migrate", "Versioned schema migration. Verifies PRAGMA user_version matches `from`, snapshots the DB file verbatim to backups/db/beads.db.pre-migrate, then drives schema::run_migrations_atomic inside BEGIN IMMEDIATE / COMMIT (rolls back + restores from snapshot on failure).", vec!["from", "to"]);
    assert(views(out@) =~~= supported_ops());
    out
}

/// The finding ids of the checks in `rows`, in order.
pub open spec fn finding_ids(rows: Seq<(&'static str, &'static str)>) -> Seq<FindingIdModel> {
    rows.map_values(
        |row: (&'static str, &'static str)|
            FindingIdModel { check_name: row.0@, finding_id: row.1@ },
    )
}

pub fn build_finding_id_map(rows: &Vec<(&'static str, &'static str)>) -> (r: Vec<FindingIdEntry>)
    ensures
        views(r@) == finding_ids(rows@),
{
    let mut out: Vec<FindingIdEntry> = Vec::new();
    let mut i: usize = 0;
    while i < rows.len()
        invariant
            i <= rows@.len(),
            views(out@) == finding_ids(rows@).take(i as int),
        decreases rows@.len() - i,
    {
        let ghost before = views(out@);
        let entry = FindingIdEntry { check_name: rows[i].0, finding_id: rows[i].1 };
        let ghost shown = entry@;
        out.push(entry);
        i += 1;
        assert(views(out@) =~= before.push(shown));
        assert(views(out@) =~= finding_ids(rows@).take(i as int));
    }
    assert(views(out@) =~= finding_ids(rows@));
    out
}

/// The document of a program of this version, with its exit codes and its table of checks and
/// finding ids.
pub open spec fn capabilities(
    doctor_version: Seq<char>,
    exit_codes: Seq<ExitCodeModel>,
    findings: Seq<(&'static str, &'static str)>,
) -> CapabilitiesModel {
    CapabilitiesModel {
        schema: "br.doctor.capabilities"@,
        contract_version: "1"@,
        doctor_version,
        exit_codes,
        write_scopes: seq![".beads/"@, ".doctor/"@],
        env_vars: seq![
            ENV_RUNS_DIR@,
            "BR_NO_AUTOFLUSH"@,
            "BD_NO_AUTOFLUSH"@,
            "RUST_LOG"@,
            "BD_DB"@,
            "BEADS_JSONL"@,
        ],
        fixers: fixers(),
        detectors: detectors(),
        ops_supported: supported_ops(),
        finding_id_map: finding_ids(findings),
    }
}

impl DoctorCapabilities {
    /// The capabilities document. The version, the exit codes and the finding ids of the
    /// checks are those of the program.
    pub fn build(
        doctor_version: &'static str,
        exit_codes: Vec<ExitCodeEntry>,
        findings: &Vec<(&'static str, &'static str)>,
    ) -> (r: DoctorCapabilities)
        ensures
            r@ == capabilities(doctor_version@, views(exit_codes@), findings@),
    {
        let mut write_scopes: Vec<String> = Vec::new();
        write_scopes.push(".beads/".to_owned());
        write_scopes.push(".doctor/".to_owned());
        assert(texts(write_scopes@) =~= seq![".beads/"@, ".doctor/"@]);
        let env_vars: Vec<&'static str> = vec![
            ENV_RUNS_DIR,
            "BR_NO_AUTOFLUSH",
            "BD_NO_AUTOFLUSH",
            "RUST_LOG",
            "BD_DB",
            "BEADS_JSONL",
        ];
        assert(slices(env_vars@) =~= capabilities(
            doctor_version@,
            views(exit_codes@),
            findings@,
        ).env_vars);
        DoctorCapabilities {
            schema: "br.doctor.capabilities",
            contract_version: "1",
            doctor_version,
            exit_codes,
            write_scopes,
            env_vars,
            fixers: build_fixer_registry(),
            detectors: build_detector_registry(),
            ops_supported: build_supported_ops(),
            finding_id_map: build_finding_id_map(findings),
        }
    }

    /// The capabilities document of a repository, which is that of every other.
    pub fn build_for_repo(
        _repo_root: &str,
        doctor_version: &'static str,
        exit_codes: Vec<ExitCodeEntry>,
        findings: &Vec<(&'static str, &'static str)>,
    ) -> (r: DoctorCapabilities)
        ensures
            r@ == capabilities(doctor_version@, views(exit_codes@), findings@),
    {
        DoctorCapabilities::build(doctor_version, exit_codes, findings)
    }
}

} // verus!
