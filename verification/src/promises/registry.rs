//! Promises of what the doctor says that it can do.

use crate::doctor_subsystems::capabilities_doctor::{
    capabilities, detectors, fixers, supported_ops, ExitCodeModel,
};
use crate::doctor_subsystems::mutate::{op_name, Op};
use vstd::prelude::*;
use vstd::string::*;

verus! {

broadcast use vstd::string::group_string_axioms;

/// Detectors that read more than a few files are not on the fast path, and all others are.
pub proof fn law_detectors_on_the_fast_path(i: int)
    requires
        0 <= i < 61,
    ensures
        detectors().len() == 61,
        !detectors()[i].fast_path <==> i == 15 || i == 16 || i == 23 || i == 24 || i == 25
            || i == 26 || i == 55 || i == 56 || i == 57 || i == 58 || i == 59,
{
}

/// What keeps the tracker from working is an error, what is only of interest is told, and
/// everything else is warned of.
pub proof fn law_detectors_have_their_severity(i: int)
    requires
        0 <= i < 61,
    ensures
        detectors()[i].severity_default == "error"@ <==> i == 0 || i == 1 || i == 12 || i == 41 || i == 42 || i == 43 || i == 44 || i == 50 || i == 51 || i == 52 || i == 54 || i == 58,
        detectors()[i].severity_default == "info"@ <==> i == 46 || i == 48,
        detectors()[i].severity_default == "error"@ || detectors()[i].severity_default == "info"@
            || detectors()[i].severity_default == "warn"@,
{
    reveal_strlit("error");
    reveal_strlit("info");
    reveal_strlit("warn");
    assert("error"@.len() == 5 && "info"@.len() == 4 && "warn"@.len() == 4);
    assert("info"@[0] == 'i' && "warn"@[0] == 'w');
}

/// Every detector belongs to its part of the workspace.
pub proof fn law_detectors_have_their_part(i: int)
    requires
        0 <= i < 61,
    ensures
        i == 0 || i == 1 || i == 2 || i == 3 || i == 8 || i == 9 || i == 29 || i == 39 ==> detectors()[i].subsystem == "configs"@,
        i == 4 || i == 5 ==> detectors()[i].subsystem == "routes_external"@,
        i == 6 || i == 17 ==> detectors()[i].subsystem == "observability"@,
        i == 7 || i == 18 || i == 19 || i == 20 || i == 21 || i == 22 || i == 27 || i == 30 ==> detectors()[i].subsystem == "permissions"@,
        i == 10 || i == 28 ==> detectors()[i].subsystem == "external_artifacts"@,
        i == 11 ==> detectors()[i].subsystem == "concurrency_primitives"@,
        i == 12 || i == 13 || i == 14 || i == 15 || i == 23 || i == 31 || i == 32 || i == 33 || i == 34 || i == 35 || i == 36 || i == 38 || i == 40 || i == 41 || i == 42 || i == 43 || i == 44 || i == 45 || i == 46 || i == 47 || i == 48 || i == 54 || i == 56 || i == 57 || i == 58 || i == 59 ==> detectors()[i].subsystem == "state_files"@,
        i == 16 || i == 24 || i == 25 || i == 26 || i == 37 || i == 49 || i == 55 ==> detectors()[i].subsystem == "caches_indexes"@,
        i == 50 || i == 51 || i == 52 || i == 53 ==> detectors()[i].subsystem == "schemas"@,
        i == 60 ==> detectors()[i].subsystem == "agent_coordination"@,
{
}

/// What a fixer mends is something that a detector finds, under the same name.
pub proof fn law_fixers_mend_what_detectors_find()
    ensures
        ({
            let f = fixers();
            let d = detectors();
            &&& f[0].addressed_findings == seq![d[2].id, d[3].id]
            &&& f[1].addressed_findings == seq![d[13].id]
            &&& f[2].addressed_findings == seq![d[39].id]
            &&& f[3].addressed_findings == seq![d[47].id]
            &&& f[4].addressed_findings == seq![d[49].id]
            &&& f[5].addressed_findings == seq![d[14].id]
            &&& f[6].addressed_findings == seq![d[14].id]
            &&& f[7].addressed_findings == seq![d[31].id]
            &&& f[8].addressed_findings == seq![d[34].id]
            &&& f[9].addressed_findings == seq![d[36].id]
            &&& f[10].addressed_findings == seq![d[35].id]
            &&& f[11].addressed_findings == seq![d[30].id]
            &&& f[12].addressed_findings == seq![d[27].id]
            &&& f[13].addressed_findings == seq![d[22].id]
            &&& f[14].addressed_findings == seq![d[29].id]
            &&& f[15].addressed_findings == seq![d[16].id]
            &&& f[16].addressed_findings == seq![d[24].id]
            &&& f[17].addressed_findings == seq![d[25].id]
            &&& f[18].addressed_findings == seq![d[26].id]
            &&& f[19].addressed_findings == seq![d[38].id]
            &&& f[20].addressed_findings == seq![d[53].id]
            &&& f[21].addressed_findings == seq![d[55].id, d[44].id]
            &&& f[22].addressed_findings == seq![d[54].id, d[58].id]
            &&& f[23].addressed_findings == seq![d[54].id, d[58].id]
            &&& f[24].addressed_findings == seq![d[37].id]
            &&& f[25].addressed_findings == seq![d[43].id, d[56].id, d[50].id, d[51].id]
            &&& f[26].addressed_findings == seq![d[44].id]
            &&& f[27].addressed_findings == seq![d[51].id]
            &&& f[28].addressed_findings == seq![d[46].id]
        }),
{
    let f = fixers();
    let d = detectors();
    assert(f[0].addressed_findings =~= seq![d[2].id, d[3].id]);
    assert(f[1].addressed_findings =~= seq![d[13].id]);
    assert(f[2].addressed_findings =~= seq![d[39].id]);
    assert(f[3].addressed_findings =~= seq![d[47].id]);
    assert(f[4].addressed_findings =~= seq![d[49].id]);
    assert(f[5].addressed_findings =~= seq![d[14].id]);
    assert(f[6].addressed_findings =~= seq![d[14].id]);
    assert(f[7].addressed_findings =~= seq![d[31].id]);
    assert(f[8].addressed_findings =~= seq![d[34].id]);
    assert(f[9].addressed_findings =~= seq![d[36].id]);
    assert(f[10].addressed_findings =~= seq![d[35].id]);
    assert(f[11].addressed_findings =~= seq![d[30].id]);
    assert(f[12].addressed_findings =~= seq![d[27].id]);
    assert(f[13].addressed_findings =~= seq![d[22].id]);
    assert(f[14].addressed_findings =~= seq![d[29].id]);
    assert(f[15].addressed_findings =~= seq![d[16].id]);
    assert(f[16].addressed_findings =~= seq![d[24].id]);
    assert(f[17].addressed_findings =~= seq![d[25].id]);
    assert(f[18].addressed_findings =~= seq![d[26].id]);
    assert(f[19].addressed_findings =~= seq![d[38].id]);
    assert(f[20].addressed_findings =~= seq![d[53].id]);
    assert(f[21].addressed_findings =~= seq![d[55].id, d[44].id]);
    assert(f[22].addressed_findings =~= seq![d[54].id, d[58].id]);
    assert(f[23].addressed_findings =~= seq![d[54].id, d[58].id]);
    assert(f[24].addressed_findings =~= seq![d[37].id]);
    assert(f[25].addressed_findings =~= seq![d[43].id, d[56].id, d[50].id, d[51].id]);
    assert(f[26].addressed_findings =~= seq![d[44].id]);
    assert(f[27].addressed_findings =~= seq![d[51].id]);
    assert(f[28].addressed_findings =~= seq![d[46].id]);
}

/// Most fixers work by themselves and change something; a few only when asked to, and those
/// that rebuild by other means or refuse change nothing themselves.
pub proof fn law_fixers_that_change_something(i: int)
    requires
        0 <= i < 29,
    ensures
        fixers().len() == 29,
        !fixers()[i].auto_fixable <==> i == 24 || i == 27 || i == 28,
        !fixers()[i].mutates <==> i == 21 || i == 22 || i == 23 || i == 24 || i == 27 || i == 28,
{
}

/// Fixers belong to the part of the workspace that they mend.
pub proof fn law_fixers_have_their_part(i: int)
    requires
        0 <= i < 29,
    ensures
        i == 0 || i == 2 || i == 14 ==> fixers()[i].subsystem == "configs"@,
        i == 1 || i == 3 || i == 5 || i == 6 || i == 7 || i == 8 || i == 9 || i == 10 || i == 19 || i == 23 || i == 25 || i == 26 || i == 28 ==> fixers()[i].subsystem == "state_files"@,
        i == 4 || i == 15 || i == 16 || i == 17 || i == 18 || i == 21 || i == 22 || i == 24 ==> fixers()[i].subsystem == "caches_indexes"@,
        i == 11 || i == 12 || i == 13 ==> fixers()[i].subsystem == "permissions"@,
        i == 20 || i == 27 ==> fixers()[i].subsystem == "schemas"@,
{
}

/// Every kind of change is on the list of what is supported, and goes the safe way.
pub proof fn law_every_change_is_supported(op: Op)
    ensures
        supported_ops().len() == 7,
        exists|i: int|
            0 <= i < 7 && (#[trigger] supported_ops()[i]).name == op_name(op)
                && supported_ops()[i].fully_routed,
{
    let s = supported_ops();
    let i: int = match op {
        Op::WriteFile { .. } => 0,
        Op::AppendFile { .. } => 1,
        Op::Rename { .. } => 2,
        Op::Chmod { .. } => 3,
        Op::SymlinkAtomic { .. } => 4,
        Op::DbExec { .. } => 5,
        Op::DbMigrate { .. } => 6,
    };
    assert(s[i].name == op_name(op) && s[i].fully_routed);
}

/// What each kind of change takes.
pub proof fn law_changes_take_their_parameters()
    ensures
        supported_ops()[0].params == seq!["content"@, "mode"@],
        supported_ops()[1].params == seq!["content"@],
        supported_ops()[2].params == seq!["to"@],
        supported_ops()[3].params == seq!["mode"@],
        supported_ops()[4].params == seq!["target"@],
        supported_ops()[5].params == seq![
            "sql"@,
            "args"@,
            "affected_tables"@,
            "affected_predicate"@,
        ],
        supported_ops()[6].params == seq!["from"@, "to"@],
{
}

/// The doctor says its version and its exit codes as they are given, changes nothing outside
/// its two directories, and lists every finding, fixer, detector and change.
pub proof fn law_capabilities_say_it_all(
    version: Seq<char>,
    codes: Seq<ExitCodeModel>,
    findings: Seq<(&'static str, &'static str)>,
    i: int,
)
    requires
        0 <= i < findings.len(),
    ensures
        ({
            let c = capabilities(version, codes, findings);
            &&& c.schema == "br.doctor.capabilities"@
            &&& c.contract_version == "1"@
            &&& c.doctor_version == version
            &&& c.exit_codes == codes
            &&& c.write_scopes == seq![".beads/"@, ".doctor/"@]
            &&& c.env_vars == seq![
                "BR_DOCTOR_RUNS_DIR"@,
                "BR_NO_AUTOFLUSH"@,
                "BD_NO_AUTOFLUSH"@,
                "RUST_LOG"@,
                "BD_DB"@,
                "BEADS_JSONL"@,
            ]
            &&& c.fixers == fixers()
            &&& c.detectors == detectors()
            &&& c.ops_supported == supported_ops()
            &&& c.finding_id_map.len() == findings.len()
            &&& c.finding_id_map[i].check_name == findings[i].0@
            &&& c.finding_id_map[i].finding_id == findings[i].1@
        }),
{
}

} // verus!
