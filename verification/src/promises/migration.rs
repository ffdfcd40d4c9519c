//! Promises of reviewed schema migrations.

use crate::doctor_subsystems::receipts::PlanModel;
use crate::doctor_subsystems::schema_migration::{
    candidate_path, maintenance_forecast, migration_forecast, migration_task, plan_lines, plan_of,
    plan_route_of, run_id_check, run_id_of, runs_root, MigrateSchemaModel, MigrationTaskModel,
    PlanFacts, PlanRoute, SourceFacts,
};
use crate::doctor_subsystems::witness::{ComponentModel, LogicalModel};
use crate::error::ErrorModel;
use crate::numbers::decimal;
use crate::paths::{file_name, join_path, with_file_name};
use crate::text::trim;
use vstd::prelude::*;
use vstd::string::*;

verus! {

broadcast use vstd::string::group_string_axioms;

/// A sound database of one of the four reviewed versions is read as the source of a migration,
/// to whatever other version.
pub proof fn law_reviewed_versions_are_read(logical: LogicalModel, target: u32)
    requires
        logical.integrity_check == "ok"@,
        logical.user_version != target,
    ensures
        logical.user_version == 13 ==> plan_route_of(logical, target) == Ok::<
            PlanRoute,
            ErrorModel,
        >(PlanRoute::ReadSource),
        logical.user_version == 14 ==> plan_route_of(logical, target) == Ok::<
            PlanRoute,
            ErrorModel,
        >(PlanRoute::ReadSource),
        logical.user_version == 15 ==> plan_route_of(logical, target) == Ok::<
            PlanRoute,
            ErrorModel,
        >(PlanRoute::ReadSource),
        logical.user_version == 16 ==> plan_route_of(logical, target) == Ok::<
            PlanRoute,
            ErrorModel,
        >(PlanRoute::ReadSource),
        logical.user_version < 13 || logical.user_version > 16 ==> plan_route_of(
            logical,
            target,
        ) is Err,
{
    lemma_ok_is_clean();
}

/// Nothing is migrated from a version to itself: its shape is looked at.
pub proof fn law_current_version_is_looked_at(logical: LogicalModel, target: u32)
    ensures
        plan_route_of(logical, target) == Ok::<PlanRoute, ErrorModel>(PlanRoute::CheckShape)
            <==> logical.user_version == target,
{
}

proof fn lemma_ok_is_clean()
    ensures
        crate::doctor_subsystems::witness::integrity_clean("ok"@),
{
    reveal_strlit("ok");
    assert(crate::text::trim_start("ok"@) =~= "ok"@);
    assert(crate::text::trim_end("ok"@) =~= "ok"@);
}

/// A sound database of a reviewed version with the three tables that a migration needs has
/// an eligible plan from its version to the target: with a forecast of that step, a token, and
/// the command that hands the token back. The hashes of all its issues are rebuilt for the
/// oldest version and for no other, and the history of gate results is made where there is
/// none.
pub proof fn law_sound_sources_have_an_eligible_plan(
    path: Seq<char>,
    logical: LogicalModel,
    raw: Seq<ComponentModel>,
    target: u32,
    facts: SourceFacts,
)
    requires
        logical.integrity_check == "ok"@,
        logical.user_version != target,
        13 <= logical.user_version <= 16,
        facts.has_issues && facts.has_dirty_issues && facts.has_export_hashes,
        facts.issue_count <= usize::MAX,
    ensures
        ({
            let r = plan_of(path, logical, raw, target, PlanFacts::Source(facts));
            let plan = r->Ok_0;
            let forecast = plan.forecast->0;
            &&& r is Ok && plan.eligible
            &&& plan.database_path == path
            &&& plan.from_version == logical.user_version && plan.to_version == target
            &&& plan.logical_witness == logical && plan.raw_witness == raw
            &&& plan.forecast is Some
            &&& forecast.from_version == logical.user_version && forecast.to_version == target
            &&& forecast.content_hash_rows_rebuilt == if logical.user_version == 13 {
                facts.issue_count as int
            } else {
                0int
            }
            &&& forecast.gate_result_history_created == !facts.has_gate_result_history
            &&& forecast.post_migration_maintenance
            &&& plan.plan_token is Some
            &&& plan.apply_command == Some(
                "br doctor migrate-schema apply --plan-token "@ + plan.plan_token->0,
            )
        }),
{
    lemma_ok_is_clean();
    law_reviewed_versions_are_read(logical, target);
}

/// Each of the three tables is needed: where one is missing there is no plan, and the error
/// names the first that is missing.
pub proof fn law_each_source_table_is_needed(
    path: Seq<char>,
    logical: LogicalModel,
    raw: Seq<ComponentModel>,
    target: u32,
    facts: SourceFacts,
)
    requires
        logical.integrity_check == "ok"@,
        logical.user_version != target,
        13 <= logical.user_version <= 16,
        !facts.has_issues || !facts.has_dirty_issues || !facts.has_export_hashes,
    ensures
        ({
            let r = plan_of(path, logical, raw, target, PlanFacts::Source(facts));
            let lead = "reviewed "@ + crate::numbers::decimal(logical.user_version as nat) + "->"@
                + crate::numbers::decimal(target as nat) + " migration requires table "@;
            r == Err::<PlanModel, ErrorModel>(
                ErrorModel::Internal(
                    lead + (if !facts.has_issues {
                        "issues"@
                    } else if !facts.has_dirty_issues {
                        "dirty_issues"@
                    } else {
                        "export_hashes"@
                    }) + ", but it is absent"@,
                ),
            )
        }),
{
    lemma_ok_is_clean();
    law_reviewed_versions_are_read(logical, target);
}

/// A sound database of the current version and of the canonical shape needs nothing: its plan
/// is not eligible and has no token. One of another shape has no plan.
pub proof fn law_current_database_needs_no_migration(
    path: Seq<char>,
    logical: LogicalModel,
    raw: Seq<ComponentModel>,
    target: u32,
    canonical: bool,
)
    requires
        logical.integrity_check == "ok"@,
        logical.user_version == target,
    ensures
        ({
            let r = plan_of(path, logical, raw, target, PlanFacts::Shape { canonical });
            &&& r is Ok <==> canonical
            &&& canonical ==> !r->Ok_0.eligible && r->Ok_0.plan_token is None
                && r->Ok_0.forecast is None && r->Ok_0.apply_command is None
                && r->Ok_0.from_version == target && r->Ok_0.to_version == target
        }),
{
    lemma_ok_is_clean();
}

/// A run is named by anything but a path: not empty, no dots alone, and no separator in it.
pub proof fn law_run_names_are_no_paths(name: Seq<char>)
    ensures
        run_id_check(name) is Ok <==> name.len() > 0 && name != "."@ && name != ".."@
            && !name.contains('/') && !name.contains('\\'),
{
    if name.contains('/') {
        let i = choose|i: int| 0 <= i < name.len() && name[i] == '/';
        assert(name[i] == '/');
    }
    if name.contains('\\') {
        let i = choose|i: int| 0 <= i < name.len() && name[i] == '\\';
        assert(name[i] == '\\');
    }
    if !name.contains('/') && !name.contains('\\') {
        assert forall|i: int| 0 <= i < name.len() implies name[i] != '/' && name[i] != '\\' by {
            assert(name.contains(name[i]));
        }
    }
}

/// Runs of migrations lie among the recoveries of the workspace and are named by time, process
/// and number.
pub proof fn law_migration_runs_have_their_place(dir: Seq<char>, stamp: Seq<char>, pid: u32, n: u32)
    ensures
        runs_root(dir) == join_path(join_path(dir, ".br_recovery"@), "schema-migrations"@),
        run_id_of(stamp, pid, n) == stamp + "-"@ + decimal(pid as nat) + "-"@ + decimal(n as nat),
{
}

/// The copy to be migrated lies beside the database, hidden and named by its run.
pub proof fn law_candidates_lie_beside_the_database(
    db: Seq<char>,
    run_dir: Seq<char>,
    run: Seq<char>,
    name: Seq<char>,
)
    requires
        file_name(run_dir) == Some(run),
        file_name(db) == Some(name),
    ensures
        run_id_check(run) is Ok ==> candidate_path(db, run_dir) == Ok::<Seq<char>, ErrorModel>(
            with_file_name(db, "."@ + name + ".schema-migration-"@ + run + ".vacuum"@),
        ),
        run_id_check(run) is Err ==> candidate_path(db, run_dir) is Err,
{
}

/// A migration forecasts its versions; rows are rebuilt from version thirteen alone, the
/// history is made where it is missing, and upkeep always follows.
pub proof fn law_forecasts_say_what_will_change(from: u32, target: u32, facts: SourceFacts)
    requires
        facts.issue_count <= usize::MAX,
    ensures
        ({
            let f = migration_forecast(from, target, facts);
            &&& f.from_version == from
            &&& f.to_version == target
            &&& from == 13 ==> f.content_hash_rows_rebuilt == facts.issue_count
            &&& from != 13 ==> f.content_hash_rows_rebuilt == 0
            &&& f.gate_result_history_created <==> !facts.has_gate_result_history
            &&& f.post_migration_maintenance
        }),
        ({
            let f = maintenance_forecast(target);
            &&& f.from_version == target && f.to_version == target
            &&& f.content_hash_rows_rebuilt == 0
            &&& !f.gate_result_history_created
            &&& f.post_migration_maintenance
        }),
{
}

/// Each command is carried out in its workspace: a plan as it is, an apply by its token and an
/// undo in the directory of its run; without a workspace none is.
pub proof fn law_commands_have_their_task(
    command: MigrateSchemaModel,
    dir: Seq<char>,
    token: Seq<char>,
    run: Seq<char>,
    dry: bool,
)
    ensures
        migration_task(command, None) == Err::<MigrationTaskModel, ErrorModel>(
            ErrorModel::NotInitialized,
        ),
        migration_task(MigrateSchemaModel::Plan, Some(dir)) == Ok::<MigrationTaskModel, ErrorModel>(
            MigrationTaskModel::Plan,
        ),
        trim(token).len() > 0 ==> migration_task(
            MigrateSchemaModel::Apply { plan_token: token },
            Some(dir),
        ) == Ok::<MigrationTaskModel, ErrorModel>(
            MigrationTaskModel::Apply { token: trim(token), runs_root: runs_root(dir) },
        ),
        trim(token).len() == 0 ==> migration_task(
            MigrateSchemaModel::Apply { plan_token: token },
            Some(dir),
        ) is Err,
        run_id_check(run) is Ok ==> migration_task(
            MigrateSchemaModel::Undo { run_id: run, dry_run: dry },
            Some(dir),
        ) == Ok::<MigrationTaskModel, ErrorModel>(
            MigrationTaskModel::Undo { run_dir: join_path(runs_root(dir), run), dry_run: dry },
        ),
        run_id_check(run) is Err ==> migration_task(
            MigrateSchemaModel::Undo { run_id: run, dry_run: dry },
            Some(dir),
        ) is Err,
{
}

/// A plan is told by its versions, its token and how to apply it, and one that is for nothing
/// by its note.
pub proof fn law_plans_are_told(plan: PlanModel, token: Seq<char>, command: Seq<char>)
    ensures
        plan.eligible && plan.plan_token == Some(token) && plan.apply_command == Some(command)
            ==> plan_lines(plan) == seq![
            "Reviewed schema migration: "@ + decimal(plan.from_version as nat) + " -> "@ + decimal(
                plan.to_version as nat,
            ),
            "Plan token: "@ + token,
            "Apply: "@ + command,
        ],
        !plan.eligible ==> plan_lines(plan) == seq![plan.note],
{
}

/// A version that cannot be migrated is told, with those that can.
pub proof fn law_other_versions_are_told(logical: LogicalModel, target: u32)
    requires
        logical.user_version != target,
        logical.user_version < 13 || logical.user_version > 16,
    ensures
        plan_route_of(logical, target) == Err::<PlanRoute, ErrorModel>(
            ErrorModel::Internal(
                "reviewed schema migration is available only from source schemas 13, 14, 15, and 16 to "@
                    + decimal(target as nat) + "; observed unsupported source version "@ + decimal(
                    logical.user_version as nat,
                ),
            ),
        ),
{
}

/// A database of the current version whose shape is another is refused, sound or not.
pub proof fn law_misshapen_databases_are_refused(
    path: Seq<char>,
    logical: LogicalModel,
    raw: Seq<ComponentModel>,
)
    ensures
        plan_of(path, logical, raw, logical.user_version, PlanFacts::Shape { canonical: false })
            == Err::<PlanModel, ErrorModel>(
            ErrorModel::Internal(
                "database declares the current schema version but its runtime shape is not canonical; refusing to issue a migration no-op receipt"@,
            ),
        ),
{
}

} // verus!
