//! Promises of applying a reviewed migration and of undoing it.

use crate::doctor_subsystems::apply::{
    applied_of, as_forecast, attestation_errors, authorized, failed_of, prepared_of, report_of,
    step_after, token_given, ApplyStep, AttestationModel,
};
use crate::doctor_subsystems::family::{family_check, stable_components};
use crate::doctor_subsystems::receipts::{
    forecast_json, logical_json, plan_token, table_json, tables_json, token_material, AppliedModel,
    MigrationForecast, PlanModel, PreparedModel, UndoModel,
};
use crate::doctor_subsystems::schema_migration::run_id_check;
use crate::doctor_subsystems::undo::{
    applied_check, completed_undo_check, completed_undo_state, prepared_undo_check,
    quarantine_check, quarantine_dir, receipts_agree, restored_exactly, still_applied, undo_after,
    undo_lines, undo_of, UndoOutcome, UndoStep,
};
use crate::doctor_subsystems::witness::{ComponentModel, LogicalModel, TableModel};
use crate::error::ErrorModel;
use crate::json::{json_bool, json_string};
use crate::numbers::decimal;
use crate::paths::{directly_in, file_name, join_path};
use crate::text::{join, trim};
use vstd::prelude::*;
use vstd::string::*;

verus! {

broadcast use vstd::string::group_string_axioms;

/// A token is what is given, without white space round it, and a blank one is refused.
pub proof fn law_blank_tokens_are_refused(token: Seq<char>)
    ensures
        trim(token).len() > 0 ==> token_given(token) == Ok::<Seq<char>, ErrorModel>(trim(token)),
        trim(token).len() == 0 ==> token_given(token) == Err::<Seq<char>, ErrorModel>(
            ErrorModel::Internal(
                "schema migration apply requires a non-empty --plan-token"@,
            ),
        ),
{
}

/// A migration is authorized exactly by the token of the plan as it is now, and then as that
/// plan forecasts it.
pub proof fn law_the_token_of_the_plan_authorizes(plan: PlanModel, token: Seq<char>)
    ensures
        authorized(plan, token) is Ok <==> plan.plan_token == Some(token) && plan.forecast is Some,
        authorized(plan, token) is Ok ==> authorized(plan, token)->Ok_0 == plan.forecast->0,
        plan.plan_token is None ==> authorized(plan, token) == Err::<MigrationForecast, ErrorModel>(
            ErrorModel::Internal(
                "schema migration apply refused because no migration is currently eligible"@,
            ),
        ),
{
}

/// A migration that goes well, step by step: the bundle is made, read back and on record before
/// anything changes, and what was done is attested and on record before it is told.
pub proof fn law_apply_goes_step_by_step(ok: bool)
    ensures
        step_after(ApplyStep::Authorize, true) == ApplyStep::AllocateRun,
        step_after(ApplyStep::AllocateRun, true) == ApplyStep::CreateBundle,
        step_after(ApplyStep::CreateBundle, true) == ApplyStep::CopyFamily,
        step_after(ApplyStep::CopyFamily, true) == ApplyStep::VerifyBundle,
        step_after(ApplyStep::VerifyBundle, true) == ApplyStep::WritePrepared,
        step_after(ApplyStep::WritePrepared, true) == ApplyStep::HashPrepared,
        step_after(ApplyStep::HashPrepared, true) == ApplyStep::SyncPrepared,
        step_after(ApplyStep::SyncPrepared, true) == ApplyStep::VerifyAuthority,
        step_after(ApplyStep::VerifyAuthority, true) == ApplyStep::Migrate,
        step_after(ApplyStep::Migrate, true) == ApplyStep::ReverifyAuthority,
        step_after(ApplyStep::ReverifyAuthority, true) == ApplyStep::Attest,
        step_after(ApplyStep::Attest, ok) == ApplyStep::WriteApplied,
        step_after(ApplyStep::WriteApplied, true) == ApplyStep::SyncApplied,
        step_after(ApplyStep::SyncApplied, true) == ApplyStep::Report,
        step_after(ApplyStep::Migrate, false) == ApplyStep::ReverifyAuthorityAfterFailure,
        step_after(ApplyStep::ReverifyAuthorityAfterFailure, true) == ApplyStep::WriteFailed,
        step_after(ApplyStep::ReverifyAuthorityAfterFailure, false) == ApplyStep::Failed,
        step_after(ApplyStep::WriteFailed, ok) == ApplyStep::Failed,
        step_after(ApplyStep::Failed, ok) == ApplyStep::Failed,
        step_after(ApplyStep::Report, ok) == ApplyStep::Report,
{
}

/// A step that fails ends the work, but for the migration itself and the attestation.
pub proof fn law_apply_ends_where_a_step_fails(step: ApplyStep)
    requires
        step != ApplyStep::Migrate,
        step != ApplyStep::Attest,
        step != ApplyStep::Report,
    ensures
        step_after(step, false) == ApplyStep::Failed,
{
}

/// What was done is as forecast exactly where the versions, the rebuilt rows, the history and
/// the upkeep all are.
pub proof fn law_effects_are_held_against_the_forecast(f: MigrationForecast, a: AttestationModel)
    ensures
        as_forecast(f, a.effects) <==> a.effects.from_version == f.from_version
            && a.effects.to_version == f.to_version && a.effects.content_hash_rows_rebuilt
            == f.content_hash_rows_rebuilt && a.effects.gate_result_history_created
            == f.gate_result_history_created && a.effects.post_migration_maintenance_completed
            == f.post_migration_maintenance,
        a.effects.to_version != f.to_version ==> attestation_errors(f, a).len() > 0,
        a.logical_after is Err ==> attestation_errors(f, a).contains(
            "could not capture the committed logical witness: "@ + a.logical_after->Err_0,
        ),
        a.raw_after is Err ==> attestation_errors(f, a).contains(
            "could not capture the committed raw witness: "@ + a.raw_after->Err_0,
        ),
        a.shape_canonical == Ok::<bool, Seq<char>>(false) ==> attestation_errors(f, a).contains(
            "committed database does not have the canonical current runtime shape"@,
        ),
{
    let all = attestation_errors(f, a);
    let first: int = if as_forecast(f, a.effects) {
        0
    } else {
        1
    };
    let second: int = if a.logical_after is Ok {
        first
    } else {
        first + 1
    };
    if a.logical_after is Err {
        assert(all[first] == "could not capture the committed logical witness: "@
            + a.logical_after->Err_0);
    }
    if a.raw_after is Err {
        assert(all[second] == "could not capture the committed raw witness: "@
            + a.raw_after->Err_0);
    }
    if a.shape_canonical == Ok::<bool, Seq<char>>(false) {
        assert(all.last()
            == "committed database does not have the canonical current runtime shape"@);
    }
}

/// The prepared receipt holds what the plan says, under the run and its time.
pub proof fn law_prepared_receipts_hold_the_plan(plan: PlanModel, run: Seq<char>, at: Seq<char>)
    ensures
        ({
            let r = prepared_of(plan, run, at);
            &&& r.schema_version == "br.doctor.schema_migration.prepared.v1"@
            &&& r.run_id == run
            &&& r.marked_at == at
            &&& r.database_path == plan.database_path
            &&& r.plan_token == plan.plan_token->0
            &&& r.forecast == plan.forecast->0
            &&& r.raw_before == plan.raw_witness
            &&& r.logical_before == plan.logical_witness
        }),
{
}

/// The failed receipt holds what was prepared, the error and what was seen behind it.
pub proof fn law_failed_receipts_hold_the_error(
    p: PreparedModel,
    error: Seq<char>,
    raw: Option<Seq<ComponentModel>>,
    logical: Option<LogicalModel>,
)
    ensures
        ({
            let r = failed_of(p, error, raw, logical);
            &&& r.schema_version == "br.doctor.schema_migration.failed.v1"@
            &&& r.run_id == p.run_id
            &&& r.database_path == p.database_path
            &&& r.plan_token == p.plan_token
            &&& r.marked_at == p.marked_at
            &&& r.error == error
            &&& r.raw_before == p.raw_before
            &&& r.logical_before == p.logical_before
            &&& r.raw_observed_after_failure == raw
            &&& r.logical_observed_after_failure == logical
        }),
{
}

/// The applied receipt holds what was prepared and what was found behind the migration, and is
/// attested exactly where nothing speaks against it.
pub proof fn law_applied_receipts_hold_what_was_found(
    p: PreparedModel,
    hash: Seq<char>,
    a: AttestationModel,
)
    ensures
        ({
            let r = applied_of(p, hash, a);
            &&& r.schema_version == "br.doctor.schema_migration.applied.v1"@
            &&& r.run_id == p.run_id
            &&& r.database_path == p.database_path
            &&& r.plan_token == p.plan_token
            &&& r.prepared_receipt_sha256 == hash
            &&& r.marked_at == p.marked_at
            &&& r.forecast == p.forecast
            &&& r.effects == a.effects
            &&& r.raw_before == p.raw_before
            &&& r.logical_before == p.logical_before
            &&& a.raw_after is Ok ==> r.raw_after == Some(a.raw_after->Ok_0)
            &&& a.raw_after is Err ==> r.raw_after is None
            &&& a.logical_after is Ok ==> r.logical_after == Some(a.logical_after->Ok_0)
            &&& a.logical_after is Err ==> r.logical_after is None
            &&& r.attested <==> attestation_errors(p.forecast, a).len() == 0
            &&& r.attestation_errors == attestation_errors(p.forecast, a)
            &&& r.undo_command == "br doctor migrate-schema undo "@ + p.run_id
        }),
{
}

/// A migration that was attested is told with how to undo it; one that was not fails, though it
/// took effect.
pub proof fn law_unattested_migrations_fail(applied: AppliedModel, run_dir: Seq<char>)
    ensures
        report_of(applied, run_dir) is Ok <==> applied.attested,
        applied.attested ==> report_of(applied, run_dir)->Ok_0 == seq![
            "Applied reviewed schema migration "@ + decimal(applied.forecast.from_version as nat)
                + " -> "@ + decimal(applied.forecast.to_version as nat) + " (run "@
                + applied.run_id + ")"@,
            "Undo: "@ + applied.undo_command,
            "Recovery bundle: "@ + join_path(run_dir, "before"@),
        ],
{
}

/// An applied receipt can be undone from exactly where all of it holds together: its families,
/// its contract, its run, its database, its attestation, a witness of what was committed and
/// the token of what was before.
pub proof fn law_undo_needs_a_sound_receipt(applied: AppliedModel, run: Seq<char>, db: Seq<char>)
    ensures
        applied_check(applied, run, db) is Ok <==> family_check(applied.raw_before, 0) is Ok && (
        applied.raw_after is Some ==> family_check(applied.raw_after->0, 0) is Ok)
            && applied.schema_version == "br.doctor.schema_migration.applied.v1"@ && applied.run_id
            == run && applied.database_path == db && applied.attested == (
        applied.attestation_errors.len() == 0) && (applied.raw_after is Some
            || applied.logical_after is Some) && applied.plan_token == plan_token(
            applied.database_path,
            applied.logical_before,
            applied.forecast,
        ),
{
}

/// Two receipts agree exactly where each of their common parts does.
pub proof fn law_receipts_agree_in_every_part(p: PreparedModel, a: AppliedModel)
    ensures
        receipts_agree(p, a) <==> p.schema_version == "br.doctor.schema_migration.prepared.v1"@
            && p.run_id == a.run_id && p.database_path == a.database_path && p.plan_token
            == a.plan_token && p.marked_at == a.marked_at && p.forecast == a.forecast
            && p.raw_before == a.raw_before && p.logical_before == a.logical_before,
{
}

/// The live database is the applied one exactly where its contents are, or, where those were
/// not on record, its files.
pub proof fn law_live_state_is_the_applied_one(
    applied: AppliedModel,
    raw: Seq<ComponentModel>,
    logical: Option<LogicalModel>,
)
    ensures
        applied.logical_after is Some ==> (still_applied(applied, raw, logical) <==> logical
            == applied.logical_after),
        applied.logical_after is None && applied.raw_after is Some ==> (still_applied(
            applied,
            raw,
            logical,
        ) <==> stable_components(raw) == stable_components(applied.raw_after->0)),
        applied.logical_after is None && applied.raw_after is None ==> !still_applied(
            applied,
            raw,
            logical,
        ),
{
}

/// A quarantine lies directly in the one of its run, under a name that a run may have.
pub proof fn law_quarantines_lie_in_their_run(path: Seq<char>, run_dir: Seq<char>)
    ensures
        quarantine_check(path, run_dir) is Ok <==> directly_in(
            path,
            join_path(run_dir, "undo-quarantine"@),
        ) && file_name(path) is Some && run_id_check(file_name(path)->0) is Ok,
{
}

/// A new quarantine is named by its time and process.
pub proof fn law_quarantines_are_named(run_dir: Seq<char>, stamp: Seq<char>, pid: u32)
    ensures
        quarantine_dir(run_dir, stamp, pid) == join_path(
            join_path(run_dir, "undo-quarantine"@),
            "undo-"@ + stamp + "-"@ + decimal(pid as nat),
        ),
{
}

/// An undo that was begun can be taken up exactly where its receipt is sound, belongs to this
/// run and this database, begins at the applied state and has not restored anything.
pub proof fn law_begun_undo_must_fit(
    r: UndoModel,
    run: Seq<char>,
    db: Seq<char>,
    run_dir: Seq<char>,
    hash: Seq<char>,
    a: AppliedModel,
)
    ensures
        prepared_undo_check(r, run, db, run_dir, hash, a) is Ok <==> family_check(
            r.raw_expected_before,
            0,
        ) is Ok && family_check(r.raw_live_before_undo, 0) is Ok && r.schema_version
            == "br.doctor.schema_migration.undo.v1"@ && r.run_id == run && !r.dry_run
            && r.database_path == db && r.applied_receipt_sha256 == hash && r.raw_expected_before
            == a.raw_before && r.logical_expected_before == a.logical_before
                && r.raw_restored is None
            && r.logical_restored is None && (a.logical_after is Some ==> r.logical_live_before_undo
            == a.logical_after) && (a.logical_after is None && a.raw_after is Some
            ==> stable_components(r.raw_live_before_undo) == stable_components(a.raw_after->0))
            && quarantine_check(r.quarantine_path, run_dir) is Ok,
{
}

/// The receipt of a completed undo holds exactly where it is sound, belongs here, follows from
/// the applied receipt and witnesses what was restored.
pub proof fn law_completed_undo_must_fit(
    r: UndoModel,
    run: Seq<char>,
    db: Seq<char>,
    run_dir: Seq<char>,
    hash: Seq<char>,
)
    ensures
        completed_undo_check(r, run, db) is Ok <==> family_check(r.raw_expected_before, 0) is Ok
            && family_check(r.raw_live_before_undo, 0) is Ok && r.schema_version
            == "br.doctor.schema_migration.undo.v1"@ && r.run_id == run && r.database_path == db
            && !r.dry_run,
        completed_undo_state(r, run, run_dir, hash) is Ok <==> r.applied_receipt_sha256 == hash
            && quarantine_check(r.quarantine_path, run_dir) is Ok && r.logical_restored is Some
            && r.raw_restored is Some && family_check(r.raw_restored->0, 0) is Ok,
{
}

/// The receipt of an undo holds what it begins from and what it is to bring back.
pub proof fn law_undo_receipts_hold_both_states(
    a: AppliedModel,
    run: Seq<char>,
    dry: bool,
    db: Seq<char>,
    place: Seq<char>,
    hash: Seq<char>,
    raw: Seq<ComponentModel>,
    logical: Option<LogicalModel>,
)
    ensures
        ({
            let r = undo_of(a, run, dry, db, place, hash, raw, logical);
            &&& r.schema_version == "br.doctor.schema_migration.undo.v1"@
            &&& r.run_id == run
            &&& r.dry_run == dry
            &&& r.database_path == db
            &&& r.quarantine_path == place
            &&& r.applied_receipt_sha256 == hash
            &&& r.raw_expected_before == a.raw_before
            &&& r.logical_expected_before == a.logical_before
            &&& r.raw_live_before_undo == raw
            &&& r.logical_live_before_undo == logical
            &&& r.raw_restored is None
            &&& r.logical_restored is None
        }),
{
}

/// A state is restored exactly where both its contents and its files are those from before.
pub proof fn law_restored_means_as_before(
    a: AppliedModel,
    raw: Seq<ComponentModel>,
    logical: LogicalModel,
)
    ensures
        restored_exactly(a, raw, logical) <==> logical == a.logical_before && stable_components(raw)
            == stable_components(a.raw_before),
{
}

/// What is told of an undo: what was done, or would be, and where the displaced state is.
pub proof fn law_undo_is_told(r: UndoModel)
    ensures
        r.dry_run ==> undo_lines(r) == seq![
            "Undo preconditions verified for schema migration run "@ + r.run_id,
            "Current state would be quarantined at "@ + r.quarantine_path,
        ],
        !r.dry_run ==> undo_lines(r) == seq![
            "Undid schema migration run "@ + r.run_id,
            "Displaced applied state retained at "@ + r.quarantine_path,
        ],
{
}

/// An undo goes step by step: one that was completed is only told again, one that was begun is
/// taken up, and a dry run ends before anything changes.
pub proof fn law_undo_goes_step_by_step(dry: bool)
    ensures
        ({
            let done = |step: UndoStep, dry: bool| undo_after(step, UndoOutcome::Done, dry);
            let none = |step: UndoStep| undo_after(step, UndoOutcome::NotFound, dry);
            &&& none(UndoStep::FindCompleted) == UndoStep::CheckApplied
            &&& done(UndoStep::FindCompleted, dry) == UndoStep::CheckCompleted
            &&& done(UndoStep::CheckCompleted, dry) == UndoStep::Report
            &&& done(UndoStep::CheckApplied, dry) == UndoStep::VerifyBundle
            &&& done(UndoStep::VerifyBundle, dry) == UndoStep::FindBegun
            &&& none(UndoStep::FindBegun) == UndoStep::CheckLive
            &&& done(UndoStep::FindBegun, false) == UndoStep::CheckBegun
            &&& done(UndoStep::FindBegun, true) == UndoStep::Failed
            &&& done(UndoStep::CheckBegun, dry) == UndoStep::EnsureQuarantine
            &&& done(UndoStep::CheckLive, false) == UndoStep::WriteBegun
            &&& done(UndoStep::CheckLive, true) == UndoStep::ReportDryRun
            &&& done(UndoStep::WriteBegun, dry) == UndoStep::EnsureQuarantine
            &&& done(UndoStep::EnsureQuarantine, dry) == UndoStep::Quarantine
            &&& done(UndoStep::Quarantine, dry) == UndoStep::Restore
            &&& done(UndoStep::Restore, dry) == UndoStep::CheckRestored
            &&& done(UndoStep::CheckRestored, dry) == UndoStep::WriteCompleted
            &&& done(UndoStep::WriteCompleted, dry) == UndoStep::Report
        }),
{
}

/// A step that fails ends the undo.
pub proof fn law_undo_ends_where_a_step_fails(step: UndoStep, dry: bool)
    requires
        step != UndoStep::Report,
        step != UndoStep::ReportDryRun,
    ensures
        undo_after(step, UndoOutcome::Failed, dry) == UndoStep::Failed,
{
}

/// What a token is made of: the contract, the database, its versions, what it holds and the
/// forecast, each under its name.
pub proof fn law_tokens_are_made_of_the_plan(
    path: Seq<char>,
    w: LogicalModel,
    f: MigrationForecast,
    tables: Seq<TableModel>,
    more: TableModel,
)
    ensures
        token_material(path, w, f) == "{\"contract\":"@ + json_string(
            "br.doctor.schema_migration.plan.v1"@,
        ) + ",\"database_path\":"@ + json_string(path) + ",\"from_version\":"@ + decimal(
            f.from_version as nat,
        ) + ",\"to_version\":"@ + decimal(f.to_version as nat) + ",\"logical_witness\":"@
            + logical_json(w) + ",\"forecast\":"@ + forecast_json(f) + "}"@,
        logical_json(w) == "{\"user_version\":"@ + decimal(w.user_version as nat)
            + ",\"integrity_check\":"@ + json_string(w.integrity_check) + ",\"schema_sha256\":"@
            + json_string(w.schema_sha256) + ",\"contents_sha256\":"@ + json_string(
            w.contents_sha256,
        ) + ",\"tables\":["@ + tables_json(w.tables) + "]}"@,
        tables.len() > 0 ==> tables_json(tables.push(more)) == tables_json(tables) + ","@
            + table_json(more),
        tables_json(seq![more]) == table_json(more),
        table_json(more) == "{\"name\":"@ + json_string(more.name) + ",\"row_count\":"@ + decimal(
            more.row_count as nat,
        ) + ",\"rows_sha256\":"@ + json_string(more.rows_sha256) + "}"@,
        f.post_migration_maintenance ==> forecast_json(f) == "{\"from_version\":"@ + decimal(
            f.from_version as nat,
        ) + ",\"to_version\":"@ + decimal(f.to_version as nat)
            + ",\"content_hash_rows_rebuilt\":"@ + decimal(f.content_hash_rows_rebuilt as nat)
            + ",\"gate_result_history_created\":"@ + json_bool(f.gate_result_history_created)
            + ",\"post_migration_maintenance\":true}"@,
{
    assert(tables.push(more).drop_last() =~= tables);
}

/// A migration that took effect and was not attested is told with what speaks against it, where
/// its receipt is and how to undo it.
pub proof fn law_unattested_migrations_are_told(applied: AppliedModel, run_dir: Seq<char>)
    requires
        !applied.attested,
    ensures
        report_of(applied, run_dir) == Err::<Seq<Seq<char>>, ErrorModel>(
            ErrorModel::Internal(
                "schema migration run "@ + applied.run_id
                    + " committed but failed post-commit attestation: "@ + join(
                    applied.attestation_errors,
                    "; "@,
                ) + "; an undo-capable applied receipt was persisted at "@ + join_path(
                    run_dir,
                    "applied.json"@,
                ) + "; run `"@ + applied.undo_command + "` before further tracker writes"@,
            ),
        ),
{
}

} // verus!
