//! Applying a reviewed plan: the order of the steps, the receipts and the attestation.

use crate::doctor_subsystems::receipts::{
    AppliedMigrationReceipt, AppliedModel, FailedMigrationReceipt, FailedModel, MigrationForecast,
    MigrationPlanReceipt, PlanModel, PreparedMigrationReceipt, PreparedModel,
    ReviewedSchemaMigrationEffectsReceipt, APPLIED_SCHEMA, FAILED_SCHEMA, PREPARED_SCHEMA,
};
use crate::doctor_subsystems::schema_migration::constant_time_text_eq;
use crate::doctor_subsystems::witness::{
    integrity_check_is_clean, integrity_clean, opt_logical, opt_raw, ComponentModel,
    LogicalDatabaseWitness, LogicalModel, RawFamilyWitness,
};
use crate::error::{internal, text_or_error, BeadsError, ErrorModel};
use crate::json::{json_bool, json_bool_text};
use crate::numbers::{decimal, decimal_text};
use crate::paths::{join_path, joined_path};
use crate::text::{join, joined, text2, text3, text5, texts, trim, trimmed};
use crate::time::{format_rfc3339, rfc3339_text};
use vstd::prelude::*;
use vstd::string::*;

verus! {

broadcast use vstd::string::group_string_axioms;

/// A token that is not blank, without the white space around it.
pub open spec fn token_given(token: Seq<char>) -> Result<Seq<char>, ErrorModel> {
    if trim(token).len() == 0 {
        Err(ErrorModel::Internal("schema migration apply requires a non-empty --plan-token"@))
    } else {
        Ok(trim(token))
    }
}

pub fn require_token(token: &str) -> (r: Result<String, BeadsError>)
    ensures
        text_or_error(r) == token_given(token@),
{
    let given = trimmed(token);
    if given.as_str().is_empty() {
        return Err(
            internal("schema migration apply requires a non-empty --plan-token".to_owned()),
        );
    }
    Ok(given)
}

/// Whether the token that was reviewed is that of the plan made now.
pub open spec fn authorized(plan: PlanModel, token: Seq<char>) -> Result<
    MigrationForecast,
    ErrorModel,
> {
    match plan.plan_token {
        None => Err(
            ErrorModel::Internal(
                "schema migration apply refused because no migration is currently eligible"@,
            ),
        ),
        Some(recomputed) => if recomputed != token {
            Err(
                ErrorModel::Internal(
                    "schema migration plan token is stale or belongs to a different database state (provided "@
                        + token + ", recomputed "@ + recomputed
                        + "); run `br doctor migrate-schema plan` again"@,
                ),
            )
        } else {
            match plan.forecast {
                None => Err(
                    ErrorModel::Internal("eligible migration plan omitted its forecast"@),
                ),
                Some(forecast) => Ok(forecast),
            }
        },
    }
}

/// The forecast, or what the error says.
pub open spec fn forecast_or_error(r: Result<MigrationForecast, BeadsError>) -> Result<
    MigrationForecast,
    ErrorModel,
> {
    match r {
        Ok(f) => Ok(f),
        Err(e) => Err(e.model()),
    }
}

/// The forecast to apply, where `token` is that of the plan made now.
pub fn authorize(plan: &MigrationPlanReceipt, token: &str) -> (r: Result<
    MigrationForecast,
    BeadsError,
>)
    ensures
        forecast_or_error(r) == authorized(plan@, token@),
{
    let recomputed = match &plan.plan_token {
        Some(t) => t,
        None => return Err(
            internal(
                "schema migration apply refused because no migration is currently eligible".to_owned(),
            ),
        ),
    };
    if !constant_time_text_eq(recomputed.as_str(), token) {
        return Err(
            internal(
                text5(
                    "schema migration plan token is stale or belongs to a different database state (provided ",
                    token,
                    ", recomputed ",
                    recomputed.as_str(),
                    "); run `br doctor migrate-schema plan` again",
                ),
            ),
        );
    }
    match plan.forecast {
        Some(forecast) => Ok(forecast),
        None => Err(internal("eligible migration plan omitted its forecast".to_owned())),
    }
}

/// The steps of applying a plan. A step names the work to do next.
#[derive(Debug, Clone, Copy, PartialEq, Eq, Structural)]
pub enum ApplyStep {
    /// Make the plan again and hold the token against it.
    Authorize,
    /// Make a directory for the run.
    AllocateRun,
    /// Make the directory of the recovery bundle.
    CreateBundle,
    /// Copy the database family into the bundle.
    CopyFamily,
    /// Read the bundle back and compare it with the plan.
    VerifyBundle,
    /// Write the prepared receipt.
    WritePrepared,
    /// Take the digest of the prepared receipt.
    HashPrepared,
    /// Flush the directory of the run.
    SyncPrepared,
    /// Make sure that the database is still held.
    VerifyAuthority,
    /// Migrate a copy of the database and install it.
    Migrate,
    /// Make sure that the database is still held after the migration.
    ReverifyAuthority,
    /// The same after a migration that failed.
    ReverifyAuthorityAfterFailure,
    /// Write the failed receipt.
    WriteFailed,
    /// Take the witnesses of the migrated database and attest them.
    Attest,
    /// Write the applied receipt, attested or not.
    WriteApplied,
    /// Flush the directory of the run again.
    SyncApplied,
    /// Report what the applied receipt says.
    Report,
    /// The work ends with an error.
    Failed,
}

/// The step that follows `step`, which succeeded or failed.
pub open spec fn step_after(step: ApplyStep, ok: bool) -> ApplyStep {
    match step {
        ApplyStep::Migrate => if ok {
            ApplyStep::ReverifyAuthority
        } else {
            ApplyStep::ReverifyAuthorityAfterFailure
        },
        ApplyStep::ReverifyAuthorityAfterFailure => if ok {
            ApplyStep::WriteFailed
        } else {
            ApplyStep::Failed
        },
        ApplyStep::WriteFailed => ApplyStep::Failed,
        ApplyStep::Attest => ApplyStep::WriteApplied,
        ApplyStep::Report => ApplyStep::Report,
        ApplyStep::Failed => ApplyStep::Failed,
        _ => if !ok {
            ApplyStep::Failed
        } else {
            match step {
                ApplyStep::Authorize => ApplyStep::AllocateRun,
                ApplyStep::AllocateRun => ApplyStep::CreateBundle,
                ApplyStep::CreateBundle => ApplyStep::CopyFamily,
                ApplyStep::CopyFamily => ApplyStep::VerifyBundle,
                ApplyStep::VerifyBundle => ApplyStep::WritePrepared,
                ApplyStep::WritePrepared => ApplyStep::HashPrepared,
                ApplyStep::HashPrepared => ApplyStep::SyncPrepared,
                ApplyStep::SyncPrepared => ApplyStep::VerifyAuthority,
                ApplyStep::VerifyAuthority => ApplyStep::Migrate,
                ApplyStep::ReverifyAuthority => ApplyStep::Attest,
                ApplyStep::WriteApplied => ApplyStep::SyncApplied,
                _ => ApplyStep::Report,
            }
        },
    }
}

/// The step that follows `step`.
pub fn next_apply_step(step: ApplyStep, ok: bool) -> (r: ApplyStep)
    ensures
        r == step_after(step, ok),
{
    match step {
        ApplyStep::Migrate => {
            if ok {
                ApplyStep::ReverifyAuthority
            } else {
                ApplyStep::ReverifyAuthorityAfterFailure
            }
        },
        ApplyStep::ReverifyAuthorityAfterFailure => {
            if ok {
                ApplyStep::WriteFailed
            } else {
                ApplyStep::Failed
            }
        },
        ApplyStep::WriteFailed => ApplyStep::Failed,
        ApplyStep::Attest => ApplyStep::WriteApplied,
        ApplyStep::Report => ApplyStep::Report,
        ApplyStep::Failed => ApplyStep::Failed,
        _ => {
            if !ok {
                return ApplyStep::Failed;
            }
            match step {
                ApplyStep::Authorize => ApplyStep::AllocateRun,
                ApplyStep::AllocateRun => ApplyStep::CreateBundle,
                ApplyStep::CreateBundle => ApplyStep::CopyFamily,
                ApplyStep::CopyFamily => ApplyStep::VerifyBundle,
                ApplyStep::VerifyBundle => ApplyStep::WritePrepared,
                ApplyStep::WritePrepared => ApplyStep::HashPrepared,
                ApplyStep::HashPrepared => ApplyStep::SyncPrepared,
                ApplyStep::SyncPrepared => ApplyStep::VerifyAuthority,
                ApplyStep::VerifyAuthority => ApplyStep::Migrate,
                ApplyStep::ReverifyAuthority => ApplyStep::Attest,
                ApplyStep::WriteApplied => ApplyStep::SyncApplied,
                _ => ApplyStep::Report,
            }
        },
    }
}

/// A course of applying: the steps taken, each with how it went, from the first on.
pub open spec fn course(steps: Seq<(ApplyStep, bool)>) -> bool {
    &&& steps.len() > 0 ==> steps[0].0 == ApplyStep::Authorize
    &&& forall|i: int| 0 < i < steps.len() ==> #[trigger] follows(steps, i)
}

/// The step at position `i` is the one that follows the step before it.
pub open spec fn follows(steps: Seq<(ApplyStep, bool)>, i: int) -> bool {
    steps[i].0 == step_after(steps[i - 1].0, steps[i - 1].1)
}

/// The step was taken and succeeded somewhere before position `end`.
pub open spec fn succeeded_before(
    steps: Seq<(ApplyStep, bool)>,
    step: ApplyStep,
    end: int,
) -> bool {
    exists|i: int| 0 <= i < end && #[trigger] steps[i] == (step, true)
}

/// How far along the way to the migration a step is.
spec fn stage(step: ApplyStep) -> int {
    match step {
        ApplyStep::Authorize => 0,
        ApplyStep::AllocateRun => 1,
        ApplyStep::CreateBundle => 2,
        ApplyStep::CopyFamily => 3,
        ApplyStep::VerifyBundle => 4,
        ApplyStep::WritePrepared => 5,
        ApplyStep::HashPrepared => 6,
        ApplyStep::SyncPrepared => 7,
        ApplyStep::VerifyAuthority => 8,
        ApplyStep::Migrate => 9,
        _ => 10,
    }
}

proof fn lemma_stages_in_order(steps: Seq<(ApplyStep, bool)>, at: int)
    requires
        course(steps),
        0 <= at < steps.len(),
        stage(steps[at].0) < 10,
    ensures
        stage(steps[at].0) == at,
        forall|i: int| 0 <= i < at ==> stage((#[trigger] steps[i]).0) == i && steps[i].1,
    decreases at,
{
    if at > 0 {
        let before = steps[at - 1];
        assert(follows(steps, at));
        assert(stage(before.0) < 10 && before.1);
        lemma_stages_in_order(steps, at - 1);
    }
}

/// A database is migrated only after the token was accepted, the recovery bundle was read
/// back and found right, the prepared receipt was written, and the database is still held.
pub proof fn law_migration_waits_for_bundle(steps: Seq<(ApplyStep, bool)>, at: int)
    requires
        course(steps),
        0 <= at < steps.len(),
        steps[at].0 == ApplyStep::Migrate,
    ensures
        succeeded_before(steps, ApplyStep::Authorize, at),
        succeeded_before(steps, ApplyStep::CopyFamily, at),
        succeeded_before(steps, ApplyStep::VerifyBundle, at),
        succeeded_before(steps, ApplyStep::WritePrepared, at),
        succeeded_before(steps, ApplyStep::VerifyAuthority, at),
{
    lemma_stages_in_order(steps, at);
    assert(steps[0] == (ApplyStep::Authorize, true));
    assert(steps[3] == (ApplyStep::CopyFamily, true));
    assert(steps[4] == (ApplyStep::VerifyBundle, true));
    assert(steps[5] == (ApplyStep::WritePrepared, true));
    assert(steps[8] == (ApplyStep::VerifyAuthority, true));
}

/// Nothing is created, copied or written before the token was accepted.
pub proof fn law_refused_token_changes_nothing(steps: Seq<(ApplyStep, bool)>, at: int)
    requires
        course(steps),
        0 < at < steps.len(),
        !steps[0].1,
    ensures
        steps[at].0 == ApplyStep::Failed,
    decreases at,
{
    assert(follows(steps, at));
    if at > 1 {
        law_refused_token_changes_nothing(steps, at - 1);
    }
}

/// The facts of an applied plan that is being attested.
pub struct Attestation {
    pub effects: ReviewedSchemaMigrationEffectsReceipt,
    pub logical_after: Result<LogicalDatabaseWitness, String>,
    pub raw_after: Result<RawFamilyWitness, String>,
    pub shape_canonical: Result<bool, String>,
}

/// What an [`Attestation`] says.
pub struct AttestationModel {
    pub effects: ReviewedSchemaMigrationEffectsReceipt,
    pub logical_after: Result<LogicalModel, Seq<char>>,
    pub raw_after: Result<Seq<ComponentModel>, Seq<char>>,
    pub shape_canonical: Result<bool, Seq<char>>,
}

impl View for Attestation {
    type V = AttestationModel;

    open spec fn view(&self) -> AttestationModel {
        AttestationModel {
            effects: self.effects,
            logical_after: match self.logical_after {
                Ok(w) => Ok(w@),
                Err(e) => Err(e@),
            },
            raw_after: match self.raw_after {
                Ok(w) => Ok(w@),
                Err(e) => Err(e@),
            },
            shape_canonical: match self.shape_canonical {
                Ok(b) => Ok(b),
                Err(e) => Err(e@),
            },
        }
    }
}

/// The migration did what was forecast.
pub open spec fn as_forecast(
    forecast: MigrationForecast,
    effects: ReviewedSchemaMigrationEffectsReceipt,
) -> bool {
    effects.from_version == forecast.from_version && effects.to_version == forecast.to_version
        && effects.content_hash_rows_rebuilt == forecast.content_hash_rows_rebuilt
        && effects.gate_result_history_created == forecast.gate_result_history_created
        && effects.post_migration_maintenance_completed == forecast.post_migration_maintenance
}

/// A forecast as Rust's debug output shows it.
pub open spec fn forecast_debug(f: MigrationForecast) -> Seq<char> {
    "MigrationForecast { from_version: "@ + decimal(f.from_version as nat) + ", to_version: "@
        + decimal(f.to_version as nat) + ", content_hash_rows_rebuilt: "@ + decimal(
        f.content_hash_rows_rebuilt as nat,
    ) + ", gate_result_history_created: "@ + json_bool(f.gate_result_history_created)
        + ", post_migration_maintenance: "@ + json_bool(f.post_migration_maintenance) + " }"@
}

/// Effects as Rust's debug output shows them.
pub open spec fn effects_debug(e: ReviewedSchemaMigrationEffectsReceipt) -> Seq<char> {
    "ReviewedSchemaMigrationEffectsReceipt { from_version: "@ + decimal(e.from_version as nat)
        + ", to_version: "@ + decimal(e.to_version as nat) + ", content_hash_rows_rebuilt: "@
        + decimal(e.content_hash_rows_rebuilt as nat) + ", gate_result_history_created: "@
        + json_bool(e.gate_result_history_created) + ", post_migration_maintenance_completed: "@
        + json_bool(e.post_migration_maintenance_completed) + " }"@
}

fn forecast_debug_text(f: &MigrationForecast) -> (r: String)
    ensures
        r@ == forecast_debug(*f),
{
    let from = decimal_text(f.from_version as u64);
    let to = decimal_text(f.to_version as u64);
    let rebuilt = decimal_text(f.content_hash_rows_rebuilt as u64);
    let mut out = text5(
        "MigrationForecast { from_version: ",
        from.as_str(),
        ", to_version: ",
        to.as_str(),
        ", content_hash_rows_rebuilt: ",
    );
    out.append(rebuilt.as_str());
    out.append(", gate_result_history_created: ");
    out.append(json_bool_text(f.gate_result_history_created));
    out.append(", post_migration_maintenance: ");
    out.append(json_bool_text(f.post_migration_maintenance));
    out.append(" }");
    out
}

fn effects_debug_text(e: &ReviewedSchemaMigrationEffectsReceipt) -> (r: String)
    ensures
        r@ == effects_debug(*e),
{
    let from = decimal_text(e.from_version as u64);
    let to = decimal_text(e.to_version as u64);
    let rebuilt = decimal_text(e.content_hash_rows_rebuilt as u64);
    let mut out = text5(
        "ReviewedSchemaMigrationEffectsReceipt { from_version: ",
        from.as_str(),
        ", to_version: ",
        to.as_str(),
        ", content_hash_rows_rebuilt: ",
    );
    out.append(rebuilt.as_str());
    out.append(", gate_result_history_created: ");
    out.append(json_bool_text(e.gate_result_history_created));
    out.append(", post_migration_maintenance_completed: ");
    out.append(json_bool_text(e.post_migration_maintenance_completed));
    out.append(" }");
    out
}

/// The text, where it is wanted.
pub open spec fn when(wanted: bool, text: Seq<char>) -> Seq<Seq<char>> {
    if wanted {
        seq![text]
    } else {
        Seq::empty()
    }
}

/// What speaks against the migrated database, in the order of the checks.
pub open spec fn attestation_errors(forecast: MigrationForecast, a: AttestationModel) -> Seq<
    Seq<char>,
> {
    when(
        !as_forecast(forecast, a.effects),
        "committed effects differ from the reviewed forecast (forecast="@ + forecast_debug(
            forecast,
        ) + ", effects="@ + effects_debug(a.effects) + ")"@,
    ) + (match a.logical_after {
        Ok(_) => Seq::empty(),
        Err(e) => seq!["could not capture the committed logical witness: "@ + e],
    }) + (match a.raw_after {
        Ok(_) => Seq::empty(),
        Err(e) => seq!["could not capture the committed raw witness: "@ + e],
    }) + when(
        a.logical_after is Ok && (a.logical_after->Ok_0.user_version != forecast.to_version
            || !integrity_clean(a.logical_after->Ok_0.integrity_check)),
        "committed logical witness did not attest target version "@ + decimal(
            forecast.to_version as nat,
        ) + " and integrity=ok"@,
    ) + (match a.shape_canonical {
        Ok(true) => Seq::empty(),
        Ok(false) => seq![
            "committed database does not have the canonical current runtime shape"@,
        ],
        Err(e) => seq!["could not attest the committed canonical runtime shape: "@ + e],
    })
}

fn push_text(out: &mut Vec<String>, s: String)
    ensures
        texts(final(out)@) == texts(old(out)@).push(s@),
{
    out.push(s);
    assert(texts(out@) =~= texts(old(out)@).push(s@));
}

/// What speaks against the migrated database, for which `f` was forecast.
pub fn attest(f: &MigrationForecast, a: &Attestation) -> (r: Vec<String>)
    ensures
        texts(r@) == attestation_errors(*f, a@),
{
    let mut errors: Vec<String> = Vec::new();
    assert(texts(errors@) =~= Seq::<Seq<char>>::empty());
    let e = &a.effects;
    if e.from_version != f.from_version || e.to_version != f.to_version
        || e.content_hash_rows_rebuilt != f.content_hash_rows_rebuilt
        || e.gate_result_history_created != f.gate_result_history_created
        || e.post_migration_maintenance_completed != f.post_migration_maintenance {
        let promised = forecast_debug_text(f);
        let done = effects_debug_text(e);
        push_text(
            &mut errors,
            text5(
                "committed effects differ from the reviewed forecast (forecast=",
                promised.as_str(),
                ", effects=",
                done.as_str(),
                ")",
            ),
        );
    }
    if let Err(error) = &a.logical_after {
        push_text(
            &mut errors,
            text2("could not capture the committed logical witness: ", error.as_str()),
        );
    }
    if let Err(error) = &a.raw_after {
        push_text(
            &mut errors,
            text2("could not capture the committed raw witness: ", error.as_str()),
        );
    }
    if let Ok(after) = &a.logical_after {
        if after.user_version != f.to_version || !integrity_check_is_clean(
            after.integrity_check.as_str(),
        ) {
            let version = decimal_text(f.to_version as u64);
            push_text(
                &mut errors,
                text3(
                    "committed logical witness did not attest target version ",
                    version.as_str(),
                    " and integrity=ok",
                ),
            );
        }
    }
    match &a.shape_canonical {
        Ok(true) => {},
        Ok(false) => {
            push_text(
                &mut errors,
                "committed database does not have the canonical current runtime shape".to_owned(),
            );
        },
        Err(error) => {
            push_text(
                &mut errors,
                text2("could not attest the committed canonical runtime shape: ", error.as_str()),
            );
        },
    }
    assert(texts(errors@) =~= attestation_errors(*f, a@));
    errors
}

/// A migration is attested exactly where it did what was forecast and the database now has
/// the target version, a clean integrity report and the canonical shape.
pub proof fn law_attested_means_sound(forecast: MigrationForecast, a: AttestationModel)
    ensures
        attestation_errors(forecast, a).len() == 0 <==> (as_forecast(forecast, a.effects)
            && a.logical_after is Ok && a.raw_after is Ok && a.logical_after->Ok_0.user_version
            == forecast.to_version && integrity_clean(a.logical_after->Ok_0.integrity_check)
            && a.shape_canonical == Ok::<bool, Seq<char>>(true)),
{
}

/// The receipt that is written before the migration.
pub open spec fn prepared_of(
    plan: PlanModel,
    run_id: Seq<char>,
    marked_at: Seq<char>,
) -> PreparedModel {
    PreparedModel {
        schema_version: PREPARED_SCHEMA@,
        run_id,
        database_path: plan.database_path,
        plan_token: plan.plan_token->0,
        marked_at,
        forecast: plan.forecast->0,
        raw_before: plan.raw_witness,
        logical_before: plan.logical_witness,
    }
}

/// The time that the receipts of a run bear.
pub fn marked_at_time(seconds: i64, nanoseconds: u32) -> (r: String)
    ensures
        r@ == rfc3339_text(seconds as int, nanoseconds as int),
{
    format_rfc3339(seconds, nanoseconds)
}

/// The receipt of a plan that was authorized, so that it has a token and a forecast.
pub fn prepared_receipt(
    plan: &MigrationPlanReceipt,
    run_id: &str,
    marked_at: &str,
) -> (r: PreparedMigrationReceipt)
    requires
        plan.plan_token is Some,
        plan.forecast is Some,
    ensures
        r@ == prepared_of(plan@, run_id@, marked_at@),
{
    let forecast = plan.forecast.unwrap();
    let plan_token = match &plan.plan_token {
        Some(t) => t.clone(),
        None => String::new(),
    };
    PreparedMigrationReceipt {
        schema_version: PREPARED_SCHEMA.to_owned(),
        run_id: run_id.to_owned(),
        database_path: plan.database_path.clone(),
        plan_token,
        marked_at: marked_at.to_owned(),
        forecast,
        raw_before: plan.raw_witness.copy(),
        logical_before: plan.logical_witness.copy(),
    }
}

/// The receipt that is written after a migration that failed.
pub open spec fn failed_of(
    prepared: PreparedModel,
    error: Seq<char>,
    raw: Option<Seq<ComponentModel>>,
    logical: Option<LogicalModel>,
) -> FailedModel {
    FailedModel {
        schema_version: FAILED_SCHEMA@,
        run_id: prepared.run_id,
        database_path: prepared.database_path,
        plan_token: prepared.plan_token,
        marked_at: prepared.marked_at,
        error,
        raw_before: prepared.raw_before,
        logical_before: prepared.logical_before,
        raw_observed_after_failure: raw,
        logical_observed_after_failure: logical,
    }
}

pub fn failed_receipt(
    prepared: PreparedMigrationReceipt,
    error: &str,
    raw: Option<RawFamilyWitness>,
    logical: Option<LogicalDatabaseWitness>,
) -> (r: FailedMigrationReceipt)
    ensures
        r@ == failed_of(prepared@, error@, opt_raw(raw), opt_logical(logical)),
{
    FailedMigrationReceipt {
        schema_version: FAILED_SCHEMA.to_owned(),
        run_id: prepared.run_id,
        database_path: prepared.database_path,
        plan_token: prepared.plan_token,
        marked_at: prepared.marked_at,
        error: error.to_owned(),
        raw_before: prepared.raw_before,
        logical_before: prepared.logical_before,
        raw_observed_after_failure: raw,
        logical_observed_after_failure: logical,
    }
}

/// What is reported of a migration that failed.
pub fn failed_error(run_id: &str, before_dir: &str, error: BeadsError) -> (r: BeadsError)
    ensures
        r.model() == (ErrorModel::WithContext {
            context: "reviewed schema migration run "@ + run_id@
                + " failed; the verified pre-state remains at "@ + before_dir@,
            source: Box::new(error.model()),
        }),
{
    let mut context = text3(
        "reviewed schema migration run ",
        run_id,
        " failed; the verified pre-state remains at ",
    );
    context.append(before_dir);
    BeadsError::WithContext { context, source: Box::new(error) }
}

/// The witness, where it could be taken.
pub open spec fn taken<T>(r: Result<T, Seq<char>>) -> Option<T> {
    match r {
        Ok(w) => Some(w),
        Err(_) => None,
    }
}

/// The receipt that is written when the migration has committed.
pub open spec fn applied_of(
    prepared: PreparedModel,
    prepared_sha256: Seq<char>,
    a: AttestationModel,
) -> AppliedModel {
    AppliedModel {
        schema_version: APPLIED_SCHEMA@,
        run_id: prepared.run_id,
        database_path: prepared.database_path,
        plan_token: prepared.plan_token,
        prepared_receipt_sha256: prepared_sha256,
        marked_at: prepared.marked_at,
        forecast: prepared.forecast,
        effects: a.effects,
        raw_before: prepared.raw_before,
        logical_before: prepared.logical_before,
        raw_after: taken(a.raw_after),
        logical_after: taken(a.logical_after),
        attested: attestation_errors(prepared.forecast, a).len() == 0,
        attestation_errors: attestation_errors(prepared.forecast, a),
        undo_command: "br doctor migrate-schema undo "@ + prepared.run_id,
    }
}

pub fn applied_receipt(
    prepared: PreparedMigrationReceipt,
    prepared_sha256: &str,
    attestation: Attestation,
) -> (r: AppliedMigrationReceipt)
    ensures
        r@ == applied_of(prepared@, prepared_sha256@, attestation@),
{
    let errors = attest(&prepared.forecast, &attestation);
    assert(texts(errors@).len() == errors@.len());
    let undo_command = text2("br doctor migrate-schema undo ", prepared.run_id.as_str());
    let raw_after = match attestation.raw_after {
        Ok(w) => Some(w),
        Err(_) => None,
    };
    let logical_after = match attestation.logical_after {
        Ok(w) => Some(w),
        Err(_) => None,
    };
    AppliedMigrationReceipt {
        schema_version: APPLIED_SCHEMA.to_owned(),
        run_id: prepared.run_id,
        database_path: prepared.database_path,
        plan_token: prepared.plan_token,
        prepared_receipt_sha256: prepared_sha256.to_owned(),
        marked_at: prepared.marked_at,
        forecast: prepared.forecast,
        effects: attestation.effects,
        raw_before: prepared.raw_before,
        logical_before: prepared.logical_before,
        raw_after,
        logical_after,
        attested: errors.len() == 0,
        attestation_errors: errors,
        undo_command,
    }
}

/// An applied receipt says that it is attested exactly where the effects that it records are
/// those of the forecast that it records, the database was witnessed with the version that the
/// forecast ends at, a clean integrity report and the canonical shape, and no error is listed.
pub proof fn law_attested_receipt_is_sound(
    prepared: PreparedModel,
    prepared_sha256: Seq<char>,
    a: AttestationModel,
)
    ensures
        ({
            let applied = applied_of(prepared, prepared_sha256, a);
            &&& applied.attested <==> (as_forecast(applied.forecast, applied.effects)
                && applied.raw_after is Some && applied.logical_after is Some
                && applied.logical_after->0.user_version == applied.forecast.to_version
                && integrity_clean(applied.logical_after->0.integrity_check)
                && a.shape_canonical == Ok::<bool, Seq<char>>(true))
            &&& applied.attested <==> applied.attestation_errors.len() == 0
        }),
{
    law_attested_means_sound(prepared.forecast, a);
}

/// The lines that report an applied migration, or the error where it is not attested.
pub open spec fn report_of(applied: AppliedModel, run_dir: Seq<char>) -> Result<
    Seq<Seq<char>>,
    ErrorModel,
> {
    if applied.attested {
        Ok(
            seq![
                "Applied reviewed schema migration "@ + decimal(
                    applied.forecast.from_version as nat,
                ) + " -> "@ + decimal(applied.forecast.to_version as nat) + " (run "@
                    + applied.run_id + ")"@,
                "Undo: "@ + applied.undo_command,
                "Recovery bundle: "@ + join_path(run_dir, "before"@),
            ],
        )
    } else {
        Err(
            ErrorModel::Internal(
                "schema migration run "@ + applied.run_id
                    + " committed but failed post-commit attestation: "@ + join(
                    applied.attestation_errors,
                    "; "@,
                ) + "; an undo-capable applied receipt was persisted at "@ + join_path(
                    run_dir,
                    "applied.json"@,
                ) + "; run `"@ + applied.undo_command + "` before further tracker writes"@,
            ),
        )
    }
}

/// The lines, or what the error says.
pub open spec fn lines_or_error(r: Result<Vec<String>, BeadsError>) -> Result<
    Seq<Seq<char>>,
    ErrorModel,
> {
    match r {
        Ok(v) => Ok(texts(v@)),
        Err(e) => Err(e.model()),
    }
}

/// What is reported of a migration that committed.
pub fn apply_report(applied: &AppliedMigrationReceipt, run_dir: &str) -> (r: Result<
    Vec<String>,
    BeadsError,
>)
    ensures
        lines_or_error(r) == report_of(applied@, run_dir@),
{
    if !applied.attested {
        let errors = joined(&applied.attestation_errors, "; ");
        let receipt = joined_path(run_dir, "applied.json");
        let mut out = text5(
            "schema migration run ",
            applied.run_id.as_str(),
            " committed but failed post-commit attestation: ",
            errors.as_str(),
            "; an undo-capable applied receipt was persisted at ",
        );
        out.append(receipt.as_str());
        out.append("; run `");
        out.append(applied.undo_command.as_str());
        out.append("` before further tracker writes");
        return Err(internal(out));
    }
    let from = decimal_text(applied.forecast.from_version as u64);
    let to = decimal_text(applied.forecast.to_version as u64);
    let mut first = text5(
        "Applied reviewed schema migration ",
        from.as_str(),
        " -> ",
        to.as_str(),
        " (run ",
    );
    first.append(applied.run_id.as_str());
    first.append(")");
    let bundle = joined_path(run_dir, "before");
    let mut out: Vec<String> = Vec::new();
    out.push(first);
    out.push(text2("Undo: ", applied.undo_command.as_str()));
    out.push(text2("Recovery bundle: ", bundle.as_str()));
    assert(texts(out@) =~= report_of(applied@, run_dir@)->Ok_0);
    Ok(out)
}

} // verus!
