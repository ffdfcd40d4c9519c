//! Replacing the live database by its migrated, compacted copy, and taking that back.

use crate::doctor_subsystems::family::{
    holds_component, mismatch_error, regular_file, secure_file, verify_component_bytes, Observed,
    ObservedModel,
};
use crate::doctor_subsystems::receipts::ReviewedSchemaMigrationEffectsReceipt;
use crate::doctor_subsystems::witness::{
    integrity_check_is_clean, integrity_clean, logical_witnesses_match_except_integrity,
    match_except_integrity, ComponentModel, LogicalDatabaseWitness, LogicalModel,
    RawComponentWitness,
};
use crate::error::{checked, debug_quoted, debug_text, internal, BeadsError, ErrorModel};
use crate::numbers::{decimal, decimal_text};
use crate::text::{text2, text3, text5, texts};
use vstd::prelude::*;
use vstd::string::*;

verus! {

broadcast use vstd::string::group_string_axioms;

/// What the migration steps of the storage layer report.
#[derive(Debug, Clone, Copy, PartialEq, Eq, Structural)]
pub struct ReviewedSchemaMigrationEffects {
    pub from_version: u32,
    pub to_version: u32,
    pub content_hash_rows_rebuilt: usize,
    pub gate_result_history_created: bool,
}

impl From<ReviewedSchemaMigrationEffects> for ReviewedSchemaMigrationEffectsReceipt {
    fn from(value: ReviewedSchemaMigrationEffects) -> (r: Self) {
        ReviewedSchemaMigrationEffectsReceipt {
            from_version: value.from_version,
            to_version: value.to_version,
            content_hash_rows_rebuilt: value.content_hash_rows_rebuilt,
            gate_result_history_created: value.gate_result_history_created,
            post_migration_maintenance_completed: false,
        }
    }
}

impl vstd::std_specs::convert::FromSpecImpl<ReviewedSchemaMigrationEffects> for ReviewedSchemaMigrationEffectsReceipt {
    open spec fn obeys_from_spec() -> bool {
        true
    }

    open spec fn from_spec(value: ReviewedSchemaMigrationEffects) -> Self {
        ReviewedSchemaMigrationEffectsReceipt {
            from_version: value.from_version,
            to_version: value.to_version,
            content_hash_rows_rebuilt: value.content_hash_rows_rebuilt,
            gate_result_history_created: value.gate_result_history_created,
            post_migration_maintenance_completed: false,
        }
    }
}

/// The effects of a page rewrite that changes no schema.
pub fn maintenance_effects(version: u32) -> (r: ReviewedSchemaMigrationEffectsReceipt)
    ensures
        r == (ReviewedSchemaMigrationEffectsReceipt {
            from_version: version,
            to_version: version,
            content_hash_rows_rebuilt: 0,
            gate_result_history_created: false,
            post_migration_maintenance_completed: false,
        }),
{
    ReviewedSchemaMigrationEffectsReceipt {
        from_version: version,
        to_version: version,
        content_hash_rows_rebuilt: 0,
        gate_result_history_created: false,
        post_migration_maintenance_completed: false,
    }
}

/// The effects once the replacement stands.
pub fn completed_effects(effects: ReviewedSchemaMigrationEffectsReceipt) -> (r:
    ReviewedSchemaMigrationEffectsReceipt)
    ensures
        r == (ReviewedSchemaMigrationEffectsReceipt {
            post_migration_maintenance_completed: true,
            ..effects
        }),
{
    ReviewedSchemaMigrationEffectsReceipt {
        from_version: effects.from_version,
        to_version: effects.to_version,
        content_hash_rows_rebuilt: effects.content_hash_rows_rebuilt,
        gate_result_history_created: effects.gate_result_history_created,
        post_migration_maintenance_completed: true,
    }
}

/// The candidate is sound, and it is the source with only its pages rewritten, or the source
/// taken to the canonical target schema.
pub open spec fn candidate_attested(
    source: LogicalModel,
    candidate: LogicalModel,
    from: u32,
    to: u32,
    canonical: bool,
) -> bool {
    &&& integrity_clean(candidate.integrity_check)
    &&& if from == to {
        match_except_integrity(source, candidate)
    } else {
        candidate.user_version == to && canonical
    }
}

pub open spec fn candidate_error(
    source: LogicalModel,
    candidate: LogicalModel,
    from: u32,
    to: u32,
    candidate_path: Seq<char>,
) -> ErrorModel {
    ErrorModel::Internal(
        "copy-on-write migration candidate did not attest the reviewed operation (from="@ + decimal(
            from as nat,
        ) + ", to="@ + decimal(to as nat) + ", source integrity="@ + debug_text(
            source.integrity_check,
        ) + ", candidate integrity="@ + debug_text(candidate.integrity_check)
            + ", source contents="@ + source.contents_sha256 + ", candidate contents="@
            + candidate.contents_sha256 + "); the candidate is retained at "@ + candidate_path,
    )
}

/// The candidate may take the place of the live database only if it is attested.
pub fn check_candidate(
    source: &LogicalDatabaseWitness,
    candidate: &LogicalDatabaseWitness,
    from: u32,
    to: u32,
    canonical: bool,
    candidate_path: &str,
) -> (r: Result<(), BeadsError>)
    ensures
        checked(r) == if candidate_attested(source@, candidate@, from, to, canonical) {
            Ok(())
        } else {
            Err(candidate_error(source@, candidate@, from, to, candidate_path@))
        },
{
    let matches_operation = if from == to {
        logical_witnesses_match_except_integrity(source, candidate)
    } else {
        candidate.user_version == to && canonical
    };
    if !integrity_check_is_clean(candidate.integrity_check.as_str()) || !matches_operation {
        let old = decimal_text(from as u64);
        let new = decimal_text(to as u64);
        let before = debug_quoted(source.integrity_check.as_str());
        let after = debug_quoted(candidate.integrity_check.as_str());
        let mut out = text5(
            "copy-on-write migration candidate did not attest the reviewed operation (from=",
            old.as_str(),
            ", to=",
            new.as_str(),
            ", source integrity=",
        );
        out.append(before.as_str());
        out.append(", candidate integrity=");
        out.append(after.as_str());
        out.append(", source contents=");
        out.append(source.contents_sha256.as_str());
        out.append(", candidate contents=");
        out.append(candidate.contents_sha256.as_str());
        out.append("); the candidate is retained at ");
        out.append(candidate_path);
        return Err(internal(out));
    }
    Ok(())
}

/// The live database must not have changed while the candidate was made.
pub fn check_source_unchanged(
    before: &LogicalDatabaseWitness,
    after: &LogicalDatabaseWitness,
    candidate_path: &str,
) -> (r: Result<(), BeadsError>)
    ensures
        checked(r) == if after@ == before@ {
            Ok(())
        } else {
            Err(
                ErrorModel::Internal(
                    "live database changed while the copy-on-write migration candidate was prepared; refusing installation and retaining the candidate at "@
                        + candidate_path@,
                ),
            )
        },
        r is Ok <==> after@ == before@,
{
    if !after.same(before) {
        return Err(
            internal(
                text2(
                    "live database changed while the copy-on-write migration candidate was prepared; refusing installation and retaining the candidate at ",
                    candidate_path,
                ),
            ),
        );
    }
    Ok(())
}

/// The installed database is exactly the candidate that was attested.
pub fn installed_is_exact(
    candidate: &LogicalDatabaseWitness,
    installed: &Option<LogicalDatabaseWitness>,
) -> (r: bool)
    ensures
        r == (installed matches Some(w) && w@ == candidate@),
{
    match installed {
        Some(w) => w.same(candidate),
        None => false,
    }
}

/// What is reported of an installed database that was taken out again.
pub fn rejected_error(installed: &Option<LogicalDatabaseWitness>, failed_dir: &str) -> (r:
    BeadsError)
    ensures
        r.model() == ErrorModel::Internal(
            "installed compacted database failed its fresh logical attestation ("@ + debug_text(
                match *installed {
                    Some(w) => w.integrity_check@,
                    None => "logical witness unavailable"@,
                },
            )
                + "); the original database family was restored and the rejected compacted family is retained at "@
                + failed_dir@,
        ),
{
    let report = match installed {
        Some(w) => w.integrity_check.as_str(),
        None => "logical witness unavailable",
    };
    let shown = debug_quoted(report);
    let mut out = text3(
        "installed compacted database failed its fresh logical attestation (",
        shown.as_str(),
        "); the original database family was restored and the rejected compacted family is retained at ",
    );
    out.append(failed_dir);
    internal(out)
}

/// What is reported where the candidate could not be installed.
pub fn install_failed_error(error: BeadsError, rollback: &Result<(), String>, shown: &str) -> (r:
    BeadsError)
    ensures
        match *rollback {
            Ok(()) => r.model() == error.model(),
            Err(e) => r.model() == ErrorModel::Internal(
                "compacted database installation failed ("@ + shown@
                    + "); restoring retained sidecars also failed ("@ + e@ + ")"@,
            ),
        },
{
    match rollback {
        Ok(()) => error,
        Err(e) => internal(
            text5(
                "compacted database installation failed (",
                shown,
                "); restoring retained sidecars also failed (",
                e.as_str(),
                ")",
            ),
        ),
    }
}

/// The steps of replacing the live database. A step names the work to do next.
#[derive(Debug, Clone, Copy, PartialEq, Eq, Structural)]
pub enum MaintenanceStep {
    /// Make sure that the database is held.
    VerifyAuthority,
    /// Take the logical witness of the live database.
    WitnessSource,
    /// Take the witness of its files, for the mode of the main file.
    WitnessMode,
    /// No file of the candidate may be there.
    RequireCandidateAbsent,
    /// Write the compacted copy.
    Vacuum,
    /// Take the copy to the target schema, in one transaction.
    Migrate,
    /// Rebuild the indexes of the copy and checkpoint it.
    Reindex,
    /// Give the copy the mode of the main file and flush it.
    SyncCandidate,
    /// Take the logical witness of the copy and attest it.
    AttestCandidate,
    /// Take the logical witness of the live database again and compare.
    RecheckSource,
    /// Take the witnesses of both file families.
    WitnessFiles,
    /// Move the sidecars of the copy out of the way.
    RetireCandidateSidecars,
    /// Lock the copy.
    LockCandidate,
    /// Make the directory for the displaced family.
    CreateDisplaced,
    /// Move the live sidecars there.
    MoveLiveSidecars,
    /// Exchange the live database and the copy.
    Install,
    /// Put the live sidecars back after an exchange that failed.
    PutSidecarsBack,
    /// Read the displaced family back.
    VerifyDisplaced,
    /// Take the logical witness of the installed database and compare it with the copy's.
    AttestInstalled,
    /// Make the directory for the rejected family.
    CreateRejected,
    /// Move the sidecars of the rejected database there.
    MoveRejectedSidecars,
    /// Exchange the databases back.
    RollBackInstall,
    /// Put the live sidecars back after a rejection.
    RestoreSidecars,
    /// Give up the old database file.
    Finalize,
    /// Make sure that the database is still held.
    ReverifyAuthority,
    /// Flush the directory of the run.
    SyncRun,
    /// The replacement stands.
    Done,
    /// The work ends with an error.
    Failed,
}

/// The step that follows `step`, which succeeded or failed. A schema change is migrated
/// between the copy and its indexes.
pub open spec fn maintenance_after(
    step: MaintenanceStep,
    ok: bool,
    schema_change: bool,
) -> MaintenanceStep {
    match step {
        MaintenanceStep::Done => MaintenanceStep::Done,
        MaintenanceStep::Install => if ok {
            MaintenanceStep::VerifyDisplaced
        } else {
            MaintenanceStep::PutSidecarsBack
        },
        MaintenanceStep::AttestInstalled => if ok {
            MaintenanceStep::Finalize
        } else {
            MaintenanceStep::CreateRejected
        },
        MaintenanceStep::Vacuum => if !ok {
            MaintenanceStep::Failed
        } else if schema_change {
            MaintenanceStep::Migrate
        } else {
            MaintenanceStep::Reindex
        },
        _ => if !ok {
            MaintenanceStep::Failed
        } else {
            match step {
                MaintenanceStep::VerifyAuthority => MaintenanceStep::WitnessSource,
                MaintenanceStep::WitnessSource => MaintenanceStep::WitnessMode,
                MaintenanceStep::WitnessMode => MaintenanceStep::RequireCandidateAbsent,
                MaintenanceStep::RequireCandidateAbsent => MaintenanceStep::Vacuum,
                MaintenanceStep::Migrate => MaintenanceStep::Reindex,
                MaintenanceStep::Reindex => MaintenanceStep::SyncCandidate,
                MaintenanceStep::SyncCandidate => MaintenanceStep::AttestCandidate,
                MaintenanceStep::AttestCandidate => MaintenanceStep::RecheckSource,
                MaintenanceStep::RecheckSource => MaintenanceStep::WitnessFiles,
                MaintenanceStep::WitnessFiles => MaintenanceStep::RetireCandidateSidecars,
                MaintenanceStep::RetireCandidateSidecars => MaintenanceStep::LockCandidate,
                MaintenanceStep::LockCandidate => MaintenanceStep::CreateDisplaced,
                MaintenanceStep::CreateDisplaced => MaintenanceStep::MoveLiveSidecars,
                MaintenanceStep::MoveLiveSidecars => MaintenanceStep::Install,
                MaintenanceStep::VerifyDisplaced => MaintenanceStep::AttestInstalled,
                MaintenanceStep::CreateRejected => MaintenanceStep::MoveRejectedSidecars,
                MaintenanceStep::MoveRejectedSidecars => MaintenanceStep::RollBackInstall,
                MaintenanceStep::RollBackInstall => MaintenanceStep::RestoreSidecars,
                MaintenanceStep::Finalize => MaintenanceStep::ReverifyAuthority,
                MaintenanceStep::ReverifyAuthority => MaintenanceStep::SyncRun,
                MaintenanceStep::SyncRun => MaintenanceStep::Done,
                _ => MaintenanceStep::Failed,
            }
        },
    }
}

/// The step that follows `step`.
pub fn next_maintenance_step(step: MaintenanceStep, ok: bool, schema_change: bool) -> (r:
    MaintenanceStep)
    ensures
        r == maintenance_after(step, ok, schema_change),
{
    match step {
        MaintenanceStep::Done => MaintenanceStep::Done,
        MaintenanceStep::Install => {
            if ok {
                MaintenanceStep::VerifyDisplaced
            } else {
                MaintenanceStep::PutSidecarsBack
            }
        },
        MaintenanceStep::AttestInstalled => {
            if ok {
                MaintenanceStep::Finalize
            } else {
                MaintenanceStep::CreateRejected
            }
        },
        MaintenanceStep::Vacuum => {
            if !ok {
                MaintenanceStep::Failed
            } else if schema_change {
                MaintenanceStep::Migrate
            } else {
                MaintenanceStep::Reindex
            }
        },
        _ => {
            if !ok {
                return MaintenanceStep::Failed;
            }
            match step {
                MaintenanceStep::VerifyAuthority => MaintenanceStep::WitnessSource,
                MaintenanceStep::WitnessSource => MaintenanceStep::WitnessMode,
                MaintenanceStep::WitnessMode => MaintenanceStep::RequireCandidateAbsent,
                MaintenanceStep::RequireCandidateAbsent => MaintenanceStep::Vacuum,
                MaintenanceStep::Migrate => MaintenanceStep::Reindex,
                MaintenanceStep::Reindex => MaintenanceStep::SyncCandidate,
                MaintenanceStep::SyncCandidate => MaintenanceStep::AttestCandidate,
                MaintenanceStep::AttestCandidate => MaintenanceStep::RecheckSource,
                MaintenanceStep::RecheckSource => MaintenanceStep::WitnessFiles,
                MaintenanceStep::WitnessFiles => MaintenanceStep::RetireCandidateSidecars,
                MaintenanceStep::RetireCandidateSidecars => MaintenanceStep::LockCandidate,
                MaintenanceStep::LockCandidate => MaintenanceStep::CreateDisplaced,
                MaintenanceStep::CreateDisplaced => MaintenanceStep::MoveLiveSidecars,
                MaintenanceStep::MoveLiveSidecars => MaintenanceStep::Install,
                MaintenanceStep::VerifyDisplaced => MaintenanceStep::AttestInstalled,
                MaintenanceStep::CreateRejected => MaintenanceStep::MoveRejectedSidecars,
                MaintenanceStep::MoveRejectedSidecars => MaintenanceStep::RollBackInstall,
                MaintenanceStep::RollBackInstall => MaintenanceStep::RestoreSidecars,
                MaintenanceStep::Finalize => MaintenanceStep::ReverifyAuthority,
                MaintenanceStep::ReverifyAuthority => MaintenanceStep::SyncRun,
                MaintenanceStep::SyncRun => MaintenanceStep::Done,
                _ => MaintenanceStep::Failed,
            }
        },
    }
}

/// The step at position `i` is the one that follows the step before it.
pub open spec fn maintenance_follows(
    steps: Seq<(MaintenanceStep, bool)>,
    schema_change: bool,
    i: int,
) -> bool {
    steps[i].0 == maintenance_after(steps[i - 1].0, steps[i - 1].1, schema_change)
}

/// A course of the replacement: the steps taken, each with how it went, from the first on.
pub open spec fn maintenance_course(
    steps: Seq<(MaintenanceStep, bool)>,
    schema_change: bool,
) -> bool {
    &&& steps.len() > 0 ==> steps[0].0 == MaintenanceStep::VerifyAuthority
    &&& forall|i: int|
        0 < i < steps.len() ==> #[trigger] maintenance_follows(steps, schema_change, i)
}

/// The step was taken and succeeded somewhere before position `end`.
pub open spec fn maintained_before(
    steps: Seq<(MaintenanceStep, bool)>,
    step: MaintenanceStep,
    end: int,
) -> bool {
    exists|i: int| 0 <= i < end && #[trigger] steps[i] == (step, true)
}

/// The step changes a file of the live family.
pub open spec fn touches_live(step: MaintenanceStep) -> bool {
    step == MaintenanceStep::MoveLiveSidecars || step == MaintenanceStep::Install || step
        == MaintenanceStep::PutSidecarsBack || step == MaintenanceStep::MoveRejectedSidecars || step
        == MaintenanceStep::RollBackInstall || step == MaintenanceStep::RestoreSidecars || step
        == MaintenanceStep::Finalize
}

/// The step comes only behind the attestation of the candidate.
spec fn behind_attestation(step: MaintenanceStep) -> bool {
    touches_live(step) || step == MaintenanceStep::WitnessFiles || step
        == MaintenanceStep::RetireCandidateSidecars || step == MaintenanceStep::LockCandidate
        || step == MaintenanceStep::CreateDisplaced || step == MaintenanceStep::VerifyDisplaced
        || step == MaintenanceStep::AttestInstalled || step == MaintenanceStep::CreateRejected
        || step == MaintenanceStep::ReverifyAuthority || step == MaintenanceStep::SyncRun || step
        == MaintenanceStep::Done
}

/// The live family is touched only after the candidate was attested and the live database
/// was found unchanged since it was copied.
pub proof fn law_live_family_untouched_before_attestation(
    steps: Seq<(MaintenanceStep, bool)>,
    schema_change: bool,
    at: int,
)
    requires
        maintenance_course(steps, schema_change),
        0 <= at < steps.len(),
        touches_live(steps[at].0),
    ensures
        maintained_before(steps, MaintenanceStep::AttestCandidate, at),
        maintained_before(steps, MaintenanceStep::RecheckSource, at),
{
    lemma_behind_attestation(steps, schema_change, at);
}

proof fn lemma_behind_attestation(
    steps: Seq<(MaintenanceStep, bool)>,
    schema_change: bool,
    at: int,
)
    requires
        maintenance_course(steps, schema_change),
        0 <= at < steps.len(),
        behind_attestation(steps[at].0),
    ensures
        maintained_before(steps, MaintenanceStep::AttestCandidate, at),
        maintained_before(steps, MaintenanceStep::RecheckSource, at),
    decreases at,
{
    if at > 0 {
        assert(maintenance_follows(steps, schema_change, at));
        let before = steps[at - 1];
        if before.0 == MaintenanceStep::RecheckSource {
            assert(steps[at - 1] == (MaintenanceStep::RecheckSource, true));
            assert(maintenance_follows(steps, schema_change, at - 1));
            assert(steps[at - 2] == (MaintenanceStep::AttestCandidate, true));
        } else {
            lemma_behind_attestation(steps, schema_change, at - 1);
        }
    }
}

/// The replacement stands only where the installed database was found to be the candidate.
pub proof fn law_done_means_installed_exactly(
    steps: Seq<(MaintenanceStep, bool)>,
    schema_change: bool,
    at: int,
)
    requires
        maintenance_course(steps, schema_change),
        0 <= at < steps.len(),
        steps[at].0 == MaintenanceStep::Done || steps[at].0 == MaintenanceStep::SyncRun
            || steps[at].0 == MaintenanceStep::ReverifyAuthority || steps[at].0
            == MaintenanceStep::Finalize,
    ensures
        maintained_before(steps, MaintenanceStep::Install, at),
        maintained_before(steps, MaintenanceStep::AttestInstalled, at),
    decreases at,
{
    if at > 0 {
        assert(maintenance_follows(steps, schema_change, at));
        if steps[at].0 == MaintenanceStep::Finalize {
            assert(steps[at - 1] == (MaintenanceStep::AttestInstalled, true));
            assert(maintenance_follows(steps, schema_change, at - 1));
            assert(steps[at - 2] == (MaintenanceStep::VerifyDisplaced, true));
            assert(maintenance_follows(steps, schema_change, at - 2));
            assert(steps[at - 3] == (MaintenanceStep::Install, true));
        } else {
            law_done_means_installed_exactly(steps, schema_change, at - 1);
        }
    }
}

/// A file system: what stands at each path.
pub type Files = Map<Seq<char>, Seq<u8>>;

/// `from` renamed to `to`.
pub open spec fn renamed(fs: Files, from: Seq<char>, to: Seq<char>) -> Files {
    fs.remove(from).insert(to, fs[from])
}

/// What stands at `a` and at `b` exchanged.
pub open spec fn exchanged(fs: Files, a: Seq<char>, b: Seq<char>) -> Files {
    fs.insert(a, fs[b]).insert(b, fs[a])
}

/// The actions of installing the candidate.
#[derive(Debug, Clone, Copy, PartialEq, Eq, Structural)]
pub enum InstallAction {
    /// Nothing may stand where the displaced database goes.
    RequireDisplacedAbsent,
    /// Exchange the candidate and the live database.
    Exchange,
    /// Hold the new database in place of the old one.
    Adopt,
    /// Move the old database away from the candidate's path.
    RetainDisplaced,
    /// Flush the directory of the database.
    SyncDatabase,
    /// Flush the directory of the displaced database.
    SyncDisplaced,
    /// Hold the old database again.
    RestoreAuthority,
}

/// The actions of installing the candidate, in order.
pub open spec fn install_actions() -> Seq<InstallAction> {
    seq![
        InstallAction::RequireDisplacedAbsent,
        InstallAction::Exchange,
        InstallAction::Adopt,
        InstallAction::RetainDisplaced,
        InstallAction::SyncDatabase,
        InstallAction::SyncDisplaced,
    ]
}

pub fn install_script() -> (r: Vec<InstallAction>)
    ensures
        r@ == install_actions(),
{
    vec![
        InstallAction::RequireDisplacedAbsent,
        InstallAction::Exchange,
        InstallAction::Adopt,
        InstallAction::RetainDisplaced,
        InstallAction::SyncDatabase,
        InstallAction::SyncDisplaced,
    ]
}

/// What takes back the actions before the one that failed.
pub open spec fn install_compensation(failed: InstallAction) -> Seq<InstallAction> {
    match failed {
        InstallAction::Adopt => seq![InstallAction::Exchange],
        InstallAction::RetainDisplaced => seq![
            InstallAction::Exchange,
            InstallAction::RestoreAuthority,
        ],
        _ => Seq::empty(),
    }
}

pub fn install_rollback(failed: InstallAction) -> (r: Vec<InstallAction>)
    ensures
        r@ == install_compensation(failed),
{
    match failed {
        InstallAction::Adopt => vec![InstallAction::Exchange],
        InstallAction::RetainDisplaced => vec![
            InstallAction::Exchange,
            InstallAction::RestoreAuthority,
        ],
        _ => Vec::new(),
    }
}

/// Nothing may stand where a database is kept; `kept` tells what would be overwritten.
pub open spec fn place_free(seen: ObservedModel, path: Seq<char>, kept: Seq<char>) -> Result<
    (),
    ErrorModel,
> {
    match regular_file(seen, path) {
        Err(e) => Err(e),
        Ok(true) => Err(ErrorModel::Internal("refusing to overwrite retained "@ + kept + " "@ + path)),
        Ok(false) => Ok(()),
    }
}

fn require_free(seen: &Observed, path: &str, kept: &str) -> (r: Result<(), BeadsError>)
    ensures
        checked(r) == place_free(seen@, path@, kept@),
{
    match secure_file(seen, path) {
        Err(e) => Err(e),
        Ok(true) => {
            let mut out = text3("refusing to overwrite retained ", kept, " ");
            out.append(path);
            Err(internal(out))
        },
        Ok(false) => Ok(()),
    }
}

pub fn require_displaced_absent(seen: &Observed, path: &str) -> (r: Result<(), BeadsError>)
    ensures
        checked(r) == place_free(seen@, path@, "pre-compaction database"@),
{
    require_free(seen, path, "pre-compaction database")
}

pub fn require_rejected_absent(seen: &Observed, path: &str) -> (r: Result<(), BeadsError>)
    ensures
        checked(r) == place_free(seen@, path@, "failed compacted database"@),
{
    require_free(seen, path, "failed compacted database")
}

/// What an action does to the files.
pub open spec fn install_effect(
    fs: Files,
    action: InstallAction,
    candidate: Seq<char>,
    db: Seq<char>,
    displaced: Seq<char>,
) -> Files {
    match action {
        InstallAction::Exchange => exchanged(fs, candidate, db),
        InstallAction::RetainDisplaced => renamed(fs, candidate, displaced),
        _ => fs,
    }
}

/// What a list of actions does to the files.
pub open spec fn install_effects(
    fs: Files,
    actions: Seq<InstallAction>,
    candidate: Seq<char>,
    db: Seq<char>,
    displaced: Seq<char>,
) -> Files
    decreases actions.len(),
{
    if actions.len() == 0 {
        fs
    } else {
        install_effect(
            install_effects(fs, actions.drop_last(), candidate, db, displaced),
            actions.last(),
            candidate,
            db,
            displaced,
        )
    }
}

/// An installation that fails at any action up to the last move of a file leaves every file
/// as it was, once it has been taken back.
pub proof fn law_failed_install_is_taken_back(
    fs: Files,
    at: int,
    candidate: Seq<char>,
    db: Seq<char>,
    displaced: Seq<char>,
)
    requires
        0 <= at <= 3,
        fs.contains_key(candidate),
        fs.contains_key(db),
        candidate != db,
    ensures
        ({
            let reached = install_effects(
                fs,
                install_actions().take(at),
                candidate,
                db,
                displaced,
            );
            install_effects(
                reached,
                install_compensation(install_actions()[at]),
                candidate,
                db,
                displaced,
            ) == fs
        }),
{
    reveal_with_fuel(install_effects, 4);
    let actions = install_actions();
    let done = actions.take(at);
    assert(at > 0 ==> done.drop_last() =~= actions.take(at - 1));
    assert(at > 1 ==> actions.take(at - 1).drop_last() =~= actions.take(at - 2));
    assert(at > 2 ==> actions.take(at - 2).drop_last() =~= actions.take(at - 3));
    let reached = install_effects(fs, done, candidate, db, displaced);
    let comp = install_compensation(actions[at]);
    if at == 0 {
        assert(reached == fs);
    } else if at == 1 {
        assert(actions.take(0).len() == 0);
        assert(done.last() == InstallAction::RequireDisplacedAbsent);
        assert(reached == fs);
    } else if at == 2 {
        assert(done.last() == InstallAction::Exchange);
        assert(actions.take(1).last() == InstallAction::RequireDisplacedAbsent);
        assert(reached == exchanged(fs, candidate, db));
        assert(comp.drop_last().len() == 0);
        assert(exchanged(exchanged(fs, candidate, db), candidate, db) =~= fs);
    } else {
        assert(done.last() == InstallAction::Adopt);
        assert(actions.take(2).last() == InstallAction::Exchange);
        assert(actions.take(1).last() == InstallAction::RequireDisplacedAbsent);
        assert(reached == exchanged(fs, candidate, db));
        assert(comp.drop_last() =~= seq![InstallAction::Exchange]);
        assert(comp.drop_last().drop_last().len() == 0);
        assert(exchanged(exchanged(fs, candidate, db), candidate, db) =~= fs);
    }
}

/// The actions of taking back an installation that was rejected.
#[derive(Debug, Clone, Copy, PartialEq, Eq, Structural)]
pub enum RejectAction {
    /// Make the directory of what is rejected.
    EnsureDirectory,
    /// Nothing may stand where the rejected database goes.
    RequireRejectedAbsent,
    /// Exchange the live database and the displaced one.
    Exchange,
    /// Hold the old database again.
    RestoreAuthority,
    /// Move the rejected database away from the displaced one's path.
    KeepRejected,
    /// Move the rejected database away from its place.
    MoveRejectedAway,
    /// Move the displaced database back to its place.
    MoveOldBack,
    /// Flush the directory of the database.
    SyncDatabase,
    /// Flush the directory of what is rejected.
    SyncRejected,
}

/// The actions of taking back an installation, in order. The first that fails ends them.
pub open spec fn reject_actions() -> Seq<RejectAction> {
    seq![
        RejectAction::EnsureDirectory,
        RejectAction::RequireRejectedAbsent,
        RejectAction::Exchange,
        RejectAction::RestoreAuthority,
        RejectAction::KeepRejected,
        RejectAction::SyncDatabase,
        RejectAction::SyncRejected,
    ]
}

pub fn rollback_compacted_install() -> (r: Vec<RejectAction>)
    ensures
        r@ == reject_actions(),
{
    vec![
        RejectAction::EnsureDirectory,
        RejectAction::RequireRejectedAbsent,
        RejectAction::Exchange,
        RejectAction::RestoreAuthority,
        RejectAction::KeepRejected,
        RejectAction::SyncDatabase,
        RejectAction::SyncRejected,
    ]
}

/// The actions of taking back an installation by moves, in order.
pub open spec fn rename_reject_actions() -> Seq<RejectAction> {
    seq![
        RejectAction::EnsureDirectory,
        RejectAction::RequireRejectedAbsent,
        RejectAction::MoveRejectedAway,
        RejectAction::MoveOldBack,
        RejectAction::RestoreAuthority,
        RejectAction::SyncDatabase,
        RejectAction::SyncRejected,
    ]
}

pub fn rollback_renamed_install() -> (r: Vec<RejectAction>)
    ensures
        r@ == rename_reject_actions(),
{
    vec![
        RejectAction::EnsureDirectory,
        RejectAction::RequireRejectedAbsent,
        RejectAction::MoveRejectedAway,
        RejectAction::MoveOldBack,
        RejectAction::RestoreAuthority,
        RejectAction::SyncDatabase,
        RejectAction::SyncRejected,
    ]
}

/// What an action does to the files.
pub open spec fn reject_effect(
    fs: Files,
    action: RejectAction,
    db: Seq<char>,
    displaced: Seq<char>,
    rejected: Seq<char>,
) -> Files {
    match action {
        RejectAction::Exchange => exchanged(fs, db, displaced),
        RejectAction::KeepRejected => renamed(fs, displaced, rejected),
        RejectAction::MoveRejectedAway => renamed(fs, db, rejected),
        RejectAction::MoveOldBack => renamed(fs, displaced, db),
        _ => fs,
    }
}

/// What a list of actions does to the files.
pub open spec fn reject_effects(
    fs: Files,
    actions: Seq<RejectAction>,
    db: Seq<char>,
    displaced: Seq<char>,
    rejected: Seq<char>,
) -> Files
    decreases actions.len(),
{
    if actions.len() == 0 {
        fs
    } else {
        reject_effect(
            reject_effects(fs, actions.drop_last(), db, displaced, rejected),
            actions.last(),
            db,
            displaced,
            rejected,
        )
    }
}

proof fn lemma_install_effects(
    fs: Files,
    candidate: Seq<char>,
    db: Seq<char>,
    displaced: Seq<char>,
)
    ensures
        install_effects(fs, install_actions(), candidate, db, displaced) == renamed(
            exchanged(fs, candidate, db),
            candidate,
            displaced,
        ),
{
    reveal_with_fuel(install_effects, 7);
    let actions = install_actions();
    assert(actions.drop_last() =~= actions.take(5));
    assert(actions.take(5).drop_last() =~= actions.take(4));
    assert(actions.take(4).drop_last() =~= actions.take(3));
    assert(actions.take(3).drop_last() =~= actions.take(2));
    assert(actions.take(2).drop_last() =~= actions.take(1));
    assert(actions.take(1).drop_last() =~= actions.take(0));
}

proof fn lemma_reject_effects(
    fs: Files,
    db: Seq<char>,
    displaced: Seq<char>,
    rejected: Seq<char>,
)
    ensures
        reject_effects(fs, reject_actions(), db, displaced, rejected) == renamed(
            exchanged(fs, db, displaced),
            displaced,
            rejected,
        ),
        reject_effects(fs, rename_reject_actions(), db, displaced, rejected) == renamed(
            renamed(fs, db, rejected),
            displaced,
            db,
        ),
{
    reveal_with_fuel(reject_effects, 8);
    let actions = reject_actions();
    assert(actions.drop_last() =~= actions.take(6));
    assert(actions.take(6).drop_last() =~= actions.take(5));
    assert(actions.take(5).drop_last() =~= actions.take(4));
    assert(actions.take(4).drop_last() =~= actions.take(3));
    assert(actions.take(3).drop_last() =~= actions.take(2));
    assert(actions.take(2).drop_last() =~= actions.take(1));
    assert(actions.take(1).drop_last() =~= actions.take(0));
    let moves = rename_reject_actions();
    assert(moves.drop_last() =~= moves.take(6));
    assert(moves.take(6).drop_last() =~= moves.take(5));
    assert(moves.take(5).drop_last() =~= moves.take(4));
    assert(moves.take(4).drop_last() =~= moves.take(3));
    assert(moves.take(3).drop_last() =~= moves.take(2));
    assert(moves.take(2).drop_last() =~= moves.take(1));
    assert(moves.take(1).drop_last() =~= moves.take(0));
}

/// Taking back an installation puts the old database in its place and keeps the rejected
/// one; no other file changes.
pub proof fn law_rollback_restores_database(
    fs: Files,
    candidate: Seq<char>,
    db: Seq<char>,
    displaced: Seq<char>,
    rejected: Seq<char>,
)
    requires
        fs.contains_key(candidate),
        fs.contains_key(db),
        !fs.contains_key(displaced),
        !fs.contains_key(rejected),
        candidate != db,
        displaced != rejected,
    ensures
        ({
            let installed = install_effects(fs, install_actions(), candidate, db, displaced);
            let back = reject_effects(installed, reject_actions(), db, displaced, rejected);
            &&& installed.contains_key(db) && installed[db] == fs[candidate]
            &&& installed.contains_key(displaced) && installed[displaced] == fs[db]
            &&& back.contains_key(db) && back[db] == fs[db]
            &&& back.contains_key(rejected) && back[rejected] == fs[candidate]
            &&& back == renamed(fs, candidate, rejected)
        }),
{
    lemma_install_effects(fs, candidate, db, displaced);
    let installed = install_effects(fs, install_actions(), candidate, db, displaced);
    lemma_reject_effects(installed, db, displaced, rejected);
    let back = reject_effects(installed, reject_actions(), db, displaced, rejected);
    assert(back =~= renamed(fs, candidate, rejected));
}

/// What is reported where an installation failed.
pub fn adopt_failed_error(error: BeadsError, shown: &str, rollback: &Result<(), String>) -> (r:
    BeadsError)
    ensures
        match *rollback {
            Ok(()) => r.model() == error.model(),
            Err(e) => r.model() == ErrorModel::Internal(
                "database replacement authority adoption failed ("@ + shown@
                    + "); atomic exchange rollback also failed ("@ + e@ + ")"@,
            ),
        },
{
    match rollback {
        Ok(()) => error,
        Err(e) => internal(
            text5(
                "database replacement authority adoption failed (",
                shown,
                "); atomic exchange rollback also failed (",
                e.as_str(),
                ")",
            ),
        ),
    }
}

/// A result as Rust's debug output shows it, where `e` is the debug text of its error.
pub open spec fn result_debug(r: Result<(), Seq<char>>) -> Seq<char> {
    match r {
        Ok(()) => "Ok(())"@,
        Err(e) => "Err("@ + e + ")"@,
    }
}

/// The view of a result whose error is a text.
pub open spec fn result_text(r: Result<(), String>) -> Result<(), Seq<char>> {
    match r {
        Ok(()) => Ok(()),
        Err(e) => Err(e@),
    }
}

fn result_debug_text(r: &Result<(), String>) -> (s: String)
    ensures
        s@ == result_debug(result_text(*r)),
{
    match r {
        Ok(()) => "Ok(())".to_owned(),
        Err(e) => text3("Err(", e.as_str(), ")"),
    }
}

/// What is reported where the old database could not be moved away.
pub fn retain_failed_error(
    error: &str,
    exchange: &Result<(), String>,
    authority: &Result<(), String>,
) -> (r: BeadsError)
    ensures
        r.model() == if *exchange is Ok && *authority is Ok {
            ErrorModel::Outside(error@)
        } else {
            ErrorModel::Internal(
                "could not retain exchanged pre-compaction database ("@ + error@
                    + "); exchange rollback="@ + result_debug(result_text(*exchange))
                    + ", authority rollback="@ + result_debug(result_text(*authority)),
            )
        },
{
    if exchange.is_ok() && authority.is_ok() {
        return BeadsError::Outside(error.to_owned());
    }
    let first = result_debug_text(exchange);
    let second = result_debug_text(authority);
    let mut out = text5(
        "could not retain exchanged pre-compaction database (",
        error,
        "); exchange rollback=",
        first.as_str(),
        ", authority rollback=",
    );
    out.append(second.as_str());
    internal(out)
}

/// The actions of installing the candidate where two files cannot be exchanged at once.
#[derive(Debug, Clone, Copy, PartialEq, Eq, Structural)]
pub enum RenameAction {
    /// Nothing may stand where the displaced database goes.
    RequireDisplacedAbsent,
    /// Move the live database away.
    MoveLiveAway,
    /// Move the candidate into its place.
    MoveCandidateIn,
    /// Hold the new database in place of the old one.
    Adopt,
    /// Flush the directory of the database.
    SyncDatabase,
    /// Flush the directory of the displaced database.
    SyncDisplaced,
    /// Move the candidate back.
    MoveCandidateBack,
    /// Move the old database back.
    MoveLiveBack,
}

/// The actions of installing the candidate by moves, in order.
pub open spec fn rename_actions() -> Seq<RenameAction> {
    seq![
        RenameAction::RequireDisplacedAbsent,
        RenameAction::MoveLiveAway,
        RenameAction::MoveCandidateIn,
        RenameAction::Adopt,
        RenameAction::SyncDatabase,
        RenameAction::SyncDisplaced,
    ]
}

pub fn rename_install_script() -> (r: Vec<RenameAction>)
    ensures
        r@ == rename_actions(),
{
    vec![
        RenameAction::RequireDisplacedAbsent,
        RenameAction::MoveLiveAway,
        RenameAction::MoveCandidateIn,
        RenameAction::Adopt,
        RenameAction::SyncDatabase,
        RenameAction::SyncDisplaced,
    ]
}

/// What takes back the actions before the one that failed.
pub open spec fn rename_compensation(failed: RenameAction) -> Seq<RenameAction> {
    match failed {
        RenameAction::MoveCandidateIn => seq![RenameAction::MoveLiveBack],
        RenameAction::Adopt => seq![
            RenameAction::MoveCandidateBack,
            RenameAction::MoveLiveBack,
        ],
        _ => Seq::empty(),
    }
}

pub fn rename_install_rollback(failed: RenameAction) -> (r: Vec<RenameAction>)
    ensures
        r@ == rename_compensation(failed),
{
    match failed {
        RenameAction::MoveCandidateIn => vec![RenameAction::MoveLiveBack],
        RenameAction::Adopt => vec![RenameAction::MoveCandidateBack, RenameAction::MoveLiveBack],
        _ => Vec::new(),
    }
}

/// What an action does to the files.
pub open spec fn rename_effect(
    fs: Files,
    action: RenameAction,
    candidate: Seq<char>,
    db: Seq<char>,
    displaced: Seq<char>,
) -> Files {
    match action {
        RenameAction::MoveLiveAway => renamed(fs, db, displaced),
        RenameAction::MoveCandidateIn => renamed(fs, candidate, db),
        RenameAction::MoveCandidateBack => renamed(fs, db, candidate),
        RenameAction::MoveLiveBack => renamed(fs, displaced, db),
        _ => fs,
    }
}

/// What a list of actions does to the files.
pub open spec fn rename_effects(
    fs: Files,
    actions: Seq<RenameAction>,
    candidate: Seq<char>,
    db: Seq<char>,
    displaced: Seq<char>,
) -> Files
    decreases actions.len(),
{
    if actions.len() == 0 {
        fs
    } else {
        rename_effect(
            rename_effects(fs, actions.drop_last(), candidate, db, displaced),
            actions.last(),
            candidate,
            db,
            displaced,
        )
    }
}

/// An installation by moves that fails at any action up to the adoption leaves every file
/// as it was, once it has been taken back.
pub proof fn law_failed_moves_are_taken_back(
    fs: Files,
    at: int,
    candidate: Seq<char>,
    db: Seq<char>,
    displaced: Seq<char>,
)
    requires
        0 <= at <= 3,
        fs.contains_key(candidate),
        fs.contains_key(db),
        !fs.contains_key(displaced),
        candidate != db,
    ensures
        ({
            let reached = rename_effects(fs, rename_actions().take(at), candidate, db, displaced);
            rename_effects(
                reached,
                rename_compensation(rename_actions()[at]),
                candidate,
                db,
                displaced,
            ) == fs
        }),
{
    reveal_with_fuel(rename_effects, 4);
    let actions = rename_actions();
    let done = actions.take(at);
    assert(at > 0 ==> done.drop_last() =~= actions.take(at - 1));
    assert(at > 1 ==> actions.take(at - 1).drop_last() =~= actions.take(at - 2));
    assert(at > 2 ==> actions.take(at - 2).drop_last() =~= actions.take(at - 3));
    let reached = rename_effects(fs, done, candidate, db, displaced);
    let comp = rename_compensation(actions[at]);
    let away = renamed(fs, db, displaced);
    if at == 0 {
        assert(reached == fs);
    } else if at == 1 {
        assert(done.last() == RenameAction::RequireDisplacedAbsent);
        assert(reached == fs);
    } else if at == 2 {
        assert(done.last() == RenameAction::MoveLiveAway);
        assert(actions.take(1).last() == RenameAction::RequireDisplacedAbsent);
        assert(reached == away);
        assert(comp.drop_last().len() == 0);
        assert(renamed(away, displaced, db) =~= fs);
    } else {
        assert(done.last() == RenameAction::MoveCandidateIn);
        assert(actions.take(2).last() == RenameAction::MoveLiveAway);
        assert(actions.take(1).last() == RenameAction::RequireDisplacedAbsent);
        let moved = renamed(away, candidate, db);
        assert(reached == moved);
        assert(comp.drop_last() =~= seq![RenameAction::MoveCandidateBack]);
        assert(comp.drop_last().drop_last().len() == 0);
        assert(renamed(moved, db, candidate) =~= away);
        assert(renamed(away, displaced, db) =~= fs);
    }
}

/// Installing by moves and taking that back leaves the files as an exchange does.
pub proof fn law_moves_do_what_an_exchange_does(
    fs: Files,
    candidate: Seq<char>,
    db: Seq<char>,
    displaced: Seq<char>,
    rejected: Seq<char>,
)
    requires
        fs.contains_key(candidate),
        fs.contains_key(db),
        !fs.contains_key(displaced),
        !fs.contains_key(rejected),
        candidate != db,
        displaced != rejected,
    ensures
        ({
            let by_moves = rename_effects(fs, rename_actions(), candidate, db, displaced);
            let by_exchange = install_effects(fs, install_actions(), candidate, db, displaced);
            &&& by_moves == by_exchange
            &&& reject_effects(by_moves, rename_reject_actions(), db, displaced, rejected)
                == reject_effects(by_exchange, reject_actions(), db, displaced, rejected)
        }),
{
    lemma_install_effects(fs, candidate, db, displaced);
    reveal_with_fuel(rename_effects, 7);
    let actions = rename_actions();
    assert(actions.drop_last() =~= actions.take(5));
    assert(actions.take(5).drop_last() =~= actions.take(4));
    assert(actions.take(4).drop_last() =~= actions.take(3));
    assert(actions.take(3).drop_last() =~= actions.take(2));
    assert(actions.take(2).drop_last() =~= actions.take(1));
    assert(actions.take(1).drop_last() =~= actions.take(0));
    let by_moves = rename_effects(fs, actions, candidate, db, displaced);
    let by_exchange = install_effects(fs, install_actions(), candidate, db, displaced);
    assert(by_moves == renamed(renamed(fs, db, displaced), candidate, db));
    assert(by_moves =~= by_exchange);
    lemma_reject_effects(by_moves, db, displaced, rejected);
    assert(renamed(renamed(by_moves, db, rejected), displaced, db) =~= renamed(
        exchanged(by_moves, db, displaced),
        displaced,
        rejected,
    ));
}

/// What is reported where the candidate could not be moved into place.
pub fn move_in_failed_error(error: &str, rollback: &Result<(), String>) -> (r: BeadsError)
    ensures
        r.model() == match *rollback {
            Ok(()) => ErrorModel::Outside(error@),
            Err(e) => ErrorModel::Internal(
                "could not install compacted database ("@ + error@
                    + "); restoring the retained original also failed ("@ + e@ + ")"@,
            ),
        },
{
    match rollback {
        Ok(()) => BeadsError::Outside(error.to_owned()),
        Err(e) => internal(
            text5(
                "could not install compacted database (",
                error,
                "); restoring the retained original also failed (",
                e.as_str(),
                ")",
            ),
        ),
    }
}

/// What is reported where a candidate that was moved into place could not be held.
pub fn adopt_moved_failed_error(
    error: BeadsError,
    shown: &str,
    candidate: &Result<(), String>,
    original: &Result<(), String>,
) -> (r: BeadsError)
    ensures
        r.model() == if *candidate is Ok && *original is Ok {
            error.model()
        } else {
            ErrorModel::Internal(
                "database replacement authority adoption failed ("@ + shown@
                    + "); candidate rollback="@ + result_debug(result_text(*candidate))
                    + ", original rollback="@ + result_debug(result_text(*original)),
            )
        },
{
    if candidate.is_ok() && original.is_ok() {
        return error;
    }
    let first = result_debug_text(candidate);
    let second = result_debug_text(original);
    let mut out = text5(
        "database replacement authority adoption failed (",
        shown,
        "); candidate rollback=",
        first.as_str(),
        ", original rollback=",
    );
    out.append(second.as_str());
    internal(out)
}

/// What to do with a sidecar that should be moved away.
#[derive(Debug)]
pub enum SidecarDecision {
    /// Move it.
    Move,
    /// Take back the moves so far, then report this.
    RollBack { message: String },
    /// Report this.
    Refuse { error: BeadsError },
}

/// What a [`SidecarDecision`] says.
pub enum SidecarModel {
    Move,
    RollBack { message: Seq<char> },
    Refuse { error: ErrorModel },
}

impl View for SidecarDecision {
    type V = SidecarModel;

    open spec fn view(&self) -> SidecarModel {
        match self {
            SidecarDecision::Move => SidecarModel::Move,
            SidecarDecision::RollBack { message } => SidecarModel::RollBack { message: message@ },
            SidecarDecision::Refuse { error } => SidecarModel::Refuse { error: error.model() },
        }
    }
}

/// A sidecar is moved only onto a free path, and only where it is the file of the witness.
pub open spec fn sidecar_decision(
    component: ComponentModel,
    source: ObservedModel,
    destination: ObservedModel,
    source_path: Seq<char>,
    destination_path: Seq<char>,
) -> SidecarModel {
    if regular_file(destination, destination_path) is Err {
        SidecarModel::Refuse { error: regular_file(destination, destination_path)->Err_0 }
    } else if destination is Regular {
        SidecarModel::RollBack {
            message: "refusing to overwrite retained schema-migration sidecar "@ + destination_path,
        }
    } else if regular_file(source, source_path) is Err {
        SidecarModel::Refuse { error: regular_file(source, source_path)->Err_0 }
    } else if source is Missing {
        SidecarModel::Refuse {
            error: ErrorModel::Internal(
                "schema-migration sidecar disappeared before retention: "@ + source_path,
            ),
        }
    } else if !holds_component(source, component) {
        SidecarModel::Refuse { error: mismatch_error(source_path) }
    } else {
        SidecarModel::Move
    }
}

pub fn sidecar_step(
    component: &RawComponentWitness,
    source: &Observed,
    destination: &Observed,
    source_path: &str,
    destination_path: &str,
) -> (r: SidecarDecision)
    ensures
        r@ == sidecar_decision(
            component@,
            source@,
            destination@,
            source_path@,
            destination_path@,
        ),
{
    match secure_file(destination, destination_path) {
        Err(error) => return SidecarDecision::Refuse { error },
        Ok(true) => return SidecarDecision::RollBack {
            message: text2(
                "refusing to overwrite retained schema-migration sidecar ",
                destination_path,
            ),
        },
        Ok(false) => {},
    }
    if let Err(error) = secure_file(source, source_path) {
        return SidecarDecision::Refuse { error };
    }
    match source {
        Observed::Regular { length, sha256 } => {
            match verify_component_bytes(source_path, *length, sha256.as_str(), component) {
                Ok(()) => SidecarDecision::Move,
                Err(error) => SidecarDecision::Refuse { error },
            }
        },
        _ => SidecarDecision::Refuse {
            error: internal(
                text2("schema-migration sidecar disappeared before retention: ", source_path),
            ),
        },
    }
}

/// What is reported where a path was taken, after the moves so far were taken back or not.
pub fn sidecar_rolled_back_error(message: &str, rollback: &Result<(), String>) -> (r: BeadsError)
    ensures
        r.model() == ErrorModel::Internal(
            match *rollback {
                Ok(()) => message@,
                Err(e) => message@ + "; rollback of prior sidecar moves also failed: "@ + e@,
            },
        ),
{
    match rollback {
        Ok(()) => internal(message.to_owned()),
        Err(e) => internal(
            text3(message, "; rollback of prior sidecar moves also failed: ", e.as_str()),
        ),
    }
}

/// What is reported where a sidecar could not be moved.
pub fn sidecar_move_error(source_path: &str, error: &str, rollback: &Result<(), String>) -> (r:
    BeadsError)
    ensures
        r.model() == match *rollback {
            Ok(()) => ErrorModel::Outside(error@),
            Err(e) => ErrorModel::Internal(
                "could not retain schema-migration sidecar "@ + source_path@ + " ("@ + error@
                    + "); rollback of prior sidecar moves also failed: "@ + e@,
            ),
        },
{
    match rollback {
        Ok(()) => BeadsError::Outside(error.to_owned()),
        Err(e) => {
            let mut out = text5(
                "could not retain schema-migration sidecar ",
                source_path,
                " (",
                error,
                "); rollback of prior sidecar moves also failed: ",
            );
            out.append(e.as_str());
            internal(out)
        },
    }
}

/// A component comes back only onto a free path.
pub fn restore_moved_check(live: &Observed, live_path: &str) -> (r: Result<(), BeadsError>)
    ensures
        checked(r) == match regular_file(live@, live_path@) {
            Err(e) => Err(e),
            Ok(false) => Ok(()),
            Ok(true) => Err(
                ErrorModel::Internal(
                    "cannot restore retained schema-migration component because its live path exists: "@
                        + live_path@,
                ),
            ),
        },
{
    match secure_file(live, live_path) {
        Err(e) => Err(e),
        Ok(false) => Ok(()),
        Ok(true) => Err(
            internal(
                text2(
                    "cannot restore retained schema-migration component because its live path exists: ",
                    live_path,
                ),
            ),
        ),
    }
}

/// The suffixes of the moves so far, the last first: the order in which they are taken back.
pub fn rollback_order(moved: &Vec<String>) -> (r: Vec<String>)
    ensures
        texts(r@) == texts(moved@).reverse(),
{
    let mut out: Vec<String> = Vec::new();
    let mut i: usize = moved.len();
    while i > 0
        invariant
            i <= moved@.len(),
            out@.len() == moved@.len() - i,
            forall|k: int|
                0 <= k < out@.len() ==> texts(out@)[k] == texts(moved@)[moved@.len() - 1 - k],
        decreases i,
    {
        i -= 1;
        let ghost before = texts(out@);
        out.push(moved[i].clone());
        assert(texts(out@) =~= before.push(moved@[i as int]@));
    }
    assert(texts(out@) =~= texts(moved@).reverse());
    out
}

/// The files after the renames of `moves`, in order.
pub open spec fn moved_files(fs: Files, moves: Seq<(Seq<char>, Seq<char>)>) -> Files
    decreases moves.len(),
{
    if moves.len() == 0 {
        fs
    } else {
        renamed(moved_files(fs, moves.drop_last()), moves.last().0, moves.last().1)
    }
}

/// The moves with source and destination exchanged, the last first.
pub open spec fn taken_back(moves: Seq<(Seq<char>, Seq<char>)>) -> Seq<(Seq<char>, Seq<char>)> {
    moves.reverse().map_values(|m: (Seq<char>, Seq<char>)| (m.1, m.0))
}

/// Every move takes a file that is there to a path that is free, on the files as the moves
/// before it left them.
pub open spec fn free_moves(fs: Files, moves: Seq<(Seq<char>, Seq<char>)>) -> bool
    decreases moves.len(),
{
    moves.len() > 0 ==> {
        let before = moved_files(fs, moves.drop_last());
        &&& free_moves(fs, moves.drop_last())
        &&& before.contains_key(moves.last().0)
        &&& !before.contains_key(moves.last().1)
    }
}

proof fn lemma_moved_front(fs: Files, m: (Seq<char>, Seq<char>), rest: Seq<(Seq<char>, Seq<char>)>)
    ensures
        moved_files(fs, seq![m] + rest) == moved_files(renamed(fs, m.0, m.1), rest),
    decreases rest.len(),
{
    let all = seq![m] + rest;
    if rest.len() == 0 {
        assert(all =~= seq![m]);
        assert(all.drop_last().len() == 0);
        assert(moved_files(fs, all.drop_last()) == fs);
    } else {
        assert(all.drop_last() =~= seq![m] + rest.drop_last());
        lemma_moved_front(fs, m, rest.drop_last());
    }
}

/// Taking back the moves, the last first, leaves every file as it was.
pub proof fn law_sidecar_moves_are_taken_back(fs: Files, moves: Seq<(Seq<char>, Seq<char>)>)
    requires
        free_moves(fs, moves),
    ensures
        moved_files(moved_files(fs, moves), taken_back(moves)) == fs,
    decreases moves.len(),
{
    if moves.len() > 0 {
        let init = moves.drop_last();
        let last = moves.last();
        let before = moved_files(fs, init);
        let after = moved_files(fs, moves);
        let back = (last.1, last.0);
        assert(taken_back(moves) =~= seq![back] + taken_back(init));
        lemma_moved_front(after, back, taken_back(init));
        assert(renamed(after, back.0, back.1) =~= before);
        law_sidecar_moves_are_taken_back(fs, init);
    } else {
        assert(taken_back(moves).len() == 0);
    }
}

} // verus!
