//! A migration that is applied and then undone, from the plan to the restored files.

use crate::digest::sha256_hex;
use crate::doctor_subsystems::apply::{
    applied_of, attestation_errors, law_attested_means_sound, prepared_of, taken, AttestationModel,
};
use crate::doctor_subsystems::family::{
    backup_check, backup_path, component_seen, family_suffixes, file_seen, live_after,
    quarantine_action, restore_action, valid_family, ObservedModel, QuarantineAction, RestoreAction,
};
use crate::doctor_subsystems::receipts::{AppliedModel, PlanModel, PreparedModel, UndoModel};
use crate::doctor_subsystems::schema_migration::{facts_fit, plan_of, plan_route_of, PlanFacts};
use crate::doctor_subsystems::undo::{
    applied_check, completed_undo_check, completed_undo_state, law_applied_migration_can_be_undone,
    quarantine_check, receipts_agree, restored_exactly, still_applied, undo_changes_files,
    undo_course, undo_follows, undo_of, UndoOutcome, UndoStep,
};
use crate::doctor_subsystems::witness::{ComponentModel, LogicalModel};
use crate::error::ErrorModel;
use crate::paths::{file_name, join_path};
use vstd::prelude::*;
use vstd::string::*;

verus! {

broadcast use vstd::string::group_string_axioms;

/// The files of a family, in the order of their suffixes: the bytes of each, where it is
/// there, and its mode.
pub struct Files {
    pub bytes: Seq<Option<Seq<u8>>>,
    pub modes: Seq<Option<u32>>,
}

/// What is seen at the path of a file.
pub open spec fn seen(file: Option<Seq<u8>>) -> ObservedModel {
    match file {
        Some(bytes) => file_seen(bytes),
        None => ObservedModel::Missing,
    }
}

/// The witness of the files.
pub open spec fn witness(files: Files) -> Seq<ComponentModel> {
    Seq::new(
        4,
        |i: int| component_seen(family_suffixes()[i], seen(files.bytes[i]), files.modes[i]),
    )
}

/// The files that hold the contents: all but the shared-memory file.
pub open spec fn content_files(bytes: Seq<Option<Seq<u8>>>) -> Seq<Option<Seq<u8>>> {
    seq![bytes[0], bytes[1], bytes[3]]
}

/// A migration that was planned and applied, and what is found as it is undone.
pub struct Undoing {
    pub db_path: Seq<char>,
    /// The contents and the files before the migration, the version to go to, and the facts
    /// that the plan rests on.
    pub logical: LogicalModel,
    pub before: Files,
    pub target: u32,
    pub facts: PlanFacts,
    pub run_id: Seq<char>,
    pub run_dir: Seq<char>,
    pub marked_at: Seq<char>,
    /// The bytes of the receipts that were written.
    pub prepared_file: Seq<u8>,
    pub applied_file: Seq<u8>,
    /// What was attested of the migrated database.
    pub attestation: AttestationModel,
    /// The files as the undo begins, and those in the recovery bundle.
    pub live: Files,
    pub bundle: Seq<Option<Seq<u8>>>,
    pub quarantine_path: Seq<char>,
    /// What the database engine reads from the bytes of files.
    pub contents: spec_fn(Seq<Option<Seq<u8>>>) -> LogicalModel,
}

pub open spec fn raw(u: Undoing) -> Seq<ComponentModel> {
    witness(u.before)
}

pub open spec fn raw_live(u: Undoing) -> Seq<ComponentModel> {
    witness(u.live)
}

pub open spec fn plan(u: Undoing) -> Result<PlanModel, ErrorModel> {
    plan_of(u.db_path, u.logical, raw(u), u.target, u.facts)
}

pub open spec fn prepared(u: Undoing) -> PreparedModel {
    prepared_of(plan(u)->Ok_0, u.run_id, u.marked_at)
}

pub open spec fn applied(u: Undoing) -> AppliedModel {
    applied_of(prepared(u), sha256_hex(u.prepared_file), u.attestation)
}

/// Where the file of a position stands, in quarantine and in the bundle.
pub open spec fn live_path(u: Undoing, i: int) -> Seq<char> {
    u.db_path + family_suffixes()[i]
}

pub open spec fn kept_path(u: Undoing, i: int) -> Seq<char> {
    backup_path(u.quarantine_path, u.db_path, family_suffixes()[i])->Ok_0
}

pub open spec fn bundle_path(u: Undoing, i: int) -> Seq<char> {
    backup_path(join_path(u.run_dir, "before"@), u.db_path, family_suffixes()[i])->Ok_0
}

/// What is done with the live file.
pub open spec fn moved(u: Undoing, i: int) -> Result<QuarantineAction, ErrorModel> {
    quarantine_action(
        raw_live(u)[i],
        seen(u.live.bytes[i]),
        ObservedModel::Missing,
        raw(u),
        live_path(u, i),
        kept_path(u, i),
    )
}

/// What is left at the live path.
pub open spec fn left(u: Undoing, i: int) -> ObservedModel {
    live_after(moved(u, i)->Ok_0, seen(u.live.bytes[i]))
}

/// What is done to bring the old file back.
pub open spec fn brought_back(u: Undoing, i: int) -> Result<RestoreAction, ErrorModel> {
    restore_action(raw(u)[i], left(u, i), live_path(u, i))
}

/// The mode that a file is given as it is brought back.
pub open spec fn mode_given(action: RestoreAction) -> Option<u32> {
    match action {
        RestoreAction::Copy(mode) => mode,
        RestoreAction::SetMode(mode) => mode,
        RestoreAction::LeaveAbsent => None,
    }
}

/// The bytes that are then in quarantine.
pub open spec fn bytes_kept(u: Undoing, i: int) -> Option<Seq<u8>> {
    match moved(u, i)->Ok_0 {
        QuarantineAction::Move => u.live.bytes[i],
        QuarantineAction::Keep => None,
    }
}

/// The bytes that stand at the live path in the end: copied from the bundle, or left there.
pub open spec fn bytes_restored(u: Undoing, i: int) -> Option<Seq<u8>> {
    match brought_back(u, i)->Ok_0 {
        RestoreAction::Copy(_) => u.bundle[i],
        _ => match moved(u, i)->Ok_0 {
            QuarantineAction::Move => None,
            QuarantineAction::Keep => u.live.bytes[i],
        },
    }
}

pub open spec fn files_restored(u: Undoing) -> Files {
    Files {
        bytes: Seq::new(4, |i: int| bytes_restored(u, i)),
        modes: Seq::new(4, |i: int| mode_given(brought_back(u, i)->Ok_0)),
    }
}

pub open spec fn family_restored(u: Undoing) -> Seq<ComponentModel> {
    witness(files_restored(u))
}

/// What the database engine reads in the end.
pub open spec fn contents_restored(u: Undoing) -> LogicalModel {
    (u.contents)(content_files(files_restored(u).bytes))
}

/// The receipt of the undo when it is completed.
pub open spec fn undone(u: Undoing) -> UndoModel {
    UndoModel {
        raw_restored: Some(family_restored(u)),
        logical_restored: Some(contents_restored(u)),
        ..undo_of(
            applied(u),
            u.run_id,
            false,
            u.db_path,
            u.quarantine_path,
            sha256_hex(u.applied_file),
            raw_live(u),
            applied(u).logical_after,
        )
    }
}

/// The check of a step passes. A step without a check only reads and writes files.
pub open spec fn passes(u: Undoing, step: UndoStep) -> bool {
    match step {
        UndoStep::CheckApplied => applied_check(applied(u), u.run_id, u.db_path) is Ok
            && sha256_hex(u.prepared_file) == applied(u).prepared_receipt_sha256 && receipts_agree(
            prepared(u),
            applied(u),
        ),
        UndoStep::VerifyBundle => file_name(u.db_path) is Some && forall|i: int|
            0 <= i < 4 ==> backup_check(#[trigger] raw(u)[i], seen(u.bundle[i]), bundle_path(u, i)) is Ok,
        UndoStep::CheckLive => still_applied(applied(u), raw_live(u), applied(u).logical_after),
        UndoStep::EnsureQuarantine => quarantine_check(u.quarantine_path, u.run_dir) is Ok,
        UndoStep::Quarantine => file_name(u.db_path) is Some && forall|i: int|
            0 <= i < 4 ==> (#[trigger] moved(u, i)) is Ok,
        UndoStep::Restore => file_name(u.db_path) is Some && forall|i: int|
            0 <= i < 4 ==> (#[trigger] brought_back(u, i)) is Ok,
        UndoStep::CheckRestored => restored_exactly(
            applied(u),
            family_restored(u),
            contents_restored(u),
        ),
        UndoStep::CheckCompleted => completed_undo_check(undone(u), u.run_id, u.db_path) is Ok
            && completed_undo_state(undone(u), u.run_id, u.run_dir, sha256_hex(u.applied_file)) is Ok
            && undone(u).logical_restored == Some(contents_restored(u)),
        _ => true,
    }
}

/// How a step goes where files can be read and written: by its check. `completed` says
/// whether there is the receipt of a completed undo; no undo was begun and left.
pub open spec fn outcome_of(u: Undoing, step: UndoStep, completed: bool) -> UndoOutcome {
    if (step == UndoStep::FindCompleted && !completed) || step == UndoStep::FindBegun {
        UndoOutcome::NotFound
    } else if passes(u, step) {
        UndoOutcome::Done
    } else {
        UndoOutcome::Failed
    }
}

/// A course of the undo in which every step goes by its check.
pub open spec fn goes_by_checks(
    u: Undoing,
    steps: Seq<(UndoStep, UndoOutcome)>,
    completed: bool,
) -> bool {
    undo_course(steps, false) && forall|i: int|
        0 <= i < steps.len() ==> (#[trigger] steps[i]).1 == outcome_of(u, steps[i].0, completed)
}

/// The migration was applied and attested, its recovery bundle holds copies of the files that
/// the plan witnessed, and nothing has changed since. A file that is not there has no mode.
pub open spec fn unchanged_since_applied(u: Undoing) -> bool {
    &&& file_name(u.db_path) is Some
    &&& facts_fit(plan_route_of(u.logical, u.target), u.facts)
    &&& plan(u) is Ok
    &&& plan(u)->Ok_0.eligible
    &&& attestation_errors(plan(u)->Ok_0.forecast->0, u.attestation).len() == 0
    &&& valid_family(raw(u))
    &&& valid_family(u.attestation.raw_after->Ok_0)
    &&& valid_family(raw_live(u))
    &&& u.before.bytes.len() == 4 && u.before.modes.len() == 4
    &&& forall|i: int|
        0 <= i < 4 && (#[trigger] u.before.bytes[i]) is None ==> u.before.modes[i] is None
    &&& forall|i: int| 0 <= i < 4 ==> (#[trigger] u.bundle[i]) == u.before.bytes[i]
    &&& quarantine_check(u.quarantine_path, u.run_dir) is Ok
    &&& (u.contents)(content_files(u.before.bytes)) == u.logical
}

proof fn lemma_file_comes_back(u: Undoing, i: int)
    requires
        unchanged_since_applied(u),
        0 <= i < 4,
    ensures
        backup_check(raw(u)[i], seen(u.bundle[i]), bundle_path(u, i)) is Ok,
        moved(u, i) is Ok,
        brought_back(u, i) is Ok,
        bytes_kept(u, i) == u.live.bytes[i],
        bytes_restored(u, i) == u.before.bytes[i],
        mode_given(brought_back(u, i)->Ok_0) == u.before.modes[i],
{
    assert(u.bundle[i] == u.before.bytes[i]);
    assert(u.before.bytes[i] is None ==> u.before.modes[i] is None);
}

proof fn lemma_family_comes_back(u: Undoing)
    requires
        unchanged_since_applied(u),
    ensures
        passes(u, UndoStep::VerifyBundle),
        passes(u, UndoStep::Quarantine),
        passes(u, UndoStep::Restore),
        forall|i: int| 0 <= i < 4 ==> #[trigger] bytes_kept(u, i) == u.live.bytes[i],
        files_restored(u).bytes == u.before.bytes,
        files_restored(u).modes == u.before.modes,
        family_restored(u) == raw(u),
{
    assert forall|i: int| 0 <= i < 4 implies backup_check(
        #[trigger] raw(u)[i],
        seen(u.bundle[i]),
        bundle_path(u, i),
    ) is Ok by {
        lemma_file_comes_back(u, i);
    }
    assert forall|i: int| 0 <= i < 4 implies (#[trigger] moved(u, i)) is Ok by {
        lemma_file_comes_back(u, i);
    }
    assert forall|i: int| 0 <= i < 4 implies (#[trigger] brought_back(u, i)) is Ok by {
        lemma_file_comes_back(u, i);
    }
    assert forall|i: int| 0 <= i < 4 implies #[trigger] bytes_kept(u, i) == u.live.bytes[i] by {
        lemma_file_comes_back(u, i);
    }
    assert forall|i: int| 0 <= i < 4 implies #[trigger] files_restored(u).bytes[i]
        == u.before.bytes[i] by {
        lemma_file_comes_back(u, i);
    }
    assert forall|i: int| 0 <= i < 4 implies #[trigger] files_restored(u).modes[i]
        == u.before.modes[i] by {
        lemma_file_comes_back(u, i);
    }
    assert(files_restored(u).bytes =~= u.before.bytes);
    assert(files_restored(u).modes =~= u.before.modes);
    assert(family_restored(u) =~= raw(u));
}

/// Applying a migration and undoing it brings everything back. Where nothing has changed since
/// a migration was applied and attested, and files can be read and written, the undo ends
/// with its report and a completed receipt. Then every file of the family is there or missing
/// as it was, with its old bytes and its old mode, and the database holds the contents that the
/// plan witnessed. The files of the applied state are all in quarantine. The same undo asked
/// for again is reported at once, and changes no file.
pub proof fn law_apply_then_undo_is_a_round_trip(
    u: Undoing,
    steps: Seq<(UndoStep, UndoOutcome)>,
    again: Seq<(UndoStep, UndoOutcome)>,
)
    requires
        unchanged_since_applied(u),
        goes_by_checks(u, steps, false),
        steps.len() >= 12,
        goes_by_checks(u, again, true),
        again.len() >= 3,
    ensures
        applied(u).attested,
        applied(u).logical_after->0.user_version == u.target,
        steps[10] == (UndoStep::WriteCompleted, UndoOutcome::Done),
        steps[11].0 == UndoStep::Report,
        files_restored(u).bytes == u.before.bytes,
        files_restored(u).modes == u.before.modes,
        contents_restored(u) == u.logical,
        forall|i: int| 0 <= i < 4 ==> #[trigger] bytes_kept(u, i) == u.live.bytes[i],
        again[2].0 == UndoStep::Report,
        forall|i: int| 0 <= i < 3 ==> !undo_changes_files(#[trigger] again[i].0),
{
    let a = u.attestation;
    let made = plan(u)->Ok_0;
    lemma_family_comes_back(u);
    law_attested_means_sound(made.forecast->0, a);
    law_applied_migration_can_be_undone(
        made,
        u.db_path,
        u.logical,
        raw(u),
        u.target,
        u.facts,
        u.run_id,
        u.run_dir,
        u.marked_at,
        sha256_hex(u.prepared_file),
        sha256_hex(u.applied_file),
        a,
        u.quarantine_path,
        raw_live(u),
        family_restored(u),
    );
    assert(applied(u).logical_after == taken(a.logical_after));
    assert(undo_follows(steps, false, 1));
    assert(undo_follows(steps, false, 2));
    assert(undo_follows(steps, false, 3));
    assert(undo_follows(steps, false, 4));
    assert(undo_follows(steps, false, 5));
    assert(undo_follows(steps, false, 6));
    assert(undo_follows(steps, false, 7));
    assert(undo_follows(steps, false, 8));
    assert(undo_follows(steps, false, 9));
    assert(undo_follows(steps, false, 10));
    assert(undo_follows(steps, false, 11));
    assert(undo_follows(again, false, 1));
    assert(undo_follows(again, false, 2));
}

} // verus!
