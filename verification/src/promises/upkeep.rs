//! Promises of compacting a database and putting the copy in its place.

use crate::doctor_subsystems::family::{holds_component, ObservedModel};
use crate::doctor_subsystems::maintenance::{
    candidate_attested, exchanged, install_actions, install_compensation, install_effects,
    maintenance_after, moved_files, place_free, reject_actions, rename_actions, rename_compensation,
    rename_reject_actions, renamed, sidecar_decision, Files, InstallAction, MaintenanceStep,
    RejectAction, RenameAction,
};
use crate::doctor_subsystems::witness::{integrity_clean, ComponentModel, LogicalModel};
use crate::error::ErrorModel;
use vstd::prelude::*;
use vstd::string::*;

verus! {

broadcast use vstd::string::group_string_axioms;

/// A copy is good exactly where it is sound and, without a change of schema, holds what the
/// database held, or, with one, has the version and the shape that it was to have.
pub proof fn law_good_copies(
    source: LogicalModel,
    copy: LogicalModel,
    from: u32,
    to: u32,
    canonical: bool,
)
    ensures
        from == to ==> (candidate_attested(source, copy, from, to, canonical) <==> integrity_clean(
            copy.integrity_check,
        ) && copy.user_version == source.user_version && copy.schema_sha256 == source.schema_sha256
            && copy.contents_sha256 == source.contents_sha256 && copy.tables == source.tables),
        from != to ==> (candidate_attested(source, copy, from, to, canonical) <==> integrity_clean(
            copy.integrity_check,
        ) && copy.user_version == to && canonical),
{
}

/// Upkeep that goes well, step by step.
pub proof fn law_upkeep_goes_step_by_step(change: bool)
    ensures
        ({
            let next = |step: MaintenanceStep| maintenance_after(step, true, change);
            &&& next(MaintenanceStep::VerifyAuthority) == MaintenanceStep::WitnessSource
            &&& next(MaintenanceStep::WitnessSource) == MaintenanceStep::WitnessMode
            &&& next(MaintenanceStep::WitnessMode) == MaintenanceStep::RequireCandidateAbsent
            &&& next(MaintenanceStep::RequireCandidateAbsent) == MaintenanceStep::Vacuum
            &&& change ==> next(MaintenanceStep::Vacuum) == MaintenanceStep::Migrate
            &&& !change ==> next(MaintenanceStep::Vacuum) == MaintenanceStep::Reindex
            &&& next(MaintenanceStep::Migrate) == MaintenanceStep::Reindex
            &&& next(MaintenanceStep::Reindex) == MaintenanceStep::SyncCandidate
            &&& next(MaintenanceStep::SyncCandidate) == MaintenanceStep::AttestCandidate
            &&& next(MaintenanceStep::AttestCandidate) == MaintenanceStep::RecheckSource
            &&& next(MaintenanceStep::RecheckSource) == MaintenanceStep::WitnessFiles
            &&& next(MaintenanceStep::WitnessFiles) == MaintenanceStep::RetireCandidateSidecars
            &&& next(MaintenanceStep::RetireCandidateSidecars) == MaintenanceStep::LockCandidate
            &&& next(MaintenanceStep::LockCandidate) == MaintenanceStep::CreateDisplaced
            &&& next(MaintenanceStep::CreateDisplaced) == MaintenanceStep::MoveLiveSidecars
            &&& next(MaintenanceStep::MoveLiveSidecars) == MaintenanceStep::Install
            &&& next(MaintenanceStep::Install) == MaintenanceStep::VerifyDisplaced
            &&& next(MaintenanceStep::VerifyDisplaced) == MaintenanceStep::AttestInstalled
            &&& next(MaintenanceStep::AttestInstalled) == MaintenanceStep::Finalize
            &&& next(MaintenanceStep::Finalize) == MaintenanceStep::ReverifyAuthority
            &&& next(MaintenanceStep::ReverifyAuthority) == MaintenanceStep::SyncRun
            &&& next(MaintenanceStep::SyncRun) == MaintenanceStep::Done
        }),
{
}

/// Upkeep that fails: sidecars are put back after an installation that failed, and a database
/// that was installed and is not what it should be is taken out again.
pub proof fn law_upkeep_that_fails(step: MaintenanceStep, change: bool)
    ensures
        maintenance_after(MaintenanceStep::Install, false, change)
            == MaintenanceStep::PutSidecarsBack,
        maintenance_after(MaintenanceStep::AttestInstalled, false, change)
            == MaintenanceStep::CreateRejected,
        maintenance_after(MaintenanceStep::CreateRejected, true, change)
            == MaintenanceStep::MoveRejectedSidecars,
        maintenance_after(MaintenanceStep::MoveRejectedSidecars, true, change)
            == MaintenanceStep::RollBackInstall,
        maintenance_after(MaintenanceStep::RollBackInstall, true, change)
            == MaintenanceStep::RestoreSidecars,
        maintenance_after(MaintenanceStep::RestoreSidecars, true, change)
            == MaintenanceStep::Failed,
        maintenance_after(MaintenanceStep::PutSidecarsBack, true, change)
            == MaintenanceStep::Failed,
        step != MaintenanceStep::Install && step != MaintenanceStep::AttestInstalled && step
            != MaintenanceStep::Done ==> maintenance_after(step, false, change)
            == MaintenanceStep::Failed,
{
}

/// An exchange gives each file the bytes of the other and leaves every other file alone; a
/// rename takes a file to another name and leaves every other file alone.
pub proof fn law_exchange_and_rename(fs: Files, a: Seq<char>, b: Seq<char>, other: Seq<char>)
    requires
        fs.contains_key(a),
        fs.contains_key(b),
        a != b,
        other != a,
        other != b,
    ensures
        exchanged(fs, a, b)[a] == fs[b],
        exchanged(fs, a, b)[b] == fs[a],
        exchanged(fs, a, b).contains_key(other) <==> fs.contains_key(other),
        fs.contains_key(other) ==> exchanged(fs, a, b)[other] == fs[other],
        renamed(fs, a, b)[b] == fs[a],
        !renamed(fs, a, b).contains_key(a),
        renamed(fs, a, b).contains_key(other) <==> fs.contains_key(other),
        fs.contains_key(other) ==> renamed(fs, a, b)[other] == fs[other],
{
}

/// The actions of an installation, by exchange and by renames, and what takes each back where
/// it fails.
pub proof fn law_installations_have_their_actions()
    ensures
        install_actions() == seq![
            InstallAction::RequireDisplacedAbsent,
            InstallAction::Exchange,
            InstallAction::Adopt,
            InstallAction::RetainDisplaced,
            InstallAction::SyncDatabase,
            InstallAction::SyncDisplaced,
        ],
        rename_actions() == seq![
            RenameAction::RequireDisplacedAbsent,
            RenameAction::MoveLiveAway,
            RenameAction::MoveCandidateIn,
            RenameAction::Adopt,
            RenameAction::SyncDatabase,
            RenameAction::SyncDisplaced,
        ],
        install_compensation(InstallAction::Adopt) == seq![InstallAction::Exchange],
        install_compensation(InstallAction::RetainDisplaced) == seq![
            InstallAction::Exchange,
            InstallAction::RestoreAuthority,
        ],
        install_compensation(InstallAction::Exchange).len() == 0,
        rename_compensation(RenameAction::MoveCandidateIn) == seq![RenameAction::MoveLiveBack],
        rename_compensation(RenameAction::Adopt) == seq![
            RenameAction::MoveCandidateBack,
            RenameAction::MoveLiveBack,
        ],
        rename_compensation(RenameAction::MoveLiveAway).len() == 0,
        reject_actions() == seq![
            RejectAction::EnsureDirectory,
            RejectAction::RequireRejectedAbsent,
            RejectAction::Exchange,
            RejectAction::RestoreAuthority,
            RejectAction::KeepRejected,
            RejectAction::SyncDatabase,
            RejectAction::SyncRejected,
        ],
        rename_reject_actions() == seq![
            RejectAction::EnsureDirectory,
            RejectAction::RequireRejectedAbsent,
            RejectAction::MoveRejectedAway,
            RejectAction::MoveOldBack,
            RejectAction::RestoreAuthority,
            RejectAction::SyncDatabase,
            RejectAction::SyncRejected,
        ],
{
}

/// An installation puts the candidate in the place of the database and keeps the database
/// where displaced ones go, and no other file changes.
pub proof fn law_installation_leaves_other_files(
    fs: Files,
    candidate: Seq<char>,
    db: Seq<char>,
    displaced: Seq<char>,
    other: Seq<char>,
)
    requires
        fs.contains_key(candidate),
        fs.contains_key(db),
        !fs.contains_key(displaced),
        candidate != db,
        other != candidate,
        other != db,
        other != displaced,
    ensures
        ({
            let after = install_effects(fs, install_actions(), candidate, db, displaced);
            &&& after.contains_key(other) <==> fs.contains_key(other)
            &&& fs.contains_key(other) ==> after[other] == fs[other]
            &&& after.contains_key(db) && after[db] == fs[candidate]
            &&& after.contains_key(displaced) && after[displaced] == fs[db]
            &&& !after.contains_key(candidate)
        }),
{
    let all = install_actions();
    let a5 = all.drop_last();
    let a4 = a5.drop_last();
    let a3 = a4.drop_last();
    let a2 = a3.drop_last();
    let a1 = a2.drop_last();
    let a0 = a1.drop_last();
    assert(all.last() == all[5] && a5.last() == all[4] && a4.last() == all[3] && a3.last()
        == all[2] && a2.last() == all[1] && a1.last() == all[0]);
    reveal_with_fuel(install_effects, 7);
    assert(install_effects(fs, all, candidate, db, displaced) == renamed(
        exchanged(fs, candidate, db),
        candidate,
        displaced,
    ));
}

/// A place is free exactly where nothing is there.
pub proof fn law_places_are_free_when_empty(seen: ObservedModel, path: Seq<char>, kept: Seq<char>)
    ensures
        place_free(seen, path, kept) is Ok <==> seen is Missing,
        seen is Regular ==> place_free(seen, path, kept) == Err::<(), ErrorModel>(
            ErrorModel::Internal("refusing to overwrite retained "@ + kept + " "@ + path),
        ),
{
}

/// A sidecar is moved exactly where it is the one on record and its place is free; a place that
/// is taken takes the moves so far back, and all else is refused.
pub proof fn law_sidecars_move_to_free_places(
    c: ComponentModel,
    source: ObservedModel,
    dest: ObservedModel,
    from: Seq<char>,
    to: Seq<char>,
)
    ensures
        ({
            let decision = sidecar_decision(c, source, dest, from, to);
            &&& decision is Move <==> dest is Missing && holds_component(source, c)
            &&& decision is RollBack <==> dest is Regular
            &&& decision is Refuse <==> dest is Symlink || dest is Irregular || (dest is Missing
                && !holds_component(source, c))
        }),
{
}

/// One move more takes one file more to its other name.
pub proof fn law_each_move_counts(
    fs: Files,
    moves: Seq<(Seq<char>, Seq<char>)>,
    more: (Seq<char>, Seq<char>),
)
    ensures
        moved_files(fs, moves.push(more)) == renamed(moved_files(fs, moves), more.0, more.1),
{
    assert(moves.push(more).drop_last() =~= moves);
}

} // verus!
