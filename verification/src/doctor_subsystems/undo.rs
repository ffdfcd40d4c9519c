//! Undoing an applied migration: which receipts are believed, and in which order the files
//! are moved.

use crate::doctor_subsystems::apply::{
    applied_of, attestation_errors, law_attested_means_sound, prepared_of, taken, AttestationModel,
};
use crate::doctor_subsystems::family::{
    family_check, law_family_check, stable_components, stable_raw_eq, valid_family,
    validate_raw_family_witness,
};
use crate::doctor_subsystems::receipts::{
    compute_plan_token, plan_token, AppliedMigrationReceipt, AppliedModel, PlanModel,
    PreparedMigrationReceipt, PreparedModel, UndoModel, UndoReceipt, APPLIED_SCHEMA,
    PREPARED_SCHEMA, UNDO_SCHEMA,
};
use crate::doctor_subsystems::schema_migration::{
    constant_time_text_eq, facts_fit, law_eligible_plan_has_its_token, plan_of, plan_route_of,
    run_id_check, validate_run_id, PlanFacts,
};
use crate::doctor_subsystems::witness::{
    opt_logical, ComponentModel, LogicalDatabaseWitness, LogicalModel, RawFamilyWitness,
};
use crate::error::{checked, debug_quoted, debug_text, internal, BeadsError, ErrorModel};
use crate::numbers::{decimal, decimal_text};
use crate::paths::{
    components, directly_in, file_name, file_name_of, is_directly_in, join_path, joined_path,
};
use crate::text::{same_text, text2, text3, text5, texts};
use crate::time::{format_utc, utc_text};
use vstd::prelude::*;
use vstd::string::*;

verus! {

broadcast use vstd::string::group_string_axioms;

/// An error about a run: what stands before and behind its id.
pub open spec fn run_error(before: Seq<char>, run_id: Seq<char>, behind: Seq<char>) -> ErrorModel {
    ErrorModel::Internal(before + run_id + behind)
}

fn about_run(before: &str, run_id: &str, behind: &str) -> (e: BeadsError)
    ensures
        e.model() == run_error(before@, run_id@, behind@),
{
    internal(text3(before, run_id, behind))
}

/// What an applied receipt must say, for the run and the database that are being undone.
pub open spec fn applied_check(applied: AppliedModel, run_id: Seq<char>, db_path: Seq<char>) -> Result<
    (),
    ErrorModel,
> {
    if family_check(applied.raw_before, 0) is Err {
        family_check(applied.raw_before, 0)
    } else if applied.raw_after is Some && family_check(applied.raw_after->0, 0) is Err {
        family_check(applied.raw_after->0, 0)
    } else if applied.schema_version != APPLIED_SCHEMA@ {
        Err(
            ErrorModel::Internal(
                "unsupported applied schema-migration receipt contract "@ + debug_text(
                    applied.schema_version,
                ),
            ),
        )
    } else if applied.run_id != run_id {
        Err(
            ErrorModel::Internal(
                "applied receipt run-id mismatch (path="@ + run_id + ", receipt="@ + applied.run_id
                    + ")"@,
            ),
        )
    } else if applied.database_path != db_path {
        Err(
            ErrorModel::Internal(
                "schema migration run "@ + run_id + " belongs to "@ + applied.database_path
                    + ", not "@ + db_path,
            ),
        )
    } else if applied.attested != (applied.attestation_errors.len() == 0) {
        Err(
            run_error(
                "schema migration run "@,
                run_id,
                " has an internally inconsistent attestation receipt"@,
            ),
        )
    } else if applied.raw_after is None && applied.logical_after is None {
        Err(
            run_error(
                "schema migration run "@,
                run_id,
                " has no committed-state witness and cannot be safely undone"@,
            ),
        )
    } else if plan_token(applied.database_path, applied.logical_before, applied.forecast)
        != applied.plan_token {
        Err(
            run_error(
                "schema migration run "@,
                run_id,
                " has a plan token that does not bind its recorded pre-state"@,
            ),
        )
    } else {
        Ok(())
    }
}

/// The checks of an applied receipt that need no other file.
pub fn validate_applied_receipt(
    applied: &AppliedMigrationReceipt,
    run_id: &str,
    db_path: &str,
) -> (r: Result<(), BeadsError>)
    ensures
        checked(r) == applied_check(applied@, run_id@, db_path@),
{
    if let Err(e) = validate_raw_family_witness(&applied.raw_before) {
        return Err(e);
    }
    if let Some(after) = &applied.raw_after {
        if let Err(e) = validate_raw_family_witness(after) {
            return Err(e);
        }
    }
    if !same_text(applied.schema_version.as_str(), APPLIED_SCHEMA) {
        let shown = debug_quoted(applied.schema_version.as_str());
        return Err(
            internal(
                text2(
                    "unsupported applied schema-migration receipt contract ",
                    shown.as_str(),
                ),
            ),
        );
    }
    if !same_text(applied.run_id.as_str(), run_id) {
        return Err(
            internal(
                text5(
                    "applied receipt run-id mismatch (path=",
                    run_id,
                    ", receipt=",
                    applied.run_id.as_str(),
                    ")",
                ),
            ),
        );
    }
    if !same_text(applied.database_path.as_str(), db_path) {
        let mut out = text5(
            "schema migration run ",
            run_id,
            " belongs to ",
            applied.database_path.as_str(),
            ", not ",
        );
        out.append(db_path);
        return Err(internal(out));
    }
    assert(texts(applied.attestation_errors@).len() == applied.attestation_errors@.len());
    if applied.attested != (applied.attestation_errors.len() == 0) {
        return Err(
            about_run(
                "schema migration run ",
                run_id,
                " has an internally inconsistent attestation receipt",
            ),
        );
    }
    if applied.raw_after.is_none() && applied.logical_after.is_none() {
        return Err(
            about_run(
                "schema migration run ",
                run_id,
                " has no committed-state witness and cannot be safely undone",
            ),
        );
    }
    let recomputed = compute_plan_token(
        applied.database_path.as_str(),
        &applied.logical_before,
        &applied.forecast,
    );
    if !constant_time_text_eq(recomputed.as_str(), applied.plan_token.as_str()) {
        return Err(
            about_run(
                "schema migration run ",
                run_id,
                " has a plan token that does not bind its recorded pre-state",
            ),
        );
    }
    Ok(())
}

/// The applied receipt names the digest of the prepared receipt as it stands.
pub fn validate_prepared_digest(
    applied: &AppliedMigrationReceipt,
    prepared_sha256: &str,
    run_id: &str,
) -> (r: Result<(), BeadsError>)
    ensures
        checked(r) == if prepared_sha256@ == applied.prepared_receipt_sha256@ {
            Ok(())
        } else {
            Err(
                run_error(
                    "schema migration run "@,
                    run_id@,
                    " failed its prepared-to-applied receipt hash chain"@,
                ),
            )
        },
        r is Ok <==> prepared_sha256@ == applied.prepared_receipt_sha256@,
{
    if !constant_time_text_eq(prepared_sha256, applied.prepared_receipt_sha256.as_str()) {
        return Err(
            about_run(
                "schema migration run ",
                run_id,
                " failed its prepared-to-applied receipt hash chain",
            ),
        );
    }
    Ok(())
}

/// The two receipts tell of the same run.
pub open spec fn receipts_agree(prepared: PreparedModel, applied: AppliedModel) -> bool {
    prepared.schema_version == PREPARED_SCHEMA@ && prepared.run_id == applied.run_id
        && prepared.database_path == applied.database_path && prepared.plan_token
        == applied.plan_token && prepared.marked_at == applied.marked_at && prepared.forecast
        == applied.forecast && prepared.raw_before == applied.raw_before && prepared.logical_before
        == applied.logical_before
}

pub fn validate_prepared_receipt(
    prepared: &PreparedMigrationReceipt,
    applied: &AppliedMigrationReceipt,
    run_id: &str,
) -> (r: Result<(), BeadsError>)
    ensures
        checked(r) == if receipts_agree(prepared@, applied@) {
            Ok(())
        } else {
            Err(
                run_error(
                    "schema migration run "@,
                    run_id@,
                    " has inconsistent prepared and applied receipts"@,
                ),
            )
        },
        r is Ok <==> receipts_agree(prepared@, applied@),
{
    if !same_text(prepared.schema_version.as_str(), PREPARED_SCHEMA) || !same_text(
        prepared.run_id.as_str(),
        applied.run_id.as_str(),
    ) || !same_text(prepared.database_path.as_str(), applied.database_path.as_str())
        || !constant_time_text_eq(prepared.plan_token.as_str(), applied.plan_token.as_str())
        || !same_text(prepared.marked_at.as_str(), applied.marked_at.as_str()) || prepared.forecast
        != applied.forecast || !prepared.raw_before.same(&applied.raw_before)
        || !prepared.logical_before.same(&applied.logical_before) {
        return Err(
            about_run(
                "schema migration run ",
                run_id,
                " has inconsistent prepared and applied receipts",
            ),
        );
    }
    Ok(())
}

/// The quarantine lies directly in the quarantine directory of its run.
pub open spec fn quarantine_check(quarantine_path: Seq<char>, run_dir: Seq<char>) -> Result<
    (),
    ErrorModel,
> {
    if !directly_in(quarantine_path, join_path(run_dir, "undo-quarantine"@)) {
        Err(
            ErrorModel::Internal(
                "schema migration undo quarantine path escapes its run directory: "@
                    + quarantine_path,
            ),
        )
    } else {
        match file_name(quarantine_path) {
            None => Err(
                ErrorModel::Internal("schema migration undo quarantine id is not UTF-8"@),
            ),
            Some(id) => run_id_check(id),
        }
    }
}

pub fn validate_quarantine_path(quarantine_path: &str, run_dir: &str) -> (r: Result<(), BeadsError>)
    ensures
        checked(r) == quarantine_check(quarantine_path@, run_dir@),
{
    let parent = joined_path(run_dir, "undo-quarantine");
    if !is_directly_in(quarantine_path, parent.as_str()) {
        return Err(
            internal(
                text2(
                    "schema migration undo quarantine path escapes its run directory: ",
                    quarantine_path,
                ),
            ),
        );
    }
    match file_name_of(quarantine_path) {
        None => Err(internal("schema migration undo quarantine id is not UTF-8".to_owned())),
        Some(id) => validate_run_id(id.as_str()),
    }
}

/// A quarantine that passes lies under the directory of its run.
pub proof fn law_quarantine_stays_in_run(quarantine_path: Seq<char>, run_dir: Seq<char>)
    requires
        quarantine_check(quarantine_path, run_dir) is Ok,
    ensures
        crate::paths::under(quarantine_path, join_path(run_dir, "undo-quarantine"@)),
        components(quarantine_path).last() != ".."@,
{
    let parts = components(quarantine_path);
    assert(parts.drop_last() =~= parts.take(parts.len() - 1));
}

/// Whether the live database is still the one that was applied: by its contents, or by its
/// files where the contents were not witnessed.
pub open spec fn still_applied(
    applied: AppliedModel,
    raw_live: Seq<ComponentModel>,
    logical_live: Option<LogicalModel>,
) -> bool {
    match applied.logical_after {
        Some(expected) => logical_live == Some(expected),
        None => match applied.raw_after {
            Some(expected) => stable_components(raw_live) == stable_components(expected),
            None => false,
        },
    }
}

pub fn require_unchanged_applied_state(
    applied: &AppliedMigrationReceipt,
    raw_live: &RawFamilyWitness,
    logical_live: &Option<LogicalDatabaseWitness>,
    run_id: &str,
) -> (r: Result<(), BeadsError>)
    ensures
        checked(r) == if still_applied(applied@, raw_live@, opt_logical(*logical_live)) {
            Ok(())
        } else {
            Err(
                run_error(
                    "schema migration undo refused because the live database has changed since run "@,
                    run_id@,
                    "; preserving both states is safer than overwriting newer tracker work"@,
                ),
            )
        },
        r is Ok <==> still_applied(applied@, raw_live@, opt_logical(*logical_live)),
{
    let unchanged = match &applied.logical_after {
        Some(expected) => match logical_live {
            Some(live) => live.same(expected),
            None => false,
        },
        None => match &applied.raw_after {
            Some(expected) => stable_raw_eq(raw_live, expected),
            None => false,
        },
    };
    if !unchanged {
        return Err(
            about_run(
                "schema migration undo refused because the live database has changed since run ",
                run_id,
                "; preserving both states is safer than overwriting newer tracker work",
            ),
        );
    }
    Ok(())
}

/// A prepared undo receipt binds the run, the applied receipt and the old state.
pub open spec fn prepared_undo_binds(
    receipt: UndoModel,
    run_id: Seq<char>,
    db_path: Seq<char>,
    applied_sha256: Seq<char>,
    applied: AppliedModel,
) -> bool {
    receipt.schema_version == UNDO_SCHEMA@ && receipt.run_id == run_id && !receipt.dry_run
        && receipt.database_path == db_path && receipt.applied_receipt_sha256 == applied_sha256
        && receipt.raw_expected_before == applied.raw_before && receipt.logical_expected_before
        == applied.logical_before && receipt.raw_restored is None && receipt.logical_restored is None
}

/// What a prepared undo receipt must say before the undo is resumed.
pub open spec fn prepared_undo_check(
    receipt: UndoModel,
    run_id: Seq<char>,
    db_path: Seq<char>,
    run_dir: Seq<char>,
    applied_sha256: Seq<char>,
    applied: AppliedModel,
) -> Result<(), ErrorModel> {
    if family_check(receipt.raw_expected_before, 0) is Err {
        family_check(receipt.raw_expected_before, 0)
    } else if family_check(receipt.raw_live_before_undo, 0) is Err {
        family_check(receipt.raw_live_before_undo, 0)
    } else if !prepared_undo_binds(receipt, run_id, db_path, applied_sha256, applied) {
        Err(
            run_error(
                "schema migration run "@,
                run_id,
                " has an invalid or inconsistent prepared undo receipt"@,
            ),
        )
    } else if applied.logical_after is Some && receipt.logical_live_before_undo
        != applied.logical_after {
        Err(
            run_error(
                "schema migration run "@,
                run_id,
                " prepared undo does not bind the applied logical state"@,
            ),
        )
    } else if applied.logical_after is None && applied.raw_after is Some && stable_components(
        receipt.raw_live_before_undo,
    ) != stable_components(applied.raw_after->0) {
        Err(
            run_error(
                "schema migration run "@,
                run_id,
                " prepared undo does not bind the fallback applied raw state"@,
            ),
        )
    } else {
        quarantine_check(receipt.quarantine_path, run_dir)
    }
}

pub fn validate_prepared_undo_receipt(
    receipt: &UndoReceipt,
    run_id: &str,
    db_path: &str,
    run_dir: &str,
    applied_receipt_sha256: &str,
    applied: &AppliedMigrationReceipt,
) -> (r: Result<(), BeadsError>)
    ensures
        checked(r) == prepared_undo_check(
            receipt@,
            run_id@,
            db_path@,
            run_dir@,
            applied_receipt_sha256@,
            applied@,
        ),
{
    if let Err(e) = validate_raw_family_witness(&receipt.raw_expected_before) {
        return Err(e);
    }
    if let Err(e) = validate_raw_family_witness(&receipt.raw_live_before_undo) {
        return Err(e);
    }
    if !same_text(receipt.schema_version.as_str(), UNDO_SCHEMA) || !same_text(
        receipt.run_id.as_str(),
        run_id,
    ) || receipt.dry_run || !same_text(receipt.database_path.as_str(), db_path)
        || !constant_time_text_eq(receipt.applied_receipt_sha256.as_str(), applied_receipt_sha256)
        || !receipt.raw_expected_before.same(&applied.raw_before)
        || !receipt.logical_expected_before.same(&applied.logical_before)
        || receipt.raw_restored.is_some() || receipt.logical_restored.is_some() {
        return Err(
            about_run(
                "schema migration run ",
                run_id,
                " has an invalid or inconsistent prepared undo receipt",
            ),
        );
    }
    if let Some(expected) = &applied.logical_after {
        let bound = match &receipt.logical_live_before_undo {
            Some(live) => live.same(expected),
            None => false,
        };
        if !bound {
            return Err(
                about_run(
                    "schema migration run ",
                    run_id,
                    " prepared undo does not bind the applied logical state",
                ),
            );
        }
    } else if let Some(expected) = &applied.raw_after {
        if !stable_raw_eq(&receipt.raw_live_before_undo, expected) {
            return Err(
                about_run(
                    "schema migration run ",
                    run_id,
                    " prepared undo does not bind the fallback applied raw state",
                ),
            );
        }
    }
    validate_quarantine_path(receipt.quarantine_path.as_str(), run_dir)
}

/// What a completed undo receipt must say before anything is read to compare with it.
pub open spec fn completed_undo_check(
    receipt: UndoModel,
    run_id: Seq<char>,
    db_path: Seq<char>,
) -> Result<(), ErrorModel> {
    if family_check(receipt.raw_expected_before, 0) is Err {
        family_check(receipt.raw_expected_before, 0)
    } else if family_check(receipt.raw_live_before_undo, 0) is Err {
        family_check(receipt.raw_live_before_undo, 0)
    } else if receipt.schema_version != UNDO_SCHEMA@ || receipt.run_id != run_id
        || receipt.database_path != db_path || receipt.dry_run {
        Err(
            run_error(
                "schema migration run "@,
                run_id,
                " has an invalid completed undo receipt"@,
            ),
        )
    } else {
        Ok(())
    }
}

/// The checks of a completed undo receipt that need no other file.
pub fn validate_completed_undo_receipt(receipt: &UndoReceipt, run_id: &str, db_path: &str) -> (r:
    Result<(), BeadsError>)
    ensures
        checked(r) == completed_undo_check(receipt@, run_id@, db_path@),
{
    if let Err(e) = validate_raw_family_witness(&receipt.raw_expected_before) {
        return Err(e);
    }
    if let Err(e) = validate_raw_family_witness(&receipt.raw_live_before_undo) {
        return Err(e);
    }
    if !same_text(receipt.schema_version.as_str(), UNDO_SCHEMA) || !same_text(
        receipt.run_id.as_str(),
        run_id,
    ) || !same_text(receipt.database_path.as_str(), db_path) || receipt.dry_run {
        return Err(
            about_run(
                "schema migration run ",
                run_id,
                " has an invalid completed undo receipt",
            ),
        );
    }
    Ok(())
}

/// What a completed undo receipt must say of the files that it names and of the database
/// as it is now.
pub open spec fn completed_undo_state(
    receipt: UndoModel,
    run_id: Seq<char>,
    run_dir: Seq<char>,
    applied_sha256: Seq<char>,
) -> Result<(), ErrorModel> {
    if applied_sha256 != receipt.applied_receipt_sha256 {
        Err(
            run_error(
                "schema migration run "@,
                run_id,
                " failed its applied-to-undo receipt hash chain"@,
            ),
        )
    } else if quarantine_check(receipt.quarantine_path, run_dir) is Err {
        quarantine_check(receipt.quarantine_path, run_dir)
    } else if receipt.logical_restored is None {
        Err(
            run_error(
                "schema migration run "@,
                run_id,
                " completed undo receipt omits its logical witness"@,
            ),
        )
    } else if receipt.raw_restored is None {
        Err(
            run_error(
                "schema migration run "@,
                run_id,
                " completed undo receipt omits its raw witness"@,
            ),
        )
    } else {
        family_check(receipt.raw_restored->0, 0)
    }
}

pub fn validate_completed_undo_state(
    receipt: &UndoReceipt,
    run_id: &str,
    run_dir: &str,
    applied_sha256: &str,
) -> (r: Result<(), BeadsError>)
    ensures
        checked(r) == completed_undo_state(receipt@, run_id@, run_dir@, applied_sha256@),
{
    if !constant_time_text_eq(applied_sha256, receipt.applied_receipt_sha256.as_str()) {
        return Err(
            about_run(
                "schema migration run ",
                run_id,
                " failed its applied-to-undo receipt hash chain",
            ),
        );
    }
    if let Err(e) = validate_quarantine_path(receipt.quarantine_path.as_str(), run_dir) {
        return Err(e);
    }
    if receipt.logical_restored.is_none() {
        return Err(
            about_run(
                "schema migration run ",
                run_id,
                " completed undo receipt omits its logical witness",
            ),
        );
    }
    match &receipt.raw_restored {
        None => Err(
            about_run(
                "schema migration run ",
                run_id,
                " completed undo receipt omits its raw witness",
            ),
        ),
        Some(raw) => validate_raw_family_witness(raw),
    }
}

/// An undo that was completed still holds: the database is as it was restored.
pub fn require_still_restored(
    receipt: &UndoReceipt,
    live: &LogicalDatabaseWitness,
    run_id: &str,
) -> (r: Result<(), BeadsError>)
    ensures
        checked(r) == if opt_logical(receipt.logical_restored) == Some(live@) {
            Ok(())
        } else {
            Err(
                run_error(
                    "schema migration run "@,
                    run_id@,
                    " was previously undone, but the live database has since changed"@,
                ),
            )
        },
{
    let same = match &receipt.logical_restored {
        Some(restored) => live.same(restored),
        None => false,
    };
    if !same {
        return Err(
            about_run(
                "schema migration run ",
                run_id,
                " was previously undone, but the live database has since changed",
            ),
        );
    }
    Ok(())
}

/// Where the applied family goes while an undo runs.
pub open spec fn quarantine_dir(run_dir: Seq<char>, stamp: Seq<char>, pid: u32) -> Seq<char> {
    join_path(
        join_path(run_dir, "undo-quarantine"@),
        "undo-"@ + stamp + "-"@ + decimal(pid as nat),
    )
}

pub fn quarantine_dir_path(run_dir: &str, stamp: &str, pid: u32) -> (r: String)
    ensures
        r@ == quarantine_dir(run_dir@, stamp@, pid),
{
    let process = decimal_text(pid as u64);
    let mut id = text3("undo-", stamp, "-");
    id.append(process.as_str());
    let parent = joined_path(run_dir, "undo-quarantine");
    joined_path(parent.as_str(), id.as_str())
}

/// Where the applied family goes while an undo runs that begins at this time.
pub fn quarantine_dir_at(run_dir: &str, seconds: i64, nanoseconds: u32, pid: u32) -> (r: String)
    ensures
        r@ == quarantine_dir(
            run_dir@,
            utc_text(seconds as int, nanoseconds as int, "%Y%m%dT%H%M%S%.6fZ"@),
            pid,
        ),
{
    let stamp = format_utc(seconds, nanoseconds, "%Y%m%dT%H%M%S%.6fZ");
    quarantine_dir_path(run_dir, stamp.as_str(), pid)
}

/// The receipt of an undo that begins now.
pub open spec fn undo_of(
    applied: AppliedModel,
    run_id: Seq<char>,
    dry_run: bool,
    db_path: Seq<char>,
    quarantine_path: Seq<char>,
    applied_sha256: Seq<char>,
    raw_live: Seq<ComponentModel>,
    logical_live: Option<LogicalModel>,
) -> UndoModel {
    UndoModel {
        schema_version: UNDO_SCHEMA@,
        run_id,
        dry_run,
        database_path: db_path,
        quarantine_path,
        applied_receipt_sha256: applied_sha256,
        raw_expected_before: applied.raw_before,
        logical_expected_before: applied.logical_before,
        raw_live_before_undo: raw_live,
        logical_live_before_undo: logical_live,
        raw_restored: None,
        logical_restored: None,
    }
}

pub fn undo_receipt(
    applied: &AppliedMigrationReceipt,
    run_id: &str,
    dry_run: bool,
    db_path: &str,
    quarantine_path: &str,
    applied_sha256: &str,
    raw_live: RawFamilyWitness,
    logical_live: Option<LogicalDatabaseWitness>,
) -> (r: UndoReceipt)
    ensures
        r@ == undo_of(
            applied@,
            run_id@,
            dry_run,
            db_path@,
            quarantine_path@,
            applied_sha256@,
            raw_live@,
            opt_logical(logical_live),
        ),
{
    UndoReceipt {
        schema_version: UNDO_SCHEMA.to_owned(),
        run_id: run_id.to_owned(),
        dry_run,
        database_path: db_path.to_owned(),
        quarantine_path: quarantine_path.to_owned(),
        applied_receipt_sha256: applied_sha256.to_owned(),
        raw_expected_before: applied.raw_before.copy(),
        logical_expected_before: applied.logical_before.copy(),
        raw_live_before_undo: raw_live,
        logical_live_before_undo: logical_live,
        raw_restored: None,
        logical_restored: None,
    }
}

/// The receipt of an undo that was just begun is accepted when the undo is resumed, if the
/// live database was the applied one and the quarantine is in its place.
pub proof fn law_begun_undo_can_be_resumed(
    applied: AppliedModel,
    run_id: Seq<char>,
    db_path: Seq<char>,
    run_dir: Seq<char>,
    quarantine_path: Seq<char>,
    applied_sha256: Seq<char>,
    raw_live: Seq<ComponentModel>,
    logical_live: Option<LogicalModel>,
)
    requires
        applied_check(applied, run_id, db_path) is Ok,
        valid_family(raw_live),
        still_applied(applied, raw_live, logical_live),
        quarantine_check(quarantine_path, run_dir) is Ok,
    ensures
        prepared_undo_check(
            undo_of(
                applied,
                run_id,
                false,
                db_path,
                quarantine_path,
                applied_sha256,
                raw_live,
                logical_live,
            ),
            run_id,
            db_path,
            run_dir,
            applied_sha256,
            applied,
        ) is Ok,
{
    law_family_check(raw_live, 0);
}

/// The database after the files came back: its contents are the old ones, and so are its
/// files, leaving shared memory aside.
pub open spec fn restored_exactly(
    applied: AppliedModel,
    raw: Seq<ComponentModel>,
    logical: LogicalModel,
) -> bool {
    logical == applied.logical_before && stable_components(raw) == stable_components(
        applied.raw_before,
    )
}

/// The completed receipt, where the old state was restored exactly.
pub fn finish_undo(
    receipt: UndoReceipt,
    applied: &AppliedMigrationReceipt,
    raw: RawFamilyWitness,
    logical: LogicalDatabaseWitness,
    run_id: &str,
    quarantine_path: &str,
) -> (r: Result<UndoReceipt, BeadsError>)
    ensures
        match r {
            Ok(done) => restored_exactly(applied@, raw@, logical@) && done@ == (UndoModel {
                dry_run: false,
                raw_restored: Some(raw@),
                logical_restored: Some(logical@),
                ..receipt@
            }),
            Err(e) => !restored_exactly(applied@, raw@, logical@) && e.model()
                == ErrorModel::Internal(
                "schema migration undo for run "@ + run_id@
                    + " did not reproduce the verified pre-state; the displaced applied state remains quarantined at "@
                    + quarantine_path@,
            ),
        },
{
    if !logical.same(&applied.logical_before) || !stable_raw_eq(&raw, &applied.raw_before) {
        let mut out = text3(
            "schema migration undo for run ",
            run_id,
            " did not reproduce the verified pre-state; the displaced applied state remains quarantined at ",
        );
        out.append(quarantine_path);
        return Err(internal(out));
    }
    Ok(
        UndoReceipt {
            schema_version: receipt.schema_version,
            run_id: receipt.run_id,
            dry_run: false,
            database_path: receipt.database_path,
            quarantine_path: receipt.quarantine_path,
            applied_receipt_sha256: receipt.applied_receipt_sha256,
            raw_expected_before: receipt.raw_expected_before,
            logical_expected_before: receipt.logical_expected_before,
            raw_live_before_undo: receipt.raw_live_before_undo,
            logical_live_before_undo: receipt.logical_live_before_undo,
            raw_restored: Some(raw),
            logical_restored: Some(logical),
        },
    )
}

/// The lines that report an undo.
pub open spec fn undo_lines(receipt: UndoModel) -> Seq<Seq<char>> {
    if receipt.dry_run {
        seq![
            "Undo preconditions verified for schema migration run "@ + receipt.run_id,
            "Current state would be quarantined at "@ + receipt.quarantine_path,
        ]
    } else {
        seq![
            "Undid schema migration run "@ + receipt.run_id,
            "Displaced applied state retained at "@ + receipt.quarantine_path,
        ]
    }
}

pub fn emit_undo(receipt: &UndoReceipt) -> (r: Vec<String>)
    ensures
        texts(r@) == undo_lines(receipt@),
{
    let mut out: Vec<String> = Vec::new();
    if receipt.dry_run {
        out.push(
            text2(
                "Undo preconditions verified for schema migration run ",
                receipt.run_id.as_str(),
            ),
        );
        out.push(
            text2("Current state would be quarantined at ", receipt.quarantine_path.as_str()),
        );
    } else {
        out.push(text2("Undid schema migration run ", receipt.run_id.as_str()));
        out.push(
            text2("Displaced applied state retained at ", receipt.quarantine_path.as_str()),
        );
    }
    assert(texts(out@) =~= undo_lines(receipt@));
    out
}

/// The steps of an undo. A step names the work to do next.
#[derive(Debug, Clone, Copy, PartialEq, Eq, Structural)]
pub enum UndoStep {
    /// Look for the receipt of a completed undo.
    FindCompleted,
    /// Check that receipt and the database against it.
    CheckCompleted,
    /// Read and check the applied receipt and the prepared one.
    CheckApplied,
    /// Read the recovery bundle back.
    VerifyBundle,
    /// Look for the receipt of an undo that was begun.
    FindBegun,
    /// Check that receipt.
    CheckBegun,
    /// Observe the live database and compare it with the applied one.
    CheckLive,
    /// Write the receipt of the undo that begins.
    WriteBegun,
    /// Make the quarantine, or check the one that is there.
    EnsureQuarantine,
    /// Move the live family into quarantine.
    Quarantine,
    /// Bring the old family back.
    Restore,
    /// Observe the database and compare it with the old state.
    CheckRestored,
    /// Write the completed receipt.
    WriteCompleted,
    /// Report the undo.
    Report,
    /// Report what an undo would do.
    ReportDryRun,
    /// The work ends with an error.
    Failed,
}

/// How a step went. A step that looks for a receipt finds it or not.
#[derive(Debug, Clone, Copy, PartialEq, Eq, Structural)]
pub enum UndoOutcome {
    Done,
    NotFound,
    Failed,
}

/// The step that follows `step`.
pub open spec fn undo_after(step: UndoStep, outcome: UndoOutcome, dry_run: bool) -> UndoStep {
    match step {
        UndoStep::Report => UndoStep::Report,
        UndoStep::ReportDryRun => UndoStep::ReportDryRun,
        _ => match outcome {
            UndoOutcome::Failed => UndoStep::Failed,
            UndoOutcome::NotFound => match step {
                UndoStep::FindCompleted => UndoStep::CheckApplied,
                UndoStep::FindBegun => UndoStep::CheckLive,
                _ => UndoStep::Failed,
            },
            UndoOutcome::Done => match step {
                UndoStep::FindCompleted => UndoStep::CheckCompleted,
                UndoStep::CheckCompleted => UndoStep::Report,
                UndoStep::CheckApplied => UndoStep::VerifyBundle,
                UndoStep::VerifyBundle => UndoStep::FindBegun,
                UndoStep::FindBegun => if dry_run {
                    UndoStep::Failed
                } else {
                    UndoStep::CheckBegun
                },
                UndoStep::CheckBegun => UndoStep::EnsureQuarantine,
                UndoStep::CheckLive => if dry_run {
                    UndoStep::ReportDryRun
                } else {
                    UndoStep::WriteBegun
                },
                UndoStep::WriteBegun => UndoStep::EnsureQuarantine,
                UndoStep::EnsureQuarantine => UndoStep::Quarantine,
                UndoStep::Quarantine => UndoStep::Restore,
                UndoStep::Restore => UndoStep::CheckRestored,
                UndoStep::CheckRestored => UndoStep::WriteCompleted,
                UndoStep::WriteCompleted => UndoStep::Report,
                _ => UndoStep::Failed,
            },
        },
    }
}

pub fn next_undo_step(step: UndoStep, outcome: UndoOutcome, dry_run: bool) -> (r: UndoStep)
    ensures
        r == undo_after(step, outcome, dry_run),
{
    match step {
        UndoStep::Report => UndoStep::Report,
        UndoStep::ReportDryRun => UndoStep::ReportDryRun,
        _ => match outcome {
            UndoOutcome::Failed => UndoStep::Failed,
            UndoOutcome::NotFound => match step {
                UndoStep::FindCompleted => UndoStep::CheckApplied,
                UndoStep::FindBegun => UndoStep::CheckLive,
                _ => UndoStep::Failed,
            },
            UndoOutcome::Done => match step {
                UndoStep::FindCompleted => UndoStep::CheckCompleted,
                UndoStep::CheckCompleted => UndoStep::Report,
                UndoStep::CheckApplied => UndoStep::VerifyBundle,
                UndoStep::VerifyBundle => UndoStep::FindBegun,
                UndoStep::FindBegun => {
                    if dry_run {
                        UndoStep::Failed
                    } else {
                        UndoStep::CheckBegun
                    }
                },
                UndoStep::CheckBegun => UndoStep::EnsureQuarantine,
                UndoStep::CheckLive => {
                    if dry_run {
                        UndoStep::ReportDryRun
                    } else {
                        UndoStep::WriteBegun
                    }
                },
                UndoStep::WriteBegun => UndoStep::EnsureQuarantine,
                UndoStep::EnsureQuarantine => UndoStep::Quarantine,
                UndoStep::Quarantine => UndoStep::Restore,
                UndoStep::Restore => UndoStep::CheckRestored,
                UndoStep::CheckRestored => UndoStep::WriteCompleted,
                UndoStep::WriteCompleted => UndoStep::Report,
                _ => UndoStep::Failed,
            },
        },
    }
}

/// What is reported of a dry run where an undo was begun.
pub fn begun_undo_error(run_id: &str) -> (r: BeadsError)
    ensures
        r.model() == run_error(
            "schema migration undo for run "@,
            run_id@,
            " is already prepared; rerun without --dry-run to resume it"@,
        ),
{
    about_run(
        "schema migration undo for run ",
        run_id,
        " is already prepared; rerun without --dry-run to resume it",
    )
}

/// The step at position `i` is the one that follows the step before it.
pub open spec fn undo_follows(steps: Seq<(UndoStep, UndoOutcome)>, dry_run: bool, i: int) -> bool {
    steps[i].0 == undo_after(steps[i - 1].0, steps[i - 1].1, dry_run)
}

/// A course of an undo: the steps taken, each with how it went, from the first on.
pub open spec fn undo_course(steps: Seq<(UndoStep, UndoOutcome)>, dry_run: bool) -> bool {
    &&& steps.len() > 0 ==> steps[0].0 == UndoStep::FindCompleted
    &&& forall|i: int| 0 < i < steps.len() ==> #[trigger] undo_follows(steps, dry_run, i)
}

/// The step writes, moves or brings back a file.
pub open spec fn undo_changes_files(step: UndoStep) -> bool {
    step == UndoStep::WriteBegun || step == UndoStep::EnsureQuarantine || step
        == UndoStep::Quarantine || step == UndoStep::Restore || step == UndoStep::WriteCompleted
}

/// The step was taken with success somewhere before position `end`.
pub open spec fn undone_before(
    steps: Seq<(UndoStep, UndoOutcome)>,
    step: UndoStep,
    end: int,
) -> bool {
    exists|i: int| 0 <= i < end && #[trigger] steps[i] == (step, UndoOutcome::Done)
}

spec fn behind_bundle(step: UndoStep) -> bool {
    undo_changes_files(step) || step == UndoStep::FindBegun || step == UndoStep::CheckBegun || step
        == UndoStep::CheckLive || step == UndoStep::CheckRestored
}

/// An undo moves no file before the applied receipt was accepted and the recovery bundle was
/// read back and found right.
pub proof fn law_undo_waits_for_receipts(
    steps: Seq<(UndoStep, UndoOutcome)>,
    dry_run: bool,
    at: int,
)
    requires
        undo_course(steps, dry_run),
        0 <= at < steps.len(),
        undo_changes_files(steps[at].0),
    ensures
        undone_before(steps, UndoStep::CheckApplied, at),
        undone_before(steps, UndoStep::VerifyBundle, at),
{
    lemma_behind_bundle(steps, dry_run, at);
}

proof fn lemma_behind_bundle(steps: Seq<(UndoStep, UndoOutcome)>, dry_run: bool, at: int)
    requires
        undo_course(steps, dry_run),
        0 <= at < steps.len(),
        behind_bundle(steps[at].0),
    ensures
        undone_before(steps, UndoStep::CheckApplied, at),
        undone_before(steps, UndoStep::VerifyBundle, at),
    decreases at,
{
    if at > 0 {
        assert(undo_follows(steps, dry_run, at));
        if steps[at - 1].0 == UndoStep::VerifyBundle {
            assert(steps[at - 1] == (UndoStep::VerifyBundle, UndoOutcome::Done));
            assert(undo_follows(steps, dry_run, at - 1));
            assert(steps[at - 2] == (UndoStep::CheckApplied, UndoOutcome::Done));
        } else {
            lemma_behind_bundle(steps, dry_run, at - 1);
        }
    }
}

/// A dry run changes no file.
pub proof fn law_dry_run_changes_nothing(steps: Seq<(UndoStep, UndoOutcome)>, at: int)
    requires
        undo_course(steps, true),
        0 <= at < steps.len(),
    ensures
        !undo_changes_files(steps[at].0),
    decreases at,
{
    lemma_dry_run_steps(steps, at);
}

proof fn lemma_dry_run_steps(steps: Seq<(UndoStep, UndoOutcome)>, at: int)
    requires
        undo_course(steps, true),
        0 <= at < steps.len(),
    ensures
        !undo_changes_files(steps[at].0),
        steps[at].0 != UndoStep::CheckBegun,
        steps[at].0 != UndoStep::CheckRestored,
    decreases at,
{
    if at > 0 {
        assert(undo_follows(steps, true, at));
        lemma_dry_run_steps(steps, at - 1);
    }
}

/// An undo is reported only past a check that found the old state restored exactly, now or
/// when the undo was completed before.
pub proof fn law_report_follows_a_check(
    steps: Seq<(UndoStep, UndoOutcome)>,
    dry_run: bool,
    at: int,
)
    requires
        undo_course(steps, dry_run),
        0 <= at < steps.len(),
        steps[at].0 == UndoStep::Report || steps[at].0 == UndoStep::WriteCompleted,
    ensures
        undone_before(steps, UndoStep::CheckRestored, at) || undone_before(
            steps,
            UndoStep::CheckCompleted,
            at,
        ),
    decreases at,
{
    if at > 0 {
        assert(undo_follows(steps, dry_run, at));
        if steps[at - 1].0 == UndoStep::CheckCompleted {
            assert(steps[at - 1] == (UndoStep::CheckCompleted, UndoOutcome::Done));
        } else if steps[at - 1].0 == UndoStep::CheckRestored {
            assert(steps[at - 1] == (UndoStep::CheckRestored, UndoOutcome::Done));
        } else {
            law_report_follows_a_check(steps, dry_run, at - 1);
        }
    }
}

/// How many steps it is to the report, at most.
spec fn steps_to_report(step: UndoStep) -> int {
    match step {
        UndoStep::FindCompleted => 11,
        UndoStep::CheckApplied => 10,
        UndoStep::VerifyBundle => 9,
        UndoStep::FindBegun => 8,
        UndoStep::CheckLive => 7,
        UndoStep::WriteBegun => 6,
        UndoStep::CheckBegun => 6,
        UndoStep::EnsureQuarantine => 5,
        UndoStep::Quarantine => 4,
        UndoStep::Restore => 3,
        UndoStep::CheckRestored => 2,
        UndoStep::WriteCompleted => 1,
        UndoStep::CheckCompleted => 1,
        UndoStep::Report => 0,
        _ => 100,
    }
}

/// The step went well: it was done, or it looked for a receipt that is not there.
pub open spec fn went_well(step: (UndoStep, UndoOutcome)) -> bool {
    step.1 == UndoOutcome::Done || (step.1 == UndoOutcome::NotFound && (step.0
        == UndoStep::FindCompleted || step.0 == UndoStep::FindBegun))
}

/// An undo whose steps go well is reported after at most eleven of them.
pub proof fn law_undo_that_goes_well_is_reported(steps: Seq<(UndoStep, UndoOutcome)>)
    requires
        undo_course(steps, false),
        steps.len() >= 12,
        forall|i: int| 0 <= i < steps.len() ==> went_well(#[trigger] steps[i]),
    ensures
        steps[11].0 == UndoStep::Report,
{
    lemma_steps_to_report(steps, 11);
}

proof fn lemma_steps_to_report(steps: Seq<(UndoStep, UndoOutcome)>, at: int)
    requires
        undo_course(steps, false),
        0 <= at <= 11,
        at < steps.len(),
        forall|i: int| 0 <= i < steps.len() ==> went_well(#[trigger] steps[i]),
    ensures
        steps_to_report(steps[at].0) <= 11 - at,
    decreases at,
{
    if at > 0 {
        lemma_steps_to_report(steps, at - 1);
        assert(undo_follows(steps, false, at));
        assert(went_well(steps[at - 1]));
    }
}

/// A migration that was planned, applied and attested can be undone as long as nothing has
/// changed: every receipt is accepted, the undo that begins can be resumed, and once the files
/// are back it is completed with the contents that the plan witnessed. The same undo asked for
/// again is then accepted as done.
pub proof fn law_applied_migration_can_be_undone(
    plan: PlanModel,
    db_path: Seq<char>,
    logical: LogicalModel,
    raw: Seq<ComponentModel>,
    target: u32,
    facts: PlanFacts,
    run_id: Seq<char>,
    run_dir: Seq<char>,
    marked_at: Seq<char>,
    prepared_sha256: Seq<char>,
    applied_sha256: Seq<char>,
    a: AttestationModel,
    quarantine_path: Seq<char>,
    raw_live: Seq<ComponentModel>,
    raw_restored: Seq<ComponentModel>,
)
    requires
        facts_fit(plan_route_of(logical, target), facts),
        plan_of(db_path, logical, raw, target, facts) == Ok::<PlanModel, ErrorModel>(plan),
        plan.eligible,
        attestation_errors(plan.forecast->0, a).len() == 0,
        valid_family(raw),
        valid_family(a.raw_after->Ok_0),
        valid_family(raw_live),
        valid_family(raw_restored),
        stable_components(raw_restored) == stable_components(raw),
        quarantine_check(quarantine_path, run_dir) is Ok,
    ensures
        ({
            let prepared = prepared_of(plan, run_id, marked_at);
            let applied = applied_of(prepared, prepared_sha256, a);
            let live = taken(a.logical_after);
            let begun = undo_of(
                applied,
                run_id,
                false,
                db_path,
                quarantine_path,
                applied_sha256,
                raw_live,
                live,
            );
            let done = UndoModel {
                raw_restored: Some(raw_restored),
                logical_restored: Some(logical),
                ..begun
            };
            &&& applied.attested
            &&& applied_check(applied, run_id, db_path) is Ok
            &&& applied.prepared_receipt_sha256 == prepared_sha256
            &&& receipts_agree(prepared, applied)
            &&& still_applied(applied, raw_live, live)
            &&& prepared_undo_check(begun, run_id, db_path, run_dir, applied_sha256, applied) is Ok
            &&& restored_exactly(applied, raw_restored, logical)
            &&& completed_undo_check(done, run_id, db_path) is Ok
            &&& completed_undo_state(done, run_id, run_dir, applied_sha256) is Ok
        }),
{
    law_family_check(raw, 0);
    law_family_check(a.raw_after->Ok_0, 0);
    law_family_check(raw_live, 0);
    law_family_check(raw_restored, 0);
    law_attested_means_sound(plan.forecast->0, a);
    law_eligible_plan_has_its_token(db_path, logical, raw, target, facts);
}

} // verus!
