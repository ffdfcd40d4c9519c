//! The reviewed schema migration: what a plan says, when it may be applied, what must be
//! attested, and when it can be undone.
//!
//! The database and the files are read and written elsewhere. Here stand the decisions: each
//! function takes what was observed and says what follows from it.

use crate::doctor_subsystems::apply::{require_token, token_given};
use crate::doctor_subsystems::receipts::{
    compute_plan_token, plan_token, MigrationForecast, MigrationPlanReceipt, PlanModel, PLAN_SCHEMA,
};
use crate::doctor_subsystems::witness::{
    integrity_check_is_clean, integrity_check_is_repairable, integrity_clean, integrity_repairable,
    ComponentModel, LogicalDatabaseWitness, LogicalModel, RawFamilyWitness,
};
use crate::error::{
    checked, debug_quoted, debug_text, internal, text_or_error, BeadsError, ErrorModel,
};
use crate::numbers::{decimal, decimal_text, signed_decimal, signed_decimal_text};
use crate::paths::{
    file_name, file_name_of, join_path, joined_path, path_with_file_name, with_file_name,
};
use crate::text::{chars_of, find_from, lemma_first_index, opt_str, same_text, text2, text3, text5};
use crate::time::{format_utc, utc_text};
use vstd::prelude::*;
use vstd::string::*;
use vstd::utf8::{encode_utf8, encode_utf8_decode_utf8};

verus! {

broadcast use vstd::string::group_string_axioms;

/// Whether two texts are equal, in a time that depends only on their lengths.
pub fn constant_time_text_eq(left: &str, right: &str) -> (r: bool)
    ensures
        r == (left@ == right@),
{
    let a = left.as_bytes();
    let b = right.as_bytes();
    let mut difference: usize = a.len() ^ b.len();
    let length: usize = if a.len() < b.len() {
        b.len()
    } else {
        a.len()
    };
    proof {
        let (m, n): (usize, usize) = (a@.len() as usize, b@.len() as usize);
        assert((m ^ n == 0) == (m == n)) by (bit_vector);
    }
    let mut index: usize = 0;
    while index < length
        invariant
            index <= length,
            length == if a@.len() < b@.len() { b@.len() } else { a@.len() },
            (difference == 0) == (a@.len() == b@.len() && forall|k: int|
                0 <= k < index ==> a@[k] == b@[k]),
        decreases length - index,
    {
        let left_byte: u8 = if index < a.len() {
            a[index]
        } else {
            0
        };
        let right_byte: u8 = if index < b.len() {
            b[index]
        } else {
            0
        };
        let mixed: u8 = left_byte ^ right_byte;
        proof {
            assert((left_byte ^ right_byte == 0) == (left_byte == right_byte)) by (bit_vector);
            let (d, e): (usize, usize) = (difference, mixed as usize);
            assert((d | e == 0) == (d == 0 && e == 0)) by (bit_vector);
        }
        difference = difference | (mixed as usize);
        index += 1;
    }
    proof {
        if difference == 0 {
            assert(a@ =~= b@);
        }
        encode_utf8_decode_utf8(left@);
        encode_utf8_decode_utf8(right@);
    }
    difference == 0
}

/// A run id that stays a single name below the directory of the runs.
pub open spec fn valid_run_id(run_id: Seq<char>) -> bool {
    &&& run_id.len() > 0
    &&& run_id != "."@
    &&& run_id != ".."@
    &&& forall|i: int| 0 <= i < run_id.len() ==> run_id[i] != '/' && run_id[i] != '\\'
}

pub open spec fn run_id_check(run_id: Seq<char>) -> Result<(), ErrorModel> {
    if valid_run_id(run_id) {
        Ok(())
    } else {
        Err(ErrorModel::Internal("invalid schema migration run id "@ + debug_text(run_id)))
    }
}

fn has_char(s: &str, c: char) -> (r: bool)
    ensures
        r == exists|i: int| 0 <= i < s@.len() && s@[i] == c,
{
    let chars = chars_of(s);
    let at = find_from(&chars, c, 0);
    assert(chars@.skip(0) =~= chars@);
    proof {
        lemma_first_index(s@, c);
    }
    at < chars.len()
}

pub fn validate_run_id(run_id: &str) -> (r: Result<(), BeadsError>)
    ensures
        checked(r) == run_id_check(run_id@),
{
    if run_id.is_empty() || same_text(run_id, ".") || same_text(run_id, "..") || has_char(
        run_id,
        '/',
    ) || has_char(run_id, '\\') {
        let shown = debug_quoted(run_id);
        return Err(internal(text2("invalid schema migration run id ", shown.as_str())));
    }
    Ok(())
}

/// The directory of the migration runs of a workspace.
pub open spec fn runs_root(beads_dir: Seq<char>) -> Seq<char> {
    join_path(join_path(beads_dir, ".br_recovery"@), "schema-migrations"@)
}

pub fn migration_runs_root(beads_dir: &str) -> (r: String)
    ensures
        r@ == runs_root(beads_dir@),
{
    let recovery = joined_path(beads_dir, ".br_recovery");
    joined_path(recovery.as_str(), "schema-migrations")
}

/// The id of a run: the time, the process and a counter.
pub open spec fn run_id_of(stamp: Seq<char>, pid: u32, counter: u32) -> Seq<char> {
    stamp + "-"@ + decimal(pid as nat) + "-"@ + decimal(counter as nat)
}

pub fn run_id_text(stamp: &str, pid: u32, counter: u32) -> (r: String)
    ensures
        r@ == run_id_of(stamp@, pid, counter),
{
    let process = decimal_text(pid as u64);
    let count = decimal_text(counter as u64);
    text5(stamp, "-", process.as_str(), "-", count.as_str())
}

/// The run id of an attempt at a time.
pub fn allocate_run_id(seconds: i64, nanoseconds: u32, pid: u32, counter: u32) -> (r: String)
    ensures
        r@ == run_id_of(
            utc_text(seconds as int, nanoseconds as int, "%Y%m%dT%H%M%S%.6fZ"@),
            pid,
            counter,
        ),
{
    let stamp = format_utc(seconds, nanoseconds, "%Y%m%dT%H%M%S%.6fZ");
    run_id_text(stamp.as_str(), pid, counter)
}

/// The counter of the attempt after one whose run id was taken; after a thousand of them
/// there is none.
pub fn next_run_counter(counter: u32) -> (r: Result<u32, BeadsError>)
    ensures
        match r {
            Ok(next) => counter + 1 < 1000 && next == counter + 1,
            Err(e) => counter + 1 >= 1000 && e.model() == ErrorModel::Internal(
                "could not allocate a unique schema-migration run id"@,
            ),
        },
        r is Ok <==> counter < 999,
{
    if counter < 999 {
        Ok(counter + 1)
    } else {
        Err(internal("could not allocate a unique schema-migration run id".to_owned()))
    }
}

/// Different counters give different run ids for one process at one time.
pub proof fn law_run_ids_differ(stamp: Seq<char>, pid: u32, a: u32, b: u32)
    requires
        a != b,
    ensures
        run_id_of(stamp, pid, a) != run_id_of(stamp, pid, b),
{
    let head = stamp + "-"@ + decimal(pid as nat) + "-"@;
    if run_id_of(stamp, pid, a) == run_id_of(stamp, pid, b) {
        assert(run_id_of(stamp, pid, a).skip(head.len() as int) =~= decimal(a as nat));
        assert(run_id_of(stamp, pid, b).skip(head.len() as int) =~= decimal(b as nat));
        crate::numbers::lemma_decimal_injective(a as nat, b as nat);
    }
}

/// The file into which the compacted database is written, beside the live one.
pub open spec fn candidate_path(db_path: Seq<char>, run_dir: Seq<char>) -> Result<
    Seq<char>,
    ErrorModel,
> {
    match file_name(run_dir) {
        None => Err(ErrorModel::Internal("schema migration run directory has no UTF-8 name"@)),
        Some(run_id) => match run_id_check(run_id) {
            Err(e) => Err(e),
            Ok(()) => match file_name(db_path) {
                None => Err(ErrorModel::Internal("database path has no UTF-8 file name"@)),
                Some(name) => Ok(
                    with_file_name(
                        db_path,
                        "."@ + name + ".schema-migration-"@ + run_id + ".vacuum"@,
                    ),
                ),
            },
        },
    }
}

pub fn maintenance_candidate_path(db_path: &str, run_dir: &str) -> (r: Result<String, BeadsError>)
    ensures
        text_or_error(r) == candidate_path(db_path@, run_dir@),
{
    let run_id = match file_name_of(run_dir) {
        Some(name) => name,
        None => return Err(
            internal("schema migration run directory has no UTF-8 name".to_owned()),
        ),
    };
    if let Err(e) = validate_run_id(run_id.as_str()) {
        return Err(e);
    }
    let database_name = match file_name_of(db_path) {
        Some(name) => name,
        None => return Err(internal("database path has no UTF-8 file name".to_owned())),
    };
    let name = text5(
        ".",
        database_name.as_str(),
        ".schema-migration-",
        run_id.as_str(),
        ".vacuum",
    );
    Ok(path_with_file_name(db_path, name.as_str()))
}

/// The statement that writes the compacted database.
pub open spec fn vacuum_statement(candidate: Seq<char>) -> Seq<char> {
    "VACUUM INTO '"@ + crate::text::replace_char(candidate, '\'', "''"@) + "'"@
}

pub fn vacuum_sql(candidate: &str) -> (r: String)
    ensures
        r@ == vacuum_statement(candidate@),
{
    let escaped = crate::text::replaced_char(candidate, '\'', "''");
    text3("VACUUM INTO '", escaped.as_str(), "'")
}

/// The query for a table of this name.
pub open spec fn table_query(table: Seq<char>) -> Seq<char> {
    "SELECT 1 FROM sqlite_master WHERE type='table' AND name='"@ + crate::text::replace_char(
        table,
        '\'',
        "''"@,
    ) + "' LIMIT 1"@
}

pub fn named_table_sql(table: &str) -> (r: String)
    ensures
        r@ == table_query(table@),
{
    let escaped = crate::text::replaced_char(table, '\'', "''");
    text3(
        "SELECT 1 FROM sqlite_master WHERE type='table' AND name='",
        escaped.as_str(),
        "' LIMIT 1",
    )
}

/// A database has the canonical shape where its version is the current one and its schema is
/// what the program works on.
pub fn current_runtime_shape_is_canonical(version: u32, current: u32, compatible: bool) -> (r: bool)
    ensures
        r == (version == current && compatible),
{
    version == current && compatible
}

/// The schema version of this build as an unsigned number.
pub fn current_schema_version(version: i64) -> (r: Result<u32, BeadsError>)
    ensures
        match r {
            Ok(v) => v as int == version,
            Err(e) => !(0 <= version <= u32::MAX) && e.model() == ErrorModel::Internal(
                "current schema version "@ + signed_decimal(version as int)
                    + " cannot be represented as u32"@,
            ),
        },
{
    if 0 <= version && version <= 0xffff_ffff {
        Ok(version as u32)
    } else {
        let shown = signed_decimal_text(version);
        Err(
            internal(
                text3(
                    "current schema version ",
                    shown.as_str(),
                    " cannot be represented as u32",
                ),
            ),
        )
    }
}

/// What must be read next before a plan can be made.
#[derive(Debug, Clone, Copy, PartialEq, Eq, Structural)]
pub enum PlanRoute {
    /// The schema is current: whether its shape is canonical.
    CheckShape,
    /// The schema is an older one: its tables and how many issues there are.
    ReadSource,
}

/// What was read of an older schema.
#[derive(Debug, Clone, Copy, PartialEq, Eq, Structural)]
pub struct SourceFacts {
    pub has_issues: bool,
    pub has_dirty_issues: bool,
    pub has_export_hashes: bool,
    pub issue_count: u64,
    pub has_gate_result_history: bool,
}

/// What was read for the route that was asked for.
#[derive(Debug, Clone, Copy, PartialEq, Eq, Structural)]
pub enum PlanFacts {
    Shape { canonical: bool },
    Source(SourceFacts),
}

/// A schema version that a reviewed migration starts from.
pub open spec fn reviewed_source(version: u32) -> bool {
    version == 13 || version == 14 || version == 15 || version == 16
}

pub open spec fn plan_route_of(logical: LogicalModel, target: u32) -> Result<PlanRoute, ErrorModel> {
    let from = logical.user_version;
    if from == target {
        Ok(PlanRoute::CheckShape)
    } else if !reviewed_source(from) {
        Err(
            ErrorModel::Internal(
                "reviewed schema migration is available only from source schemas 13, 14, 15, and 16 to "@
                    + decimal(target as nat) + "; observed unsupported source version "@ + decimal(
                    from as nat,
                ),
            ),
        )
    } else if !integrity_clean(logical.integrity_check) && !integrity_repairable(
        logical.integrity_check,
    ) {
        Err(
            ErrorModel::Internal(
                "schema migration refused because PRAGMA integrity_check returned diagnostics that are not eligible for reviewed page-layout maintenance: "@
                    + debug_text(logical.integrity_check),
            ),
        )
    } else {
        Ok(PlanRoute::ReadSource)
    }
}

/// The first check of a plan: which facts it needs, or why there is none.
pub fn plan_route(logical: &LogicalDatabaseWitness, target: u32) -> (r: Result<
    PlanRoute,
    BeadsError,
>)
    ensures
        match r {
            Ok(route) => plan_route_of(logical@, target) == Ok::<PlanRoute, ErrorModel>(route),
            Err(e) => plan_route_of(logical@, target) == Err::<PlanRoute, ErrorModel>(e.model()),
        },
{
    let from = logical.user_version;
    if from == target {
        return Ok(PlanRoute::CheckShape);
    }
    if !(from == 13 || from == 14 || from == 15 || from == 16) {
        let wanted = decimal_text(target as u64);
        let found = decimal_text(from as u64);
        let mut out = text3(
            "reviewed schema migration is available only from source schemas 13, 14, 15, and 16 to ",
            wanted.as_str(),
            "; observed unsupported source version ",
        );
        out.append(found.as_str());
        return Err(internal(out));
    }
    let report = logical.integrity_check.as_str();
    if !integrity_check_is_clean(report) && !integrity_check_is_repairable(report) {
        let shown = debug_quoted(report);
        return Err(
            internal(
                text2(
                    "schema migration refused because PRAGMA integrity_check returned diagnostics that are not eligible for reviewed page-layout maintenance: ",
                    shown.as_str(),
                ),
            ),
        );
    }
    Ok(PlanRoute::ReadSource)
}

/// The first table that a migration needs and does not find.
pub open spec fn missing_table(facts: SourceFacts) -> Option<Seq<char>> {
    if !facts.has_issues {
        Some("issues"@)
    } else if !facts.has_dirty_issues {
        Some("dirty_issues"@)
    } else if !facts.has_export_hashes {
        Some("export_hashes"@)
    } else {
        None
    }
}

pub open spec fn source_tables_check(facts: SourceFacts, from: u32, target: u32) -> Result<
    (),
    ErrorModel,
> {
    match missing_table(facts) {
        None => Ok(()),
        Some(table) => Err(
            ErrorModel::Internal(
                "reviewed "@ + decimal(from as nat) + "->"@ + decimal(target as nat)
                    + " migration requires table "@ + table + ", but it is absent"@,
            ),
        ),
    }
}

pub fn require_source_tables(facts: &SourceFacts, from: u32, target: u32) -> (r: Result<
    (),
    BeadsError,
>)
    ensures
        checked(r) == source_tables_check(*facts, from, target),
{
    let table = if !facts.has_issues {
        "issues"
    } else if !facts.has_dirty_issues {
        "dirty_issues"
    } else if !facts.has_export_hashes {
        "export_hashes"
    } else {
        return Ok(());
    };
    let old = decimal_text(from as u64);
    let new = decimal_text(target as u64);
    let mut out = text5(
        "reviewed ",
        old.as_str(),
        "->",
        new.as_str(),
        " migration requires table ",
    );
    out.append(table);
    out.append(", but it is absent");
    Err(internal(out))
}

/// The forecast of a page rewrite without a change of schema.
pub open spec fn maintenance_forecast(version: u32) -> MigrationForecast {
    MigrationForecast {
        from_version: version,
        to_version: version,
        content_hash_rows_rebuilt: 0,
        gate_result_history_created: false,
        post_migration_maintenance: true,
    }
}

/// The forecast of a migration: only the oldest schema has its content hashes rebuilt.
pub open spec fn migration_forecast(
    from: u32,
    target: u32,
    facts: SourceFacts,
) -> MigrationForecast {
    MigrationForecast {
        from_version: from,
        to_version: target,
        content_hash_rows_rebuilt: if from == 13 {
            facts.issue_count as usize
        } else {
            0
        },
        gate_result_history_created: !facts.has_gate_result_history,
        post_migration_maintenance: true,
    }
}

/// The note of a plan that only rewrites pages.
pub open spec fn maintenance_note() -> Seq<char> {
    "the current schema has a repairable page-layout diagnostic; apply will preserve a complete recovery bundle, checkpoint, rebuild indexes, rewrite the database pages, and require a clean fresh-connection integrity check"@
}

/// The note of a plan that has nothing to do.
pub open spec fn current_note() -> Seq<char> {
    "database already has the current canonical schema; no migration is needed"@
}

/// The note of a plan for a sound database.
pub open spec fn clean_source_note() -> Seq<char> {
    "review the forecast and retain this receipt; apply will recompute the complete logical witness and refuse semantic drift, then back up the current raw SQLite family before migration and mandatory post-migration page maintenance"@
}

/// The note of a plan for a database with page-layout diagnostics.
pub open spec fn repairable_source_note() -> Seq<char> {
    "the supported source schema has a repairable page-layout diagnostic; review the forecast and retain this receipt. Apply will recompute the complete logical witness, back up the current raw SQLite family, migrate it, run mandatory page-layout maintenance, and require a clean fresh-connection integrity check"@
}

/// A plan that can be applied, with its token.
pub open spec fn eligible_plan(
    database_path: Seq<char>,
    logical: LogicalModel,
    raw: Seq<ComponentModel>,
    forecast: MigrationForecast,
    note: Seq<char>,
) -> PlanModel {
    let token = plan_token(database_path, logical, forecast);
    PlanModel {
        schema_version: PLAN_SCHEMA@,
        eligible: true,
        database_path,
        from_version: forecast.from_version,
        to_version: forecast.to_version,
        raw_witness: raw,
        logical_witness: logical,
        forecast: Some(forecast),
        plan_token: Some(token),
        apply_command: Some("br doctor migrate-schema apply --plan-token "@ + token),
        note,
    }
}

/// The plan for what was observed, or why there is none.
pub open spec fn plan_of(
    database_path: Seq<char>,
    logical: LogicalModel,
    raw: Seq<ComponentModel>,
    target: u32,
    facts: PlanFacts,
) -> Result<PlanModel, ErrorModel> {
    match plan_route_of(logical, target) {
        Err(e) => Err(e),
        Ok(_) => plan_from_facts(database_path, logical, raw, target, facts),
    }
}

/// The plan for a database that a route was found for.
pub open spec fn plan_from_facts(
    database_path: Seq<char>,
    logical: LogicalModel,
    raw: Seq<ComponentModel>,
    target: u32,
    facts: PlanFacts,
) -> Result<PlanModel, ErrorModel> {
    let from = logical.user_version;
    let clean = integrity_clean(logical.integrity_check);
    match facts {
        PlanFacts::Shape { canonical } => if !canonical {
            Err(
                ErrorModel::Internal(
                    "database declares the current schema version but its runtime shape is not canonical; refusing to issue a migration no-op receipt"@,
                ),
            )
        } else if clean {
            Ok(
                PlanModel {
                    schema_version: PLAN_SCHEMA@,
                    eligible: false,
                    database_path,
                    from_version: from,
                    to_version: target,
                    raw_witness: raw,
                    logical_witness: logical,
                    forecast: None,
                    plan_token: None,
                    apply_command: None,
                    note: current_note(),
                },
            )
        } else if !integrity_repairable(logical.integrity_check) {
            Err(
                ErrorModel::Internal(
                    "database declares the current schema version but its integrity diagnostics are not eligible for reviewed page-layout maintenance: "@
                        + debug_text(logical.integrity_check),
                ),
            )
        } else {
            Ok(
                eligible_plan(
                    database_path,
                    logical,
                    raw,
                    maintenance_forecast(target),
                    maintenance_note(),
                ),
            )
        },
        PlanFacts::Source(source) => match source_tables_check(source, from, target) {
            Err(e) => Err(e),
            Ok(()) => if from == 13 && source.issue_count > usize::MAX {
                Err(
                    ErrorModel::Internal(
                        "issue count "@ + decimal(source.issue_count as nat)
                            + " cannot be represented on this platform"@,
                    ),
                )
            } else {
                Ok(
                    eligible_plan(
                        database_path,
                        logical,
                        raw,
                        migration_forecast(from, target, source),
                        if clean {
                            clean_source_note()
                        } else {
                            repairable_source_note()
                        },
                    ),
                )
            },
        },
    }
}

/// The facts are those that the route asks for, where it asks for any.
pub open spec fn facts_fit(route: Result<PlanRoute, ErrorModel>, facts: PlanFacts) -> bool {
    match route {
        Ok(PlanRoute::CheckShape) => facts is Shape,
        Ok(PlanRoute::ReadSource) => facts is Source,
        Err(_) => true,
    }
}

/// The plan, or what the error says.
pub open spec fn plan_or_error(r: Result<MigrationPlanReceipt, BeadsError>) -> Result<
    PlanModel,
    ErrorModel,
> {
    match r {
        Ok(p) => Ok(p@),
        Err(e) => Err(e.model()),
    }
}

fn finish_eligible_plan(
    database_path: &str,
    logical: LogicalDatabaseWitness,
    raw: RawFamilyWitness,
    forecast: MigrationForecast,
    note: &str,
) -> (r: MigrationPlanReceipt)
    ensures
        r@ == eligible_plan(database_path@, logical@, raw@, forecast, note@),
{
    let token = compute_plan_token(database_path, &logical, &forecast);
    let command = text2("br doctor migrate-schema apply --plan-token ", token.as_str());
    MigrationPlanReceipt {
        schema_version: PLAN_SCHEMA.to_owned(),
        eligible: true,
        database_path: database_path.to_owned(),
        from_version: forecast.from_version,
        to_version: forecast.to_version,
        raw_witness: raw,
        logical_witness: logical,
        forecast: Some(forecast),
        plan_token: Some(token),
        apply_command: Some(command),
        note: note.to_owned(),
    }
}

fn plan_for_current_schema(
    database_path: &str,
    logical: LogicalDatabaseWitness,
    raw: RawFamilyWitness,
    target: u32,
    canonical: bool,
) -> (r: Result<MigrationPlanReceipt, BeadsError>)
    ensures
        plan_or_error(r) == plan_from_facts(
            database_path@,
            logical@,
            raw@,
            target,
            PlanFacts::Shape { canonical },
        ),
{
    if !canonical {
        return Err(
            internal(
                "database declares the current schema version but its runtime shape is not canonical; refusing to issue a migration no-op receipt".to_owned(),
            ),
        );
    }
    if integrity_check_is_clean(logical.integrity_check.as_str()) {
        let from_version: u32 = logical.user_version;
        return Ok(
            MigrationPlanReceipt {
                schema_version: PLAN_SCHEMA.to_owned(),
                eligible: false,
                database_path: database_path.to_owned(),
                from_version,
                to_version: target,
                raw_witness: raw,
                logical_witness: logical,
                forecast: None,
                plan_token: None,
                apply_command: None,
                note: "database already has the current canonical schema; no migration is needed".to_owned(),
            },
        );
    }
    if !integrity_check_is_repairable(logical.integrity_check.as_str()) {
        let shown = debug_quoted(logical.integrity_check.as_str());
        return Err(
            internal(
                text2(
                    "database declares the current schema version but its integrity diagnostics are not eligible for reviewed page-layout maintenance: ",
                    shown.as_str(),
                ),
            ),
        );
    }
    let forecast = MigrationForecast {
        from_version: target,
        to_version: target,
        content_hash_rows_rebuilt: 0,
        gate_result_history_created: false,
        post_migration_maintenance: true,
    };
    Ok(
        finish_eligible_plan(
            database_path,
            logical,
            raw,
            forecast,
            "the current schema has a repairable page-layout diagnostic; apply will preserve a complete recovery bundle, checkpoint, rebuild indexes, rewrite the database pages, and require a clean fresh-connection integrity check",
        ),
    )
}

fn plan_for_source_schema(
    database_path: &str,
    logical: LogicalDatabaseWitness,
    raw: RawFamilyWitness,
    target: u32,
    facts: SourceFacts,
) -> (r: Result<MigrationPlanReceipt, BeadsError>)
    ensures
        plan_or_error(r) == plan_from_facts(
            database_path@,
            logical@,
            raw@,
            target,
            PlanFacts::Source(facts),
        ),
{
    let from: u32 = logical.user_version;
    if let Err(e) = require_source_tables(&facts, from, target) {
        return Err(e);
    }
    let mut rebuilt: usize = 0;
    if from == 13 {
        if facts.issue_count > usize::MAX as u64 {
            let count = decimal_text(facts.issue_count);
            return Err(
                internal(
                    text3(
                        "issue count ",
                        count.as_str(),
                        " cannot be represented on this platform",
                    ),
                ),
            );
        }
        rebuilt = facts.issue_count as usize;
    }
    let forecast = MigrationForecast {
        from_version: from,
        to_version: target,
        content_hash_rows_rebuilt: rebuilt,
        gate_result_history_created: !facts.has_gate_result_history,
        post_migration_maintenance: true,
    };
    let note = if integrity_check_is_clean(logical.integrity_check.as_str()) {
        "review the forecast and retain this receipt; apply will recompute the complete logical witness and refuse semantic drift, then back up the current raw SQLite family before migration and mandatory post-migration page maintenance"
    } else {
        "the supported source schema has a repairable page-layout diagnostic; review the forecast and retain this receipt. Apply will recompute the complete logical witness, back up the current raw SQLite family, migrate it, run mandatory page-layout maintenance, and require a clean fresh-connection integrity check"
    };
    Ok(finish_eligible_plan(database_path, logical, raw, forecast, note))
}

/// The plan for a database, from its witnesses and the facts that [`plan_route`] asked for; its
/// error where it asked for none.
pub fn build_plan(
    database_path: &str,
    logical: LogicalDatabaseWitness,
    raw: RawFamilyWitness,
    target: u32,
    facts: PlanFacts,
) -> (r: Result<MigrationPlanReceipt, BeadsError>)
    requires
        facts_fit(plan_route_of(logical@, target), facts),
    ensures
        plan_or_error(r) == plan_of(database_path@, logical@, raw@, target, facts),
{
    if let Err(e) = plan_route(&logical, target) {
        return Err(e);
    }
    match facts {
        PlanFacts::Shape { canonical } => plan_for_current_schema(
            database_path,
            logical,
            raw,
            target,
            canonical,
        ),
        PlanFacts::Source(source) => plan_for_source_schema(
            database_path,
            logical,
            raw,
            target,
            source,
        ),
    }
}

/// A plan is eligible exactly where it has a token, and the token is then that of the plan:
/// it binds the database, the witness and the forecast that the plan shows.
pub proof fn law_eligible_plan_has_its_token(
    database_path: Seq<char>,
    logical: LogicalModel,
    raw: Seq<ComponentModel>,
    target: u32,
    facts: PlanFacts,
)
    requires
        facts_fit(plan_route_of(logical, target), facts),
        plan_of(database_path, logical, raw, target, facts) is Ok,
    ensures
        ({
            let plan = plan_of(database_path, logical, raw, target, facts)->Ok_0;
            &&& plan.eligible == (plan.plan_token is Some)
            &&& plan.eligible == (plan.forecast is Some)
            &&& plan.eligible ==> plan.plan_token->0 == plan_token(
                plan.database_path,
                plan.logical_witness,
                plan.forecast->0,
            )
            &&& plan.eligible ==> plan.forecast->0.from_version == logical.user_version
                && plan.forecast->0.to_version == target
            &&& plan.database_path == database_path && plan.logical_witness == logical
                && plan.raw_witness == raw
        }),
{
}

/// Nothing is planned for a database with damage that a rewrite of the pages does not repair.
pub proof fn law_damaged_database_has_no_plan(
    database_path: Seq<char>,
    logical: LogicalModel,
    raw: Seq<ComponentModel>,
    target: u32,
    facts: PlanFacts,
)
    requires
        facts_fit(plan_route_of(logical, target), facts),
        !integrity_clean(logical.integrity_check),
        !integrity_repairable(logical.integrity_check),
    ensures
        plan_of(database_path, logical, raw, target, facts) is Err,
{
}

/// Only the raw files may differ between the plans of two observations with one token.
pub proof fn law_plan_token_ignores_file_layout(
    database_path: Seq<char>,
    logical: LogicalModel,
    raw_a: Seq<ComponentModel>,
    raw_b: Seq<ComponentModel>,
    target: u32,
    facts: PlanFacts,
)
    ensures
        match (
            plan_of(database_path, logical, raw_a, target, facts),
            plan_of(database_path, logical, raw_b, target, facts),
        ) {
            (Ok(a), Ok(b)) => a.plan_token == b.plan_token && a.forecast == b.forecast,
            (Err(a), Err(b)) => a == b,
            _ => false,
        },
{
}

/// The lines that show a plan.
pub open spec fn plan_lines(plan: PlanModel) -> Seq<Seq<char>> {
    if plan.eligible {
        seq![
            "Reviewed schema migration: "@ + decimal(plan.from_version as nat) + " -> "@ + decimal(
                plan.to_version as nat,
            ),
            "Plan token: "@ + match plan.plan_token {
                Some(t) => t,
                None => ""@,
            },
            "Apply: "@ + match plan.apply_command {
                Some(c) => c,
                None => ""@,
            },
        ]
    } else {
        seq![plan.note]
    }
}

/// The lines that show a plan to people.
pub fn emit_plan(plan: &MigrationPlanReceipt) -> (r: Vec<String>)
    ensures
        crate::text::texts(r@) == plan_lines(plan@),
{
    let mut out: Vec<String> = Vec::new();
    if plan.eligible {
        let old = decimal_text(plan.from_version as u64);
        let new = decimal_text(plan.to_version as u64);
        let mut versions = text3("Reviewed schema migration: ", old.as_str(), " -> ");
        versions.append(new.as_str());
        out.push(versions);
        let token = match &plan.plan_token {
            Some(t) => t.as_str(),
            None => "",
        };
        out.push(text2("Plan token: ", token));
        let command = match &plan.apply_command {
            Some(c) => c.as_str(),
            None => "",
        };
        out.push(text2("Apply: ", command));
    } else {
        out.push(plan.note.clone());
    }
    assert(crate::text::texts(out@) =~= plan_lines(plan@));
    out
}

/// What the command line asks of the migration.
#[derive(Debug)]
pub enum MigrateSchemaCommand {
    Plan,
    Apply { plan_token: String },
    Undo { run_id: String, dry_run: bool },
}

/// What a [`MigrateSchemaCommand`] says.
pub enum MigrateSchemaModel {
    Plan,
    Apply { plan_token: Seq<char> },
    Undo { run_id: Seq<char>, dry_run: bool },
}

impl View for MigrateSchemaCommand {
    type V = MigrateSchemaModel;

    open spec fn view(&self) -> MigrateSchemaModel {
        match self {
            MigrateSchemaCommand::Plan => MigrateSchemaModel::Plan,
            MigrateSchemaCommand::Apply { plan_token } => MigrateSchemaModel::Apply {
                plan_token: plan_token@,
            },
            MigrateSchemaCommand::Undo { run_id, dry_run } => MigrateSchemaModel::Undo {
                run_id: run_id@,
                dry_run: *dry_run,
            },
        }
    }
}

/// What is to be done, once the request itself is sound.
#[derive(Debug)]
pub enum MigrationTask {
    /// Make a plan and show it.
    Plan,
    /// Apply the plan of this token, from [`ApplyStep::Authorize`](crate::doctor_subsystems::apply::ApplyStep) on.
    Apply { token: String, runs_root: String },
    /// Undo the run in this directory.
    Undo { run_dir: String, dry_run: bool },
}

/// What a [`MigrationTask`] says.
pub enum MigrationTaskModel {
    Plan,
    Apply { token: Seq<char>, runs_root: Seq<char> },
    Undo { run_dir: Seq<char>, dry_run: bool },
}

impl View for MigrationTask {
    type V = MigrationTaskModel;

    open spec fn view(&self) -> MigrationTaskModel {
        match self {
            MigrationTask::Plan => MigrationTaskModel::Plan,
            MigrationTask::Apply { token, runs_root } => MigrationTaskModel::Apply {
                token: token@,
                runs_root: runs_root@,
            },
            MigrationTask::Undo { run_dir, dry_run } => MigrationTaskModel::Undo {
                run_dir: run_dir@,
                dry_run: *dry_run,
            },
        }
    }
}

/// What a request comes to: without a workspace there is nothing to migrate, a plan is
/// applied only with a token, and only a plain name names a run.
pub open spec fn migration_task(
    command: MigrateSchemaModel,
    beads_dir: Option<Seq<char>>,
) -> Result<MigrationTaskModel, ErrorModel> {
    match beads_dir {
        None => Err(ErrorModel::NotInitialized),
        Some(dir) => match command {
            MigrateSchemaModel::Plan => Ok(MigrationTaskModel::Plan),
            MigrateSchemaModel::Apply { plan_token } => match token_given(plan_token) {
                Err(e) => Err(e),
                Ok(token) => Ok(MigrationTaskModel::Apply { token, runs_root: runs_root(dir) }),
            },
            MigrateSchemaModel::Undo { run_id, dry_run } => match run_id_check(run_id) {
                Err(e) => Err(e),
                Ok(()) => Ok(
                    MigrationTaskModel::Undo { run_dir: join_path(runs_root(dir), run_id), dry_run },
                ),
            },
        },
    }
}

/// The task that `br doctor migrate-schema` sets in the workspace `beads_dir`.
pub fn execute(command: &MigrateSchemaCommand, beads_dir: Option<&str>) -> (r: Result<
    MigrationTask,
    BeadsError,
>)
    ensures
        match r {
            Ok(task) => migration_task(command@, opt_str(beads_dir)) == Ok::<
                MigrationTaskModel,
                ErrorModel,
            >(task@),
            Err(e) => migration_task(command@, opt_str(beads_dir)) == Err::<
                MigrationTaskModel,
                ErrorModel,
            >(e.model()),
        },
{
    let dir = match beads_dir {
        Some(dir) => dir,
        None => return Err(BeadsError::NotInitialized),
    };
    match command {
        MigrateSchemaCommand::Plan => Ok(MigrationTask::Plan),
        MigrateSchemaCommand::Apply { plan_token } => {
            match require_token(plan_token.as_str()) {
                Err(e) => Err(e),
                Ok(token) => Ok(
                    MigrationTask::Apply { token, runs_root: migration_runs_root(dir) },
                ),
            }
        },
        MigrateSchemaCommand::Undo { run_id, dry_run } => {
            if let Err(e) = validate_run_id(run_id.as_str()) {
                return Err(e);
            }
            let root = migration_runs_root(dir);
            let run_dir = joined_path(root.as_str(), run_id.as_str());
            Ok(MigrationTask::Undo { run_dir, dry_run: *dry_run })
        },
    }
}

/// A run that is undone lies directly in the directory of the runs: its id cannot lead
/// elsewhere.
pub proof fn law_run_dir_is_last_component(run_id: Seq<char>)
    requires
        valid_run_id(run_id),
    ensures
        crate::paths::components(run_id) == seq![run_id],
{
    lemma_first_index(run_id, '/');
    assert(crate::text::split(run_id, '/') =~= seq![run_id]);
    let parts = seq![run_id];
    assert(parts.drop_last() =~= Seq::<Seq<char>>::empty());
    assert(parts.last() == run_id);
    reveal_with_fuel(crate::paths::counted_parts, 2);
    assert(crate::paths::counted_parts(parts, true) =~= seq![run_id]);
}

} // verus!
