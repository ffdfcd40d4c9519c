//! The receipts of a reviewed schema migration, and the token that binds a plan.

use crate::digest::{sha256_hex, sha256_hex_text};
use crate::doctor_subsystems::witness::{
    opt_logical, opt_raw, ComponentModel, LogicalDatabaseWitness, LogicalModel, LogicalTableWitness,
    RawFamilyWitness, TableModel,
};
use crate::json::{
    json_bool, json_bool_text, json_string, json_string_text, law_json_bool_readable,
    law_json_number_readable, law_json_string_readable, lemma_cancel_front,
};
use crate::numbers::{decimal, decimal_text};
use crate::sorting::views;
use crate::text::{opt_text, texts};
use vstd::prelude::*;
use vstd::string::*;
use vstd::utf8::{encode_utf8, encode_utf8_decode_utf8};

verus! {

broadcast use vstd::string::group_string_axioms;

pub const PLAN_SCHEMA: &'static str = "br.doctor.schema_migration.plan.v1";

pub const PREPARED_SCHEMA: &'static str = "br.doctor.schema_migration.prepared.v1";

pub const APPLIED_SCHEMA: &'static str = "br.doctor.schema_migration.applied.v1";

pub const FAILED_SCHEMA: &'static str = "br.doctor.schema_migration.failed.v1";

pub const UNDO_SCHEMA: &'static str = "br.doctor.schema_migration.undo.v1";

/// What a migration is expected to do.
#[derive(Debug, Clone, Copy, PartialEq, Eq, Structural)]
pub struct MigrationForecast {
    pub from_version: u32,
    pub to_version: u32,
    pub content_hash_rows_rebuilt: usize,
    pub gate_result_history_created: bool,
    pub post_migration_maintenance: bool,
}

/// What a migration did.
#[derive(Debug, Clone, Copy, PartialEq, Eq, Structural)]
pub struct ReviewedSchemaMigrationEffectsReceipt {
    pub from_version: u32,
    pub to_version: u32,
    pub content_hash_rows_rebuilt: usize,
    pub gate_result_history_created: bool,
    pub post_migration_maintenance_completed: bool,
}

/// A plan: what would be migrated, and the token that binds it.
#[derive(Debug)]
pub struct MigrationPlanReceipt {
    pub schema_version: String,
    pub eligible: bool,
    pub database_path: String,
    pub from_version: u32,
    pub to_version: u32,
    pub raw_witness: RawFamilyWitness,
    pub logical_witness: LogicalDatabaseWitness,
    pub forecast: Option<MigrationForecast>,
    pub plan_token: Option<String>,
    pub apply_command: Option<String>,
    pub note: String,
}

/// What a plan says.
#[verifier::ext_equal]
pub struct PlanModel {
    pub schema_version: Seq<char>,
    pub eligible: bool,
    pub database_path: Seq<char>,
    pub from_version: u32,
    pub to_version: u32,
    pub raw_witness: Seq<ComponentModel>,
    pub logical_witness: LogicalModel,
    pub forecast: Option<MigrationForecast>,
    pub plan_token: Option<Seq<char>>,
    pub apply_command: Option<Seq<char>>,
    pub note: Seq<char>,
}

impl View for MigrationPlanReceipt {
    type V = PlanModel;

    open spec fn view(&self) -> PlanModel {
        PlanModel {
            schema_version: self.schema_version@,
            eligible: self.eligible,
            database_path: self.database_path@,
            from_version: self.from_version,
            to_version: self.to_version,
            raw_witness: self.raw_witness@,
            logical_witness: self.logical_witness@,
            forecast: self.forecast,
            plan_token: opt_text(self.plan_token),
            apply_command: opt_text(self.apply_command),
            note: self.note@,
        }
    }
}

/// Written before the migration starts.
#[derive(Debug)]
pub struct PreparedMigrationReceipt {
    pub schema_version: String,
    pub run_id: String,
    pub database_path: String,
    pub plan_token: String,
    pub marked_at: String,
    pub forecast: MigrationForecast,
    pub raw_before: RawFamilyWitness,
    pub logical_before: LogicalDatabaseWitness,
}

/// What a prepared receipt says.
#[verifier::ext_equal]
pub struct PreparedModel {
    pub schema_version: Seq<char>,
    pub run_id: Seq<char>,
    pub database_path: Seq<char>,
    pub plan_token: Seq<char>,
    pub marked_at: Seq<char>,
    pub forecast: MigrationForecast,
    pub raw_before: Seq<ComponentModel>,
    pub logical_before: LogicalModel,
}

impl View for PreparedMigrationReceipt {
    type V = PreparedModel;

    open spec fn view(&self) -> PreparedModel {
        PreparedModel {
            schema_version: self.schema_version@,
            run_id: self.run_id@,
            database_path: self.database_path@,
            plan_token: self.plan_token@,
            marked_at: self.marked_at@,
            forecast: self.forecast,
            raw_before: self.raw_before@,
            logical_before: self.logical_before@,
        }
    }
}

/// Written when the migration has committed.
#[derive(Debug)]
pub struct AppliedMigrationReceipt {
    pub schema_version: String,
    pub run_id: String,
    pub database_path: String,
    pub plan_token: String,
    pub prepared_receipt_sha256: String,
    pub marked_at: String,
    pub forecast: MigrationForecast,
    pub effects: ReviewedSchemaMigrationEffectsReceipt,
    pub raw_before: RawFamilyWitness,
    pub logical_before: LogicalDatabaseWitness,
    pub raw_after: Option<RawFamilyWitness>,
    pub logical_after: Option<LogicalDatabaseWitness>,
    pub attested: bool,
    pub attestation_errors: Vec<String>,
    pub undo_command: String,
}

/// What an applied receipt says.
#[verifier::ext_equal]
pub struct AppliedModel {
    pub schema_version: Seq<char>,
    pub run_id: Seq<char>,
    pub database_path: Seq<char>,
    pub plan_token: Seq<char>,
    pub prepared_receipt_sha256: Seq<char>,
    pub marked_at: Seq<char>,
    pub forecast: MigrationForecast,
    pub effects: ReviewedSchemaMigrationEffectsReceipt,
    pub raw_before: Seq<ComponentModel>,
    pub logical_before: LogicalModel,
    pub raw_after: Option<Seq<ComponentModel>>,
    pub logical_after: Option<LogicalModel>,
    pub attested: bool,
    pub attestation_errors: Seq<Seq<char>>,
    pub undo_command: Seq<char>,
}

impl View for AppliedMigrationReceipt {
    type V = AppliedModel;

    open spec fn view(&self) -> AppliedModel {
        AppliedModel {
            schema_version: self.schema_version@,
            run_id: self.run_id@,
            database_path: self.database_path@,
            plan_token: self.plan_token@,
            prepared_receipt_sha256: self.prepared_receipt_sha256@,
            marked_at: self.marked_at@,
            forecast: self.forecast,
            effects: self.effects,
            raw_before: self.raw_before@,
            logical_before: self.logical_before@,
            raw_after: opt_raw(self.raw_after),
            logical_after: opt_logical(self.logical_after),
            attested: self.attested,
            attestation_errors: texts(self.attestation_errors@),
            undo_command: self.undo_command@,
        }
    }
}

/// Written when the migration failed.
#[derive(Debug)]
pub struct FailedMigrationReceipt {
    pub schema_version: String,
    pub run_id: String,
    pub database_path: String,
    pub plan_token: String,
    pub marked_at: String,
    pub error: String,
    pub raw_before: RawFamilyWitness,
    pub logical_before: LogicalDatabaseWitness,
    pub raw_observed_after_failure: Option<RawFamilyWitness>,
    pub logical_observed_after_failure: Option<LogicalDatabaseWitness>,
}

/// What a failed receipt says.
#[verifier::ext_equal]
pub struct FailedModel {
    pub schema_version: Seq<char>,
    pub run_id: Seq<char>,
    pub database_path: Seq<char>,
    pub plan_token: Seq<char>,
    pub marked_at: Seq<char>,
    pub error: Seq<char>,
    pub raw_before: Seq<ComponentModel>,
    pub logical_before: LogicalModel,
    pub raw_observed_after_failure: Option<Seq<ComponentModel>>,
    pub logical_observed_after_failure: Option<LogicalModel>,
}

impl View for FailedMigrationReceipt {
    type V = FailedModel;

    open spec fn view(&self) -> FailedModel {
        FailedModel {
            schema_version: self.schema_version@,
            run_id: self.run_id@,
            database_path: self.database_path@,
            plan_token: self.plan_token@,
            marked_at: self.marked_at@,
            error: self.error@,
            raw_before: self.raw_before@,
            logical_before: self.logical_before@,
            raw_observed_after_failure: opt_raw(self.raw_observed_after_failure),
            logical_observed_after_failure: opt_logical(self.logical_observed_after_failure),
        }
    }
}

/// Written when an undo is prepared, and again, completed, when it is done.
#[derive(Debug)]
pub struct UndoReceipt {
    pub schema_version: String,
    pub run_id: String,
    pub dry_run: bool,
    pub database_path: String,
    pub quarantine_path: String,
    pub applied_receipt_sha256: String,
    pub raw_expected_before: RawFamilyWitness,
    pub logical_expected_before: LogicalDatabaseWitness,
    pub raw_live_before_undo: RawFamilyWitness,
    pub logical_live_before_undo: Option<LogicalDatabaseWitness>,
    pub raw_restored: Option<RawFamilyWitness>,
    pub logical_restored: Option<LogicalDatabaseWitness>,
}

/// What an undo receipt says.
#[verifier::ext_equal]
pub struct UndoModel {
    pub schema_version: Seq<char>,
    pub run_id: Seq<char>,
    pub dry_run: bool,
    pub database_path: Seq<char>,
    pub quarantine_path: Seq<char>,
    pub applied_receipt_sha256: Seq<char>,
    pub raw_expected_before: Seq<ComponentModel>,
    pub logical_expected_before: LogicalModel,
    pub raw_live_before_undo: Seq<ComponentModel>,
    pub logical_live_before_undo: Option<LogicalModel>,
    pub raw_restored: Option<Seq<ComponentModel>>,
    pub logical_restored: Option<LogicalModel>,
}

impl View for UndoReceipt {
    type V = UndoModel;

    open spec fn view(&self) -> UndoModel {
        UndoModel {
            schema_version: self.schema_version@,
            run_id: self.run_id@,
            dry_run: self.dry_run,
            database_path: self.database_path@,
            quarantine_path: self.quarantine_path@,
            applied_receipt_sha256: self.applied_receipt_sha256@,
            raw_expected_before: self.raw_expected_before@,
            logical_expected_before: self.logical_expected_before@,
            raw_live_before_undo: self.raw_live_before_undo@,
            logical_live_before_undo: opt_logical(self.logical_live_before_undo),
            raw_restored: opt_raw(self.raw_restored),
            logical_restored: opt_logical(self.logical_restored),
        }
    }
}

/// A table witness in the token material.
pub open spec fn table_json(t: TableModel) -> Seq<char> {
    "{\"name\":"@ + json_string(t.name) + ",\"row_count\":"@ + decimal(t.row_count as nat)
        + ",\"rows_sha256\":"@ + json_string(t.rows_sha256) + "}"@
}

/// The table witnesses in the token material, with commas between them.
pub open spec fn tables_json(tables: Seq<TableModel>) -> Seq<char>
    decreases tables.len(),
{
    if tables.len() == 0 {
        Seq::empty()
    } else if tables.len() == 1 {
        table_json(tables[0])
    } else {
        tables_json(tables.drop_last()) + ","@ + table_json(tables.last())
    }
}

/// A database witness in the token material.
pub open spec fn logical_json(w: LogicalModel) -> Seq<char> {
    "{\"user_version\":"@ + decimal(w.user_version as nat) + ",\"integrity_check\":"@
        + json_string(w.integrity_check) + ",\"schema_sha256\":"@ + json_string(w.schema_sha256)
        + ",\"contents_sha256\":"@ + json_string(w.contents_sha256) + ",\"tables\":["@
        + tables_json(w.tables) + "]}"@
}

/// The last field of a forecast, which is left out where it is false.
pub open spec fn maintenance_json(maintenance: bool) -> Seq<char> {
    if maintenance {
        ",\"post_migration_maintenance\":true}"@
    } else {
        "}"@
    }
}

/// A forecast in the token material.
pub open spec fn forecast_json(f: MigrationForecast) -> Seq<char> {
    "{\"from_version\":"@ + decimal(f.from_version as nat) + ",\"to_version\":"@ + decimal(
        f.to_version as nat,
    ) + ",\"content_hash_rows_rebuilt\":"@ + decimal(f.content_hash_rows_rebuilt as nat)
        + ",\"gate_result_history_created\":"@ + json_bool(f.gate_result_history_created)
        + maintenance_json(f.post_migration_maintenance)
}

/// The text under a plan token: the contract, the database and everything reviewed.
pub open spec fn token_material(
    database_path: Seq<char>,
    logical: LogicalModel,
    forecast: MigrationForecast,
) -> Seq<char> {
    "{\"contract\":"@ + json_string(PLAN_SCHEMA@) + ",\"database_path\":"@ + json_string(
        database_path,
    ) + ",\"from_version\":"@ + decimal(forecast.from_version as nat) + ",\"to_version\":"@
        + decimal(forecast.to_version as nat) + ",\"logical_witness\":"@ + logical_json(logical)
        + ",\"forecast\":"@ + forecast_json(forecast) + "}"@
}

/// The token of a plan: the digest of its material.
pub open spec fn plan_token(
    database_path: Seq<char>,
    logical: LogicalModel,
    forecast: MigrationForecast,
) -> Seq<char> {
    sha256_hex(encode_utf8(token_material(database_path, logical, forecast)))
}

fn append_number(out: &mut String, n: u64)
    ensures
        final(out)@ == old(out)@ + decimal(n as nat),
{
    let digits = decimal_text(n);
    out.append(digits.as_str());
}

fn append_string(out: &mut String, s: &str)
    ensures
        final(out)@ == old(out)@ + json_string(s@),
{
    let quoted = json_string_text(s);
    out.append(quoted.as_str());
}

fn append_table(out: &mut String, t: &LogicalTableWitness)
    ensures
        final(out)@ == old(out)@ + table_json(t@),
{
    out.append("{\"name\":");
    append_string(out, t.name.as_str());
    out.append(",\"row_count\":");
    append_number(out, t.row_count);
    out.append(",\"rows_sha256\":");
    append_string(out, t.rows_sha256.as_str());
    out.append("}");
    assert(out@ =~= old(out)@ + table_json(t@));
}

fn append_logical(out: &mut String, w: &LogicalDatabaseWitness)
    ensures
        final(out)@ == old(out)@ + logical_json(w@),
{
    out.append("{\"user_version\":");
    append_number(out, w.user_version as u64);
    out.append(",\"integrity_check\":");
    append_string(out, w.integrity_check.as_str());
    out.append(",\"schema_sha256\":");
    append_string(out, w.schema_sha256.as_str());
    out.append(",\"contents_sha256\":");
    append_string(out, w.contents_sha256.as_str());
    out.append(",\"tables\":[");
    let ghost head = out@;
    let ghost all = views(w.tables@);
    let mut i: usize = 0;
    assert(head =~= head + tables_json(all.take(0)));
    while i < w.tables.len()
        invariant
            i <= w.tables@.len(),
            all == views(w.tables@),
            out@ == head + tables_json(all.take(i as int)),
        decreases w.tables@.len() - i,
    {
        assert(all.take(i + 1).drop_last() =~= all.take(i as int));
        assert(all.take(i + 1).last() == w.tables@[i as int]@);
        if i > 0 {
            out.append(",");
        }
        append_table(out, &w.tables[i]);
        i += 1;
        assert(out@ =~= head + tables_json(all.take(i as int)));
    }
    assert(all.take(all.len() as int) =~= all);
    out.append("]}");
    assert(out@ =~= old(out)@ + logical_json(w@));
}

fn append_forecast(out: &mut String, f: &MigrationForecast)
    ensures
        final(out)@ == old(out)@ + forecast_json(*f),
{
    out.append("{\"from_version\":");
    append_number(out, f.from_version as u64);
    out.append(",\"to_version\":");
    append_number(out, f.to_version as u64);
    out.append(",\"content_hash_rows_rebuilt\":");
    append_number(out, f.content_hash_rows_rebuilt as u64);
    out.append(",\"gate_result_history_created\":");
    out.append(json_bool_text(f.gate_result_history_created));
    if f.post_migration_maintenance {
        out.append(",\"post_migration_maintenance\":true}");
    } else {
        out.append("}");
    }
    assert(out@ =~= old(out)@ + forecast_json(*f));
}

/// The token that binds a plan to the database and to everything that was reviewed.
pub fn compute_plan_token(
    database_path: &str,
    logical: &LogicalDatabaseWitness,
    forecast: &MigrationForecast,
) -> (r: String)
    ensures
        r@ == plan_token(database_path@, logical@, *forecast),
        r@.len() == 64,
        crate::numbers::lower_hex(r@),
{
    let mut out: String = "{\"contract\":".to_owned();
    append_string(&mut out, PLAN_SCHEMA);
    out.append(",\"database_path\":");
    append_string(&mut out, database_path);
    out.append(",\"from_version\":");
    append_number(&mut out, forecast.from_version as u64);
    out.append(",\"to_version\":");
    append_number(&mut out, forecast.to_version as u64);
    out.append(",\"logical_witness\":");
    append_logical(&mut out, logical);
    out.append(",\"forecast\":");
    append_forecast(&mut out, forecast);
    out.append("}");
    assert(out@ =~= token_material(database_path@, logical@, *forecast));
    sha256_hex_text(out.as_str().as_bytes())
}

proof fn lemma_table_readable(a: TableModel, b: TableModel, x: Seq<char>, y: Seq<char>)
    requires
        table_json(a) + x == table_json(b) + y,
    ensures
        a == b,
        x == y,
{
    reveal_strlit(",\"rows_sha256\":");
    let l0 = "{\"name\":"@;
    let l1 = ",\"row_count\":"@;
    let l2 = ",\"rows_sha256\":"@;
    let l3 = "}"@;
    let (a3, b3) = (l3 + x, l3 + y);
    let (a2, b2) = (
        l2 + (json_string(a.rows_sha256) + a3),
        l2 + (json_string(b.rows_sha256) + b3),
    );
    let (a1, b1) = (
        l1 + (decimal(a.row_count as nat) + a2),
        l1 + (decimal(b.row_count as nat) + b2),
    );
    assert(table_json(a) + x =~= l0 + (json_string(a.name) + a1));
    assert(table_json(b) + y =~= l0 + (json_string(b.name) + b1));
    lemma_cancel_front(l0, json_string(a.name) + a1, json_string(b.name) + b1);
    law_json_string_readable(a.name, b.name, a1, b1);
    lemma_cancel_front(l1, decimal(a.row_count as nat) + a2, decimal(b.row_count as nat) + b2);
    law_json_number_readable(a.row_count as nat, b.row_count as nat, a2, b2);
    lemma_cancel_front(l2, json_string(a.rows_sha256) + a3, json_string(b.rows_sha256) + b3);
    law_json_string_readable(a.rows_sha256, b.rows_sha256, a3, b3);
    lemma_cancel_front(l3, x, y);
}

/// The tables behind the first, with the comma before them.
spec fn more_tables(tables: Seq<TableModel>) -> Seq<char> {
    if tables.len() <= 1 {
        Seq::empty()
    } else {
        ","@ + tables_json(tables.skip(1))
    }
}

proof fn lemma_tables_front(tables: Seq<TableModel>)
    requires
        tables.len() > 0,
    ensures
        tables_json(tables) == table_json(tables[0]) + more_tables(tables),
    decreases tables.len(),
{
    if tables.len() == 1 {
        assert(tables_json(tables) =~= table_json(tables[0]) + more_tables(tables));
    } else {
        let init = tables.drop_last();
        lemma_tables_front(init);
        assert(init[0] == tables[0]);
        if init.len() == 1 {
            assert(tables.skip(1) =~= seq![tables.last()]);
        } else {
            assert(init.skip(1) =~= tables.skip(1).drop_last());
            assert(tables.skip(1).last() == tables.last());
        }
        assert(tables_json(tables) =~= table_json(tables[0]) + more_tables(tables));
    }
}

proof fn lemma_tables_first_char(tables: Seq<TableModel>, x: Seq<char>)
    ensures
        (tables_json(tables) + "]}"@ + x)[0] == if tables.len() > 0 {
            '{'
        } else {
            ']'
        },
{
    reveal_strlit("]}");
    if tables.len() > 0 {
        reveal_strlit("{\"name\":");
        lemma_tables_front(tables);
        assert(table_json(tables[0])[0] == '{');
    } else {
        assert(tables_json(tables) + "]}"@ + x =~= "]}"@ + x);
    }
}

proof fn lemma_more_tables_first_char(tables: Seq<TableModel>, x: Seq<char>)
    ensures
        (more_tables(tables) + "]}"@ + x)[0] == if tables.len() > 1 {
            ','
        } else {
            ']'
        },
{
    reveal_strlit("]}");
    reveal_strlit(",");
    if tables.len() <= 1 {
        assert(more_tables(tables) + "]}"@ + x =~= "]}"@ + x);
    }
}

proof fn lemma_tables_step(tables: Seq<TableModel>, x: Seq<char>)
    requires
        tables.len() > 0,
    ensures
        tables_json(tables) + "]}"@ + x == table_json(tables[0]) + (more_tables(tables) + "]}"@
            + x),
{
    lemma_tables_front(tables);
    let (t, m, e) = (table_json(tables[0]), more_tables(tables), "]}"@);
    lemma_regroup(t, m, e);
    lemma_regroup(t, m + e, x);
}

proof fn lemma_tables_readable(
    a: Seq<TableModel>,
    b: Seq<TableModel>,
    x: Seq<char>,
    y: Seq<char>,
)
    requires
        tables_json(a) + "]}"@ + x == tables_json(b) + "]}"@ + y,
    ensures
        a == b,
        x == y,
    decreases a.len(),
{
    let end = "]}"@;
    lemma_tables_first_char(a, x);
    lemma_tables_first_char(b, y);
    if a.len() > 0 {
        let (a1, b1) = (more_tables(a) + end + x, more_tables(b) + end + y);
        lemma_tables_step(a, x);
        lemma_tables_step(b, y);
        lemma_table_readable(a[0], b[0], a1, b1);
        lemma_more_tables_first_char(a, x);
        lemma_more_tables_first_char(b, y);
        if a.len() > 1 {
            let (ra, rb) = (tables_json(a.skip(1)), tables_json(b.skip(1)));
            lemma_regroup(","@, ra, end);
            lemma_regroup(","@, ra + end, x);
            lemma_regroup(","@, rb, end);
            lemma_regroup(","@, rb + end, y);
            lemma_cancel_front(","@, ra + end + x, rb + end + y);
            lemma_tables_readable(a.skip(1), b.skip(1), x, y);
        } else {
            assert(a1 =~= end + x);
            assert(b1 =~= end + y);
            lemma_cancel_front(end, x, y);
            assert(a.skip(1) =~= b.skip(1));
        }
        assert(a =~= seq![a[0]] + a.skip(1));
        assert(b =~= seq![b[0]] + b.skip(1));
    } else {
        assert(tables_json(a) + end + x =~= end + x);
        assert(tables_json(b) + end + y =~= end + y);
        lemma_cancel_front(end, x, y);
        assert(a =~= b);
    }
}

proof fn lemma_regroup(a: Seq<char>, b: Seq<char>, c: Seq<char>)
    ensures
        a + b + c == a + (b + c),
{
    assert(a + b + c =~= a + (b + c));
}

proof fn lemma_logical_layout(w: LogicalModel, x: Seq<char>)
    ensures
        logical_json(w) + x == "{\"user_version\":"@ + (decimal(w.user_version as nat) + (
        ",\"integrity_check\":"@ + (json_string(w.integrity_check) + (",\"schema_sha256\":"@ + (
        json_string(w.schema_sha256) + (",\"contents_sha256\":"@ + (json_string(w.contents_sha256)
            + (",\"tables\":["@ + (tables_json(w.tables) + ("]}"@ + x)))))))))),
{
    let l0 = "{\"user_version\":"@;
    let l1 = ",\"integrity_check\":"@;
    let l2 = ",\"schema_sha256\":"@;
    let l3 = ",\"contents_sha256\":"@;
    let l4 = ",\"tables\":["@;
    let d = decimal(w.user_version as nat);
    let i = json_string(w.integrity_check);
    let s = json_string(w.schema_sha256);
    let c = json_string(w.contents_sha256);
    let t = tables_json(w.tables);
    let e = "]}"@;
    lemma_regroup(l0 + d + l1 + i + l2 + s + l3 + c + l4 + t, e, x);
    lemma_regroup(l0 + d + l1 + i + l2 + s + l3 + c + l4, t, (e + x));
    lemma_regroup(l0 + d + l1 + i + l2 + s + l3 + c, l4, (t + (e + x)));
    lemma_regroup(l0 + d + l1 + i + l2 + s + l3, c, (l4 + (t + (e + x))));
    lemma_regroup(l0 + d + l1 + i + l2 + s, l3, (c + (l4 + (t + (e + x)))));
    lemma_regroup(l0 + d + l1 + i + l2, s, (l3 + (c + (l4 + (t + (e + x))))));
    lemma_regroup(l0 + d + l1 + i, l2, (s + (l3 + (c + (l4 + (t + (e + x)))))));
    lemma_regroup(l0 + d + l1, i, (l2 + (s + (l3 + (c + (l4 + (t + (e + x))))))));
    lemma_regroup(l0 + d, l1, (i + (l2 + (s + (l3 + (c + (l4 + (t + (e + x)))))))));
    lemma_regroup(l0, d, (l1 + (i + (l2 + (s + (l3 + (c + (l4 + (t + (e + x))))))))));
}

proof fn lemma_logical_readable(a: LogicalModel, b: LogicalModel, x: Seq<char>, y: Seq<char>)
    requires
        logical_json(a) + x == logical_json(b) + y,
    ensures
        a == b,
        x == y,
{
    reveal_strlit(",\"integrity_check\":");
    let l0 = "{\"user_version\":"@;
    let l1 = ",\"integrity_check\":"@;
    let l2 = ",\"schema_sha256\":"@;
    let l3 = ",\"contents_sha256\":"@;
    let l4 = ",\"tables\":["@;
    let (a4, b4) = (
        tables_json(a.tables) + ("]}"@ + x),
        tables_json(b.tables) + ("]}"@ + y),
    );
    let (a3, b3) = (json_string(a.contents_sha256) + (l4 + a4), json_string(b.contents_sha256) + (l4
        + b4));
    let (a2, b2) = (json_string(a.schema_sha256) + (l3 + a3), json_string(b.schema_sha256) + (l3
        + b3));
    let (a1, b1) = (json_string(a.integrity_check) + (l2 + a2), json_string(b.integrity_check) + (l2
        + b2));
    let (a0, b0) = (
        decimal(a.user_version as nat) + (l1 + a1),
        decimal(b.user_version as nat) + (l1 + b1),
    );
    lemma_logical_layout(a, x);
    lemma_logical_layout(b, y);
    lemma_cancel_front(l0, a0, b0);
    law_json_number_readable(a.user_version as nat, b.user_version as nat, l1 + a1, l1 + b1);
    lemma_cancel_front(l1, a1, b1);
    law_json_string_readable(a.integrity_check, b.integrity_check, l2 + a2, l2 + b2);
    lemma_cancel_front(l2, a2, b2);
    law_json_string_readable(a.schema_sha256, b.schema_sha256, l3 + a3, l3 + b3);
    lemma_cancel_front(l3, a3, b3);
    law_json_string_readable(a.contents_sha256, b.contents_sha256, l4 + a4, l4 + b4);
    lemma_cancel_front(l4, a4, b4);
    lemma_regroup(tables_json(a.tables), "]}"@, x);
    lemma_regroup(tables_json(b.tables), "]}"@, y);
    lemma_tables_readable(a.tables, b.tables, x, y);
}

proof fn lemma_forecast_layout(w: MigrationForecast)
    ensures
        forecast_json(w) + "}"@ == "{\"from_version\":"@ + (decimal(w.from_version as nat) + (
        ",\"to_version\":"@ + (decimal(w.to_version as nat) + (",\"content_hash_rows_rebuilt\":"@ + (
        decimal(w.content_hash_rows_rebuilt as nat) + (",\"gate_result_history_created\":"@ + (
        json_bool(w.gate_result_history_created) + (maintenance_json(w.post_migration_maintenance)
            + "}"@)))))))),
{
    let l0 = "{\"from_version\":"@;
    let l1 = ",\"to_version\":"@;
    let l2 = ",\"content_hash_rows_rebuilt\":"@;
    let l3 = ",\"gate_result_history_created\":"@;
    let f = decimal(w.from_version as nat);
    let t = decimal(w.to_version as nat);
    let c = decimal(w.content_hash_rows_rebuilt as nat);
    let g = json_bool(w.gate_result_history_created);
    let m = maintenance_json(w.post_migration_maintenance);
    lemma_regroup(l0 + f + l1 + t + l2 + c + l3 + g, m, "}"@);
    lemma_regroup(l0 + f + l1 + t + l2 + c + l3, g, (m + "}"@));
    lemma_regroup(l0 + f + l1 + t + l2 + c, l3, (g + (m + "}"@)));
    lemma_regroup(l0 + f + l1 + t + l2, c, (l3 + (g + (m + "}"@))));
    lemma_regroup(l0 + f + l1 + t, l2, (c + (l3 + (g + (m + "}"@)))));
    lemma_regroup(l0 + f + l1, t, (l2 + (c + (l3 + (g + (m + "}"@))))));
    lemma_regroup(l0 + f, l1, (t + (l2 + (c + (l3 + (g + (m + "}"@)))))));
    lemma_regroup(l0, f, (l1 + (t + (l2 + (c + (l3 + (g + (m + "}"@))))))));
}

proof fn lemma_forecast_readable(a: MigrationForecast, b: MigrationForecast)
    requires
        forecast_json(a) + "}"@ == forecast_json(b) + "}"@,
    ensures
        a == b,
{
    reveal_strlit(",\"to_version\":");
    reveal_strlit(",\"content_hash_rows_rebuilt\":");
    reveal_strlit(",\"gate_result_history_created\":");
    reveal_strlit(",\"post_migration_maintenance\":true}");
    reveal_strlit("}");
    let l0 = "{\"from_version\":"@;
    let l1 = ",\"to_version\":"@;
    let l2 = ",\"content_hash_rows_rebuilt\":"@;
    let l3 = ",\"gate_result_history_created\":"@;
    let (a4, b4) = (
        maintenance_json(a.post_migration_maintenance) + "}"@,
        maintenance_json(b.post_migration_maintenance) + "}"@,
    );
    let (a3, b3) = (
        json_bool(a.gate_result_history_created) + a4,
        json_bool(b.gate_result_history_created) + b4,
    );
    let (a2, b2) = (
        decimal(a.content_hash_rows_rebuilt as nat) + (l3 + a3),
        decimal(b.content_hash_rows_rebuilt as nat) + (l3 + b3),
    );
    let (a1, b1) = (
        decimal(a.to_version as nat) + (l2 + a2),
        decimal(b.to_version as nat) + (l2 + b2),
    );
    let (a0, b0) = (
        decimal(a.from_version as nat) + (l1 + a1),
        decimal(b.from_version as nat) + (l1 + b1),
    );
    lemma_forecast_layout(a);
    lemma_forecast_layout(b);
    lemma_cancel_front(l0, a0, b0);
    law_json_number_readable(a.from_version as nat, b.from_version as nat, l1 + a1, l1 + b1);
    lemma_cancel_front(l1, a1, b1);
    law_json_number_readable(a.to_version as nat, b.to_version as nat, l2 + a2, l2 + b2);
    lemma_cancel_front(l2, a2, b2);
    law_json_number_readable(
        a.content_hash_rows_rebuilt as nat,
        b.content_hash_rows_rebuilt as nat,
        l3 + a3,
        l3 + b3,
    );
    lemma_cancel_front(l3, a3, b3);
    law_json_bool_readable(
        a.gate_result_history_created,
        b.gate_result_history_created,
        a4,
        b4,
    );
    assert(a4[0] == if a.post_migration_maintenance {
        ','
    } else {
        '}'
    });
    assert(b4[0] == if b.post_migration_maintenance {
        ','
    } else {
        '}'
    });
}

proof fn lemma_material_layout(path: Seq<char>, logical: LogicalModel, forecast: MigrationForecast)
    ensures
        token_material(path, logical, forecast) == ("{\"contract\":"@ + json_string(PLAN_SCHEMA@)
            + ",\"database_path\":"@) + (json_string(path) + (",\"from_version\":"@ + (decimal(
            forecast.from_version as nat,
        ) + (",\"to_version\":"@ + (decimal(forecast.to_version as nat) + (",\"logical_witness\":"@ + (
        logical_json(logical) + (",\"forecast\":"@ + (forecast_json(forecast) + "}"@))))))))),
{
    let l0 = "{\"contract\":"@ + json_string(PLAN_SCHEMA@) + ",\"database_path\":"@;
    let l1 = ",\"from_version\":"@;
    let l2 = ",\"to_version\":"@;
    let l3 = ",\"logical_witness\":"@;
    let l4 = ",\"forecast\":"@;
    let p = json_string(path);
    let f = decimal(forecast.from_version as nat);
    let t = decimal(forecast.to_version as nat);
    let w = logical_json(logical);
    let c = forecast_json(forecast);
    lemma_regroup(l0 + p + l1 + f + l2 + t + l3 + w + l4, c, "}"@);
    lemma_regroup(l0 + p + l1 + f + l2 + t + l3 + w, l4, (c + "}"@));
    lemma_regroup(l0 + p + l1 + f + l2 + t + l3, w, (l4 + (c + "}"@)));
    lemma_regroup(l0 + p + l1 + f + l2 + t, l3, (w + (l4 + (c + "}"@))));
    lemma_regroup(l0 + p + l1 + f + l2, t, (l3 + (w + (l4 + (c + "}"@)))));
    lemma_regroup(l0 + p + l1 + f, l2, (t + (l3 + (w + (l4 + (c + "}"@))))));
    lemma_regroup(l0 + p + l1, f, (l2 + (t + (l3 + (w + (l4 + (c + "}"@)))))));
    lemma_regroup(l0 + p, l1, (f + (l2 + (t + (l3 + (w + (l4 + (c + "}"@))))))));
    lemma_regroup(l0, p, (l1 + (f + (l2 + (t + (l3 + (w + (l4 + (c + "}"@)))))))));
}

/// The token material determines the plan: the database, every part of its logical witness
/// and every part of the forecast.
pub proof fn law_token_material_binds_plan(
    path_a: Seq<char>,
    path_b: Seq<char>,
    logical_a: LogicalModel,
    logical_b: LogicalModel,
    forecast_a: MigrationForecast,
    forecast_b: MigrationForecast,
)
    requires
        token_material(path_a, logical_a, forecast_a) == token_material(
            path_b,
            logical_b,
            forecast_b,
        ),
    ensures
        path_a == path_b,
        logical_a == logical_b,
        forecast_a == forecast_b,
{
    reveal_strlit(",\"to_version\":");
    reveal_strlit(",\"logical_witness\":");
    let l0 = "{\"contract\":"@ + json_string(PLAN_SCHEMA@) + ",\"database_path\":"@;
    let l1 = ",\"from_version\":"@;
    let l2 = ",\"to_version\":"@;
    let l3 = ",\"logical_witness\":"@;
    let l4 = ",\"forecast\":"@;
    let (a4, b4) = (forecast_json(forecast_a) + "}"@, forecast_json(forecast_b) + "}"@);
    let (a3, b3) = (logical_json(logical_a) + (l4 + a4), logical_json(logical_b) + (l4 + b4));
    let (a2, b2) = (
        decimal(forecast_a.to_version as nat) + (l3 + a3),
        decimal(forecast_b.to_version as nat) + (l3 + b3),
    );
    let (a1, b1) = (
        decimal(forecast_a.from_version as nat) + (l2 + a2),
        decimal(forecast_b.from_version as nat) + (l2 + b2),
    );
    let (a0, b0) = (json_string(path_a) + (l1 + a1), json_string(path_b) + (l1 + b1));
    lemma_material_layout(path_a, logical_a, forecast_a);
    lemma_material_layout(path_b, logical_b, forecast_b);
    lemma_cancel_front(l0, a0, b0);
    law_json_string_readable(path_a, path_b, l1 + a1, l1 + b1);
    lemma_cancel_front(l1, a1, b1);
    law_json_number_readable(
        forecast_a.from_version as nat,
        forecast_b.from_version as nat,
        l2 + a2,
        l2 + b2,
    );
    lemma_cancel_front(l2, a2, b2);
    law_json_number_readable(
        forecast_a.to_version as nat,
        forecast_b.to_version as nat,
        l3 + a3,
        l3 + b3,
    );
    lemma_cancel_front(l3, a3, b3);
    lemma_logical_readable(logical_a, logical_b, l4 + a4, l4 + b4);
    lemma_cancel_front(l4, a4, b4);
    lemma_forecast_readable(forecast_a, forecast_b);
}

/// Plans with the same token are the same plan, unless two different materials have the
/// same digest.
pub proof fn law_token_binds_plan(
    path_a: Seq<char>,
    path_b: Seq<char>,
    logical_a: LogicalModel,
    logical_b: LogicalModel,
    forecast_a: MigrationForecast,
    forecast_b: MigrationForecast,
)
    requires
        plan_token(path_a, logical_a, forecast_a) == plan_token(path_b, logical_b, forecast_b),
    ensures
        ({
            let a = encode_utf8(token_material(path_a, logical_a, forecast_a));
            let b = encode_utf8(token_material(path_b, logical_b, forecast_b));
            ||| path_a == path_b && logical_a == logical_b && forecast_a == forecast_b
            ||| a != b && crate::digest::sha256(a) == crate::digest::sha256(b)
        }),
{
    let a = token_material(path_a, logical_a, forecast_a);
    let b = token_material(path_b, logical_b, forecast_b);
    crate::numbers::lemma_hex_injective(
        crate::digest::sha256(encode_utf8(a)),
        crate::digest::sha256(encode_utf8(b)),
    );
    if encode_utf8(a) == encode_utf8(b) {
        encode_utf8_decode_utf8(a);
        encode_utf8_decode_utf8(b);
        law_token_material_binds_plan(
            path_a,
            path_b,
            logical_a,
            logical_b,
            forecast_a,
            forecast_b,
        );
    }
}

} // verus!
