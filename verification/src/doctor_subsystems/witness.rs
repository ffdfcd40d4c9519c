//! What a schema migration records of a database: its files and its contents.

use crate::digest::{sha256_hex, sha256_hex_text};
use crate::doctor_subsystems::encoding::{
    append_len_prefixed, canonical_rows, column, encode_rows, encode_sqlite_value, encoded,
    law_len_prefixed_readable, len_prefixed, row_models, SqlModel, SqlValue,
};
use crate::error::{debug_quoted, debug_text, internal, BeadsError, ErrorModel};
use crate::sorting::views;
use crate::text::{
    ascii_lowercase, ascii_lowercased, contains_text, lines, lines_of, occurs, opt_text, same_text,
    same_text_ignoring_ascii_case, text2, text3, texts, trim, trimmed,
};
use vstd::prelude::*;
use vstd::string::*;
use vstd::utf8::encode_utf8;

verus! {

broadcast use vstd::string::group_string_axioms;

/// One file of the database family: the main file or a sidecar.
#[derive(Debug)]
pub struct RawComponentWitness {
    pub suffix: String,
    pub present: bool,
    pub length: Option<u64>,
    pub sha256: Option<String>,
    pub unix_mode: Option<u32>,
}

/// The files of the database family.
#[derive(Debug)]
pub struct RawFamilyWitness {
    pub components: Vec<RawComponentWitness>,
}

/// The contents of one table.
#[derive(Debug)]
pub struct LogicalTableWitness {
    pub name: String,
    pub row_count: u64,
    pub rows_sha256: String,
}

/// The contents of the database, however its pages are laid out.
#[derive(Debug)]
pub struct LogicalDatabaseWitness {
    pub user_version: u32,
    pub integrity_check: String,
    pub schema_sha256: String,
    pub contents_sha256: String,
    pub tables: Vec<LogicalTableWitness>,
}

/// What a [`RawComponentWitness`] says.
#[verifier::ext_equal]
pub struct ComponentModel {
    pub suffix: Seq<char>,
    pub present: bool,
    pub length: Option<u64>,
    pub sha256: Option<Seq<char>>,
    pub unix_mode: Option<u32>,
}

/// What a [`LogicalTableWitness`] says.
#[verifier::ext_equal]
pub struct TableModel {
    pub name: Seq<char>,
    pub row_count: u64,
    pub rows_sha256: Seq<char>,
}

/// What a [`LogicalDatabaseWitness`] says.
#[verifier::ext_equal]
pub struct LogicalModel {
    pub user_version: u32,
    pub integrity_check: Seq<char>,
    pub schema_sha256: Seq<char>,
    pub contents_sha256: Seq<char>,
    pub tables: Seq<TableModel>,
}

impl View for RawComponentWitness {
    type V = ComponentModel;

    open spec fn view(&self) -> ComponentModel {
        ComponentModel {
            suffix: self.suffix@,
            present: self.present,
            length: self.length,
            sha256: opt_text(self.sha256),
            unix_mode: self.unix_mode,
        }
    }
}

impl View for RawFamilyWitness {
    type V = Seq<ComponentModel>;

    open spec fn view(&self) -> Seq<ComponentModel> {
        views(self.components@)
    }
}

impl View for LogicalTableWitness {
    type V = TableModel;

    open spec fn view(&self) -> TableModel {
        TableModel {
            name: self.name@,
            row_count: self.row_count,
            rows_sha256: self.rows_sha256@,
        }
    }
}

impl View for LogicalDatabaseWitness {
    type V = LogicalModel;

    open spec fn view(&self) -> LogicalModel {
        LogicalModel {
            user_version: self.user_version,
            integrity_check: self.integrity_check@,
            schema_sha256: self.schema_sha256@,
            contents_sha256: self.contents_sha256@,
            tables: views(self.tables@),
        }
    }
}

pub fn same_opt_text(a: &Option<String>, b: &Option<String>) -> (r: bool)
    ensures
        r == (opt_text(*a) == opt_text(*b)),
{
    match (a, b) {
        (Some(x), Some(y)) => same_text(x.as_str(), y.as_str()),
        (None, None) => true,
        _ => false,
    }
}

pub fn copy_opt_text(a: &Option<String>) -> (r: Option<String>)
    ensures
        opt_text(r) == opt_text(*a),
{
    match a {
        Some(x) => Some(x.clone()),
        None => None,
    }
}

impl RawComponentWitness {
    pub fn same(&self, other: &RawComponentWitness) -> (r: bool)
        ensures
            r == (self@ == other@),
    {
        same_text(self.suffix.as_str(), other.suffix.as_str()) && self.present == other.present
            && self.length == other.length && same_opt_text(&self.sha256, &other.sha256)
            && self.unix_mode == other.unix_mode
    }

    pub fn copy(&self) -> (r: RawComponentWitness)
        ensures
            r@ == self@,
    {
        RawComponentWitness {
            suffix: self.suffix.clone(),
            present: self.present,
            length: self.length,
            sha256: copy_opt_text(&self.sha256),
            unix_mode: self.unix_mode,
        }
    }
}

impl RawFamilyWitness {
    pub fn same(&self, other: &RawFamilyWitness) -> (r: bool)
        ensures
            r == (self@ == other@),
    {
        assert(self@.len() == self.components@.len());
        assert(other@.len() == other.components@.len());
        if self.components.len() != other.components.len() {
            return false;
        }
        let mut i: usize = 0;
        while i < self.components.len()
            invariant
                i <= self.components@.len() == other.components@.len(),
                forall|k: int| 0 <= k < i ==> self@[k] == other@[k],
            decreases self.components@.len() - i,
        {
            assert(self@[i as int] == self.components@[i as int]@);
            assert(other@[i as int] == other.components@[i as int]@);
            if !self.components[i].same(&other.components[i]) {
                return false;
            }
            i += 1;
        }
        assert(self@ =~= other@);
        true
    }

    pub fn copy(&self) -> (r: RawFamilyWitness)
        ensures
            r@ == self@,
    {
        let mut out: Vec<RawComponentWitness> = Vec::new();
        let mut i: usize = 0;
        while i < self.components.len()
            invariant
                i <= self.components@.len(),
                views(out@) == self@.take(i as int),
            decreases self.components@.len() - i,
        {
            let ghost before = views(out@);
            let item = self.components[i].copy();
            let ghost shown = item@;
            out.push(item);
            i += 1;
            assert(views(out@) =~= before.push(shown));
            assert(views(out@) =~= self@.take(i as int));
        }
        assert(views(out@) =~= self@);
        RawFamilyWitness { components: out }
    }
}

fn same_tables(a: &Vec<LogicalTableWitness>, b: &Vec<LogicalTableWitness>) -> (r: bool)
    ensures
        r == (views(a@) == views(b@)),
{
    assert(views(a@).len() == a@.len());
    assert(views(b@).len() == b@.len());
    if a.len() != b.len() {
        return false;
    }
    let mut i: usize = 0;
    while i < a.len()
        invariant
            i <= a@.len() == b@.len(),
            forall|k: int| 0 <= k < i ==> views(a@)[k] == views(b@)[k],
        decreases a@.len() - i,
    {
        assert(views(a@)[i as int] == a@[i as int]@);
        assert(views(b@)[i as int] == b@[i as int]@);
        if !(same_text(a[i].name.as_str(), b[i].name.as_str()) && a[i].row_count == b[i].row_count
            && same_text(a[i].rows_sha256.as_str(), b[i].rows_sha256.as_str())) {
            return false;
        }
        i += 1;
    }
    assert(views(a@) =~= views(b@));
    true
}

impl LogicalDatabaseWitness {
    pub fn same(&self, other: &LogicalDatabaseWitness) -> (r: bool)
        ensures
            r == (self@ == other@),
    {
        self.user_version == other.user_version && same_text(
            self.integrity_check.as_str(),
            other.integrity_check.as_str(),
        ) && same_text(self.schema_sha256.as_str(), other.schema_sha256.as_str()) && same_text(
            self.contents_sha256.as_str(),
            other.contents_sha256.as_str(),
        ) && same_tables(&self.tables, &other.tables)
    }

    pub fn copy(&self) -> (r: LogicalDatabaseWitness)
        ensures
            r@ == self@,
    {
        let mut out: Vec<LogicalTableWitness> = Vec::new();
        let mut i: usize = 0;
        while i < self.tables.len()
            invariant
                i <= self.tables@.len(),
                views(out@) == views(self.tables@).take(i as int),
            decreases self.tables@.len() - i,
        {
            let ghost before = views(out@);
            let item = LogicalTableWitness {
                name: self.tables[i].name.clone(),
                row_count: self.tables[i].row_count,
                rows_sha256: self.tables[i].rows_sha256.clone(),
            };
            let ghost shown = item@;
            out.push(item);
            i += 1;
            assert(views(out@) =~= before.push(shown));
            assert(views(out@) =~= views(self.tables@).take(i as int));
        }
        assert(views(out@) =~= views(self.tables@));
        LogicalDatabaseWitness {
            user_version: self.user_version,
            integrity_check: self.integrity_check.clone(),
            schema_sha256: self.schema_sha256.clone(),
            contents_sha256: self.contents_sha256.clone(),
            tables: out,
        }
    }
}

/// What [`LogicalDatabaseWitness`] says, or nothing where there is none.
pub open spec fn opt_logical(o: Option<LogicalDatabaseWitness>) -> Option<LogicalModel> {
    match o {
        Some(w) => Some(w@),
        None => None,
    }
}

/// What [`RawFamilyWitness`] says, or nothing where there is none.
pub open spec fn opt_raw(o: Option<RawFamilyWitness>) -> Option<Seq<ComponentModel>> {
    match o {
        Some(w) => Some(w@),
        None => None,
    }
}

/// The same database contents, whatever the integrity diagnostics say.
pub open spec fn match_except_integrity(a: LogicalModel, b: LogicalModel) -> bool {
    a.user_version == b.user_version && a.schema_sha256 == b.schema_sha256 && a.contents_sha256
        == b.contents_sha256 && a.tables == b.tables
}

pub fn logical_witnesses_match_except_integrity(
    left: &LogicalDatabaseWitness,
    right: &LogicalDatabaseWitness,
) -> (r: bool)
    ensures
        r == match_except_integrity(left@, right@),
{
    left.user_version == right.user_version && same_text(
        left.schema_sha256.as_str(),
        right.schema_sha256.as_str(),
    ) && same_text(left.contents_sha256.as_str(), right.contents_sha256.as_str()) && same_tables(
        &left.tables,
        &right.tables,
    )
}

/// The rows of one table, as the database hands them out.
pub struct TableDump {
    pub name: String,
    pub columns: usize,
    pub rows: Vec<Vec<SqlValue>>,
}

/// What a [`TableDump`] says.
pub struct TableDumpModel {
    pub name: Seq<char>,
    pub columns: nat,
    pub rows: Seq<Seq<SqlModel>>,
}

impl View for TableDump {
    type V = TableDumpModel;

    open spec fn view(&self) -> TableDumpModel {
        TableDumpModel {
            name: self.name@,
            columns: self.columns as nat,
            rows: row_models(self.rows@),
        }
    }
}

/// The byte strings, each behind its length.
pub open spec fn framed(items: Seq<Seq<u8>>) -> Seq<u8>
    decreases items.len(),
{
    if items.len() == 0 {
        Seq::empty()
    } else {
        framed(items.drop_last()) + len_prefixed(items.last())
    }
}

/// The bytes under the digest of one table: its name, then its rows in ascending order.
pub open spec fn table_material(table: TableDumpModel) -> Seq<u8> {
    len_prefixed(encode_utf8(table.name)) + framed(canonical_rows(table.rows, table.columns))
}

/// The rows of a table, each behind the name of the table.
pub open spec fn named_rows(name: Seq<u8>, rows: Seq<Seq<u8>>) -> Seq<u8>
    decreases rows.len(),
{
    if rows.len() == 0 {
        Seq::empty()
    } else {
        named_rows(name, rows.drop_last()) + len_prefixed(name) + len_prefixed(rows.last())
    }
}

/// The bytes under the digest of the whole contents.
pub open spec fn contents_material(tables: Seq<TableDumpModel>) -> Seq<u8>
    decreases tables.len(),
{
    if tables.len() == 0 {
        Seq::empty()
    } else {
        let table = tables.last();
        contents_material(tables.drop_last()) + named_rows(
            encode_utf8(table.name),
            canonical_rows(table.rows, table.columns),
        )
    }
}

/// The four columns of one row of the schema, each encoded and behind its length.
pub open spec fn schema_row_material(row: Seq<SqlModel>) -> Seq<u8> {
    len_prefixed(encoded(column(row, 0))) + len_prefixed(encoded(column(row, 1))) + len_prefixed(
        encoded(column(row, 2)),
    ) + len_prefixed(encoded(column(row, 3)))
}

/// The bytes under the digest of the schema.
pub open spec fn schema_material(rows: Seq<Seq<SqlModel>>) -> Seq<u8>
    decreases rows.len(),
{
    if rows.len() == 0 {
        Seq::empty()
    } else {
        schema_material(rows.drop_last()) + schema_row_material(rows.last())
    }
}

/// The witness of one table.
pub open spec fn table_witness(table: TableDumpModel) -> TableModel {
    TableModel {
        name: table.name,
        row_count: table.rows.len() as u64,
        rows_sha256: sha256_hex(table_material(table)),
    }
}

/// The witness of a database.
pub open spec fn database_witness(
    user_version: u32,
    integrity_check: Seq<char>,
    schema: Seq<Seq<SqlModel>>,
    tables: Seq<TableDumpModel>,
) -> LogicalModel {
    LogicalModel {
        user_version,
        integrity_check,
        schema_sha256: sha256_hex(schema_material(schema)),
        contents_sha256: sha256_hex(contents_material(tables)),
        tables: tables.map_values(|t: TableDumpModel| table_witness(t)),
    }
}

fn append_column(output: &mut Vec<u8>, row: &Vec<SqlValue>, index: usize)
    ensures
        final(output)@ == old(output)@ + len_prefixed(encoded(column(views(row@), index as int))),
{
    let mut value: Vec<u8> = Vec::new();
    assert(views(row@).len() == row@.len());
    if index < row.len() {
        assert(views(row@)[index as int] == row@[index as int]@);
        encode_sqlite_value(&mut value, &row[index]);
    } else {
        encode_sqlite_value(&mut value, &SqlValue::Null);
    }
    assert(value@ =~= encoded(column(views(row@), index as int)));
    append_len_prefixed(output, value.as_slice());
}

/// The digest of the schema rows: type, name, table name and SQL text of each object.
pub fn schema_digest(rows: &Vec<Vec<SqlValue>>) -> (r: String)
    ensures
        r@ == sha256_hex(schema_material(row_models(rows@))),
{
    let ghost all = row_models(rows@);
    let mut out: Vec<u8> = Vec::new();
    let mut i: usize = 0;
    while i < rows.len()
        invariant
            i <= rows@.len(),
            all == row_models(rows@),
            out@ == schema_material(all.take(i as int)),
        decreases rows@.len() - i,
    {
        let ghost before = out@;
        assert(all.take(i + 1).drop_last() =~= all.take(i as int));
        assert(all.take(i + 1).last() == views(rows@[i as int]@));
        append_column(&mut out, &rows[i], 0);
        append_column(&mut out, &rows[i], 1);
        append_column(&mut out, &rows[i], 2);
        append_column(&mut out, &rows[i], 3);
        assert(out@ =~= before + schema_row_material(views(rows@[i as int]@)));
        i += 1;
    }
    assert(all.take(all.len() as int) =~= all);
    sha256_hex_text(out.as_slice())
}

/// The witness of a database, from its schema and the rows of its tables.
pub fn logical_witness_of(
    user_version: u32,
    integrity_check: &str,
    schema: &Vec<Vec<SqlValue>>,
    dump: &Vec<TableDump>,
) -> (r: LogicalDatabaseWitness)
    ensures
        r@ == database_witness(user_version, integrity_check@, row_models(schema@), views(dump@)),
{
    let ghost all = views(dump@);
    let ghost witnesses = all.map_values(|t: TableDumpModel| table_witness(t));
    let schema_sha256 = schema_digest(schema);
    let mut contents: Vec<u8> = Vec::new();
    let mut tables: Vec<LogicalTableWitness> = Vec::new();
    let mut i: usize = 0;
    while i < dump.len()
        invariant
            i <= dump@.len(),
            all == views(dump@),
            witnesses == all.map_values(|t: TableDumpModel| table_witness(t)),
            contents@ == contents_material(all.take(i as int)),
            views(tables@) == witnesses.take(i as int),
        decreases dump@.len() - i,
    {
        let table = &dump[i];
        let ghost model = table@;
        assert(all.take(i + 1).drop_last() =~= all.take(i as int));
        assert(all.take(i + 1).last() == model);
        let ghost contents_before = contents@;
        let rows = encode_rows(&table.rows, table.columns);
        let ghost canonical = canonical_rows(model.rows, model.columns);
        let name_bytes = table.name.as_str().as_bytes();
        let mut material: Vec<u8> = Vec::new();
        append_len_prefixed(&mut material, name_bytes);
        let ghost head = material@;
        let mut k: usize = 0;
        assert(head =~= head + framed(canonical.take(0)));
        assert(contents@ =~= contents_before + named_rows(name_bytes@, canonical.take(0)));
        while k < rows.len()
            invariant
                k <= rows@.len(),
                views(rows@) == canonical,
                material@ == head + framed(canonical.take(k as int)),
                contents@ == contents_before + named_rows(name_bytes@, canonical.take(k as int)),
            decreases rows@.len() - k,
        {
            assert(canonical.take(k + 1).drop_last() =~= canonical.take(k as int));
            assert(canonical.take(k + 1).last() == rows@[k as int]@);
            let ghost (m, c) = (material@, contents@);
            append_len_prefixed(&mut material, rows[k].as_slice());
            append_len_prefixed(&mut contents, name_bytes);
            append_len_prefixed(&mut contents, rows[k].as_slice());
            k += 1;
            assert(material@ =~= head + framed(canonical.take(k as int)));
            assert(contents@ =~= contents_before + named_rows(
                name_bytes@,
                canonical.take(k as int),
            ));
        }
        assert(canonical.len() == rows@.len());
        assert(canonical.take(canonical.len() as int) =~= canonical);
        assert(material@ =~= table_material(model));
        let ghost tables_before = views(tables@);
        assert(model.rows.len() == rows@.len());
        let item = LogicalTableWitness {
            name: table.name.clone(),
            row_count: rows.len() as u64,
            rows_sha256: sha256_hex_text(material.as_slice()),
        };
        let ghost shown = item@;
        assert(shown == table_witness(model));
        tables.push(item);
        i += 1;
        assert(views(tables@) =~= tables_before.push(shown));
        assert(views(tables@) =~= witnesses.take(i as int));
    }
    assert(all.take(all.len() as int) =~= all);
    assert(views(tables@) =~= witnesses);
    LogicalDatabaseWitness {
        user_version,
        integrity_check: integrity_check.to_owned(),
        schema_sha256,
        contents_sha256: sha256_hex_text(contents.as_slice()),
        tables,
    }
}

/// The rows of the schema, in an order that its contents alone decide.
pub const SCHEMA_QUERY: &'static str =
    "SELECT type, name, tbl_name, COALESCE(sql, '') FROM sqlite_master ORDER BY type, name, tbl_name, COALESCE(sql, '')";

/// The names of all tables, in order.
pub const ALL_TABLES_QUERY: &'static str =
    "SELECT name FROM sqlite_master WHERE type='table' ORDER BY name";

/// The query for the columns of a table whose name is quoted.
pub fn columns_query(quoted: &str) -> (r: String)
    ensures
        r@ == "PRAGMA table_info("@ + quoted@ + ")"@,
{
    text3("PRAGMA table_info(", quoted, ")")
}

/// The query for every row of a table whose name is quoted.
pub fn rows_query(quoted: &str) -> (r: String)
    ensures
        r@ == "SELECT * FROM "@ + quoted@,
{
    text2("SELECT * FROM ", quoted)
}

/// The text in the first column of a row of table names.
pub fn table_name(row: &Vec<SqlValue>) -> (r: Result<String, BeadsError>)
    ensures
        match column(views(row@), 0) {
            SqlModel::Text(s) => r is Ok && r->Ok_0@ == s,
            _ => r is Err && r->Err_0.model() == ErrorModel::Internal(
                "sqlite_master table name was not text"@,
            ),
        },
{
    assert(views(row@).len() == row@.len());
    if row.len() > 0 {
        assert(views(row@)[0] == row@[0]@);
        if let SqlValue::Text(s) = &row[0] {
            return Ok(s.clone());
        }
    }
    Err(internal("sqlite_master table name was not text".to_owned()))
}

/// A nonnegative number in the first column of the row that a query returned.
pub open spec fn count_in(row: Seq<SqlModel>) -> Option<int> {
    match column(row, 0) {
        SqlModel::Integer(n) => if n >= 0 {
            Some(n)
        } else {
            None
        },
        _ => None,
    }
}

fn first_integer(row: &Vec<SqlValue>) -> (r: Option<i64>)
    ensures
        match column(views(row@), 0) {
            SqlModel::Integer(n) => r is Some && r->0 as int == n,
            _ => r is None,
        },
{
    assert(views(row@).len() == row@.len());
    if row.len() > 0 {
        assert(views(row@)[0] == row@[0]@);
        if let SqlValue::Integer(n) = &row[0] {
            return Some(*n);
        }
    }
    None
}

/// The schema version in the row that `PRAGMA user_version` returned.
pub fn query_user_version(row: &Vec<SqlValue>) -> (r: Result<u32, BeadsError>)
    ensures
        match count_in(views(row@)) {
            Some(n) if n <= u32::MAX => r is Ok && r->Ok_0 as int == n,
            _ => r is Err && r->Err_0.model() == ErrorModel::Internal(
                "PRAGMA user_version was not a nonnegative u32"@,
            ),
        },
{
    match first_integer(row) {
        Some(n) if 0 <= n && n <= 0xffff_ffff => Ok(n as u32),
        _ => Err(internal("PRAGMA user_version was not a nonnegative u32".to_owned())),
    }
}

/// The count in the row that the query `sql` returned.
pub fn query_count(row: &Vec<SqlValue>, sql: &str) -> (r: Result<u64, BeadsError>)
    ensures
        match count_in(views(row@)) {
            Some(n) => r is Ok && r->Ok_0 as int == n,
            None => r is Err && r->Err_0.model() == ErrorModel::Internal(
                "count query returned an invalid value: "@ + sql@,
            ),
        },
{
    match first_integer(row) {
        Some(n) if 0 <= n => Ok(n as u64),
        _ => Err(internal(text2("count query returned an invalid value: ", sql))),
    }
}

/// The trimmed texts of the rows that are not blank.
pub open spec fn diagnostics(values: Seq<SqlModel>) -> Seq<Seq<char>>
    decreases values.len(),
{
    if values.len() == 0 {
        Seq::empty()
    } else {
        let head = diagnostics(values.drop_last());
        match values.last() {
            SqlModel::Text(s) => if trim(s).len() > 0 {
                head.push(trim(s))
            } else {
                head
            },
            _ => head,
        }
    }
}

/// What the rows of `PRAGMA integrity_check` say, all columns in order.
pub open spec fn integrity_messages(values: Seq<SqlModel>) -> Seq<Seq<char>> {
    let found = diagnostics(values);
    if found.len() == 0 {
        seq!["integrity_check returned no diagnostic rows"@]
    } else {
        found
    }
}

pub fn integrity_check_messages(values: &Vec<SqlValue>) -> (r: Vec<String>)
    ensures
        texts(r@) == integrity_messages(views(values@)),
{
    let ghost all = views(values@);
    let mut out: Vec<String> = Vec::new();
    let mut i: usize = 0;
    assert(texts(out@) =~= diagnostics(all.take(0)));
    while i < values.len()
        invariant
            i <= values@.len(),
            all == views(values@),
            texts(out@) == diagnostics(all.take(i as int)),
        decreases values@.len() - i,
    {
        assert(all.take(i + 1).drop_last() =~= all.take(i as int));
        assert(all.take(i + 1).last() == values@[i as int]@);
        if let SqlValue::Text(s) = &values[i] {
            let line = trimmed(s.as_str());
            if !line.as_str().is_empty() {
                let ghost before = texts(out@);
                let ghost shown = line@;
                out.push(line);
                assert(texts(out@) =~= before.push(shown));
            }
        }
        i += 1;
    }
    assert(all.take(all.len() as int) =~= all);
    assert(texts(out@).len() == out@.len());
    if out.len() == 0 {
        out.push("integrity_check returned no diagnostic rows".to_owned());
        assert(texts(out@) =~= seq!["integrity_check returned no diagnostic rows"@]);
    }
    out
}

/// The database reported no damage.
pub open spec fn integrity_clean(report: Seq<char>) -> bool {
    ascii_lowercase(trim(report)) == ascii_lowercase("ok"@)
}

pub fn integrity_check_is_clean(integrity_check: &str) -> (r: bool)
    ensures
        r == integrity_clean(integrity_check@),
{
    let line = trimmed(integrity_check);
    same_text_ignoring_ascii_case(line.as_str(), "ok")
}

/// The line reports a page-layout artifact that a rewrite of the pages repairs.
pub open spec fn repairable_line(line: Seq<char>) -> bool {
    let lower = ascii_lowercase(trim(line));
    occurs(lower, "never used"@) || occurs(lower, "missing from index"@) || occurs(
        lower,
        "out of order"@,
    )
}

/// The line says nothing of damage: it is blank or a heading.
pub open spec fn neutral_line(line: Seq<char>) -> bool {
    trim(line).len() == 0 || occurs(ascii_lowercase(trim(line)), "*** in database"@)
}

/// Every line of the report is repairable or neutral, and some line is repairable.
pub open spec fn integrity_repairable(report: Seq<char>) -> bool {
    let all = lines(report);
    &&& forall|i: int| 0 <= i < all.len() ==> repairable_line(#[trigger] all[i]) || neutral_line(all[i])
    &&& exists|i: int| 0 <= i < all.len() && repairable_line(#[trigger] all[i])
}

proof fn lemma_blank_line_not_repairable(line: Seq<char>)
    requires
        trim(line).len() == 0,
    ensures
        !repairable_line(line),
{
    reveal_strlit("never used");
    reveal_strlit("missing from index");
    reveal_strlit("out of order");
}

pub fn integrity_check_is_repairable(integrity_check: &str) -> (r: bool)
    ensures
        r == integrity_repairable(integrity_check@),
{
    let all = lines_of(integrity_check);
    let ghost model = lines(integrity_check@);
    let mut saw_repairable = false;
    let mut i: usize = 0;
    while i < all.len()
        invariant
            i <= all@.len(),
            texts(all@) == model,
            model == lines(integrity_check@),
            forall|k: int| 0 <= k < i ==> repairable_line(#[trigger] model[k]) || neutral_line(model[k]),
            saw_repairable == (exists|k: int| 0 <= k < i && repairable_line(#[trigger] model[k])),
        decreases all@.len() - i,
    {
        let message = trimmed(all[i].as_str());
        assert(model[i as int] == all@[i as int]@);
        if !message.as_str().is_empty() {
            let lower = ascii_lowercased(message.as_str());
            if contains_text(lower.as_str(), "never used") || contains_text(
                lower.as_str(),
                "missing from index",
            ) || contains_text(lower.as_str(), "out of order") {
                assert(repairable_line(model[i as int]));
                saw_repairable = true;
            } else if !contains_text(lower.as_str(), "*** in database") {
                assert(!repairable_line(model[i as int]) && !neutral_line(model[i as int]));
                return false;
            }
        } else {
            proof {
                lemma_blank_line_not_repairable(model[i as int]);
            }
        }
        i += 1;
    }
    assert(model.len() == all@.len());
    saw_repairable
}

/// The identifier in double quotes, with the quotes in it doubled.
pub open spec fn quoted_identifier(identifier: Seq<char>) -> Seq<char> {
    "\""@ + crate::text::replace_char(identifier, '"', "\"\""@) + "\""@
}

pub fn quote_identifier(identifier: &str) -> (r: String)
    ensures
        r@ == quoted_identifier(identifier@),
{
    let inner = crate::text::replaced_char(identifier, '"', "\"\"");
    text3("\"", inner.as_str(), "\"")
}

/// The witness with the integrity report that was found before and after the rows were read.
pub fn settle_witness(
    witness: LogicalDatabaseWitness,
    integrity_before: &str,
    integrity_after: &str,
) -> (r: Result<LogicalDatabaseWitness, BeadsError>)
    ensures
        match r {
            Ok(w) => integrity_before@ == integrity_after@ && w@ == (LogicalModel {
                integrity_check: integrity_after@,
                ..witness@
            }),
            Err(e) => integrity_before@ != integrity_after@ && e.model() == ErrorModel::Internal(
                "database integrity changed while capturing the migration witness (before="@
                    + debug_text(integrity_before@) + ", after="@ + debug_text(integrity_after@)
                    + ")"@,
            ),
        },
{
    if !same_text(integrity_before, integrity_after) {
        let before = debug_quoted(integrity_before);
        let after = debug_quoted(integrity_after);
        return Err(
            internal(
                crate::text::text5(
                    "database integrity changed while capturing the migration witness (before=",
                    before.as_str(),
                    ", after=",
                    after.as_str(),
                    ")",
                ),
            ),
        );
    }
    Ok(
        LogicalDatabaseWitness {
            user_version: witness.user_version,
            integrity_check: integrity_after.to_owned(),
            schema_sha256: witness.schema_sha256,
            contents_sha256: witness.contents_sha256,
            tables: witness.tables,
        },
    )
}

proof fn lemma_framed_front(items: Seq<Seq<u8>>)
    requires
        items.len() > 0,
    ensures
        framed(items) == len_prefixed(items[0]) + framed(items.skip(1)),
    decreases items.len(),
{
    if items.len() == 1 {
        assert(items.drop_last() =~= Seq::<Seq<u8>>::empty());
        assert(items.skip(1) =~= Seq::<Seq<u8>>::empty());
        assert(framed(items) =~= len_prefixed(items[0]) + framed(items.skip(1)));
    } else {
        lemma_framed_front(items.drop_last());
        assert(items.drop_last().skip(1) =~= items.skip(1).drop_last());
        assert(framed(items) =~= len_prefixed(items[0]) + framed(items.skip(1)));
    }
}

/// Every byte string is short enough for its length to be written down.
pub open spec fn frameable(items: Seq<Seq<u8>>) -> bool {
    forall|i: int| 0 <= i < items.len() ==> (#[trigger] items[i]).len() <= u64::MAX
}

/// The framed bytes determine the byte strings in them.
pub proof fn law_framing_injective(a: Seq<Seq<u8>>, b: Seq<Seq<u8>>)
    requires
        frameable(a),
        frameable(b),
        framed(a) == framed(b),
    ensures
        a == b,
    decreases a.len(),
{
    if a.len() > 0 {
        lemma_framed_front(a);
        vstd::bytes::lemma_auto_spec_u64_to_from_le_bytes();
        assert(framed(a).len() >= 8);
    }
    if b.len() > 0 {
        lemma_framed_front(b);
        vstd::bytes::lemma_auto_spec_u64_to_from_le_bytes();
        assert(framed(b).len() >= 8);
    }
    if a.len() > 0 && b.len() > 0 {
        law_len_prefixed_readable(a[0], b[0], framed(a.skip(1)), framed(b.skip(1)));
        assert forall|i: int| 0 <= i < a.skip(1).len() implies (#[trigger] a.skip(1)[i]).len()
            <= u64::MAX by {
            assert(a.skip(1)[i] == a[i + 1]);
        }
        assert forall|i: int| 0 <= i < b.skip(1).len() implies (#[trigger] b.skip(1)[i]).len()
            <= u64::MAX by {
            assert(b.skip(1)[i] == b[i + 1]);
        }
        law_framing_injective(a.skip(1), b.skip(1));
        assert(a =~= seq![a[0]] + a.skip(1));
        assert(b =~= seq![b[0]] + b.skip(1));
    } else {
        assert(a =~= b);
    }
}

/// The bytes under the digest of a table determine its name and its rows.
pub proof fn law_table_material_injective(a: TableDumpModel, b: TableDumpModel)
    requires
        encode_utf8(a.name).len() <= u64::MAX,
        encode_utf8(b.name).len() <= u64::MAX,
        frameable(canonical_rows(a.rows, a.columns)),
        frameable(canonical_rows(b.rows, b.columns)),
        table_material(a) == table_material(b),
    ensures
        a.name == b.name,
        canonical_rows(a.rows, a.columns) == canonical_rows(b.rows, b.columns),
{
    law_len_prefixed_readable(
        encode_utf8(a.name),
        encode_utf8(b.name),
        framed(canonical_rows(a.rows, a.columns)),
        framed(canonical_rows(b.rows, b.columns)),
    );
    vstd::utf8::encode_utf8_decode_utf8(a.name);
    vstd::utf8::encode_utf8_decode_utf8(b.name);
    law_framing_injective(canonical_rows(a.rows, a.columns), canonical_rows(b.rows, b.columns));
}

} // verus!
