//! Changes of the database: the snapshots that are taken first, the order of a statement's
//! steps, and the record.

use crate::digest::{sha256_hex, sha256_hex_prefixed, sha256_hex_text, sha256_prefixed};
use crate::doctor_subsystems::encoding::{column, SqlModel, SqlValue};
use crate::doctor_subsystems::mutate::{
    elapsed, elapsed_ns, file_hash, file_hash_text, op_name, opt_bytes, ActionResult, MutateContext,
    Op, ResultModel,
};
use crate::error::{checked, internal, BeadsError, ErrorModel};
use crate::numbers::{
    base64, base64_text, decimal, decimal_text, lemma_base64_injective, padded_decimal,
    padded_decimal_text,
};
use crate::paths::{relative_path, relative_to};
use crate::sorting::views;
use crate::text::{
    ascii_alphanumeric, chars_of, is_ascii_alphanumeric, join, joined, opt_text, text2, text3,
    text5, text_between, texts, trim, trimmed,
};
use vstd::prelude::*;
use vstd::string::*;
use vstd::utf8::encode_utf8;

verus! {

broadcast use vstd::string::group_string_axioms;

/// A name that needs no quotes in SQL: letters, digits and underscores of ASCII.
pub open spec fn plain_identifier(ident: Seq<char>) -> bool {
    ident.len() > 0 && forall|i: int|
        0 <= i < ident.len() ==> ascii_alphanumeric(#[trigger] ident[i]) || ident[i] == '_'
}

pub open spec fn identifier_check(ident: Seq<char>) -> Result<(), ErrorModel> {
    if plain_identifier(ident) {
        Ok(())
    } else {
        Err(
            ErrorModel::Internal(
                "doctor: invalid SQL identifier '"@ + ident
                    + "' (must be ASCII alphanumeric + underscore)"@,
            ),
        )
    }
}

pub fn validate_identifier(ident: &str) -> (r: Result<(), BeadsError>)
    ensures
        checked(r) == identifier_check(ident@),
{
    let chars = chars_of(ident);
    let mut plain = chars.len() > 0;
    let mut i: usize = 0;
    while i < chars.len()
        invariant
            i <= chars@.len(),
            chars@ == ident@,
            plain == (chars@.len() > 0 && forall|k: int|
                0 <= k < i ==> ascii_alphanumeric(#[trigger] ident@[k]) || ident@[k] == '_'),
        decreases chars@.len() - i,
    {
        if !is_ascii_alphanumeric(chars[i]) && chars[i] != '_' {
            assert(!(ascii_alphanumeric(ident@[i as int]) || ident@[i as int] == '_'));
            plain = false;
        }
        i += 1;
    }
    if !plain {
        return Err(
            internal(
                text3(
                    "doctor: invalid SQL identifier '",
                    ident,
                    "' (must be ASCII alphanumeric + underscore)",
                ),
            ),
        );
    }
    Ok(())
}

/// The first table whose name is not a plain identifier, if there is one.
pub open spec fn identifiers_check(tables: Seq<Seq<char>>) -> Result<(), ErrorModel>
    decreases tables.len(),
{
    if tables.len() == 0 {
        Ok(())
    } else if identifier_check(tables[0]) is Err {
        identifier_check(tables[0])
    } else {
        identifiers_check(tables.skip(1))
    }
}

pub fn validate_identifiers(tables: &Vec<String>) -> (r: Result<(), BeadsError>)
    ensures
        checked(r) == identifiers_check(texts(tables@)),
{
    let ghost all = texts(tables@);
    let mut i: usize = 0;
    assert(all.skip(0) =~= all);
    while i < tables.len()
        invariant
            i <= tables@.len(),
            all == texts(tables@),
            identifiers_check(all) == identifiers_check(all.skip(i as int)),
        decreases tables@.len() - i,
    {
        assert(all[i as int] == tables@[i as int]@);
        if let Err(e) = validate_identifier(tables[i].as_str()) {
            return Err(e);
        }
        assert(all.skip(i as int).skip(1) =~= all.skip(i + 1));
        i += 1;
    }
    Ok(())
}

/// The predicate of a snapshot, blank where there is none.
pub open spec fn predicate_of(predicate: Option<Seq<char>>) -> Seq<char> {
    match predicate {
        Some(p) => trim(p),
        None => trim(""@),
    }
}

fn predicate_text(predicate: &Option<String>) -> (r: String)
    ensures
        r@ == predicate_of(opt_text(*predicate)),
{
    match predicate {
        Some(p) => trimmed(p.as_str()),
        None => trimmed(""),
    }
}

/// The query for the rows of a snapshot.
pub open spec fn snapshot_query(table: Seq<char>, predicate: Option<Seq<char>>) -> Seq<char> {
    if predicate_of(predicate).len() == 0 {
        "SELECT * FROM "@ + table
    } else {
        "SELECT * FROM "@ + table + " WHERE "@ + predicate_of(predicate)
    }
}

pub fn snapshot_sql(table: &str, predicate: &Option<String>) -> (r: String)
    ensures
        r@ == snapshot_query(table@, opt_text(*predicate)),
{
    let condition = predicate_text(predicate);
    if condition.as_str().is_empty() {
        text2("SELECT * FROM ", table)
    } else {
        let mut out = text3("SELECT * FROM ", table, " WHERE ");
        out.append(condition.as_str());
        out
    }
}

/// What tells the snapshots of different predicates apart: the first digits of the digest.
pub open spec fn predicate_tag(predicate: Option<Seq<char>>) -> Seq<char> {
    sha256_hex(encode_utf8(predicate_of(predicate))).take(8)
}

pub fn predicate_hash(predicate: &Option<String>) -> (r: String)
    ensures
        r@ == predicate_tag(opt_text(*predicate)),
{
    let condition = predicate_text(predicate);
    let digest = sha256_hex_text(condition.as_str().as_bytes());
    let chars = chars_of(digest.as_str());
    let r = text_between(&chars, 0, 8);
    assert(r@ =~= digest@.take(8));
    r
}

/// The name of a snapshot file.
pub open spec fn snapshot_file(
    table: Seq<char>,
    tag: Seq<char>,
    stamp: u128,
    collision: u16,
) -> Seq<char> {
    table + "__"@ + tag + "__"@ + padded_decimal(stamp as nat, 20) + (if collision == 0 {
        ""@
    } else {
        "__"@ + padded_decimal(collision as nat, 3)
    }) + ".json"@
}

pub fn snapshot_file_name(table: &str, tag: &str, stamp: u128, collision: u16) -> (r: String)
    ensures
        r@ == snapshot_file(table@, tag@, stamp, collision),
{
    let time = padded_decimal_text(stamp, 20);
    let mut suffix: String = "".to_owned();
    if collision != 0 {
        let count = padded_decimal_text(collision as u128, 3);
        suffix = text2("__", count.as_str());
    }
    let mut out = text5(table, "__", tag, "__", time.as_str());
    out.append(suffix.as_str());
    out.append(".json");
    out
}

/// Snapshots of one time differ by their counter, so none overwrites another.
pub proof fn law_snapshot_names_differ(
    table: Seq<char>,
    tag: Seq<char>,
    stamp: u128,
    a: u16,
    b: u16,
)
    requires
        a != b,
    ensures
        snapshot_file(table, tag, stamp, a) != snapshot_file(table, tag, stamp, b),
{
    reveal_strlit(".json");
    reveal_strlit("__");
    reveal_strlit("");
    let head = table + "__"@ + tag + "__"@ + padded_decimal(stamp as nat, 20);
    let suffix = |c: u16|
        if c == 0 {
            ""@
        } else {
            "__"@ + padded_decimal(c as nat, 3)
        };
    let (x, y) = (snapshot_file(table, tag, stamp, a), snapshot_file(table, tag, stamp, b));
    if x == y {
        let (p, q) = (suffix(a), suffix(b));
        assert(x =~= head + (p + ".json"@));
        assert(y =~= head + (q + ".json"@));
        crate::json::lemma_cancel_front(head, p + ".json"@, q + ".json"@);
        assert(p.len() == q.len());
        assert((p + ".json"@).take(p.len() as int) =~= p);
        assert((q + ".json"@).take(q.len() as int) =~= q);
        assert(p == q);
        if a == 0 || b == 0 {
            assert(p.len() == 0 || q.len() == 0);
        } else {
            let (m, n) = (padded_decimal(a as nat, 3), padded_decimal(b as nat, 3));
            assert(p.skip(2) =~= m);
            assert(q.skip(2) =~= n);
            crate::numbers::lemma_padded_injective(a as nat, b as nat, 3);
        }
    }
}

/// What is reported where every name of a snapshot is taken.
pub open spec fn snapshots_exhausted(table: Seq<char>, tag: Seq<char>, stamp: u128) -> ErrorModel {
    ErrorModel::Outside(
        "doctor: exhausted DB snapshot collision suffixes for "@ + table + "__"@ + tag + "__"@
            + padded_decimal(stamp as nat, 20),
    )
}

fn exhausted_snapshots_error(table: &str, tag: &str, stamp: u128) -> (r: BeadsError)
    ensures
        r.model() == snapshots_exhausted(table@, tag@, stamp),
{
    let time = padded_decimal_text(stamp, 20);
    let mut out = text5(
        "doctor: exhausted DB snapshot collision suffixes for ",
        table,
        "__",
        tag,
        "__",
    );
    out.append(time.as_str());
    BeadsError::Outside(out)
}

/// The counter of the name after one that was taken; behind the last one there is none.
pub fn next_snapshot_collision(table: &str, tag: &str, stamp: u128, collision: u16) -> (r: Result<
    u16,
    BeadsError,
>)
    ensures
        match r {
            Ok(next) => collision < 999 && next == collision + 1,
            Err(e) => collision >= 999 && e.model() == snapshots_exhausted(table@, tag@, stamp),
        },
        r is Ok <==> collision < 999,
{
    if collision < 999 {
        Ok(collision + 1)
    } else {
        Err(exhausted_snapshots_error(table, tag, stamp))
    }
}

/// The names in the second column of the rows, as far as they are text.
pub open spec fn column_names(rows: Seq<Seq<SqlModel>>) -> Option<Seq<Seq<char>>>
    decreases rows.len(),
{
    if rows.len() == 0 {
        Some(Seq::empty())
    } else {
        match (column_names(rows.drop_last()), column(rows.last(), 1)) {
            (Some(names), SqlModel::Text(s)) => Some(names.push(s)),
            _ => None,
        }
    }
}

/// The columns that `PRAGMA table_info` reported for a table.
pub open spec fn columns_of(table: Seq<char>, rows: Seq<Seq<SqlModel>>) -> Result<
    Seq<Seq<char>>,
    ErrorModel,
> {
    if identifier_check(table) is Err {
        Err(identifier_check(table)->Err_0)
    } else if rows.len() == 0 {
        Err(
            ErrorModel::Internal(
                "doctor: table '"@ + table + "' has no columns (does it exist?)"@,
            ),
        )
    } else {
        match column_names(rows) {
            Some(names) => Ok(names),
            None => Err(
                ErrorModel::Internal(
                    "doctor: PRAGMA table_info("@ + table + ") returned non-text column name"@,
                ),
            ),
        }
    }
}

proof fn lemma_column_names_prefix(rows: Seq<Seq<SqlModel>>, n: int)
    requires
        0 <= n <= rows.len(),
        column_names(rows.take(n)) is None,
    ensures
        column_names(rows) is None,
    decreases rows.len() - n,
{
    if n == rows.len() {
        assert(rows.take(n) =~= rows);
    } else {
        assert(rows.take(n + 1).drop_last() =~= rows.take(n));
        lemma_column_names_prefix(rows, n + 1);
    }
}

pub fn collect_column_names(table: &str, rows: &Vec<Vec<SqlValue>>) -> (r: Result<
    Vec<String>,
    BeadsError,
>)
    ensures
        match r {
            Ok(names) => columns_of(
                table@,
                crate::doctor_subsystems::encoding::row_models(rows@),
            ) == Ok::<Seq<Seq<char>>, ErrorModel>(texts(names@)),
            Err(e) => columns_of(
                table@,
                crate::doctor_subsystems::encoding::row_models(rows@),
            ) == Err::<Seq<Seq<char>>, ErrorModel>(e.model()),
        },
{
    let ghost all = crate::doctor_subsystems::encoding::row_models(rows@);
    if let Err(e) = validate_identifier(table) {
        return Err(e);
    }
    assert(all.len() == rows@.len());
    if rows.len() == 0 {
        return Err(
            internal(text3("doctor: table '", table, "' has no columns (does it exist?)")),
        );
    }
    let mut names: Vec<String> = Vec::new();
    let mut i: usize = 0;
    assert(texts(names@) =~= Seq::<Seq<char>>::empty());
    while i < rows.len()
        invariant
            i <= rows@.len(),
            rows@.len() > 0,
            all == crate::doctor_subsystems::encoding::row_models(rows@),
            identifier_check(table@) is Ok,
            column_names(all.take(i as int)) == Some(texts(names@)),
        decreases rows@.len() - i,
    {
        assert(all.take(i + 1).drop_last() =~= all.take(i as int));
        assert(all.take(i + 1).last() == views(rows@[i as int]@));
        let row = &rows[i];
        assert(views(row@).len() == row@.len());
        let mut found = false;
        if row.len() > 1 {
            assert(views(row@)[1] == row@[1]@);
            if let SqlValue::Text(name) = &row[1] {
                let ghost before = texts(names@);
                names.push(name.clone());
                assert(texts(names@) =~= before.push(name@));
                found = true;
            }
        }
        if !found {
            proof {
                lemma_column_names_prefix(all, i + 1);
            }
            return Err(
                internal(
                    text3(
                        "doctor: PRAGMA table_info(",
                        table,
                        ") returned non-text column name",
                    ),
                ),
            );
        }
        i += 1;
    }
    assert(all.take(all.len() as int) =~= all);
    Ok(names)
}

/// The key under which a snapshot shows bytes.
pub const BLOB_KEY: &'static str = "$blob_b64";

/// A value as a snapshot holds it: bytes are shown in base64, under [`BLOB_KEY`].
#[derive(Debug)]
pub enum SnapshotCell {
    Null,
    Integer(i64),
    /// The IEEE 754 bits of a number; a snapshot shows infinities and NaN as null.
    Float(u64),
    Text(String),
    BlobBase64(String),
}

/// What a [`SnapshotCell`] says.
pub enum CellModel {
    Null,
    Integer(int),
    Float(int),
    Text(Seq<char>),
    BlobBase64(Seq<char>),
}

impl View for SnapshotCell {
    type V = CellModel;

    open spec fn view(&self) -> CellModel {
        match self {
            SnapshotCell::Null => CellModel::Null,
            SnapshotCell::Integer(n) => CellModel::Integer(*n as int),
            SnapshotCell::Float(bits) => CellModel::Float(*bits as int),
            SnapshotCell::Text(s) => CellModel::Text(s@),
            SnapshotCell::BlobBase64(s) => CellModel::BlobBase64(s@),
        }
    }
}

pub open spec fn cell_of(value: SqlModel) -> CellModel {
    match value {
        SqlModel::Null => CellModel::Null,
        SqlModel::Integer(n) => CellModel::Integer(n),
        SqlModel::Float(bits) => CellModel::Float(bits),
        SqlModel::Text(s) => CellModel::Text(s),
        SqlModel::Blob(b) => CellModel::BlobBase64(base64(b)),
    }
}

pub fn sqlite_value_to_json(value: &SqlValue) -> (r: SnapshotCell)
    ensures
        r@ == cell_of(value@),
{
    match value {
        SqlValue::Null => SnapshotCell::Null,
        SqlValue::Integer(n) => SnapshotCell::Integer(*n),
        SqlValue::Float(bits) => SnapshotCell::Float(*bits),
        SqlValue::Text(s) => SnapshotCell::Text(s.clone()),
        SqlValue::Blob(b) => SnapshotCell::BlobBase64(base64_text(b.as_slice())),
    }
}

/// A snapshot tells any two values apart.
pub proof fn law_snapshot_cells_are_faithful(a: SqlModel, b: SqlModel)
    requires
        cell_of(a) == cell_of(b),
    ensures
        a == b,
{
    if let (SqlModel::Blob(x), SqlModel::Blob(y)) = (a, b) {
        lemma_base64_injective(x, y);
    }
}

/// The cells of a row, one for each column; a short row is filled with nulls.
pub fn snapshot_row(columns: usize, row: &Vec<SqlValue>) -> (r: Vec<SnapshotCell>)
    ensures
        r@.len() == columns,
        forall|i: int| 0 <= i < columns ==> (#[trigger] r@[i])@ == cell_of(column(views(row@), i)),
{
    let mut out: Vec<SnapshotCell> = Vec::new();
    let mut i: usize = 0;
    while i < columns
        invariant
            i <= columns,
            out@.len() == i,
            forall|k: int|
                0 <= k < i ==> (#[trigger] out@[k])@ == cell_of(column(views(row@), k)),
        decreases columns - i,
    {
        assert(views(row@).len() == row@.len());
        if i < row.len() {
            assert(views(row@)[i as int] == row@[i as int]@);
            out.push(sqlite_value_to_json(&row[i]));
        } else {
            out.push(SnapshotCell::Null);
        }
        i += 1;
    }
    out
}

/// The steps of a statement under snapshots. A step names the work to do next.
#[derive(Debug, Clone, Copy, PartialEq, Eq, Structural)]
pub enum DbExecStep {
    /// Check the names of the tables.
    Validate,
    /// Open the database.
    Open,
    /// Begin a transaction that keeps other writers out.
    Begin,
    /// Take the snapshot of table number `taken`.
    Snapshot { taken: usize },
    /// Run the statement.
    Execute,
    /// Commit the transaction.
    Commit,
    /// Roll the transaction back and remove the snapshots taken so far.
    RollBack { taken: usize },
    /// Close the database.
    Close,
    /// Close the database after a failure.
    CloseFailed,
    /// The statement took effect.
    Done,
    /// Nothing took effect.
    Failed,
}

/// The snapshot to take next, or the statement where all are taken.
pub open spec fn after_snapshots(taken: int, tables: int) -> DbExecStep {
    if taken < tables {
        DbExecStep::Snapshot { taken: taken as usize }
    } else {
        DbExecStep::Execute
    }
}

/// The step that follows `step`, which succeeded or failed, for a statement that affects
/// this many tables.
pub open spec fn db_exec_after(step: DbExecStep, ok: bool, tables: usize) -> DbExecStep {
    match step {
        DbExecStep::Validate => if ok {
            DbExecStep::Open
        } else {
            DbExecStep::Failed
        },
        DbExecStep::Open => if ok {
            DbExecStep::Begin
        } else {
            DbExecStep::Failed
        },
        DbExecStep::Begin => if ok {
            after_snapshots(0, tables as int)
        } else {
            DbExecStep::CloseFailed
        },
        DbExecStep::Snapshot { taken } => if ok {
            after_snapshots(taken + 1, tables as int)
        } else {
            DbExecStep::RollBack { taken }
        },
        DbExecStep::Execute => if ok {
            DbExecStep::Commit
        } else {
            DbExecStep::RollBack { taken: tables }
        },
        DbExecStep::Commit => if ok {
            DbExecStep::Close
        } else {
            DbExecStep::RollBack { taken: tables }
        },
        DbExecStep::RollBack { .. } => DbExecStep::CloseFailed,
        DbExecStep::Close => DbExecStep::Done,
        DbExecStep::CloseFailed => DbExecStep::Failed,
        DbExecStep::Done => DbExecStep::Done,
        DbExecStep::Failed => DbExecStep::Failed,
    }
}

/// A step within the tables that there are.
pub open spec fn db_exec_sound(step: DbExecStep, tables: usize) -> bool {
    match step {
        DbExecStep::Snapshot { taken } => taken < tables,
        DbExecStep::RollBack { taken } => taken <= tables,
        _ => true,
    }
}

/// The step that follows `step`.
pub fn next_db_exec_step(step: DbExecStep, ok: bool, tables: usize) -> (r: DbExecStep)
    requires
        db_exec_sound(step, tables),
    ensures
        r == db_exec_after(step, ok, tables),
        db_exec_sound(r, tables),
{
    match step {
        DbExecStep::Validate => {
            if ok {
                DbExecStep::Open
            } else {
                DbExecStep::Failed
            }
        },
        DbExecStep::Open => {
            if ok {
                DbExecStep::Begin
            } else {
                DbExecStep::Failed
            }
        },
        DbExecStep::Begin => {
            if !ok {
                DbExecStep::CloseFailed
            } else if 0 < tables {
                DbExecStep::Snapshot { taken: 0 }
            } else {
                DbExecStep::Execute
            }
        },
        DbExecStep::Snapshot { taken } => {
            if !ok {
                DbExecStep::RollBack { taken }
            } else if taken + 1 < tables {
                DbExecStep::Snapshot { taken: taken + 1 }
            } else {
                DbExecStep::Execute
            }
        },
        DbExecStep::Execute => {
            if ok {
                DbExecStep::Commit
            } else {
                DbExecStep::RollBack { taken: tables }
            }
        },
        DbExecStep::Commit => {
            if ok {
                DbExecStep::Close
            } else {
                DbExecStep::RollBack { taken: tables }
            }
        },
        DbExecStep::RollBack { .. } => DbExecStep::CloseFailed,
        DbExecStep::Close => DbExecStep::Done,
        DbExecStep::CloseFailed => DbExecStep::Failed,
        DbExecStep::Done => DbExecStep::Done,
        DbExecStep::Failed => DbExecStep::Failed,
    }
}

/// The step at position `i` is the one that follows the step before it.
pub open spec fn db_exec_follows(steps: Seq<(DbExecStep, bool)>, tables: usize, i: int) -> bool {
    steps[i].0 == db_exec_after(steps[i - 1].0, steps[i - 1].1, tables)
}

/// A course of a statement: the steps taken, each with how it went, from the first on.
pub open spec fn db_exec_course(steps: Seq<(DbExecStep, bool)>, tables: usize) -> bool {
    &&& steps.len() > 0 ==> steps[0].0 == DbExecStep::Validate
    &&& forall|i: int| 0 < i < steps.len() ==> #[trigger] db_exec_follows(steps, tables, i)
}

/// The snapshot of table `k` was taken before position `end`.
pub open spec fn snapshot_taken(steps: Seq<(DbExecStep, bool)>, k: int, end: int) -> bool {
    exists|i: int|
        0 <= i < end && #[trigger] steps[i] == (DbExecStep::Snapshot { taken: k as usize }, true)
}

proof fn lemma_snapshots_before(
    steps: Seq<(DbExecStep, bool)>,
    tables: usize,
    at: int,
    upto: int,
)
    requires
        db_exec_course(steps, tables),
        0 <= at < steps.len(),
        match steps[at].0 {
            DbExecStep::Snapshot { taken } => upto == taken,
            DbExecStep::Execute => upto == tables,
            _ => false,
        },
    ensures
        0 <= upto <= tables,
        forall|k: int| 0 <= k < upto ==> snapshot_taken(steps, k, at),
    decreases at,
{
    if at > 0 {
        assert(db_exec_follows(steps, tables, at));
        let before = steps[at - 1];
        if let DbExecStep::Snapshot { taken } = before.0 {
            lemma_snapshots_before(steps, tables, at - 1, taken as int);
            assert(steps[at - 1] == (DbExecStep::Snapshot { taken }, true));
            assert(snapshot_taken(steps, taken as int, at));
            lemma_taken_in_range(steps, tables, at - 1);
            assert(upto == taken + 1);
            assert forall|k: int| 0 <= k < upto implies snapshot_taken(steps, k, at) by {
                if k < taken {
                    assert(snapshot_taken(steps, k, at - 1));
                    let i = choose|i: int|
                        0 <= i < at - 1 && #[trigger] steps[i] == (
                            DbExecStep::Snapshot { taken: k as usize },
                            true,
                        );
                    assert(steps[i] == (DbExecStep::Snapshot { taken: k as usize }, true));
                }
            }
        } else {
            assert(before.0 == DbExecStep::Begin);
        }
    }
}

proof fn lemma_taken_in_range(steps: Seq<(DbExecStep, bool)>, tables: usize, at: int)
    requires
        db_exec_course(steps, tables),
        0 <= at < steps.len(),
    ensures
        steps[at].0 matches DbExecStep::Snapshot { taken } ==> taken < tables,
    decreases at,
{
    if at > 0 {
        assert(db_exec_follows(steps, tables, at));
        lemma_taken_in_range(steps, tables, at - 1);
    }
}

/// The statement runs only after the snapshot of every affected table was taken.
pub proof fn law_statement_waits_for_snapshots(
    steps: Seq<(DbExecStep, bool)>,
    tables: usize,
    at: int,
    k: int,
)
    requires
        db_exec_course(steps, tables),
        0 <= at < steps.len(),
        steps[at].0 == DbExecStep::Execute,
        0 <= k < tables,
    ensures
        snapshot_taken(steps, k, at),
{
    lemma_snapshots_before(steps, tables, at, tables as int);
}

/// A statement that took effect was committed; one that failed inside its transaction was
/// rolled back.
pub proof fn law_statement_is_all_or_nothing(
    steps: Seq<(DbExecStep, bool)>,
    tables: usize,
    at: int,
)
    requires
        db_exec_course(steps, tables),
        0 <= at < steps.len(),
    ensures
        steps[at].0 == DbExecStep::Close || steps[at].0 == DbExecStep::Done ==> exists|i: int|
            0 <= i < at && #[trigger] steps[i] == (DbExecStep::Commit, true),
        steps[at].0 == DbExecStep::CloseFailed || steps[at].0 == DbExecStep::Failed ==> forall|
            i: int,
        |
            0 <= i < at ==> #[trigger] steps[i] != (DbExecStep::Commit, true),
    decreases at,
{
    if at > 0 {
        assert(db_exec_follows(steps, tables, at));
        law_statement_is_all_or_nothing(steps, tables, at - 1);
        let before = steps[at - 1];
        if before == (DbExecStep::Commit, true) {
            assert(steps[at - 1] == (DbExecStep::Commit, true));
        }
        lemma_no_commit_before(steps, tables, at);
    }
}

/// Up to the commit itself nothing was committed.
proof fn lemma_no_commit_before(steps: Seq<(DbExecStep, bool)>, tables: usize, at: int)
    requires
        db_exec_course(steps, tables),
        0 <= at < steps.len(),
    ensures
        steps[at].0 != DbExecStep::Close && steps[at].0 != DbExecStep::Done ==> forall|i: int|
            0 <= i < at ==> #[trigger] steps[i] != (DbExecStep::Commit, true),
    decreases at,
{
    if at > 0 {
        assert(db_exec_follows(steps, tables, at));
        lemma_no_commit_before(steps, tables, at - 1);
    }
}

/// The steps of a migration of the database. A step names the work to do next.
#[derive(Debug, Clone, Copy, PartialEq, Eq, Structural)]
pub enum DbMigrateStep {
    /// Check that the versions go up.
    CheckRange,
    /// Copy the database, before anything opens it.
    Snapshot,
    /// Open the database and read its version.
    ReadVersion,
    /// Check that the version is the one to start from.
    CheckVersion,
    /// Put the copy back, since opening alone can have changed the database.
    RestoreUntouched,
    /// Remove the copy.
    DiscardSnapshot,
    /// Open the database again.
    Open,
    /// Take the migration steps.
    Migrate,
    /// Put the copy back.
    RestoreSnapshot,
    /// The migration took effect.
    Done,
    /// The migration did not take effect.
    Failed,
}

/// The step that follows `step`, which succeeded or failed.
pub open spec fn db_migrate_after(step: DbMigrateStep, ok: bool) -> DbMigrateStep {
    match (step, ok) {
        (DbMigrateStep::CheckRange, true) => DbMigrateStep::Snapshot,
        (DbMigrateStep::Snapshot, true) => DbMigrateStep::ReadVersion,
        (DbMigrateStep::ReadVersion, true) => DbMigrateStep::CheckVersion,
        (DbMigrateStep::CheckVersion, true) => DbMigrateStep::Open,
        (DbMigrateStep::CheckVersion, false) => DbMigrateStep::RestoreUntouched,
        (DbMigrateStep::RestoreUntouched, true) => DbMigrateStep::DiscardSnapshot,
        (DbMigrateStep::ReadVersion, false) => DbMigrateStep::RestoreSnapshot,
        (DbMigrateStep::Open, false) => DbMigrateStep::RestoreSnapshot,
        (DbMigrateStep::Open, true) => DbMigrateStep::Migrate,
        (DbMigrateStep::Migrate, true) => DbMigrateStep::Done,
        (DbMigrateStep::Migrate, false) => DbMigrateStep::RestoreSnapshot,
        (DbMigrateStep::Done, _) => DbMigrateStep::Done,
        _ => DbMigrateStep::Failed,
    }
}

pub fn next_db_migrate_step(step: DbMigrateStep, ok: bool) -> (r: DbMigrateStep)
    ensures
        r == db_migrate_after(step, ok),
{
    match (step, ok) {
        (DbMigrateStep::CheckRange, true) => DbMigrateStep::Snapshot,
        (DbMigrateStep::Snapshot, true) => DbMigrateStep::ReadVersion,
        (DbMigrateStep::ReadVersion, true) => DbMigrateStep::CheckVersion,
        (DbMigrateStep::CheckVersion, true) => DbMigrateStep::Open,
        (DbMigrateStep::CheckVersion, false) => DbMigrateStep::RestoreUntouched,
        (DbMigrateStep::RestoreUntouched, true) => DbMigrateStep::DiscardSnapshot,
        (DbMigrateStep::ReadVersion, false) => DbMigrateStep::RestoreSnapshot,
        (DbMigrateStep::Open, false) => DbMigrateStep::RestoreSnapshot,
        (DbMigrateStep::Open, true) => DbMigrateStep::Migrate,
        (DbMigrateStep::Migrate, true) => DbMigrateStep::Done,
        (DbMigrateStep::Migrate, false) => DbMigrateStep::RestoreSnapshot,
        (DbMigrateStep::Done, _) => DbMigrateStep::Done,
        _ => DbMigrateStep::Failed,
    }
}

/// The step at position `i` is the one that follows the step before it.
pub open spec fn db_migrate_follows(steps: Seq<(DbMigrateStep, bool)>, i: int) -> bool {
    steps[i].0 == db_migrate_after(steps[i - 1].0, steps[i - 1].1)
}

/// A course of a migration: the steps taken, each with how it went, from the first on.
pub open spec fn db_migrate_course(steps: Seq<(DbMigrateStep, bool)>) -> bool {
    &&& steps.len() > 0 ==> steps[0].0 == DbMigrateStep::CheckRange
    &&& forall|i: int| 0 < i < steps.len() ==> #[trigger] db_migrate_follows(steps, i)
}

/// The step works on the database, behind the copy of it.
pub open spec fn opens_database(step: DbMigrateStep) -> bool {
    step == DbMigrateStep::ReadVersion || step == DbMigrateStep::CheckVersion || step
        == DbMigrateStep::Open || step == DbMigrateStep::Migrate
}

/// A migration is tried only on a database that was copied and has the version to start
/// from. Where anything fails once the copy was made, the copy is put back before the failure
/// is told, and it is removed only once it is back.
pub proof fn law_migration_keeps_a_way_back(steps: Seq<(DbMigrateStep, bool)>, at: int)
    requires
        db_migrate_course(steps),
        0 <= at < steps.len(),
    ensures
        steps[at].0 == DbMigrateStep::Migrate ==> at == 5 && steps[1] == (
            DbMigrateStep::Snapshot,
            true,
        ) && steps[3] == (DbMigrateStep::CheckVersion, true),
        opens_database(steps[at].0) && !steps[at].1 && at + 1 < steps.len() ==> steps[at + 1].0
            == DbMigrateStep::RestoreSnapshot || steps[at + 1].0
            == DbMigrateStep::RestoreUntouched,
        steps[at].0 == DbMigrateStep::DiscardSnapshot ==> steps[at - 1] == (
            DbMigrateStep::RestoreUntouched,
            true,
        ),
{
    if at + 1 < steps.len() {
        assert(db_migrate_follows(steps, at + 1));
    }
    if at > 0 {
        assert(db_migrate_follows(steps, at));
    }
    if at > 1 {
        assert(db_migrate_follows(steps, at - 1));
    }
    if at > 2 {
        assert(db_migrate_follows(steps, at - 2));
    }
    if at > 3 {
        assert(db_migrate_follows(steps, at - 3));
    }
    if at > 4 {
        assert(db_migrate_follows(steps, at - 4));
    }
    if at > 5 {
        assert(db_migrate_follows(steps, at - 5));
    }
}

/// A migration goes up.
pub fn migrate_range_check(from: u32, to: u32) -> (r: Result<(), BeadsError>)
    ensures
        checked(r) == if to > from {
            Ok(())
        } else {
            Err(
                ErrorModel::Internal(
                    "doctor: db migrate refused — to ("@ + decimal(to as nat)
                        + ") must be > from ("@ + decimal(from as nat) + ")"@,
                ),
            )
        },
        r is Ok <==> to > from,
{
    if to <= from {
        let new = decimal_text(to as u64);
        let old = decimal_text(from as u64);
        return Err(
            internal(
                text5(
                    "doctor: db migrate refused — to (",
                    new.as_str(),
                    ") must be > from (",
                    old.as_str(),
                    ")",
                ),
            ),
        );
    }
    Ok(())
}

/// The version in the row that `PRAGMA user_version` returned, 0 where there is none.
pub open spec fn version_in(row: Seq<SqlModel>) -> int {
    match column(row, 0) {
        SqlModel::Integer(n) => if 0 <= n <= u32::MAX {
            n
        } else {
            0
        },
        _ => 0,
    }
}

/// The database has the version that the migration starts from.
pub fn migrate_version_check(from: u32, row: &Vec<SqlValue>) -> (r: Result<(), BeadsError>)
    ensures
        checked(r) == if version_in(views(row@)) == from {
            Ok(())
        } else {
            Err(
                ErrorModel::Internal(
                    "doctor: db migrate refused — user_version mismatch (expected "@ + decimal(
                        from as nat,
                    ) + ", got "@ + decimal(version_in(views(row@)) as nat) + ")"@,
                ),
            )
        },
        r is Ok <==> version_in(views(row@)) == from,
{
    let mut current: u32 = 0;
    assert(views(row@).len() == row@.len());
    if row.len() > 0 {
        assert(views(row@)[0] == row@[0]@);
        if let SqlValue::Integer(n) = &row[0] {
            if 0 <= *n && *n <= 0xffff_ffff {
                current = *n as u32;
            }
        }
    }
    if current != from {
        let wanted = decimal_text(from as u64);
        let found = decimal_text(current as u64);
        return Err(
            internal(
                text5(
                    "doctor: db migrate refused — user_version mismatch (expected ",
                    wanted.as_str(),
                    ", got ",
                    found.as_str(),
                    ")",
                ),
            ),
        );
    }
    Ok(())
}

/// What is reported of a migration that failed, after the database was restored or not.
pub fn migrate_failed_error(error: BeadsError, shown: &str, restore: &Result<(), String>) -> (r:
    BeadsError)
    ensures
        match *restore {
            Ok(()) => r.model() == error.model(),
            Err(e) => r.model() == ErrorModel::Internal(
                "doctor: db migrate failed ("@ + shown@
                    + "); restore from snapshot also failed: "@ + e@,
            ),
        },
{
    match restore {
        Ok(()) => error,
        Err(e) => {
            let mut out = text3(
                "doctor: db migrate failed (",
                shown,
                "); restore from snapshot also failed: ",
            );
            out.append(e.as_str());
            internal(out)
        },
    }
}

/// A snapshot file and the digest of what was written to it.
#[derive(Debug)]
pub struct DbSnapshotArtifact {
    pub path: String,
    pub sha256_prefixed: String,
}

/// The artifact of a snapshot that is written with this body.
pub fn snapshot_artifact(path: &str, body: &Vec<u8>) -> (r: DbSnapshotArtifact)
    ensures
        r.path@ == path@,
        r.sha256_prefixed@ == sha256_prefixed(body@),
{
    DbSnapshotArtifact {
        path: path.to_owned(),
        sha256_prefixed: sha256_hex_prefixed(body.as_slice()),
    }
}

/// The line that records a change of the database.
#[derive(Debug)]
pub struct DbActionRecord {
    pub path: String,
    pub op: &'static str,
    pub before_hash: String,
    pub after_hash: String,
    pub started_at_ns: u128,
    pub finished_at_ns: u128,
    pub run_id: String,
    pub fixer_id: String,
    pub ok: bool,
    pub affected_tables: Option<String>,
    pub affected_predicate: Option<String>,
    pub db_snapshots: Vec<String>,
    pub db_snapshot_sha256: Vec<String>,
    pub migrate_from: Option<u32>,
    pub migrate_to: Option<u32>,
}

/// What a [`DbActionRecord`] says.
#[verifier::ext_equal]
pub struct DbRecordModel {
    pub path: Seq<char>,
    pub op: Seq<char>,
    pub before_hash: Seq<char>,
    pub after_hash: Seq<char>,
    pub started_at_ns: u128,
    pub finished_at_ns: u128,
    pub run_id: Seq<char>,
    pub fixer_id: Seq<char>,
    pub ok: bool,
    pub affected_tables: Option<Seq<char>>,
    pub affected_predicate: Option<Seq<char>>,
    pub db_snapshots: Seq<Seq<char>>,
    pub db_snapshot_sha256: Seq<Seq<char>>,
    pub migrate_from: Option<u32>,
    pub migrate_to: Option<u32>,
}

impl View for DbActionRecord {
    type V = DbRecordModel;

    open spec fn view(&self) -> DbRecordModel {
        DbRecordModel {
            path: self.path@,
            op: self.op@,
            before_hash: self.before_hash@,
            after_hash: self.after_hash@,
            started_at_ns: self.started_at_ns,
            finished_at_ns: self.finished_at_ns,
            run_id: self.run_id@,
            fixer_id: self.fixer_id@,
            ok: self.ok,
            affected_tables: opt_text(self.affected_tables),
            affected_predicate: opt_text(self.affected_predicate),
            db_snapshots: texts(self.db_snapshots@),
            db_snapshot_sha256: texts(self.db_snapshot_sha256@),
            migrate_from: self.migrate_from,
            migrate_to: self.migrate_to,
        }
    }
}

/// The affected tables in one text, none where there are none.
pub open spec fn table_summary(op: Op) -> Option<Seq<char>> {
    match op {
        Op::DbExec { affected_tables, .. } => if affected_tables@.len() == 0 {
            None
        } else {
            Some(join(texts(affected_tables@), ","@))
        },
        _ => None,
    }
}

/// The snapshots, as a record names them.
pub open spec fn snapshot_paths(artifacts: Seq<DbSnapshotArtifact>, root: Seq<char>) -> Seq<
    Seq<char>,
> {
    artifacts.map_values(|a: DbSnapshotArtifact| relative_to(a.path@, root))
}

/// The digests of the snapshots, in the same order.
pub open spec fn snapshot_digests(artifacts: Seq<DbSnapshotArtifact>) -> Seq<Seq<char>> {
    artifacts.map_values(|a: DbSnapshotArtifact| a.sha256_prefixed@)
}

/// The record of a change of the database that took effect.
pub open spec fn db_record_of(
    ctx: MutateContext,
    op: Op,
    path: Seq<char>,
    before_hash: Seq<char>,
    after: Option<Seq<u8>>,
    started_at_ns: u128,
    now_ns: u128,
    artifacts: Seq<DbSnapshotArtifact>,
) -> DbRecordModel {
    DbRecordModel {
        path: relative_to(path, ctx.repo_root@),
        op: op_name(op),
        before_hash,
        after_hash: file_hash(after),
        started_at_ns,
        finished_at_ns: elapsed(now_ns, ctx.start_ns),
        run_id: ctx.run_id@,
        fixer_id: ctx.fixer_id@,
        ok: true,
        affected_tables: table_summary(op),
        affected_predicate: match op {
            Op::DbExec { affected_predicate, .. } => opt_text(affected_predicate),
            _ => None,
        },
        db_snapshots: snapshot_paths(artifacts, ctx.repo_root@),
        db_snapshot_sha256: snapshot_digests(artifacts),
        migrate_from: match op {
            Op::DbMigrate { from, .. } => Some(from),
            _ => None,
        },
        migrate_to: match op {
            Op::DbMigrate { to, .. } => Some(to),
            _ => None,
        },
    }
}

/// The record and the result of a change of the database, once it took effect. A migration
/// has no row snapshots.
pub fn mutate_db(
    ctx: &MutateContext,
    op: &Op,
    path: &str,
    before_hash: &str,
    after: &Option<Vec<u8>>,
    started_at_ns: u128,
    now_ns: u128,
    artifacts: &Vec<DbSnapshotArtifact>,
) -> (r: (DbActionRecord, ActionResult))
    requires
        *op is DbExec || (*op is DbMigrate && artifacts@.len() == 0),
    ensures
        r.0@ == db_record_of(
            *ctx,
            *op,
            path@,
            before_hash@,
            opt_bytes(*after),
            started_at_ns,
            now_ns,
            artifacts@,
        ),
        r.1@ == (ResultModel {
            ok: true,
            before_hash: before_hash@,
            after_hash: file_hash(opt_bytes(*after)),
            error: None,
        }),
{
    let after_hash = file_hash_text(after);
    let mut db_snapshots: Vec<String> = Vec::new();
    let mut db_snapshot_sha256: Vec<String> = Vec::new();
    let ghost paths = snapshot_paths(artifacts@, ctx.repo_root@);
    let ghost digests = snapshot_digests(artifacts@);
    let mut i: usize = 0;
    while i < artifacts.len()
        invariant
            i <= artifacts@.len(),
            paths == snapshot_paths(artifacts@, ctx.repo_root@),
            digests == snapshot_digests(artifacts@),
            texts(db_snapshots@) == paths.take(i as int),
            texts(db_snapshot_sha256@) == digests.take(i as int),
        decreases artifacts@.len() - i,
    {
        let ghost (a, b) = (texts(db_snapshots@), texts(db_snapshot_sha256@));
        let shown = relative_path(artifacts[i].path.as_str(), ctx.repo_root.as_str());
        let ghost s = shown@;
        db_snapshots.push(shown);
        db_snapshot_sha256.push(artifacts[i].sha256_prefixed.clone());
        assert(texts(db_snapshots@) =~= a.push(s));
        assert(texts(db_snapshot_sha256@) =~= b.push(artifacts@[i as int].sha256_prefixed@));
        i += 1;
        assert(texts(db_snapshots@) =~= paths.take(i as int));
        assert(texts(db_snapshot_sha256@) =~= digests.take(i as int));
    }
    assert(texts(db_snapshots@) =~= paths);
    assert(texts(db_snapshot_sha256@) =~= digests);
    let mut affected_tables: Option<String> = None;
    let mut affected_predicate: Option<String> = None;
    let mut migrate_from: Option<u32> = None;
    let mut migrate_to: Option<u32> = None;
    match op {
        Op::DbExec { affected_tables: tables, affected_predicate: predicate, .. } => {
            if tables.len() > 0 {
                affected_tables = Some(joined(tables, ","));
            }
            affected_predicate =
            match predicate {
                Some(p) => Some(p.clone()),
                None => None,
            };
        },
        Op::DbMigrate { from, to } => {
            migrate_from = Some(*from);
            migrate_to = Some(*to);
        },
        _ => {},
    }
    let result = ActionResult {
        ok: true,
        before_hash: before_hash.to_owned(),
        after_hash: after_hash.clone(),
        error: None,
    };
    let record = DbActionRecord {
        path: relative_path(path, ctx.repo_root.as_str()),
        op: op.name(),
        before_hash: before_hash.to_owned(),
        after_hash,
        started_at_ns,
        finished_at_ns: elapsed_ns(now_ns, ctx.start_ns),
        run_id: ctx.run_id.clone(),
        fixer_id: ctx.fixer_id.clone(),
        ok: true,
        affected_tables,
        affected_predicate,
        db_snapshots,
        db_snapshot_sha256,
        migrate_from,
        migrate_to,
    };
    (record, result)
}

} // verus!
