//! The byte encoding of database rows under a logical witness.

use crate::sorting::{bytes_le, law_lex_connected, law_lex_transitive, sorted, stable_sort, views};
use vstd::bytes::{lemma_auto_spec_u64_to_from_le_bytes, spec_u64_to_le_bytes, u64_to_le_bytes};
use vstd::prelude::*;
use vstd::string::*;
use vstd::utf8::{encode_utf8, encode_utf8_decode_utf8};

verus! {

broadcast use vstd::string::group_string_axioms;

/// A value of a database row. A floating-point number is held by its IEEE 754 bits.
pub enum SqlValue {
    Null,
    Integer(i64),
    Float(u64),
    Text(String),
    Blob(Vec<u8>),
}

/// What a database value is.
pub enum SqlModel {
    Null,
    Integer(int),
    Float(int),
    Text(Seq<char>),
    Blob(Seq<u8>),
}

impl View for SqlValue {
    type V = SqlModel;

    open spec fn view(&self) -> SqlModel {
        match self {
            SqlValue::Null => SqlModel::Null,
            SqlValue::Integer(n) => SqlModel::Integer(*n as int),
            SqlValue::Float(bits) => SqlModel::Float(*bits as int),
            SqlValue::Text(s) => SqlModel::Text(s@),
            SqlValue::Blob(b) => SqlModel::Blob(b@),
        }
    }
}

/// A length as eight bytes, the lowest first, then the bytes themselves.
pub open spec fn len_prefixed(bytes: Seq<u8>) -> Seq<u8> {
    spec_u64_to_le_bytes(bytes.len() as u64) + bytes
}

/// One tag byte, then the value: eight bytes for a number, a length-prefixed string for
/// text and blobs.
pub open spec fn encoded(value: SqlModel) -> Seq<u8> {
    match value {
        SqlModel::Null => seq![0u8],
        SqlModel::Integer(n) => seq![1u8] + spec_u64_to_le_bytes(n as i64 as u64),
        SqlModel::Float(bits) => seq![2u8] + spec_u64_to_le_bytes(bits as u64),
        SqlModel::Text(s) => seq![3u8] + len_prefixed(encode_utf8(s)),
        SqlModel::Blob(b) => seq![4u8] + len_prefixed(b),
    }
}

fn append_bytes(output: &mut Vec<u8>, bytes: &[u8])
    ensures
        final(output)@ == old(output)@ + bytes@,
{
    let ghost before = output@;
    let mut i: usize = 0;
    while i < bytes.len()
        invariant
            i <= bytes@.len(),
            output@ == before + bytes@.take(i as int),
        decreases bytes@.len() - i,
    {
        output.push(bytes[i]);
        i += 1;
        assert(output@ =~= before + bytes@.take(i as int));
    }
    assert(output@ =~= before + bytes@);
}

/// Appends the length of `bytes` and the bytes.
pub fn append_len_prefixed(output: &mut Vec<u8>, bytes: &[u8])
    ensures
        final(output)@ == old(output)@ + len_prefixed(bytes@),
{
    let prefix = u64_to_le_bytes(bytes.len() as u64);
    append_bytes(output, prefix.as_slice());
    append_bytes(output, bytes);
    assert(output@ =~= old(output)@ + len_prefixed(bytes@));
}

/// Appends the encoding of `value`.
pub fn encode_sqlite_value(output: &mut Vec<u8>, value: &SqlValue)
    ensures
        final(output)@ == old(output)@ + encoded(value@),
{
    match value {
        SqlValue::Null => {
            output.push(0);
        },
        SqlValue::Integer(n) => {
            output.push(1);
            let bytes = u64_to_le_bytes(*n as u64);
            append_bytes(output, bytes.as_slice());
        },
        SqlValue::Float(bits) => {
            output.push(2);
            let bytes = u64_to_le_bytes(*bits);
            append_bytes(output, bytes.as_slice());
        },
        SqlValue::Text(s) => {
            output.push(3);
            append_len_prefixed(output, s.as_str().as_bytes());
        },
        SqlValue::Blob(b) => {
            output.push(4);
            append_len_prefixed(output, b.as_slice());
        },
    }
    assert(output@ =~= old(output)@ + encoded(value@));
}

/// The value in column `index`, null where the row is shorter.
pub open spec fn column(row: Seq<SqlModel>, index: int) -> SqlModel {
    if 0 <= index < row.len() {
        row[index]
    } else {
        SqlModel::Null
    }
}

/// The encodings of the first `columns` values of a row, end to end.
pub open spec fn encoded_row(row: Seq<SqlModel>, columns: nat) -> Seq<u8>
    decreases columns,
{
    if columns == 0 {
        Seq::empty()
    } else {
        encoded_row(row, (columns - 1) as nat) + encoded(column(row, columns - 1))
    }
}

pub fn encode_row(row: &Vec<SqlValue>, columns: usize) -> (r: Vec<u8>)
    ensures
        r@ == encoded_row(views(row@), columns as nat),
{
    let mut out: Vec<u8> = Vec::new();
    let mut i: usize = 0;
    while i < columns
        invariant
            i <= columns,
            out@ == encoded_row(views(row@), i as nat),
        decreases columns - i,
    {
        assert(views(row@).len() == row@.len());
        if i < row.len() {
            assert(views(row@)[i as int] == row@[i as int]@);
            encode_sqlite_value(&mut out, &row[i]);
        } else {
            encode_sqlite_value(&mut out, &SqlValue::Null);
        }
        i += 1;
    }
    out
}

/// The rows of a table.
pub open spec fn row_models(rows: Seq<Vec<SqlValue>>) -> Seq<Seq<SqlModel>> {
    rows.map_values(|r: Vec<SqlValue>| views(r@))
}

/// The encodings of the rows of a table, in the order of the rows.
pub open spec fn encoded_rows(rows: Seq<Seq<SqlModel>>, columns: nat) -> Seq<Seq<u8>> {
    rows.map_values(|r: Seq<SqlModel>| encoded_row(r, columns))
}

/// The encodings of the rows of a table, in ascending order.
pub open spec fn canonical_rows(rows: Seq<Seq<SqlModel>>, columns: nat) -> Seq<Seq<u8>> {
    stable_sort(encoded_rows(rows, columns), |a: Seq<u8>, b: Seq<u8>| bytes_le(a, b))
}

pub fn encode_rows(rows: &Vec<Vec<SqlValue>>, columns: usize) -> (r: Vec<Vec<u8>>)
    ensures
        views(r@) == canonical_rows(row_models(rows@), columns as nat),
        r@.len() == rows@.len(),
{
    let ghost all = encoded_rows(row_models(rows@), columns as nat);
    let mut out: Vec<Vec<u8>> = Vec::new();
    let mut i: usize = 0;
    while i < rows.len()
        invariant
            i <= rows@.len(),
            all == encoded_rows(row_models(rows@), columns as nat),
            views(out@) == all.take(i as int),
        decreases rows@.len() - i,
    {
        let ghost before = views(out@);
        let row = encode_row(&rows[i], columns);
        let ghost shown = row@;
        out.push(row);
        i += 1;
        assert(views(out@) =~= before.push(shown));
        assert(views(out@) =~= all.take(i as int));
    }
    assert(views(out@) =~= all);
    proof {
        crate::sorting::law_sort_is_permutation(
            all,
            |a: Seq<u8>, b: Seq<u8>| <Vec<u8> as crate::sorting::Ranked>::ranks_le(a, b),
        );
    }
    let r = sorted(out);
    assert(views(r@).len() == r@.len());
    assert(views(r@) == canonical_rows(row_models(rows@), columns as nat)) by {
        assert((|a: Seq<u8>, b: Seq<u8>| <Vec<u8> as crate::sorting::Ranked>::ranks_le(a, b))
            =~= (|a: Seq<u8>, b: Seq<u8>| bytes_le(a, b)));
    }
    r
}

proof fn lemma_le_bytes_front(a: u64, b: u64, x: Seq<u8>, y: Seq<u8>)
    requires
        spec_u64_to_le_bytes(a) + x == spec_u64_to_le_bytes(b) + y,
    ensures
        a == b,
        x == y,
{
    lemma_auto_spec_u64_to_from_le_bytes();
    let (p, q) = (spec_u64_to_le_bytes(a), spec_u64_to_le_bytes(b));
    assert(p.len() == 8 && q.len() == 8);
    assert((p + x).take(8) =~= p);
    assert((q + y).take(8) =~= q);
    assert((p + x).skip(8) =~= x);
    assert((q + y).skip(8) =~= y);
}

/// A length-prefixed string can be read off the front of a byte string.
pub proof fn law_len_prefixed_readable(a: Seq<u8>, b: Seq<u8>, x: Seq<u8>, y: Seq<u8>)
    requires
        a.len() <= u64::MAX,
        b.len() <= u64::MAX,
        len_prefixed(a) + x == len_prefixed(b) + y,
    ensures
        a == b,
        x == y,
{
    assert(len_prefixed(a) + x =~= spec_u64_to_le_bytes(a.len() as u64) + (a + x));
    assert(len_prefixed(b) + y =~= spec_u64_to_le_bytes(b.len() as u64) + (b + y));
    lemma_le_bytes_front(a.len() as u64, b.len() as u64, a + x, b + y);
    assert((a + x).take(a.len() as int) =~= a);
    assert((b + y).take(b.len() as int) =~= b);
    assert((a + x).skip(a.len() as int) =~= x);
    assert((b + y).skip(b.len() as int) =~= y);
}

/// A database value that a machine can hold.
pub open spec fn storable(value: SqlModel) -> bool {
    match value {
        SqlModel::Null => true,
        SqlModel::Integer(n) => i64::MIN <= n <= i64::MAX,
        SqlModel::Float(bits) => 0 <= bits <= u64::MAX,
        SqlModel::Text(s) => encode_utf8(s).len() <= u64::MAX,
        SqlModel::Blob(b) => b.len() <= u64::MAX,
    }
}

/// An encoded value can be read off the front of a byte string, so no two values, with
/// whatever follows them, are encoded alike.
pub proof fn law_encoding_readable(a: SqlModel, b: SqlModel, x: Seq<u8>, y: Seq<u8>)
    requires
        storable(a),
        storable(b),
        encoded(a) + x == encoded(b) + y,
    ensures
        a == b,
        x == y,
{
    let (l, r) = (encoded(a) + x, encoded(b) + y);
    assert(l[0] == encoded(a)[0]);
    assert(r[0] == encoded(b)[0]);
    match (a, b) {
        (SqlModel::Null, SqlModel::Null) => {
            assert(l.skip(1) =~= x);
            assert(r.skip(1) =~= y);
        },
        (SqlModel::Integer(m), SqlModel::Integer(n)) => {
            let (p, q) = (m as i64, n as i64);
            assert(l.skip(1) =~= spec_u64_to_le_bytes(p as u64) + x);
            assert(r.skip(1) =~= spec_u64_to_le_bytes(q as u64) + y);
            lemma_le_bytes_front(p as u64, q as u64, x, y);
            assert(p == q) by (bit_vector)
                requires
                    p as u64 == q as u64,
            ;
        },
        (SqlModel::Float(m), SqlModel::Float(n)) => {
            assert(l.skip(1) =~= spec_u64_to_le_bytes(m as u64) + x);
            assert(r.skip(1) =~= spec_u64_to_le_bytes(n as u64) + y);
            lemma_le_bytes_front(m as u64, n as u64, x, y);
        },
        (SqlModel::Text(s), SqlModel::Text(t)) => {
            assert(l.skip(1) =~= len_prefixed(encode_utf8(s)) + x);
            assert(r.skip(1) =~= len_prefixed(encode_utf8(t)) + y);
            law_len_prefixed_readable(encode_utf8(s), encode_utf8(t), x, y);
            encode_utf8_decode_utf8(s);
            encode_utf8_decode_utf8(t);
        },
        (SqlModel::Blob(s), SqlModel::Blob(t)) => {
            assert(l.skip(1) =~= len_prefixed(s) + x);
            assert(r.skip(1) =~= len_prefixed(t) + y);
            law_len_prefixed_readable(s, t, x, y);
        },
        _ => {},
    }
}

/// Every value of the row that the encoding looks at is storable.
pub open spec fn storable_row(row: Seq<SqlModel>, columns: nat) -> bool {
    forall|i: int| 0 <= i < columns ==> storable(#[trigger] column(row, i))
}

/// The encodings of columns `from..columns`, end to end.
spec fn encoded_tail(row: Seq<SqlModel>, from: nat, columns: nat) -> Seq<u8>
    decreases columns - from,
{
    if from >= columns {
        Seq::empty()
    } else {
        encoded(column(row, from as int)) + encoded_tail(row, from + 1, columns)
    }
}

proof fn lemma_row_split(row: Seq<SqlModel>, at: nat, columns: nat)
    requires
        at <= columns,
    ensures
        encoded_row(row, columns) == encoded_row(row, at) + encoded_tail(row, at, columns),
    decreases columns - at,
{
    if at == columns {
        assert(encoded_row(row, at) + encoded_tail(row, at, columns) =~= encoded_row(row, columns));
    } else {
        lemma_row_split(row, at + 1, columns);
        assert(encoded_row(row, at + 1) + encoded_tail(row, at + 1, columns) =~= encoded_row(row, at)
            + encoded_tail(row, at, columns));
    }
}

proof fn lemma_tail_readable(a: Seq<SqlModel>, b: Seq<SqlModel>, from: nat, columns: nat)
    requires
        from <= columns,
        storable_row(a, columns),
        storable_row(b, columns),
        encoded_tail(a, from, columns) == encoded_tail(b, from, columns),
    ensures
        forall|i: int| from <= i < columns ==> #[trigger] column(a, i) == column(b, i),
    decreases columns - from,
{
    if from < columns {
        law_encoding_readable(
            column(a, from as int),
            column(b, from as int),
            encoded_tail(a, from + 1, columns),
            encoded_tail(b, from + 1, columns),
        );
        lemma_tail_readable(a, b, from + 1, columns);
    }
}

/// Rows are encoded alike only where they hold the same values.
pub proof fn law_row_encoding_injective(a: Seq<SqlModel>, b: Seq<SqlModel>, columns: nat)
    requires
        storable_row(a, columns),
        storable_row(b, columns),
        encoded_row(a, columns) == encoded_row(b, columns),
    ensures
        forall|i: int| 0 <= i < columns ==> #[trigger] column(a, i) == column(b, i),
{
    lemma_row_split(a, 0, columns);
    lemma_row_split(b, 0, columns);
    assert(encoded_row(a, columns) =~= encoded_tail(a, 0, columns));
    assert(encoded_row(b, columns) =~= encoded_tail(b, 0, columns));
    lemma_tail_readable(a, b, 0, columns);
}

proof fn lemma_bytes_order()
    ensures
        vstd::relations::total_ordering(|a: Seq<u8>, b: Seq<u8>| bytes_le(a, b)),
{
    let le = |a: Seq<u8>, b: Seq<u8>| bytes_le(a, b);
    let ints = |a: Seq<u8>| a.map_values(|x: u8| x as int);
    assert forall|a: Seq<u8>, b: Seq<u8>|
        (#[trigger] le(a, b) || le(b, a)) && (le(a, b) && le(b, a) ==> a == b) by {
        law_lex_connected(ints(a), ints(b));
        if le(a, b) && le(b, a) {
            assert(ints(a).len() == a.len() && ints(b).len() == b.len());
            assert forall|i: int| 0 <= i < a.len() implies a[i] == b[i] by {
                assert(ints(a)[i] == ints(b)[i]);
            }
            assert(a =~= b);
        }
    }
    assert forall|a: Seq<u8>, b: Seq<u8>, c: Seq<u8>| #[trigger]
        le(a, b) && #[trigger] le(b, c) implies le(a, c) by {
        law_lex_transitive(ints(a), ints(b), ints(c));
    }
    assert forall|a: Seq<u8>| #[trigger] le(a, a) by {
        assert(le(a, a) || le(a, a));
    }
}

/// The order in which a table hands out its rows does not show in the witness.
pub proof fn law_row_order_irrelevant(
    a: Seq<Seq<SqlModel>>,
    b: Seq<Seq<SqlModel>>,
    columns: nat,
)
    requires
        encoded_rows(a, columns).to_multiset() == encoded_rows(b, columns).to_multiset(),
    ensures
        canonical_rows(a, columns) == canonical_rows(b, columns),
{
    let le = |x: Seq<u8>, y: Seq<u8>| bytes_le(x, y);
    let (p, q) = (canonical_rows(a, columns), canonical_rows(b, columns));
    lemma_bytes_order();
    crate::sorting::law_sort_is_permutation(encoded_rows(a, columns), le);
    crate::sorting::law_sort_is_permutation(encoded_rows(b, columns), le);
    crate::sorting::law_sort_is_sorted(encoded_rows(a, columns), le);
    crate::sorting::law_sort_is_sorted(encoded_rows(b, columns), le);
    vstd::seq_lib::lemma_sorted_unique(p, q, le);
}

} // verus!
