//! Promises of the files of a database and of the witnesses of what they hold.

use crate::digest::sha256_hex;
use crate::doctor_subsystems::encoding::{column, encoded, encoded_row, SqlModel};
use crate::doctor_subsystems::family::{
    absent_family, backup_check, backup_path, component_seen, digest_text, family_suffixes,
    family_usable, find_component, holds_component, quarantine_action, receipt_readable,
    regular_file, restore_action, sidecar_suffixes, stable_components, valid_component,
    valid_family, ObservedModel, QuarantineAction, RestoreAction,
};
use crate::doctor_subsystems::witness::{
    contents_material, count_in, database_witness, diagnostics, integrity_clean, integrity_messages,
    integrity_repairable, match_except_integrity, named_rows, neutral_line, quoted_identifier,
    repairable_line, schema_material, schema_row_material, ComponentModel, LogicalModel,
    TableDumpModel,
};
use crate::error::ErrorModel;
use crate::paths::{file_name, join_path};
use crate::text::{ascii_lowercase, lines, occurs, trim};
use vstd::prelude::*;
use vstd::string::*;
use vstd::utf8::encode_utf8;

verus! {

broadcast use vstd::string::group_string_axioms;

/// A database lies in four files: its own, and those of its log, its shared memory and its
/// journal.
pub proof fn law_databases_have_four_files()
    ensures
        family_suffixes().len() == 4,
        family_suffixes()[0].len() == 0,
        family_suffixes()[1] == "-wal"@,
        family_suffixes()[2] == "-shm"@,
        family_suffixes()[3] == "-journal"@,
{
    reveal_strlit("");
}

/// A backup of a file lies under the same name in the directory of backups.
pub proof fn law_backups_keep_the_name(
    dir: Seq<char>,
    db: Seq<char>,
    suffix: Seq<char>,
    name: Seq<char>,
)
    ensures
        file_name(db) == Some(name) ==> backup_path(dir, db, suffix) == Ok::<
            Seq<char>,
            ErrorModel,
        >(join_path(dir, name + suffix)),
        file_name(db) is None ==> backup_path(dir, db, suffix) == Err::<Seq<char>, ErrorModel>(
            ErrorModel::Internal("database path has no file name: "@ + db),
        ),
{
}

/// A file may be missing or be a regular one; a link and anything else is refused.
pub proof fn law_only_regular_files_are_used(seen: ObservedModel, path: Seq<char>)
    ensures
        regular_file(seen, path) == Ok::<bool, ErrorModel>(true) <==> seen is Regular,
        regular_file(seen, path) == Ok::<bool, ErrorModel>(false) <==> seen is Missing,
        regular_file(seen, path) is Err <==> seen is Symlink || seen is Irregular,
        seen is Symlink ==> regular_file(seen, path)->Err_0 == ErrorModel::Internal(
            "refusing schema migration file-family symlink "@ + path,
        ),
        seen is Irregular ==> regular_file(seen, path)->Err_0 == ErrorModel::Internal(
            "schema migration family member is not a regular file: "@ + path,
        ),
{
}

/// A database can be used exactly where its own file is there and none of the others is
/// anything but a regular file.
pub proof fn law_databases_need_their_own_file(db: Seq<char>, seen: Seq<ObservedModel>)
    requires
        seen.len() == 4,
    ensures
        family_usable(db, seen) is Ok <==> seen[0] is Regular && (seen[1] is Regular
            || seen[1] is Missing) && (seen[2] is Regular || seen[2] is Missing) && (
        seen[3] is Regular || seen[3] is Missing),
        seen[0] is Missing ==> family_usable(db, seen) == Err::<(), ErrorModel>(
            ErrorModel::DatabaseNotFound { path: db },
        ),
{
}

/// A place for a database is free exactly where none of its four files is there.
pub proof fn law_a_free_place_has_no_file(base: Seq<char>, seen: Seq<ObservedModel>)
    requires
        seen.len() == 4,
    ensures
        absent_family(base, seen, 0) is Ok <==> seen[0] is Missing && seen[1] is Missing
            && seen[2] is Missing && seen[3] is Missing,
{
    reveal_with_fuel(absent_family, 5);
}

/// The witness of a file that is there holds its length, its digest and its mode; that of one
/// that is not holds nothing.
pub proof fn law_witnesses_hold_what_was_seen(
    suffix: Seq<char>,
    length: u64,
    digest: Seq<char>,
    mode: Option<u32>,
)
    ensures
        ({
            let c = component_seen(
                suffix,
                ObservedModel::Regular { length, sha256: digest },
                mode,
            );
            c.suffix == suffix && c.present && c.length == Some(length) && c.sha256 == Some(digest)
                && c.unix_mode == mode
        }),
        ({
            let c = component_seen(suffix, ObservedModel::Missing, mode);
            c.suffix == suffix && !c.present && c.length is None && c.sha256 is None
                && c.unix_mode is None
        }),
{
}

/// A witness is found by its suffix, the first that has it.
pub proof fn law_witnesses_are_found_by_suffix(
    family: Seq<ComponentModel>,
    suffix: Seq<char>,
    i: int,
)
    ensures
        0 <= i < family.len() && family[i].suffix == suffix && (forall|j: int|
            0 <= j < i ==> (#[trigger] family[j]).suffix != suffix) ==> find_component(
            family,
            suffix,
        ) == Some(family[i]),
        (forall|j: int| 0 <= j < family.len() ==> (#[trigger] family[j]).suffix != suffix)
            ==> find_component(family, suffix) is None,
    decreases family.len(),
{
    if family.len() > 0 {
        let rest = family.skip(1);
        law_witnesses_are_found_by_suffix(rest, suffix, i - 1);
        assert forall|j: int| 0 <= j < rest.len() implies #[trigger] rest[j] == family[j + 1] by {}
    }
}

/// A digest is sixty-four hexadecimal digits, and a witness is valid exactly where it has its
/// suffix and holds a length and a digest, or nothing at all.
pub proof fn law_valid_witnesses(c: ComponentModel, suffix: Seq<char>)
    ensures
        valid_component(c, suffix) <==> c.suffix == suffix && (c.present ==> c.length is Some
            && c.sha256 is Some && digest_text(c.sha256->0)) && (!c.present ==> c.length is None
            && c.sha256 is None && c.unix_mode is None),
        c.sha256 is Some ==> (digest_text(c.sha256->0) <==> c.sha256->0.len() == 64 && forall|
            i: int,
        |
            0 <= i < 64 ==> {
                let d = #[trigger] c.sha256->0[i];
                '0' <= d <= '9' || 'a' <= d <= 'f' || 'A' <= d <= 'F'
            }),
{
    if c.sha256 is Some && c.sha256->0.len() == 64 {
        let s = c.sha256->0;
        if forall|i: int|
            0 <= i < 64 ==> {
                let d = #[trigger] c.sha256->0[i];
                '0' <= d <= '9' || 'a' <= d <= 'f' || 'A' <= d <= 'F'
            } {
            assert forall|i: int|
                0 <= i < s.len() implies crate::doctor_subsystems::family::ascii_hex(
                #[trigger] s[i],
            ) by {
                assert(c.sha256->0[i] == s[i]);
            }
        }
        if digest_text(s) {
            assert forall|i: int| 0 <= i < 64 implies {
                let d = #[trigger] c.sha256->0[i];
                '0' <= d <= '9' || 'a' <= d <= 'f' || 'A' <= d <= 'F'
            } by {
                assert(crate::doctor_subsystems::family::ascii_hex(s[i]));
            }
        }
    }
}

/// What is compared of two families is all but the shared memory, in order.
pub proof fn law_shared_memory_is_not_compared(family: Seq<ComponentModel>, more: ComponentModel)
    ensures
        stable_components(family.push(more)) == if more.suffix == "-shm"@ {
            stable_components(family)
        } else {
            stable_components(family).push(more)
        },
{
    assert(family.push(more).drop_last() =~= family);
}

/// Two families that agree but for their shared memory are the same, and a file that differs
/// makes them differ.
pub proof fn law_a_different_file_is_seen(a: Seq<ComponentModel>, b: Seq<ComponentModel>)
    requires
        valid_family(a),
        valid_family(b),
    ensures
        stable_components(a) == stable_components(b) <==> a[0] == b[0] && a[1] == b[1] && a[3]
            == b[3],
{
    lemma_stable_three(a);
    lemma_stable_three(b);
    let (x, y) = (stable_components(a), stable_components(b));
    if x == y {
        assert(x[0] == y[0] && x[1] == y[1] && x[2] == y[2]);
    }
}

proof fn lemma_stable_three(a: Seq<ComponentModel>)
    requires
        valid_family(a),
    ensures
        stable_components(a) == seq![a[0], a[1], a[3]],
{
    reveal_strlit("");
    reveal_strlit("-wal");
    reveal_strlit("-shm");
    reveal_strlit("-journal");
    assert(valid_component(a[0], family_suffixes()[0]));
    assert(valid_component(a[1], family_suffixes()[1]));
    assert(valid_component(a[2], family_suffixes()[2]));
    assert(valid_component(a[3], family_suffixes()[3]));
    assert("-wal"@[1] == 'w' && "-shm"@[1] == 's' && "-journal"@[1] == 'j');
    assert(a[0].suffix == ""@ && a[1].suffix == "-wal"@ && a[2].suffix == "-shm"@ && a[3].suffix
        == "-journal"@);
    assert(""@.len() == 0 && "-shm"@.len() == 4);
    assert(a[0].suffix != "-shm"@ && a[1].suffix != "-shm"@ && a[3].suffix != "-shm"@);
    let a3 = a.drop_last();
    let a2 = a3.drop_last();
    let a1 = a2.drop_last();
    let a0 = a1.drop_last();
    assert(a.last() == a[3] && a3.last() == a[2] && a2.last() == a[1] && a1.last() == a[0]);
    assert(stable_components(a0) =~= Seq::empty());
    assert(stable_components(a1) =~= seq![a[0]]);
    assert(stable_components(a2) =~= seq![a[0], a[1]]);
    assert(stable_components(a3) =~= seq![a[0], a[1]]);
    assert(stable_components(a) =~= seq![a[0], a[1], a[3]]);
}

/// A file is the one on record exactly where it is there with the same length and digest.
pub proof fn law_files_are_held_against_the_record(seen: ObservedModel, c: ComponentModel)
    ensures
        holds_component(seen, c) <==> seen is Regular && c.present && c.length == Some(
            seen->Regular_length,
        ) && c.sha256 == Some(seen->Regular_sha256),
{
}

/// A live file that is on record goes into quarantine where nothing is there yet; what was
/// moved already stays, and what is not on record is never moved.
pub proof fn law_quarantine_moves_what_is_on_record(
    c: ComponentModel,
    source: ObservedModel,
    dest: ObservedModel,
    back: Seq<ComponentModel>,
    from: Seq<char>,
    to: Seq<char>,
)
    ensures
        ({
            let action = quarantine_action(c, source, dest, back, from, to);
            &&& action == Ok::<QuarantineAction, ErrorModel>(QuarantineAction::Move) <==> c.present
                && dest is Missing && holds_component(source, c)
            &&& c.present && holds_component(dest, c) && source is Missing ==> action == Ok::<
                QuarantineAction,
                ErrorModel,
            >(QuarantineAction::Keep)
            &&& !c.present && source is Missing && dest is Missing ==> action == Ok::<
                QuarantineAction,
                ErrorModel,
            >(QuarantineAction::Keep)
            &&& c.present && dest is Regular && !holds_component(dest, c) ==> action is Err
            &&& c.present && source is Missing && dest is Missing ==> action is Err
            &&& !c.present && dest is Regular ==> action is Err
            &&& source is Symlink || source is Irregular || dest is Symlink || dest is Irregular
                ==> action is Err
        }),
{
}

/// A file is brought back from the bundle where it is missing, gets its mode where it is there
/// as it was, and stays absent where it was absent; all else is refused.
pub proof fn law_files_come_back_as_they_were(
    c: ComponentModel,
    live: ObservedModel,
    path: Seq<char>,
)
    ensures
        ({
            let action = restore_action(c, live, path);
            &&& c.present && live is Missing ==> action == Ok::<RestoreAction, ErrorModel>(
                RestoreAction::Copy(c.unix_mode),
            )
            &&& c.present && holds_component(live, c) ==> action == Ok::<RestoreAction, ErrorModel>(
                RestoreAction::SetMode(c.unix_mode),
            )
            &&& !c.present && live is Missing ==> action == Ok::<RestoreAction, ErrorModel>(
                RestoreAction::LeaveAbsent,
            )
            &&& !(live is Missing) && !(c.present && holds_component(live, c)) ==> action is Err
        }),
{
}

/// A backup is good exactly where it holds what is on record, or is absent as the file was.
pub proof fn law_backups_are_held_against_the_record(
    c: ComponentModel,
    backup: ObservedModel,
    path: Seq<char>,
)
    ensures
        backup_check(c, backup, path) is Ok <==> (c.present && holds_component(backup, c)) || (
        !c.present && backup is Missing),
{
}

/// The files beside the database that are there, in order.
pub proof fn law_sidecars_are_the_other_files(family: Seq<ComponentModel>, more: ComponentModel)
    ensures
        sidecar_suffixes(family.push(more)) == if more.present && more.suffix.len() > 0 {
            sidecar_suffixes(family).push(more.suffix)
        } else {
            sidecar_suffixes(family)
        },
{
    assert(family.push(more).drop_last() =~= family);
}

/// A receipt can be read where it is there and no larger than sixteen megabytes.
pub proof fn law_receipts_have_a_limit(seen: ObservedModel, path: Seq<char>)
    ensures
        receipt_readable(seen, path) is Ok <==> seen is Regular && seen->Regular_length <= 16 * 1024
            * 1024,
{
}

/// Two witnesses match but for their integrity exactly where version, schema, contents and
/// tables are the same.
pub proof fn law_witnesses_match_but_for_integrity(a: LogicalModel, b: LogicalModel)
    ensures
        match_except_integrity(a, b) <==> a.user_version == b.user_version && a.schema_sha256
            == b.schema_sha256 && a.contents_sha256 == b.contents_sha256 && a.tables == b.tables,
        match_except_integrity(a, LogicalModel { integrity_check: b.integrity_check, ..a }),
{
}

/// The witness of a database holds its version, its integrity, and a witness of each table.
pub proof fn law_database_witness_holds_every_table(
    version: u32,
    integrity: Seq<char>,
    schema: Seq<Seq<SqlModel>>,
    tables: Seq<TableDumpModel>,
    i: int,
)
    requires
        0 <= i < tables.len(),
    ensures
        ({
            let w = database_witness(version, integrity, schema, tables);
            &&& w.user_version == version
            &&& w.integrity_check == integrity
            &&& w.schema_sha256 == sha256_hex(schema_material(schema))
            &&& w.contents_sha256 == sha256_hex(contents_material(tables))
            &&& w.tables.len() == tables.len()
            &&& w.tables[i].name == tables[i].name
            &&& tables[i].rows.len() <= u64::MAX ==> w.tables[i].row_count == tables[i].rows.len()
        }),
{
}

/// Every table, every row and every line of the schema counts.
pub proof fn law_every_row_counts(
    tables: Seq<TableDumpModel>,
    table: TableDumpModel,
    schema: Seq<Seq<SqlModel>>,
    line: Seq<SqlModel>,
)
    ensures
        contents_material(tables.push(table)) == contents_material(tables) + named_rows(
            encode_utf8(table.name),
            crate::doctor_subsystems::encoding::canonical_rows(table.rows, table.columns),
        ),
        schema_material(schema.push(line)) == schema_material(schema) + schema_row_material(line),
{
    assert(tables.push(table).drop_last() =~= tables);
    assert(schema.push(line).drop_last() =~= schema);
}

/// Every column of a row counts.
pub proof fn law_every_column_counts(row: Seq<SqlModel>, columns: nat)
    ensures
        encoded_row(row, columns + 1) == encoded_row(row, columns) + encoded(
            column(row, columns as int),
        ),
        columns < row.len() ==> column(row, columns as int) == row[columns as int],
        columns >= row.len() ==> column(row, columns as int) == SqlModel::Null,
{
}

/// A count is the number that was read, where it is not negative.
pub proof fn law_counts_are_what_was_read(row: Seq<SqlModel>)
    requires
        row.len() > 0,
    ensures
        row[0] is Integer && row[0]->Integer_0 >= 0 ==> count_in(row) == Some(row[0]->Integer_0),
        row[0] is Integer && row[0]->Integer_0 < 0 ==> count_in(row) is None,
        !(row[0] is Integer) ==> count_in(row) is None,
{
}

/// Every line of a check that says something is told, and where none does, that is.
pub proof fn law_every_diagnostic_is_told(values: Seq<SqlModel>, more: SqlModel)
    ensures
        diagnostics(values.push(more)) == if more is Text && trim(more->Text_0).len() > 0 {
            diagnostics(values).push(trim(more->Text_0))
        } else {
            diagnostics(values)
        },
        diagnostics(values).len() > 0 ==> integrity_messages(values) == diagnostics(values),
        diagnostics(values).len() == 0 ==> integrity_messages(values) == seq![
            "integrity_check returned no diagnostic rows"@,
        ],
{
    assert(values.push(more).drop_last() =~= values);
}

/// A database is sound exactly where its check says `ok`, in any case and with white space
/// round it.
pub proof fn law_ok_is_sound(report: Seq<char>)
    ensures
        integrity_clean(report) <==> ascii_lowercase(trim(report)) == "ok"@,
{
    reveal_strlit("ok");
    assert(ascii_lowercase("ok"@) =~= "ok"@);
}

/// A report can be repaired exactly where some line speaks of unused pages or of indexes and
/// every other one does too, is blank or is a heading.
pub proof fn law_repairable_reports(report: Seq<char>)
    ensures
        ({
            let fixable = |line: Seq<char>|
                {
                    let l = ascii_lowercase(trim(line));
                    occurs(l, "never used"@) || occurs(l, "missing from index"@) || occurs(
                        l,
                        "out of order"@,
                    )
                };
            let silent = |line: Seq<char>|
                trim(line).len() == 0 || occurs(ascii_lowercase(trim(line)), "*** in database"@);
            let all = lines(report);
            integrity_repairable(report) <==> (forall|i: int|
                0 <= i < all.len() ==> fixable(#[trigger] all[i]) || silent(all[i])) && exists|
                i: int,
            |
                0 <= i < all.len() && fixable(#[trigger] all[i])
        }),
{
    let all = lines(report);
    let fixable = |line: Seq<char>|
        {
            let l = ascii_lowercase(trim(line));
            occurs(l, "never used"@) || occurs(l, "missing from index"@) || occurs(
                l,
                "out of order"@,
            )
        };
    let silent = |line: Seq<char>|
        trim(line).len() == 0 || occurs(ascii_lowercase(trim(line)), "*** in database"@);
    assert forall|i: int| 0 <= i < all.len() implies repairable_line(#[trigger] all[i]) == fixable(
        all[i],
    ) && neutral_line(all[i]) == silent(all[i]) by {}
}

/// An identifier is quoted, and the quotes in it are doubled.
pub proof fn law_identifiers_are_quoted(a: Seq<char>, b: Seq<char>)
    requires
        !a.contains('"'),
        !b.contains('"'),
    ensures
        quoted_identifier(a) == "\""@ + a + "\""@,
        quoted_identifier(a.push('"') + b) == "\""@ + a + "\"\""@ + b + "\""@,
{
    let f = crate::text::replacing('"', "\"\""@);
    lemma_nothing_replaced(a);
    lemma_nothing_replaced(b);
    crate::text::lemma_expand_concat(a.push('"'), b, f);
    crate::text::lemma_expand_concat(a, seq!['"'], f);
    assert(a + seq!['"'] =~= a.push('"'));
    reveal_with_fuel(crate::text::expand, 2);
    assert(crate::text::expand(seq!['"'], f) =~= "\"\""@);
    assert(quoted_identifier(a.push('"') + b) =~= "\""@ + a + "\"\""@ + b + "\""@);
}

proof fn lemma_nothing_replaced(a: Seq<char>)
    requires
        !a.contains('"'),
    ensures
        crate::text::expand(a, crate::text::replacing('"', "\"\""@)) == a,
    decreases a.len(),
{
    let f = crate::text::replacing('"', "\"\""@);
    if a.len() > 0 {
        let rest = a.drop_last();
        assert(!rest.contains('"')) by {
            if rest.contains('"') {
                let i = choose|i: int| 0 <= i < rest.len() && rest[i] == '"';
                assert(a[i] == '"');
            }
        }
        lemma_nothing_replaced(rest);
        crate::text::lemma_expand_concat(rest, seq![a.last()], f);
        assert(rest + seq![a.last()] =~= a);
        assert(a.contains(a[a.len() - 1]));
        reveal_with_fuel(crate::text::expand, 2);
        assert(crate::text::expand(seq![a.last()], f) =~= seq![a.last()]);
    } else {
        assert(crate::text::expand(a, f) =~= a);
    }
}

/// Each row of a table counts with the name of the table in front.
pub proof fn law_rows_count_with_their_table(name: Seq<u8>, rows: Seq<Seq<u8>>, more: Seq<u8>)
    ensures
        named_rows(name, Seq::empty()).len() == 0,
        named_rows(name, rows.push(more)) == named_rows(name, rows)
            + crate::doctor_subsystems::encoding::len_prefixed(name)
            + crate::doctor_subsystems::encoding::len_prefixed(more),
{
    assert(rows.push(more).drop_last() =~= rows);
}

} // verus!
