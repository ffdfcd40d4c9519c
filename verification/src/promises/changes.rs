//! Promises of the changes that the doctor makes.

use crate::digest::sha256_prefixed;
use crate::doctor_subsystems::encoding::SqlModel;
use crate::doctor_subsystems::mutate::{
    backup_location, change_of, climbed, directory_of, elapsed, file_hash, gone_along,
    legacy_line_of, legacy_plan_of, mutation_of, op_name, record_of, rename_flush, scope_check,
    step_along, versioned_backup, ChangeModel, ClimbModel, DraftModel, LegacyTarget, MutateContext,
    Op, PreState,
};
use crate::doctor_subsystems::mutate_db::{
    cell_of, column_names, columns_of, db_exec_after, db_migrate_after, db_record_of,
    identifier_check, identifiers_check, snapshot_file, snapshot_query, version_in, CellModel,
    DbExecStep, DbMigrateStep, DbSnapshotArtifact,
};
use crate::error::ErrorModel;
use crate::numbers::{base64, decimal, padded_decimal};
use crate::paths::{goes_up, join_path, last_part, parent, relative_to, same_path, under};
use crate::text::{ascii_alphanumeric, opt_text, texts, trim};
use vstd::prelude::*;
use vstd::string::*;

verus! {

broadcast use vstd::string::group_string_axioms;

/// The bytes that are there, none where nothing is.
pub open spec fn there(bytes: Option<Vec<u8>>) -> Option<Seq<u8>> {
    match bytes {
        Some(b) => Some(b@),
        None => None,
    }
}

/// Each kind of change has its own name.
pub proof fn law_changes_have_their_names(op: Op)
    ensures
        op is WriteFile ==> op_name(op) == "write_file"@,
        op is AppendFile ==> op_name(op) == "append_file"@,
        op is Rename ==> op_name(op) == "rename"@,
        op is Chmod ==> op_name(op) == "chmod"@,
        op is DbExec ==> op_name(op) == "db_exec"@,
        op is DbMigrate ==> op_name(op) == "db_migrate"@,
        op is SymlinkAtomic ==> op_name(op) == "symlink_atomic"@,
{
}

/// A file is known by the hash of its bytes, and one that is missing by that of no bytes.
pub proof fn law_files_are_known_by_their_hash(bytes: Seq<u8>)
    ensures
        file_hash(Some(bytes)) == sha256_prefixed(bytes),
        file_hash(None)
            == "sha256:e3b0c44298fc1c149afbf4c8996fb92427ae41e4649b934ca495991b7852b855"@,
{
}

/// A path may be changed exactly where it does not go up and lies in one of the scopes; one
/// that may not is told.
pub proof fn law_only_what_is_in_scope_is_changed(
    path: Seq<char>,
    scopes: Seq<Seq<char>>,
    shown: Seq<char>,
)
    ensures
        scope_check(path, scopes, shown) is Ok <==> !goes_up(path) && exists|i: int|
            0 <= i < scopes.len() && under(path, #[trigger] scopes[i]),
        scope_check(path, scopes, shown) is Err ==> scope_check(path, scopes, shown)->Err_0
            == ErrorModel::Internal(
            "doctor: path "@ + shown + " is outside write_scopes (refused for safety)"@,
        ),
{
}

/// The climb ends where something is there, and else goes on to the directory above, keeping
/// the part that it leaves; it ends in the current directory where there is none above.
pub proof fn law_climbing_keeps_what_it_leaves(c: ClimbModel, part: Seq<char>)
    requires
        !c.settled,
    ensures
        climbed(c, true).settled && climbed(c, true).at == c.at && climbed(c, true).below
            == c.below,
        last_part(c.at) == Some(part) ==> climbed(c, false).below == c.below.push(part),
        last_part(c.at) is None ==> climbed(c, false).below == c.below,
        parent(c.at) is Some && parent(c.at)->0.len() > 0 ==> climbed(c, false).at == parent(
            c.at,
        )->0 && !climbed(c, false).settled,
        parent(c.at) is None || parent(c.at)->0.len() == 0 ==> climbed(c, false).at == "."@
            && climbed(c, false).settled,
{
}

/// A part goes down, and two dots go up, but never above the root.
pub proof fn law_two_dots_go_up(parts: Seq<Seq<char>>, part: Seq<char>)
    ensures
        part != ".."@ ==> step_along(parts, part) == parts.push(part),
        part == ".."@ && parts.len() > 1 ==> step_along(parts, part) == parts.drop_last(),
        part == ".."@ && parts.len() <= 1 ==> step_along(parts, part) == parts,
{
}

/// A backup lies under its own path in the run where that is free, and else in a version of its
/// own, which is then told.
pub proof fn law_backups_take_a_free_place(
    run_dir: Seq<char>,
    rel: Seq<char>,
    stamp: u128,
    collision: u32,
)
    ensures
        backup_location(run_dir, rel, false, stamp, collision) == (
            join_path(join_path(run_dir, "backups"@), rel),
            None::<Seq<char>>,
        ),
        backup_location(run_dir, rel, true, stamp, collision).1 == Some(
            versioned_backup(rel, stamp, collision),
        ),
        backup_location(run_dir, rel, true, stamp, collision).0 == join_path(
            join_path(run_dir, "backups"@),
            versioned_backup(rel, stamp, collision),
        ),
        versioned_backup(rel, stamp, collision) == join_path(
            join_path(".versions"@, decimal(stamp as nat) + "-"@ + decimal(collision as nat)),
            rel,
        ),
{
}

/// What becomes of a file: what is written takes its place, what is appended comes behind what
/// is there, with the mode it had; it moves to where it is sent, and a link points where it is
/// told to.
pub proof fn law_files_become_what_was_asked(
    path: Seq<char>,
    op: Op,
    before: Option<Seq<u8>>,
    mode: Option<u32>,
    pid: u32,
    now: u128,
)
    ensures
        ({
            let change = change_of(path, op, before, mode, pid, now);
            match op {
                Op::WriteFile { content, mode: asked } => change == (ChangeModel::Replace {
                    bytes: content@,
                    mode: if asked is Some {
                        asked->0
                    } else {
                        420u32
                    },
                }),
                Op::AppendFile { content } => change == (ChangeModel::Replace {
                    bytes: if before is Some {
                        before->0 + content@
                    } else {
                        content@
                    },
                    mode: if mode is Some {
                        mode->0
                    } else {
                        420u32
                    },
                }),
                Op::Rename { to } => change is Rename && change->to == to@
                    && change->flush.contains(directory_of(path)),
                Op::Chmod { mode: asked } => change == (ChangeModel::Chmod { mode: asked }),
                Op::SymlinkAtomic { target } => change is Symlink && change->target == target@,
                _ => true,
            }
        }),
{
    match op {
        Op::AppendFile { content } => {
            if before is None {
                assert(Seq::<u8>::empty() + content@ =~= content@);
            }
        },
        Op::Rename { to } => {
            assert(rename_flush(path, to@)[0] == directory_of(path));
        },
        _ => {},
    }
}

/// A move flushes the directory it leaves, and the one it goes to where that is another.
pub proof fn law_moves_flush_both_directories(path: Seq<char>, to: Seq<char>)
    ensures
        parent(path) is Some ==> directory_of(path) == parent(path)->0,
        parent(path) is None ==> directory_of(path) == "."@,
        rename_flush(path, to)[0] == directory_of(path),
        parent(to) is Some && !same_path(parent(to)->0, directory_of(path)) ==> rename_flush(
            path,
            to,
        ) == seq![directory_of(path), parent(to)->0],
        parent(to) is None || same_path(parent(to)->0, directory_of(path)) ==> rename_flush(
            path,
            to,
        ).len() == 1,
{
}

/// Time is counted from the start and never below nothing.
pub proof fn law_time_is_counted_from_the_start(now: u128, start: u128)
    ensures
        now >= start ==> elapsed(now, start) == now - start,
        now < start ==> elapsed(now, start) == 0,
{
}

/// What is planned for a change: nothing outside the scopes, a note for a dry run, the
/// database for what changes it, and for a file a backup of what is there, the change, and its
/// record.
pub proof fn law_each_change_has_its_plan(
    ctx: MutateContext,
    path: Seq<char>,
    op: Op,
    pre: PreState,
)
    requires
        scope_check(pre.canonical@, texts(pre.canonical_scopes@), path) is Ok,
        op is Rename ==> pre.target_canonical is Some && scope_check(
            pre.target_canonical->0@,
            texts(pre.canonical_scopes@),
            op->Rename_to@,
        ) is Ok,
    ensures
        ({
            let plan = mutation_of(ctx, path, op, pre);
            let before = there(pre.before);
            let rel = relative_to(path, ctx.repo_root@);
            let place = backup_location(
                ctx.run_dir@,
                rel,
                pre.primary_taken,
                pre.now_ns,
                pre.collision,
            );
            &&& plan is Ok
            &&& ctx.dry_run ==> plan->Ok_0 is DryRun && plan->Ok_0->notice
                == "[dry-run] would mutate "@ + path + ": "@ + op_name(op) && plan->Ok_0->result.ok
                && plan->Ok_0->result.before_hash == file_hash(before)
            &&& !ctx.dry_run && (op is DbExec || op is DbMigrate) ==> plan->Ok_0 is Database
                && plan->Ok_0->relative == rel && plan->Ok_0->Database_before_hash == file_hash(
                before,
            )
            &&& !ctx.dry_run && !(op is DbExec) && !(op is DbMigrate) ==> plan->Ok_0 is Write
                && plan->Ok_0->change == change_of(
                path,
                op,
                before,
                pre.existing_mode,
                pre.pid,
                pre.now_ns,
            ) && (plan->Ok_0->backup is Some <==> pre.before is Some) && (pre.before is Some
                ==> plan->Ok_0->backup->0.path == place.0 && plan->Ok_0->backup->0.bytes
                == pre.before->0@) && plan->Ok_0->draft.path == rel && plan->Ok_0->draft.op
                == op_name(op) && plan->Ok_0->draft.before_hash == file_hash(before)
                && plan->Ok_0->draft.run_id == ctx.run_id@ && plan->Ok_0->draft.fixer_id
                == ctx.fixer_id@ && plan->Ok_0->draft.backup_path == place.1 && (op is Rename
                ==> plan->Ok_0->draft.rename_to == Some(op->Rename_to@)) && (!(op is Rename)
                ==> plan->Ok_0->draft.rename_to is None)
        }),
{
}

/// A record keeps what was drafted and adds what became of the file and when.
pub proof fn law_records_keep_the_draft(draft: DraftModel, after: Option<Seq<u8>>, end: u128)
    ensures
        ({
            let r = record_of(draft, after, end);
            &&& r.path == draft.path
            &&& r.op == draft.op
            &&& r.before_hash == draft.before_hash
            &&& r.after_hash == file_hash(after)
            &&& r.started_at_ns == draft.started_at_ns
            &&& r.finished_at_ns == end
            &&& r.run_id == draft.run_id
            &&& r.fixer_id == draft.fixer_id
            &&& r.backup_path == draft.backup_path
            &&& r.rename_to == draft.rename_to
            &&& r.ok
            &&& r.error is None
        }),
{
}

/// What an older fixer will change is backed up and recorded target by target; a dry run only
/// names each of them.
pub proof fn law_every_target_is_backed_up(
    ctx: MutateContext,
    fixer: Seq<char>,
    targets: Seq<LegacyTarget>,
    scopes: Seq<Seq<char>>,
    now: u128,
    i: int,
)
    requires
        legacy_plan_of(ctx, fixer, targets, scopes, now) is Ok,
        0 <= i < targets.len(),
    ensures
        ({
            let plan = legacy_plan_of(ctx, fixer, targets, scopes, now)->Ok_0;
            let t = targets[i];
            let rel = relative_to(t.path@, ctx.repo_root@);
            &&& ctx.dry_run ==> plan is DryRun && plan->notices.len() == targets.len()
                && plan->notices[i] == "[dry-run] would mutate "@ + t.path@ + ": legacy_op"@
            &&& !ctx.dry_run ==> plan is Run && plan->targets.len() == targets.len() && {
                let d = plan->targets[i];
                &&& d.existed_before <==> t.before is Some
                &&& d.backup is Some <==> t.before is Some
                &&& t.before is Some ==> d.backup->0.bytes == t.before->0@ && d.backup->0.path
                    == backup_location(
                    ctx.run_dir@,
                    rel,
                    t.primary_taken,
                    now,
                    t.collision,
                ).0
                &&& d.draft.path == rel
                &&& d.draft.op == "legacy_op"@
                &&& d.draft.before_hash == file_hash(there(t.before))
                &&& d.draft.fixer_id == fixer
                &&& d.draft.run_id == ctx.run_id@
                &&& d.draft.rename_to is None
            }
        }),
{
}

/// A record of a file that was there is a line as it is; of one that was not, that is added
/// inside its last brace.
pub proof fn law_new_files_are_told_in_the_line(json: Seq<char>)
    requires
        json.len() > 0 ==> json.last() != '}',
    ensures
        legacy_line_of(json.push('}'), true) == json.push('}') + "\n"@,
        legacy_line_of(json.push('}'), false) == json + ",\"existed_before\":false}"@ + "\n"@,
{
    assert(json.push('}').drop_last() =~= json);
    reveal_with_fuel(crate::doctor_subsystems::mutate::trim_end_char, 3);
}

/// A name may stand in a statement exactly where it is made of letters, digits and underscores
/// and is not empty.
pub proof fn law_names_in_statements_are_plain(name: Seq<char>)
    ensures
        identifier_check(name) is Ok <==> name.len() > 0 && forall|i: int|
            0 <= i < name.len() ==> ascii_alphanumeric(#[trigger] name[i]) || name[i] == '_',
        identifier_check(name) is Err ==> identifier_check(name)->Err_0 == ErrorModel::Internal(
            "doctor: invalid SQL identifier '"@ + name
                + "' (must be ASCII alphanumeric + underscore)"@,
        ),
{
}

/// Names may stand in a statement exactly where each of them may.
pub proof fn law_every_table_name_is_checked(tables: Seq<Seq<char>>)
    ensures
        identifiers_check(tables) is Ok <==> forall|i: int|
            0 <= i < tables.len() ==> identifier_check(#[trigger] tables[i]) is Ok,
    decreases tables.len(),
{
    if tables.len() > 0 {
        let rest = tables.skip(1);
        law_every_table_name_is_checked(rest);
        assert forall|i: int| 0 <= i < rest.len() implies #[trigger] rest[i] == tables[i + 1] by {}
        if identifiers_check(tables) is Ok {
            assert forall|i: int| 0 <= i < tables.len() implies identifier_check(
                #[trigger] tables[i],
            ) is Ok by {
                if i > 0 {
                    assert(rest[i - 1] == tables[i]);
                }
            }
        } else if identifier_check(tables[0]) is Ok {
            let j = choose|j: int|
                0 <= j < rest.len() && !(identifier_check(#[trigger] rest[j]) is Ok);
            assert(!(identifier_check(tables[j + 1]) is Ok));
        }
    }
}

/// A snapshot takes the rows that a statement speaks of, and all of them where it says nothing.
pub proof fn law_snapshots_take_what_is_spoken_of(table: Seq<char>, predicate: Seq<char>)
    ensures
        snapshot_query(table, None) == "SELECT * FROM "@ + table,
        trim(predicate).len() == 0 ==> snapshot_query(table, Some(predicate)) == "SELECT * FROM "@
            + table,
        trim(predicate).len() > 0 ==> snapshot_query(table, Some(predicate)) == "SELECT * FROM "@
            + table + " WHERE "@ + trim(predicate),
{
    reveal_strlit("");
}

/// A snapshot is named by its table, its tag and its time, and by a number from the second on.
pub proof fn law_snapshots_are_named(table: Seq<char>, tag: Seq<char>, stamp: u128, n: u16)
    ensures
        snapshot_file(table, tag, stamp, 0) == table + "__"@ + tag + "__"@ + padded_decimal(
            stamp as nat,
            20,
        ) + ".json"@,
        n > 0 ==> snapshot_file(table, tag, stamp, n) == table + "__"@ + tag + "__"@
            + padded_decimal(stamp as nat, 20) + "__"@ + padded_decimal(n as nat, 3) + ".json"@,
{
    reveal_strlit("");
    assert(snapshot_file(table, tag, stamp, 0) =~= table + "__"@ + tag + "__"@ + padded_decimal(
        stamp as nat,
        20,
    ) + ".json"@);
    if n > 0 {
        assert(snapshot_file(table, tag, stamp, n) =~= table + "__"@ + tag + "__"@
            + padded_decimal(stamp as nat, 20) + "__"@ + padded_decimal(n as nat, 3) + ".json"@);
    }
}

/// Every column has its name, in order; a row without one gives none at all.
pub proof fn law_every_column_has_its_name(rows: Seq<Seq<SqlModel>>, more: Seq<SqlModel>)
    requires
        more.len() >= 2,
    ensures
        column_names(rows) is Some && more[1] is Text ==> column_names(rows.push(more)) == Some(
            column_names(rows)->0.push(more[1]->Text_0),
        ),
        column_names(rows) is None || !(more[1] is Text) ==> column_names(rows.push(more)) is None,
{
    assert(rows.push(more).drop_last() =~= rows);
}

/// A table without columns is not there, and that is told.
pub proof fn law_tables_have_columns(table: Seq<char>, rows: Seq<Seq<SqlModel>>)
    ensures
        identifier_check(table) is Ok && rows.len() == 0 ==> columns_of(table, rows) == Err::<
            Seq<Seq<char>>,
            ErrorModel,
        >(
            ErrorModel::Internal(
                "doctor: table '"@ + table + "' has no columns (does it exist?)"@,
            ),
        ),
        columns_of(table, rows) is Ok <==> identifier_check(table) is Ok && rows.len() > 0
            && column_names(rows) is Some,
        columns_of(table, rows) is Ok ==> columns_of(table, rows)->Ok_0 == column_names(rows)->0,
{
}

/// A value stands in a snapshot as it is, and bytes by their digits.
pub proof fn law_snapshot_cells_keep_the_value(n: int, bits: int, s: Seq<char>, b: Seq<u8>)
    ensures
        cell_of(SqlModel::Null) == CellModel::Null,
        cell_of(SqlModel::Integer(n)) == CellModel::Integer(n),
        cell_of(SqlModel::Float(bits)) == CellModel::Float(bits),
        cell_of(SqlModel::Text(s)) == CellModel::Text(s),
        cell_of(SqlModel::Blob(b)) == CellModel::BlobBase64(base64(b)),
{
}

/// A statement that goes well: names checked, database opened, transaction begun, a snapshot of
/// each table, the statement, the commit and the close.
pub proof fn law_statement_that_goes_well(taken: usize, tables: usize)
    requires
        taken < tables,
    ensures
        db_exec_after(DbExecStep::Validate, true, tables) == DbExecStep::Open,
        db_exec_after(DbExecStep::Open, true, tables) == DbExecStep::Begin,
        db_exec_after(DbExecStep::Begin, true, tables) == (DbExecStep::Snapshot { taken: 0 }),
        db_exec_after(DbExecStep::Begin, true, 0) == DbExecStep::Execute,
        taken + 1 < tables ==> db_exec_after(DbExecStep::Snapshot { taken }, true, tables) == (
        DbExecStep::Snapshot { taken: (taken + 1) as usize }),
        taken + 1 == tables ==> db_exec_after(DbExecStep::Snapshot { taken }, true, tables)
            == DbExecStep::Execute,
        db_exec_after(DbExecStep::Execute, true, tables) == DbExecStep::Commit,
        db_exec_after(DbExecStep::Commit, true, tables) == DbExecStep::Close,
        db_exec_after(DbExecStep::Close, true, tables) == DbExecStep::Done,
{
}

/// A statement that fails is rolled back with the snapshots taken so far, once a transaction
/// was begun.
pub proof fn law_statement_that_fails(taken: usize, tables: usize, ok: bool)
    ensures
        db_exec_after(DbExecStep::Validate, false, tables) == DbExecStep::Failed,
        db_exec_after(DbExecStep::Open, false, tables) == DbExecStep::Failed,
        db_exec_after(DbExecStep::Begin, false, tables) == DbExecStep::CloseFailed,
        db_exec_after(DbExecStep::Snapshot { taken }, false, tables) == (DbExecStep::RollBack {
            taken,
        }),
        db_exec_after(DbExecStep::Execute, false, tables) == (DbExecStep::RollBack {
            taken: tables,
        }),
        db_exec_after(DbExecStep::Commit, false, tables) == (DbExecStep::RollBack {
            taken: tables,
        }),
        db_exec_after(DbExecStep::RollBack { taken }, ok, tables) == DbExecStep::CloseFailed,
        db_exec_after(DbExecStep::CloseFailed, ok, tables) == DbExecStep::Failed,
{
}

/// A migration that goes well: range checked, database copied, version read and checked,
/// opened and migrated. Where it fails after that the copy is put back.
pub proof fn law_migration_goes_step_by_step(ok: bool)
    ensures
        db_migrate_after(DbMigrateStep::CheckRange, true) == DbMigrateStep::Snapshot,
        db_migrate_after(DbMigrateStep::Snapshot, true) == DbMigrateStep::ReadVersion,
        db_migrate_after(DbMigrateStep::ReadVersion, true) == DbMigrateStep::CheckVersion,
        db_migrate_after(DbMigrateStep::CheckVersion, true) == DbMigrateStep::Open,
        db_migrate_after(DbMigrateStep::Open, true) == DbMigrateStep::Migrate,
        db_migrate_after(DbMigrateStep::Migrate, true) == DbMigrateStep::Done,
        db_migrate_after(DbMigrateStep::CheckRange, false) == DbMigrateStep::Failed,
        db_migrate_after(DbMigrateStep::Snapshot, false) == DbMigrateStep::Failed,
        db_migrate_after(DbMigrateStep::ReadVersion, false) == DbMigrateStep::RestoreSnapshot,
        db_migrate_after(DbMigrateStep::CheckVersion, false) == DbMigrateStep::RestoreUntouched,
        db_migrate_after(DbMigrateStep::Open, false) == DbMigrateStep::RestoreSnapshot,
        db_migrate_after(DbMigrateStep::Migrate, false) == DbMigrateStep::RestoreSnapshot,
        db_migrate_after(DbMigrateStep::RestoreUntouched, true) == DbMigrateStep::DiscardSnapshot,
        db_migrate_after(DbMigrateStep::RestoreUntouched, false) == DbMigrateStep::Failed,
        db_migrate_after(DbMigrateStep::RestoreSnapshot, ok) == DbMigrateStep::Failed,
        db_migrate_after(DbMigrateStep::DiscardSnapshot, ok) == DbMigrateStep::Failed,
        db_migrate_after(DbMigrateStep::Done, ok) == DbMigrateStep::Done,
{
}

/// The version of a database is the number that was read, and nought where that is none.
pub proof fn law_versions_are_what_was_read(row: Seq<SqlModel>)
    requires
        row.len() > 0,
    ensures
        row[0] is Integer && 0 <= row[0]->Integer_0 <= u32::MAX ==> version_in(row)
            == row[0]->Integer_0,
        row[0] is Integer && !(0 <= row[0]->Integer_0 <= u32::MAX) ==> version_in(row) == 0,
        !(row[0] is Integer) ==> version_in(row) == 0,
{
}

/// The record of a change to the database names what changed, by its hashes, its tables, its
/// snapshots and its versions.
pub proof fn law_database_records_name_what_changed(
    ctx: MutateContext,
    op: Op,
    path: Seq<char>,
    before: Seq<char>,
    after: Option<Seq<u8>>,
    start: u128,
    now: u128,
    artifacts: Seq<DbSnapshotArtifact>,
    i: int,
)
    requires
        0 <= i < artifacts.len(),
    ensures
        ({
            let r = db_record_of(ctx, op, path, before, after, start, now, artifacts);
            &&& r.path == relative_to(path, ctx.repo_root@)
            &&& r.op == op_name(op)
            &&& r.before_hash == before
            &&& r.after_hash == file_hash(after)
            &&& r.started_at_ns == start
            &&& r.finished_at_ns == elapsed(now, ctx.start_ns)
            &&& r.run_id == ctx.run_id@
            &&& r.fixer_id == ctx.fixer_id@
            &&& r.ok
            &&& r.db_snapshots.len() == artifacts.len()
            &&& r.db_snapshots[i] == relative_to(artifacts[i].path@, ctx.repo_root@)
            &&& r.db_snapshot_sha256.len() == artifacts.len()
            &&& r.db_snapshot_sha256[i] == artifacts[i].sha256_prefixed@
            &&& match op {
                Op::DbMigrate { from, to } => r.migrate_from == Some(from) && r.migrate_to == Some(
                    to,
                ) && r.affected_tables is None && r.affected_predicate is None,
                Op::DbExec { affected_tables, affected_predicate, .. } => r.migrate_from is None
                    && r.migrate_to is None && r.affected_predicate == opt_text(affected_predicate)
                    && (affected_tables@.len() == 0 ==> r.affected_tables is None) && (
                affected_tables@.len() > 0 ==> r.affected_tables == Some(
                    crate::text::join(texts(affected_tables@), ","@),
                )),
                _ => r.migrate_from is None && r.migrate_to is None,
            }
        }),
{
}

/// Parts that were left are gone along again, the last one left first.
pub proof fn law_left_parts_are_gone_along(
    parts: Seq<Seq<char>>,
    below: Seq<Seq<char>>,
    more: Seq<char>,
)
    ensures
        gone_along(parts, Seq::empty()) == parts,
        gone_along(parts, below.push(more)) == gone_along(step_along(parts, more), below),
{
    assert(below.push(more).drop_last() =~= below);
}

} // verus!
