//! Promises of the `history` command.

use crate::error::ErrorModel;
use crate::history::{
    backup_check, backup_line, backup_lines, backup_name_of, commit_after, compared, contents,
    diff_pieces, external_target, fallback_message, filled, item_of, list_text, match_path,
    name_or_empty, next_step, prune_panel, reason_message, restore_check, restore_step_after,
    restored_panel, restored_text, rollback_path, status_word, table_line, target_check,
    temp_number, temp_path, ActivePath, BackupEntry, CanonicalPaths, CommitModel, PathKind,
    PieceVerdict, RenameEvent, RestoreEvent, RestoreStep, TextDiffFallbackReason,
    MAX_HISTORY_RESTORE_TEMP_PATH_ATTEMPTS, MAX_HISTORY_TEXT_DIFF_BYTES,
    MAX_RESTORE_ROLLBACK_PATH_ATTEMPTS, RESTORE_NOTE_DB_UNCHANGED,
    RESTORE_NOTE_TOMBSTONE_PROTECTION,
};
use crate::numbers::decimal;
use crate::paths::{
    absolute, components, file_name, join_path, law_join_adds_a_component, plain_name, same_path,
    under,
};
use crate::sanitize::one_line;
use crate::shell::single_quoted;
use crate::sizes::short_size_text;
use crate::spans::Role;
use crate::time::{rfc3339_text, utc_text};
use vstd::prelude::*;
use vstd::string::*;

verus! {

broadcast use vstd::string::group_string_axioms;

/// A restore is refused exactly where the target is there and force was not used: a target
/// that is not there is restored either way, and by force every target is.
pub proof fn law_only_unforced_overwrites_are_refused(
    is_there: bool,
    force: bool,
    target: Seq<char>,
)
    ensures
        restore_check(is_there, force, target) is Err <==> is_there && !force,
        restore_check(false, force, target) is Ok,
        restore_check(is_there, true, target) is Ok,
        restore_check(true, false, target) == Err::<(), ErrorModel>(
            ErrorModel::Config(
                "Current "@ + one_line(name_or_empty(target))
                    + " exists. Use --force to overwrite."@,
            ),
        ),
{
}

/// A name is the name of a backup, and a path with a directory is not.
pub proof fn law_backups_are_named_and_not_placed(dir: Seq<char>, name: Seq<char>)
    requires
        plain_name(name),
        name != ".."@,
    ensures
        backup_name_of(name) == Ok::<Seq<char>, ErrorModel>(name),
        components(dir).len() > 0 ==> backup_name_of(join_path(dir, name)) == Err::<
            Seq<char>,
            ErrorModel,
        >(
            ErrorModel::Config(
                "Invalid backup filename format: "@ + one_line(join_path(dir, name)),
            ),
        ),
        backup_name_of(".."@) is Err,
{
    reveal_strlit("/");
    reveal_strlit("..");
    reveal_strlit(".");
    let none = Seq::<char>::empty();
    law_join_adds_a_component(none, name);
    law_join_adds_a_component(none, ".."@);
    law_join_adds_a_component(dir, name);
    assert(!absolute(name)) by {
        if absolute(name) {
            assert(name.contains(name[0]));
        }
    }
    lemma_no_components();
    assert(components(name) =~= seq![name]);
    assert(components(".."@) =~= seq![".."@]);
    assert(name != "/"@) by {
        if name == "/"@ {
            assert(name.contains(name[0]));
        }
    }
}

proof fn lemma_no_components()
    ensures
        components(Seq::<char>::empty()) == Seq::<Seq<char>>::empty(),
{
    let s = Seq::<char>::empty();
    assert(crate::text::split(s, '/') =~= seq![s]);
    assert(seq![s].drop_last() =~= Seq::<Seq<char>>::empty());
    assert(seq![s].last().len() == 0);
    reveal_with_fuel(crate::paths::counted_parts, 2);
    assert(crate::paths::counted_parts(seq![s], true) =~= Seq::<Seq<char>>::empty());
}

/// A backup is a regular file: not missing, no link and nothing else.
pub proof fn law_backups_are_regular_files(kind: PathKind, name: Seq<char>)
    ensures
        backup_check(kind, name) is Ok <==> kind == PathKind::File,
        backup_check(PathKind::Missing, name) == Err::<(), ErrorModel>(
            ErrorModel::Config("Backup file not found: "@ + one_line(name)),
        ),
        backup_check(PathKind::Link, name) == Err::<(), ErrorModel>(
            ErrorModel::Config(
                "History backup '"@ + one_line(name) + "' must not be a symlink"@,
            ),
        ),
        backup_check(PathKind::Other, name) == Err::<(), ErrorModel>(
            ErrorModel::Config(
                "History backup '"@ + one_line(name) + "' must be a regular file"@,
            ),
        ),
{
}

/// What lies in the workspace, by either of its names, is no external target, and a backup of
/// it may always be used. A backup of another file may be used exactly where that is the file
/// in use.
pub proof fn law_targets_are_the_workspace_or_the_file_in_use(
    beads_dir: Seq<char>,
    canonical_dir: Seq<char>,
    target: Seq<char>,
    canonical_target: Seq<char>,
    active: Option<ActivePath>,
)
    ensures
        under(target, beads_dir) || under(target, canonical_dir) ==> !external_target(
            beads_dir,
            canonical_dir,
            target,
        ),
        !under(target, beads_dir) && !under(target, canonical_dir) ==> external_target(
            beads_dir,
            canonical_dir,
            target,
        ),
        target_check(false, target, canonical_target, active) == Ok::<Seq<char>, ErrorModel>(
            target,
        ),
        target_check(true, target, canonical_target, active) is Ok <==> active is Some && same_path(
            canonical_target,
            active->0.canonical@,
        ),
        target_check(true, target, canonical_target, active) is Ok ==> target_check(
            true,
            target,
            canonical_target,
            active,
        )->Ok_0 == target,
{
}

/// A path is compared as it is where it is absolute, and else from the directory one is in.
pub proof fn law_relative_paths_are_seen_from_here(path: Seq<char>, here: Seq<char>)
    ensures
        absolute(path) ==> match_path(path, Some(here)) == path && match_path(path, None) == path,
        !absolute(path) ==> match_path(path, Some(here)) == join_path(here, path),
{
}

/// The next step after a restore imports the file by force. Another file than the default one
/// is named in front, and a file outside the workspace is allowed behind.
pub proof fn law_next_step_imports_the_restored_file(
    beads_dir: Seq<char>,
    target: Seq<char>,
    canonical: CanonicalPaths,
)
    ensures
        ({
            let step = next_step(beads_dir, target, canonical);
            let command = "br sync --import-only --force"@;
            let external = !under(target, beads_dir) && !under(target, canonical.beads_dir@);
            let default = same_path(target, join_path(beads_dir, "issues.jsonl"@)) || same_path(
                canonical.target@,
                canonical.default_target@,
            );
            let named = "BEADS_JSONL="@ + single_quoted(target) + " "@ + command;
            &&& default && !external ==> step == command
            &&& default && external ==> step == command + " --allow-external-jsonl"@
            &&& !default && !external ==> step == named
            &&& !default && external ==> step == named + " --allow-external-jsonl"@
        }),
{
    reveal_strlit("");
    let step = next_step(beads_dir, target, canonical);
    let command = "br sync --import-only --force"@;
    assert(""@ + command + ""@ =~= command);
    assert(""@ + command + " --allow-external-jsonl"@ =~= command + " --allow-external-jsonl"@);
    let lead = "BEADS_JSONL="@ + single_quoted(target) + " "@;
    assert(lead + command + ""@ =~= lead + command);
}

/// The numbers of temporary names: the process for the first, and then a hundred times the
/// process with the attempt; those to undo with count up from the process.
pub proof fn law_temporary_names_carry_process_and_attempt(
    target: Seq<char>,
    pid: u32,
    attempt: u32,
    offset: u64,
)
    requires
        offset <= 1024,
    ensures
        temp_number(pid, 0) == pid,
        attempt > 0 ==> temp_number(pid, attempt) == pid * 100 + attempt,
        MAX_HISTORY_RESTORE_TEMP_PATH_ATTEMPTS == 64,
        MAX_RESTORE_ROLLBACK_PATH_ATTEMPTS == 1024,
        MAX_HISTORY_TEXT_DIFF_BYTES == 8 * 1024 * 1024,
        temp_path(target, pid, attempt) == crate::paths::with_extension(
            target,
            "jsonl."@ + decimal(temp_number(pid, attempt)) + ".tmp"@,
        ),
        rollback_path(target, pid, offset) == crate::paths::with_extension(
            target,
            "jsonl."@ + decimal((pid + offset) as nat) + ".tmp"@,
        ),
{
}

/// A restore that goes well copies the backup to a temporary file beside the target, keeps a
/// copy of a target that it writes over, and only then puts the file in place.
pub proof fn law_restore_that_goes_well(attempt: u32, offset: u64)
    ensures
        ({
            let done = RestoreEvent::Done;
            &&& restore_step_after(RestoreStep::CheckTempPath, done, true)
                == RestoreStep::CreateParent
            &&& restore_step_after(RestoreStep::CreateParent, done, true)
                == RestoreStep::OpenBackup
            &&& restore_step_after(RestoreStep::OpenBackup, done, true)
                == (RestoreStep::CreateTemp { attempt: 0 })
            &&& restore_step_after(RestoreStep::CreateTemp { attempt }, done, true)
                == RestoreStep::CopyBackup
            &&& restore_step_after(RestoreStep::CopyBackup, done, true)
                == RestoreStep::CheckOverwrite
            &&& restore_step_after(RestoreStep::CheckOverwrite, done, true)
                == (RestoreStep::CreateRollback { offset: 1 })
            &&& restore_step_after(RestoreStep::CreateRollback { offset }, done, true)
                == RestoreStep::CopyTarget
            &&& restore_step_after(RestoreStep::CopyTarget, done, true) == RestoreStep::Commit
            &&& restore_step_after(RestoreStep::CheckTempPath, done, false)
                == RestoreStep::CreateParent
            &&& restore_step_after(RestoreStep::CreateParent, done, false)
                == RestoreStep::OpenBackup
            &&& restore_step_after(RestoreStep::OpenBackup, done, false)
                == (RestoreStep::CreateTemp { attempt: 0 })
            &&& restore_step_after(RestoreStep::CreateTemp { attempt }, done, false)
                == RestoreStep::CopyBackup
            &&& restore_step_after(RestoreStep::CopyBackup, done, false) == RestoreStep::Commit
        }),
{
}

/// A name that is taken is passed over for the next one, sixty-four times for the temporary
/// file and up to the offset 1024 for the one to undo with; a link under a temporary name ends
/// the restore, and so does any other failure.
pub proof fn law_taken_names_are_passed_over(step: RestoreStep, overwrites: bool)
    ensures
        ({
            let taken = restore_step_after(step, RestoreEvent::NameTaken, overwrites);
            let link = restore_step_after(step, RestoreEvent::LinkUnderName, overwrites);
            let failed = restore_step_after(step, RestoreEvent::Failed, overwrites);
            &&& step matches RestoreStep::CreateTemp { attempt } ==> (if attempt < 63 {
                taken == (RestoreStep::CreateTemp { attempt: (attempt + 1) as u32 })
            } else {
                taken == RestoreStep::OutOfTempNames
            }) && link == RestoreStep::LinkInTheWay && failed == RestoreStep::Failed
            &&& step matches RestoreStep::CreateRollback { offset } ==> (if offset < 1024 {
                taken == (RestoreStep::CreateRollback { offset: (offset + 1) as u64 })
            } else {
                taken == RestoreStep::OutOfRollbackNames
            }) && link == taken && failed == RestoreStep::Failed
            &&& step is CheckTempPath || step is CreateParent || step is OpenBackup
                || step is CopyBackup || step is CheckOverwrite || step is CopyTarget ==> failed
                == RestoreStep::Failed && taken == RestoreStep::Failed && link
                == RestoreStep::Failed
        }),
{
}

/// A target that was put in place is restored. Where that failed, a target that is still there
/// is left alone with its copy kept, and one that is gone is put back from the copy; the copy
/// goes only where the target is back. Without a copy the failure is told as it came.
pub proof fn law_failed_commit_saves_the_target(
    target: Seq<char>,
    snapshot: Option<Seq<char>>,
    error: String,
    there: bool,
    first: Seq<char>,
)
    ensures
        commit_after(CommitModel::Rename, RenameEvent::Renamed, target, snapshot)
            == CommitModel::Committed,
        ({
            let event = RenameEvent::Failed { error, target_exists: there };
            let after = commit_after(CommitModel::Rename, event, target, snapshot);
            &&& snapshot is None ==> after == (CommitModel::Failed {
                error: ErrorModel::Outside(error@),
                keep_snapshot: false,
            })
            &&& snapshot is Some && there ==> after is Failed && after->keep_snapshot
            &&& snapshot is Some && !there ==> after == (CommitModel::RestoreOriginal {
                rename_error: error@,
            })
        }),
        ({
            let back = CommitModel::RestoreOriginal { rename_error: first };
            let renamed = commit_after(back, RenameEvent::Renamed, target, snapshot);
            let lost = commit_after(
                back,
                RenameEvent::Failed { error, target_exists: there },
                target,
                snapshot,
            );
            renamed is Failed && !renamed->keep_snapshot && lost is Failed && lost->keep_snapshot
        }),
{
}

/// Two files are found different exactly where a piece differs, of which none before it is
/// empty; files that are the same piece for piece are not.
pub proof fn law_same_pieces_are_not_different(pieces: Seq<Seq<u8>>, i: int)
    ensures
        compared(true, pieces, pieces) != PieceVerdict::Different,
        compared(false, pieces, pieces) == PieceVerdict::Different,
        0 <= i < pieces.len() && pieces[i].len() == 0 && (forall|j: int|
            0 <= j < i ==> (#[trigger] pieces[j]).len() > 0) ==> compared(true, pieces, pieces)
            == PieceVerdict::Identical,
    decreases pieces.len(),
{
    if pieces.len() > 0 {
        let rest = pieces.skip(1);
        law_same_pieces_are_not_different(rest, i - 1);
        if 0 < i < pieces.len() && pieces[i].len() == 0 && (forall|j: int|
            0 <= j < i ==> (#[trigger] pieces[j]).len() > 0) {
            assert(rest[i - 1] == pieces[i]);
            assert forall|j: int| 0 <= j < i - 1 implies (#[trigger] rest[j]).len() > 0 by {
                assert(rest[j] == pieces[j + 1]);
            }
            assert(pieces[0].len() > 0);
        }
    }
}

/// A piece that differs makes the files different, where those before it are the same and not
/// empty.
pub proof fn law_a_different_piece_is_seen(a: Seq<Seq<u8>>, b: Seq<Seq<u8>>, i: int)
    requires
        0 <= i < a.len(),
        i < b.len(),
        a[i] != b[i],
        forall|j: int| 0 <= j < i ==> (#[trigger] a[j]) == b[j] && a[j].len() > 0,
    ensures
        compared(true, a, b) == PieceVerdict::Different,
    decreases i,
{
    if i > 0 {
        let (x, y) = (a.skip(1), b.skip(1));
        assert(a[0] == b[0] && a[0].len() > 0);
        assert(x[i - 1] == a[i] && y[i - 1] == b[i]);
        assert forall|j: int| 0 <= j < i - 1 implies (#[trigger] x[j]) == y[j]
            && x[j].len() > 0 by {
            assert(a[j + 1] == b[j + 1] && a[j + 1].len() > 0);
        }
        law_a_different_piece_is_seen(x, y, i - 1);
    }
}

/// What is said where no text diff can be shown: whether the files are the same, why there is
/// no diff, and how large each file is.
pub proof fn law_fallback_says_why_and_how_large(
    reason: TextDiffFallbackReason,
    current: u64,
    backup: u64,
)
    ensures
        ({
            let sizes = ". Current size: "@ + short_size_text(current) + "; backup size: "@
                + short_size_text(backup) + "."@;
            let why = reason_message(reason);
            &&& fallback_message(true, reason, current, backup) == "Files are byte-identical."@
                + " Text diff unavailable: "@ + why + sizes
            &&& fallback_message(false, reason, current, backup) == "Files differ."@
                + " Text diff unavailable: "@ + why + sizes
        }),
        reason_message(TextDiffFallbackReason::NonUtf8) == "one or both files are not valid UTF-8"@,
        reason_message(TextDiffFallbackReason::TooLarge)
            == "one or both files exceed the text diff size limit"@,
        status_word(true) == "identical"@,
        status_word(false) == "different"@,
{
    let sizes = ". Current size: "@ + short_size_text(current) + "; backup size: "@
        + short_size_text(backup) + "."@;
    let why = reason_message(reason);
    assert(fallback_message(true, reason, current, backup) =~= "Files are byte-identical."@
        + " Text diff unavailable: "@ + why + sizes);
    assert(fallback_message(false, reason, current, backup) =~= "Files differ."@
        + " Text diff unavailable: "@ + why + sizes);
}

/// A diff without lines says that the files are the same; any other is shown as it is.
pub proof fn law_empty_diffs_are_identical_files(lines: Seq<char>, rich: bool)
    ensures
        diff_pieces(Ok(Seq::empty()), rich)[0].text == "Files are identical."@,
        lines.len() > 0 ==> diff_pieces(Ok(lines), rich).len() == 1 && diff_pieces(
            Ok(lines),
            rich,
        )[0].text == lines,
        diff_pieces(Ok(Seq::empty()), true)[0].role == Role::Success,
        diff_pieces(Err(lines), rich)[0].text == lines,
        diff_pieces(Err(lines), true)[0].role == Role::Warning,
        diff_pieces(Err(lines), false)[0].role == Role::Normal,
{
}

/// What is told of a restore names the backup, the file and the next step, and says that the
/// database is unchanged and that deleted issues stay deleted.
pub proof fn law_restore_is_told(backup: Seq<char>, target: Seq<char>, next: Seq<char>)
    ensures
        ({
            let notes = "\nNote: SQLite is unchanged until you run the import step.\nNote: Tombstone protection remains active; deleted issues are not resurrected by import."@;
            let what = "Restored "@ + one_line(backup) + " to "@ + one_line(name_or_empty(target));
            &&& restored_text(backup, target, next) == what + "\nNext: "@ + one_line(next) + notes
                + "\n"@
            &&& restored_panel(backup, target, next) == what + ".\nNext: "@ + one_line(next) + notes
        }),
{
    reveal_strlit("\nNote: ");
    reveal_strlit("SQLite is unchanged until you run the import step.");
    reveal_strlit("Tombstone protection remains active; deleted issues are not resurrected by import.");
    reveal_strlit("\nNote: SQLite is unchanged until you run the import step.\nNote: Tombstone protection remains active; deleted issues are not resurrected by import.");
    let notes = "\nNote: SQLite is unchanged until you run the import step.\nNote: Tombstone protection remains active; deleted issues are not resurrected by import."@;
    assert(notes =~= "\nNote: "@ + RESTORE_NOTE_DB_UNCHANGED@ + "\nNote: "@
        + RESTORE_NOTE_TOMBSTONE_PROTECTION@);
    let what = "Restored "@ + one_line(backup) + " to "@ + one_line(name_or_empty(target));
    assert(restored_text(backup, target, next) =~= what + "\nNext: "@ + one_line(next) + notes
        + "\n"@);
    assert(restored_panel(backup, target, next) =~= what + ".\nNext: "@ + one_line(next) + notes);
}

/// What is told of a prune: how many backups are gone, how many are kept, and the limits that
/// were set, each where it was.
pub proof fn law_prune_is_told(deleted: u64, keep: u64, days: u32, bytes: u64)
    ensures
        ({
            let gone = "Pruned "@ + decimal(deleted as nat) + " backup(s)."@;
            let newest = gone + "\nCriteria: keep "@ + decimal(keep as nat) + " newest backups"@;
            let older = gone + "\nCriteria: keep "@ + decimal(keep as nat)
                + ", delete older than "@ + decimal(days as nat) + " days"@;
            let budget = "\nGlobal logical-byte budget: "@ + decimal(bytes as nat) + " bytes"@;
            &&& prune_panel(deleted, keep, None, None) == newest
            &&& prune_panel(deleted, keep, Some(days), None) == older
            &&& prune_panel(deleted, keep, None, Some(bytes)) == newest + budget
            &&& prune_panel(deleted, keep, Some(days), Some(bytes)) == older + budget
        }),
{
    reveal_strlit("");
    let gone = "Pruned "@ + decimal(deleted as nat) + " backup(s)."@;
    let newest = gone + "\nCriteria: keep "@ + decimal(keep as nat) + " newest backups"@;
    let older = gone + "\nCriteria: keep "@ + decimal(keep as nat) + ", delete older than "@
        + decimal(days as nat) + " days"@;
    let budget = "\nGlobal logical-byte budget: "@ + decimal(bytes as nat) + " bytes"@;
    assert(prune_panel(deleted, keep, None, None) =~= newest);
    assert(prune_panel(deleted, keep, Some(days), None) =~= older);
    assert(prune_panel(deleted, keep, None, Some(bytes)) =~= newest + budget);
    assert(prune_panel(deleted, keep, Some(days), Some(bytes)) =~= older + budget);
}

/// A cell is the text with spaces behind it, as wide as asked for, or as wide as the text.
pub proof fn law_cells_are_filled_up(s: Seq<char>, width: nat, i: int)
    ensures
        filled(s, width).len() == if s.len() > width {
            s.len()
        } else {
            width
        },
        s.is_prefix_of(filled(s, width)),
        s.len() <= i < filled(s, width).len() ==> filled(s, width)[i] == ' ',
{
    assert(filled(s, width).take(s.len() as int) =~= s);
}

/// One backup more is one line more at the end of the list: its name, the file that it is of,
/// its size and its time, in columns. The first one comes with the headings, and a list of none
/// says so.
pub proof fn law_every_backup_is_listed(
    dir: Seq<char>,
    backups: Seq<BackupEntry>,
    more: BackupEntry,
)
    ensures
        list_text(dir, Seq::empty()) == "No backups found in "@ + one_line(dir) + "\n"@,
        ({
            let line = filled(one_line(name_or_empty(more.path@)), 30) + " "@ + filled(
                one_line(more.target_path@),
                36,
            ) + " "@ + filled(short_size_text(more.size), 10) + " "@ + filled(
                utc_text(
                    more.timestamp.seconds as int,
                    more.timestamp.nanos as int,
                    "%Y-%m-%d %H:%M:%S UTC"@,
                ),
                20,
            ) + "\n"@;
            let head = "Backups in "@ + one_line(dir) + ":\n"@ + filled("FILENAME"@, 30) + " "@
                + filled("TARGET"@, 36) + " "@ + filled("SIZE"@, 10) + " "@ + filled(
                "TIMESTAMP"@,
                20,
            ) + "\n"@ + crate::history::RULE@;
            list_text(dir, backups.push(more)) == if backups.len() == 0 {
                head + line
            } else {
                list_text(dir, backups) + line
            }
        }),
{
    reveal_strlit("");
    assert(backups.push(more).drop_last() =~= backups);
    let line = backup_line(more);
    if backups.len() == 0 {
        assert(backup_lines(backups) =~= Seq::empty());
        assert(backup_lines(backups.push(more)) =~= line);
    }
    assert(list_text(dir, backups.push(more)) =~= "Backups in "@ + one_line(dir) + ":\n"@
        + table_line("FILENAME"@, "TARGET"@, "SIZE"@, "TIMESTAMP"@) + crate::history::RULE@
        + backup_lines(backups) + line);
    let head = "Backups in "@ + one_line(dir) + ":\n"@ + filled("FILENAME"@, 30) + " "@ + filled(
        "TARGET"@,
        36,
    ) + " "@ + filled("SIZE"@, 10) + " "@ + filled("TIMESTAMP"@, 20) + "\n"@ + crate::history::RULE@;
    assert(head =~= "Backups in "@ + one_line(dir) + ":\n"@ + table_line(
        "FILENAME"@,
        "TARGET"@,
        "SIZE"@,
        "TIMESTAMP"@,
    ) + crate::history::RULE@);
    assert(list_text(dir, backups.push(more)) =~= if backups.len() == 0 {
        head + line
    } else {
        list_text(dir, backups) + line
    });
}

/// A backup is listed to programs by its name, the file that it is of, its size in bytes and
/// as people read it, and its time.
pub proof fn law_items_name_the_backup(entry: BackupEntry)
    ensures
        file_name(entry.path@) is Some ==> item_of(entry).filename == file_name(entry.path@)->0,
        item_of(entry).target == entry.target_path@,
        item_of(entry).size_bytes == entry.size,
        item_of(entry).size == short_size_text(entry.size),
        item_of(entry).timestamp == rfc3339_text(
            entry.timestamp.seconds as int,
            entry.timestamp.nanos as int,
        ),
{
}

/// The contents of a file are its pieces, one behind the other.
pub proof fn law_contents_are_the_pieces(pieces: Seq<Seq<u8>>, more: Seq<u8>)
    ensures
        contents(Seq::empty()).len() == 0,
        contents(pieces.push(more)) == contents(pieces) + more,
    decreases pieces.len(),
{
    let all = pieces.push(more);
    if pieces.len() == 0 {
        assert(all.skip(1) =~= Seq::<Seq<u8>>::empty());
        assert(contents(Seq::<Seq<u8>>::empty()) =~= Seq::<u8>::empty());
        assert(contents(pieces) =~= Seq::<u8>::empty());
        assert(all[0] == more);
        assert(contents(all) =~= contents(pieces) + more);
    } else {
        law_contents_are_the_pieces(pieces.skip(1), more);
        assert(all.skip(1) =~= pieces.skip(1).push(more));
        assert(contents(all) =~= contents(pieces) + more);
    }
}

} // verus!
