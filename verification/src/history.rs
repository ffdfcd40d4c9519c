//! The `history` command: backups of the issues file, compared, restored and listed.

use crate::error::{checked, text_or_error, BeadsError, ErrorModel};
use crate::model::Timestamp;
use crate::numbers::{decimal, decimal_text, lemma_decimal_injective};
use crate::paths::{
    absolute, components, components_of, file_name, file_name_of, is_absolute, is_same_path,
    is_under, join_path, joined_path, path_with_extension, same_path, under, with_extension,
};
use crate::sanitize::{multiline, one_line, sanitize_terminal_inline, sanitize_terminal_text};
use crate::shell::{quote_for_shell, single_quoted};
use crate::show::OutputMode;
use crate::shown::{one_piece, one_span, shown, shown_in, Shown, ShownModel};
use crate::sizes::{format_size, short_size_text};
use crate::sorting::views;
use crate::spans::{push_styled, push_unstyled, styled, unstyled, Role, Span, SpanModel};
use crate::text::{opt_str, text2, text3, text5, texts};
use crate::time::{format_rfc3339, format_utc, rfc3339_text, utc_text};
use similar::TextDiff;
use vstd::prelude::*;
use vstd::string::*;
use vstd::utf8::valid_utf8;

verus! {

broadcast use vstd::string::group_string_axioms;

pub fn history_display_text(value: &str) -> (r: String)
    ensures
        r@ == one_line(value@),
{
    sanitize_terminal_inline(value)
}

/// The name at the end of a path, or nothing.
pub open spec fn name_or_empty(path: Seq<char>) -> Seq<char> {
    match file_name(path) {
        Some(name) => name,
        None => ""@,
    }
}

fn name_text(path: &str) -> (r: String)
    ensures
        r@ == name_or_empty(path@),
{
    match file_name_of(path) {
        Some(name) => name,
        None => "".to_owned(),
    }
}

pub fn history_display_filename(path: &str) -> (r: String)
    ensures
        r@ == one_line(name_or_empty(path@)),
{
    let name = name_text(path);
    history_display_text(name.as_str())
}

/// The name of a backup: a single name, nothing around it.
pub open spec fn backup_name_of(filename: Seq<char>) -> Result<Seq<char>, ErrorModel> {
    if components(filename).len() == 1 && file_name(filename) is Some {
        Ok(file_name(filename)->0)
    } else {
        Err(ErrorModel::Config("Invalid backup filename format: "@ + one_line(filename)))
    }
}

pub fn validated_backup_filename(filename: &str) -> (r: Result<String, BeadsError>)
    ensures
        text_or_error(r) == backup_name_of(filename@),
{
    let parts = components_of(filename);
    assert(texts(parts@).len() == parts@.len());
    if parts.len() == 1 {
        if let Some(name) = file_name_of(filename) {
            return Ok(name);
        }
    }
    let shown = history_display_text(filename);
    Err(BeadsError::Config(text2("Invalid backup filename format: ", shown.as_str())))
}

/// What stands at a path.
#[derive(Debug, Clone, Copy, PartialEq, Eq, Structural)]
pub enum PathKind {
    Missing,
    Link,
    File,
    Other,
}

/// A backup is a file, and no link to one.
pub open spec fn backup_check(kind: PathKind, backup_name: Seq<char>) -> Result<(), ErrorModel> {
    let shown = one_line(backup_name);
    match kind {
        PathKind::File => Ok(()),
        PathKind::Link => Err(
            ErrorModel::Config("History backup '"@ + shown + "' must not be a symlink"@),
        ),
        PathKind::Other => Err(
            ErrorModel::Config("History backup '"@ + shown + "' must be a regular file"@),
        ),
        PathKind::Missing => Err(ErrorModel::Config("Backup file not found: "@ + shown)),
    }
}

pub fn ensure_regular_backup_file(kind: PathKind, backup_name: &str) -> (r: Result<
    (),
    BeadsError,
>)
    ensures
        checked(r) == backup_check(kind, backup_name@),
{
    let shown = history_display_text(backup_name);
    match kind {
        PathKind::File => Ok(()),
        PathKind::Link => Err(
            BeadsError::Config(
                text3("History backup '", shown.as_str(), "' must not be a symlink"),
            ),
        ),
        PathKind::Other => Err(
            BeadsError::Config(
                text3("History backup '", shown.as_str(), "' must be a regular file"),
            ),
        ),
        PathKind::Missing => Err(
            BeadsError::Config(text2("Backup file not found: ", shown.as_str())),
        ),
    }
}

/// A target that lies outside the workspace, whichever way the workspace is written.
pub open spec fn external_target(
    beads_dir: Seq<char>,
    canonical_beads_dir: Seq<char>,
    target: Seq<char>,
) -> bool {
    !under(target, beads_dir) && !under(target, canonical_beads_dir)
}

pub fn is_external_jsonl_target(
    beads_dir: &str,
    canonical_beads_dir: &str,
    target_path: &str,
) -> (r: bool)
    ensures
        r == external_target(beads_dir@, canonical_beads_dir@, target_path@),
{
    !is_under(target_path, beads_dir) && !is_under(target_path, canonical_beads_dir)
}

/// A path as it is compared: seen from the current directory where it is relative.
pub open spec fn match_path(path: Seq<char>, cwd: Option<Seq<char>>) -> Seq<char> {
    if absolute(path) {
        path
    } else {
        match cwd {
            Some(dir) => join_path(dir, path),
            None => path,
        }
    }
}

pub fn normalize_jsonl_match_path(path: &str, cwd: Option<&str>) -> (r: String)
    ensures
        r@ == match_path(path@, opt_str(cwd)),
{
    if is_absolute(path) {
        return path.to_owned();
    }
    match cwd {
        Some(dir) => joined_path(dir, path),
        None => path.to_owned(),
    }
}

/// The issues file that is in use.
#[derive(Debug)]
pub struct ActivePath {
    pub path: String,
    pub canonical: String,
}

/// A backup of a file outside the workspace is used only for the issues file in use.
pub open spec fn target_check(
    external: bool,
    target: Seq<char>,
    canonical_target: Seq<char>,
    active: Option<ActivePath>,
) -> Result<Seq<char>, ErrorModel> {
    if !external {
        Ok(target)
    } else {
        match active {
            None => Err(
                ErrorModel::Config(
                    "External backup target '"@ + one_line(target)
                        + "' requires the current active JSONL path"@,
                ),
            ),
            Some(a) => if same_path(canonical_target, a.canonical@) {
                Ok(target)
            } else {
                Err(
                    ErrorModel::Config(
                        "Backup target '"@ + one_line(target)
                            + "' does not match the active JSONL path '"@ + one_line(a.path@)
                            + "'"@,
                    ),
                )
            },
        }
    }
}

/// The file that a backup is of. `canonical_target` and the canonical path of the issues
/// file in use are those of [`normalize_jsonl_match_path`].
pub fn current_jsonl_path_for_backup(
    beads_dir: &str,
    canonical_beads_dir: &str,
    target_path: &str,
    canonical_target: &str,
    active: &Option<ActivePath>,
) -> (r: Result<String, BeadsError>)
    ensures
        text_or_error(r) == target_check(
            external_target(beads_dir@, canonical_beads_dir@, target_path@),
            target_path@,
            canonical_target@,
            *active,
        ),
{
    if !is_external_jsonl_target(beads_dir, canonical_beads_dir, target_path) {
        return Ok(target_path.to_owned());
    }
    let shown = history_display_text(target_path);
    match active {
        None => Err(
            BeadsError::Config(
                text3(
                    "External backup target '",
                    shown.as_str(),
                    "' requires the current active JSONL path",
                ),
            ),
        ),
        Some(a) => {
            if is_same_path(canonical_target, a.canonical.as_str()) {
                return Ok(target_path.to_owned());
            }
            let shown_active = history_display_text(a.path.as_str());
            Err(
                BeadsError::Config(
                    text5(
                        "Backup target '",
                        shown.as_str(),
                        "' does not match the active JSONL path '",
                        shown_active.as_str(),
                        "'",
                    ),
                ),
            )
        },
    }
}

/// A backup is never restored to a file outside the workspace that is not in use.
pub proof fn law_external_target_must_be_active(
    target: Seq<char>,
    canonical_target: Seq<char>,
    active: Option<ActivePath>,
)
    requires
        target_check(true, target, canonical_target, active) is Ok,
    ensures
        active is Some,
        same_path(canonical_target, active->0.canonical@),
{
}

/// The issues file that a workspace has by default.
pub open spec fn default_target(beads_dir: Seq<char>) -> Seq<char> {
    join_path(beads_dir, "issues.jsonl"@)
}

/// The canonical forms of what a restore is about.
#[derive(Debug)]
pub struct CanonicalPaths {
    pub beads_dir: String,
    pub target: String,
    pub default_target: String,
}

/// The target is the issues file that the workspace has by default.
pub open spec fn is_default(
    beads_dir: Seq<char>,
    target: Seq<char>,
    canonical: CanonicalPaths,
) -> bool {
    same_path(target, default_target(beads_dir)) || same_path(
        canonical.target@,
        canonical.default_target@,
    )
}

pub fn is_default_jsonl_target(
    beads_dir: &str,
    target_path: &str,
    canonical: &CanonicalPaths,
) -> (r: bool)
    ensures
        r == is_default(beads_dir@, target_path@, *canonical),
{
    let default = joined_path(beads_dir, "issues.jsonl");
    is_same_path(target_path, default.as_str()) || is_same_path(
        canonical.target.as_str(),
        canonical.default_target.as_str(),
    )
}

pub fn shell_quote(value: &str) -> (r: String)
    ensures
        r@ == single_quoted(value@),
{
    quote_for_shell(value)
}

/// The command that brings a restored file into the database.
pub open spec fn next_step(
    beads_dir: Seq<char>,
    target: Seq<char>,
    canonical: CanonicalPaths,
) -> Seq<char> {
    (if is_default(beads_dir, target, canonical) {
        ""@
    } else {
        "BEADS_JSONL="@ + single_quoted(target) + " "@
    }) + "br sync --import-only --force"@ + if external_target(
        beads_dir,
        canonical.beads_dir@,
        target,
    ) {
        " --allow-external-jsonl"@
    } else {
        ""@
    }
}

pub fn restore_next_step(
    beads_dir: &str,
    target_path: &str,
    canonical: &CanonicalPaths,
) -> (r: String)
    ensures
        r@ == next_step(beads_dir@, target_path@, *canonical),
{
    let mut out: String = if is_default_jsonl_target(beads_dir, target_path, canonical) {
        "".to_owned()
    } else {
        let quoted = shell_quote(target_path);
        text3("BEADS_JSONL=", quoted.as_str(), " ")
    };
    out.append("br sync --import-only --force");
    if is_external_jsonl_target(beads_dir, canonical.beads_dir.as_str(), target_path) {
        out.append(" --allow-external-jsonl");
    } else {
        out.append("");
    }
    out
}

/// How many temporary names a restore tries.
pub const MAX_HISTORY_RESTORE_TEMP_PATH_ATTEMPTS: u32 = 64;

/// How many names a restore tries for the file that it is to undo with.
pub const MAX_RESTORE_ROLLBACK_PATH_ATTEMPTS: u64 = 1024;

/// The number in a temporary name: the process, and the attempt behind it.
pub open spec fn temp_number(pid: u32, attempt: u32) -> nat {
    if attempt == 0 {
        pid as nat
    } else {
        (pid * 100 + attempt) as nat
    }
}

/// The temporary file of an attempt.
pub open spec fn temp_path(target: Seq<char>, pid: u32, attempt: u32) -> Seq<char> {
    with_extension(target, "jsonl."@ + decimal(temp_number(pid, attempt)) + ".tmp"@)
}

pub fn restore_temp_path_for_attempt(target_path: &str, pid: u32, attempt: u32) -> (r: String)
    ensures
        r@ == temp_path(target_path@, pid, attempt),
{
    let number: u64 = if attempt == 0 {
        pid as u64
    } else {
        pid as u64 * 100 + attempt as u64
    };
    let shown = decimal_text(number);
    let ext = text3("jsonl.", shown.as_str(), ".tmp");
    path_with_extension(target_path, ext.as_str())
}

/// The file that a restore is undone with, under one of its names.
pub open spec fn rollback_path(target: Seq<char>, pid: u32, offset: u64) -> Seq<char> {
    with_extension(target, "jsonl."@ + decimal((pid + offset) as nat) + ".tmp"@)
}

pub fn restore_rollback_path(target_path: &str, pid: u32, offset: u64) -> (r: String)
    requires
        offset <= MAX_RESTORE_ROLLBACK_PATH_ATTEMPTS,
    ensures
        r@ == rollback_path(target_path@, pid, offset),
{
    let shown = decimal_text(pid as u64 + offset);
    let ext = text3("jsonl.", shown.as_str(), ".tmp");
    path_with_extension(target_path, ext.as_str())
}

proof fn lemma_same_extension(target: Seq<char>, a: Seq<char>, b: Seq<char>)
    requires
        file_name(target) is Some,
        with_extension(target, a) == with_extension(target, b),
    ensures
        a == b,
{
    let t = crate::paths::strip_tail(target);
    let front = t.take(crate::paths::head_len(t)) + crate::paths::stem(
        t.skip(crate::paths::head_len(t)),
    ) + "."@;
    assert(a =~= (front + a).skip(front.len() as int));
    assert(b =~= (front + b).skip(front.len() as int));
}

/// No two attempts have the same temporary name.
pub proof fn law_temp_names_differ(target: Seq<char>, pid: u32, a: u32, b: u32)
    requires
        file_name(target) is Some,
        pid > 0,
        a < MAX_HISTORY_RESTORE_TEMP_PATH_ATTEMPTS,
        b < MAX_HISTORY_RESTORE_TEMP_PATH_ATTEMPTS,
        a != b,
    ensures
        temp_path(target, pid, a) != temp_path(target, pid, b),
{
    let x = decimal(temp_number(pid, a));
    let y = decimal(temp_number(pid, b));
    if temp_path(target, pid, a) == temp_path(target, pid, b) {
        lemma_same_extension(target, "jsonl."@ + x + ".tmp"@, "jsonl."@ + y + ".tmp"@);
        let left = "jsonl."@ + x + ".tmp"@;
        let right = "jsonl."@ + y + ".tmp"@;
        assert(left.len() == right.len());
        assert(x.len() == y.len());
        assert(x =~= left.subrange("jsonl."@.len() as int, ("jsonl."@.len() + x.len()) as int));
        assert(y =~= right.subrange("jsonl."@.len() as int, ("jsonl."@.len() + y.len()) as int));
        lemma_decimal_injective(temp_number(pid, a), temp_number(pid, b));
    }
}

/// What is done to restore a backup.
#[derive(Debug, Clone, Copy, PartialEq, Eq, Structural)]
pub enum RestoreStep {
    /// See that the temporary file would lie beside the target.
    CheckTempPath,
    /// Make the directory of the target.
    CreateParent,
    /// Open the backup.
    OpenBackup,
    /// Make a temporary file, under the name of this attempt.
    CreateTemp { attempt: u32 },
    /// Copy the backup to it, down to the disk.
    CopyBackup,
    /// See that the target may be written over.
    CheckOverwrite,
    /// Make a file to undo with, under one of its names.
    CreateRollback { offset: u64 },
    /// Copy the target to it, down to the disk.
    CopyTarget,
    /// Put the temporary file in place of the target.
    Commit,
    /// No temporary name was free.
    OutOfTempNames,
    /// A link stands under a temporary name.
    LinkInTheWay,
    /// No name to undo with was free.
    OutOfRollbackNames,
    /// A step failed: what was made is removed, and the target is as it was.
    Failed,
}

/// What came of a step.
#[derive(Debug, Clone, Copy, PartialEq, Eq, Structural)]
pub enum RestoreEvent {
    Done,
    NameTaken,
    LinkUnderName,
    Failed,
}

/// The step after `step`. The target is copied only where it is there and to be written
/// over.
pub open spec fn restore_step_after(
    step: RestoreStep,
    event: RestoreEvent,
    overwrites: bool,
) -> RestoreStep {
    match (step, event) {
        (RestoreStep::CreateTemp { attempt }, RestoreEvent::NameTaken) => if attempt + 1
            < MAX_HISTORY_RESTORE_TEMP_PATH_ATTEMPTS {
            RestoreStep::CreateTemp { attempt: (attempt + 1) as u32 }
        } else {
            RestoreStep::OutOfTempNames
        },
        (RestoreStep::CreateTemp { .. }, RestoreEvent::LinkUnderName) => RestoreStep::LinkInTheWay,
        (RestoreStep::CreateRollback { offset }, RestoreEvent::NameTaken) => if offset
            < MAX_RESTORE_ROLLBACK_PATH_ATTEMPTS {
            RestoreStep::CreateRollback { offset: (offset + 1) as u64 }
        } else {
            RestoreStep::OutOfRollbackNames
        },
        (RestoreStep::CreateRollback { offset }, RestoreEvent::LinkUnderName) => if offset
            < MAX_RESTORE_ROLLBACK_PATH_ATTEMPTS {
            RestoreStep::CreateRollback { offset: (offset + 1) as u64 }
        } else {
            RestoreStep::OutOfRollbackNames
        },
        (RestoreStep::CheckTempPath, RestoreEvent::Done) => RestoreStep::CreateParent,
        (RestoreStep::CreateParent, RestoreEvent::Done) => RestoreStep::OpenBackup,
        (RestoreStep::OpenBackup, RestoreEvent::Done) => RestoreStep::CreateTemp { attempt: 0 },
        (RestoreStep::CreateTemp { .. }, RestoreEvent::Done) => RestoreStep::CopyBackup,
        (RestoreStep::CopyBackup, RestoreEvent::Done) => if overwrites {
            RestoreStep::CheckOverwrite
        } else {
            RestoreStep::Commit
        },
        (RestoreStep::CheckOverwrite, RestoreEvent::Done) => RestoreStep::CreateRollback {
            offset: 1,
        },
        (RestoreStep::CreateRollback { .. }, RestoreEvent::Done) => RestoreStep::CopyTarget,
        (RestoreStep::CopyTarget, RestoreEvent::Done) => RestoreStep::Commit,
        (RestoreStep::Commit, _) => RestoreStep::Commit,
        (RestoreStep::OutOfTempNames, _) => RestoreStep::OutOfTempNames,
        (RestoreStep::LinkInTheWay, _) => RestoreStep::LinkInTheWay,
        (RestoreStep::OutOfRollbackNames, _) => RestoreStep::OutOfRollbackNames,
        (_, _) => RestoreStep::Failed,
    }
}

pub fn next_restore_step(step: RestoreStep, event: RestoreEvent, overwrites: bool) -> (r:
    RestoreStep)
    ensures
        r == restore_step_after(step, event, overwrites),
{
    match step {
        RestoreStep::CreateTemp { attempt } => match event {
            RestoreEvent::NameTaken => {
                if attempt < MAX_HISTORY_RESTORE_TEMP_PATH_ATTEMPTS - 1 {
                    RestoreStep::CreateTemp { attempt: attempt + 1 }
                } else {
                    RestoreStep::OutOfTempNames
                }
            },
            RestoreEvent::LinkUnderName => RestoreStep::LinkInTheWay,
            RestoreEvent::Done => RestoreStep::CopyBackup,
            RestoreEvent::Failed => RestoreStep::Failed,
        },
        RestoreStep::CreateRollback { offset } => match event {
            RestoreEvent::NameTaken | RestoreEvent::LinkUnderName => {
                if offset < MAX_RESTORE_ROLLBACK_PATH_ATTEMPTS {
                    RestoreStep::CreateRollback { offset: offset + 1 }
                } else {
                    RestoreStep::OutOfRollbackNames
                }
            },
            RestoreEvent::Done => RestoreStep::CopyTarget,
            RestoreEvent::Failed => RestoreStep::Failed,
        },
        RestoreStep::Commit => RestoreStep::Commit,
        RestoreStep::OutOfTempNames => RestoreStep::OutOfTempNames,
        RestoreStep::LinkInTheWay => RestoreStep::LinkInTheWay,
        RestoreStep::OutOfRollbackNames => RestoreStep::OutOfRollbackNames,
        RestoreStep::Failed => RestoreStep::Failed,
        RestoreStep::CheckTempPath => {
            if event == RestoreEvent::Done {
                RestoreStep::CreateParent
            } else {
                RestoreStep::Failed
            }
        },
        RestoreStep::CreateParent => {
            if event == RestoreEvent::Done {
                RestoreStep::OpenBackup
            } else {
                RestoreStep::Failed
            }
        },
        RestoreStep::OpenBackup => {
            if event == RestoreEvent::Done {
                RestoreStep::CreateTemp { attempt: 0 }
            } else {
                RestoreStep::Failed
            }
        },
        RestoreStep::CopyBackup => {
            if event == RestoreEvent::Done {
                if overwrites {
                    RestoreStep::CheckOverwrite
                } else {
                    RestoreStep::Commit
                }
            } else {
                RestoreStep::Failed
            }
        },
        RestoreStep::CheckOverwrite => {
            if event == RestoreEvent::Done {
                RestoreStep::CreateRollback { offset: 1 }
            } else {
                RestoreStep::Failed
            }
        },
        RestoreStep::CopyTarget => {
            if event == RestoreEvent::Done {
                RestoreStep::Commit
            } else {
                RestoreStep::Failed
            }
        },
    }
}

/// A target is written over only once a copy of it is safe on the disk, and nothing is put in
/// place before the backup is copied whole.
pub proof fn law_overwriting_keeps_a_copy(
    step: RestoreStep,
    event: RestoreEvent,
    overwrites: bool,
)
    requires
        !(step is Commit),
        restore_step_after(step, event, overwrites) is Commit,
    ensures
        event == RestoreEvent::Done,
        if overwrites {
            step is CopyTarget
        } else {
            step is CopyTarget || step is CopyBackup
        },
{
}

/// A target that is there is restored only by force.
pub open spec fn restore_check(is_there: bool, force: bool, target: Seq<char>) -> Result<
    (),
    ErrorModel,
> {
    if is_there && !force {
        Err(
            ErrorModel::Config(
                "Current "@ + one_line(name_or_empty(target))
                    + " exists. Use --force to overwrite."@,
            ),
        )
    } else {
        Ok(())
    }
}

pub fn begin_restore(target_exists: bool, force: bool, target_path: &str) -> (r: Result<
    RestoreStep,
    BeadsError,
>)
    ensures
        match r {
            Ok(step) => restore_check(target_exists, force, target_path@) is Ok && step
                == RestoreStep::CheckTempPath,
            Err(e) => restore_check(target_exists, force, target_path@) == Err::<(), ErrorModel>(
                e.model(),
            ),
        },
        r is Err <==> target_exists && !force,
{
    if target_exists && !force {
        let shown = history_display_filename(target_path);
        return Err(
            BeadsError::Config(
                text3("Current ", shown.as_str(), " exists. Use --force to overwrite."),
            ),
        );
    }
    Ok(RestoreStep::CheckTempPath)
}

/// The error of a restore that found no name, or a link under one.
pub fn restore_name_error(step: RestoreStep, target_path: &str, temp_path: &str) -> (r: Option<
    BeadsError,
>)
    ensures
        match step {
            RestoreStep::OutOfTempNames => r is Some && r->0.model() == ErrorModel::Config(
                "Failed to allocate temporary restore file for '"@ + one_line(target_path@) + "'"@,
            ),
            RestoreStep::LinkInTheWay => r is Some && r->0.model() == ErrorModel::Config(
                "Temporary restore file already exists: "@ + one_line(temp_path@),
            ),
            RestoreStep::OutOfRollbackNames => r is Some && r->0.model() == ErrorModel::Config(
                "Failed to allocate rollback snapshot path for '"@ + one_line(target_path@) + "'"@,
            ),
            _ => r is None,
        },
{
    match step {
        RestoreStep::OutOfTempNames => {
            let shown = history_display_text(target_path);
            Some(
                BeadsError::Config(
                    text3(
                        "Failed to allocate temporary restore file for '",
                        shown.as_str(),
                        "'",
                    ),
                ),
            )
        },
        RestoreStep::LinkInTheWay => {
            let shown = history_display_text(temp_path);
            Some(
                BeadsError::Config(
                    text2("Temporary restore file already exists: ", shown.as_str()),
                ),
            )
        },
        RestoreStep::OutOfRollbackNames => {
            let shown = history_display_text(target_path);
            Some(
                BeadsError::Config(
                    text3(
                        "Failed to allocate rollback snapshot path for '",
                        shown.as_str(),
                        "'",
                    ),
                ),
            )
        },
        _ => None,
    }
}

/// What is done to put a restored file in place.
#[derive(Debug)]
pub enum CommitStep {
    /// Put the temporary file in place of the target.
    Rename,
    /// Put the copy of the target back, since the target is gone.
    RestoreOriginal { rename_error: String },
    /// The target is restored.
    Committed,
    /// The command fails; the copy of the target is kept where nothing else holds it.
    Failed { error: BeadsError, keep_snapshot: bool },
}

/// What a [`CommitStep`] says.
pub enum CommitModel {
    Rename,
    RestoreOriginal { rename_error: Seq<char> },
    Committed,
    Failed { error: ErrorModel, keep_snapshot: bool },
}

impl View for CommitStep {
    type V = CommitModel;

    open spec fn view(&self) -> CommitModel {
        match self {
            CommitStep::Rename => CommitModel::Rename,
            CommitStep::RestoreOriginal { rename_error } => CommitModel::RestoreOriginal {
                rename_error: rename_error@,
            },
            CommitStep::Committed => CommitModel::Committed,
            CommitStep::Failed { error, keep_snapshot } => CommitModel::Failed {
                error: error.model(),
                keep_snapshot: *keep_snapshot,
            },
        }
    }
}

/// What came of a rename.
#[derive(Debug)]
pub enum RenameEvent {
    Renamed,
    /// It failed, and the target is there or not.
    Failed { error: String, target_exists: bool },
}

/// The beginning of the error of a target that could not be replaced.
pub open spec fn replace_failure(target: Seq<char>, error: Seq<char>) -> Seq<char> {
    "Failed to replace '"@ + one_line(target) + "' with the restored backup: "@ + error
}

/// The step after a rename. Without a copy of the target there was nothing to lose.
pub open spec fn commit_after(
    step: CommitModel,
    event: RenameEvent,
    target: Seq<char>,
    snapshot: Option<Seq<char>>,
) -> CommitModel {
    match (step, event) {
        (CommitModel::Rename, RenameEvent::Renamed) => CommitModel::Committed,
        (CommitModel::Rename, RenameEvent::Failed { error, target_exists }) => match snapshot {
            None => CommitModel::Failed {
                error: ErrorModel::Outside(error@),
                keep_snapshot: false,
            },
            Some(path) => if target_exists {
                CommitModel::Failed {
                    error: ErrorModel::Config(
                        replace_failure(target, error@)
                            + ". The original target snapshot was preserved at '"@ + one_line(path)
                            + "'."@,
                    ),
                    keep_snapshot: true,
                }
            } else {
                CommitModel::RestoreOriginal { rename_error: error@ }
            },
        },
        (CommitModel::RestoreOriginal { rename_error }, RenameEvent::Renamed) => CommitModel::Failed {
            error: ErrorModel::Config(
                replace_failure(target, rename_error) + ". The original target was restored."@,
            ),
            keep_snapshot: false,
        },
        (
            CommitModel::RestoreOriginal { rename_error },
            RenameEvent::Failed { error, target_exists },
        ) => CommitModel::Failed {
            error: ErrorModel::Config(
                replace_failure(target, rename_error) + ". Restoring the original target from '"@
                    + one_line(
                    match snapshot {
                        Some(path) => path,
                        None => ""@,
                    },
                ) + "' also failed: "@ + error@,
            ),
            keep_snapshot: true,
        },
        (other, _) => other,
    }
}

fn replace_failure_text(target: &str, error: &str) -> (r: String)
    ensures
        r@ == replace_failure(target@, error@),
{
    let shown = history_display_text(target);
    let mut out = text3("Failed to replace '", shown.as_str(), "' with the restored backup: ");
    out.append(error);
    out
}

pub fn commit_restored_target_with_rollback(
    step: CommitStep,
    event: RenameEvent,
    target_path: &str,
    snapshot: Option<&str>,
) -> (r: CommitStep)
    ensures
        r@ == commit_after(step@, event, target_path@, opt_str(snapshot)),
{
    match step {
        CommitStep::Rename => match event {
            RenameEvent::Renamed => CommitStep::Committed,
            RenameEvent::Failed { error, target_exists } => match snapshot {
                None => CommitStep::Failed {
                    error: BeadsError::Outside(error),
                    keep_snapshot: false,
                },
                Some(path) => {
                    if target_exists {
                        let shown = history_display_text(path);
                        let mut out = replace_failure_text(target_path, error.as_str());
                        out.append(". The original target snapshot was preserved at '");
                        out.append(shown.as_str());
                        out.append("'.");
                        CommitStep::Failed { error: BeadsError::Config(out), keep_snapshot: true }
                    } else {
                        CommitStep::RestoreOriginal { rename_error: error }
                    }
                },
            },
        },
        CommitStep::RestoreOriginal { rename_error } => match event {
            RenameEvent::Renamed => {
                let mut out = replace_failure_text(target_path, rename_error.as_str());
                out.append(". The original target was restored.");
                CommitStep::Failed { error: BeadsError::Config(out), keep_snapshot: false }
            },
            RenameEvent::Failed { error, target_exists } => {
                let shown = match snapshot {
                    Some(path) => history_display_text(path),
                    None => history_display_text(""),
                };
                let mut out = replace_failure_text(target_path, rename_error.as_str());
                out.append(". Restoring the original target from '");
                out.append(shown.as_str());
                out.append("' also failed: ");
                out.append(error.as_str());
                CommitStep::Failed { error: BeadsError::Config(out), keep_snapshot: true }
            },
        },
        other => other,
    }
}

/// The original is never lost: where a restore fails after a copy of the target was made,
/// the copy is kept, or it was put back.
pub proof fn law_failed_restore_keeps_original(
    step: CommitModel,
    event: RenameEvent,
    target: Seq<char>,
    snapshot: Seq<char>,
)
    requires
        !(step is Failed),
        commit_after(step, event, target, Some(snapshot)) is Failed,
    ensures
        commit_after(step, event, target, Some(snapshot))->keep_snapshot || (step is RestoreOriginal
            && event is Renamed),
{
}

/// Why two files cannot be compared as text.
#[derive(Debug, Clone, Copy, PartialEq, Eq, Structural)]
pub enum TextDiffFallbackReason {
    NonUtf8,
    TooLarge,
}

/// The words for a [`TextDiffFallbackReason`].
pub open spec fn reason_message(reason: TextDiffFallbackReason) -> Seq<char> {
    match reason {
        TextDiffFallbackReason::NonUtf8 => "one or both files are not valid UTF-8"@,
        TextDiffFallbackReason::TooLarge => "one or both files exceed the text diff size limit"@,
    }
}

impl TextDiffFallbackReason {
    pub fn message(self) -> (r: &'static str)
        ensures
            r@ == reason_message(self),
    {
        match self {
            TextDiffFallbackReason::NonUtf8 => "one or both files are not valid UTF-8",
            TextDiffFallbackReason::TooLarge => "one or both files exceed the text diff size limit",
        }
    }
}

/// The size up to which files are compared as text.
pub const MAX_HISTORY_TEXT_DIFF_BYTES: u64 = 8388608;

/// How two files compare.
#[derive(Debug, Clone, Copy, PartialEq, Eq, Structural)]
pub struct DiffFileSummary {
    pub identical: bool,
    pub diff_available: bool,
    pub current_size: u64,
    pub backup_size: u64,
    pub fallback_reason: Option<TextDiffFallbackReason>,
}

/// Both files are small enough to be compared as text.
pub fn within_text_limit(current_size: u64, backup_size: u64) -> (r: bool)
    ensures
        r == (current_size <= MAX_HISTORY_TEXT_DIFF_BYTES && backup_size
            <= MAX_HISTORY_TEXT_DIFF_BYTES),
        r <==> current_size <= 8388608 && backup_size <= 8388608,
{
    current_size <= MAX_HISTORY_TEXT_DIFF_BYTES && backup_size <= MAX_HISTORY_TEXT_DIFF_BYTES
}

/// How two files compare. `both_utf8` counts only where both are small enough.
pub fn summarize_diff_files(
    current_size: u64,
    backup_size: u64,
    identical: bool,
    both_utf8: bool,
) -> (r: DiffFileSummary)
    ensures
        r == ({
            let too_large = current_size > MAX_HISTORY_TEXT_DIFF_BYTES || backup_size
                > MAX_HISTORY_TEXT_DIFF_BYTES;
            DiffFileSummary {
                identical,
                diff_available: !too_large && both_utf8,
                current_size,
                backup_size,
                fallback_reason: if too_large {
                    Some(TextDiffFallbackReason::TooLarge)
                } else if both_utf8 {
                    None
                } else {
                    Some(TextDiffFallbackReason::NonUtf8)
                },
            }
        }),
        r.diff_available <==> both_utf8 && current_size <= 8388608 && backup_size <= 8388608,
        r.identical == identical,
        r.diff_available <==> r.fallback_reason is None,
        r.current_size == current_size && r.backup_size == backup_size,
{
    if !within_text_limit(current_size, backup_size) {
        return DiffFileSummary {
            identical,
            diff_available: false,
            current_size,
            backup_size,
            fallback_reason: Some(TextDiffFallbackReason::TooLarge),
        };
    }
    DiffFileSummary {
        identical,
        diff_available: both_utf8,
        current_size,
        backup_size,
        fallback_reason: if both_utf8 {
            None
        } else {
            Some(TextDiffFallbackReason::NonUtf8)
        },
    }
}

/// The word for whether two files are identical.
pub open spec fn status_word(identical: bool) -> Seq<char> {
    if identical {
        "identical"@
    } else {
        "different"@
    }
}

/// What structured output says of two files: the word, whether there is a text diff, and
/// the sizes where there is none.
pub fn diff_status_for_json(summary: &DiffFileSummary) -> (r: (
    &'static str,
    bool,
    Option<(u64, u64)>,
))
    ensures
        r.0@ == status_word(summary.identical),
        r.1 == summary.diff_available,
        r.2 == if summary.diff_available {
            None
        } else {
            Some((summary.current_size, summary.backup_size))
        },
{
    let status = if summary.identical {
        "identical"
    } else {
        "different"
    };
    if summary.diff_available {
        (status, true, None)
    } else {
        (status, false, Some((summary.current_size, summary.backup_size)))
    }
}

/// `std::str::from_utf8`: succeeds exactly on valid UTF-8.
#[verifier::external_body]
fn from_utf8_succeeds(bytes: &[u8]) -> (r: bool)
    ensures
        r == valid_utf8(bytes@),
{
    std::str::from_utf8(bytes).is_ok()
}

pub fn file_is_utf8(bytes: &Vec<u8>) -> (r: bool)
    ensures
        r == valid_utf8(bytes@),
{
    from_utf8_succeeds(bytes.as_slice())
}

/// What two pieces read from two files say of the files.
#[derive(Debug, Clone, Copy, PartialEq, Eq, Structural)]
pub enum PieceVerdict {
    Different,
    Identical,
    ReadOn,
}

/// Pieces of different contents end the comparison, and so do two that are empty.
pub open spec fn piece_verdict(current: Seq<u8>, backup: Seq<u8>) -> PieceVerdict {
    if current != backup {
        PieceVerdict::Different
    } else if current.len() == 0 {
        PieceVerdict::Identical
    } else {
        PieceVerdict::ReadOn
    }
}

/// What is known of two files before they are read: those of different sizes differ.
pub fn begin_comparison(current_size: u64, backup_size: u64) -> (r: PieceVerdict)
    ensures
        r == if current_size == backup_size {
            PieceVerdict::ReadOn
        } else {
            PieceVerdict::Different
        },
        r == PieceVerdict::Different <==> current_size != backup_size,
{
    if current_size == backup_size {
        PieceVerdict::ReadOn
    } else {
        PieceVerdict::Different
    }
}

pub fn compare_pieces(current: &Vec<u8>, backup: &Vec<u8>) -> (r: PieceVerdict)
    ensures
        r == piece_verdict(current@, backup@),
{
    if current.len() != backup.len() {
        return PieceVerdict::Different;
    }
    let mut i: usize = 0;
    while i < current.len()
        invariant
            i <= current@.len(),
            current@.len() == backup@.len(),
            forall|k: int| 0 <= k < i ==> current@[k] == backup@[k],
        decreases current@.len() - i,
    {
        if current[i] != backup[i] {
            assert(current@[i as int] != backup@[i as int]);
            return PieceVerdict::Different;
        }
        i += 1;
    }
    assert(current@ =~= backup@);
    if current.len() == 0 {
        PieceVerdict::Identical
    } else {
        PieceVerdict::ReadOn
    }
}

/// The verdict on the files whose pieces are these: files of different sizes are not read.
pub open spec fn compared(
    same_size: bool,
    current: Seq<Seq<u8>>,
    backup: Seq<Seq<u8>>,
) -> PieceVerdict
    decreases current.len(),
{
    if !same_size {
        PieceVerdict::Different
    } else if current.len() == 0 || backup.len() == 0 {
        PieceVerdict::ReadOn
    } else {
        match piece_verdict(current[0], backup[0]) {
            PieceVerdict::ReadOn => compared(true, current.skip(1), backup.skip(1)),
            verdict => verdict,
        }
    }
}

/// The pieces end to end.
pub open spec fn contents(pieces: Seq<Seq<u8>>) -> Seq<u8>
    decreases pieces.len(),
{
    if pieces.len() == 0 {
        Seq::empty()
    } else {
        pieces[0] + contents(pieces.skip(1))
    }
}

/// The first piece that is empty is the end of the file: nothing follows it.
pub open spec fn ends_at_empty(pieces: Seq<Seq<u8>>) -> bool {
    forall|i: int, j: int|
        0 <= i < j < pieces.len() && (#[trigger] pieces[i]).len() == 0 ==> (
        #[trigger] pieces[j]).len() == 0
}

proof fn lemma_all_empty(pieces: Seq<Seq<u8>>)
    requires
        forall|i: int| 0 <= i < pieces.len() ==> (#[trigger] pieces[i]).len() == 0,
    ensures
        contents(pieces) =~= Seq::<u8>::empty(),
    decreases pieces.len(),
{
    if pieces.len() > 0 {
        assert(forall|i: int| 0 <= i < pieces.skip(1).len() ==> pieces.skip(1)[i] == pieces[i + 1]);
        lemma_all_empty(pieces.skip(1));
        assert(pieces[0] =~= Seq::<u8>::empty());
    }
}

/// Files that are found identical have the same contents.
pub proof fn law_identical_files_are_equal(current: Seq<Seq<u8>>, backup: Seq<Seq<u8>>)
    requires
        ends_at_empty(current),
        ends_at_empty(backup),
        compared(true, current, backup) == PieceVerdict::Identical,
    ensures
        contents(current) == contents(backup),
    decreases current.len(),
{
    if piece_verdict(current[0], backup[0]) == PieceVerdict::ReadOn {
        let a = current.skip(1);
        let b = backup.skip(1);
        assert forall|i: int, j: int|
            0 <= i < j < a.len() && (#[trigger] a[i]).len() == 0 implies (
        #[trigger] a[j]).len() == 0 by {
            assert(a[i] == current[i + 1] && a[j] == current[j + 1]);
        }
        assert forall|i: int, j: int|
            0 <= i < j < b.len() && (#[trigger] b[i]).len() == 0 implies (
        #[trigger] b[j]).len() == 0 by {
            assert(b[i] == backup[i + 1] && b[j] == backup[j + 1]);
        }
        law_identical_files_are_equal(a, b);
    } else {
        assert(current[0].len() == 0 && backup[0].len() == 0);
        assert forall|i: int| 0 <= i < current.len() implies (#[trigger] current[i]).len() == 0 by {
            assert(current[0].len() == 0);
        }
        assert forall|i: int| 0 <= i < backup.len() implies (#[trigger] backup[i]).len() == 0 by {
            assert(backup[0].len() == 0);
        }
        lemma_all_empty(current);
        lemma_all_empty(backup);
    }
}

/// The unified diff of two texts, line by line, under two headings.
pub uninterp spec fn unified_diff_text(
    old_text: Seq<char>,
    new_text: Seq<char>,
    old_heading: Seq<char>,
    new_heading: Seq<char>,
) -> Seq<char>;

/// `similar::TextDiff::from_lines` and `unified_diff` of the result: a function of the texts
/// and the headings alone, named and not spelled out. It is empty where the texts are equal.
#[verifier::external_body]
fn unified_diff(
    old_text: &str,
    new_text: &str,
    old_heading: &str,
    new_heading: &str,
) -> (r: String)
    ensures
        r@ == unified_diff_text(old_text@, new_text@, old_heading@, new_heading@),
        old_text@ == new_text@ ==> r@.len() == 0,
{
    TextDiff::from_lines(old_text, new_text).unified_diff().header(
        old_heading,
        new_heading,
    ).to_string()
}

/// A diff, made safe for a terminal.
pub fn shown_diff(diff: &str) -> (r: String)
    ensures
        r@ == multiline(diff@),
        diff@.len() == 0 ==> r@.len() == 0,
{
    sanitize_terminal_text(diff)
}

/// The diff of two files with these texts, made safe for a terminal; it is empty where the
/// texts are equal.
pub fn unified_diff_for_files(
    current_path: &str,
    backup_path: &str,
    current: &str,
    backup: &str,
) -> (r: String)
    ensures
        r@ == multiline(
            unified_diff_text(
                current@,
                backup@,
                one_line(current_path@),
                one_line(backup_path@),
            ),
        ),
        current@ == backup@ ==> r@.len() == 0,
{
    let current_heading = history_display_text(current_path);
    let backup_heading = history_display_text(backup_path);
    let diff = unified_diff(
        current,
        backup,
        current_heading.as_str(),
        backup_heading.as_str(),
    );
    shown_diff(diff.as_str())
}

/// How two files are compared.
#[derive(Debug)]
pub enum HistoryFileDiff {
    /// By the diff of their texts.
    Text(String),
    /// Without one.
    Fallback { summary: DiffFileSummary, reason: TextDiffFallbackReason },
}

/// Compares two files: by the diff of their texts, where they have texts that are small
/// enough.
pub fn history_diff_for_files(
    summary: &DiffFileSummary,
    current_path: &str,
    backup_path: &str,
    current: &str,
    backup: &str,
) -> (r: HistoryFileDiff)
    ensures
        match summary.fallback_reason {
            Some(reason) => r == (HistoryFileDiff::Fallback { summary: *summary, reason }),
            None => r is Text && r->Text_0@ == multiline(
                unified_diff_text(
                    current@,
                    backup@,
                    one_line(current_path@),
                    one_line(backup_path@),
                ),
            ) && (current@ == backup@ ==> r->Text_0@.len() == 0),
        },
{
    match summary.fallback_reason {
        Some(reason) => HistoryFileDiff::Fallback { summary: *summary, reason },
        None => HistoryFileDiff::Text(
            unified_diff_for_files(current_path, backup_path, current, backup),
        ),
    }
}

/// What is said of two files that have no text diff.
pub open spec fn fallback_message(
    identical: bool,
    reason: TextDiffFallbackReason,
    current_size: u64,
    backup_size: u64,
) -> Seq<char> {
    (if identical {
        "Files are byte-identical."@
    } else {
        "Files differ."@
    }) + " Text diff unavailable: "@ + reason_message(reason) + ". Current size: "@
        + short_size_text(current_size) + "; backup size: "@ + short_size_text(backup_size) + "."@
}

pub fn diff_fallback_message(summary: &DiffFileSummary, reason: TextDiffFallbackReason) -> (r:
    String)
    ensures
        r@ == fallback_message(
            summary.identical,
            reason,
            summary.current_size,
            summary.backup_size,
        ),
{
    let prefix = if summary.identical {
        "Files are byte-identical."
    } else {
        "Files differ."
    };
    let current = format_size(summary.current_size);
    let backup = format_size(summary.backup_size);
    let mut out = text5(
        prefix,
        " Text diff unavailable: ",
        reason.message(),
        ". Current size: ",
        current.as_str(),
    );
    out.append("; backup size: ");
    out.append(backup.as_str());
    out.append(".");
    out
}

/// The file that a backup is compared with must be there.
pub fn require_current(is_there: bool, current_path: &str) -> (r: Result<(), BeadsError>)
    ensures
        checked(r) == if is_there {
            Ok(())
        } else {
            Err(
                ErrorModel::Config(
                    "Current "@ + one_line(name_or_empty(current_path@)) + " not found"@,
                ),
            )
        },
        r is Ok <==> is_there,
{
    if is_there {
        return Ok(());
    }
    let shown = history_display_filename(current_path);
    Err(BeadsError::Config(text3("Current ", shown.as_str(), " not found")))
}

/// The heading of a comparison in a panel.
pub open spec fn diff_panel(current_path: Seq<char>, backup_name: Seq<char>) -> Seq<char> {
    "Current: "@ + one_line(name_or_empty(current_path)) + "\nBackup: "@ + one_line(backup_name)
}

pub fn diff_panel_text(current_path: &str, backup_name: &str) -> (r: String)
    ensures
        r@ == diff_panel(current_path@, backup_name@),
{
    let current = history_display_filename(current_path);
    let backup = history_display_text(backup_name);
    let mut out = text3("Current: ", current.as_str(), "\nBackup: ");
    out.append(backup.as_str());
    out
}

/// The heading of a comparison in plain text.
pub open spec fn diff_heading(current_path: Seq<char>, backup_name: Seq<char>) -> Seq<char> {
    "Diffing current "@ + one_line(name_or_empty(current_path)) + " vs "@ + one_line(backup_name)
        + "...\n"@
}

pub fn diff_plain_text(current_path: &str, backup_name: &str) -> (r: String)
    ensures
        r@ == diff_heading(current_path@, backup_name@),
{
    let current = history_display_filename(current_path);
    let backup = history_display_text(backup_name);
    text5("Diffing current ", current.as_str(), " vs ", backup.as_str(), "...\n")
}

/// What is said where two files do not differ.
pub const FILES_IDENTICAL: &'static str = "Files are identical.";

/// A restore touches only the issues file.
pub const RESTORE_NOTE_DB_UNCHANGED: &'static str =
    "SQLite is unchanged until you run the import step.";

/// An import after a restore brings back no deleted issue.
pub const RESTORE_NOTE_TOMBSTONE_PROTECTION: &'static str =
    "Tombstone protection remains active; deleted issues are not resurrected by import.";

/// What a restore says in a panel.
pub open spec fn restored_panel(
    backup_name: Seq<char>,
    target_path: Seq<char>,
    next_step: Seq<char>,
) -> Seq<char> {
    "Restored "@ + one_line(backup_name) + " to "@ + one_line(name_or_empty(target_path))
        + ".\nNext: "@ + one_line(next_step) + "\nNote: "@ + RESTORE_NOTE_DB_UNCHANGED@
        + "\nNote: "@ + RESTORE_NOTE_TOMBSTONE_PROTECTION@
}

pub fn restore_panel_text(backup_name: &str, target_path: &str, next_step: &str) -> (r: String)
    ensures
        r@ == restored_panel(backup_name@, target_path@, next_step@),
{
    let backup = history_display_text(backup_name);
    let target = history_display_filename(target_path);
    let next = history_display_text(next_step);
    let mut out = text5("Restored ", backup.as_str(), " to ", target.as_str(), ".\nNext: ");
    out.append(next.as_str());
    out.append("\nNote: ");
    out.append(RESTORE_NOTE_DB_UNCHANGED);
    out.append("\nNote: ");
    out.append(RESTORE_NOTE_TOMBSTONE_PROTECTION);
    out
}

/// What a restore says in plain text.
pub open spec fn restored_text(
    backup_name: Seq<char>,
    target_path: Seq<char>,
    next_step: Seq<char>,
) -> Seq<char> {
    "Restored "@ + one_line(backup_name) + " to "@ + one_line(name_or_empty(target_path))
        + "\nNext: "@ + one_line(next_step) + "\nNote: "@ + RESTORE_NOTE_DB_UNCHANGED@
        + "\nNote: "@ + RESTORE_NOTE_TOMBSTONE_PROTECTION@ + "\n"@
}

pub fn restore_plain_text(backup_name: &str, target_path: &str, next_step: &str) -> (r: String)
    ensures
        r@ == restored_text(backup_name@, target_path@, next_step@),
{
    let backup = history_display_text(backup_name);
    let target = history_display_filename(target_path);
    let next = history_display_text(next_step);
    let mut out = text5("Restored ", backup.as_str(), " to ", target.as_str(), "\nNext: ");
    out.append(next.as_str());
    out.append("\nNote: ");
    out.append(RESTORE_NOTE_DB_UNCHANGED);
    out.append("\nNote: ");
    out.append(RESTORE_NOTE_TOMBSTONE_PROTECTION);
    out.append("\n");
    out
}

/// What a pruning says in plain text.
pub fn prune_plain_text(deleted: u64) -> (r: String)
    ensures
        r@ == "Pruned "@ + decimal(deleted as nat) + " backup(s).\n"@,
{
    let count = decimal_text(deleted);
    text3("Pruned ", count.as_str(), " backup(s).\n")
}

/// What a pruning says in a panel.
pub open spec fn prune_panel(
    deleted: u64,
    keep: u64,
    older_than_days: Option<u32>,
    max_bytes: Option<u64>,
) -> Seq<char> {
    "Pruned "@ + decimal(deleted as nat) + " backup(s)."@ + (match older_than_days {
        Some(days) => "\nCriteria: keep "@ + decimal(keep as nat) + ", delete older than "@
            + decimal(days as nat) + " days"@,
        None => "\nCriteria: keep "@ + decimal(keep as nat) + " newest backups"@,
    }) + match max_bytes {
        Some(bytes) => "\nGlobal logical-byte budget: "@ + decimal(bytes as nat) + " bytes"@,
        None => ""@,
    }
}

pub fn prune_panel_text(
    deleted: u64,
    keep: u64,
    older_than_days: Option<u32>,
    max_bytes: Option<u64>,
) -> (r: String)
    ensures
        r@ == prune_panel(deleted, keep, older_than_days, max_bytes),
{
    let count = decimal_text(deleted);
    let kept = decimal_text(keep);
    let mut out = text3("Pruned ", count.as_str(), " backup(s).");
    match older_than_days {
        Some(days) => {
            let shown = decimal_text(days as u64);
            let line = text5(
                "\nCriteria: keep ",
                kept.as_str(),
                ", delete older than ",
                shown.as_str(),
                " days",
            );
            out.append(line.as_str());
        },
        None => {
            let line = text3("\nCriteria: keep ", kept.as_str(), " newest backups");
            out.append(line.as_str());
        },
    }
    match max_bytes {
        Some(bytes) => {
            let shown = decimal_text(bytes);
            let line = text3("\nGlobal logical-byte budget: ", shown.as_str(), " bytes");
            out.append(line.as_str());
        },
        None => {
            out.append("");
        },
    }
    out
}

/// A backup.
#[derive(Debug)]
pub struct BackupEntry {
    pub path: String,
    pub target_path: String,
    pub size: u64,
    pub timestamp: Timestamp,
}

/// A backup as structured output names it.
#[derive(Debug)]
pub struct BackupItem {
    pub filename: String,
    pub target: String,
    pub size_bytes: u64,
    pub size: String,
    pub timestamp: String,
}

/// What a [`BackupItem`] says.
#[verifier::ext_equal]
pub struct ItemModel {
    pub filename: Seq<char>,
    pub target: Seq<char>,
    pub size_bytes: u64,
    pub size: Seq<char>,
    pub timestamp: Seq<char>,
}

impl View for BackupItem {
    type V = ItemModel;

    open spec fn view(&self) -> ItemModel {
        ItemModel {
            filename: self.filename@,
            target: self.target@,
            size_bytes: self.size_bytes,
            size: self.size@,
            timestamp: self.timestamp@,
        }
    }
}

/// A backup as structured output names it.
pub open spec fn item_of(entry: BackupEntry) -> ItemModel {
    ItemModel {
        filename: name_or_empty(entry.path@),
        target: entry.target_path@,
        size_bytes: entry.size,
        size: short_size_text(entry.size),
        timestamp: rfc3339_text(
            entry.timestamp.seconds as int,
            entry.timestamp.nanos as int,
        ),
    }
}

/// The backups as structured output lists them.
pub fn history_backup_list_payload(backups: &Vec<BackupEntry>) -> (r: Vec<BackupItem>)
    ensures
        views(r@) == backups@.map_values(|e: BackupEntry| item_of(e)),
{
    let ghost wanted = backups@.map_values(|e: BackupEntry| item_of(e));
    let mut out: Vec<BackupItem> = Vec::new();
    let mut i: usize = 0;
    while i < backups.len()
        invariant
            i <= backups@.len(),
            wanted == backups@.map_values(|e: BackupEntry| item_of(e)),
            views(out@) == wanted.take(i as int),
        decreases backups@.len() - i,
    {
        let ghost before = views(out@);
        let item = BackupItem {
            filename: name_text(backups[i].path.as_str()),
            target: backups[i].target_path.clone(),
            size_bytes: backups[i].size,
            size: format_size(backups[i].size),
            timestamp: format_rfc3339(
                backups[i].timestamp.seconds,
                backups[i].timestamp.nanos,
            ),
        };
        let ghost shown = item@;
        out.push(item);
        i += 1;
        assert(views(out@) =~= before.push(shown));
        assert(views(out@) =~= wanted.take(i as int));
    }
    assert(views(out@) =~= wanted);
    out
}

/// A text with spaces behind it, up to a width.
pub open spec fn filled(s: Seq<char>, width: nat) -> Seq<char> {
    if s.len() >= width {
        s
    } else {
        s + Seq::new((width - s.len()) as nat, |i: int| ' ')
    }
}

fn filled_text(s: &str, width: usize) -> (r: String)
    ensures
        r@ == filled(s@, width as nat),
{
    let mut out: String = s.to_owned();
    let mut n: usize = s.unicode_len();
    let ghost start = s@.len();
    while n < width
        invariant
            start == s@.len(),
            start <= n,
            n <= width || n == start,
            out@ == s@ + Seq::new((n - start) as nat, |i: int| ' '),
        decreases width - n,
    {
        out.push(' ');
        n += 1;
        assert(out@ =~= s@ + Seq::new((n - start) as nat, |i: int| ' '));
    }
    assert(out@ =~= filled(s@, width as nat));
    out
}

/// One line of the list of backups.
pub open spec fn table_line(
    filename: Seq<char>,
    target: Seq<char>,
    size: Seq<char>,
    timestamp: Seq<char>,
) -> Seq<char> {
    filled(filename, 30) + " "@ + filled(target, 36) + " "@ + filled(size, 10) + " "@ + filled(
        timestamp,
        20,
    ) + "\n"@
}

/// One line of the list of backups.
pub fn table_line_text(filename: &str, target: &str, size: &str, timestamp: &str) -> (r: String)
    ensures
        r@ == table_line(filename@, target@, size@, timestamp@),
{
    let a = filled_text(filename, 30);
    let b = filled_text(target, 36);
    let c = filled_text(size, 10);
    let d = filled_text(timestamp, 20);
    let mut out = text5(a.as_str(), " ", b.as_str(), " ", c.as_str());
    out.append(" ");
    out.append(d.as_str());
    out.append("\n");
    out
}

/// A backup in the list.
pub open spec fn backup_line(entry: BackupEntry) -> Seq<char> {
    table_line(
        one_line(name_or_empty(entry.path@)),
        one_line(entry.target_path@),
        short_size_text(entry.size),
        utc_text(
            entry.timestamp.seconds as int,
            entry.timestamp.nanos as int,
            "%Y-%m-%d %H:%M:%S UTC"@,
        ),
    )
}

/// The backups in the list.
pub open spec fn backup_lines(backups: Seq<BackupEntry>) -> Seq<char>
    decreases backups.len(),
{
    if backups.len() == 0 {
        ""@
    } else {
        backup_lines(backups.drop_last()) + backup_line(backups.last())
    }
}

/// The line below the head of the list.
pub const RULE: &'static str =
    "----------------------------------------------------------------------------------------------------\n";

/// The list of backups as plain text.
pub open spec fn list_text(history_dir: Seq<char>, backups: Seq<BackupEntry>) -> Seq<char> {
    if backups.len() == 0 {
        "No backups found in "@ + one_line(history_dir) + "\n"@
    } else {
        "Backups in "@ + one_line(history_dir) + ":\n"@ + table_line(
            "FILENAME"@,
            "TARGET"@,
            "SIZE"@,
            "TIMESTAMP"@,
        ) + RULE@ + backup_lines(backups)
    }
}

/// The cells of a backup: its name, its target, its size and its time.
pub fn backup_cells(entry: &BackupEntry) -> (r: (String, String, String, String))
    ensures
        r.0@ == one_line(name_or_empty(entry.path@)),
        r.1@ == one_line(entry.target_path@),
        r.2@ == short_size_text(entry.size),
        r.3@ == utc_text(
            entry.timestamp.seconds as int,
            entry.timestamp.nanos as int,
            "%Y-%m-%d %H:%M:%S UTC"@,
        ),
{
    let filename = history_display_filename(entry.path.as_str());
    let target = history_display_text(entry.target_path.as_str());
    let size = format_size(entry.size);
    let timestamp = format_utc(
        entry.timestamp.seconds,
        entry.timestamp.nanos,
        "%Y-%m-%d %H:%M:%S UTC",
    );
    (filename, target, size, timestamp)
}

/// The list of backups as plain text.
pub fn list_backups(history_dir: &str, backups: &Vec<BackupEntry>) -> (r: String)
    ensures
        r@ == list_text(history_dir@, backups@),
{
    let dir = history_display_text(history_dir);
    if backups.len() == 0 {
        return text3("No backups found in ", dir.as_str(), "\n");
    }
    let head = table_line_text("FILENAME", "TARGET", "SIZE", "TIMESTAMP");
    let mut out = text5("Backups in ", dir.as_str(), ":\n", head.as_str(), RULE);
    let ghost start = out@;
    let mut i: usize = 0;
    proof {
        reveal_strlit("");
        assert(start + backup_lines(backups@.take(0)) =~= start);
    }
    while i < backups.len()
        invariant
            i <= backups@.len(),
            out@ == start + backup_lines(backups@.take(i as int)),
        decreases backups@.len() - i,
    {
        assert(backups@.take(i + 1).drop_last() =~= backups@.take(i as int));
        let (filename, target, size, timestamp) = backup_cells(&backups[i]);
        let line = table_line_text(
            filename.as_str(),
            target.as_str(),
            size.as_str(),
            timestamp.as_str(),
        );
        out.append(line.as_str());
        i += 1;
        assert(out@ =~= start + backup_lines(backups@.take(i as int)));
    }
    assert(backups@.take(backups@.len() as int) =~= backups@);
    out
}

/// What the panel says where there are no backups.
pub const NO_BACKUPS: &'static str = "No backups found.";

/// What the command was asked for.
#[derive(Debug)]
pub enum HistoryCommand {
    List,
    Diff { file: String },
    Restore { file: String, force: bool },
    Prune { keep: u64, older_than: Option<u32>, max_bytes: Option<u64> },
}

/// What the command does: it lists the backups where nothing else is asked for, and it needs
/// the issues file in use to compare or restore.
pub fn execute(command: Option<HistoryCommand>) -> (r: (HistoryCommand, bool))
    ensures
        r.0 == match command {
            Some(c) => c,
            None => HistoryCommand::List,
        },
        r.1 == match command {
            Some(HistoryCommand::Diff { .. }) => true,
            Some(HistoryCommand::Restore { .. }) => true,
            _ => false,
        },
        command is Some ==> r.0 == command->0,
        command is None ==> r.0 == HistoryCommand::List && !r.1,
{
    match command {
        None => (HistoryCommand::List, false),
        Some(c) => {
            let needs = match &c {
                HistoryCommand::Diff { .. } => true,
                HistoryCommand::Restore { .. } => true,
                _ => false,
            };
            (c, needs)
        },
    }
}

/// Where the backups of a workspace lie.
pub fn history_dir(beads_dir: &str) -> (r: String)
    ensures
        r@ == join_path(beads_dir@, ".br_history"@),
{
    joined_path(beads_dir, ".br_history")
}

/// What a restore shows.
pub fn emit_restore_output(
    mode: OutputMode,
    backup_name: &str,
    target_path: &str,
    next_step: &str,
) -> (r: Shown)
    ensures
        r@ == shown_in(
            mode,
            "History Restore"@,
            one_piece(restored_panel(backup_name@, target_path@, next_step@)),
            one_piece(restored_text(backup_name@, target_path@, next_step@)),
        ),
{
    let panel = restore_panel_text(backup_name, target_path, next_step);
    let lines = restore_plain_text(backup_name, target_path, next_step);
    shown(mode, "History Restore", one_span(panel.as_str()), one_span(lines.as_str()))
}

/// What a pruning shows.
pub fn prune_backups(
    mode: OutputMode,
    deleted: u64,
    keep: u64,
    older_than_days: Option<u32>,
    max_bytes: Option<u64>,
) -> (r: Shown)
    ensures
        r@ == shown_in(
            mode,
            "History Prune"@,
            one_piece(prune_panel(deleted, keep, older_than_days, max_bytes)),
            one_piece("Pruned "@ + decimal(deleted as nat) + " backup(s).\n"@),
        ),
{
    let panel = prune_panel_text(deleted, keep, older_than_days, max_bytes);
    let lines = prune_plain_text(deleted);
    shown(mode, "History Prune", one_span(panel.as_str()), one_span(lines.as_str()))
}

/// What a comparison gave, as the pieces of text behind its heading. `diff` is the text of
/// the comparison, or what stands in its place. A rich output marks what is no comparison.
pub open spec fn diff_pieces(diff: Result<Seq<char>, Seq<char>>, rich: bool) -> Seq<SpanModel> {
    match diff {
        Ok(lines) => if lines.len() == 0 {
            seq![
                styled(
                    FILES_IDENTICAL@,
                    if rich {
                        Role::Success
                    } else {
                        Role::Normal
                    },
                ),
                unstyled("\n"@),
            ]
        } else {
            one_piece(lines)
        },
        Err(message) => seq![
            styled(
                message,
                if rich {
                    Role::Warning
                } else {
                    Role::Normal
                },
            ),
            unstyled("\n"@),
        ],
    }
}

/// The text of a comparison, or the message in its place.
pub open spec fn diff_or_message(diff: HistoryFileDiff) -> Result<Seq<char>, Seq<char>> {
    match diff {
        HistoryFileDiff::Text(lines) => Ok(lines@),
        HistoryFileDiff::Fallback { summary, reason } => Err(
            fallback_message(
                summary.identical,
                reason,
                summary.current_size,
                summary.backup_size,
            ),
        ),
    }
}

fn diff_spans(diff: &HistoryFileDiff, rich: bool) -> (r: Vec<Span>)
    ensures
        views(r@) == diff_pieces(diff_or_message(*diff), rich),
{
    match diff {
        HistoryFileDiff::Text(lines) => {
            if !lines.as_str().is_empty() {
                return one_span(lines.as_str());
            }
            let mut out: Vec<Span> = Vec::new();
            let role = if rich {
                Role::Success
            } else {
                Role::Normal
            };
            push_styled(&mut out, FILES_IDENTICAL, role);
            push_unstyled(&mut out, "\n");
            assert(views(out@) =~= seq![styled(FILES_IDENTICAL@, role), unstyled("\n"@)]);
            out
        },
        HistoryFileDiff::Fallback { summary, reason } => {
            let message = diff_fallback_message(summary, *reason);
            let mut out: Vec<Span> = Vec::new();
            let role = if rich {
                Role::Warning
            } else {
                Role::Normal
            };
            push_styled(&mut out, message.as_str(), role);
            push_unstyled(&mut out, "\n");
            assert(views(out@) =~= seq![styled(message@, role), unstyled("\n"@)]);
            out
        },
    }
}

/// What a comparison shows: its heading, and behind it what it gave. Where data or nothing
/// is shown, nothing stands behind it.
pub fn diff_backup(
    mode: OutputMode,
    current_path: &str,
    backup_name: &str,
    diff: &HistoryFileDiff,
) -> (r: (Shown, Shown))
    ensures
        r.0@ == shown_in(
            mode,
            "History Diff"@,
            one_piece(diff_panel(current_path@, backup_name@)),
            one_piece(diff_heading(current_path@, backup_name@)),
        ),
        r.1@ == match mode {
            OutputMode::Rich => ShownModel::Text { body: diff_pieces(diff_or_message(*diff), true) },
            OutputMode::Plain => ShownModel::Text {
                body: diff_pieces(diff_or_message(*diff), false),
            },
            _ => ShownModel::Nothing,
        },
{
    let panel = diff_panel_text(current_path, backup_name);
    let lines = diff_plain_text(current_path, backup_name);
    let heading = shown(mode, "History Diff", one_span(panel.as_str()), one_span(lines.as_str()));
    let body = match mode {
        OutputMode::Rich => Shown::Text { body: diff_spans(diff, true) },
        OutputMode::Plain => Shown::Text { body: diff_spans(diff, false) },
        _ => Shown::Nothing,
    };
    (heading, body)
}

} // verus!
