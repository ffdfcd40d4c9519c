//! The `init` command: what it makes of a directory, and what it leaves alone.

use crate::error::{BeadsError, ErrorModel};
use crate::numbers::{decimal, decimal_text};
use crate::paths::{
    extension, file_name, file_name_of, join_path, joined_path, parent, parent_of,
    path_with_extension, split_extension, with_extension,
};
use crate::show::OutputMode;
use crate::shown::{one_piece, one_span, Shown, ShownModel};
use crate::sorting::views;
use crate::spans::{push_styled, push_unstyled, styled, unstyled, Role, Span, SpanModel};
use crate::text::{
    ascii_alphanumeric, ascii_lower, ascii_lowercase, ascii_lowercased, chars_of, expand,
    is_ascii_alphanumeric, opt_str, opt_text, text2, text3, text5, trim, trimmed,
};
use vstd::prelude::*;
use vstd::string::*;

verus! {

broadcast use vstd::string::group_string_axioms;

/// The directory of the workspace: the one that the environment names, or else `.beads`.
pub open spec fn init_dir(named: Option<Seq<char>>, base_dir: Seq<char>) -> Seq<char> {
    match named {
        Some(value) if trim(value).len() > 0 => trim(value),
        _ => join_path(base_dir, ".beads"@),
    }
}

pub fn resolve_init_beads_dir(named: Option<&str>, base_dir: &str) -> (r: String)
    ensures
        r@ == init_dir(opt_str(named), base_dir@),
{
    if let Some(value) = named {
        let dir = trimmed(value);
        if !dir.as_str().is_empty() {
            return dir;
        }
    }
    joined_path(base_dir, ".beads")
}

/// A character that a prefix may have.
pub open spec fn prefix_char(c: char) -> bool {
    ascii_alphanumeric(c) || c == '-' || c == '_'
}

/// A character of a directory's name, where a prefix may have it.
pub open spec fn keeping_prefix_chars() -> spec_fn(char) -> Seq<char> {
    |c: char|
        if prefix_char(c) {
            seq![c]
        } else {
            Seq::empty()
        }
}

/// The prefix of the workspace, in lower case: the one that was asked for, or what remains
/// of the name of the directory, or `br`.
pub open spec fn chosen_prefix(asked: Option<Seq<char>>, dir_name: Option<Seq<char>>) -> Seq<char> {
    ascii_lowercase(
        match asked {
            Some(prefix) => prefix,
            None => match dir_name {
                Some(name) if expand(name, keeping_prefix_chars()).len() > 0 => expand(
                    name,
                    keeping_prefix_chars(),
                ),
                _ => "br"@,
            },
        },
    )
}

fn cleaned_name(name: &str) -> (r: String)
    ensures
        r@ == expand(name@, keeping_prefix_chars()),
{
    let chars = chars_of(name);
    let mut out: String = String::new();
    let mut i: usize = 0;
    while i < chars.len()
        invariant
            i <= chars@.len(),
            chars@ == name@,
            out@ == expand(name@.take(i as int), keeping_prefix_chars()),
        decreases chars@.len() - i,
    {
        assert(name@.take(i + 1).drop_last() =~= name@.take(i as int));
        if is_ascii_alphanumeric(chars[i]) || chars[i] == '-' || chars[i] == '_' {
            out.push(chars[i]);
        }
        i += 1;
        assert(out@ =~= expand(name@.take(i as int), keeping_prefix_chars()));
    }
    assert(name@.take(name@.len() as int) =~= name@);
    out
}

/// The prefix of the workspace. `dir_name` is the name of the directory, where it has one.
pub fn choose_prefix(asked: &Option<String>, dir_name: Option<&str>) -> (r: String)
    ensures
        r@ == chosen_prefix(opt_text(*asked), opt_str(dir_name)),
{
    match asked {
        Some(prefix) => ascii_lowercased(prefix.as_str()),
        None => {
            if let Some(name) = dir_name {
                let cleaned = cleaned_name(name);
                if !cleaned.as_str().is_empty() {
                    return ascii_lowercased(cleaned.as_str());
                }
            }
            ascii_lowercased("br")
        },
    }
}

/// A prefix has no ASCII capital: putting it in lower case again changes nothing.
pub proof fn law_prefix_is_lowercase(asked: Option<Seq<char>>, dir_name: Option<Seq<char>>)
    ensures
        ascii_lowercase(chosen_prefix(asked, dir_name)) == chosen_prefix(asked, dir_name),
{
    let prefix = chosen_prefix(asked, dir_name);
    assert(ascii_lowercase(prefix) =~= prefix);
}

proof fn lemma_cleaned(name: Seq<char>)
    ensures
        forall|i: int|
            0 <= i < expand(name, keeping_prefix_chars()).len() ==> prefix_char(
                #[trigger] expand(name, keeping_prefix_chars())[i],
            ),
    decreases name.len(),
{
    if name.len() > 0 {
        lemma_cleaned(name.drop_last());
        let before = expand(name.drop_last(), keeping_prefix_chars());
        assert(expand(name, keeping_prefix_chars()) == before + keeping_prefix_chars()(
            name.last(),
        ));
    }
}

/// A prefix that comes from the directory has only letters, digits, `-` and `_`, and at
/// least one of them.
pub proof fn law_derived_prefix_is_clean(dir_name: Option<Seq<char>>)
    ensures
        chosen_prefix(None, dir_name).len() > 0,
        forall|i: int|
            0 <= i < chosen_prefix(None, dir_name).len() ==> prefix_char(
                #[trigger] chosen_prefix(None, dir_name)[i],
            ),
{
    reveal_strlit("br");
    if let Some(name) = dir_name {
        lemma_cleaned(name);
    }
    let raw = match dir_name {
        Some(name) if expand(name, keeping_prefix_chars()).len() > 0 => expand(
            name,
            keeping_prefix_chars(),
        ),
        _ => "br"@,
    };
    assert forall|i: int| 0 <= i < raw.len() implies prefix_char(
        #[trigger] chosen_prefix(None, dir_name)[i],
    ) by {
        assert(prefix_char(raw[i]));
        lemma_lower_prefix_char(raw[i]);
    }
}

proof fn lemma_lower_prefix_char(c: char)
    requires
        prefix_char(c),
    ensures
        prefix_char(ascii_lower(c)),
{
    if 'A' <= c <= 'Z' {
        let code = c as int + 32;
        assert('a' as int <= code <= 'z' as int);
        assert((code as char) as int == code);
    }
}

/// How a file is written.
#[derive(Debug, Clone, Copy, PartialEq, Eq, Structural)]
pub enum WriteMode {
    /// Only where nothing is there, not even a link that leads nowhere.
    CreateOnly,
    /// In place of what is there, at once or not at all.
    Replace,
}

/// A file that is written.
#[derive(Debug)]
pub struct InitWrite {
    pub path: String,
    pub contents: String,
    pub mode: WriteMode,
}

/// What an [`InitWrite`] says.
#[verifier::ext_equal]
pub struct WriteModel {
    pub path: Seq<char>,
    pub contents: Seq<char>,
    pub mode: WriteMode,
}

impl View for InitWrite {
    type V = WriteModel;

    open spec fn view(&self) -> WriteModel {
        WriteModel { path: self.path@, contents: self.contents@, mode: self.mode }
    }
}

/// What `init` finds.
#[derive(Debug, Clone, Copy, PartialEq, Eq, Structural)]
pub struct InitState {
    pub dir_exists: bool,
    pub db_exists: bool,
    pub metadata_exists: bool,
    pub config_exists: bool,
    pub gitignore_exists: bool,
    pub jsonl_exists: bool,
}

/// Where the workspace keeps its database and its issues.
pub const METADATA: &'static str =
    "{\n  \"database\": \"beads.db\",\n  \"jsonl_export\": \"issues.jsonl\"\n}";

/// What the repository leaves out of the workspace.
pub const GITIGNORE: &'static str = "# Database
*.db
*.db-journal
*.db-shm
# -wal plus fsqlite 0.2+'s -wal-cert / -wal-cert-head durability sidecars
*.db-wal*
# fsqlite multi-process namespace sidecars (-fsqlite-ns-gate / -fsqlite-ns-use)
*.db-fsqlite-*

# Lock files
.write.lock
*.lock

# Temporary
last-touched
*.tmp

# Local history backups
.br_history/

# DB-family recovery artifacts (truncated WAL/SHM, quarantined sidecars)
# — same lifecycle as .br_history/, written by recovery paths and
# `br doctor --repair`. Recovery artifacts live under their own directory
# rather than relying on the database globs above (#271).
.br_recovery/

# Sync state (local-only, per-machine)
.sync.lock
sync_base.jsonl

# Merge artifacts (temporary files from 3-way merge)
beads.base.jsonl
beads.base.meta.json
beads.left.jsonl
beads.left.meta.json
beads.right.jsonl
beads.right.meta.json

# Daemon runtime files
daemon.lock
daemon.log
daemon.pid
bd.sock
sync-state.json

# Worktree redirect file
redirect

# bv (beads viewer) lock file
.bv.lock
";

/// The template of the configuration.
pub open spec fn config_template(prefix: Seq<char>) -> Seq<char> {
    "# Beads Project Configuration\n# issue_prefix: "@ + prefix
        + "\n# default_priority: 2\n# default_type: task\n"@
}

/// A file that is written unless something is there.
pub open spec fn create_unless(
    is_there: bool,
    dir: Seq<char>,
    name: Seq<char>,
    contents: Seq<char>,
) -> Seq<WriteModel> {
    if is_there {
        Seq::empty()
    } else {
        seq![WriteModel { path: join_path(dir, name), contents, mode: WriteMode::CreateOnly }]
    }
}

/// The files that are written, in order.
pub open spec fn init_writes(
    dir: Seq<char>,
    state: InitState,
    force: bool,
    prefix: Seq<char>,
) -> Seq<WriteModel> {
    (if force {
        seq![
            WriteModel {
                path: join_path(dir, "metadata.json"@),
                contents: METADATA@,
                mode: WriteMode::Replace,
            },
        ]
    } else {
        create_unless(state.metadata_exists, dir, "metadata.json"@, METADATA@)
    }) + create_unless(state.config_exists, dir, "config.yaml"@, config_template(prefix))
        + create_unless(state.gitignore_exists, dir, ".gitignore"@, GITIGNORE@) + create_unless(
        state.jsonl_exists,
        dir,
        "issues.jsonl"@,
        ""@,
    )
}

fn push_create_unless(
    out: &mut Vec<InitWrite>,
    is_there: bool,
    dir: &str,
    name: &str,
    contents: &str,
)
    ensures
        views(final(out)@) == views(old(out)@) + create_unless(is_there, dir@, name@, contents@),
{
    let ghost before = views(out@);
    if !is_there {
        let path = joined_path(dir, name);
        out.push(
            InitWrite { path, contents: contents.to_owned(), mode: WriteMode::CreateOnly },
        );
    }
    assert(views(out@) =~= before + create_unless(is_there, dir@, name@, contents@));
}

fn plan_writes(dir: &str, state: &InitState, force: bool, prefix: &str) -> (r: Vec<InitWrite>)
    ensures
        views(r@) == init_writes(dir@, *state, force, prefix@),
{
    let mut out: Vec<InitWrite> = Vec::new();
    if force {
        let path = joined_path(dir, "metadata.json");
        out.push(
            InitWrite { path, contents: METADATA.to_owned(), mode: WriteMode::Replace },
        );
        assert(views(out@) =~= seq![
            WriteModel {
                path: join_path(dir@, "metadata.json"@),
                contents: METADATA@,
                mode: WriteMode::Replace,
            },
        ]);
    } else {
        push_create_unless(&mut out, state.metadata_exists, dir, "metadata.json", METADATA);
        assert(views(out@) =~= create_unless(
            state.metadata_exists,
            dir@,
            "metadata.json"@,
            METADATA@,
        ));
    }
    let config = text3(
        "# Beads Project Configuration\n# issue_prefix: ",
        prefix,
        "\n# default_priority: 2\n# default_type: task\n",
    );
    push_create_unless(&mut out, state.config_exists, dir, "config.yaml", config.as_str());
    push_create_unless(&mut out, state.gitignore_exists, dir, ".gitignore", GITIGNORE);
    push_create_unless(&mut out, state.jsonl_exists, dir, "issues.jsonl", "");
    out
}

/// What `init` does.
#[derive(Debug)]
pub struct InitPlan {
    pub beads_dir: String,
    pub create_dir: bool,
    pub db_path: String,
    pub db_parent: Option<String>,
    pub prefix: String,
    pub writes: Vec<InitWrite>,
}

/// What an [`InitPlan`] says.
#[verifier::ext_equal]
pub struct InitPlanModel {
    pub beads_dir: Seq<char>,
    pub create_dir: bool,
    pub db_path: Seq<char>,
    pub db_parent: Option<Seq<char>>,
    pub prefix: Seq<char>,
    pub writes: Seq<WriteModel>,
}

impl View for InitPlan {
    type V = InitPlanModel;

    open spec fn view(&self) -> InitPlanModel {
        InitPlanModel {
            beads_dir: self.beads_dir@,
            create_dir: self.create_dir,
            db_path: self.db_path@,
            db_parent: opt_text(self.db_parent),
            prefix: self.prefix@,
            writes: views(self.writes@),
        }
    }
}

/// What `init` does: a workspace that has a database is left alone, unless force is used.
pub open spec fn init_plan(
    asked: Option<Seq<char>>,
    force: bool,
    beads_dir: Seq<char>,
    db_path: Seq<char>,
    dir_name: Option<Seq<char>>,
    state: InitState,
) -> Result<InitPlanModel, ErrorModel> {
    if state.dir_exists && state.db_exists && !force {
        Err(ErrorModel::AlreadyInitialized { path: db_path })
    } else {
        let prefix = chosen_prefix(asked, dir_name);
        Ok(
            InitPlanModel {
                beads_dir,
                create_dir: !state.dir_exists,
                db_path,
                db_parent: parent(db_path),
                prefix,
                writes: init_writes(beads_dir, state, force, prefix),
            },
        )
    }
}

/// The plan, or what the error says.
pub open spec fn init_plan_or_error(r: Result<InitPlan, BeadsError>) -> Result<
    InitPlanModel,
    ErrorModel,
> {
    match r {
        Ok(plan) => Ok(plan@),
        Err(e) => Err(e.model()),
    }
}

/// Decides what `init` does. `db_path` is where the database of `beads_dir` lies, and
/// `dir_name` the name of the directory that holds the workspace.
pub fn execute(
    prefix: Option<String>,
    force: bool,
    beads_dir: &str,
    db_path: &str,
    dir_name: Option<&str>,
    state: &InitState,
) -> (r: Result<InitPlan, BeadsError>)
    ensures
        init_plan_or_error(r) == init_plan(
            opt_text(prefix),
            force,
            beads_dir@,
            db_path@,
            opt_str(dir_name),
            *state,
        ),
{
    if state.dir_exists && state.db_exists && !force {
        return Err(BeadsError::AlreadyInitialized { path: db_path.to_owned() });
    }
    let prefix = choose_prefix(&prefix, dir_name);
    let writes = plan_writes(beads_dir, state, force, prefix.as_str());
    Ok(
        InitPlan {
            beads_dir: beads_dir.to_owned(),
            create_dir: !state.dir_exists,
            db_path: db_path.to_owned(),
            db_parent: parent_of(db_path),
            prefix,
            writes,
        },
    )
}

/// Whether something is there under one of the names that `init` writes.
pub open spec fn entry_exists(state: InitState, name: Seq<char>) -> bool {
    ||| name == "metadata.json"@ && state.metadata_exists
    ||| name == "config.yaml"@ && state.config_exists
    ||| name == ".gitignore"@ && state.gitignore_exists
    ||| name == "issues.jsonl"@ && state.jsonl_exists
}

/// Nothing that is there is written over, but for the metadata where force is used.
pub proof fn law_existing_files_stay(
    dir: Seq<char>,
    state: InitState,
    force: bool,
    prefix: Seq<char>,
    name: Seq<char>,
    i: int,
)
    requires
        0 <= i < init_writes(dir, state, force, prefix).len(),
        init_writes(dir, state, force, prefix)[i].path == join_path(dir, name),
        entry_exists(state, name),
    ensures
        force && name == "metadata.json"@ && init_writes(dir, state, force, prefix)[i].mode
            == WriteMode::Replace,
{
    reveal_strlit("metadata.json");
    reveal_strlit("config.yaml");
    reveal_strlit(".gitignore");
    reveal_strlit("issues.jsonl");
    reveal_strlit("/");
    lemma_join_is_injective(dir, name, "metadata.json"@);
    lemma_join_is_injective(dir, name, "config.yaml"@);
    lemma_join_is_injective(dir, name, ".gitignore"@);
    lemma_join_is_injective(dir, name, "issues.jsonl"@);
}

proof fn lemma_join_is_injective(dir: Seq<char>, a: Seq<char>, b: Seq<char>)
    requires
        a.len() > 0 && a[0] != '/',
        b.len() > 0 && b[0] != '/',
    ensures
        join_path(dir, a) == join_path(dir, b) ==> a == b,
{
    let front = if dir.len() == 0 {
        Seq::<char>::empty()
    } else if dir.last() == '/' {
        dir
    } else {
        dir + "/"@
    };
    assert(join_path(dir, a) =~= front + a);
    assert(join_path(dir, b) =~= front + b);
    assert(a =~= (front + a).skip(front.len() as int));
    assert(b =~= (front + b).skip(front.len() as int));
}

/// How a file is replaced.
#[derive(Debug, Clone, Copy, PartialEq, Eq, Structural)]
pub enum ReplaceStep {
    /// Make a temporary file beside it, under the name of this attempt.
    CreateTemp { attempt: u32 },
    /// Give it the permissions of the file, where there is one.
    CopyPermissions,
    /// Write it, down to the disk.
    Write,
    /// Put it in place of the file.
    Rename,
    /// Remove it: the command fails.
    RemoveTemp,
    /// No temporary name was free.
    OutOfNames,
    /// The file system refused the temporary file.
    Failed,
    /// The file is replaced.
    Done,
}

/// What came of a step.
#[derive(Debug, Clone, Copy, PartialEq, Eq, Structural)]
pub enum StepOutcome {
    Done,
    NameTaken,
    Failed,
}

/// How many temporary names are tried.
pub const TEMP_ATTEMPTS: u32 = 64;

/// The step after `step`: the file itself changes only in the last one, and permissions
/// that cannot be copied are let be.
pub open spec fn replace_step_after(step: ReplaceStep, outcome: StepOutcome) -> ReplaceStep {
    match step {
        ReplaceStep::CreateTemp { attempt } => match outcome {
            StepOutcome::Done => ReplaceStep::CopyPermissions,
            StepOutcome::NameTaken => if attempt + 1 < TEMP_ATTEMPTS {
                ReplaceStep::CreateTemp { attempt: (attempt + 1) as u32 }
            } else {
                ReplaceStep::OutOfNames
            },
            StepOutcome::Failed => ReplaceStep::Failed,
        },
        ReplaceStep::CopyPermissions => ReplaceStep::Write,
        ReplaceStep::Write => if outcome == StepOutcome::Done {
            ReplaceStep::Rename
        } else {
            ReplaceStep::RemoveTemp
        },
        ReplaceStep::Rename => if outcome == StepOutcome::Done {
            ReplaceStep::Done
        } else {
            ReplaceStep::RemoveTemp
        },
        ReplaceStep::RemoveTemp => ReplaceStep::Failed,
        other => other,
    }
}

pub fn next_replace_step(step: ReplaceStep, outcome: StepOutcome) -> (r: ReplaceStep)
    ensures
        r == replace_step_after(step, outcome),
{
    match step {
        ReplaceStep::CreateTemp { attempt } => match outcome {
            StepOutcome::Done => ReplaceStep::CopyPermissions,
            StepOutcome::NameTaken => {
                if attempt < TEMP_ATTEMPTS - 1 {
                    ReplaceStep::CreateTemp { attempt: attempt + 1 }
                } else {
                    ReplaceStep::OutOfNames
                }
            },
            StepOutcome::Failed => ReplaceStep::Failed,
        },
        ReplaceStep::CopyPermissions => ReplaceStep::Write,
        ReplaceStep::Write => {
            if outcome == StepOutcome::Done {
                ReplaceStep::Rename
            } else {
                ReplaceStep::RemoveTemp
            }
        },
        ReplaceStep::Rename => {
            if outcome == StepOutcome::Done {
                ReplaceStep::Done
            } else {
                ReplaceStep::RemoveTemp
            }
        },
        ReplaceStep::RemoveTemp => ReplaceStep::Failed,
        other => other,
    }
}

/// A file is put in place only once it is written whole, and a temporary file that is not
/// put in place is removed.
pub proof fn law_replacing_is_atomic(step: ReplaceStep, outcome: StepOutcome)
    ensures
        !(step is Rename) && replace_step_after(step, outcome) is Rename ==> step is Write
            && outcome == StepOutcome::Done,
        !(step is Done) && replace_step_after(step, outcome) is Done ==> step is Rename && outcome
            == StepOutcome::Done,
        (step is Write || step is Rename) && outcome != StepOutcome::Done ==> replace_step_after(
            step,
            outcome,
        ) is RemoveTemp,
{
}

/// The extension of a temporary file: that of the file, the process and the attempt.
pub open spec fn temp_extension(path: Seq<char>, pid: u32, attempt: u32) -> Seq<char> {
    let base = match file_name(path) {
        Some(name) => match extension(name) {
            Some(ext) => ext,
            None => "tmp"@,
        },
        None => "tmp"@,
    };
    if attempt == 0 {
        base + "."@ + decimal(pid as nat) + ".tmp"@
    } else {
        base + "."@ + decimal(pid as nat) + "."@ + decimal(attempt as nat) + ".tmp"@
    }
}

/// The temporary file of an attempt.
pub fn temp_init_path(path: &str, pid: u32, attempt: u32) -> (r: String)
    ensures
        r@ == with_extension(path@, temp_extension(path@, pid, attempt)),
{
    let base = match file_name_of(path) {
        Some(name) => match split_extension(name.as_str()).1 {
            Some(ext) => ext,
            None => "tmp".to_owned(),
        },
        None => "tmp".to_owned(),
    };
    let process = decimal_text(pid as u64);
    let mut ext = text3(base.as_str(), ".", process.as_str());
    if attempt != 0 {
        let number = decimal_text(attempt as u64);
        ext.append(".");
        ext.append(number.as_str());
    }
    ext.append(".tmp");
    path_with_extension(path, ext.as_str())
}

/// The error where no temporary name was free.
pub fn out_of_names(path: &str) -> (r: BeadsError)
    ensures
        r.model() == ErrorModel::Config("Failed to allocate temp init file for "@ + path@),
{
    BeadsError::Config(text2("Failed to allocate temp init file for ", path))
}

/// What became of a part of the workspace.
#[derive(Debug, Clone, Copy, PartialEq, Eq, Structural)]
pub enum InitStepStatus {
    Created,
    Updated,
    Existing,
}

/// A part of the workspace.
#[derive(Debug)]
pub struct InitStep {
    pub label: String,
    pub status: InitStepStatus,
}

/// What an [`InitStep`] says.
#[verifier::ext_equal]
pub struct InitStepModel {
    pub label: Seq<char>,
    pub status: InitStepStatus,
}

impl View for InitStep {
    type V = InitStepModel;

    open spec fn view(&self) -> InitStepModel {
        InitStepModel { label: self.label@, status: self.status }
    }
}

/// A part that was there, or was made.
pub open spec fn part(label: Seq<char>, existed: bool) -> InitStepModel {
    InitStepModel {
        label,
        status: if existed {
            InitStepStatus::Existing
        } else {
            InitStepStatus::Created
        },
    }
}

/// What became of the parts of the workspace.
pub open spec fn init_steps(state: InitState, force: bool, prefix: Option<Seq<char>>) -> Seq<
    InitStepModel,
> {
    seq![
        part(".beads/ directory"@, state.dir_exists),
        part("SQLite database (beads.db)"@, state.db_exists),
        if state.metadata_exists && force {
            InitStepModel { label: "metadata.json"@, status: InitStepStatus::Updated }
        } else {
            part("metadata.json"@, state.metadata_exists)
        },
        part("config.yaml"@, state.config_exists),
        part(".gitignore"@, state.gitignore_exists),
        part("issues.jsonl (for bv compatibility)"@, state.jsonl_exists),
    ] + match prefix {
        Some(p) => seq![
            InitStepModel {
                label: "Issue prefix set to '"@ + p + "'"@,
                status: InitStepStatus::Updated,
            },
        ],
        None => Seq::empty(),
    }
}

fn make_part(label: &str, existed: bool) -> (r: InitStep)
    ensures
        r@ == part(label@, existed),
{
    InitStep {
        label: label.to_owned(),
        status: if existed {
            InitStepStatus::Existing
        } else {
            InitStepStatus::Created
        },
    }
}

pub fn build_init_steps(state: &InitState, force: bool, prefix: Option<&str>) -> (r: Vec<InitStep>)
    ensures
        views(r@) == init_steps(*state, force, opt_str(prefix)),
{
    let mut steps: Vec<InitStep> = Vec::new();
    steps.push(make_part(".beads/ directory", state.dir_exists));
    steps.push(make_part("SQLite database (beads.db)", state.db_exists));
    if state.metadata_exists && force {
        steps.push(
            InitStep { label: "metadata.json".to_owned(), status: InitStepStatus::Updated },
        );
    } else {
        steps.push(make_part("metadata.json", state.metadata_exists));
    }
    steps.push(make_part("config.yaml", state.config_exists));
    steps.push(make_part(".gitignore", state.gitignore_exists));
    steps.push(make_part("issues.jsonl (for bv compatibility)", state.jsonl_exists));
    if let Some(p) = prefix {
        steps.push(
            InitStep {
                label: text3("Issue prefix set to '", p, "'"),
                status: InitStepStatus::Updated,
            },
        );
    }
    assert(views(steps@) =~= init_steps(*state, force, opt_str(prefix)));
    steps
}

/// A part of the workspace in the panel.
pub open spec fn step_entry(step: InitStepModel) -> Seq<SpanModel> {
    seq![
        match step.status {
            InitStepStatus::Created => styled("[+] "@, Role::Success),
            InitStepStatus::Updated => styled("[*] "@, Role::Warning),
            InitStepStatus::Existing => styled("[=] "@, Role::Dimmed),
        },
        styled(step.label, Role::IssueTitle),
        unstyled("\n"@),
    ]
}

/// The parts of the workspace in the panel.
pub open spec fn step_entries(steps: Seq<InitStepModel>) -> Seq<SpanModel>
    decreases steps.len(),
{
    if steps.len() == 0 {
        Seq::empty()
    } else {
        step_entries(steps.drop_last()) + step_entry(steps.last())
    }
}

/// The panel above the parts.
pub open spec fn panel_head(beads_dir: Seq<char>) -> Seq<SpanModel> {
    seq![
        styled("Workspace initialized\n"@, Role::Emphasis),
        unstyled("\n"@),
        styled("Location: "@, Role::Dimmed),
        styled(beads_dir, Role::Accent),
        unstyled("\n\n"@),
        styled("Steps:\n"@, Role::Emphasis),
    ]
}

/// The panel below the parts.
pub open spec fn panel_tail(prefix_set: bool) -> Seq<SpanModel> {
    seq![
        unstyled("\n"@),
        styled("Layout:\n"@, Role::Emphasis),
        unstyled("  .beads/\n"@),
        unstyled("    |-- beads.db\n"@),
        unstyled("    |-- metadata.json\n"@),
        unstyled("    |-- config.yaml\n"@),
        unstyled("    |-- .gitignore\n"@),
        unstyled("    `-- issues.jsonl\n"@),
        unstyled("\n"@),
        styled("Next steps:\n"@, Role::Emphasis),
        unstyled("  br create \"My first issue\"\n"@),
        unstyled("  br list\n"@),
    ] + if prefix_set {
        Seq::empty()
    } else {
        seq![
            unstyled("\n"@),
            styled(
                "Tip: Set a custom prefix with `br init --prefix <name>`\n"@,
                Role::Dimmed,
            ),
        ]
    }
}

fn push_step(out: &mut Vec<Span>, step: &InitStep)
    ensures
        views(final(out)@) == views(old(out)@) + step_entry(step@),
{
    let ghost before = views(out@);
    match step.status {
        InitStepStatus::Created => push_styled(out, "[+] ", Role::Success),
        InitStepStatus::Updated => push_styled(out, "[*] ", Role::Warning),
        InitStepStatus::Existing => push_styled(out, "[=] ", Role::Dimmed),
    }
    push_styled(out, step.label.as_str(), Role::IssueTitle);
    push_unstyled(out, "\n");
    assert(views(out@) =~= before + step_entry(step@));
}

fn push_tail(out: &mut Vec<Span>, prefix_set: bool)
    ensures
        views(final(out)@) == views(old(out)@) + panel_tail(prefix_set),
{
    let ghost before = views(out@);
    push_unstyled(out, "\n");
    push_styled(out, "Layout:\n", Role::Emphasis);
    push_unstyled(out, "  .beads/\n");
    push_unstyled(out, "    |-- beads.db\n");
    push_unstyled(out, "    |-- metadata.json\n");
    push_unstyled(out, "    |-- config.yaml\n");
    push_unstyled(out, "    |-- .gitignore\n");
    push_unstyled(out, "    `-- issues.jsonl\n");
    push_unstyled(out, "\n");
    push_styled(out, "Next steps:\n", Role::Emphasis);
    push_unstyled(out, "  br create \"My first issue\"\n");
    push_unstyled(out, "  br list\n");
    if !prefix_set {
        push_unstyled(out, "\n");
        push_styled(
            out,
            "Tip: Set a custom prefix with `br init --prefix <name>`\n",
            Role::Dimmed,
        );
    }
    assert(views(out@) =~= before + panel_tail(prefix_set));
}

/// What the panel shows.
pub fn render_init_rich(beads_dir: &str, steps: &Vec<InitStep>, prefix: Option<&str>) -> (r: Vec<
    Span,
>)
    ensures
        views(r@) == panel_head(beads_dir@) + step_entries(views(steps@)) + panel_tail(
            prefix is Some,
        ),
{
    let ghost all = views(steps@);
    let mut out: Vec<Span> = Vec::new();
    push_styled(&mut out, "Workspace initialized\n", Role::Emphasis);
    push_unstyled(&mut out, "\n");
    push_styled(&mut out, "Location: ", Role::Dimmed);
    push_styled(&mut out, beads_dir, Role::Accent);
    push_unstyled(&mut out, "\n\n");
    push_styled(&mut out, "Steps:\n", Role::Emphasis);
    let ghost head = panel_head(beads_dir@);
    assert(views(out@) =~= head);
    let mut i: usize = 0;
    assert(head + step_entries(all.take(0)) =~= head);
    while i < steps.len()
        invariant
            i <= steps@.len(),
            all == views(steps@),
            views(out@) == head + step_entries(all.take(i as int)),
        decreases steps@.len() - i,
    {
        assert(all.take(i + 1).drop_last() =~= all.take(i as int));
        assert(all.take(i + 1).last() == steps@[i as int]@);
        push_step(&mut out, &steps[i]);
        i += 1;
        assert(views(out@) =~= head + step_entries(all.take(i as int)));
    }
    assert(all.take(all.len() as int) =~= all);
    push_tail(&mut out, prefix.is_some());
    out
}

/// What plain output says.
pub open spec fn initialized_text(beads_dir: Seq<char>, prefix: Seq<char>) -> Seq<char> {
    "Prefix set to: "@ + prefix + "\nInitialized beads workspace in "@ + beads_dir + "\n"@
}

pub fn render_init_plain(beads_dir: &str, prefix: &str) -> (r: String)
    ensures
        r@ == initialized_text(beads_dir@, prefix@),
{
    text5("Prefix set to: ", prefix, "\nInitialized beads workspace in ", beads_dir, "\n")
}

/// What the command shows. It has no data to show: structured output is the plain one.
pub fn init_shown(mode: OutputMode, beads_dir: &str, steps: &Vec<InitStep>, prefix: &str) -> (r:
    Shown)
    ensures
        r@ == match mode {
            OutputMode::Quiet => ShownModel::Nothing,
            OutputMode::Rich => ShownModel::Panel {
                title: "Beads Initialized"@,
                body: panel_head(beads_dir@) + step_entries(views(steps@)) + panel_tail(true),
            },
            _ => ShownModel::Text { body: one_piece(initialized_text(beads_dir@, prefix@)) },
        },
{
    match mode {
        OutputMode::Quiet => Shown::Nothing,
        OutputMode::Rich => Shown::Panel {
            title: "Beads Initialized".to_owned(),
            body: render_init_rich(beads_dir, steps, Some(prefix)),
        },
        _ => {
            let lines = render_init_plain(beads_dir, prefix);
            Shown::Text { body: one_span(lines.as_str()) }
        },
    }
}

} // verus!
