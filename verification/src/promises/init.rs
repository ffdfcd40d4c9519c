//! Promises of the `init` command.

use crate::error::ErrorModel;
use crate::init::{
    chosen_prefix, init_dir, init_plan, init_steps, init_writes, initialized_text, panel_tail,
    replace_step_after, step_entries, step_entry, temp_extension, InitState, InitStepModel,
    InitStepStatus, ReplaceStep, StepOutcome, WriteMode, WriteModel,
};
use crate::numbers::decimal;
use crate::paths::{join_path, parent};
use crate::spans::{styled, Role};
use crate::text::{ascii_alphanumeric, ascii_lowercase, expand, trim};
use vstd::prelude::*;
use vstd::string::*;

verus! {

broadcast use vstd::string::group_string_axioms;

/// A workspace lies where it is named, without white space round the name, and else in `.beads`
/// of the directory one is in.
pub proof fn law_workspaces_lie_where_named(name: Seq<char>, base: Seq<char>)
    ensures
        trim(name).len() > 0 ==> init_dir(Some(name), base) == trim(name),
        trim(name).len() == 0 ==> init_dir(Some(name), base) == join_path(base, ".beads"@),
        init_dir(None, base) == join_path(base, ".beads"@),
{
}

/// The prefix is the one asked for, in lower case.
pub proof fn law_an_asked_prefix_is_taken(asked: Seq<char>, dir_name: Option<Seq<char>>)
    ensures
        chosen_prefix(Some(asked), dir_name) == ascii_lowercase(asked),
{
}

/// A name of letters, digits, hyphens and underscores becomes the prefix as it is, in lower
/// case; without a name the prefix is `br`.
pub proof fn law_a_plain_name_becomes_the_prefix(name: Seq<char>)
    requires
        name.len() > 0,
        forall|i: int|
            0 <= i < name.len() ==> ascii_alphanumeric(#[trigger] name[i]) || name[i] == '-'
                || name[i] == '_',
    ensures
        chosen_prefix(None, Some(name)) == ascii_lowercase(name),
        chosen_prefix(None, None) == "br"@,
{
    lemma_kept_whole(name);
    reveal_strlit("br");
    assert(ascii_lowercase("br"@) =~= "br"@);
}

proof fn lemma_kept_whole(name: Seq<char>)
    requires
        forall|i: int|
            0 <= i < name.len() ==> ascii_alphanumeric(#[trigger] name[i]) || name[i] == '-'
                || name[i] == '_',
    ensures
        expand(name, crate::init::keeping_prefix_chars()) == name,
    decreases name.len(),
{
    let f = crate::init::keeping_prefix_chars();
    if name.len() > 0 {
        let rest = name.drop_last();
        assert forall|i: int| 0 <= i < rest.len() implies ascii_alphanumeric(#[trigger] rest[i])
            || rest[i] == '-' || rest[i] == '_' by {
            assert(rest[i] == name[i]);
        }
        lemma_kept_whole(rest);
        crate::text::lemma_expand_concat(rest, seq![name.last()], f);
        assert(rest + seq![name.last()] =~= name);
        reveal_with_fuel(expand, 2);
        assert(expand(seq![name.last()], f) =~= seq![name.last()]);
    } else {
        assert(expand(name, f) =~= name);
    }
}

/// What cannot stand in a prefix is left out of the name, and a name of nothing else gives
/// `br`.
pub proof fn law_other_characters_are_left_out(name: Seq<char>, c: char)
    requires
        !ascii_alphanumeric(c),
        c != '-',
        c != '_',
    ensures
        chosen_prefix(None, Some(name.push(c))) == chosen_prefix(None, Some(name)),
{
    let f = crate::init::keeping_prefix_chars();
    crate::text::lemma_expand_concat(name, seq![c], f);
    assert(name + seq![c] =~= name.push(c));
    reveal_with_fuel(expand, 2);
    assert(expand(seq![c], f) =~= Seq::empty());
    assert(expand(name, f) + Seq::empty() =~= expand(name, f));
}

/// A workspace is refused exactly where it is there with its database and force was not used.
pub proof fn law_only_unforced_workspaces_are_refused(
    asked: Option<Seq<char>>,
    force: bool,
    dir: Seq<char>,
    db: Seq<char>,
    name: Option<Seq<char>>,
    state: InitState,
)
    ensures
        ({
            let plan = init_plan(asked, force, dir, db, name, state);
            &&& plan is Err <==> state.dir_exists && state.db_exists && !force
            &&& plan is Err ==> plan->Err_0 == (ErrorModel::AlreadyInitialized { path: db })
            &&& plan is Ok ==> plan->Ok_0.beads_dir == dir && plan->Ok_0.db_path == db && (
            plan->Ok_0.create_dir <==> !state.dir_exists) && plan->Ok_0.prefix == chosen_prefix(
                asked,
                name,
            ) && plan->Ok_0.db_parent == parent(db) && plan->Ok_0.writes == init_writes(
                dir,
                state,
                force,
                chosen_prefix(asked, name),
            )
        }),
{
}

/// A file that is missing is made with its contents; one that is there stays, but that force
/// replaces the metadata.
pub proof fn law_missing_files_are_made(
    dir: Seq<char>,
    state: InitState,
    force: bool,
    prefix: Seq<char>,
)
    ensures
        ({
            let writes = init_writes(dir, state, force, prefix);
            let made = |name: Seq<char>, contents: Seq<char>|
                WriteModel { path: join_path(dir, name), contents, mode: WriteMode::CreateOnly };
            &&& !force && !state.metadata_exists ==> writes.contains(
                made("metadata.json"@, crate::init::METADATA@),
            )
            &&& force ==> writes.contains(
                WriteModel {
                    path: join_path(dir, "metadata.json"@),
                    contents: crate::init::METADATA@,
                    mode: WriteMode::Replace,
                },
            )
            &&& !state.config_exists ==> writes.contains(
                made(
                    "config.yaml"@,
                    "# Beads Project Configuration\n# issue_prefix: "@ + prefix
                        + "\n# default_priority: 2\n# default_type: task\n"@,
                ),
            )
            &&& !state.gitignore_exists ==> writes.contains(
                made(".gitignore"@, crate::init::GITIGNORE@),
            )
            &&& !state.jsonl_exists ==> writes.contains(made("issues.jsonl"@, ""@))
            &&& writes.len() == (if force || !state.metadata_exists {
                1int
            } else {
                0int
            }) + (if state.config_exists {
                0int
            } else {
                1int
            }) + (if state.gitignore_exists {
                0int
            } else {
                1int
            }) + (if state.jsonl_exists {
                0int
            } else {
                1int
            })
        }),
{
    let writes = init_writes(dir, state, force, prefix);
    let a: int = if force || !state.metadata_exists {
        1
    } else {
        0
    };
    let b: int = if state.config_exists {
        a
    } else {
        a + 1
    };
    let c: int = if state.gitignore_exists {
        b
    } else {
        b + 1
    };
    if a == 1 {
        assert(writes.contains(writes[0]));
    }
    if !state.config_exists {
        assert(writes.contains(writes[a]));
    }
    if !state.gitignore_exists {
        assert(writes.contains(writes[b]));
    }
    if !state.jsonl_exists {
        assert(writes.contains(writes[c]));
    }
}

/// A file is replaced by a temporary one: made, given the permissions, written and put in
/// place. A name that is taken is passed over sixty-four times, and what fails to be written or
/// put in place is removed.
pub proof fn law_replacing_goes_step_by_step(attempt: u32, outcome: StepOutcome)
    ensures
        ({
            let done = StepOutcome::Done;
            let first = ReplaceStep::CreateTemp { attempt };
            &&& replace_step_after(first, done) == ReplaceStep::CopyPermissions
            &&& replace_step_after(ReplaceStep::CopyPermissions, outcome) == ReplaceStep::Write
            &&& replace_step_after(ReplaceStep::Write, done) == ReplaceStep::Rename
            &&& replace_step_after(ReplaceStep::Rename, done) == ReplaceStep::Done
            &&& replace_step_after(first, StepOutcome::Failed) == ReplaceStep::Failed
            &&& attempt < 63 ==> replace_step_after(first, StepOutcome::NameTaken) == (
            ReplaceStep::CreateTemp { attempt: (attempt + 1) as u32 })
            &&& attempt >= 63 ==> replace_step_after(first, StepOutcome::NameTaken)
                == ReplaceStep::OutOfNames
            &&& replace_step_after(ReplaceStep::RemoveTemp, outcome) == ReplaceStep::Failed
        }),
{
}

/// Temporary names carry the process, and from the second attempt on the attempt.
pub proof fn law_temporary_init_names_differ(path: Seq<char>, pid: u32, attempt: u32)
    ensures
        ({
            let first = temp_extension(path, pid, 0);
            let base = first.take(first.len() - ("."@ + decimal(pid as nat) + ".tmp"@).len());
            &&& first == base + "."@ + decimal(pid as nat) + ".tmp"@
            &&& attempt > 0 ==> temp_extension(path, pid, attempt) == base + "."@ + decimal(
                pid as nat,
            ) + "."@ + decimal(attempt as nat) + ".tmp"@
        }),
{
    let tail = "."@ + decimal(pid as nat) + ".tmp"@;
    let first = temp_extension(path, pid, 0);
    let base = match crate::paths::file_name(path) {
        Some(name) => match crate::paths::extension(name) {
            Some(ext) => ext,
            None => "tmp"@,
        },
        None => "tmp"@,
    };
    assert(first =~= base + tail);
    assert(first.take(first.len() - tail.len()) =~= base);
    assert(first =~= base + "."@ + decimal(pid as nat) + ".tmp"@);
}

/// The steps tell of each part whether it was there, of the metadata that force wrote over that
/// it was brought up to date, and of the prefix where one was set.
pub proof fn law_steps_tell_what_was_there(state: InitState, force: bool, prefix: Option<Seq<char>>)
    ensures
        ({
            let steps = init_steps(state, force, prefix);
            let was = |existed: bool|
                if existed {
                    InitStepStatus::Existing
                } else {
                    InitStepStatus::Created
                };
            &&& steps.len() == if prefix is Some {
                7int
            } else {
                6int
            }
            &&& steps[0].label == ".beads/ directory"@
            &&& steps[1].label == "SQLite database (beads.db)"@
            &&& steps[2].label == "metadata.json"@
            &&& steps[3].label == "config.yaml"@
            &&& steps[4].label == ".gitignore"@
            &&& steps[5].label == "issues.jsonl (for bv compatibility)"@
            &&& steps[0].status == was(state.dir_exists)
            &&& steps[1].status == was(state.db_exists)
            &&& !(force && state.metadata_exists) ==> steps[2].status == was(state.metadata_exists)
            &&& force && state.metadata_exists ==> steps[2].status == InitStepStatus::Updated
            &&& steps[3].status == was(state.config_exists)
            &&& steps[4].status == was(state.gitignore_exists)
            &&& steps[5].status == was(state.jsonl_exists)
            &&& prefix is Some ==> steps[6].label == "Issue prefix set to '"@ + prefix->0 + "'"@
                && steps[6].status == InitStepStatus::Updated
        }),
{
}

/// One step more is told at the end, with a mark for what became of it.
pub proof fn law_each_init_step_is_told(steps: Seq<InitStepModel>, more: InitStepModel)
    ensures
        step_entries(steps.push(more)) == step_entries(steps) + step_entry(more),
        step_entry(more)[1] == styled(more.label, Role::IssueTitle),
        more.status == InitStepStatus::Created ==> step_entry(more)[0].text == "[+] "@,
        more.status == InitStepStatus::Updated ==> step_entry(more)[0].text == "[*] "@,
        more.status == InitStepStatus::Existing ==> step_entry(more)[0].text == "[=] "@,
{
    assert(steps.push(more).drop_last() =~= steps);
}

/// The plain text names the prefix and the place; the tip on prefixes is there exactly where
/// none was set.
pub proof fn law_init_names_prefix_and_place(dir: Seq<char>, prefix: Seq<char>)
    ensures
        initialized_text(dir, prefix) == "Prefix set to: "@ + prefix
            + "\nInitialized beads workspace in "@ + dir + "\n"@,
        panel_tail(false).len() == panel_tail(true).len() + 2,
        panel_tail(true).is_prefix_of(panel_tail(false)),
        panel_tail(false).last() == styled(
            "Tip: Set a custom prefix with `br init --prefix <name>`\n"@,
            Role::Dimmed,
        ),
{
    assert(panel_tail(false).take(panel_tail(true).len() as int) =~= panel_tail(true));
}

} // verus!
