//! Promises of the directories of the doctor's runs.

use crate::digest::sha256;
use crate::doctor_subsystems::run_dir::{
    gitignore_update, ignores_doctor, latest_target_of, latest_temporary_of, places, repo_root_line,
    run_id_of, run_material, run_stamp, runs_root, undo_script_of, with_doctor_rule, RunDirModel,
    RunMoment, ENV_RUNS_DIR, WINDOWS_ERROR_PRIVILEGE_NOT_HELD,
};
use crate::numbers::{decimal, hex, signed_decimal};
use crate::paths::{join_path, parent, relative_to, under, with_file_name};
use crate::shell::single_quoted;
use crate::text::{lines, trim};
use crate::time::utc_text;
use vstd::prelude::*;
use vstd::string::*;

verus! {

broadcast use vstd::string::group_string_axioms;

/// Runs lie in `.doctor/runs` of the repository, or in `runs` of the directory that was named
/// for them.
pub proof fn law_runs_lie_in_the_repository(repo: Seq<char>, other: Seq<char>)
    ensures
        runs_root(repo, None) == join_path(join_path(repo, ".doctor"@), "runs"@),
        runs_root(repo, Some(other)) == join_path(other, "runs"@),
        ENV_RUNS_DIR@ == "BR_DOCTOR_RUNS_DIR"@,
        WINDOWS_ERROR_PRIVILEGE_NOT_HELD == 1314,
{
}

/// A run is named by its time and the first three bytes of a digest of where and when it was
/// begun.
pub proof fn law_runs_are_named_by_time_and_digest(repo: Seq<char>, moment: RunMoment)
    ensures
        run_stamp(moment) == utc_text(moment.seconds as int, 0, "%Y%m%dT%H%M%SZ"@),
        run_id_of(repo, moment) == utc_text(moment.seconds as int, 0, "%Y%m%dT%H%M%SZ"@) + "__"@
            + hex(sha256(run_material(repo, moment)).take(3)),
{
}

/// Runs are ignored by the repository where a line says so, in one of three ways, with white
/// space round it or not.
pub proof fn law_lines_that_ignore_runs(line: Seq<char>)
    ensures
        ignores_doctor(line) <==> trim(line) == ".doctor/"@ || trim(line) == ".doctor"@ || trim(
            line,
        ) == "/.doctor/"@,
{
}

/// The rule is added exactly where no line has it and the owner may write, behind what is
/// there and on lines of its own.
pub proof fn law_the_rule_is_added_where_missing(contents: Seq<char>, mode: Option<u32>)
    ensures
        ({
            let there = exists|i: int|
                0 <= i < lines(contents).len() && ignores_doctor(#[trigger] lines(contents)[i]);
            let locked = mode is Some && (mode->0 & 128u32) == 0;
            let rule = "# br doctor per-run artifacts\n"@ + ".doctor/"@ + "\n"@;
            let update = gitignore_update(contents, mode);
            &&& there || locked ==> update is None
            &&& !there && !locked && (contents.len() == 0 || contents.last() == '\n') ==> update
                == Some(contents + rule)
            &&& !there && !locked && contents.len() > 0 && contents.last() != '\n' ==> update
                == Some(contents + "\n"@ + rule)
        }),
{
    reveal_strlit("");
    let rule = "# br doctor per-run artifacts\n"@ + ".doctor/"@ + "\n"@;
    if contents.len() == 0 || contents.last() == '\n' {
        assert(with_doctor_rule(contents) =~= contents + rule);
    } else {
        assert(with_doctor_rule(contents) =~= contents + "\n"@ + rule);
    }
}

/// What belongs to a run lies in its directory, and the link to the latest beside the runs.
pub proof fn law_each_run_has_its_places(repo: Seq<char>, runs: Seq<char>, id: Seq<char>)
    ensures
        ({
            let run = places(repo, runs, id);
            let root = join_path(runs, id);
            &&& run.run_id == id
            &&& run.repo_root == repo
            &&& run.root == root
            &&& run.backups == join_path(root, "backups"@)
            &&& run.actions_file == join_path(root, "actions.jsonl"@)
            &&& run.report_file == join_path(root, "report.json"@)
            &&& run.undo_script == join_path(root, "undo.sh"@)
            &&& parent(runs) is Some ==> run.latest_link == join_path(parent(runs)->0, "latest"@)
            &&& parent(runs) is None ==> run.latest_link == join_path(runs, "latest"@)
        }),
{
}

/// The link to the latest run leads there from where it lies, and is made under a name of the
/// process and the time.
pub proof fn law_the_latest_link_leads_to_the_run(
    link: Seq<char>,
    root: Seq<char>,
    moment: RunMoment,
)
    ensures
        parent(link) is Some ==> latest_target_of(link, root) == relative_to(root, parent(link)->0),
        latest_temporary_of(link, moment) == with_file_name(
            link,
            ".latest.doctor-tmp."@ + decimal(moment.pid as nat) + "."@ + signed_decimal(
                moment.nanos as int,
            ),
        ),
{
}

/// The script to undo a run finds the repository by where it lies, and by its name where the
/// run lies elsewhere; the name is quoted.
pub proof fn law_the_script_finds_the_repository(repo: Seq<char>, root: Seq<char>)
    ensures
        under(root, join_path(join_path(repo, ".doctor"@), "runs"@)) ==> repo_root_line(repo, root)
            == "repo_root=\"$(cd \"${run_dir}/../../..\" && pwd)\""@,
        !under(root, join_path(join_path(repo, ".doctor"@), "runs"@)) ==> repo_root_line(repo, root)
            == "repo_root="@ + single_quoted(repo),
{
}

/// The script names its run at both ends and holds the line that finds the repository.
pub proof fn law_the_script_names_its_run(run: RunDirModel)
    ensures
        ({
            let script = undo_script_of(run);
            let head = crate::doctor_subsystems::run_dir::UNDO_HEAD@ + run.run_id
                + crate::doctor_subsystems::run_dir::UNDO_SETUP@ + repo_root_line(
                run.repo_root,
                run.root,
            );
            let tail = run.run_id + crate::doctor_subsystems::run_dir::UNDO_TAIL@;
            &&& head.is_prefix_of(script)
            &&& tail.is_suffix_of(script)
        }),
{
    let script = undo_script_of(run);
    let head = crate::doctor_subsystems::run_dir::UNDO_HEAD@ + run.run_id
        + crate::doctor_subsystems::run_dir::UNDO_SETUP@ + repo_root_line(run.repo_root, run.root);
    let tail = run.run_id + crate::doctor_subsystems::run_dir::UNDO_TAIL@;
    let body = crate::doctor_subsystems::run_dir::UNDO_BODY@;
    assert(script =~= head + body + tail);
    assert(script.subrange(0, head.len() as int) =~= head);
    assert(script.subrange(script.len() - tail.len(), script.len() as int) =~= tail);
}

} // verus!
