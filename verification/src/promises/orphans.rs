//! Promises of the `orphans` command.

use crate::error::ErrorModel;
use crate::model::{status_name, IssueModel, StatusModel};
use crate::numbers::decimal;
use crate::orphans::{
    agrees, commits_in, escaped, first_ref, fix_check, found_prefixes, lower_ids, nonempty_texts,
    orphan_lines, prefix_le, referenced, refs_in, refs_in_log, render_mode, scan_step_after,
    searched_prefixes, OrphanModel, OrphanRenderMode, RefModel, ScanStep,
};
use crate::sanitize::one_line;
use crate::show::OutputMode;
use crate::sorting::text_le;
use crate::text::{
    byte_len, first_index, lemma_expand_concat, lemma_first_index, trim, unicode_lowercase,
};
use vstd::prelude::*;
use vstd::string::*;

verus! {

broadcast use vstd::string::group_string_axioms;

/// The json switch decides over the mode, and without it the mode is kept.
pub proof fn law_json_decides_over_the_mode(mode: OutputMode)
    ensures
        render_mode(true, mode) == OrphanRenderMode::Json,
        render_mode(false, OutputMode::Json) == OrphanRenderMode::Json,
        render_mode(false, OutputMode::Quiet) == OrphanRenderMode::Quiet,
        render_mode(false, OutputMode::Toon) == OrphanRenderMode::Toon,
        render_mode(false, OutputMode::Rich) == OrphanRenderMode::Rich,
        render_mode(false, OutputMode::Plain) == OrphanRenderMode::Plain,
{
}

/// Closing by questions needs someone to read them: it is refused exactly where the output is
/// for programs or there is none. Without it every mode is fine.
pub proof fn law_questions_need_a_reader(fix: bool, mode: OrphanRenderMode)
    ensures
        fix_check(false, mode) is Ok,
        fix_check(true, OrphanRenderMode::Rich) is Ok,
        fix_check(true, OrphanRenderMode::Plain) is Ok,
        fix_check(true, OrphanRenderMode::Json) is Err,
        fix_check(true, OrphanRenderMode::Toon) is Err,
        fix_check(true, OrphanRenderMode::Quiet) is Err,
        fix_check(fix, mode) is Err ==> fix_check(fix, mode)->Err_0 is Validation,
{
}

/// The scan lists the issues, finds the repository, reads its log, matches and reports; where
/// a step finds nothing it reports that.
pub proof fn law_scan_goes_step_by_step(step: ScanStep)
    ensures
        scan_step_after(step, false) == ScanStep::ReportNone,
        scan_step_after(ScanStep::ListCandidates, true) == ScanStep::FindRepository,
        scan_step_after(ScanStep::FindRepository, true) == ScanStep::ReadLog,
        scan_step_after(ScanStep::ReadLog, true) == ScanStep::Match,
        scan_step_after(ScanStep::Match, true) == ScanStep::Report,
{
}

/// Longer prefixes come first, and those of one length by the alphabet.
pub proof fn law_longer_prefixes_come_first(a: Seq<char>, b: Seq<char>)
    ensures
        byte_len(a) > byte_len(b) ==> prefix_le(a, b) && !prefix_le(b, a),
        byte_len(a) == byte_len(b) ==> (prefix_le(a, b) <==> text_le(a, b)),
{
}

/// Every prefix that was found is searched for, and what has none adds none.
pub proof fn law_every_prefix_is_taken(prefixes: Seq<Option<String>>, more: Option<String>)
    ensures
        found_prefixes(prefixes.push(more)) == match more {
            Some(p) => found_prefixes(prefixes).push(p@),
            None => found_prefixes(prefixes),
        },
{
    assert(prefixes.push(more).drop_last() =~= prefixes);
}

/// An empty prefix is not searched for, and every other one is.
pub proof fn law_empty_prefixes_are_left_out(prefixes: Seq<Seq<char>>, more: Seq<char>)
    ensures
        nonempty_texts(prefixes.push(more)) == if more.len() > 0 {
            nonempty_texts(prefixes).push(more)
        } else {
            nonempty_texts(prefixes)
        },
{
    assert(prefixes.push(more).drop_last() =~= prefixes);
}

/// Without a prefix to search for no reference is found, whatever the log says.
pub proof fn law_no_prefix_finds_nothing(log: Seq<char>, prefixes: Seq<Seq<char>>)
    requires
        searched_prefixes(prefixes).len() == 0,
    ensures
        refs_in_log(log, prefixes) == Ok::<Seq<RefModel>, ErrorModel>(Seq::empty()),
{
}

/// What means something in a pattern is escaped by a backslash, and nothing else is touched.
pub proof fn law_prefixes_are_searched_as_they_are(s: Seq<char>, c: char)
    ensures
        ({
            let special = c == '\\' || c == '.' || c == '+' || c == '*' || c == '?' || c == '('
                || c == ')' || c == '|' || c == '[' || c == ']' || c == '{' || c == '}' || c == '^'
                || c == '$' || c == '#' || c == '&' || c == '-' || c == '~';
            escaped(s.push(c)) == escaped(s) + if special {
                seq!['\\', c]
            } else {
                seq![c]
            }
        }),
{
    let f = |c: char|
        if crate::orphans::meta_character(c) {
            seq!['\\', c]
        } else {
            seq![c]
        };
    lemma_expand_concat(s, seq![c], f);
    assert(s.push(c) =~= s + seq![c]);
    reveal_with_fuel(crate::text::expand, 2);
    assert(crate::text::expand(seq![c], f) =~= f(c));
}

/// A line of the log is a commit and its message, parted by the first space; a line without one
/// is none.
pub proof fn law_log_lines_are_commits(log: Seq<Seq<char>>, commit: Seq<char>, message: Seq<char>)
    requires
        !commit.contains(' '),
    ensures
        commits_in(log.push(commit + seq![' '] + message)) == commits_in(log).push(
            (commit, message),
        ),
        commits_in(log.push(commit)) == commits_in(log),
{
    let line = commit + seq![' '] + message;
    assert(log.push(line).drop_last() =~= log);
    assert(log.push(commit).drop_last() =~= log);
    assert forall|i: int| 0 <= i < commit.len() implies line[i] != ' ' by {
        assert(commit.contains(commit[i]));
    }
    crate::text::lemma_is_first_index(line, ' ', commit.len() as int);
    assert(line.take(commit.len() as int) =~= commit);
    assert(line.skip(commit.len() as int + 1) =~= message);
    lemma_first_index(commit, ' ');
    if first_index(commit, ' ') < commit.len() {
        assert(commit.contains(commit[first_index(commit, ' ')]));
    }
}

/// Every id that a commit names makes a reference to it, behind those of the commits before.
pub proof fn law_every_named_id_is_a_reference(
    commits: Seq<(Seq<char>, Seq<char>)>,
    found: Seq<Seq<Seq<char>>>,
    commit: Seq<char>,
    message: Seq<char>,
    ids: Seq<Seq<char>>,
    i: int,
)
    requires
        found.len() == commits.len(),
        0 <= i < ids.len(),
    ensures
        ({
            let before = refs_in(commits, found);
            let all = refs_in(commits.push((commit, message)), found.push(ids));
            &&& all.len() == before.len() + ids.len()
            &&& all.take(before.len() as int) == before
            &&& all[before.len() + i] == (RefModel { commit, message, issue_id: ids[i] })
        }),
{
    assert(commits.push((commit, message)).drop_last() =~= commits);
    assert(found.push(ids).drop_last() =~= found);
    let before = refs_in(commits, found);
    let all = refs_in(commits.push((commit, message)), found.push(ids));
    assert(all.take(before.len() as int) =~= before);
}

/// Ids are compared in lower case, each of them.
pub proof fn law_named_ids_are_lowered(ids: Seq<Seq<char>>, i: int)
    requires
        0 <= i < ids.len(),
    ensures
        lower_ids(ids).len() == ids.len(),
        lower_ids(ids)[i] == unicode_lowercase(ids[i]),
{
}

/// The first reference to an issue, which is the latest commit, is the one that counts.
pub proof fn law_the_first_reference_counts(refs: Seq<RefModel>, id: Seq<char>, i: int)
    ensures
        0 <= i < refs.len() && refs[i].issue_id == id && (forall|j: int|
            0 <= j < i ==> (#[trigger] refs[j]).issue_id != id) ==> first_ref(refs, id) == Some(
            refs[i],
        ),
        (forall|j: int| 0 <= j < refs.len() ==> (#[trigger] refs[j]).issue_id != id) ==> first_ref(
            refs,
            id,
        ) is None,
    decreases refs.len(),
{
    if refs.len() > 0 {
        let rest = refs.skip(1);
        law_the_first_reference_counts(rest, id, i - 1);
        assert forall|j: int| 0 <= j < rest.len() implies #[trigger] rest[j] == refs[j + 1] by {}
    }
}

/// An issue is an orphan exactly where it is open or in progress and a commit names it; it is
/// told with its status and that commit.
pub proof fn law_unfinished_referenced_issues_are_orphans(
    issues: Seq<IssueModel>,
    refs: Seq<RefModel>,
    more: IssueModel,
)
    ensures
        ({
            let before = referenced(issues, refs);
            let named = first_ref(refs, more.id);
            let unfinished = more.status == StatusModel::Open || more.status
                == StatusModel::InProgress;
            referenced(issues.push(more), refs) == if unfinished && named is Some {
                before.push(
                    OrphanModel {
                        issue_id: more.id,
                        title: more.title,
                        status: status_name(more.status),
                        latest_commit: named->0.commit,
                        latest_commit_message: named->0.message,
                    },
                )
            } else {
                before
            }
        }),
{
    assert(issues.push(more).drop_last() =~= issues);
}

/// One orphan more is one numbered line more at the end, and its commit below it where details
/// are asked for.
pub proof fn law_each_orphan_is_told(orphans: Seq<OrphanModel>, more: OrphanModel)
    ensures
        ({
            let line = decimal(orphans.len() + 1) + ". ["@ + more.status + "] "@ + one_line(
                more.issue_id,
            ) + " "@ + one_line(more.title) + "\n"@;
            &&& orphan_lines(orphans.push(more), false) == orphan_lines(orphans, false) + line
            &&& orphan_lines(orphans.push(more), true) == orphan_lines(orphans, true) + line
                + "   Commit: "@ + one_line(more.latest_commit) + " "@ + one_line(
                more.latest_commit_message,
            ) + "\n"@
        }),
{
    reveal_strlit("");
    assert(orphans.push(more).drop_last() =~= orphans);
    let line = decimal(orphans.len() + 1) + ". ["@ + more.status + "] "@ + one_line(more.issue_id)
        + " "@ + one_line(more.title) + "\n"@;
    assert(orphan_lines(orphans.push(more), false) =~= orphan_lines(orphans, false) + line);
    assert(orphan_lines(orphans.push(more), true) =~= orphan_lines(orphans, true) + line
        + "   Commit: "@ + one_line(more.latest_commit) + " "@ + one_line(
        more.latest_commit_message,
    ) + "\n"@);
}

/// An issue is closed on `y` and on `yes`, in any case and with white space round it, and on
/// nothing else.
pub proof fn law_only_yes_closes(answer: Seq<char>)
    ensures
        agrees(answer) <==> unicode_lowercase(trim(answer)) == "y"@ || unicode_lowercase(
            trim(answer),
        ) == "yes"@,
{
}

} // verus!
