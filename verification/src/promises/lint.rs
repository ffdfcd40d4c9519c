//! Promises of the `lint` command.

use crate::error::ErrorModel;
use crate::lint::{
    all_lines, answer_for, answered, exit_status, fetched, filters_for, grouped_entries,
    heading_text, lint_entries, linted, missing, missing_among, plain_lines, required, result_entry,
    result_lines, results_of, status_asked, suggestion_entries, suggestion_lines, type_count,
    type_entries, types_for, types_of, warnings_in, AskedTypeModel, ResultModel, SectionModel,
};
use crate::model::{Issue, IssueModel, IssueTypeModel, StatusModel};
use crate::numbers::decimal;
use crate::sanitize::one_line;
use crate::show::OutputMode;
use crate::spans::{styled, Role};
use crate::text::{
    ascii_lowercase, occurs, starts_with, trim, trim_end, trim_start, unicode_lowercase, whitespace,
};
use vstd::prelude::*;
use vstd::string::*;

verus! {

broadcast use vstd::string::group_string_axioms;

/// What an issue says of itself, nothing where it says nothing.
pub open spec fn said(issue: IssueModel) -> Seq<char> {
    match issue.description {
        Some(text) => text,
        None => Seq::empty(),
    }
}

/// The description names the section in any case.
pub open spec fn speaks_of(issue: IssueModel, name: Seq<char>) -> bool {
    occurs(unicode_lowercase(said(issue)), unicode_lowercase(name))
}

/// The headings that a result finds missing.
pub open spec fn found_missing(result: Option<ResultModel>, heading: Seq<char>) -> bool {
    result is Some && result->0.missing.contains(heading)
}

proof fn lemma_trim_of_tight(s: Seq<char>)
    requires
        s.len() > 0,
        !whitespace(s[0]),
        !whitespace(s.last()),
    ensures
        trim(s) == s,
{
    assert(trim_start(s) == s);
    assert(trim_end(s) == s);
}

proof fn lemma_headings()
    ensures
        heading_text("## Steps to Reproduce"@) == "Steps to Reproduce"@,
        heading_text("## Acceptance Criteria"@) == "Acceptance Criteria"@,
        heading_text("## Success Criteria"@) == "Success Criteria"@,
{
    reveal_strlit("## ");
    reveal_strlit("# ");
    reveal_strlit("## Steps to Reproduce");
    reveal_strlit("## Acceptance Criteria");
    reveal_strlit("## Success Criteria");
    reveal_strlit("Steps to Reproduce");
    reveal_strlit("Acceptance Criteria");
    reveal_strlit("Success Criteria");
    lemma_trim_of_tight("## Steps to Reproduce"@);
    lemma_trim_of_tight("## Acceptance Criteria"@);
    lemma_trim_of_tight("## Success Criteria"@);
    assert("## Steps to Reproduce"@.take(3) =~= "## "@);
    assert("## Acceptance Criteria"@.take(3) =~= "## "@);
    assert("## Success Criteria"@.take(3) =~= "## "@);
    assert("## Steps to Reproduce"@.skip(3) =~= "Steps to Reproduce"@);
    assert("## Acceptance Criteria"@.skip(3) =~= "Acceptance Criteria"@);
    assert("## Success Criteria"@.skip(3) =~= "Success Criteria"@);
}

/// The marks of a heading, of either level, are no part of its text.
pub proof fn law_marks_are_no_part_of_a_heading(text: Seq<char>)
    requires
        text.len() > 0,
        !whitespace(text[0]),
        !whitespace(text.last()),
        text[0] != '#',
    ensures
        heading_text(text) == text,
        heading_text("## "@ + text) == text,
        heading_text("# "@ + text) == text,
{
    reveal_strlit("## ");
    reveal_strlit("# ");
    let two = "## "@ + text;
    let one = "# "@ + text;
    lemma_trim_of_tight(text);
    lemma_trim_of_tight(two);
    lemma_trim_of_tight(one);
    assert(two.take(3) =~= "## "@);
    assert(two.skip(3) =~= text);
    assert(one.take(2) =~= "# "@);
    assert(one.skip(2) =~= text);
    assert(!starts_with(one, "## "@)) by {
        assert(one[1] == ' ');
        assert("## "@[1] == '#');
    }
    assert(!starts_with(text, "## "@) && !starts_with(text, "# "@)) by {
        assert("## "@[0] == '#');
        assert("# "@[0] == '#');
    }
}

/// A bug needs steps to reproduce and acceptance criteria: each is found missing exactly where
/// the description does not speak of it.
pub proof fn law_bugs_need_steps_and_criteria(issue: IssueModel)
    requires
        issue.issue_type == IssueTypeModel::Bug,
    ensures
        found_missing(linted(issue), "## Steps to Reproduce"@) <==> !speaks_of(
            issue,
            "Steps to Reproduce"@,
        ),
        found_missing(linted(issue), "## Acceptance Criteria"@) <==> !speaks_of(
            issue,
            "Acceptance Criteria"@,
        ),
        linted(issue) is None <==> speaks_of(issue, "Steps to Reproduce"@) && speaks_of(
            issue,
            "Acceptance Criteria"@,
        ),
        linted(issue) is Some ==> linted(issue)->0.warnings == (if speaks_of(
            issue,
            "Steps to Reproduce"@,
        ) || speaks_of(issue, "Acceptance Criteria"@) {
            1int
        } else {
            2int
        }),
{
    reveal_strlit("");
    assert(""@ =~= Seq::empty());
    lemma_headings();
    reveal_strlit("## Steps to Reproduce");
    reveal_strlit("## Acceptance Criteria");
    let sections = required(issue.issue_type);
    let d = said(issue);
    let one = sections.drop_last();
    assert(one.len() == 1 && one.last() == sections[0]);
    reveal_with_fuel(missing, 3);
    let found = missing(d, sections);
    let (a, b) = ("## Steps to Reproduce"@, "## Acceptance Criteria"@);
    assert(a[3] != b[3]);
    let headings = found.map_values(|s: SectionModel| s.heading);
    if !speaks_of(issue, "Steps to Reproduce"@) {
        assert(headings[0] == a);
    }
    if !speaks_of(issue, "Acceptance Criteria"@) {
        assert(headings[headings.len() - 1] == b);
    }
    assert(found_missing(linted(issue), a) <==> !speaks_of(issue, "Steps to Reproduce"@));
}

/// A task and a feature need acceptance criteria and nothing else.
pub proof fn law_tasks_and_features_need_criteria(issue: IssueModel)
    requires
        issue.issue_type == IssueTypeModel::Task || issue.issue_type == IssueTypeModel::Feature,
    ensures
        linted(issue) is None <==> speaks_of(issue, "Acceptance Criteria"@),
        linted(issue) is Some ==> linted(issue)->0.missing == seq!["## Acceptance Criteria"@]
            && linted(issue)->0.warnings == 1 && linted(issue)->0.suggestions[0].hint
            == "Define criteria to verify completion"@,
{
    reveal_strlit("");
    assert(""@ =~= Seq::empty());
    lemma_headings();
    let sections = required(issue.issue_type);
    reveal_with_fuel(missing, 2);
    if linted(issue) is Some {
        assert(linted(issue)->0.missing =~= seq!["## Acceptance Criteria"@]);
    }
}

/// An epic needs success criteria and nothing else.
pub proof fn law_epics_need_success_criteria(issue: IssueModel)
    requires
        issue.issue_type == IssueTypeModel::Epic,
    ensures
        linted(issue) is None <==> speaks_of(issue, "Success Criteria"@),
        linted(issue) is Some ==> linted(issue)->0.missing == seq!["## Success Criteria"@]
            && linted(issue)->0.warnings == 1 && linted(issue)->0.suggestions[0].hint
            == "Define high-level success criteria"@,
{
    reveal_strlit("");
    assert(""@ =~= Seq::empty());
    lemma_headings();
    let sections = required(issue.issue_type);
    reveal_with_fuel(missing, 2);
    if linted(issue) is Some {
        assert(linted(issue)->0.missing =~= seq!["## Success Criteria"@]);
    }
}

/// Issues of any other type need nothing.
pub proof fn law_other_issues_need_nothing(issue: IssueModel)
    requires
        issue.issue_type != IssueTypeModel::Bug,
        issue.issue_type != IssueTypeModel::Task,
        issue.issue_type != IssueTypeModel::Feature,
        issue.issue_type != IssueTypeModel::Epic,
    ensures
        linted(issue) is None,
{
    reveal_with_fuel(missing, 1);
}

/// A result tells of its issue, and gives a warning and a suggestion for each missing section.
pub proof fn law_results_tell_of_their_issue(issue: IssueModel)
    requires
        linted(issue) is Some,
    ensures
        ({
            let result = linted(issue)->0;
            &&& result.id == issue.id
            &&& result.title == issue.title
            &&& result.issue_type == crate::model::issue_type_name(issue.issue_type)
            &&& result.warnings == result.missing.len()
            &&& result.suggestions.len() == result.missing.len()
            &&& forall|i: int|
                0 <= i < result.missing.len() ==> (#[trigger] result.suggestions[i]).heading
                    == result.missing[i]
        }),
{
}

/// One issue more is one result more at the end, where it lacks a section, and none where it
/// does not; its warnings are counted.
pub proof fn law_each_issue_is_linted(issues: Seq<IssueModel>, more: IssueModel)
    ensures
        results_of(issues.push(more)) == match linted(more) {
            Some(result) => results_of(issues).push(result),
            None => results_of(issues),
        },
        warnings_in(results_of(issues.push(more))) == warnings_in(results_of(issues))
            + match linted(
            more,
        ) {
            Some(result) => result.missing.len() as int,
            None => 0,
        },
{
    assert(issues.push(more).drop_last() =~= issues);
    if linted(more) is Some {
        let before = results_of(issues);
        assert(before.push(linted(more)->0).drop_last() =~= before);
    }
}

/// Every issue that lacks a section is among the results.
pub proof fn law_every_lacking_issue_is_reported(issues: Seq<IssueModel>, i: int)
    requires
        0 <= i < issues.len(),
        linted(issues[i]) is Some,
    ensures
        results_of(issues).contains(linted(issues[i])->0),
    decreases issues.len(),
{
    if i < issues.len() - 1 {
        law_every_lacking_issue_is_reported(issues.drop_last(), i);
        let before = results_of(issues.drop_last());
        let at = choose|at: int| 0 <= at < before.len() && before[at] == linted(issues[i])->0;
        assert(results_of(issues)[at] == before[at]);
    } else {
        let all = results_of(issues);
        assert(all[all.len() - 1] == linted(issues[i])->0);
    }
}

/// The command fails exactly where there are warnings to read: a program reads data and no
/// status, and without findings only the rich form gives one.
pub proof fn law_warnings_fail_the_command(warnings: usize, findings: nat)
    ensures
        exit_status(OutputMode::Json, warnings, findings) is None,
        exit_status(OutputMode::Toon, warnings, findings) is None,
        exit_status(OutputMode::Rich, warnings, findings) == Some(
            if warnings > 0 {
                1i32
            } else {
                0i32
            },
        ),
        findings == 0 ==> exit_status(OutputMode::Plain, warnings, findings) is None
            && exit_status(OutputMode::Quiet, warnings, findings) is None,
        findings > 0 && warnings > 0 ==> exit_status(OutputMode::Plain, warnings, findings) == Some(
            1i32,
        ) && exit_status(OutputMode::Quiet, warnings, findings) == Some(1i32),
{
}

/// The status that is asked for is the one given, without white space round it, and open where
/// none is.
pub proof fn law_open_issues_are_linted_by_default(word: Seq<char>)
    ensures
        status_asked(None) == "open"@,
        status_asked(Some(word)) == trim(word),
{
    reveal_strlit("open");
    lemma_trim_of_tight("open"@);
}

/// With `all`, in any case, closed and deferred issues are linted too and no status is picked.
pub proof fn law_all_leaves_no_status_out(
    wanted: Option<AskedTypeModel>,
    word: Seq<char>,
    parsed: Result<StatusModel, ErrorModel>,
)
    requires
        ascii_lowercase(trim(word)) == "all"@,
        types_for(wanted) is Ok,
    ensures
        ({
            let filters = filters_for(wanted, Some(word), parsed);
            filters is Ok && filters->Ok_0.statuses is None && filters->Ok_0.include_closed
                && filters->Ok_0.include_deferred && !filters->Ok_0.include_templates
                && filters->Ok_0.types == types_for(wanted)->Ok_0
        }),
{
    reveal_strlit("all");
    assert(ascii_lowercase("all"@) =~= "all"@);
}

/// A status that is picked is the only one: closed issues are there exactly where that status
/// is an end, and deferred ones exactly where it is theirs. A word that is no status is refused.
pub proof fn law_a_picked_status_is_the_only_one(
    wanted: Option<AskedTypeModel>,
    word: Seq<char>,
    parsed: Result<StatusModel, ErrorModel>,
)
    requires
        ascii_lowercase(trim(word)) != "all"@,
        trim(word).len() > 0,
        types_for(wanted) is Ok,
    ensures
        ({
            let filters = filters_for(wanted, Some(word), parsed);
            match parsed {
                Err(e) => filters == Err::<crate::filters::FiltersModel, ErrorModel>(e),
                Ok(status) => filters is Ok && filters->Ok_0.statuses == Some(seq![status])
                    && filters->Ok_0.types == types_for(wanted)->Ok_0
                    && !filters->Ok_0.include_templates && (filters->Ok_0.include_closed <==> status
                    == StatusModel::Closed || status == StatusModel::Tombstone)
                    && (filters->Ok_0.include_deferred <==> status == StatusModel::Deferred),
            }
        }),
{
    reveal_strlit("all");
    assert(ascii_lowercase("all"@) =~= "all"@);
}

/// No status at all leaves out what is closed and what is deferred.
pub proof fn law_a_blank_status_is_no_status(
    wanted: Option<AskedTypeModel>,
    word: Seq<char>,
    parsed: Result<StatusModel, ErrorModel>,
)
    requires
        trim(word).len() == 0,
        types_for(wanted) is Ok,
    ensures
        ({
            let filters = filters_for(wanted, Some(word), parsed);
            filters is Ok && filters->Ok_0.statuses is None && !filters->Ok_0.include_closed
                && !filters->Ok_0.include_deferred && !filters->Ok_0.include_templates
                && filters->Ok_0.types == types_for(wanted)->Ok_0
        }),
{
    reveal_strlit("all");
    assert(ascii_lowercase("all"@).len() == 3);
    assert(ascii_lowercase(trim(word)).len() == 0);
}

/// A type that is asked for is the only one; one of the user's own making is refused by its
/// name, and so is a word that is no type.
pub proof fn law_a_picked_type_is_the_only_one(asked: AskedTypeModel)
    ensures
        types_for(None) == Ok::<Option<Seq<IssueTypeModel>>, ErrorModel>(None),
        match asked.parsed {
            Err(e) => types_for(Some(asked)) == Err::<Option<Seq<IssueTypeModel>>, ErrorModel>(e),
            Ok(t) => if t is Custom {
                types_for(Some(asked)) == Err::<Option<Seq<IssueTypeModel>>, ErrorModel>(
                    ErrorModel::InvalidType { issue_type: asked.name },
                )
            } else {
                types_for(Some(asked)) == Ok::<Option<Seq<IssueTypeModel>>, ErrorModel>(
                    Some(seq![t]),
                )
            },
        },
{
}

/// Whatever the status, a type that is refused is told first.
pub proof fn law_a_refused_type_is_told(
    wanted: Option<AskedTypeModel>,
    status: Option<Seq<char>>,
    parsed: Result<StatusModel, ErrorModel>,
)
    requires
        types_for(wanted) is Err,
    ensures
        filters_for(wanted, status, parsed) == Err::<crate::filters::FiltersModel, ErrorModel>(
            types_for(wanted)->Err_0,
        ),
{
}

/// Issues that were asked for are all found, or the first that is not is named.
pub proof fn law_fetch_needs_every_issue(
    ids: Seq<Seq<char>>,
    issues: Seq<IssueModel>,
    more: Seq<char>,
)
    requires
        fetched(ids, issues) is Ok,
    ensures
        ({
            let one = crate::show_jsonl::find_issue(issues, more);
            fetched(ids.push(more), issues) == match one {
                Some(issue) => Ok::<Seq<IssueModel>, ErrorModel>(
                    fetched(ids, issues)->Ok_0.push(issue),
                ),
                None => Err::<Seq<IssueModel>, ErrorModel>(ErrorModel::IssueNotFound { id: more }),
            }
        }),
{
    assert(ids.push(more).drop_last() =~= ids);
}

/// An issue more that was asked for is answered at the end by the last answer to it, or named
/// where there is none.
pub proof fn law_every_input_needs_an_answer(
    inputs: Seq<Seq<char>>,
    answers: Seq<(String, Issue)>,
    more: Seq<char>,
    i: int,
)
    requires
        answered(inputs, answers) is Ok,
    ensures
        answered(inputs.push(more), answers) is Ok <==> exists|j: int|
            0 <= j < answers.len() && (#[trigger] answers[j]).0@ == more,
        0 <= i < answers.len() && answers[i].0@ == more && (forall|j: int|
            i < j < answers.len() ==> (#[trigger] answers[j]).0@ != more) ==> answered(
            inputs.push(more),
            answers,
        ) == Ok::<Seq<IssueModel>, ErrorModel>(answered(inputs, answers)->Ok_0.push(answers[i].1@)),
        answered(inputs.push(more), answers) is Err ==> answered(inputs.push(more), answers)->Err_0
            == (ErrorModel::IssueNotFound { id: more }),
{
    assert(inputs.push(more).drop_last() =~= inputs);
    lemma_last_answer(answers, more, i);
}

proof fn lemma_last_answer(answers: Seq<(String, Issue)>, input: Seq<char>, i: int)
    ensures
        answer_for(answers, input) is Some <==> exists|j: int|
            0 <= j < answers.len() && (#[trigger] answers[j]).0@ == input,
        0 <= i < answers.len() && answers[i].0@ == input && (forall|j: int|
            i < j < answers.len() ==> (#[trigger] answers[j]).0@ != input) ==> answer_for(
            answers,
            input,
        ) == Some(answers[i].1@),
    decreases answers.len(),
{
    if answers.len() > 0 {
        let rest = answers.drop_last();
        lemma_last_answer(rest, input, i);
        if answers.last().0@ == input {
            assert(answers[answers.len() - 1].0@ == input);
        } else {
            if answer_for(rest, input) is Some {
                let j = choose|j: int| 0 <= j < rest.len() && (#[trigger] rest[j]).0@ == input;
                assert(answers[j].0@ == input);
            }
            if exists|j: int| 0 <= j < answers.len() && (#[trigger] answers[j]).0@ == input {
                let j = choose|j: int|
                    0 <= j < answers.len() && (#[trigger] answers[j]).0@ == input;
                assert(rest[j].0@ == input);
            }
            if 0 <= i < answers.len() && answers[i].0@ == input && (forall|j: int|
                i < j < answers.len() ==> (#[trigger] answers[j]).0@ != input) {
                assert(rest[i].0@ == input);
            }
        }
    }
}

/// Every missing section is named with its hint on a line of its own.
pub proof fn law_each_missing_section_has_its_line(
    suggestions: Seq<SectionModel>,
    more: SectionModel,
)
    ensures
        suggestion_lines(suggestions.push(more)) == suggestion_lines(suggestions)
            + "  ⚠ Missing: "@ + more.heading + " - "@ + more.hint + "\n"@,
        suggestion_entries(suggestions.push(more)).len() == suggestion_entries(suggestions).len()
            + 5,
        suggestion_entries(suggestions.push(more)).contains(styled(more.heading, Role::Warning)),
        suggestion_entries(suggestions.push(more)).contains(styled(more.hint, Role::Dimmed)),
{
    assert(suggestions.push(more).drop_last() =~= suggestions);
    assert(suggestion_lines(suggestions.push(more)) =~= suggestion_lines(suggestions)
        + "  ⚠ Missing: "@ + more.heading + " - "@ + more.hint + "\n"@);
    let all = suggestion_entries(suggestions.push(more));
    assert(all[all.len() - 4] == styled(more.heading, Role::Warning));
    assert(all[all.len() - 2] == styled(more.hint, Role::Dimmed));
}

/// One result more is told at the end of the plain text, and the head counts the issues and the
/// warnings.
pub proof fn law_each_result_is_told(
    checked: usize,
    warnings: usize,
    results: Seq<ResultModel>,
    more: ResultModel,
)
    ensures
        plain_lines(checked, warnings, Seq::empty()) == "✓ No template warnings found ("@ + decimal(
            checked as nat,
        ) + " issues checked)\n"@,
        plain_lines(checked, warnings, results.push(more)) == "Template warnings ("@ + decimal(
            results.len() + 1,
        ) + " issues, "@ + decimal(warnings as nat) + " warnings):\n\n"@ + all_lines(results)
            + more.id + " ["@ + more.issue_type + "]: "@ + one_line(more.title) + "\n"@
            + suggestion_lines(more.suggestions) + "\n"@,
        all_lines(results.push(more)) == all_lines(results) + result_lines(more),
{
    assert(results.push(more).drop_last() =~= results);
    assert(plain_lines(checked, warnings, results.push(more)) =~= "Template warnings ("@ + decimal(
        results.len() + 1,
    ) + " issues, "@ + decimal(warnings as nat) + " warnings):\n\n"@ + all_lines(results) + more.id
        + " ["@ + more.issue_type + "]: "@ + one_line(more.title) + "\n"@ + suggestion_lines(
        more.suggestions,
    ) + "\n"@);
}

/// In the rich form a result stands under its type, after those before it, and is counted there
/// and nowhere else.
pub proof fn law_each_result_stands_under_its_type(
    results: Seq<ResultModel>,
    more: ResultModel,
    name: Seq<char>,
)
    ensures
        name == more.issue_type ==> type_entries(results.push(more), name) == type_entries(
            results,
            name,
        ) + result_entry(more) && type_count(results.push(more), name) == type_count(results, name)
            + 1,
        name != more.issue_type ==> type_entries(results.push(more), name) == type_entries(
            results,
            name,
        ) && type_count(results.push(more), name) == type_count(results, name),
        result_entry(more).contains(styled(more.id, Role::IssueId)),
        result_entry(more).contains(styled(one_line(more.title), Role::IssueTitle)),
        result_entry(more).len() == 6 + suggestion_entries(more.suggestions).len(),
{
    assert(results.push(more).drop_last() =~= results);
    let entry = result_entry(more);
    assert(entry[1] == styled(more.id, Role::IssueId));
    assert(entry[4] == styled(one_line(more.title), Role::IssueTitle));
}

/// Every type has its heading with its count and its results behind it.
pub proof fn law_each_type_has_its_group(
    results: Seq<ResultModel>,
    types: Seq<Seq<char>>,
    more: Seq<char>,
)
    ensures
        ({
            let before = grouped_entries(results, types);
            let all = grouped_entries(results, types.push(more));
            &&& before.is_prefix_of(all)
            &&& all.len() == before.len() + type_entries(results, more).len() + 2
            &&& all[before.len() as int] == styled(
                one_line(more) + " ("@ + decimal(type_count(results, more)) + ")\n"@,
                Role::Section,
            )
            &&& all.subrange(before.len() as int + 1, all.len() - 1) == type_entries(results, more)
        }),
{
    assert(types.push(more).drop_last() =~= types);
    let before = grouped_entries(results, types);
    let all = grouped_entries(results, types.push(more));
    assert(all.take(before.len() as int) =~= before);
    assert(all.subrange(before.len() as int + 1, all.len() - 1) =~= type_entries(results, more));
}

/// The head of the rich form gives the two counts; the groups are there where something was
/// found, and where nothing was the head is followed by the note alone.
pub proof fn law_rich_form_gives_the_counts(
    checked: usize,
    warnings: usize,
    results: Seq<ResultModel>,
)
    ensures
        ({
            let all = lint_entries(checked, warnings, results);
            let groups = grouped_entries(results, types_of(results));
            &&& all[3] == styled(decimal(checked as nat), Role::Emphasis)
            &&& warnings > 0 ==> all[5] == styled(decimal(warnings as nat), Role::Warning)
            &&& warnings == 0 ==> all[5] == styled("0"@, Role::Success)
            &&& results.len() > 0 ==> all.subrange(7, all.len() - 1) == groups
            &&& results.len() == 0 ==> all.len() == 8 && all[7] == styled(
                "✓ No template warnings found ("@ + decimal(checked as nat) + " issues checked)"@,
                Role::Success,
            )
        }),
{
    let all = lint_entries(checked, warnings, results);
    if results.len() > 0 {
        assert(all.subrange(7, all.len() - 1) =~= grouped_entries(results, types_of(results)));
    }
}

/// A section more is missing exactly where its heading does not occur in the description.
pub proof fn law_each_heading_is_looked_for(
    description: Seq<char>,
    headings: Seq<Seq<char>>,
    sections: Seq<SectionModel>,
    more: SectionModel,
)
    requires
        sections.len() < headings.len(),
    ensures
        missing_among(description, headings, sections.push(more)) == if occurs(
            description,
            headings[sections.len() as int],
        ) {
            missing_among(description, headings, sections)
        } else {
            missing_among(description, headings, sections).push(more)
        },
        missing(description, sections.push(more)) == if occurs(
            unicode_lowercase(description),
            unicode_lowercase(heading_text(more.heading)),
        ) {
            missing(description, sections)
        } else {
            missing(description, sections).push(more)
        },
{
    assert(sections.push(more).drop_last() =~= sections);
}

} // verus!
