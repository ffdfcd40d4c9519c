//! The `lint` command: sections that the description of an issue should have.

use crate::error::{BeadsError, ErrorModel};
use crate::filters::{no_filters, only_status, only_type, FiltersModel, ListFilters};
use crate::model::{
    issue_type_name, terminal, Issue, IssueModel, IssueType, IssueTypeModel, Status, StatusModel,
};
use crate::numbers::{decimal, decimal_text};
use crate::sanitize::{one_line, sanitize_terminal_inline};
use crate::show::OutputMode;
use crate::show_jsonl::{find_issue, find_issue_in};
use crate::shown::{one_piece, one_span, shown, shown_in, Shown};
use crate::sorting::{sorted, stable_sort, text_le, views};
use crate::spans::{push_styled, push_unstyled, styled, unstyled, Role, Span, SpanModel};
use crate::text::{
    ascii_lowercase, contains_text, distinct, distinct_texts, lowercased, occurs, opt_text,
    same_text, same_text_ignoring_ascii_case, starts_with, text3, text5, texts, trim, trimmed,
    unicode_lowercase, without_prefix,
};
use vstd::prelude::*;
use vstd::string::*;

verus! {

broadcast use vstd::string::group_string_axioms;

/// A section that the description of an issue should have.
#[derive(Debug, Clone, Copy)]
pub struct RequiredSection {
    pub heading: &'static str,
    pub hint: &'static str,
}

/// What a [`RequiredSection`] says.
#[verifier::ext_equal]
pub struct SectionModel {
    pub heading: Seq<char>,
    pub hint: Seq<char>,
}

impl View for RequiredSection {
    type V = SectionModel;

    open spec fn view(&self) -> SectionModel {
        SectionModel { heading: self.heading@, hint: self.hint@ }
    }
}

/// The sections that an issue of a type should have.
pub open spec fn required(issue_type: IssueTypeModel) -> Seq<SectionModel> {
    match issue_type {
        IssueTypeModel::Bug => seq![
            SectionModel {
                heading: "## Steps to Reproduce"@,
                hint: "Describe how to reproduce the bug"@,
            },
            SectionModel {
                heading: "## Acceptance Criteria"@,
                hint: "Define criteria to verify the fix"@,
            },
        ],
        IssueTypeModel::Task => seq![
            SectionModel {
                heading: "## Acceptance Criteria"@,
                hint: "Define criteria to verify completion"@,
            },
        ],
        IssueTypeModel::Feature => seq![
            SectionModel {
                heading: "## Acceptance Criteria"@,
                hint: "Define criteria to verify completion"@,
            },
        ],
        IssueTypeModel::Epic => seq![
            SectionModel {
                heading: "## Success Criteria"@,
                hint: "Define high-level success criteria"@,
            },
        ],
        _ => Seq::empty(),
    }
}

pub fn required_sections(issue_type: &IssueType) -> (r: Vec<RequiredSection>)
    ensures
        views(r@) == required(issue_type@),
        r@.len() <= 2,
{
    let mut out: Vec<RequiredSection> = Vec::new();
    match issue_type {
        IssueType::Bug => {
            out.push(
                RequiredSection {
                    heading: "## Steps to Reproduce",
                    hint: "Describe how to reproduce the bug",
                },
            );
            out.push(
                RequiredSection {
                    heading: "## Acceptance Criteria",
                    hint: "Define criteria to verify the fix",
                },
            );
        },
        IssueType::Task | IssueType::Feature => {
            out.push(
                RequiredSection {
                    heading: "## Acceptance Criteria",
                    hint: "Define criteria to verify completion",
                },
            );
        },
        IssueType::Epic => {
            out.push(
                RequiredSection {
                    heading: "## Success Criteria",
                    hint: "Define high-level success criteria",
                },
            );
        },
        _ => {},
    }
    assert(views(out@) =~= required(issue_type@));
    out
}

/// A heading without the marks before it.
pub open spec fn heading_text(heading: Seq<char>) -> Seq<char> {
    let t = trim(heading);
    if starts_with(t, "## "@) {
        t.skip("## "@.len() as int)
    } else if starts_with(t, "# "@) {
        t.skip("# "@.len() as int)
    } else {
        t
    }
}

pub fn strip_heading_prefix(heading: &str) -> (r: String)
    ensures
        r@ == heading_text(heading@),
{
    let t = trimmed(heading);
    match without_prefix(t.as_str(), "## ") {
        Some(text) => text,
        None => match without_prefix(t.as_str(), "# ") {
            Some(text) => text,
            None => t,
        },
    }
}

/// The text of the heading stands somewhere in the description, in any case.
pub open spec fn has_section(description: Seq<char>, heading: Seq<char>) -> bool {
    occurs(unicode_lowercase(description), unicode_lowercase(heading_text(heading)))
}

/// The sections that the description does not have, in order.
pub open spec fn missing(description: Seq<char>, sections: Seq<SectionModel>) -> Seq<SectionModel>
    decreases sections.len(),
{
    if sections.len() == 0 {
        Seq::empty()
    } else if has_section(description, sections.last().heading) {
        missing(description, sections.drop_last())
    } else {
        missing(description, sections.drop_last()).push(sections.last())
    }
}

/// The sections whose heading does not occur in the description, in order. Both are in
/// lower case, and `headings` has one entry for each section.
pub open spec fn missing_among(
    lower_description: Seq<char>,
    headings: Seq<Seq<char>>,
    sections: Seq<SectionModel>,
) -> Seq<SectionModel>
    decreases sections.len(),
{
    if sections.len() == 0 {
        Seq::empty()
    } else {
        let before = missing_among(lower_description, headings, sections.drop_last());
        if occurs(lower_description, headings[sections.len() - 1]) {
            before
        } else {
            before.push(sections.last())
        }
    }
}

pub fn missing_sections_among(
    lower_description: &str,
    headings: &Vec<String>,
    sections: &Vec<RequiredSection>,
) -> (r: Vec<RequiredSection>)
    requires
        headings@.len() == sections@.len(),
    ensures
        views(r@) == missing_among(lower_description@, texts(headings@), views(sections@)),
        r@.len() <= sections@.len(),
{
    let ghost all = views(sections@);
    let ghost lower = texts(headings@);
    let mut out: Vec<RequiredSection> = Vec::new();
    let mut i: usize = 0;
    assert(views(out@) =~= missing_among(lower_description@, lower, all.take(0)));
    while i < sections.len()
        invariant
            i <= sections@.len(),
            headings@.len() == sections@.len(),
            out@.len() <= i,
            all == views(sections@),
            lower == texts(headings@),
            views(out@) == missing_among(lower_description@, lower, all.take(i as int)),
        decreases sections@.len() - i,
    {
        assert(all.take(i + 1).drop_last() =~= all.take(i as int));
        assert(all.take(i + 1).last() == sections@[i as int]@);
        assert(lower[i as int] == headings@[i as int]@);
        if !contains_text(lower_description, headings[i].as_str()) {
            let ghost before = views(out@);
            out.push(sections[i]);
            assert(views(out@) =~= before.push(sections@[i as int]@));
        }
        i += 1;
    }
    assert(all.take(all.len() as int) =~= all);
    out
}

/// The headings without their marks, in lower case.
pub open spec fn lower_headings(sections: Seq<SectionModel>) -> Seq<Seq<char>> {
    sections.map_values(|s: SectionModel| unicode_lowercase(heading_text(s.heading)))
}

proof fn lemma_missing_by_headings(
    description: Seq<char>,
    headings: Seq<Seq<char>>,
    sections: Seq<SectionModel>,
)
    requires
        headings.len() >= sections.len(),
        forall|i: int|
            0 <= i < sections.len() ==> headings[i] == unicode_lowercase(
                heading_text((#[trigger] sections[i]).heading),
            ),
    ensures
        missing_among(unicode_lowercase(description), headings, sections) == missing(
            description,
            sections,
        ),
    decreases sections.len(),
{
    if sections.len() > 0 {
        assert(forall|i: int|
            0 <= i < sections.drop_last().len() ==> sections.drop_last()[i] == sections[i]);
        lemma_missing_by_headings(description, headings, sections.drop_last());
        assert(headings[sections.len() - 1] == unicode_lowercase(
            heading_text(sections[sections.len() - 1].heading),
        ));
    }
}

pub fn missing_sections(description: &str, sections: &Vec<RequiredSection>) -> (r: Vec<
    RequiredSection,
>)
    ensures
        views(r@) == missing(description@, views(sections@)),
        r@.len() <= sections@.len(),
{
    let ghost all = views(sections@);
    let lower = lowercased(description);
    let mut headings: Vec<String> = Vec::new();
    let mut i: usize = 0;
    while i < sections.len()
        invariant
            i <= sections@.len(),
            all == views(sections@),
            texts(headings@) == lower_headings(all).take(i as int),
        decreases sections@.len() - i,
    {
        let ghost before = texts(headings@);
        assert(all[i as int] == sections@[i as int]@);
        let text = strip_heading_prefix(sections[i].heading);
        let heading = lowercased(text.as_str());
        let ghost shown = heading@;
        headings.push(heading);
        i += 1;
        assert(texts(headings@) =~= before.push(shown));
        assert(texts(headings@) =~= lower_headings(all).take(i as int));
    }
    proof {
        assert(texts(headings@) =~= lower_headings(all));
        lemma_missing_by_headings(description@, texts(headings@), all);
    }
    missing_sections_among(lower.as_str(), &headings, sections)
}

/// What to do about a missing section.
#[derive(Debug)]
pub struct LintSuggestion {
    pub section: String,
    pub hint: String,
}

impl View for LintSuggestion {
    type V = SectionModel;

    open spec fn view(&self) -> SectionModel {
        SectionModel { heading: self.section@, hint: self.hint@ }
    }
}

/// An issue that misses sections.
#[derive(Debug)]
pub struct LintResult {
    pub id: String,
    pub title: String,
    pub issue_type: String,
    pub missing: Vec<String>,
    pub warnings: usize,
    pub suggestions: Vec<LintSuggestion>,
}

/// What a [`LintResult`] says.
#[verifier::ext_equal]
pub struct ResultModel {
    pub id: Seq<char>,
    pub title: Seq<char>,
    pub issue_type: Seq<char>,
    pub missing: Seq<Seq<char>>,
    pub warnings: int,
    pub suggestions: Seq<SectionModel>,
}

impl View for LintResult {
    type V = ResultModel;

    open spec fn view(&self) -> ResultModel {
        ResultModel {
            id: self.id@,
            title: self.title@,
            issue_type: self.issue_type@,
            missing: texts(self.missing@),
            warnings: self.warnings as int,
            suggestions: views(self.suggestions@),
        }
    }
}

/// The sections that an issue misses.
pub open spec fn missing_of(issue: IssueModel) -> Seq<SectionModel> {
    missing(
        match issue.description {
            Some(text) => text,
            None => ""@,
        },
        required(issue.issue_type),
    )
}

/// What there is to say of an issue, where it misses sections.
pub open spec fn linted(issue: IssueModel) -> Option<ResultModel> {
    let sections = missing_of(issue);
    if sections.len() == 0 {
        None
    } else {
        Some(
            ResultModel {
                id: issue.id,
                title: issue.title,
                issue_type: issue_type_name(issue.issue_type),
                missing: sections.map_values(|s: SectionModel| s.heading),
                warnings: sections.len() as int,
                suggestions: sections,
            },
        )
    }
}

pub fn lint_issue(issue: &Issue) -> (r: Option<LintResult>)
    ensures
        match r {
            Some(result) => linted(issue@) == Some(result@) && result.warnings <= 2,
            None => linted(issue@) is None,
        },
{
    let sections = required_sections(&issue.issue_type);
    let found = match &issue.description {
        Some(text) => missing_sections(text.as_str(), &sections),
        None => missing_sections("", &sections),
    };
    let ghost wanted = missing_of(issue@);
    assert(views(found@) == wanted);
    if found.len() == 0 {
        return None;
    }
    let mut headings: Vec<String> = Vec::new();
    let mut suggestions: Vec<LintSuggestion> = Vec::new();
    let mut i: usize = 0;
    while i < found.len()
        invariant
            i <= found@.len(),
            views(found@) == wanted,
            texts(headings@) == wanted.take(i as int).map_values(|s: SectionModel| s.heading),
            views(suggestions@) == wanted.take(i as int),
        decreases found@.len() - i,
    {
        let ghost before = texts(headings@);
        let ghost made = views(suggestions@);
        assert(wanted[i as int] == found@[i as int]@);
        headings.push(found[i].heading.to_owned());
        suggestions.push(
            LintSuggestion {
                section: found[i].heading.to_owned(),
                hint: found[i].hint.to_owned(),
            },
        );
        i += 1;
        assert(texts(headings@) =~= before.push(wanted[i - 1].heading));
        assert(texts(headings@) =~= wanted.take(i as int).map_values(
            |s: SectionModel| s.heading,
        ));
        assert(views(suggestions@) =~= made.push(wanted[i - 1]));
        assert(views(suggestions@) =~= wanted.take(i as int));
    }
    assert(wanted.take(wanted.len() as int) =~= wanted);
    let warnings: usize = found.len();
    Some(
        LintResult {
            id: issue.id.clone(),
            title: issue.title.clone(),
            issue_type: issue.issue_type.as_str().to_owned(),
            missing: headings,
            warnings,
            suggestions,
        },
    )
}

/// What there is to say of the issues that miss sections, in order.
pub open spec fn results_of(issues: Seq<IssueModel>) -> Seq<ResultModel>
    decreases issues.len(),
{
    if issues.len() == 0 {
        Seq::empty()
    } else {
        match linted(issues.last()) {
            Some(result) => results_of(issues.drop_last()).push(result),
            None => results_of(issues.drop_last()),
        }
    }
}

/// How many sections the issues miss together.
pub open spec fn warnings_in(results: Seq<ResultModel>) -> int
    decreases results.len(),
{
    if results.len() == 0 {
        0
    } else {
        warnings_in(results.drop_last()) + results.last().warnings
    }
}

/// What there is to say of all issues.
#[derive(Debug)]
pub struct LintSummary {
    pub checked: usize,
    pub warnings: usize,
    pub results: Vec<LintResult>,
}

/// Looks for missing sections in each of the issues.
pub fn lint_issues(issues: &Vec<Issue>) -> (r: LintSummary)
    requires
        issues@.len() * 2 <= usize::MAX,
    ensures
        r.checked == issues@.len(),
        views(r.results@) == results_of(views(issues@)),
        r.warnings == warnings_in(results_of(views(issues@))),
{
    let ghost all = views(issues@);
    let mut results: Vec<LintResult> = Vec::new();
    let mut warnings: usize = 0;
    let mut i: usize = 0;
    assert(views(results@) =~= results_of(all.take(0)));
    while i < issues.len()
        invariant
            i <= issues@.len(),
            issues@.len() * 2 <= usize::MAX,
            all == views(issues@),
            warnings <= 2 * i,
            views(results@) == results_of(all.take(i as int)),
            warnings == warnings_in(results_of(all.take(i as int))),
        decreases issues@.len() - i,
    {
        assert(all.take(i + 1).drop_last() =~= all.take(i as int));
        assert(all.take(i + 1).last() == issues@[i as int]@);
        if let Some(result) = lint_issue(&issues[i]) {
            let ghost before = views(results@);
            let ghost shown = result@;
            warnings += result.warnings;
            results.push(result);
            assert(views(results@) =~= before.push(shown));
            assert(before.push(shown).drop_last() =~= before);
        }
        i += 1;
    }
    assert(all.take(all.len() as int) =~= all);
    LintSummary { checked: issues.len(), warnings, results }
}

impl LintSummary {
    /// What the process ends with: structured output speaks for itself.
    pub fn exit_code(&self, structured: bool) -> (r: i32)
        ensures
            r == if structured || self.warnings == 0 {
                0i32
            } else {
                1i32
            },
            r == 0 <==> structured || self.warnings == 0,
    {
        if structured || self.warnings == 0 {
            0
        } else {
            1
        }
    }

    /// What the process is ended with once the output is written, where it is ended at all.
    pub fn exit_after(&self, mode: OutputMode) -> (r: Option<i32>)
        ensures
            r == exit_status(mode, self.warnings, self.results@.len()),
    {
        match mode {
            OutputMode::Json => None,
            OutputMode::Toon => None,
            OutputMode::Rich => Some(self.exit_code(false)),
            _ => if self.results.len() == 0 {
                None
            } else {
                Some(self.exit_code(false))
            },
        }
    }
}

/// What the process is ended with. Structured output does not end it, nor does a quiet or a
/// plain one without a finding.
pub open spec fn exit_status(mode: OutputMode, warnings: usize, findings: nat) -> Option<i32> {
    match mode {
        OutputMode::Json => None,
        OutputMode::Toon => None,
        _ => if findings == 0 && mode != OutputMode::Rich {
            None
        } else if warnings == 0 {
            Some(0)
        } else {
            Some(1)
        },
    }
}

proof fn lemma_required_nonempty(issue: IssueModel)
    ensures
        linted(issue) is Some ==> linted(issue)->0.warnings > 0,
{
}

proof fn lemma_warnings_at_least(issues: Seq<IssueModel>)
    ensures
        warnings_in(results_of(issues)) >= results_of(issues).len(),
    decreases issues.len(),
{
    if issues.len() > 0 {
        lemma_warnings_at_least(issues.drop_last());
        lemma_required_nonempty(issues.last());
        if let Some(result) = linted(issues.last()) {
            let before = results_of(issues.drop_last());
            assert(before.push(result).drop_last() =~= before);
        }
    }
}

/// There is a warning exactly when there is an issue to report.
pub proof fn law_warnings_come_with_results(issues: Seq<IssueModel>)
    ensures
        warnings_in(results_of(issues)) == 0 <==> results_of(issues).len() == 0,
{
    lemma_warnings_at_least(issues);
}

proof fn lemma_missing(description: Seq<char>, sections: Seq<SectionModel>)
    ensures
        forall|i: int|
            0 <= i < missing(description, sections).len() ==> !has_section(
                description,
                (#[trigger] missing(description, sections)[i]).heading,
            ),
        forall|i: int|
            0 <= i < sections.len() && !has_section(
                description,
                (#[trigger] sections[i]).heading,
            ) ==> missing(description, sections).contains(sections[i]),
    decreases sections.len(),
{
    if sections.len() > 0 {
        let init = sections.drop_last();
        lemma_missing(description, init);
        let before = missing(description, init);
        let now = missing(description, sections);
        assert forall|i: int|
            0 <= i < sections.len() && !has_section(
                description,
                (#[trigger] sections[i]).heading,
            ) implies now.contains(sections[i]) by {
            if i < init.len() {
                assert(init[i] == sections[i]);
                assert(before.contains(sections[i]));
                let k = before.index_of(sections[i]);
                assert(now[k] == sections[i]);
            } else {
                assert(now[before.len() as int] == sections[i]);
            }
        }
    }
}

/// An issue passes exactly when its description has every section that its type asks for.
pub proof fn law_complete_issues_pass(issue: IssueModel)
    ensures
        linted(issue) is None <==> forall|i: int|
            0 <= i < required(issue.issue_type).len() ==> has_section(
                match issue.description {
                    Some(text) => text,
                    None => ""@,
                },
                (#[trigger] required(issue.issue_type)[i]).heading,
            ),
{
    let description = match issue.description {
        Some(text) => text,
        None => ""@,
    };
    let sections = required(issue.issue_type);
    lemma_missing(description, sections);
    if missing_of(issue).len() > 0 {
        let first = missing_of(issue)[0];
        assert(!has_section(description, first.heading));
        lemma_missing_from(description, sections);
        assert(sections.contains(first));
        let k = sections.index_of(first);
        assert(sections[k].heading == first.heading);
    } else {
        assert forall|i: int| 0 <= i < sections.len() implies has_section(
            description,
            (#[trigger] sections[i]).heading,
        ) by {
            if !has_section(description, sections[i].heading) {
                assert(missing(description, sections).contains(sections[i]));
            }
        }
    }
}

proof fn lemma_missing_from(description: Seq<char>, sections: Seq<SectionModel>)
    ensures
        forall|i: int|
            0 <= i < missing(description, sections).len() ==> sections.contains(
                #[trigger] missing(description, sections)[i],
            ),
    decreases sections.len(),
{
    if sections.len() > 0 {
        let init = sections.drop_last();
        lemma_missing_from(description, init);
        let before = missing(description, init);
        let now = missing(description, sections);
        assert forall|i: int| 0 <= i < now.len() implies sections.contains(#[trigger] now[i]) by {
            if i < before.len() {
                assert(init.contains(before[i]));
                let k = init.index_of(before[i]);
                assert(sections[k] == now[i]);
            } else {
                assert(sections[sections.len() - 1] == now[i]);
            }
        }
    }
}

/// The type that was asked for, by its name and as that name parses.
#[derive(Debug)]
pub struct AskedType {
    pub name: String,
    pub parsed: Result<IssueType, BeadsError>,
}

/// What an [`AskedType`] says.
pub struct AskedTypeModel {
    pub name: Seq<char>,
    pub parsed: Result<IssueTypeModel, ErrorModel>,
}

/// The type that was asked for, where one was.
pub open spec fn asked_type(t: Option<AskedType>) -> Option<AskedTypeModel> {
    match t {
        Some(asked) => Some(
            AskedTypeModel { name: asked.name@, parsed: type_or_error(asked.parsed) },
        ),
        None => None,
    }
}

/// The type, or what the error says.
pub open spec fn type_or_error(r: Result<IssueType, BeadsError>) -> Result<
    IssueTypeModel,
    ErrorModel,
> {
    match r {
        Ok(t) => Ok(t@),
        Err(e) => Err(e.model()),
    }
}

/// The status, or what the error says.
pub open spec fn status_or_error(r: Result<Status, BeadsError>) -> Result<StatusModel, ErrorModel> {
    match r {
        Ok(s) => Ok(s@),
        Err(e) => Err(e.model()),
    }
}

/// The name of the status that is asked for: open where none is named.
pub open spec fn status_asked(status: Option<Seq<char>>) -> Seq<char> {
    trim(
        match status {
            Some(s) => s,
            None => "open"@,
        },
    )
}

pub fn asked_status(status: &Option<String>) -> (r: String)
    ensures
        r@ == status_asked(opt_text(*status)),
{
    match status {
        Some(s) => trimmed(s.as_str()),
        None => trimmed("open"),
    }
}

/// Which issues are looked at: those of a standard type, and open ones unless another status
/// or all are asked for. `parsed` is what the name of the status parses to.
pub open spec fn filters_for(
    wanted_type: Option<AskedTypeModel>,
    status: Option<Seq<char>>,
    parsed: Result<StatusModel, ErrorModel>,
) -> Result<FiltersModel, ErrorModel> {
    let wanted = status_asked(status);
    let all = ascii_lowercase(wanted) == ascii_lowercase("all"@);
    match types_for(wanted_type) {
        Err(e) => Err(e),
        Ok(types) => if all {
            Ok(
                FiltersModel {
                    types,
                    include_closed: true,
                    include_deferred: true,
                    ..no_filters()
                },
            )
        } else if wanted.len() == 0 {
            Ok(FiltersModel { types, ..no_filters() })
        } else {
            match parsed {
                Err(e) => Err(e),
                Ok(chosen) => Ok(
                    FiltersModel {
                        types,
                        statuses: Some(seq![chosen]),
                        include_closed: terminal(chosen),
                        include_deferred: chosen == StatusModel::Deferred,
                        ..no_filters()
                    },
                ),
            }
        },
    }
}

/// The types that are looked at: the one that was asked for, which must be a standard one.
pub open spec fn types_for(wanted_type: Option<AskedTypeModel>) -> Result<
    Option<Seq<IssueTypeModel>>,
    ErrorModel,
> {
    match wanted_type {
        None => Ok(None),
        Some(asked) => match asked.parsed {
            Err(e) => Err(e),
            Ok(IssueTypeModel::Custom(_)) => Err(ErrorModel::InvalidType { issue_type: asked.name }),
            Ok(t) => Ok(Some(seq![t])),
        },
    }
}

/// The filters, or what the error says.
pub open spec fn filters_or_error(r: Result<ListFilters, BeadsError>) -> Result<
    FiltersModel,
    ErrorModel,
> {
    match r {
        Ok(f) => Ok(f@),
        Err(e) => Err(e.model()),
    }
}

pub fn build_filters(
    type_: Option<AskedType>,
    status: &Option<String>,
    parsed: Result<Status, BeadsError>,
) -> (r: Result<ListFilters, BeadsError>)
    ensures
        filters_or_error(r) == filters_for(
            asked_type(type_),
            opt_text(*status),
            status_or_error(parsed),
        ),
{
    let mut types: Option<Vec<IssueType>> = None;
    if let Some(asked) = type_ {
        let wanted_type = match asked.parsed {
            Ok(t) => t,
            Err(e) => return Err(e),
        };
        if !wanted_type.is_standard() {
            return Err(BeadsError::InvalidType { issue_type: asked.name });
        }
        types = only_type(wanted_type);
    }
    let wanted = asked_status(status);
    if same_text_ignoring_ascii_case(wanted.as_str(), "all") {
        return Ok(
            ListFilters {
                types,
                statuses: None,
                include_closed: true,
                include_deferred: true,
                include_templates: false,
            },
        );
    }
    if wanted.as_str().is_empty() {
        return Ok(
            ListFilters {
                types,
                statuses: None,
                include_closed: false,
                include_deferred: false,
                include_templates: false,
            },
        );
    }
    let chosen = match parsed {
        Ok(chosen) => chosen,
        Err(e) => return Err(e),
    };
    let closed = chosen.is_terminal();
    let deferred = match &chosen {
        Status::Deferred => true,
        _ => false,
    };
    Ok(
        ListFilters {
            types,
            statuses: only_status(chosen),
            include_closed: closed,
            include_deferred: deferred,
            include_templates: false,
        },
    )
}

/// The issues with these ids, in the order of the ids, or the first id that no issue has.
pub open spec fn fetched(ids: Seq<Seq<char>>, issues: Seq<IssueModel>) -> Result<
    Seq<IssueModel>,
    ErrorModel,
>
    decreases ids.len(),
{
    if ids.len() == 0 {
        Ok(Seq::empty())
    } else {
        match fetched(ids.drop_last(), issues) {
            Err(e) => Err(e),
            Ok(before) => match find_issue(issues, ids.last()) {
                None => Err(ErrorModel::IssueNotFound { id: ids.last() }),
                Some(issue) => Ok(before.push(issue)),
            },
        }
    }
}

/// The issues, or what the error says.
pub open spec fn issues_or_error(r: Result<Vec<Issue>, BeadsError>) -> Result<
    Seq<IssueModel>,
    ErrorModel,
> {
    match r {
        Ok(v) => Ok(views(v@)),
        Err(e) => Err(e.model()),
    }
}

proof fn lemma_fetch_fails(ids: Seq<Seq<char>>, issues: Seq<IssueModel>, n: int)
    requires
        0 <= n <= ids.len(),
        fetched(ids.take(n), issues) is Err,
    ensures
        fetched(ids, issues) == fetched(ids.take(n), issues),
    decreases ids.len() - n,
{
    if n == ids.len() {
        assert(ids.take(n) =~= ids);
    } else {
        assert(ids.take(n + 1).drop_last() =~= ids.take(n));
        lemma_fetch_fails(ids, issues, n + 1);
    }
}

/// The issues with these ids, once for each time that an id is asked for. `issues` are
/// those that the database gave.
pub fn fetch_issues_in_resolved_order(issues: &Vec<Issue>, resolved_ids: &Vec<String>) -> (r:
    Result<Vec<Issue>, BeadsError>)
    ensures
        issues_or_error(r) == fetched(texts(resolved_ids@), views(issues@)),
{
    let ghost wanted = texts(resolved_ids@);
    let ghost all = views(issues@);
    let mut out: Vec<Issue> = Vec::new();
    let mut i: usize = 0;
    assert(views(out@) =~= Seq::<IssueModel>::empty());
    while i < resolved_ids.len()
        invariant
            i <= resolved_ids@.len(),
            wanted == texts(resolved_ids@),
            all == views(issues@),
            fetched(wanted.take(i as int), all) == Ok::<Seq<IssueModel>, ErrorModel>(views(out@)),
        decreases resolved_ids@.len() - i,
    {
        assert(wanted.take(i + 1).drop_last() =~= wanted.take(i as int));
        assert(wanted.take(i + 1).last() == resolved_ids@[i as int]@);
        match find_issue_in(issues, resolved_ids[i].as_str()) {
            None => {
                proof {
                    lemma_fetch_fails(wanted, all, i + 1);
                }
                return Err(BeadsError::IssueNotFound { id: resolved_ids[i].clone() });
            },
            Some(issue) => {
                let ghost before = views(out@);
                let copied = issue.copy();
                let ghost shown = copied@;
                out.push(copied);
                assert(views(out@) =~= before.push(shown));
            },
        }
        i += 1;
    }
    assert(wanted.take(wanted.len() as int) =~= wanted);
    Ok(out)
}

proof fn lemma_found_id(issues: Seq<IssueModel>, id: Seq<char>)
    ensures
        find_issue(issues, id) is Some ==> find_issue(issues, id)->0.id == id,
    decreases issues.len(),
{
    if issues.len() > 0 && issues.last().id != id {
        lemma_found_id(issues.drop_last(), id);
    }
}

/// As many issues come back as ids were asked for, and each has the id that was asked for
/// in its place.
pub proof fn law_fetch_keeps_order(ids: Seq<Seq<char>>, issues: Seq<IssueModel>)
    requires
        fetched(ids, issues) is Ok,
    ensures
        fetched(ids, issues)->Ok_0.len() == ids.len(),
        forall|i: int|
            0 <= i < ids.len() ==> (#[trigger] fetched(ids, issues)->Ok_0[i]).id == ids[i],
    decreases ids.len(),
{
    if ids.len() > 0 {
        law_fetch_keeps_order(ids.drop_last(), issues);
        lemma_found_id(issues, ids.last());
    }
}

/// The issue that answers an input, where one does: the last answer counts.
pub open spec fn answer_for(answers: Seq<(String, Issue)>, input: Seq<char>) -> Option<IssueModel>
    decreases answers.len(),
{
    if answers.len() == 0 {
        None
    } else if answers.last().0@ == input {
        Some(answers.last().1@)
    } else {
        answer_for(answers.drop_last(), input)
    }
}

/// The issues that answer the inputs, in their order, or the first input without an answer.
pub open spec fn answered(inputs: Seq<Seq<char>>, answers: Seq<(String, Issue)>) -> Result<
    Seq<IssueModel>,
    ErrorModel,
>
    decreases inputs.len(),
{
    if inputs.len() == 0 {
        Ok(Seq::empty())
    } else {
        match answered(inputs.drop_last(), answers) {
            Err(e) => Err(e),
            Ok(before) => match answer_for(answers, inputs.last()) {
                None => Err(ErrorModel::IssueNotFound { id: inputs.last() }),
                Some(issue) => Ok(before.push(issue)),
            },
        }
    }
}

proof fn lemma_answer_fails(inputs: Seq<Seq<char>>, answers: Seq<(String, Issue)>, n: int)
    requires
        0 <= n <= inputs.len(),
        answered(inputs.take(n), answers) is Err,
    ensures
        answered(inputs, answers) == answered(inputs.take(n), answers),
    decreases inputs.len() - n,
{
    if n == inputs.len() {
        assert(inputs.take(n) =~= inputs);
    } else {
        assert(inputs.take(n + 1).drop_last() =~= inputs.take(n));
        lemma_answer_fails(inputs, answers, n + 1);
    }
}

fn find_answer<'a>(answers: &'a Vec<(String, Issue)>, input: &str) -> (r: Option<&'a Issue>)
    ensures
        match answer_for(answers@, input@) {
            Some(m) => r is Some && r->0@ == m,
            None => r is None,
        },
{
    let mut n: usize = answers.len();
    assert(answers@.take(n as int) =~= answers@);
    while n > 0
        invariant
            n <= answers@.len(),
            answer_for(answers@, input@) == answer_for(answers@.take(n as int), input@),
        decreases n,
    {
        assert(answers@.take(n as int).drop_last() =~= answers@.take(n - 1));
        if same_text(answers[n - 1].0.as_str(), input) {
            return Some(&answers[n - 1].1);
        }
        n -= 1;
    }
    None
}

/// The issues that were asked for, from what the workspaces answered.
pub fn resolve_issues(inputs: &Vec<String>, answers: &Vec<(String, Issue)>) -> (r: Result<
    Vec<Issue>,
    BeadsError,
>)
    ensures
        issues_or_error(r) == answered(texts(inputs@), answers@),
{
    let ghost wanted = texts(inputs@);
    let mut out: Vec<Issue> = Vec::new();
    let mut i: usize = 0;
    assert(views(out@) =~= Seq::<IssueModel>::empty());
    while i < inputs.len()
        invariant
            i <= inputs@.len(),
            wanted == texts(inputs@),
            answered(wanted.take(i as int), answers@) == Ok::<Seq<IssueModel>, ErrorModel>(
                views(out@),
            ),
        decreases inputs@.len() - i,
    {
        assert(wanted.take(i + 1).drop_last() =~= wanted.take(i as int));
        assert(wanted.take(i + 1).last() == inputs@[i as int]@);
        match find_answer(answers, inputs[i].as_str()) {
            None => {
                proof {
                    lemma_answer_fails(wanted, answers@, i + 1);
                }
                return Err(BeadsError::IssueNotFound { id: inputs[i].clone() });
            },
            Some(issue) => {
                let ghost before = views(out@);
                let copied = issue.copy();
                let ghost shown = copied@;
                out.push(copied);
                assert(views(out@) =~= before.push(shown));
            },
        }
        i += 1;
    }
    assert(wanted.take(wanted.len() as int) =~= wanted);
    Ok(out)
}

/// Which issues the command looks at.
#[derive(Debug)]
pub enum LintPlan {
    /// Those that the filters let through.
    Scan { filters: ListFilters },
    /// Those that were asked for, wherever they are.
    Resolve,
}

/// What a [`LintPlan`] says.
pub enum LintPlanModel {
    Scan { filters: FiltersModel },
    Resolve,
}

impl View for LintPlan {
    type V = LintPlanModel;

    open spec fn view(&self) -> LintPlanModel {
        match self {
            LintPlan::Scan { filters } => LintPlanModel::Scan { filters: filters@ },
            LintPlan::Resolve => LintPlanModel::Resolve,
        }
    }
}

/// Decides which issues the command looks at.
pub fn execute(
    ids: &Vec<String>,
    type_: Option<AskedType>,
    status: &Option<String>,
    parsed: Result<Status, BeadsError>,
) -> (r: Result<LintPlan, BeadsError>)
    ensures
        ({
            let filters = filters_for(
                asked_type(type_),
                opt_text(*status),
                status_or_error(parsed),
            );
            match r {
                Ok(plan) => if ids@.len() > 0 {
                    plan@ == LintPlanModel::Resolve
                } else {
                    filters is Ok && plan@ == (LintPlanModel::Scan { filters: filters->Ok_0 })
                },
                Err(e) => ids@.len() == 0 && filters == Err::<FiltersModel, ErrorModel>(e.model()),
            }
        }),
{
    if ids.len() > 0 {
        return Ok(LintPlan::Resolve);
    }
    match build_filters(type_, status, parsed) {
        Ok(filters) => Ok(LintPlan::Scan { filters }),
        Err(e) => Err(e),
    }
}

/// Serves a scan from storage that the caller has opened; issues that were asked for get
/// nothing here.
pub fn execute_with_storage_ctx(
    ids: &Vec<String>,
    type_: Option<AskedType>,
    status: &Option<String>,
    parsed: Result<Status, BeadsError>,
) -> (r: Result<Option<ListFilters>, BeadsError>)
    ensures
        ({
            let filters = filters_for(
                asked_type(type_),
                opt_text(*status),
                status_or_error(parsed),
            );
            match r {
                Ok(None) => ids@.len() > 0,
                Ok(Some(found)) => ids@.len() == 0 && filters == Ok::<FiltersModel, ErrorModel>(
                    found@,
                ),
                Err(e) => ids@.len() == 0 && filters == Err::<FiltersModel, ErrorModel>(e.model()),
            }
        }),
{
    if ids.len() > 0 {
        return Ok(None);
    }
    match build_filters(type_, status, parsed) {
        Ok(filters) => Ok(Some(filters)),
        Err(e) => Err(e),
    }
}

/// The suggestions for an issue, as plain lines.
pub open spec fn suggestion_lines(suggestions: Seq<SectionModel>) -> Seq<char>
    decreases suggestions.len(),
{
    if suggestions.len() == 0 {
        ""@
    } else {
        suggestion_lines(suggestions.drop_last()) + ("  ⚠ Missing: "@ + suggestions.last().heading
            + " - "@ + suggestions.last().hint + "\n"@)
    }
}

/// An issue and its suggestions, as plain lines.
pub open spec fn result_lines(result: ResultModel) -> Seq<char> {
    result.id + " ["@ + result.issue_type + "]: "@ + one_line(result.title) + "\n"@
        + suggestion_lines(result.suggestions) + "\n"@
}

/// The issues and their suggestions, as plain lines.
pub open spec fn all_lines(results: Seq<ResultModel>) -> Seq<char>
    decreases results.len(),
{
    if results.len() == 0 {
        ""@
    } else {
        all_lines(results.drop_last()) + result_lines(results.last())
    }
}

/// What plain output says.
pub open spec fn plain_lines(checked: usize, warnings: usize, results: Seq<ResultModel>) -> Seq<
    char,
> {
    if results.len() == 0 {
        "✓ No template warnings found ("@ + decimal(checked as nat) + " issues checked)\n"@
    } else {
        "Template warnings ("@ + decimal(results.len()) + " issues, "@ + decimal(warnings as nat)
            + " warnings):\n\n"@ + all_lines(results)
    }
}

fn suggestion_lines_text(suggestions: &Vec<LintSuggestion>) -> (r: String)
    ensures
        r@ == suggestion_lines(views(suggestions@)),
{
    let ghost all = views(suggestions@);
    let mut out: String = "".to_owned();
    let mut i: usize = 0;
    while i < suggestions.len()
        invariant
            i <= suggestions@.len(),
            all == views(suggestions@),
            out@ == suggestion_lines(all.take(i as int)),
        decreases suggestions@.len() - i,
    {
        assert(all.take(i + 1).drop_last() =~= all.take(i as int));
        assert(all.take(i + 1).last() == suggestions@[i as int]@);
        let line = text5(
            "  ⚠ Missing: ",
            suggestions[i].section.as_str(),
            " - ",
            suggestions[i].hint.as_str(),
            "\n",
        );
        out.append(line.as_str());
        i += 1;
    }
    assert(all.take(all.len() as int) =~= all);
    out
}

/// The summary as plain text.
pub fn render_lint_plain(summary: &LintSummary) -> (r: String)
    ensures
        r@ == plain_lines(summary.checked, summary.warnings, views(summary.results@)),
{
    let ghost all = views(summary.results@);
    let total: usize = summary.results.len();
    if total == 0 {
        let checked = decimal_text(summary.checked as u64);
        return text3("✓ No template warnings found (", checked.as_str(), " issues checked)\n");
    }
    let count = decimal_text(total as u64);
    let warnings = decimal_text(summary.warnings as u64);
    let mut out = text5(
        "Template warnings (",
        count.as_str(),
        " issues, ",
        warnings.as_str(),
        " warnings):\n\n",
    );
    let ghost head = out@;
    let mut i: usize = 0;
    proof {
        reveal_strlit("");
        assert(head + all_lines(all.take(0)) =~= head);
    }
    while i < total
        invariant
            i <= total,
            total == summary.results@.len(),
            all == views(summary.results@),
            out@ == head + all_lines(all.take(i as int)),
        decreases total - i,
    {
        assert(all.take(i + 1).drop_last() =~= all.take(i as int));
        assert(all.take(i + 1).last() == summary.results@[i as int]@);
        let result = &summary.results[i];
        let title = sanitize_terminal_inline(result.title.as_str());
        let mut lines = text5(
            result.id.as_str(),
            " [",
            result.issue_type.as_str(),
            "]: ",
            title.as_str(),
        );
        lines.append("\n");
        let suggestions = suggestion_lines_text(&result.suggestions);
        lines.append(suggestions.as_str());
        lines.append("\n");
        out.append(lines.as_str());
        i += 1;
        assert(out@ =~= head + all_lines(all.take(i as int)));
    }
    assert(all.take(all.len() as int) =~= all);
    out
}

/// The role of the name of an issue type.
pub open spec fn type_role(issue_type: Seq<char>) -> Role {
    if issue_type == "task"@ {
        Role::TypeTask
    } else if issue_type == "bug"@ {
        Role::TypeBug
    } else if issue_type == "feature"@ {
        Role::TypeFeature
    } else if issue_type == "epic"@ {
        Role::TypeEpic
    } else if issue_type == "chore"@ {
        Role::TypeChore
    } else if issue_type == "docs"@ {
        Role::TypeDocs
    } else if issue_type == "question"@ {
        Role::TypeQuestion
    } else {
        Role::Dimmed
    }
}

pub fn issue_type_style(issue_type: &str) -> (r: Role)
    ensures
        r == type_role(issue_type@),
{
    if same_text(issue_type, "task") {
        Role::TypeTask
    } else if same_text(issue_type, "bug") {
        Role::TypeBug
    } else if same_text(issue_type, "feature") {
        Role::TypeFeature
    } else if same_text(issue_type, "epic") {
        Role::TypeEpic
    } else if same_text(issue_type, "chore") {
        Role::TypeChore
    } else if same_text(issue_type, "docs") {
        Role::TypeDocs
    } else if same_text(issue_type, "question") {
        Role::TypeQuestion
    } else {
        Role::Dimmed
    }
}

/// The suggestions for an issue in the panel.
pub open spec fn suggestion_entries(suggestions: Seq<SectionModel>) -> Seq<SpanModel>
    decreases suggestions.len(),
{
    if suggestions.len() == 0 {
        Seq::empty()
    } else {
        suggestion_entries(suggestions.drop_last()) + seq![
            styled("    missing: "@, Role::Dimmed),
            styled(suggestions.last().heading, Role::Warning),
            styled(" - "@, Role::Dimmed),
            styled(suggestions.last().hint, Role::Dimmed),
            unstyled("\n"@),
        ]
    }
}

/// An issue and its suggestions in the panel.
pub open spec fn result_entry(result: ResultModel) -> Seq<SpanModel> {
    seq![
        styled("- "@, Role::Warning),
        styled(result.id, Role::IssueId),
        unstyled(" "@),
        styled("["@ + one_line(result.issue_type) + "] "@, type_role(result.issue_type)),
        styled(one_line(result.title), Role::IssueTitle),
        unstyled("\n"@),
    ] + suggestion_entries(result.suggestions)
}

/// The issues of one type in the panel, in order.
pub open spec fn type_entries(results: Seq<ResultModel>, issue_type: Seq<char>) -> Seq<SpanModel>
    decreases results.len(),
{
    if results.len() == 0 {
        Seq::empty()
    } else if results.last().issue_type == issue_type {
        type_entries(results.drop_last(), issue_type) + result_entry(results.last())
    } else {
        type_entries(results.drop_last(), issue_type)
    }
}

/// How many of the issues are of a type.
pub open spec fn type_count(results: Seq<ResultModel>, issue_type: Seq<char>) -> nat
    decreases results.len(),
{
    if results.len() == 0 {
        0
    } else if results.last().issue_type == issue_type {
        type_count(results.drop_last(), issue_type) + 1
    } else {
        type_count(results.drop_last(), issue_type)
    }
}

/// The types in the panel, each with its issues.
pub open spec fn grouped_entries(results: Seq<ResultModel>, types: Seq<Seq<char>>) -> Seq<SpanModel>
    decreases types.len(),
{
    if types.len() == 0 {
        Seq::empty()
    } else {
        let name = types.last();
        grouped_entries(results, types.drop_last()) + (seq![
            styled(
                one_line(name) + " ("@ + decimal(type_count(results, name)) + ")\n"@,
                Role::Section,
            ),
        ] + type_entries(results, name) + seq![unstyled("\n"@)])
    }
}

/// The order of texts, as a value.
pub open spec fn text_order() -> spec_fn(Seq<char>, Seq<char>) -> bool {
    |a: Seq<char>, b: Seq<char>| text_le(a, b)
}

/// The types of the issues, each once, sorted by name.
pub open spec fn types_of(results: Seq<ResultModel>) -> Seq<Seq<char>> {
    stable_sort(distinct(results.map_values(|r: ResultModel| r.issue_type)), text_order())
}

fn push_result_entry(out: &mut Vec<Span>, result: &LintResult)
    ensures
        views(final(out)@) == views(old(out)@) + result_entry(result@),
{
    let ghost before = views(out@);
    let ghost all = views(result.suggestions@);
    let shown_type = sanitize_terminal_inline(result.issue_type.as_str());
    let title = sanitize_terminal_inline(result.title.as_str());
    let label = text3("[", shown_type.as_str(), "] ");
    push_styled(out, "- ", Role::Warning);
    push_styled(out, result.id.as_str(), Role::IssueId);
    push_unstyled(out, " ");
    push_styled(out, label.as_str(), issue_type_style(result.issue_type.as_str()));
    push_styled(out, title.as_str(), Role::IssueTitle);
    push_unstyled(out, "\n");
    let ghost head = views(out@);
    let mut i: usize = 0;
    assert(head + suggestion_entries(all.take(0)) =~= head);
    while i < result.suggestions.len()
        invariant
            i <= result.suggestions@.len(),
            all == views(result.suggestions@),
            views(out@) == head + suggestion_entries(all.take(i as int)),
        decreases result.suggestions@.len() - i,
    {
        assert(all.take(i + 1).drop_last() =~= all.take(i as int));
        assert(all.take(i + 1).last() == result.suggestions@[i as int]@);
        push_styled(out, "    missing: ", Role::Dimmed);
        push_styled(out, result.suggestions[i].section.as_str(), Role::Warning);
        push_styled(out, " - ", Role::Dimmed);
        push_styled(out, result.suggestions[i].hint.as_str(), Role::Dimmed);
        push_unstyled(out, "\n");
        i += 1;
        assert(views(out@) =~= head + suggestion_entries(all.take(i as int)));
    }
    assert(all.take(all.len() as int) =~= all);
    assert(views(out@) =~= before + result_entry(result@));
}

fn count_type(results: &Vec<LintResult>, issue_type: &str) -> (r: usize)
    ensures
        r == type_count(views(results@), issue_type@),
{
    let ghost all = views(results@);
    let mut count: usize = 0;
    let mut i: usize = 0;
    while i < results.len()
        invariant
            i <= results@.len(),
            count <= i,
            all == views(results@),
            count == type_count(all.take(i as int), issue_type@),
        decreases results@.len() - i,
    {
        assert(all.take(i + 1).drop_last() =~= all.take(i as int));
        assert(all.take(i + 1).last() == results@[i as int]@);
        if same_text(results[i].issue_type.as_str(), issue_type) {
            count += 1;
        }
        i += 1;
    }
    assert(all.take(all.len() as int) =~= all);
    count
}

fn push_type_entries(out: &mut Vec<Span>, results: &Vec<LintResult>, issue_type: &str)
    ensures
        views(final(out)@) == views(old(out)@) + type_entries(views(results@), issue_type@),
{
    let ghost before = views(out@);
    let ghost all = views(results@);
    let mut i: usize = 0;
    assert(before + type_entries(all.take(0), issue_type@) =~= before);
    while i < results.len()
        invariant
            i <= results@.len(),
            all == views(results@),
            views(out@) == before + type_entries(all.take(i as int), issue_type@),
        decreases results@.len() - i,
    {
        assert(all.take(i + 1).drop_last() =~= all.take(i as int));
        assert(all.take(i + 1).last() == results@[i as int]@);
        if same_text(results[i].issue_type.as_str(), issue_type) {
            push_result_entry(out, &results[i]);
            assert(views(out@) =~= before + type_entries(all.take(i + 1), issue_type@));
        }
        i += 1;
    }
    assert(all.take(all.len() as int) =~= all);
}

fn sorted_types(results: &Vec<LintResult>) -> (r: Vec<String>)
    ensures
        texts(r@) == types_of(views(results@)),
{
    let ghost wanted = views(results@).map_values(|r: ResultModel| r.issue_type);
    let mut names: Vec<String> = Vec::new();
    let mut i: usize = 0;
    while i < results.len()
        invariant
            i <= results@.len(),
            wanted == views(results@).map_values(|r: ResultModel| r.issue_type),
            texts(names@) == wanted.take(i as int),
        decreases results@.len() - i,
    {
        let ghost before = texts(names@);
        assert(views(results@)[i as int] == results@[i as int]@);
        names.push(results[i].issue_type.clone());
        i += 1;
        assert(texts(names@) =~= before.push(wanted[i - 1]));
        assert(texts(names@) =~= wanted.take(i as int));
    }
    assert(texts(names@) =~= wanted);
    let unique = distinct_texts(&names);
    let ghost given = texts(unique@);
    assert(views(unique@) =~= given);
    let out = sorted(unique);
    assert((|a: Seq<char>, b: Seq<char>| <String as crate::sorting::Ranked>::ranks_le(a, b))
        =~= text_order());
    assert(views(out@) =~= texts(out@));
    out
}

/// The first lines of the panel.
pub open spec fn summary_head(checked: usize, warnings: usize) -> Seq<SpanModel> {
    seq![
        styled("Template Lint\n"@, Role::Emphasis),
        unstyled("\n"@),
        styled("Checked: "@, Role::Dimmed),
        styled(decimal(checked as nat), Role::Emphasis),
        styled("    Warnings: "@, Role::Dimmed),
        if warnings == 0 {
            styled("0"@, Role::Success)
        } else {
            styled(decimal(warnings as nat), Role::Warning)
        },
        unstyled("\n\n"@),
    ]
}

/// What the panel shows.
pub open spec fn lint_entries(checked: usize, warnings: usize, results: Seq<ResultModel>) -> Seq<
    SpanModel,
> {
    summary_head(checked, warnings) + if results.len() == 0 {
        seq![
            styled(
                "✓ No template warnings found ("@ + decimal(checked as nat) + " issues checked)"@,
                Role::Success,
            ),
        ]
    } else {
        grouped_entries(results, types_of(results)) + seq![
            styled(
                "Tip: Add the missing sections to issue descriptions to clear warnings.\n"@,
                Role::Dimmed,
            ),
        ]
    }
}

/// What the panel shows.
pub fn render_lint_rich(summary: &LintSummary) -> (r: Vec<Span>)
    ensures
        views(r@) == lint_entries(summary.checked, summary.warnings, views(summary.results@)),
{
    let ghost results = views(summary.results@);
    let checked = decimal_text(summary.checked as u64);
    let mut out: Vec<Span> = Vec::new();
    push_styled(&mut out, "Template Lint\n", Role::Emphasis);
    push_unstyled(&mut out, "\n");
    push_styled(&mut out, "Checked: ", Role::Dimmed);
    push_styled(&mut out, checked.as_str(), Role::Emphasis);
    push_styled(&mut out, "    Warnings: ", Role::Dimmed);
    if summary.warnings == 0 {
        push_styled(&mut out, "0", Role::Success);
    } else {
        let warnings = decimal_text(summary.warnings as u64);
        push_styled(&mut out, warnings.as_str(), Role::Warning);
    }
    push_unstyled(&mut out, "\n\n");
    let ghost head = summary_head(summary.checked, summary.warnings);
    assert(views(out@) =~= head);
    if summary.results.len() == 0 {
        let line = text3("✓ No template warnings found (", checked.as_str(), " issues checked)");
        push_styled(&mut out, line.as_str(), Role::Success);
        assert(views(out@) =~= lint_entries(summary.checked, summary.warnings, results));
        return out;
    }
    let types = sorted_types(&summary.results);
    let ghost names = texts(types@);
    let mut i: usize = 0;
    assert(head + grouped_entries(results, names.take(0)) =~= head);
    while i < types.len()
        invariant
            i <= types@.len(),
            names == texts(types@),
            results == views(summary.results@),
            views(out@) == head + grouped_entries(results, names.take(i as int)),
        decreases types@.len() - i,
    {
        assert(names.take(i + 1).drop_last() =~= names.take(i as int));
        assert(names.take(i + 1).last() == types@[i as int]@);
        let count = count_type(&summary.results, types[i].as_str());
        let shown = sanitize_terminal_inline(types[i].as_str());
        let number = decimal_text(count as u64);
        let mut heading = text3(shown.as_str(), " (", number.as_str());
        heading.append(")\n");
        push_styled(&mut out, heading.as_str(), Role::Section);
        push_type_entries(&mut out, &summary.results, types[i].as_str());
        push_unstyled(&mut out, "\n");
        i += 1;
        assert(views(out@) =~= head + grouped_entries(results, names.take(i as int)));
    }
    assert(names.take(names.len() as int) =~= names);
    push_styled(
        &mut out,
        "Tip: Add the missing sections to issue descriptions to clear warnings.\n",
        Role::Dimmed,
    );
    assert(views(out@) =~= lint_entries(summary.checked, summary.warnings, results));
    out
}

/// What the command shows, and what it ends the process with.
pub fn render_lint_output(summary: &LintSummary, mode: OutputMode) -> (r: (Shown, Option<i32>))
    ensures
        r.0@ == shown_in(
            mode,
            "Lint Results"@,
            lint_entries(summary.checked, summary.warnings, views(summary.results@)),
            one_piece(plain_lines(summary.checked, summary.warnings, views(summary.results@))),
        ),
        r.1 == exit_status(mode, summary.warnings, summary.results@.len()),
{
    let panel = render_lint_rich(summary);
    let lines = render_lint_plain(summary);
    (shown(mode, "Lint Results", panel, one_span(lines.as_str())), summary.exit_after(mode))
}

} // verus!
