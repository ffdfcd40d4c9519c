//! The `orphans` command: issues that are open or in progress though commits refer to them.

use crate::error::{validation, BeadsError, ErrorModel};
use crate::filters::{no_filters, FiltersModel, ListFilters};
use crate::model::{status_name, Issue, IssueModel, Status, StatusModel};
use crate::numbers::{decimal, decimal_text};
use crate::sanitize::{one_line, sanitize_terminal_inline};
use crate::show::OutputMode;
use crate::show_jsonl::ids_differ;
use crate::shown::{one_piece, one_span, Shown, ShownModel};
use crate::sorting::{
    codes, law_lex_connected, law_lex_transitive, law_sort_is_permutation, law_sort_is_sorted,
    sorted, stable_sort, text_le, text_may_precede, views, Ranked,
};
use crate::text::{
    any_text, ascii, ascii_alphanumeric, ascii_lower, ascii_lowercase, byte_len, deduped, distinct,
    expand, first_index, given_texts, join, joined, lemma_first_index, lines, lines_of, lowercased,
    opt_text, opt_texts, same_text, split_at_first, split_once, text2, text3, text5, texts,
    texts_given, trim, trimmed, unicode_lowercase,
};
use crate::workspace::CliOverrides;
use regex::Regex;
use vstd::prelude::*;
use vstd::relations::{strongly_connected, transitive};
use vstd::string::*;

verus! {

broadcast use vstd::string::group_string_axioms;

/// An issue that is still open though a commit refers to it.
#[derive(Debug)]
pub struct OrphanIssue {
    pub issue_id: String,
    pub title: String,
    pub status: String,
    pub latest_commit: String,
    pub latest_commit_message: String,
}

/// What an [`OrphanIssue`] says.
#[verifier::ext_equal]
pub struct OrphanModel {
    pub issue_id: Seq<char>,
    pub title: Seq<char>,
    pub status: Seq<char>,
    pub latest_commit: Seq<char>,
    pub latest_commit_message: Seq<char>,
}

impl View for OrphanIssue {
    type V = OrphanModel;

    open spec fn view(&self) -> OrphanModel {
        OrphanModel {
            issue_id: self.issue_id@,
            title: self.title@,
            status: self.status@,
            latest_commit: self.latest_commit@,
            latest_commit_message: self.latest_commit_message@,
        }
    }
}

/// How the orphans are shown.
#[derive(Debug, Clone, Copy, PartialEq, Eq, Structural)]
pub enum OrphanRenderMode {
    Quiet,
    Json,
    Toon,
    Rich,
    Plain,
}

/// The request for JSON goes before the mode of the output.
pub open spec fn render_mode(json: bool, mode: OutputMode) -> OrphanRenderMode {
    if json {
        OrphanRenderMode::Json
    } else {
        match mode {
            OutputMode::Json => OrphanRenderMode::Json,
            OutputMode::Quiet => OrphanRenderMode::Quiet,
            OutputMode::Toon => OrphanRenderMode::Toon,
            OutputMode::Rich => OrphanRenderMode::Rich,
            OutputMode::Plain => OrphanRenderMode::Plain,
        }
    }
}

pub fn resolve_render_mode(json: bool, output_mode: OutputMode) -> (r: OrphanRenderMode)
    ensures
        r == render_mode(json, output_mode),
{
    if json {
        return OrphanRenderMode::Json;
    }
    match output_mode {
        OutputMode::Json => OrphanRenderMode::Json,
        OutputMode::Quiet => OrphanRenderMode::Quiet,
        OutputMode::Toon => OrphanRenderMode::Toon,
        OutputMode::Rich => OrphanRenderMode::Rich,
        OutputMode::Plain => OrphanRenderMode::Plain,
    }
}

pub fn orphan_display_text(value: &str) -> (r: String)
    ensures
        r@ == one_line(value@),
{
    sanitize_terminal_inline(value)
}

/// Closing orphans one by one asks questions, so a human must read the output.
pub open spec fn fix_check(fix: bool, mode: OrphanRenderMode) -> Result<(), ErrorModel> {
    if fix && mode != OrphanRenderMode::Rich && mode != OrphanRenderMode::Plain {
        Err(
            ErrorModel::Validation {
                field: "fix"@,
                reason:
                    "--fix is interactive and requires human text output; omit --json/--robot/TOON/--quiet"@,
            },
        )
    } else {
        Ok(())
    }
}

pub fn validate_fix_render_mode(fix: bool, mode: OrphanRenderMode) -> (r: Result<(), BeadsError>)
    ensures
        crate::error::checked(r) == fix_check(fix, mode),
{
    if fix && mode != OrphanRenderMode::Rich && mode != OrphanRenderMode::Plain {
        return Err(
            validation(
                "fix",
                "--fix is interactive and requires human text output; omit --json/--robot/TOON/--quiet",
            ),
        );
    }
    Ok(())
}

/// What the scan does next.
#[derive(Debug, Clone, Copy, PartialEq, Eq, Structural)]
pub enum ScanStep {
    /// List the open issues and those in progress.
    ListCandidates,
    /// Find the repository of the workspace.
    FindRepository,
    /// Read the log of the repository for references.
    ReadLog,
    /// Match the references with the issues.
    Match,
    /// Show the orphans.
    Report,
    /// Show that there are none.
    ReportNone,
}

/// The step after `step`, by whether it found anything: without candidates no log is read,
/// and whatever finds nothing leaves nothing to report.
pub open spec fn scan_step_after(step: ScanStep, found: bool) -> ScanStep {
    if !found {
        ScanStep::ReportNone
    } else {
        match step {
            ScanStep::ListCandidates => ScanStep::FindRepository,
            ScanStep::FindRepository => ScanStep::ReadLog,
            ScanStep::ReadLog => ScanStep::Match,
            ScanStep::Match => ScanStep::Report,
            other => other,
        }
    }
}

pub fn next_scan_step(step: ScanStep, found: bool) -> (r: ScanStep)
    ensures
        r == scan_step_after(step, found),
{
    if !found {
        return ScanStep::ReportNone;
    }
    match step {
        ScanStep::ListCandidates => ScanStep::FindRepository,
        ScanStep::FindRepository => ScanStep::ReadLog,
        ScanStep::ReadLog => ScanStep::Match,
        ScanStep::Match => ScanStep::Report,
        other => other,
    }
}

/// Starts the command. Without a workspace there are no orphans.
pub fn execute(
    fix: bool,
    json: bool,
    output_mode: OutputMode,
    workspace_found: bool,
) -> (r: Result<(OrphanRenderMode, ScanStep), BeadsError>)
    ensures
        match r {
            Ok((mode, step)) => fix_check(fix, render_mode(json, output_mode)) is Ok && mode
                == render_mode(json, output_mode) && step == if workspace_found {
                ScanStep::ListCandidates
            } else {
                ScanStep::ReportNone
            },
            Err(e) => fix_check(fix, render_mode(json, output_mode)) == Err::<(), ErrorModel>(
                e.model(),
            ),
        },
{
    let mode = resolve_render_mode(json, output_mode);
    match validate_fix_render_mode(fix, mode) {
        Err(e) => Err(e),
        Ok(()) => {
            if workspace_found {
                Ok((mode, ScanStep::ListCandidates))
            } else {
                Ok((mode, ScanStep::ReportNone))
            }
        },
    }
}

/// Starts the command in a workspace that the caller has opened.
pub fn execute_with_storage_ctx(fix: bool, json: bool, output_mode: OutputMode) -> (r: Result<
    (OrphanRenderMode, ScanStep),
    BeadsError,
>)
    ensures
        match r {
            Ok((mode, step)) => fix_check(fix, render_mode(json, output_mode)) is Ok && mode
                == render_mode(json, output_mode) && step == ScanStep::ListCandidates,
            Err(e) => fix_check(fix, render_mode(json, output_mode)) == Err::<(), ErrorModel>(
                e.model(),
            ),
        },
{
    execute(fix, json, output_mode, true)
}

/// A prefix that is searched for.
#[derive(Debug)]
struct ScanPrefix {
    text: String,
}

impl View for ScanPrefix {
    type V = Seq<char>;

    closed spec fn view(&self) -> Seq<char> {
        self.text@
    }
}

/// The order of the prefixes: the longest first, so that none hides a longer one.
pub open spec fn prefix_le(a: Seq<char>, b: Seq<char>) -> bool {
    byte_len(a) > byte_len(b) || (byte_len(a) == byte_len(b) && text_le(a, b))
}

/// [`prefix_le`] as a value.
pub open spec fn prefix_order() -> spec_fn(Seq<char>, Seq<char>) -> bool {
    |a: Seq<char>, b: Seq<char>| prefix_le(a, b)
}

impl Ranked for ScanPrefix {
    open spec fn ranks_le(a: Seq<char>, b: Seq<char>) -> bool {
        prefix_le(a, b)
    }

    fn may_precede(&self, other: &Self) -> (r: bool) {
        let mine: usize = self.text.as_str().len();
        let theirs: usize = other.text.as_str().len();
        mine > theirs || (mine == theirs && text_may_precede(
            self.text.as_str(),
            other.text.as_str(),
        ))
    }
}

fn sort_prefixes(prefixes: &Vec<String>) -> (r: Vec<String>)
    ensures
        texts(r@) == stable_sort(texts(prefixes@), prefix_order()),
{
    let mut held: Vec<ScanPrefix> = Vec::new();
    let mut i: usize = 0;
    while i < prefixes.len()
        invariant
            i <= prefixes@.len(),
            views(held@) == texts(prefixes@).take(i as int),
        decreases prefixes@.len() - i,
    {
        let ghost before = views(held@);
        held.push(ScanPrefix { text: prefixes[i].clone() });
        i += 1;
        assert(views(held@) =~= before.push(prefixes@[i - 1]@));
        assert(views(held@) =~= texts(prefixes@).take(i as int));
    }
    assert(views(held@) =~= texts(prefixes@));
    let in_order = sorted(held);
    let ghost sequence = in_order@;
    let ghost order = stable_sort(texts(prefixes@), prefix_order());
    assert((|a: Seq<char>, b: Seq<char>| <ScanPrefix as Ranked>::ranks_le(a, b))
        =~= prefix_order());
    let mut out: Vec<String> = Vec::new();
    for prefix in it: in_order
        invariant
            it.seq() == sequence,
            views(sequence) == order,
            texts(out@) == order.take(it.index() as int),
    {
        let ghost before = texts(out@);
        assert(order[it.index() as int] == prefix@);
        let ghost shown = prefix@;
        out.push(prefix.text);
        assert(texts(out@) =~= before.push(shown));
        assert(texts(out@) =~= order.take(it.index() + 1));
    }
    assert(texts(out@) =~= order);
    out
}

/// The prefixes of the issues that have one.
pub open spec fn found_prefixes(prefixes: Seq<Option<String>>) -> Seq<Seq<char>>
    decreases prefixes.len(),
{
    if prefixes.len() == 0 {
        Seq::empty()
    } else {
        let before = found_prefixes(prefixes.drop_last());
        match prefixes.last() {
            Some(p) => before.push(p@),
            None => before,
        }
    }
}

/// The prefixes that the log is searched for: the default one and those of the issues.
pub fn issue_prefixes_for_orphan_scan(issue_prefixes: &Vec<Option<String>>, default_prefix: &str) -> (r:
    Vec<String>)
    ensures
        texts(r@) == stable_sort(
            distinct(seq![default_prefix@] + found_prefixes(issue_prefixes@)),
            prefix_order(),
        ),
{
    let mut out: Vec<String> = Vec::new();
    out.push(default_prefix.to_owned());
    let ghost head = seq![default_prefix@];
    proof {
        assert(head + found_prefixes(issue_prefixes@.take(0)) =~= head);
        assert(head.drop_last() =~= Seq::<Seq<char>>::empty());
        assert(distinct(head.drop_last()) =~= Seq::<Seq<char>>::empty());
        assert(distinct(head) =~= head);
        assert(texts(out@) =~= head);
    }
    let mut i: usize = 0;
    while i < issue_prefixes.len()
        invariant
            i <= issue_prefixes@.len(),
            head == seq![default_prefix@],
            texts(out@) == distinct(head + found_prefixes(issue_prefixes@.take(i as int))),
        decreases issue_prefixes@.len() - i,
    {
        let ghost now = issue_prefixes@.take(i + 1);
        assert(now.drop_last() =~= issue_prefixes@.take(i as int));
        if let Some(prefix) = &issue_prefixes[i] {
            let ghost all = head + found_prefixes(now);
            assert(all.drop_last() =~= head + found_prefixes(now.drop_last()));
            assert(all.last() == prefix@);
            if !any_text(&out, prefix.as_str()) {
                let ghost before = texts(out@);
                out.push(prefix.clone());
                assert(texts(out@) =~= before.push(prefix@));
            }
        }
        i += 1;
    }
    assert(issue_prefixes@.take(issue_prefixes@.len() as int) =~= issue_prefixes@);
    sort_prefixes(&out)
}

proof fn lemma_prefix_order()
    ensures
        transitive(prefix_order()),
        strongly_connected(prefix_order()),
{
    let le = prefix_order();
    assert forall|a: Seq<char>, b: Seq<char>, c: Seq<char>| #[trigger]
        le(a, b) && #[trigger] le(b, c) implies le(a, c) by {
        if byte_len(a) == byte_len(b) && byte_len(b) == byte_len(c) {
            law_lex_transitive(codes(a), codes(b), codes(c));
        }
    }
    assert forall|a: Seq<char>, b: Seq<char>| #[trigger] le(a, b) || #[trigger] le(b, a) by {
        if byte_len(a) == byte_len(b) {
            law_lex_connected(codes(a), codes(b));
        }
    }
}

/// A longer prefix comes before a shorter one, whatever the order in which they were found.
pub proof fn law_longest_prefix_first(prefixes: Seq<Seq<char>>, i: int, j: int)
    requires
        0 <= i < j < stable_sort(prefixes, prefix_order()).len(),
    ensures
        byte_len(stable_sort(prefixes, prefix_order())[i]) >= byte_len(
            stable_sort(prefixes, prefix_order())[j],
        ),
{
    lemma_prefix_order();
    law_sort_is_sorted(prefixes, prefix_order());
    assert(prefix_order()(
        stable_sort(prefixes, prefix_order())[i],
        stable_sort(prefixes, prefix_order())[j],
    ));
}

/// The characters with a meaning of their own in a pattern.
pub open spec fn meta_character(c: char) -> bool {
    c == '\\' || c == '.' || c == '+' || c == '*' || c == '?' || c == '(' || c == ')' || c == '|'
        || c == '[' || c == ']' || c == '{' || c == '}' || c == '^' || c == '$' || c == '#' || c
        == '&' || c == '-' || c == '~'
}

/// A text with a backslash before each character that has a meaning of its own in a pattern.
pub open spec fn escaped(s: Seq<char>) -> Seq<char> {
    expand(
        s,
        |c: char|
            if meta_character(c) {
                seq!['\\', c]
            } else {
                seq![c]
            },
    )
}

/// `regex::escape`: puts a backslash before each of the characters that have a meaning of
/// their own in a pattern.
#[verifier::external_body]
fn escape(s: &str) -> (r: String)
    ensures
        r@ == escaped(s@),
{
    regex::escape(s)
}

/// Why a pattern is refused, where it is.
pub uninterp spec fn pattern_error(pattern: Seq<char>) -> Option<Seq<char>>;

/// What the first group of a pattern takes in each of its matches in a text, in order;
/// nothing where the group has no part in a match.
pub uninterp spec fn first_groups(pattern: Seq<char>, text: Seq<char>) -> Seq<Option<Seq<char>>>;

/// A prefix of letters, digits, `_`, `-` and `.` that begins with a letter or a digit.
pub open spec fn plain_prefix(p: Seq<char>) -> bool {
    p.len() > 0 && ascii_alphanumeric(p[0]) && forall|i: int|
        0 <= i < p.len() ==> ascii_alphanumeric(#[trigger] p[i]) || p[i] == '_' || p[i] == '-'
            || p[i] == '.'
}

/// An ASCII character that no id with a plain prefix holds.
pub open spec fn outside_ids(c: char) -> bool {
    c as int <= 0x7f && !ascii_alphanumeric(c) && c != '_' && c != '-' && c != '.'
}

/// The text from `start` to `end` is a word of its own: in front of it stands nothing, or what
/// no id holds, and so behind it, perhaps after a full stop.
pub open spec fn stands_alone(message: Seq<char>, start: int, end: int) -> bool {
    &&& 0 <= start <= end <= message.len()
    &&& start == 0 || outside_ids(message[start - 1])
    &&& end == message.len() || outside_ids(message[end]) || (message[end] == '.' && (end + 1
        == message.len() || outside_ids(message[end + 1])))
}

/// The text is an id with this prefix, in any case: behind the prefix and a `-` a hash of
/// letters and digits, and behind that perhaps the numbers of children, each of them a `.` and
/// any number of digits, one at least.
pub open spec fn names_issue(t: Seq<char>, prefix: Seq<char>) -> bool {
    let n = prefix.len() as int;
    let tail = t.skip(n + 1);
    let hash_len = first_index(tail, '.');
    &&& t.len() > n + 1
    &&& ascii_lowercase(t.take(n)) == ascii_lowercase(prefix)
    &&& t[n] == '-'
    &&& hash_len > 0
    &&& forall|i: int| 0 <= i < hash_len ==> ascii_alphanumeric(#[trigger] tail[i])
    &&& forall|i: int|
        hash_len <= i < tail.len() ==> '0' <= #[trigger] tail[i] <= '9' || (tail[i] == '.' && i + 1
            < tail.len() && '0' <= tail[i + 1] <= '9')
}

/// At this place of the message an issue is named, by an id with one of the prefixes that
/// stands alone.
pub open spec fn issue_named_at(
    prefixes: Seq<Seq<char>>,
    message: Seq<char>,
    start: int,
    end: int,
) -> bool {
    &&& forall|k: int|
        0 <= k < prefixes.len() && (#[trigger] prefixes[k]).len() > 0 ==> plain_prefix(prefixes[k])
    &&& stands_alone(message, start, end)
    &&& exists|k: int|
        0 <= k < prefixes.len() && (#[trigger] prefixes[k]).len() > 0 && names_issue(
            message.subrange(start, end),
            prefixes[k],
        )
}

/// No prefix is empty, and none is longer than one before it.
pub open spec fn longest_first(prefixes: Seq<Seq<char>>) -> bool {
    &&& forall|k: int| 0 <= k < prefixes.len() ==> (#[trigger] prefixes[k]).len() > 0
    &&& forall|j: int, k: int|
        0 <= j < k < prefixes.len() ==> byte_len(#[trigger] prefixes[j]) >= byte_len(
            #[trigger] prefixes[k],
        )
}

/// The text of a pattern for ids with these prefixes.
pub open spec fn reference_pattern(prefixes: Seq<Seq<char>>) -> Seq<char> {
    "(?i)"@ + "\\b("@ + "(?:"@ + join(prefixes.map_values(|p: Seq<char>| escaped(p)), "|"@) + ")"@
        + "-"@ + "[a-z0-9]+"@ + "(?:"@ + "\\."@ + "[0-9]+"@ + ")*"@ + ")\\b"@
}

proof fn lemma_pattern_text(prefixes: Seq<Seq<char>>)
    ensures
        id_pattern(prefixes) == reference_pattern(prefixes),
{
    reveal_strlit("(?i)\\b((?:");
    reveal_strlit(")-[a-z0-9]+(?:\\.[0-9]+)*)\\b");
    reveal_strlit("(?i)");
    reveal_strlit("\\b(");
    reveal_strlit("(?:");
    reveal_strlit(")");
    reveal_strlit("-");
    reveal_strlit("[a-z0-9]+");
    reveal_strlit("\\.");
    reveal_strlit("[0-9]+");
    reveal_strlit(")*");
    reveal_strlit(")\\b");
    assert("(?i)\\b((?:"@ =~= "(?i)"@ + "\\b("@ + "(?:"@);
    assert(")-[a-z0-9]+(?:\\.[0-9]+)*)\\b"@ =~= ")"@ + "-"@ + "[a-z0-9]+"@ + "(?:"@ + "\\."@
        + "[0-9]+"@ + ")*"@ + ")\\b"@);
    assert(id_pattern(prefixes) =~= reference_pattern(prefixes));
}

/// One of the groups is this text.
pub open spec fn group_is(groups: Seq<Option<Seq<char>>>, t: Seq<char>) -> bool {
    exists|k: int| 0 <= k < groups.len() && #[trigger] groups[k] == Some(t)
}

/// `regex::Regex::new` on the pattern, and `captures_iter` of the result on each of the
/// texts: both functions of the pattern and the text alone, named and not spelled out. Of each
/// match the text of the first group is given, where it has one. With the pattern for ids whose
/// prefixes are plain and stand with the longest first, an id that stands alone is found whole:
/// no match reaches over what stands around it, the first prefix that fits is the one that it
/// has, and the repetitions take all that they can.
#[verifier::external_body]
fn find_first_groups(pattern: &str, messages: &Vec<String>) -> (r: Result<
    Vec<Vec<Option<String>>>,
    String,
>)
    ensures
        match r {
            Ok(found) => pattern_error(pattern@) is None && found@.len() == messages@.len() && (
            forall|i: int|
                0 <= i < found@.len() ==> opt_texts((#[trigger] found@[i])@) == first_groups(
                    pattern@,
                    messages@[i]@,
                )),
            Err(e) => pattern_error(pattern@) == Some(e@),
        },
        r matches Ok(found) ==> forall|prefixes: Seq<Seq<char>>, i: int, start: int, end: int|
            pattern@ == reference_pattern(prefixes) && longest_first(prefixes) && 0 <= i
                < messages@.len() && #[trigger] issue_named_at(
                prefixes,
                messages@[i]@,
                start,
                end,
            ) ==> group_is(opt_texts(found@[i]@), messages@[i]@.subrange(start, end)),
{
    let re = Regex::new(pattern).map_err(|e| e.to_string())?;
    Ok(
        messages.iter().map(
            |m|
                re.captures_iter(m).map(
                    |c| c.get(1).map(|g| g.as_str().to_owned()),
                ).collect(),
        ).collect(),
    )
}

/// The prefixes that are not empty, the longest first, each once.
pub open spec fn searched_prefixes(prefixes: Seq<Seq<char>>) -> Seq<Seq<char>> {
    deduped(stable_sort(nonempty_texts(prefixes), prefix_order()))
}

/// The texts that are not empty.
pub open spec fn nonempty_texts(v: Seq<Seq<char>>) -> Seq<Seq<char>>
    decreases v.len(),
{
    if v.len() == 0 {
        Seq::empty()
    } else if v.last().len() > 0 {
        nonempty_texts(v.drop_last()).push(v.last())
    } else {
        nonempty_texts(v.drop_last())
    }
}

/// The pattern of an id with one of the prefixes: a hash behind it, and perhaps the numbers
/// of children, as a word of its own and in any case.
pub open spec fn id_pattern(prefixes: Seq<Seq<char>>) -> Seq<char> {
    "(?i)\\b((?:"@ + join(prefixes.map_values(|p: Seq<char>| escaped(p)), "|"@)
        + ")-[a-z0-9]+(?:\\.[0-9]+)*)\\b"@
}

fn search_prefixes(prefixes: &Vec<String>) -> (r: Vec<String>)
    ensures
        texts(r@) == searched_prefixes(texts(prefixes@)),
{
    let mut kept: Vec<String> = Vec::new();
    let ghost all = texts(prefixes@);
    let mut i: usize = 0;
    assert(texts(kept@) =~= nonempty_texts(all.take(0)));
    while i < prefixes.len()
        invariant
            i <= prefixes@.len(),
            all == texts(prefixes@),
            texts(kept@) == nonempty_texts(all.take(i as int)),
        decreases prefixes@.len() - i,
    {
        assert(all.take(i + 1).drop_last() =~= all.take(i as int));
        assert(all.take(i + 1).last() == prefixes@[i as int]@);
        if !prefixes[i].as_str().is_empty() {
            let ghost before = texts(kept@);
            kept.push(prefixes[i].clone());
            assert(texts(kept@) =~= before.push(prefixes@[i as int]@));
        }
        i += 1;
    }
    assert(all.take(all.len() as int) =~= all);
    let in_order = sort_prefixes(&kept);
    let ghost order = texts(in_order@);
    let mut out: Vec<String> = Vec::new();
    let mut k: usize = 0;
    assert(texts(out@) =~= deduped(order.take(0)));
    while k < in_order.len()
        invariant
            k <= in_order@.len(),
            order == texts(in_order@),
            texts(out@) == deduped(order.take(k as int)),
        decreases in_order@.len() - k,
    {
        assert(order.take(k + 1).drop_last() =~= order.take(k as int));
        assert(order.take(k + 1).last() == in_order@[k as int]@);
        let ghost before = texts(out@);
        let repeated = if out.len() > 0 {
            assert(before.last() == out@[out@.len() - 1]@);
            same_text(out[out.len() - 1].as_str(), in_order[k].as_str())
        } else {
            false
        };
        if !repeated {
            out.push(in_order[k].clone());
            assert(texts(out@) =~= before.push(in_order@[k as int]@));
        }
        k += 1;
    }
    assert(order.take(order.len() as int) =~= order);
    out
}

fn pattern_for(prefixes: &Vec<String>) -> (r: String)
    ensures
        r@ == id_pattern(texts(prefixes@)),
{
    let ghost wanted = texts(prefixes@).map_values(|p: Seq<char>| escaped(p));
    let mut parts: Vec<String> = Vec::new();
    let mut i: usize = 0;
    while i < prefixes.len()
        invariant
            i <= prefixes@.len(),
            wanted == texts(prefixes@).map_values(|p: Seq<char>| escaped(p)),
            texts(parts@) == wanted.take(i as int),
        decreases prefixes@.len() - i,
    {
        let ghost before = texts(parts@);
        let part = escape(prefixes[i].as_str());
        let ghost shown = part@;
        assert(texts(prefixes@)[i as int] == prefixes@[i as int]@);
        parts.push(part);
        i += 1;
        assert(texts(parts@) =~= before.push(shown));
        assert(texts(parts@) =~= wanted.take(i as int));
    }
    assert(texts(parts@) =~= wanted);
    let alternatives = joined(&parts, "|");
    text3("(?i)\\b((?:", alternatives.as_str(), ")-[a-z0-9]+(?:\\.[0-9]+)*)\\b")
}

/// A commit refers to an issue.
#[derive(Debug)]
pub struct CommitRef {
    pub commit: String,
    pub message: String,
    pub issue_id: String,
}

/// What a [`CommitRef`] says.
#[verifier::ext_equal]
pub struct RefModel {
    pub commit: Seq<char>,
    pub message: Seq<char>,
    pub issue_id: Seq<char>,
}

impl View for CommitRef {
    type V = RefModel;

    open spec fn view(&self) -> RefModel {
        RefModel { commit: self.commit@, message: self.message@, issue_id: self.issue_id@ }
    }
}

/// The commits of the log, each with its message. A line without a space is none.
pub open spec fn commits_in(log_lines: Seq<Seq<char>>) -> Seq<(Seq<char>, Seq<char>)>
    decreases log_lines.len(),
{
    if log_lines.len() == 0 {
        Seq::empty()
    } else {
        let before = commits_in(log_lines.drop_last());
        match split_once(log_lines.last(), ' ') {
            Some(commit) => before.push(commit),
            None => before,
        }
    }
}

/// The references that one commit makes.
pub open spec fn refs_of(
    commit: Seq<char>,
    message: Seq<char>,
    ids: Seq<Seq<char>>,
) -> Seq<RefModel> {
    ids.map_values(
        |id: Seq<char>| RefModel { commit, message, issue_id: id },
    )
}

/// The references that the commits make, in order. `found` holds the ids in each message.
pub open spec fn refs_in(
    commits: Seq<(Seq<char>, Seq<char>)>,
    found: Seq<Seq<Seq<char>>>,
) -> Seq<RefModel>
    decreases commits.len(),
{
    if commits.len() == 0 {
        Seq::empty()
    } else {
        refs_in(commits.drop_last(), found.drop_last()) + refs_of(
            commits.last().0,
            commits.last().1,
            found.last(),
        )
    }
}

/// The ids in lower case.
pub open spec fn lower_ids(ids: Seq<Seq<char>>) -> Seq<Seq<char>> {
    ids.map_values(|id: Seq<char>| unicode_lowercase(id))
}

/// The ids that each message holds for the pattern, in lower case.
pub open spec fn found_in(commits: Seq<(Seq<char>, Seq<char>)>, pattern: Seq<char>) -> Seq<
    Seq<Seq<char>>,
> {
    commits.map_values(|c: (Seq<char>, Seq<char>)| lower_ids(given_texts(first_groups(pattern, c.1))))
}

fn normalized_ids(groups: &Vec<Option<String>>) -> (r: Vec<String>)
    ensures
        texts(r@) == lower_ids(given_texts(opt_texts(groups@))),
        forall|t: Seq<char>|
            ascii(t) && given_texts(opt_texts(groups@)).contains(t) ==> #[trigger] unicode_lowercase(
                t,
            ) == ascii_lowercase(t),
{
    let found = texts_given(groups);
    let ghost wanted = lower_ids(texts(found@));
    let mut out: Vec<String> = Vec::new();
    let mut i: usize = 0;
    while i < found.len()
        invariant
            i <= found@.len(),
            wanted == lower_ids(texts(found@)),
            texts(out@) == wanted.take(i as int),
            forall|k: int|
                0 <= k < i && ascii(texts(found@)[k]) ==> unicode_lowercase(
                    #[trigger] texts(found@)[k],
                ) == ascii_lowercase(texts(found@)[k]),
        decreases found@.len() - i,
    {
        let ghost before = texts(out@);
        assert(texts(found@)[i as int] == found@[i as int]@);
        let id = lowercased(found[i].as_str());
        let ghost shown = id@;
        out.push(id);
        i += 1;
        assert(texts(out@) =~= before.push(shown));
        assert(texts(out@) =~= wanted.take(i as int));
    }
    assert(texts(out@) =~= wanted);
    assert forall|t: Seq<char>|
        ascii(t) && given_texts(opt_texts(groups@)).contains(t) implies #[trigger] unicode_lowercase(
        t,
    ) == ascii_lowercase(t) by {
        let k = texts(found@).index_of(t);
        assert(texts(found@)[k] == t);
    }
    out
}

/// The texts of each list.
pub open spec fn text_lists(v: Seq<Vec<String>>) -> Seq<Seq<Seq<char>>> {
    v.map_values(|x: Vec<String>| texts(x@))
}

/// The references that the commits make, once the ids in their messages are found.
pub fn references(commits: &Vec<String>, messages: &Vec<String>, found: &Vec<Vec<String>>) -> (r:
    Vec<CommitRef>)
    requires
        commits@.len() == messages@.len(),
        found@.len() == messages@.len(),
    ensures
        views(r@) == refs_in(
            pairs(texts(commits@), texts(messages@)),
            text_lists(found@),
        ),
{
    let ghost all = pairs(texts(commits@), texts(messages@));
    let ghost lists = text_lists(found@);
    let mut out: Vec<CommitRef> = Vec::new();
    let mut i: usize = 0;
    assert(views(out@) =~= refs_in(all.take(0), lists.take(0)));
    while i < messages.len()
        invariant
            i <= messages@.len(),
            commits@.len() == messages@.len(),
            found@.len() == messages@.len(),
            all == pairs(texts(commits@), texts(messages@)),
            lists == text_lists(found@),
            views(out@) == refs_in(all.take(i as int), lists.take(i as int)),
        decreases messages@.len() - i,
    {
        assert(all.take(i + 1).drop_last() =~= all.take(i as int));
        assert(lists.take(i + 1).drop_last() =~= lists.take(i as int));
        let ghost before = views(out@);
        let ghost ids = texts(found@[i as int]@);
        let ghost wanted = refs_of(commits@[i as int]@, messages@[i as int]@, ids);
        assert(lists[i as int] == ids);
        let mut k: usize = 0;
        assert(before + wanted.take(0) =~= before);
        while k < found[i].len()
            invariant
                i < messages@.len(),
                commits@.len() == messages@.len(),
                found@.len() == messages@.len(),
                k <= found@[i as int]@.len(),
                ids == texts(found@[i as int]@),
                wanted == refs_of(commits@[i as int]@, messages@[i as int]@, ids),
                views(out@) == before + wanted.take(k as int),
            decreases found@[i as int]@.len() - k,
        {
            let ghost then = views(out@);
            let entry = CommitRef {
                commit: commits[i].clone(),
                message: messages[i].clone(),
                issue_id: found[i][k].clone(),
            };
            let ghost shown = entry@;
            assert(ids[k as int] == found@[i as int]@[k as int]@);
            assert(shown == wanted[k as int]);
            out.push(entry);
            assert(views(out@) =~= then.push(shown));
            k += 1;
            assert(views(out@) =~= before + wanted.take(k as int));
        }
        assert(wanted.take(wanted.len() as int) =~= wanted);
        assert(all.take(i + 1).last() == (commits@[i as int]@, messages@[i as int]@));
        assert(lists.take(i + 1).last() == ids);
        i += 1;
    }
    assert(all.take(all.len() as int) =~= all);
    assert(lists.take(lists.len() as int) =~= lists);
    out
}

/// Two sequences side by side.
pub open spec fn pairs(a: Seq<Seq<char>>, b: Seq<Seq<char>>) -> Seq<(Seq<char>, Seq<char>)> {
    Seq::new(a.len(), |i: int| (a[i], b[i]))
}

/// The references to ids with one of the prefixes in a log of one commit per line.
pub open spec fn refs_in_log(log: Seq<char>, prefixes: Seq<Seq<char>>) -> Result<
    Seq<RefModel>,
    ErrorModel,
> {
    let searched = searched_prefixes(prefixes);
    let pattern = id_pattern(searched);
    if searched.len() == 0 {
        Ok(Seq::empty())
    } else if pattern_error(pattern) is Some {
        Err(
            ErrorModel::Internal("Invalid regex pattern: "@ + pattern_error(pattern)->0),
        )
    } else {
        Ok(refs_in(commits_in(lines(log)), found_in(commits_in(lines(log)), pattern)))
    }
}

/// The references, or what the error says.
pub open spec fn refs_or_error(r: Result<Vec<CommitRef>, BeadsError>) -> Result<
    Seq<RefModel>,
    ErrorModel,
> {
    match r {
        Ok(v) => Ok(views(v@)),
        Err(e) => Err(e.model()),
    }
}

/// In line `n` of the log, which has a space, the text behind the first one names an issue
/// from `start` to `end`.
pub open spec fn reference_due(
    log: Seq<char>,
    prefixes: Seq<Seq<char>>,
    n: int,
    start: int,
    end: int,
) -> bool {
    let line = lines(log)[n];
    let at = first_index(line, ' ');
    0 <= n < lines(log).len() && at < line.len() && issue_named_at(
        prefixes,
        line.skip(at + 1),
        start,
        end,
    )
}

/// The reference that stands there: to the whole id in small letters, by the commit whose hash
/// begins the line, with the message behind it.
pub open spec fn reference_there(log: Seq<char>, n: int, start: int, end: int) -> RefModel {
    let line = lines(log)[n];
    let at = first_index(line, ' ');
    RefModel {
        commit: line.take(at),
        message: line.skip(at + 1),
        issue_id: ascii_lowercase(line.skip(at + 1).subrange(start, end)),
    }
}

/// The references to issues in a log of one commit per line: a hash, a space and a message.
/// An issue that is named in a message by its whole id, as a word of its own, is referred to by
/// that id.
pub fn parse_git_log_for_prefixes(log: &str, prefixes: &Vec<String>) -> (r: Result<
    Vec<CommitRef>,
    BeadsError,
>)
    ensures
        refs_or_error(r) == refs_in_log(log@, texts(prefixes@)),
        r matches Ok(refs) ==> forall|n: int, start: int, end: int|
            #[trigger] reference_due(log@, texts(prefixes@), n, start, end) ==> views(
                refs@,
            ).contains(reference_there(log@, n, start, end)),
{
    let searched = search_prefixes(prefixes);
    if searched.len() == 0 {
        let none: Vec<CommitRef> = Vec::new();
        assert(views(none@) =~= Seq::<RefModel>::empty());
        proof {
            assert forall|n: int, start: int, end: int|
                #[trigger] reference_due(log@, texts(prefixes@), n, start, end) implies false by {
                let k = choose|k: int|
                    0 <= k < texts(prefixes@).len() && (#[trigger] texts(prefixes@)[k]).len() > 0;
                lemma_prefix_searched(texts(prefixes@), k);
            }
        }
        return Ok(none);
    }
    let pattern = pattern_for(&searched);
    let log_lines = lines_of(log);
    let ghost all = texts(log_lines@);
    let mut commits: Vec<String> = Vec::new();
    let mut messages: Vec<String> = Vec::new();
    let mut i: usize = 0;
    assert(pairs(texts(commits@), texts(messages@)) =~= commits_in(all.take(0)));
    while i < log_lines.len()
        invariant
            i <= log_lines@.len(),
            all == texts(log_lines@),
            commits@.len() == messages@.len(),
            pairs(texts(commits@), texts(messages@)) == commits_in(all.take(i as int)),
        decreases log_lines@.len() - i,
    {
        assert(all.take(i + 1).drop_last() =~= all.take(i as int));
        assert(all.take(i + 1).last() == log_lines@[i as int]@);
        let ghost before = pairs(texts(commits@), texts(messages@));
        if let Some((commit, message)) = split_at_first(log_lines[i].as_str(), ' ') {
            let ghost pair = (commit@, message@);
            commits.push(commit);
            messages.push(message);
            assert(pairs(texts(commits@), texts(messages@)) =~= before.push(pair));
        }
        i += 1;
    }
    assert(all.take(all.len() as int) =~= all);
    match find_first_groups(pattern.as_str(), &messages) {
        Err(e) => Err(BeadsError::Internal(text2("Invalid regex pattern: ", e.as_str()))),
        Ok(found) => {
            let ghost list = commits_in(lines(log@));
            let mut ids: Vec<Vec<String>> = Vec::new();
            let mut k: usize = 0;
            while k < found.len()
                invariant
                    k <= found@.len(),
                    found@.len() == messages@.len(),
                    commits@.len() == messages@.len(),
                    list == pairs(texts(commits@), texts(messages@)),
                    forall|j: int|
                        0 <= j < found@.len() ==> opt_texts((#[trigger] found@[j])@) == first_groups(
                            pattern@,
                            messages@[j]@,
                        ),
                    text_lists(ids@) == found_in(list, pattern@).take(k as int),
                    forall|j: int, t: Seq<char>|
                        0 <= j < k && ascii(t) && given_texts(
                            first_groups(pattern@, messages@[j]@),
                        ).contains(t) ==> #[trigger] lowered_in(
                            first_groups(pattern@, messages@[j]@),
                            t,
                        ),
                decreases found@.len() - k,
            {
                let ghost before = text_lists(ids@);
                let lower = normalized_ids(&found[k]);
                let ghost shown = texts(lower@);
                proof {
                    assert(list[k as int].1 == messages@[k as int]@);
                    assert(shown == found_in(list, pattern@)[k as int]);
                }
                ids.push(lower);
                k += 1;
                assert(text_lists(ids@) =~= before.push(shown));
                assert(text_lists(ids@) =~= found_in(list, pattern@).take(k as int));
            }
            assert(text_lists(ids@) =~= found_in(list, pattern@));
            let refs = references(&commits, &messages, &ids);
            proof {
                let named = texts(prefixes@);
                lemma_pattern_text(texts(searched@));
                assert(pattern@ == reference_pattern(texts(searched@)));
                lemma_searched_in_order(named);
                assert forall|n: int, start: int, end: int|
                    #[trigger] reference_due(log@, named, n, start, end) implies views(
                    refs@,
                ).contains(reference_there(log@, n, start, end)) by {
                    let line = lines(log@)[n];
                    let at = first_index(line, ' ');
                    lemma_first_index(line, ' ');
                    lemma_commit_listed(lines(log@), n);
                    let j = list.index_of((line.take(at), line.skip(at + 1)));
                    assert(list[j] == (line.take(at), line.skip(at + 1)));
                    let message = line.skip(at + 1);
                    assert(list[j].1 == messages@[j]@);
                    lemma_named_when_searched(named, message, start, end);
                    let t = message.subrange(start, end);
                    assert(issue_named_at(texts(searched@), messages@[j]@, start, end));
                    assert(group_is(opt_texts(found@[j]@), t));
                    let groups = first_groups(pattern@, message);
                    lemma_group_given(groups, t);
                    lemma_named_ascii(texts(searched@), message, start, end);
                    assert(lowered_in(groups, t));
                    lemma_reference_made(list, found_in(list, pattern@), j, given_texts(groups), t);
                }
            }
            Ok(refs)
        },
    }
}

/// The group is put in small letters.
spec fn lowered_in(groups: Seq<Option<Seq<char>>>, t: Seq<char>) -> bool {
    unicode_lowercase(t) == ascii_lowercase(t)
}

proof fn lemma_nonempty_texts(v: Seq<Seq<char>>)
    ensures
        forall|k: int|
            0 <= k < v.len() && (#[trigger] v[k]).len() > 0 ==> nonempty_texts(v).contains(v[k]),
        forall|k: int|
            0 <= k < nonempty_texts(v).len() ==> (#[trigger] nonempty_texts(v)[k]).len() > 0
                && v.contains(nonempty_texts(v)[k]),
    decreases v.len(),
{
    if v.len() > 0 {
        let init = v.drop_last();
        let before = nonempty_texts(init);
        let now = nonempty_texts(v);
        lemma_nonempty_texts(init);
        assert forall|k: int| 0 <= k < v.len() && (#[trigger] v[k]).len() > 0 implies now.contains(
            v[k],
        ) by {
            if k < init.len() {
                assert(init[k] == v[k]);
                let j = before.index_of(v[k]);
                assert(now[j] == v[k]);
            } else {
                assert(now[now.len() - 1] == v[k]);
            }
        }
        assert forall|k: int| 0 <= k < now.len() implies (#[trigger] now[k]).len() > 0
            && v.contains(now[k]) by {
            if k < before.len() {
                assert(now[k] == before[k]);
                let j = init.index_of(now[k]);
                assert(v[j] == now[k]);
            } else {
                assert(v[v.len() - 1] == now[k]);
            }
        }
    }
}

proof fn lemma_deduped(v: Seq<Seq<char>>)
    ensures
        forall|k: int| 0 <= k < v.len() ==> deduped(v).contains(#[trigger] v[k]),
        forall|k: int| 0 <= k < deduped(v).len() ==> v.contains(#[trigger] deduped(v)[k]),
        (forall|j: int, k: int|
            0 <= j < k < v.len() ==> byte_len(#[trigger] v[j]) >= byte_len(#[trigger] v[k])) ==> (
        forall|j: int, k: int|
            0 <= j < k < deduped(v).len() ==> byte_len(#[trigger] deduped(v)[j]) >= byte_len(
                #[trigger] deduped(v)[k],
            )),
    decreases v.len(),
{
    if v.len() > 0 {
        let init = v.drop_last();
        let before = deduped(init);
        let now = deduped(v);
        lemma_deduped(init);
        assert(v[v.len() - 1] == v.last());
        assert forall|k: int| 0 <= k < v.len() implies now.contains(#[trigger] v[k]) by {
            if k < init.len() {
                assert(init[k] == v[k]);
                let j = before.index_of(v[k]);
                assert(now[j] == v[k]);
            } else {
                assert(now[now.len() - 1] == v[k]);
            }
        }
        assert forall|k: int| 0 <= k < now.len() implies v.contains(#[trigger] now[k]) by {
            if k < before.len() {
                assert(before[k] == now[k]);
                let j = init.index_of(now[k]);
                assert(v[j] == now[k]);
            }
        }
        if forall|j: int, k: int|
            0 <= j < k < v.len() ==> byte_len(#[trigger] v[j]) >= byte_len(#[trigger] v[k]) {
            assert forall|j: int, k: int| 0 <= j < k < init.len() implies byte_len(
                #[trigger] init[j],
            ) >= byte_len(#[trigger] init[k]) by {
                assert(byte_len(v[j]) >= byte_len(v[k]));
            }
            assert forall|j: int, k: int| 0 <= j < k < now.len() implies byte_len(
                #[trigger] now[j],
            ) >= byte_len(#[trigger] now[k]) by {
                if k < before.len() {
                    assert(byte_len(before[j]) >= byte_len(before[k]));
                } else {
                    assert(before[j] == now[j]);
                    let i = init.index_of(now[j]);
                    assert(v[i] == now[j]);
                    assert(byte_len(v[i]) >= byte_len(v[v.len() - 1]));
                }
            }
        }
    }
}

proof fn lemma_sorted_holds(v: Seq<Seq<char>>, t: Seq<char>)
    ensures
        stable_sort(v, prefix_order()).contains(t) <==> v.contains(t),
{
    broadcast use vstd::seq_lib::group_to_multiset_ensures;

    let s = stable_sort(v, prefix_order());
    law_sort_is_permutation(v, prefix_order());
    assert(s.contains(t) <==> s.to_multiset().count(t) > 0);
    assert(v.contains(t) <==> v.to_multiset().count(t) > 0);
}

/// Every prefix that is not empty is searched for.
proof fn lemma_prefix_searched(prefixes: Seq<Seq<char>>, k: int)
    requires
        0 <= k < prefixes.len(),
        prefixes[k].len() > 0,
    ensures
        searched_prefixes(prefixes).contains(prefixes[k]),
{
    let kept = nonempty_texts(prefixes);
    let order = stable_sort(kept, prefix_order());
    lemma_nonempty_texts(prefixes);
    lemma_sorted_holds(kept, prefixes[k]);
    lemma_deduped(order);
    let j = order.index_of(prefixes[k]);
    assert(order[j] == prefixes[k]);
}

/// Nothing but such prefixes is searched for, the longest first.
proof fn lemma_searched_in_order(prefixes: Seq<Seq<char>>)
    ensures
        longest_first(searched_prefixes(prefixes)),
        forall|k: int|
            0 <= k < searched_prefixes(prefixes).len() ==> prefixes.contains(
                #[trigger] searched_prefixes(prefixes)[k],
            ),
{
    let kept = nonempty_texts(prefixes);
    let order = stable_sort(kept, prefix_order());
    let found = searched_prefixes(prefixes);
    lemma_nonempty_texts(prefixes);
    lemma_deduped(order);
    assert forall|j: int, k: int| 0 <= j < k < order.len() implies byte_len(#[trigger] order[j])
        >= byte_len(#[trigger] order[k]) by {
        law_longest_prefix_first(kept, j, k);
    }
    assert forall|k: int| 0 <= k < found.len() implies (#[trigger] found[k]).len() > 0
        && prefixes.contains(found[k]) by {
        lemma_sorted_holds(kept, found[k]);
        assert(order.contains(found[k]));
        let j = kept.index_of(found[k]);
        assert(kept[j] == found[k]);
    }
}

proof fn lemma_named_when_searched(
    prefixes: Seq<Seq<char>>,
    message: Seq<char>,
    start: int,
    end: int,
)
    requires
        issue_named_at(prefixes, message, start, end),
    ensures
        issue_named_at(searched_prefixes(prefixes), message, start, end),
{
    let found = searched_prefixes(prefixes);
    lemma_searched_in_order(prefixes);
    assert forall|k: int| 0 <= k < found.len() && (#[trigger] found[k]).len() > 0 implies plain_prefix(
        found[k],
    ) by {
        let j = prefixes.index_of(found[k]);
        assert(prefixes[j] == found[k]);
    }
    let k = choose|k: int|
        0 <= k < prefixes.len() && (#[trigger] prefixes[k]).len() > 0 && names_issue(
            message.subrange(start, end),
            prefixes[k],
        );
    lemma_prefix_searched(prefixes, k);
    let j = found.index_of(prefixes[k]);
    assert(found[j] == prefixes[k]);
}

proof fn lemma_named_ascii(
    prefixes: Seq<Seq<char>>,
    message: Seq<char>,
    start: int,
    end: int,
)
    requires
        issue_named_at(prefixes, message, start, end),
    ensures
        ascii(message.subrange(start, end)),
{
    let t = message.subrange(start, end);
    let k = choose|k: int|
        0 <= k < prefixes.len() && (#[trigger] prefixes[k]).len() > 0 && names_issue(
            t,
            prefixes[k],
        );
    let prefix = prefixes[k];
    let n = prefix.len() as int;
    let tail = t.skip(n + 1);
    assert forall|i: int| 0 <= i < t.len() implies (#[trigger] t[i]) as int <= 0x7f by {
        if i < n {
            assert(ascii_lowercase(t.take(n))[i] == ascii_lowercase(prefix)[i]);
            assert(ascii_lower(t[i]) == ascii_lower(prefix[i]));
            assert(plain_prefix(prefix));
        } else if i > n {
            assert(tail[i - n - 1] == t[i]);
        }
    }
}

proof fn lemma_group_given(groups: Seq<Option<Seq<char>>>, t: Seq<char>)
    requires
        group_is(groups, t),
    ensures
        given_texts(groups).contains(t),
    decreases groups.len(),
{
    let k = choose|k: int| 0 <= k < groups.len() && #[trigger] groups[k] == Some(t);
    let init = groups.drop_last();
    let now = given_texts(groups);
    if k < init.len() {
        assert(init[k] == Some(t));
        lemma_group_given(init, t);
        let j = given_texts(init).index_of(t);
        assert(now[j] == t);
    } else {
        assert(now[now.len() - 1] == t);
    }
}

proof fn lemma_commit_listed(log_lines: Seq<Seq<char>>, n: int)
    requires
        0 <= n < log_lines.len(),
        split_once(log_lines[n], ' ') is Some,
    ensures
        commits_in(log_lines).contains(split_once(log_lines[n], ' ')->0),
    decreases log_lines.len(),
{
    let init = log_lines.drop_last();
    let now = commits_in(log_lines);
    let commit = split_once(log_lines[n], ' ')->0;
    if n < init.len() {
        assert(init[n] == log_lines[n]);
        lemma_commit_listed(init, n);
        let j = commits_in(init).index_of(commit);
        assert(now[j] == commit);
    } else {
        assert(now[now.len() - 1] == commit);
    }
}

proof fn lemma_reference_made(
    commits: Seq<(Seq<char>, Seq<char>)>,
    found: Seq<Seq<Seq<char>>>,
    j: int,
    ids: Seq<Seq<char>>,
    t: Seq<char>,
)
    requires
        0 <= j < commits.len(),
        found.len() == commits.len(),
        found[j] == lower_ids(ids),
        ids.contains(t),
        unicode_lowercase(t) == ascii_lowercase(t),
    ensures
        refs_in(commits, found).contains(
            RefModel {
                commit: commits[j].0,
                message: commits[j].1,
                issue_id: ascii_lowercase(t),
            },
        ),
    decreases commits.len(),
{
    let wanted = RefModel {
        commit: commits[j].0,
        message: commits[j].1,
        issue_id: ascii_lowercase(t),
    };
    let before = refs_in(commits.drop_last(), found.drop_last());
    let last = refs_of(commits.last().0, commits.last().1, found.last());
    if j < commits.len() - 1 {
        lemma_reference_made(commits.drop_last(), found.drop_last(), j, ids, t);
        let k = before.index_of(wanted);
        assert((before + last)[k] == wanted);
    } else {
        let k = ids.index_of(t);
        assert(lower_ids(ids)[k] == ascii_lowercase(t));
        assert(last[k] == wanted);
        assert((before + last)[before.len() + k] == wanted);
    }
}

/// The first reference to an issue. The log has the latest commit first, so it is the latest.
pub open spec fn first_ref(refs: Seq<RefModel>, id: Seq<char>) -> Option<RefModel>
    decreases refs.len(),
{
    if refs.len() == 0 {
        None
    } else if refs[0].issue_id == id {
        Some(refs[0])
    } else {
        first_ref(refs.skip(1), id)
    }
}

fn find_ref<'a>(refs: &'a Vec<CommitRef>, id: &str) -> (r: Option<&'a CommitRef>)
    ensures
        match first_ref(views(refs@), id@) {
            Some(m) => r is Some && r->0@ == m,
            None => r is None,
        },
{
    let ghost all = views(refs@);
    let mut i: usize = 0;
    assert(all.skip(0) =~= all);
    while i < refs.len()
        invariant
            i <= refs@.len(),
            all == views(refs@),
            first_ref(all, id@) == first_ref(all.skip(i as int), id@),
        decreases refs@.len() - i,
    {
        assert(all[i as int] == refs@[i as int]@);
        if same_text(refs[i].issue_id.as_str(), id) {
            return Some(&refs[i]);
        }
        assert(all.skip(i as int).skip(1) =~= all.skip(i + 1));
        i += 1;
    }
    None
}

/// The orphan that an issue is, by its latest commit.
pub open spec fn orphan_of(issue: IssueModel, reference: RefModel) -> OrphanModel {
    OrphanModel {
        issue_id: issue.id,
        title: issue.title,
        status: status_name(issue.status),
        latest_commit: reference.commit,
        latest_commit_message: reference.message,
    }
}

/// The issues that can be orphans: those that are open or in progress.
pub fn orphan_filters() -> (r: ListFilters)
    ensures
        r@ == (FiltersModel {
            statuses: Some(seq![StatusModel::Open, StatusModel::InProgress]),
            ..no_filters()
        }),
        r@.statuses == Some(seq![StatusModel::Open, StatusModel::InProgress]),
        r@.types is None && !r@.include_closed && !r@.include_templates,
{
    let mut statuses: Vec<Status> = Vec::new();
    statuses.push(Status::Open);
    statuses.push(Status::InProgress);
    assert(views(statuses@) =~= seq![StatusModel::Open, StatusModel::InProgress]);
    let mut filters = ListFilters::default();
    filters.statuses = Some(statuses);
    filters
}

/// Whether the issues file is looked at before the scan: where the database was opened for
/// this command, and not for reading alone.
pub fn imports_before_scan(opened_here: bool, cli: &CliOverrides) -> (r: bool)
    ensures
        r == (opened_here && !cli.read_only_fast_open),
{
    opened_here && !cli.read_only_fast_open
}

/// The issue is open or in progress.
pub open spec fn unfinished(issue: IssueModel) -> bool {
    issue.status == StatusModel::Open || issue.status == StatusModel::InProgress
}

fn is_unfinished(issue: &Issue) -> (r: bool)
    ensures
        r == unfinished(issue@),
{
    match &issue.status {
        Status::Open => true,
        Status::InProgress => true,
        _ => false,
    }
}

/// The unfinished issues that some commit refers to, in order.
pub open spec fn referenced(issues: Seq<IssueModel>, refs: Seq<RefModel>) -> Seq<OrphanModel>
    decreases issues.len(),
{
    if issues.len() == 0 {
        Seq::empty()
    } else {
        let before = referenced(issues.drop_last(), refs);
        match first_ref(refs, issues.last().id) {
            Some(reference) if unfinished(issues.last()) => before.push(
                orphan_of(issues.last(), reference),
            ),
            _ => before,
        }
    }
}

/// The order of the orphans: by id.
pub open spec fn orphan_order() -> spec_fn(OrphanModel, OrphanModel) -> bool {
    |a: OrphanModel, b: OrphanModel| text_le(a.issue_id, b.issue_id)
}

impl Ranked for OrphanIssue {
    open spec fn ranks_le(a: OrphanModel, b: OrphanModel) -> bool {
        text_le(a.issue_id, b.issue_id)
    }

    fn may_precede(&self, other: &Self) -> (r: bool) {
        text_may_precede(self.issue_id.as_str(), other.issue_id.as_str())
    }
}

/// The orphans among the issues, sorted by id.
pub open spec fn orphans_among(issues: Seq<IssueModel>, refs: Seq<RefModel>) -> Seq<OrphanModel> {
    stable_sort(referenced(issues, refs), orphan_order())
}

/// The issues that are open or in progress though a commit refers to them, sorted by id, each
/// with its latest commit.
pub fn find_orphans(issues: &Vec<Issue>, refs: &Vec<CommitRef>) -> (r: Vec<OrphanIssue>)
    ensures
        views(r@) == orphans_among(views(issues@), views(refs@)),
{
    let ghost all = views(issues@);
    let mut out: Vec<OrphanIssue> = Vec::new();
    let mut i: usize = 0;
    assert(views(out@) =~= referenced(all.take(0), views(refs@)));
    while i < issues.len()
        invariant
            i <= issues@.len(),
            all == views(issues@),
            views(out@) == referenced(all.take(i as int), views(refs@)),
        decreases issues@.len() - i,
    {
        assert(all.take(i + 1).drop_last() =~= all.take(i as int));
        assert(all.take(i + 1).last() == issues@[i as int]@);
        let found = if is_unfinished(&issues[i]) {
            find_ref(refs, issues[i].id.as_str())
        } else {
            None
        };
        if let Some(reference) = found {
            let ghost before = views(out@);
            let orphan = OrphanIssue {
                issue_id: issues[i].id.clone(),
                title: issues[i].title.clone(),
                status: issues[i].status.as_str().to_owned(),
                latest_commit: reference.commit.clone(),
                latest_commit_message: reference.message.clone(),
            };
            let ghost shown = orphan@;
            out.push(orphan);
            assert(views(out@) =~= before.push(shown));
        }
        i += 1;
    }
    assert(all.take(all.len() as int) =~= all);
    assert((|a: OrphanModel, b: OrphanModel| <OrphanIssue as Ranked>::ranks_le(a, b))
        =~= orphan_order());
    sorted(out)
}

/// The orphan is one of the issues, open or in progress, with the commit of its first
/// reference.
pub open spec fn is_referenced_candidate(
    orphan: OrphanModel,
    issues: Seq<IssueModel>,
    refs: Seq<RefModel>,
) -> bool {
    exists|i: int|
        0 <= i < issues.len() && unfinished(#[trigger] issues[i]) && first_ref(
            refs,
            issues[i].id,
        ) is Some && orphan == orphan_of(issues[i], first_ref(refs, issues[i].id)->0)
}

proof fn lemma_referenced(issues: Seq<IssueModel>, refs: Seq<RefModel>)
    ensures
        forall|k: int|
            0 <= k < referenced(issues, refs).len() ==> is_referenced_candidate(
                #[trigger] referenced(issues, refs)[k],
                issues,
                refs,
            ),
        forall|i: int|
            0 <= i < issues.len() && unfinished(#[trigger] issues[i]) && first_ref(
                refs,
                issues[i].id,
            ) is Some ==> referenced(issues, refs).contains(
                orphan_of(issues[i], first_ref(refs, issues[i].id)->0),
            ),
    decreases issues.len(),
{
    if issues.len() > 0 {
        let init = issues.drop_last();
        lemma_referenced(init, refs);
        let before = referenced(init, refs);
        let now = referenced(issues, refs);
        assert forall|k: int| 0 <= k < now.len() implies is_referenced_candidate(
            #[trigger] now[k],
            issues,
            refs,
        ) by {
            if k < before.len() {
                assert(is_referenced_candidate(before[k], init, refs));
                let i = choose|i: int|
                    0 <= i < init.len() && unfinished(#[trigger] init[i]) && first_ref(
                        refs,
                        init[i].id,
                    ) is Some && before[k] == orphan_of(init[i], first_ref(refs, init[i].id)->0);
                assert(issues[i] == init[i]);
            } else {
                assert(issues[issues.len() - 1] == issues.last());
            }
        }
        assert forall|i: int|
            0 <= i < issues.len() && unfinished(#[trigger] issues[i]) && first_ref(
                refs,
                issues[i].id,
            ) is Some implies now.contains(
            orphan_of(issues[i], first_ref(refs, issues[i].id)->0),
        ) by {
            let orphan = orphan_of(issues[i], first_ref(refs, issues[i].id)->0);
            if i < init.len() {
                assert(init[i] == issues[i]);
                assert(before.contains(orphan));
                let k = before.index_of(orphan);
                assert(now[k] == orphan);
            } else {
                assert(now[before.len() as int] == orphan);
            }
        }
    }
}

/// The orphans are exactly the issues that are open or in progress and that some commit
/// refers to, each with the commit of its first reference.
pub proof fn law_orphans_are_the_referenced_candidates(
    issues: Seq<IssueModel>,
    refs: Seq<RefModel>,
    orphan: OrphanModel,
)
    ensures
        orphans_among(issues, refs).contains(orphan) <==> is_referenced_candidate(
            orphan,
            issues,
            refs,
        ),
{
    broadcast use vstd::seq_lib::group_to_multiset_ensures;

    let found = referenced(issues, refs);
    let shown = orphans_among(issues, refs);
    law_sort_is_permutation(found, orphan_order());
    lemma_referenced(issues, refs);
    assert(shown.contains(orphan) <==> shown.to_multiset().count(orphan) > 0);
    assert(found.contains(orphan) <==> found.to_multiset().count(orphan) > 0);
    if found.contains(orphan) {
        let k = found.index_of(orphan);
        assert(is_referenced_candidate(found[k], issues, refs));
    }
}

proof fn lemma_referenced_once(issues: Seq<IssueModel>, refs: Seq<RefModel>)
    requires
        ids_differ(issues),
    ensures
        referenced(issues, refs).no_duplicates(),
    decreases issues.len(),
{
    if issues.len() > 0 {
        let init = issues.drop_last();
        assert(ids_differ(init)) by {
            assert forall|i: int, j: int| 0 <= i < j < init.len() implies (#[trigger] init[i]).id
                != (#[trigger] init[j]).id by {
                assert(issues[i].id != issues[j].id);
            }
        }
        lemma_referenced_once(init, refs);
        lemma_referenced(init, refs);
        let before = referenced(init, refs);
        let now = referenced(issues, refs);
        if now.len() > before.len() {
            assert forall|k: int| 0 <= k < before.len() implies before[k] != now.last() by {
                assert(is_referenced_candidate(before[k], init, refs));
                let i = choose|i: int|
                    0 <= i < init.len() && unfinished(#[trigger] init[i]) && first_ref(
                        refs,
                        init[i].id,
                    ) is Some && before[k] == orphan_of(init[i], first_ref(refs, init[i].id)->0);
                assert(issues[i].id != issues[issues.len() - 1].id);
            }
        }
    }
}

/// Where no two issues have one id, no two orphans have one.
pub proof fn law_orphan_ids_differ(issues: Seq<IssueModel>, refs: Seq<RefModel>, i: int, j: int)
    requires
        ids_differ(issues),
        0 <= i < j < orphans_among(issues, refs).len(),
    ensures
        orphans_among(issues, refs)[i].issue_id != orphans_among(issues, refs)[j].issue_id,
{
    let found = referenced(issues, refs);
    let shown = orphans_among(issues, refs);
    lemma_referenced_once(issues, refs);
    law_sort_is_permutation(found, orphan_order());
    found.lemma_multiset_has_no_duplicates();
    shown.lemma_multiset_has_no_duplicates_conv();
    assert(shown.contains(shown[i]) && shown.contains(shown[j]));
    law_orphans_are_the_referenced_candidates(issues, refs, shown[i]);
    law_orphans_are_the_referenced_candidates(issues, refs, shown[j]);
    let a = choose|k: int|
        0 <= k < issues.len() && unfinished(#[trigger] issues[k]) && first_ref(
            refs,
            issues[k].id,
        ) is Some && shown[i] == orphan_of(issues[k], first_ref(refs, issues[k].id)->0);
    let b = choose|k: int|
        0 <= k < issues.len() && unfinished(#[trigger] issues[k]) && first_ref(
            refs,
            issues[k].id,
        ) is Some && shown[j] == orphan_of(issues[k], first_ref(refs, issues[k].id)->0);
    if a < b {
        assert(issues[a].id != issues[b].id);
    } else if b < a {
        assert(issues[b].id != issues[a].id);
    }
}

/// The orphans come in the order of their ids.
pub proof fn law_orphans_are_sorted(issues: Seq<IssueModel>, refs: Seq<RefModel>, i: int, j: int)
    requires
        0 <= i < j < orphans_among(issues, refs).len(),
    ensures
        text_le(orphans_among(issues, refs)[i].issue_id, orphans_among(issues, refs)[j].issue_id),
{
    let le = orphan_order();
    assert forall|a: OrphanModel, b: OrphanModel, c: OrphanModel| #[trigger]
        le(a, b) && #[trigger] le(b, c) implies le(a, c) by {
        law_lex_transitive(codes(a.issue_id), codes(b.issue_id), codes(c.issue_id));
    }
    assert forall|a: OrphanModel, b: OrphanModel| #[trigger] le(a, b) || #[trigger] le(b, a) by {
        law_lex_connected(codes(a.issue_id), codes(b.issue_id));
    }
    law_sort_is_sorted(referenced(issues, refs), le);
    assert(le(orphans_among(issues, refs)[i], orphans_among(issues, refs)[j]));
}

/// One orphan in the plain list.
pub open spec fn orphan_line(number: nat, orphan: OrphanModel, details: bool) -> Seq<char> {
    decimal(number) + ". ["@ + orphan.status + "] "@ + one_line(orphan.issue_id) + " "@ + one_line(
        orphan.title,
    ) + "\n"@ + if details {
        "   Commit: "@ + one_line(orphan.latest_commit) + " "@ + one_line(
            orphan.latest_commit_message,
        ) + "\n"@
    } else {
        ""@
    }
}

/// The orphans, numbered.
pub open spec fn orphan_lines(orphans: Seq<OrphanModel>, details: bool) -> Seq<char>
    decreases orphans.len(),
{
    if orphans.len() == 0 {
        ""@
    } else {
        orphan_lines(orphans.drop_last(), details) + orphan_line(
            orphans.len(),
            orphans.last(),
            details,
        )
    }
}

fn orphan_line_text(number: u64, orphan: &OrphanIssue, details: bool) -> (r: String)
    ensures
        r@ == orphan_line(number as nat, orphan@, details),
{
    let count = decimal_text(number);
    let id = orphan_display_text(orphan.issue_id.as_str());
    let title = sanitize_terminal_inline(orphan.title.as_str());
    let mut out = text5(count.as_str(), ". [", orphan.status.as_str(), "] ", id.as_str());
    out.append(" ");
    out.append(title.as_str());
    out.append("\n");
    if details {
        let commit = sanitize_terminal_inline(orphan.latest_commit.as_str());
        let message = sanitize_terminal_inline(orphan.latest_commit_message.as_str());
        let line = text5("   Commit: ", commit.as_str(), " ", message.as_str(), "\n");
        out.append(line.as_str());
    } else {
        out.append("");
    }
    out
}

/// The orphans as plain text.
pub fn render_plain(orphans: &Vec<OrphanIssue>, details: bool) -> (r: String)
    ensures
        r@ == "Orphan issues ("@ + decimal(orphans@.len())
            + " open/in_progress referenced in commits):\n\n"@ + orphan_lines(
            views(orphans@),
            details,
        ),
{
    let ghost all = views(orphans@);
    let total: usize = orphans.len();
    let count = decimal_text(total as u64);
    let mut out = text3(
        "Orphan issues (",
        count.as_str(),
        " open/in_progress referenced in commits):\n\n",
    );
    let ghost head = out@;
    let mut i: usize = 0;
    proof {
        reveal_strlit("");
        assert(head + orphan_lines(all.take(0), details) =~= head);
    }
    while i < total
        invariant
            i <= total,
            total == orphans@.len(),
            all == views(orphans@),
            out@ == head + orphan_lines(all.take(i as int), details),
        decreases total - i,
    {
        assert(all.take(i + 1).drop_last() =~= all.take(i as int));
        assert(all.take(i + 1).last() == orphans@[i as int]@);
        let line = orphan_line_text(i as u64 + 1, &orphans[i], details);
        out.append(line.as_str());
        i += 1;
        assert(out@ =~= head + orphan_lines(all.take(i as int), details));
    }
    assert(all.take(all.len() as int) =~= all);
    out
}

/// The title of the table of orphans.
pub fn table_title(count: u64) -> (r: String)
    ensures
        r@ == "Orphan Issues ("@ + decimal(count as nat) + ")"@,
{
    let shown = decimal_text(count);
    text3("Orphan Issues (", shown.as_str(), ")")
}

/// The commit of an orphan, as the table shows it.
pub fn context_snippet(orphan: &OrphanIssue) -> (r: String)
    ensures
        r@ == orphan@.latest_commit + " "@ + orphan@.latest_commit_message,
{
    text3(orphan.latest_commit.as_str(), " ", orphan.latest_commit_message.as_str())
}

/// What plain output says where there are no orphans.
pub const NO_ORPHANS: &'static str = "✓ No orphaned issues found\n";

/// What the panel says where there are no orphans.
pub const NO_ORPHANS_PANEL: &'static str = "No orphaned issues found.";

/// What is shown where there is no orphan.
pub fn output_empty(mode: OrphanRenderMode) -> (r: Shown)
    ensures
        r@ == match mode {
            OrphanRenderMode::Quiet => ShownModel::Nothing,
            OrphanRenderMode::Json => ShownModel::Data,
            OrphanRenderMode::Toon => ShownModel::Data,
            OrphanRenderMode::Rich => ShownModel::Panel {
                title: "Orphans"@,
                body: one_piece(NO_ORPHANS_PANEL@),
            },
            OrphanRenderMode::Plain => ShownModel::Text { body: one_piece(NO_ORPHANS@) },
        },
{
    match mode {
        OrphanRenderMode::Quiet => Shown::Nothing,
        OrphanRenderMode::Json => Shown::Data,
        OrphanRenderMode::Toon => Shown::Data,
        OrphanRenderMode::Rich => Shown::Panel {
            title: "Orphans".to_owned(),
            body: one_span(NO_ORPHANS_PANEL),
        },
        OrphanRenderMode::Plain => Shown::Text { body: one_span(NO_ORPHANS) },
    }
}

/// What stands below the table of orphans.
pub const SUGGESTION: &'static str =
    "\nSuggestion: Assign these to an epic or set a parent with br update <ID> --parent <EPIC_ID>\n";

/// What stands before the questions.
pub const INTERACTIVE_HEADING: &'static str = "\nInteractive close mode:\n";

/// Why an orphan is closed.
pub const CLOSE_REASON: &'static str = "Implemented (detected by orphans scan)";

/// The question whether to close an orphan.
pub fn close_question(orphan: &OrphanIssue) -> (r: String)
    ensures
        r@ == "Close "@ + one_line(orphan@.issue_id) + " ("@ + one_line(orphan@.title)
            + ")? [y/N] "@,
{
    let id = orphan_display_text(orphan.issue_id.as_str());
    let title = sanitize_terminal_inline(orphan.title.as_str());
    text5("Close ", id.as_str(), " (", title.as_str(), ")? [y/N] ")
}

/// A word that agrees.
pub open spec fn affirmative(word: Seq<char>) -> bool {
    word == "y"@ || word == "yes"@
}

pub fn is_affirmative(word: &str) -> (r: bool)
    ensures
        r == affirmative(word@),
{
    same_text(word, "y") || same_text(word, "yes")
}

/// An answer that agrees: `y` or `yes`, in any case and with white space around it.
pub open spec fn agrees(answer: Seq<char>) -> bool {
    affirmative(unicode_lowercase(trim(answer)))
}

pub fn closes_orphan(answer: &str) -> (r: bool)
    ensures
        r == agrees(answer@),
{
    let word = trimmed(answer);
    let lower = lowercased(word.as_str());
    is_affirmative(lower.as_str())
}

/// What is said of an orphan that stays open.
pub fn skipped_line(orphan: &OrphanIssue) -> (r: String)
    ensures
        r@ == "  Skipped "@ + one_line(orphan@.issue_id) + "\n"@,
{
    let id = orphan_display_text(orphan.issue_id.as_str());
    text3("  Skipped ", id.as_str(), "\n")
}

/// What is said of an orphan that could not be closed.
pub fn failed_line(orphan: &OrphanIssue, error: &str) -> (r: String)
    ensures
        r@ == "  Failed to close "@ + one_line(orphan@.issue_id) + ": "@ + one_line(error@)
            + "\n"@,
{
    let id = orphan_display_text(orphan.issue_id.as_str());
    let shown = sanitize_terminal_inline(error);
    text5("  Failed to close ", id.as_str(), ": ", shown.as_str(), "\n")
}

/// The repository that git names, unless it names none.
pub fn repository_root(git_output: &str) -> (r: Option<String>)
    ensures
        opt_text(r) == if trim(git_output@).len() == 0 {
            None
        } else {
            Some(trim(git_output@))
        },
        r is None <==> trim(git_output@).len() == 0,
{
    let root = trimmed(git_output);
    if root.as_str().is_empty() {
        None
    } else {
        Some(root)
    }
}

/// The error of a log that git could not give.
pub fn git_log_error(stderr: &str) -> (r: BeadsError)
    ensures
        r.model() == (ErrorModel::ExternalCommand {
            command: "git"@,
            detail: if trim(stderr@).len() == 0 {
                "git log failed"@
            } else {
                "git log failed: "@ + trim(stderr@)
            },
        }),
{
    let said = trimmed(stderr);
    let detail = if said.as_str().is_empty() {
        "git log failed".to_owned()
    } else {
        text2("git log failed: ", said.as_str())
    };
    BeadsError::ExternalCommand { command: "git".to_owned(), detail }
}

} // verus!
