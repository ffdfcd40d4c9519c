//! The details of an issue as plain text.

use crate::model::{Comment, CommentModel, Timestamp};
use crate::numbers::{decimal, decimal_text};
use crate::sanitize::{
    inline_each, inline_list, law_inline_has_no_control, law_multiline_has_no_other_control,
    multiline, one_line, sanitize_terminal_inline, sanitize_terminal_text,
};
use crate::show_jsonl::{
    opt_rollup, DetailsModel, IssueDetails, IssueWithDependencyMetadata, MetadataModel, Rollup,
    RollupModel,
};
use crate::sorting::views;
use crate::text::{
    control, join, joined, opt_str, opt_text, text3, text5, texts, unicode_uppercase, uppercased,
};
use crate::time::{format_utc, printable, utc_text};
use crate::wrap::{
    compact_wrap_width, law_wrapping_adds_only_breaks, wrap_body, wrap_width, wrapped,
};
use vstd::prelude::*;
use vstd::string::*;

verus! {

broadcast use vstd::string::group_string_axioms;

/// How the status, the priority and the type of an issue are shown.
#[derive(Debug)]
pub struct ShownLabels {
    pub status_icon: String,
    pub priority: String,
    pub status: String,
    pub issue_type: String,
}

/// The day of a point in time.
pub open spec fn day(t: Timestamp) -> Seq<char> {
    utc_text(t.seconds as int, t.nanos as int, "%Y-%m-%d"@)
}

fn day_text(t: &Timestamp) -> (r: String)
    ensures
        r@ == day(*t),
        printable(day(*t)),
{
    format_utc(t.seconds, t.nanos, "%Y-%m-%d")
}

/// The minute of a point in time.
pub open spec fn minute(t: Timestamp) -> Seq<char> {
    utc_text(t.seconds as int, t.nanos as int, "%Y-%m-%d %H:%M UTC"@)
}

/// The first line: what the issue is and where it stands.
pub open spec fn header_section(d: DetailsModel, l: ShownLabels, status: Seq<char>) -> Seq<char> {
    l.status_icon@ + " "@ + one_line(d.issue.id) + " · "@ + one_line(d.issue.title) + "   [● "@
        + l.priority@ + " · "@ + status + "]\n"@
}

/// The first line. `status` is the status in upper case.
pub fn header_text(details: &IssueDetails, labels: &ShownLabels, status: &str) -> (r: String)
    ensures
        r@ == header_section(details@, *labels, status@),
{
    let id = sanitize_terminal_inline(details.issue.id.as_str());
    let title = sanitize_terminal_inline(details.issue.title.as_str());
    let mut out = text5(labels.status_icon.as_str(), " ", id.as_str(), " · ", title.as_str());
    out.append("   [● ");
    out.append(labels.priority.as_str());
    out.append(" · ");
    out.append(status);
    out.append("]\n");
    out
}

/// Whose issue it is: the owner, or else the user.
pub open spec fn shown_owner(owner: Option<Seq<char>>, user: Option<Seq<char>>) -> Seq<char> {
    match owner {
        Some(name) => name,
        None => match user {
            Some(name) => name,
            None => "unknown"@,
        },
    }
}

/// The line with the owner and the type.
pub open spec fn owner_section(
    d: DetailsModel,
    l: ShownLabels,
    user: Option<Seq<char>>,
) -> Seq<char> {
    "Owner: "@ + one_line(shown_owner(d.issue.owner, user)) + " · Type: "@ + l.issue_type@ + "\n"@
}

pub fn owner_text(details: &IssueDetails, labels: &ShownLabels, user: Option<&str>) -> (r: String)
    ensures
        r@ == owner_section(details@, *labels, opt_str(user)),
{
    let owner = match &details.issue.owner {
        Some(name) => sanitize_terminal_inline(name.as_str()),
        None => match user {
            Some(name) => sanitize_terminal_inline(name),
            None => sanitize_terminal_inline("unknown"),
        },
    };
    text5("Owner: ", owner.as_str(), " · Type: ", labels.issue_type.as_str(), "\n")
}

/// The line with the days of creation and of the last change.
pub open spec fn dates_section(created: Seq<char>, updated: Seq<char>) -> Seq<char> {
    "Created: "@ + created + " · Updated: "@ + updated + "\n"@
}

pub fn dates_text(created: &str, updated: &str) -> (r: String)
    ensures
        r@ == dates_section(created@, updated@),
{
    text5("Created: ", created, " · Updated: ", updated, "\n")
}

/// A label and a sanitized value, where there is one.
pub open spec fn field_section(label: Seq<char>, value: Option<Seq<char>>) -> Seq<char> {
    match value {
        Some(v) => label + one_line(v) + "\n"@,
        None => ""@,
    }
}

pub fn field_text(label: &str, value: &Option<String>) -> (r: String)
    ensures
        r@ == field_section(label@, opt_text(*value)),
{
    match value {
        Some(v) => {
            let shown = sanitize_terminal_inline(v.as_str());
            text3(label, shown.as_str(), "\n")
        },
        None => "".to_owned(),
    }
}

/// The value, where it is there and not empty.
pub open spec fn nonempty(value: Option<Seq<char>>) -> Option<Seq<char>> {
    match value {
        Some(v) if v.len() > 0 => Some(v),
        _ => None,
    }
}

/// The line with the labels, where there are any.
pub open spec fn labels_section(labels: Seq<Seq<char>>) -> Seq<char> {
    if labels.len() == 0 {
        ""@
    } else {
        "Labels: "@ + join(inline_each(labels), ", "@) + "\n"@
    }
}

pub fn labels_text(labels: &Vec<String>) -> (r: String)
    ensures
        r@ == labels_section(texts(labels@)),
{
    if labels.len() == 0 {
        return "".to_owned();
    }
    let list = inline_list(labels);
    text3("Labels: ", list.as_str(), "\n")
}

/// The line with what the issue is known as elsewhere, where that is not empty.
pub open spec fn reference_section(value: Option<Seq<char>>) -> Seq<char> {
    field_section("Ref: "@, nonempty(value))
}

pub fn reference_text(value: &Option<String>) -> (r: String)
    ensures
        r@ == reference_section(opt_text(*value)),
{
    match value {
        Some(v) => {
            if v.as_str().is_empty() {
                "".to_owned()
            } else {
                field_text("Ref: ", value)
            }
        },
        None => "".to_owned(),
    }
}

/// A label and a day, where there is one.
pub open spec fn day_section(label: Seq<char>, value: Option<Seq<char>>) -> Seq<char> {
    match value {
        Some(day) => label + day + "\n"@,
        None => ""@,
    }
}

pub fn day_line(label: &str, value: &Option<String>) -> (r: String)
    ensures
        r@ == day_section(label@, opt_text(*value)),
{
    match value {
        Some(day) => text3(label, day.as_str(), "\n"),
        None => "".to_owned(),
    }
}

/// The line with the estimate in hours and minutes, where there is one.
pub open spec fn estimate_section(minutes: Option<i32>) -> Seq<char> {
    match minutes {
        Some(m) if m > 0 => {
            let hours = m as int / 60;
            let rest = m as int % 60;
            if hours > 0 && rest > 0 {
                "Estimate: "@ + decimal(hours as nat) + "h "@ + decimal(rest as nat) + "m\n"@
            } else if hours > 0 {
                "Estimate: "@ + decimal(hours as nat) + "h\n"@
            } else {
                "Estimate: "@ + decimal(rest as nat) + "m\n"@
            }
        },
        _ => ""@,
    }
}

pub fn estimate_text(minutes: Option<i32>) -> (r: String)
    ensures
        r@ == estimate_section(minutes),
{
    match minutes {
        Some(m) => {
            if m <= 0 {
                return "".to_owned();
            }
            let hours: u64 = m as u64 / 60;
            let rest: u64 = m as u64 % 60;
            let hours_text = decimal_text(hours);
            let rest_text = decimal_text(rest);
            if hours > 0 && rest > 0 {
                text5("Estimate: ", hours_text.as_str(), "h ", rest_text.as_str(), "m\n")
            } else if hours > 0 {
                text3("Estimate: ", hours_text.as_str(), "h\n")
            } else {
                text3("Estimate: ", rest_text.as_str(), "m\n")
            }
        },
        None => "".to_owned(),
    }
}

/// The line with the day on which the issue was closed, and why.
pub open spec fn closed_section(day: Option<Seq<char>>, reason: Option<Seq<char>>) -> Seq<char> {
    match day {
        Some(shown) => "Closed: "@ + shown + " ("@ + one_line(
            match reason {
                Some(text) => text,
                None => "closed"@,
            },
        ) + ")\n"@,
        None => ""@,
    }
}

pub fn closed_text(day: &Option<String>, reason: &Option<String>) -> (r: String)
    ensures
        r@ == closed_section(opt_text(*day), opt_text(*reason)),
{
    match day {
        Some(shown) => {
            let why = match reason {
                Some(text) => sanitize_terminal_inline(text.as_str()),
                None => sanitize_terminal_inline("closed"),
            };
            text5("Closed: ", shown.as_str(), " (", why.as_str(), ")\n")
        },
        None => "".to_owned(),
    }
}

/// How many descendants have each status.
pub open spec fn breakdown(descendants: Seq<(Seq<char>, u64)>) -> Seq<Seq<char>> {
    descendants.map_values(
        |p: (Seq<char>, u64)| decimal(p.1 as nat) + " "@ + one_line(p.0),
    )
}

/// The line with how the descendants stand.
pub open spec fn rollup_section(rollup: Option<RollupModel>) -> Seq<char> {
    match rollup {
        Some(r) => "Rollup: "@ + one_line(r.status) + " ("@ + join(
            breakdown(r.descendants),
            ", "@,
        ) + ")\n"@,
        None => ""@,
    }
}

pub fn rollup_text(rollup: &Option<Rollup>) -> (r: String)
    ensures
        r@ == rollup_section(opt_rollup(*rollup)),
{
    match rollup {
        Some(rollup) => {
            let mut parts: Vec<String> = Vec::new();
            let mut i: usize = 0;
            while i < rollup.descendants.len()
                invariant
                    i <= rollup.descendants@.len(),
                    texts(parts@) == breakdown(rollup@.descendants).take(i as int),
                decreases rollup.descendants@.len() - i,
            {
                let ghost before = texts(parts@);
                let count = decimal_text(rollup.descendants[i].1);
                let status = sanitize_terminal_inline(rollup.descendants[i].0.as_str());
                let part = text3(count.as_str(), " ", status.as_str());
                let ghost shown = part@;
                parts.push(part);
                i += 1;
                assert(texts(parts@) =~= before.push(shown));
                assert(texts(parts@) =~= breakdown(rollup@.descendants).take(i as int));
            }
            assert(texts(parts@) =~= breakdown(rollup@.descendants));
            let list = joined(&parts, ", ");
            let status = sanitize_terminal_inline(rollup.status.as_str());
            text5("Rollup: ", status.as_str(), " (", list.as_str(), ")\n")
        },
        None => "".to_owned(),
    }
}

/// Free text under a heading, where there is any.
pub open spec fn body_section(heading: Seq<char>, shown: Option<Seq<char>>) -> Seq<char> {
    match shown {
        Some(text) => "\n"@ + heading + text + "\n"@,
        None => ""@,
    }
}

/// Free text under a heading, where there is any. `shown` is sanitized and wrapped.
pub fn body_text(heading: &str, shown: &Option<String>) -> (r: String)
    ensures
        r@ == body_section(heading@, opt_text(*shown)),
{
    match shown {
        Some(text) => {
            let mut out = text3("\n", heading, text.as_str());
            out.append("\n");
            out
        },
        None => "".to_owned(),
    }
}

/// Free text, sanitized and wrapped.
pub open spec fn shown_body(body: Option<Seq<char>>, width: usize) -> Option<Seq<char>> {
    match body {
        Some(text) => Some(wrapped(multiline(text), width)),
        None => None,
    }
}

fn wrap_shown(body: &Option<String>, even_empty: bool, width: usize) -> (r: Option<String>)
    ensures
        opt_text(r) == shown_body(
            if even_empty {
                opt_text(*body)
            } else {
                nonempty(opt_text(*body))
            },
            width,
        ),
{
    match body {
        Some(text) => {
            if !even_empty && text.as_str().is_empty() {
                return None;
            }
            let safe = sanitize_terminal_text(text.as_str());
            Some(wrap_body(safe.as_str(), width))
        },
        None => None,
    }
}

/// One line of dependencies or dependents.
pub open spec fn relation_line(arrow: Seq<char>, m: MetadataModel) -> Seq<char> {
    arrow + one_line(m.id) + " ("@ + one_line(m.dep_type) + ") - "@ + one_line(m.title) + "\n"@
}

/// The lines of dependencies or dependents.
pub open spec fn relation_lines(arrow: Seq<char>, items: Seq<MetadataModel>) -> Seq<char>
    decreases items.len(),
{
    if items.len() == 0 {
        ""@
    } else {
        relation_lines(arrow, items.drop_last()) + relation_line(arrow, items.last())
    }
}

/// The dependencies or the dependents under a heading, where there are any.
pub open spec fn relations_section(
    heading: Seq<char>,
    arrow: Seq<char>,
    items: Seq<MetadataModel>,
) -> Seq<char> {
    if items.len() == 0 {
        ""@
    } else {
        heading + relation_lines(arrow, items)
    }
}

pub fn relations_text(
    heading: &str,
    arrow: &str,
    items: &Vec<IssueWithDependencyMetadata>,
) -> (r: String)
    ensures
        r@ == relations_section(heading@, arrow@, views(items@)),
{
    if items.len() == 0 {
        return "".to_owned();
    }
    let ghost all = views(items@);
    let mut out: String = heading.to_owned();
    let mut i: usize = 0;
    proof {
        reveal_strlit("");
        assert(heading@ + relation_lines(arrow@, all.take(0)) =~= heading@);
    }
    while i < items.len()
        invariant
            i <= items@.len(),
            all == views(items@),
            out@ == heading@ + relation_lines(arrow@, all.take(i as int)),
        decreases items@.len() - i,
    {
        assert(all.take(i + 1).drop_last() =~= all.take(i as int));
        assert(all.take(i + 1).last() == items@[i as int]@);
        let ghost before = out@;
        let id = sanitize_terminal_inline(items[i].id.as_str());
        let dep_type = sanitize_terminal_inline(items[i].dep_type.as_str());
        let title = sanitize_terminal_inline(items[i].title.as_str());
        let mut line = text5(arrow, id.as_str(), " (", dep_type.as_str(), ") - ");
        line.append(title.as_str());
        line.append("\n");
        out.append(line.as_str());
        i += 1;
        assert(out@ =~= heading@ + relation_lines(arrow@, all.take(i as int)));
    }
    assert(all.take(all.len() as int) =~= all);
    out
}

/// A comment as it is shown: when it was made, by whom, and its text, sanitized and
/// wrapped.
#[derive(Debug)]
pub struct ShownComment {
    pub when: String,
    pub author: String,
    pub body: String,
}

/// What a [`ShownComment`] says.
#[verifier::ext_equal]
pub struct ShownCommentModel {
    pub when: Seq<char>,
    pub author: Seq<char>,
    pub body: Seq<char>,
}

impl View for ShownComment {
    type V = ShownCommentModel;

    open spec fn view(&self) -> ShownCommentModel {
        ShownCommentModel { when: self.when@, author: self.author@, body: self.body@ }
    }
}

/// One comment.
pub open spec fn comment_line(c: ShownCommentModel) -> Seq<char> {
    "  ["@ + c.when + "] "@ + one_line(c.author) + ": "@ + c.body + "\n"@
}

/// The comments, in order.
pub open spec fn comment_lines(comments: Seq<ShownCommentModel>) -> Seq<char>
    decreases comments.len(),
{
    if comments.len() == 0 {
        ""@
    } else {
        comment_lines(comments.drop_last()) + comment_line(comments.last())
    }
}

/// The comments under a heading, where there are any.
pub open spec fn comments_section(comments: Seq<ShownCommentModel>) -> Seq<char> {
    if comments.len() == 0 {
        ""@
    } else {
        "\nComments:\n"@ + comment_lines(comments)
    }
}

pub fn comments_text(comments: &Vec<ShownComment>) -> (r: String)
    ensures
        r@ == comments_section(views(comments@)),
{
    if comments.len() == 0 {
        return "".to_owned();
    }
    let ghost all = views(comments@);
    let mut out: String = "\nComments:\n".to_owned();
    let mut i: usize = 0;
    proof {
        reveal_strlit("");
        assert("\nComments:\n"@ + comment_lines(all.take(0)) =~= "\nComments:\n"@);
    }
    while i < comments.len()
        invariant
            i <= comments@.len(),
            all == views(comments@),
            out@ == "\nComments:\n"@ + comment_lines(all.take(i as int)),
        decreases comments@.len() - i,
    {
        assert(all.take(i + 1).drop_last() =~= all.take(i as int));
        assert(all.take(i + 1).last() == comments@[i as int]@);
        let author = sanitize_terminal_inline(comments[i].author.as_str());
        let mut line = text5("  [", comments[i].when.as_str(), "] ", author.as_str(), ": ");
        line.append(comments[i].body.as_str());
        line.append("\n");
        out.append(line.as_str());
        i += 1;
        assert(out@ =~= "\nComments:\n"@ + comment_lines(all.take(i as int)));
    }
    assert(all.take(all.len() as int) =~= all);
    out
}

/// A comment as it is shown.
pub open spec fn shown_comment(c: CommentModel, width: usize) -> ShownCommentModel {
    ShownCommentModel {
        when: minute(c.created_at),
        author: c.author,
        body: wrapped(multiline(c.body), width),
    }
}

/// The comments as they are shown.
pub open spec fn shown_comments(comments: Seq<CommentModel>, width: usize) -> Seq<
    ShownCommentModel,
> {
    comments.map_values(|c: CommentModel| shown_comment(c, width))
}

fn show_comments(comments: &Vec<Comment>, width: usize) -> (r: Vec<ShownComment>)
    ensures
        views(r@) == shown_comments(views(comments@), width),
        forall|i: int|
            0 <= i < comments@.len() ==> printable(
                minute((#[trigger] views(comments@)[i]).created_at),
            ),
{
    let ghost all = views(comments@);
    let ghost wanted = shown_comments(all, width);
    let mut out: Vec<ShownComment> = Vec::new();
    let mut i: usize = 0;
    while i < comments.len()
        invariant
            i <= comments@.len(),
            all == views(comments@),
            wanted == shown_comments(all, width),
            views(out@) == wanted.take(i as int),
            forall|k: int| 0 <= k < i ==> printable(minute((#[trigger] all[k]).created_at)),
        decreases comments@.len() - i,
    {
        let ghost before = views(out@);
        assert(all[i as int] == comments@[i as int]@);
        let when = format_utc(
            comments[i].created_at.seconds,
            comments[i].created_at.nanos,
            "%Y-%m-%d %H:%M UTC",
        );
        let safe = sanitize_terminal_text(comments[i].body.as_str());
        let body = wrap_body(safe.as_str(), width);
        let shown = ShownComment { when, author: comments[i].author.clone(), body };
        let ghost model = shown@;
        out.push(shown);
        i += 1;
        assert(views(out@) =~= before.push(model));
        assert(views(out@) =~= wanted.take(i as int));
    }
    assert(views(out@) =~= wanted);
    out
}

/// The day of a point in time, where there is one.
pub open spec fn opt_day(t: Option<Timestamp>) -> Option<Seq<char>> {
    match t {
        Some(at) => Some(day(at)),
        None => None,
    }
}

fn opt_day_text(t: &Option<Timestamp>) -> (r: Option<String>)
    ensures
        opt_text(r) == opt_day(*t),
        *t is Some ==> printable(day((*t)->0)),
{
    match t {
        Some(at) => Some(day_text(at)),
        None => None,
    }
}

/// The width that the free text of the details is wrapped to.
pub open spec fn body_width(set: Option<Seq<char>>, wrap: bool) -> usize {
    if wrap {
        wrap_width(set)
    } else {
        usize::MAX
    }
}

/// The lines about an issue as a whole.
pub open spec fn facts_section(
    d: DetailsModel,
    labels: ShownLabels,
    user: Option<Seq<char>>,
) -> Seq<char> {
    header_section(d, labels, unicode_uppercase(labels.status@)) + owner_section(d, labels, user)
        + dates_section(day(d.issue.created_at), day(d.issue.updated_at)) + field_section(
        "Assignee: "@,
        d.issue.assignee,
    ) + labels_section(d.labels) + reference_section(d.issue.external_ref) + day_section(
        "Due: "@,
        opt_day(d.issue.due_at),
    ) + day_section("Deferred until: "@, opt_day(d.issue.defer_until)) + estimate_section(
        d.issue.estimated_minutes,
    ) + closed_section(opt_day(d.issue.closed_at), d.issue.close_reason) + rollup_section(
        d.rollup,
    )
}

/// The free text of an issue, and its relations.
pub open spec fn bodies_section(d: DetailsModel, width: usize) -> Seq<char> {
    body_section(""@, shown_body(d.issue.description, width)) + body_section(
        "Design:\n"@,
        shown_body(nonempty(d.issue.design), width),
    ) + body_section(
        "Acceptance Criteria:\n"@,
        shown_body(nonempty(d.issue.acceptance_criteria), width),
    ) + body_section("Notes:\n"@, shown_body(nonempty(d.issue.notes), width)) + relations_section(
        "\nDependencies:\n"@,
        "  -> "@,
        d.dependencies,
    ) + relations_section("\nDependents:\n"@, "  <- "@, d.dependents) + comments_section(
        shown_comments(d.comments, width),
    )
}

/// The details of an issue as text.
pub open spec fn details_shown(
    d: DetailsModel,
    labels: ShownLabels,
    user: Option<Seq<char>>,
    width: usize,
) -> Seq<char> {
    facts_section(d, labels, user) + bodies_section(d, width)
}

/// Holds no control character but line ends and tabs.
pub open spec fn terminal_safe(s: Seq<char>) -> bool {
    forall|i: int|
        0 <= i < s.len() ==> !control(#[trigger] s[i]) || s[i] == '\n' || s[i] == '\t'
}

fn facts_text(
    details: &IssueDetails,
    labels: &ShownLabels,
    user: Option<&str>,
) -> (r: String)
    ensures
        r@ == facts_section(details@, *labels, opt_str(user)),
        dates_printable(details@),
{
    let status = uppercased(labels.status.as_str());
    let mut out = header_text(details, labels, status.as_str());
    let owner = owner_text(details, labels, user);
    out.append(owner.as_str());
    let created = day_text(&details.issue.created_at);
    let updated = day_text(&details.issue.updated_at);
    let dates = dates_text(created.as_str(), updated.as_str());
    out.append(dates.as_str());
    let assignee = field_text("Assignee: ", &details.issue.assignee);
    out.append(assignee.as_str());
    let label_line = labels_text(&details.labels);
    out.append(label_line.as_str());
    let reference = reference_text(&details.issue.external_ref);
    out.append(reference.as_str());
    let due_day = opt_day_text(&details.issue.due_at);
    let due = day_line("Due: ", &due_day);
    out.append(due.as_str());
    let deferred_day = opt_day_text(&details.issue.defer_until);
    let deferred = day_line("Deferred until: ", &deferred_day);
    out.append(deferred.as_str());
    let estimate = estimate_text(details.issue.estimated_minutes);
    out.append(estimate.as_str());
    let closed_day = opt_day_text(&details.issue.closed_at);
    let closed = closed_text(&closed_day, &details.issue.close_reason);
    out.append(closed.as_str());
    let rollup = rollup_text(&details.rollup);
    out.append(rollup.as_str());
    out
}

/// The days that are shown hold no control character.
pub open spec fn dates_printable(d: DetailsModel) -> bool {
    &&& printable(day(d.issue.created_at))
    &&& printable(day(d.issue.updated_at))
    &&& d.issue.due_at is Some ==> printable(day(d.issue.due_at->0))
    &&& d.issue.defer_until is Some ==> printable(day(d.issue.defer_until->0))
    &&& d.issue.closed_at is Some ==> printable(day(d.issue.closed_at->0))
}

/// The labels hold no control character.
pub open spec fn labels_printable(l: ShownLabels) -> bool {
    &&& printable(l.status_icon@)
    &&& printable(l.priority@)
    &&& printable(unicode_uppercase(l.status@))
    &&& printable(l.issue_type@)
}

/// The details of an issue as text, its free text wrapped to the columns that are set.
/// Whatever the issue holds, the text has no control character but line ends and tabs, as
/// long as the labels have none.
pub fn format_issue_details(
    details: &IssueDetails,
    labels: &ShownLabels,
    user: Option<&str>,
    columns: Option<&str>,
    wrap: bool,
) -> (r: String)
    ensures
        r@ == details_shown(
            details@,
            *labels,
            opt_str(user),
            body_width(opt_str(columns), wrap),
        ),
        labels_printable(*labels) ==> terminal_safe(r@),
{
    let width = if wrap {
        compact_wrap_width(columns)
    } else {
        usize::MAX
    };
    let mut out = facts_text(details, labels, user);
    let description = wrap_shown(&details.issue.description, true, width);
    let mut bodies = body_text("", &description);
    let shown_design = wrap_shown(&details.issue.design, false, width);
    let design = body_text("Design:\n", &shown_design);
    bodies.append(design.as_str());
    let shown_criteria = wrap_shown(&details.issue.acceptance_criteria, false, width);
    let criteria = body_text("Acceptance Criteria:\n", &shown_criteria);
    bodies.append(criteria.as_str());
    let shown_notes = wrap_shown(&details.issue.notes, false, width);
    let notes = body_text("Notes:\n", &shown_notes);
    bodies.append(notes.as_str());
    let dependencies = relations_text("\nDependencies:\n", "  -> ", &details.dependencies);
    bodies.append(dependencies.as_str());
    let dependents = relations_text("\nDependents:\n", "  <- ", &details.dependents);
    bodies.append(dependents.as_str());
    let shown = show_comments(&details.comments, width);
    let comments = comments_text(&shown);
    bodies.append(comments.as_str());
    out.append(bodies.as_str());
    proof {
        if labels_printable(*labels) {
            lemma_facts_safe(details@, *labels, opt_str(user));
            lemma_bodies_safe(details@, width);
        }
    }
    out
}

proof fn lemma_inline_safe(s: Seq<char>)
    ensures
        terminal_safe(one_line(s)),
{
    law_inline_has_no_control(s);
}

proof fn lemma_decimal_safe(n: nat)
    ensures
        terminal_safe(decimal(n)),
    decreases n,
{
    if n >= 10 {
        lemma_decimal_safe(n / 10);
    }
}

proof fn lemma_join_safe(parts: Seq<Seq<char>>, sep: Seq<char>)
    requires
        forall|i: int| 0 <= i < parts.len() ==> terminal_safe(#[trigger] parts[i]),
        terminal_safe(sep),
    ensures
        terminal_safe(join(parts, sep)),
    decreases parts.len(),
{
    if parts.len() > 1 {
        assert(forall|i: int| 0 <= i < parts.drop_last().len() ==> parts.drop_last()[i] == parts[i]);
        lemma_join_safe(parts.drop_last(), sep);
        assert(terminal_safe(parts[parts.len() - 1]));
    } else if parts.len() == 1 {
        assert(terminal_safe(parts[0]));
    }
}

proof fn lemma_facts_literals_safe()
    ensures
        terminal_safe(""@),
        terminal_safe(" "@),
        terminal_safe(" · "@),
        terminal_safe("   [● "@),
        terminal_safe("]\n"@),
        terminal_safe("Owner: "@),
        terminal_safe(" · Type: "@),
        terminal_safe("\n"@),
        terminal_safe("Created: "@),
        terminal_safe(" · Updated: "@),
        terminal_safe("Assignee: "@),
        terminal_safe("Labels: "@),
        terminal_safe(", "@),
        terminal_safe("Ref: "@),
        terminal_safe("Due: "@),
        terminal_safe("Deferred until: "@),
        terminal_safe("Estimate: "@),
        terminal_safe("h "@),
        terminal_safe("m\n"@),
        terminal_safe("h\n"@),
        terminal_safe("Closed: "@),
        terminal_safe(" ("@),
        terminal_safe(")\n"@),
        terminal_safe("Rollup: "@),
{
    reveal_strlit("");
    reveal_strlit(" ");
    reveal_strlit(" · ");
    reveal_strlit("   [● ");
    reveal_strlit("]\n");
    reveal_strlit("Owner: ");
    reveal_strlit(" · Type: ");
    reveal_strlit("\n");
    reveal_strlit("Created: ");
    reveal_strlit(" · Updated: ");
    reveal_strlit("Assignee: ");
    reveal_strlit("Labels: ");
    reveal_strlit(", ");
    reveal_strlit("Ref: ");
    reveal_strlit("Due: ");
    reveal_strlit("Deferred until: ");
    reveal_strlit("Estimate: ");
    reveal_strlit("h ");
    reveal_strlit("m\n");
    reveal_strlit("h\n");
    reveal_strlit("Closed: ");
    reveal_strlit(" (");
    reveal_strlit(")\n");
    reveal_strlit("Rollup: ");
}

proof fn lemma_sum_safe(a: Seq<char>, b: Seq<char>, c: Seq<char>, d: Seq<char>)
    requires
        terminal_safe(a),
        terminal_safe(b),
        terminal_safe(c),
        terminal_safe(d),
    ensures
        terminal_safe(a + b + c + d),
{
}

proof fn lemma_header_safe(d: DetailsModel, l: ShownLabels, user: Option<Seq<char>>)
    requires
        labels_printable(l),
    ensures
        terminal_safe(header_section(d, l, unicode_uppercase(l.status@))),
        terminal_safe(owner_section(d, l, user)),
{
    lemma_facts_literals_safe();
    lemma_inline_safe(d.issue.id);
    lemma_inline_safe(d.issue.title);
    lemma_inline_safe(shown_owner(d.issue.owner, user));
}

proof fn lemma_days_safe(d: DetailsModel)
    requires
        dates_printable(d),
    ensures
        terminal_safe(dates_section(day(d.issue.created_at), day(d.issue.updated_at))),
        terminal_safe(day_section("Due: "@, opt_day(d.issue.due_at))),
        terminal_safe(day_section("Deferred until: "@, opt_day(d.issue.defer_until))),
        terminal_safe(closed_section(opt_day(d.issue.closed_at), d.issue.close_reason)),
{
    lemma_facts_literals_safe();
    lemma_inline_safe(
        match d.issue.close_reason {
            Some(reason) => reason,
            None => "closed"@,
        },
    );
}

proof fn lemma_labels_safe(labels: Seq<Seq<char>>)
    ensures
        terminal_safe(labels_section(labels)),
{
    lemma_facts_literals_safe();
    assert forall|i: int| 0 <= i < labels.len() implies terminal_safe(
        #[trigger] inline_each(labels)[i],
    ) by {
        lemma_inline_safe(labels[i]);
    }
    lemma_join_safe(inline_each(labels), ", "@);
}

proof fn lemma_estimate_safe(minutes: Option<i32>)
    ensures
        terminal_safe(estimate_section(minutes)),
{
    lemma_facts_literals_safe();
    if let Some(m) = minutes {
        if m > 0 {
            lemma_decimal_safe((m as int / 60) as nat);
            lemma_decimal_safe((m as int % 60) as nat);
        }
    }
}

proof fn lemma_rollup_safe(rollup: Option<RollupModel>)
    ensures
        terminal_safe(rollup_section(rollup)),
{
    lemma_facts_literals_safe();
    if let Some(r) = rollup {
        lemma_inline_safe(r.status);
        let parts = breakdown(r.descendants);
        assert forall|i: int| 0 <= i < parts.len() implies terminal_safe(#[trigger] parts[i]) by {
            lemma_inline_safe(r.descendants[i].0);
            lemma_decimal_safe(r.descendants[i].1 as nat);
        }
        lemma_join_safe(parts, ", "@);
    }
}

proof fn lemma_facts_safe(
    d: DetailsModel,
    l: ShownLabels,
    user: Option<Seq<char>>,
)
    requires
        labels_printable(l),
        dates_printable(d),
    ensures
        terminal_safe(facts_section(d, l, user)),
{
    assert(terminal_safe("Assignee: "@) && terminal_safe("Ref: "@)) by {
        lemma_facts_literals_safe();
    }
    lemma_header_safe(d, l, user);
    lemma_days_safe(d);
    lemma_field_safe("Assignee: "@, d.issue.assignee);
    lemma_labels_safe(d.labels);
    lemma_field_safe("Ref: "@, nonempty(d.issue.external_ref));
    lemma_estimate_safe(d.issue.estimated_minutes);
    lemma_rollup_safe(d.rollup);
    let header = header_section(d, l, unicode_uppercase(l.status@));
    let owner = owner_section(d, l, user);
    let dates = dates_section(day(d.issue.created_at), day(d.issue.updated_at));
    let assignee = field_section("Assignee: "@, d.issue.assignee);
    let first = header + owner + dates + assignee;
    lemma_sum_safe(header, owner, dates, assignee);
    let labels = labels_section(d.labels);
    let reference = reference_section(d.issue.external_ref);
    let due = day_section("Due: "@, opt_day(d.issue.due_at));
    let second = first + labels + reference + due;
    lemma_sum_safe(first, labels, reference, due);
    let deferred = day_section("Deferred until: "@, opt_day(d.issue.defer_until));
    let estimate = estimate_section(d.issue.estimated_minutes);
    let closed = closed_section(opt_day(d.issue.closed_at), d.issue.close_reason);
    let third = second + deferred + estimate + closed;
    lemma_sum_safe(second, deferred, estimate, closed);
    let end = Seq::<char>::empty();
    lemma_sum_safe(third, rollup_section(d.rollup), end, end);
    assert(third + rollup_section(d.rollup) + end + end =~= third + rollup_section(d.rollup));
}

proof fn lemma_field_safe(label: Seq<char>, value: Option<Seq<char>>)
    requires
        terminal_safe(label),
    ensures
        terminal_safe(field_section(label, value)),
{
    reveal_strlit("");
    reveal_strlit("\n");
    if let Some(v) = value {
        lemma_inline_safe(v);
    }
}

proof fn lemma_wrapped_safe(s: Seq<char>, width: usize)
    ensures
        terminal_safe(wrapped(multiline(s), width)),
{
    let safe = multiline(s);
    let shown = wrapped(safe, width);
    law_multiline_has_no_other_control(s);
    law_wrapping_adds_only_breaks(safe, width);
    assert forall|i: int| 0 <= i < shown.len() implies !control(#[trigger] shown[i]) || shown[i]
        == '\n' || shown[i] == '\t' by {
        if safe.contains(shown[i]) {
            let k = safe.index_of(shown[i]);
            assert(safe[k] == shown[i]);
        }
    }
}

proof fn lemma_bodies_literals_safe()
    ensures
        terminal_safe(""@),
        terminal_safe("\n"@),
        terminal_safe(" ("@),
        terminal_safe(") - "@),
        terminal_safe("  ["@),
        terminal_safe("] "@),
        terminal_safe(": "@),
{
    reveal_strlit("");
    reveal_strlit("\n");
    reveal_strlit(" (");
    reveal_strlit(") - ");
    reveal_strlit("  [");
    reveal_strlit("] ");
    reveal_strlit(": ");
}

proof fn lemma_body_safe(heading: Seq<char>, body: Option<Seq<char>>, width: usize)
    requires
        terminal_safe(heading),
    ensures
        terminal_safe(body_section(heading, shown_body(body, width))),
{
    lemma_bodies_literals_safe();
    if let Some(text) = body {
        lemma_wrapped_safe(text, width);
    }
}

proof fn lemma_relation_lines_safe(arrow: Seq<char>, items: Seq<MetadataModel>)
    requires
        terminal_safe(arrow),
    ensures
        terminal_safe(relation_lines(arrow, items)),
    decreases items.len(),
{
    lemma_bodies_literals_safe();
    if items.len() > 0 {
        lemma_relation_lines_safe(arrow, items.drop_last());
        lemma_inline_safe(items.last().id);
        lemma_inline_safe(items.last().dep_type);
        lemma_inline_safe(items.last().title);
        assert(terminal_safe(relation_line(arrow, items.last())));
    }
}

proof fn lemma_comment_lines_safe(comments: Seq<CommentModel>, width: usize)
    requires
        forall|i: int|
            0 <= i < comments.len() ==> printable(minute((#[trigger] comments[i]).created_at)),
    ensures
        terminal_safe(comment_lines(shown_comments(comments, width))),
    decreases comments.len(),
{
    lemma_bodies_literals_safe();
    if comments.len() > 0 {
        let init = comments.drop_last();
        assert forall|i: int| 0 <= i < init.len() implies printable(
            minute((#[trigger] init[i]).created_at),
        ) by {
            assert(init[i] == comments[i]);
        }
        lemma_comment_lines_safe(init, width);
        let last = comments[comments.len() - 1];
        lemma_inline_safe(last.author);
        lemma_wrapped_safe(last.body, width);
        assert(terminal_safe(comment_line(shown_comment(last, width))));
        assert(shown_comments(comments, width).drop_last() =~= shown_comments(init, width));
    }
}

proof fn lemma_safe_together(a: Seq<char>, b: Seq<char>)
    requires
        terminal_safe(a),
        terminal_safe(b),
    ensures
        terminal_safe(a + b),
{
}

proof fn lemma_relations_safe(heading: Seq<char>, arrow: Seq<char>, items: Seq<MetadataModel>)
    requires
        terminal_safe(heading),
        terminal_safe(arrow),
    ensures
        terminal_safe(relations_section(heading, arrow, items)),
{
    reveal_strlit("");
    lemma_relation_lines_safe(arrow, items);
    lemma_safe_together(heading, relation_lines(arrow, items));
}

proof fn lemma_comments_safe(comments: Seq<CommentModel>, width: usize)
    requires
        forall|i: int|
            0 <= i < comments.len() ==> printable(minute((#[trigger] comments[i]).created_at)),
    ensures
        terminal_safe(comments_section(shown_comments(comments, width))),
{
    reveal_strlit("");
    reveal_strlit("\nComments:\n");
    lemma_comment_lines_safe(comments, width);
    lemma_safe_together("\nComments:\n"@, comment_lines(shown_comments(comments, width)));
}

/// The free texts of an issue, as the details show them.
spec fn texts_section(d: DetailsModel, width: usize) -> Seq<char> {
    body_section(""@, shown_body(d.issue.description, width)) + body_section(
        "Design:\n"@,
        shown_body(nonempty(d.issue.design), width),
    ) + body_section(
        "Acceptance Criteria:\n"@,
        shown_body(nonempty(d.issue.acceptance_criteria), width),
    ) + body_section("Notes:\n"@, shown_body(nonempty(d.issue.notes), width))
}

proof fn lemma_texts_safe(d: DetailsModel, width: usize)
    ensures
        terminal_safe(texts_section(d, width)),
{
    reveal_strlit("");
    reveal_strlit("Design:\n");
    reveal_strlit("Acceptance Criteria:\n");
    reveal_strlit("Notes:\n");
    let description = body_section(""@, shown_body(d.issue.description, width));
    let design = body_section("Design:\n"@, shown_body(nonempty(d.issue.design), width));
    let criteria = body_section(
        "Acceptance Criteria:\n"@,
        shown_body(nonempty(d.issue.acceptance_criteria), width),
    );
    let notes = body_section("Notes:\n"@, shown_body(nonempty(d.issue.notes), width));
    lemma_body_safe(""@, d.issue.description, width);
    lemma_body_safe("Design:\n"@, nonempty(d.issue.design), width);
    lemma_body_safe("Acceptance Criteria:\n"@, nonempty(d.issue.acceptance_criteria), width);
    lemma_body_safe("Notes:\n"@, nonempty(d.issue.notes), width);
    lemma_safe_together(description, design);
    lemma_safe_together(description + design, criteria);
    lemma_safe_together(description + design + criteria, notes);
}

proof fn lemma_bodies_safe(d: DetailsModel, width: usize)
    requires
        forall|i: int|
            0 <= i < d.comments.len() ==> printable(minute((#[trigger] d.comments[i]).created_at)),
    ensures
        terminal_safe(bodies_section(d, width)),
{
    let texts = texts_section(d, width);
    let dependencies = relations_section("\nDependencies:\n"@, "  -> "@, d.dependencies);
    let dependents = relations_section("\nDependents:\n"@, "  <- "@, d.dependents);
    let comments = comments_section(shown_comments(d.comments, width));
    lemma_texts_safe(d, width);
    lemma_relation_literals_safe();
    lemma_relations_safe("\nDependencies:\n"@, "  -> "@, d.dependencies);
    lemma_relations_safe("\nDependents:\n"@, "  <- "@, d.dependents);
    lemma_comments_safe(d.comments, width);
    lemma_safe_together(texts, dependencies);
    lemma_safe_together(texts + dependencies, dependents);
    lemma_safe_together(texts + dependencies + dependents, comments);
}

proof fn lemma_relation_literals_safe()
    ensures
        terminal_safe("\nDependencies:\n"@),
        terminal_safe("  -> "@),
        terminal_safe("\nDependents:\n"@),
        terminal_safe("  <- "@),
{
    reveal_strlit("\nDependencies:\n");
    reveal_strlit("  -> ");
    reveal_strlit("\nDependents:\n");
    reveal_strlit("  <- ");
}

} // verus!
