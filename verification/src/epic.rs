//! The `epic` command: how far epics are, and closing those that are done.

use crate::filters::{no_filters, only_type, FiltersModel, ListFilters};
use crate::model::{
    copy_opt, copy_texts, terminal, Issue, IssueModel, IssueType, IssueTypeModel, Status,
    StatusModel, Timestamp,
};
use crate::numbers::{decimal, decimal_text};
use crate::sanitize::{one_line, sanitize_terminal_inline};
use crate::show::OutputMode;
use crate::shown::{one_piece, one_span, shown, shown_in, Shown, ShownModel};
use crate::sorting::views;
use crate::spans::{push_all, push_styled, push_unstyled, styled, unstyled, Role, Span, SpanModel};
use crate::text::{opt_text, same_text, text2, text3, text5, texts};
use vstd::prelude::*;
use vstd::string::*;

verus! {

broadcast use vstd::string::group_string_axioms;

/// How far an epic is.
#[derive(Debug)]
pub struct EpicStatus {
    pub epic: Issue,
    pub total_children: usize,
    pub closed_children: usize,
    pub eligible_for_close: bool,
}

/// What an [`EpicStatus`] says.
#[verifier::ext_equal]
pub struct EpicModel {
    pub epic: IssueModel,
    pub total_children: usize,
    pub closed_children: usize,
    pub eligible_for_close: bool,
}

impl View for EpicStatus {
    type V = EpicModel;

    open spec fn view(&self) -> EpicModel {
        EpicModel {
            epic: self.epic@,
            total_children: self.total_children,
            closed_children: self.closed_children,
            eligible_for_close: self.eligible_for_close,
        }
    }
}

/// How many children an epic has, and how many of them are closed.
#[derive(Debug)]
pub struct ChildCount {
    pub epic_id: String,
    pub total: usize,
    pub closed: usize,
}

/// The counts of an epic: none where it is not among them.
pub open spec fn counts_of(counts: Seq<ChildCount>, id: Seq<char>) -> (usize, usize)
    decreases counts.len(),
{
    if counts.len() == 0 {
        (0, 0)
    } else if counts[0].epic_id@ == id {
        (counts[0].total, counts[0].closed)
    } else {
        counts_of(counts.skip(1), id)
    }
}

/// An epic may be closed once it has children and all of them are closed.
pub open spec fn eligible(total: usize, closed: usize) -> bool {
    total > 0 && closed == total
}

/// How far an epic is by the counts.
pub open spec fn status_of(epic: IssueModel, counts: Seq<ChildCount>) -> EpicModel {
    let (total, closed) = counts_of(counts, epic.id);
    EpicModel {
        epic,
        total_children: total,
        closed_children: closed,
        eligible_for_close: eligible(total, closed),
    }
}

fn find_counts(counts: &Vec<ChildCount>, id: &str) -> (r: (usize, usize))
    ensures
        r == counts_of(counts@, id@),
{
    let mut i: usize = 0;
    assert(counts@.skip(0) =~= counts@);
    while i < counts.len()
        invariant
            i <= counts@.len(),
            counts_of(counts@, id@) == counts_of(counts@.skip(i as int), id@),
        decreases counts@.len() - i,
    {
        if same_text(counts[i].epic_id.as_str(), id) {
            return (counts[i].total, counts[i].closed);
        }
        assert(counts@.skip(i as int).skip(1) =~= counts@.skip(i + 1));
        i += 1;
    }
    (0, 0)
}

/// The issues that the command is about: epics that are not closed, deferred ones among them.
pub fn epic_filters() -> (r: ListFilters)
    ensures
        r@ == (FiltersModel {
            types: Some(seq![IssueTypeModel::Epic]),
            include_deferred: true,
            ..no_filters()
        }),
        r@.types == Some(seq![IssueTypeModel::Epic]),
        r@.statuses is None && r@.include_deferred && !r@.include_closed,
{
    let mut filters = ListFilters::default();
    filters.types = only_type(IssueType::Epic);
    filters.include_deferred = true;
    filters
}

/// An epic that is not closed. A deleted one counts as closed.
pub open spec fn open_epic(issue: IssueModel) -> bool {
    issue.issue_type == IssueTypeModel::Epic && !terminal(issue.status)
}

fn is_open_epic(issue: &Issue) -> (r: bool)
    ensures
        r == open_epic(issue@),
{
    match &issue.issue_type {
        IssueType::Epic => !issue.status.is_terminal(),
        _ => false,
    }
}

/// How far each epic among the issues is that is not closed, in order.
pub open spec fn epic_statuses(issues: Seq<IssueModel>, counts: Seq<ChildCount>) -> Seq<EpicModel>
    decreases issues.len(),
{
    if issues.len() == 0 {
        Seq::empty()
    } else if open_epic(issues.last()) {
        epic_statuses(issues.drop_last(), counts).push(status_of(issues.last(), counts))
    } else {
        epic_statuses(issues.drop_last(), counts)
    }
}

/// How far each epic among the issues is that is not closed.
pub fn load_epic_statuses(issues: Vec<Issue>, counts: &Vec<ChildCount>) -> (r: Vec<EpicStatus>)
    ensures
        views(r@) == epic_statuses(views(issues@), counts@),
{
    let ghost all = views(issues@);
    let ghost given = issues@;
    let mut out: Vec<EpicStatus> = Vec::new();
    assert(views(out@) =~= epic_statuses(all.take(0), counts@));
    for epic in it: issues
        invariant
            it.seq() == given,
            all == views(given),
            views(out@) == epic_statuses(all.take(it.index() as int), counts@),
    {
        let ghost n = it.index() as int;
        let ghost before = views(out@);
        assert(all.take(n + 1).drop_last() =~= all.take(n));
        assert(all.take(n + 1).last() == epic@);
        if is_open_epic(&epic) {
            let (total_children, closed_children) = find_counts(counts, epic.id.as_str());
            let status = EpicStatus {
                epic,
                total_children,
                closed_children,
                eligible_for_close: total_children > 0 && closed_children == total_children,
            };
            let ghost shown = status@;
            out.push(status);
            assert(views(out@) =~= before.push(shown));
        }
    }
    assert(all.take(all.len() as int) =~= all);
    out
}

/// The statuses are those of the epics that are not closed: each of them has one, with its
/// counts, and nothing else has any.
pub proof fn law_statuses_are_those_of_open_epics(
    issues: Seq<IssueModel>,
    counts: Seq<ChildCount>,
    status: EpicModel,
)
    ensures
        epic_statuses(issues, counts).contains(status) <==> open_epic(status.epic)
            && issues.contains(status.epic) && status == status_of(status.epic, counts),
        epic_statuses(issues, counts).len() == issues.filter(|i: IssueModel| open_epic(i)).len(),
    decreases issues.len(),
{
    let is_open = |i: IssueModel| open_epic(i);
    reveal(Seq::filter);
    if issues.len() > 0 {
        let init = issues.drop_last();
        law_statuses_are_those_of_open_epics(init, counts, status);
        let before = epic_statuses(init, counts);
        let now = epic_statuses(issues, counts);
        assert(issues =~= init.push(issues.last()));
        assert(issues.contains(status.epic) <==> init.contains(status.epic) || issues.last()
            == status.epic) by {
            if init.contains(status.epic) {
                let k = init.index_of(status.epic);
                assert(issues[k] == status.epic);
            }
            if issues.last() == status.epic {
                assert(issues[issues.len() - 1] == status.epic);
            }
        }
        if open_epic(issues.last()) {
            assert(now.contains(status) <==> before.contains(status) || status == status_of(
                issues.last(),
                counts,
            )) by {
                if before.contains(status) {
                    let k = before.index_of(status);
                    assert(now[k] == status);
                }
                if status == status_of(issues.last(), counts) {
                    assert(now[now.len() - 1] == status);
                }
            }
        }
    }
}

/// The epics that may be closed, in order.
pub open spec fn eligible_only(epics: Seq<EpicModel>) -> Seq<EpicModel>
    decreases epics.len(),
{
    if epics.len() == 0 {
        Seq::empty()
    } else if epics.last().eligible_for_close {
        eligible_only(epics.drop_last()).push(epics.last())
    } else {
        eligible_only(epics.drop_last())
    }
}

fn retain_eligible(epics: Vec<EpicStatus>) -> (r: Vec<EpicStatus>)
    ensures
        views(r@) == eligible_only(views(epics@)),
{
    let ghost all = views(epics@);
    let ghost given = epics@;
    let mut out: Vec<EpicStatus> = Vec::new();
    assert(views(out@) =~= eligible_only(all.take(0)));
    for epic in it: epics
        invariant
            it.seq() == given,
            all == views(given),
            views(out@) == eligible_only(all.take(it.index() as int)),
    {
        let ghost n = it.index() as int;
        assert(all.take(n + 1).drop_last() =~= all.take(n));
        assert(all.take(n + 1).last() == epic@);
        if epic.eligible_for_close {
            let ghost before = views(out@);
            let ghost shown = epic@;
            out.push(epic);
            assert(views(out@) =~= before.push(shown));
        }
    }
    assert(all.take(all.len() as int) =~= all);
    out
}

/// What the command was asked for.
#[derive(Debug, Clone, Copy, PartialEq, Eq, Structural)]
pub enum EpicCommand {
    Status { eligible_only: bool },
    CloseEligible { dry_run: bool },
}

/// What the command does.
#[derive(Debug)]
pub enum EpicPlan {
    /// Show how far these epics are.
    Show { epics: Vec<EpicStatus> },
    /// Show which epics would be closed.
    Preview { epics: Vec<EpicStatus> },
    /// Say that no epic can be closed.
    NothingToClose,
    /// Close these epics, all of them or none.
    Close { epics: Vec<EpicStatus> },
}

/// What an [`EpicPlan`] says.
pub enum PlanModel {
    Show { epics: Seq<EpicModel> },
    Preview { epics: Seq<EpicModel> },
    NothingToClose,
    Close { epics: Seq<EpicModel> },
}

impl View for EpicPlan {
    type V = PlanModel;

    open spec fn view(&self) -> PlanModel {
        match self {
            EpicPlan::Show { epics } => PlanModel::Show { epics: views(epics@) },
            EpicPlan::Preview { epics } => PlanModel::Preview { epics: views(epics@) },
            EpicPlan::NothingToClose => PlanModel::NothingToClose,
            EpicPlan::Close { epics } => PlanModel::Close { epics: views(epics@) },
        }
    }
}

/// What the command does with these epics.
pub open spec fn epic_plan(command: EpicCommand, epics: Seq<EpicModel>) -> PlanModel {
    match command {
        EpicCommand::Status { eligible_only: true } => PlanModel::Show {
            epics: eligible_only(epics),
        },
        EpicCommand::Status { eligible_only: false } => PlanModel::Show { epics },
        EpicCommand::CloseEligible { dry_run: true } => PlanModel::Preview {
            epics: eligible_only(epics),
        },
        EpicCommand::CloseEligible { dry_run: false } => if eligible_only(epics).len() == 0 {
            PlanModel::NothingToClose
        } else {
            PlanModel::Close { epics: eligible_only(epics) }
        },
    }
}

pub fn execute(command: EpicCommand, epics: Vec<EpicStatus>) -> (r: EpicPlan)
    ensures
        r@ == epic_plan(command, views(epics@)),
{
    match command {
        EpicCommand::Status { eligible_only } => {
            if eligible_only {
                EpicPlan::Show { epics: retain_eligible(epics) }
            } else {
                EpicPlan::Show { epics }
            }
        },
        EpicCommand::CloseEligible { dry_run } => {
            let epics = retain_eligible(epics);
            if dry_run {
                EpicPlan::Preview { epics }
            } else if epics.len() == 0 {
                EpicPlan::NothingToClose
            } else {
                EpicPlan::Close { epics }
            }
        },
    }
}

/// Serves a command that only reads from storage that the caller has opened; one that
/// writes gets nothing here.
pub fn execute_with_storage_ctx(command: EpicCommand, epics: Vec<EpicStatus>) -> (r: Option<
    EpicPlan,
>)
    ensures
        match command {
            EpicCommand::Status { .. } => r is Some && r->0@ == epic_plan(
                command,
                views(epics@),
            ),
            EpicCommand::CloseEligible { .. } => r is None,
        },
{
    match command {
        EpicCommand::Status { .. } => Some(execute(command, epics)),
        EpicCommand::CloseEligible { .. } => None,
    }
}

proof fn lemma_eligible_only(epics: Seq<EpicModel>)
    ensures
        forall|i: int|
            0 <= i < eligible_only(epics).len() ==> (#[trigger] eligible_only(
                epics,
            )[i]).eligible_for_close && epics.contains(eligible_only(epics)[i]),
        forall|i: int|
            0 <= i < epics.len() && (#[trigger] epics[i]).eligible_for_close ==> eligible_only(
                epics,
            ).contains(epics[i]),
    decreases epics.len(),
{
    if epics.len() > 0 {
        let init = epics.drop_last();
        lemma_eligible_only(init);
        let before = eligible_only(init);
        let now = eligible_only(epics);
        assert forall|i: int| 0 <= i < now.len() implies (#[trigger] now[i]).eligible_for_close
            && epics.contains(now[i]) by {
            if i < before.len() {
                assert(init.contains(before[i]));
                let k = init.index_of(before[i]);
                assert(epics[k] == now[i]);
            } else {
                assert(epics[epics.len() - 1] == now[i]);
            }
        }
        assert forall|i: int|
            0 <= i < epics.len() && (
            #[trigger] epics[i]).eligible_for_close implies now.contains(epics[i]) by {
            if i < init.len() {
                assert(init[i] == epics[i]);
                assert(before.contains(epics[i]));
                let k = before.index_of(epics[i]);
                assert(now[k] == epics[i]);
            } else {
                assert(now[before.len() as int] == epics[i]);
            }
        }
    }
}

/// Of the epics that are not closed exactly those are closed that have children, all of them
/// closed; and a dry run closes none.
pub proof fn law_only_finished_epics_are_closed(
    issues: Seq<IssueModel>,
    counts: Seq<ChildCount>,
    dry_run: bool,
    epic: EpicModel,
)
    ensures
        ({
            let all = epic_statuses(issues, counts);
            let plan = epic_plan(EpicCommand::CloseEligible { dry_run }, all);
            &&& dry_run ==> !(plan is Close)
            &&& plan is Close ==> (plan->Close_epics.contains(epic) <==> all.contains(epic)
                && epic.total_children > 0 && epic.closed_children == epic.total_children)
        }),
{
    let all = epic_statuses(issues, counts);
    lemma_eligible_only(all);
    law_statuses_are_those_of_open_epics(issues, counts, epic);
    let plan = epic_plan(EpicCommand::CloseEligible { dry_run }, all);
    if all.contains(epic) {
        let k = all.index_of(epic);
        assert(all[k] == epic);
    }
    if plan is Close {
        let closed = plan->Close_epics;
        if closed.contains(epic) {
            let k = closed.index_of(epic);
            assert(closed[k].eligible_for_close);
        }
    }
}

/// An epic is closed.
#[derive(Debug)]
pub struct EpicUpdate {
    pub id: String,
    pub status: Status,
    pub closed_at: Timestamp,
    pub close_reason: String,
    pub transition_comment: Option<String>,
}

/// What an [`EpicUpdate`] says.
#[verifier::ext_equal]
pub struct UpdateModel {
    pub id: Seq<char>,
    pub status: StatusModel,
    pub closed_at: Timestamp,
    pub close_reason: Seq<char>,
    pub transition_comment: Option<Seq<char>>,
}

impl View for EpicUpdate {
    type V = UpdateModel;

    open spec fn view(&self) -> UpdateModel {
        UpdateModel {
            id: self.id@,
            status: self.status@,
            closed_at: self.closed_at,
            close_reason: self.close_reason@,
            transition_comment: opt_text(self.transition_comment),
        }
    }
}

/// Why an epic is closed.
pub const EPIC_CLOSE_REASON: &'static str = "All children completed";

/// The updates that close the epics, in order; they are applied in one transaction.
pub fn close_updates(
    epics: &Vec<EpicStatus>,
    now: Timestamp,
    reason: &str,
    transition_comment: &Option<String>,
) -> (r: Vec<EpicUpdate>)
    ensures
        views(r@) == views(epics@).map_values(
            |e: EpicModel|
                UpdateModel {
                    id: e.epic.id,
                    status: StatusModel::Closed,
                    closed_at: now,
                    close_reason: reason@,
                    transition_comment: opt_text(*transition_comment),
                },
        ),
{
    let ghost wanted = views(epics@).map_values(
        |e: EpicModel|
            UpdateModel {
                id: e.epic.id,
                status: StatusModel::Closed,
                closed_at: now,
                close_reason: reason@,
                transition_comment: opt_text(*transition_comment),
            },
    );
    let mut out: Vec<EpicUpdate> = Vec::new();
    let mut i: usize = 0;
    while i < epics.len()
        invariant
            i <= epics@.len(),
            wanted == views(epics@).map_values(
                |e: EpicModel|
                    UpdateModel {
                        id: e.epic.id,
                        status: StatusModel::Closed,
                        closed_at: now,
                        close_reason: reason@,
                        transition_comment: opt_text(*transition_comment),
                    },
            ),
            views(out@) == wanted.take(i as int),
        decreases epics@.len() - i,
    {
        let ghost before = views(out@);
        let update = EpicUpdate {
            id: epics[i].epic.id.clone(),
            status: Status::Closed,
            closed_at: now,
            close_reason: reason.to_owned(),
            transition_comment: copy_opt(transition_comment),
        };
        let ghost shown = update@;
        assert(views(epics@)[i as int] == epics@[i as int]@);
        assert(shown == wanted[i as int]);
        out.push(update);
        i += 1;
        assert(views(out@) =~= before.push(shown));
        assert(views(out@) =~= wanted.take(i as int));
    }
    assert(views(out@) =~= wanted);
    out
}

/// The smaller of two numbers.
pub open spec fn at_most(n: usize, limit: usize) -> int {
    if n < limit {
        n as int
    } else {
        limit as int
    }
}

/// How many hundredths of the children are closed, rounded down.
pub open spec fn percentage(closed: usize, total: usize) -> int {
    if total == 0 {
        0
    } else {
        at_most(closed, total) * 100 / (total as int)
    }
}

pub fn completion_percentage(closed: usize, total: usize) -> (r: usize)
    ensures
        r == percentage(closed, total),
        r <= 100,
{
    if total == 0 {
        return 0;
    }
    let done: u128 = if closed < total {
        closed as u128
    } else {
        total as u128
    };
    proof {
        lemma_share(done as int, total as int, 100);
    }
    let share: u128 = done * 100 / (total as u128);
    share as usize
}

proof fn lemma_share(done: int, total: int, whole: int)
    requires
        0 <= done <= total,
        total > 0,
        whole >= 0,
    ensures
        0 <= done * whole / total <= whole,
        done * whole <= total * whole,
        0 <= done * whole,
{
    assert(done * whole <= total * whole) by (nonlinear_arith)
        requires
            0 <= done <= total,
            whole >= 0,
    ;
    assert(0 <= done * whole) by (nonlinear_arith)
        requires
            0 <= done,
            whole >= 0,
    ;
    assert(total * whole / total == whole) by (nonlinear_arith)
        requires
            total > 0,
    ;
    vstd::arithmetic::div_mod::lemma_div_is_ordered(done * whole, total * whole, total);
    vstd::arithmetic::div_mod::lemma_div_is_ordered(0, done * whole, total);
    assert(0int / total == 0) by (nonlinear_arith)
        requires
            total > 0,
    ;
}

/// How many cells of a bar are filled.
pub open spec fn filled_width(closed: usize, total: usize, bar_width: usize) -> int {
    if total == 0 {
        0
    } else {
        at_most(closed, total) * bar_width / (total as int)
    }
}

pub fn completion_bar_filled_width(closed: usize, total: usize, bar_width: usize) -> (r: usize)
    ensures
        r == filled_width(closed, total, bar_width),
        r <= bar_width,
{
    if total == 0 {
        return 0;
    }
    let done: u128 = if closed < total {
        closed as u128
    } else {
        total as u128
    };
    proof {
        lemma_share(done as int, total as int, bar_width as int);
        assert(total * bar_width <= u128::MAX) by (nonlinear_arith)
            requires
                total <= u64::MAX,
                bar_width <= u64::MAX,
        ;
    }
    let share: u128 = done * (bar_width as u128) / (total as u128);
    share as usize
}

/// The bar is full, and the percentage a hundred, exactly when no child is left open.
pub proof fn law_full_means_done(closed: usize, total: usize)
    requires
        total > 0,
    ensures
        percentage(closed, total) == 100 <==> closed >= total,
{
    let done = at_most(closed, total);
    lemma_share(done, total as int, 100);
    if closed < total {
        assert(done * 100 < total * 100);
        assert(done * 100 / (total as int) < 100) by (nonlinear_arith)
            requires
                0 <= done * 100 < total * 100,
                total > 0,
        ;
    } else {
        assert(total * 100 / (total as int) == 100) by (nonlinear_arith)
            requires
                total > 0,
        ;
    }
}

/// The percentage does not fall while children are closed.
pub proof fn law_percentage_grows(less: usize, more: usize, total: usize)
    requires
        less <= more,
    ensures
        percentage(less, total) <= percentage(more, total),
{
    if total > 0 {
        vstd::arithmetic::div_mod::lemma_div_is_ordered(
            at_most(less, total) * 100,
            at_most(more, total) * 100,
            total as int,
        );
    }
}

/// The same character `n` times.
pub open spec fn repeated(c: char, n: nat) -> Seq<char> {
    Seq::new(n, |i: int| c)
}

fn repeat_char(c: char, n: usize) -> (r: String)
    ensures
        r@ == repeated(c, n as nat),
{
    let mut out: String = String::new();
    let mut i: usize = 0;
    while i < n
        invariant
            i <= n,
            out@ == repeated(c, i as nat),
        decreases n - i,
    {
        out.push(c);
        i += 1;
        assert(out@ =~= repeated(c, i as nat));
    }
    out
}

/// A role where colour is wanted.
pub open spec fn coloured(role: Role, use_color: bool) -> Role {
    if use_color {
        role
    } else {
        Role::Normal
    }
}

fn colour(role: Role, use_color: bool) -> (r: Role)
    ensures
        r == coloured(role, use_color),
{
    if use_color {
        role
    } else {
        Role::Normal
    }
}

/// The mark of an epic: done, begun or not begun.
pub open spec fn status_icon(eligible: bool, percentage: int, use_color: bool) -> SpanModel {
    if eligible {
        styled("✓"@, coloured(Role::Success, use_color))
    } else if percentage > 0 {
        styled("○"@, coloured(Role::Warning, use_color))
    } else {
        unstyled("○"@)
    }
}

pub fn render_status_icon(eligible: bool, percentage: usize, use_color: bool) -> (r: Span)
    ensures
        r@ == status_icon(eligible, percentage as int, use_color),
{
    if eligible {
        Span { text: "✓".to_owned(), role: colour(Role::Success, use_color) }
    } else if percentage > 0 {
        Span { text: "○".to_owned(), role: colour(Role::Warning, use_color) }
    } else {
        Span { text: "○".to_owned(), role: Role::Normal }
    }
}

pub fn format_epic_id(id: &str, use_color: bool) -> (r: Span)
    ensures
        r@ == styled(one_line(id@), coloured(Role::IssueId, use_color)),
{
    Span { text: sanitize_terminal_inline(id), role: colour(Role::IssueId, use_color) }
}

pub fn format_epic_title(title: &str, use_color: bool) -> (r: Span)
    ensures
        r@ == styled(one_line(title@), coloured(Role::Emphasis, use_color)),
{
    Span { text: sanitize_terminal_inline(title), role: colour(Role::Emphasis, use_color) }
}

/// How far an epic is, as lines of text.
pub open spec fn epic_lines(e: EpicModel, use_color: bool) -> Seq<SpanModel> {
    let share = percentage(e.closed_children, e.total_children);
    seq![
        status_icon(e.eligible_for_close, share, use_color),
        unstyled(" "@),
        styled(one_line(e.epic.id), coloured(Role::IssueId, use_color)),
        unstyled(" "@),
        styled(one_line(e.epic.title), coloured(Role::Emphasis, use_color)),
        unstyled(
            "\n   Progress: "@ + decimal(e.closed_children as nat) + "/"@ + decimal(
                e.total_children as nat,
            ) + " children closed ("@ + decimal(share as nat) + "%)\n"@,
        ),
    ] + if e.eligible_for_close {
        seq![
            unstyled("   "@),
            styled("Eligible for closure"@, coloured(Role::Success, use_color)),
            unstyled("\n"@),
        ]
    } else {
        Seq::empty()
    } + seq![unstyled("\n"@)]
}

pub fn render_epic_status(epic_status: &EpicStatus, use_color: bool) -> (r: Vec<Span>)
    ensures
        views(r@) == epic_lines(epic_status@, use_color),
{
    let share = completion_percentage(epic_status.closed_children, epic_status.total_children);
    let icon = render_status_icon(epic_status.eligible_for_close, share, use_color);
    let id = format_epic_id(epic_status.epic.id.as_str(), use_color);
    let title = format_epic_title(epic_status.epic.title.as_str(), use_color);
    let closed = decimal_text(epic_status.closed_children as u64);
    let total = decimal_text(epic_status.total_children as u64);
    let percent = decimal_text(share as u64);
    let mut progress = text5(
        "\n   Progress: ",
        closed.as_str(),
        "/",
        total.as_str(),
        " children closed (",
    );
    progress.append(percent.as_str());
    progress.append("%)\n");
    let mut out: Vec<Span> = Vec::new();
    push_styled(&mut out, icon.text.as_str(), icon.role);
    push_unstyled(&mut out, " ");
    push_styled(&mut out, id.text.as_str(), id.role);
    push_unstyled(&mut out, " ");
    push_styled(&mut out, title.text.as_str(), title.role);
    push_unstyled(&mut out, progress.as_str());
    if epic_status.eligible_for_close {
        push_unstyled(&mut out, "   ");
        push_styled(&mut out, "Eligible for closure", colour(Role::Success, use_color));
        push_unstyled(&mut out, "\n");
    }
    push_unstyled(&mut out, "\n");
    assert(views(out@) =~= epic_lines(epic_status@, use_color));
    out
}

/// The number of cells of a progress bar.
pub const BAR_WIDTH: usize = 20;

/// A piece of text, where it is not empty.
pub open spec fn unless_empty(text: Seq<char>, role: Role) -> Seq<SpanModel> {
    if text.len() > 0 {
        seq![styled(text, role)]
    } else {
        Seq::empty()
    }
}

/// The progress bar of an epic, with its counts.
pub open spec fn progress_bar(closed: usize, total: usize, share: usize) -> Seq<SpanModel> {
    let filled = filled_width(closed, total, BAR_WIDTH);
    seq![styled("["@, Role::Dimmed)] + unless_empty(repeated('█', filled as nat), Role::Success)
        + unless_empty(repeated('░', (BAR_WIDTH - filled) as nat), Role::Dimmed) + seq![
        styled("] "@, Role::Dimmed),
        unstyled(decimal(closed as nat) + "/"@ + decimal(total as nat) + " "@),
        styled("("@ + decimal(share as nat) + "%)"@, Role::Dimmed),
    ]
}

pub fn render_progress_bar(closed: usize, total: usize, percentage: usize) -> (r: Vec<Span>)
    ensures
        views(r@) == progress_bar(closed, total, percentage),
{
    let filled = completion_bar_filled_width(closed, total, BAR_WIDTH);
    let mut out: Vec<Span> = Vec::new();
    push_styled(&mut out, "[", Role::Dimmed);
    if filled > 0 {
        let cells = repeat_char('█', filled);
        push_styled(&mut out, cells.as_str(), Role::Success);
    }
    if filled < BAR_WIDTH {
        let cells = repeat_char('░', BAR_WIDTH - filled);
        push_styled(&mut out, cells.as_str(), Role::Dimmed);
    }
    push_styled(&mut out, "] ", Role::Dimmed);
    let closed_text = decimal_text(closed as u64);
    let total_text = decimal_text(total as u64);
    let mut counts = text3(closed_text.as_str(), "/", total_text.as_str());
    counts.append(" ");
    push_unstyled(&mut out, counts.as_str());
    let percent = decimal_text(percentage as u64);
    let share = text3("(", percent.as_str(), "%)");
    push_styled(&mut out, share.as_str(), Role::Dimmed);
    assert(views(out@) =~= progress_bar(closed, total, percentage));
    out
}

/// A progress bar has the same number of cells however far the epic is.
pub proof fn law_bar_has_fixed_width(closed: usize, total: usize)
    ensures
        0 <= filled_width(closed, total, BAR_WIDTH) <= BAR_WIDTH,
        repeated('█', filled_width(closed, total, BAR_WIDTH) as nat).len() + repeated(
            '░',
            (BAR_WIDTH - filled_width(closed, total, BAR_WIDTH)) as nat,
        ).len() == BAR_WIDTH,
{
    if total > 0 {
        lemma_share(at_most(closed, total), total as int, BAR_WIDTH as int);
    }
}

/// One epic of the panel.
pub open spec fn epic_entry(e: EpicModel) -> Seq<SpanModel> {
    let share = percentage(e.closed_children, e.total_children);
    seq![
        if e.eligible_for_close {
            styled("✓ "@, Role::Success)
        } else if share > 0 {
            styled("○ "@, Role::Warning)
        } else {
            styled("○ "@, Role::Dimmed)
        },
        styled(one_line(e.epic.id), Role::IssueId),
        unstyled(" "@),
        styled(one_line(e.epic.title), Role::Emphasis),
        unstyled("\n"@),
        unstyled("   "@),
    ] + progress_bar(e.closed_children, e.total_children, share as usize) + seq![unstyled("\n"@)]
        + if e.eligible_for_close {
        seq![unstyled("   "@), styled("Ready for closure"@, Role::Success), unstyled("\n"@)]
    } else {
        Seq::empty()
    }
}

/// The epics of the panel, with an empty line between them.
pub open spec fn epic_entries(epics: Seq<EpicModel>) -> Seq<SpanModel>
    decreases epics.len(),
{
    if epics.len() == 0 {
        Seq::empty()
    } else {
        epic_entries(epics.drop_last()) + if epics.len() > 1 {
            seq![unstyled("\n"@)]
        } else {
            Seq::empty()
        } + epic_entry(epics.last())
    }
}

fn push_epic_entry(out: &mut Vec<Span>, e: &EpicStatus)
    ensures
        views(final(out)@) == views(old(out)@) + epic_entry(e@),
{
    let ghost before = views(out@);
    let share = completion_percentage(e.closed_children, e.total_children);
    let id = sanitize_terminal_inline(e.epic.id.as_str());
    let title = sanitize_terminal_inline(e.epic.title.as_str());
    if e.eligible_for_close {
        push_styled(out, "✓ ", Role::Success);
    } else if share > 0 {
        push_styled(out, "○ ", Role::Warning);
    } else {
        push_styled(out, "○ ", Role::Dimmed);
    }
    push_styled(out, id.as_str(), Role::IssueId);
    push_unstyled(out, " ");
    push_styled(out, title.as_str(), Role::Emphasis);
    push_unstyled(out, "\n");
    push_unstyled(out, "   ");
    let bar = render_progress_bar(e.closed_children, e.total_children, share);
    push_all(out, bar);
    push_unstyled(out, "\n");
    if e.eligible_for_close {
        push_unstyled(out, "   ");
        push_styled(out, "Ready for closure", Role::Success);
        push_unstyled(out, "\n");
    }
    assert(views(out@) =~= before + epic_entry(e@));
}

/// What the panel of the epics shows.
pub fn render_epic_status_list_rich(epics: &Vec<EpicStatus>) -> (r: Vec<Span>)
    ensures
        views(r@) == epic_entries(views(epics@)),
{
    let ghost all = views(epics@);
    let mut out: Vec<Span> = Vec::new();
    let mut i: usize = 0;
    assert(views(out@) =~= epic_entries(all.take(0)));
    while i < epics.len()
        invariant
            i <= epics@.len(),
            all == views(epics@),
            views(out@) == epic_entries(all.take(i as int)),
        decreases epics@.len() - i,
    {
        assert(all.take(i + 1).drop_last() =~= all.take(i as int));
        assert(all.take(i + 1).last() == epics@[i as int]@);
        let ghost before = views(out@);
        if i > 0 {
            push_unstyled(&mut out, "\n");
        }
        push_epic_entry(&mut out, &epics[i]);
        i += 1;
        assert(views(out@) =~= epic_entries(all.take(i as int)));
    }
    assert(all.take(all.len() as int) =~= all);
    out
}

/// The plural ending of a count.
pub open spec fn plural(n: nat) -> Seq<char> {
    if n == 1 {
        ""@
    } else {
        "s"@
    }
}

fn plural_ending(n: usize) -> (r: &'static str)
    ensures
        r@ == plural(n as nat),
{
    if n == 1 {
        ""
    } else {
        "s"
    }
}

/// The epics that would be closed, as plain lines.
pub open spec fn preview_lines(epics: Seq<EpicModel>) -> Seq<char>
    decreases epics.len(),
{
    if epics.len() == 0 {
        ""@
    } else {
        preview_lines(epics.drop_last()) + ("  - "@ + one_line(epics.last().epic.id) + ": "@
            + one_line(epics.last().epic.title) + "\n"@)
    }
}

/// What a dry run says in plain text.
pub open spec fn preview_of(epics: Seq<EpicModel>) -> Seq<char> {
    "Would close "@ + decimal(epics.len()) + " epic(s):\n"@ + preview_lines(epics)
}

pub fn preview_text(epics: &Vec<EpicStatus>) -> (r: String)
    ensures
        r@ == preview_of(views(epics@)),
{
    let ghost all = views(epics@);
    let total: usize = epics.len();
    let count = decimal_text(total as u64);
    let mut out = text3("Would close ", count.as_str(), " epic(s):\n");
    let ghost head = out@;
    let mut i: usize = 0;
    proof {
        reveal_strlit("");
        assert(head + preview_lines(all.take(0)) =~= head);
    }
    while i < total
        invariant
            i <= total,
            total == epics@.len(),
            all == views(epics@),
            out@ == head + preview_lines(all.take(i as int)),
        decreases total - i,
    {
        assert(all.take(i + 1).drop_last() =~= all.take(i as int));
        assert(all.take(i + 1).last() == epics@[i as int]@);
        let id = sanitize_terminal_inline(epics[i].epic.id.as_str());
        let title = sanitize_terminal_inline(epics[i].epic.title.as_str());
        let line = text5("  - ", id.as_str(), ": ", title.as_str(), "\n");
        out.append(line.as_str());
        i += 1;
        assert(out@ =~= head + preview_lines(all.take(i as int)));
    }
    assert(all.take(all.len() as int) =~= all);
    out
}

/// One epic in the panel of a dry run.
pub open spec fn preview_entry(e: EpicModel) -> Seq<SpanModel> {
    seq![
        styled("  • "@, Role::Dimmed),
        styled(one_line(e.epic.id), Role::IssueId),
        unstyled(" "@),
        unstyled(one_line(e.epic.title)),
        unstyled("\n"@),
    ]
}

/// The epics in the panel of a dry run.
pub open spec fn preview_entries(epics: Seq<EpicModel>) -> Seq<SpanModel>
    decreases epics.len(),
{
    if epics.len() == 0 {
        Seq::empty()
    } else {
        preview_entries(epics.drop_last()) + preview_entry(epics.last())
    }
}

/// What the panel of a dry run shows.
pub open spec fn dry_run_panel(epics: Seq<EpicModel>) -> Seq<SpanModel> {
    seq![
        styled("⚡ Dry-run mode "@, Role::Warning),
        styled("(no changes will be made)\n\n"@, Role::Dimmed),
        unstyled(
            "Would close "@ + decimal(epics.len()) + " epic"@ + plural(epics.len()) + ":\n\n"@,
        ),
    ] + preview_entries(epics)
}

pub fn render_dry_run_rich(epics: &Vec<EpicStatus>) -> (r: Vec<Span>)
    ensures
        views(r@) == dry_run_panel(views(epics@)),
{
    let ghost all = views(epics@);
    let total: usize = epics.len();
    let count = decimal_text(total as u64);
    let mut out: Vec<Span> = Vec::new();
    push_styled(&mut out, "⚡ Dry-run mode ", Role::Warning);
    push_styled(&mut out, "(no changes will be made)\n\n", Role::Dimmed);
    let heading = text5("Would close ", count.as_str(), " epic", plural_ending(total), ":\n\n");
    push_unstyled(&mut out, heading.as_str());
    let ghost head = views(out@);
    assert(head =~= seq![
        styled("⚡ Dry-run mode "@, Role::Warning),
        styled("(no changes will be made)\n\n"@, Role::Dimmed),
        unstyled(
            "Would close "@ + decimal(epics@.len()) + " epic"@ + plural(epics@.len()) + ":\n\n"@,
        ),
    ]);
    let mut i: usize = 0;
    assert(head + preview_entries(all.take(0)) =~= head);
    while i < total
        invariant
            i <= total,
            total == epics@.len(),
            all == views(epics@),
            views(out@) == head + preview_entries(all.take(i as int)),
        decreases total - i,
    {
        assert(all.take(i + 1).drop_last() =~= all.take(i as int));
        assert(all.take(i + 1).last() == epics@[i as int]@);
        let id = sanitize_terminal_inline(epics[i].epic.id.as_str());
        let title = sanitize_terminal_inline(epics[i].epic.title.as_str());
        push_styled(&mut out, "  • ", Role::Dimmed);
        push_styled(&mut out, id.as_str(), Role::IssueId);
        push_unstyled(&mut out, " ");
        push_unstyled(&mut out, title.as_str());
        push_unstyled(&mut out, "\n");
        i += 1;
        assert(views(out@) =~= head + preview_entries(all.take(i as int)));
    }
    assert(all.take(all.len() as int) =~= all);
    out
}

/// The epics that were closed, as plain lines.
pub open spec fn closed_lines(ids: Seq<Seq<char>>) -> Seq<char>
    decreases ids.len(),
{
    if ids.len() == 0 {
        ""@
    } else {
        closed_lines(ids.drop_last()) + ("  - "@ + one_line(ids.last()) + "\n"@)
    }
}

/// What is said in plain text of the epics that were closed.
pub open spec fn closed_of(ids: Seq<Seq<char>>) -> Seq<char> {
    "✓ Closed "@ + decimal(ids.len()) + " epic(s)\n"@ + closed_lines(ids)
}

pub fn closed_text(closed_ids: &Vec<String>) -> (r: String)
    ensures
        r@ == closed_of(texts(closed_ids@)),
{
    let ghost all = texts(closed_ids@);
    let total: usize = closed_ids.len();
    let count = decimal_text(total as u64);
    let mut out = text3("✓ Closed ", count.as_str(), " epic(s)\n");
    let ghost head = out@;
    let mut i: usize = 0;
    proof {
        reveal_strlit("");
        assert(head + closed_lines(all.take(0)) =~= head);
    }
    while i < total
        invariant
            i <= total,
            total == closed_ids@.len(),
            all == texts(closed_ids@),
            out@ == head + closed_lines(all.take(i as int)),
        decreases total - i,
    {
        assert(all.take(i + 1).drop_last() =~= all.take(i as int));
        assert(all.take(i + 1).last() == closed_ids@[i as int]@);
        let id = sanitize_terminal_inline(closed_ids[i].as_str());
        let line = text3("  - ", id.as_str(), "\n");
        out.append(line.as_str());
        i += 1;
        assert(out@ =~= head + closed_lines(all.take(i as int)));
    }
    assert(all.take(all.len() as int) =~= all);
    out
}

/// The epics in the panel of those that were closed.
pub open spec fn closed_entries(ids: Seq<Seq<char>>) -> Seq<SpanModel>
    decreases ids.len(),
{
    if ids.len() == 0 {
        Seq::empty()
    } else {
        closed_entries(ids.drop_last()) + seq![
            styled("  • "@, Role::Dimmed),
            styled(one_line(ids.last()), Role::IssueId),
            unstyled("\n"@),
        ]
    }
}

/// What the panel of the epics that were closed shows.
pub open spec fn closed_panel(ids: Seq<Seq<char>>) -> Seq<SpanModel> {
    seq![
        styled("✓ "@, Role::Success),
        styled(
            "Closed "@ + decimal(ids.len()) + " epic"@ + plural(ids.len()) + "\n"@,
            Role::Success,
        ),
    ] + if ids.len() > 0 {
        seq![unstyled("\n"@)] + closed_entries(ids)
    } else {
        Seq::empty()
    }
}

pub fn render_close_result_rich(closed_ids: &Vec<String>) -> (r: Vec<Span>)
    ensures
        views(r@) == closed_panel(texts(closed_ids@)),
{
    let ghost all = texts(closed_ids@);
    let total: usize = closed_ids.len();
    let count = decimal_text(total as u64);
    let mut out: Vec<Span> = Vec::new();
    push_styled(&mut out, "✓ ", Role::Success);
    let heading = text5("Closed ", count.as_str(), " epic", plural_ending(total), "\n");
    push_styled(&mut out, heading.as_str(), Role::Success);
    let ghost head = views(out@);
    assert(head =~= seq![
        styled("✓ "@, Role::Success),
        styled(
            "Closed "@ + decimal(closed_ids@.len()) + " epic"@ + plural(closed_ids@.len()) + "\n"@,
            Role::Success,
        ),
    ]);
    if total == 0 {
        assert(head + Seq::<SpanModel>::empty() =~= head);
        return out;
    }
    push_unstyled(&mut out, "\n");
    let ghost start = seq![unstyled("\n"@)];
    let mut i: usize = 0;
    assert(views(out@) =~= head + (start + closed_entries(all.take(0))));
    while i < total
        invariant
            i <= total,
            total == closed_ids@.len(),
            all == texts(closed_ids@),
            views(out@) == head + (start + closed_entries(all.take(i as int))),
        decreases total - i,
    {
        assert(all.take(i + 1).drop_last() =~= all.take(i as int));
        assert(all.take(i + 1).last() == closed_ids@[i as int]@);
        let id = sanitize_terminal_inline(closed_ids[i].as_str());
        push_styled(&mut out, "  • ", Role::Dimmed);
        push_styled(&mut out, id.as_str(), Role::IssueId);
        push_unstyled(&mut out, "\n");
        i += 1;
        assert(views(out@) =~= head + (start + closed_entries(all.take(i as int))));
    }
    assert(all.take(all.len() as int) =~= all);
    out
}

/// What is said where there is no open epic.
pub const NO_OPEN_EPICS: &'static str = "No open epics found";

/// What is said where no epic can be closed.
pub const NO_ELIGIBLE_EPICS: &'static str = "No epics eligible for closure";

/// A panel with one dimmed line.
pub open spec fn note_panel(note: Seq<char>) -> Seq<SpanModel> {
    seq![styled(note, Role::Dimmed), unstyled("\n"@)]
}

pub fn render_note_rich(note: &str) -> (r: Vec<Span>)
    ensures
        views(r@) == note_panel(note@),
{
    let mut out: Vec<Span> = Vec::new();
    push_styled(&mut out, note, Role::Dimmed);
    push_unstyled(&mut out, "\n");
    assert(views(out@) =~= seq![styled(note@, Role::Dimmed), unstyled("\n"@)]);
    out
}

/// How far the epics are, as lines of text.
pub open spec fn all_epic_lines(epics: Seq<EpicModel>, use_color: bool) -> Seq<SpanModel>
    decreases epics.len(),
{
    if epics.len() == 0 {
        Seq::empty()
    } else {
        all_epic_lines(epics.drop_last(), use_color) + epic_lines(epics.last(), use_color)
    }
}

fn render_epic_statuses(epics: &Vec<EpicStatus>, use_color: bool) -> (r: Vec<Span>)
    ensures
        views(r@) == all_epic_lines(views(epics@), use_color),
{
    let ghost all = views(epics@);
    let mut out: Vec<Span> = Vec::new();
    let mut i: usize = 0;
    assert(views(out@) =~= all_epic_lines(all.take(0), use_color));
    while i < epics.len()
        invariant
            i <= epics@.len(),
            all == views(epics@),
            views(out@) == all_epic_lines(all.take(i as int), use_color),
        decreases epics@.len() - i,
    {
        assert(all.take(i + 1).drop_last() =~= all.take(i as int));
        assert(all.take(i + 1).last() == epics@[i as int]@);
        push_all(&mut out, render_epic_status(&epics[i], use_color));
        i += 1;
    }
    assert(all.take(all.len() as int) =~= all);
    out
}

/// What the command shows of a note.
pub open spec fn note_shown(mode: OutputMode, title: Seq<char>, note: Seq<char>) -> ShownModel {
    shown_in(mode, title, note_panel(note), one_piece(note + "\n"@))
}

fn show_note(mode: OutputMode, title: &str, note: &str) -> (r: Shown)
    ensures
        r@ == note_shown(mode, title@, note@),
{
    let line = text2(note, "\n");
    shown(mode, title, render_note_rich(note), one_span(line.as_str()))
}

/// What the command shows of a plan. Of epics that are to be closed it shows nothing before
/// they are.
pub open spec fn plan_shown(plan: EpicPlan, mode: OutputMode, use_color: bool) -> ShownModel {
    match plan {
        EpicPlan::Show { epics } => if epics@.len() == 0 {
            note_shown(mode, "Epic Status"@, NO_OPEN_EPICS@)
        } else {
            shown_in(
                mode,
                "Epic Status"@,
                epic_entries(views(epics@)),
                all_epic_lines(views(epics@), use_color),
            )
        },
        EpicPlan::Preview { epics } => shown_in(
            mode,
            "Epic Close (Dry Run)"@,
            dry_run_panel(views(epics@)),
            one_piece(preview_of(views(epics@))),
        ),
        EpicPlan::NothingToClose => note_shown(mode, "Epic Close"@, NO_ELIGIBLE_EPICS@),
        EpicPlan::Close { .. } => ShownModel::Nothing,
    }
}

pub fn show_plan(plan: &EpicPlan, mode: OutputMode, use_color: bool) -> (r: Shown)
    ensures
        r@ == plan_shown(*plan, mode, use_color),
{
    match plan {
        EpicPlan::Show { epics } => {
            if epics.len() == 0 {
                return show_note(mode, "Epic Status", NO_OPEN_EPICS);
            }
            let panel = render_epic_status_list_rich(epics);
            shown(mode, "Epic Status", panel, render_epic_statuses(epics, use_color))
        },
        EpicPlan::Preview { epics } => {
            let lines = preview_text(epics);
            let panel = render_dry_run_rich(epics);
            shown(mode, "Epic Close (Dry Run)", panel, one_span(lines.as_str()))
        },
        EpicPlan::NothingToClose => show_note(mode, "Epic Close", NO_ELIGIBLE_EPICS),
        EpicPlan::Close { .. } => Shown::Nothing,
    }
}

/// What the command shows of the epics that it closed.
pub fn show_closed(mode: OutputMode, closed_ids: &Vec<String>) -> (r: Shown)
    ensures
        r@ == shown_in(
            mode,
            "Epic Close"@,
            closed_panel(texts(closed_ids@)),
            one_piece(closed_of(texts(closed_ids@))),
        ),
{
    let lines = closed_text(closed_ids);
    shown(mode, "Epic Close", render_close_result_rich(closed_ids), one_span(lines.as_str()))
}

/// What the command reports to a program: the epics that it closed, how many they are, and
/// what it warns of.
#[derive(Debug)]
pub struct CloseEligibleResult {
    pub closed: Vec<String>,
    pub count: usize,
    pub warnings: Vec<String>,
}

pub fn close_eligible_result(closed_ids: &Vec<String>, warnings: &Vec<String>) -> (r:
    CloseEligibleResult)
    ensures
        texts(r.closed@) == texts(closed_ids@),
        r.count == closed_ids@.len(),
        texts(r.warnings@) == texts(warnings@),
{
    CloseEligibleResult {
        closed: copy_texts(closed_ids),
        count: closed_ids.len(),
        warnings: copy_texts(warnings),
    }
}

/// The warnings, each on a line of its own.
pub open spec fn warning_lines(warnings: Seq<Seq<char>>) -> Seq<SpanModel>
    decreases warnings.len(),
{
    if warnings.len() == 0 {
        Seq::empty()
    } else {
        warning_lines(warnings.drop_last()) + seq![
            styled(warnings.last(), Role::Warning),
            unstyled("\n"@),
        ]
    }
}

fn warning_spans(warnings: &Vec<String>) -> (r: Vec<Span>)
    ensures
        views(r@) == warning_lines(texts(warnings@)),
{
    let ghost all = texts(warnings@);
    let mut out: Vec<Span> = Vec::new();
    let mut i: usize = 0;
    assert(views(out@) =~= warning_lines(all.take(0)));
    while i < warnings.len()
        invariant
            i <= warnings@.len(),
            all == texts(warnings@),
            views(out@) == warning_lines(all.take(i as int)),
        decreases warnings@.len() - i,
    {
        assert(all.take(i + 1).drop_last() =~= all.take(i as int));
        assert(all.take(i + 1).last() == warnings@[i as int]@);
        push_styled(&mut out, warnings[i].as_str(), Role::Warning);
        push_unstyled(&mut out, "\n");
        i += 1;
        assert(views(out@) =~= warning_lines(all.take(i as int)));
    }
    assert(all.take(all.len() as int) =~= all);
    out
}

/// What the command shows of the epics that it closed, and behind that the warnings of
/// exceeded capacities. Structured output has the warnings in its data, and a quiet one shows
/// none.
pub fn show_closed_with_warnings(
    mode: OutputMode,
    closed_ids: &Vec<String>,
    warnings: &Vec<String>,
) -> (r: (Shown, Shown))
    ensures
        r.0@ == shown_in(
            mode,
            "Epic Close"@,
            closed_panel(texts(closed_ids@)),
            one_piece(closed_of(texts(closed_ids@))),
        ),
        r.1@ == if (mode == OutputMode::Rich || mode == OutputMode::Plain) && warnings@.len() > 0 {
            ShownModel::Text { body: warning_lines(texts(warnings@)) }
        } else {
            ShownModel::Nothing
        },
{
    let closed = show_closed(mode, closed_ids);
    let behind = if warnings.len() == 0 {
        Shown::Nothing
    } else {
        match mode {
            OutputMode::Rich => Shown::Text { body: warning_spans(warnings) },
            OutputMode::Plain => Shown::Text { body: warning_spans(warnings) },
            _ => Shown::Nothing,
        }
    };
    (closed, behind)
}

} // verus!
