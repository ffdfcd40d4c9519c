//! Promises of the `epic` command.

use crate::epic::{
    all_epic_lines, closed_entries, closed_lines, closed_of, closed_panel, counts_of, dry_run_panel,
    eligible_only, epic_entries, epic_entry, epic_lines, epic_plan, epic_statuses, filled_width,
    percentage, plan_shown, preview_entries, preview_entry, preview_lines, preview_of, progress_bar,
    status_icon, status_of, warning_lines, ChildCount, EpicCommand, EpicModel, EpicPlan, PlanModel,
};
use crate::model::{IssueModel, IssueTypeModel, StatusModel};
use crate::numbers::decimal;
use crate::sanitize::one_line;
use crate::show::OutputMode;
use crate::shown::{one_piece, ShownModel};
use crate::spans::{styled, unstyled, Role};
use vstd::prelude::*;
use vstd::string::*;

verus! {

broadcast use vstd::string::group_string_axioms;

/// An epic has the counts that were taken of it, and none where none were.
pub proof fn law_counts_are_those_of_the_epic(counts: Seq<ChildCount>, id: Seq<char>, i: int)
    ensures
        0 <= i < counts.len() && counts[i].epic_id@ == id && (forall|j: int|
            0 <= j < i ==> (#[trigger] counts[j]).epic_id@ != id) ==> counts_of(counts, id) == (
            counts[i].total,
            counts[i].closed,
        ),
        (forall|j: int| 0 <= j < counts.len() ==> (#[trigger] counts[j]).epic_id@ != id)
            ==> counts_of(counts, id) == (0usize, 0usize),
    decreases counts.len(),
{
    if counts.len() > 0 {
        let rest = counts.skip(1);
        law_counts_are_those_of_the_epic(rest, id, i - 1);
        assert forall|j: int| 0 <= j < rest.len() implies #[trigger] rest[j] == counts[j + 1] by {}
    }
}

/// An epic can be closed exactly where it has children and all of them are closed.
pub proof fn law_epics_close_with_their_children(epic: IssueModel, counts: Seq<ChildCount>)
    ensures
        ({
            let status = status_of(epic, counts);
            &&& status.epic == epic
            &&& status.total_children == counts_of(counts, epic.id).0
            &&& status.closed_children == counts_of(counts, epic.id).1
            &&& status.eligible_for_close <==> status.total_children > 0 && status.closed_children
                == status.total_children
        }),
{
}

/// One issue more is one epic more at the end, exactly where it is an epic that is neither
/// closed nor deleted.
pub proof fn law_open_epics_are_listed(
    issues: Seq<IssueModel>,
    counts: Seq<ChildCount>,
    more: IssueModel,
)
    ensures
        epic_statuses(issues.push(more), counts) == if more.issue_type == IssueTypeModel::Epic
            && more.status != StatusModel::Closed && more.status != StatusModel::Tombstone {
            epic_statuses(issues, counts).push(status_of(more, counts))
        } else {
            epic_statuses(issues, counts)
        },
{
    assert(issues.push(more).drop_last() =~= issues);
}

/// Those that can be closed are picked, in their order, and no others.
pub proof fn law_eligible_epics_are_picked(epics: Seq<EpicModel>, more: EpicModel)
    ensures
        eligible_only(epics.push(more)) == if more.eligible_for_close {
            eligible_only(epics).push(more)
        } else {
            eligible_only(epics)
        },
{
    assert(epics.push(more).drop_last() =~= epics);
}

/// What each command does with the epics: a status shows them, all or those that can be closed;
/// a dry run shows those that would be closed; and else those are closed, where there are any.
pub proof fn law_each_command_has_its_plan(epics: Seq<EpicModel>)
    ensures
        epic_plan(EpicCommand::Status { eligible_only: false }, epics) == (PlanModel::Show {
            epics,
        }),
        epic_plan(EpicCommand::Status { eligible_only: true }, epics) == (PlanModel::Show {
            epics: eligible_only(epics),
        }),
        epic_plan(EpicCommand::CloseEligible { dry_run: true }, epics) == (PlanModel::Preview {
            epics: eligible_only(epics),
        }),
        eligible_only(epics).len() == 0 ==> epic_plan(
            EpicCommand::CloseEligible { dry_run: false },
            epics,
        ) == PlanModel::NothingToClose,
        eligible_only(epics).len() > 0 ==> epic_plan(
            EpicCommand::CloseEligible { dry_run: false },
            epics,
        ) == (PlanModel::Close { epics: eligible_only(epics) }),
{
}

/// The percentage is the largest whole one that the share of closed children reaches, and full
/// where more are closed than there are; without children it is nought.
pub proof fn law_percentage_is_the_share(closed: usize, total: usize)
    ensures
        total == 0 ==> percentage(closed, total) == 0,
        total > 0 && closed >= total ==> percentage(closed, total) == 100,
        total > 0 && closed < total ==> percentage(closed, total) * total <= closed * 100 < (
        percentage(closed, total) + 1) * total,
{
    if total > 0 {
        let c: int = if closed < total {
            closed as int
        } else {
            total as int
        };
        let t: int = total as int;
        let p: int = percentage(closed, total);
        assert(p == c * 100 / t);
        assert(p * t <= c * 100 < (p + 1) * t) by (nonlinear_arith)
            requires
                p == c * 100 / t,
                t > 0,
        ;
        if closed >= total {
            assert(p == 100) by (nonlinear_arith)
                requires
                    p == c * 100 / t,
                    c == t,
                    t > 0,
            ;
        }
    }
}

/// The filled part of the bar is the largest whole one that the share of closed children
/// reaches, and all of it where all of them are.
pub proof fn law_bar_is_the_share(closed: usize, total: usize, width: usize)
    ensures
        total == 0 ==> filled_width(closed, total, width) == 0,
        total > 0 && closed >= total ==> filled_width(closed, total, width) == width,
        total > 0 && closed < total ==> filled_width(closed, total, width) * total <= closed * width
            < (filled_width(closed, total, width) + 1) * total,
{
    if total > 0 {
        let c: int = if closed < total {
            closed as int
        } else {
            total as int
        };
        let (t, w): (int, int) = (total as int, width as int);
        let p: int = filled_width(closed, total, width);
        assert(p * t <= c * w < (p + 1) * t) by (nonlinear_arith)
            requires
                p == c * w / t,
                t > 0,
        ;
        if closed >= total {
            assert(p == w) by (nonlinear_arith)
                requires
                    p == c * w / t,
                    c == t,
                    t > 0,
            ;
        }
    }
}

/// The mark before an epic: a tick where it can be closed, and a ring else, in the colour of a
/// warning where something is done.
pub proof fn law_marks_tell_how_far(share: int, colour: bool)
    ensures
        status_icon(true, share, colour).text == "✓"@,
        status_icon(false, share, colour).text == "○"@,
        status_icon(true, share, true).role == Role::Success,
        share > 0 ==> status_icon(false, share, true).role == Role::Warning,
        share <= 0 ==> status_icon(false, share, true).role == Role::Normal,
        status_icon(true, share, false).role == Role::Normal,
        status_icon(false, share, false).role == Role::Normal,
{
}

/// One epic more is told at the end of the plain list: its mark, id and title, how many of its
/// children are closed, and whether it can be.
pub proof fn law_each_epic_is_told(epics: Seq<EpicModel>, more: EpicModel, colour: bool)
    ensures
        ({
            let share = percentage(more.closed_children, more.total_children);
            let lines = epic_lines(more, colour);
            &&& all_epic_lines(epics.push(more), colour) == all_epic_lines(epics, colour) + lines
            &&& lines[2].text == one_line(more.epic.id)
            &&& lines[4].text == one_line(more.epic.title)
            &&& lines[5].text == "\n   Progress: "@ + decimal(more.closed_children as nat) + "/"@
                + decimal(more.total_children as nat) + " children closed ("@ + decimal(
                share as nat,
            ) + "%)\n"@
            &&& more.eligible_for_close ==> lines.len() == 10 && lines[7].text
                == "Eligible for closure"@ && lines[0].text == "✓"@
            &&& !more.eligible_for_close ==> lines.len() == 7 && lines[0].text == "○"@
        }),
{
    assert(epics.push(more).drop_last() =~= epics);
}

/// One epic more is told at the end of the rich list, behind an empty line where it is not the
/// first.
pub proof fn law_each_epic_has_its_entry(epics: Seq<EpicModel>, more: EpicModel)
    ensures
        ({
            let entry = epic_entry(more);
            let gap = if epics.len() > 0 {
                seq![unstyled("\n"@)]
            } else {
                Seq::empty()
            };
            &&& epic_entries(epics.push(more)) == epic_entries(epics) + gap + entry
            &&& entry[1] == styled(one_line(more.epic.id), Role::IssueId)
            &&& entry[3] == styled(one_line(more.epic.title), Role::Emphasis)
            &&& more.eligible_for_close ==> entry[0] == styled("✓ "@, Role::Success)
                && entry[entry.len() - 2] == styled("Ready for closure"@, Role::Success)
            &&& !more.eligible_for_close ==> entry[0].text == "○ "@ && entry.last() == unstyled(
                "\n"@,
            )
        }),
{
    assert(epics.push(more).drop_last() =~= epics);
    let entry = epic_entry(more);
    assert(epic_entries(epics.push(more)) =~= epic_entries(epics) + (if epics.len() > 0 {
        seq![unstyled("\n"@)]
    } else {
        Seq::empty()
    }) + entry);
}

/// A bar stands between brackets and is followed by the counts and the percentage.
pub proof fn law_bar_is_followed_by_the_counts(closed: usize, total: usize, share: usize)
    ensures
        ({
            let bar = progress_bar(closed, total, share);
            let n = bar.len();
            &&& 5 <= n <= 6
            &&& bar[0] == styled("["@, Role::Dimmed)
            &&& bar[n - 3] == styled("] "@, Role::Dimmed)
            &&& bar[n - 2] == unstyled(
                decimal(closed as nat) + "/"@ + decimal(total as nat) + " "@,
            )
            &&& bar[n - 1] == styled("("@ + decimal(share as nat) + "%)"@, Role::Dimmed)
            &&& total > 0 && closed >= total ==> n == 5 && bar[1].role == Role::Success
                && bar[1].text.len() == 20
            &&& closed == 0 || total == 0 ==> n == 5 && bar[1].role == Role::Dimmed
                && bar[1].text.len() == 20
        }),
{
    law_bar_is_the_share(closed, total, 20);
    crate::epic::law_bar_has_fixed_width(closed, total);
    if total > 0 && closed == 0 {
        let p = filled_width(closed, total, 20);
        assert(p == 0) by (nonlinear_arith)
            requires
                p == 0 * 20int / (total as int),
                total > 0,
        ;
    }
}

/// A dry run names every epic that would be closed, in order and counted.
pub proof fn law_preview_names_every_epic(epics: Seq<EpicModel>, more: EpicModel)
    ensures
        preview_of(epics) == "Would close "@ + decimal(epics.len()) + " epic(s):\n"@
            + preview_lines(epics),
        preview_lines(epics.push(more)) == preview_lines(epics) + "  - "@ + one_line(more.epic.id)
            + ": "@ + one_line(more.epic.title) + "\n"@,
        preview_entries(epics.push(more)) == preview_entries(epics) + preview_entry(more),
        preview_entry(more)[1] == styled(one_line(more.epic.id), Role::IssueId),
        preview_entry(more)[3] == unstyled(one_line(more.epic.title)),
        dry_run_panel(epics).skip(3) == preview_entries(epics),
        dry_run_panel(epics)[2].text == "Would close "@ + decimal(epics.len()) + (if epics.len()
            == 1 {
            " epic"@
        } else {
            " epics"@
        }) + ":\n\n"@,
{
    assert(epics.push(more).drop_last() =~= epics);
    assert(preview_lines(epics.push(more)) =~= preview_lines(epics) + "  - "@ + one_line(
        more.epic.id,
    ) + ": "@ + one_line(more.epic.title) + "\n"@);
    assert(dry_run_panel(epics).skip(3) =~= preview_entries(epics));
    reveal_strlit("");
    reveal_strlit("s");
    reveal_strlit(" epic");
    reveal_strlit(" epics");
    assert(" epic"@ + "s"@ =~= " epics"@);
    assert(dry_run_panel(epics)[2].text =~= "Would close "@ + decimal(epics.len()) + (if epics.len()
        == 1 {
        " epic"@
    } else {
        " epics"@
    }) + ":\n\n"@);
}

/// Every epic that was closed is named, in order and counted.
pub proof fn law_closed_epics_are_all_named(ids: Seq<Seq<char>>, more: Seq<char>)
    ensures
        closed_of(ids) == "✓ Closed "@ + decimal(ids.len()) + " epic(s)\n"@ + closed_lines(ids),
        closed_lines(ids.push(more)) == closed_lines(ids) + "  - "@ + one_line(more) + "\n"@,
        closed_entries(ids.push(more)) == closed_entries(ids) + seq![
            styled("  • "@, Role::Dimmed),
            styled(one_line(more), Role::IssueId),
            unstyled("\n"@),
        ],
        ids.len() > 0 ==> closed_panel(ids).skip(3) == closed_entries(ids),
{
    assert(ids.push(more).drop_last() =~= ids);
    assert(closed_lines(ids.push(more)) =~= closed_lines(ids) + "  - "@ + one_line(more) + "\n"@);
    if ids.len() > 0 {
        assert(closed_panel(ids).skip(3) =~= closed_entries(ids));
    }
}

/// Every warning is told on a line of its own.
pub proof fn law_epic_warnings_are_all_told(warnings: Seq<Seq<char>>, more: Seq<char>)
    ensures
        warning_lines(warnings.push(more)) == warning_lines(warnings) + seq![
            styled(more, Role::Warning),
            unstyled("\n"@),
        ],
{
    assert(warnings.push(more).drop_last() =~= warnings);
}

/// What stands for an empty list: a note that says why, in the form that was asked for.
pub proof fn law_empty_lists_are_told(plan: EpicPlan, colour: bool)
    ensures
        (plan matches EpicPlan::Show { epics } && epics@.len() == 0) ==> plan_shown(
            plan,
            OutputMode::Plain,
            colour,
        ) == (ShownModel::Text { body: one_piece("No open epics found"@ + "\n"@) }),
        plan is NothingToClose ==> plan_shown(plan, OutputMode::Plain, colour) == (
        ShownModel::Text { body: one_piece("No epics eligible for closure"@ + "\n"@) }),
        plan_shown(plan, OutputMode::Quiet, colour) == ShownModel::Nothing,
        plan !is Close ==> plan_shown(plan, OutputMode::Json, colour) == ShownModel::Data,
{
}

/// A bar that is neither empty nor full has both its parts, which make twenty together.
pub proof fn law_half_full_bars_have_both_parts(closed: usize, total: usize, share: usize)
    requires
        0 < filled_width(closed, total, 20) < 20,
    ensures
        ({
            let bar = progress_bar(closed, total, share);
            let filled = filled_width(closed, total, 20);
            &&& bar.len() == 6
            &&& bar[1].role == Role::Success && bar[1].text.len() == filled
            &&& bar[2].role == Role::Dimmed && bar[2].text.len() == 20 - filled
            &&& bar[1].text[0] == '█'
            &&& bar[2].text[0] == '░'
        }),
{
}

/// An epic that cannot be closed is marked as a warning once one of its children is closed, and
/// dimmed before.
pub proof fn law_begun_epics_are_marked(e: EpicModel)
    requires
        !e.eligible_for_close,
    ensures
        percentage(e.closed_children, e.total_children) > 0 ==> epic_entry(e)[0].role
            == Role::Warning,
        percentage(e.closed_children, e.total_children) <= 0 ==> epic_entry(e)[0].role
            == Role::Dimmed,
        epic_entry(e)[2] == unstyled(" "@),
{
}

} // verus!
