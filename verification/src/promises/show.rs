//! Promises of the `show` command.

use crate::model::{CommentModel, IssueModel, Timestamp};
use crate::numbers::decimal;
use crate::sanitize::{inline_each, multiline, one_line};
use crate::show_jsonl::{DetailsModel, MetadataModel, RollupModel};
use crate::show_render::{
    bodies_section, body_section, breakdown, closed_section, comment_line, comment_lines,
    comments_section, dates_section, day, day_section, details_shown, estimate_section,
    facts_section, field_section, header_section, labels_section, minute, nonempty, opt_day,
    owner_section, reference_section, relation_lines, relations_section, rollup_section, shown_body,
    shown_comment, shown_comments, ShownCommentModel, ShownLabels,
};
use crate::text::{join, unicode_uppercase};
use crate::wrap::wrapped;
use vstd::prelude::*;
use vstd::string::*;

verus! {

broadcast use vstd::string::group_string_axioms;

/// The longer text is the shorter one with a part put in somewhere.
pub open spec fn one_more(shorter: Seq<char>, longer: Seq<char>, part: Seq<char>) -> bool {
    exists|at: int|
        0 <= at <= shorter.len() && longer == #[trigger] shorter.take(at) + part + shorter.skip(at)
}

/// The texts end to end.
spec fn flat(parts: Seq<Seq<char>>) -> Seq<char>
    decreases parts.len(),
{
    if parts.len() == 0 {
        Seq::empty()
    } else {
        flat(parts.drop_last()) + parts.last()
    }
}

proof fn lemma_put_in(shorter: Seq<char>, longer: Seq<char>, part: Seq<char>, at: int)
    requires
        0 <= at <= shorter.len(),
        longer =~= shorter.take(at) + part + shorter.skip(at),
    ensures
        one_more(shorter, longer, part),
{
    assert(longer == shorter.take(at) + part + shorter.skip(at));
}

proof fn lemma_flat_lift(parts: Seq<Seq<char>>, k: int, new: Seq<char>, part: Seq<char>)
    requires
        0 <= k < parts.len(),
        one_more(parts[k], new, part),
    ensures
        one_more(flat(parts), flat(parts.update(k, new)), part),
    decreases parts.len(),
{
    let init = parts.drop_last();
    let next = parts.update(k, new);
    let whole = flat(parts);
    if k == parts.len() - 1 {
        let old = parts[k];
        let at = choose|at: int|
            0 <= at <= old.len() && new == #[trigger] old.take(at) + part + old.skip(at);
        assert(next.drop_last() =~= init);
        let head = flat(init);
        lemma_put_in(whole, flat(next), part, head.len() + at);
    } else {
        lemma_flat_lift(init, k, new, part);
        let (a, b) = (flat(init), flat(init.update(k, new)));
        let at = choose|at: int|
            0 <= at <= a.len() && b == #[trigger] a.take(at) + part + a.skip(at);
        assert(next.drop_last() =~= init.update(k, new));
        lemma_put_in(whole, flat(next), part, at);
    }
}

proof fn lemma_flat_prefix(parts: Seq<Seq<char>>, n: int)
    requires
        0 < n <= parts.len(),
    ensures
        flat(parts.take(n)) == flat(parts.take(n - 1)) + parts[n - 1],
{
    assert(parts.take(n).drop_last() =~= parts.take(n - 1));
}

proof fn lemma_flat_of_eleven(
    a0: Seq<char>,
    a1: Seq<char>,
    a2: Seq<char>,
    a3: Seq<char>,
    a4: Seq<char>,
    a5: Seq<char>,
    a6: Seq<char>,
    a7: Seq<char>,
    a8: Seq<char>,
    a9: Seq<char>,
    a10: Seq<char>,
)
    ensures
        flat(seq![a0, a1, a2, a3, a4, a5, a6, a7, a8, a9, a10]) == a0 + a1 + a2 + a3 + a4 + a5
            + a6 + a7 + a8 + a9 + a10,
{
    let s = seq![a0, a1, a2, a3, a4, a5, a6, a7, a8, a9, a10];
    assert(flat(s.take(0)) =~= Seq::<char>::empty());
    assert(Seq::<char>::empty() + a0 =~= a0);
    lemma_flat_prefix(s, 1);
    lemma_flat_prefix(s, 2);
    lemma_flat_prefix(s, 3);
    lemma_flat_prefix(s, 4);
    lemma_flat_prefix(s, 5);
    lemma_flat_prefix(s, 6);
    lemma_flat_prefix(s, 7);
    lemma_flat_prefix(s, 8);
    lemma_flat_prefix(s, 9);
    lemma_flat_prefix(s, 10);
    lemma_flat_prefix(s, 11);
    assert(s.take(11) =~= s);
}

proof fn lemma_flat_of_seven(
    a0: Seq<char>,
    a1: Seq<char>,
    a2: Seq<char>,
    a3: Seq<char>,
    a4: Seq<char>,
    a5: Seq<char>,
    a6: Seq<char>,
)
    ensures
        flat(seq![a0, a1, a2, a3, a4, a5, a6]) == a0 + a1 + a2 + a3 + a4 + a5 + a6,
{
    let s = seq![a0, a1, a2, a3, a4, a5, a6];
    assert(flat(s.take(0)) =~= Seq::<char>::empty());
    assert(Seq::<char>::empty() + a0 =~= a0);
    lemma_flat_prefix(s, 1);
    lemma_flat_prefix(s, 2);
    lemma_flat_prefix(s, 3);
    lemma_flat_prefix(s, 4);
    lemma_flat_prefix(s, 5);
    lemma_flat_prefix(s, 6);
    lemma_flat_prefix(s, 7);
    assert(s.take(7) =~= s);
}

#[verifier::opaque]
spec fn facts(d: DetailsModel, l: ShownLabels, user: Option<Seq<char>>) -> Seq<Seq<char>> {
    seq![
        header_section(d, l, unicode_uppercase(l.status@)),
        owner_section(d, l, user),
        dates_section(day(d.issue.created_at), day(d.issue.updated_at)),
        field_section("Assignee: "@, d.issue.assignee),
        labels_section(d.labels),
        reference_section(d.issue.external_ref),
        day_section("Due: "@, opt_day(d.issue.due_at)),
        day_section("Deferred until: "@, opt_day(d.issue.defer_until)),
        estimate_section(d.issue.estimated_minutes),
        closed_section(opt_day(d.issue.closed_at), d.issue.close_reason),
        rollup_section(d.rollup),
    ]
}

proof fn lemma_facts(d: DetailsModel, l: ShownLabels, user: Option<Seq<char>>)
    ensures
        facts(d, l, user).len() == 11,
        facts(d, l, user)[0] == header_section(d, l, unicode_uppercase(l.status@)),
        facts(d, l, user)[1] == owner_section(d, l, user),
        facts(d, l, user)[2] == dates_section(day(d.issue.created_at), day(d.issue.updated_at)),
        facts(d, l, user)[3] == field_section("Assignee: "@, d.issue.assignee),
        facts(d, l, user)[4] == labels_section(d.labels),
        facts(d, l, user)[5] == reference_section(d.issue.external_ref),
        facts(d, l, user)[6] == day_section("Due: "@, opt_day(d.issue.due_at)),
        facts(d, l, user)[7] == day_section("Deferred until: "@, opt_day(d.issue.defer_until)),
        facts(d, l, user)[8] == estimate_section(d.issue.estimated_minutes),
        facts(d, l, user)[9] == closed_section(opt_day(d.issue.closed_at), d.issue.close_reason),
        facts(d, l, user)[10] == rollup_section(d.rollup),
        flat(facts(d, l, user)) == facts_section(d, l, user),
{
    reveal(facts);
    lemma_flat_of_eleven(
        header_section(d, l, unicode_uppercase(l.status@)),
        owner_section(d, l, user),
        dates_section(day(d.issue.created_at), day(d.issue.updated_at)),
        field_section("Assignee: "@, d.issue.assignee),
        labels_section(d.labels),
        reference_section(d.issue.external_ref),
        day_section("Due: "@, opt_day(d.issue.due_at)),
        day_section("Deferred until: "@, opt_day(d.issue.defer_until)),
        estimate_section(d.issue.estimated_minutes),
        closed_section(opt_day(d.issue.closed_at), d.issue.close_reason),
        rollup_section(d.rollup),
    );
}

#[verifier::opaque]
spec fn bodies(d: DetailsModel, width: usize) -> Seq<Seq<char>> {
    seq![
        body_section(""@, shown_body(d.issue.description, width)),
        body_section("Design:\n"@, shown_body(nonempty(d.issue.design), width)),
        body_section("Acceptance Criteria:\n"@, shown_body(nonempty(d.issue.acceptance_criteria), width)),
        body_section("Notes:\n"@, shown_body(nonempty(d.issue.notes), width)),
        relations_section("\nDependencies:\n"@, "  -> "@, d.dependencies),
        relations_section("\nDependents:\n"@, "  <- "@, d.dependents),
        comments_section(shown_comments(d.comments, width)),
    ]
}

proof fn lemma_bodies(d: DetailsModel, width: usize)
    ensures
        bodies(d, width).len() == 7,
        bodies(d, width)[0] == body_section(""@, shown_body(d.issue.description, width)),
        bodies(d, width)[1] == body_section("Design:\n"@, shown_body(nonempty(d.issue.design), width)),
        bodies(d, width)[2] == body_section("Acceptance Criteria:\n"@, shown_body(nonempty(d.issue.acceptance_criteria), width)),
        bodies(d, width)[3] == body_section("Notes:\n"@, shown_body(nonempty(d.issue.notes), width)),
        bodies(d, width)[4] == relations_section("\nDependencies:\n"@, "  -> "@, d.dependencies),
        bodies(d, width)[5] == relations_section("\nDependents:\n"@, "  <- "@, d.dependents),
        bodies(d, width)[6] == comments_section(shown_comments(d.comments, width)),
        flat(bodies(d, width)) == bodies_section(d, width),
{
    reveal(bodies);
    lemma_flat_of_seven(
        body_section(""@, shown_body(d.issue.description, width)),
        body_section("Design:\n"@, shown_body(nonempty(d.issue.design), width)),
        body_section("Acceptance Criteria:\n"@, shown_body(nonempty(d.issue.acceptance_criteria), width)),
        body_section("Notes:\n"@, shown_body(nonempty(d.issue.notes), width)),
        relations_section("\nDependencies:\n"@, "  -> "@, d.dependencies),
        relations_section("\nDependents:\n"@, "  <- "@, d.dependents),
        comments_section(shown_comments(d.comments, width)),
    );
}

proof fn lemma_around(a: Seq<char>, b: Seq<char>, c: Seq<char>, part: Seq<char>)
    requires
        one_more(b, c, part),
    ensures
        one_more(a + b, a + c, part),
        one_more(b + a, c + a, part),
{
    let at = choose|at: int| 0 <= at <= b.len() && c == #[trigger] b.take(at) + part + b.skip(at);
    lemma_put_in(a + b, a + c, part, a.len() + at);
    lemma_put_in(b + a, c + a, part, at);
}

/// A part that is put into one of the facts of an issue is put into its details.
proof fn lemma_one_fact(
    d: DetailsModel,
    e: DetailsModel,
    l: ShownLabels,
    user: Option<Seq<char>>,
    width: usize,
    k: int,
    part: Seq<char>,
)
    requires
        0 <= k < 11,
        facts(e, l, user) == facts(d, l, user).update(k, facts(e, l, user)[k]),
        one_more(facts(d, l, user)[k], facts(e, l, user)[k], part),
        bodies_section(e, width) == bodies_section(d, width),
    ensures
        one_more(details_shown(d, l, user, width), details_shown(e, l, user, width), part),
{
    lemma_facts(d, l, user);
    lemma_facts(e, l, user);
    lemma_flat_lift(facts(d, l, user), k, facts(e, l, user)[k], part);
    lemma_around(
        bodies_section(d, width),
        facts_section(d, l, user),
        facts_section(e, l, user),
        part,
    );
}

/// A part that is put into one of the texts and relations of an issue is put into its details.
proof fn lemma_one_body(
    d: DetailsModel,
    e: DetailsModel,
    l: ShownLabels,
    user: Option<Seq<char>>,
    width: usize,
    k: int,
    part: Seq<char>,
)
    requires
        0 <= k < 7,
        bodies(e, width) == bodies(d, width).update(k, bodies(e, width)[k]),
        one_more(bodies(d, width)[k], bodies(e, width)[k], part),
        facts_section(e, l, user) == facts_section(d, l, user),
    ensures
        one_more(details_shown(d, l, user, width), details_shown(e, l, user, width), part),
{
    lemma_bodies(d, width);
    lemma_bodies(e, width);
    lemma_flat_lift(bodies(d, width), k, bodies(e, width)[k], part);
    lemma_around(
        facts_section(d, l, user),
        bodies_section(d, width),
        bodies_section(e, width),
        part,
    );
}

/// What a dependency or a dependent is shown as: its id, how it depends, and its title.
pub open spec fn line_of(arrow: Seq<char>, m: MetadataModel) -> Seq<char> {
    arrow + one_line(m.id) + " ("@ + one_line(m.dep_type) + ") - "@ + one_line(m.title) + "\n"@
}

/// One item more under a heading adds its line at the end, and the heading where it is the
/// first.
pub proof fn law_each_relation_adds_its_line(
    heading: Seq<char>,
    arrow: Seq<char>,
    items: Seq<MetadataModel>,
    more: MetadataModel,
)
    ensures
        relations_section(heading, arrow, Seq::empty()) == ""@,
        relations_section(heading, arrow, items.push(more)) == if items.len() == 0 {
            heading + line_of(arrow, more)
        } else {
            relations_section(heading, arrow, items) + line_of(arrow, more)
        },
{
    reveal_strlit("");
    assert(items.push(more).drop_last() =~= items);
    assert(items.push(more).last() == more);
    assert(relation_lines(arrow, items.push(more)) == relation_lines(arrow, items) + line_of(
        arrow,
        more,
    ));
    assert(relations_section(heading, arrow, items.push(more)) =~= if items.len() == 0 {
        heading + line_of(arrow, more)
    } else {
        relations_section(heading, arrow, items) + line_of(arrow, more)
    });
}

/// Every item has its line under the heading, in the order of the items: the text begins with
/// what those before it give, and goes on with the line.
pub proof fn law_every_relation_has_its_line(
    heading: Seq<char>,
    arrow: Seq<char>,
    items: Seq<MetadataModel>,
    i: int,
)
    requires
        0 <= i < items.len(),
    ensures
        ((if i == 0 {
            heading
        } else {
            relations_section(heading, arrow, items.take(i))
        }) + line_of(arrow, items[i])).is_prefix_of(relations_section(heading, arrow, items)),
    decreases items.len(),
{
    let front = if i == 0 {
        heading
    } else {
        relations_section(heading, arrow, items.take(i))
    };
    let start = front + line_of(arrow, items[i]);
    let init = items.drop_last();
    let whole = relations_section(heading, arrow, items);
    law_each_relation_adds_its_line(heading, arrow, init, items.last());
    assert(init.push(items.last()) =~= items);
    if i == items.len() - 1 {
        assert(items.take(i) =~= init);
        assert(whole =~= start);
        assert(whole.take(start.len() as int) =~= start);
    } else {
        law_every_relation_has_its_line(heading, arrow, init, i);
        assert(init.take(i) =~= items.take(i));
        let before = relations_section(heading, arrow, init);
        assert(before.take(start.len() as int) =~= start);
        assert(whole.take(start.len() as int) =~= start);
    }
}

/// One dependency more adds its line to the details, and nothing else: behind an arrow to the
/// right, under a heading that comes with the first.
pub proof fn law_dependencies_are_all_shown(
    d: DetailsModel,
    l: ShownLabels,
    user: Option<Seq<char>>,
    width: usize,
    more: MetadataModel,
)
    ensures
        ({
            let e = DetailsModel { dependencies: d.dependencies.push(more), ..d };
            one_more(
                details_shown(d, l, user, width),
                details_shown(e, l, user, width),
                (if d.dependencies.len() == 0 {
                    "\nDependencies:\n"@
                } else {
                    ""@
                }) + line_of("  -> "@, more),
            )
        }),
{
    reveal_strlit("");
    let e = DetailsModel { dependencies: d.dependencies.push(more), ..d };
    lemma_bodies(d, width);
    lemma_bodies(e, width);
    let (s, t) = (bodies(d, width), bodies(e, width));
    let part = (if d.dependencies.len() == 0 {
        "\nDependencies:\n"@
    } else {
        ""@
    }) + line_of("  -> "@, more);
    law_each_relation_adds_its_line("\nDependencies:\n"@, "  -> "@, d.dependencies, more);
    lemma_put_in(s[4], t[4], part, s[4].len() as int);
    assert(t =~= s.update(4, t[4]));
    lemma_one_body(d, e, l, user, width, 4, part);
}

/// One dependent more adds its line to the details, and nothing else: behind an arrow to the
/// left, under a heading that comes with the first.
pub proof fn law_dependents_are_all_shown(
    d: DetailsModel,
    l: ShownLabels,
    user: Option<Seq<char>>,
    width: usize,
    more: MetadataModel,
)
    ensures
        ({
            let e = DetailsModel { dependents: d.dependents.push(more), ..d };
            one_more(
                details_shown(d, l, user, width),
                details_shown(e, l, user, width),
                (if d.dependents.len() == 0 {
                    "\nDependents:\n"@
                } else {
                    ""@
                }) + line_of("  <- "@, more),
            )
        }),
{
    reveal_strlit("");
    let e = DetailsModel { dependents: d.dependents.push(more), ..d };
    lemma_bodies(d, width);
    lemma_bodies(e, width);
    let (s, t) = (bodies(d, width), bodies(e, width));
    let part = (if d.dependents.len() == 0 {
        "\nDependents:\n"@
    } else {
        ""@
    }) + line_of("  <- "@, more);
    law_each_relation_adds_its_line("\nDependents:\n"@, "  <- "@, d.dependents, more);
    lemma_put_in(s[5], t[5], part, s[5].len() as int);
    assert(t =~= s.update(5, t[5]));
    lemma_one_body(d, e, l, user, width, 5, part);
}

/// What a comment is shown as: when it was made, by whom, and its text, without control
/// characters and wrapped.
pub open spec fn comment_of(c: CommentModel, width: usize) -> Seq<char> {
    "  ["@ + minute(c.created_at) + "] "@ + one_line(c.author) + ": "@ + wrapped(
        multiline(c.body),
        width,
    ) + "\n"@
}

proof fn lemma_one_comment(
    old: Seq<ShownCommentModel>,
    comment: ShownCommentModel,
    line: Seq<char>,
)
    requires
        line == comment_line(comment),
    ensures
        comments_section(old.push(comment)) == comments_section(old) + (if old.len() == 0 {
            "\nComments:\n"@
        } else {
            ""@
        }) + line,
{
    reveal_strlit("");
    assert(old.push(comment).drop_last() =~= old);
    if old.len() == 0 {
        assert(comment_lines(old) =~= Seq::empty());
        assert(comment_lines(old.push(comment)) =~= line);
        assert(comments_section(old) + "\nComments:\n"@ + line =~= "\nComments:\n"@ + line);
    } else {
        assert(comments_section(old) + ""@ =~= comments_section(old));
        assert(comments_section(old.push(comment)) =~= comments_section(old) + line);
    }
}

/// One comment more adds it to the details at their end, and nothing else: when it was made,
/// by whom, and its text without control characters and wrapped.
pub proof fn law_comments_are_all_shown(
    d: DetailsModel,
    l: ShownLabels,
    user: Option<Seq<char>>,
    width: usize,
    more: CommentModel,
)
    ensures
        ({
            let e = DetailsModel { comments: d.comments.push(more), ..d };
            details_shown(e, l, user, width) == details_shown(d, l, user, width) + (
            if d.comments.len() == 0 {
                "\nComments:\n"@
            } else {
                ""@
            }) + comment_of(more, width)
        }),
{
    reveal_strlit("");
    let e = DetailsModel { comments: d.comments.push(more), ..d };
    let old = shown_comments(d.comments, width);
    let new = shown_comments(e.comments, width);
    let comment = shown_comment(more, width);
    let line = comment_of(more, width);
    assert(new =~= old.push(comment));
    assert(new.drop_last() =~= old);
    lemma_one_comment(old, comment, line);
    let before = body_section(""@, shown_body(d.issue.description, width)) + body_section(
        "Design:\n"@,
        shown_body(nonempty(d.issue.design), width),
    ) + body_section(
        "Acceptance Criteria:\n"@,
        shown_body(nonempty(d.issue.acceptance_criteria), width),
    ) + body_section("Notes:\n"@, shown_body(nonempty(d.issue.notes), width)) + relations_section(
        "\nDependencies:\n"@,
        "  -> "@,
        d.dependencies,
    ) + relations_section("\nDependents:\n"@, "  <- "@, d.dependents);
    lemma_at_the_end(
        facts_section(d, l, user),
        before,
        comments_section(old),
        if d.comments.len() == 0 {
            "\nComments:\n"@
        } else {
            ""@
        },
        line,
    );
}

proof fn lemma_at_the_end(
    facts: Seq<char>,
    before: Seq<char>,
    old: Seq<char>,
    heading: Seq<char>,
    line: Seq<char>,
)
    ensures
        facts + (before + (old + heading + line)) == facts + (before + old) + heading + line,
{
    assert(facts + (before + (old + heading + line)) =~= facts + (before + old) + heading + line);
}

/// Whom an issue is assigned to has a line of its own, where it is assigned.
pub proof fn law_assignee_adds_a_line(
    whole: DetailsModel,
    l: ShownLabels,
    user: Option<Seq<char>>,
    width: usize,
    name: Seq<char>,
)
    ensures
        ({
            let d = DetailsModel { issue: IssueModel { assignee: None, ..whole.issue }, ..whole };
            let e = DetailsModel { issue: IssueModel { assignee: Some(name), ..whole.issue }, ..whole };
            one_more(
                details_shown(d, l, user, width),
                details_shown(e, l, user, width),
                "Assignee: "@ + one_line(name) + "\n"@,
            )
        }),
{
    reveal_strlit("");
    let d = DetailsModel { issue: IssueModel { assignee: None, ..whole.issue }, ..whole };
    let e = DetailsModel { issue: IssueModel { assignee: Some(name), ..whole.issue }, ..whole };
    let part = "Assignee: "@ + one_line(name) + "\n"@;
    lemma_facts(d, l, user);
    lemma_facts(e, l, user);
    let (s, t) = (facts(d, l, user), facts(e, l, user));
    lemma_put_in(s[3], t[3], part, 0);
    assert(t =~= s.update(3, t[3]));
    lemma_one_fact(d, e, l, user, width, 3, part);
}

/// What an issue is known as elsewhere has a line of its own.
pub proof fn law_reference_adds_a_line(
    whole: DetailsModel,
    l: ShownLabels,
    user: Option<Seq<char>>,
    width: usize,
    name: Seq<char>,
)
    requires
        name.len() > 0,
    ensures
        ({
            let d = DetailsModel { issue: IssueModel { external_ref: None, ..whole.issue }, ..whole };
            let e = DetailsModel { issue: IssueModel { external_ref: Some(name), ..whole.issue }, ..whole };
            one_more(
                details_shown(d, l, user, width),
                details_shown(e, l, user, width),
                "Ref: "@ + one_line(name) + "\n"@,
            )
        }),
{
    reveal_strlit("");
    let d = DetailsModel { issue: IssueModel { external_ref: None, ..whole.issue }, ..whole };
    let e = DetailsModel { issue: IssueModel { external_ref: Some(name), ..whole.issue }, ..whole };
    let part = "Ref: "@ + one_line(name) + "\n"@;
    lemma_facts(d, l, user);
    lemma_facts(e, l, user);
    let (s, t) = (facts(d, l, user), facts(e, l, user));
    lemma_put_in(s[5], t[5], part, 0);
    assert(t =~= s.update(5, t[5]));
    lemma_one_fact(d, e, l, user, width, 5, part);
}

/// The day on which an issue is due has a line of its own.
pub proof fn law_due_day_adds_a_line(
    whole: DetailsModel,
    l: ShownLabels,
    user: Option<Seq<char>>,
    width: usize,
    at: Timestamp,
)
    ensures
        ({
            let d = DetailsModel { issue: IssueModel { due_at: None, ..whole.issue }, ..whole };
            let e = DetailsModel { issue: IssueModel { due_at: Some(at), ..whole.issue }, ..whole };
            one_more(
                details_shown(d, l, user, width),
                details_shown(e, l, user, width),
                "Due: "@ + day(at) + "\n"@,
            )
        }),
{
    reveal_strlit("");
    let d = DetailsModel { issue: IssueModel { due_at: None, ..whole.issue }, ..whole };
    let e = DetailsModel { issue: IssueModel { due_at: Some(at), ..whole.issue }, ..whole };
    let part = "Due: "@ + day(at) + "\n"@;
    lemma_facts(d, l, user);
    lemma_facts(e, l, user);
    let (s, t) = (facts(d, l, user), facts(e, l, user));
    lemma_put_in(s[6], t[6], part, 0);
    assert(t =~= s.update(6, t[6]));
    lemma_one_fact(d, e, l, user, width, 6, part);
}

/// The day until which an issue is deferred has a line of its own.
pub proof fn law_deferral_adds_a_line(
    whole: DetailsModel,
    l: ShownLabels,
    user: Option<Seq<char>>,
    width: usize,
    at: Timestamp,
)
    ensures
        ({
            let d = DetailsModel { issue: IssueModel { defer_until: None, ..whole.issue }, ..whole };
            let e = DetailsModel { issue: IssueModel { defer_until: Some(at), ..whole.issue }, ..whole };
            one_more(
                details_shown(d, l, user, width),
                details_shown(e, l, user, width),
                "Deferred until: "@ + day(at) + "\n"@,
            )
        }),
{
    reveal_strlit("");
    let d = DetailsModel { issue: IssueModel { defer_until: None, ..whole.issue }, ..whole };
    let e = DetailsModel { issue: IssueModel { defer_until: Some(at), ..whole.issue }, ..whole };
    let part = "Deferred until: "@ + day(at) + "\n"@;
    lemma_facts(d, l, user);
    lemma_facts(e, l, user);
    let (s, t) = (facts(d, l, user), facts(e, l, user));
    lemma_put_in(s[7], t[7], part, 0);
    assert(t =~= s.update(7, t[7]));
    lemma_one_fact(d, e, l, user, width, 7, part);
}

/// The day on which an issue was closed has a line of its own, with the reason; a reason that
/// is not told is `closed`.
pub proof fn law_closing_adds_a_line(
    whole: DetailsModel,
    l: ShownLabels,
    user: Option<Seq<char>>,
    width: usize,
    at: Timestamp,
)
    ensures
        ({
            let d = DetailsModel { issue: IssueModel { closed_at: None, ..whole.issue }, ..whole };
            let e = DetailsModel { issue: IssueModel { closed_at: Some(at), ..whole.issue }, ..whole };
            one_more(
                details_shown(d, l, user, width),
                details_shown(e, l, user, width),
                "Closed: "@ + day(at) + " ("@ + one_line(
                match whole.issue.close_reason {
                    Some(reason) => reason,
                    None => "closed"@,
                },
            ) + ")\n"@,
            )
        }),
{
    reveal_strlit("");
    let d = DetailsModel { issue: IssueModel { closed_at: None, ..whole.issue }, ..whole };
    let e = DetailsModel { issue: IssueModel { closed_at: Some(at), ..whole.issue }, ..whole };
    let part = "Closed: "@ + day(at) + " ("@ + one_line(
                match whole.issue.close_reason {
                    Some(reason) => reason,
                    None => "closed"@,
                },
            ) + ")\n"@;
    lemma_facts(d, l, user);
    lemma_facts(e, l, user);
    let (s, t) = (facts(d, l, user), facts(e, l, user));
    lemma_put_in(s[9], t[9], part, 0);
    assert(t =~= s.update(9, t[9]));
    lemma_one_fact(d, e, l, user, width, 9, part);
}

/// How the descendants of an issue stand has a line of its own: their status as a whole, and
/// how many have each status.
pub proof fn law_rollup_adds_a_line(
    whole: DetailsModel,
    l: ShownLabels,
    user: Option<Seq<char>>,
    width: usize,
    rollup: RollupModel,
)
    ensures
        ({
            let d = DetailsModel { rollup: None, ..whole };
            let e = DetailsModel { rollup: Some(rollup), ..whole };
            one_more(
                details_shown(d, l, user, width),
                details_shown(e, l, user, width),
                "Rollup: "@ + one_line(rollup.status) + " ("@ + join(breakdown(rollup.descendants), ", "@) + ")\n"@,
            )
        }),
{
    reveal_strlit("");
    let d = DetailsModel { rollup: None, ..whole };
    let e = DetailsModel { rollup: Some(rollup), ..whole };
    let part = "Rollup: "@ + one_line(rollup.status) + " ("@ + join(breakdown(rollup.descendants), ", "@) + ")\n"@;
    lemma_facts(d, l, user);
    lemma_facts(e, l, user);
    let (s, t) = (facts(d, l, user), facts(e, l, user));
    lemma_put_in(s[10], t[10], part, 0);
    assert(t =~= s.update(10, t[10]));
    lemma_one_fact(d, e, l, user, width, 10, part);
}

/// The description of an issue is shown, behind a blank line, without control
/// characters and wrapped.
pub proof fn law_description_is_shown(
    whole: DetailsModel,
    l: ShownLabels,
    user: Option<Seq<char>>,
    width: usize,
    body: Seq<char>,
)
    ensures
        ({
            let d = DetailsModel { issue: IssueModel { description: None, ..whole.issue }, ..whole };
            let e = DetailsModel { issue: IssueModel { description: Some(body), ..whole.issue }, ..whole };
            one_more(
                details_shown(d, l, user, width),
                details_shown(e, l, user, width),
                "\n"@ + ""@ + wrapped(multiline(body), width) + "\n"@,
            )
        }),
{
    reveal_strlit("");
    let d = DetailsModel { issue: IssueModel { description: None, ..whole.issue }, ..whole };
    let e = DetailsModel { issue: IssueModel { description: Some(body), ..whole.issue }, ..whole };
    let part = "\n"@ + ""@ + wrapped(multiline(body), width) + "\n"@;
    lemma_bodies(d, width);
    lemma_bodies(e, width);
    let (s, t) = (bodies(d, width), bodies(e, width));
    lemma_put_in(s[0], t[0], part, 0);
    assert(t =~= s.update(0, t[0]));
    lemma_one_body(d, e, l, user, width, 0, part);
}

/// The design of an issue is shown, behind a blank line and under its heading, without control
/// characters and wrapped.
pub proof fn law_design_is_shown(
    whole: DetailsModel,
    l: ShownLabels,
    user: Option<Seq<char>>,
    width: usize,
    body: Seq<char>,
)
    requires
        body.len() > 0,
    ensures
        ({
            let d = DetailsModel { issue: IssueModel { design: None, ..whole.issue }, ..whole };
            let e = DetailsModel { issue: IssueModel { design: Some(body), ..whole.issue }, ..whole };
            one_more(
                details_shown(d, l, user, width),
                details_shown(e, l, user, width),
                "\n"@ + "Design:\n"@ + wrapped(multiline(body), width) + "\n"@,
            )
        }),
{
    reveal_strlit("");
    let d = DetailsModel { issue: IssueModel { design: None, ..whole.issue }, ..whole };
    let e = DetailsModel { issue: IssueModel { design: Some(body), ..whole.issue }, ..whole };
    let part = "\n"@ + "Design:\n"@ + wrapped(multiline(body), width) + "\n"@;
    lemma_bodies(d, width);
    lemma_bodies(e, width);
    let (s, t) = (bodies(d, width), bodies(e, width));
    lemma_put_in(s[1], t[1], part, 0);
    assert(t =~= s.update(1, t[1]));
    lemma_one_body(d, e, l, user, width, 1, part);
}

/// The acceptance criteria of an issue is shown, behind a blank line and under its heading, without control
/// characters and wrapped.
pub proof fn law_acceptance_criteria_is_shown(
    whole: DetailsModel,
    l: ShownLabels,
    user: Option<Seq<char>>,
    width: usize,
    body: Seq<char>,
)
    requires
        body.len() > 0,
    ensures
        ({
            let d = DetailsModel { issue: IssueModel { acceptance_criteria: None, ..whole.issue }, ..whole };
            let e = DetailsModel { issue: IssueModel { acceptance_criteria: Some(body), ..whole.issue }, ..whole };
            one_more(
                details_shown(d, l, user, width),
                details_shown(e, l, user, width),
                "\n"@ + "Acceptance Criteria:\n"@ + wrapped(multiline(body), width) + "\n"@,
            )
        }),
{
    reveal_strlit("");
    let d = DetailsModel { issue: IssueModel { acceptance_criteria: None, ..whole.issue }, ..whole };
    let e = DetailsModel { issue: IssueModel { acceptance_criteria: Some(body), ..whole.issue }, ..whole };
    let part = "\n"@ + "Acceptance Criteria:\n"@ + wrapped(multiline(body), width) + "\n"@;
    lemma_bodies(d, width);
    lemma_bodies(e, width);
    let (s, t) = (bodies(d, width), bodies(e, width));
    lemma_put_in(s[2], t[2], part, 0);
    assert(t =~= s.update(2, t[2]));
    lemma_one_body(d, e, l, user, width, 2, part);
}

/// The notes of an issue is shown, behind a blank line and under its heading, without control
/// characters and wrapped.
pub proof fn law_notes_is_shown(
    whole: DetailsModel,
    l: ShownLabels,
    user: Option<Seq<char>>,
    width: usize,
    body: Seq<char>,
)
    requires
        body.len() > 0,
    ensures
        ({
            let d = DetailsModel { issue: IssueModel { notes: None, ..whole.issue }, ..whole };
            let e = DetailsModel { issue: IssueModel { notes: Some(body), ..whole.issue }, ..whole };
            one_more(
                details_shown(d, l, user, width),
                details_shown(e, l, user, width),
                "\n"@ + "Notes:\n"@ + wrapped(multiline(body), width) + "\n"@,
            )
        }),
{
    reveal_strlit("");
    let d = DetailsModel { issue: IssueModel { notes: None, ..whole.issue }, ..whole };
    let e = DetailsModel { issue: IssueModel { notes: Some(body), ..whole.issue }, ..whole };
    let part = "\n"@ + "Notes:\n"@ + wrapped(multiline(body), width) + "\n"@;
    lemma_bodies(d, width);
    lemma_bodies(e, width);
    let (s, t) = (bodies(d, width), bodies(e, width));
    lemma_put_in(s[3], t[3], part, 0);
    assert(t =~= s.update(3, t[3]));
    lemma_one_body(d, e, l, user, width, 3, part);
}

/// One label more is named behind the others, or begins the line of labels.
pub proof fn law_labels_are_all_shown(
    d: DetailsModel,
    l: ShownLabels,
    user: Option<Seq<char>>,
    width: usize,
    more: Seq<char>,
)
    ensures
        ({
            let e = DetailsModel { labels: d.labels.push(more), ..d };
            one_more(
                details_shown(d, l, user, width),
                details_shown(e, l, user, width),
                if d.labels.len() == 0 {
                    "Labels: "@ + one_line(more) + "\n"@
                } else {
                    ", "@ + one_line(more)
                },
            )
        }),
{
    reveal_strlit("");
    reveal_strlit("\n");
    let e = DetailsModel { labels: d.labels.push(more), ..d };
    let part = if d.labels.len() == 0 {
        "Labels: "@ + one_line(more) + "\n"@
    } else {
        ", "@ + one_line(more)
    };
    lemma_facts(d, l, user);
    lemma_facts(e, l, user);
    let (s, t) = (facts(d, l, user), facts(e, l, user));
    let (old, new) = (inline_each(d.labels), inline_each(e.labels));
    assert(new =~= old.push(one_line(more)));
    assert(new.drop_last() =~= old);
    if d.labels.len() == 0 {
        lemma_put_in(s[4], t[4], part, 0);
    } else {
        lemma_put_in(s[4], t[4], part, s[4].len() - 1);
    }
    assert(t =~= s.update(4, t[4]));
    lemma_one_fact(d, e, l, user, width, 4, part);
}

/// One status more of descendants is named behind the others, with its number.
pub proof fn law_breakdown_names_every_status(
    descendants: Seq<(Seq<char>, u64)>,
    status: Seq<char>,
    count: u64,
)
    ensures
        breakdown(Seq::empty()).len() == 0,
        breakdown(descendants.push((status, count))) == breakdown(descendants).push(
            decimal(count as nat) + " "@ + one_line(status),
        ),
{
    assert(breakdown(descendants.push((status, count))) =~= breakdown(descendants).push(
        decimal(count as nat) + " "@ + one_line(status),
    ));
}

/// An estimate is shown in hours and minutes, each where there are any; no estimate, and one of
/// no time, has no line.
pub proof fn law_estimate_is_shown(
    whole: DetailsModel,
    l: ShownLabels,
    user: Option<Seq<char>>,
    width: usize,
    hours: int,
    minutes: int,
)
    requires
        0 <= hours,
        0 <= minutes < 60,
        hours * 60 + minutes <= i32::MAX,
    ensures
        ({
            let d = DetailsModel {
                issue: IssueModel { estimated_minutes: None, ..whole.issue },
                ..whole
            };
            let e = DetailsModel {
                issue: IssueModel {
                    estimated_minutes: Some((hours * 60 + minutes) as i32),
                    ..whole.issue
                },
                ..whole
            };
            one_more(
                details_shown(d, l, user, width),
                details_shown(e, l, user, width),
                if hours > 0 && minutes > 0 {
                    "Estimate: "@ + decimal(hours as nat) + "h "@ + decimal(minutes as nat) + "m\n"@
                } else if hours > 0 {
                    "Estimate: "@ + decimal(hours as nat) + "h\n"@
                } else if minutes > 0 {
                    "Estimate: "@ + decimal(minutes as nat) + "m\n"@
                } else {
                    ""@
                },
            )
        }),
{
    reveal_strlit("");
    let total = hours * 60 + minutes;
    assert(total / 60 == hours && total % 60 == minutes) by (nonlinear_arith)
        requires
            total == hours * 60 + minutes,
            0 <= minutes < 60,
            0 <= hours,
    ;
    let d = DetailsModel { issue: IssueModel { estimated_minutes: None, ..whole.issue }, ..whole };
    let e = DetailsModel {
        issue: IssueModel { estimated_minutes: Some(total as i32), ..whole.issue },
        ..whole
    };
    let part = if hours > 0 && minutes > 0 {
        "Estimate: "@ + decimal(hours as nat) + "h "@ + decimal(minutes as nat) + "m\n"@
    } else if hours > 0 {
        "Estimate: "@ + decimal(hours as nat) + "h\n"@
    } else if minutes > 0 {
        "Estimate: "@ + decimal(minutes as nat) + "m\n"@
    } else {
        ""@
    };
    lemma_facts(d, l, user);
    lemma_facts(e, l, user);
    let (s, t) = (facts(d, l, user), facts(e, l, user));
    lemma_put_in(s[8], t[8], part, 0);
    assert(t =~= s.update(8, t[8]));
    lemma_one_fact(d, e, l, user, width, 8, part);
}

/// The details begin with three lines: what the issue is and how it stands, whose it is and of
/// what type, and when it was made and changed. An issue without an owner counts as the
/// user's. The text of an issue with nothing else ends there.
pub proof fn law_details_begin_with_the_issue(
    d: DetailsModel,
    l: ShownLabels,
    user: Option<Seq<char>>,
    width: usize,
)
    ensures
        ({
            let owner = if d.issue.owner is Some {
                d.issue.owner->0
            } else if user is Some {
                user->0
            } else {
                "unknown"@
            };
            let start = l.status_icon@ + " "@ + one_line(d.issue.id) + " · "@ + one_line(
                d.issue.title,
            ) + "   [● "@ + l.priority@ + " · "@ + unicode_uppercase(l.status@) + "]\n"@
                + "Owner: "@ + one_line(owner) + " · Type: "@ + l.issue_type@ + "\n"@
                + "Created: "@ + day(d.issue.created_at) + " · Updated: "@ + day(
                d.issue.updated_at,
            ) + "\n"@;
            let bare = d.issue.assignee is None && d.labels.len() == 0
                && d.issue.external_ref is None && d.issue.due_at is None
                && d.issue.defer_until is None && d.issue.estimated_minutes is None
                && d.issue.closed_at is None && d.rollup is None && d.issue.description is None
                && d.issue.design is None && d.issue.acceptance_criteria is None
                && d.issue.notes is None && d.dependencies.len() == 0 && d.dependents.len() == 0
                && d.comments.len() == 0;
            &&& start.is_prefix_of(details_shown(d, l, user, width))
            &&& bare ==> details_shown(d, l, user, width) == start
        }),
{
    reveal_strlit("");
    let owner = if d.issue.owner is Some {
        d.issue.owner->0
    } else if user is Some {
        user->0
    } else {
        "unknown"@
    };
    let start = l.status_icon@ + " "@ + one_line(d.issue.id) + " · "@ + one_line(d.issue.title)
        + "   [● "@ + l.priority@ + " · "@ + unicode_uppercase(l.status@) + "]\n"@ + "Owner: "@
        + one_line(owner) + " · Type: "@ + l.issue_type@ + "\n"@ + "Created: "@ + day(
        d.issue.created_at,
    ) + " · Updated: "@ + day(d.issue.updated_at) + "\n"@;
    lemma_facts(d, l, user);
    let s = facts(d, l, user);
    assert(flat(s.take(0)) =~= Seq::<char>::empty());
    lemma_flat_prefix(s, 1);
    lemma_flat_prefix(s, 2);
    lemma_flat_prefix(s, 3);
    let three = flat(s.take(3));
    assert(s[0] == l.status_icon@ + " "@ + one_line(d.issue.id) + " · "@ + one_line(d.issue.title)
        + "   [● "@ + l.priority@ + " · "@ + unicode_uppercase(l.status@) + "]\n"@);
    assert(three =~= start);
    lemma_flat_begins(s, 3);
    let whole = details_shown(d, l, user, width);
    assert(whole.take(three.len() as int) =~= three);
    if d.issue.assignee is None && d.labels.len() == 0 && d.issue.external_ref is None
        && d.issue.due_at is None && d.issue.defer_until is None
        && d.issue.estimated_minutes is None && d.issue.closed_at is None && d.rollup is None
        && d.issue.description is None && d.issue.design is None
        && d.issue.acceptance_criteria is None && d.issue.notes is None && d.dependencies.len()
        == 0 && d.dependents.len() == 0 && d.comments.len() == 0 {
        lemma_bodies(d, width);
        let b = bodies(d, width);
        assert forall|k: int| 3 <= k < s.len() implies (#[trigger] s[k]).len() == 0 by {}
        assert forall|k: int| 0 <= k < b.len() implies (#[trigger] b[k]).len() == 0 by {}
        lemma_flat_empty(s, 3);
        assert(b.take(0) =~= Seq::<Seq<char>>::empty());
        lemma_flat_empty(b, 0);
        assert(whole =~= three);
    }
}

proof fn lemma_flat_begins(parts: Seq<Seq<char>>, n: int)
    requires
        0 <= n <= parts.len(),
    ensures
        flat(parts.take(n)).is_prefix_of(flat(parts)),
    decreases parts.len() - n,
{
    if n == parts.len() {
        assert(parts.take(n) =~= parts);
        assert(flat(parts).take(flat(parts).len() as int) =~= flat(parts));
    } else {
        lemma_flat_begins(parts, n + 1);
        lemma_flat_prefix(parts, n + 1);
        let (a, b, c) = (flat(parts.take(n)), flat(parts.take(n + 1)), flat(parts));
        assert(c.take(a.len() as int) =~= b.take(a.len() as int));
        assert(b.take(a.len() as int) =~= a);
    }
}

proof fn lemma_flat_empty(parts: Seq<Seq<char>>, n: int)
    requires
        0 <= n <= parts.len(),
        forall|k: int| n <= k < parts.len() ==> (#[trigger] parts[k]).len() == 0,
    ensures
        flat(parts) =~= flat(parts.take(n)),
    decreases parts.len() - n,
{
    if n == parts.len() {
        assert(parts.take(n) =~= parts);
    } else {
        lemma_flat_empty(parts, n + 1);
        lemma_flat_prefix(parts, n + 1);
    }
}

/// An empty text counts as none.
pub proof fn law_empty_texts_are_none(text: Seq<char>)
    ensures
        text.len() > 0 ==> nonempty(Some(text)) == Some(text),
        text.len() == 0 ==> nonempty(Some(text)) is None,
        nonempty(None) is None,
{
}

} // verus!
