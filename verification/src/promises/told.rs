//! Promises of what is told, and in which form.

use crate::digest::sha256_hex;
use crate::doctor_subsystems::apply::forecast_debug;
use crate::doctor_subsystems::family::{
    file_required, mismatch_error, missing_suffix_error, ObservedModel,
};
use crate::doctor_subsystems::maintenance::result_debug;
use crate::doctor_subsystems::mutate::{climb_from, symlink_temporary};
use crate::doctor_subsystems::mutate_db::{predicate_tag, snapshots_exhausted};
use crate::doctor_subsystems::receipts::MigrationForecast;
use crate::doctor_subsystems::schema_migration::{plan_of, table_query, vacuum_statement, PlanFacts};
use crate::doctor_subsystems::undo::run_error;
use crate::doctor_subsystems::witness::{ComponentModel, LogicalModel};
use crate::error::{debug_text, error_detail, ErrorModel};
use crate::history::{commit_after, diff_heading, name_or_empty, CommitModel, RenameEvent};
use crate::info::{
    jsonl_entries, location_entries, projection_entries, schema_entries, InfoOutput, ProjectionInfo,
    SchemaInfo,
};
use crate::init::panel_head;
use crate::json::json_string;
use crate::lint::{type_role, types_of, ResultModel};
use crate::model::{dep_type_name, DependencyType};
use crate::numbers::{decimal, padded_decimal};
use crate::paths::{file_name, with_file_name};
use crate::recovery::{
    batched_refresh_after, partial_rebuild_error, partial_repair_after, plain_flush_warning,
    preserve_error, recovery_error, structured_flush_warning, CacheEventModel, CacheStepModel,
    AUTO_FLUSH_MESSAGE, AUTO_FLUSH_RECOVERY,
};
use crate::sanitize::{inline_each, multiline, one_line};
use crate::show::OutputMode;
use crate::show_external::{
    any_external, details_with_statuses, divergence, first_divergence, involves_external, looked_up,
    names_external, with_external_statuses, JsonlResolution, StorageLookup, DIVERGENT_ISSUE,
    DIVERGENT_ISSUES,
};
use crate::show_jsonl::DetailsModel;
use crate::show_render::{body_width, shown_owner};
use crate::shown::{one_piece, shown_in, ShownModel};
use crate::sizes::size_text;
use crate::spans::{labelled, styled, text_of_spans, unstyled, Role, SpanModel};
use crate::text::{join, starts_with, texts, trim};
use crate::wrap::wrap_width;
use vstd::prelude::*;
use vstd::string::*;
use vstd::utf8::encode_utf8;

verus! {

broadcast use vstd::string::group_string_axioms;

/// Each mode has its form: people read a panel or a text, programs read data, and the quiet
/// read nothing.
pub proof fn law_each_mode_has_its_form(
    title: Seq<char>,
    panel: Seq<SpanModel>,
    text: Seq<SpanModel>,
)
    ensures
        shown_in(OutputMode::Quiet, title, panel, text) == ShownModel::Nothing,
        shown_in(OutputMode::Json, title, panel, text) == ShownModel::Data,
        shown_in(OutputMode::Toon, title, panel, text) == ShownModel::Data,
        shown_in(OutputMode::Rich, title, panel, text) == (ShownModel::Panel { title, body: panel }),
        shown_in(OutputMode::Plain, title, panel, text) == (ShownModel::Text { body: text }),
{
}

/// The text of pieces is their texts, one behind the other.
pub proof fn law_pieces_make_a_text(spans: Seq<SpanModel>, more: SpanModel, text: Seq<char>)
    ensures
        text_of_spans(Seq::empty()).len() == 0,
        text_of_spans(spans.push(more)) == text_of_spans(spans) + more.text,
        text_of_spans(one_piece(text)) == text,
        labelled(text, more.text, more.role) == seq![
            SpanModel { text, role: Role::Dimmed },
            more,
            SpanModel { text: "\n"@, role: Role::Normal },
        ],
{
    reveal_strlit("");
    assert(spans.push(more).drop_last() =~= spans);
    reveal_with_fuel(text_of_spans, 2);
    assert(text_of_spans(one_piece(text)) =~= text);
    assert(labelled(text, more.text, more.role) =~= seq![
        SpanModel { text, role: Role::Dimmed },
        more,
        SpanModel { text: "\n"@, role: Role::Normal },
    ]);
}

/// What could not be saved after a change is told with what the change itself ran into.
pub proof fn law_failed_repairs_are_told(
    command: Seq<char>,
    mark: Seq<char>,
    operation: ErrorModel,
    repair: ErrorModel,
)
    ensures
        error_detail(partial_rebuild_error(command, mark, repair))
            == "failed to rebuild blocked cache after partial "@ + command
            + " mutation; pre-marking it stale also failed: "@ + mark + ": "@ + error_detail(repair),
        error_detail(preserve_error(command, operation, repair))
            == "failed to preserve blocked cache after partial "@ + command
            + " mutation; original operation error: "@ + error_detail(operation) + ": "@
            + error_detail(repair),
        error_detail(recovery_error(command, None, operation, repair))
            == "automatic database recovery failed after "@ + command
            + " write; original write error: "@ + error_detail(operation) + ": "@ + error_detail(
            repair,
        ),
        error_detail(recovery_error(command, Some(mark), operation, repair))
            == "automatic database recovery failed after "@ + command + " write for issue '"@ + mark
            + "'; original write error: "@ + error_detail(operation) + ": "@ + error_detail(repair),
{
    reveal_with_fuel(error_detail, 2);
}

/// An export that failed is warned of, with the path and the error and how to mend it.
pub proof fn law_failed_exports_are_warned_of(dir: Seq<char>, path: Seq<char>, error: Seq<char>)
    ensures
        plain_flush_warning(path, error) == multiline(
            "Warning: "@ + AUTO_FLUSH_MESSAGE@ + " JSONL path: "@ + path + ". Error: "@ + error,
        ),
        structured_flush_warning(dir, path, error) == "{\"warning\":{\"beads_dir\":"@ + json_string(
            dir,
        ) + ",\"code\":\"AUTO_FLUSH_FAILED\",\"error\":"@ + json_string(error)
            + ",\"jsonl_path\":"@ + json_string(path) + ",\"message\":"@ + json_string(
            AUTO_FLUSH_MESSAGE@,
        ) + ",\"recovery\":"@ + json_string(AUTO_FLUSH_RECOVERY@) + "}}"@,
{
}

/// The owner is the one on record, else the one who asks, and else unknown; long lines are
/// wrapped where that was asked for, and else never.
pub proof fn law_owners_and_widths(
    owner: Seq<char>,
    user: Option<Seq<char>>,
    set: Option<Seq<char>>,
)
    ensures
        shown_owner(Some(owner), user) == owner,
        shown_owner(None, Some(owner)) == owner,
        shown_owner(None, None) == "unknown"@,
        body_width(set, true) == wrap_width(set),
        body_width(set, false) == usize::MAX,
{
}

/// Details are settled in their dependencies and in their dependents, and nowhere else.
pub proof fn law_details_are_settled_on_both_sides(d: DetailsModel, statuses: Seq<(String, bool)>)
    ensures
        details_with_statuses(d, statuses).dependencies == with_external_statuses(
            d.dependencies,
            statuses,
        ),
        details_with_statuses(d, statuses).dependents == with_external_statuses(
            d.dependents,
            statuses,
        ),
        details_with_statuses(d, statuses).issue == d.issue,
        details_with_statuses(d, statuses).labels == d.labels,
        details_with_statuses(d, statuses).comments == d.comments,
        details_with_statuses(d, statuses).parent == d.parent,
{
}

/// Outside dependencies are looked for among the dependencies and the dependents of every
/// issue.
pub proof fn law_outside_dependencies_are_all_found(
    details: Seq<DetailsModel>,
    i: int,
    j: int,
)
    requires
        0 <= i < details.len(),
    ensures
        0 <= j < details[i].dependencies.len() && starts_with(
            details[i].dependencies[j].id,
            "external:"@,
        ) ==> involves_external(details, details[i].dependencies[j].id) && any_external(
            details[i].dependencies,
        ),
        0 <= j < details[i].dependents.len() && starts_with(
            details[i].dependents[j].id,
            "external:"@,
        ) ==> involves_external(details, details[i].dependents[j].id) && any_external(
            details[i].dependents,
        ),
{
    if 0 <= j < details[i].dependencies.len() && starts_with(
        details[i].dependencies[j].id,
        "external:"@,
    ) {
        assert(names_external(details[i].dependencies, details[i].dependencies[j].id));
    }
    if 0 <= j < details[i].dependents.len() && starts_with(
        details[i].dependents[j].id,
        "external:"@,
    ) {
        assert(names_external(details[i].dependents, details[i].dependents[j].id));
    }
}

/// An issue that the database lacks and the file has is a conflict; one that neither has was
/// not found; and one that was found is shown.
pub proof fn law_missing_issues_are_looked_for_in_the_file(
    lookup: StorageLookup,
    statuses: Seq<(String, bool)>,
    outcomes: Seq<(String, JsonlResolution)>,
)
    ensures
        lookup matches StorageLookup::Found { details } ==> looked_up(lookup, statuses) == Ok::<
            DetailsModel,
            ErrorModel,
        >(details_with_statuses(details@, statuses)),
        lookup matches StorageLookup::Failed { error } ==> looked_up(lookup, statuses) == Err::<
            DetailsModel,
            ErrorModel,
        >(error.model()),
        lookup matches StorageLookup::Missing { id, outcomes }
            ==> looked_up(lookup, statuses) is Err
            && ((forall|j: int| 0 <= j < outcomes@.len() ==> (#[trigger] outcomes@[j]).1 is Absent)
            ==> looked_up(lookup, statuses)->Err_0 == (ErrorModel::IssueNotFound { id: id@ })),
        first_divergence(outcomes) is Ok <==> forall|j: int|
            0 <= j < outcomes.len() ==> (#[trigger] outcomes[j]).1 is Absent,
        outcomes.len() > 0 && outcomes[0].1 is Resolved ==> first_divergence(outcomes) is Err
            && first_divergence(outcomes)->Err_0 is SyncConflict,
{
    lemma_no_divergence(outcomes);
    if let StorageLookup::Missing { id, outcomes: found } = lookup {
        lemma_no_divergence(found@);
    }
}

proof fn lemma_no_divergence(outcomes: Seq<(String, JsonlResolution)>)
    ensures
        first_divergence(outcomes) is Ok <==> forall|j: int|
            0 <= j < outcomes.len() ==> (#[trigger] outcomes[j]).1 is Absent,
    decreases outcomes.len(),
{
    if outcomes.len() > 0 {
        let rest = outcomes.skip(1);
        lemma_no_divergence(rest);
        if first_divergence(outcomes) is Ok {
            assert forall|j: int| 0 <= j < outcomes.len() implies (
            #[trigger] outcomes[j]).1 is Absent by {
                if j > 0 {
                    assert(rest[j - 1] == outcomes[j]);
                }
            }
        } else if outcomes[0].1 is Absent {
            let j = choose|j: int| 0 <= j < rest.len() && !((#[trigger] rest[j]).1 is Absent);
            assert(!(outcomes[j + 1].1 is Absent));
        }
    }
}

/// Types have their colours, and dependencies their names.
pub proof fn law_types_have_their_colours(name: String)
    ensures
        type_role("task"@) == Role::TypeTask,
        type_role("bug"@) == Role::TypeBug,
        type_role("feature"@) == Role::TypeFeature,
        type_role("epic"@) == Role::TypeEpic,
        type_role("chore"@) == Role::TypeChore,
        type_role("docs"@) == Role::TypeDocs,
        type_role("question"@) == Role::TypeQuestion,
        name@ != "task"@ && name@ != "bug"@ && name@ != "feature"@ && name@ != "epic"@ && name@
            != "chore"@ && name@ != "docs"@ && name@ != "question"@ ==> type_role(name@)
            == Role::Dimmed,
        dep_type_name(DependencyType::Blocks) == "blocks"@,
        dep_type_name(DependencyType::ParentChild) == "parent-child"@,
        dep_type_name(DependencyType::Related) == "related"@,
        dep_type_name(DependencyType::Custom(name)) == name@,
{
    reveal_strlit("task");
    reveal_strlit("bug");
    reveal_strlit("feature");
    reveal_strlit("epic");
    reveal_strlit("chore");
    reveal_strlit("docs");
    reveal_strlit("question");
    assert("task"@.len() == 4 && "bug"@.len() == 3 && "feature"@.len() == 7 && "epic"@.len() == 4
        && "chore"@.len() == 5 && "docs"@.len() == 4 && "question"@.len() == 8);
    assert("task"@[0] == 't' && "epic"@[0] == 'e' && "docs"@[0] == 'd');
}

/// Every type of a result has its group, and every group a result.
pub proof fn law_every_result_has_a_group(results: Seq<ResultModel>, i: int)
    requires
        0 <= i < results.len(),
    ensures
        types_of(results).contains(results[i].issue_type),
{
    let names = results.map_values(|r: ResultModel| r.issue_type);
    let once = crate::text::distinct(names);
    let order = crate::lint::text_order();
    assert(names[i] == results[i].issue_type);
    crate::sorting::law_sort_is_permutation(once, order);
    lemma_distinct_holds(names, results[i].issue_type);
    let j = choose|j: int| 0 <= j < once.len() && once[j] == results[i].issue_type;
    broadcast use vstd::seq_lib::group_to_multiset_ensures;

    assert(once.contains(once[j]));
    assert(types_of(results).to_multiset().count(once[j]) > 0);
    assert(types_of(results).contains(once[j]));
}

proof fn lemma_distinct_holds(v: Seq<Seq<char>>, x: Seq<char>)
    requires
        v.contains(x),
    ensures
        crate::text::distinct(v).contains(x),
    decreases v.len(),
{
    let rest = v.drop_last();
    let (d, e) = (crate::text::distinct(rest), crate::text::distinct(v));
    if rest.contains(x) {
        lemma_distinct_holds(rest, x);
        let j = choose|j: int| 0 <= j < d.len() && d[j] == x;
        assert(e[j] == x);
    } else {
        let i = choose|i: int| 0 <= i < v.len() && v[i] == x;
        if i < rest.len() {
            assert(rest[i] == x);
        }
        assert(v.last() == x);
        if crate::text::has_text(d, x) {
            let j = choose|j: int| 0 <= j < d.len() && #[trigger] d[j] == x;
            assert(e[j] == x);
        } else {
            assert(e[e.len() - 1] == x);
        }
    }
}

/// The rich form of the workspace names its place and its database, and what is known of its
/// prefix, its sizes and its issues.
pub proof fn law_rich_info_names_the_place(info: InfoOutput)
    ensures
        ({
            let all = location_entries(info);
            &&& all[1] == styled(one_line(info.beads_dir@), Role::Accent)
            &&& all.contains(styled(one_line(info.database_path@), Role::Accent))
            &&& info.resolved_prefix is Some ==> all[4] == styled(
                one_line(info.resolved_prefix->0@),
                Role::IssueId,
            )
            &&& info.db_size is Some ==> all.contains(
                styled(size_text(info.db_size->0), Role::Normal),
            )
            &&& info.issue_count is Some ==> all[all.len() - 2] == styled(
                decimal(info.issue_count->0 as nat),
                Role::Emphasis,
            )
        }),
        info.jsonl_path is Some ==> jsonl_entries(info)[3] == styled(
            one_line(info.jsonl_path->0@),
            Role::Accent,
        ),
        info.jsonl_path is Some && info.jsonl_size is Some ==> jsonl_entries(info)[6] == styled(
            size_text(info.jsonl_size->0),
            Role::Normal,
        ),
        info.jsonl_path is None ==> jsonl_entries(info).len() == 0,
{
    let all = location_entries(info);
    let at: int = if info.resolved_prefix is Some {
        9
    } else {
        6
    };
    assert(all[at] == styled(one_line(info.database_path@), Role::Accent));
    if info.db_size is Some {
        assert(all[at + 3] == styled(size_text(info.db_size->0), Role::Normal));
    }
}

/// The rich form of a schema names its version and tables, and its prefix and samples where
/// there are any.
pub proof fn law_rich_schema_names_its_tables(s: SchemaInfo)
    ensures
        ({
            let all = schema_entries(Some(s));
            let prefix: int = if s.detected_prefix is Some {
                3
            } else {
                0
            };
            let samples: int = if s.sample_issue_ids@.len() > 0 {
                3
            } else {
                0
            };
            &&& all.len() == 8 + prefix + samples
            &&& all[3] == styled(one_line(s.schema_version@), Role::Normal)
            &&& all[6] == styled(join(inline_each(texts(s.tables@)), ", "@), Role::Normal)
            &&& s.detected_prefix is Some ==> all[9] == styled(
                one_line(s.detected_prefix->0@),
                Role::IssueId,
            )
            &&& s.sample_issue_ids@.len() > 0 ==> all[all.len() - 2] == styled(
                join(inline_each(texts(s.sample_issue_ids@)), ", "@),
                Role::Normal,
            )
        }),
        schema_entries(None).len() == 0,
{
}

/// The rich form of the projections names the state of the cache and whether a rebuild is
/// needed, and each count that is known.
pub proof fn law_rich_projections_name_the_state(p: ProjectionInfo)
    ensures
        ({
            let all = projection_entries(Some(p));
            let one = |n: Option<usize>|
                if n is Some {
                    3int
                } else {
                    0int
                };
            &&& all[3] == styled(one_line(p.blocked_cache_state@), Role::Normal)
            &&& p.rebuild_needed ==> all[6] == styled("needed"@, Role::Normal)
            &&& !p.rebuild_needed ==> all[6] == styled("not needed"@, Role::Normal)
            &&& all[9] == styled(one_line(p.parity_status@), Role::Normal)
            &&& all[12] == unstyled(one_line(p.ready_parity_status@))
            &&& all.len() == 14 + one(p.cached_blocked_rows) + one(p.direct_blocked_rows) + one(
                p.cached_ready_rows,
            ) + one(p.direct_ready_rows) + one(p.child_counter_rows)
            &&& p.child_counter_rows is Some ==> all[all.len() - 2] == unstyled(
                decimal(p.child_counter_rows->0 as nat),
            )
        }),
        projection_entries(None).len() == 0,
{
}

/// The panel of a new workspace begins with its place.
pub proof fn law_new_workspaces_are_placed(dir: Seq<char>)
    ensures
        panel_head(dir)[0].text == "Workspace initialized\n"@,
        panel_head(dir)[3] == styled(dir, Role::Accent),
        panel_head(dir).len() == 6,
{
}

/// A diff is headed by the names of both files, and a target that could not be replaced is told
/// with where its copy is.
pub proof fn law_diffs_name_both_files(
    current: Seq<char>,
    backup: Seq<char>,
    target: Seq<char>,
    copy: Seq<char>,
    error: String,
)
    ensures
        diff_heading(current, backup) == "Diffing current "@ + one_line(name_or_empty(current))
            + " vs "@ + one_line(backup) + "...\n"@,
        ({
            let after = commit_after(
                CommitModel::Rename,
                RenameEvent::Failed { error, target_exists: true },
                target,
                Some(copy),
            );
            let told = "Failed to replace '"@ + one_line(target)
                + "' with the restored backup: "@ + error@;
            after is Failed && after->Failed_error is Config && told.is_prefix_of(
                after->Failed_error->Config_0,
            )
        }),
{
    let after = commit_after(
        CommitModel::Rename,
        RenameEvent::Failed { error, target_exists: true },
        target,
        Some(copy),
    );
    let told = "Failed to replace '"@ + one_line(target) + "' with the restored backup: "@ + error@;
    let whole = after->Failed_error->Config_0;
    assert(whole.subrange(0, told.len() as int) =~= told);
}

/// What is wrong with a file of a family is told with its path or its suffix.
pub proof fn law_family_errors_name_the_file(
    path: Seq<char>,
    suffix: Seq<char>,
    what: Seq<char>,
    seen: ObservedModel,
    table: Seq<char>,
    tag: Seq<char>,
    stamp: u128,
)
    ensures
        mismatch_error(path) == ErrorModel::Internal(
            "schema migration component does not match its receipt: "@ + path,
        ),
        missing_suffix_error(suffix) == ErrorModel::Internal(
            "schema migration witness omits required family suffix "@ + debug_text(suffix),
        ),
        file_required(seen, path, what) is Ok <==> seen is Regular,
        seen is Missing ==> file_required(seen, path, what) == Err::<(), ErrorModel>(
            ErrorModel::Internal(what + path),
        ),
        snapshots_exhausted(table, tag, stamp) == ErrorModel::Outside(
            "doctor: exhausted DB snapshot collision suffixes for "@ + table + "__"@ + tag + "__"@
                + padded_decimal(stamp as nat, 20),
        ),
        run_error(path, suffix, what) == ErrorModel::Internal(path + suffix + what),
        result_debug(Ok(())) == "Ok(())"@,
        result_debug(Err(what)) == "Err("@ + what + ")"@,
{
}

/// A climb begins at the path itself, a link is made under a hidden name of its own, and a
/// predicate is tagged by the first digits of its digest.
pub proof fn law_temporary_links_and_tags(
    path: Seq<char>,
    name: Seq<char>,
    pid: u32,
    now: u128,
    predicate: Seq<char>,
)
    ensures
        climb_from(path).at == path && climb_from(path).below.len() == 0 && !climb_from(
            path,
        ).settled,
        file_name(path) == Some(name) ==> symlink_temporary(path, pid, now) == with_file_name(
            path,
            "."@ + name + ".doctor-symlink-tmp."@ + decimal(pid as nat) + "."@ + decimal(
                now as nat,
            ),
        ),
        predicate_tag(Some(predicate)) == sha256_hex(encode_utf8(trim(predicate))).take(8),
{
}

/// Statements on a database quote what they are given.
pub proof fn law_statements_quote_their_values(a: Seq<char>, b: Seq<char>)
    requires
        !a.contains('\''),
        !b.contains('\''),
    ensures
        vacuum_statement(a) == "VACUUM INTO '"@ + a + "'"@,
        vacuum_statement(a.push('\'') + b) == "VACUUM INTO '"@ + a + "''"@ + b + "'"@,
        table_query(a) == "SELECT 1 FROM sqlite_master WHERE type='table' AND name='"@ + a
            + "' LIMIT 1"@,
{
    lemma_unquoted(a);
    lemma_unquoted(b);
    let f = crate::text::replacing('\'', "''"@);
    crate::text::lemma_expand_concat(a.push('\''), b, f);
    crate::text::lemma_expand_concat(a, seq!['\''], f);
    assert(a + seq!['\''] =~= a.push('\''));
    reveal_with_fuel(crate::text::expand, 2);
    assert(crate::text::expand(seq!['\''], f) =~= "''"@);
    assert(vacuum_statement(a.push('\'') + b) =~= "VACUUM INTO '"@ + a + "''"@ + b + "'"@);
}

proof fn lemma_unquoted(a: Seq<char>)
    requires
        !a.contains('\''),
    ensures
        crate::text::replace_char(a, '\'', "''"@) == a,
    decreases a.len(),
{
    let f = crate::text::replacing('\'', "''"@);
    if a.len() > 0 {
        let rest = a.drop_last();
        assert(!rest.contains('\'')) by {
            if rest.contains('\'') {
                let i = choose|i: int| 0 <= i < rest.len() && rest[i] == '\'';
                assert(a[i] == '\'');
            }
        }
        lemma_unquoted(rest);
        assert(a.contains(a[a.len() - 1]));
        assert(crate::text::replace_char(a, '\'', "''"@) =~= rest + seq![a.last()]);
        assert(rest + seq![a.last()] =~= a);
    } else {
        assert(crate::text::replace_char(a, '\'', "''"@) =~= a);
    }
}

/// A forecast is told number by number.
pub proof fn law_forecasts_are_told(f: MigrationForecast)
    ensures
        forecast_debug(f) == "MigrationForecast { from_version: "@ + decimal(f.from_version as nat)
            + ", to_version: "@ + decimal(f.to_version as nat) + ", content_hash_rows_rebuilt: "@
            + decimal(f.content_hash_rows_rebuilt as nat) + ", gate_result_history_created: "@
            + (if f.gate_result_history_created {
            "true"@
        } else {
            "false"@
        }) + ", post_migration_maintenance: "@ + (if f.post_migration_maintenance {
            "true"@
        } else {
            "false"@
        }) + " }"@,
{
}

/// What a plan notes: that nothing is needed, or what applying it will do.
pub proof fn law_plans_have_their_note(
    path: Seq<char>,
    logical: LogicalModel,
    raw: Seq<ComponentModel>,
    target: u32,
    facts: PlanFacts,
)
    requires
        plan_of(path, logical, raw, target, facts) is Ok,
    ensures
        ({
            let plan = plan_of(path, logical, raw, target, facts)->Ok_0;
            &&& !plan.eligible ==> plan.note
                == "database already has the current canonical schema; no migration is needed"@
            &&& plan.eligible ==> plan.apply_command == Some(
                "br doctor migrate-schema apply --plan-token "@ + plan.plan_token->0,
            )
            &&& plan.from_version == logical.user_version || facts is Shape
            &&& plan.to_version == target
            &&& plan.schema_version == "br.doctor.schema_migration.plan.v1"@
        }),
{
}

/// What a search in the file stops the command with: nothing where the issue is not there, a
/// conflict where it is or could be, and the error of the search where it failed.
pub proof fn law_searches_stop_the_command(candidate: Seq<char>, outcome: JsonlResolution)
    ensures
        match outcome {
            JsonlResolution::Absent => divergence(candidate, outcome) is None,
            JsonlResolution::Failed { error } => divergence(candidate, outcome) == Some(
                error.model(),
            ),
            JsonlResolution::Resolved { id } => divergence(candidate, outcome) == Some(
                ErrorModel::SyncConflict {
                    message: "Database/JSONL divergence: issue "@ + id@ + DIVERGENT_ISSUE@,
                },
            ),
            JsonlResolution::Ambiguous { matches, error } => (matches == 0 ==> divergence(
                candidate,
                outcome,
            ) == Some(error.model())) && (matches > 0 ==> divergence(candidate, outcome) == Some(
                ErrorModel::SyncConflict {
                    message: "Database/JSONL divergence: "@ + debug_text(candidate) + " matches "@
                        + decimal(matches as nat) + DIVERGENT_ISSUES@,
                },
            )),
        },
{
}

/// A cache that could not be saved after a batch is told with what was tried before.
pub proof fn law_failed_refreshes_are_told(command: Seq<char>, first: Seq<char>, error: ErrorModel)
    ensures
        batched_refresh_after(
            CacheStepModel::Rebuild { mark_error: first },
            CacheEventModel::Failed { error },
            command,
        ) == (CacheStepModel::Failed {
            error: ErrorModel::WithContext {
                context: "failed to rebuild blocked cache after successful batched "@ + command
                    + " mutation; leaving the cache stale also failed first: "@ + first,
                source: Box::new(error),
            },
        }),
        batched_refresh_after(
            CacheStepModel::Remark { refresh_error: first },
            CacheEventModel::Failed { error },
            command,
        ) == (CacheStepModel::Failed {
            error: ErrorModel::WithContext {
                context: "failed to preserve blocked cache stale marker after successful batched "@
                    + command + " mutation; original refresh error: "@ + first,
                source: Box::new(error),
            },
        }),
        batched_refresh_after(
            CacheStepModel::Refresh,
            CacheEventModel::Failed { error },
            command,
        ) == (CacheStepModel::Remark { refresh_error: error_detail(error) }),
        partial_repair_after(
            CacheStepModel::MarkStale,
            CacheEventModel::Failed { error },
            command,
        ) == (CacheStepModel::Rebuild { mark_error: error_detail(error) }),
{
}

} // verus!
