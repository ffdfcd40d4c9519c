//! Promises of the `info` command.

use crate::info::{
    as_count, cache_state, combined_parity, config_of, count_entry, count_line, count_query,
    daemon_lines, human_text, jsonl_lines, key_index, mode_entries, optional_line,
    projection_counts, projection_lines, rebuild_reasons, schema_lines, size_line, value_line,
    with_entry, InfoOutput, ProjectionInfo, SchemaInfo,
};
use crate::numbers::decimal;
use crate::sanitize::{inline_each, one_line};
use crate::sizes::size_text;
use crate::spans::{styled, unstyled, Role};
use crate::text::{join, texts};
use vstd::prelude::*;
use vstd::string::*;

verus! {

broadcast use vstd::string::group_string_axioms;

/// A count that was read is one where it is not negative and fits.
pub proof fn law_counts_are_not_negative(n: i64)
    ensures
        as_count(None) is None,
        n < 0 ==> as_count(Some(n)) is None,
        0 <= n <= usize::MAX ==> as_count(Some(n)) is Some && as_count(Some(n))->0 == n,
        n > usize::MAX ==> as_count(Some(n)) is None,
{
}

/// Only the tables that belong to the projections are counted, each by its own name.
pub proof fn law_projection_tables_are_counted(table: Seq<char>)
    ensures
        count_query(table) is Some <==> table == "blocked_issues_cache"@ || table
            == "child_counters"@ || table == "dependencies"@,
        count_query(table) is Some ==> count_query(table)->0 == "SELECT COUNT(*) FROM "@ + table,
{
    reveal_strlit("SELECT COUNT(*) FROM ");
    reveal_strlit("blocked_issues_cache");
    reveal_strlit("child_counters");
    reveal_strlit("dependencies");
    reveal_strlit("SELECT COUNT(*) FROM blocked_issues_cache");
    reveal_strlit("SELECT COUNT(*) FROM child_counters");
    reveal_strlit("SELECT COUNT(*) FROM dependencies");
    let head = "SELECT COUNT(*) FROM "@;
    assert(head + "blocked_issues_cache"@ =~= "SELECT COUNT(*) FROM blocked_issues_cache"@);
    assert(head + "child_counters"@ =~= "SELECT COUNT(*) FROM child_counters"@);
    assert(head + "dependencies"@ =~= "SELECT COUNT(*) FROM dependencies"@);
}

proof fn lemma_key(v: Seq<(Seq<char>, Seq<char>)>, key: Seq<char>)
    ensures
        0 <= key_index(v, key) <= v.len(),
        key_index(v, key) < v.len() ==> v[key_index(v, key)].0 == key,
    decreases v.len(),
{
    if v.len() > 0 && v[0].0 != key {
        lemma_key(v.skip(1), key);
    }
}

/// A setting with a key and a value is there with that value, whatever was there under that
/// key before; a row without one of the two changes nothing.
pub proof fn law_the_last_value_of_a_setting_counts(
    rows: Seq<(Option<String>, Option<String>)>,
    key: String,
    value: String,
)
    ensures
        config_of(rows.push((Some(key), Some(value)))).contains((key@, value@)),
        config_of(rows.push((None, Some(value)))) == config_of(rows),
        config_of(rows.push((Some(key), None))) == config_of(rows),
        config_of(rows.push((None, None))) == config_of(rows),
{
    let before = config_of(rows);
    assert(rows.push((Some(key), Some(value))).drop_last() =~= rows);
    assert(rows.push((None, Some(value))).drop_last() =~= rows);
    assert(rows.push((Some(key), None)).drop_last() =~= rows);
    assert(rows.push((None, None)).drop_last() =~= rows);
    lemma_key(before, key@);
    let all = with_entry(before, key@, value@);
    assert(all[key_index(before, key@)] == (key@, value@));
}

/// Settings under other keys stay as they are.
pub proof fn law_other_settings_stay(
    v: Seq<(Seq<char>, Seq<char>)>,
    key: Seq<char>,
    value: Seq<char>,
    i: int,
)
    requires
        0 <= i < v.len(),
        v[i].0 != key,
    ensures
        with_entry(v, key, value)[i] == v[i],
        v.len() <= with_entry(v, key, value).len() <= v.len() + 1,
{
    lemma_key(v, key);
}

/// One mismatch is a mismatch, else one that is unavailable is, and else all matches.
pub proof fn law_a_mismatch_is_told_first(blocked: Seq<char>, ready: Seq<char>)
    ensures
        combined_parity("mismatch"@, ready) == "mismatch"@,
        combined_parity(blocked, "mismatch"@) == "mismatch"@,
        ready != "mismatch"@ ==> combined_parity("unavailable"@, ready) == "unavailable"@,
        blocked != "mismatch"@ ==> combined_parity(blocked, "unavailable"@) == "unavailable"@,
        blocked != "mismatch"@ && ready != "mismatch"@ && blocked != "unavailable"@ && ready
            != "unavailable"@ ==> combined_parity(blocked, ready) == "matches"@,
{
}

/// Each reason for a rebuild is told exactly where it holds.
pub proof fn law_each_reason_is_told(
    stale: bool,
    blocked: bool,
    ready: bool,
    cache: bool,
    counters: bool,
)
    ensures
        ({
            let told = rebuild_reasons(stale, blocked, ready, cache, counters);
            &&& stale ==> told.contains("blocked_cache_marked_stale"@)
            &&& blocked ==> told.contains("blocked_cache_content_mismatch"@)
            &&& ready ==> told.contains("ready_projection_content_mismatch"@)
            &&& cache ==> told.contains("blocked_issues_cache_missing"@)
            &&& counters ==> told.contains("child_counters_missing"@)
            &&& told.len() == (if stale {
                1int
            } else {
                0int
            }) + (if blocked {
                1int
            } else {
                0int
            }) + (if ready {
                1int
            } else {
                0int
            }) + (if cache {
                1int
            } else {
                0int
            }) + (if counters {
                1int
            } else {
                0int
            })
        }),
{
    let told = rebuild_reasons(stale, blocked, ready, cache, counters);
    let a: int = if stale {
        1
    } else {
        0
    };
    let b: int = if blocked {
        a + 1
    } else {
        a
    };
    let c: int = if ready {
        b + 1
    } else {
        b
    };
    let d: int = if cache {
        c + 1
    } else {
        c
    };
    if stale {
        assert(told.contains(told[0]));
    }
    if blocked {
        assert(told.contains(told[a]));
    }
    if ready {
        assert(told.contains(told[b]));
    }
    if cache {
        assert(told.contains(told[c]));
    }
    if counters {
        assert(told.contains(told[d]));
    }
}

/// A cache is fresh unless something else is on record.
pub proof fn law_caches_are_fresh_by_default(state: Seq<char>)
    ensures
        cache_state(None) == "fresh"@,
        state.len() == 0 ==> cache_state(Some(state)) == "fresh"@,
        state.len() > 0 ==> cache_state(Some(state)) == state,
{
}

/// What is known is told on a line of its own, and what is not is left out.
pub proof fn law_known_facts_have_their_lines(
    label: Seq<char>,
    value: String,
    size: u64,
    count: usize,
)
    ensures
        value_line(label, value@) == label + one_line(value@) + "\n"@,
        optional_line(label, Some(value)) == label + one_line(value@) + "\n"@,
        optional_line(label, None).len() == 0,
        size_line(label, Some(size)) == label + size_text(size) + "\n"@,
        size_line(label, None).len() == 0,
        count_line(label, Some(count)) == label + decimal(count as nat) + "\n"@,
        count_line(label, None).len() == 0,
{
    reveal_strlit("");
}

/// The issues file is told with its size where it is known, and the daemon by whether it is
/// connected, why it is not and what more there is to say.
pub proof fn law_file_and_daemon_are_told(
    path: String,
    size: u64,
    reason: String,
    detail: String,
    other: Option<String>,
)
    ensures
        jsonl_lines(Some(path), Some(size)) == "JSONL: "@ + one_line(path@) + "\n"@
            + "JSONL size: "@ + size_text(size) + "\n"@,
        jsonl_lines(Some(path), None) == "JSONL: "@ + one_line(path@) + "\n"@,
        jsonl_lines(None, Some(size)).len() == 0,
        daemon_lines(true, other, other) == "Daemon: connected\n"@,
        daemon_lines(false, None, other).len() == 0,
        daemon_lines(false, Some(reason), None) == "Daemon: not connected ("@ + one_line(reason@)
            + ")\n"@,
        daemon_lines(false, Some(reason), Some(detail)) == "Daemon: not connected ("@ + one_line(
            reason@,
        ) + ")\n"@ + "  "@ + one_line(detail@) + "\n"@,
{
    reveal_strlit("");
    assert(jsonl_lines(Some(path), Some(size)) =~= "JSONL: "@ + one_line(path@) + "\n"@
        + "JSONL size: "@ + size_text(size) + "\n"@);
    assert(jsonl_lines(Some(path), None) =~= "JSONL: "@ + one_line(path@) + "\n"@);
    assert(daemon_lines(false, Some(reason), None) =~= "Daemon: not connected ("@ + one_line(
        reason@,
    ) + ")\n"@);
    assert(daemon_lines(false, Some(reason), Some(detail)) =~= "Daemon: not connected ("@
        + one_line(reason@) + ")\n"@ + "  "@ + one_line(detail@) + "\n"@);
}

/// A schema is told by its version and all its tables, and by a prefix and samples where there
/// are any.
pub proof fn law_schemas_are_told(s: SchemaInfo)
    ensures
        ({
            let listed = |v: Seq<String>| join(inline_each(texts(v)), ", "@);
            let head = "\nSchema:\n"@ + "  Version: "@ + one_line(s.schema_version@) + "\n"@
                + "  Tables: "@ + listed(s.tables@) + "\n"@;
            let prefix = match s.detected_prefix {
                Some(p) => "  Detected prefix: "@ + one_line(p@) + "\n"@,
                None => Seq::empty(),
            };
            let samples = if s.sample_issue_ids@.len() > 0 {
                "  Sample IDs: "@ + listed(s.sample_issue_ids@) + "\n"@
            } else {
                Seq::empty()
            };
            schema_lines(Some(s)) == head + prefix + samples
        }),
        schema_lines(None).len() == 0,
{
    reveal_strlit("");
    let listed = |v: Seq<String>| join(inline_each(texts(v)), ", "@);
    let head = "\nSchema:\n"@ + "  Version: "@ + one_line(s.schema_version@) + "\n"@
        + "  Tables: "@ + listed(s.tables@) + "\n"@;
    let prefix = match s.detected_prefix {
        Some(p) => "  Detected prefix: "@ + one_line(p@) + "\n"@,
        None => Seq::empty(),
    };
    let samples = if s.sample_issue_ids@.len() > 0 {
        "  Sample IDs: "@ + listed(s.sample_issue_ids@) + "\n"@
    } else {
        Seq::empty()
    };
    assert(schema_lines(Some(s)) =~= head + prefix + samples);
}

/// A count on a line of its own, and nothing where it is not known.
pub open spec fn told_count(label: Seq<char>, count: Option<usize>) -> Seq<char> {
    match count {
        Some(n) => label + decimal(n as nat) + "\n"@,
        None => Seq::empty(),
    }
}

/// A text on a line of its own.
pub open spec fn told_text(label: Seq<char>, value: Seq<char>) -> Seq<char> {
    label + one_line(value) + "\n"@
}

proof fn lemma_told_count(label: Seq<char>, count: Option<usize>)
    ensures
        count_line(label, count) == told_count(label, count),
{
    reveal_strlit("");
    assert(count_line(label, count) =~= told_count(label, count));
}

/// Each count of the projections that is known is told on a line of its own, in this order.
pub proof fn law_each_known_count_is_told(p: ProjectionInfo)
    ensures
        projection_counts(p) == told_count("  Cached blocked rows: "@, p.cached_blocked_rows)
            + told_count("  Direct blocked rows: "@, p.direct_blocked_rows) + told_count(
            "  Missing cache rows: "@,
            p.cached_missing_rows,
        ) + told_count("  Extra cache rows: "@, p.cached_extra_rows) + told_count(
            "  Mismatched cache rows: "@,
            p.cached_mismatched_rows,
        ) + told_count("  Cached ready rows: "@, p.cached_ready_rows) + told_count(
            "  Direct ready rows: "@,
            p.direct_ready_rows,
        ) + told_count("  Missing ready rows: "@, p.cached_ready_missing_rows) + told_count(
            "  Extra ready rows: "@,
            p.cached_ready_extra_rows,
        ) + told_count("  Child counter rows: "@, p.child_counter_rows),
{
    lemma_told_count("  Cached blocked rows: "@, p.cached_blocked_rows);
    lemma_told_count("  Direct blocked rows: "@, p.direct_blocked_rows);
    lemma_told_count("  Missing cache rows: "@, p.cached_missing_rows);
    lemma_told_count("  Extra cache rows: "@, p.cached_extra_rows);
    lemma_told_count("  Mismatched cache rows: "@, p.cached_mismatched_rows);
    lemma_told_count("  Cached ready rows: "@, p.cached_ready_rows);
    lemma_told_count("  Direct ready rows: "@, p.direct_ready_rows);
    lemma_told_count("  Missing ready rows: "@, p.cached_ready_missing_rows);
    lemma_told_count("  Extra ready rows: "@, p.cached_ready_extra_rows);
    lemma_told_count("  Child counter rows: "@, p.child_counter_rows);
}

/// The reasons on a line of their own, and nothing where there are none.
pub open spec fn told_reasons(reasons: Seq<String>) -> Seq<char> {
    if reasons.len() > 0 {
        "  Rebuild reasons: "@ + join(inline_each(texts(reasons)), ", "@) + "\n"@
    } else {
        Seq::empty()
    }
}

/// The projections are told by the state of their cache, whether a rebuild is needed, how they
/// match, their counts, and the reasons where there are any.
pub proof fn law_projections_are_told(p: ProjectionInfo)
    ensures
        projection_lines(Some(p)) == "\nGraph projections:\n"@ + told_text(
            "  Blocked cache: "@,
            p.blocked_cache_state@,
        ) + "  Rebuild needed: "@ + (if p.rebuild_needed {
            "yes\n"@
        } else {
            "no\n"@
        }) + told_text("  Cache parity: "@, p.parity_status@) + told_text(
            "  Ready parity: "@,
            p.ready_parity_status@,
        ) + projection_counts(p) + told_reasons(p.rebuild_reasons@),
        projection_lines(None).len() == 0,
{
    reveal_strlit("");
    assert(crate::info::nonempty_list_line("  Rebuild reasons: "@, p.rebuild_reasons@)
        =~= told_reasons(p.rebuild_reasons@));
}

/// The text begins with the place and the database, and tells the rest behind them, each part
/// that is known.
pub proof fn law_workspace_is_told(info: InfoOutput)
    ensures
        ({
            let head = "Beads Database Information\n"@ + "Beads dir: "@ + one_line(info.beads_dir@)
                + "\n"@ + "Database: "@ + one_line(info.database_path@) + "\n"@;
            let size = match info.db_size {
                Some(n) => "Database size: "@ + size_text(n) + "\n"@,
                None => Seq::empty(),
            };
            let mode = "Mode: "@ + one_line(info.mode@) + "\n"@;
            let count = match info.issue_count {
                Some(n) => "Issue count: "@ + decimal(n as nat) + "\n"@,
                None => Seq::empty(),
            };
            let prefix = match info.resolved_prefix {
                Some(p) => "Issue prefix: "@ + one_line(p@) + "\n"@,
                None => Seq::empty(),
            };
            human_text(info) == head + size + jsonl_lines(info.jsonl_path, info.jsonl_size) + mode
                + daemon_lines(
                info.daemon_connected,
                info.daemon_fallback_reason,
                info.daemon_detail,
            ) + count + prefix + schema_lines(info.schema) + projection_lines(info.projections)
        }),
{
    reveal_strlit("");
    let head = "Beads Database Information\n"@ + "Beads dir: "@ + one_line(info.beads_dir@)
        + "\n"@ + "Database: "@ + one_line(info.database_path@) + "\n"@;
    let size = match info.db_size {
        Some(n) => "Database size: "@ + size_text(n) + "\n"@,
        None => Seq::empty(),
    };
    let mode = "Mode: "@ + one_line(info.mode@) + "\n"@;
    let count = match info.issue_count {
        Some(n) => "Issue count: "@ + decimal(n as nat) + "\n"@,
        None => Seq::empty(),
    };
    let prefix = match info.resolved_prefix {
        Some(p) => "Issue prefix: "@ + one_line(p@) + "\n"@,
        None => Seq::empty(),
    };
    assert(size_line("Database size: "@, info.db_size) =~= size);
    assert(count_line("Issue count: "@, info.issue_count) =~= count);
    assert(optional_line("Issue prefix: "@, info.resolved_prefix) =~= prefix);
    assert("Beads Database Information\n"@ + value_line("Beads dir: "@, info.beads_dir@)
        + value_line("Database: "@, info.database_path@) =~= head);
}

/// The mode tells of a missing daemon where none is connected, and a count is told with its
/// unit.
pub proof fn law_missing_daemons_are_told(
    info: InfoOutput,
    label: Seq<char>,
    n: usize,
    unit: Seq<char>,
)
    ensures
        !info.daemon_connected ==> mode_entries(info).contains(
            styled(" (no daemon)"@, Role::Muted),
        ),
        info.daemon_connected ==> mode_entries(info).len() == 4,
        mode_entries(info)[2] == unstyled(one_line(info.mode@)),
        count_entry(label, Some(n), unit) == seq![
            styled(label, Role::Dimmed),
            unstyled(decimal(n as nat)),
            unstyled(unit),
        ],
        count_entry(label, None, unit).len() == 0,
{
    if !info.daemon_connected {
        assert(mode_entries(info)[3] == styled(" (no daemon)"@, Role::Muted));
    }
}

} // verus!
