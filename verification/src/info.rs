//! The `info` command: what there is to say of a workspace and its database.

use crate::model::copy_opt;
use crate::numbers::{decimal, decimal_text, signed_decimal, signed_decimal_text};
use crate::sanitize::{inline_each, inline_list, one_line, sanitize_terminal_inline};
use crate::show::OutputMode;
use crate::shown::{one_piece, one_span, shown, shown_in, Shown, ShownModel};
use crate::sizes::{format_bytes, size_text};
use crate::sorting::views;
use crate::spans::{
    labelled, push_all, push_labelled, push_styled, push_unstyled, styled, unstyled, Role, Span,
    SpanModel,
};
use crate::text::{
    given_texts, join, opt_text, opt_texts, same_text, text2, text3, text5, texts, texts_given,
};
use vstd::prelude::*;
use vstd::string::*;

verus! {

broadcast use vstd::string::group_string_axioms;

pub fn info_display_text(value: &str) -> (r: String)
    ensures
        r@ == one_line(value@),
{
    sanitize_terminal_inline(value)
}

pub fn info_display_list(values: &Vec<String>) -> (r: String)
    ensures
        r@ == join(inline_each(texts(values@)), ", "@),
{
    inline_list(values)
}

/// What the command does.
#[derive(Debug)]
pub enum InfoPlan {
    /// Say this, under this key in structured output.
    Message { key: String, text: String },
    /// Say what there is to say of the workspace.
    Collect,
}

/// What an [`InfoPlan`] says.
pub enum InfoPlanModel {
    Message { key: Seq<char>, text: Seq<char> },
    Collect,
}

impl View for InfoPlan {
    type V = InfoPlanModel;

    open spec fn view(&self) -> InfoPlanModel {
        match self {
            InfoPlan::Message { key, text } => InfoPlanModel::Message { key: key@, text: text@ },
            InfoPlan::Collect => InfoPlanModel::Collect,
        }
    }
}

/// Decides what the command does.
pub fn execute(whats_new: bool, thanks: bool) -> (r: InfoPlan)
    ensures
        r@ == if whats_new {
            InfoPlanModel::Message {
                key: "whats_new"@,
                text: "No whats-new data available for br."@,
            }
        } else if thanks {
            InfoPlanModel::Message {
                key: "thanks"@,
                text: "Thanks for using br. See README for project acknowledgements."@,
            }
        } else {
            InfoPlanModel::Collect
        },
{
    if whats_new {
        return InfoPlan::Message {
            key: "whats_new".to_owned(),
            text: "No whats-new data available for br.".to_owned(),
        };
    }
    if thanks {
        return InfoPlan::Message {
            key: "thanks".to_owned(),
            text: "Thanks for using br. See README for project acknowledgements.".to_owned(),
        };
    }
    InfoPlan::Collect
}

/// Where the facts of the database are read from.
#[derive(Debug, Clone, Copy, PartialEq, Eq, Structural)]
pub enum SnapshotStep {
    /// The database itself, opened to be read only.
    Direct,
    /// A copy of the database and its companions.
    FamilyCopy,
    /// Nowhere: the facts are left out.
    Nowhere,
    /// They have been read.
    Read,
}

/// Where to begin: a database that is missing is not created, and one behind a link is
/// copied.
pub fn begin_snapshot(db_is_file: bool, db_is_link: bool) -> (r: SnapshotStep)
    ensures
        r == if !db_is_file {
            SnapshotStep::Nowhere
        } else if db_is_link {
            SnapshotStep::FamilyCopy
        } else {
            SnapshotStep::Direct
        },
        r == SnapshotStep::Nowhere <==> !db_is_file,
        r == SnapshotStep::Direct <==> db_is_file && !db_is_link,
{
    if !db_is_file {
        SnapshotStep::Nowhere
    } else if db_is_link {
        SnapshotStep::FamilyCopy
    } else {
        SnapshotStep::Direct
    }
}

/// Where to go on, by whether the facts could be read.
pub fn next_snapshot_step(step: SnapshotStep, read: bool) -> (r: SnapshotStep)
    ensures
        r == match step {
            SnapshotStep::Direct => if read {
                SnapshotStep::Read
            } else {
                SnapshotStep::FamilyCopy
            },
            SnapshotStep::FamilyCopy => if read {
                SnapshotStep::Read
            } else {
                SnapshotStep::Nowhere
            },
            other => other,
        },
        step == SnapshotStep::Direct && !read ==> r == SnapshotStep::FamilyCopy,
        step == SnapshotStep::FamilyCopy && !read ==> r == SnapshotStep::Nowhere,
{
    match step {
        SnapshotStep::Direct => if read {
            SnapshotStep::Read
        } else {
            SnapshotStep::FamilyCopy
        },
        SnapshotStep::FamilyCopy => if read {
            SnapshotStep::Read
        } else {
            SnapshotStep::Nowhere
        },
        other => other,
    }
}

/// A count that the database gave, where it gave one that can be.
pub open spec fn as_count(value: Option<i64>) -> Option<usize> {
    match value {
        Some(n) if 0 <= n <= usize::MAX => Some(n as usize),
        _ => None,
    }
}

pub fn count_from_row(value: Option<i64>) -> (r: Option<usize>)
    ensures
        r == as_count(value),
{
    match value {
        Some(n) => if n >= 0 && n as u64 <= usize::MAX as u64 {
            Some(n as usize)
        } else {
            None
        },
        None => None,
    }
}

/// The settings that the database keeps.
pub const CONFIG_QUERY: &'static str = "SELECT key, value FROM config";

/// The number of issues.
pub const ISSUE_COUNT_QUERY: &'static str = "SELECT COUNT(*) FROM issues";

/// The first id, from which a prefix can be told.
pub const FIRST_ID_QUERY: &'static str = "SELECT id FROM issues ORDER BY id LIMIT 1";

/// The ids that are shown as a sample.
pub const SAMPLE_IDS_QUERY: &'static str = "SELECT id FROM issues ORDER BY id LIMIT 3";

/// The tables, but for those of the engine itself.
pub const TABLE_NAMES_QUERY: &'static str =
    "SELECT name FROM sqlite_master WHERE type = 'table' AND name NOT LIKE 'sqlite_%' ORDER BY name";

/// The schema version.
pub const USER_VERSION_QUERY: &'static str = "PRAGMA user_version";

/// What was last noted under a key.
pub const METADATA_QUERY: &'static str =
    "SELECT value FROM metadata WHERE key = ? ORDER BY rowid DESC LIMIT 1";

/// The key under which the state of the blocked cache is noted.
pub const CACHE_STATE_KEY: &'static str = "blocked_cache_state";

/// The query that counts the rows of a projection, where it is one.
pub open spec fn count_query(table: Seq<char>) -> Option<Seq<char>> {
    if table == "blocked_issues_cache"@ {
        Some("SELECT COUNT(*) FROM blocked_issues_cache"@)
    } else if table == "child_counters"@ {
        Some("SELECT COUNT(*) FROM child_counters"@)
    } else if table == "dependencies"@ {
        Some("SELECT COUNT(*) FROM dependencies"@)
    } else {
        None
    }
}

pub fn projection_row_count_query(table: &str) -> (r: Option<&'static str>)
    ensures
        crate::text::opt_str(r) == count_query(table@),
{
    if same_text(table, "blocked_issues_cache") {
        Some("SELECT COUNT(*) FROM blocked_issues_cache")
    } else if same_text(table, "child_counters") {
        Some("SELECT COUNT(*) FROM child_counters")
    } else if same_text(table, "dependencies") {
        Some("SELECT COUNT(*) FROM dependencies")
    } else {
        None
    }
}

/// The version of the schema, where the database gave one.
pub fn schema_version_text(version: Option<i64>) -> (r: String)
    ensures
        r@ == match version {
            Some(v) => signed_decimal(v as int),
            None => "unknown"@,
        },
{
    match version {
        Some(v) => signed_decimal_text(v),
        None => "unknown".to_owned(),
    }
}

/// Keys and values, each key once.
pub open spec fn entries(v: Seq<(String, String)>) -> Seq<(Seq<char>, Seq<char>)> {
    v.map_values(|p: (String, String)| (p.0@, p.1@))
}

/// Where a key stands, or the number of entries where it does not.
pub open spec fn key_index(v: Seq<(Seq<char>, Seq<char>)>, key: Seq<char>) -> int
    decreases v.len(),
{
    if v.len() == 0 || v[0].0 == key {
        0
    } else {
        1 + key_index(v.skip(1), key)
    }
}

/// The entries with this value under this key.
pub open spec fn with_entry(
    v: Seq<(Seq<char>, Seq<char>)>,
    key: Seq<char>,
    value: Seq<char>,
) -> Seq<(Seq<char>, Seq<char>)> {
    let at = key_index(v, key);
    if at < v.len() {
        v.update(at, (key, value))
    } else {
        v.push((key, value))
    }
}

/// The entries of the rows that hold a key and a value; of two with the same key the later
/// one counts.
pub open spec fn config_of(rows: Seq<(Option<String>, Option<String>)>) -> Seq<
    (Seq<char>, Seq<char>),
>
    decreases rows.len(),
{
    if rows.len() == 0 {
        Seq::empty()
    } else {
        let before = config_of(rows.drop_last());
        match rows.last() {
            (Some(key), Some(value)) => with_entry(before, key@, value@),
            _ => before,
        }
    }
}

fn find_key(v: &Vec<(String, String)>, key: &str) -> (r: usize)
    ensures
        r == key_index(entries(v@), key@),
        r <= v@.len(),
{
    let ghost all = entries(v@);
    let mut i: usize = 0;
    assert(all.skip(0) =~= all);
    while i < v.len()
        invariant
            i <= v@.len(),
            all == entries(v@),
            key_index(all, key@) == i + key_index(all.skip(i as int), key@),
        decreases v@.len() - i,
    {
        assert(all[i as int] == (v@[i as int].0@, v@[i as int].1@));
        if same_text(v[i].0.as_str(), key) {
            return i;
        }
        assert(all.skip(i as int).skip(1) =~= all.skip(i + 1));
        i += 1;
    }
    i
}

/// The settings in the rows of the database, where there are any.
pub fn load_config_map(rows: Vec<(Option<String>, Option<String>)>) -> (r: Option<
    Vec<(String, String)>,
>)
    ensures
        match r {
            Some(v) => entries(v@) == config_of(rows@) && v@.len() > 0,
            None => config_of(rows@).len() == 0,
        },
{
    let ghost given = rows@;
    let mut out: Vec<(String, String)> = Vec::new();
    assert(entries(out@) =~= config_of(given.take(0)));
    for row in it: rows
        invariant
            it.seq() == given,
            entries(out@) == config_of(given.take(it.index() as int)),
    {
        let ghost n = it.index() as int;
        assert(given.take(n + 1).drop_last() =~= given.take(n));
        assert(given.take(n + 1).last() == row);
        if let (Some(key), Some(value)) = row {
            let ghost before = entries(out@);
            let ghost pair = (key@, value@);
            let at = find_key(&out, key.as_str());
            if at < out.len() {
                out.set(at, (key, value));
                assert(entries(out@) =~= before.update(at as int, pair));
            } else {
                out.push((key, value));
                assert(entries(out@) =~= before.push(pair));
            }
        }
    }
    assert(given.take(given.len() as int) =~= given);
    if out.len() == 0 {
        None
    } else {
        Some(out)
    }
}

proof fn lemma_key_index(v: Seq<(Seq<char>, Seq<char>)>, key: Seq<char>)
    ensures
        0 <= key_index(v, key) <= v.len(),
        key_index(v, key) < v.len() ==> v[key_index(v, key)].0 == key,
        forall|i: int| 0 <= i < key_index(v, key) ==> (#[trigger] v[i]).0 != key,
    decreases v.len(),
{
    if v.len() > 0 && v[0].0 != key {
        lemma_key_index(v.skip(1), key);
        assert forall|i: int| 0 <= i < key_index(v, key) implies (#[trigger] v[i]).0 != key by {
            if i > 0 {
                assert(v.skip(1)[i - 1] == v[i]);
            }
        }
    }
}

/// Every key of the settings stands there once.
pub proof fn law_settings_have_one_value(rows: Seq<(Option<String>, Option<String>)>, i: int, j: int)
    requires
        0 <= i < j < config_of(rows).len(),
    ensures
        config_of(rows)[i].0 != config_of(rows)[j].0,
    decreases rows.len(),
{
    if rows.len() > 0 {
        let before = config_of(rows.drop_last());
        if let (Some(key), Some(value)) = rows.last() {
            lemma_key_index(before, key@);
            if j < before.len() {
                law_settings_have_one_value(rows.drop_last(), i, j);
            } else {
                assert(before[i].0 != key@);
            }
        } else {
            law_settings_have_one_value(rows.drop_last(), i, j);
        }
    }
}

/// The first of the prefixes that there is: the configured one, the one of the database,
/// the one of the issues file.
pub fn resolve_prefix(
    configured: Option<String>,
    detected: Option<String>,
    in_file: Option<String>,
) -> (r: Option<String>)
    ensures
        r == if configured is Some {
            configured
        } else if detected is Some {
            detected
        } else {
            in_file
        },
        configured is Some ==> r == configured,
        configured is None && detected is Some ==> r == detected,
        configured is None && detected is None ==> r == in_file,
{
    match configured {
        Some(prefix) => Some(prefix),
        None => match detected {
            Some(prefix) => Some(prefix),
            None => in_file,
        },
    }
}

/// What a comparison of the cache of blocked issues with the issues gave.
#[derive(Debug)]
pub struct BlockedHealth {
    pub parity_status: String,
    pub mismatch: bool,
    pub direct_blocked_rows: Option<usize>,
    pub cached_missing_rows: Option<usize>,
    pub cached_extra_rows: Option<usize>,
    pub cached_mismatched_rows: Option<usize>,
}

/// What a comparison of the ready issues with the issues gave.
#[derive(Debug)]
pub struct ReadyHealth {
    pub parity_status: String,
    pub mismatch: bool,
    pub cached_ready_rows: Option<usize>,
    pub direct_ready_rows: Option<usize>,
    pub cached_ready_missing_rows: Option<usize>,
    pub cached_ready_extra_rows: Option<usize>,
}

/// How the projections of the issue graph stand.
#[derive(Debug)]
pub struct ProjectionInfo {
    pub schema_version: String,
    pub blocked_cache_state: String,
    pub blocked_cache_stale: bool,
    pub parity_status: String,
    pub ready_parity_status: String,
    pub rebuild_needed: bool,
    pub rebuild_reasons: Vec<String>,
    pub issue_rows: Option<usize>,
    pub dependency_rows: Option<usize>,
    pub cached_blocked_rows: Option<usize>,
    pub direct_blocked_rows: Option<usize>,
    pub cached_missing_rows: Option<usize>,
    pub cached_extra_rows: Option<usize>,
    pub cached_mismatched_rows: Option<usize>,
    pub cached_ready_rows: Option<usize>,
    pub direct_ready_rows: Option<usize>,
    pub cached_ready_missing_rows: Option<usize>,
    pub cached_ready_extra_rows: Option<usize>,
    pub child_counter_rows: Option<usize>,
}

/// What [`ProjectionInfo`] says.
#[verifier::ext_equal]
pub struct ProjectionModel {
    pub schema_version: Seq<char>,
    pub blocked_cache_state: Seq<char>,
    pub blocked_cache_stale: bool,
    pub parity_status: Seq<char>,
    pub ready_parity_status: Seq<char>,
    pub rebuild_needed: bool,
    pub rebuild_reasons: Seq<Seq<char>>,
    pub issue_rows: Option<usize>,
    pub dependency_rows: Option<usize>,
    pub cached_blocked_rows: Option<usize>,
    pub direct_blocked_rows: Option<usize>,
    pub cached_missing_rows: Option<usize>,
    pub cached_extra_rows: Option<usize>,
    pub cached_mismatched_rows: Option<usize>,
    pub cached_ready_rows: Option<usize>,
    pub direct_ready_rows: Option<usize>,
    pub cached_ready_missing_rows: Option<usize>,
    pub cached_ready_extra_rows: Option<usize>,
    pub child_counter_rows: Option<usize>,
}

impl View for ProjectionInfo {
    type V = ProjectionModel;

    open spec fn view(&self) -> ProjectionModel {
        ProjectionModel {
            schema_version: self.schema_version@,
            blocked_cache_state: self.blocked_cache_state@,
            blocked_cache_stale: self.blocked_cache_stale,
            parity_status: self.parity_status@,
            ready_parity_status: self.ready_parity_status@,
            rebuild_needed: self.rebuild_needed,
            rebuild_reasons: texts(self.rebuild_reasons@),
            issue_rows: self.issue_rows,
            dependency_rows: self.dependency_rows,
            cached_blocked_rows: self.cached_blocked_rows,
            direct_blocked_rows: self.direct_blocked_rows,
            cached_missing_rows: self.cached_missing_rows,
            cached_extra_rows: self.cached_extra_rows,
            cached_mismatched_rows: self.cached_mismatched_rows,
            cached_ready_rows: self.cached_ready_rows,
            direct_ready_rows: self.direct_ready_rows,
            cached_ready_missing_rows: self.cached_ready_missing_rows,
            cached_ready_extra_rows: self.cached_ready_extra_rows,
            child_counter_rows: self.child_counter_rows,
        }
    }
}

/// How both projections stand: a mismatch of one is a mismatch, and what cannot be seen of
/// one cannot be seen.
pub open spec fn combined_parity(blocked: Seq<char>, ready: Seq<char>) -> Seq<char> {
    if blocked == "mismatch"@ || ready == "mismatch"@ {
        "mismatch"@
    } else if blocked == "unavailable"@ || ready == "unavailable"@ {
        "unavailable"@
    } else {
        "matches"@
    }
}

pub fn combined_projection_parity_status(blocked_status: &str, ready_status: &str) -> (r: String)
    ensures
        r@ == combined_parity(blocked_status@, ready_status@),
{
    if same_text(blocked_status, "mismatch") || same_text(ready_status, "mismatch") {
        "mismatch".to_owned()
    } else if same_text(blocked_status, "unavailable") || same_text(ready_status, "unavailable") {
        "unavailable".to_owned()
    } else {
        "matches".to_owned()
    }
}

/// A reason, where it holds.
pub open spec fn reason_if(holds: bool, reason: Seq<char>) -> Seq<Seq<char>> {
    if holds {
        seq![reason]
    } else {
        Seq::empty()
    }
}

/// Why the projections have to be rebuilt.
pub open spec fn rebuild_reasons(
    stale: bool,
    blocked_mismatch: bool,
    ready_mismatch: bool,
    cache_missing: bool,
    counters_missing: bool,
) -> Seq<Seq<char>> {
    reason_if(stale, "blocked_cache_marked_stale"@) + reason_if(
        blocked_mismatch,
        "blocked_cache_content_mismatch"@,
    ) + reason_if(ready_mismatch, "ready_projection_content_mismatch"@) + reason_if(
        cache_missing,
        "blocked_issues_cache_missing"@,
    ) + reason_if(counters_missing, "child_counters_missing"@)
}

fn push_reason(out: &mut Vec<String>, holds: bool, reason: &str)
    ensures
        texts(final(out)@) == texts(old(out)@) + reason_if(holds, reason@),
{
    let ghost before = texts(out@);
    if holds {
        out.push(reason.to_owned());
    }
    assert(texts(out@) =~= before + reason_if(holds, reason@));
}

/// The state of the cache: fresh where nothing else is recorded.
pub open spec fn cache_state(recorded: Option<Seq<char>>) -> Seq<char> {
    match recorded {
        Some(state) if state.len() > 0 => state,
        _ => "fresh"@,
    }
}

/// How the projections stand, from what was read of the database.
pub fn build_projection_info(
    recorded_state: Option<String>,
    issue_rows: Option<usize>,
    dependency_rows: Option<usize>,
    cached_blocked_rows: Option<usize>,
    child_counter_rows: Option<usize>,
    blocked: BlockedHealth,
    ready: ReadyHealth,
) -> (r: ProjectionInfo)
    ensures
        r@ == ({
            let state = cache_state(opt_text(recorded_state));
            let reasons = rebuild_reasons(
                state == "stale"@,
                blocked.mismatch,
                ready.mismatch,
                cached_blocked_rows is None,
                child_counter_rows is None,
            );
            ProjectionModel {
                schema_version: "br.graph-projections.v1"@,
                blocked_cache_state: state,
                blocked_cache_stale: state == "stale"@,
                parity_status: combined_parity(blocked.parity_status@, ready.parity_status@),
                ready_parity_status: ready.parity_status@,
                rebuild_needed: reasons.len() > 0,
                rebuild_reasons: reasons,
                issue_rows,
                dependency_rows,
                cached_blocked_rows,
                direct_blocked_rows: blocked.direct_blocked_rows,
                cached_missing_rows: blocked.cached_missing_rows,
                cached_extra_rows: blocked.cached_extra_rows,
                cached_mismatched_rows: blocked.cached_mismatched_rows,
                cached_ready_rows: ready.cached_ready_rows,
                direct_ready_rows: ready.direct_ready_rows,
                cached_ready_missing_rows: ready.cached_ready_missing_rows,
                cached_ready_extra_rows: ready.cached_ready_extra_rows,
                child_counter_rows,
            }
        }),
{
    let blocked_cache_state = match recorded_state {
        Some(state) => if state.as_str().is_empty() {
            "fresh".to_owned()
        } else {
            state
        },
        None => "fresh".to_owned(),
    };
    let stale = same_text(blocked_cache_state.as_str(), "stale");
    let mut reasons: Vec<String> = Vec::new();
    assert(texts(reasons@) =~= Seq::<Seq<char>>::empty());
    push_reason(&mut reasons, stale, "blocked_cache_marked_stale");
    assert(texts(reasons@) =~= reason_if(stale, "blocked_cache_marked_stale"@));
    push_reason(&mut reasons, blocked.mismatch, "blocked_cache_content_mismatch");
    push_reason(&mut reasons, ready.mismatch, "ready_projection_content_mismatch");
    push_reason(&mut reasons, cached_blocked_rows.is_none(), "blocked_issues_cache_missing");
    push_reason(&mut reasons, child_counter_rows.is_none(), "child_counters_missing");
    let parity_status = combined_projection_parity_status(
        blocked.parity_status.as_str(),
        ready.parity_status.as_str(),
    );
    let rebuild_needed = reasons.len() > 0;
    ProjectionInfo {
        schema_version: "br.graph-projections.v1".to_owned(),
        blocked_cache_state,
        blocked_cache_stale: stale,
        parity_status,
        ready_parity_status: ready.parity_status,
        rebuild_needed,
        rebuild_reasons: reasons,
        issue_rows,
        dependency_rows,
        cached_blocked_rows,
        direct_blocked_rows: blocked.direct_blocked_rows,
        cached_missing_rows: blocked.cached_missing_rows,
        cached_extra_rows: blocked.cached_extra_rows,
        cached_mismatched_rows: blocked.cached_mismatched_rows,
        cached_ready_rows: ready.cached_ready_rows,
        direct_ready_rows: ready.direct_ready_rows,
        cached_ready_missing_rows: ready.cached_ready_missing_rows,
        cached_ready_extra_rows: ready.cached_ready_extra_rows,
        child_counter_rows,
    }
}

/// A rebuild is needed exactly when something is stale, differs or is missing.
pub proof fn law_rebuild_needs_a_reason(
    stale: bool,
    blocked_mismatch: bool,
    ready_mismatch: bool,
    cache_missing: bool,
    counters_missing: bool,
)
    ensures
        rebuild_reasons(
            stale,
            blocked_mismatch,
            ready_mismatch,
            cache_missing,
            counters_missing,
        ).len() > 0 <==> stale || blocked_mismatch || ready_mismatch || cache_missing
            || counters_missing,
{
}

/// What the schema of the database is like.
#[derive(Debug)]
pub struct SchemaInfo {
    pub tables: Vec<String>,
    pub schema_version: String,
    pub config: Option<Vec<(String, String)>>,
    pub sample_issue_ids: Vec<String>,
    pub detected_prefix: Option<String>,
}

/// What there is to say of a workspace.
#[derive(Debug)]
pub struct InfoOutput {
    pub database_path: String,
    pub beads_dir: String,
    pub mode: String,
    pub daemon_connected: bool,
    pub resolved_prefix: Option<String>,
    pub daemon_fallback_reason: Option<String>,
    pub daemon_detail: Option<String>,
    pub issue_count: Option<usize>,
    pub config: Option<Vec<(String, String)>>,
    pub schema: Option<SchemaInfo>,
    pub projections: Option<ProjectionInfo>,
    pub db_size: Option<u64>,
    pub jsonl_path: Option<String>,
    pub jsonl_size: Option<u64>,
}

/// What was read of the database.
#[derive(Debug)]
pub struct InfoSnapshot {
    pub issue_count: Option<usize>,
    pub config_map: Option<Vec<(String, String)>>,
    pub detected_prefix: Option<String>,
    pub schema: Option<SchemaInfo>,
    pub projections: Option<ProjectionInfo>,
}

/// The settings, where there are any.
pub open spec fn opt_entries(map: Option<Vec<(String, String)>>) -> Option<
    Seq<(Seq<char>, Seq<char>)>,
> {
    match map {
        Some(v) => Some(entries(v@)),
        None => None,
    }
}

fn copy_settings(map: &Option<Vec<(String, String)>>) -> (r: Option<Vec<(String, String)>>)
    ensures
        opt_entries(r) == opt_entries(*map),
{
    match map {
        Some(v) => {
            let mut out: Vec<(String, String)> = Vec::new();
            let mut i: usize = 0;
            while i < v.len()
                invariant
                    i <= v@.len(),
                    entries(out@) =~= entries(v@).take(i as int),
                decreases v@.len() - i,
            {
                let ghost before = entries(out@);
                let entry = (v[i].0.clone(), v[i].1.clone());
                out.push(entry);
                assert(entries(out@) =~= before.push((entry.0@, entry.1@)));
                assert(entries(v@)[i as int] == (entry.0@, entry.1@));
                i += 1;
            }
            assert(entries(out@) =~= entries(v@));
            Some(out)
        },
        None => None,
    }
}

/// What was read of the schema: the first column of the rows that name the tables and of
/// those that name the first issues, and the version.
#[derive(Debug)]
pub struct SchemaRows {
    pub tables: Vec<Option<String>>,
    pub version: Option<i64>,
    pub sample_issue_ids: Vec<Option<String>>,
}

/// What there is to say of the schema.
pub fn build_schema_info(
    rows: &SchemaRows,
    config_map: &Option<Vec<(String, String)>>,
    detected_prefix: &Option<String>,
) -> (r: SchemaInfo)
    ensures
        texts(r.tables@) == given_texts(opt_texts(rows.tables@)),
        r.schema_version@ == match rows.version {
            Some(v) => signed_decimal(v as int),
            None => "unknown"@,
        },
        opt_entries(r.config) == opt_entries(*config_map),
        texts(r.sample_issue_ids@) == given_texts(opt_texts(rows.sample_issue_ids@)),
        opt_text(r.detected_prefix) == opt_text(*detected_prefix),
{
    SchemaInfo {
        tables: texts_given(&rows.tables),
        schema_version: schema_version_text(rows.version),
        config: copy_settings(config_map),
        sample_issue_ids: texts_given(&rows.sample_issue_ids),
        detected_prefix: copy_opt(detected_prefix),
    }
}

/// The prefix of the database: the one of its settings, or that of its first issue.
pub fn detect_prefix(in_settings: Option<String>, of_first_issue: Option<String>) -> (r: Option<
    String,
>)
    ensures
        r == if in_settings is Some {
            in_settings
        } else {
            of_first_issue
        },
        in_settings is Some ==> r == in_settings,
        in_settings is None ==> r == of_first_issue,
{
    match in_settings {
        Some(prefix) => Some(prefix),
        None => of_first_issue,
    }
}

/// What was read of the database. The schema and the projections are told where they were
/// asked for.
pub fn collect_info_snapshot(
    issue_count: Option<usize>,
    config_map: Option<Vec<(String, String)>>,
    detected_prefix: Option<String>,
    schema_rows: Option<SchemaRows>,
    projections: Option<ProjectionInfo>,
) -> (r: InfoSnapshot)
    ensures
        r.issue_count == issue_count,
        r.config_map == config_map,
        r.detected_prefix == detected_prefix,
        r.projections == projections,
        match (schema_rows, r.schema) {
            (None, None) => true,
            (Some(rows), Some(schema)) => {
                &&& texts(schema.tables@) == given_texts(opt_texts(rows.tables@))
                &&& schema.schema_version@ == match rows.version {
                    Some(v) => signed_decimal(v as int),
                    None => "unknown"@,
                }
                &&& opt_entries(schema.config) == opt_entries(config_map)
                &&& texts(schema.sample_issue_ids@) == given_texts(
                    opt_texts(rows.sample_issue_ids@),
                )
                &&& opt_text(schema.detected_prefix) == opt_text(detected_prefix)
            },
            _ => false,
        },
{
    let schema = match &schema_rows {
        Some(rows) => Some(build_schema_info(rows, &config_map, &detected_prefix)),
        None => None,
    };
    InfoSnapshot { issue_count, config_map, detected_prefix, schema, projections }
}

/// The facts of a database that could not be read.
pub fn empty_snapshot() -> (r: InfoSnapshot)
    ensures
        r.issue_count is None,
        r.config_map is None,
        r.detected_prefix is None,
        r.schema is None,
        r.projections is None,
{
    InfoSnapshot {
        issue_count: None,
        config_map: None,
        detected_prefix: None,
        schema: None,
        projections: None,
    }
}

/// What there is to say of a workspace: there is no daemon, so it is always in direct mode.
pub fn collect_info_output(
    database_path: String,
    beads_dir: String,
    jsonl_path: String,
    resolved_prefix: Option<String>,
    snapshot: InfoSnapshot,
    db_size: Option<u64>,
    jsonl_size: Option<u64>,
) -> (r: InfoOutput)
    ensures
        r.database_path == database_path,
        r.beads_dir == beads_dir,
        r.mode@ == "direct"@,
        !r.daemon_connected,
        r.resolved_prefix == resolved_prefix,
        opt_text(r.daemon_fallback_reason) == Some("no-daemon"@),
        opt_text(r.daemon_detail) == Some("br runs in direct mode only"@),
        r.issue_count == snapshot.issue_count,
        r.config == snapshot.config_map,
        r.schema == snapshot.schema,
        r.projections == snapshot.projections,
        r.db_size == db_size,
        r.jsonl_path == Some(jsonl_path),
        r.jsonl_size == jsonl_size,
{
    InfoOutput {
        database_path,
        beads_dir,
        mode: "direct".to_owned(),
        daemon_connected: false,
        resolved_prefix,
        daemon_fallback_reason: Some("no-daemon".to_owned()),
        daemon_detail: Some("br runs in direct mode only".to_owned()),
        issue_count: snapshot.issue_count,
        config: snapshot.config_map,
        schema: snapshot.schema,
        projections: snapshot.projections,
        db_size,
        jsonl_path: Some(jsonl_path),
        jsonl_size,
    }
}

/// A label and a sanitized value on a line.
pub open spec fn value_line(label: Seq<char>, value: Seq<char>) -> Seq<char> {
    label + one_line(value) + "\n"@
}

fn value_line_text(label: &str, value: &str) -> (r: String)
    ensures
        r@ == value_line(label@, value@),
{
    let shown = info_display_text(value);
    text3(label, shown.as_str(), "\n")
}

/// A label and a sanitized value on a line, where there is one.
pub open spec fn optional_line(label: Seq<char>, value: Option<String>) -> Seq<char> {
    match value {
        Some(v) => value_line(label, v@),
        None => ""@,
    }
}

fn optional_line_text(label: &str, value: &Option<String>) -> (r: String)
    ensures
        r@ == optional_line(label@, *value),
{
    match value {
        Some(v) => value_line_text(label, v.as_str()),
        None => "".to_owned(),
    }
}

/// A label and a size on a line, where there is one.
pub open spec fn size_line(label: Seq<char>, size: Option<u64>) -> Seq<char> {
    match size {
        Some(n) => label + size_text(n) + "\n"@,
        None => ""@,
    }
}

fn size_line_text(label: &str, size: Option<u64>) -> (r: String)
    ensures
        r@ == size_line(label@, size),
{
    match size {
        Some(n) => {
            let shown = format_bytes(n);
            text3(label, shown.as_str(), "\n")
        },
        None => "".to_owned(),
    }
}

/// A label and a count on a line, where there is one.
pub open spec fn count_line(label: Seq<char>, count: Option<usize>) -> Seq<char> {
    match count {
        Some(n) => label + decimal(n as nat) + "\n"@,
        None => ""@,
    }
}

fn count_line_text(label: &str, count: Option<usize>) -> (r: String)
    ensures
        r@ == count_line(label@, count),
{
    match count {
        Some(n) => {
            let shown = decimal_text(n as u64);
            text3(label, shown.as_str(), "\n")
        },
        None => "".to_owned(),
    }
}

/// A label and a list on a line.
pub open spec fn list_line(label: Seq<char>, values: Seq<String>) -> Seq<char> {
    label + join(inline_each(texts(values)), ", "@) + "\n"@
}

fn list_line_text(label: &str, values: &Vec<String>) -> (r: String)
    ensures
        r@ == list_line(label@, values@),
{
    let shown = info_display_list(values);
    text3(label, shown.as_str(), "\n")
}

/// A label and a list on a line, unless the list is empty.
pub open spec fn nonempty_list_line(label: Seq<char>, values: Seq<String>) -> Seq<char> {
    if values.len() == 0 {
        ""@
    } else {
        list_line(label, values)
    }
}

fn nonempty_list_line_text(label: &str, values: &Vec<String>) -> (r: String)
    ensures
        r@ == nonempty_list_line(label@, values@),
{
    if values.len() == 0 {
        "".to_owned()
    } else {
        list_line_text(label, values)
    }
}

/// The issues file and its size, where there is one.
pub open spec fn jsonl_lines(path: Option<String>, size: Option<u64>) -> Seq<char> {
    match path {
        Some(p) => value_line("JSONL: "@, p@) + size_line("JSONL size: "@, size),
        None => ""@,
    }
}

fn jsonl_lines_text(path: &Option<String>, size: Option<u64>) -> (r: String)
    ensures
        r@ == jsonl_lines(*path, size),
{
    match path {
        Some(p) => {
            let line = value_line_text("JSONL: ", p.as_str());
            let size_text = size_line_text("JSONL size: ", size);
            text2(line.as_str(), size_text.as_str())
        },
        None => "".to_owned(),
    }
}

/// Whether a daemon is there, and if not, why.
pub open spec fn daemon_lines(
    connected: bool,
    reason: Option<String>,
    detail: Option<String>,
) -> Seq<char> {
    if connected {
        "Daemon: connected\n"@
    } else {
        match reason {
            Some(why) => "Daemon: not connected ("@ + one_line(why@) + ")\n"@ + optional_line(
                "  "@,
                detail,
            ),
            None => ""@,
        }
    }
}

fn daemon_lines_text(
    connected: bool,
    reason: &Option<String>,
    detail: &Option<String>,
) -> (r: String)
    ensures
        r@ == daemon_lines(connected, *reason, *detail),
{
    if connected {
        return "Daemon: connected\n".to_owned();
    }
    match reason {
        Some(why) => {
            let shown = info_display_text(why.as_str());
            let mut out = text3("Daemon: not connected (", shown.as_str(), ")\n");
            let line = optional_line_text("  ", detail);
            out.append(line.as_str());
            out
        },
        None => "".to_owned(),
    }
}

/// The schema, where it was asked for.
pub open spec fn schema_lines(schema: Option<SchemaInfo>) -> Seq<char> {
    match schema {
        Some(s) => "\nSchema:\n"@ + value_line("  Version: "@, s.schema_version@) + list_line(
            "  Tables: "@,
            s.tables@,
        ) + optional_line("  Detected prefix: "@, s.detected_prefix) + nonempty_list_line(
            "  Sample IDs: "@,
            s.sample_issue_ids@,
        ),
        None => ""@,
    }
}

fn schema_lines_text(schema: &Option<SchemaInfo>) -> (r: String)
    ensures
        r@ == schema_lines(*schema),
{
    match schema {
        Some(s) => {
            let version = value_line_text("  Version: ", s.schema_version.as_str());
            let tables = list_line_text("  Tables: ", &s.tables);
            let prefix = optional_line_text("  Detected prefix: ", &s.detected_prefix);
            let samples = nonempty_list_line_text("  Sample IDs: ", &s.sample_issue_ids);
            text5(
                "\nSchema:\n",
                version.as_str(),
                tables.as_str(),
                prefix.as_str(),
                samples.as_str(),
            )
        },
        None => "".to_owned(),
    }
}

/// The counts of the projections that there are.
pub open spec fn projection_counts(p: ProjectionInfo) -> Seq<char> {
    count_line("  Cached blocked rows: "@, p.cached_blocked_rows) + count_line(
        "  Direct blocked rows: "@,
        p.direct_blocked_rows,
    ) + count_line("  Missing cache rows: "@, p.cached_missing_rows) + count_line(
        "  Extra cache rows: "@,
        p.cached_extra_rows,
    ) + count_line("  Mismatched cache rows: "@, p.cached_mismatched_rows) + count_line(
        "  Cached ready rows: "@,
        p.cached_ready_rows,
    ) + count_line("  Direct ready rows: "@, p.direct_ready_rows) + count_line(
        "  Missing ready rows: "@,
        p.cached_ready_missing_rows,
    ) + count_line("  Extra ready rows: "@, p.cached_ready_extra_rows) + count_line(
        "  Child counter rows: "@,
        p.child_counter_rows,
    )
}

fn projection_counts_text(p: &ProjectionInfo) -> (r: String)
    ensures
        r@ == projection_counts(*p),
{
    let mut out = count_line_text("  Cached blocked rows: ", p.cached_blocked_rows);
    let direct = count_line_text("  Direct blocked rows: ", p.direct_blocked_rows);
    out.append(direct.as_str());
    let missing = count_line_text("  Missing cache rows: ", p.cached_missing_rows);
    out.append(missing.as_str());
    let extra = count_line_text("  Extra cache rows: ", p.cached_extra_rows);
    out.append(extra.as_str());
    let mismatched = count_line_text("  Mismatched cache rows: ", p.cached_mismatched_rows);
    out.append(mismatched.as_str());
    let ready = count_line_text("  Cached ready rows: ", p.cached_ready_rows);
    out.append(ready.as_str());
    let direct_ready = count_line_text("  Direct ready rows: ", p.direct_ready_rows);
    out.append(direct_ready.as_str());
    let missing_ready = count_line_text("  Missing ready rows: ", p.cached_ready_missing_rows);
    out.append(missing_ready.as_str());
    let extra_ready = count_line_text("  Extra ready rows: ", p.cached_ready_extra_rows);
    out.append(extra_ready.as_str());
    let children = count_line_text("  Child counter rows: ", p.child_counter_rows);
    out.append(children.as_str());
    out
}

/// The projections, where they were asked for.
pub open spec fn projection_lines(projections: Option<ProjectionInfo>) -> Seq<char> {
    match projections {
        Some(p) => "\nGraph projections:\n"@ + value_line(
            "  Blocked cache: "@,
            p.blocked_cache_state@,
        ) + "  Rebuild needed: "@ + if p.rebuild_needed {
            "yes\n"@
        } else {
            "no\n"@
        } + value_line("  Cache parity: "@, p.parity_status@) + value_line(
            "  Ready parity: "@,
            p.ready_parity_status@,
        ) + projection_counts(p) + nonempty_list_line(
            "  Rebuild reasons: "@,
            p.rebuild_reasons@,
        ),
        None => ""@,
    }
}

pub fn print_projection_human(projections: &Option<ProjectionInfo>) -> (r: String)
    ensures
        r@ == projection_lines(*projections),
{
    match projections {
        Some(p) => {
            let state = value_line_text("  Blocked cache: ", p.blocked_cache_state.as_str());
            let mut out = text3("\nGraph projections:\n", state.as_str(), "  Rebuild needed: ");
            if p.rebuild_needed {
                out.append("yes\n");
            } else {
                out.append("no\n");
            }
            let parity = value_line_text("  Cache parity: ", p.parity_status.as_str());
            out.append(parity.as_str());
            let ready = value_line_text("  Ready parity: ", p.ready_parity_status.as_str());
            out.append(ready.as_str());
            let counts = projection_counts_text(p);
            out.append(counts.as_str());
            let reasons = nonempty_list_line_text("  Rebuild reasons: ", &p.rebuild_reasons);
            out.append(reasons.as_str());
            out
        },
        None => "".to_owned(),
    }
}

/// What there is to say, as plain text.
pub open spec fn human_text(info: InfoOutput) -> Seq<char> {
    "Beads Database Information\n"@ + value_line("Beads dir: "@, info.beads_dir@) + value_line(
        "Database: "@,
        info.database_path@,
    ) + size_line("Database size: "@, info.db_size) + jsonl_lines(info.jsonl_path, info.jsonl_size)
        + value_line("Mode: "@, info.mode@) + daemon_lines(
        info.daemon_connected,
        info.daemon_fallback_reason,
        info.daemon_detail,
    ) + count_line("Issue count: "@, info.issue_count) + optional_line(
        "Issue prefix: "@,
        info.resolved_prefix,
    ) + schema_lines(info.schema) + projection_lines(info.projections)
}

/// What there is to say, as plain text.
pub fn print_human(info: &InfoOutput) -> (r: String)
    ensures
        r@ == human_text(*info),
{
    let dir = value_line_text("Beads dir: ", info.beads_dir.as_str());
    let mut out = text2("Beads Database Information\n", dir.as_str());
    let database = value_line_text("Database: ", info.database_path.as_str());
    out.append(database.as_str());
    let size = size_line_text("Database size: ", info.db_size);
    out.append(size.as_str());
    let jsonl = jsonl_lines_text(&info.jsonl_path, info.jsonl_size);
    out.append(jsonl.as_str());
    let mode = value_line_text("Mode: ", info.mode.as_str());
    out.append(mode.as_str());
    let daemon = daemon_lines_text(
        info.daemon_connected,
        &info.daemon_fallback_reason,
        &info.daemon_detail,
    );
    out.append(daemon.as_str());
    let count = count_line_text("Issue count: ", info.issue_count);
    out.append(count.as_str());
    let prefix = optional_line_text("Issue prefix: ", &info.resolved_prefix);
    out.append(prefix.as_str());
    let schema = schema_lines_text(&info.schema);
    out.append(schema.as_str());
    let projections = print_projection_human(&info.projections);
    out.append(projections.as_str());
    out
}

/// A labelled value of the panel, where there is one.
pub open spec fn optional_entry(label: Seq<char>, value: Option<String>, role: Role) -> Seq<
    SpanModel,
> {
    match value {
        Some(v) => labelled(label, one_line(v@), role),
        None => Seq::empty(),
    }
}

fn push_optional(out: &mut Vec<Span>, label: &str, value: &Option<String>, role: Role)
    ensures
        views(final(out)@) == views(old(out)@) + optional_entry(label@, *value, role),
{
    let ghost before = views(out@);
    if let Some(v) = value {
        let shown = info_display_text(v.as_str());
        push_labelled(out, label, shown.as_str(), role);
    }
    assert(views(out@) =~= before + optional_entry(label@, *value, role));
}

/// A labelled size of the panel, where there is one.
pub open spec fn size_entry(size: Option<u64>) -> Seq<SpanModel> {
    match size {
        Some(n) => labelled("  Size      "@, size_text(n), Role::Normal),
        None => Seq::empty(),
    }
}

fn push_size(out: &mut Vec<Span>, size: Option<u64>)
    ensures
        views(final(out)@) == views(old(out)@) + size_entry(size),
{
    let ghost before = views(out@);
    if let Some(n) = size {
        let shown = format_bytes(n);
        push_labelled(out, "  Size      ", shown.as_str(), Role::Normal);
    }
    assert(views(out@) =~= before + size_entry(size));
}

/// The panel from the top to the database.
pub open spec fn location_entries(info: InfoOutput) -> Seq<SpanModel> {
    labelled("Location    "@, one_line(info.beads_dir@), Role::Accent) + optional_entry(
        "Prefix      "@,
        info.resolved_prefix,
        Role::IssueId,
    ) + seq![unstyled("\n"@), styled("Database\n"@, Role::Section)] + labelled(
        "  Path      "@,
        one_line(info.database_path@),
        Role::Accent,
    ) + size_entry(info.db_size) + match info.issue_count {
        Some(n) => seq![
            styled("  Issues    "@, Role::Dimmed),
            styled(decimal(n as nat), Role::Emphasis),
            styled(" total\n"@, Role::Dimmed),
        ],
        None => Seq::empty(),
    }
}

fn location_spans(info: &InfoOutput) -> (r: Vec<Span>)
    ensures
        views(r@) == location_entries(*info),
{
    let mut out: Vec<Span> = Vec::new();
    let dir = info_display_text(info.beads_dir.as_str());
    push_labelled(&mut out, "Location    ", dir.as_str(), Role::Accent);
    push_optional(&mut out, "Prefix      ", &info.resolved_prefix, Role::IssueId);
    push_unstyled(&mut out, "\n");
    push_styled(&mut out, "Database\n", Role::Section);
    let path = info_display_text(info.database_path.as_str());
    push_labelled(&mut out, "  Path      ", path.as_str(), Role::Accent);
    push_size(&mut out, info.db_size);
    if let Some(n) = info.issue_count {
        let count = decimal_text(n as u64);
        push_styled(&mut out, "  Issues    ", Role::Dimmed);
        push_styled(&mut out, count.as_str(), Role::Emphasis);
        push_styled(&mut out, " total\n", Role::Dimmed);
    }
    assert(views(out@) =~= location_entries(*info));
    out
}

/// The issues file in the panel, where there is one.
pub open spec fn jsonl_entries(info: InfoOutput) -> Seq<SpanModel> {
    match info.jsonl_path {
        Some(path) => seq![unstyled("\n"@), styled("JSONL\n"@, Role::Section)] + labelled(
            "  Path      "@,
            one_line(path@),
            Role::Accent,
        ) + size_entry(info.jsonl_size),
        None => Seq::empty(),
    }
}

fn jsonl_spans(info: &InfoOutput) -> (r: Vec<Span>)
    ensures
        views(r@) == jsonl_entries(*info),
{
    let mut out: Vec<Span> = Vec::new();
    if let Some(path) = &info.jsonl_path {
        push_unstyled(&mut out, "\n");
        push_styled(&mut out, "JSONL\n", Role::Section);
        let shown = info_display_text(path.as_str());
        push_labelled(&mut out, "  Path      ", shown.as_str(), Role::Accent);
        push_size(&mut out, info.jsonl_size);
    }
    assert(views(out@) =~= jsonl_entries(*info));
    out
}

/// The mode in the panel.
pub open spec fn mode_entries(info: InfoOutput) -> Seq<SpanModel> {
    seq![
        unstyled("\n"@),
        styled("Mode        "@, Role::Dimmed),
        unstyled(one_line(info.mode@)),
    ] + if info.daemon_connected {
        Seq::empty()
    } else {
        seq![styled(" (no daemon)"@, Role::Muted)]
    } + seq![unstyled("\n"@)]
}

fn mode_spans(info: &InfoOutput) -> (r: Vec<Span>)
    ensures
        views(r@) == mode_entries(*info),
{
    let mut out: Vec<Span> = Vec::new();
    push_unstyled(&mut out, "\n");
    push_styled(&mut out, "Mode        ", Role::Dimmed);
    let mode = info_display_text(info.mode.as_str());
    push_unstyled(&mut out, mode.as_str());
    if !info.daemon_connected {
        push_styled(&mut out, " (no daemon)", Role::Muted);
    }
    push_unstyled(&mut out, "\n");
    assert(views(out@) =~= mode_entries(*info));
    out
}

/// The schema in the panel, where it was asked for.
pub open spec fn schema_entries(schema: Option<SchemaInfo>) -> Seq<SpanModel> {
    match schema {
        Some(s) => seq![unstyled("\n"@), styled("Schema\n"@, Role::Section)] + labelled(
            "  Version   "@,
            one_line(s.schema_version@),
            Role::Normal,
        ) + labelled(
            "  Tables    "@,
            join(inline_each(texts(s.tables@)), ", "@),
            Role::Normal,
        ) + optional_entry("  Prefix    "@, s.detected_prefix, Role::IssueId)
            + if s.sample_issue_ids@.len() > 0 {
            labelled(
                "  Samples   "@,
                join(inline_each(texts(s.sample_issue_ids@)), ", "@),
                Role::Normal,
            )
        } else {
            Seq::empty()
        },
        None => Seq::empty(),
    }
}

fn schema_spans(schema: &Option<SchemaInfo>) -> (r: Vec<Span>)
    ensures
        views(r@) == schema_entries(*schema),
{
    let mut out: Vec<Span> = Vec::new();
    if let Some(s) = schema {
        push_unstyled(&mut out, "\n");
        push_styled(&mut out, "Schema\n", Role::Section);
        let version = info_display_text(s.schema_version.as_str());
        push_labelled(&mut out, "  Version   ", version.as_str(), Role::Normal);
        let tables = info_display_list(&s.tables);
        push_labelled(&mut out, "  Tables    ", tables.as_str(), Role::Normal);
        push_optional(&mut out, "  Prefix    ", &s.detected_prefix, Role::IssueId);
        if s.sample_issue_ids.len() > 0 {
            let samples = info_display_list(&s.sample_issue_ids);
            push_labelled(&mut out, "  Samples   ", samples.as_str(), Role::Normal);
        }
    }
    assert(views(out@) =~= schema_entries(*schema));
    out
}

/// A count of the panel with what it counts, where there is one.
pub open spec fn count_entry(label: Seq<char>, count: Option<usize>, unit: Seq<char>) -> Seq<
    SpanModel,
> {
    match count {
        Some(n) => seq![
            styled(label, Role::Dimmed),
            unstyled(decimal(n as nat)),
            unstyled(unit),
        ],
        None => Seq::empty(),
    }
}

fn push_count(out: &mut Vec<Span>, label: &str, count: Option<usize>, unit: &str)
    ensures
        views(final(out)@) == views(old(out)@) + count_entry(label@, count, unit@),
{
    let ghost before = views(out@);
    if let Some(n) = count {
        let shown = decimal_text(n as u64);
        push_styled(out, label, Role::Dimmed);
        push_unstyled(out, shown.as_str());
        push_unstyled(out, unit);
    }
    assert(views(out@) =~= before + count_entry(label@, count, unit@));
}

/// The projections in the panel, where they were asked for.
pub open spec fn projection_entries(projections: Option<ProjectionInfo>) -> Seq<SpanModel> {
    match projections {
        Some(p) => seq![unstyled("\n"@), styled("Graph projections\n"@, Role::Section)] + labelled(
            "  Blocked  "@,
            one_line(p.blocked_cache_state@),
            Role::Normal,
        ) + labelled(
            "  Rebuild  "@,
            if p.rebuild_needed {
                "needed"@
            } else {
                "not needed"@
            },
            Role::Normal,
        ) + labelled("  Parity   "@, one_line(p.parity_status@), Role::Normal) + seq![
            styled("  Ready    "@, Role::Dimmed),
            unstyled(one_line(p.ready_parity_status@)),
            unstyled(" parity\n"@),
        ] + count_entry("  Cached   "@, p.cached_blocked_rows, " blocked rows\n"@) + count_entry(
            "  Direct   "@,
            p.direct_blocked_rows,
            " blocked rows\n"@,
        ) + count_entry("  Ready    "@, p.cached_ready_rows, " cached rows\n"@) + count_entry(
            "  Direct   "@,
            p.direct_ready_rows,
            " ready rows\n"@,
        ) + count_entry("  Children "@, p.child_counter_rows, " counter rows\n"@),
        None => Seq::empty(),
    }
}

pub fn append_projection_rich(projections: &Option<ProjectionInfo>) -> (r: Vec<Span>)
    ensures
        views(r@) == projection_entries(*projections),
{
    let mut out: Vec<Span> = Vec::new();
    if let Some(p) = projections {
        push_unstyled(&mut out, "\n");
        push_styled(&mut out, "Graph projections\n", Role::Section);
        let state = info_display_text(p.blocked_cache_state.as_str());
        push_labelled(&mut out, "  Blocked  ", state.as_str(), Role::Normal);
        if p.rebuild_needed {
            push_labelled(&mut out, "  Rebuild  ", "needed", Role::Normal);
        } else {
            push_labelled(&mut out, "  Rebuild  ", "not needed", Role::Normal);
        }
        let parity = info_display_text(p.parity_status.as_str());
        push_labelled(&mut out, "  Parity   ", parity.as_str(), Role::Normal);
        let ready = info_display_text(p.ready_parity_status.as_str());
        push_styled(&mut out, "  Ready    ", Role::Dimmed);
        push_unstyled(&mut out, ready.as_str());
        push_unstyled(&mut out, " parity\n");
        push_count(&mut out, "  Cached   ", p.cached_blocked_rows, " blocked rows\n");
        push_count(&mut out, "  Direct   ", p.direct_blocked_rows, " blocked rows\n");
        push_count(&mut out, "  Ready    ", p.cached_ready_rows, " cached rows\n");
        push_count(&mut out, "  Direct   ", p.direct_ready_rows, " ready rows\n");
        push_count(&mut out, "  Children ", p.child_counter_rows, " counter rows\n");
    }
    assert(views(out@) =~= projection_entries(*projections));
    out
}

/// What the panel shows.
pub fn render_info_rich(info: &InfoOutput) -> (r: Vec<Span>)
    ensures
        views(r@) == location_entries(*info) + jsonl_entries(*info) + mode_entries(*info)
            + schema_entries(info.schema) + projection_entries(info.projections),
{
    let mut out = location_spans(info);
    push_all(&mut out, jsonl_spans(info));
    push_all(&mut out, mode_spans(info));
    push_all(&mut out, schema_spans(&info.schema));
    push_all(&mut out, append_projection_rich(&info.projections));
    out
}

/// What a message shows.
pub fn print_message(mode: OutputMode, message: &str) -> (r: Shown)
    ensures
        r@ == match mode {
            OutputMode::Quiet => ShownModel::Nothing,
            OutputMode::Json => ShownModel::Data,
            OutputMode::Toon => ShownModel::Data,
            OutputMode::Rich => ShownModel::Text {
                body: seq![styled(message@, Role::Muted), unstyled("\n"@)],
            },
            OutputMode::Plain => ShownModel::Text { body: one_piece(message@ + "\n"@) },
        },
{
    match mode {
        OutputMode::Quiet => Shown::Nothing,
        OutputMode::Json => Shown::Data,
        OutputMode::Toon => Shown::Data,
        OutputMode::Rich => {
            let mut body: Vec<Span> = Vec::new();
            push_styled(&mut body, message, Role::Muted);
            push_unstyled(&mut body, "\n");
            assert(views(body@) =~= seq![styled(message@, Role::Muted), unstyled("\n"@)]);
            Shown::Text { body }
        },
        OutputMode::Plain => {
            let line = text2(message, "\n");
            Shown::Text { body: one_span(line.as_str()) }
        },
    }
}

/// What the command shows of the workspace.
pub fn info_shown(mode: OutputMode, info: &InfoOutput) -> (r: Shown)
    ensures
        r@ == shown_in(
            mode,
            "Project Information"@,
            location_entries(*info) + jsonl_entries(*info) + mode_entries(*info) + schema_entries(
                info.schema,
            ) + projection_entries(info.projections),
            one_piece(human_text(*info)),
        ),
{
    let panel = render_info_rich(info);
    let lines = print_human(info);
    shown(mode, "Project Information", panel, one_span(lines.as_str()))
}

} // verus!
