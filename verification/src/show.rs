//! The `show` command: which issues it shows, from where, and how.

use crate::error::{validation, BeadsError, ErrorModel};
use crate::model::copy_texts;
use crate::paths::{is_same_path, same_path};
use crate::show_jsonl::{InheritedBlock, IssueDetails};
use crate::text::{any_text, ends_with, has_suffix, has_text, opt_text, texts};
use vstd::prelude::*;
use vstd::string::*;

verus! {

broadcast use vstd::string::group_string_axioms;

/// The form of the output that was asked for.
#[derive(Debug, Clone, Copy, PartialEq, Eq, Structural)]
pub enum OutputFormat {
    Text,
    Json,
    Csv,
    Toon,
}

/// Output for a program to read as one value.
pub open spec fn structured(format: OutputFormat) -> bool {
    format == OutputFormat::Json || format == OutputFormat::Toon
}

impl OutputFormat {
    pub fn is_structured(&self) -> (r: bool)
        ensures
            r == structured(*self),
    {
        *self == OutputFormat::Json || *self == OutputFormat::Toon
    }
}

/// The issues that are shown: those that were asked for, or else the last one touched.
pub open spec fn shown_ids(ids: Seq<Seq<char>>, last_touched: Seq<char>) -> Result<
    Seq<Seq<char>>,
    ErrorModel,
> {
    if ids.len() > 0 {
        Ok(ids)
    } else if last_touched.len() > 0 {
        Ok(seq![last_touched])
    } else {
        Err(
            ErrorModel::Validation {
                field: "ids"@,
                reason: "no issue IDs provided and no last-touched issue"@,
            },
        )
    }
}

/// The texts, or what the error says.
pub open spec fn texts_or_error(r: Result<Vec<String>, BeadsError>) -> Result<
    Seq<Seq<char>>,
    ErrorModel,
> {
    match r {
        Ok(v) => Ok(texts(v@)),
        Err(e) => Err(e.model()),
    }
}

pub fn requested_target_ids(ids: &Vec<String>, last_touched: &str) -> (r: Result<
    Vec<String>,
    BeadsError,
>)
    ensures
        texts_or_error(r) == shown_ids(texts(ids@), last_touched@),
{
    if ids.len() > 0 {
        return Ok(copy_texts(ids));
    }
    if last_touched.is_empty() {
        return Err(validation("ids", "no issue IDs provided and no last-touched issue"));
    }
    let mut out: Vec<String> = Vec::new();
    out.push(last_touched.to_owned());
    assert(texts(out@) =~= seq![last_touched@]);
    Ok(out)
}

/// What the caller has opened already.
#[derive(Debug, Clone, Copy, PartialEq, Eq, Structural)]
pub enum Opened {
    Nothing,
    Storage,
    Context,
}

/// Issues that one workspace answers for.
#[derive(Debug)]
pub struct RouteBatch {
    pub issue_inputs: Vec<String>,
    pub beads_dir: String,
    pub is_external: bool,
}

/// What a [`RouteBatch`] says.
#[verifier::ext_equal]
pub struct BatchModel {
    pub issue_inputs: Seq<Seq<char>>,
    pub beads_dir: Seq<char>,
    pub is_external: bool,
}

impl View for RouteBatch {
    type V = BatchModel;

    open spec fn view(&self) -> BatchModel {
        BatchModel {
            issue_inputs: texts(self.issue_inputs@),
            beads_dir: self.beads_dir@,
            is_external: self.is_external,
        }
    }
}

/// Issues that are loaded from one workspace. What the caller has opened serves its own
/// workspace only; any other is opened under its lock.
#[derive(Debug)]
pub struct PlannedBatch {
    pub issue_inputs: Vec<String>,
    pub beads_dir: String,
    pub under_lock: bool,
    pub opened: Opened,
}

/// What a [`PlannedBatch`] says.
#[verifier::ext_equal]
pub struct PlannedModel {
    pub issue_inputs: Seq<Seq<char>>,
    pub beads_dir: Seq<char>,
    pub under_lock: bool,
    pub opened: Opened,
}

impl View for PlannedBatch {
    type V = PlannedModel;

    open spec fn view(&self) -> PlannedModel {
        PlannedModel {
            issue_inputs: texts(self.issue_inputs@),
            beads_dir: self.beads_dir@,
            under_lock: self.under_lock,
            opened: self.opened,
        }
    }
}

/// How a batch is loaded when the caller works in `local_dir`.
pub open spec fn planned(batch: BatchModel, local_dir: Seq<char>, opened: Opened) -> PlannedModel {
    PlannedModel {
        issue_inputs: batch.issue_inputs,
        beads_dir: batch.beads_dir,
        under_lock: !same_path(batch.beads_dir, local_dir),
        opened: if same_path(batch.beads_dir, local_dir) {
            opened
        } else {
            Opened::Nothing
        },
    }
}

/// Where the issues are loaded from.
#[derive(Debug)]
pub enum ShowPlan {
    /// All of them from the workspace of the caller.
    Local { target_ids: Vec<String>, opened: Opened },
    /// From several workspaces, in batches, to be put back in the order in which they were
    /// asked for.
    Routed { target_ids: Vec<String>, structured: bool, batches: Vec<PlannedBatch> },
}

/// What a [`ShowPlan`] says.
#[allow(inconsistent_fields)]
pub enum PlanModel {
    Local { target_ids: Seq<Seq<char>>, opened: Opened },
    Routed { target_ids: Seq<Seq<char>>, structured: bool, batches: Seq<PlannedModel> },
}

impl View for ShowPlan {
    type V = PlanModel;

    open spec fn view(&self) -> PlanModel {
        match self {
            ShowPlan::Local { target_ids, opened } => PlanModel::Local {
                target_ids: texts(target_ids@),
                opened: *opened,
            },
            ShowPlan::Routed { target_ids, structured, batches } => PlanModel::Routed {
                target_ids: texts(target_ids@),
                structured: *structured,
                batches: crate::sorting::views(batches@),
            },
        }
    }
}

/// Some batch is answered by another workspace.
pub open spec fn any_external(batches: Seq<BatchModel>) -> bool {
    exists|i: int| 0 <= i < batches.len() && (#[trigger] batches[i]).is_external
}

/// What `show` was asked for.
#[derive(Debug)]
pub struct ShowRequest {
    pub ids: Vec<String>,
    pub format: OutputFormat,
}

/// Where the issues of a request are loaded from. `batches` is how their ids are routed;
/// the directories are canonical.
pub open spec fn show_plan(
    ids: Seq<Seq<char>>,
    format: OutputFormat,
    last_touched: Seq<char>,
    local_dir: Seq<char>,
    batches: Seq<BatchModel>,
    opened: Opened,
) -> Result<PlanModel, ErrorModel> {
    match shown_ids(ids, last_touched) {
        Err(e) => Err(e),
        Ok(target_ids) => if any_external(batches) {
            Ok(
                PlanModel::Routed {
                    target_ids,
                    structured: structured(format),
                    batches: batches.map_values(
                        |b: BatchModel| planned(b, local_dir, opened),
                    ),
                },
            )
        } else {
            Ok(PlanModel::Local { target_ids, opened })
        },
    }
}

/// The plan, or what the error says.
pub open spec fn plan_or_error(r: Result<ShowPlan, BeadsError>) -> Result<PlanModel, ErrorModel> {
    match r {
        Ok(plan) => Ok(plan@),
        Err(e) => Err(e.model()),
    }
}

fn has_external_batch(batches: &Vec<RouteBatch>) -> (r: bool)
    ensures
        r == any_external(crate::sorting::views(batches@)),
{
    let ghost all = crate::sorting::views(batches@);
    let mut i: usize = 0;
    while i < batches.len()
        invariant
            i <= batches@.len(),
            all == crate::sorting::views(batches@),
            forall|k: int| 0 <= k < i ==> !(#[trigger] all[k]).is_external,
        decreases batches@.len() - i,
    {
        assert(all[i as int] == batches@[i as int]@);
        if batches[i].is_external {
            return true;
        }
        i += 1;
    }
    false
}

fn plan_routed(
    request: &ShowRequest,
    last_touched: &str,
    local_dir: &str,
    batches: Vec<RouteBatch>,
    opened: Opened,
) -> (r: Result<ShowPlan, BeadsError>)
    ensures
        plan_or_error(r) == show_plan(
            texts(request.ids@),
            request.format,
            last_touched@,
            local_dir@,
            crate::sorting::views(batches@),
            opened,
        ),
{
    let target_ids = match requested_target_ids(&request.ids, last_touched) {
        Ok(ids) => ids,
        Err(e) => return Err(e),
    };
    if !has_external_batch(&batches) {
        return Ok(ShowPlan::Local { target_ids, opened });
    }
    let ghost all = crate::sorting::views(batches@);
    let ghost given = batches@;
    let ghost wanted = all.map_values(|b: BatchModel| planned(b, local_dir@, opened));
    let mut out: Vec<PlannedBatch> = Vec::new();
    for batch in it: batches
        invariant
            it.seq() == given,
            all == crate::sorting::views(given),
            wanted == all.map_values(|b: BatchModel| planned(b, local_dir@, opened)),
            crate::sorting::views(out@) == wanted.take(it.index() as int),
    {
        let ghost before = crate::sorting::views(out@);
        assert(all[it.index() as int] == batch@);
        let local = is_same_path(batch.beads_dir.as_str(), local_dir);
        let plan = PlannedBatch {
            issue_inputs: batch.issue_inputs,
            beads_dir: batch.beads_dir,
            under_lock: !local,
            opened: if local {
                opened
            } else {
                Opened::Nothing
            },
        };
        let ghost shown = plan@;
        assert(shown == wanted[it.index() as int]);
        out.push(plan);
        assert(crate::sorting::views(out@) =~= before.push(shown));
        assert(crate::sorting::views(out@) =~= wanted.take(it.index() + 1));
    }
    assert(crate::sorting::views(out@) =~= wanted);
    Ok(
        ShowPlan::Routed {
            target_ids,
            structured: request.format.is_structured(),
            batches: out,
        },
    )
}

/// Shows issues of a workspace that is not open yet.
pub fn execute(
    request: &ShowRequest,
    last_touched: &str,
    local_dir: &str,
    batches: Vec<RouteBatch>,
) -> (r: Result<ShowPlan, BeadsError>)
    ensures
        plan_or_error(r) == show_plan(
            texts(request.ids@),
            request.format,
            last_touched@,
            local_dir@,
            crate::sorting::views(batches@),
            Opened::Nothing,
        ),
{
    plan_routed(request, last_touched, local_dir, batches, Opened::Nothing)
}

/// Shows issues with storage that the caller has opened.
pub fn execute_with_storage(
    request: &ShowRequest,
    last_touched: &str,
    local_dir: &str,
    batches: Vec<RouteBatch>,
) -> (r: Result<ShowPlan, BeadsError>)
    ensures
        plan_or_error(r) == show_plan(
            texts(request.ids@),
            request.format,
            last_touched@,
            local_dir@,
            crate::sorting::views(batches@),
            Opened::Storage,
        ),
{
    plan_routed(request, last_touched, local_dir, batches, Opened::Storage)
}

/// Shows issues with the storage context that the caller has opened.
pub fn execute_with_storage_ctx(
    request: &ShowRequest,
    last_touched: &str,
    local_dir: &str,
    batches: Vec<RouteBatch>,
) -> (r: Result<ShowPlan, BeadsError>)
    ensures
        plan_or_error(r) == show_plan(
            texts(request.ids@),
            request.format,
            last_touched@,
            local_dir@,
            crate::sorting::views(batches@),
            Opened::Context,
        ),
{
    plan_routed(request, last_touched, local_dir, batches, Opened::Context)
}

/// What the caller has opened is never used for another workspace, and another workspace is
/// never read without its lock.
pub proof fn law_opened_storage_stays_local(
    ids: Seq<Seq<char>>,
    format: OutputFormat,
    last_touched: Seq<char>,
    local_dir: Seq<char>,
    batches: Seq<BatchModel>,
    opened: Opened,
    i: int,
)
    requires
        show_plan(ids, format, last_touched, local_dir, batches, opened) is Ok,
        show_plan(ids, format, last_touched, local_dir, batches, opened)->Ok_0 is Routed,
        0 <= i < batches.len(),
        !same_path(batches[i].beads_dir, local_dir),
    ensures
        ({
            let plan = show_plan(ids, format, last_touched, local_dir, batches, opened)->Ok_0;
            plan->batches[i].opened == Opened::Nothing && plan->batches[i].under_lock
        }),
{
}

/// How the output goes to the terminal.
#[derive(Debug, Clone, Copy, PartialEq, Eq, Structural)]
pub enum OutputMode {
    Rich,
    Plain,
    Quiet,
    Json,
    Toon,
}

/// How the issues are shown.
#[derive(Debug, Clone, Copy, PartialEq, Eq, Structural)]
pub enum Rendering {
    Nothing,
    JsonArray,
    Toon,
    Panels,
    Plain,
}

/// How issues of the caller's workspace are shown.
pub fn local_rendering(mode: OutputMode, format: OutputFormat) -> (r: Rendering)
    ensures
        r == if mode == OutputMode::Quiet {
            Rendering::Nothing
        } else if format == OutputFormat::Json {
            Rendering::JsonArray
        } else if format == OutputFormat::Toon {
            Rendering::Toon
        } else if mode == OutputMode::Rich {
            Rendering::Panels
        } else {
            Rendering::Plain
        },
        structured(format) ==> r != Rendering::Panels && r != Rendering::Plain,
        r == Rendering::Nothing <==> mode == OutputMode::Quiet,
        mode != OutputMode::Quiet && format == OutputFormat::Json ==> r == Rendering::JsonArray,
        mode != OutputMode::Quiet && format == OutputFormat::Toon ==> r == Rendering::Toon,
        r == Rendering::Panels <==> mode == OutputMode::Rich && !structured(format),
{
    if mode == OutputMode::Quiet {
        return Rendering::Nothing;
    }
    match format {
        OutputFormat::Json => Rendering::JsonArray,
        OutputFormat::Toon => Rendering::Toon,
        _ => if mode == OutputMode::Rich {
            Rendering::Panels
        } else {
            Rendering::Plain
        },
    }
}

/// How issues of several workspaces are shown.
pub fn routed_rendering(mode: OutputMode, format: OutputFormat, quiet: bool) -> (r: Rendering)
    ensures
        r == if format == OutputFormat::Json {
            Rendering::JsonArray
        } else if format == OutputFormat::Toon {
            Rendering::Toon
        } else if quiet {
            Rendering::Nothing
        } else if mode == OutputMode::Rich {
            Rendering::Panels
        } else {
            Rendering::Plain
        },
        r == Rendering::JsonArray <==> format == OutputFormat::Json,
        r == Rendering::Toon <==> format == OutputFormat::Toon,
        r == Rendering::Nothing <==> quiet && !structured(format),
{
    match format {
        OutputFormat::Json => Rendering::JsonArray,
        OutputFormat::Toon => Rendering::Toon,
        _ => if quiet {
            Rendering::Nothing
        } else if mode == OutputMode::Rich {
            Rendering::Panels
        } else {
            Rendering::Plain
        },
    }
}

/// Where inherited context is read from.
#[derive(Debug, Clone, Copy, PartialEq, Eq, Structural)]
pub enum InheritanceSource {
    /// It is not shown.
    Off,
    /// What the caller has opened.
    Caller,
    /// A connection of its own; without one it is left out.
    Transient,
}

pub fn inheritance_source(enabled: bool, opened: Opened) -> (r: InheritanceSource)
    ensures
        r == if !enabled {
            InheritanceSource::Off
        } else if opened == Opened::Nothing {
            InheritanceSource::Transient
        } else {
            InheritanceSource::Caller
        },
        r == InheritanceSource::Off <==> !enabled,
        r == InheritanceSource::Caller <==> enabled && opened != Opened::Nothing,
{
    if !enabled {
        InheritanceSource::Off
    } else if opened == Opened::Nothing {
        InheritanceSource::Transient
    } else {
        InheritanceSource::Caller
    }
}

/// Where inherited context is shown.
#[derive(Debug, Clone, Copy, PartialEq, Eq, Structural)]
pub enum ContextPlace {
    /// Nowhere.
    Nowhere,
    /// In the record of each issue, complete.
    InRecord,
    /// In front of the first issue that inherits it.
    InFront,
}

/// Structured output has inherited context in its records. Text shows it in front of the
/// issues of the caller's workspace, and not where issues of several workspaces are shown.
pub fn context_place(rendering: Rendering, routed: bool) -> (r: ContextPlace)
    ensures
        r == match rendering {
            Rendering::Nothing => ContextPlace::Nowhere,
            Rendering::JsonArray => ContextPlace::InRecord,
            Rendering::Toon => ContextPlace::InRecord,
            Rendering::Panels => if routed {
                ContextPlace::Nowhere
            } else {
                ContextPlace::InFront
            },
            Rendering::Plain => if routed {
                ContextPlace::Nowhere
            } else {
                ContextPlace::InFront
            },
        },
{
    match rendering {
        Rendering::Nothing => ContextPlace::Nowhere,
        Rendering::JsonArray => ContextPlace::InRecord,
        Rendering::Toon => ContextPlace::InRecord,
        _ => if routed {
            ContextPlace::Nowhere
        } else {
            ContextPlace::InFront
        },
    }
}

/// Gives each issue the context that it inherits, where that could be read. `blocks` has
/// one entry for each issue.
pub fn attach_inherited_context(
    details_list: Vec<IssueDetails>,
    blocks: Vec<Option<Vec<InheritedBlock>>>,
) -> (r: Vec<IssueDetails>)
    requires
        blocks@.len() == details_list@.len(),
    ensures
        r@.len() == details_list@.len(),
        forall|i: int|
            0 <= i < r@.len() ==> (#[trigger] r@[i]) == (IssueDetails {
                inherited_context: match blocks@[i] {
                    Some(found) => found,
                    None => details_list@[i].inherited_context,
                },
                ..details_list@[i]
            }),
{
    let ghost given = details_list@;
    let ghost found = blocks@;
    let mut blocks = blocks;
    let mut out: Vec<IssueDetails> = Vec::new();
    for details in it: details_list
        invariant
            it.seq() == given,
            found.len() == given.len(),
            blocks@ == found.skip(it.index() as int),
            out@.len() == it.index(),
            forall|i: int|
                0 <= i < out@.len() ==> (#[trigger] out@[i]) == (IssueDetails {
                    inherited_context: match found[i] {
                        Some(list) => list,
                        None => given[i].inherited_context,
                    },
                    ..given[i]
                }),
    {
        let block = blocks.remove(0);
        assert(block == found[it.index() as int]);
        let mut details = details;
        if let Some(list) = block {
            details.inherited_context = list;
        }
        out.push(details);
        assert(blocks@ =~= found.skip(it.index() + 1));
    }
    out
}

/// The sources of the blocks.
pub open spec fn sources(blocks: Seq<InheritedBlock>) -> Seq<Seq<char>> {
    blocks.map_values(|b: InheritedBlock| b.source_id@)
}

/// The blocks whose source was not shown before, each source once.
pub open spec fn new_blocks(shown: Seq<Seq<char>>, blocks: Seq<InheritedBlock>) -> Seq<
    InheritedBlock,
>
    decreases blocks.len(),
{
    if blocks.len() == 0 {
        Seq::empty()
    } else {
        let before = new_blocks(shown, blocks.drop_last());
        if has_text(shown + sources(before), blocks.last().source_id@) {
            before
        } else {
            before.push(blocks.last())
        }
    }
}

/// Keeps the blocks whose source was not shown before, and notes their sources.
pub fn take_new_blocks(shown: &mut Vec<String>, blocks: Vec<InheritedBlock>) -> (r: Vec<
    InheritedBlock,
>)
    ensures
        r@ == new_blocks(texts(old(shown)@), blocks@),
        texts(final(shown)@) == texts(old(shown)@) + sources(r@),
{
    let ghost before = texts(shown@);
    let ghost given = blocks@;
    let mut out: Vec<InheritedBlock> = Vec::new();
    assert(out@ =~= new_blocks(before, given.take(0)));
    assert(texts(shown@) =~= before + sources(out@));
    for block in it: blocks
        invariant
            it.seq() == given,
            out@ == new_blocks(before, given.take(it.index() as int)),
            texts(shown@) == before + sources(out@),
    {
        let ghost n = it.index() as int;
        assert(given.take(n + 1).drop_last() =~= given.take(n));
        assert(given.take(n + 1).last() == block);
        let ghost kept = out@;
        let ghost known = texts(shown@);
        if !any_text(shown, block.source_id.as_str()) {
            shown.push(block.source_id.clone());
            assert(texts(shown@) =~= known.push(block.source_id@));
            out.push(block);
            assert(sources(out@) =~= sources(kept).push(block.source_id@));
            assert(texts(shown@) =~= before + sources(out@));
        }
    }
    assert(given.take(given.len() as int) =~= given);
    out
}

proof fn lemma_new_blocks(shown: Seq<Seq<char>>, blocks: Seq<InheritedBlock>)
    requires
        shown.no_duplicates(),
    ensures
        (shown + sources(new_blocks(shown, blocks))).no_duplicates(),
        forall|i: int|
            0 <= i < blocks.len() ==> has_text(
                shown + sources(new_blocks(shown, blocks)),
                (#[trigger] blocks[i]).source_id@,
            ),
    decreases blocks.len(),
{
    if blocks.len() == 0 {
        assert(shown + sources(new_blocks(shown, blocks)) =~= shown);
    } else {
        lemma_new_blocks(shown, blocks.drop_last());
        let before = new_blocks(shown, blocks.drop_last());
        let now = new_blocks(shown, blocks);
        let id = blocks.last().source_id@;
        let known = shown + sources(before);
        if !has_text(known, id) {
            assert(shown + sources(now) =~= known.push(id));
            assert forall|a: int, b: int|
                0 <= a < known.push(id).len() && 0 <= b < known.push(id).len() && a
                    != b implies known.push(id)[a] != known.push(id)[b] by {
                if a == known.len() {
                    assert(known[b] != id);
                } else if b == known.len() {
                    assert(known[a] != id);
                }
            }
            assert(known.push(id)[known.len() as int] == id);
        }
        let all = shown + sources(now);
        assert forall|i: int| 0 <= i < blocks.len() implies has_text(
            all,
            (#[trigger] blocks[i]).source_id@,
        ) by {
            if i < blocks.len() - 1 {
                assert(blocks.drop_last()[i] == blocks[i]);
                let k = choose|k: int| 0 <= k < known.len() && known[k] == blocks[i].source_id@;
                assert(all[k] == blocks[i].source_id@);
            }
        }
    }
}

/// Over a whole list of issues every inherited source is shown once, before the first issue
/// that inherits it: what a step keeps is new, and what it leaves out was shown.
pub proof fn law_sources_are_shown_once(shown: Seq<Seq<char>>, blocks: Seq<InheritedBlock>)
    requires
        shown.no_duplicates(),
    ensures
        (shown + sources(new_blocks(shown, blocks))).no_duplicates(),
        forall|i: int|
            0 <= i < blocks.len() ==> has_text(
                shown + sources(new_blocks(shown, blocks)),
                (#[trigger] blocks[i]).source_id@,
            ),
{
    lemma_new_blocks(shown, blocks);
}

/// A text that ends with a line end, adding one where there is none.
pub open spec fn line_ended(s: Seq<char>) -> Seq<char> {
    if ends_with(s, "\n"@) {
        s
    } else {
        s + "\n"@
    }
}

/// What stands in front of an issue: a blank line behind another issue, and the context that
/// it inherits, where there is any.
pub open spec fn front_of(first: bool, context: Option<Seq<char>>) -> Seq<char> {
    (if first {
        ""@
    } else {
        "\n"@
    }) + match context {
        Some(text) => line_ended(text),
        None => ""@,
    }
}

pub fn front_text(first: bool, context: &Option<String>) -> (r: String)
    ensures
        r@ == front_of(first, opt_text(*context)),
{
    let mut out: String = if first {
        "".to_owned()
    } else {
        "\n".to_owned()
    };
    match context {
        Some(text) => {
            let mut line: String = text.clone();
            if !has_suffix(text.as_str(), "\n") {
                line.append("\n");
            }
            out.append(line.as_str());
        },
        None => {
            out.append("");
        },
    }
    out
}

/// The issues one after the other, each behind what stands in front of it.
pub open spec fn issues_shown(contexts: Seq<Option<String>>, bodies: Seq<String>) -> Seq<char>
    decreases bodies.len(),
{
    if bodies.len() == 0 {
        ""@
    } else {
        issues_shown(contexts.drop_last(), bodies.drop_last()) + front_of(
            bodies.len() == 1,
            opt_text(contexts.last()),
        ) + bodies.last()@
    }
}

/// The issues one after the other. `contexts` has one entry for each issue.
pub fn show_issues(contexts: &Vec<Option<String>>, bodies: &Vec<String>) -> (r: String)
    requires
        contexts@.len() == bodies@.len(),
    ensures
        r@ == issues_shown(contexts@, bodies@),
{
    let mut out: String = "".to_owned();
    let mut i: usize = 0;
    while i < bodies.len()
        invariant
            i <= bodies@.len(),
            contexts@.len() == bodies@.len(),
            out@ == issues_shown(contexts@.take(i as int), bodies@.take(i as int)),
        decreases bodies@.len() - i,
    {
        assert(contexts@.take(i + 1).drop_last() =~= contexts@.take(i as int));
        assert(bodies@.take(i + 1).drop_last() =~= bodies@.take(i as int));
        let front = front_text(i == 0, &contexts[i]);
        out.append(front.as_str());
        out.append(bodies[i].as_str());
        i += 1;
    }
    assert(contexts@.take(contexts@.len() as int) =~= contexts@);
    assert(bodies@.take(bodies@.len() as int) =~= bodies@);
    out
}

/// Where the details of issues are loaded from.
#[derive(Debug, Clone, Copy, PartialEq, Eq, Structural)]
pub enum DetailsSource {
    /// The storage context that the caller has opened.
    CallerContext,
    /// The issues file.
    IssuesFile,
    /// The storage that the caller has opened.
    CallerStorage,
    /// The database, opened and brought up to date first.
    OwnStorage,
}

/// A context that the caller has opened is used whatever else holds; without a database the
/// issues file is, even where the caller has storage.
pub fn load_issue_details_for_route(opened: Opened, no_db: bool) -> (r: DetailsSource)
    ensures
        r == if opened == Opened::Context {
            DetailsSource::CallerContext
        } else if no_db {
            DetailsSource::IssuesFile
        } else if opened == Opened::Storage {
            DetailsSource::CallerStorage
        } else {
            DetailsSource::OwnStorage
        },
        r == DetailsSource::CallerContext <==> opened == Opened::Context,
        r == DetailsSource::IssuesFile <==> no_db && opened != Opened::Context,
{
    if opened == Opened::Context {
        DetailsSource::CallerContext
    } else if no_db {
        DetailsSource::IssuesFile
    } else if opened == Opened::Storage {
        DetailsSource::CallerStorage
    } else {
        DetailsSource::OwnStorage
    }
}

} // verus!
