//! What the commands ask of the workspace that they work in, and of others that they are
//! routed to.

use crate::error::{config_error, BeadsError, ErrorModel};
use crate::model::copy_opt;
use crate::paths::{join_path, joined_path};
use crate::text::{
    ascii_lowercase, opt_str, opt_text, same_text_ignoring_ascii_case, text3, text5, trim, trimmed,
};
use vstd::prelude::*;
use vstd::string::*;

verus! {

broadcast use vstd::string::group_string_axioms;

/// Who owns the repository of the tool.
pub const GITHUB_REPO_OWNER: &'static str = "Dicklesworthstone";

/// The name of the repository of the tool.
pub const GITHUB_REPO_NAME: &'static str = "beads_rust";

/// Where the latest release is described.
pub fn github_latest_release_api_url() -> (r: String)
    ensures
        r@ == "https://api.github.com/repos/"@ + GITHUB_REPO_OWNER@ + "/"@ + GITHUB_REPO_NAME@
            + "/releases/latest"@,
{
    text5(
        "https://api.github.com/repos/",
        GITHUB_REPO_OWNER,
        "/",
        GITHUB_REPO_NAME,
        "/releases/latest",
    )
}

/// Where the releases are listed.
pub fn github_releases_url() -> (r: String)
    ensures
        r@ == "https://github.com/"@ + GITHUB_REPO_OWNER@ + "/"@ + GITHUB_REPO_NAME@
            + "/releases"@,
{
    text5("https://github.com/", GITHUB_REPO_OWNER, "/", GITHUB_REPO_NAME, "/releases")
}

/// Where a file of the main branch is served.
pub fn github_raw_main_url(path: &str) -> (r: String)
    ensures
        r@ == "https://raw.githubusercontent.com/"@ + GITHUB_REPO_OWNER@ + "/"@ + GITHUB_REPO_NAME@
            + "/main/"@ + path@,
{
    let mut out = text5(
        "https://raw.githubusercontent.com/",
        GITHUB_REPO_OWNER,
        "/",
        GITHUB_REPO_NAME,
        "/main/",
    );
    out.append(path);
    out
}

/// The word that asks for every status, in any case and with white space around it.
pub open spec fn asks_for_all(status: Seq<char>) -> bool {
    ascii_lowercase(trim(status)) == ascii_lowercase("all"@)
}

/// Whether one of the statuses asks for every status.
pub fn status_filter_requests_all(statuses: &Vec<String>) -> (r: bool)
    ensures
        r == exists|i: int| 0 <= i < statuses@.len() && asks_for_all(#[trigger] statuses@[i]@),
{
    let mut i: usize = 0;
    while i < statuses.len()
        invariant
            i <= statuses@.len(),
            forall|k: int| 0 <= k < i ==> !asks_for_all(#[trigger] statuses@[k]@),
        decreases statuses@.len() - i,
    {
        let name = trimmed(statuses[i].as_str());
        if same_text_ignoring_ascii_case(name.as_str(), "all") {
            assert(asks_for_all(statuses@[i as int]@));
            return true;
        }
        i += 1;
    }
    false
}

/// The session that the environment names, unless its name is blank.
pub open spec fn session_in(value: Option<Seq<char>>) -> Option<Seq<char>> {
    match value {
        Some(v) if trim(v).len() > 0 => Some(trim(v)),
        _ => None,
    }
}

pub fn session_attribution_from_env(value: Option<&str>) -> (r: Option<String>)
    ensures
        opt_text(r) == session_in(opt_str(value)),
{
    match value {
        Some(v) => {
            let name = trimmed(v);
            if name.as_str().is_empty() {
                None
            } else {
                Some(name)
            }
        },
        None => None,
    }
}

/// What the command line sets for a workspace.
#[derive(Debug)]
pub struct CliOverrides {
    pub db: Option<String>,
    pub actor: Option<String>,
    pub quiet: Option<bool>,
    pub no_db: Option<bool>,
    pub no_auto_import: Option<bool>,
    pub allow_stale: Option<bool>,
    pub lock_timeout: Option<u64>,
    pub read_only_fast_open: bool,
}

/// What [`CliOverrides`] say.
#[verifier::ext_equal]
pub struct OverridesModel {
    pub db: Option<Seq<char>>,
    pub actor: Option<Seq<char>>,
    pub quiet: Option<bool>,
    pub no_db: Option<bool>,
    pub no_auto_import: Option<bool>,
    pub allow_stale: Option<bool>,
    pub lock_timeout: Option<u64>,
    pub read_only_fast_open: bool,
}

impl View for CliOverrides {
    type V = OverridesModel;

    open spec fn view(&self) -> OverridesModel {
        OverridesModel {
            db: opt_text(self.db),
            actor: opt_text(self.actor),
            quiet: self.quiet,
            no_db: self.no_db,
            no_auto_import: self.no_auto_import,
            allow_stale: self.allow_stale,
            lock_timeout: self.lock_timeout,
            read_only_fast_open: self.read_only_fast_open,
        }
    }
}

/// What is set for a workspace that a command is routed to: another workspace has a database
/// of its own, and is opened the ordinary way.
pub open spec fn routed_overrides(cli: OverridesModel, is_external: bool) -> OverridesModel {
    if is_external {
        OverridesModel { db: None, read_only_fast_open: false, ..cli }
    } else {
        cli
    }
}

pub fn cli_for_routed_workspace(cli: &CliOverrides, is_external: bool) -> (r: CliOverrides)
    ensures
        r@ == routed_overrides(cli@, is_external),
{
    CliOverrides {
        db: if is_external {
            None
        } else {
            copy_opt(&cli.db)
        },
        actor: copy_opt(&cli.actor),
        quiet: cli.quiet,
        no_db: cli.no_db,
        no_auto_import: cli.no_auto_import,
        allow_stale: cli.allow_stale,
        lock_timeout: cli.lock_timeout,
        read_only_fast_open: cli.read_only_fast_open && !is_external,
    }
}

/// What is not set counts as not asked for.
pub open spec fn asked(flag: Option<bool>) -> bool {
    flag == Some(true)
}

fn is_asked(flag: Option<bool>) -> (r: bool)
    ensures
        r == asked(flag),
{
    match flag {
        Some(value) => value,
        None => false,
    }
}

/// Whether other projects are brought up to date before their issues are looked at. The
/// layers of the configuration may rule it out, and so may the command line.
pub fn imports_external_projects(
    cli: &CliOverrides,
    layer_no_db: Option<bool>,
    layer_no_auto_import: Option<bool>,
) -> (r: bool)
    ensures
        r == !(asked(cli.allow_stale) || asked(cli.no_auto_import) || asked(cli.no_db) || asked(
            layer_no_db,
        ) || asked(layer_no_auto_import)),
        r <==> cli.allow_stale != Some(true) && cli.no_auto_import != Some(true)
            && cli.no_db != Some(true) && layer_no_db != Some(true)
            && layer_no_auto_import != Some(true),
{
    !(is_asked(cli.allow_stale) || is_asked(cli.no_auto_import) || is_asked(cli.no_db) || is_asked(
        layer_no_db,
    ) || is_asked(layer_no_auto_import))
}

/// What is needed of other projects.
#[derive(Debug, Clone, Copy, PartialEq, Eq, Structural)]
pub enum ExternalNeed {
    /// Nothing: no issue depends on another project.
    Nothing,
    /// Where their databases are.
    Paths,
    /// That they are brought up to date, and then where their databases are.
    ImportThenPaths,
}

/// What is needed of other projects, where some issue depends on one or none does.
pub fn external_project_db_paths_after_auto_import_if_needed(
    has_external_dependencies: bool,
    cli: &CliOverrides,
    layer_no_db: Option<bool>,
    layer_no_auto_import: Option<bool>,
) -> (r: ExternalNeed)
    ensures
        r == if !has_external_dependencies {
            ExternalNeed::Nothing
        } else if asked(cli.allow_stale) || asked(cli.no_auto_import) || asked(cli.no_db) || asked(
            layer_no_db,
        ) || asked(layer_no_auto_import) {
            ExternalNeed::Paths
        } else {
            ExternalNeed::ImportThenPaths
        },
        r == ExternalNeed::Nothing <==> !has_external_dependencies,
{
    if !has_external_dependencies {
        ExternalNeed::Nothing
    } else if imports_external_projects(cli, layer_no_db, layer_no_auto_import) {
        ExternalNeed::ImportThenPaths
    } else {
        ExternalNeed::Paths
    }
}

/// How an import of the issues file is made.
#[derive(Debug, Clone, Copy, PartialEq, Eq, Structural)]
pub struct ImportFlags {
    pub allow_stale: bool,
    pub no_auto_import: bool,
}

/// How a database is brought up to date with its issues file. One that lives in memory was
/// just filled from that file, so nothing is done.
pub fn auto_import_storage_ctx_if_stale(
    no_db: bool,
    cli: &CliOverrides,
    layer_no_auto_import: Option<bool>,
) -> (r: Option<ImportFlags>)
    ensures
        r == if no_db {
            None
        } else {
            Some(
                ImportFlags {
                    allow_stale: asked(cli.allow_stale),
                    no_auto_import: asked(layer_no_auto_import),
                },
            )
        },
        r is None <==> no_db,
{
    if no_db {
        return None;
    }
    Some(
        ImportFlags {
            allow_stale: is_asked(cli.allow_stale),
            no_auto_import: is_asked(layer_no_auto_import),
        },
    )
}

/// What is done to bring another project up to date.
#[derive(Debug, Clone, Copy, PartialEq, Eq, Structural)]
pub enum ImportStep {
    /// Find its database and its issues file.
    ResolvePaths,
    /// See whether one of them is there.
    LookForFiles,
    /// Take its write lock.
    TakeLock,
    /// Open its database.
    OpenStorage,
    /// Import its issues file.
    Import,
    /// Go on to the next project.
    NextProject,
}

/// The step after `step`: a step that fails ends the work on that project, and on no other.
pub open spec fn import_step_after(step: ImportStep, ok: bool) -> ImportStep {
    if !ok {
        ImportStep::NextProject
    } else {
        match step {
            ImportStep::ResolvePaths => ImportStep::LookForFiles,
            ImportStep::LookForFiles => ImportStep::TakeLock,
            ImportStep::TakeLock => ImportStep::OpenStorage,
            ImportStep::OpenStorage => ImportStep::Import,
            ImportStep::Import => ImportStep::NextProject,
            ImportStep::NextProject => ImportStep::NextProject,
        }
    }
}

pub fn next_import_step(step: ImportStep, ok: bool) -> (r: ImportStep)
    ensures
        r == import_step_after(step, ok),
{
    if !ok {
        return ImportStep::NextProject;
    }
    match step {
        ImportStep::ResolvePaths => ImportStep::LookForFiles,
        ImportStep::LookForFiles => ImportStep::TakeLock,
        ImportStep::TakeLock => ImportStep::OpenStorage,
        ImportStep::OpenStorage => ImportStep::Import,
        ImportStep::Import => ImportStep::NextProject,
        ImportStep::NextProject => ImportStep::NextProject,
    }
}

/// A project is written to only under its lock: the steps behind the lock come only from a
/// lock that was taken.
pub proof fn law_import_holds_lock(step: ImportStep, ok: bool)
    ensures
        import_step_after(step, ok) == ImportStep::OpenStorage ==> step == ImportStep::TakeLock
            && ok,
        import_step_after(step, ok) == ImportStep::Import ==> step == ImportStep::OpenStorage
            && ok,
{
}

/// The lock to take before another workspace is written to; the own one needs none here.
pub fn acquire_routed_workspace_write_lock(beads_dir: &str, is_external: bool) -> (r: Option<
    String,
>)
    ensures
        opt_text(r) == if is_external {
            Some(join_path(beads_dir@, ".write.lock"@))
        } else {
            None
        },
        r is Some <==> is_external,
{
    if is_external {
        Some(joined_path(beads_dir, ".write.lock"))
    } else {
        None
    }
}

/// The refusal of a command whose target is locked.
pub fn routed_workspace_busy(beads_dir: &str, reason: &str) -> (r: BeadsError)
    ensures
        r.model() == ErrorModel::Config(
            "Routed external workspace is busy: target write lock at "@ + join_path(
                beads_dir@,
                ".write.lock"@,
            ) + " could not be acquired: "@ + reason@,
        ),
{
    let lock_path = joined_path(beads_dir, ".write.lock");
    let mut out = text3(
        "Routed external workspace is busy: target write lock at ",
        lock_path.as_str(),
        " could not be acquired: ",
    );
    out.append(reason);
    config_error(out)
}

} // verus!
