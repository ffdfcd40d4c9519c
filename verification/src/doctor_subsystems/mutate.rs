//! The one place through which the doctor changes files: what may be changed, what is backed
//! up first, what is written, and what is recorded.

use crate::digest::{sha256_hex_prefixed, sha256_prefixed};
use crate::doctor_subsystems::encoding::SqlValue;
use crate::error::{checked, internal, BeadsError, ErrorModel};
use crate::model::Timestamp;
use crate::numbers::{decimal, decimal_text, wide_decimal_text};
use crate::paths::{
    absolute, components, components_of, file_name, file_name_of, goes_up, is_same_path, is_under,
    join_path, joined_path, last_part, last_part_of, law_absolute_paths_are_rooted,
    law_last_part_is_plain, law_parent_drops_a_component, law_parts_make_their_path,
    law_under_transitive, parent, parent_of, path_from, path_goes_up, path_of_parts,
    path_with_file_name, plain_name, relative_path, relative_to, rooted, same_path, under,
    with_file_name,
};
use crate::text::{has_text, opt_text, same_text, text2, text3, text5, texts};
use vstd::prelude::*;
use vstd::string::*;

verus! {

broadcast use vstd::string::group_string_axioms;

/// The digest of no bytes, which stands for a missing file.
pub const SHA256_EMPTY_PREFIXED: &'static str =
    "sha256:e3b0c44298fc1c149afbf4c8996fb92427ae41e4649b934ca495991b7852b855";

/// A value bound to an SQL statement. A floating-point number is held by its IEEE 754 bits.
#[derive(Debug)]
pub enum DbArg {
    Null,
    I64(i64),
    F64(u64),
    Text(String),
    Blob(Vec<u8>),
}

impl DbArg {
    /// The database value of the argument.
    pub fn to_sqlite_value(&self) -> (r: SqlValue)
        ensures
            match *self {
                DbArg::Null => r is Null,
                DbArg::I64(n) => r == SqlValue::Integer(n),
                DbArg::F64(bits) => r == SqlValue::Float(bits),
                DbArg::Text(s) => r is Text && r->Text_0@ == s@,
                DbArg::Blob(b) => r is Blob && r->Blob_0@ == b@,
            },
    {
        match self {
            DbArg::Null => SqlValue::Null,
            DbArg::I64(n) => SqlValue::Integer(*n),
            DbArg::F64(bits) => SqlValue::Float(*bits),
            DbArg::Text(s) => SqlValue::Text(s.clone()),
            DbArg::Blob(b) => SqlValue::Blob(copy_bytes(b)),
        }
    }
}

/// One change that the doctor can make. There is none that deletes.
#[derive(Debug)]
#[allow(inconsistent_fields)]
pub enum Op {
    /// Create or replace the file.
    WriteFile { content: Vec<u8>, mode: Option<u32> },
    /// Append to the file, or create it.
    AppendFile { content: Vec<u8> },
    /// Move the file.
    Rename { to: String },
    /// Set the mode of the file.
    Chmod { mode: u32 },
    /// Run a statement against the database, with snapshots of the tables that it affects.
    DbExec {
        sql: String,
        args: Vec<DbArg>,
        affected_tables: Vec<String>,
        affected_predicate: Option<String>,
    },
    /// Take the database from one schema version to another.
    DbMigrate { from: u32, to: u32 },
    /// Replace the symbolic link by one to another target.
    SymlinkAtomic { target: String },
}

/// The name of a change in the action records.
pub open spec fn op_name(op: Op) -> Seq<char> {
    match op {
        Op::WriteFile { .. } => "write_file"@,
        Op::AppendFile { .. } => "append_file"@,
        Op::Rename { .. } => "rename"@,
        Op::Chmod { .. } => "chmod"@,
        Op::DbExec { .. } => "db_exec"@,
        Op::DbMigrate { .. } => "db_migrate"@,
        Op::SymlinkAtomic { .. } => "symlink_atomic"@,
    }
}

impl Op {
    /// The name of the change in the action records.
    pub fn name(&self) -> (r: &'static str)
        ensures
            r@ == op_name(*self),
    {
        match self {
            Op::WriteFile { .. } => "write_file",
            Op::AppendFile { .. } => "append_file",
            Op::Rename { .. } => "rename",
            Op::Chmod { .. } => "chmod",
            Op::DbExec { .. } => "db_exec",
            Op::DbMigrate { .. } => "db_migrate",
            Op::SymlinkAtomic { .. } => "symlink_atomic",
        }
    }
}

/// The places under which the doctor may write.
#[derive(Debug)]
pub struct Capabilities {
    pub write_scopes: Vec<String>,
}

impl Capabilities {
    /// The workspace directory and the directory of the doctor's runs.
    pub fn for_repo(repo_root: &str) -> (r: Capabilities)
        ensures
            texts(r.write_scopes@) == seq![
                join_path(repo_root@, ".beads"@),
                join_path(repo_root@, ".doctor"@),
            ],
    {
        let mut write_scopes: Vec<String> = Vec::new();
        write_scopes.push(joined_path(repo_root, ".beads"));
        write_scopes.push(joined_path(repo_root, ".doctor"));
        assert(texts(write_scopes@) =~= seq![
            join_path(repo_root@, ".beads"@),
            join_path(repo_root@, ".doctor"@),
        ]);
        Capabilities { write_scopes }
    }
}

/// The state of a doctor run that every change shares.
#[derive(Debug)]
pub struct MutateContext {
    pub run_id: String,
    pub run_dir: String,
    pub capabilities: Capabilities,
    pub fixer_id: String,
    pub repo_root: String,
    pub dry_run: bool,
    pub start_ns: u128,
}

/// The outcome of a change.
#[derive(Debug)]
pub struct ActionResult {
    pub ok: bool,
    pub before_hash: String,
    pub after_hash: String,
    pub error: Option<String>,
}

/// One line of the record of actions.
#[derive(Debug)]
pub struct ActionRecord {
    pub path: String,
    pub op: &'static str,
    pub before_hash: String,
    pub after_hash: String,
    pub started_at_ns: u128,
    pub finished_at_ns: u128,
    pub run_id: String,
    pub fixer_id: String,
    pub backup_path: Option<String>,
    pub ok: bool,
    pub rename_to: Option<String>,
    pub rolled_back: Option<bool>,
    pub error: Option<String>,
}

/// The digest of a file as the records show it.
pub open spec fn file_hash(bytes: Option<Seq<u8>>) -> Seq<char> {
    match bytes {
        Some(b) => sha256_prefixed(b),
        None => SHA256_EMPTY_PREFIXED@,
    }
}

/// The view of optional bytes.
pub open spec fn opt_bytes(o: Option<Vec<u8>>) -> Option<Seq<u8>> {
    match o {
        Some(b) => Some(b@),
        None => None,
    }
}

/// The digest of a file that was read, or of a missing one.
pub fn file_hash_text(bytes: &Option<Vec<u8>>) -> (r: String)
    ensures
        r@ == file_hash(opt_bytes(*bytes)),
{
    match bytes {
        Some(b) => sha256_hex_prefixed(b.as_slice()),
        None => SHA256_EMPTY_PREFIXED.to_owned(),
    }
}

pub fn copy_bytes(bytes: &Vec<u8>) -> (r: Vec<u8>)
    ensures
        r@ == bytes@,
{
    let mut out: Vec<u8> = Vec::new();
    let mut i: usize = 0;
    while i < bytes.len()
        invariant
            i <= bytes@.len(),
            out@ == bytes@.take(i as int),
        decreases bytes@.len() - i,
    {
        out.push(bytes[i]);
        i += 1;
        assert(out@ =~= bytes@.take(i as int));
    }
    assert(out@ =~= bytes@);
    out
}

/// Some scope holds the path. A canonical path goes up nowhere; what another one names can lie
/// outside the scope that it begins with.
pub open spec fn in_scope(path: Seq<char>, scopes: Seq<Seq<char>>) -> bool {
    !goes_up(path) && exists|i: int| 0 <= i < scopes.len() && under(path, #[trigger] scopes[i])
}

pub open spec fn scope_check(
    canonical: Seq<char>,
    scopes: Seq<Seq<char>>,
    shown: Seq<char>,
) -> Result<(), ErrorModel> {
    if in_scope(canonical, scopes) {
        Ok(())
    } else {
        Err(
            ErrorModel::Internal(
                "doctor: path "@ + shown + " is outside write_scopes (refused for safety)"@,
            ),
        )
    }
}

/// The search for the part of a path that is there: the place to look at next, and the parts
/// below it, the lowest first, `..` among them. A settled search goes no further up.
#[derive(Debug)]
pub struct Climb {
    pub at: String,
    pub below: Vec<String>,
    pub settled: bool,
}

#[verifier::ext_equal]
pub struct ClimbModel {
    pub at: Seq<char>,
    pub below: Seq<Seq<char>>,
    pub settled: bool,
}

impl View for Climb {
    type V = ClimbModel;

    open spec fn view(&self) -> ClimbModel {
        ClimbModel { at: self.at@, below: texts(self.below@), settled: self.settled }
    }
}

/// The search begins at the path itself.
pub open spec fn climb_from(path: Seq<char>) -> ClimbModel {
    ClimbModel { at: path, below: Seq::empty(), settled: false }
}

/// The search once it is known whether anything stands at its place. It ends there, or it
/// goes on to the directory above, and where there is none it ends at the current one.
pub open spec fn climbed(c: ClimbModel, is_there: bool) -> ClimbModel {
    if c.settled || is_there {
        ClimbModel { settled: true, ..c }
    } else {
        let below = match last_part(c.at) {
            Some(part) => c.below.push(part),
            None => c.below,
        };
        match parent(c.at) {
            Some(dir) if dir.len() > 0 => ClimbModel { at: dir, below, settled: false },
            _ => ClimbModel { at: "."@, below, settled: true },
        }
    }
}

pub fn begin_climb(path: &str) -> (r: Climb)
    ensures
        r@ == climb_from(path@),
{
    let below: Vec<String> = Vec::new();
    assert(texts(below@) =~= Seq::<Seq<char>>::empty());
    Climb { at: path.to_owned(), below, settled: false }
}

pub fn climb_on(c: Climb, is_there: bool) -> (r: Climb)
    ensures
        r@ == climbed(c@, is_there),
{
    if c.settled || is_there {
        return Climb { settled: true, ..c };
    }
    let mut below = c.below;
    if let Some(part) = last_part_of(c.at.as_str()) {
        let ghost before = texts(below@);
        below.push(part);
        assert(texts(below@) =~= before.push(part@));
    }
    match parent_of(c.at.as_str()) {
        Some(dir) => {
            if dir.as_str().is_empty() {
                Climb { at: ".".to_owned(), below, settled: true }
            } else {
                Climb { at: dir, below, settled: false }
            }
        },
        None => Climb { at: ".".to_owned(), below, settled: true },
    }
}

/// A part further: `..` leads back to the directory above, and the root is above itself.
pub open spec fn step_along(parts: Seq<Seq<char>>, part: Seq<char>) -> Seq<Seq<char>> {
    if part != ".."@ {
        parts.push(part)
    } else if parts.len() > 1 {
        parts.drop_last()
    } else {
        parts
    }
}

/// The parts once those below were gone along, the lowest of which comes first in `below`.
pub open spec fn gone_along(parts: Seq<Seq<char>>, below: Seq<Seq<char>>) -> Seq<Seq<char>>
    decreases below.len(),
{
    if below.len() == 0 {
        parts
    } else {
        gone_along(step_along(parts, below.last()), below.drop_last())
    }
}

/// The path that is named by the canonical form of the place at which a search ended and the
/// parts below it. Nothing is there below that place, so a `..` leads back from where the part
/// before it led.
pub open spec fn resolved_below(base: Seq<char>, below: Seq<Seq<char>>) -> Seq<char> {
    path_from(gone_along(components(base), below))
}

/// The path that a search leads to, from the canonical form of the place at which it ended,
/// and whether that path is to be searched in turn: behind a `..` it can lead to what is there.
pub fn canonicalize_existing_or_parent(base: &str, below: &Vec<String>) -> (r: (String, bool))
    ensures
        r.0@ == resolved_below(base@, texts(below@)),
        r.1 == has_text(texts(below@), ".."@),
{
    let mut parts = components_of(base);
    let mut n: usize = below.len();
    let mut back = false;
    let ghost names = texts(below@);
    let ghost start = components(base@);
    assert(names.take(n as int) =~= names);
    while n > 0
        invariant
            n <= below@.len(),
            names == texts(below@),
            gone_along(start, names) == gone_along(texts(parts@), names.take(n as int)),
            back == exists|k: int| n <= k < names.len() && names[k] == ".."@,
        decreases n,
    {
        assert(names.take(n as int).drop_last() =~= names.take(n - 1));
        assert(names.take(n as int).last() == below@[n - 1]@);
        let ghost before = texts(parts@);
        if same_text(below[n - 1].as_str(), "..") {
            assert(names[n - 1] == ".."@);
            back = true;
            if parts.len() > 1 {
                parts.pop();
                assert(texts(parts@) =~= before.drop_last());
            }
        } else {
            parts.push(below[n - 1].clone());
            assert(texts(parts@) =~= before.push(names[n - 1]));
        }
        n -= 1;
        assert(back == exists|k: int| n <= k < names.len() && names[k] == ".."@);
    }
    assert(back == has_text(names, ".."@));
    (path_of_parts(&parts), back)
}

/// The search after each of the looks.
pub open spec fn climb_course(path: Seq<char>, looks: Seq<bool>) -> ClimbModel
    decreases looks.len(),
{
    if looks.len() == 0 {
        climb_from(path)
    } else {
        climbed(climb_course(path, looks.drop_last()), looks.last())
    }
}

pub open spec fn all_plain(names: Seq<Seq<char>>) -> bool {
    forall|i: int| 0 <= i < names.len() ==> plain_name(#[trigger] names[i])
}

proof fn lemma_climb_names(path: Seq<char>, looks: Seq<bool>)
    ensures
        all_plain(climb_course(path, looks).below),
    decreases looks.len(),
{
    if looks.len() > 0 {
        let before = climb_course(path, looks.drop_last());
        lemma_climb_names(path, looks.drop_last());
        law_last_part_is_plain(before.at);
    }
}

/// What is below the end of a search are components of the path.
proof fn lemma_climb_parts(path: Seq<char>, looks: Seq<bool>)
    ensures
        ({
            let c = climb_course(path, looks);
            &&& c.settled || components(c.at).is_prefix_of(components(path))
            &&& forall|i: int|
                0 <= i < c.below.len() ==> components(path).contains(#[trigger] c.below[i])
        }),
    decreases looks.len(),
{
    if looks.len() > 0 {
        let before = climb_course(path, looks.drop_last());
        let now = climb_course(path, looks);
        lemma_climb_parts(path, looks.drop_last());
        if !before.settled && !looks.last() {
            let parts = components(before.at);
            let all = components(path);
            if parent(before.at) is Some {
                law_parent_drops_a_component(before.at);
                let up = components(parent(before.at)->0);
                assert(up.is_prefix_of(all)) by {
                    assert(up =~= all.take(up.len() as int)) by {
                        assert forall|i: int| 0 <= i < up.len() implies up[i] == all[i] by {
                            assert(parts[i] == all.take(parts.len() as int)[i]);
                        }
                    }
                }
            }
            assert forall|i: int| 0 <= i < now.below.len() implies all.contains(
                #[trigger] now.below[i],
            ) by {
                if i < before.below.len() {
                    assert(now.below[i] == before.below[i]);
                } else {
                    assert(now.below[i] == parts[parts.len() - 1]);
                    assert(parts[parts.len() - 1] == all.take(parts.len() as int)[parts.len() - 1]);
                    assert(all[parts.len() - 1] == now.below[i]);
                }
            }
        }
    }
}

proof fn lemma_gone_along(parts: Seq<Seq<char>>, below: Seq<Seq<char>>)
    requires
        rooted(parts),
        !has_text(parts, ".."@),
        all_plain(below),
    ensures
        rooted(gone_along(parts, below)),
        !has_text(gone_along(parts, below), ".."@),
        !has_text(below, ".."@) ==> gone_along(parts, below) == parts + below.reverse(),
    decreases below.len(),
{
    if below.len() == 0 {
        assert(parts + below.reverse() =~= parts);
    } else {
        let part = below[below.len() - 1];
        let rest = below.drop_last();
        let next = step_along(parts, part);
        assert(plain_name(part));
        assert(all_plain(rest)) by {
            assert forall|i: int| 0 <= i < rest.len() implies plain_name(#[trigger] rest[i]) by {
                assert(rest[i] == below[i]);
            }
        }
        reveal_strlit("/");
        reveal_strlit("..");
        assert forall|i: int| 0 < i < next.len() implies plain_name(#[trigger] next[i]) by {
            if i < parts.len() {
                assert(next[i] == parts[i]);
            }
        }
        assert(!has_text(next, ".."@)) by {
            if has_text(next, ".."@) {
                let k = choose|k: int| 0 <= k < next.len() && next[k] == ".."@;
                if k < parts.len() {
                    assert(parts[k] == ".."@);
                }
            }
        }
        lemma_gone_along(next, rest);
        if !has_text(below, ".."@) {
            assert(part != ".."@);
            if has_text(rest, ".."@) {
                let k = choose|k: int| 0 <= k < rest.len() && rest[k] == ".."@;
                assert(below[k] == ".."@);
            }
            assert(parts.push(part) + rest.reverse() =~= parts + below.reverse());
        }
    }
}

/// Of a path only a part is there. The path that its search leads to, from the canonical form
/// of that part, goes up nowhere, and its components are those of the part with each further
/// one gone along: a name leads down and `..` leads back. A rest without `..` stays below the
/// part, so it may be written wherever the part may be, and any rest may be written exactly
/// where a scope holds what it leads to. A path that goes up nowhere is searched once.
pub proof fn law_missing_path_is_resolved(
    path: Seq<char>,
    looks: Seq<bool>,
    base: Seq<char>,
    scopes: Seq<Seq<char>>,
    shown: Seq<char>,
)
    requires
        absolute(base),
        !goes_up(base),
    ensures
        ({
            let below = climb_course(path, looks).below;
            let resolved = resolved_below(base, below);
            &&& absolute(resolved)
            &&& !goes_up(resolved)
            &&& components(resolved) == gone_along(components(base), below)
            &&& !has_text(below, ".."@) ==> under(resolved, base)
            &&& !has_text(below, ".."@) && in_scope(base, scopes) ==> scope_check(
                resolved,
                scopes,
                shown,
            ) is Ok
            &&& scope_check(resolved, scopes, shown) is Ok <==> exists|i: int|
                0 <= i < scopes.len() && components(#[trigger] scopes[i]).is_prefix_of(
                    gone_along(components(base), below),
                )
            &&& !goes_up(path) ==> !has_text(below, ".."@)
        }),
{
    let below = climb_course(path, looks).below;
    let resolved = resolved_below(base, below);
    let parts = components(base);
    lemma_climb_names(path, looks);
    lemma_climb_parts(path, looks);
    law_absolute_paths_are_rooted(base);
    lemma_gone_along(parts, below);
    law_parts_make_their_path(gone_along(parts, below));
    if !has_text(below, ".."@) {
        assert((parts + below.reverse()).take(parts.len() as int) =~= parts);
        assert(under(resolved, base));
        if in_scope(base, scopes) {
            let i = choose|i: int| 0 <= i < scopes.len() && under(base, #[trigger] scopes[i]);
            law_under_transitive(resolved, base, scopes[i]);
        }
    }
    if in_scope(resolved, scopes) {
        let i = choose|i: int| 0 <= i < scopes.len() && under(resolved, #[trigger] scopes[i]);
        assert(components(scopes[i]).is_prefix_of(gone_along(parts, below)));
    }
    if exists|i: int|
        0 <= i < scopes.len() && components(#[trigger] scopes[i]).is_prefix_of(
            gone_along(parts, below),
        ) {
        let i = choose|i: int|
            0 <= i < scopes.len() && components(#[trigger] scopes[i]).is_prefix_of(
                gone_along(parts, below),
            );
        assert(under(resolved, scopes[i]));
    }
    if has_text(below, ".."@) {
        let k = choose|k: int| 0 <= k < below.len() && below[k] == ".."@;
        assert(components(path).contains(below[k]));
    }
}

/// The path may be written: its canonical form goes up nowhere and lies under a canonical
/// scope.
pub fn ensure_in_scope(canonical: &str, canonical_scopes: &Vec<String>, shown: &str) -> (r: Result<
    (),
    BeadsError,
>)
    ensures
        checked(r) == scope_check(canonical@, texts(canonical_scopes@), shown@),
{
    let climbs = path_goes_up(canonical);
    let mut i: usize = 0;
    while i < canonical_scopes.len() && !climbs
        invariant
            i <= canonical_scopes@.len(),
            climbs == goes_up(canonical@),
            forall|k: int| 0 <= k < i ==> !under(canonical@, #[trigger] texts(canonical_scopes@)[k]),
        decreases canonical_scopes@.len() - i,
    {
        assert(texts(canonical_scopes@)[i as int] == canonical_scopes@[i as int]@);
        if is_under(canonical, canonical_scopes[i].as_str()) {
            return Ok(());
        }
        i += 1;
    }
    Err(
        internal(
            text3("doctor: path ", shown, " is outside write_scopes (refused for safety)"),
        ),
    )
}

/// A path that passes for the scopes of a repository lies in one of its two directories.
pub proof fn law_writes_stay_in_repo(canonical: Seq<char>, root: Seq<char>, shown: Seq<char>)
    ensures
        scope_check(
            canonical,
            seq![join_path(root, ".beads"@), join_path(root, ".doctor"@)],
            shown,
        ) is Ok <==> !goes_up(canonical) && (under(canonical, join_path(root, ".beads"@)) || under(
            canonical,
            join_path(root, ".doctor"@),
        )),
{
    let scopes = seq![join_path(root, ".beads"@), join_path(root, ".doctor"@)];
    assert(scopes[0] == join_path(root, ".beads"@));
    assert(scopes[1] == join_path(root, ".doctor"@));
}

/// Where the first backup of a file stands in its run.
pub open spec fn primary_backup(run_dir: Seq<char>, rel: Seq<char>) -> Seq<char> {
    join_path(join_path(run_dir, "backups"@), rel)
}

/// Where a later backup of the same file stands, seen from the backups of its run.
pub open spec fn versioned_backup(rel: Seq<char>, stamp: u128, collision: u32) -> Seq<char> {
    join_path(
        join_path(
            ".versions"@,
            decimal(stamp as nat) + "-"@ + decimal(collision as nat),
        ),
        rel,
    )
}

/// The path of the backup, and how a record names it where it is not the first.
pub open spec fn backup_location(
    run_dir: Seq<char>,
    rel: Seq<char>,
    primary_taken: bool,
    stamp: u128,
    collision: u32,
) -> (Seq<char>, Option<Seq<char>>) {
    if primary_taken {
        let version = versioned_backup(rel, stamp, collision);
        (join_path(join_path(run_dir, "backups"@), version), Some(version))
    } else {
        (primary_backup(run_dir, rel), None)
    }
}

/// The path of the first backup of a file.
pub fn primary_backup_path(run_dir: &str, rel: &str) -> (r: String)
    ensures
        r@ == primary_backup(run_dir@, rel@),
{
    let backups = joined_path(run_dir, "backups");
    joined_path(backups.as_str(), rel)
}

/// The path of a backup. Where the first path is taken, a stamp and a counter tell the
/// later ones apart.
pub fn verbatim_backup_path(
    run_dir: &str,
    rel: &str,
    primary_taken: bool,
    stamp: u128,
    collision: u32,
) -> (r: (String, Option<String>))
    ensures
        (r.0@, opt_text(r.1)) == backup_location(
            run_dir@,
            rel@,
            primary_taken,
            stamp,
            collision,
        ),
{
    if !primary_taken {
        return (primary_backup_path(run_dir, rel), None);
    }
    let time = wide_decimal_text(stamp);
    let count = decimal_text(collision as u64);
    let name = text3(time.as_str(), "-", count.as_str());
    let dir = joined_path(".versions", name.as_str());
    let version = joined_path(dir.as_str(), rel);
    let backups = joined_path(run_dir, "backups");
    (joined_path(backups.as_str(), version.as_str()), Some(version))
}

/// Backups of one time differ by their counter, so no backup takes the place of another.
pub proof fn law_backup_versions_differ(rel: Seq<char>, stamp: u128, a: u32, b: u32)
    requires
        a != b,
        !crate::paths::absolute(rel),
    ensures
        versioned_backup(rel, stamp, a) != versioned_backup(rel, stamp, b),
{
    reveal_strlit(".versions");
    reveal_strlit("/");
    reveal_strlit("-");
    let head = ".versions"@ + "/"@ + decimal(stamp as nat) + "-"@;
    let (p, q) = (decimal(a as nat), decimal(b as nat));
    crate::numbers::lemma_decimal_len(stamp as nat);
    crate::numbers::lemma_decimal_len(a as nat);
    crate::numbers::lemma_decimal_len(b as nat);
    let (na, nb) = (
        decimal(stamp as nat) + "-"@ + p,
        decimal(stamp as nat) + "-"@ + q,
    );
    assert(!crate::paths::absolute(na)) by {
        assert(na[0] == decimal(stamp as nat)[0]);
    }
    assert(!crate::paths::absolute(nb)) by {
        assert(nb[0] == decimal(stamp as nat)[0]);
    }
    let (da, db) = (join_path(".versions"@, na), join_path(".versions"@, nb));
    assert(da =~= head + p);
    assert(db =~= head + q);
    assert(da.last() == p.last());
    assert(db.last() == q.last());
    let (x, y) = (versioned_backup(rel, stamp, a), versioned_backup(rel, stamp, b));
    assert(x =~= head + (p + ("/"@ + rel)));
    assert(y =~= head + (q + ("/"@ + rel)));
    if x == y {
        crate::json::lemma_cancel_front(head, p + ("/"@ + rel), q + ("/"@ + rel));
        crate::json::law_json_number_readable(a as nat, b as nat, "/"@ + rel, "/"@ + rel);
    }
}

/// The backup is what was read, byte for byte.
pub fn cmp_strict(live: &Vec<u8>, backup: &Vec<u8>) -> (r: Result<(), BeadsError>)
    ensures
        checked(r) == if live@ == backup@ {
            Ok(())
        } else {
            Err(ErrorModel::Outside("doctor: backup verify failed (cmp-strict)"@))
        },
        r is Ok <==> live@ == backup@,
{
    if live.len() != backup.len() {
        return Err(BeadsError::Outside("doctor: backup verify failed (cmp-strict)".to_owned()));
    }
    let mut i: usize = 0;
    while i < live.len()
        invariant
            i <= live@.len() == backup@.len(),
            forall|k: int| 0 <= k < i ==> live@[k] == backup@[k],
        decreases live@.len() - i,
    {
        if live[i] != backup[i] {
            return Err(
                BeadsError::Outside("doctor: backup verify failed (cmp-strict)".to_owned()),
            );
        }
        i += 1;
    }
    assert(live@ =~= backup@);
    Ok(())
}

/// What was found before a change.
#[derive(Debug)]
pub struct PreState {
    /// The contents of the file, read once; none where there was no file.
    pub before: Option<Vec<u8>>,
    /// The mode of the file, where there was one.
    pub existing_mode: Option<u32>,
    /// When the file was last changed, where there was one.
    pub modified: Option<Timestamp>,
    /// The canonical path of the file.
    pub canonical: String,
    /// The canonical path of the destination of a move.
    pub target_canonical: Option<String>,
    /// The canonical paths of the scopes.
    pub canonical_scopes: Vec<String>,
    /// Something stands at the path of the first backup.
    pub primary_taken: bool,
    /// The counter that leads to a free path for a later backup.
    pub collision: u32,
    /// The time in nanoseconds.
    pub now_ns: u128,
    /// The process.
    pub pid: u32,
}

/// The new state of the file.
#[derive(Debug)]
pub enum FileChange {
    /// These bytes with this mode, put in place in one step.
    Replace { bytes: Vec<u8>, mode: u32 },
    /// The file moved; these directories are flushed.
    Rename { to: String, flush: Vec<String> },
    /// Another mode.
    Chmod { mode: u32 },
    /// A link made under a temporary name, put in place in one step.
    Symlink { target: String, temporary: String },
}

/// What a [`FileChange`] says.
pub enum ChangeModel {
    Replace { bytes: Seq<u8>, mode: u32 },
    Rename { to: Seq<char>, flush: Seq<Seq<char>> },
    Chmod { mode: u32 },
    Symlink { target: Seq<char>, temporary: Seq<char> },
}

impl View for FileChange {
    type V = ChangeModel;

    open spec fn view(&self) -> ChangeModel {
        match self {
            FileChange::Replace { bytes, mode } => ChangeModel::Replace {
                bytes: bytes@,
                mode: *mode,
            },
            FileChange::Rename { to, flush } => ChangeModel::Rename {
                to: to@,
                flush: texts(flush@),
            },
            FileChange::Chmod { mode } => ChangeModel::Chmod { mode: *mode },
            FileChange::Symlink { target, temporary } => ChangeModel::Symlink {
                target: target@,
                temporary: temporary@,
            },
        }
    }
}

/// The directory of a file, `.` where the path names none.
pub open spec fn directory_of(path: Seq<char>) -> Seq<char> {
    match parent(path) {
        Some(dir) => dir,
        None => "."@,
    }
}

pub fn directory_path(path: &str) -> (r: String)
    ensures
        r@ == directory_of(path@),
{
    match parent_of(path) {
        Some(dir) => dir,
        None => ".".to_owned(),
    }
}

/// The directories that a move changes.
pub open spec fn rename_flush(path: Seq<char>, to: Seq<char>) -> Seq<Seq<char>> {
    let dir = directory_of(path);
    match parent(to) {
        Some(other) if !same_path(other, dir) => seq![dir, other],
        _ => seq![dir],
    }
}

/// The name under which a link is made before it takes its place.
pub open spec fn symlink_temporary(path: Seq<char>, pid: u32, now_ns: u128) -> Seq<char> {
    let base = match file_name(path) {
        Some(name) => name,
        None => "target"@,
    };
    with_file_name(
        path,
        "."@ + base + ".doctor-symlink-tmp."@ + decimal(pid as nat) + "."@ + decimal(now_ns as nat),
    )
}

/// The bytes that were read, none where there was no file.
pub open spec fn existing_bytes(before: Option<Seq<u8>>) -> Seq<u8> {
    match before {
        Some(b) => b,
        None => Seq::empty(),
    }
}

/// What a change makes of a file. An append builds on the bytes that were read and backed
/// up, and keeps the mode that was read with them.
pub open spec fn change_of(
    path: Seq<char>,
    op: Op,
    before: Option<Seq<u8>>,
    existing_mode: Option<u32>,
    pid: u32,
    now_ns: u128,
) -> ChangeModel {
    match op {
        Op::WriteFile { content, mode } => ChangeModel::Replace {
            bytes: content@,
            mode: match mode {
                Some(m) => m,
                None => 0o644,
            },
        },
        Op::AppendFile { content } => ChangeModel::Replace {
            bytes: existing_bytes(before) + content@,
            mode: match existing_mode {
                Some(m) => m,
                None => 0o644,
            },
        },
        Op::Rename { to } => ChangeModel::Rename { to: to@, flush: rename_flush(path, to@) },
        Op::Chmod { mode } => ChangeModel::Chmod { mode },
        Op::SymlinkAtomic { target } => ChangeModel::Symlink {
            target: target@,
            temporary: symlink_temporary(path, pid, now_ns),
        },
        _ => ChangeModel::Chmod { mode: 0 },
    }
}

/// The change of a file is one that [`execute_atomic`] makes; the others go to the database.
pub open spec fn changes_file(op: Op) -> bool {
    !(op is DbExec) && !(op is DbMigrate)
}

/// The new state of a file, to be put in place in one step.
pub fn execute_atomic(
    path: &str,
    op: Op,
    before: &Option<Vec<u8>>,
    existing_mode: Option<u32>,
    pid: u32,
    now_ns: u128,
) -> (r: FileChange)
    requires
        changes_file(op),
    ensures
        r@ == change_of(path@, op, opt_bytes(*before), existing_mode, pid, now_ns),
{
    match op {
        Op::WriteFile { content, mode } => {
            let mode: u32 = match mode {
                Some(m) => m,
                None => 0o644,
            };
            FileChange::Replace { bytes: content, mode }
        },
        Op::AppendFile { content } => {
            let mut bytes: Vec<u8> = match before {
                Some(b) => copy_bytes(b),
                None => Vec::new(),
            };
            let ghost head = bytes@;
            let mut i: usize = 0;
            while i < content.len()
                invariant
                    i <= content@.len(),
                    bytes@ == head + content@.take(i as int),
                decreases content@.len() - i,
            {
                bytes.push(content[i]);
                i += 1;
                assert(bytes@ =~= head + content@.take(i as int));
            }
            assert(bytes@ =~= existing_bytes(opt_bytes(*before)) + content@);
            let mode: u32 = match existing_mode {
                Some(m) => m,
                None => 0o644,
            };
            FileChange::Replace { bytes, mode }
        },
        Op::Rename { to } => {
            let dir = directory_path(path);
            let mut flush: Vec<String> = Vec::new();
            flush.push(dir.clone());
            if let Some(other) = parent_of(to.as_str()) {
                if !is_same_path(other.as_str(), dir.as_str()) {
                    flush.push(other);
                }
            }
            assert(texts(flush@) =~= rename_flush(path@, to@));
            FileChange::Rename { to, flush }
        },
        Op::Chmod { mode } => FileChange::Chmod { mode },
        Op::SymlinkAtomic { target } => {
            let base = match file_name_of(path) {
                Some(name) => name,
                None => "target".to_owned(),
            };
            let process = decimal_text(pid as u64);
            let time = wide_decimal_text(now_ns);
            let mut name = text5(
                ".",
                base.as_str(),
                ".doctor-symlink-tmp.",
                process.as_str(),
                ".",
            );
            name.append(time.as_str());
            let temporary = path_with_file_name(path, name.as_str());
            FileChange::Symlink { target, temporary }
        },
        _ => FileChange::Chmod { mode: 0 },
    }
}

/// What is known of an action before it is carried out.
#[derive(Debug)]
pub struct ActionDraft {
    pub path: String,
    pub op: &'static str,
    pub before_hash: String,
    pub started_at_ns: u128,
    pub run_id: String,
    pub fixer_id: String,
    pub backup_path: Option<String>,
    pub rename_to: Option<String>,
}

/// What an [`ActionDraft`] says.
#[verifier::ext_equal]
pub struct DraftModel {
    pub path: Seq<char>,
    pub op: Seq<char>,
    pub before_hash: Seq<char>,
    pub started_at_ns: u128,
    pub run_id: Seq<char>,
    pub fixer_id: Seq<char>,
    pub backup_path: Option<Seq<char>>,
    pub rename_to: Option<Seq<char>>,
}

impl View for ActionDraft {
    type V = DraftModel;

    open spec fn view(&self) -> DraftModel {
        DraftModel {
            path: self.path@,
            op: self.op@,
            before_hash: self.before_hash@,
            started_at_ns: self.started_at_ns,
            run_id: self.run_id@,
            fixer_id: self.fixer_id@,
            backup_path: opt_text(self.backup_path),
            rename_to: opt_text(self.rename_to),
        }
    }
}

/// What an [`ActionResult`] says.
#[verifier::ext_equal]
pub struct ResultModel {
    pub ok: bool,
    pub before_hash: Seq<char>,
    pub after_hash: Seq<char>,
    pub error: Option<Seq<char>>,
}

impl View for ActionResult {
    type V = ResultModel;

    open spec fn view(&self) -> ResultModel {
        ResultModel {
            ok: self.ok,
            before_hash: self.before_hash@,
            after_hash: self.after_hash@,
            error: opt_text(self.error),
        }
    }
}

/// What an [`ActionRecord`] says.
#[verifier::ext_equal]
pub struct RecordModel {
    pub path: Seq<char>,
    pub op: Seq<char>,
    pub before_hash: Seq<char>,
    pub after_hash: Seq<char>,
    pub started_at_ns: u128,
    pub finished_at_ns: u128,
    pub run_id: Seq<char>,
    pub fixer_id: Seq<char>,
    pub backup_path: Option<Seq<char>>,
    pub ok: bool,
    pub rename_to: Option<Seq<char>>,
    pub rolled_back: Option<bool>,
    pub error: Option<Seq<char>>,
}

impl View for ActionRecord {
    type V = RecordModel;

    open spec fn view(&self) -> RecordModel {
        RecordModel {
            path: self.path@,
            op: self.op@,
            before_hash: self.before_hash@,
            after_hash: self.after_hash@,
            started_at_ns: self.started_at_ns,
            finished_at_ns: self.finished_at_ns,
            run_id: self.run_id@,
            fixer_id: self.fixer_id@,
            backup_path: opt_text(self.backup_path),
            ok: self.ok,
            rename_to: opt_text(self.rename_to),
            rolled_back: self.rolled_back,
            error: opt_text(self.error),
        }
    }
}

/// A backup to be written: where, the bytes that were read, and the mode and the time of the
/// last change that it is given.
#[derive(Debug)]
pub struct Backup {
    pub path: String,
    pub bytes: Vec<u8>,
    pub mode: Option<u32>,
    pub modified: Option<Timestamp>,
}

/// What a [`Backup`] says.
#[verifier::ext_equal]
pub struct BackupModel {
    pub path: Seq<char>,
    pub bytes: Seq<u8>,
    pub mode: Option<u32>,
    pub modified: Option<Timestamp>,
}

impl View for Backup {
    type V = BackupModel;

    open spec fn view(&self) -> BackupModel {
        BackupModel {
            path: self.path@,
            bytes: self.bytes@,
            mode: self.mode,
            modified: self.modified,
        }
    }
}

/// The backup, where there is one.
pub open spec fn opt_backup(backup: Option<Backup>) -> Option<BackupModel> {
    match backup {
        Some(b) => Some(b@),
        None => None,
    }
}

/// The backup of what was found: none where there was no file.
pub open spec fn backup_of(
    path: Seq<char>,
    before: Option<Seq<u8>>,
    mode: Option<u32>,
    modified: Option<Timestamp>,
) -> Option<BackupModel> {
    match before {
        Some(bytes) => Some(BackupModel { path, bytes, mode, modified }),
        None => None,
    }
}

/// What is to be done for a change.
#[derive(Debug)]
pub enum MutationPlan {
    /// Say this and do nothing.
    DryRun { notice: String, result: ActionResult },
    /// Hand the change to the database.
    Database { relative: String, before_hash: String, started_at_ns: u128 },
    /// Back the old bytes up, verify the backup, make the change and record it.
    Write { backup: Option<Backup>, change: FileChange, draft: ActionDraft },
}

/// What a [`MutationPlan`] says.
pub enum MutationModel {
    DryRun { notice: Seq<char>, result: ResultModel },
    Database { relative: Seq<char>, before_hash: Seq<char>, started_at_ns: u128 },
    Write { backup: Option<BackupModel>, change: ChangeModel, draft: DraftModel },
}

impl View for MutationPlan {
    type V = MutationModel;

    open spec fn view(&self) -> MutationModel {
        match self {
            MutationPlan::DryRun { notice, result } => MutationModel::DryRun {
                notice: notice@,
                result: result@,
            },
            MutationPlan::Database { relative, before_hash, started_at_ns } => {
                MutationModel::Database {
                    relative: relative@,
                    before_hash: before_hash@,
                    started_at_ns: *started_at_ns,
                }
            },
            MutationPlan::Write { backup, change, draft } => MutationModel::Write {
                backup: opt_backup(*backup),
                change: change@,
                draft: draft@,
            },
        }
    }
}

/// The time since the run started.
pub open spec fn elapsed(now_ns: u128, start_ns: u128) -> u128 {
    if now_ns > start_ns {
        (now_ns - start_ns) as u128
    } else {
        0
    }
}

pub fn elapsed_ns(now_ns: u128, start_ns: u128) -> (r: u128)
    ensures
        r == elapsed(now_ns, start_ns),
{
    if now_ns > start_ns {
        now_ns - start_ns
    } else {
        0
    }
}

/// What is to be done for the change `op` of `path`, or why it is refused.
pub open spec fn mutation_of(
    ctx: MutateContext,
    path: Seq<char>,
    op: Op,
    pre: PreState,
) -> Result<MutationModel, ErrorModel> {
    let scopes = texts(pre.canonical_scopes@);
    let hash = file_hash(opt_bytes(pre.before));
    let rel = relative_to(path, ctx.repo_root@);
    let started = elapsed(pre.now_ns, ctx.start_ns);
    if scope_check(pre.canonical@, scopes, path) is Err {
        Err(scope_check(pre.canonical@, scopes, path)->Err_0)
    } else if op matches Op::Rename { to } && scope_check(
        opt_text(pre.target_canonical)->0,
        scopes,
        to@,
    ) is Err {
        Err(
            scope_check(opt_text(pre.target_canonical)->0, scopes, op->Rename_to@)->Err_0,
        )
    } else if ctx.dry_run {
        Ok(
            MutationModel::DryRun {
                notice: "[dry-run] would mutate "@ + path + ": "@ + op_name(op),
                result: ResultModel { ok: true, before_hash: hash, after_hash: hash, error: None },
            },
        )
    } else if !changes_file(op) {
        Ok(
            MutationModel::Database { relative: rel, before_hash: hash, started_at_ns: started },
        )
    } else {
        let location = backup_location(
            ctx.run_dir@,
            rel,
            pre.primary_taken,
            pre.now_ns,
            pre.collision,
        );
        Ok(
            MutationModel::Write {
                backup: backup_of(
                    location.0,
                    opt_bytes(pre.before),
                    pre.existing_mode,
                    pre.modified,
                ),
                change: change_of(
                    path,
                    op,
                    opt_bytes(pre.before),
                    pre.existing_mode,
                    pre.pid,
                    pre.now_ns,
                ),
                draft: DraftModel {
                    path: rel,
                    op: op_name(op),
                    before_hash: hash,
                    started_at_ns: started,
                    run_id: ctx.run_id@,
                    fixer_id: ctx.fixer_id@,
                    backup_path: location.1,
                    rename_to: match op {
                        Op::Rename { to } => Some(to@),
                        _ => None,
                    },
                },
            },
        )
    }
}

/// The plan, or what the error says.
pub open spec fn mutation_or_error(r: Result<MutationPlan, BeadsError>) -> Result<
    MutationModel,
    ErrorModel,
> {
    match r {
        Ok(p) => Ok(p@),
        Err(e) => Err(e.model()),
    }
}

/// What is to be done for the change `op` of the file at `path`.
pub fn mutate(ctx: &MutateContext, path: &str, op: Op, pre: PreState) -> (r: Result<
    MutationPlan,
    BeadsError,
>)
    requires
        op is Rename ==> pre.target_canonical is Some,
    ensures
        mutation_or_error(r) == mutation_of(*ctx, path@, op, pre),
{
    let before_hash = file_hash_text(&pre.before);
    if let Err(e) = ensure_in_scope(pre.canonical.as_str(), &pre.canonical_scopes, path) {
        return Err(e);
    }
    let mut rename_to: Option<String> = None;
    if let Op::Rename { to } = &op {
        if let Some(target) = &pre.target_canonical {
            if let Err(e) = ensure_in_scope(target.as_str(), &pre.canonical_scopes, to.as_str()) {
                return Err(e);
            }
        }
        rename_to = Some(to.clone());
    }
    let name = op.name();
    if ctx.dry_run {
        let mut notice = text3("[dry-run] would mutate ", path, ": ");
        notice.append(name);
        return Ok(
            MutationPlan::DryRun {
                notice,
                result: ActionResult {
                    ok: true,
                    before_hash: before_hash.clone(),
                    after_hash: before_hash,
                    error: None,
                },
            },
        );
    }
    let relative = relative_path(path, ctx.repo_root.as_str());
    let started_at_ns = elapsed_ns(pre.now_ns, ctx.start_ns);
    let to_database = match &op {
        Op::DbExec { .. } => true,
        Op::DbMigrate { .. } => true,
        _ => false,
    };
    if to_database {
        return Ok(MutationPlan::Database { relative, before_hash, started_at_ns });
    }
    let (backup_file, backup_path) = verbatim_backup_path(
        ctx.run_dir.as_str(),
        relative.as_str(),
        pre.primary_taken,
        pre.now_ns,
        pre.collision,
    );
    let change = execute_atomic(path, op, &pre.before, pre.existing_mode, pre.pid, pre.now_ns);
    let backup = match pre.before {
        Some(bytes) => Some(
            Backup {
                path: backup_file,
                bytes,
                mode: pre.existing_mode,
                modified: pre.modified,
            },
        ),
        None => None,
    };
    let draft = ActionDraft {
        path: relative,
        op: name,
        before_hash,
        started_at_ns,
        run_id: ctx.run_id.clone(),
        fixer_id: ctx.fixer_id.clone(),
        backup_path,
        rename_to,
    };
    Ok(MutationPlan::Write { backup, change, draft })
}

/// The record of an action that succeeded.
pub open spec fn record_of(
    draft: DraftModel,
    after: Option<Seq<u8>>,
    finished_at_ns: u128,
) -> RecordModel {
    RecordModel {
        path: draft.path,
        op: draft.op,
        before_hash: draft.before_hash,
        after_hash: file_hash(after),
        started_at_ns: draft.started_at_ns,
        finished_at_ns,
        run_id: draft.run_id,
        fixer_id: draft.fixer_id,
        backup_path: draft.backup_path,
        ok: true,
        rename_to: draft.rename_to,
        rolled_back: None,
        error: None,
    }
}

/// The record and the result of an action, once the file was read again.
pub fn record_action(draft: ActionDraft, after: &Option<Vec<u8>>, finished_at_ns: u128) -> (r: (
    ActionRecord,
    ActionResult,
))
    ensures
        r.0@ == record_of(draft@, opt_bytes(*after), finished_at_ns),
        r.1@ == (ResultModel {
            ok: true,
            before_hash: draft@.before_hash,
            after_hash: file_hash(opt_bytes(*after)),
            error: None,
        }),
{
    let after_hash = file_hash_text(after);
    let result = ActionResult {
        ok: true,
        before_hash: draft.before_hash.clone(),
        after_hash: after_hash.clone(),
        error: None,
    };
    let record = ActionRecord {
        path: draft.path,
        op: draft.op,
        before_hash: draft.before_hash,
        after_hash,
        started_at_ns: draft.started_at_ns,
        finished_at_ns,
        run_id: draft.run_id,
        fixer_id: draft.fixer_id,
        backup_path: draft.backup_path,
        ok: true,
        rename_to: draft.rename_to,
        rolled_back: None,
        error: None,
    };
    (record, result)
}

/// A dry run plans no backup, no change and no record, and reports the file unchanged.
pub proof fn law_dry_run_only_reports(ctx: MutateContext, path: Seq<char>, op: Op, pre: PreState)
    requires
        ctx.dry_run,
        mutation_of(ctx, path, op, pre) is Ok,
    ensures
        mutation_of(ctx, path, op, pre)->Ok_0 is DryRun,
        mutation_of(ctx, path, op, pre)->Ok_0->result.before_hash == mutation_of(
            ctx,
            path,
            op,
            pre,
        )->Ok_0->result.after_hash,
{
}

/// Nothing is planned for a file outside the scopes, nor for a move that leaves them.
pub proof fn law_out_of_scope_is_refused(
    ctx: MutateContext,
    path: Seq<char>,
    op: Op,
    pre: PreState,
)
    requires
        !in_scope(pre.canonical@, texts(pre.canonical_scopes@)) || (op is Rename && !in_scope(
            opt_text(pre.target_canonical)->0,
            texts(pre.canonical_scopes@),
        )),
    ensures
        mutation_of(ctx, path, op, pre) is Err,
{
}

/// A change of a file that was there is planned with a backup of exactly the bytes that were
/// hashed, with the mode and the time of the last change that were read, and an append keeps
/// the bytes at the front.
pub proof fn law_change_is_backed_up(ctx: MutateContext, path: Seq<char>, op: Op, pre: PreState)
    requires
        pre.before is Some,
        mutation_of(ctx, path, op, pre) is Ok,
        mutation_of(ctx, path, op, pre)->Ok_0 is Write,
    ensures
        ({
            let plan = mutation_of(ctx, path, op, pre)->Ok_0;
            let bytes = pre.before->0@;
            &&& plan->backup is Some && plan->backup->0.bytes == bytes
            &&& plan->backup->0.mode == pre.existing_mode && plan->backup->0.modified == pre.modified
            &&& plan->draft.before_hash == sha256_prefixed(bytes)
            &&& op is AppendFile ==> plan->change is Replace && bytes.is_prefix_of(
                plan->change->bytes,
            )
        }),
{
    if let Op::AppendFile { content } = op {
        let bytes = pre.before->0@;
        assert((bytes + content@).take(bytes.len() as int) =~= bytes);
    }
}

/// The bytes and the mode of a file.
pub struct FileState {
    pub bytes: Seq<u8>,
    pub mode: u32,
}

/// The file at the path once the change was made: none where it was moved away or became a
/// link.
pub open spec fn file_after(file: FileState, change: ChangeModel) -> Option<FileState> {
    match change {
        ChangeModel::Replace { bytes, mode } => Some(FileState { bytes, mode }),
        ChangeModel::Chmod { mode } => Some(FileState { mode, ..file }),
        _ => None,
    }
}

/// What putting a backup back makes of the file.
pub open spec fn backup_restored(backup: BackupModel) -> ChangeModel {
    ChangeModel::Replace {
        bytes: backup.bytes,
        mode: match backup.mode {
            Some(mode) => mode,
            None => 0o644,
        },
    }
}

/// A write, an append or a new mode leaves a backup with the bytes, the mode and the time
/// that the file had, and a record whose first hash is that of those bytes. The path then
/// holds what was asked for, the second hash is that of what it holds, and putting the backup
/// back gives the bytes and the mode that were there.
pub proof fn law_backup_gives_the_file_back(
    ctx: MutateContext,
    path: Seq<char>,
    op: Op,
    pre: PreState,
    mode: u32,
    modified: Timestamp,
    finished_at_ns: u128,
)
    requires
        !ctx.dry_run,
        op is WriteFile || op is AppendFile || op is Chmod,
        pre.before is Some,
        pre.existing_mode == Some(mode),
        pre.modified == Some(modified),
        mutation_of(ctx, path, op, pre) is Ok,
    ensures
        ({
            let plan = mutation_of(ctx, path, op, pre)->Ok_0;
            let file = FileState { bytes: pre.before->0@, mode };
            let after = file_after(file, plan->change);
            let record = record_of(plan->draft, Some(after->0.bytes), finished_at_ns);
            &&& plan is Write
            &&& plan->backup is Some
            &&& plan->backup->0.bytes == file.bytes
            &&& plan->backup->0.mode == Some(mode)
            &&& plan->backup->0.modified == Some(modified)
            &&& !pre.primary_taken ==> plan->backup->0.path == primary_backup(
                ctx.run_dir@,
                relative_to(path, ctx.repo_root@),
            )
            &&& after is Some
            &&& match op {
                Op::WriteFile { content, mode: asked } => after->0.bytes == content@
                    && after->0.mode == (match asked {
                    Some(m) => m,
                    None => 0o644,
                }),
                Op::AppendFile { content } => after->0.bytes == file.bytes + content@
                    && after->0.mode == mode,
                Op::Chmod { mode: asked } => after->0.bytes == file.bytes && after->0.mode
                    == asked,
                _ => false,
            }
            &&& record.before_hash == sha256_prefixed(file.bytes)
            &&& record.after_hash == sha256_prefixed(after->0.bytes)
            &&& file_after(after->0, backup_restored(plan->backup->0)) == Some(file)
        }),
{
}

/// What was found of one target before a legacy fixer runs.
#[derive(Debug)]
pub struct LegacyTarget {
    pub path: String,
    pub canonical: String,
    pub before: Option<Vec<u8>>,
    pub existing_mode: Option<u32>,
    pub modified: Option<Timestamp>,
    pub primary_taken: bool,
    pub collision: u32,
}

/// The backup of one target, and what is known of its record.
#[derive(Debug)]
pub struct LegacyDraft {
    pub backup: Option<Backup>,
    pub draft: ActionDraft,
    pub existed_before: bool,
}

/// What a [`LegacyDraft`] says.
#[verifier::ext_equal]
pub struct LegacyModel {
    pub backup: Option<BackupModel>,
    pub draft: DraftModel,
    pub existed_before: bool,
}

impl View for LegacyDraft {
    type V = LegacyModel;

    open spec fn view(&self) -> LegacyModel {
        LegacyModel {
            backup: opt_backup(self.backup),
            draft: self.draft@,
            existed_before: self.existed_before,
        }
    }
}

/// The draft of one target.
pub open spec fn legacy_draft_of(
    ctx: MutateContext,
    fixer_id: Seq<char>,
    target: LegacyTarget,
    now_ns: u128,
) -> LegacyModel {
    let rel = relative_to(target.path@, ctx.repo_root@);
    let location = backup_location(
        ctx.run_dir@,
        rel,
        target.primary_taken,
        now_ns,
        target.collision,
    );
    LegacyModel {
        backup: backup_of(
            location.0,
            opt_bytes(target.before),
            target.existing_mode,
            target.modified,
        ),
        draft: DraftModel {
            path: rel,
            op: "legacy_op"@,
            before_hash: file_hash(opt_bytes(target.before)),
            started_at_ns: elapsed(now_ns, ctx.start_ns),
            run_id: ctx.run_id@,
            fixer_id,
            backup_path: location.1,
            rename_to: None,
        },
        existed_before: target.before is Some,
    }
}

/// What a legacy fixer may do.
#[derive(Debug)]
pub enum LegacyPlan {
    /// Say these lines; the fixer does not run.
    DryRun { notices: Vec<String> },
    /// Back up every target, run the fixer, and record every target whatever came of it.
    Run { targets: Vec<LegacyDraft> },
}

/// What a [`LegacyPlan`] says.
pub enum LegacyPlanModel {
    DryRun { notices: Seq<Seq<char>> },
    Run { targets: Seq<LegacyModel> },
}

impl View for LegacyPlan {
    type V = LegacyPlanModel;

    open spec fn view(&self) -> LegacyPlanModel {
        match self {
            LegacyPlan::DryRun { notices } => LegacyPlanModel::DryRun { notices: texts(notices@) },
            LegacyPlan::Run { targets } => LegacyPlanModel::Run {
                targets: crate::sorting::views(targets@),
            },
        }
    }
}

/// The first target outside the scopes, if there is one.
pub open spec fn legacy_scope_check(
    targets: Seq<LegacyTarget>,
    scopes: Seq<Seq<char>>,
) -> Result<(), ErrorModel>
    decreases targets.len(),
{
    if targets.len() == 0 {
        Ok(())
    } else if scope_check(targets[0].canonical@, scopes, targets[0].path@) is Err {
        scope_check(targets[0].canonical@, scopes, targets[0].path@)
    } else {
        legacy_scope_check(targets.skip(1), scopes)
    }
}

/// What a legacy fixer may do with its targets: nothing at all where any of them is outside
/// the scopes.
pub open spec fn legacy_plan_of(
    ctx: MutateContext,
    fixer_id: Seq<char>,
    targets: Seq<LegacyTarget>,
    scopes: Seq<Seq<char>>,
    now_ns: u128,
) -> Result<LegacyPlanModel, ErrorModel> {
    match legacy_scope_check(targets, scopes) {
        Err(e) => Err(e),
        Ok(()) => if ctx.dry_run {
            Ok(
                LegacyPlanModel::DryRun {
                    notices: targets.map_values(
                        |t: LegacyTarget| "[dry-run] would mutate "@ + t.path@ + ": legacy_op"@,
                    ),
                },
            )
        } else {
            Ok(
                LegacyPlanModel::Run {
                    targets: targets.map_values(
                        |t: LegacyTarget| legacy_draft_of(ctx, fixer_id, t, now_ns),
                    ),
                },
            )
        },
    }
}

fn legacy_draft(ctx: &MutateContext, fixer_id: &str, target: &LegacyTarget, now_ns: u128) -> (r:
    LegacyDraft)
    ensures
        r@ == legacy_draft_of(*ctx, fixer_id@, *target, now_ns),
{
    let before_hash = file_hash_text(&target.before);
    let relative = relative_path(target.path.as_str(), ctx.repo_root.as_str());
    let (backup_file, backup_path) = verbatim_backup_path(
        ctx.run_dir.as_str(),
        relative.as_str(),
        target.primary_taken,
        now_ns,
        target.collision,
    );
    let backup = match &target.before {
        Some(bytes) => Some(
            Backup {
                path: backup_file,
                bytes: copy_bytes(bytes),
                mode: target.existing_mode,
                modified: target.modified,
            },
        ),
        None => None,
    };
    LegacyDraft {
        backup,
        draft: ActionDraft {
            path: relative,
            op: "legacy_op",
            before_hash,
            started_at_ns: elapsed_ns(now_ns, ctx.start_ns),
            run_id: ctx.run_id.clone(),
            fixer_id: fixer_id.to_owned(),
            backup_path,
            rename_to: None,
        },
        existed_before: target.before.is_some(),
    }
}

/// What a legacy fixer may do with its targets. Every target is checked before anything is
/// written for any of them.
pub fn record_legacy_op(
    ctx: &MutateContext,
    fixer_id: &str,
    targets: &Vec<LegacyTarget>,
    canonical_scopes: &Vec<String>,
    now_ns: u128,
) -> (r: Result<LegacyPlan, BeadsError>)
    ensures
        match r {
            Ok(plan) => legacy_plan_of(
                *ctx,
                fixer_id@,
                targets@,
                texts(canonical_scopes@),
                now_ns,
            ) == Ok::<LegacyPlanModel, ErrorModel>(plan@),
            Err(e) => legacy_plan_of(
                *ctx,
                fixer_id@,
                targets@,
                texts(canonical_scopes@),
                now_ns,
            ) == Err::<LegacyPlanModel, ErrorModel>(e.model()),
        },
{
    let ghost scopes = texts(canonical_scopes@);
    let mut i: usize = 0;
    assert(targets@.skip(0) =~= targets@);
    while i < targets.len()
        invariant
            i <= targets@.len(),
            scopes == texts(canonical_scopes@),
            legacy_scope_check(targets@, scopes) == legacy_scope_check(
                targets@.skip(i as int),
                scopes,
            ),
        decreases targets@.len() - i,
    {
        if let Err(e) = ensure_in_scope(
            targets[i].canonical.as_str(),
            canonical_scopes,
            targets[i].path.as_str(),
        ) {
            return Err(e);
        }
        assert(targets@.skip(i as int).skip(1) =~= targets@.skip(i + 1));
        i += 1;
    }
    if ctx.dry_run {
        let ghost lines = targets@.map_values(
            |t: LegacyTarget| "[dry-run] would mutate "@ + t.path@ + ": legacy_op"@,
        );
        let mut notices: Vec<String> = Vec::new();
        let mut k: usize = 0;
        while k < targets.len()
            invariant
                k <= targets@.len(),
                lines == targets@.map_values(
                    |t: LegacyTarget| "[dry-run] would mutate "@ + t.path@ + ": legacy_op"@,
                ),
                texts(notices@) == lines.take(k as int),
            decreases targets@.len() - k,
        {
            let ghost before = texts(notices@);
            let line = text3("[dry-run] would mutate ", targets[k].path.as_str(), ": legacy_op");
            let ghost shown = line@;
            notices.push(line);
            k += 1;
            assert(texts(notices@) =~= before.push(shown));
            assert(texts(notices@) =~= lines.take(k as int));
        }
        assert(texts(notices@) =~= lines);
        return Ok(LegacyPlan::DryRun { notices });
    }
    let ghost wanted = targets@.map_values(
        |t: LegacyTarget| legacy_draft_of(*ctx, fixer_id@, t, now_ns),
    );
    let mut drafts: Vec<LegacyDraft> = Vec::new();
    let mut k: usize = 0;
    while k < targets.len()
        invariant
            k <= targets@.len(),
            wanted == targets@.map_values(
                |t: LegacyTarget| legacy_draft_of(*ctx, fixer_id@, t, now_ns),
            ),
            crate::sorting::views(drafts@) == wanted.take(k as int),
        decreases targets@.len() - k,
    {
        let ghost before = crate::sorting::views(drafts@);
        let draft = legacy_draft(ctx, fixer_id, &targets[k], now_ns);
        let ghost shown = draft@;
        drafts.push(draft);
        k += 1;
        assert(crate::sorting::views(drafts@) =~= before.push(shown));
        assert(crate::sorting::views(drafts@) =~= wanted.take(k as int));
    }
    assert(crate::sorting::views(drafts@) =~= wanted);
    Ok(LegacyPlan::Run { targets: drafts })
}

/// Every target is in scope, or no target gets a backup.
pub proof fn law_legacy_targets_checked_first(
    ctx: MutateContext,
    fixer_id: Seq<char>,
    targets: Seq<LegacyTarget>,
    scopes: Seq<Seq<char>>,
    now_ns: u128,
)
    ensures
        legacy_plan_of(ctx, fixer_id, targets, scopes, now_ns) is Ok <==> forall|i: int|
            0 <= i < targets.len() ==> in_scope((#[trigger] targets[i]).canonical@, scopes),
    decreases targets.len(),
{
    if targets.len() > 0 {
        let rest = targets.skip(1);
        law_legacy_targets_checked_first(ctx, fixer_id, rest, scopes, now_ns);
        assert(in_scope(targets[0].canonical@, scopes) || !in_scope(targets[0].canonical@, scopes));
        if forall|i: int|
            0 <= i < targets.len() ==> in_scope((#[trigger] targets[i]).canonical@, scopes) {
            assert forall|i: int| 0 <= i < rest.len() implies in_scope(
                (#[trigger] rest[i]).canonical@,
                scopes,
            ) by {
                assert(rest[i] == targets[i + 1]);
            }
        }
        if in_scope(targets[0].canonical@, scopes) && forall|i: int|
            0 <= i < rest.len() ==> in_scope((#[trigger] rest[i]).canonical@, scopes) {
            assert forall|i: int| 0 <= i < targets.len() implies in_scope(
                (#[trigger] targets[i]).canonical@,
                scopes,
            ) by {
                if i > 0 {
                    assert(rest[i - 1] == targets[i]);
                }
            }
        }
    }
}

/// The record of one target after the fixer ran, whether it succeeded or not.
pub fn legacy_record(
    target: LegacyDraft,
    after: &Option<Vec<u8>>,
    finished_at_ns: u128,
    failure: &Option<String>,
) -> (r: ActionRecord)
    ensures
        r@ == (RecordModel {
            ok: failure is None,
            error: opt_text(*failure),
            ..record_of(target@.draft, opt_bytes(*after), finished_at_ns)
        }),
{
    let after_hash = file_hash_text(after);
    let error = match failure {
        Some(e) => Some(e.clone()),
        None => None,
    };
    ActionRecord {
        path: target.draft.path,
        op: target.draft.op,
        before_hash: target.draft.before_hash,
        after_hash,
        started_at_ns: target.draft.started_at_ns,
        finished_at_ns,
        run_id: target.draft.run_id,
        fixer_id: target.draft.fixer_id,
        backup_path: target.draft.backup_path,
        ok: failure.is_none(),
        rename_to: target.draft.rename_to,
        rolled_back: None,
        error,
    }
}

/// `s` without the `c` that end it.
pub open spec fn trim_end_char(s: Seq<char>, c: char) -> Seq<char>
    decreases s.len(),
{
    if s.len() > 0 && s.last() == c {
        trim_end_char(s.drop_last(), c)
    } else {
        s
    }
}

/// The line of a legacy record: a target that was not there before is marked.
pub open spec fn legacy_line_of(json: Seq<char>, existed_before: bool) -> Seq<char> {
    (if existed_before {
        json
    } else {
        trim_end_char(json, '}') + ",\"existed_before\":false}"@
    }) + "\n"@
}

pub fn legacy_line(json: &str, existed_before: bool) -> (r: String)
    ensures
        r@ == legacy_line_of(json@, existed_before),
{
    if existed_before {
        return text2(json, "\n");
    }
    let chars = crate::text::chars_of(json);
    let mut n: usize = chars.len();
    assert(chars@.take(n as int) =~= chars@);
    while n > 0 && chars[n - 1] == '}'
        invariant
            n <= chars@.len(),
            trim_end_char(chars@, '}') == trim_end_char(chars@.take(n as int), '}'),
        decreases n,
    {
        assert(chars@.take(n as int).drop_last() =~= chars@.take(n - 1));
        n -= 1;
    }
    let body = crate::text::text_between(&chars, 0, n);
    assert(body@ =~= chars@.take(n as int));
    text3(body.as_str(), ",\"existed_before\":false}", "\n")
}

} // verus!
