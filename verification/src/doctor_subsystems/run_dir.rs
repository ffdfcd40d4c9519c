//! The directory of a doctor run: its name, its files and what is written into it.

use crate::digest::{sha256, sha256_bytes};
use crate::error::{internal, BeadsError, ErrorModel};
use crate::numbers::{
    decimal, decimal_text, hex, hex_text, lemma_hex_digits, lemma_hex_injective, lemma_hex_len,
    lower_hex_digit, signed_decimal, signed_decimal_text,
};
use crate::paths::{
    absolute, components, is_under, join_path, joined_path, law_join_adds_a_component,
    law_parent_undoes_join, parent, parent_of, path_with_file_name, plain_name, relative_path,
    relative_to, under, with_file_name,
};
use crate::shell::{quote_for_shell, single_quoted};
use crate::text::{
    first_index, join, lemma_first_index, lemma_is_first_index, lines, lines_of, opt_text,
    same_text, text2, text3, text5, texts, trim, trimmed, without_cr,
};
use crate::time::{format_utc, utc_text};
use vstd::bytes::{spec_u32_to_le_bytes, spec_u64_to_le_bytes, u32_to_le_bytes, u64_to_le_bytes};
use vstd::prelude::*;
use vstd::string::*;
use vstd::utf8::encode_utf8;

verus! {

broadcast use vstd::string::group_string_axioms;

/// The environment variable that puts the runs elsewhere.
pub const ENV_RUNS_DIR: &'static str = "BR_DOCTOR_RUNS_DIR";

/// What Windows answers where a process may not make symbolic links.
pub const WINDOWS_ERROR_PRIVILEGE_NOT_HELD: i32 = 1314;

/// The places of a run.
#[derive(Debug)]
pub struct RunDir {
    pub run_id: String,
    pub repo_root: String,
    pub root: String,
    pub backups: String,
    pub actions_file: String,
    pub report_file: String,
    pub undo_script: String,
    pub latest_link: String,
}

/// What a [`RunDir`] says.
#[verifier::ext_equal]
pub struct RunDirModel {
    pub run_id: Seq<char>,
    pub repo_root: Seq<char>,
    pub root: Seq<char>,
    pub backups: Seq<char>,
    pub actions_file: Seq<char>,
    pub report_file: Seq<char>,
    pub undo_script: Seq<char>,
    pub latest_link: Seq<char>,
}

impl View for RunDir {
    type V = RunDirModel;

    open spec fn view(&self) -> RunDirModel {
        RunDirModel {
            run_id: self.run_id@,
            repo_root: self.repo_root@,
            root: self.root@,
            backups: self.backups@,
            actions_file: self.actions_file@,
            report_file: self.report_file@,
            undo_script: self.undo_script@,
            latest_link: self.latest_link@,
        }
    }
}

/// The directory of the runs.
pub open spec fn runs_root(repo_root: Seq<char>, over: Option<Seq<char>>) -> Seq<char> {
    match over {
        Some(dir) => join_path(dir, "runs"@),
        None => join_path(join_path(repo_root, ".doctor"@), "runs"@),
    }
}

pub fn runs_root_with_override(repo_root: &str, env_override: &Option<String>) -> (r: String)
    ensures
        r@ == runs_root(repo_root@, opt_text(*env_override)),
{
    match env_override {
        Some(dir) => joined_path(dir.as_str(), "runs"),
        None => {
            let doctor = joined_path(repo_root, ".doctor");
            joined_path(doctor.as_str(), "runs")
        },
    }
}

/// What is known of the moment at which a run begins.
#[derive(Debug, Clone, Copy)]
pub struct RunMoment {
    pub seconds: i64,
    pub nanos: i64,
    pub pid: u32,
    pub ordinal: u64,
}

/// The second at which a run begins, as its id shows it.
pub open spec fn run_stamp(moment: RunMoment) -> Seq<char> {
    utc_text(moment.seconds as int, 0, "%Y%m%dT%H%M%SZ"@)
}

/// The bytes that tell a run from any other, by its stamp.
pub open spec fn stamped_material(
    repo_root: Seq<char>,
    stamp: Seq<char>,
    moment: RunMoment,
) -> Seq<u8> {
    encode_utf8(repo_root) + encode_utf8(stamp) + spec_u64_to_le_bytes(moment.nanos as u64)
        + spec_u32_to_le_bytes(moment.pid) + spec_u64_to_le_bytes(moment.ordinal)
}

/// The bytes that tell a run from any other.
pub open spec fn run_material(repo_root: Seq<char>, moment: RunMoment) -> Seq<u8> {
    stamped_material(repo_root, run_stamp(moment), moment)
}

/// A stamp, and the first three bytes of a digest.
pub open spec fn stamped_id(stamp: Seq<char>, digest: Seq<u8>) -> Seq<char> {
    stamp + "__"@ + hex(digest.take(3))
}

/// The id of a run: its second, and the first three bytes of a digest.
pub open spec fn run_id_of(repo_root: Seq<char>, moment: RunMoment) -> Seq<char> {
    stamped_id(run_stamp(moment), sha256(run_material(repo_root, moment)))
}

fn append_all(out: &mut Vec<u8>, bytes: &[u8])
    ensures
        final(out)@ == old(out)@ + bytes@,
{
    let ghost before = out@;
    let mut i: usize = 0;
    while i < bytes.len()
        invariant
            i <= bytes@.len(),
            out@ == before + bytes@.take(i as int),
        decreases bytes@.len() - i,
    {
        out.push(bytes[i]);
        i += 1;
        assert(out@ =~= before + bytes@.take(i as int));
    }
    assert(out@ =~= before + bytes@);
}

/// The bytes that tell a run from any other, by its stamp.
pub fn run_material_bytes(repo_root: &str, stamp: &str, moment: RunMoment) -> (r: Vec<u8>)
    ensures
        r@ == stamped_material(repo_root@, stamp@, moment),
{
    let mut material: Vec<u8> = Vec::new();
    append_all(&mut material, repo_root.as_bytes());
    append_all(&mut material, stamp.as_bytes());
    let nanos = u64_to_le_bytes(moment.nanos as u64);
    append_all(&mut material, nanos.as_slice());
    let pid = u32_to_le_bytes(moment.pid);
    append_all(&mut material, pid.as_slice());
    let ordinal = u64_to_le_bytes(moment.ordinal);
    append_all(&mut material, ordinal.as_slice());
    assert(material@ =~= stamped_material(repo_root@, stamp@, moment));
    material
}

/// The id of a run, from its stamp and the digest of its material.
pub fn run_id_from(stamp: &str, digest: &Vec<u8>) -> (r: String)
    requires
        digest@.len() >= 3,
    ensures
        r@ == stamped_id(stamp@, digest@),
{
    let mut head: Vec<u8> = Vec::new();
    head.push(digest[0]);
    head.push(digest[1]);
    head.push(digest[2]);
    assert(head@ =~= digest@.take(3));
    let short = hex_text(head.as_slice());
    text3(stamp, "__", short.as_str())
}

pub fn generate_run_id(repo_root: &str, moment: RunMoment) -> (r: String)
    ensures
        r@ == run_id_of(repo_root@, moment),
        plain_name(r@),
{
    let stamp = format_utc(moment.seconds, 0, "%Y%m%dT%H%M%SZ");
    let material = run_material_bytes(repo_root, stamp.as_str(), moment);
    let digest = sha256_bytes(material.as_slice());
    let id = run_id_from(stamp.as_str(), &digest);
    proof {
        lemma_stamped_id_is_plain(stamp@, digest@);
    }
    id
}

proof fn lemma_stamped_id_is_plain(stamp: Seq<char>, digest: Seq<u8>)
    requires
        !stamp.contains('/'),
    ensures
        plain_name(stamped_id(stamp, digest)),
{
    reveal_strlit("__");
    reveal_strlit(".");
    let id = stamped_id(stamp, digest);
    let digits = hex(digest.take(3));
    lemma_hex_digits(digest.take(3));
    assert(id.len() >= 2);
    if id.contains('/') {
        let k = choose|k: int| 0 <= k < id.len() && id[k] == '/';
        if k < stamp.len() {
            assert(stamp[k] == '/');
        } else if k >= stamp.len() + 2 {
            assert(lower_hex_digit(digits[k - stamp.len() - 2]));
        }
    }
}

/// Two runs of a repository get one id only where they begin in the same second and the
/// digests of their materials, which differ, begin alike.
pub proof fn law_equal_run_ids_need_equal_digests(
    repo_root: Seq<char>,
    a: RunMoment,
    b: RunMoment,
)
    requires
        sha256(run_material(repo_root, a)).len() == 32,
        sha256(run_material(repo_root, b)).len() == 32,
        run_id_of(repo_root, a) == run_id_of(repo_root, b),
    ensures
        run_stamp(a) == run_stamp(b),
        sha256(run_material(repo_root, a)).take(3) == sha256(run_material(repo_root, b)).take(3),
{
    let (p, q) = (
        sha256(run_material(repo_root, a)).take(3),
        sha256(run_material(repo_root, b)).take(3),
    );
    let (x, y) = (run_id_of(repo_root, a), run_id_of(repo_root, b));
    lemma_hex_len(p);
    lemma_hex_len(q);
    let n = x.len() - 6;
    assert(x.skip(n) =~= hex(p));
    assert(y.skip(n) =~= hex(q));
    lemma_hex_injective(p, q);
    reveal_strlit("__");
    assert(x.take(n - 2) =~= run_stamp(a));
    assert(y.take(n - 2) =~= run_stamp(b));
}

/// Two runs of one process have different material: their ordinals differ.
pub proof fn law_run_material_differs(repo_root: Seq<char>, a: RunMoment, b: RunMoment)
    requires
        a.seconds == b.seconds,
        a.ordinal != b.ordinal,
    ensures
        run_material(repo_root, a) != run_material(repo_root, b),
{
    vstd::bytes::lemma_auto_spec_u64_to_from_le_bytes();
    vstd::bytes::lemma_auto_spec_u32_to_from_le_bytes();
    let (x, y) = (run_material(repo_root, a), run_material(repo_root, b));
    let (p, q) = (spec_u64_to_le_bytes(a.ordinal), spec_u64_to_le_bytes(b.ordinal));
    assert(p.len() == 8 && q.len() == 8);
    if x == y {
        assert(x.skip(x.len() - 8) =~= p);
        assert(y.skip(y.len() - 8) =~= q);
    }
}

/// The line ignores the directory of the doctor.
pub open spec fn ignores_doctor(line: Seq<char>) -> bool {
    trim(line) == ".doctor/"@ || trim(line) == ".doctor"@ || trim(line) == "/.doctor/"@
}

/// Some line ignores the directory of the doctor.
pub open spec fn doctor_ignored(contents: Seq<char>) -> bool {
    exists|i: int| 0 <= i < lines(contents).len() && ignores_doctor(#[trigger] lines(contents)[i])
}

/// The owner of the file has taken away the right to write it.
pub open spec fn owner_locked(mode: Option<u32>) -> bool {
    mode is Some && (mode->0 & 0o200) == 0
}

/// `contents` with the rule added at the end, on a line of its own.
pub open spec fn with_doctor_rule(contents: Seq<char>) -> Seq<char> {
    contents + (if contents.len() > 0 && contents.last() != '\n' {
        "\n"@
    } else {
        ""@
    }) + "# br doctor per-run artifacts\n"@ + ".doctor/"@ + "\n"@
}

/// The new contents of the ignore file, none where it is left alone: it has the rule, or
/// its owner locked it.
pub open spec fn gitignore_update(contents: Seq<char>, mode: Option<u32>) -> Option<Seq<char>> {
    if doctor_ignored(contents) || owner_locked(mode) {
        None
    } else {
        Some(with_doctor_rule(contents))
    }
}

/// The new contents of `.gitignore`, whose contents are `existing` (empty where there is no
/// file) and whose mode is `mode` where it is a regular file.
pub fn ensure_doctor_in_gitignore(existing: &str, mode: Option<u32>) -> (r: Option<String>)
    ensures
        opt_text(r) == gitignore_update(existing@, mode),
{
    let all = lines_of(existing);
    let ghost model = lines(existing@);
    let mut i: usize = 0;
    while i < all.len()
        invariant
            i <= all@.len(),
            texts(all@) == model,
            model == lines(existing@),
            forall|k: int| 0 <= k < i ==> !ignores_doctor(#[trigger] model[k]),
        decreases all@.len() - i,
    {
        assert(model[i as int] == all@[i as int]@);
        let line = trimmed(all[i].as_str());
        if same_text(line.as_str(), ".doctor/") || same_text(line.as_str(), ".doctor") || same_text(
            line.as_str(),
            "/.doctor/",
        ) {
            assert(ignores_doctor(model[i as int]));
            return None;
        }
        i += 1;
    }
    assert(model.len() == all@.len());
    if let Some(bits) = mode {
        if bits & 0o200 == 0 {
            return None;
        }
    }
    let mut out: String = existing.to_owned();
    let n: usize = existing.unicode_len();
    if n > 0 && existing.get_char(n - 1) != '\n' {
        out.append("\n");
    } else {
        out.append("");
    }
    out.append("# br doctor per-run artifacts\n");
    out.append(".doctor/");
    out.append("\n");
    Some(out)
}

proof fn lemma_lines_after_newline(a: Seq<char>, b: Seq<char>)
    requires
        a.len() == 0 || a.last() == '\n',
    ensures
        lines(a + b) == lines(a) + lines(b),
    decreases a.len(),
{
    if a.len() == 0 {
        assert(a + b =~= b);
        assert(lines(a) + lines(b) =~= lines(b));
    } else {
        let at = first_index(a, '\n');
        lemma_first_index(a, '\n');
        assert(at < a.len()) by {
            if at == a.len() {
                assert(a[a.len() - 1] != '\n');
            }
        }
        assert forall|i: int| 0 <= i < at implies (a + b)[i] != '\n' by {
            assert(a[i] != '\n');
        }
        lemma_is_first_index(a + b, '\n', at);
        let rest = a.skip(at + 1);
        assert((a + b).take(at) =~= a.take(at));
        assert((a + b).skip(at + 1) =~= rest + b);
        assert(rest.len() == 0 || rest.last() == '\n') by {
            if rest.len() > 0 {
                assert(rest.last() == a.last());
            }
        }
        lemma_lines_after_newline(rest, b);
        let first = seq![without_cr(a.take(at))];
        assert(lines(a + b) =~= first + lines(rest + b));
        assert(lines(a) =~= first + lines(rest));
        assert(lines(a + b) =~= lines(a) + lines(b));
    }
}

/// Once the rule was added it is found: the ignore file is never changed twice.
pub proof fn law_gitignore_rule_added_once(contents: Seq<char>)
    ensures
        doctor_ignored(with_doctor_rule(contents)),
        forall|mode: Option<u32>| gitignore_update(with_doctor_rule(contents), mode) is None,
{
    reveal_strlit("\n");
    reveal_strlit("");
    reveal_strlit("# br doctor per-run artifacts\n");
    reveal_strlit(".doctor/");
    let body = contents + (if contents.len() > 0 && contents.last() != '\n' {
        "\n"@
    } else {
        ""@
    }) + "# br doctor per-run artifacts\n"@;
    let rule = ".doctor/"@ + "\n"@;
    let whole = with_doctor_rule(contents);
    assert(whole =~= body + rule);
    assert(body.last() == '\n') by {
        assert(body.last() == "# br doctor per-run artifacts\n"@.last());
    }
    lemma_lines_after_newline(body, rule);
    assert(rule.len() == 9 && rule[8] == '\n');
    lemma_is_first_index(rule, '\n', 8);
    assert(rule.take(8) =~= ".doctor/"@);
    assert(rule.skip(9).len() == 0);
    assert(lines(rule.skip(9)) =~= Seq::<Seq<char>>::empty());
    assert(lines(rule) =~= seq![".doctor/"@]);
    assert(trim(".doctor/"@) == ".doctor/"@);
    let at = lines(body).len() as int;
    assert(lines(whole)[at] == ".doctor/"@);
    assert(ignores_doctor(lines(whole)[at]));
}

/// The state of the repository before a run.
#[derive(Debug)]
pub struct RepoState {
    pub exists: bool,
    /// Where the environment puts the runs, if it does.
    pub runs_override: Option<String>,
    /// The contents of `.gitignore`, empty where there is none.
    pub gitignore: String,
    /// The mode of `.gitignore`, where it is a regular file.
    pub gitignore_mode: Option<u32>,
}

/// A run that begins: what becomes of `.gitignore` before anything is made, and the places.
#[derive(Debug)]
pub struct NewRun {
    pub gitignore: Option<String>,
    pub run: RunDir,
    pub latest_target: String,
    pub latest_temporary: String,
}

/// The directory in which the link to the latest run stands.
pub open spec fn latest_dir(runs: Seq<char>) -> Seq<char> {
    match parent(runs) {
        Some(dir) => dir,
        None => runs,
    }
}

/// The places of the run `run_id` below the directory of the runs.
pub open spec fn places(repo_root: Seq<char>, runs: Seq<char>, run_id: Seq<char>) -> RunDirModel {
    let root = join_path(runs, run_id);
    RunDirModel {
        run_id,
        repo_root,
        root,
        backups: join_path(root, "backups"@),
        actions_file: join_path(root, "actions.jsonl"@),
        report_file: join_path(root, "report.json"@),
        undo_script: join_path(root, "undo.sh"@),
        latest_link: join_path(latest_dir(runs), "latest"@),
    }
}

/// What the link to the latest run says: the run, seen from the directory of the link.
pub open spec fn latest_target_of(latest_link: Seq<char>, root: Seq<char>) -> Seq<char> {
    match parent(latest_link) {
        Some(dir) => relative_to(root, dir),
        None => relative_to(root, root),
    }
}

/// The name under which the link is made before it takes its place.
pub open spec fn latest_temporary_of(latest_link: Seq<char>, moment: RunMoment) -> Seq<char> {
    with_file_name(
        latest_link,
        ".latest.doctor-tmp."@ + decimal(moment.pid as nat) + "."@ + signed_decimal(
            moment.nanos as int,
        ),
    )
}

/// The run that begins in a repository, or why none does. A repository whose runs stand
/// elsewhere keeps its `.gitignore`.
pub fn create_run_dir(repo_root: &str, state: &RepoState, moment: RunMoment) -> (r: Result<
    NewRun,
    BeadsError,
>)
    ensures
        match r {
            Err(e) => !state.exists && e.model() == ErrorModel::Internal(
                "doctor: repo_root "@ + repo_root@ + " does not exist"@,
            ),
            Ok(new) => {
                let runs = runs_root(repo_root@, opt_text(state.runs_override));
                &&& state.exists
                &&& new.run@ == places(repo_root@, runs, run_id_of(repo_root@, moment))
                &&& plain_name(new.run@.run_id)
                &&& opt_text(new.gitignore) == if state.runs_override is Some {
                    None
                } else {
                    gitignore_update(state.gitignore@, state.gitignore_mode)
                }
                &&& new.latest_target@ == latest_target_of(new.run@.latest_link, new.run@.root)
                &&& new.latest_temporary@ == latest_temporary_of(new.run@.latest_link, moment)
            },
        },
{
    if !state.exists {
        return Err(internal(text3("doctor: repo_root ", repo_root, " does not exist")));
    }
    let mut gitignore: Option<String> = None;
    if state.runs_override.is_none() {
        gitignore = ensure_doctor_in_gitignore(state.gitignore.as_str(), state.gitignore_mode);
    }
    let runs = runs_root_with_override(repo_root, &state.runs_override);
    let run_id = generate_run_id(repo_root, moment);
    let root = joined_path(runs.as_str(), run_id.as_str());
    let link_dir = match parent_of(runs.as_str()) {
        Some(dir) => dir,
        None => runs,
    };
    let latest_link = joined_path(link_dir.as_str(), "latest");
    let latest_target = match parent_of(latest_link.as_str()) {
        Some(dir) => relative_path(root.as_str(), dir.as_str()),
        None => relative_path(root.as_str(), root.as_str()),
    };
    let pid = decimal_text(moment.pid as u64);
    let nanos = signed_decimal_text(moment.nanos);
    let mut name = text3(".latest.doctor-tmp.", pid.as_str(), ".");
    name.append(nanos.as_str());
    let latest_temporary = path_with_file_name(latest_link.as_str(), name.as_str());
    let run = RunDir {
        run_id,
        repo_root: repo_root.to_owned(),
        backups: joined_path(root.as_str(), "backups"),
        actions_file: joined_path(root.as_str(), "actions.jsonl"),
        report_file: joined_path(root.as_str(), "report.json"),
        undo_script: joined_path(root.as_str(), "undo.sh"),
        root,
        latest_link,
    };
    Ok(NewRun { gitignore, run, latest_target, latest_temporary })
}

/// The paths that a run makes.
pub open spec fn made_by(run: RunDirModel) -> Seq<Seq<char>> {
    seq![run.root, run.backups, run.actions_file, run.report_file, run.undo_script]
}

proof fn lemma_place(root: Seq<char>, name: Seq<char>, older: Seq<char>)
    requires
        plain_name(name),
        !under(root, older),
        components(root).len() == components(older).len(),
    ensures
        !under(join_path(root, name), older),
{
    law_join_adds_a_component(root, name);
    let parts = components(join_path(root, name));
    if under(join_path(root, name), older) {
        let n = components(older).len() as int;
        assert(parts.take(n) =~= components(root));
        assert(components(older) =~= parts.take(n));
        assert(components(root).take(n) =~= components(root));
    }
}

/// A run with another id leaves an older run of the repository alone: nothing that it makes,
/// and not the link to the latest run either, lies in the directory of the older one. The link
/// stands at the same place for both, and says `runs/` and the id of the new run, which from the
/// directory of the link is the directory of the new run.
pub proof fn law_new_run_leaves_older_runs(
    repo_root: Seq<char>,
    over: Option<Seq<char>>,
    older_id: Seq<char>,
    new_id: Seq<char>,
)
    requires
        plain_name(older_id),
        plain_name(new_id),
        older_id != new_id,
    ensures
        ({
            let runs = runs_root(repo_root, over);
            let older = places(repo_root, runs, older_id);
            let new = places(repo_root, runs, new_id);
            let link_dir = parent(new.latest_link);
            let target = latest_target_of(new.latest_link, new.root);
            &&& older.root != new.root
            &&& forall|i: int|
                0 <= i < made_by(new).len() ==> !under(#[trigger] made_by(new)[i], older.root)
            &&& new.latest_link == older.latest_link
            &&& !under(new.latest_link, older.root)
            &&& target == "runs/"@ + new_id
            &&& link_dir is Some
            &&& components(join_path(link_dir->0, target)) == components(new.root)
        }),
{
    let runs = runs_root(repo_root, over);
    let base = match over {
        Some(dir) => dir,
        None => join_path(repo_root, ".doctor"@),
    };
    let older = places(repo_root, runs, older_id);
    let new = places(repo_root, runs, new_id);
    reveal_strlit("runs");
    reveal_strlit("runs/");
    reveal_strlit("/");
    reveal_strlit(".");
    reveal_strlit("latest");
    reveal_strlit("backups");
    reveal_strlit("actions.jsonl");
    reveal_strlit("report.json");
    reveal_strlit("undo.sh");
    assert(runs == join_path(base, "runs"@));
    lemma_plain_literals();
    law_join_adds_a_component(base, "runs"@);
    law_join_adds_a_component(runs, older_id);
    law_join_adds_a_component(runs, new_id);
    let (old_parts, new_parts) = (components(older.root), components(new.root));
    assert(old_parts.last() == older_id && new_parts.last() == new_id);
    assert(!under(new.root, older.root)) by {
        if under(new.root, older.root) {
            assert(new_parts.take(old_parts.len() as int) =~= new_parts);
        }
    }
    lemma_place(new.root, "backups"@, older.root);
    lemma_place(new.root, "actions.jsonl"@, older.root);
    lemma_place(new.root, "report.json"@, older.root);
    lemma_place(new.root, "undo.sh"@, older.root);
    law_parent_undoes_join(base, "runs"@);
    let dir = latest_dir(runs);
    assert(components(dir) == components(base));
    law_join_adds_a_component(dir, "latest"@);
    law_parent_undoes_join(dir, "latest"@);
    let link_dir = parent(new.latest_link)->0;
    assert(components(link_dir) == components(base));
    assert(components(new.latest_link).len() < old_parts.len());
    let rest = seq!["runs"@, new_id];
    assert(new_parts =~= components(base) + rest);
    assert(new_parts.take(components(base).len() as int) =~= components(base));
    assert(under(new.root, link_dir));
    assert(new_parts.skip(components(base).len() as int) =~= rest);
    let target = latest_target_of(new.latest_link, new.root);
    assert(rest.drop_last() =~= seq!["runs"@]);
    assert(join(rest.drop_last(), "/"@) == "runs"@);
    assert(join(rest, "/"@) == "runs"@ + "/"@ + new_id);
    assert("runs"@ + "/"@ =~= "runs/"@);
    assert(target == "runs/"@ + new_id);
    law_join_adds_a_component(link_dir, "runs"@);
    let step = join_path(link_dir, "runs"@);
    law_join_adds_a_component(step, new_id);
    assert(!absolute(new_id)) by {
        if absolute(new_id) {
            assert(new_id.contains(new_id[0]));
        }
    }
    assert(target[0] == 'r');
    assert(join_path(link_dir, target) =~= join_path(step, new_id));
    assert(components(link_dir).push("runs"@).push(new_id) =~= new_parts);
}

proof fn lemma_plain_literals()
    ensures
        plain_name("runs"@),
        plain_name("latest"@),
        plain_name("backups"@),
        plain_name("actions.jsonl"@),
        plain_name("report.json"@),
        plain_name("undo.sh"@),
{
    reveal_strlit(".");
    reveal_strlit("runs");
    reveal_strlit("latest");
    reveal_strlit("backups");
    reveal_strlit("actions.jsonl");
    reveal_strlit("report.json");
    reveal_strlit("undo.sh");
}

/// The error that Windows gives where a process may not make symbolic links.
pub fn is_windows_symlink_privilege_error(raw_os_error: Option<i32>) -> (r: bool)
    ensures
        r == (raw_os_error == Some(WINDOWS_ERROR_PRIVILEGE_NOT_HELD)),
{
    match raw_os_error {
        Some(code) => code == WINDOWS_ERROR_PRIVILEGE_NOT_HELD,
        None => false,
    }
}

/// The value as one word for a shell.
pub fn shell_single_quote(value: &str) -> (r: String)
    ensures
        r@ == single_quoted(value@),
{
    quote_for_shell(value)
}

/// How the undo script finds the repository: from its own place where the run stands in the
/// repository, by name elsewhere.
pub open spec fn repo_root_line(repo_root: Seq<char>, root: Seq<char>) -> Seq<char> {
    if under(root, join_path(join_path(repo_root, ".doctor"@), "runs"@)) {
        "repo_root=\"$(cd \"${run_dir}/../../..\" && pwd)\""@
    } else {
        "repo_root="@ + single_quoted(repo_root)
    }
}

pub fn undo_repo_root_assignment(run: &RunDir) -> (r: String)
    ensures
        r@ == repo_root_line(run@.repo_root, run@.root),
{
    let doctor = joined_path(run.repo_root.as_str(), ".doctor");
    let runs = joined_path(doctor.as_str(), "runs");
    if is_under(run.root.as_str(), runs.as_str()) {
        return "repo_root=\"$(cd \"${run_dir}/../../..\" && pwd)\"".to_owned();
    }
    let quoted = shell_single_quote(run.repo_root.as_str());
    text2("repo_root=", quoted.as_str())
}

/// The undo script up to the id of its run.
pub const UNDO_HEAD: &'static str = r#"#!/usr/bin/env bash
# br doctor undo — pure-bash fallback for run "#;

/// The undo script from the id of its run to the place of the repository.
pub const UNDO_SETUP: &'static str = r#"
#
# Replays {actions_jsonl} in reverse, restoring the verbatim backups
# under {backups_dir}. Requires: bash, jq, cp, mv.
#
# This script is generated by br; do NOT hand-edit unless the live br
# binary is broken.
set -euo pipefail

run_dir="$(cd "$(dirname "$0")" && pwd)"
actions="${run_dir}/actions.jsonl"
backups="${run_dir}/backups"
"#;

/// The undo script from the place of the repository to its last line.
pub const UNDO_BODY: &'static str = r#"

if [[ ! -s "${actions}" ]]; then
  echo "no actions.jsonl entries — nothing to undo" >&2
  exit 0
fi

# Reverse the actions and replay each one.
tac "${actions}" | while read -r line; do
  op=$(jq -r '.op' <<<"${line}")
  rel=$(jq -r '.path' <<<"${line}")
  rename_to=$(jq -r '.rename_to // empty' <<<"${line}")
  case "${op}" in
    write_file|append_file|chmod|symlink_atomic)
      # Restore from backup if one exists.
      backup="${backups}/${rel}"
      target="${repo_root}/${rel}"
      if [[ -e "${backup}" ]]; then
        mkdir -p "$(dirname "${target}")"
        cp -p "${backup}" "${target}"
      fi
      ;;
    rename)
      # Rename op moved <rel> -> <rename_to>; reverse it.
      rename_source="${rename_to}"
      if [[ -n "${rename_source}" && "${rename_source}" != /* ]]; then
        rename_source="${repo_root}/${rename_source}"
      fi
      if [[ -n "${rename_source}" && -e "${rename_source}" ]]; then
        mkdir -p "$(dirname "${repo_root}/${rel}")"
        mv "${rename_source}" "${repo_root}/${rel}"
      fi
      ;;
    db_exec|db_migrate)
      echo "[warn] cannot undo ${op} from bash — re-run br doctor undo" >&2
      ;;
    *)
      echo "[warn] unknown op ${op}; skipping" >&2
      ;;
  esac
done

echo "undo complete for run "#;

/// What ends the undo script.
pub const UNDO_TAIL: &'static str = r#"" >&2
"#;

/// The undo script of a run.
pub open spec fn undo_script_of(run: RunDirModel) -> Seq<char> {
    UNDO_HEAD@ + run.run_id + UNDO_SETUP@ + repo_root_line(run.repo_root, run.root) + UNDO_BODY@
        + run.run_id + UNDO_TAIL@
}

/// The text of the undo script, which restores the backups of a run without this program.
pub fn write_undo_sh(run: &RunDir) -> (r: String)
    ensures
        r@ == undo_script_of(run@),
{
    let assignment = undo_repo_root_assignment(run);
    let mut out = text5(
        UNDO_HEAD,
        run.run_id.as_str(),
        UNDO_SETUP,
        assignment.as_str(),
        UNDO_BODY,
    );
    out.append(run.run_id.as_str());
    out.append(UNDO_TAIL);
    out
}

} // verus!
