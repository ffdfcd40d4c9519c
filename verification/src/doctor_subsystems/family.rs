//! The files of a database family: their names, and what may be moved, kept or restored.

use crate::digest::{sha256, sha256_hex, sha256_hex_text};
use crate::doctor_subsystems::witness::{ComponentModel, RawComponentWitness, RawFamilyWitness};
use crate::error::{
    checked, debug_quoted, debug_text, internal, text_or_error, BeadsError, ErrorModel,
};
use crate::numbers::{decimal, decimal_text, lemma_hex_injective};
use crate::paths::{file_name, file_name_of, join_path, joined_path, parent, parent_of};
use crate::sorting::views;
use crate::text::{chars_of, is_ascii_digit, same_text, text2, text3, texts};
use vstd::prelude::*;
use vstd::string::*;

verus! {

broadcast use vstd::string::group_string_axioms;

/// The suffixes of the family, the main file first.
pub open spec fn family_suffixes() -> Seq<Seq<char>> {
    seq![""@, "-wal"@, "-shm"@, "-journal"@]
}

/// The suffix of file `i` of the family.
pub fn family_suffix(i: usize) -> (r: &'static str)
    requires
        i < 4,
    ensures
        r@ == family_suffixes()[i as int],
{
    if i == 0 {
        ""
    } else if i == 1 {
        "-wal"
    } else if i == 2 {
        "-shm"
    } else {
        "-journal"
    }
}

pub fn family_component_path(db_path: &str, suffix: &str) -> (r: String)
    ensures
        r@ == db_path@ + suffix@,
{
    text2(db_path, suffix)
}

/// Where a copy of the family file with `suffix` stands in `dir`.
pub open spec fn backup_path(
    dir: Seq<char>,
    db_path: Seq<char>,
    suffix: Seq<char>,
) -> Result<Seq<char>, ErrorModel> {
    match file_name(db_path) {
        Some(name) => Ok(join_path(dir, name + suffix)),
        None => Err(ErrorModel::Internal("database path has no file name: "@ + db_path)),
    }
}

pub fn backup_component_path(before_dir: &str, db_path: &str, suffix: &str) -> (r: Result<
    String,
    BeadsError,
>)
    ensures
        text_or_error(r) == backup_path(before_dir@, db_path@, suffix@),
{
    match file_name_of(db_path) {
        Some(name) => {
            let backup_name = text2(name.as_str(), suffix);
            Ok(joined_path(before_dir, backup_name.as_str()))
        },
        None => Err(internal(text2("database path has no file name: ", db_path))),
    }
}

/// What stands at the path of a family file.
#[derive(Debug)]
pub enum Observed {
    Missing,
    Symlink,
    Irregular,
    Regular { length: u64, sha256: String },
}

/// What an [`Observed`] says.
pub enum ObservedModel {
    Missing,
    Symlink,
    Irregular,
    Regular { length: u64, sha256: Seq<char> },
}

impl View for Observed {
    type V = ObservedModel;

    open spec fn view(&self) -> ObservedModel {
        match self {
            Observed::Missing => ObservedModel::Missing,
            Observed::Symlink => ObservedModel::Symlink,
            Observed::Irregular => ObservedModel::Irregular,
            Observed::Regular { length, sha256 } => ObservedModel::Regular {
                length: *length,
                sha256: sha256@,
            },
        }
    }
}

/// What is seen of a regular file with these bytes: their number and their digest.
pub open spec fn file_seen(bytes: Seq<u8>) -> ObservedModel {
    ObservedModel::Regular { length: bytes.len() as u64, sha256: sha256_hex(bytes) }
}

pub fn observed_file(bytes: &Vec<u8>) -> (r: Observed)
    ensures
        r@ == file_seen(bytes@),
{
    Observed::Regular {
        length: bytes.len() as u64,
        sha256: sha256_hex_text(bytes.as_slice()),
    }
}

/// Whether a regular file stands at `path`; anything else there is refused.
pub open spec fn regular_file(seen: ObservedModel, path: Seq<char>) -> Result<bool, ErrorModel> {
    match seen {
        ObservedModel::Missing => Ok(false),
        ObservedModel::Symlink => Err(
            ErrorModel::Internal("refusing schema migration file-family symlink "@ + path),
        ),
        ObservedModel::Irregular => Err(
            ErrorModel::Internal("schema migration family member is not a regular file: "@ + path),
        ),
        ObservedModel::Regular { .. } => Ok(true),
    }
}

/// A truth value, or what the error says.
pub open spec fn bool_or_error(r: Result<bool, BeadsError>) -> Result<bool, ErrorModel> {
    match r {
        Ok(b) => Ok(b),
        Err(e) => Err(e.model()),
    }
}

pub fn secure_file(seen: &Observed, path: &str) -> (r: Result<bool, BeadsError>)
    ensures
        bool_or_error(r) == regular_file(seen@, path@),
{
    match seen {
        Observed::Missing => Ok(false),
        Observed::Symlink => Err(
            internal(text2("refusing schema migration file-family symlink ", path)),
        ),
        Observed::Irregular => Err(
            internal(text2("schema migration family member is not a regular file: ", path)),
        ),
        Observed::Regular { .. } => Ok(true),
    }
}

/// The main file is there and no family file is anything but a regular file.
pub open spec fn family_usable(db_path: Seq<char>, seen: Seq<ObservedModel>) -> Result<
    (),
    ErrorModel,
>
    recommends
        seen.len() == 4,
{
    match regular_file(seen[0], db_path) {
        Err(e) => Err(e),
        Ok(false) => Err(ErrorModel::DatabaseNotFound { path: db_path }),
        Ok(true) => match regular_file(seen[1], db_path + family_suffixes()[1]) {
            Err(e) => Err(e),
            Ok(_) => match regular_file(seen[2], db_path + family_suffixes()[2]) {
                Err(e) => Err(e),
                Ok(_) => match regular_file(seen[3], db_path + family_suffixes()[3]) {
                    Err(e) => Err(e),
                    Ok(_) => Ok(()),
                },
            },
        },
    }
}

pub fn refuse_non_regular_component(db_path: &str, seen: &Vec<Observed>) -> (r: Result<
    (),
    BeadsError,
>)
    requires
        seen@.len() == 4,
    ensures
        checked(r) == family_usable(db_path@, views(seen@)),
{
    assert(views(seen@)[0] == seen@[0]@);
    assert(views(seen@)[1] == seen@[1]@);
    assert(views(seen@)[2] == seen@[2]@);
    assert(views(seen@)[3] == seen@[3]@);
    match secure_file(&seen[0], db_path) {
        Err(e) => return Err(e),
        Ok(false) => return Err(BeadsError::DatabaseNotFound { path: db_path.to_owned() }),
        Ok(true) => {},
    }
    let wal = family_component_path(db_path, family_suffix(1));
    if let Err(e) = secure_file(&seen[1], wal.as_str()) {
        return Err(e);
    }
    let shm = family_component_path(db_path, family_suffix(2));
    if let Err(e) = secure_file(&seen[2], shm.as_str()) {
        return Err(e);
    }
    let journal = family_component_path(db_path, family_suffix(3));
    if let Err(e) = secure_file(&seen[3], journal.as_str()) {
        return Err(e);
    }
    Ok(())
}

/// No family file may be at a path that a new candidate will use.
pub open spec fn absent_family(
    base: Seq<char>,
    seen: Seq<ObservedModel>,
    from: nat,
) -> Result<(), ErrorModel>
    decreases seen.len() - from,
{
    if from >= seen.len() || from >= 4 {
        Ok(())
    } else {
        let path = base + family_suffixes()[from as int];
        match regular_file(seen[from as int], path) {
            Err(e) => Err(e),
            Ok(true) => Err(
                ErrorModel::Internal(
                    "refusing to overwrite retained schema-migration candidate "@ + path,
                ),
            ),
            Ok(false) => absent_family(base, seen, from + 1),
        }
    }
}

pub fn require_absent_family(base_path: &str, seen: &Vec<Observed>) -> (r: Result<(), BeadsError>)
    requires
        seen@.len() == 4,
    ensures
        checked(r) == absent_family(base_path@, views(seen@), 0),
{
    let mut i: usize = 0;
    while i < 4
        invariant
            i <= 4,
            seen@.len() == 4,
            absent_family(base_path@, views(seen@), 0) == absent_family(
                base_path@,
                views(seen@),
                i as nat,
            ),
        decreases 4 - i,
    {
        assert(views(seen@)[i as int] == seen@[i as int]@);
        let path = family_component_path(base_path, family_suffix(i));
        match secure_file(&seen[i], path.as_str()) {
            Err(e) => return Err(e),
            Ok(true) => return Err(
                internal(
                    text2(
                        "refusing to overwrite retained schema-migration candidate ",
                        path.as_str(),
                    ),
                ),
            ),
            Ok(false) => {},
        }
        i += 1;
    }
    Ok(())
}

/// The witness of the family files that were seen.
pub open spec fn component_seen(
    suffix: Seq<char>,
    seen: ObservedModel,
    mode: Option<u32>,
) -> ComponentModel {
    match seen {
        ObservedModel::Regular { length, sha256 } => ComponentModel {
            suffix,
            present: true,
            length: Some(length),
            sha256: Some(sha256),
            unix_mode: mode,
        },
        _ => ComponentModel {
            suffix,
            present: false,
            length: None,
            sha256: None,
            unix_mode: None,
        },
    }
}

/// The witness of one family file, or why it is refused.
pub fn raw_component_witness(
    db_path: &str,
    suffix: &str,
    seen: &Observed,
    unix_mode: Option<u32>,
) -> (r: Result<RawComponentWitness, BeadsError>)
    ensures
        match regular_file(seen@, db_path@ + suffix@) {
            Ok(_) => r is Ok && r->Ok_0@ == component_seen(suffix@, seen@, unix_mode),
            Err(e) => r is Err && r->Err_0.model() == e,
        },
{
    let path = family_component_path(db_path, suffix);
    if let Err(e) = secure_file(seen, path.as_str()) {
        return Err(e);
    }
    match seen {
        Observed::Regular { length, sha256 } => Ok(
            RawComponentWitness {
                suffix: suffix.to_owned(),
                present: true,
                length: Some(*length),
                sha256: Some(sha256.clone()),
                unix_mode,
            },
        ),
        _ => Ok(
            RawComponentWitness {
                suffix: suffix.to_owned(),
                present: false,
                length: None,
                sha256: None,
                unix_mode: None,
            },
        ),
    }
}

/// The first component with `suffix`.
pub open spec fn find_component(family: Seq<ComponentModel>, suffix: Seq<char>) -> Option<
    ComponentModel,
>
    decreases family.len(),
{
    if family.len() == 0 {
        None
    } else if family[0].suffix == suffix {
        Some(family[0])
    } else {
        find_component(family.skip(1), suffix)
    }
}

pub open spec fn missing_suffix_error(suffix: Seq<char>) -> ErrorModel {
    ErrorModel::Internal(
        "schema migration witness omits required family suffix "@ + debug_text(suffix),
    )
}

pub fn component_for_suffix<'a>(family: &'a RawFamilyWitness, suffix: &str) -> (r: Result<
    &'a RawComponentWitness,
    BeadsError,
>)
    ensures
        match find_component(family@, suffix@) {
            Some(c) => r is Ok && r->Ok_0@ == c,
            None => r is Err && r->Err_0.model() == missing_suffix_error(suffix@),
        },
{
    let mut i: usize = 0;
    assert(family@.skip(0) =~= family@);
    while i < family.components.len()
        invariant
            i <= family.components@.len(),
            find_component(family@, suffix@) == find_component(family@.skip(i as int), suffix@),
        decreases family.components@.len() - i,
    {
        assert(family@[i as int] == family.components@[i as int]@);
        if same_text(family.components[i].suffix.as_str(), suffix) {
            return Ok(&family.components[i]);
        }
        assert(family@.skip(i as int).skip(1) =~= family@.skip(i + 1));
        i += 1;
    }
    let shown = debug_quoted(suffix);
    Err(
        internal(
            text2("schema migration witness omits required family suffix ", shown.as_str()),
        ),
    )
}

pub open spec fn ascii_hex(c: char) -> bool {
    '0' <= c <= '9' || 'a' <= c <= 'f' || 'A' <= c <= 'F'
}

/// A digest of 64 hexadecimal digits.
pub open spec fn digest_text(s: Seq<char>) -> bool {
    s.len() == 64 && forall|i: int| 0 <= i < s.len() ==> ascii_hex(#[trigger] s[i])
}

/// A component with the suffix that it must have: a present one with its length and digest,
/// an absent one with nothing.
pub open spec fn valid_component(c: ComponentModel, suffix: Seq<char>) -> bool {
    &&& c.suffix == suffix
    &&& if c.present {
        c.length is Some && c.sha256 is Some && digest_text(c.sha256->0)
    } else {
        c.length is None && c.sha256 is None && c.unix_mode is None
    }
}

/// One valid component for each suffix of the family, in order.
pub open spec fn valid_family(family: Seq<ComponentModel>) -> bool {
    family.len() == 4 && forall|i: int|
        0 <= i < 4 ==> valid_component(#[trigger] family[i], family_suffixes()[i])
}

/// Why a family witness is refused: its size, or its first invalid component.
pub open spec fn family_check(family: Seq<ComponentModel>, from: nat) -> Result<(), ErrorModel>
    decreases 4 - from,
{
    if family.len() != 4 {
        Err(
            ErrorModel::Internal(
                "schema migration raw witness has "@ + decimal(family.len()) + " components, expected "@
                    + "4"@,
            ),
        )
    } else if from >= 4 {
        Ok(())
    } else if valid_component(family[from as int], family_suffixes()[from as int]) {
        family_check(family, from + 1)
    } else {
        Err(
            ErrorModel::Internal(
                "schema migration raw witness has an invalid component for suffix "@ + debug_text(
                    family_suffixes()[from as int],
                ),
            ),
        )
    }
}

/// A family witness passes exactly where it is valid.
pub proof fn law_family_check(family: Seq<ComponentModel>, from: nat)
    requires
        from <= 4,
        family.len() == 4 ==> forall|i: int|
            0 <= i < from ==> valid_component(#[trigger] family[i], family_suffixes()[i]),
    ensures
        family_check(family, from) is Ok <==> valid_family(family),
    decreases 4 - from,
{
    if family.len() == 4 && from < 4 && valid_component(
        family[from as int],
        family_suffixes()[from as int],
    ) {
        law_family_check(family, from + 1);
    }
}

fn is_digest_text(s: &str) -> (r: bool)
    ensures
        r == digest_text(s@),
{
    let chars = chars_of(s);
    if chars.len() != 64 {
        return false;
    }
    let mut i: usize = 0;
    while i < 64
        invariant
            i <= 64,
            chars@ == s@,
            chars@.len() == 64,
            forall|k: int| 0 <= k < i ==> ascii_hex(#[trigger] s@[k]),
        decreases 64 - i,
    {
        let c = chars[i];
        if !(is_ascii_digit(c) || ('a' <= c && c <= 'f') || ('A' <= c && c <= 'F')) {
            assert(!ascii_hex(s@[i as int]));
            return false;
        }
        i += 1;
    }
    true
}

fn is_valid_component(c: &RawComponentWitness, suffix: &str) -> (r: bool)
    ensures
        r == valid_component(c@, suffix@),
{
    if !same_text(c.suffix.as_str(), suffix) {
        return false;
    }
    if c.present {
        match &c.sha256 {
            Some(hash) => c.length.is_some() && is_digest_text(hash.as_str()),
            None => false,
        }
    } else {
        c.length.is_none() && c.sha256.is_none() && c.unix_mode.is_none()
    }
}

pub fn validate_raw_family_witness(family: &RawFamilyWitness) -> (r: Result<(), BeadsError>)
    ensures
        checked(r) == family_check(family@, 0),
        r is Ok <==> valid_family(family@),
{
    proof {
        law_family_check(family@, 0);
    }
    assert(family@.len() == family.components@.len());
    if family.components.len() != 4 {
        let count = decimal_text(family.components.len() as u64);
        let mut out = text3("schema migration raw witness has ", count.as_str(), " components, expected ");
        out.append("4");
        return Err(internal(out));
    }
    let mut i: usize = 0;
    while i < 4
        invariant
            i <= 4,
            family.components@.len() == 4,
            family@.len() == 4,
            check_comes_down_to(family@, i as nat),
        decreases 4 - i,
    {
        assert(family@[i as int] == family.components@[i as int]@);
        let suffix = family_suffix(i);
        if !is_valid_component(&family.components[i], suffix) {
            let shown = debug_quoted(suffix);
            return Err(
                internal(
                    text2(
                        "schema migration raw witness has an invalid component for suffix ",
                        shown.as_str(),
                    ),
                ),
            );
        }
        i += 1;
    }
    Ok(())
}

/// The check from the start comes down to the check from `from`.
spec fn check_comes_down_to(family: Seq<ComponentModel>, from: nat) -> bool {
    family_check(family, 0) == family_check(family, from)
}

/// The components but the shared-memory sidecar, which SQLite rewrites at will.
pub open spec fn stable_components(family: Seq<ComponentModel>) -> Seq<ComponentModel>
    decreases family.len(),
{
    if family.len() == 0 {
        Seq::empty()
    } else if family.last().suffix == "-shm"@ {
        stable_components(family.drop_last())
    } else {
        stable_components(family.drop_last()).push(family.last())
    }
}

fn stable_indices(family: &RawFamilyWitness) -> (r: Vec<usize>)
    ensures
        r@.len() == stable_components(family@).len(),
        forall|k: int|
            0 <= k < r@.len() ==> #[trigger] r@[k] < family.components@.len()
                && family.components@[r@[k] as int]@ == stable_components(family@)[k],
{
    let mut out: Vec<usize> = Vec::new();
    let mut i: usize = 0;
    assert(family@.take(0) =~= Seq::<ComponentModel>::empty());
    while i < family.components.len()
        invariant
            i <= family.components@.len(),
            out@.len() == stable_components(family@.take(i as int)).len(),
            forall|k: int|
                0 <= k < out@.len() ==> #[trigger] out@[k] < family.components@.len()
                    && family.components@[out@[k] as int]@ == stable_components(
                    family@.take(i as int),
                )[k],
        decreases family.components@.len() - i,
    {
        assert(family@.take(i + 1).drop_last() =~= family@.take(i as int));
        assert(family@.take(i + 1).last() == family.components@[i as int]@);
        if !same_text(family.components[i].suffix.as_str(), "-shm") {
            out.push(i);
        }
        i += 1;
    }
    assert(family@.take(family@.len() as int) =~= family@);
    out
}

/// The two families hold the same files, leaving shared memory aside.
pub fn stable_raw_eq(left: &RawFamilyWitness, right: &RawFamilyWitness) -> (r: bool)
    ensures
        r == (stable_components(left@) == stable_components(right@)),
{
    let a = stable_indices(left);
    let b = stable_indices(right);
    if a.len() != b.len() {
        return false;
    }
    let mut i: usize = 0;
    while i < a.len()
        invariant
            i <= a@.len() == b@.len(),
            a@.len() == stable_components(left@).len(),
            b@.len() == stable_components(right@).len(),
            forall|k: int|
                0 <= k < a@.len() ==> #[trigger] a@[k] < left.components@.len()
                    && left.components@[a@[k] as int]@ == stable_components(left@)[k],
            forall|k: int|
                0 <= k < b@.len() ==> #[trigger] b@[k] < right.components@.len()
                    && right.components@[b@[k] as int]@ == stable_components(right@)[k],
            forall|k: int|
                0 <= k < i ==> stable_components(left@)[k] == stable_components(right@)[k],
        decreases a@.len() - i,
    {
        if !left.components[a[i]].same(&right.components[b[i]]) {
            return false;
        }
        i += 1;
    }
    assert(stable_components(left@) =~= stable_components(right@));
    true
}

/// A regular file with the length and the digest of a present component.
pub open spec fn holds_component(seen: ObservedModel, c: ComponentModel) -> bool {
    seen matches ObservedModel::Regular { length, sha256 } && c.present && c.length == Some(length)
        && c.sha256 == Some(sha256)
}

pub open spec fn mismatch_error(path: Seq<char>) -> ErrorModel {
    ErrorModel::Internal("schema migration component does not match its receipt: "@ + path)
}

/// The file at `path` must be the component of the receipt.
pub fn verify_component_bytes(
    path: &str,
    length: u64,
    sha256: &str,
    expected: &RawComponentWitness,
) -> (r: Result<(), BeadsError>)
    ensures
        checked(r) == if holds_component(
            ObservedModel::Regular { length, sha256: sha256@ },
            expected@,
        ) {
            Ok(())
        } else {
            Err(mismatch_error(path@))
        },
{
    let same_hash = match &expected.sha256 {
        Some(hash) => same_text(hash.as_str(), sha256),
        None => false,
    };
    let same_length = match expected.length {
        Some(n) => n == length,
        None => false,
    };
    if !expected.present || !same_length || !same_hash {
        return Err(
            internal(text2("schema migration component does not match its receipt: ", path)),
        );
    }
    Ok(())
}

/// What an undo does with one live file before the old one comes back.
#[derive(Debug, Clone, Copy, PartialEq, Eq, Structural)]
pub enum QuarantineAction {
    /// There is nothing to move, or it was moved already.
    Keep,
    /// The live file goes into quarantine.
    Move,
}

/// What to do with one component of the applied family, whose live file is `source` and
/// whose place in quarantine is `destination`.
pub open spec fn quarantine_action(
    component: ComponentModel,
    source: ObservedModel,
    destination: ObservedModel,
    restored: Seq<ComponentModel>,
    source_path: Seq<char>,
    destination_path: Seq<char>,
) -> Result<QuarantineAction, ErrorModel> {
    let back = find_component(restored, component.suffix);
    if regular_file(source, source_path) is Err {
        Err(regular_file(source, source_path)->Err_0)
    } else if regular_file(destination, destination_path) is Err {
        Err(regular_file(destination, destination_path)->Err_0)
    } else if component.present && destination is Regular {
        if !holds_component(destination, component) {
            Err(mismatch_error(destination_path))
        } else if source is Missing {
            Ok(QuarantineAction::Keep)
        } else if back is None {
            Err(missing_suffix_error(component.suffix))
        } else if !back->0.present {
            Err(
                ErrorModel::Internal(
                    "schema migration undo found both quarantined and unexpected live copies for "@
                        + source_path,
                ),
            )
        } else if holds_component(source, back->0) {
            Ok(QuarantineAction::Keep)
        } else {
            Err(mismatch_error(source_path))
        }
    } else if component.present {
        if source is Missing {
            Err(
                ErrorModel::Internal(
                    "schema migration undo cannot resume because both live and quarantined applied components are missing for "@
                        + source_path,
                ),
            )
        } else if holds_component(source, component) {
            Ok(QuarantineAction::Move)
        } else {
            Err(mismatch_error(source_path))
        }
    } else if destination is Regular {
        Err(
            ErrorModel::Internal(
                "schema migration undo quarantine contains an unexpected component "@
                    + destination_path,
            ),
        )
    } else if source is Missing {
        Ok(QuarantineAction::Keep)
    } else if back is None {
        Err(missing_suffix_error(component.suffix))
    } else if !back->0.present {
        Err(
            ErrorModel::Internal(
                "schema migration undo found an unexpected live component "@ + source_path,
            ),
        )
    } else if holds_component(source, back->0) {
        Ok(QuarantineAction::Keep)
    } else {
        Err(mismatch_error(source_path))
    }
}

/// The action, or what the error says.
pub open spec fn action_or_error(r: Result<QuarantineAction, BeadsError>) -> Result<
    QuarantineAction,
    ErrorModel,
> {
    match r {
        Ok(a) => Ok(a),
        Err(e) => Err(e.model()),
    }
}

fn live_file_may_stay(
    source: &Observed,
    source_path: &str,
    suffix: &str,
    restored: &RawFamilyWitness,
    unexpected: &str,
) -> (r: Result<QuarantineAction, BeadsError>)
    requires
        source@ is Regular,
    ensures
        action_or_error(r) == ({
            let back = find_component(restored@, suffix@);
            if back is None {
                Err(missing_suffix_error(suffix@))
            } else if !back->0.present {
                Err(ErrorModel::Internal(unexpected@ + source_path@))
            } else if holds_component(source@, back->0) {
                Ok(QuarantineAction::Keep)
            } else {
                Err(mismatch_error(source_path@))
            }
        }),
{
    let back = match component_for_suffix(restored, suffix) {
        Ok(c) => c,
        Err(e) => return Err(e),
    };
    if !back.present {
        return Err(internal(text2(unexpected, source_path)));
    }
    if let Observed::Regular { length, sha256 } = source {
        if let Err(e) = verify_component_bytes(source_path, *length, sha256.as_str(), back) {
            return Err(e);
        }
    }
    Ok(QuarantineAction::Keep)
}

/// One step of moving the applied family out of the way, which may have been interrupted.
pub fn quarantine_step(
    component: &RawComponentWitness,
    source: &Observed,
    destination: &Observed,
    restored: &RawFamilyWitness,
    source_path: &str,
    destination_path: &str,
) -> (r: Result<QuarantineAction, BeadsError>)
    ensures
        action_or_error(r) == quarantine_action(
            component@,
            source@,
            destination@,
            restored@,
            source_path@,
            destination_path@,
        ),
{
    let source_there = match secure_file(source, source_path) {
        Ok(b) => b,
        Err(e) => return Err(e),
    };
    let destination_there = match secure_file(destination, destination_path) {
        Ok(b) => b,
        Err(e) => return Err(e),
    };
    let suffix = component.suffix.as_str();
    if component.present {
        if let Observed::Regular { length, sha256 } = destination {
            if let Err(e) = verify_component_bytes(
                destination_path,
                *length,
                sha256.as_str(),
                component,
            ) {
                return Err(e);
            }
            if !source_there {
                return Ok(QuarantineAction::Keep);
            }
            return live_file_may_stay(
                source,
                source_path,
                suffix,
                restored,
                "schema migration undo found both quarantined and unexpected live copies for ",
            );
        }
        if let Observed::Regular { length, sha256 } = source {
            if let Err(e) = verify_component_bytes(
                source_path,
                *length,
                sha256.as_str(),
                component,
            ) {
                return Err(e);
            }
            return Ok(QuarantineAction::Move);
        }
        return Err(
            internal(
                text2(
                    "schema migration undo cannot resume because both live and quarantined applied components are missing for ",
                    source_path,
                ),
            ),
        );
    }
    if destination_there {
        return Err(
            internal(
                text2(
                    "schema migration undo quarantine contains an unexpected component ",
                    destination_path,
                ),
            ),
        );
    }
    if !source_there {
        return Ok(QuarantineAction::Keep);
    }
    live_file_may_stay(
        source,
        source_path,
        suffix,
        restored,
        "schema migration undo found an unexpected live component ",
    )
}

/// What an undo does to bring one old file back.
#[derive(Debug, Clone, Copy, PartialEq, Eq, Structural)]
pub enum RestoreAction {
    /// The file is absent, as it was.
    LeaveAbsent,
    /// The file is there already and gets its old mode.
    SetMode(Option<u32>),
    /// The file is copied from the recovery bundle and gets its old mode.
    Copy(Option<u32>),
}

/// What to do to bring back one component of the family as it was.
pub open spec fn restore_action(
    component: ComponentModel,
    live: ObservedModel,
    live_path: Seq<char>,
) -> Result<RestoreAction, ErrorModel> {
    if regular_file(live, live_path) is Err {
        Err(regular_file(live, live_path)->Err_0)
    } else if !component.present {
        if live is Missing {
            Ok(RestoreAction::LeaveAbsent)
        } else {
            Err(
                ErrorModel::Internal(
                    "schema migration restore found a live component that should be absent: "@
                        + live_path,
                ),
            )
        }
    } else if live is Missing {
        Ok(RestoreAction::Copy(component.unix_mode))
    } else if holds_component(live, component) {
        Ok(RestoreAction::SetMode(component.unix_mode))
    } else {
        Err(mismatch_error(live_path))
    }
}

/// The action, or what the error says.
pub open spec fn restore_or_error(r: Result<RestoreAction, BeadsError>) -> Result<
    RestoreAction,
    ErrorModel,
> {
    match r {
        Ok(a) => Ok(a),
        Err(e) => Err(e.model()),
    }
}

/// One step of bringing the old family back, which may have been interrupted.
pub fn restore_step(component: &RawComponentWitness, live: &Observed, live_path: &str) -> (r: Result<
    RestoreAction,
    BeadsError,
>)
    ensures
        restore_or_error(r) == restore_action(component@, live@, live_path@),
{
    let there = match secure_file(live, live_path) {
        Ok(b) => b,
        Err(e) => return Err(e),
    };
    if !component.present {
        if there {
            return Err(
                internal(
                    text2(
                        "schema migration restore found a live component that should be absent: ",
                        live_path,
                    ),
                ),
            );
        }
        return Ok(RestoreAction::LeaveAbsent);
    }
    if let Observed::Regular { length, sha256 } = live {
        if let Err(e) = verify_component_bytes(live_path, *length, sha256.as_str(), component) {
            return Err(e);
        }
        return Ok(RestoreAction::SetMode(component.unix_mode));
    }
    Ok(RestoreAction::Copy(component.unix_mode))
}

/// The live file after the action was carried out.
pub open spec fn live_after(action: QuarantineAction, source: ObservedModel) -> ObservedModel {
    match action {
        QuarantineAction::Keep => source,
        QuarantineAction::Move => ObservedModel::Missing,
    }
}

/// The file in quarantine after the action was carried out.
pub open spec fn quarantined_after(
    action: QuarantineAction,
    source: ObservedModel,
    destination: ObservedModel,
) -> ObservedModel {
    match action {
        QuarantineAction::Keep => destination,
        QuarantineAction::Move => source,
    }
}

/// A quarantine step that was carried out is not carried out again when the undo resumes,
/// and the applied file is in quarantine.
pub proof fn law_quarantine_resumes(
    component: ComponentModel,
    source: ObservedModel,
    destination: ObservedModel,
    restored: Seq<ComponentModel>,
    source_path: Seq<char>,
    destination_path: Seq<char>,
)
    requires
        quarantine_action(
            component,
            source,
            destination,
            restored,
            source_path,
            destination_path,
        ) is Ok,
    ensures
        ({
            let action = quarantine_action(
                component,
                source,
                destination,
                restored,
                source_path,
                destination_path,
            )->Ok_0;
            let (live, kept) = (
                live_after(action, source),
                quarantined_after(action, source, destination),
            );
            &&& quarantine_action(component, live, kept, restored, source_path, destination_path)
                == Ok::<QuarantineAction, ErrorModel>(QuarantineAction::Keep)
            &&& component.present ==> holds_component(kept, component)
            &&& !component.present ==> kept is Missing
        }),
{
}

/// Where quarantine has succeeded, bringing back the old file succeeds: the live file is
/// gone, or it is the old file already.
pub proof fn law_quarantine_clears_the_way(
    component: ComponentModel,
    source: ObservedModel,
    destination: ObservedModel,
    restored: Seq<ComponentModel>,
    source_path: Seq<char>,
    destination_path: Seq<char>,
)
    requires
        find_component(restored, component.suffix) is Some,
        quarantine_action(
            component,
            source,
            destination,
            restored,
            source_path,
            destination_path,
        ) is Ok,
    ensures
        ({
            let action = quarantine_action(
                component,
                source,
                destination,
                restored,
                source_path,
                destination_path,
            )->Ok_0;
            let back = find_component(restored, component.suffix)->0;
            restore_action(back, live_after(action, source), source_path) is Ok
        }),
{
}

/// The suffixes of the sidecars that are present, in order.
pub open spec fn sidecar_suffixes(family: Seq<ComponentModel>) -> Seq<Seq<char>>
    decreases family.len(),
{
    if family.len() == 0 {
        Seq::empty()
    } else if family.last().present && family.last().suffix.len() > 0 {
        sidecar_suffixes(family.drop_last()).push(family.last().suffix)
    } else {
        sidecar_suffixes(family.drop_last())
    }
}

pub fn present_sidecars(expected: &RawFamilyWitness) -> (r: Vec<String>)
    ensures
        texts(r@) == sidecar_suffixes(expected@),
{
    let mut out: Vec<String> = Vec::new();
    let mut i: usize = 0;
    assert(expected@.take(0) =~= Seq::<ComponentModel>::empty());
    assert(texts(out@) =~= sidecar_suffixes(expected@.take(0)));
    while i < expected.components.len()
        invariant
            i <= expected.components@.len(),
            texts(out@) == sidecar_suffixes(expected@.take(i as int)),
        decreases expected.components@.len() - i,
    {
        assert(expected@.take(i + 1).drop_last() =~= expected@.take(i as int));
        assert(expected@.take(i + 1).last() == expected.components@[i as int]@);
        if expected.components[i].present && !expected.components[i].suffix.as_str().is_empty() {
            let ghost before = texts(out@);
            out.push(expected.components[i].suffix.clone());
            assert(texts(out@) =~= before.push(expected.components@[i as int].suffix@));
        }
        i += 1;
    }
    assert(expected@.take(expected@.len() as int) =~= expected@);
    out
}

/// The permission bits that a file gets: those of the receipt, or private ones.
pub fn restored_mode(restored_unix_mode: Option<u32>) -> (r: u32)
    ensures
        r == (match restored_unix_mode {
            Some(mode) => mode,
            None => 0o600u32,
        }) & 0o7777,
{
    match restored_unix_mode {
        Some(mode) => mode & 0o7777,
        None => 0o600u32 & 0o7777,
    }
}

/// What tells a file from another at the same path.
#[derive(Debug, Clone, Copy, PartialEq, Eq, Structural)]
pub struct FileIdentity {
    pub device: u64,
    pub inode: u64,
    pub length: u64,
}

pub fn same_file_identity(expected: FileIdentity, opened: FileIdentity) -> (r: bool)
    ensures
        r == (expected == opened),
{
    expected == opened
}

/// A file is copied or hashed only where what was opened is what was seen at its path.
pub fn require_same_identity(
    expected: FileIdentity,
    opened: FileIdentity,
    path: &str,
    copying: bool,
) -> (r: Result<(), BeadsError>)
    ensures
        checked(r) == if expected == opened {
            Ok(())
        } else if copying {
            Err(
                ErrorModel::Internal(
                    "schema migration source changed identity before copy: "@ + path@,
                ),
            )
        } else {
            Err(
                ErrorModel::Internal(
                    "schema migration file changed identity while opening "@ + path@,
                ),
            )
        },
        r is Ok <==> expected == opened,
{
    if same_file_identity(expected, opened) {
        return Ok(());
    }
    if copying {
        Err(internal(text2("schema migration source changed identity before copy: ", path)))
    } else {
        Err(internal(text2("schema migration file changed identity while opening ", path)))
    }
}

/// What is seen of a regular file whose bytes were read: their number and their digest. The
/// file that was opened must be the one that was found at the path.
pub fn hash_regular_file(
    expected: FileIdentity,
    opened: FileIdentity,
    bytes: &Vec<u8>,
    path: &str,
) -> (r: Result<Observed, BeadsError>)
    ensures
        match r {
            Ok(seen) => expected == opened && seen@ == file_seen(bytes@),
            Err(e) => expected != opened && e.model() == ErrorModel::Internal(
                "schema migration file changed identity while opening "@ + path@,
            ),
        },
{
    match require_same_identity(expected, opened, path, false) {
        Ok(()) => Ok(observed_file(bytes)),
        Err(e) => Err(e),
    }
}

/// A regular file must stand at the path; `missing` tells what is reported where nothing
/// does.
pub open spec fn file_required(
    seen: ObservedModel,
    path: Seq<char>,
    missing: Seq<char>,
) -> Result<(), ErrorModel> {
    match regular_file(seen, path) {
        Err(e) => Err(e),
        Ok(true) => Ok(()),
        Ok(false) => Err(ErrorModel::Internal(missing + path)),
    }
}

fn require_file(seen: &Observed, path: &str, missing: &str) -> (r: Result<(), BeadsError>)
    ensures
        checked(r) == file_required(seen@, path@, missing@),
{
    match secure_file(seen, path) {
        Err(e) => Err(e),
        Ok(true) => Ok(()),
        Ok(false) => Err(internal(text2(missing, path))),
    }
}

/// What is copied must be a regular file.
pub fn require_copy_source(seen: &Observed, path: &str) -> (r: Result<(), BeadsError>)
    ensures
        checked(r) == file_required(
            seen@,
            path@,
            "schema migration source disappeared before copy: "@,
        ),
{
    require_file(seen, path, "schema migration source disappeared before copy: ")
}

/// The digest of a file that must be there.
pub open spec fn artifact_digest(seen: ObservedModel, path: Seq<char>) -> Result<
    Seq<char>,
    ErrorModel,
> {
    match file_required(seen, path, "schema migration artifact does not exist: "@) {
        Err(e) => Err(e),
        Ok(()) => Ok(seen->Regular_sha256),
    }
}

pub fn file_sha256(seen: &Observed, path: &str) -> (r: Result<String, BeadsError>)
    ensures
        text_or_error(r) == artifact_digest(seen@, path@),
{
    match require_file(seen, path, "schema migration artifact does not exist: ") {
        Err(e) => Err(e),
        Ok(()) => match seen {
            Observed::Regular { sha256, .. } => Ok(sha256.clone()),
            _ => Ok("".to_owned()),
        },
    }
}

/// The witness of a file, and the digest of an artifact, are those of its bytes.
pub proof fn law_witness_is_of_the_bytes(
    suffix: Seq<char>,
    bytes: Seq<u8>,
    mode: Option<u32>,
    path: Seq<char>,
)
    ensures
        component_seen(suffix, file_seen(bytes), mode) == (ComponentModel {
            suffix,
            present: true,
            length: Some(bytes.len() as u64),
            sha256: Some(sha256_hex(bytes)),
            unix_mode: mode,
        }),
        artifact_digest(file_seen(bytes), path) == Ok::<Seq<char>, ErrorModel>(sha256_hex(bytes)),
{
}

/// A file matches a component exactly where the component has the number and the digest of
/// its bytes.
pub proof fn law_component_binds_bytes(component: ComponentModel, bytes: Seq<u8>)
    ensures
        holds_component(file_seen(bytes), component) <==> component.present && component.length
            == Some(bytes.len() as u64) && component.sha256 == Some(sha256_hex(bytes)),
{
}

/// Two files that match one component have equally many bytes with the same digest: they
/// differ at most by a collision of digests.
pub proof fn law_component_tells_files_apart(component: ComponentModel, a: Seq<u8>, b: Seq<u8>)
    requires
        holds_component(file_seen(a), component),
        holds_component(file_seen(b), component),
        a.len() <= u64::MAX,
        b.len() <= u64::MAX,
    ensures
        a.len() == b.len(),
        sha256(a) == sha256(b),
{
    lemma_hex_injective(sha256(a), sha256(b));
}

/// A recovery bundle holds the present components as they were, and no other.
pub open spec fn backup_check(
    component: ComponentModel,
    backup: ObservedModel,
    backup_path: Seq<char>,
) -> Result<(), ErrorModel> {
    if regular_file(backup, backup_path) is Err {
        Err(regular_file(backup, backup_path)->Err_0)
    } else if !component.present {
        if backup is Missing {
            Ok(())
        } else {
            Err(
                ErrorModel::Internal(
                    "unexpected backup exists for absent family member "@ + backup_path,
                ),
            )
        }
    } else if backup is Missing {
        Err(ErrorModel::Internal("required schema migration backup is missing: "@ + backup_path))
    } else if holds_component(backup, component) {
        Ok(())
    } else {
        Err(ErrorModel::Internal("schema migration backup hash mismatch for "@ + backup_path))
    }
}

/// One step of reading a recovery bundle back.
pub fn verify_backup_component(
    component: &RawComponentWitness,
    backup: &Observed,
    backup_path: &str,
) -> (r: Result<(), BeadsError>)
    ensures
        checked(r) == backup_check(component@, backup@, backup_path@),
{
    let there = match secure_file(backup, backup_path) {
        Ok(b) => b,
        Err(e) => return Err(e),
    };
    if !component.present {
        if there {
            return Err(
                internal(
                    text2("unexpected backup exists for absent family member ", backup_path),
                ),
            );
        }
        return Ok(());
    }
    if let Observed::Regular { length, sha256 } = backup {
        return match verify_component_bytes(backup_path, *length, sha256.as_str(), component) {
            Ok(()) => Ok(()),
            Err(_) => Err(
                internal(text2("schema migration backup hash mismatch for ", backup_path)),
            ),
        };
    }
    Err(internal(text2("required schema migration backup is missing: ", backup_path)))
}

/// A bundle that was read back can be restored: where nothing stands in the way, every
/// present component is copied and every absent one stays absent.
pub proof fn law_verified_bundle_can_be_restored(
    component: ComponentModel,
    backup: ObservedModel,
    backup_path: Seq<char>,
    live_path: Seq<char>,
)
    requires
        backup_check(component, backup, backup_path) is Ok,
    ensures
        ({
            let action = restore_action(component, ObservedModel::Missing, live_path);
            &&& component.present ==> action == Ok::<RestoreAction, ErrorModel>(
                RestoreAction::Copy(component.unix_mode),
            ) && holds_component(backup, component)
            &&& !component.present ==> action == Ok::<RestoreAction, ErrorModel>(
                RestoreAction::LeaveAbsent,
            )
        }),
{
}

/// What stands at a path is the component: the file that it tells of, or nothing.
pub open spec fn as_witnessed(seen: ObservedModel, c: ComponentModel) -> bool {
    if c.present {
        holds_component(seen, c)
    } else {
        seen is Missing
    }
}

/// What stands at the live path once a component was brought back from its backup.
pub open spec fn live_restored(
    action: RestoreAction,
    live: ObservedModel,
    backup: ObservedModel,
) -> ObservedModel {
    match action {
        RestoreAction::Copy(_) => backup,
        _ => live,
    }
}

/// An undo brings every file of the family back as it was. Where the live files are those
/// that were witnessed as it began and the bundle was read back, each file goes into quarantine
/// and stays there, no step is refused, and at the live path stands the old file with the old
/// mode, or nothing where there was none.
pub proof fn law_undo_brings_family_back(
    before: Seq<ComponentModel>,
    applied: Seq<ComponentModel>,
    i: int,
    live: ObservedModel,
    backup: ObservedModel,
    live_path: Seq<char>,
    kept_path: Seq<char>,
    backup_path: Seq<char>,
)
    requires
        valid_family(before),
        valid_family(applied),
        0 <= i < 4,
        as_witnessed(live, applied[i]),
        backup_check(before[i], backup, backup_path) is Ok,
    ensures
        ({
            let quarantine = quarantine_action(
                applied[i],
                live,
                ObservedModel::Missing,
                before,
                live_path,
                kept_path,
            );
            let emptied = live_after(quarantine->Ok_0, live);
            let kept = quarantined_after(quarantine->Ok_0, live, ObservedModel::Missing);
            let restore = restore_action(before[i], emptied, live_path);
            &&& quarantine is Ok
            &&& as_witnessed(kept, applied[i])
            &&& restore is Ok
            &&& before[i].present ==> restore->Ok_0 == RestoreAction::Copy(before[i].unix_mode)
            &&& as_witnessed(live_restored(restore->Ok_0, emptied, backup), before[i])
        }),
{
}

/// A receipt is read where it is a regular file of at most 16 MiB.
pub open spec fn receipt_readable(seen: ObservedModel, path: Seq<char>) -> Result<(), ErrorModel> {
    match file_required(seen, path, "schema migration receipt does not exist: "@) {
        Err(e) => Err(e),
        Ok(()) => if seen->Regular_length <= 16777216 {
            Ok(())
        } else {
            Err(ErrorModel::Internal("schema migration receipt exceeds 16 MiB: "@ + path))
        },
    }
}

pub fn require_receipt(seen: &Observed, path: &str) -> (r: Result<(), BeadsError>)
    ensures
        checked(r) == receipt_readable(seen@, path@),
{
    match require_file(seen, path, "schema migration receipt does not exist: ") {
        Err(e) => return Err(e),
        Ok(()) => {},
    }
    if let Observed::Regular { length, .. } = seen {
        if *length > 16777216 {
            return Err(internal(text2("schema migration receipt exceeds 16 MiB: ", path)));
        }
    }
    Ok(())
}

/// What stands where a directory is wanted.
#[derive(Debug, Clone, Copy, PartialEq, Eq, Structural)]
pub enum DirectoryEntry {
    Missing,
    Directory,
    Other,
}

/// Whether the directory must be made; anything else in its place is refused.
pub fn directory_needed(entry: DirectoryEntry, path: &str) -> (r: Result<bool, BeadsError>)
    ensures
        bool_or_error(r) == match entry {
            DirectoryEntry::Missing => Ok(true),
            DirectoryEntry::Directory => Ok(false),
            DirectoryEntry::Other => Err(
                ErrorModel::Internal(
                    "schema migration artifact path is not a real directory: "@ + path@,
                ),
            ),
        },
        r is Err <==> entry == DirectoryEntry::Other,
{
    match entry {
        DirectoryEntry::Missing => Ok(true),
        DirectoryEntry::Directory => Ok(false),
        DirectoryEntry::Other => Err(
            internal(text2("schema migration artifact path is not a real directory: ", path)),
        ),
    }
}

/// The directory that an artifact directory is made in.
pub fn parent_directory(path: &str, fresh: bool) -> (r: Result<String, BeadsError>)
    ensures
        text_or_error(r) == match parent(path@) {
            Some(dir) => Ok(dir),
            None => Err(
                ErrorModel::Internal(
                    (if fresh {
                        "schema migration directory has no parent: "@
                    } else {
                        "schema migration artifact directory has no parent: "@
                    }) + path@,
                ),
            ),
        },
{
    match parent_of(path) {
        Some(dir) => Ok(dir),
        None => {
            let lead = if fresh {
                "schema migration directory has no parent: "
            } else {
                "schema migration artifact directory has no parent: "
            };
            Err(internal(text2(lead, path)))
        },
    }
}

/// A directory that somebody else made meanwhile serves as well; nothing else does.
pub fn raced_directory(entry: DirectoryEntry, path: &str) -> (r: Result<(), BeadsError>)
    ensures
        checked(r) == match entry {
            DirectoryEntry::Directory => Ok(()),
            _ => Err(
                ErrorModel::Internal(
                    "schema migration artifact path raced to a non-directory: "@ + path@,
                ),
            ),
        },
        r is Ok <==> entry == DirectoryEntry::Directory,
{
    match entry {
        DirectoryEntry::Directory => Ok(()),
        _ => Err(
            internal(text2("schema migration artifact path raced to a non-directory: ", path)),
        ),
    }
}

} // verus!
