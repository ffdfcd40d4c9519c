//! SHA-256 digests and their text forms.

use crate::numbers::{
    hex, hex_text, lemma_hex_digits, lemma_hex_injective, lemma_hex_len, lower_hex,
};
use sha2::{Digest, Sha256};
use vstd::prelude::*;
use vstd::string::*;

verus! {

broadcast use vstd::string::group_string_axioms;

/// The SHA-256 digest of a byte string.
pub uninterp spec fn sha256(data: Seq<u8>) -> Seq<u8>;

/// `sha2::Sha256::digest`: a function of the bytes alone, named and not spelled out.
/// The digest has 32 bytes.
#[verifier::external_body]
fn sha256_digest(data: &[u8]) -> (r: Vec<u8>)
    ensures
        r@ == sha256(data@),
        r@.len() == 32,
{
    Sha256::digest(data).to_vec()
}

/// The digest in hexadecimal.
pub open spec fn sha256_hex(data: Seq<u8>) -> Seq<char> {
    hex(sha256(data))
}

/// The digest in hexadecimal behind the name of the algorithm.
pub open spec fn sha256_prefixed(data: Seq<u8>) -> Seq<char> {
    "sha256:"@ + sha256_hex(data)
}

pub fn sha256_bytes(data: &[u8]) -> (r: Vec<u8>)
    ensures
        r@ == sha256(data@),
        r@.len() == 32,
{
    sha256_digest(data)
}

pub fn sha256_hex_text(data: &[u8]) -> (r: String)
    ensures
        r@ == sha256_hex(data@),
        r@.len() == 64,
        lower_hex(r@),
{
    let digest = sha256_digest(data);
    proof {
        lemma_hex_len(digest@);
        lemma_hex_digits(digest@);
    }
    hex_text(digest.as_slice())
}

/// The digest of `data` with the `sha256:` prefix of the action records.
pub fn sha256_hex_prefixed(data: &[u8]) -> (r: String)
    ensures
        r@ == sha256_prefixed(data@),
{
    let mut out: String = "sha256:".to_owned();
    let digits = sha256_hex_text(data);
    out.append(digits.as_str());
    out
}

/// Two prefixed digests read the same exactly where the digests are the same.
pub proof fn law_prefixed_digest_is_exact(a: Seq<u8>, b: Seq<u8>)
    ensures
        sha256_prefixed(a) == sha256_prefixed(b) <==> sha256(a) == sha256(b),
{
    if sha256_prefixed(a) == sha256_prefixed(b) {
        let n = "sha256:"@.len() as int;
        assert(sha256_prefixed(a).skip(n) =~= sha256_hex(a));
        assert(sha256_prefixed(b).skip(n) =~= sha256_hex(b));
        lemma_hex_injective(sha256(a), sha256(b));
    }
}

} // verus!
