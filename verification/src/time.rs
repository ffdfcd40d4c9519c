//! Points in time as text.

use crate::text::control;
use chrono::DateTime;
use vstd::prelude::*;
use vstd::string::*;

verus! {

/// A time in UTC, written as a `strftime` pattern asks.
pub uninterp spec fn utc_text(seconds: int, nanoseconds: int, pattern: Seq<char>) -> Seq<char>;

/// A time in UTC, written as RFC 3339 asks.
pub uninterp spec fn rfc3339_text(seconds: int, nanoseconds: int) -> Seq<char>;

/// No character is a control character.
pub open spec fn printable(s: Seq<char>) -> bool {
    forall|i: int| 0 <= i < s.len() ==> !control(#[trigger] s[i])
}

/// The patterns that times are written with.
pub open spec fn known_pattern(pattern: Seq<char>) -> bool {
    ||| pattern == "%Y%m%dT%H%M%SZ"@
    ||| pattern == "%Y%m%dT%H%M%S%.6fZ"@
    ||| pattern == "%Y-%m-%d %H:%M:%S UTC"@
    ||| pattern == "%Y-%m-%d"@
    ||| pattern == "%Y-%m-%d %H:%M UTC"@
}

/// `chrono::DateTime::format` on the time `seconds` and `nanoseconds` after the epoch: a
/// function of the time and the pattern alone, named and not spelled out. The patterns give
/// digits, signs, letters, dots, colons and spaces, so no control character and no `/`. A time
/// outside chrono's range gives an empty text.
#[verifier::external_body]
pub(crate) fn format_utc(seconds: i64, nanoseconds: u32, pattern: &str) -> (r: String)
    requires
        known_pattern(pattern@),
    ensures
        r@ == utc_text(seconds as int, nanoseconds as int, pattern@),
        printable(r@),
        !r@.contains('/'),
{
    DateTime::from_timestamp(seconds, nanoseconds).map(|t| t.format(pattern).to_string())
        .unwrap_or_default()
}

/// `chrono::DateTime::to_rfc3339` on the time `seconds` and `nanoseconds` after the epoch: a
/// function of the time alone, named and not spelled out. A time outside chrono's range gives
/// an empty text.
#[verifier::external_body]
pub(crate) fn format_rfc3339(seconds: i64, nanoseconds: u32) -> (r: String)
    ensures
        r@ == rfc3339_text(seconds as int, nanoseconds as int),
{
    DateTime::from_timestamp(seconds, nanoseconds).map(|t| t.to_rfc3339()).unwrap_or_default()
}

} // verus!
