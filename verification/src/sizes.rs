//! Sizes of files as text.

use crate::numbers::{decimal, decimal_text, wide_decimal_text};
use crate::text::{text2, text5};
use vstd::prelude::*;
use vstd::string::*;

verus! {

broadcast use vstd::string::group_string_axioms;

/// `n / d`, rounded to the nearest integer, and to the even one of two that are as near.
pub open spec fn rounded_div(n: nat, d: nat) -> nat {
    let q = n / d;
    let r = n % d;
    if 2 * r > d || (2 * r == d && q % 2 == 1) {
        q + 1
    } else {
        q
    }
}

fn round_div(n: u128, d: u128) -> (r: u128)
    requires
        0 < d <= 0x4000_0000,
        n <= 0x1_0000_0000_0000_0000_0000,
    ensures
        r == rounded_div(n as nat, d as nat),
        r <= n + 1,
{
    let q: u128 = n / d;
    let rest: u128 = n % d;
    proof {
        assert(q <= n) by (nonlinear_arith)
            requires
                q == n / d,
                d > 0,
        ;
    }
    if 2 * rest > d || (2 * rest == d && q % 2 == 1) {
        q + 1
    } else {
        q
    }
}

/// The distance of the numbers of 53 significant bits around `n`.
pub open spec fn spacing(n: nat) -> nat
    decreases n,
{
    if n < 0x20_0000_0000_0000 {
        1
    } else {
        2 * spacing(n / 2)
    }
}

/// The number of 53 significant bits that is nearest to `n`.
pub open spec fn nearest_double(n: nat) -> nat {
    rounded_div(n, spacing(n)) * spacing(n)
}

fn find_spacing(n: u64) -> (r: u64)
    ensures
        r == spacing(n as nat),
        0 < r <= 2048,
    decreases n,
{
    if n < 0x20_0000_0000_0000 {
        1
    } else {
        let half = find_spacing(n / 2);
        proof {
            vstd::arithmetic::power2::lemma2_to64();
            lemma_spacing(n as nat / 2, 10);
        }
        2 * half
    }
}

proof fn lemma_spacing(n: nat, k: nat)
    requires
        n < 0x20_0000_0000_0000 * vstd::arithmetic::power2::pow2(k),
    ensures
        spacing(n) <= vstd::arithmetic::power2::pow2(k),
    decreases k,
{
    vstd::arithmetic::power2::lemma2_to64();
    if n >= 0x20_0000_0000_0000 {
        if k == 0 {
        } else {
            vstd::arithmetic::power2::lemma_pow2_unfold(k);
            lemma_spacing(n / 2, (k - 1) as nat);
        }
    } else {
        vstd::arithmetic::power2::lemma_pow2_pos(k);
    }
}

/// How many tenths of a unit a size has, rounded.
pub open spec fn tenths(bytes: nat, unit: nat) -> nat {
    rounded_div(nearest_double(bytes) * 10, unit)
}

/// A size in a unit, with one decimal place.
pub open spec fn in_unit(bytes: nat, unit: nat, name: Seq<char>) -> Seq<char> {
    decimal(tenths(bytes, unit) / 10) + "."@ + decimal(tenths(bytes, unit) % 10) + " "@ + name
}

/// A size in the largest unit that it fills.
pub open spec fn size_text(bytes: u64) -> Seq<char> {
    if bytes >= 0x4000_0000 {
        in_unit(bytes as nat, 0x4000_0000, "GB"@)
    } else if bytes >= 0x10_0000 {
        in_unit(bytes as nat, 0x10_0000, "MB"@)
    } else if bytes >= 0x400 {
        in_unit(bytes as nat, 0x400, "KB"@)
    } else {
        decimal(bytes as nat) + " B"@
    }
}

fn unit_text(bytes: u64, unit: u64, name: &str) -> (r: String)
    requires
        0 < unit <= 0x4000_0000,
    ensures
        r@ == in_unit(bytes as nat, unit as nat, name@),
{
    let gap = find_spacing(bytes);
    let steps = round_div(bytes as u128, gap as u128);
    proof {
        assert(steps * gap <= 0x1_0000_0000_0000_0001 * 2048) by (nonlinear_arith)
            requires
                steps <= 0x1_0000_0000_0000_0000,
                0 < gap <= 2048,
        ;
    }
    let exact: u128 = steps * (gap as u128);
    let count = round_div(exact * 10, unit as u128);
    let whole = wide_decimal_text(count / 10);
    let part = wide_decimal_text(count % 10);
    text5(whole.as_str(), ".", part.as_str(), " ", name)
}

/// A size as people read it.
pub fn format_bytes(bytes: u64) -> (r: String)
    ensures
        r@ == size_text(bytes),
{
    if bytes >= 0x4000_0000 {
        unit_text(bytes, 0x4000_0000, "GB")
    } else if bytes >= 0x10_0000 {
        unit_text(bytes, 0x10_0000, "MB")
    } else if bytes >= 0x400 {
        unit_text(bytes, 0x400, "KB")
    } else {
        let count = decimal_text(bytes);
        text2(count.as_str(), " B")
    }
}

/// A size in the largest unit that it fills, up to megabytes.
pub open spec fn short_size_text(bytes: u64) -> Seq<char> {
    if bytes >= 0x10_0000 {
        in_unit(bytes as nat, 0x10_0000, "MB"@)
    } else if bytes >= 0x400 {
        in_unit(bytes as nat, 0x400, "KB"@)
    } else {
        decimal(bytes as nat) + " B"@
    }
}

/// A size as the list of backups shows it.
pub fn format_size(bytes: u64) -> (r: String)
    ensures
        r@ == short_size_text(bytes),
{
    if bytes >= 0x10_0000 {
        unit_text(bytes, 0x10_0000, "MB")
    } else if bytes >= 0x400 {
        unit_text(bytes, 0x400, "KB")
    } else {
        let count = decimal_text(bytes);
        text2(count.as_str(), " B")
    }
}

/// A size that is a whole number of units is shown as that number.
pub proof fn law_whole_units_are_exact(k: nat, unit: nat, name: Seq<char>)
    requires
        unit > 0,
        k * unit < 0x20_0000_0000_0000,
    ensures
        in_unit(k * unit, unit, name) == decimal(k) + "."@ + decimal(0) + " "@ + name,
{
    let n = k * unit;
    assert(nearest_double(n) == n) by {
        assert(spacing(n) == 1);
        assert(n / 1 == n && n % 1 == 0);
        assert(rounded_div(n, 1) == n);
        assert(n * 1 == n);
    }
    assert(n * 10 == (k * 10) * unit) by (nonlinear_arith)
        requires
            n == k * unit,
    ;
    vstd::arithmetic::div_mod::lemma_div_multiples_vanish((k * 10) as int, unit as int);
    vstd::arithmetic::div_mod::lemma_mod_multiples_basic((k * 10) as int, unit as int);
    assert(unit * (k * 10) == (k * 10) * unit) by (nonlinear_arith);
    assert(tenths(n, unit) == k * 10);
}

} // verus!
