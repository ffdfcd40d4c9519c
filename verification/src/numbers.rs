//! Numbers as text.

use vstd::prelude::*;
use vstd::string::*;

verus! {

broadcast use vstd::string::group_string_axioms;

/// The digit of `d`, which is below ten.
pub open spec fn digit(d: int) -> char {
    ('0' as int + d) as char
}

/// The decimal digits of `n`, without leading zeros.
pub open spec fn decimal(n: nat) -> Seq<char>
    decreases n,
{
    if n < 10 {
        seq![digit(n as int)]
    } else {
        decimal(n / 10).push(digit((n % 10) as int))
    }
}

/// The decimal digits of `n`, with a minus sign in front of a negative number.
pub open spec fn signed_decimal(n: int) -> Seq<char> {
    if n < 0 {
        seq!['-'] + decimal((-n) as nat)
    } else {
        decimal(n as nat)
    }
}

fn digit_char(d: u8) -> (c: char)
    requires
        d < 10,
    ensures
        c == digit(d as int),
{
    (48u8 + d) as char
}

pub fn decimal_text(n: u64) -> (r: String)
    ensures
        r@ == decimal(n as nat),
    decreases n,
{
    if n < 10 {
        let mut out: String = String::new();
        out.push(digit_char(n as u8));
        assert(out@ =~= decimal(n as nat));
        out
    } else {
        let mut out: String = decimal_text(n / 10);
        out.push(digit_char((n % 10) as u8));
        out
    }
}

pub fn wide_decimal_text(n: u128) -> (r: String)
    ensures
        r@ == decimal(n as nat),
    decreases n,
{
    if n < 10 {
        let mut out: String = String::new();
        out.push(digit_char(n as u8));
        assert(out@ =~= decimal(n as nat));
        out
    } else {
        let mut out: String = wide_decimal_text(n / 10);
        out.push(digit_char((n % 10) as u8));
        out
    }
}

pub fn signed_decimal_text(n: i64) -> (r: String)
    ensures
        r@ == signed_decimal(n as int),
{
    if n < 0 {
        let magnitude: u64 = (-(n + 1)) as u64 + 1;
        let mut out: String = String::new();
        out.push('-');
        let digits = decimal_text(magnitude);
        out.append(digits.as_str());
        assert(out@ =~= signed_decimal(n as int));
        out
    } else {
        decimal_text(n as u64)
    }
}

/// `n` zeros.
pub open spec fn zeros(n: nat) -> Seq<char> {
    Seq::new(n, |i: int| '0')
}

/// The decimal digits of `n`, filled up with zeros to `width` characters.
pub open spec fn padded_decimal(n: nat, width: nat) -> Seq<char> {
    let digits = decimal(n);
    if digits.len() < width {
        zeros((width - digits.len()) as nat) + digits
    } else {
        digits
    }
}

pub fn padded_decimal_text(n: u128, width: usize) -> (r: String)
    ensures
        r@ == padded_decimal(n as nat, width as nat),
{
    let digits = wide_decimal_text(n);
    let len: usize = digits.as_str().unicode_len();
    let mut out: String = String::new();
    let mut i: usize = len;
    while i < width
        invariant
            len <= i,
            len < width ==> i <= width,
            len >= width ==> i == len,
            out@ == zeros((i - len) as nat),
        decreases width - i,
    {
        out.push('0');
        i += 1;
        assert(out@ =~= zeros((i - len) as nat));
    }
    out.append(digits.as_str());
    assert(out@ =~= padded_decimal(n as nat, width as nat));
    out
}

/// The value of a text of digits.
spec fn digits_value(s: Seq<char>) -> int
    decreases s.len(),
{
    if s.len() == 0 {
        0
    } else {
        digits_value(s.drop_last()) * 10 + (s.last() as int - '0' as int)
    }
}

proof fn lemma_decimal_value(n: nat)
    ensures
        digits_value(decimal(n)) == n,
    decreases n,
{
    assert(digit((n % 10) as int) as int == '0' as int + n % 10);
    if n < 10 {
        assert(decimal(n).drop_last() =~= Seq::<char>::empty());
        assert(decimal(n).last() == digit((n % 10) as int));
        assert(digits_value(decimal(n).drop_last()) == 0);
    } else {
        lemma_decimal_value(n / 10);
        assert(decimal(n).drop_last() =~= decimal(n / 10));
        assert(decimal(n).last() == digit((n % 10) as int));
    }
}

proof fn lemma_padded_value(n: nat, zero_count: nat)
    ensures
        digits_value(zeros(zero_count) + decimal(n)) == n,
    decreases n,
{
    let s = zeros(zero_count) + decimal(n);
    lemma_decimal_len(n);
    assert(digit((n % 10) as int) as int == '0' as int + n % 10);
    assert(s.last() == decimal(n).last());
    if n < 10 {
        assert(decimal(n) == seq![digit(n as int)]);
        assert(s.drop_last() =~= zeros(zero_count));
        lemma_zeros_value(zero_count);
    } else {
        assert(decimal(n).drop_last() =~= decimal(n / 10));
        assert(s.drop_last() =~= zeros(zero_count) + decimal(n / 10));
        lemma_padded_value(n / 10, zero_count);
    }
}

proof fn lemma_zeros_value(n: nat)
    ensures
        digits_value(zeros(n)) == 0,
    decreases n,
{
    if n > 0 {
        assert(zeros(n).drop_last() =~= zeros((n - 1) as nat));
        lemma_zeros_value((n - 1) as nat);
    }
}

/// Two numbers with the same padded digits are equal.
pub proof fn lemma_padded_injective(a: nat, b: nat, width: nat)
    requires
        padded_decimal(a, width) == padded_decimal(b, width),
    ensures
        a == b,
{
    let pad = |n: nat|
        if decimal(n).len() < width {
            (width - decimal(n).len()) as nat
        } else {
            0nat
        };
    assert(padded_decimal(a, width) =~= zeros(pad(a)) + decimal(a));
    assert(padded_decimal(b, width) =~= zeros(pad(b)) + decimal(b));
    lemma_padded_value(a, pad(a));
    lemma_padded_value(b, pad(b));
}

/// Two numbers with the same digits are equal.
pub proof fn lemma_decimal_injective(a: nat, b: nat)
    requires
        decimal(a) == decimal(b),
    ensures
        a == b,
    decreases a,
{
    lemma_decimal_len(a);
    lemma_decimal_len(b);
    assert(decimal(a).last() == digit((a % 10) as int));
    assert(decimal(b).last() == digit((b % 10) as int));
    assert(digit((a % 10) as int) as int == '0' as int + a % 10);
    assert(digit((b % 10) as int) as int == '0' as int + b % 10);
    if a < 10 {
        if b >= 10 {
            lemma_decimal_len(b / 10);
            assert(decimal(b).len() == decimal(b / 10).len() + 1);
        }
    } else if b < 10 {
        lemma_decimal_len(a / 10);
        assert(decimal(a).len() == decimal(a / 10).len() + 1);
    } else {
        assert(decimal(a).drop_last() =~= decimal(a / 10));
        assert(decimal(b).drop_last() =~= decimal(b / 10));
        lemma_decimal_injective(a / 10, b / 10);
    }
}

/// A number has a digit, and only digits.
pub proof fn lemma_decimal_len(n: nat)
    ensures
        decimal(n).len() > 0,
        forall|i: int| 0 <= i < decimal(n).len() ==> '0' <= #[trigger] decimal(n)[i] <= '9',
    decreases n,
{
    if n >= 10 {
        lemma_decimal_len(n / 10);
    }
}

/// The lower-case hexadecimal digit of `d`, which is below sixteen.
pub open spec fn hex_digit(d: int) -> char {
    if d < 10 {
        ('0' as int + d) as char
    } else {
        ('a' as int + (d - 10)) as char
    }
}

/// Two lower-case hexadecimal digits for each byte.
pub open spec fn hex(bytes: Seq<u8>) -> Seq<char>
    decreases bytes.len(),
{
    if bytes.len() == 0 {
        Seq::empty()
    } else {
        hex(bytes.drop_last()).push(hex_digit(bytes.last() as int / 16)).push(
            hex_digit(bytes.last() as int % 16),
        )
    }
}

pub fn hex_char(d: u8) -> (c: char)
    requires
        d < 16,
    ensures
        c == hex_digit(d as int),
{
    if d < 10 {
        (48u8 + d) as char
    } else {
        (97u8 + (d - 10)) as char
    }
}

pub fn hex_text(bytes: &[u8]) -> (r: String)
    ensures
        r@ == hex(bytes@),
{
    let mut out: String = String::new();
    let mut i: usize = 0;
    while i < bytes.len()
        invariant
            i <= bytes@.len(),
            out@ == hex(bytes@.take(i as int)),
        decreases bytes@.len() - i,
    {
        assert(bytes@.take(i + 1).drop_last() =~= bytes@.take(i as int));
        out.push(hex_char(bytes[i] / 16));
        out.push(hex_char(bytes[i] % 16));
        i += 1;
    }
    assert(bytes@.take(bytes@.len() as int) =~= bytes@);
    out
}

/// A digit, or one of the letters from `a` to `f`.
pub open spec fn lower_hex_digit(c: char) -> bool {
    '0' <= c <= '9' || 'a' <= c <= 'f'
}

/// Bytes are written with nothing but hexadecimal digits.
pub proof fn lemma_hex_digits(a: Seq<u8>)
    ensures
        forall|i: int| 0 <= i < hex(a).len() ==> lower_hex_digit(#[trigger] hex(a)[i]),
    decreases a.len(),
{
    if a.len() > 0 {
        let head = hex(a.drop_last());
        lemma_hex_digits(a.drop_last());
        assert forall|i: int| 0 <= i < hex(a).len() implies lower_hex_digit(
            #[trigger] hex(a)[i],
        ) by {
            if i < head.len() {
                assert(hex(a)[i] == head[i]);
            }
        }
    }
}

/// A text of nothing but hexadecimal digits.
pub open spec fn lower_hex(s: Seq<char>) -> bool {
    forall|i: int| 0 <= i < s.len() ==> lower_hex_digit(#[trigger] s[i])
}

/// The hexadecimal digits say which bytes they stand for.
pub proof fn lemma_hex_injective(a: Seq<u8>, b: Seq<u8>)
    requires
        hex(a) == hex(b),
    ensures
        a == b,
    decreases a.len(),
{
    lemma_hex_len(a);
    lemma_hex_len(b);
    if a.len() > 0 {
        let (x, y) = (a.last(), b.last());
        let n = hex(a).len() as int;
        assert(hex(a)[n - 1] == hex_digit(x as int % 16));
        assert(hex(b)[n - 1] == hex_digit(y as int % 16));
        assert(hex(a)[n - 2] == hex_digit(x as int / 16));
        assert(hex(b)[n - 2] == hex_digit(y as int / 16));
        assert(x == y);
        assert(hex(a).take(n - 2) =~= hex(a.drop_last()));
        assert(hex(b).take(n - 2) =~= hex(b.drop_last()));
        lemma_hex_injective(a.drop_last(), b.drop_last());
        assert(a =~= a.drop_last().push(x));
        assert(b =~= b.drop_last().push(y));
    } else {
        assert(a =~= b);
    }
}

/// Two digits for each byte.
pub proof fn lemma_hex_len(a: Seq<u8>)
    ensures
        hex(a).len() == 2 * a.len(),
    decreases a.len(),
{
    if a.len() > 0 {
        lemma_hex_len(a.drop_last());
    }
}

/// The character of base64 that stands for six bits.
pub open spec fn base64_digit(d: int) -> char {
    if d < 26 {
        ('A' as int + d) as char
    } else if d < 52 {
        ('a' as int + (d - 26)) as char
    } else if d < 62 {
        ('0' as int + (d - 52)) as char
    } else if d == 62 {
        '+'
    } else {
        '/'
    }
}

/// The byte at a position, 0 behind the end.
pub open spec fn byte_at(bytes: Seq<u8>, i: int) -> int {
    if 0 <= i < bytes.len() {
        bytes[i] as int
    } else {
        0
    }
}

/// The four characters of base64 for the first three bytes; `=` stands where there are fewer.
pub open spec fn base64_group(bytes: Seq<u8>) -> Seq<char> {
    let (a, b, c) = (byte_at(bytes, 0), byte_at(bytes, 1), byte_at(bytes, 2));
    seq![
        base64_digit(a / 4),
        base64_digit(a % 4 * 16 + b / 16),
        if bytes.len() > 1 {
            base64_digit(b % 16 * 4 + c / 64)
        } else {
            '='
        },
        if bytes.len() > 2 {
            base64_digit(c % 64)
        } else {
            '='
        },
    ]
}

/// Bytes in base64, padded with `=`.
pub open spec fn base64(bytes: Seq<u8>) -> Seq<char>
    decreases bytes.len(),
{
    if bytes.len() == 0 {
        Seq::empty()
    } else if bytes.len() <= 3 {
        base64_group(bytes)
    } else {
        base64_group(bytes) + base64(bytes.skip(3))
    }
}

fn base64_char(d: u8) -> (c: char)
    requires
        d < 64,
    ensures
        c == base64_digit(d as int),
{
    if d < 26 {
        (65u8 + d) as char
    } else if d < 52 {
        (97u8 + (d - 26)) as char
    } else if d < 62 {
        (48u8 + (d - 52)) as char
    } else if d == 62 {
        '+'
    } else {
        '/'
    }
}

pub fn base64_text(bytes: &[u8]) -> (r: String)
    ensures
        r@ == base64(bytes@),
{
    let mut out: String = String::new();
    let mut i: usize = 0;
    let len: usize = bytes.len();
    assert(bytes@.skip(0) =~= bytes@);
    while i < len
        invariant
            i <= len,
            len == bytes@.len(),
            base64(bytes@) == out@ + base64(bytes@.skip(i as int)),
        decreases len - i,
    {
        let ghost rest = bytes@.skip(i as int);
        let ghost before = out@;
        let left: usize = len - i;
        let a: u8 = bytes[i];
        let b: u8 = if left > 1 {
            bytes[i + 1]
        } else {
            0
        };
        let c: u8 = if left > 2 {
            bytes[i + 2]
        } else {
            0
        };
        out.push(base64_char(a / 4));
        out.push(base64_char(a % 4 * 16 + b / 16));
        out.push(
            if left > 1 {
                base64_char(b % 16 * 4 + c / 64)
            } else {
                '='
            },
        );
        out.push(
            if left > 2 {
                base64_char(c % 64)
            } else {
                '='
            },
        );
        assert(out@ =~= before + base64_group(rest));
        if left > 3 {
            assert(rest.skip(3) =~= bytes@.skip(i + 3));
            assert(before + (base64_group(rest) + base64(rest.skip(3))) =~= out@ + base64(
                rest.skip(3),
            ));
            i += 3;
        } else {
            i = len;
            assert(bytes@.skip(len as int) =~= Seq::<u8>::empty());
            assert(out@ + base64(Seq::<u8>::empty()) =~= out@);
        }
    }
    assert(bytes@.skip(len as int) =~= Seq::<u8>::empty());
    assert(out@ + base64(Seq::<u8>::empty()) =~= out@);
    out
}

proof fn lemma_base64_group(a: Seq<u8>, b: Seq<u8>)
    requires
        a.len() > 0,
        b.len() > 0,
        base64_group(a) == base64_group(b),
    ensures
        a.len() <= 2 || b.len() <= 2 ==> a.len() == b.len(),
        forall|i: int| 0 <= i < 3 && i < a.len() && i < b.len() ==> a[i] == b[i],
{
    let (x, y) = (base64_group(a), base64_group(b));
    assert(x[0] == y[0] && x[1] == y[1] && x[2] == y[2] && x[3] == y[3]);
    let (a0, a1, a2) = (byte_at(a, 0), byte_at(a, 1), byte_at(a, 2));
    let (b0, b1, b2) = (byte_at(b, 0), byte_at(b, 1), byte_at(b, 2));
    assert(a0 / 4 == b0 / 4);
    assert(a0 % 4 * 16 + a1 / 16 == b0 % 4 * 16 + b1 / 16);
    assert(a0 == b0);
    if a.len() > 1 && b.len() > 1 {
        assert(a1 % 16 * 4 + a2 / 64 == b1 % 16 * 4 + b2 / 64);
        assert(a1 == b1);
    }
}

/// The characters of base64 say which bytes they stand for.
pub proof fn lemma_base64_injective(a: Seq<u8>, b: Seq<u8>)
    requires
        base64(a) == base64(b),
    ensures
        a == b,
    decreases a.len(),
{
    if a.len() == 0 {
        if b.len() > 0 {
            lemma_base64_nonempty(b);
        }
        assert(a =~= b);
    } else if b.len() == 0 {
        lemma_base64_nonempty(a);
    } else {
        let (x, y) = (base64(a), base64(b));
        assert(base64_group(a) =~= x.take(4));
        assert(base64_group(b) =~= y.take(4));
        lemma_base64_group(a, b);
        if a.len() > 3 && b.len() > 3 {
            assert(base64(a.skip(3)) =~= x.skip(4));
            assert(base64(b.skip(3)) =~= y.skip(4));
            lemma_base64_injective(a.skip(3), b.skip(3));
            assert forall|i: int| 3 <= i < a.len() implies a[i] == b[i] by {
                assert(a[i] == a.skip(3)[i - 3]);
                assert(b[i] == b.skip(3)[i - 3]);
            }
            assert(a.len() == a.skip(3).len() + 3);
            assert(a =~= b);
        } else if a.len() > 3 {
            lemma_base64_nonempty(a.skip(3));
            assert(x.len() > 4 && y.len() == 4);
        } else if b.len() > 3 {
            lemma_base64_nonempty(b.skip(3));
            assert(y.len() > 4 && x.len() == 4);
        } else {
            assert(a.len() == b.len());
            assert(a =~= b);
        }
    }
}

proof fn lemma_base64_nonempty(a: Seq<u8>)
    requires
        a.len() > 0,
    ensures
        base64(a).len() >= 4,
{
}

/// The hexadecimal digits of `n`, without leading zeros.
pub open spec fn hex_number(n: nat) -> Seq<char>
    decreases n,
{
    if n < 16 {
        seq![hex_digit(n as int)]
    } else {
        hex_number(n / 16).push(hex_digit((n % 16) as int))
    }
}

pub fn hex_number_text(n: u32) -> (r: String)
    ensures
        r@ == hex_number(n as nat),
    decreases n,
{
    if n < 16 {
        let mut out: String = String::new();
        out.push(hex_char(n as u8));
        assert(out@ =~= hex_number(n as nat));
        out
    } else {
        let mut out: String = hex_number_text(n / 16);
        out.push(hex_char((n % 16) as u8));
        out
    }
}

} // verus!
