//! Promises of numbers, sizes, names and paths.

use crate::error::{error_detail, ErrorModel};
use crate::model::{
    issue_type_name, issue_type_named, not_after, status_name, status_named, terminal,
    IssueTypeModel, StatusModel, Timestamp, CRITICAL, HIGH, MEDIUM,
};
use crate::numbers::{base64, decimal, hex, padded_decimal, signed_decimal};
use crate::paths::{
    absolute, components, directly_in, extension, file_name, goes_up, join_path, last_index,
    last_part, law_join_adds_a_component, plain_name, relative_to, same_path, stem, under,
};
use crate::sizes::{in_unit, nearest_double, rounded_div, short_size_text, size_text, tenths};
use crate::text::{ascii_lowercase, trim};
use crate::wrap::{laid_out, parsed_number, wrap_width};
use vstd::prelude::*;
use vstd::string::*;

verus! {

broadcast use vstd::string::group_string_axioms;

/// A number is written digit by digit, the last one last.
pub proof fn law_numbers_are_written_digit_by_digit(n: nat, d: nat)
    requires
        d < 10,
    ensures
        n > 0 ==> decimal(n * 10 + d) == decimal(n).push(('0' as int + d) as char),
        decimal(d) == seq![('0' as int + d) as char],
        n > 0 ==> signed_decimal(-(n as int)) == seq!['-'] + decimal(n),
        signed_decimal(n as int) == decimal(n),
{
    if n > 0 {
        assert((n * 10 + d) / 10 == n && (n * 10 + d) % 10 == d) by (nonlinear_arith)
            requires
                d < 10,
        ;
        assert(n * 10 + d >= 10) by (nonlinear_arith)
            requires
                n > 0,
        ;
    }
}

/// A number is filled up with noughts in front, as wide as asked for.
pub proof fn law_numbers_are_filled_up(n: nat, width: nat, i: int)
    ensures
        padded_decimal(n, width).len() == if decimal(n).len() < width {
            width
        } else {
            decimal(n).len()
        },
        padded_decimal(n, width).skip(padded_decimal(n, width).len() - decimal(n).len())
            == decimal(n),
        0 <= i < padded_decimal(n, width).len() - decimal(n).len() ==> padded_decimal(n, width)[i]
            == '0',
{
    let p = padded_decimal(n, width);
    assert(p.skip(p.len() - decimal(n).len()) =~= decimal(n));
}

/// Bytes are written by two digits each, the higher one first.
pub proof fn law_bytes_are_two_digits(bytes: Seq<u8>, b: u8)
    ensures
        hex(bytes.push(b)).len() == hex(bytes).len() + 2,
        b < 16 ==> hex(bytes.push(b))[hex(bytes).len() as int] == '0',
        b == 255 ==> hex(bytes.push(b)) == hex(bytes).push('f').push('f'),
        b < 10 ==> hex(bytes.push(b)).last() as int == '0' as int + b,
        10 <= b < 16 ==> hex(bytes.push(b)).last() as int == 'a' as int + (b - 10),
{
    assert(bytes.push(b).drop_last() =~= bytes);
}

/// Three bytes make four digits, and fewer are filled up with equals signs.
pub proof fn law_three_bytes_are_four_digits(bytes: Seq<u8>)
    ensures
        bytes.len() == 1 ==> base64(bytes).len() == 4 && base64(bytes)[2] == '='
            && base64(bytes)[3] == '=',
        bytes.len() == 2 ==> base64(bytes).len() == 4 && base64(bytes)[3] == '=',
        bytes.len() == 3 ==> base64(bytes).len() == 4,
        bytes.len() > 3 ==> base64(bytes) == base64(bytes.take(3)) + base64(bytes.skip(3)),
        bytes.len() == 0 ==> base64(bytes).len() == 0,
{
    if bytes.len() > 3 {
        let three = bytes.take(3);
        assert(three[0] == bytes[0] && three[1] == bytes[1] && three[2] == bytes[2]);
        assert(base64(three) =~= crate::numbers::base64_group(bytes));
    }
}

/// A size is told in bytes below a kilobyte, and else in the largest unit that it reaches.
pub proof fn law_sizes_are_told_in_the_largest_unit(bytes: u64)
    ensures
        bytes < 1024 ==> size_text(bytes) == decimal(bytes as nat) + " B"@,
        1024 <= bytes < 1024 * 1024 ==> size_text(bytes) == in_unit(bytes as nat, 1024, "KB"@),
        1024 * 1024 <= bytes < 1024 * 1024 * 1024 ==> size_text(bytes) == in_unit(
            bytes as nat,
            (1024 * 1024) as nat,
            "MB"@,
        ),
        bytes >= 1024 * 1024 * 1024 ==> size_text(bytes) == in_unit(
            bytes as nat,
            (1024 * 1024 * 1024) as nat,
            "GB"@,
        ),
        bytes < 1024 * 1024 * 1024 ==> short_size_text(bytes) == size_text(bytes),
        bytes >= 1024 * 1024 ==> short_size_text(bytes) == in_unit(
            bytes as nat,
            (1024 * 1024) as nat,
            "MB"@,
        ),
{
}

/// A size in a unit is right to half a tenth, for every size that a computer holds exactly, and
/// its tenths are one digit.
pub proof fn law_sizes_are_right_to_half_a_tenth(bytes: nat, unit: nat, name: Seq<char>)
    requires
        unit > 0,
        bytes < 0x20_0000_0000_0000,
    ensures
        2 * (tenths(bytes, unit) * unit - bytes * 10) <= unit,
        2 * (bytes * 10 - tenths(bytes, unit) * unit) <= unit,
        in_unit(bytes, unit, name) == decimal(tenths(bytes, unit) / 10) + "."@ + decimal(
            tenths(bytes, unit) % 10,
        ) + " "@ + name,
{
    assert(crate::sizes::spacing(bytes) == 1);
    lemma_rounded(bytes, 1);
    assert(nearest_double(bytes) == bytes) by {
        assert(rounded_div(bytes, 1) == bytes);
    }
    lemma_rounded(bytes * 10, unit);
}

proof fn lemma_rounded(n: nat, d: nat)
    requires
        d > 0,
    ensures
        2 * (rounded_div(n, d) * d - n) <= d,
        2 * (n - rounded_div(n, d) * d) <= d,
        d == 1 ==> rounded_div(n, d) == n,
{
    let q = n / d;
    let r = n % d;
    assert(n == q * d + r && 0 <= r < d) by (nonlinear_arith)
        requires
            q == n / d,
            r == n % d,
            d > 0,
    ;
    assert((q + 1) * d == q * d + d) by (nonlinear_arith);
}

/// Names of statuses are read back, in any case and with white space round them; any other name
/// is one of the user's own.
pub proof fn law_status_names_are_read_back(name: Seq<char>)
    ensures
        ({
            let key = ascii_lowercase(trim(name));
            &&& key == "open"@ ==> status_named(name) == StatusModel::Open
            &&& key == "in_progress"@ ==> status_named(name) == StatusModel::InProgress
            &&& key == "blocked"@ ==> status_named(name) == StatusModel::Blocked
            &&& key == "deferred"@ ==> status_named(name) == StatusModel::Deferred
            &&& key == "closed"@ ==> status_named(name) == StatusModel::Closed
            &&& key == "tombstone"@ ==> status_named(name) == StatusModel::Tombstone
            &&& status_name(status_named(name)) == key
        }),
{
    reveal_strlit("open");
    reveal_strlit("in_progress");
    reveal_strlit("blocked");
    reveal_strlit("deferred");
    reveal_strlit("closed");
    reveal_strlit("tombstone");
    assert("open"@.len() == 4 && "in_progress"@.len() == 11 && "blocked"@.len() == 7
        && "deferred"@.len() == 8 && "closed"@.len() == 6 && "tombstone"@.len() == 9);
}

/// Names of types are read back in the same way.
pub proof fn law_type_names_are_read_back(name: Seq<char>)
    ensures
        ({
            let key = ascii_lowercase(trim(name));
            &&& key == "task"@ ==> issue_type_named(name) == IssueTypeModel::Task
            &&& key == "bug"@ ==> issue_type_named(name) == IssueTypeModel::Bug
            &&& key == "feature"@ ==> issue_type_named(name) == IssueTypeModel::Feature
            &&& key == "epic"@ ==> issue_type_named(name) == IssueTypeModel::Epic
            &&& key == "chore"@ ==> issue_type_named(name) == IssueTypeModel::Chore
            &&& key == "docs"@ ==> issue_type_named(name) == IssueTypeModel::Docs
            &&& key == "question"@ ==> issue_type_named(name) == IssueTypeModel::Question
            &&& issue_type_name(issue_type_named(name)) == key
        }),
{
    reveal_strlit("task");
    reveal_strlit("bug");
    reveal_strlit("feature");
    reveal_strlit("epic");
    reveal_strlit("chore");
    reveal_strlit("docs");
    reveal_strlit("question");
    assert("task"@.len() == 4 && "bug"@.len() == 3 && "feature"@.len() == 7 && "epic"@.len() == 4
        && "chore"@.len() == 5 && "docs"@.len() == 4 && "question"@.len() == 8);
    assert("task"@[0] == 't' && "epic"@[0] == 'e' && "docs"@[0] == 'd');
}

/// An issue is at its end exactly where it is closed or deleted.
pub proof fn law_closed_and_deleted_are_the_end(s: StatusModel)
    ensures
        terminal(s) <==> s is Closed || s is Tombstone,
        CRITICAL == 0,
        HIGH == 1,
        MEDIUM == 2,
{
}

/// One moment is not after another exactly where it is earlier or the same.
pub proof fn law_moments_are_in_order(a: Timestamp, b: Timestamp)
    ensures
        not_after(a, a),
        not_after(a, b) || not_after(b, a),
        a.seconds < b.seconds ==> not_after(a, b) && !not_after(b, a),
        a.seconds == b.seconds && a.nanos < b.nanos ==> not_after(a, b) && !not_after(b, a),
{
}

/// A name is put behind a directory with one separator between, and an absolute path stays as
/// it is.
pub proof fn law_names_are_put_behind_directories(dir: Seq<char>, name: Seq<char>)
    ensures
        name.len() > 0 && name[0] == '/' ==> join_path(dir, name) == name,
        dir.len() == 0 ==> join_path(dir, name) == name,
        !absolute(name) && dir.len() > 0 && dir.last() == '/' ==> join_path(dir, name) == dir
            + name,
        !absolute(name) && dir.len() > 0 && dir.last() != '/' ==> join_path(dir, name) == dir
            + "/"@ + name,
        absolute(name) <==> name.len() > 0 && name[0] == '/',
{
}

/// A name in a directory is its last part, lies directly in it, and is what is left of the path
/// seen from there.
pub proof fn law_names_lie_in_their_directory(dir: Seq<char>, name: Seq<char>)
    requires
        plain_name(name),
        name != ".."@,
    ensures
        file_name(join_path(dir, name)) == Some(name),
        last_part(join_path(dir, name)) == Some(name),
        directly_in(join_path(dir, name), dir),
        under(join_path(dir, name), dir),
        !under(dir, join_path(dir, name)),
        relative_to(join_path(dir, name), dir) == name,
        !goes_up(dir) ==> !goes_up(join_path(dir, name)),
{
    law_join_adds_a_component(dir, name);
    reveal_strlit("/");
    assert(name != "/"@) by {
        if name == "/"@ {
            assert(name.contains(name[0]));
        }
    }
    let (p, d) = (components(join_path(dir, name)), components(dir));
    assert(p.drop_last() =~= d);
    assert(p.skip(d.len() as int) =~= seq![name]);
    if !goes_up(dir) && goes_up(join_path(dir, name)) {
        let i = choose|i: int| 0 <= i < p.len() && #[trigger] p[i] == ".."@;
        assert(d[i] == ".."@);
    }
}

/// Two paths are the same exactly where their parts are, and one lies under another exactly
/// where its parts begin with the other's.
pub proof fn law_paths_are_compared_by_their_parts(a: Seq<char>, b: Seq<char>)
    ensures
        same_path(a, b) <==> components(a) == components(b),
        under(a, b) && under(b, a) ==> same_path(a, b),
        under(a, b) <==> components(b).len() <= components(a).len() && components(a).take(
            components(b).len() as int,
        ) == components(b),
        !under(a, b) ==> relative_to(a, b) == a,
{
    if components(b).len() <= components(a).len() {
        let n = components(b).len() as int;
        assert(components(a).take(n) =~= components(a).subrange(0, n));
    }
    if under(a, b) && under(b, a) {
        assert(components(a) =~= components(b));
    }
}

/// The extension is what follows the last dot of a name, and the stem what comes before it; a
/// dot in front makes none.
pub proof fn law_extensions_follow_the_last_dot(base: Seq<char>, ext: Seq<char>)
    requires
        base.len() > 0,
        base != "."@,
        !ext.contains('.'),
    ensures
        extension(base + seq!['.'] + ext) == Some(ext),
        stem(base + seq!['.'] + ext) == base,
        !base.contains('.') ==> extension(base) is None && stem(base) == base,
{
    reveal_strlit("..");
    reveal_strlit(".");
    let name = base + seq!['.'] + ext;
    lemma_last_dot(base, ext);
    assert(name.skip(base.len() as int + 1) =~= ext);
    assert(name.take(base.len() as int) =~= base);
    if name == ".."@ {
        assert(base.len() == 1);
        assert(name[0] == '.');
        assert(base =~= "."@);
    }
    if !base.contains('.') {
        lemma_no_last_dot(base);
    }
}

proof fn lemma_no_last_dot(s: Seq<char>)
    requires
        !s.contains('.'),
    ensures
        last_index(s, '.') == -1,
    decreases s.len(),
{
    if s.len() > 0 {
        assert(s.contains(s[s.len() - 1]));
        assert(!s.drop_last().contains('.')) by {
            if s.drop_last().contains('.') {
                let i = choose|i: int| 0 <= i < s.len() - 1 && s.drop_last()[i] == '.';
                assert(s[i] == '.');
            }
        }
        lemma_no_last_dot(s.drop_last());
    }
}

proof fn lemma_last_dot(base: Seq<char>, ext: Seq<char>)
    requires
        !ext.contains('.'),
    ensures
        last_index(base + seq!['.'] + ext, '.') == base.len(),
    decreases ext.len(),
{
    let s = base + seq!['.'] + ext;
    if ext.len() > 0 {
        assert(ext.contains(ext[ext.len() - 1]));
        assert(s.last() == ext.last());
        assert(s.drop_last() =~= base + seq!['.'] + ext.drop_last());
        assert(!ext.drop_last().contains('.')) by {
            if ext.drop_last().contains('.') {
                let i = choose|i: int| 0 <= i < ext.len() - 1 && ext.drop_last()[i] == '.';
                assert(ext[i] == '.');
            }
        }
        lemma_last_dot(base, ext.drop_last());
    }
}

/// Text is wrapped at the width that was set, where that is a number of at least twenty, and
/// else at a hundred.
pub proof fn law_text_is_wrapped_at_the_set_width(set: Seq<char>, n: usize)
    ensures
        wrap_width(None) == 100,
        parsed_number(trim(set)) == Some(n) && n >= 20 ==> wrap_width(Some(set)) == n,
        parsed_number(trim(set)) == Some(n) && n < 20 ==> wrap_width(Some(set)) == 100,
        parsed_number(trim(set)) is None ==> wrap_width(Some(set)) == 100,
{
}

/// A word more stands on the same line where it still fits there, and else on a new one behind
/// the indent.
pub proof fn law_words_that_do_not_fit_go_on_a_new_line(
    words: Seq<Seq<char>>,
    widths: Seq<usize>,
    indent: Seq<char>,
    avail: int,
    more: Seq<char>,
)
    requires
        words.len() > 0,
        words.len() < widths.len(),
    ensures
        ({
            let before = laid_out(words, widths, indent, avail);
            let after = laid_out(words.push(more), widths, indent, avail);
            let w = widths[words.len() as int] as int;
            &&& before.used == 0 || before.used + 1 + w <= avail ==> after.text == before.text
                + " "@ + more && after.used == before.used + 1 + w
            &&& before.used > 0 && before.used + 1 + w > avail ==> after.text == before.text
                + "\n"@ + indent + more && after.used == w
        }),
{
    assert(words.push(more).drop_last() =~= words);
}

/// What went wrong is told by what it was and what it was about, with what was being done in
/// front.
pub proof fn law_errors_are_told(
    field: Seq<char>,
    reason: Seq<char>,
    context: Seq<char>,
    source: ErrorModel,
)
    ensures
        error_detail(ErrorModel::Validation { field, reason }) == "Validation failed: "@ + field
            + ": "@ + reason,
        error_detail(ErrorModel::IssueNotFound { id: field }) == "Issue not found: "@ + field,
        error_detail(ErrorModel::Config(reason)) == reason,
        error_detail(ErrorModel::Internal(reason)) == reason,
        error_detail(ErrorModel::Outside(reason)) == reason,
        error_detail(ErrorModel::WithContext { context, source: Box::new(source) }) == context
            + ": "@ + error_detail(source),
{
    reveal_with_fuel(error_detail, 2);
}

/// What lies halfway is rounded to the even neighbour, and all else to the nearer one.
pub proof fn law_halves_are_rounded_to_even(n: nat, d: nat)
    requires
        d > 0,
    ensures
        2 * (n % d) == d ==> rounded_div(n, d) % 2 == 0,
        2 * (n % d) < d ==> rounded_div(n, d) == n / d,
        2 * (n % d) > d ==> rounded_div(n, d) == n / d + 1,
{
}

/// Sizes beyond what a computer holds exactly are held to the nearest it can: one unit apart
/// below two to the fifty-third, and twice as far apart with each doubling.
pub proof fn law_large_sizes_are_held_to_the_nearest(n: nat)
    ensures
        n < 0x20_0000_0000_0000 ==> crate::sizes::spacing(n) == 1,
        n >= 0x20_0000_0000_0000 ==> crate::sizes::spacing(n) == 2 * crate::sizes::spacing(n / 2),
        nearest_double(n) == rounded_div(n, crate::sizes::spacing(n)) * crate::sizes::spacing(n),
{
}

/// A number that was written is read, with a plus sign in front or not; what holds anything but
/// digits is none, and neither is nothing.
pub proof fn law_written_numbers_are_read(n: usize, s: Seq<char>, i: int)
    ensures
        parsed_number(decimal(n as nat)) == Some(n),
        parsed_number(seq!['+'] + decimal(n as nat)) == Some(n),
        parsed_number(Seq::empty()) is None,
        1 <= i < s.len() && !('0' <= s[i] <= '9') ==> parsed_number(s) is None,
        s.len() > 0 && s[0] != '+' && !('0' <= s[0] <= '9') ==> parsed_number(s) is None,
{
    crate::numbers::lemma_decimal_len(n as nat);
    lemma_digits_read(n as nat);
    let d = decimal(n as nat);
    assert('0' <= d[0] <= '9');
    assert((seq!['+'] + d).skip(1) =~= d);
    if s.len() > 0 {
        if 1 <= i < s.len() && !('0' <= s[i] <= '9') {
            lemma_no_number(s, i);
            lemma_no_number(s.skip(1), i - 1);
        }
        if s[0] != '+' && !('0' <= s[0] <= '9') {
            lemma_no_number(s, 0);
        }
    }
}

proof fn lemma_digits_read(n: nat)
    ensures
        crate::wrap::digits_number(decimal(n)) == Some(n),
    decreases n,
{
    let d = decimal(n);
    if n < 10 {
        assert(d.drop_last() =~= Seq::empty());
        reveal_with_fuel(crate::wrap::digits_number, 2);
    } else {
        lemma_digits_read(n / 10);
        assert(d.drop_last() =~= decimal(n / 10));
        assert(n == n / 10 * 10 + n % 10);
    }
}

proof fn lemma_no_number(s: Seq<char>, i: int)
    requires
        0 <= i < s.len(),
        !('0' <= s[i] <= '9'),
    ensures
        crate::wrap::digits_number(s) is None,
    decreases s.len(),
{
    if i < s.len() - 1 {
        lemma_no_number(s.drop_last(), i);
    }
}

/// The value of a digit of base sixty-four.
pub open spec fn digit_value(c: char) -> int {
    if 'A' <= c <= 'Z' {
        c as int - 'A' as int
    } else if 'a' <= c <= 'z' {
        c as int - 'a' as int + 26
    } else if '0' <= c <= '9' {
        c as int - '0' as int + 52
    } else if c == '+' {
        62
    } else {
        63
    }
}

/// Four digits of base sixty-four have the value of the three bytes that they stand for.
pub proof fn law_digits_have_the_value_of_their_bytes(a: u8, b: u8, c: u8)
    ensures
        ({
            let three = base64(seq![a, b, c]);
            let two = base64(seq![a, b]);
            let one = base64(seq![a]);
            &&& digit_value(three[0]) * 262144 + digit_value(three[1]) * 4096 + digit_value(
                three[2],
            ) * 64 + digit_value(three[3]) == a * 65536 + b * 256 + c
            &&& digit_value(two[0]) * 4096 + digit_value(two[1]) * 64 + digit_value(two[2]) == (a
                * 256 + b) * 4
            &&& digit_value(one[0]) * 64 + digit_value(one[1]) == a * 16
        }),
{
    let (x, y, z): (int, int, int) = (a as int, b as int, c as int);
    lemma_digit_value(x / 4);
    lemma_digit_value(x % 4 * 16 + y / 16);
    lemma_digit_value(y % 16 * 4 + z / 64);
    lemma_digit_value(z % 64);
    lemma_digit_value(x % 4 * 16);
    lemma_digit_value(y % 16 * 4);
    let three = seq![a, b, c];
    let two = seq![a, b];
    let one = seq![a];
    assert(base64(three) =~= crate::numbers::base64_group(three));
    assert(base64(two) =~= crate::numbers::base64_group(two));
    assert(base64(one) =~= crate::numbers::base64_group(one));
}

proof fn lemma_digit_value(d: int)
    requires
        0 <= d < 64,
    ensures
        digit_value(crate::numbers::base64_digit(d)) == d,
{
}

/// A dot in front of a relative path is a part of it, and behind the root it is none.
pub proof fn law_leading_dots_are_kept(name: Seq<char>)
    requires
        plain_name(name),
    ensures
        components(join_path("."@, name)) == seq!["."@, name],
        components(join_path("/"@, name)) == seq!["/"@, name],
        components(join_path("/."@, name)) == seq!["/"@, name],
{
    reveal_strlit(".");
    reveal_strlit("/");
    reveal_strlit("/.");
    law_join_adds_a_component("."@, name);
    law_join_adds_a_component("/"@, name);
    law_join_adds_a_component("/."@, name);
    let empty = Seq::<char>::empty();
    assert(!("."@.contains('/'))) by {
        if "."@.contains('/') {
            let i = choose|i: int| 0 <= i < "."@.len() && "."@[i] == '/';
            assert("."@[i] == '.');
        }
    }
    crate::promises::words::law_text_is_parted_at_the_first_separator("."@, '/', empty);
    assert(!empty.contains('/'));
    crate::promises::words::law_text_is_parted_at_the_first_separator(empty, '/', empty);
    crate::promises::words::law_text_is_parted_at_the_first_separator(empty, '/', "."@);
    assert("/"@ =~= empty + seq!['/'] + empty);
    assert("/."@ =~= empty + seq!['/'] + "."@);
    let one = seq!["."@];
    let two = seq![empty] + seq![empty];
    let three = seq![empty] + seq!["."@];
    assert(one.drop_last() =~= Seq::empty());
    assert(two.drop_last() =~= seq![empty]);
    assert(three.drop_last() =~= seq![empty]);
    assert(seq![empty].drop_last() =~= Seq::empty());
    reveal_with_fuel(crate::paths::counted_parts, 3);
    assert(crate::paths::counted_parts(one, true) =~= seq!["."@]);
    assert(crate::paths::counted_parts(two, false) =~= Seq::empty());
    assert(crate::paths::counted_parts(three, false) =~= Seq::empty());
    assert(components("."@) =~= seq!["."@]);
    assert(components("/"@) =~= seq!["/"@]);
    assert(components("/."@) =~= seq!["/"@]);
    assert(seq!["."@].push(name) =~= seq!["."@, name]);
    assert(seq!["/"@].push(name) =~= seq!["/"@, name]);
}

/// What is left of a line behind its indent is at least one column.
pub proof fn law_columns_left_behind_the_indent(indent: Seq<char>, width: usize)
    ensures
        ({
            let left = crate::wrap::columns_left(indent, width);
            let rest: int = width - crate::wrap::columns(indent);
            left == if rest > 1 {
                rest
            } else {
                1
            }
        }),
{
}

/// The dot of a hidden file makes no extension.
pub proof fn law_hidden_files_have_no_extension(name: Seq<char>)
    requires
        !name.contains('.'),
    ensures
        extension(seq!['.'] + name) is None,
        stem(seq!['.'] + name) == seq!['.'] + name,
{
    lemma_last_dot(Seq::empty(), name);
    assert(Seq::<char>::empty() + seq!['.'] + name =~= seq!['.'] + name);
}

} // verus!
