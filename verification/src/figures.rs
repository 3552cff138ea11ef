//! Counts, durations and dates as the listings show them.

use crate::text;
use vstd::prelude::*;

verus! {

// ---------------------------------------------------------------- durations

/// `a / b` with the fraction cut off.
pub open spec fn quotient(a: int, b: int) -> int {
    if a >= 0 {
        a / b
    } else {
        -((-a) / b)
    }
}

/// What is left of `a` behind [`quotient`], with the sign of `a`.
pub open spec fn remainder(a: int, b: int) -> int {
    a - b * quotient(a, b)
}

/// A number of seconds as `h:mm:ss`, or as `m:ss` below one hour.
pub open spec fn duration_text(secs: int) -> Seq<char> {
    let h = quotient(secs, 3600);
    let m = quotient(remainder(secs, 3600), 60);
    let s = remainder(secs, 60);
    if h > 0 {
        text::decimal_text(h) + ":"@ + text::two_digits(m) + ":"@ + text::two_digits(s)
    } else {
        text::decimal_text(m) + ":"@ + text::two_digits(s)
    }
}

/// A number of seconds as `h:mm:ss`, or as `m:ss` below one hour.
pub fn fmt_duration(secs: i64) -> (r: String)
    ensures
        r@ == duration_text(secs as int),
{
    let total: i128 = secs as i128;
    let size: i128 = if total < 0 {
        -total
    } else {
        total
    };
    let h: i128 = size / 3600;
    let m: i128 = (size % 3600) / 60;
    let s: i128 = size % 60;
    assert(size % 3600 == size - 3600 * (size / 3600));
    assert(size % 60 == size - 60 * (size / 60));
    if total >= 0 && h > 0 {
        let mut r = text::decimal(h);
        r.append(":");
        r.append(text::two_digit(m).as_str());
        r.append(":");
        r.append(text::two_digit(s).as_str());
        r
    } else if total >= 0 {
        let mut r = text::decimal(m);
        r.append(":");
        r.append(text::two_digit(s).as_str());
        r
    } else {
        let mut r = text::decimal(-m);
        r.append(":");
        r.append(text::two_digit(-s).as_str());
        r
    }
}

// ---------------------------------------------------------------- dates

/// The name of a count of months or years.
pub open spec fn ago(n: int, one: Seq<char>, many: Seq<char>) -> Seq<char> {
    if n == 1 {
        one
    } else {
        text::decimal_text(n) + many
    }
}

/// How long before `now` the time `unix` was, both in seconds; nothing for a time to come.
pub open spec fn relative_text(now: int, unix: int) -> Seq<char> {
    let diff = now - unix;
    let days = diff / 86400;
    if diff < 0 {
        Seq::empty()
    } else if days < 1 {
        "today"@
    } else if days < 30 {
        text::decimal_text(days) + " days ago"@
    } else if days < 365 {
        ago(days / 30, "1 month ago"@, " months ago"@)
    } else {
        ago(days / 365, "1 year ago"@, " years ago"@)
    }
}

/// How long before `now` the time `unix` was, both in seconds since the epoch.
pub fn fmt_relative_ts(now: i64, unix: i64) -> (r: String)
    requires
        i64::MIN <= now - unix <= i64::MAX,
    ensures
        r@ == relative_text(now as int, unix as int),
{
    let diff: i64 = now - unix;
    if diff < 0 {
        return String::new();
    }
    let days: i64 = diff / 86400;
    if days < 1 {
        text::copy("today")
    } else if days < 30 {
        text::concat2(text::decimal(days as i128).as_str(), " days ago")
    } else if days < 365 {
        let months: i64 = days / 30;
        if months == 1 {
            text::copy("1 month ago")
        } else {
            text::concat2(text::decimal(months as i128).as_str(), " months ago")
        }
    } else {
        let years: i64 = days / 365;
        if years == 1 {
            text::copy("1 year ago")
        } else {
            text::concat2(text::decimal(years as i128).as_str(), " years ago")
        }
    }
}

/// Reads the clock with `SystemTime::elapsed` from `UNIX_EPOCH`: the whole seconds since the
/// epoch, or `None` for a clock that stands before it.
#[verifier::external_body]
fn clock_seconds() -> (r: Option<u64>) {
    match std::time::UNIX_EPOCH.elapsed() {
        Ok(d) => Some(d.as_secs()),
        Err(_) => None,
    }
}

/// The time now in seconds since the epoch. A clock that stands before the epoch, or past what
/// the type can hold, reads as zero.
pub fn unix_now() -> (now: i64)
    ensures
        now >= 0,
{
    time_read(clock_seconds())
}

/// The time that a reading of the clock stands for: its seconds since the epoch, or zero where the
/// clock stands before the epoch or past what the type can hold.
pub fn time_read(read: Option<u64>) -> (now: i64)
    ensures
        now == match read {
            Some(s) => if s <= i64::MAX {
                s as int
            } else {
                0
            },
            None => 0,
        },
{
    match read {
        Some(s) => if s <= i64::MAX as u64 {
            s as i64
        } else {
            0
        },
        None => 0,
    }
}

// ---------------------------------------------------------------- counts

/// `a / b` rounded to the nearest integer, and to the even one of two that are equally near.
pub open spec fn half_even(a: nat, b: nat) -> nat {
    let q = a / b;
    let r = a % b;
    if 2 * r > b || (2 * r == b && q % 2 == 1) {
        q + 1
    } else {
        q
    }
}

/// The distance between neighbouring double-precision numbers at `n`, where it is at least one.
pub open spec fn spacing(n: nat) -> nat
    decreases n,
{
    if n < 0x20_0000_0000_0000 {
        1
    } else {
        2 * spacing(n / 2)
    }
}

/// `n` in double precision.
pub open spec fn double_of(n: nat) -> nat {
    half_even(n, spacing(n)) * spacing(n)
}

/// How many double-precision numbers stand in each unit, at numbers with the whole part `n`.
pub open spec fn density(n: nat, at_one: nat) -> nat
    decreases n,
{
    if n < 2 {
        at_one
    } else {
        density(n / 2, at_one / 2)
    }
}

/// The tenths of `n / unit`, rounded: the quotient is first taken in double precision.
pub open spec fn tenths(n: nat, unit: nat) -> nat {
    let k = density(n / unit, 0x10_0000_0000_0000);
    half_even(10 * half_even(n * k, unit), k)
}

/// A number of tenths as a decimal with one place.
pub open spec fn one_place(t: nat) -> Seq<char> {
    text::digits(t / 10) + "."@ + text::digits(t % 10)
}

/// A count in thousands, millions or billions with one decimal place, or in full below a
/// thousand. It is worked out in double precision.
pub open spec fn count_text(n: int) -> Seq<char> {
    if n < 0 {
        seq!['-'] + text::digits(double_of((-n) as nat))
    } else {
        let d = double_of(n as nat);
        if d >= 1_000_000_000 {
            one_place(tenths(d, 1_000_000_000)) + "B"@
        } else if d >= 1_000_000 {
            one_place(tenths(d, 1_000_000)) + "M"@
        } else if d >= 1_000 {
            one_place(tenths(d, 1_000)) + "K"@
        } else {
            text::digits(d)
        }
    }
}

/// [`half_even`], as code.
fn divide_half_even(a: u128, b: u128) -> (q: u128)
    requires
        0 < b <= 0x4000_0000_0000_0000_0000_0000_0000_0000,
        a < 0x4000_0000_0000_0000_0000_0000_0000_0000,
    ensures
        q == half_even(a as nat, b as nat),
        q <= a + 1,
{
    let q: u128 = a / b;
    let r: u128 = a % b;
    assert(q <= a) by (nonlinear_arith)
        requires
            q == a / b,
            b > 0,
    ;
    if 2 * r > b || (2 * r == b && q % 2 == 1) {
        q + 1
    } else {
        q
    }
}

/// [`spacing`], as code.
fn double_spacing(n: u128) -> (s: u128)
    requires
        n <= 0x8000_0000_0000_0000,
    ensures
        s == spacing(n as nat),
        1 <= s <= 2048,
        s <= n + 1,
{
    let mut s: u128 = 1;
    let mut m: u128 = n;
    while m >= 0x20_0000_0000_0000
        invariant
            s * spacing(m as nat) == spacing(n as nat),
            s >= 1,
            m * s <= n,
            n <= 0x8000_0000_0000_0000,
            s <= n + 1,
        decreases m,
    {
        assert(s * (2 * spacing((m / 2) as nat)) == (2 * s) * spacing((m / 2) as nat))
            by (nonlinear_arith);
        assert((m / 2) * (2 * s) <= m * s) by (nonlinear_arith)
            requires
                s >= 1,
        ;
        assert(2 * s <= m * s) by (nonlinear_arith)
            requires
                m >= 2,
                s >= 1,
        ;
        s = 2 * s;
        m = m / 2;
    }
    proof {
        assert(s * spacing(m as nat) == s) by (nonlinear_arith)
            requires
                spacing(m as nat) == 1,
        ;
        lemma_spacing_bound(n as nat);
    }
    s
}

/// Up to the largest count the spacing is small.
proof fn lemma_spacing_bound(n: nat)
    requires
        n <= 0x8000_0000_0000_0000,
    ensures
        1 <= spacing(n) <= 2048,
{
    reveal_with_fuel(spacing, 13);
}

/// Double precision holds small counts exactly.
proof fn lemma_double_exact(n: nat)
    requires
        n < 0x20_0000_0000_0000,
    ensures
        double_of(n) == n,
{
    assert(n / 1 == n && n % 1 == 0);
    assert(half_even(n, 1) == n);
    assert(half_even(n, spacing(n)) * spacing(n) == n) by (nonlinear_arith)
        requires
            spacing(n) == 1,
            half_even(n, 1) == n,
    ;
}

/// [`double_of`], as code.
fn to_double(n: u128) -> (d: u128)
    requires
        n <= 0x8000_0000_0000_0000,
    ensures
        d == double_of(n as nat),
        d <= 0x1_0000_0000_0000_0000,
        n < 0x20_0000_0000_0000 ==> d == n,
{
    let s = double_spacing(n);
    let q = divide_half_even(n, s);
    proof {
        if n < 0x20_0000_0000_0000 {
            lemma_double_exact(n as nat);
        }
        assert((n / s) * s <= n) by (nonlinear_arith)
            requires
                s >= 1,
        ;
        assert(q * s <= (n / s) * s + s) by (nonlinear_arith)
            requires
                q <= n / s + 1,
                s >= 1,
        ;
    }
    q * s
}

/// [`density`], as code.
fn double_density(n: u128) -> (k: u128)
    requires
        n < 0x10_0000_0000_0000,
    ensures
        k == density(n as nat, 0x10_0000_0000_0000),
        1 <= k <= 0x10_0000_0000_0000,
{
    let mut k: u128 = 0x10_0000_0000_0000;
    let mut m: u128 = n;
    let ghost mut e: nat = 52;
    proof {
        vstd::arithmetic::power2::lemma2_to64_rest();
    }
    while m >= 2
        invariant
            density(m as nat, k as nat) == density(n as nat, 0x10_0000_0000_0000),
            k == vstd::arithmetic::power2::pow2(e),
            m < k <= 0x10_0000_0000_0000,
        decreases m,
    {
        proof {
            vstd::arithmetic::power2::lemma2_to64();
            vstd::arithmetic::power2::lemma_pow2_unfold(e);
            e = (e - 1) as nat;
        }
        m = m / 2;
        k = k / 2;
    }
    k
}

/// [`tenths`], as code.
fn count_tenths(n: u128, unit: u128) -> (t: u128)
    requires
        1000 <= unit <= 1_000_000_000,
        n <= 0x1_0000_0000_0000_0000,
        n / unit < 0x10_0000_0000_0000,
    ensures
        t == tenths(n as nat, unit as nat),
        t < 0x4000_0000_0000_0000_0000_0000_0000_0000,
{
    let k = double_density(n / unit);
    assert(n * k <= 0x1_0000_0000_0000_0000 * 0x10_0000_0000_0000) by (nonlinear_arith)
        requires
            n <= 0x1_0000_0000_0000_0000,
            k <= 0x10_0000_0000_0000,
    ;
    let m = divide_half_even(n * k, unit);
    divide_half_even(10 * m, k)
}

/// A number of tenths with its unit behind it.
fn with_unit(t: u128, unit: &str) -> (r: String)
    requires
        t < 0x4000_0000_0000_0000_0000_0000_0000_0000,
    ensures
        r@ == one_place(t as nat) + unit@,
{
    let mut r = text::decimal((t / 10) as i128);
    r.append(".");
    r.append(text::decimal((t % 10) as i128).as_str());
    r.append(unit);
    r
}

/// A count in thousands, millions or billions with one decimal place, or in full below a
/// thousand.
pub fn human_count(n: i64) -> (r: String)
    ensures
        r@ == count_text(n as int),
{
    if n < 0 {
        let d = to_double((-(n as i128)) as u128);
        let mut r = String::new();
        r.push('-');
        r.append(text::decimal(d as i128).as_str());
        assert(r@ =~= count_text(n as int));
        r
    } else {
        let d = to_double(n as u128);
        if d >= 1_000_000_000 {
            with_unit(count_tenths(d, 1_000_000_000), "B")
        } else if d >= 1_000_000 {
            with_unit(count_tenths(d, 1_000_000), "M")
        } else if d >= 1_000 {
            with_unit(count_tenths(d, 1_000), "K")
        } else {
            text::decimal(d as i128)
        }
    }
}

// ---------------------------------------------------------------- laws

/// A duration is never empty and always has a colon in it.
pub proof fn law_duration_has_colon(secs: int)
    ensures
        duration_text(secs).len() > 0,
        duration_text(secs).contains(':'),
{
    reveal_strlit(":");
    let t = duration_text(secs);
    let h = quotient(secs, 3600);
    let m = quotient(remainder(secs, 3600), 60);
    if h > 0 {
        assert(t[text::decimal_text(h).len() as int] == ':');
    } else {
        assert(t[text::decimal_text(m).len() as int] == ':');
    }
}

/// The number in the field of a clock that a text ends in.
pub open spec fn last_field(s: Seq<char>) -> nat
    decreases s.len(),
{
    if s.len() == 0 || s.last() == ':' {
        0
    } else {
        10 * last_field(s.drop_last()) + ((s.last() as u32) - ('0' as u32)) as nat
    }
}

/// What the fields of a clock before the last come to, in units of the field behind which they
/// stand.
pub open spec fn fields_before(s: Seq<char>) -> nat
    decreases s.len(),
{
    if s.len() == 0 {
        0
    } else if s.last() == ':' {
        60 * fields_before(s.drop_last()) + last_field(s.drop_last())
    } else {
        fields_before(s.drop_last())
    }
}

/// The seconds that a clock shows: each field counts sixty times the one behind it.
pub open spec fn clock_value(s: Seq<char>) -> nat {
    60 * fields_before(s) + last_field(s)
}

/// A number behind a colon, or at the start, is the last field.
proof fn lemma_number_field(a: Seq<char>, n: nat)
    requires
        last_field(a) == 0,
    ensures
        last_field(a + text::digits(n)) == n,
        fields_before(a + text::digits(n)) == fields_before(a),
    decreases n,
{
    let t = a + text::digits(n);
    if n < 10 {
        assert(t.drop_last() =~= a);
    } else {
        lemma_number_field(a, n / 10);
        assert(t.drop_last() =~= a + text::digits(n / 10));
    }
}

/// So is a number with a zero in front of it.
proof fn lemma_padded_field(a: Seq<char>, n: nat)
    requires
        last_field(a) == 0,
    ensures
        last_field(a + text::two_digits(n as int)) == n,
        fields_before(a + text::two_digits(n as int)) == fields_before(a),
{
    let padded = a + seq!['0'];
    assert(padded.drop_last() =~= a);
    lemma_number_field(a, n);
    lemma_number_field(padded, n);
    assert(a + (seq!['0'] + text::digits(n)) =~= padded + text::digits(n));
}

/// A colon closes a field.
proof fn lemma_colon_closes(a: Seq<char>)
    ensures
        last_field(a + ":"@) == 0,
        fields_before(a + ":"@) == 60 * fields_before(a) + last_field(a),
{
    reveal_strlit(":");
    assert((a + ":"@).drop_last() =~= a);
}

/// A duration reads back to its seconds.
pub proof fn law_duration_reads_back(secs: int)
    requires
        secs >= 0,
    ensures
        clock_value(duration_text(secs)) == secs,
{
    let h = quotient(secs, 3600);
    let m = quotient(remainder(secs, 3600), 60);
    let s = remainder(secs, 60);
    let none = Seq::<char>::empty();
    let first = if h > 0 {
        h
    } else {
        m
    };
    assert(none + text::digits(first as nat) =~= text::digits(first as nat));
    lemma_number_field(none, first as nat);
    let a = text::decimal_text(first) + ":"@;
    lemma_colon_closes(text::decimal_text(first));
    if h > 0 {
        lemma_padded_field(a, m as nat);
        let b = a + text::two_digits(m);
        lemma_colon_closes(b);
        lemma_padded_field(b + ":"@, s as nat);
    } else {
        lemma_padded_field(a, s as nat);
    }
}

/// A count is never shown as nothing.
pub proof fn law_count_not_empty(n: int)
    ensures
        count_text(n).len() > 0,
{
    reveal_strlit("B");
    reveal_strlit("M");
    reveal_strlit("K");
    if n < 0 {
        assert(count_text(n)[0] == '-');
    } else {
        text::lemma_digits_len(double_of(n as nat));
    }
}

/// A count below a thousand is shown in full.
pub proof fn law_small_count_is_exact(n: int)
    requires
        0 <= n < 1000,
    ensures
        count_text(n) == text::decimal_text(n),
{
    lemma_double_exact(n as nat);
}

/// Hours, minutes and seconds stand in the text one behind the other, the hours only where there
/// are any, with two digits for what stands behind a colon.
pub proof fn law_duration_by_field(h: int, m: int, s: int)
    requires
        0 <= h,
        0 <= m < 60,
        0 <= s < 60,
    ensures
        h > 0 ==> duration_text(3600 * h + 60 * m + s) == text::digits(h as nat) + seq![':']
            + text::two_digits(m) + seq![':'] + text::two_digits(s),
        h == 0 ==> duration_text(60 * m + s) == text::digits(m as nat) + seq![':']
            + text::two_digits(s),
{
    reveal_strlit(":");
    assert(":"@ =~= seq![':']);
    let n = 3600 * h + 60 * m + s;
    assert(n / 3600 == h);
    assert(n - 3600 * h == 60 * m + s);
    assert((60 * m + s) / 60 == m);
    assert(n / 60 == 60 * h + m);
}

/// A time is told by the whole days since then: today, then in days, from a month on in whole
/// months of thirty days, and from a year on in whole years of 365 days. A time to come is not
/// told.
pub proof fn law_age_by_days(now: int, unix: int, days: int, k: int)
    ensures
        unix > now ==> relative_text(now, unix).len() == 0,
        0 <= now - unix < 86400 ==> relative_text(now, unix) == "today"@,
        1 <= days < 30 && 86400 * days <= now - unix < 86400 * (days + 1) ==> relative_text(
            now,
            unix,
        ) == text::digits(days as nat) + " days ago"@,
        86400 * 30 <= now - unix < 86400 * 60 ==> relative_text(now, unix) == "1 month ago"@,
        k >= 2 && 86400 * 30 * k <= now - unix < 86400 * 30 * (k + 1) && now - unix < 86400 * 365
            ==> relative_text(now, unix) == text::digits(k as nat) + " months ago"@,
        86400 * 365 <= now - unix < 86400 * 730 ==> relative_text(now, unix) == "1 year ago"@,
        k >= 2 && 86400 * 365 * k <= now - unix < 86400 * 365 * (k + 1) ==> relative_text(now, unix)
            == text::digits(k as nat) + " years ago"@,
{
    let diff = now - unix;
    let d = diff / 86400;
    if 86400 * 30 * k <= diff < 86400 * 30 * (k + 1) {
        assert(30 * k <= d < 30 * (k + 1)) by (nonlinear_arith)
            requires
                d == diff / 86400,
                86400 * 30 * k <= diff < 86400 * 30 * (k + 1),
        ;
        assert(d / 30 == k);
    }
    if 86400 * 365 * k <= diff < 86400 * 365 * (k + 1) {
        assert(365 * k <= d < 365 * (k + 1)) by (nonlinear_arith)
            requires
                d == diff / 86400,
                86400 * 365 * k <= diff < 86400 * 365 * (k + 1),
        ;
        assert(d / 365 == k);
    }
    if 86400 * 30 <= diff < 86400 * 60 {
        assert(30 <= d < 60);
    }
    if 86400 * 365 <= diff < 86400 * 730 {
        assert(365 <= d < 730);
    }
}

/// Rounding goes to an integer that is nowhere more than half away, and to the even one of two
/// that are equally near.
pub proof fn law_rounding_is_nearest(a: nat, b: nat)
    requires
        b > 0,
    ensures
        2 * (b * half_even(a, b)) <= 2 * a + b,
        2 * a <= 2 * (b * half_even(a, b)) + b,
        2 * (b * half_even(a, b)) == 2 * a + b || 2 * a == 2 * (b * half_even(a, b)) + b
            ==> half_even(a, b) % 2 == 0,
{
    let q = a / b;
    let r = a % b;
    assert(a == b * q + r && 0 <= r < b) by (nonlinear_arith)
        requires
            b > 0,
            q == a / b,
            r == a % b,
    ;
    assert(b * (q + 1) == b * q + b) by (nonlinear_arith);
}

/// Double precision is exact up to 53 bits, and from there on the numbers lie twice as far apart
/// with each doubling; as many lie in each unit as the whole part leaves room for.
pub proof fn law_double_precision(n: nat, at_one: nat)
    ensures
        n < 0x20_0000_0000_0000 ==> double_of(n) == n,
        n < 0x20_0000_0000_0000 ==> spacing(n) == 1,
        n >= 0x10_0000_0000_0000 ==> spacing(2 * n) == 2 * spacing(n) && spacing(2 * n + 1) == 2
            * spacing(n),
        n < 2 ==> density(n, at_one) == at_one,
        n >= 1 ==> density(2 * n, at_one) == density(n, at_one / 2) && density(2 * n + 1, at_one)
            == density(n, at_one / 2),
{
    assert((2 * n) / 2 == n);
    assert((2 * n + 1) / 2 == n);
    if n < 0x20_0000_0000_0000 {
        lemma_double_exact(n);
    }
}

/// A count is told in full below a thousand, and else in thousands, millions or billions with one
/// place behind the point and the letter for it; one below zero is told in full.
pub proof fn law_count_by_size(n: int)
    ensures
        0 <= n < 1_000 ==> count_text(n) == text::digits(n as nat),
        1_000 <= n < 1_000_000 ==> count_text(n) == one_place(tenths(n as nat, 1_000)) + seq!['K'],
        1_000_000 <= n < 1_000_000_000 ==> count_text(n) == one_place(tenths(n as nat, 1_000_000))
            + seq!['M'],
        1_000_000_000 <= n < 0x20_0000_0000_0000 ==> count_text(n) == one_place(
            tenths(n as nat, 1_000_000_000),
        ) + seq!['B'],
        -0x20_0000_0000_0000 < n < 0 ==> count_text(n) == seq!['-'] + text::digits((-n) as nat),
{
    reveal_strlit("K");
    reveal_strlit("M");
    reveal_strlit("B");
    assert("K"@ =~= seq!['K']);
    assert("M"@ =~= seq!['M']);
    assert("B"@ =~= seq!['B']);
    if 0 <= n < 0x20_0000_0000_0000 {
        lemma_double_exact(n as nat);
    }
    if -0x20_0000_0000_0000 < n < 0 {
        lemma_double_exact((-n) as nat);
    }
}

/// A number of tenths is written with its last digit behind the point.
pub proof fn law_one_place_behind_point(whole: nat, tenth: nat)
    requires
        tenth < 10,
    ensures
        one_place(10 * whole + tenth) == text::digits(whole) + seq!['.'] + text::digits(tenth),
{
    reveal_strlit(".");
    assert("."@ =~= seq!['.']);
    assert((10 * whole + tenth) / 10 == whole);
    assert((10 * whole + tenth) % 10 == tenth);
}

/// The tenths of a quotient are nearest to it, but for what double precision leaves open: of `k`
/// numbers in each unit the quotient is the nearest one.
pub proof fn law_tenths_are_nearest(n: nat, unit: nat, k: nat)
    requires
        unit > 0,
        k > 0,
        k == density(n / unit, 0x10_0000_0000_0000),
    ensures
        2 * (k * unit * tenths(n, unit)) <= 20 * (k * n) + k * unit + 10 * unit,
        20 * (k * n) <= 2 * (k * unit * tenths(n, unit)) + k * unit + 10 * unit,
{
    let q = half_even(n * k, unit);
    let t = half_even(10 * q, k);
    law_rounding_is_nearest(n * k, unit);
    law_rounding_is_nearest(10 * q, k);
    assert(t == tenths(n, unit));
    assert(2 * (k * unit * t) <= 20 * (k * n) + k * unit + 10 * unit) by (nonlinear_arith)
        requires
            2 * (unit * q) <= 2 * (n * k) + unit,
            2 * (k * t) <= 2 * (10 * q) + k,
            unit > 0,
            k > 0,
    ;
    assert(20 * (k * n) <= 2 * (k * unit * t) + k * unit + 10 * unit) by (nonlinear_arith)
        requires
            2 * (n * k) <= 2 * (unit * q) + unit,
            2 * (10 * q) <= 2 * (k * t) + k,
            unit > 0,
            k > 0,
    ;
}

} // verus!
