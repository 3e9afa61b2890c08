//! Sizes and durations as the dashboard shows them.
use crate::text;
use vstd::prelude::*;
use vstd::string::*;

verus! {

pub const GB: u64 = 1_073_741_824;

pub const MB: u64 = 1_048_576;

pub const KB: u64 = 1_024;

/// Whole numbers below this one have a double-precision number of their own.
pub const DOUBLE_EXACT: u64 = 9_007_199_254_740_992;

/// The whole number nearest to `n / d`; of two that are equally near, the even one.
pub open spec fn nearest_even(n: nat, d: nat) -> nat {
    let q = n / d;
    let r = n % d;
    if 2 * r < d || (2 * r == d && q % 2 == 0) {
        q
    } else {
        q + 1
    }
}

/// The distance between neighbouring double-precision numbers around the whole number `n`, where
/// that distance is at least one.
pub open spec fn double_spacing(n: nat) -> nat
    decreases n,
{
    if n < DOUBLE_EXACT {
        1
    } else {
        2 * double_spacing(n / 2)
    }
}

/// The double-precision number nearest to the whole number `n`.
pub open spec fn as_double(n: nat) -> nat {
    nearest_even(n, double_spacing(n)) * double_spacing(n)
}

/// How many tenths of `unit` stand for `bytes` bytes, rounded to the nearest tenth.
pub open spec fn tenths_of(bytes: nat, unit: nat) -> nat {
    nearest_even(10 * as_double(bytes), unit)
}

/// A number of tenths with one digit behind the decimal point.
pub open spec fn one_decimal(tenths: nat) -> Seq<char> {
    text::decimal(tenths / 10) + "."@ + text::decimal(tenths % 10)
}

/// The unit in which a size is shown.
pub open spec fn unit_of(bytes: nat) -> nat {
    if bytes >= GB {
        GB as nat
    } else if bytes >= MB {
        MB as nat
    } else if bytes >= KB {
        KB as nat
    } else {
        1
    }
}

/// A size in gigabytes, megabytes, kilobytes or bytes, whichever is the largest that fits.
pub open spec fn human_size(bytes: nat) -> Seq<char> {
    if bytes >= GB {
        one_decimal(tenths_of(bytes, GB as nat)) + " GB"@
    } else if bytes >= MB {
        one_decimal(tenths_of(bytes, MB as nat)) + " MB"@
    } else if bytes >= KB {
        one_decimal(tenths_of(bytes, KB as nat)) + " KB"@
    } else {
        text::decimal(bytes) + " B"@
    }
}

/// A duration in days, hours and minutes; the days only where there are any.
pub open spec fn human_uptime(secs: nat) -> Seq<char> {
    let days = secs / 86400;
    let hours = secs / 3600 % 24;
    let mins = secs / 60 % 60;
    let clock = text::decimal(hours) + "h "@ + text::decimal(mins) + "m"@;
    if days > 0 {
        text::decimal(days) + "d "@ + clock
    } else {
        clock
    }
}

/// The whole number nearest to `n / d`.
fn round_even(n: u128, d: u128) -> (r: u128)
    requires
        0 < d <= 0x1_0000_0000_0000_0000,
    ensures
        r == nearest_even(n as nat, d as nat),
        r <= n / d + 1,
{
    let q: u128 = n / d;
    let rest: u128 = n % d;
    proof {
        assert(q * d <= n) by (nonlinear_arith)
            requires
                q == n / d,
                d > 0,
        ;
    }
    if 2 * rest < d || (2 * rest == d && q % 2 == 0) {
        q
    } else {
        assert(d > 1);
        assert(q < u128::MAX) by (nonlinear_arith)
            requires
                q * d <= n <= u128::MAX,
                d > 1,
        ;
        q + 1
    }
}

/// The distance between neighbouring double-precision numbers around `n`.
fn spacing(n: u64) -> (r: u128)
    ensures
        r == double_spacing(n as nat),
        1 <= r <= 4094,
{
    let mut u: u64 = 1;
    let mut x: u64 = n;
    while x >= DOUBLE_EXACT
        invariant
            double_spacing(n as nat) == u * double_spacing(x as nat),
            1 <= u <= 4094,
            u * x <= n,
        decreases x,
    {
        assert(u <= 2047) by (nonlinear_arith)
            requires
                u * x <= n,
                x >= DOUBLE_EXACT,
                n <= u64::MAX,
                DOUBLE_EXACT == 9_007_199_254_740_992,
        ;
        proof {
            let s = double_spacing((x / 2) as nat);
            assert(u * (2 * s) == (2 * u) * s) by (nonlinear_arith);
            assert((2 * u) * (x / 2) <= u * x) by (nonlinear_arith)
                requires
                    u >= 1,
            ;
        }
        u = 2 * u;
        x = x / 2;
    }
    assert(u * 1 == u);
    u as u128
}

/// `tenths` with one digit behind the decimal point, and the name of the unit.
fn one_decimal_text(tenths: u64, unit: &str) -> (r: String)
    ensures
        r@ == one_decimal(tenths as nat) + unit@,
{
    text::decimal_text(tenths / 10).concat(".").concat(
        text::decimal_text(tenths % 10).as_str(),
    ).concat(unit)
}

/// How many tenths of `unit` stand for `bytes` bytes.
fn tenths(bytes: u64, unit: u64) -> (r: u64)
    requires
        unit == GB || (unit == MB && bytes < GB) || (unit == KB && bytes < MB),
    ensures
        r == tenths_of(bytes as nat, unit as nat),
{
    let u: u128 = spacing(bytes);
    let steps: u128 = round_even(bytes as u128, u);
    proof {
        assert(steps * u <= bytes + u) by (nonlinear_arith)
            requires
                steps <= bytes as u128 / u + 1,
                u >= 1,
        ;
    }
    let value: u128 = steps * u;
    let r: u128 = round_even(10 * value, unit as u128);
    proof {
        if bytes < GB {
            assert(u == 1);
        }
    }
    r as u64
}

/// A size in gigabytes, megabytes, kilobytes or bytes, whichever is the largest that fits.
pub fn fmt_bytes(b: u64) -> (r: String)
    ensures
        r@ == human_size(b as nat),
{
    if b >= GB {
        one_decimal_text(tenths(b, GB), " GB")
    } else if b >= MB {
        one_decimal_text(tenths(b, MB), " MB")
    } else if b >= KB {
        one_decimal_text(tenths(b, KB), " KB")
    } else {
        text::decimal_text(b).concat(" B")
    }
}

/// A duration in days, hours and minutes; the days only where there are any.
pub fn fmt_uptime(secs: u64) -> (r: String)
    ensures
        r@ == human_uptime(secs as nat),
{
    let days: u64 = secs / 86400;
    let hours: u64 = (secs % 86400) / 3600;
    let mins: u64 = (secs % 3600) / 60;
    assert(hours == secs / 3600 % 24);
    assert(mins == secs / 60 % 60);
    let clock = text::decimal_text(hours).concat("h ").concat(
        text::decimal_text(mins).as_str(),
    ).concat("m");
    if days > 0 {
        text::decimal_text(days).concat("d ").concat(clock.as_str())
    } else {
        clock
    }
}

/// The days, hours and minutes that are shown make up the duration, but for less than a minute.
pub proof fn uptime_accounts_for_every_minute(secs: nat)
    ensures
        secs / 3600 % 24 < 24,
        secs / 60 % 60 < 60,
        0 <= secs - (86400 * (secs / 86400) + 3600 * (secs / 3600 % 24) + 60 * (secs / 60 % 60))
            < 60,
{
    let mins = secs / 60;
    let hours = mins / 60;
    let days = hours / 24;
    assert(secs / 3600 == hours);
    assert(secs / 86400 == days);
}

/// Double precision holds small numbers exactly.
proof fn lemma_small_is_exact(n: nat)
    requires
        n < DOUBLE_EXACT,
    ensures
        as_double(n) == n,
{
    assert(double_spacing(n) == 1);
    assert(n / 1 == n && n % 1 == 0);
    assert(nearest_even(n, 1) == n);
    assert(n * 1 == n);
}

/// A size of a kilobyte or more is shown in tenths of its unit that miss it by at most half a
/// tenth, as long as double precision holds the number of bytes exactly.
pub proof fn size_is_shown_to_the_nearest_tenth(bytes: nat)
    requires
        KB <= bytes < DOUBLE_EXACT,
    ensures
        2 * (10 * bytes - tenths_of(bytes, unit_of(bytes)) * unit_of(bytes)) <= unit_of(bytes),
        2 * (tenths_of(bytes, unit_of(bytes)) * unit_of(bytes) - 10 * bytes) <= unit_of(bytes),
{
    let unit = unit_of(bytes);
    let n = 10 * bytes;
    lemma_small_is_exact(bytes);
    assert(n == (n / unit) * unit + n % unit) by (nonlinear_arith)
        requires
            unit > 0,
    ;
    assert((n / unit + 1) * unit == (n / unit) * unit + unit) by (nonlinear_arith);
}

/// Where the spacing of double-precision numbers puts `n`.
proof fn lemma_spacing_bounds(n: nat)
    ensures
        double_spacing(n) >= 1,
        n < DOUBLE_EXACT * double_spacing(n),
        double_spacing(n) == 1 || DOUBLE_EXACT * double_spacing(n) <= 2 * n,
    decreases n,
{
    if n >= DOUBLE_EXACT {
        lemma_spacing_bounds(n / 2);
    }
}

/// The spacing stays the same or at least doubles.
proof fn lemma_spacing_grows(n: nat, m: nat)
    requires
        n <= m,
    ensures
        double_spacing(n) == double_spacing(m) || 2 * double_spacing(n) <= double_spacing(m),
    decreases m,
{
    if n >= DOUBLE_EXACT {
        lemma_spacing_grows(n / 2, m / 2);
    } else if m >= DOUBLE_EXACT {
        lemma_spacing_bounds(m / 2);
    }
}

/// Rounding keeps the order.
proof fn lemma_rounding_keeps_order(n: nat, m: nat, d: nat)
    requires
        n <= m,
        d > 0,
    ensures
        nearest_even(n, d) <= nearest_even(m, d),
{
    assert(n / d <= m / d) by (nonlinear_arith)
        requires
            n <= m,
            d > 0,
    ;
    assert(n == (n / d) * d + n % d) by (nonlinear_arith)
        requires
            d > 0,
    ;
    assert(m == (m / d) * d + m % d) by (nonlinear_arith)
        requires
            d > 0,
    ;
}

/// A multiple of the step is rounded to itself.
proof fn lemma_multiple_is_exact(k: nat, d: nat)
    requires
        d > 0,
    ensures
        nearest_even(k * d, d) == k,
{
    assert((k * d) / d == k && (k * d) % d == 0) by (nonlinear_arith)
        requires
            d > 0,
    ;
}

/// A larger number has a double-precision number that is not smaller.
proof fn lemma_double_keeps_order(n: nat, m: nat)
    requires
        n <= m,
    ensures
        as_double(n) <= as_double(m),
{
    let u = double_spacing(n);
    let v = double_spacing(m);
    lemma_spacing_bounds(n);
    lemma_spacing_bounds(m);
    lemma_spacing_grows(n, m);
    if u == v {
        lemma_rounding_keeps_order(n, m, u);
        assert(nearest_even(n, u) * u <= nearest_even(m, u) * u) by (nonlinear_arith)
            requires
                nearest_even(n, u) <= nearest_even(m, u),
        ;
    } else {
        let full = DOUBLE_EXACT as nat;
        let half = 4_503_599_627_370_496nat;
        lemma_multiple_is_exact(full, u);
        lemma_rounding_keeps_order(n, full * u, u);
        assert(nearest_even(n, u) * u <= full * u) by (nonlinear_arith)
            requires
                nearest_even(n, u) <= full,
        ;
        lemma_multiple_is_exact(half, v);
        lemma_rounding_keeps_order(half * v, m, v);
        assert(half * v <= nearest_even(m, v) * v) by (nonlinear_arith)
            requires
                half <= nearest_even(m, v),
        ;
    }
}

/// Within one unit, a larger size is never shown as a smaller one.
pub proof fn sizes_keep_their_order(small: nat, large: nat)
    requires
        small <= large,
        unit_of(small) == unit_of(large),
    ensures
        tenths_of(small, unit_of(small)) <= tenths_of(large, unit_of(large)),
{
    lemma_double_keeps_order(small, large);
    lemma_rounding_keeps_order(10 * as_double(small), 10 * as_double(large), unit_of(small));
}

/// A size is shown in the largest unit that it fills: below a kilobyte as its number of bytes, else
/// as a number with one decimal that misses the true value by at most half a tenth of the unit. Where
/// double precision does not hold the number of bytes, up to a kilobyte comes on top.
pub proof fn sizes_are_shown_in_the_largest_unit(bytes: nat) -> (n: nat)
    requires
        bytes <= u64::MAX,
    ensures
        bytes < 1024 ==> human_size(bytes) == text::decimal(bytes) + " B"@,
        1024 <= bytes < 1048576 ==> human_size(bytes) == text::decimal(n / 10) + "."@
            + text::decimal(n % 10) + " KB"@ && -512 <= 10 * bytes - 1024 * n <= 512,
        1048576 <= bytes < 1073741824 ==> human_size(bytes) == text::decimal(n / 10) + "."@
            + text::decimal(n % 10) + " MB"@ && -524288 <= 10 * bytes - 1048576 * n <= 524288,
        bytes >= 1073741824 ==> human_size(bytes) == text::decimal(n / 10) + "."@ + text::decimal(
            n % 10,
        ) + " GB"@,
        1073741824 <= bytes < 9007199254740992 ==> -536870912 <= 10 * bytes - 1073741824 * n
            <= 536870912,
        bytes >= 9007199254740992 ==> -536881152 <= 10 * bytes - 1073741824 * n <= 536881152,
{
    let unit = unit_of(bytes);
    let n = tenths_of(bytes, unit);
    lemma_double_is_near(bytes);
    let d = 10 * as_double(bytes);
    assert(d == (d / unit) * unit + d % unit) by (nonlinear_arith)
        requires
            unit > 0,
    ;
    assert((d / unit + 1) * unit == (d / unit) * unit + unit) by (nonlinear_arith);
    assert(-unit <= 2 * (d - n * unit) <= unit);
    assert(unit == 1024 ==> n * unit == 1024 * n) by (nonlinear_arith);
    assert(unit == 1048576 ==> n * unit == 1048576 * n) by (nonlinear_arith);
    assert(unit == 1073741824 ==> n * unit == 1073741824 * n) by (nonlinear_arith);
    n
}

/// Double precision misses a number of 64 bits by at most 1024, and a small one not at all.
proof fn lemma_double_is_near(n: nat)
    requires
        n <= u64::MAX,
    ensures
        -1024 <= as_double(n) - n <= 1024,
        n < DOUBLE_EXACT ==> as_double(n) == n,
{
    if n < DOUBLE_EXACT {
        lemma_small_is_exact(n);
    } else {
        let u = double_spacing(n);
        lemma_spacing_bounds(n);
        lemma_spacing_values(n, 2048);
        assert(n == (n / u) * u + n % u) by (nonlinear_arith)
            requires
                u > 0,
        ;
        assert((n / u + 1) * u == (n / u) * u + u) by (nonlinear_arith);
    }
}

/// A size that lies halfway between two tenths is shown as the even one, in every unit.
pub proof fn halfway_sizes_go_to_the_even_tenth(bytes: nat, n: nat)
    ensures
        ({
            let even = if n % 2 == 0 {
                n
            } else {
                n + 1
            };
            let shown = text::decimal(even / 10) + "."@ + text::decimal(even % 10);
            &&& 1024 <= bytes < 1048576 && 20 * bytes == 1024 * (2 * n + 1) ==> human_size(bytes)
                == shown + " KB"@
            &&& 1048576 <= bytes < 1073741824 && 20 * bytes == 1048576 * (2 * n + 1) ==> human_size(
                bytes,
            ) == shown + " MB"@
            &&& 1073741824 <= bytes < 9007199254740992 && 20 * bytes == 1073741824 * (2 * n + 1)
                ==> human_size(bytes) == shown + " GB"@
        }),
{
    if bytes < DOUBLE_EXACT {
        lemma_small_is_exact(bytes);
        let d = 10 * bytes;
        assert(20 * bytes == 1024 * (2 * n + 1) ==> d / 1024 == n && d % 1024 == 512);
        assert(20 * bytes == 1048576 * (2 * n + 1) ==> d / 1048576 == n && d % 1048576 == 524288);
        assert(20 * bytes == 1073741824 * (2 * n + 1) ==> d / 1073741824 == n && d % 1073741824
            == 536870912);
    }
}

/// A number of bytes beyond what double precision holds is first rounded to a multiple of the spacing
/// there, a power of two of which it is more than 2^52 and less than 2^53 times as large, and then to
/// tenths of a gigabyte; halfway both go to the even side.
pub proof fn large_sizes_are_rounded_twice(bytes: nat) -> (r: (nat, nat, nat))
    requires
        9007199254740992 <= bytes <= u64::MAX,
    ensures
        ({
            let (spacing, steps, n) = r;
            &&& spacing == 2 || spacing == 4 || spacing == 8 || spacing == 16 || spacing == 32
                || spacing == 64 || spacing == 128 || spacing == 256 || spacing == 512 || spacing
                == 1024 || spacing == 2048
            &&& 4503599627370496 * spacing <= bytes < 9007199254740992 * spacing
            &&& -spacing <= 2 * (bytes - steps * spacing) <= spacing
            &&& 2 * (bytes - steps * spacing) == spacing || 2 * (bytes - steps * spacing)
                == -spacing ==> steps % 2 == 0
            &&& -1073741824 <= 2 * (10 * (steps * spacing) - 1073741824 * n) <= 1073741824
            &&& 2 * (10 * (steps * spacing) - 1073741824 * n) == 1073741824 || 2 * (10 * (steps
                * spacing) - 1073741824 * n) == -1073741824 ==> n % 2 == 0
            &&& human_size(bytes) == text::decimal(n / 10) + "."@ + text::decimal(n % 10) + " GB"@
        }),
{
    let u = double_spacing(bytes);
    let steps = nearest_even(bytes, u);
    let d = 10 * (steps * u);
    let n = nearest_even(d, 1073741824);
    lemma_spacing_bounds(bytes);
    lemma_spacing_values(bytes, 2048);
    assert(bytes == (bytes / u) * u + bytes % u) by (nonlinear_arith)
        requires
            u > 0,
    ;
    assert((bytes / u + 1) * u == (bytes / u) * u + u) by (nonlinear_arith);
    (u, steps, n)
}

/// The spacing is a power of two.
proof fn lemma_spacing_values(n: nat, most: nat)
    requires
        most == 1 || most == 2 || most == 4 || most == 8 || most == 16 || most == 32 || most == 64
            || most == 128 || most == 256 || most == 512 || most == 1024 || most == 2048,
        n < DOUBLE_EXACT * most,
    ensures
        ({
            let u = double_spacing(n);
            u == 1 || u == 2 || u == 4 || u == 8 || u == 16 || u == 32 || u == 64 || u == 128 || u
                == 256 || u == 512 || u == 1024 || u == 2048
        }),
        n >= DOUBLE_EXACT ==> double_spacing(n) >= 2,
        double_spacing(n) <= most,
    decreases most,
{
    if n >= DOUBLE_EXACT {
        lemma_spacing_values(n / 2, most / 2);
    }
}

/// A duration is shown as days, hours and minutes that make it up but for less than a minute, with
/// fewer than 24 hours and 60 minutes; days are left out exactly if there are none.
pub proof fn uptime_is_shown_to_the_minute(secs: nat) -> (dhm: (nat, nat, nat))
    ensures
        dhm.1 < 24,
        dhm.2 < 60,
        0 <= secs - (86400 * dhm.0 + 3600 * dhm.1 + 60 * dhm.2) < 60,
        dhm.0 > 0 ==> human_uptime(secs) == text::decimal(dhm.0) + "d "@ + (text::decimal(dhm.1)
            + "h "@ + text::decimal(dhm.2) + "m"@),
        dhm.0 == 0 ==> human_uptime(secs) == text::decimal(dhm.1) + "h "@ + text::decimal(dhm.2)
            + "m"@,
{
    uptime_accounts_for_every_minute(secs);
    (secs / 86400, secs / 3600 % 24, secs / 60 % 60)
}

} // verus!
