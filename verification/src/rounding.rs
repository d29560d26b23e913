//! Binary floating-point rounding, carried out on integers.
//!
//! Two sizes of the upmixer are computed in binary floating point: the shortest window that
//! resolves a frequency (single precision) and the share of device memory that may be used
//! (double precision).  Both start from an integer and end in one, so that their exact result
//! is a matter of integer arithmetic once rounding to nearest, ties to even, is written out.
use vstd::arithmetic::div_mod::lemma_fundamental_div_mod;
use vstd::arithmetic::power2::{
    lemma2_to64, lemma2_to64_rest, lemma_pow2_adds, lemma_pow2_pos, lemma_pow2_unfold, pow2,
};
use vstd::math::abs;
use vstd::prelude::*;

verus! {

/// Single-precision significands are below this limit: 24 bits.
pub const SINGLE_LIMIT: u128 = 0x100_0000;

/// Double-precision significands are below this limit: 53 bits.
pub const DOUBLE_LIMIT: u128 = 0x20_0000_0000_0000;

/// Quotients are counted in units of one over this scale (2 to the 64th).
pub const QUOTIENT_SCALE: u128 = 0x1_0000_0000_0000_0000;

/// The integer nearest to `n / d`; of two equally near ones, the even one.
pub open spec fn half_even(n: nat, d: nat) -> nat {
    let q = n / d;
    let r = n % d;
    if 2 * r < d || (2 * r == d && q % 2 == 0) {
        q
    } else {
        q + 1
    }
}

/// The distance between neighbouring floating-point numbers around `x`, when significands stay
/// below `limit`: the smallest power of two that brings `x` below `limit` by division.
pub open spec fn unit_at(x: nat, limit: nat) -> nat
    decreases x,
{
    if x < limit || limit == 0 {
        1
    } else {
        2 * unit_at(x / 2, limit)
    }
}

/// The floating-point number nearest to `x`, when significands stay below `limit`.
pub open spec fn rounded(x: nat, limit: nat) -> nat {
    half_even(x, unit_at(x, limit)) * unit_at(x, limit)
}

/// The single-precision number nearest to `a / b`, counted in units of `1 / QUOTIENT_SCALE`.
pub open spec fn single_quotient(a: nat, b: nat) -> nat {
    let unit = unit_at(a * QUOTIENT_SCALE as nat / b, SINGLE_LIMIT as nat);
    half_even(a * QUOTIENT_SCALE as nat, b * unit) * unit
}

/// The least integer that is at least `n / d`.
pub open spec fn ceil_div(n: nat, d: nat) -> nat
    recommends
        d > 0,
{
    ((n + d - 1) / d as int) as nat
}

/// Rounds `n / d` to the nearest integer, ties to even.
pub fn round_half_even(n: u128, d: u128) -> (q: u128)
    requires
        d > 0,
        n < u128::MAX,
    ensures
        q == half_even(n as nat, d as nat),
        q <= n + 1,
        2 * abs(q * d - n) <= d,
        2 * abs(q * d - n) == d ==> q % 2 == 0,
{
    let q: u128 = n / d;
    let r: u128 = n % d;
    proof {
        lemma_half_even_nearest(n as nat, d as nat);
        lemma_fundamental_div_mod(n as int, d as int);
        assert(q <= n) by (nonlinear_arith)
            requires
                n == d * q + r,
                d >= 1,
                r >= 0,
        ;
    }
    if r < d - r || (r == d - r && q % 2 == 0) {
        q
    } else {
        q + 1
    }
}

/// The distance between neighbouring floating-point numbers around `x`.
pub fn unit_around(x: u128, limit: u128) -> (unit: u128)
    requires
        limit >= 2,
    ensures
        unit == unit_at(x as nat, limit as nat),
        1 <= unit,
        unit == 1 || unit * limit <= 2 * x,
        x < unit * limit,
        exists|k: nat| unit == #[trigger] pow2(k),
{
    proof {
        lemma_unit_is_least_power(x as nat, limit as nat);
    }
    let mut unit: u128 = 1;
    let mut rest: u128 = x;
    while rest >= limit
        invariant
            limit >= 2,
            unit >= 1,
            unit * rest <= x,
            unit * unit_at(rest as nat, limit as nat) == unit_at(x as nat, limit as nat),
            unit == 1 || unit * limit <= 2 * x,
        decreases rest,
    {
        let half: u128 = rest / 2;
        proof {
            let tail = unit_at(half as nat, limit as nat) as int;
            assert(unit * (2 * tail) == (2 * unit) * tail) by (nonlinear_arith);
            assert((2 * unit) * half <= x) by (nonlinear_arith)
                requires
                    unit * rest <= x,
                    2 * half <= rest,
                    unit >= 1,
            ;
            assert(unit * limit <= x) by (nonlinear_arith)
                requires
                    unit * rest <= x,
                    limit <= rest,
                    unit >= 1,
            ;
            assert((2 * unit) * limit == 2 * (unit * limit)) by (nonlinear_arith);
            assert(unit * 2 <= x) by (nonlinear_arith)
                requires
                    unit * limit <= x,
                    limit >= 2,
                    unit >= 1,
            ;
        }
        rest = half;
        unit = unit * 2;
    }
    assert(unit_at(rest as nat, limit as nat) == 1);
    unit
}

/// Rounds `x` to the nearest floating-point number with a significand below `limit`.
pub fn round_to_limit(x: u128, limit: u128) -> (r: u128)
    requires
        limit >= 2,
        x < 0x4000_0000_0000_0000_0000_0000_0000_0000,
    ensures
        r == rounded(x as nat, limit as nat),
        r <= 2 * x,
        exists|k: nat|
            {
                let unit = #[trigger] pow2(k);
                &&& unit == 1 || unit * limit <= 2 * x
                &&& x < unit * limit
                &&& r as nat % unit == 0
                &&& 2 * abs(r - x) <= unit
                &&& 2 * abs(r - x) == unit ==> (r as nat / unit) % 2 == 0
            },
{
    let unit: u128 = unit_around(x, limit);
    let q: u128 = round_half_even(x, unit);
    proof {
        lemma_rounded_nearest(x as nat, limit as nat);
        lemma_rounded_near(x as nat, limit as nat);
        assert(q * unit <= 2 * x) by (nonlinear_arith)
            requires
                (q * unit) * limit <= x * limit + x,
                limit >= 2,
        ;
    }
    q * unit
}

/// Converts to single precision.
pub fn to_single(x: u32) -> (r: u128)
    ensures
        r == rounded(x as nat, SINGLE_LIMIT as nat),
        r <= 0x1_0000_0000,
        x <= 0x8000_0000 ==> r <= 0x8000_0000,
        x < SINGLE_LIMIT ==> r == x,
        x >= SINGLE_LIMIT ==> 2 * r >= x,
        exists|k: nat|
            {
                let unit = #[trigger] pow2(k);
                &&& unit == 1 || unit * 0x100_0000 <= 2 * x
                &&& x < unit * 0x100_0000
                &&& r as nat % unit == 0
                &&& 2 * abs(r - x) <= unit
                &&& 2 * abs(r - x) == unit ==> (r as nat / unit) % 2 == 0
            },
{
    let r: u128 = round_to_limit(x as u128, SINGLE_LIMIT);
    proof {
        let unit = unit_at(x as nat, SINGLE_LIMIT as nat);
        lemma2_to64();
        let times = lemma_unit_divides(x as nat, SINGLE_LIMIT as nat, 8);
        assert(unit >= 1 && times >= 1) by (nonlinear_arith)
            requires
                256 == times * unit,
        ;
        assert(x <= (times * 0x100_0000) * unit) by (nonlinear_arith)
            requires
                256 == times * unit,
                x < 0x1_0000_0000,
        ;
        lemma_half_even_at_most(x as nat, unit, times * 0x100_0000);
        lemma_half_even_near(x as nat, unit);
        assert(half_even(x as nat, unit) * unit <= 0x1_0000_0000) by (nonlinear_arith)
            requires
                half_even(x as nat, unit) <= times * 0x100_0000,
                256 == times * unit,
                unit >= 1,
        ;
        if x <= 0x8000_0000 {
            assert(x <= (times * 0x80_0000) * unit) by (nonlinear_arith)
                requires
                    256 == times * unit,
                    x <= 0x8000_0000,
            ;
            lemma_half_even_at_most(x as nat, unit, times * 0x80_0000);
            assert(half_even(x as nat, unit) * unit <= 0x8000_0000) by (nonlinear_arith)
                requires
                    half_even(x as nat, unit) <= times * 0x80_0000,
                    256 == times * unit,
                    unit >= 1,
            ;
        }
        assert(unit <= 256) by (nonlinear_arith)
            requires
                256 == times * unit,
                times >= 1,
                unit >= 1,
        ;
        if x < SINGLE_LIMIT {
            assert(x as nat / 1 == x && x as nat % 1 == 0);
        }
    }
    r
}

/// Divides in single precision; the quotient comes in units of `1 / QUOTIENT_SCALE`.
pub fn divide_single(a: u128, b: u128) -> (r: u128)
    requires
        a <= 0x1_0000_0000,
        0 < b <= 0x1_0000_0000,
    ensures
        r == single_quotient(a as nat, b as nat),
        r <= 0x1_0000_0000 * QUOTIENT_SCALE,
        2 <= b || a <= 0x8000_0000 ==> r <= 0x8000_0000 * QUOTIENT_SCALE,
        exists|k: nat|
            {
                let unit = #[trigger] pow2(k);
                let scaled = a * 0x1_0000_0000_0000_0000;
                &&& unit == 1 || unit * 0x100_0000 * b <= 2 * scaled
                &&& scaled < unit * 0x100_0000 * b
                &&& r as nat % unit == 0
                &&& 2 * abs(r * b - scaled) <= unit * b
                &&& 2 * abs(r * b - scaled) == unit * b ==> (r as nat / unit) % 2 == 0
            },
{
    proof {
        lemma_single_quotient_nearest(a as nat, b as nat);
    }
    assert(a * QUOTIENT_SCALE <= 0x1_0000_0000 * QUOTIENT_SCALE) by (nonlinear_arith)
        requires
            a <= 0x1_0000_0000,
    ;
    let scaled: u128 = a * QUOTIENT_SCALE;
    let whole: u128 = scaled / b;
    let unit: u128 = unit_around(whole, SINGLE_LIMIT);
    proof {
        lemma_fundamental_div_mod(scaled as int, b as int);
        assert(b * unit <= scaled + b) by (nonlinear_arith)
            requires
                scaled >= b * whole,
                unit == 1 || unit * SINGLE_LIMIT <= 2 * whole,
                b >= 1,
                scaled >= 0,
        ;
        assert(b * unit >= 1) by (nonlinear_arith)
            requires
                b >= 1,
                unit >= 1,
        ;
    }
    let step: u128 = b * unit;
    let q: u128 = round_half_even(scaled, step);
    proof {
        lemma2_to64();
        assert(a <= b * 0x1_0000_0000) by (nonlinear_arith)
            requires
                a <= 0x1_0000_0000,
                1 <= b,
        ;
        lemma_single_quotient_at_most(a as nat, b as nat, 32);
        if 2 <= b || a <= 0x8000_0000 {
            assert(a <= b * 0x8000_0000) by (nonlinear_arith)
                requires
                    a <= 0x1_0000_0000,
                    2 <= b || a <= 0x8000_0000,
                    1 <= b,
            ;
            lemma_single_quotient_at_most(a as nat, b as nat, 31);
        }
    }
    q * unit
}

/// A single-precision quotient does not pass a power of two.
pub proof fn lemma_single_quotient_at_most(a: nat, b: nat, k: nat)
    requires
        b > 0,
        k <= 32,
        a <= b * pow2(k),
    ensures
        single_quotient(a, b) <= pow2(k) * QUOTIENT_SCALE,
{
    let scale = QUOTIENT_SCALE as nat;
    let bound = pow2(k) * scale;
    let whole = a * scale / b;
    lemma_fundamental_div_mod((a * scale) as int, b as int);
    assert(a * scale <= b * bound) by (nonlinear_arith)
        requires
            a <= b * pow2(k),
            bound == pow2(k) * scale,
            scale >= 0,
    ;
    assert(whole <= bound) by (nonlinear_arith)
        requires
            b * whole <= a * scale,
            a * scale <= b * bound,
            b >= 1,
    ;
    lemma_pow2_adds(k, 64);
    lemma2_to64_rest();
    lemma_pow2_adds(24, (k + 41) as nat);
    lemma_pow2_adds(1, (k + 64) as nat);
    lemma2_to64();
    lemma_pow2_pos(k + 64);
    assert(bound == pow2(k + 64));
    assert(pow2(1) * pow2(k + 64) == pow2(24) * pow2((k + 41) as nat));
    assert(pow2(k + 64) < pow2(1) * pow2(k + 64)) by (nonlinear_arith)
        requires
            pow2(1) == 2,
            pow2(k + 64) > 0,
    ;
    let times = lemma_unit_divides(whole, SINGLE_LIMIT as nat, (k + 41) as nat);
    lemma_pow2_adds((k + 41) as nat, 23);
    let unit = unit_at(whole, SINGLE_LIMIT as nat);
    let rest = pow2(23) * times;
    assert(bound == rest * unit) by (nonlinear_arith)
        requires
            bound == pow2((k + 41) as nat) * pow2(23),
            pow2((k + 41) as nat) == times * unit,
            rest == pow2(23) * times,
    ;
    assert(bound >= 1);
    assert(unit >= 1) by (nonlinear_arith)
        requires
            bound == rest * unit,
            bound >= 1,
    ;
    assert(b * bound == rest * (b * unit)) by (nonlinear_arith)
        requires
            bound == rest * unit,
    ;
    assert(b * unit > 0) by (nonlinear_arith)
        requires
            b >= 1,
            unit >= 1,
    ;
    lemma_half_even_at_most(a * scale, b * unit, rest);
    let q = half_even(a * scale, b * unit);
    assert(q * unit <= rest * unit) by (nonlinear_arith)
        requires
            q <= rest,
            unit >= 0,
    ;
}

/// Rounding to a multiple of `d` moves a number by at most half of `d`.
pub proof fn lemma_half_even_near(n: nat, d: nat)
    requires
        d > 0,
    ensures
        2 * (half_even(n, d) * d) <= 2 * n + d,
        2 * n <= 2 * (half_even(n, d) * d) + d,
{
    lemma_fundamental_div_mod(n as int, d as int);
    let q = n / d;
    assert((q + 1) * d == q * d + d) by (nonlinear_arith);
    assert(d * q == q * d) by (nonlinear_arith);
}

/// Rounding to a multiple of `d` does not pass a multiple of `d`.
pub proof fn lemma_half_even_at_most(n: nat, d: nat, k: nat)
    requires
        d > 0,
        n <= k * d,
    ensures
        half_even(n, d) <= k,
{
    lemma_fundamental_div_mod(n as int, d as int);
    let q = n / d;
    let r = n % d;
    assert(q < k || (q == k && r == 0)) by (nonlinear_arith)
        requires
            n == d * q + r,
            n <= k * d,
            0 <= r < d,
    ;
}

/// Rounding moves a number by at most its `limit`-th part.
pub proof fn lemma_rounded_near(x: nat, limit: nat)
    requires
        limit > 0,
    ensures
        rounded(x, limit) * limit <= x * limit + x,
        x * limit <= rounded(x, limit) * limit + x,
{
    let unit = unit_at(x, limit);
    let r = rounded(x, limit);
    lemma_unit_small(x, limit);
    if unit == 1 {
        assert(x / 1 == x && x % 1 == 0);
    } else {
        lemma_half_even_near(x, unit);
        assert(r * limit <= x * limit + x && x * limit <= r * limit + x) by (nonlinear_arith)
            requires
                2 * r <= 2 * x + unit,
                2 * x <= 2 * r + unit,
                unit * limit <= 2 * x,
                limit > 0,
        ;
    }
}

/// Integers below the limit are floating-point numbers.
pub proof fn lemma_rounded_small(x: nat, limit: nat)
    requires
        x < limit,
    ensures
        rounded(x, limit) == x,
{
    assert(unit_at(x, limit) == 1);
    assert(x / 1 == x && x % 1 == 0);
}

/// The distance between neighbouring numbers around `x` is at most a `limit / 2`-th part of `x`,
/// unless it is one.
pub proof fn lemma_unit_small(x: nat, limit: nat)
    requires
        limit > 0,
    ensures
        unit_at(x, limit) >= 1,
        unit_at(x, limit) == 1 || unit_at(x, limit) * limit <= 2 * x,
    decreases x,
{
    if x >= limit {
        let tail = unit_at(x / 2, limit);
        lemma_unit_small(x / 2, limit);
        assert(unit_at(x, limit) == 2 * tail);
        assert((2 * tail) * limit == 2 * (tail * limit)) by (nonlinear_arith);
        if tail == 1 {
            assert(1 * limit == limit);
        }
    }
}

/// Below the limit of exact integers, rounding a single-precision quotient up to an integer gives
/// what exact division gives.
pub proof fn lemma_single_quotient_rounds_up_exactly(a: nat, b: nat)
    requires
        a < SINGLE_LIMIT,
        0 < b < SINGLE_LIMIT,
    ensures
        ceil_div(single_quotient(a, b), QUOTIENT_SCALE as nat) == ceil_div(a, b),
{
    let scale = QUOTIENT_SCALE as nat;
    let n = a * scale;
    let whole = n / b;
    let limit = SINGLE_LIMIT as nat;
    let unit = unit_at(whole, limit);
    let q = half_even(n, b * unit);
    let r = q * unit;
    let c = ceil_div(a, b);
    lemma_fundamental_div_mod(n as int, b as int);
    lemma_unit_small(whole, limit);
    lemma_fundamental_div_mod((a + b - 1) as int, b as int);
    assert((a + b - 1) as int / b as int >= 0) by (nonlinear_arith)
        requires
            a + b - 1 >= 0,
            b > 0,
    ;
    if a == 0 {
        assert(n == 0) by (nonlinear_arith)
            requires
                n == a * scale,
                a == 0,
        ;
        assert(0nat / b == 0 && 0nat % b == 0) by (nonlinear_arith)
            requires
                b > 0,
        ;
        assert(whole == 0);
        assert(unit == 1);
        assert(b * unit == b) by (nonlinear_arith)
            requires
                unit == 1,
        ;
        assert(half_even(0, b) == 0);
        assert(r == 0) by (nonlinear_arith)
            requires
                r == q * unit,
                q == 0,
        ;
        assert(c == 0) by (nonlinear_arith)
            requires
                c == (b - 1) / b as int,
                b > 0,
        ;
    } else {
        assert(whole < limit * scale) by (nonlinear_arith)
            requires
                b * whole <= a * scale,
                a < limit,
                b >= 1,
                scale > 0,
        ;
        lemma2_to64_rest();
        lemma2_to64();
        let times = lemma_unit_divides(whole, limit, 64);
        assert(b * unit > 0) by (nonlinear_arith)
            requires
                b >= 1,
                unit >= 1,
        ;
        assert(a <= c * b && (c - 1) * b < a && c >= 1) by (nonlinear_arith)
            requires
                a + b - 1 == b * c + ((a + b - 1) as int % b as int),
                0 <= ((a + b - 1) as int % b as int) < b,
                a >= 1,
                b >= 1,
                c >= 0,
        ;
        assert(n <= (c * times) * (b * unit)) by (nonlinear_arith)
            requires
                n == a * scale,
                a <= c * b,
                scale == times * unit,
                scale > 0,
        ;
        lemma_half_even_at_most(n, b * unit, c * times);
        assert(r <= c * scale) by (nonlinear_arith)
            requires
                r == q * unit,
                q <= c * times,
                scale == times * unit,
                unit >= 1,
        ;
        lemma_half_even_near(n, b * unit);
        assert(b * unit < 2 * scale) by (nonlinear_arith)
            requires
                unit == 1 || unit * limit <= 2 * whole,
                b * whole <= a * scale,
                a < limit,
                b < limit,
                limit < scale,
                b >= 1,
                limit > 0,
                whole >= 0,
                unit >= 1,
        ;
        assert((c - 1) * scale < r) by (nonlinear_arith)
            requires
                2 * n <= 2 * (q * (b * unit)) + b * unit,
                n == a * scale,
                (c - 1) * b + 1 <= a,
                b * unit < 2 * scale,
                r == q * unit,
                b >= 1,
                scale > 0,
        ;
        lemma_fundamental_div_mod((r + scale - 1) as int, scale as int);
        let d = (r + scale - 1) as int / scale as int;
        assert(d == c) by (nonlinear_arith)
            requires
                r + scale - 1 == scale * d + ((r + scale - 1) as int % scale as int),
                0 <= ((r + scale - 1) as int % scale as int) < scale,
                (c - 1) * scale < r,
                r <= c * scale,
                scale > 0,
        ;
    }
}

/// Below `limit * 2^k`, the distance between neighbouring numbers divides `2^k`.
pub proof fn lemma_unit_divides(x: nat, limit: nat, k: nat) -> (times: nat)
    requires
        limit > 0,
        x < limit * pow2(k),
    ensures
        pow2(k) == times * unit_at(x, limit),
    decreases x,
{
    if x < limit {
        assert(unit_at(x, limit) == 1);
        pow2(k)
    } else {
        if k == 0 {
            lemma2_to64();
            assert(false);
        }
        lemma_pow2_unfold(k);
        let below = (k - 1) as nat;
        assert(x / 2 < limit * pow2(below)) by (nonlinear_arith)
            requires
                x < limit * (2 * pow2(below)),
        ;
        let times = lemma_unit_divides(x / 2, limit, below);
        let tail = unit_at(x / 2, limit);
        assert(2 * (times * tail) == times * (2 * tail)) by (nonlinear_arith);
        assert(unit_at(x, limit) == 2 * tail);
        times
    }
}

/// Half-even rounding is off by at most a half, and by a half only where it ends on an even number.
pub proof fn lemma_half_even_nearest(n: nat, d: nat)
    requires
        d > 0,
    ensures
        2 * abs(half_even(n, d) * d - n) <= d,
        2 * abs(half_even(n, d) * d - n) == d ==> half_even(n, d) % 2 == 0,
{
    lemma_fundamental_div_mod(n as int, d as int);
    let q = n / d;
    assert((q + 1) * d == q * d + d) by (nonlinear_arith);
    assert(d * q == q * d) by (nonlinear_arith);
}

/// The distance between neighbouring numbers is the least power of two that brings `x` below the
/// limit.
pub proof fn lemma_unit_is_least_power(x: nat, limit: nat)
    requires
        limit > 0,
    ensures
        exists|k: nat| unit_at(x, limit) == #[trigger] pow2(k),
        x < unit_at(x, limit) * limit,
    decreases x,
{
    if x < limit {
        lemma2_to64();
        assert(unit_at(x, limit) == pow2(0));
        assert(1 * limit == limit);
    } else {
        lemma_unit_is_least_power(x / 2, limit);
        let tail = unit_at(x / 2, limit);
        let k = choose|k: nat| tail == #[trigger] pow2(k);
        lemma_pow2_unfold(k + 1);
        assert(unit_at(x, limit) == pow2(k + 1));
        assert((2 * tail) * limit == 2 * (tail * limit)) by (nonlinear_arith);
    }
}

/// A multiple of `unit`, and how many times it holds it.
proof fn lemma_multiple(q: nat, unit: nat)
    requires
        unit > 0,
    ensures
        (q * unit) % unit == 0,
        (q * unit) / unit == q,
{
    vstd::arithmetic::div_mod::lemma_fundamental_div_mod_converse(
        (q * unit) as int,
        unit as int,
        q as int,
        0,
    );
}

proof fn lemma_rounded_nearest(x: nat, limit: nat)
    requires
        limit > 0,
    ensures
        exists|k: nat|
            {
                let unit = #[trigger] pow2(k);
                &&& unit == 1 || unit * limit <= 2 * x
                &&& x < unit * limit
                &&& rounded(x, limit) % unit == 0
                &&& 2 * abs(rounded(x, limit) - x) <= unit
                &&& 2 * abs(rounded(x, limit) - x) == unit ==> (rounded(x, limit) / unit) % 2 == 0
            },
{
    lemma_unit_is_least_power(x, limit);
    lemma_unit_small(x, limit);
    let unit = unit_at(x, limit);
    let k = choose|k: nat| unit == #[trigger] pow2(k);
    lemma_half_even_nearest(x, unit);
    lemma_multiple(half_even(x, unit), unit);
    assert(pow2(k) == unit);
}

proof fn lemma_single_quotient_nearest(a: nat, b: nat)
    requires
        b > 0,
    ensures
        exists|k: nat|
            {
                let unit = #[trigger] pow2(k);
                let scaled = a * 0x1_0000_0000_0000_0000;
                let r = single_quotient(a, b);
                &&& unit == 1 || unit * 0x100_0000 * b <= 2 * scaled
                &&& scaled < unit * 0x100_0000 * b
                &&& r as nat % unit == 0
                &&& 2 * abs(r * b - scaled) <= unit * b
                &&& 2 * abs(r * b - scaled) == unit * b ==> (r as nat / unit) % 2 == 0
            },
{
    let scaled = a * QUOTIENT_SCALE as nat;
    let limit = SINGLE_LIMIT as nat;
    let whole = scaled / b;
    lemma_unit_is_least_power(whole, limit);
    lemma_unit_small(whole, limit);
    lemma_fundamental_div_mod(scaled as int, b as int);
    let unit = unit_at(whole, limit);
    let k = choose|k: nat| unit == #[trigger] pow2(k);
    let q = half_even(scaled, b * unit);
    let r = q * unit;
    assert(b * unit > 0) by (nonlinear_arith)
        requires
            b > 0,
            unit >= 1,
    ;
    lemma_half_even_nearest(scaled, b * unit);
    lemma_multiple(q, unit);
    assert(q * (b * unit) == r * b) by (nonlinear_arith)
        requires
            r == q * unit,
    ;
    assert(b * unit == unit * b) by (nonlinear_arith);
    assert(scaled < unit * limit * b) by (nonlinear_arith)
        requires
            scaled == b * whole + (scaled as int % b as int),
            (scaled as int % b as int) < b,
            whole + 1 <= unit * limit,
            b > 0,
    ;
    if unit != 1 {
        assert(unit * limit * b <= 2 * scaled) by (nonlinear_arith)
            requires
                b * whole <= scaled,
                unit * limit <= 2 * whole,
                b > 0,
        ;
    }
    assert(pow2(k) == unit);
}

/// Rounding yields the nearest integer: no other is nearer, and where another is as near, the
/// rounded one is even.
pub proof fn no_integer_is_nearer(n: u128, d: u128, q: u128, other: int)
    requires
        d > 0,
        call_ensures(round_half_even, (n, d), q),
    ensures
        abs(q * d - n) <= abs(other * d - n),
        other != q && abs(q * d - n) == abs(other * d - n) ==> q % 2 == 0,
{
    if other != q {
        assert(d <= abs(q * d - other * d)) by (nonlinear_arith)
            requires
                q != other,
                d > 0,
        ;
    }
}

/// Rounding to floating point yields the nearest number whose significand stays below the limit:
/// no such number is nearer to `x`.
pub proof fn no_float_is_nearer(x: u128, limit: u128, r: u128, significand: nat, exponent: nat)
    requires
        limit >= 2,
        limit % 2 == 0,
        significand < limit,
        call_ensures(round_to_limit, (x, limit), r),
    ensures
        abs(r - x) <= abs(significand * pow2(exponent) - x),
{
    let k = choose|k: nat|
        {
            let unit = #[trigger] pow2(k);
            &&& unit == 1 || unit * limit <= 2 * x
            &&& x < unit * limit
            &&& r as nat % unit == 0
            &&& 2 * abs(r - x) <= unit
            &&& 2 * abs(r - x) == unit ==> (r as nat / unit) % 2 == 0
        };
    let unit = pow2(k) as int;
    let other = (significand * pow2(exponent)) as int;
    lemma_pow2_pos(k);
    lemma_fundamental_div_mod(r as int, unit);
    let q = r as int / unit;
    assert(r == q * unit) by (nonlinear_arith)
        requires
            r == unit * q,
    ;
    if exponent >= k {
        lemma_pow2_adds(k, (exponent - k) as nat);
        let m = (significand * pow2((exponent - k) as nat)) as int;
        assert(other == m * unit) by (nonlinear_arith)
            requires
                other == significand * pow2(exponent),
                m == significand * pow2((exponent - k) as nat),
                pow2(exponent) == unit * pow2((exponent - k) as nat),
        ;
        if m != q {
            assert(unit <= abs(q * unit - m * unit)) by (nonlinear_arith)
                requires
                    q != m,
                    unit > 0,
            ;
        }
    } else {
        let half = limit as int / 2;
        let edge = half * unit;
        lemma_pow2_unfold(k);
        if exponent < k - 1 {
            vstd::arithmetic::power2::lemma_pow2_strictly_increases(exponent, (k - 1) as nat);
        }
        lemma2_to64();
        if k == 0 {
            assert(false);
        }
        assert(unit >= 2) by {
            lemma_pow2_pos((k - 1) as nat);
        }
        assert(edge * 2 == unit * limit) by (nonlinear_arith)
            requires
                edge == half * unit,
                limit == 2 * half,
        ;
        assert(other <= edge) by (nonlinear_arith)
            requires
                other == significand * pow2(exponent),
                significand <= 2 * half,
                2 * pow2(exponent) <= unit,
                edge == half * unit,
                significand >= 0,
                unit >= 0,
        ;
        if half != q {
            assert(unit <= abs(q * unit - half * unit)) by (nonlinear_arith)
                requires
                    q != half,
                    unit > 0,
            ;
        }
    }
}

/// The single-precision form of an integer is the nearest multiple of the distance between
/// neighbouring numbers, an even one if two are as near; integers of 24 bits are left as they are.
pub proof fn singles_are_nearest(x: u32, r: u128)
    requires
        call_ensures(to_single, (x,), r),
    ensures
        x < 0x100_0000 ==> r == x,
        exists|k: nat|
            {
                let unit = #[trigger] pow2(k);
                &&& unit == 1 || unit * 0x100_0000 <= 2 * x
                &&& x < unit * 0x100_0000
                &&& r as nat % unit == 0
                &&& 2 * abs(r - x) <= unit
                &&& 2 * abs(r - x) == unit ==> (r as nat / unit) % 2 == 0
            },
{
}

/// The single-precision quotient, in units of two to the minus 64th, is the multiple of the distance
/// between neighbouring numbers that is nearest to the exact quotient, an even one if two are as
/// near.
pub proof fn quotients_are_nearest(a: u128, b: u128, r: u128)
    requires
        call_ensures(divide_single, (a, b), r),
    ensures
        exists|k: nat|
            {
                let unit = #[trigger] pow2(k);
                let scaled = a * 0x1_0000_0000_0000_0000;
                &&& unit == 1 || unit * 0x100_0000 * b <= 2 * scaled
                &&& scaled < unit * 0x100_0000 * b
                &&& r as nat % unit == 0
                &&& 2 * abs(r * b - scaled) <= unit * b
                &&& 2 * abs(r * b - scaled) == unit * b ==> (r as nat / unit) % 2 == 0
            },
{
}

/// The distance between neighbouring numbers around `x` is the least power of two that brings `x`
/// below the limit.
pub proof fn units_are_least(x: u128, limit: u128, unit: u128, k: nat)
    requires
        limit >= 2,
        call_ensures(unit_around, (x, limit), unit),
        x < pow2(k) * limit,
    ensures
        x < unit * limit,
        exists|j: nat| unit == #[trigger] pow2(j),
        unit <= pow2(k),
{
    let j = choose|j: nat| unit == #[trigger] pow2(j);
    lemma_pow2_pos(k);
    if k < j {
        lemma_pow2_unfold(j);
        if k < j - 1 {
            vstd::arithmetic::power2::lemma_pow2_strictly_increases(k, (j - 1) as nat);
        }
        assert(2 * (pow2(k) * limit) <= unit * limit) by (nonlinear_arith)
            requires
                2 * pow2(k) <= unit,
                limit >= 0,
        ;
    } else if j < k {
        vstd::arithmetic::power2::lemma_pow2_strictly_increases(j, k);
    }
}

/// A single-precision quotient is off by at most half the distance between neighbouring numbers,
/// which is small against the quotient.
pub(crate) proof fn lemma_quotient_near(a: nat, b: nat) -> (unit: nat)
    requires
        b > 0,
    ensures
        unit == 1 || unit * 0x100_0000 * b <= 2 * (a * 0x1_0000_0000_0000_0000),
        2 * abs(single_quotient(a, b) * b - a * 0x1_0000_0000_0000_0000) <= unit * b,
{
    lemma_single_quotient_nearest(a, b);
    let k = choose|k: nat|
        {
            let unit = #[trigger] pow2(k);
            let scaled = a * 0x1_0000_0000_0000_0000;
            let r = single_quotient(a, b);
            &&& unit == 1 || unit * 0x100_0000 * b <= 2 * scaled
            &&& scaled < unit * 0x100_0000 * b
            &&& r as nat % unit == 0
            &&& 2 * abs(r * b - scaled) <= unit * b
            &&& 2 * abs(r * b - scaled) == unit * b ==> (r as nat / unit) % 2 == 0
        };
    pow2(k)
}

} // verus!
