//! Cutting a channel into overlapping, weighted windows.
use vstd::arithmetic::div_mod::lemma_fundamental_div_mod;
use vstd::arithmetic::power2::{
    lemma2_to64, lemma_pow2_pos, lemma_pow2_strictly_increases, lemma_pow2_unfold, pow2,
};
use vstd::math::abs;
use vstd::prelude::*;

use crate::rounding::{
    divide_single, lemma_rounded_small, lemma_single_quotient_rounds_up_exactly, to_single,
    QUOTIENT_SCALE, SINGLE_LIMIT,
};

verus! {

/// The least number of samples that spans one period of `lowest_hz`, as single-precision
/// arithmetic has it: both rates are rounded, then their quotient, and the result is rounded up.
pub open spec fn period_samples(sample_rate: nat, lowest_hz: nat) -> nat {
    crate::rounding::ceil_div(
        crate::rounding::single_quotient(
            crate::rounding::rounded(sample_rate, SINGLE_LIMIT as nat),
            crate::rounding::rounded(lowest_hz, SINGLE_LIMIT as nat),
        ),
        QUOTIENT_SCALE as nat,
    )
}

/// `w` is the least power of two that is at least `least`.
pub open spec fn least_power_of_two(w: nat, least: nat) -> bool {
    &&& exists|k: nat| w == #[trigger] pow2(k)
    &&& least <= w
    &&& forall|k: nat| least <= #[trigger] pow2(k) ==> w <= pow2(k)
}

/// The window length for a sample rate: the least power of two that spans one period of
/// `lowest_hz`.
pub fn ideal_window_size(sample_rate: u32, lowest_hz: u32) -> (w: usize)
    requires
        lowest_hz > 0,
        lowest_hz >= 2 || sample_rate <= 0x8000_0000,
    ensures
        least_power_of_two(w as nat, period_samples(sample_rate as nat, lowest_hz as nat)),
        w == 1 || w % 2 == 0,
        exists|k: nat| w == #[trigger] pow2(k),
        sample_rate < 0x100_0000 && lowest_hz < 0x100_0000 ==> {
            &&& sample_rate <= w * lowest_hz
            &&& w > 1 ==> (w as int / 2) * lowest_hz < sample_rate
        },
        sample_rate * 0x100_0000 <= w * lowest_hz * 0x100_0004 + 4 * lowest_hz,
        w > 1 ==> (w as int / 2) * lowest_hz * 0x100_0000 <= sample_rate * 0x100_0004 + 4
            * lowest_hz,
        exists|rate: u128, lowest: u128, quotient: u128|
            {
                &&& #[trigger] call_ensures(to_single, (sample_rate,), rate)
                &&& #[trigger] call_ensures(to_single, (lowest_hz,), lowest)
                &&& #[trigger] call_ensures(divide_single, (rate, lowest), quotient)
                &&& quotient <= w * 0x1_0000_0000_0000_0000
                &&& w > 1 ==> (w as int / 2) * 0x1_0000_0000_0000_0000 < quotient
            },
{
    let rate: u128 = to_single(sample_rate);
    let lowest: u128 = to_single(lowest_hz);
    let quotient: u128 = divide_single(rate, lowest);
    let least: u128 = (quotient + (QUOTIENT_SCALE - 1)) / QUOTIENT_SCALE;
    assert(least <= 0x8000_0000) by (nonlinear_arith)
        requires
            least == (quotient + (QUOTIENT_SCALE - 1)) / (QUOTIENT_SCALE as int),
            quotient <= 0x8000_0000 * QUOTIENT_SCALE,
    ;
    let mut w: usize = 1;
    let ghost mut k: nat = 0;
    proof {
        lemma2_to64();
        assert forall|j: nat| least <= #[trigger] pow2(j) implies w <= pow2(j) by {
            lemma_pow2_pos(j);
        }
    }
    while (w as u128) < least
        invariant
            w == pow2(k),
            w >= 1,
            w == 1 || w % 2 == 0,
            least <= 0x8000_0000,
            forall|j: nat| least <= #[trigger] pow2(j) ==> w <= pow2(j),
        decreases 2 * least - w,
    {
        proof {
            lemma_pow2_unfold(k + 1);
            assert forall|j: nat| least <= #[trigger] pow2(j) implies 2 * w <= pow2(j) by {
                if j <= k {
                    if j < k {
                        lemma_pow2_strictly_increases(j, k);
                    }
                    assert(false);
                }
                if k + 1 < j {
                    lemma_pow2_strictly_increases(k + 1, j);
                }
            }
            k = k + 1;
        }
        w = w * 2;
    }
    proof {
        assert(least_power_of_two(
            w as nat,
            period_samples(sample_rate as nat, lowest_hz as nat),
        ));
        if sample_rate < 0x100_0000 && lowest_hz < 0x100_0000 {
            window_spans_one_period(sample_rate as nat, lowest_hz as nat, w as nat);
        }
        lemma_window_spans_about_one_period(
            sample_rate as int,
            lowest_hz as int,
            rate as int,
            lowest as int,
            quotient as int,
            least as int,
            w as int,
        );
    }
    w
}

/// The window length for a sample rate that single precision holds exactly spans one full period
/// of the lowest frequency, and half of it, if there is a half, does not.
pub proof fn window_spans_one_period(sample_rate: nat, lowest_hz: nat, w: nat)
    requires
        sample_rate < SINGLE_LIMIT,
        0 < lowest_hz < SINGLE_LIMIT,
        least_power_of_two(w, period_samples(sample_rate, lowest_hz)),
    ensures
        sample_rate <= w * lowest_hz,
        w > 1 ==> w % 2 == 0 && (w / 2) * lowest_hz < sample_rate,
{
    let least = period_samples(sample_rate, lowest_hz);
    lemma_rounded_small(sample_rate, SINGLE_LIMIT as nat);
    lemma_rounded_small(lowest_hz, SINGLE_LIMIT as nat);
    lemma_single_quotient_rounds_up_exactly(sample_rate, lowest_hz);
    let top = sample_rate + lowest_hz - 1;
    lemma_fundamental_div_mod(top, lowest_hz as int);
    assert(top / lowest_hz as int >= 0 && sample_rate <= least * lowest_hz) by (nonlinear_arith)
        requires
            top == sample_rate + lowest_hz - 1,
            top == lowest_hz * (top / lowest_hz as int) + top % lowest_hz as int,
            0 <= (top % lowest_hz as int) < lowest_hz,
            least == (top / lowest_hz as int) as nat,
            lowest_hz > 0,
    ;
    assert(sample_rate <= w * lowest_hz) by (nonlinear_arith)
        requires
            sample_rate <= least * lowest_hz,
            least <= w,
    ;
    if w > 1 {
        let k = choose|k: nat| w == #[trigger] pow2(k);
        lemma2_to64();
        lemma_pow2_unfold(k);
        let half = pow2((k - 1) as nat);
        assert(half < least);
        assert(half * lowest_hz < sample_rate) by (nonlinear_arith)
            requires
                half + 1 <= least,
                least == top / lowest_hz as int,
                top == lowest_hz * (top / lowest_hz as int) + top % lowest_hz as int,
                0 <= top % lowest_hz as int,
                top == sample_rate + lowest_hz - 1,
                lowest_hz > 0,
        ;
    }
}

/// A channel between two stretches of silence.
pub open spec fn padded<F>(channel: Seq<F>, pad: nat, silence: F) -> Seq<F> {
    Seq::new(pad, |i: int| silence) + channel + Seq::new(pad, |i: int| silence)
}

/// Sample `j` of a channel, with silence before its beginning and after its end.
pub open spec fn heard<F>(channel: Seq<F>, j: int, silence: F) -> F {
    if 0 <= j < channel.len() {
        channel[j]
    } else {
        silence
    }
}

/// How many whole windows a channel of `len` samples yields, with a hop of silence on either side.
pub open spec fn window_count(len: nat, window_size: nat, hop_size: nat) -> nat {
    if len + 2 * hop_size >= window_size {
        ((len + 2 * hop_size - window_size) / hop_size as int + 1) as nat
    } else {
        0
    }
}

/// Window `w` of windows of `window_size` entries that are laid end to end.
pub open spec fn block<C>(flat: Seq<C>, w: int, window_size: int) -> Seq<C> {
    flat.subrange(w * window_size, w * window_size + window_size)
}

/// `flat` holds the weighted windows of `source`: entry `s` of window `w` is what `weigh` makes of
/// sample `w * hop_size + s` and weight `s`.
pub open spec fn weighted_windows<F, C, W: Fn(F, F) -> C>(
    flat: Seq<C>,
    count: int,
    source: Seq<F>,
    weights: Seq<F>,
    hop_size: int,
    weigh: W,
) -> bool {
    &&& flat.len() == count * weights.len()
    &&& forall|w: int, s: int|
        0 <= w < count && 0 <= s < weights.len() ==> call_ensures(
            weigh,
            (source[w * hop_size + s], weights[s]),
            #[trigger] block(flat, w, weights.len() as int)[s],
        )
}

/// Appends one weighted window.
fn push_window<F: Copy, C, W: Fn(F, F) -> C>(
    flat: &mut Vec<C>,
    source: &Vec<F>,
    start: usize,
    weights: &[F],
    weigh: &W,
)
    requires
        start + weights.len() <= source.len(),
        forall|x: F, h: F| call_requires(weigh, (x, h)),
    ensures
        final(flat).len() == old(flat).len() + weights.len(),
        forall|i: int| 0 <= i < old(flat).len() ==> final(flat)[i] == #[trigger] old(flat)[i],
        forall|s: int|
            0 <= s < weights.len() ==> call_ensures(
                weigh,
                (source[start + s], weights[s]),
                #[trigger] final(flat)@.skip(old(flat).len() as int)[s],
            ),
{
    let ghost before = flat@;
    for s in 0..weights.len()
        invariant
            start + weights.len() <= source.len(),
            forall|x: F, h: F| call_requires(weigh, (x, h)),
            flat.len() == before.len() + s,
            forall|i: int| 0 <= i < before.len() ==> flat[i] == #[trigger] before[i],
            forall|t: int|
                0 <= t < s ==> call_ensures(
                    weigh,
                    (source[start + t], weights[t]),
                    #[trigger] flat@.skip(before.len() as int)[t],
                ),
    {
        let ghost earlier = flat@;
        flat.push(weigh(source[start + s], weights[s]));
        assert forall|t: int| 0 <= t < s + 1 implies call_ensures(
            weigh,
            (source[start + t], weights[t]),
            #[trigger] flat@.skip(before.len() as int)[t],
        ) by {
            if t < s {
                assert(flat@.skip(before.len() as int)[t] == earlier.skip(before.len() as int)[t]);
            }
        }
    }
}

/// Lays out a channel between two stretches of silence.
fn pad_channel<F: Copy>(channel: &[F], pad: usize, silence: F) -> (out: Vec<F>)
    requires
        channel.len() + 2 * pad <= usize::MAX,
    ensures
        out@ == padded(channel@, pad as nat, silence),
{
    let mut out: Vec<F> = Vec::with_capacity(pad + channel.len() + pad);
    for i in 0..pad
        invariant
            out@ == Seq::new(i as nat, |j: int| silence),
    {
        out.push(silence);
    }
    for i in 0..channel.len()
        invariant
            out@ == Seq::new(pad as nat, |j: int| silence) + channel@.take(i as int),
    {
        out.push(channel[i]);
    }
    assert(channel@.take(channel.len() as int) == channel@);
    for i in 0..pad
        invariant
            out@ == Seq::new(pad as nat, |j: int| silence) + channel@ + Seq::new(
                i as nat,
                |j: int| silence,
            ),
    {
        out.push(silence);
    }
    out
}

/// Cuts a channel into overlapping windows, `hop_size` samples apart, with a hop of silence before
/// and after the channel, and weighs every sample.
///
/// Returns the windows, laid end to end, and their number.
pub fn extract_windows<F: Copy, C, W: Fn(F, F) -> C>(
    channel: &[F],
    hann: &[F],
    hop_size: usize,
    silence: F,
    weigh: &W,
) -> (r: (Vec<C>, usize))
    requires
        hop_size > 0 || channel.len() < hann.len(),
        channel.len() + 2 * hop_size <= usize::MAX,
        window_count(channel.len() as nat, hann.len() as nat, hop_size as nat) <= usize::MAX,
        window_count(channel.len() as nat, hann.len() as nat, hop_size as nat) * hann.len()
            <= usize::MAX,
        forall|x: F, h: F| call_requires(weigh, (x, h)),
    ensures
        r.1 == window_count(channel.len() as nat, hann.len() as nat, hop_size as nat),
        weighted_windows(
            r.0@,
            r.1 as int,
            padded(channel@, hop_size as nat, silence),
            hann@,
            hop_size as int,
            *weigh,
        ),
        channel.len() + 2 * hop_size < hann.len() ==> r.1 == 0,
        channel.len() + 2 * hop_size >= hann.len() ==> (r.1 - 1) * hop_size + hann.len()
            <= channel.len() + 2 * hop_size < r.1 * hop_size + hann.len(),
        r.0@.len() == r.1 * hann.len(),
        forall|p: int|
            #![trigger r.0@[p]]
            0 <= p < r.0@.len() ==> ({
                let s = p % hann.len() as int;
                let j = (p / hann.len() as int) * hop_size + s - hop_size;
                call_ensures(
                    weigh,
                    (
                        if 0 <= j < channel.len() {
                            channel@[j]
                        } else {
                            silence
                        },
                        hann@[s],
                    ),
                    r.0@[p],
                )
            }),
{
    let window_size: usize = hann.len();
    let source: Vec<F> = pad_channel(channel, hop_size, silence);
    let n: usize = source.len();
    let num_windows: usize = if n >= window_size {
        (n - window_size) / hop_size + 1
    } else {
        0
    };
    let mut flat: Vec<C> = Vec::with_capacity(num_windows * window_size);
    assert(flat.len() == 0 * window_size);
    for w in 0..num_windows
        invariant
            hop_size > 0 || channel.len() < hann.len(),
            window_size == hann.len(),
            n == source.len(),
            num_windows * window_size <= usize::MAX,
            num_windows > 0 ==> n >= window_size && hop_size > 0 && num_windows - 1 == (n
                - window_size) as int / hop_size as int,
            forall|x: F, h: F| call_requires(weigh, (x, h)),
            weighted_windows(flat@, w as int, source@, hann@, hop_size as int, *weigh),
    {
        let ghost before = flat@;
        proof {
            lemma_fundamental_div_mod((n - window_size) as int, hop_size as int);
            assert(w * hop_size + window_size <= n) by (nonlinear_arith)
                requires
                    n - window_size == hop_size * ((n - window_size) as int / hop_size as int) + ((n
                        - window_size) as int % hop_size as int),
                    0 <= ((n - window_size) as int % hop_size as int),
                    w <= (n - window_size) as int / hop_size as int,
                    hop_size > 0,
            ;
        }
        push_window(&mut flat, &source, w * hop_size, hann, weigh);
        proof {
            assert((w + 1) * window_size == w * window_size + window_size) by (nonlinear_arith);
            assert forall|v: int, s: int|
                0 <= v < w + 1 && 0 <= s < window_size implies call_ensures(
                weigh,
                (source[v * hop_size + s], hann[s]),
                #[trigger] block(flat@, v, window_size as int)[s],
            ) by {
                if v < w {
                    assert((v + 1) * window_size <= w * window_size) by (nonlinear_arith)
                        requires
                            v + 1 <= w,
                            window_size >= 0,
                    ;
                    assert((v + 1) * window_size == v * window_size + window_size)
                        by (nonlinear_arith);
                    assert(0 <= v * window_size) by (nonlinear_arith)
                        requires
                            v >= 0,
                            window_size >= 0,
                    ;
                    assert(block(flat@, v, window_size as int)[s] == before[v * window_size + s]);
                    assert(block(before, v, window_size as int)[s] == before[v * window_size + s]);
                } else {
                    assert(block(flat@, v, window_size as int)[s] == flat@.skip(
                        before.len() as int,
                    )[s]);
                }
            }
        }
    }
    proof {
        if n >= window_size {
            let room = n - window_size;
            lemma_fundamental_div_mod(room as int, hop_size as int);
            assert((num_windows - 1) * hop_size <= room < num_windows * hop_size)
                by (nonlinear_arith)
                requires
                    room == hop_size * (num_windows - 1) + room as int % hop_size as int,
                    0 <= (room as int % hop_size as int) < hop_size,
            ;
        }
        lemma_windows_by_entry(
            flat@,
            num_windows as int,
            channel@,
            hann@,
            hop_size as int,
            silence,
            *weigh,
        );
    }
    (flat, num_windows)
}

/// Entry `p` of windows laid end to end is entry `p % size` of window `p / size`.
pub(crate) proof fn lemma_windows_by_entry<F, C, W: Fn(F, F) -> C>(
    flat: Seq<C>,
    count: int,
    channel: Seq<F>,
    hann: Seq<F>,
    hop: int,
    silence: F,
    weigh: W,
)
    requires
        hop >= 0,
        count >= 0,
        count > 0 ==> (count - 1) * hop + hann.len() <= channel.len() + 2 * hop,
        weighted_windows(flat, count, padded(channel, hop as nat, silence), hann, hop, weigh),
    ensures
        forall|p: int|
            #![trigger flat[p]]
            0 <= p < flat.len() ==> ({
                let s = p % hann.len() as int;
                let j = (p / hann.len() as int) * hop + s - hop;
                call_ensures(
                    weigh,
                    (
                        if 0 <= j < channel.len() {
                            channel[j]
                        } else {
                            silence
                        },
                        hann[s],
                    ),
                    flat[p],
                )
            }),
{
    let size = hann.len() as int;
    let source = padded(channel, hop as nat, silence);
    assert forall|p: int| #![trigger flat[p]] 0 <= p < flat.len() implies ({
        let s = p % size;
        let j = (p / size) * hop + s - hop;
        call_ensures(
            weigh,
            (
                if 0 <= j < channel.len() {
                    channel[j]
                } else {
                    silence
                },
                hann[s],
            ),
            flat[p],
        )
    }) by {
        assert(size > 0) by {
            if size == 0 {
                assert(count * size == 0) by (nonlinear_arith)
                    requires
                        size == 0,
                ;
            }
        }
        let w = p / size;
        let s = p % size;
        lemma_fundamental_div_mod(p, size);
        assert(0 <= w < count && w * size + s == p && 0 <= w * size && w * size + size <= count
            * size) by (nonlinear_arith)
            requires
                p == size * w + s,
                0 <= s < size,
                0 <= p < count * size,
                size > 0,
        ;
        assert(0 <= w * hop <= (count - 1) * hop) by (nonlinear_arith)
            requires
                0 <= w <= count - 1,
                hop >= 0,
        ;
        assert(block(flat, w, size)[s] == flat[p]);
        assert(call_ensures(weigh, (source[w * hop + s], hann[s]), block(flat, w, size)[s]));
    }
}

proof fn lemma_window_spans_about_one_period(
    sample_rate: int,
    lowest_hz: int,
    rate: int,
    lowest: int,
    quotient: int,
    least: int,
    w: int,
)
    requires
        0 <= sample_rate < 0x1_0000_0000,
        0 < lowest_hz < 0x1_0000_0000,
        rate == crate::rounding::rounded(sample_rate as nat, SINGLE_LIMIT as nat),
        lowest == crate::rounding::rounded(lowest_hz as nat, SINGLE_LIMIT as nat),
        quotient == crate::rounding::single_quotient(rate as nat, lowest as nat),
        least == (quotient + (QUOTIENT_SCALE - 1)) / QUOTIENT_SCALE as int,
        least <= w,
        w > 1 ==> w / 2 < least,
        w >= 1,
    ensures
        sample_rate * 0x100_0000 <= w * lowest_hz * 0x100_0004 + 4 * lowest_hz,
        w > 1 ==> (w / 2) * lowest_hz * 0x100_0000 <= sample_rate * 0x100_0004 + 4 * lowest_hz,
{
    let limit = 0x100_0000int;
    let scale = 0x1_0000_0000_0000_0000int;
    crate::rounding::lemma_rounded_near(sample_rate as nat, SINGLE_LIMIT as nat);
    crate::rounding::lemma_rounded_near(lowest_hz as nat, SINGLE_LIMIT as nat);
    assert(lowest >= 1);
    let unit = crate::rounding::lemma_quotient_near(rate as nat, lowest as nat) as int;
    lemma_fundamental_div_mod(quotient + (scale - 1), scale);
    assert(quotient <= least * scale && (least - 1) * scale < quotient);
    let whole = rate * scale;
    // The quotient is off by a `limit`-th part, or by less than one unit of the scale.
    assert(abs(quotient * lowest - whole) * limit <= whole + lowest * limit) by (nonlinear_arith)
        requires
            2 * abs(quotient * lowest - whole) <= unit * lowest,
            unit == 1 || unit * limit * lowest <= 2 * whole,
            lowest >= 1,
            whole >= 0,
            limit == 0x100_0000,
            abs(quotient * lowest - whole) >= 0,
    ;
    assert(whole * limit <= w * scale * lowest * limit + whole + lowest * limit)
        by (nonlinear_arith)
        requires
            abs(quotient * lowest - whole) * limit <= whole + lowest * limit,
            abs(quotient * lowest - whole) >= whole - quotient * lowest,
            quotient <= least * scale,
            least <= w,
            lowest >= 1,
            scale > 0,
            limit > 0,
    ;
    let up = w * lowest;
    assert(w * scale * lowest * limit == up * scale * limit) by (nonlinear_arith)
        requires
            up == w * lowest,
    ;
    assert(rate * limit <= up * limit + rate + 1);
    let exact = w * lowest_hz;
    assert(up * limit <= exact * limit + exact) by (nonlinear_arith)
        requires
            up == w * lowest,
            exact == w * lowest_hz,
            lowest * limit <= lowest_hz * limit + lowest_hz,
            w >= 0,
    ;
    assert(sample_rate * limit <= exact * 0x100_0004 + 4 * lowest_hz);
    if w > 1 {
        let half = w / 2;
        assert(half * scale * lowest * limit <= whole * limit + whole + lowest * limit)
            by (nonlinear_arith)
            requires
                abs(quotient * lowest - whole) * limit <= whole + lowest * limit,
                abs(quotient * lowest - whole) >= quotient * lowest - whole,
                (least - 1) * scale < quotient,
                half <= least - 1,
                lowest >= 1,
                scale > 0,
                limit > 0,
        ;
        let low = half * lowest;
        assert(half * scale * lowest * limit == low * scale * limit) by (nonlinear_arith)
            requires
                low == half * lowest,
        ;
        assert(low * limit <= rate * limit + rate + 1);
        let under = half * lowest_hz;
        assert(under * limit <= low * limit + under) by (nonlinear_arith)
            requires
                low == half * lowest,
                under == half * lowest_hz,
                lowest_hz * limit <= lowest * limit + lowest_hz,
                half >= 0,
        ;
        assert(under * limit <= sample_rate * 0x100_0004 + 4 * lowest_hz);
    }
}

/// The window is a power of two that spans one period of the lowest frequency, and its half, if it
/// has one, does not; of rates beyond 24 bits this holds but for what single precision loses.
pub proof fn a_window_resolves_the_lowest_frequency(sample_rate: u32, lowest_hz: u32, w: usize)
    requires
        call_ensures(ideal_window_size, (sample_rate, lowest_hz), w),
    ensures
        exists|k: nat| w == #[trigger] pow2(k),
        sample_rate < 0x100_0000 && lowest_hz < 0x100_0000 ==> {
            &&& sample_rate <= w * lowest_hz
            &&& w > 1 ==> (w as int / 2) * lowest_hz < sample_rate
        },
        sample_rate * 0x100_0000 <= w * lowest_hz * 0x100_0004 + 4 * lowest_hz,
        w > 1 ==> (w as int / 2) * lowest_hz * 0x100_0000 <= sample_rate * 0x100_0004 + 4
            * lowest_hz,
{
}

/// The window is found in single precision: it is the least power of two that is no less than the
/// rounded quotient of the rounded rates.
pub proof fn a_window_is_the_least_power_of_two(sample_rate: u32, lowest_hz: u32, w: usize)
    requires
        call_ensures(ideal_window_size, (sample_rate, lowest_hz), w),
    ensures
        exists|k: nat| w == #[trigger] pow2(k),
        exists|rate: u128, lowest: u128, quotient: u128|
            {
                &&& #[trigger] call_ensures(to_single, (sample_rate,), rate)
                &&& #[trigger] call_ensures(to_single, (lowest_hz,), lowest)
                &&& #[trigger] call_ensures(divide_single, (rate, lowest), quotient)
                &&& quotient <= w * 0x1_0000_0000_0000_0000
                &&& w > 1 ==> (w as int / 2) * 0x1_0000_0000_0000_0000 < quotient
            },
{
}

/// A higher sample rate needs no shorter window.
pub proof fn windows_grow_with_the_sample_rate(
    lower: u32,
    higher: u32,
    lowest_hz: u32,
    short: usize,
    long: usize,
)
    requires
        lower <= higher < 0x100_0000,
        0 < lowest_hz < 0x100_0000,
        call_ensures(ideal_window_size, (lower, lowest_hz), short),
        call_ensures(ideal_window_size, (higher, lowest_hz), long),
    ensures
        short <= long,
{
    let j = choose|j: nat| short == #[trigger] pow2(j);
    let k = choose|k: nat| long == #[trigger] pow2(k);
    lemma2_to64();
    lemma_pow2_pos(k);
    if k < j {
        lemma_pow2_unfold(j);
        if k < j - 1 {
            lemma_pow2_strictly_increases(k, (j - 1) as nat);
        }
        assert(long <= short as int / 2 && short > 1);
        assert(long * lowest_hz <= (short as int / 2) * lowest_hz) by (nonlinear_arith)
            requires
                long <= short as int / 2,
                lowest_hz > 0,
        ;
    } else if j < k {
        lemma_pow2_strictly_increases(j, k);
    }
}

/// Every entry of the windows is made of its sample and its weight: entry `s` of window `w` of
/// sample `w * hop + s - hop` of the channel, or of silence where the channel has no such sample.
pub proof fn an_entry_is_a_weighed_sample<F: Copy, C, W: Fn(F, F) -> C>(
    channel: &[F],
    hann: &[F],
    hop_size: usize,
    silence: F,
    weigh: &W,
    r: (Vec<C>, usize),
    window: int,
    entry: int,
)
    requires
        call_ensures(extract_windows::<F, C, W>, (channel, hann, hop_size, silence, weigh), r),
        0 <= window < r.1,
        0 <= entry < hann@.len(),
    ensures
        r.0@.len() == r.1 * hann@.len(),
        ({
            let sample = window * hop_size + entry - hop_size;
            call_ensures(
                weigh,
                (
                    if 0 <= sample < channel@.len() {
                        channel@[sample]
                    } else {
                        silence
                    },
                    hann@[entry],
                ),
                r.0@[window * hann@.len() + entry],
            )
        }),
{
    let size = hann@.len() as int;
    let p = window * size + entry;
    vstd::arithmetic::div_mod::lemma_fundamental_div_mod_converse(p, size, window, entry);
    assert(0 <= p < r.1 * size) by (nonlinear_arith)
        requires
            p == window * size + entry,
            0 <= window < r.1,
            0 <= entry < size,
    ;
    assert(r.0@[p] == r.0@[window * hann@.len() + entry]);
}

/// As many windows are cut as fit: the last one ends within the silence behind the channel, and one
/// more would not.
pub proof fn as_many_windows_as_fit<F: Copy, C, W: Fn(F, F) -> C>(
    channel: &[F],
    hann: &[F],
    hop_size: usize,
    silence: F,
    weigh: &W,
    r: (Vec<C>, usize),
)
    requires
        call_ensures(extract_windows::<F, C, W>, (channel, hann, hop_size, silence, weigh), r),
    ensures
        channel@.len() + 2 * hop_size < hann@.len() ==> r.1 == 0,
        channel@.len() + 2 * hop_size >= hann@.len() ==> {
            &&& (r.1 - 1) * hop_size + hann@.len() <= channel@.len() + 2 * hop_size
            &&& channel@.len() + 2 * hop_size < r.1 * hop_size + hann@.len()
        },
{
}

} // verus!
