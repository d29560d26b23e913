//! What a channel depends on: not on the split into chunks, and on near samples only.
//!
//! The laws speak of devices that look at no more than some windows on either side of a window,
//! and of arithmetic whose results are determined by its arguments.
use vstd::arithmetic::div_mod::lemma_fundamental_div_mod;
use vstd::prelude::*;

use crate::chunk::{context_first, context_last};
use crate::overlap::{folded, layers};
use crate::upmix::{answers_for, settled, settled_sample, Recording, Upmixer};
use crate::window::{block, heard, padded, weighted_windows, window_count};

verus! {

/// The result of a step is determined by its arguments.
pub open spec fn determined<X, Y, Z, M: Fn(X, Y) -> Z>(step: M) -> bool {
    forall|a: X, b: Y, x: Z, y: Z| #[trigger]
        call_ensures(step, (a, b), x) && #[trigger] call_ensures(step, (a, b), y) ==> x == y
}

/// What a device answers for window `window` of `count` windows if it looks at no more than
/// `radius` windows on either side: it knows those windows of both channels, and which of them it
/// is to answer.
pub open spec fn steered<C>(
    steer: spec_fn(Seq<C>, Seq<C>, int) -> Seq<C>,
    left: Seq<C>,
    right: Seq<C>,
    count: int,
    window_size: int,
    radius: int,
    window: int,
) -> Seq<C> {
    let first = context_first(window, radius);
    let past = context_last(window, radius, count) + 1;
    steer(
        left.subrange(first * window_size, past * window_size),
        right.subrange(first * window_size, past * window_size),
        window - first,
    )
}

impl<F, C, M: Fn(F, C) -> F, A: Fn(F, F) -> F> Upmixer<F, C, M, A> {
    /// For `channel`, every core window so far was answered by a device that looks at no more than
    /// `radius` windows on either side, out of the windows that it was handed with the chunk.
    pub open spec fn answered_by(
        &self,
        channel: int,
        radius: int,
        steer: spec_fn(Seq<C>, Seq<C>, int) -> Seq<C>,
    ) -> bool {
        let size = self.recording().window_size();
        forall|k: int, j: int|
            0 <= k < self.taken().len() && self.plan().guard_before(k) <= j
                < self.plan().guard_before(k) + self.plan().core_len(k)
                ==> #[trigger] block(self.taken()[k][channel], j, size) == steered(
                steer,
                self.recording().left@.subrange(
                    self.plan().proc_start(k) * size,
                    self.plan().proc_end(k) * size,
                ),
                self.recording().right@.subrange(
                    self.plan().proc_start(k) * size,
                    self.plan().proc_end(k) * size,
                ),
                self.plan().proc_len(k),
                size,
                radius,
                j,
            )
    }

    /// A device that looks no further than the guard answers as if it had been handed all windows
    /// in one pass.
    pub proof fn answers_are_those_of_one_pass(
        &self,
        channel: int,
        radius: int,
        steer: spec_fn(Seq<C>, Seq<C>, int) -> Seq<C>,
    )
        requires
            self.wf(),
            self.taken().len() == self.plan().num_chunks,
            0 <= channel < 6,
            0 <= radius <= self.plan().guard,
            self.answered_by(channel, radius, steer),
        ensures
            self.windows(channel) == Seq::new(
                self.plan().num_windows as nat,
                |w: int|
                    steered(
                        steer,
                        self.recording().left@,
                        self.recording().right@,
                        self.plan().num_windows as int,
                        self.recording().window_size(),
                        radius,
                        w,
                    ),
            ),
    {
        self.task_is_valid();
        let plan = self.plan();
        let size = self.recording().window_size();
        let left = self.recording().left@;
        let right = self.recording().right@;
        let answers = answers_for(self.taken(), channel);
        let whole = Seq::new(
            plan.num_windows as nat,
            |w: int| steered(steer, left, right, plan.num_windows as int, size, radius, w),
        );
        assert forall|k: int, w: int|
            0 <= k < plan.num_chunks && plan.core_start(k) <= w < plan.core_end(k)
                implies #[trigger] block(
            answers[k],
            w - plan.proc_start(k),
            size,
        ) == whole[w] by {
            let from = plan.proc_start(k);
            let to = plan.proc_end(k);
            let j = w - from;
            crate::chunk::chunks_leave_no_seam(plan, k, w, radius);
            let first = context_first(j, radius);
            let past = context_last(j, radius, plan.proc_len(k)) + 1;
            assert(to * size <= plan.num_windows * size) by (nonlinear_arith)
                requires
                    to <= plan.num_windows,
                    size > 0,
            ;
            lemma_nested_windows(left, size, from, to, first, past);
            lemma_nested_windows(right, size, from, to, first, past);
            assert(block(self.taken()[k][channel], j, size) == steered(
                steer,
                left.subrange(from * size, to * size),
                right.subrange(from * size, to * size),
                plan.proc_len(k),
                size,
                radius,
                j,
            ));
        }
        crate::upmix::splitting_does_not_matter(plan, answers, size, whole);
    }
}

/// Windows out of a run of windows are windows out of the whole.
proof fn lemma_nested_windows<C>(
    flat: Seq<C>,
    size: int,
    from: int,
    to: int,
    first: int,
    past: int,
)
    requires
        size > 0,
        0 <= from,
        0 <= first <= past,
        from + past <= to,
        to * size <= flat.len(),
    ensures
        flat.subrange(from * size, to * size).subrange(first * size, past * size) == flat.subrange(
            (from + first) * size,
            (from + past) * size,
        ),
{
    assert((from + first) * size == from * size + first * size) by (nonlinear_arith);
    assert((from + past) * size == from * size + past * size) by (nonlinear_arith);
    assert(0 <= from * size && 0 <= first * size <= past * size && (from + past) * size <= to * size)
        by (nonlinear_arith)
        requires
            size > 0,
            0 <= from,
            0 <= first <= past,
            from + past <= to,
    ;
    assert(flat.subrange(from * size, to * size).subrange(first * size, past * size)
        =~= flat.subrange((from + first) * size, (from + past) * size));
}

/// Two recordings are of the same length, and were weighed by the same windows.
pub open spec fn same_shape<F, C>(one: Recording<F, C>, other: Recording<F, C>) -> bool {
    &&& one.len == other.len
    &&& one.num_windows == other.num_windows
    &&& one.hann@ == other.hann@
}

impl<F, C, M: Fn(F, C) -> F, A: Fn(F, F) -> F> Upmixer<F, C, M, A> {
    /// All chunks are done, `channel` was steered by a device that looks at no more than `radius`
    /// windows on either side, which the guards cover, and `out` is what was settled of it.
    pub open spec fn finished_with<S: Fn(F, F) -> F>(
        &self,
        channel: int,
        radius: int,
        steer: spec_fn(Seq<C>, Seq<C>, int) -> Seq<C>,
        settle: S,
        out: Seq<F>,
    ) -> bool {
        &&& self.wf()
        &&& self.taken().len() == self.plan().num_chunks
        &&& 0 <= channel < 6
        &&& 0 <= radius <= self.plan().guard
        &&& self.answered_by(channel, radius, steer)
        &&& settled(
            out,
            self.recording(),
            self.windows(channel),
            self.zero(),
            self.mix(),
            self.accumulate(),
            settle,
        )
    }

    /// Two upmixes add up in the same, determined way.
    pub open spec fn same_arithmetic(&self, other: &Self) -> bool {
        &&& self.zero() == other.zero()
        &&& self.mix() == other.mix()
        &&& self.accumulate() == other.accumulate()
        &&& determined(self.mix())
        &&& determined(self.accumulate())
    }

    /// What the device answers for a window, if it is handed all windows in one pass.
    pub open spec fn steered_window(
        &self,
        steer: spec_fn(Seq<C>, Seq<C>, int) -> Seq<C>,
        radius: int,
        window: int,
    ) -> Seq<C> {
        steered(
            steer,
            self.recording().left@,
            self.recording().right@,
            self.recording().num_windows as int,
            self.recording().window_size(),
            radius,
            window,
        )
    }
}

/// What meets in a place determines the sample there.
proof fn lemma_layers_determine_the_sample<
    F,
    C,
    M: Fn(F, C) -> F,
    A: Fn(F, F) -> F,
    S: Fn(F, F) -> F,
>(
    x: F,
    y: F,
    g: int,
    one: Recording<F, C>,
    other: Recording<F, C>,
    ours: Seq<Seq<C>>,
    theirs: Seq<Seq<C>>,
    zero: F,
    mix: M,
    accumulate: A,
    settle: S,
)
    requires
        same_shape(one, other),
        ours.len() == theirs.len(),
        layers(ours, one.hop_size(), g) == layers(theirs, one.hop_size(), g),
        determined(mix),
        determined(accumulate),
        determined(settle),
        settled_sample(x, g, one, ours, zero, mix, accumulate, settle),
        settled_sample(y, g, other, theirs, zero, mix, accumulate, settle),
    ensures
        x == y,
{
    let hop = one.hop_size();
    assert(other.hop_size() == hop);
    let items = layers(ours, hop, g);
    let hann = Seq::new(ours.len(), |w: int| one.hann@);
    assert(hann =~= Seq::new(theirs.len(), |w: int| other.hann@));
    let weights = layers(hann, hop, g);
    let (s1, w1) = choose|sum: F, weight: F|
        {
            &&& folded(mix, zero, items, sum)
            &&& folded(accumulate, zero, weights, weight)
            &&& #[trigger] call_ensures(settle, (sum, weight), x)
        };
    let (s2, w2) = choose|sum: F, weight: F|
        {
            &&& folded(mix, zero, items, sum)
            &&& folded(accumulate, zero, weights, weight)
            &&& #[trigger] call_ensures(settle, (sum, weight), y)
        };
    crate::overlap::fold_is_determined(mix, zero, items, s1, s2);
    crate::overlap::fold_is_determined(accumulate, zero, weights, w1, w2);
}

/// The windows determine the channel, however they were split into chunks: with arithmetic whose
/// results are determined, two upmixes that gathered the same windows yield the same samples.
pub proof fn windows_determine_the_channel<
    F,
    C,
    M: Fn(F, C) -> F,
    A: Fn(F, F) -> F,
    S: Fn(F, F) -> F,
>(
    ours: Seq<F>,
    theirs: Seq<F>,
    one: Recording<F, C>,
    other: Recording<F, C>,
    windows: Seq<Seq<C>>,
    zero: F,
    mix: M,
    accumulate: A,
    settle: S,
)
    requires
        same_shape(one, other),
        determined(mix),
        determined(accumulate),
        determined(settle),
        settled(ours, one, windows, zero, mix, accumulate, settle),
        settled(theirs, other, windows, zero, mix, accumulate, settle),
    ensures
        ours == theirs,
{
    assert forall|i: int| 0 <= i < ours.len() implies ours[i] == #[trigger] theirs[i] by {
        lemma_layers_determine_the_sample(
            ours[i],
            theirs[i],
            i + one.hop_size(),
            one,
            other,
            windows,
            windows,
            zero,
            mix,
            accumulate,
            settle,
        );
    }
    assert(ours =~= theirs);
}

/// The two windows that meet in the place of a sample determine it.
proof fn lemma_two_windows_determine_the_sample<
    F,
    C,
    M: Fn(F, C) -> F,
    A: Fn(F, F) -> F,
    S: Fn(F, F) -> F,
>(
    one: Upmixer<F, C, M, A>,
    other: Upmixer<F, C, M, A>,
    channel: int,
    radius: int,
    steer: spec_fn(Seq<C>, Seq<C>, int) -> Seq<C>,
    settle: S,
    ours: Seq<F>,
    theirs: Seq<F>,
    sample: int,
)
    requires
        one.finished_with(channel, radius, steer, settle, ours),
        other.finished_with(channel, radius, steer, settle, theirs),
        one.same_arithmetic(&other),
        determined(settle),
        same_shape(one.recording(), other.recording()),
        0 <= sample < one.recording().len,
        ({
            let own = sample / one.recording().hop_size() + 1;
            forall|w: int|
                own - 1 <= w <= own && 0 <= w < one.recording().num_windows
                    ==> #[trigger] one.steered_window(steer, radius, w) == other.steered_window(
                    steer,
                    radius,
                    w,
                )
        }),
    ensures
        ours[sample] == theirs[sample],
{
    one.task_is_valid();
    other.task_is_valid();
    one.answers_are_those_of_one_pass(channel, radius, steer);
    other.answers_are_those_of_one_pass(channel, radius, steer);
    let hop = one.recording().hop_size();
    let g = sample + hop;
    let a = one.windows(channel);
    let b = other.windows(channel);
    crate::overlap::two_blocks_meet(a, hop, g);
    crate::overlap::two_blocks_meet(b, hop, g);
    let own = g / hop;
    lemma_fundamental_div_mod(sample, hop);
    assert(g == (sample / hop + 1) * hop + sample % hop && 0 <= sample % hop < hop)
        by (nonlinear_arith)
        requires
            g == sample + hop,
            sample == hop * (sample / hop) + sample % hop,
            hop > 0,
    ;
    vstd::arithmetic::div_mod::lemma_fundamental_div_mod_converse(
        g,
        hop,
        sample / hop + 1,
        sample % hop,
    );
    assert forall|w: int| own - 1 <= w <= own && 0 <= w < a.len() implies #[trigger] a[w] == b[w] by {
        assert(a[w] == one.steered_window(steer, radius, w));
        assert(b[w] == other.steered_window(steer, radius, w));
    }
    assert(layers(a, hop, g) == layers(b, hop, g));
    assert(settled_sample(
        ours[sample],
        g,
        one.recording(),
        a,
        one.zero(),
        one.mix(),
        one.accumulate(),
        settle,
    ));
    assert(settled_sample(
        theirs[sample],
        g,
        other.recording(),
        b,
        one.zero(),
        one.mix(),
        one.accumulate(),
        settle,
    ));
    lemma_layers_determine_the_sample(
        ours[sample],
        theirs[sample],
        g,
        one.recording(),
        other.recording(),
        a,
        b,
        one.zero(),
        one.mix(),
        one.accumulate(),
        settle,
    );
}

/// There is no seam: two finished upmixes of the same windows, however they were split into chunks,
/// yield the same channel, if the device looks at no more windows on either side than the guards
/// have, and the arithmetic on samples is determined.
pub proof fn chunks_are_not_heard<
    F,
    C,
    M: Fn(F, C) -> F,
    A: Fn(F, F) -> F,
    S: Fn(F, F) -> F,
>(
    one: Upmixer<F, C, M, A>,
    other: Upmixer<F, C, M, A>,
    channel: int,
    radius: int,
    steer: spec_fn(Seq<C>, Seq<C>, int) -> Seq<C>,
    settle: S,
    ours: Seq<F>,
    theirs: Seq<F>,
)
    requires
        one.finished_with(channel, radius, steer, settle, ours),
        other.finished_with(channel, radius, steer, settle, theirs),
        one.same_arithmetic(&other),
        determined(settle),
        same_shape(one.recording(), other.recording()),
        one.recording().left@ == other.recording().left@,
        one.recording().right@ == other.recording().right@,
    ensures
        ours == theirs,
{
    one.task_is_valid();
    other.task_is_valid();
    one.answers_are_those_of_one_pass(channel, radius, steer);
    other.answers_are_those_of_one_pass(channel, radius, steer);
    assert(one.windows(channel) =~= other.windows(channel));
    windows_determine_the_channel(
        ours,
        theirs,
        one.recording(),
        other.recording(),
        one.windows(channel),
        one.zero(),
        one.mix(),
        one.accumulate(),
        settle,
    );
}

/// Two channels sound the same from sample `from` up to sample `to`, with silence before their
/// beginnings and after their ends.
pub open spec fn sound_alike<F>(one: Seq<F>, other: Seq<F>, silence: F, from: int, to: int) -> bool {
    forall|j: int|
        from <= j < to ==> #[trigger] heard(one, j, silence) == heard(other, j, silence)
}

/// Where two channels sound the same, the windows that are cut from them are the same.
proof fn lemma_same_window<F, C, W: Fn(F, F) -> C>(
    one: Seq<C>,
    other: Seq<C>,
    x: Seq<F>,
    y: Seq<F>,
    hann: Seq<F>,
    hop: int,
    silence: F,
    weigh: W,
    window: int,
)
    requires
        hop > 0,
        hann.len() == 2 * hop,
        weighted_windows(
            one,
            window_count(x.len(), hann.len(), hop as nat) as int,
            padded(x, hop as nat, silence),
            hann,
            hop,
            weigh,
        ),
        weighted_windows(
            other,
            window_count(y.len(), hann.len(), hop as nat) as int,
            padded(y, hop as nat, silence),
            hann,
            hop,
            weigh,
        ),
        determined(weigh),
        0 <= window < window_count(x.len(), hann.len(), hop as nat),
        window < window_count(y.len(), hann.len(), hop as nat),
        sound_alike(x, y, silence, (window - 1) * hop, (window + 1) * hop),
    ensures
        block(one, window, hann.len() as int) == block(other, window, hann.len() as int),
        block(one, window, hann.len() as int).len() == hann.len(),
{
    let size = hann.len() as int;
    let count_x = window_count(x.len(), hann.len(), hop as nat) as int;
    let count_y = window_count(y.len(), hann.len(), hop as nat) as int;
    lemma_fundamental_div_mod(x.len() as int, hop);
    lemma_fundamental_div_mod(y.len() as int, hop);
    assert((window - 1) * hop == window * hop - hop) by (nonlinear_arith);
    assert((window + 1) * hop == window * hop + hop) by (nonlinear_arith);
    assert(0 <= window * hop) by (nonlinear_arith)
        requires
            0 <= window,
            hop > 0,
    ;
    assert(window * hop <= x.len() && window * hop <= y.len()) by (nonlinear_arith)
        requires
            window <= x.len() as int / hop,
            window <= y.len() as int / hop,
            x.len() == hop * (x.len() as int / hop) + x.len() as int % hop,
            y.len() == hop * (y.len() as int / hop) + y.len() as int % hop,
            0 <= x.len() as int % hop,
            0 <= y.len() as int % hop,
            hop > 0,
    ;
    assert(0 <= window * size && window * size + size <= one.len() && window * size + size
        <= other.len()) by (nonlinear_arith)
        requires
            0 <= window,
            window + 1 <= count_x,
            window + 1 <= count_y,
            one.len() == count_x * size,
            other.len() == count_y * size,
            size > 0,
    ;
    let source = padded(x, hop as nat, silence);
    let target = padded(y, hop as nat, silence);
    assert forall|s: int| 0 <= s < size implies block(one, window, size)[s] == #[trigger] block(
        other,
        window,
        size,
    )[s] by {
        let p = window * hop + s;
        assert(source[p] == heard(x, p - hop, silence));
        assert(target[p] == heard(y, p - hop, silence));
        assert(heard(x, p - hop, silence) == heard(y, p - hop, silence));
        assert(call_ensures(weigh, (source[p], hann[s]), block(one, window, size)[s]));
        assert(call_ensures(weigh, (target[p], hann[s]), block(other, window, size)[s]));
    }
    assert(block(one, window, size) =~= block(other, window, size));
}

/// Runs of equal windows are equal.
proof fn lemma_same_run<C>(one: Seq<C>, other: Seq<C>, size: int, first: int, past: int)
    requires
        size > 0,
        0 <= first <= past,
        past * size <= one.len(),
        past * size <= other.len(),
        forall|w: int|
            first <= w < past ==> #[trigger] block(one, w, size) == block(other, w, size),
    ensures
        one.subrange(first * size, past * size) == other.subrange(first * size, past * size),
{
    assert(0 <= first * size <= past * size) by (nonlinear_arith)
        requires
            0 <= first <= past,
            size > 0,
    ;
    assert forall|p: int| first * size <= p < past * size implies one[p] == #[trigger] other[p] by {
        let w = p / size;
        let s = p % size;
        lemma_fundamental_div_mod(p, size);
        assert(first <= w < past && w * size + s == p && 0 <= w * size && w * size + size <= past
            * size) by (nonlinear_arith)
            requires
                p == size * w + s,
                0 <= s < size,
                first * size <= p < past * size,
                0 <= first,
                size > 0,
        ;
        assert(block(one, w, size) == block(other, w, size));
        assert(block(one, w, size)[s] == one[p]);
        assert(block(other, w, size)[s] == other[p]);
    }
    assert(one.subrange(first * size, past * size) =~= other.subrange(first * size, past * size));
}

/// Where the channels sound the same around a window, the device answers the same for it.
proof fn lemma_same_answer<F, C, W: Fn(F, F) -> C, M: Fn(F, C) -> F, A: Fn(F, F) -> F>(
    one: Upmixer<F, C, M, A>,
    other: Upmixer<F, C, M, A>,
    left: (Seq<F>, Seq<F>),
    right: (Seq<F>, Seq<F>),
    silence: F,
    weigh: W,
    radius: int,
    steer: spec_fn(Seq<C>, Seq<C>, int) -> Seq<C>,
    window: int,
)
    requires
        one.recording().cut_from(left.0, right.0, silence, weigh),
        other.recording().cut_from(left.1, right.1, silence, weigh),
        determined(weigh),
        same_shape(one.recording(), other.recording()),
        0 <= radius,
        0 <= window < one.recording().num_windows,
        ({
            let hop = one.recording().hop_size();
            let count = one.recording().num_windows as int;
            let from = (context_first(window, radius) - 1) * hop;
            let to = (context_last(window, radius, count) + 1) * hop;
            &&& sound_alike(left.0, left.1, silence, from, to)
            &&& sound_alike(right.0, right.1, silence, from, to)
        }),
    ensures
        one.steered_window(steer, radius, window) == other.steered_window(steer, radius, window),
{
    let hop = one.recording().hop_size();
    let size = one.recording().window_size();
    let count = one.recording().num_windows as int;
    let hann = one.recording().hann@;
    let first = context_first(window, radius);
    let past = context_last(window, radius, count) + 1;
    let from = (first - 1) * hop;
    let to = past * hop;
    assert forall|v: int|
        #![trigger block(one.recording().left@, v, size)]
        #![trigger block(one.recording().right@, v, size)]
        first <= v < past implies block(one.recording().left@, v, size) == block(
        other.recording().left@,
        v,
        size,
    ) && block(one.recording().right@, v, size) == block(other.recording().right@, v, size) by {
        assert(from <= (v - 1) * hop && (v + 1) * hop <= to) by (nonlinear_arith)
            requires
                from == (first - 1) * hop,
                to == past * hop,
                first <= v,
                v + 1 <= past,
                hop > 0,
        ;
        lemma_same_window(
            one.recording().left@,
            other.recording().left@,
            left.0,
            left.1,
            hann,
            hop,
            silence,
            weigh,
            v,
        );
        lemma_same_window(
            one.recording().right@,
            other.recording().right@,
            right.0,
            right.1,
            hann,
            hop,
            silence,
            weigh,
            v,
        );
    }
    assert(past * size <= count * size) by (nonlinear_arith)
        requires
            past <= count,
            size > 0,
    ;
    lemma_same_run(one.recording().left@, other.recording().left@, size, first, past);
    lemma_same_run(one.recording().right@, other.recording().right@, size, first, past);
}

/// A sample hears its neighbourhood only: two finished upmixes of recordings that sound the same
/// less than `radius + 2` hops around a sample yield the same sample, if the device looks at no more
/// than `radius` windows on either side.
pub proof fn a_sample_hears_its_neighbourhood<
    F,
    C,
    W: Fn(F, F) -> C,
    M: Fn(F, C) -> F,
    A: Fn(F, F) -> F,
    S: Fn(F, F) -> F,
>(
    one: Upmixer<F, C, M, A>,
    other: Upmixer<F, C, M, A>,
    left: (Seq<F>, Seq<F>),
    right: (Seq<F>, Seq<F>),
    silence: F,
    weigh: W,
    channel: int,
    radius: int,
    steer: spec_fn(Seq<C>, Seq<C>, int) -> Seq<C>,
    settle: S,
    ours: Seq<F>,
    theirs: Seq<F>,
    sample: int,
)
    requires
        one.finished_with(channel, radius, steer, settle, ours),
        other.finished_with(channel, radius, steer, settle, theirs),
        one.same_arithmetic(&other),
        determined(settle),
        determined(weigh),
        one.recording().hann@ == other.recording().hann@,
        left.0.len() == left.1.len(),
        one.recording().cut_from(left.0, right.0, silence, weigh),
        other.recording().cut_from(left.1, right.1, silence, weigh),
        0 <= sample < left.0.len(),
        ({
            let reach = (radius + 2) * one.recording().hop_size();
            &&& sound_alike(left.0, left.1, silence, sample - reach + 1, sample + reach)
            &&& sound_alike(right.0, right.1, silence, sample - reach + 1, sample + reach)
        }),
    ensures
        ours[sample] == theirs[sample],
{
    let hop = one.recording().hop_size();
    let count = one.recording().num_windows as int;
    let reach = (radius + 2) * hop;
    let own = sample / hop + 1;
    lemma_fundamental_div_mod(sample, hop);
    assert forall|w: int| own - 1 <= w <= own && 0 <= w < count implies #[trigger] one.steered_window(
        steer,
        radius,
        w,
    ) == other.steered_window(steer, radius, w) by {
        let first = context_first(w, radius);
        let past = context_last(w, radius, count) + 1;
        assert(sample - reach < (first - 1) * hop && past * hop <= sample + reach)
            by (nonlinear_arith)
            requires
                sample == hop * (own - 1) + sample % hop,
                0 <= sample % hop < hop,
                first >= own - 1 - radius,
                past <= own + radius + 1,
                reach == (radius + 2) * hop,
                hop > 0,
        ;
        lemma_same_answer(one, other, left, right, silence, weigh, radius, steer, w);
    }
    lemma_two_windows_determine_the_sample(
        one,
        other,
        channel,
        radius,
        steer,
        settle,
        ours,
        theirs,
        sample,
    );
}

/// What the right channel has beyond the windows of the left is ignored: two finished upmixes with
/// the same left channel yield the same channel, as long as the left, if the right channels sound
/// the same up to the hop in which the left one ends.
pub proof fn excess_on_the_right_is_ignored<
    F,
    C,
    W: Fn(F, F) -> C,
    M: Fn(F, C) -> F,
    A: Fn(F, F) -> F,
    S: Fn(F, F) -> F,
>(
    one: Upmixer<F, C, M, A>,
    other: Upmixer<F, C, M, A>,
    left: Seq<F>,
    right: (Seq<F>, Seq<F>),
    silence: F,
    weigh: W,
    channel: int,
    radius: int,
    steer: spec_fn(Seq<C>, Seq<C>, int) -> Seq<C>,
    settle: S,
    ours: Seq<F>,
    theirs: Seq<F>,
)
    requires
        one.finished_with(channel, radius, steer, settle, ours),
        other.finished_with(channel, radius, steer, settle, theirs),
        one.same_arithmetic(&other),
        determined(settle),
        determined(weigh),
        one.recording().hann@ == other.recording().hann@,
        one.recording().cut_from(left, right.0, silence, weigh),
        other.recording().cut_from(left, right.1, silence, weigh),
        ({
            let hop = one.recording().hop_size();
            sound_alike(right.0, right.1, silence, 0, (left.len() as int / hop + 1) * hop)
        }),
    ensures
        ours == theirs,
        ours.len() == left.len(),
{
    let hop = one.recording().hop_size();
    let count = one.recording().num_windows as int;
    let end = (left.len() as int / hop + 1) * hop;
    crate::upmix::windows_of_a_recording(left.len(), one.recording().window_size() as nat);
    assert forall|w: int| 0 <= w < count implies #[trigger] one.steered_window(steer, radius, w)
        == other.steered_window(steer, radius, w) by {
        let first = context_first(w, radius);
        let past = context_last(w, radius, count) + 1;
        assert(past * hop <= end) by (nonlinear_arith)
            requires
                past <= count,
                end == count * hop,
                hop > 0,
        ;
        lemma_same_answer(
            one,
            other,
            (left, left),
            right,
            silence,
            weigh,
            radius,
            steer,
            w,
        );
    }
    assert forall|i: int| 0 <= i < ours.len() implies ours[i] == #[trigger] theirs[i] by {
        lemma_two_windows_determine_the_sample(
            one,
            other,
            channel,
            radius,
            steer,
            settle,
            ours,
            theirs,
            i,
        );
    }
    assert(ours =~= theirs);
}

/// The memory of the device is not heard: two upmixes of the same windows that were begun with the
/// same context yield the same channel, whatever their memory, if the device looks at no more windows
/// on either side than that context.
pub proof fn the_memory_is_not_heard<
    F: Copy,
    C: Copy,
    M: Fn(F, C) -> F,
    A: Fn(F, F) -> F,
    S: Fn(F, F) -> F,
>(
    fresh: (Upmixer<F, C, M, A>, Upmixer<F, C, M, A>),
    memory: (Option<u64>, Option<u64>),
    context: usize,
    one: Upmixer<F, C, M, A>,
    other: Upmixer<F, C, M, A>,
    channel: int,
    steer: spec_fn(Seq<C>, Seq<C>, int) -> Seq<C>,
    settle: &S,
    ours: [Vec<F>; 6],
    theirs: [Vec<F>; 6],
)
    requires
        call_ensures(
            Upmixer::<F, C, M, A>::new,
            (one.recording(), memory.0, context, one.zero(), one.mix(), one.accumulate()),
            fresh.0,
        ),
        call_ensures(
            Upmixer::<F, C, M, A>::new,
            (other.recording(), memory.1, context, other.zero(), other.mix(), other.accumulate()),
            fresh.1,
        ),
        one.plan() == fresh.0.plan(),
        other.plan() == fresh.1.plan(),
        one.wf() && other.wf(),
        one.taken().len() == one.plan().num_chunks,
        other.taken().len() == other.plan().num_chunks,
        0 <= channel < 6,
        one.answered_by(channel, context as int, steer),
        other.answered_by(channel, context as int, steer),
        call_ensures(Upmixer::<F, C, M, A>::finish::<S>, (one, settle), ours),
        call_ensures(Upmixer::<F, C, M, A>::finish::<S>, (other, settle), theirs),
        one.same_arithmetic(&other),
        determined(*settle),
        one.recording().len == other.recording().len,
        one.recording().num_windows == other.recording().num_windows,
        one.recording().hann@ == other.recording().hann@,
        one.recording().left@ == other.recording().left@,
        one.recording().right@ == other.recording().right@,
    ensures
        ours[channel]@ == theirs[channel]@,
{
    chunks_are_not_heard(
        one,
        other,
        channel,
        context as int,
        steer,
        *settle,
        ours[channel]@,
        theirs[channel]@,
    );
}

} // verus!
