//! Adding overlapping windows up.
//!
//! The arithmetic on samples is the caller's: a step takes the sum so far and the next item to the
//! next sum.  What is settled here is which items meet in which place, and in which order.
use vstd::arithmetic::div_mod::lemma_fundamental_div_mod;
use vstd::prelude::*;

verus! {

/// `end` is what `step` makes of `start` and `items`, taken one after the other.
pub open spec fn folded<A, B, M: Fn(A, B) -> A>(step: M, start: A, items: Seq<B>, end: A) -> bool
    decreases items.len(),
{
    if items.len() == 0 {
        end == start
    } else {
        exists|mid: A|
            folded(step, start, items.drop_last(), mid) && #[trigger] call_ensures(
                step,
                (mid, items.last()),
                end,
            )
    }
}

/// The entries that meet in place `g`, in order, when block `w` of `blocks` is laid down from place
/// `w * hop` on.
pub open spec fn layers<T>(blocks: Seq<Seq<T>>, hop: int, g: int) -> Seq<T>
    decreases blocks.len(),
{
    if blocks.len() == 0 {
        Seq::empty()
    } else {
        let below = layers(blocks.drop_last(), hop, g);
        let s = g - (blocks.len() - 1) * hop;
        if 0 <= s < blocks.last().len() {
            below.push(blocks.last()[s])
        } else {
            below
        }
    }
}

/// Folding is done in one go or in two: the sum of a first run of items is the start of the rest.
pub proof fn folds_compose<A, B, M: Fn(A, B) -> A>(
    step: M,
    start: A,
    first: Seq<B>,
    mid: A,
    rest: Seq<B>,
    end: A,
)
    requires
        folded(step, start, first, mid),
        folded(step, mid, rest, end),
    ensures
        folded(step, start, first + rest, end),
    decreases rest.len(),
{
    if rest.len() == 0 {
        assert(first + rest == first);
    } else {
        let before = choose|before: A|
            folded(step, mid, rest.drop_last(), before) && #[trigger] call_ensures(
                step,
                (before, rest.last()),
                end,
            );
        folds_compose(step, start, first, mid, rest.drop_last(), before);
        assert((first + rest).drop_last() == first + rest.drop_last());
        assert((first + rest).last() == rest.last());
    }
}

/// A step whose result is determined by its arguments gives a fold one result.
pub proof fn fold_is_determined<A, B, M: Fn(A, B) -> A>(
    step: M,
    start: A,
    items: Seq<B>,
    one: A,
    other: A,
)
    requires
        forall|a: A, b: B, x: A, y: A| #[trigger]
            call_ensures(step, (a, b), x) && #[trigger] call_ensures(step, (a, b), y) ==> x == y,
        folded(step, start, items, one),
        folded(step, start, items, other),
    ensures
        one == other,
    decreases items.len(),
{
    if items.len() > 0 {
        let a = choose|a: A|
            folded(step, start, items.drop_last(), a) && #[trigger] call_ensures(
                step,
                (a, items.last()),
                one,
            );
        let b = choose|b: A|
            folded(step, start, items.drop_last(), b) && #[trigger] call_ensures(
                step,
                (b, items.last()),
                other,
            );
        fold_is_determined(step, start, items.drop_last(), a, b);
    }
}

/// With blocks of two hops, place `g` is met by the block that begins in the hop before it and by
/// the block that begins in its own hop, where there are such blocks.
pub proof fn two_blocks_meet<T>(blocks: Seq<Seq<T>>, hop: int, g: int)
    requires
        hop > 0,
        g >= 0,
        forall|w: int| 0 <= w < blocks.len() ==> (#[trigger] blocks[w]).len() == 2 * hop,
    ensures
        ({
            let own = g / hop;
            let s = g % hop;
            let before = if 1 <= own <= blocks.len() {
                seq![blocks[own - 1][hop + s]]
            } else {
                Seq::empty()
            };
            let after = if own < blocks.len() {
                seq![blocks[own][s]]
            } else {
                Seq::empty()
            };
            layers(blocks, hop, g) == before + after
        }),
    decreases blocks.len(),
{
    let own = g / hop;
    lemma_fundamental_div_mod(g, hop);
    assert(own >= 0) by (nonlinear_arith)
        requires
            own == g / hop,
            g >= 0,
            hop > 0,
    ;
    if blocks.len() > 0 {
        let fewer = blocks.drop_last();
        let last = blocks.len() - 1;
        assert forall|w: int| 0 <= w < fewer.len() implies (#[trigger] fewer[w]).len() == 2 * hop by {
            assert(fewer[w] == blocks[w]);
        }
        two_blocks_meet(fewer, hop, g);
        let s = g - last * hop;
        assert((own - last) * hop == own * hop - last * hop) by (nonlinear_arith);
        assert(s == (own - last) * hop + g % hop) by (nonlinear_arith)
            requires
                s == g - last * hop,
                g == hop * own + g % hop,
        ;
        if own == last {
            assert(0 * hop == 0);
        } else if own == last + 1 {
            assert(1 * hop == hop);
        } else if own < last {
            assert(s < 0) by (nonlinear_arith)
                requires
                    s == (own - last) * hop + g % hop,
                    own - last <= -1,
                    g % hop < hop,
                    hop > 0,
            ;
        } else {
            assert(s >= 2 * hop) by (nonlinear_arith)
                requires
                    s == (own - last) * hop + g % hop,
                    own - last >= 2,
                    g % hop >= 0,
                    hop > 0,
            ;
        }
    }
}

/// Lays `count` items of `source`, from item `from` on, onto the sums from place `base` on.
pub fn lay_down<F: Copy, C: Copy, M: Fn(F, C) -> F>(
    sums: &mut Vec<F>,
    base: usize,
    source: &[C],
    from: usize,
    count: usize,
    step: &M,
)
    requires
        base + count <= old(sums).len(),
        from + count <= source.len(),
        forall|a: F, c: C| call_requires(step, (a, c)),
    ensures
        final(sums).len() == old(sums).len(),
        forall|g: int|
            0 <= g < old(sums).len() ==> if base <= g < base + count {
                call_ensures(step, (old(sums)[g], source[from + (g - base)]), #[trigger] final(sums)[g])
            } else {
                final(sums)[g] == old(sums)[g]
            },
{
    let ghost before = sums@;
    for s in 0..count
        invariant
            base + count <= sums.len(),
            sums.len() == before.len(),
            from + count <= source.len(),
            forall|a: F, c: C| call_requires(step, (a, c)),
            forall|g: int|
                0 <= g < before.len() ==> if base <= g < base + s {
                    call_ensures(step, (before[g], source[from + (g - base)]), #[trigger] sums[g])
                } else {
                    sums[g] == before[g]
                },
    {
        let sum: F = step(sums[base + s], source[from + s]);
        sums[base + s] = sum;
    }
}

/// Every place of `sums` holds what `step` makes of `start` and the entries that meet there.
pub open spec fn summed<F, C, M: Fn(F, C) -> F>(
    sums: Seq<F>,
    step: M,
    start: F,
    blocks: Seq<Seq<C>>,
    hop: int,
) -> bool {
    forall|g: int|
        0 <= g < sums.len() ==> folded(step, start, layers(blocks, hop, g), #[trigger] sums[g])
}

/// Laying one more block down keeps every place the sum of the entries that meet there.
pub proof fn lemma_one_more_block<F, C, M: Fn(F, C) -> F>(
    before: Seq<F>,
    after: Seq<F>,
    step: M,
    start: F,
    blocks: Seq<Seq<C>>,
    next: Seq<C>,
    hop: int,
)
    requires
        summed(before, step, start, blocks, hop),
        after.len() == before.len(),
        forall|g: int|
            0 <= g < before.len() ==> if blocks.len() * hop <= g < blocks.len() * hop + next.len() {
                call_ensures(
                    step,
                    (before[g], next[g - blocks.len() * hop]),
                    #[trigger] after[g],
                )
            } else {
                after[g] == before[g]
            },
    ensures
        summed(after, step, start, blocks.push(next), hop),
{
    let more = blocks.push(next);
    assert(more.drop_last() == blocks);
    assert forall|g: int| 0 <= g < after.len() implies folded(
        step,
        start,
        layers(more, hop, g),
        #[trigger] after[g],
    ) by {
        let below = layers(blocks, hop, g);
        let s = g - blocks.len() * hop;
        assert(folded(step, start, below, before[g]));
        if 0 <= s < next.len() {
            let all = layers(more, hop, g);
            assert(all == below.push(next[s]));
            assert(all.drop_last() == below);
            assert(call_ensures(step, (before[g], all.last()), after[g]));
        }
    }
}

/// Items are laid down one by one, each onto its own place: item `from + i` onto place `base + i`; the
/// other places stay as they are.
pub proof fn each_item_has_its_place<F: Copy, C: Copy, M: Fn(F, C) -> F>(
    sums: &mut Vec<F>,
    base: usize,
    source: &[C],
    from: usize,
    count: usize,
    step: &M,
    i: int,
)
    requires
        call_ensures(lay_down::<F, C, M>, (sums, base, source, from, count, step), ()),
        0 <= base + i < old(sums)@.len(),
    ensures
        final(sums)@.len() == old(sums)@.len(),
        0 <= i < count ==> call_ensures(
            step,
            (old(sums)@[base + i], source@[from + i]),
            final(sums)@[base + i],
        ),
        !(0 <= i < count) ==> final(sums)@[base + i] == old(sums)@[base + i],
{
    assert(final(sums)[base + i] == final(sums)@[base + i]);
}

} // verus!
