use vstd::prelude::*;
use rayon::iter::{IntoParallelIterator, ParallelIterator};
use crate::types::{Event, Exchange, Pair, PriceTick};

verus! {

/// A trade with positive price and size; everything else is left out of a
/// window's sums.
pub open spec fn is_valid_trade(e: Event) -> bool {
    match e {
        Event::PriceTick(t) => t.price > 0 && t.size > 0,
        _ => false,
    }
}

/// What an event adds to a window's `Σ price·size`.
pub open spec fn trade_notional(e: Event) -> nat {
    match e {
        Event::PriceTick(t) => if t.price > 0 && t.size > 0 {
            (t.price * t.size) as nat
        } else {
            0
        },
        _ => 0,
    }
}

/// What an event adds to a window's `Σ size`.
pub open spec fn trade_volume(e: Event) -> nat {
    match e {
        Event::PriceTick(t) => if t.price > 0 && t.size > 0 {
            t.size as nat
        } else {
            0
        },
        _ => 0,
    }
}

/// The sum of `w` over a sequence of events.
pub open spec fn total(events: Seq<Event>, w: spec_fn(Event) -> nat) -> nat
    decreases events.len(),
{
    if events.len() == 0 {
        0
    } else {
        total(events.drop_last(), w) + w(events.last())
    }
}

/// `Σ price·size` over the valid trades of a window.
pub open spec fn notional(events: Seq<Event>) -> nat {
    total(events, |e: Event| trade_notional(e))
}

/// `Σ size` over the valid trades of a window.
pub open spec fn volume(events: Seq<Event>) -> nat {
    total(events, |e: Event| trade_volume(e))
}

/// Whether a window's sums fit the 128-bit accumulators.
pub open spec fn sums_fit(events: Seq<Event>) -> bool {
    notional(events) <= u128::MAX
}

/// The sample of a window: its volume-weighted average price, rounded
/// toward zero, and its total size; none for a window without volume.
pub open spec fn vwap_sample(exchange: Exchange, pair: Pair, ts: i64, events: Seq<Event>) -> Option<
    PriceTick,
> {
    if volume(events) > 0 {
        Some(
            PriceTick {
                exchange,
                symbol: pair,
                price: (notional(events) / volume(events)) as u128,
                size: volume(events) as u128,
                timestamp: ts,
            },
        )
    } else {
        None
    }
}

pub open spec fn sum_first(parts: Seq<(u128, u128)>) -> nat
    decreases parts.len(),
{
    if parts.len() == 0 {
        0
    } else {
        sum_first(parts.drop_last()) + parts.last().0 as nat
    }
}

pub open spec fn sum_second(parts: Seq<(u128, u128)>) -> nat
    decreases parts.len(),
{
    if parts.len() == 0 {
        0
    } else {
        sum_second(parts.drop_last()) + parts.last().1 as nat
    }
}

proof fn lemma_total_prefix(events: Seq<Event>, w: spec_fn(Event) -> nat, i: int)
    requires
        0 <= i < events.len(),
    ensures
        total(events.subrange(0, i + 1), w) == total(events.subrange(0, i), w) + w(events[i]),
{
    assert(events.subrange(0, i + 1).drop_last() =~= events.subrange(0, i));
}

proof fn lemma_total_prefix_le(events: Seq<Event>, w: spec_fn(Event) -> nat, i: int)
    requires
        0 <= i <= events.len(),
    ensures
        total(events.subrange(0, i), w) <= total(events, w),
    decreases events.len() - i,
{
    if i < events.len() {
        lemma_total_prefix(events, w, i);
        lemma_total_prefix_le(events, w, i + 1);
    }
    assert(events.subrange(0, events.len() as int) =~= events);
}

proof fn lemma_volume_le_notional(events: Seq<Event>)
    ensures
        volume(events) <= notional(events),
    decreases events.len(),
{
    if events.len() > 0 {
        lemma_volume_le_notional(events.drop_last());
        match events.last() {
            Event::PriceTick(t) => {
                if t.price > 0 && t.size > 0 {
                    let p = t.price as int;
                    let s = t.size as int;
                    assert(s <= p * s) by (nonlinear_arith)
                        requires
                            p >= 1,
                            s >= 1,
                    ;
                }
            },
            _ => {},
        }
    }
}

/// Whether the sums of a window fit the accumulators that the aggregation uses.
pub fn window_fits(events: &Vec<Event>) -> (r: bool)
    ensures
        r == sums_fit(events@),
{
    let mut sum: u128 = 0;
    let mut i: usize = 0;
    while i < events.len()
        invariant
            0 <= i <= events@.len(),
            sum == notional(events@.subrange(0, i as int)),
        decreases events@.len() - i,
    {
        proof {
            lemma_total_prefix(events@, |e: Event| trade_notional(e), i as int);
        }
        match &events[i] {
            Event::PriceTick(t) => {
                if t.price > 0 && t.size > 0 {
                    let p = t.price as u128;
                    let s = t.size as u128;
                    assert(p * s <= u128::MAX) by (nonlinear_arith)
                        requires
                            p <= u64::MAX,
                            s <= u64::MAX,
                    ;
                    match sum.checked_add(p * s) {
                        Some(n) => {
                            sum = n;
                        },
                        None => {
                            proof {
                                lemma_total_prefix_le(
                                    events@,
                                    |e: Event| trade_notional(e),
                                    i as int + 1,
                                );
                            }
                            return false;
                        },
                    }
                }
            },
            _ => {},
        }
        i = i + 1;
    }
    assert(events@.subrange(0, i as int) =~= events@);
    true
}

/// Adds two pairs of sums, each capped at the largest `u128`.
pub fn combine_sums(a: (u128, u128), b: (u128, u128)) -> (r: (u128, u128))
    ensures
        r.0 == if a.0 + b.0 > u128::MAX { u128::MAX as int } else { a.0 + b.0 },
        r.1 == if a.1 + b.1 > u128::MAX { u128::MAX as int } else { a.1 + b.1 },
{
    (a.0.saturating_add(b.0), a.1.saturating_add(b.1))
}

/// Relies on rayon's `ParallelIterator::reduce`: it folds all items with
/// `combine_sums`, from the identity `(0, 0)`, in some grouping. Where the
/// totals fit, no partial sum reaches the cap, so the result is the totals.
#[verifier::external_body]
fn par_total(parts: Vec<(u128, u128)>) -> (r: (u128, u128))
    requires
        sum_first(parts@) <= u128::MAX,
        sum_second(parts@) <= u128::MAX,
    ensures
        r.0 == sum_first(parts@),
        r.1 == sum_second(parts@),
{
    parts.into_par_iter().reduce(|| (0, 0), combine_sums)
}

/// Reduces a window of events to its sample: the volume-weighted average
/// price `Σ(price·size) / Σsize` over the trades with positive price and
/// size, rounded toward zero, with `Σsize` as its size and `ts` as its time.
/// A window without such a trade has no sample.
pub fn par_aggregate(exchange: Exchange, pair: Pair, ts: i64, events: Vec<Event>) -> (r: Option<
    PriceTick,
>)
    requires
        sums_fit(events@),
    ensures
        r == vwap_sample(exchange, pair, ts, events@),
        r matches Some(t) ==> t.size > 0,
{
    let mut parts: Vec<(u128, u128)> = Vec::new();
    let mut i: usize = 0;
    proof {
        lemma_total_prefix_le(events@, |e: Event| trade_notional(e), 0);
    }
    while i < events.len()
        invariant
            0 <= i <= events@.len(),
            sums_fit(events@),
            sum_first(parts@) == notional(events@.subrange(0, i as int)),
            sum_second(parts@) == volume(events@.subrange(0, i as int)),
        decreases events@.len() - i,
    {
        proof {
            lemma_total_prefix(events@, |e: Event| trade_notional(e), i as int);
            lemma_total_prefix(events@, |e: Event| trade_volume(e), i as int);
        }
        match &events[i] {
            Event::PriceTick(t) => {
                if t.price > 0 && t.size > 0 {
                    let p = t.price as u128;
                    let s = t.size as u128;
                    assert(p * s <= u128::MAX) by (nonlinear_arith)
                        requires
                            p <= u64::MAX,
                            s <= u64::MAX,
                    ;
                    let ghost before = parts@;
                    parts.push((p * s, s));
                    assert(parts@.drop_last() =~= before);
                }
            },
            _ => {},
        }
        i = i + 1;
    }
    assert(events@.subrange(0, i as int) =~= events@);
    proof {
        lemma_volume_le_notional(events@);
    }
    let (weighted_sum_price, total_size) = par_total(parts);
    if total_size > 0 {
        Some(
            PriceTick {
                exchange,
                symbol: pair,
                price: weighted_sum_price / total_size,
                size: total_size,
                timestamp: ts,
            },
        )
    } else {
        None
    }
}

proof fn lemma_total_remove(events: Seq<Event>, w: spec_fn(Event) -> nat, j: int)
    requires
        0 <= j < events.len(),
    ensures
        total(events, w) == total(events.remove(j), w) + w(events[j]),
    decreases events.len(),
{
    if j == events.len() - 1 {
        assert(events.remove(j) =~= events.drop_last());
    } else {
        assert(events.remove(j).drop_last() =~= events.drop_last().remove(j));
        assert(events.remove(j).last() == events.last());
        lemma_total_remove(events.drop_last(), w, j);
    }
}

proof fn lemma_total_permutation(a: Seq<Event>, b: Seq<Event>, w: spec_fn(Event) -> nat)
    requires
        a.to_multiset() == b.to_multiset(),
    ensures
        total(a, w) == total(b, w),
    decreases a.len(),
{
    broadcast use vstd::seq_lib::group_to_multiset_ensures;

    if a.len() == 0 {
        assert(b.to_multiset().len() == 0);
        assert(b.len() == 0);
    } else {
        let x = a.last();
        assert(a =~= a.drop_last().push(x));
        assert(a.to_multiset().count(x) > 0);
        assert(b.contains(x));
        let j = choose|j: int| 0 <= j < b.len() && b[j] == x;
        assert(a.drop_last().to_multiset() =~= b.remove(j).to_multiset());
        lemma_total_permutation(a.drop_last(), b.remove(j), w);
        lemma_total_remove(b, w, j);
    }
}

proof fn lemma_total_zero(events: Seq<Event>, w: spec_fn(Event) -> nat)
    requires
        forall|i: int| 0 <= i < events.len() ==> w(#[trigger] events[i]) == 0,
    ensures
        total(events, w) == 0,
    decreases events.len(),
{
    if events.len() > 0 {
        assert(events.last() == events[events.len() - 1]);
        lemma_total_zero(events.drop_last(), w);
    }
}

proof fn lemma_total_filter(events: Seq<Event>, w: spec_fn(Event) -> nat)
    requires
        forall|e: Event| !is_valid_trade(e) ==> w(e) == 0,
    ensures
        total(events, w) == total(events.filter(|e: Event| is_valid_trade(e)), w),
    decreases events.len(),
{
    let pred = |e: Event| is_valid_trade(e);
    reveal(Seq::filter);
    if events.len() > 0 {
        lemma_total_filter(events.drop_last(), w);
        let sub = events.drop_last().filter(pred);
        if pred(events.last()) {
            assert(events.filter(pred) == sub.push(events.last()));
            assert(sub.push(events.last()).drop_last() =~= sub);
        } else {
            assert(events.filter(pred) == sub);
        }
    }
}

/// The sample of a window does not depend on the order of its events: two
/// windows that hold the same events, each as often, give the same sample.
pub proof fn lemma_sample_order_independent(
    exchange: Exchange,
    pair: Pair,
    ts: i64,
    a: Seq<Event>,
    b: Seq<Event>,
)
    requires
        a.to_multiset() == b.to_multiset(),
    ensures
        vwap_sample(exchange, pair, ts, a) == vwap_sample(exchange, pair, ts, b),
        notional(a) == notional(b),
        volume(a) == volume(b),
{
    lemma_total_permutation(a, b, |e: Event| trade_notional(e));
    lemma_total_permutation(a, b, |e: Event| trade_volume(e));
}

/// A window that holds no trade with positive price and size (only errors,
/// unsupported messages, or trades with a zero price or size) has no sample.
pub proof fn lemma_no_valid_trade_no_sample(exchange: Exchange, pair: Pair, ts: i64, events: Seq<Event>)
    requires
        forall|i: int| 0 <= i < events.len() ==> !is_valid_trade(#[trigger] events[i]),
    ensures
        vwap_sample(exchange, pair, ts, events) is None,
{
    let w = |e: Event| trade_volume(e);
    assert forall|i: int| 0 <= i < events.len() implies w(#[trigger] events[i]) == 0 by {
        assert(!is_valid_trade(events[i]));
    }
    lemma_total_zero(events, w);
}

/// The sample of a window is the sample of its valid trades alone: errors,
/// unsupported messages and trades with a zero price or size change nothing.
pub proof fn lemma_sample_over_valid_trades(exchange: Exchange, pair: Pair, ts: i64, events: Seq<Event>)
    ensures
        vwap_sample(exchange, pair, ts, events) == vwap_sample(
            exchange,
            pair,
            ts,
            events.filter(|e: Event| is_valid_trade(e)),
        ),
{
    lemma_total_filter(events, |e: Event| trade_notional(e));
    lemma_total_filter(events, |e: Event| trade_volume(e));
}

} // verus!
