//! Sliding windows: queues of timed samples from which the samples that are
//! too old are dropped at the front.

use std::collections::VecDeque;
use vstd::prelude::*;

verus! {

/// `a + b`, stopping at `u64::MAX`.
pub open spec fn sat_add(a: u64, b: int) -> u64 {
    if a + b > u64::MAX {
        u64::MAX
    } else if a + b < 0 {
        0
    } else {
        (a + b) as u64
    }
}

/// `a + b`, stopping at `u128::MAX`.
pub open spec fn sat_add128(a: u128, b: int) -> u128 {
    if a + b > u128::MAX {
        u128::MAX
    } else if a + b < 0 {
        0
    } else {
        (a + b) as u128
    }
}

/// The largest `u64` not above `v`.
pub open spec fn clip64(v: int) -> u64 {
    if v > u64::MAX {
        u64::MAX
    } else if v < 0 {
        0
    } else {
        v as u64
    }
}

/// The largest `u128` not above `v`.
pub open spec fn clip128(v: int) -> u128 {
    if v > u128::MAX {
        u128::MAX
    } else if v < 0 {
        0
    } else {
        v as u128
    }
}

/// A running sum after `added` came in and the samples worth `gone` left:
/// the sum stops at `u64::MAX` and at zero.
pub open spec fn window_sum(sum: u64, added: int, gone: nat) -> u64 {
    clip64(sat_add(sum, added) - gone)
}

/// A running sum after `added` came in and the samples worth `gone` left:
/// the sum stops at `u128::MAX` and at zero.
pub open spec fn window_sum128(sum: u128, added: int, gone: nat) -> u128 {
    if sat_add128(sum, added) - gone < 0 {
        0
    } else {
        (sat_add128(sum, added) - gone) as u128
    }
}

/// The largest `u64` not above `v`.
pub fn clip_to_u64(v: u128) -> (r: u64)
    ensures
        r == clip64(v as int),
{
    if v > u64::MAX as u128 {
        u64::MAX
    } else {
        v as u64
    }
}

/// A sample taken at `ts` is stale at `now` when it is older than `window`.
pub open spec fn stale(now: u64, ts: u64, window: u64) -> bool {
    now - ts > window
}

/// How many samples at the front are stale, one after the other.
pub open spec fn stale_count(times: Seq<u64>, now: u64, window: u64) -> nat
    decreases times.len(),
{
    if times.len() > 0 && stale(now, times[0], window) {
        1 + stale_count(times.drop_first(), now, window)
    } else {
        0
    }
}

/// The times of timed samples.
pub open spec fn times_of(samples: Seq<(u64, u64)>) -> Seq<u64> {
    Seq::new(samples.len(), |i: int| samples[i].0)
}

/// The sum of the values of timed samples.
pub open spec fn total(samples: Seq<(u64, u64)>) -> nat
    decreases samples.len(),
{
    if samples.len() == 0 {
        0
    } else {
        total(samples.drop_last()) + samples.last().1 as nat
    }
}

/// The window after pruning at `now`: the stale samples at the front are gone.
pub open spec fn pruned_times(times: Seq<u64>, now: u64, window: u64) -> Seq<u64> {
    times.skip(stale_count(times, now, window) as int)
}

/// The window after pruning at `now`: the stale samples at the front are gone.
pub open spec fn pruned(samples: Seq<(u64, u64)>, now: u64, window: u64) -> Seq<(u64, u64)> {
    samples.skip(stale_count(times_of(samples), now, window) as int)
}

/// The sum of the values that pruning at `now` removes.
pub open spec fn evicted(samples: Seq<(u64, u64)>, now: u64, window: u64) -> nat {
    total(samples.take(stale_count(times_of(samples), now, window) as int))
}

/// Times that never go back.
pub open spec fn non_decreasing(times: Seq<u64>) -> bool {
    forall|i: int, j: int| 0 <= i <= j < times.len() ==> times[i] <= times[j]
}

/// No sample of the window is stale at `now`.
pub open spec fn all_fresh(times: Seq<u64>, now: u64, window: u64) -> bool {
    forall|i: int| 0 <= i < times.len() ==> !stale(now, #[trigger] times[i], window)
}

/// No more samples are stale than there are.
pub proof fn lemma_stale_count_bound(times: Seq<u64>, now: u64, window: u64)
    ensures
        stale_count(times, now, window) <= times.len(),
    decreases times.len(),
{
    if times.len() > 0 && stale(now, times[0], window) {
        lemma_stale_count_bound(times.drop_first(), now, window);
    }
}

/// Pruning removes stale samples only, and stops at a sample that is not stale.
pub proof fn lemma_stale_prefix(times: Seq<u64>, now: u64, window: u64)
    ensures
        stale_count(times, now, window) <= times.len(),
        forall|i: int|
            0 <= i < stale_count(times, now, window) ==> stale(now, #[trigger] times[i], window),
        stale_count(times, now, window) < times.len() ==> !stale(
            now,
            times[stale_count(times, now, window) as int],
            window,
        ),
    decreases times.len(),
{
    if times.len() > 0 && stale(now, times[0], window) {
        let rest = times.drop_first();
        lemma_stale_prefix(rest, now, window);
        assert forall|i: int| 0 <= i < stale_count(times, now, window) implies stale(
            now,
            #[trigger] times[i],
            window,
        ) by {
            if i > 0 {
                assert(times[i] == rest[i - 1]);
            }
        }
        if stale_count(times, now, window) < times.len() {
            assert(times[stale_count(times, now, window) as int] == rest[stale_count(
                rest,
                now,
                window,
            ) as int]);
        }
    }
}

/// Where time does not go back, pruning leaves no stale sample: after
/// samples up to `now` have been taken in, none older than `window` remains.
pub proof fn lemma_pruned_window_is_fresh(times: Seq<u64>, now: u64, window: u64)
    requires
        non_decreasing(times),
    ensures
        all_fresh(pruned_times(times, now, window), now, window),
        non_decreasing(pruned_times(times, now, window)),
{
    lemma_stale_prefix(times, now, window);
    let k = stale_count(times, now, window) as int;
    let kept = pruned_times(times, now, window);
    assert forall|i: int| 0 <= i < kept.len() implies !stale(now, #[trigger] kept[i], window) by {
        assert(kept[i] == times[k + i]);
        assert(times[k] <= times[k + i]);
    }
    assert forall|i: int, j: int| 0 <= i <= j < kept.len() implies kept[i] <= kept[j] by {
        assert(kept[i] == times[k + i]);
        assert(kept[j] == times[k + j]);
    }
}

/// No sample was taken after `now`.
pub open spec fn none_after(times: Seq<u64>, now: u64) -> bool {
    forall|i: int| 0 <= i < times.len() ==> #[trigger] times[i] <= now
}

/// Where time does not go back, a window that has taken in a sample at
/// `now` and was pruned holds no sample older than `window`; its times still
/// do not go back, and it is not empty.
pub proof fn lemma_window_after_insertion(times: Seq<u64>, now: u64, window: u64)
    requires
        non_decreasing(times),
        none_after(times, now),
    ensures
        all_fresh(pruned_times(times.push(now), now, window), now, window),
        non_decreasing(pruned_times(times.push(now), now, window)),
        none_after(pruned_times(times.push(now), now, window), now),
        pruned_times(times.push(now), now, window).len() > 0,
{
    let taken = times.push(now);
    assert(non_decreasing(taken)) by {
        assert forall|i: int, j: int| 0 <= i <= j < taken.len() implies taken[i] <= taken[j] by {
            if j < times.len() {
                assert(taken[i] == times[i] && taken[j] == times[j]);
            } else if i < times.len() {
                assert(taken[i] == times[i]);
            }
        }
    }
    lemma_pruned_window_is_fresh(taken, now, window);
    lemma_pruned_keeps_newest(taken, now, window);
    lemma_stale_count_bound(taken, now, window);
    let kept = pruned_times(taken, now, window);
    let k = stale_count(taken, now, window) as int;
    assert forall|i: int| 0 <= i < kept.len() implies #[trigger] kept[i] <= now by {
        assert(kept[i] == taken[k + i]);
        if k + i < times.len() {
            assert(taken[k + i] == times[k + i]);
        }
    }
}

/// The times of a pruned window of timed samples are the pruned times.
pub proof fn lemma_pruned_times_of(samples: Seq<(u64, u64)>, now: u64, window: u64)
    ensures
        times_of(pruned(samples, now, window)) == pruned_times(times_of(samples), now, window),
{
    lemma_stale_count_bound(times_of(samples), now, window);
    assert(times_of(pruned(samples, now, window)) =~= pruned_times(
        times_of(samples),
        now,
        window,
    ));
}

/// As `lemma_window_after_insertion`, for a window of timed samples.
pub proof fn lemma_samples_after_insertion(
    samples: Seq<(u64, u64)>,
    value: u64,
    now: u64,
    window: u64,
)
    requires
        non_decreasing(times_of(samples)),
        none_after(times_of(samples), now),
    ensures
        all_fresh(times_of(pruned(samples.push((now, value)), now, window)), now, window),
        non_decreasing(times_of(pruned(samples.push((now, value)), now, window))),
        none_after(times_of(pruned(samples.push((now, value)), now, window)), now),
        pruned(samples.push((now, value)), now, window).len() > 0,
{
    let taken = samples.push((now, value));
    assert(times_of(taken) =~= times_of(samples).push(now));
    lemma_window_after_insertion(times_of(samples), now, window);
    lemma_pruned_times_of(taken, now, window);
}

/// A window without stale samples is left as it is.
pub proof fn lemma_fresh_window_is_kept(times: Seq<u64>, now: u64, window: u64)
    requires
        all_fresh(times, now, window),
    ensures
        stale_count(times, now, window) == 0,
        pruned_times(times, now, window) == times,
{
    if times.len() > 0 {
        assert(!stale(now, times[0], window));
    }
    assert(times.skip(0) =~= times);
}

/// A sample taken at `now` is never stale at `now`, so a window that has
/// just taken one in is not empty after pruning.
pub proof fn lemma_pruned_keeps_newest(times: Seq<u64>, now: u64, window: u64)
    requires
        times.len() > 0,
        times.last() == now,
    ensures
        stale_count(times, now, window) < times.len(),
    decreases times.len(),
{
    if times.len() > 1 && stale(now, times[0], window) {
        lemma_pruned_keeps_newest(times.drop_first(), now, window);
    }
}

/// A sample more adds its value to the sum.
pub proof fn lemma_total_push(samples: Seq<(u64, u64)>, s: (u64, u64))
    ensures
        total(samples.push(s)) == total(samples) + s.1,
{
    assert(samples.push(s).drop_last() =~= samples);
}

/// A sum of values is at most their number times the largest value.
pub proof fn lemma_total_bound(samples: Seq<(u64, u64)>)
    ensures
        total(samples) <= samples.len() * u64::MAX,
    decreases samples.len(),
{
    if samples.len() > 0 {
        lemma_total_bound(samples.drop_last());
        assert((samples.len() - 1) * u64::MAX + u64::MAX == samples.len() * u64::MAX)
            by (nonlinear_arith);
    }
}

/// Drops the stale samples at the front of a queue of times.
pub fn prune_times(samples: &mut VecDeque<u64>, now: u64, window: u64)
    ensures
        final(samples)@ == pruned_times(old(samples)@, now, window),
{
    let ghost mut dropped: nat = 0;
    loop
        invariant
            dropped <= old(samples)@.len(),
            samples@ == old(samples)@.skip(dropped as int),
            stale_count(old(samples)@, now, window) == dropped + stale_count(samples@, now, window),
        ensures
            samples@ == pruned_times(old(samples)@, now, window),
        decreases samples@.len(),
    {
        if samples.len() == 0 {
            break;
        }
        let ts: u64 = samples[0];
        if !(now > ts && now - ts > window) {
            break;
        }
        proof {
            assert(samples@.drop_first() =~= old(samples)@.skip(dropped as int + 1));
            dropped = dropped + 1;
        }
        samples.pop_front();
    }
}

/// Drops the stale samples at the front of a queue of timed samples and
/// returns the sum of their values.
pub fn prune_samples(samples: &mut VecDeque<(u64, u64)>, now: u64, window: u64) -> (gone: u128)
    ensures
        final(samples)@ == pruned(old(samples)@, now, window),
        gone == evicted(old(samples)@, now, window),
{
    let ghost mut dropped: nat = 0;
    let mut gone: u128 = 0;
    let initial_len: usize = samples.len();
    assert(old(samples)@.take(0) =~= Seq::<(u64, u64)>::empty());
    assert(times_of(old(samples)@).skip(0) =~= times_of(old(samples)@));
    loop
        invariant
            dropped <= old(samples)@.len(),
            samples@ == old(samples)@.skip(dropped as int),
            stale_count(times_of(old(samples)@), now, window) == dropped + stale_count(
                times_of(samples@),
                now,
                window,
            ),
            gone == total(old(samples)@.take(dropped as int)),
            old(samples)@.len() == initial_len,
        ensures
            samples@ == pruned(old(samples)@, now, window),
            gone == evicted(old(samples)@, now, window),
        decreases samples@.len(),
    {
        if samples.len() == 0 {
            break;
        }
        let s: (u64, u64) = samples[0];
        assert(times_of(samples@)[0] == s.0);
        if !(now > s.0 && now - s.0 > window) {
            break;
        }
        proof {
            assert(samples@.drop_first() =~= old(samples)@.skip(dropped as int + 1));
            assert(times_of(samples@).drop_first() =~= times_of(samples@.drop_first()));
            let next = old(samples)@.take(dropped as int + 1);
            assert(next.drop_last() =~= old(samples)@.take(dropped as int));
            assert(next.last() == s);
            lemma_total_bound(next);
            assert(next.len() * u64::MAX <= usize::MAX * u64::MAX) by (nonlinear_arith)
                requires
                    next.len() <= usize::MAX,
            ;
            dropped = dropped + 1;
        }
        gone = gone + s.1 as u128;
        samples.pop_front();
    }
    gone
}

} // verus!
