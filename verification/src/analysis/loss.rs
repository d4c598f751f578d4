//! Loss accounting: what the statistics of a source say after a run of
//! numbered frames that lies within one window.

use super::universes::{
    burst_count_in_window, fresh_source, is_loss, loss_in_window, seq_gap, sequence_step,
    source_step, timing_step, SourceStatsView, JITTER_WINDOW_US,
};
use super::window::{
    all_fresh, clip64, lemma_fresh_window_is_kept, lemma_total_push, stale, times_of, total,
};
use vstd::prelude::*;

verus! {

/// The statistics of a source after the frames, each given by its sequence
/// number and its capture time.
pub open spec fn fed(frames: Seq<(u8, u64)>) -> SourceStatsView
    decreases frames.len(),
{
    if frames.len() == 0 {
        fresh_source()
    } else {
        source_step(fed(frames.drop_last()), Some(frames.last().0), Some(frames.last().1))
    }
}

/// Whether frame `i` follows a gap that counts as a loss.
pub open spec fn lossy_at(frames: Seq<(u8, u64)>, i: int) -> bool {
    1 <= i < frames.len() && is_loss(seq_gap(frames[i - 1].0, frames[i].0))
}

/// The frames lost before frame `n`: the sum of the gaps that count as losses.
pub open spec fn lost_before(frames: Seq<(u8, u64)>, n: int) -> nat
    decreases n,
{
    if n <= 1 {
        0
    } else if lossy_at(frames, n - 1) {
        lost_before(frames, n - 1) + seq_gap(frames[n - 2].0, frames[n - 1].0) as nat
    } else {
        lost_before(frames, n - 1)
    }
}

/// The bursts that began before frame `n`: the runs of consecutive losses.
pub open spec fn bursts_before(frames: Seq<(u8, u64)>, n: int) -> nat
    decreases n,
{
    if n <= 1 {
        0
    } else if lossy_at(frames, n - 1) && !lossy_at(frames, n - 2) {
        bursts_before(frames, n - 1) + 1
    } else {
        bursts_before(frames, n - 1)
    }
}

/// The frames come in the order of their times, and all within ten seconds.
pub open spec fn within_one_window(frames: Seq<(u8, u64)>) -> bool {
    forall|i: int, j: int|
        0 <= i <= j < frames.len() ==> frames[i].1 <= frames[j].1 && frames[j].1 - frames[i].1
            <= JITTER_WINDOW_US
}

/// The times of the samples lie between the first and the last frame.
pub open spec fn times_between(times: Seq<u64>, first: u64, last: u64) -> bool {
    forall|k: int| 0 <= k < times.len() ==> first <= #[trigger] times[k] <= last
}

spec fn accounted(frames: Seq<(u8, u64)>) -> bool {
    let s = fed(frames);
    let lost = lost_before(frames, frames.len() as int);
    let bursts = bursts_before(frames, frames.len() as int);
    &&& s.last_seq == Some(frames.last().0)
    &&& s.loss == clip64(lost as int)
    &&& s.loss_sum == clip64(lost as int)
    &&& total(s.loss_samples) == lost
    &&& s.burst_count == clip64(bursts as int)
    &&& s.burst_start_samples.len() == bursts
    &&& (s.current_burst > 0) == lossy_at(frames, frames.len() - 1)
    &&& times_between(times_of(s.loss_samples), frames[0].1, frames.last().1)
    &&& times_between(s.burst_start_samples, frames[0].1, frames.last().1)
}

proof fn lemma_lossy_prefix(frames: Seq<(u8, u64)>, n: int)
    requires
        0 <= n <= frames.len(),
    ensures
        lost_before(frames.take(n), n) == lost_before(frames, n),
        bursts_before(frames.take(n), n) == bursts_before(frames, n),
    decreases n,
{
    lemma_prefix_counts(frames, n, n);
}

proof fn lemma_prefix_counts(frames: Seq<(u8, u64)>, n: int, m: int)
    requires
        0 <= m <= n <= frames.len(),
    ensures
        lost_before(frames.take(n), m) == lost_before(frames, m),
        bursts_before(frames.take(n), m) == bursts_before(frames, m),
    decreases m,
{
    if m > 1 {
        lemma_prefix_counts(frames, n, m - 1);
        assert(frames.take(n)[m - 1] == frames[m - 1]);
        assert(frames.take(n)[m - 2] == frames[m - 2]);
        if m > 2 {
            assert(frames.take(n)[m - 3] == frames[m - 3]);
        }
    }
}

proof fn lemma_accounted(frames: Seq<(u8, u64)>)
    requires
        frames.len() > 0,
        within_one_window(frames),
    ensures
        accounted(frames),
    decreases frames.len(),
{
    let n = frames.len() as int;
    let f = frames.last();
    let front = frames.drop_last();
    if n == 1 {
        assert(front =~= Seq::<(u8, u64)>::empty());
        assert(fed(front) == fresh_source());
        let s = fed(frames);
        assert(s.loss_samples =~= Seq::<(u64, u64)>::empty());
    } else {
        assert(within_one_window(front)) by {
            assert forall|i: int, j: int| 0 <= i <= j < front.len() implies front[i].1 <= front[j].1
                && front[j].1 - front[i].1 <= JITTER_WINDOW_US by {
                assert(front[i] == frames[i] && front[j] == frames[j]);
            }
        }
        lemma_accounted(front);
        assert(front =~= frames.take(n - 1));
        lemma_lossy_prefix(frames, n - 1);
        assert(front.last() == frames[n - 2]);
        assert(front[0] == frames[0]);
        if n > 2 {
            assert(front[n - 3] == frames[n - 3]);
        }
        assert(lossy_at(front, n - 2) == lossy_at(frames, n - 2));
        let before = fed(front);
        let timed = timing_step(before, Some(f.1));
        let gap = seq_gap(frames[n - 2].0, f.0);
        let t = f.1;
        assert(frames[0].1 <= frames[n - 2].1 <= t && t - frames[0].1 <= JITTER_WINDOW_US);
        if is_loss(gap) {
            let taken = timed.loss_samples.push((t, gap as u64));
            assert(times_of(taken) =~= times_of(timed.loss_samples).push(t));
            assert(all_fresh(times_of(taken), t, JITTER_WINDOW_US)) by {
                assert forall|k: int| 0 <= k < times_of(taken).len() implies !stale(
                    t,
                    #[trigger] times_of(taken)[k],
                    JITTER_WINDOW_US,
                ) by {
                    if k < timed.loss_samples.len() {
                        assert(times_of(taken)[k] == times_of(timed.loss_samples)[k]);
                    }
                }
            }
            lemma_fresh_window_is_kept(times_of(taken), t, JITTER_WINDOW_US);
            assert(taken.skip(0) =~= taken);
            assert(taken.take(0) =~= Seq::<(u64, u64)>::empty());
            lemma_total_push(timed.loss_samples, (t, gap as u64));
            let starts = timed.burst_start_samples.push(t);
            assert(all_fresh(starts, t, JITTER_WINDOW_US)) by {
                assert forall|k: int| 0 <= k < starts.len() implies !stale(
                    t,
                    #[trigger] starts[k],
                    JITTER_WINDOW_US,
                ) by {
                    if k < timed.burst_start_samples.len() {
                        assert(starts[k] == timed.burst_start_samples[k]);
                    }
                }
            }
            lemma_fresh_window_is_kept(starts, t, JITTER_WINDOW_US);
            let s = fed(frames);
            assert(s == sequence_step(timed, f.0, Some(t)));
            assert(times_between(times_of(s.loss_samples), frames[0].1, t)) by {
                assert forall|k: int| 0 <= k < times_of(s.loss_samples).len() implies frames[0].1
                    <= #[trigger] times_of(s.loss_samples)[k] <= t by {
                    if k < timed.loss_samples.len() {
                        assert(times_of(s.loss_samples)[k] == times_of(timed.loss_samples)[k]);
                    }
                }
            }
            assert(times_between(s.burst_start_samples, frames[0].1, t)) by {
                assert forall|k: int| 0 <= k < s.burst_start_samples.len() implies frames[0].1
                    <= #[trigger] s.burst_start_samples[k] <= t by {
                    if k < timed.burst_start_samples.len() {
                        assert(s.burst_start_samples[k] == timed.burst_start_samples[k]);
                    }
                }
            }
        } else {
            let s = fed(frames);
            assert(s == sequence_step(timed, f.0, Some(t)));
            assert(times_between(times_of(s.loss_samples), frames[0].1, t)) by {
                assert forall|k: int| 0 <= k < times_of(s.loss_samples).len() implies frames[0].1
                    <= #[trigger] times_of(s.loss_samples)[k] <= t by {
                    assert(times_of(s.loss_samples)[k] == times_of(before.loss_samples)[k]);
                }
            }
            assert(times_between(s.burst_start_samples, frames[0].1, t)) by {
                assert forall|k: int| 0 <= k < s.burst_start_samples.len() implies frames[0].1
                    <= #[trigger] s.burst_start_samples[k] <= t by {
                    assert(s.burst_start_samples[k] == before.burst_start_samples[k]);
                }
            }
        }
    }
}

/// For a source whose numbered frames all lie within ten seconds, the loss
/// that the statistics hold is the sum of the gaps that count as losses, and
/// the number of bursts is the number of runs of consecutive losses: in the
/// counters of the source, which stop at `u64::MAX`, and in what its windows
/// show.
pub proof fn lemma_loss_is_sum_of_gaps(frames: Seq<(u8, u64)>)
    requires
        frames.len() > 0,
        within_one_window(frames),
    ensures
        fed(frames).loss == clip64(lost_before(frames, frames.len() as int) as int),
        fed(frames).loss_sum == clip64(lost_before(frames, frames.len() as int) as int),
        total(fed(frames).loss_samples) == lost_before(frames, frames.len() as int),
        loss_in_window(fed(frames)) == clip64(lost_before(frames, frames.len() as int) as int),
        fed(frames).burst_count == clip64(bursts_before(frames, frames.len() as int) as int),
        fed(frames).burst_start_samples.len() == bursts_before(frames, frames.len() as int),
        burst_count_in_window(fed(frames)) == clip64(
            bursts_before(frames, frames.len() as int) as int,
        ),
{
    lemma_accounted(frames);
    let s = fed(frames);
    if s.loss_samples.len() == 0 {
        assert(s.loss_samples =~= Seq::<(u64, u64)>::empty());
    }
}

} // verus!
