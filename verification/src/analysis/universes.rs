//! Universe statistics: per source the frame count, the sequence losses and
//! their bursts, and the jitter of the arrival times; per universe the
//! summary of its sources, and the conflicts between them.

use super::table::{
    distinct, index_of, keys_after, lemma_distinct_push, lemma_index_of, lemma_index_of_prefix,
    lemma_keys_after_distinct, model_keys, model_values, Entry, Table,
};
use crate::address::{ip_text, IpAddress};
use super::dmx::{frames_of_universe, DmxFrameView, DmxProtocol, DmxStore};
use super::fps::{fps_from_dmx, fps_of, stamped};
use crate::order::{ranking, sort_ranked, sorted_by};
use crate::report::{
    views_of, Ratio, SourceSummary, SourceSummaryView, UniverseSummary, UniverseSummaryView,
};
use crate::text::{decimal, optional_text, push_decimal};
use vstd::string::*;
use super::window::{
    all_fresh, clip128, clip64, evicted, lemma_samples_after_insertion,
    lemma_window_after_insertion, non_decreasing, none_after, times_of, prune_samples, prune_times, pruned, pruned_times, sat_add, window_sum,
    window_sum128,
};
use crate::source::{clamp_ts, ts_in_range, usable_ts, MAX_TIMESTAMP_US};
use std::collections::VecDeque;
use vstd::prelude::*;

verus! {

/// Length of the window of the universe statistics: ten seconds.
pub const JITTER_WINDOW_US: u64 = 10_000_000;

/// What is known of one source of a universe.
#[derive(Debug)]
pub struct UniverseSourceStats {
    pub frames: u64,
    /// Frames that the sequence numbers show as lost.
    pub loss: u64,
    pub burst_count: u64,
    pub max_burst_len: u64,
    /// Frames lost in the burst that is under way; zero outside a burst.
    pub current_burst: u64,
    pub last_seq: Option<u8>,
    pub first_ts: Option<u64>,
    pub last_ts: Option<u64>,
    /// The last inter-arrival time, in microseconds.
    pub prev_iat: Option<i64>,
    /// Sum of the changes of inter-arrival time within the window.
    pub jitter_sum: u128,
    /// Time and change of inter-arrival time.
    pub jitter_samples: VecDeque<(u64, u64)>,
    /// Arrival times within the window.
    pub frame_samples: VecDeque<u64>,
    /// Sum of the losses within the window.
    pub loss_sum: u64,
    /// Time and number of frames lost.
    pub loss_samples: VecDeque<(u64, u64)>,
    /// Times at which a burst began.
    pub burst_start_samples: VecDeque<u64>,
    /// Time at which a burst ended, and its length.
    pub burst_length_samples: VecDeque<(u64, u64)>,
}

/// The view of `UniverseSourceStats`: its windows as sequences.
pub struct SourceStatsView {
    pub frames: u64,
    pub loss: u64,
    pub burst_count: u64,
    pub max_burst_len: u64,
    pub current_burst: u64,
    pub last_seq: Option<u8>,
    pub first_ts: Option<u64>,
    pub last_ts: Option<u64>,
    pub prev_iat: Option<i64>,
    pub jitter_sum: u128,
    pub jitter_samples: Seq<(u64, u64)>,
    pub frame_samples: Seq<u64>,
    pub loss_sum: u64,
    pub loss_samples: Seq<(u64, u64)>,
    pub burst_start_samples: Seq<u64>,
    pub burst_length_samples: Seq<(u64, u64)>,
}

impl View for UniverseSourceStats {
    type V = SourceStatsView;

    open spec fn view(&self) -> SourceStatsView {
        SourceStatsView {
            frames: self.frames,
            loss: self.loss,
            burst_count: self.burst_count,
            max_burst_len: self.max_burst_len,
            current_burst: self.current_burst,
            last_seq: self.last_seq,
            first_ts: self.first_ts,
            last_ts: self.last_ts,
            prev_iat: self.prev_iat,
            jitter_sum: self.jitter_sum,
            jitter_samples: self.jitter_samples@,
            frame_samples: self.frame_samples@,
            loss_sum: self.loss_sum,
            loss_samples: self.loss_samples@,
            burst_start_samples: self.burst_start_samples@,
            burst_length_samples: self.burst_length_samples@,
        }
    }
}

/// The statistics of a source of which no frame was seen.
pub open spec fn fresh_source() -> SourceStatsView {
    SourceStatsView {
        frames: 0,
        loss: 0,
        burst_count: 0,
        max_burst_len: 0,
        current_burst: 0,
        last_seq: None,
        first_ts: None,
        last_ts: None,
        prev_iat: None,
        jitter_sum: 0,
        jitter_samples: Seq::empty(),
        frame_samples: Seq::empty(),
        loss_sum: 0,
        loss_samples: Seq::empty(),
        burst_start_samples: Seq::empty(),
        burst_length_samples: Seq::empty(),
    }
}

impl SourceStatsView {
    /// The times held are in range, so that their differences are too.
    pub open spec fn wf(self) -> bool {
        &&& ts_in_range(self.last_ts)
        &&& match self.prev_iat {
            Some(p) => -MAX_TIMESTAMP_US <= p <= MAX_TIMESTAMP_US,
            None => true,
        }
    }
}

/// The number of frames missing between two sequence numbers: zero for the
/// successor, counted modulo 256.
pub open spec fn seq_gap(last: u8, seq: u8) -> int {
    (seq - last - 1) % 256
}

/// A gap is a loss when it is under half the sequence range; a larger one
/// is a frame out of order.
pub open spec fn is_loss(gap: int) -> bool {
    0 < gap < 128
}

/// Time and size of the change of inter-arrival time that a frame at `ts`
/// brings: there is one from the third timed frame on.
pub open spec fn jitter_sample(s: SourceStatsView, ts: Option<u64>) -> Option<(u64, u64)> {
    match (ts, s.last_ts, s.prev_iat) {
        (Some(t), Some(last), Some(prev)) => Some((t, vstd::math::abs(t - last - prev) as u64)),
        _ => None,
    }
}

/// The statistics after a frame at `ts`, its sequence number left aside.
pub open spec fn timing_step(s: SourceStatsView, ts: Option<u64>) -> SourceStatsView {
    SourceStatsView {
        frames: sat_add(s.frames, 1),
        first_ts: if s.first_ts is None {
            ts
        } else {
            s.first_ts
        },
        frame_samples: match ts {
            Some(t) => pruned_times(s.frame_samples.push(t), t, JITTER_WINDOW_US),
            None => s.frame_samples,
        },
        prev_iat: match (ts, s.last_ts) {
            (Some(t), Some(last)) => Some((t - last) as i64),
            _ => s.prev_iat,
        },
        jitter_samples: match jitter_sample(s, ts) {
            Some(sample) => pruned(s.jitter_samples.push(sample), sample.0, JITTER_WINDOW_US),
            None => s.jitter_samples,
        },
        jitter_sum: match jitter_sample(s, ts) {
            Some(sample) => window_sum128(
                s.jitter_sum,
                sample.1 as int,
                evicted(s.jitter_samples.push(sample), sample.0, JITTER_WINDOW_US),
            ),
            None => s.jitter_sum,
        },
        last_ts: ts,
        ..s
    }
}

/// The statistics after a gap of `gap` lost frames, seen at `ts`.
pub open spec fn loss_step(s: SourceStatsView, gap: int, ts: Option<u64>) -> SourceStatsView {
    let current = sat_add(s.current_burst, gap);
    SourceStatsView {
        loss: sat_add(s.loss, gap),
        loss_samples: match ts {
            Some(t) => pruned(s.loss_samples.push((t, gap as u64)), t, JITTER_WINDOW_US),
            None => s.loss_samples,
        },
        loss_sum: match ts {
            Some(t) => window_sum(
                s.loss_sum,
                gap,
                evicted(s.loss_samples.push((t, gap as u64)), t, JITTER_WINDOW_US),
            ),
            None => s.loss_sum,
        },
        burst_count: if s.current_burst == 0 {
            sat_add(s.burst_count, 1)
        } else {
            s.burst_count
        },
        burst_start_samples: match ts {
            Some(t) => if s.current_burst == 0 {
                pruned_times(s.burst_start_samples.push(t), t, JITTER_WINDOW_US)
            } else {
                s.burst_start_samples
            },
            None => s.burst_start_samples,
        },
        current_burst: current,
        max_burst_len: if current > s.max_burst_len {
            current
        } else {
            s.max_burst_len
        },
        ..s
    }
}

/// The statistics after a frame that continues the sequence, seen at `ts`:
/// a burst that was under way ends.
pub open spec fn in_order_step(s: SourceStatsView, ts: Option<u64>) -> SourceStatsView {
    SourceStatsView {
        burst_length_samples: match ts {
            Some(t) => if s.current_burst > 0 {
                pruned(s.burst_length_samples.push((t, s.current_burst)), t, JITTER_WINDOW_US)
            } else {
                s.burst_length_samples
            },
            None => s.burst_length_samples,
        },
        current_burst: 0,
        ..s
    }
}

/// The statistics after a frame with sequence number `seq`, seen at `ts`,
/// its timing left aside.
pub open spec fn sequence_step(s: SourceStatsView, seq: u8, ts: Option<u64>) -> SourceStatsView {
    let stepped = match s.last_seq {
        None => s,
        Some(last) => if is_loss(seq_gap(last, seq)) {
            loss_step(s, seq_gap(last, seq), ts)
        } else {
            in_order_step(s, ts)
        },
    };
    SourceStatsView { last_seq: Some(seq), ..stepped }
}

/// The statistics of a source after one more frame.
pub open spec fn source_step(s: SourceStatsView, sequence: Option<u8>, ts: Option<u64>) -> SourceStatsView {
    match sequence {
        Some(seq) => sequence_step(timing_step(s, ts), seq, ts),
        None => timing_step(s, ts),
    }
}

/// A step keeps the times in range.
pub proof fn lemma_source_step_wf(s: SourceStatsView, sequence: Option<u8>, ts: Option<u64>)
    requires
        s.wf(),
        ts_in_range(ts),
    ensures
        source_step(s, sequence, ts).wf(),
{
}

/// The times of each window of the source do not go back and none is after
/// `now`.
pub open spec fn windows_in_order(s: SourceStatsView, now: u64) -> bool {
    &&& non_decreasing(s.frame_samples) && none_after(s.frame_samples, now)
    &&& non_decreasing(times_of(s.jitter_samples)) && none_after(times_of(s.jitter_samples), now)
    &&& non_decreasing(times_of(s.loss_samples)) && none_after(times_of(s.loss_samples), now)
    &&& non_decreasing(s.burst_start_samples) && none_after(s.burst_start_samples, now)
    &&& non_decreasing(times_of(s.burst_length_samples)) && none_after(
        times_of(s.burst_length_samples),
        now,
    )
}

/// Where time does not go back, a frame at `t` leaves no sample older than
/// ten seconds in the frame window, nor in any other window that took a
/// sample; a window that took none is as it was.
pub proof fn lemma_windows_hold_ten_seconds(
    s: SourceStatsView,
    sequence: Option<u8>,
    before: u64,
    t: u64,
)
    requires
        windows_in_order(s, before),
        before <= t,
    ensures
        ({
            let next = source_step(s, sequence, Some(t));
            &&& windows_in_order(next, t)
            &&& all_fresh(next.frame_samples, t, JITTER_WINDOW_US)
            &&& next.jitter_samples == s.jitter_samples || all_fresh(
                times_of(next.jitter_samples),
                t,
                JITTER_WINDOW_US,
            )
            &&& next.loss_samples == s.loss_samples || all_fresh(
                times_of(next.loss_samples),
                t,
                JITTER_WINDOW_US,
            )
            &&& next.burst_start_samples == s.burst_start_samples || all_fresh(
                next.burst_start_samples,
                t,
                JITTER_WINDOW_US,
            )
            &&& next.burst_length_samples == s.burst_length_samples || all_fresh(
                times_of(next.burst_length_samples),
                t,
                JITTER_WINDOW_US,
            )
        }),
{
    lemma_window_after_insertion(s.frame_samples, t, JITTER_WINDOW_US);
    lemma_window_after_insertion(s.burst_start_samples, t, JITTER_WINDOW_US);
    match jitter_sample(s, Some(t)) {
        Some(sample) => {
            lemma_samples_after_insertion(s.jitter_samples, sample.1, t, JITTER_WINDOW_US);
        },
        None => {},
    }
    let timed = timing_step(s, Some(t));
    match sequence {
        Some(seq) => {
            match timed.last_seq {
                Some(last) => {
                    let gap = seq_gap(last, seq);
                    lemma_samples_after_insertion(
                        s.loss_samples,
                        gap as u64,
                        t,
                        JITTER_WINDOW_US,
                    );
                    lemma_samples_after_insertion(
                        s.burst_length_samples,
                        s.current_burst,
                        t,
                        JITTER_WINDOW_US,
                    );
                },
                None => {},
            }
        },
        None => {},
    }
}

impl Default for UniverseSourceStats {
    fn default() -> (r: Self)
        ensures
            r@ == fresh_source(),
    {
        UniverseSourceStats {
            frames: 0,
            loss: 0,
            burst_count: 0,
            max_burst_len: 0,
            current_burst: 0,
            last_seq: None,
            first_ts: None,
            last_ts: None,
            prev_iat: None,
            jitter_sum: 0,
            jitter_samples: VecDeque::new(),
            frame_samples: VecDeque::new(),
            loss_sum: 0,
            loss_samples: VecDeque::new(),
            burst_start_samples: VecDeque::new(),
            burst_length_samples: VecDeque::new(),
        }
    }
}

fn sequence_gap(last: u8, seq: u8) -> (gap: u8)
    ensures
        gap == seq_gap(last, seq),
{
    let wide: u16 = 256 + (seq as u16) - (last as u16) - 1;
    (wide % 256) as u8
}

/// Takes one more frame of the source into its statistics. A capture time
/// that cannot be reported counts as unknown.
pub fn update_source_stats(stats: &mut UniverseSourceStats, sequence: Option<u8>, ts: Option<u64>)
    requires
        old(stats)@.wf(),
    ensures
        final(stats)@ == source_step(old(stats)@, sequence, usable_ts(ts)),
        final(stats)@.wf(),
{
    let ts = clamp_ts(ts);
    step_source(stats, sequence, ts);
}

fn step_source(stats: &mut UniverseSourceStats, sequence: Option<u8>, ts: Option<u64>)
    requires
        old(stats)@.wf(),
        ts_in_range(ts),
    ensures
        final(stats)@ == source_step(old(stats)@, sequence, ts),
        final(stats)@.wf(),
{
    stats.frames = stats.frames.saturating_add(1);
    if stats.first_ts.is_none() {
        stats.first_ts = ts;
    }
    if let Some(t) = ts {
        stats.frame_samples.push_back(t);
        prune_times(&mut stats.frame_samples, t, JITTER_WINDOW_US);
    }
    if let (Some(t), Some(last)) = (ts, stats.last_ts) {
        let iat: i64 = (t as i64) - (last as i64);
        if let Some(prev) = stats.prev_iat {
            let change: i64 = iat - prev;
            let diff: u64 = if change < 0 {
                (-change) as u64
            } else {
                change as u64
            };
            stats.jitter_sum = stats.jitter_sum.saturating_add(diff as u128);
            stats.jitter_samples.push_back((t, diff));
            let gone = prune_samples(&mut stats.jitter_samples, t, JITTER_WINDOW_US);
            stats.jitter_sum = stats.jitter_sum.saturating_sub(gone);
        }
        stats.prev_iat = Some(iat);
    }
    stats.last_ts = ts;
    assert(stats@ == timing_step(old(stats)@, ts));

    if let Some(seq) = sequence {
        if let Some(last) = stats.last_seq {
            let gap: u64 = sequence_gap(last, seq) as u64;
            if gap > 0 && gap < 128 {
                stats.loss = stats.loss.saturating_add(gap);
                if let Some(t) = ts {
                    stats.loss_sum = stats.loss_sum.saturating_add(gap);
                    stats.loss_samples.push_back((t, gap));
                    let gone = prune_samples(&mut stats.loss_samples, t, JITTER_WINDOW_US);
                    stats.loss_sum = stats.loss_sum.saturating_sub(super::window::clip_to_u64(gone));
                }
                if stats.current_burst == 0 {
                    stats.burst_count = stats.burst_count.saturating_add(1);
                    if let Some(t) = ts {
                        stats.burst_start_samples.push_back(t);
                        prune_times(&mut stats.burst_start_samples, t, JITTER_WINDOW_US);
                    }
                }
                stats.current_burst = stats.current_burst.saturating_add(gap);
                if stats.current_burst > stats.max_burst_len {
                    stats.max_burst_len = stats.current_burst;
                }
            } else {
                if stats.current_burst > 0 {
                    if let Some(t) = ts {
                        stats.burst_length_samples.push_back((t, stats.current_burst));
                        prune_samples(&mut stats.burst_length_samples, t, JITTER_WINDOW_US);
                    }
                }
                stats.current_burst = 0;
            }
        }
        stats.last_seq = Some(seq);
    }
}


/// Earliest and latest time seen, after one more time.
pub open spec fn bounds_step(first: Option<u64>, last: Option<u64>, ts: Option<u64>) -> (
    Option<u64>,
    Option<u64>,
) {
    match ts {
        None => (first, last),
        Some(t) => (
            match first {
                Some(f) => if t < f {
                    Some(t)
                } else {
                    first
                },
                None => Some(t),
            },
            match last {
                Some(l) => if t > l {
                    Some(t)
                } else {
                    last
                },
                None => Some(t),
            },
        ),
    }
}

/// Widens the bounds `first` and `last` so that they hold `ts`.
pub fn update_ts_bounds(first: &mut Option<u64>, last: &mut Option<u64>, ts: Option<u64>)
    ensures
        (*final(first), *final(last)) == bounds_step(*old(first), *old(last), ts),
{
    let t = match ts {
        Some(t) => t,
        None => { return ; },
    };
    match *first {
        None => { *first = Some(t); },
        Some(existing) => {
            if t < existing {
                *first = Some(t);
            }
        },
    }
    match *last {
        None => { *last = Some(t); },
        Some(existing) => {
            if t > existing {
                *last = Some(t);
            }
        },
    }
}

/// What is known of one universe.
pub struct UniverseStats {
    pub frames: u64,
    /// The sources seen, by source identity.
    pub sources: Table<SourceSummary>,
    pub first_ts: Option<u64>,
    pub last_ts: Option<u64>,
    /// The statistics of each source, by source identity.
    pub per_source: Table<UniverseSourceStats>,
}

/// The view of `UniverseStats`: its tables as sequences.
pub struct UniverseStatsView {
    pub frames: u64,
    pub sources: Seq<(Seq<char>, SourceSummaryView)>,
    pub first_ts: Option<u64>,
    pub last_ts: Option<u64>,
    pub per_source: Seq<(Seq<char>, SourceStatsView)>,
}

impl View for UniverseStats {
    type V = UniverseStatsView;

    open spec fn view(&self) -> UniverseStatsView {
        UniverseStatsView {
            frames: self.frames,
            sources: self.sources@,
            first_ts: self.first_ts,
            last_ts: self.last_ts,
            per_source: self.per_source@,
        }
    }
}

/// A universe of which no frame was seen.
pub open spec fn fresh_universe() -> UniverseStatsView {
    UniverseStatsView {
        frames: 0,
        sources: Seq::empty(),
        first_ts: None,
        last_ts: None,
        per_source: Seq::empty(),
    }
}

impl UniverseStatsView {
    /// The times of every source are in range.
    pub open spec fn wf(self) -> bool {
        forall|i: int| 0 <= i < self.per_source.len() ==> (#[trigger] self.per_source[i]).1.wf()
    }
}

impl Default for UniverseStats {
    fn default() -> (r: Self)
        ensures
            r@ == fresh_universe(),
    {
        let r = UniverseStats {
            frames: 0,
            sources: Table::new(),
            first_ts: None,
            last_ts: None,
            per_source: Table::new(),
        };
        assert(r@.sources =~= Seq::empty());
        assert(r@.per_source =~= Seq::empty());
        r
    }
}

/// A universe and its statistics.
pub struct UniverseEntry {
    pub universe: u16,
    pub stats: UniverseStats,
}

/// The statistics of every universe of one protocol, by universe number.
pub struct UniverseTable {
    pub entries: Vec<UniverseEntry>,
}

impl View for UniverseTable {
    type V = Seq<(u16, UniverseStatsView)>;

    /// Universe numbers and statistics, in the order in which the universes
    /// were first seen.
    open spec fn view(&self) -> Seq<(u16, UniverseStatsView)> {
        Seq::new(self.entries@.len(), |i: int| (self.entries@[i].universe, self.entries@[i].stats@))
    }
}

/// The universe numbers of a table model.
pub open spec fn universe_numbers(m: Seq<(u16, UniverseStatsView)>) -> Seq<u16> {
    Seq::new(m.len(), |i: int| m[i].0)
}

/// Every source of every universe holds times in range.
pub open spec fn universes_wf(m: Seq<(u16, UniverseStatsView)>) -> bool {
    forall|i: int| 0 <= i < m.len() ==> (#[trigger] m[i]).1.wf()
}

/// The sources of a universe after a frame of the source `id`: a source
/// that is new gets `summary`, one that is known keeps what it has.
pub open spec fn sources_step(
    m: Seq<(Seq<char>, SourceSummaryView)>,
    id: Seq<char>,
    summary: SourceSummaryView,
) -> Seq<(Seq<char>, SourceSummaryView)> {
    match index_of(model_keys(m), id) {
        Some(_i) => m,
        None => m.push((id, summary)),
    }
}

/// The per-source statistics of a universe after a frame of the source `id`.
pub open spec fn per_source_step(
    m: Seq<(Seq<char>, SourceStatsView)>,
    id: Seq<char>,
    sequence: Option<u8>,
    ts: Option<u64>,
) -> Seq<(Seq<char>, SourceStatsView)> {
    match index_of(model_keys(m), id) {
        Some(i) => m.update(i, (id, source_step(m[i].1, sequence, ts))),
        None => m.push((id, source_step(fresh_source(), sequence, ts))),
    }
}

/// The statistics of a universe after one more frame.
pub open spec fn universe_step(
    u: UniverseStatsView,
    id: Seq<char>,
    summary: SourceSummaryView,
    sequence: Option<u8>,
    ts: Option<u64>,
) -> UniverseStatsView {
    UniverseStatsView {
        frames: sat_add(u.frames, 1),
        sources: sources_step(u.sources, id, summary),
        first_ts: bounds_step(u.first_ts, u.last_ts, ts).0,
        last_ts: bounds_step(u.first_ts, u.last_ts, ts).1,
        per_source: per_source_step(u.per_source, id, sequence, ts),
    }
}

/// The statistics of all universes after one more frame on `universe`.
pub open spec fn universes_step(
    m: Seq<(u16, UniverseStatsView)>,
    universe: u16,
    id: Seq<char>,
    summary: SourceSummaryView,
    sequence: Option<u8>,
    ts: Option<u64>,
) -> Seq<(u16, UniverseStatsView)> {
    match index_of(universe_numbers(m), universe) {
        Some(i) => m.update(i, (universe, universe_step(m[i].1, id, summary, sequence, ts))),
        None => m.push((universe, universe_step(fresh_universe(), id, summary, sequence, ts))),
    }
}

/// A step keeps the times of all sources in range.
pub proof fn lemma_universes_step_wf(
    m: Seq<(u16, UniverseStatsView)>,
    universe: u16,
    id: Seq<char>,
    summary: SourceSummaryView,
    sequence: Option<u8>,
    ts: Option<u64>,
)
    requires
        universes_wf(m),
        ts_in_range(ts),
    ensures
        universes_wf(universes_step(m, universe, id, summary, sequence, ts)),
{
    let next = universes_step(m, universe, id, summary, sequence, ts);
    assert forall|i: int| 0 <= i < next.len() implies (#[trigger] next[i]).1.wf() by {
        let before = match index_of(universe_numbers(m), universe) {
            Some(k) => if i == k {
                m[k].1
            } else {
                fresh_universe()
            },
            None => fresh_universe(),
        };
        lemma_index_of(universe_numbers(m), universe);
        let changed = match index_of(universe_numbers(m), universe) {
            Some(k) => i == k,
            None => i == m.len(),
        };
        if changed {
            assert(before.wf()) by {
                if index_of(universe_numbers(m), universe) is Some {
                    assert(m[i].1.wf());
                }
            }
            assert(next[i].1 == universe_step(before, id, summary, sequence, ts));
            let u = next[i].1;
            assert forall|j: int| 0 <= j < u.per_source.len() implies (
            #[trigger] u.per_source[j]).1.wf() by {
                lemma_index_of(model_keys(before.per_source), id);
                match index_of(model_keys(before.per_source), id) {
                    Some(k) => {
                        if j == k {
                            assert(before.per_source[k].1.wf());
                            lemma_source_step_wf(before.per_source[k].1, sequence, ts);
                        } else {
                            assert(before.per_source[j].1.wf());
                        }
                    },
                    None => {
                        if j < before.per_source.len() {
                            assert(before.per_source[j].1.wf());
                        } else {
                            lemma_source_step_wf(fresh_source(), sequence, ts);
                        }
                    },
                }
            }
        } else {
            assert(next[i] == m[i]);
            assert(m[i].1.wf());
        }
    }
}

/// The universe numbers of the table differ, and within each universe the
/// identities of the sources, in its statistics as in its list of sources.
pub open spec fn keys_are_distinct(m: Seq<(u16, UniverseStatsView)>) -> bool {
    &&& distinct(universe_numbers(m))
    &&& forall|e: int| 0 <= e < m.len() ==> distinct(model_keys((#[trigger] m[e]).1.per_source))
    &&& forall|e: int| 0 <= e < m.len() ==> distinct(model_keys((#[trigger] m[e]).1.sources))
}

/// A table that holds no universe and no source twice stays so with every
/// frame.
pub proof fn lemma_universes_step_keeps_keys_distinct(
    m: Seq<(u16, UniverseStatsView)>,
    universe: u16,
    id: Seq<char>,
    summary: SourceSummaryView,
    sequence: Option<u8>,
    ts: Option<u64>,
)
    requires
        keys_are_distinct(m),
    ensures
        keys_are_distinct(universes_step(m, universe, id, summary, sequence, ts)),
{
    let next = universes_step(m, universe, id, summary, sequence, ts);
    lemma_index_of(universe_numbers(m), universe);
    let before = match index_of(universe_numbers(m), universe) {
        Some(k) => m[k].1,
        None => fresh_universe(),
    };
    let at = match index_of(universe_numbers(m), universe) {
        Some(k) => k,
        None => m.len() as int,
    };
    assert(distinct(model_keys(before.per_source)) && distinct(model_keys(before.sources))) by {
        if index_of(universe_numbers(m), universe) is Some {
            assert(distinct(model_keys(m[at].1.per_source)));
            assert(distinct(model_keys(m[at].1.sources)));
        }
    }
    let after = universe_step(before, id, summary, sequence, ts);
    assert(next[at] == (universe, after));
    assert(distinct(model_keys(after.sources))) by {
        let keys = model_keys(before.sources);
        lemma_keys_after_distinct(keys, id);
        assert(model_keys(after.sources) =~= keys_after(keys, id));
    }
    assert(distinct(model_keys(after.per_source))) by {
        let keys = model_keys(before.per_source);
        lemma_index_of(keys, id);
        match index_of(keys, id) {
            Some(k) => {
                assert(model_keys(after.per_source) =~= keys);
            },
            None => {
                assert(model_keys(after.per_source) =~= keys.push(id));
                lemma_distinct_push(keys, id);
            },
        }
    }
    assert(distinct(universe_numbers(next))) by {
        match index_of(universe_numbers(m), universe) {
            Some(k) => {
                assert(universe_numbers(next) =~= universe_numbers(m));
            },
            None => {
                assert(universe_numbers(next) =~= universe_numbers(m).push(universe));
                lemma_distinct_push(universe_numbers(m), universe);
            },
        }
    }
    assert forall|e: int| 0 <= e < next.len() implies distinct(
        model_keys((#[trigger] next[e]).1.per_source),
    ) by {
        if e != at {
            assert(next[e] == m[e]);
        }
    }
    assert forall|e: int| 0 <= e < next.len() implies distinct(
        model_keys((#[trigger] next[e]).1.sources),
    ) by {
        if e != at {
            assert(next[e] == m[e]);
        }
    }
}

/// The identity of an Art-Net source: `artnet:<ip>:<port>`.
pub open spec fn artnet_source_text(ip: Seq<u8>, port: u16) -> Seq<char> {
    "artnet:"@ + ip_text(ip) + seq![':'] + decimal(port as nat)
}

/// The identity of an sACN source: `sacn:cid:<cid>`, or `sacn:<ip>:<port>`
/// for a source without component identifier.
pub open spec fn sacn_source_text(cid: Seq<char>, ip: Seq<u8>, port: u16) -> Seq<char> {
    if cid.len() == 0 {
        "sacn:"@ + ip_text(ip) + seq![':'] + decimal(port as nat)
    } else {
        "sacn:cid:"@ + cid
    }
}

/// Writes the identity of an Art-Net source.
pub fn artnet_source_id(source_ip: &IpAddress, source_port: u16) -> (id: String)
    ensures
        id@ == artnet_source_text(source_ip@, source_port),
{
    let mut id = String::from_str("artnet:");
    source_ip.push_text(&mut id);
    id.push(':');
    push_decimal(&mut id, source_port as u64);
    id
}

/// Writes the identity of an sACN source.
pub fn sacn_source_id(cid: &str, source_ip: &IpAddress, source_port: u16) -> (id: String)
    ensures
        id@ == sacn_source_text(cid@, source_ip@, source_port),
{
    if cid.unicode_len() == 0 {
        let mut id = String::from_str("sacn:");
        source_ip.push_text(&mut id);
        id.push(':');
        push_decimal(&mut id, source_port as u64);
        id
    } else {
        let mut id = String::from_str("sacn:cid:");
        id.append(cid);
        id
    }
}

impl UniverseTable {
    /// A table without universes.
    pub fn new() -> (r: Self)
        ensures
            r@ == Seq::<(u16, UniverseStatsView)>::empty(),
    {
        let r = UniverseTable { entries: Vec::new() };
        assert(r@ =~= Seq::<(u16, UniverseStatsView)>::empty());
        r
    }

    /// The index of the entry of `universe`.
    pub fn find(&self, universe: u16) -> (r: Option<usize>)
        ensures
            match r {
                Some(i) => index_of(universe_numbers(self@), universe) == Some(i as int) && i
                    < self.entries@.len() && self.entries@[i as int].universe == universe,
                None => index_of(universe_numbers(self@), universe) is None,
            },
    {
        let ghost numbers = universe_numbers(self@);
        let mut i: usize = 0;
        while i < self.entries.len()
            invariant
                i <= self.entries.len(),
                numbers == universe_numbers(self@),
                index_of(numbers.take(i as int), universe) is None,
            decreases self.entries.len() - i,
        {
            proof {
                assert(numbers.take(i + 1).drop_last() =~= numbers.take(i as int));
            }
            if self.entries[i].universe == universe {
                proof {
                    lemma_index_of_prefix(numbers, i + 1, universe);
                }
                return Some(i);
            }
            i += 1;
        }
        assert(numbers.take(self.entries.len() as int) =~= numbers);
        None
    }
}

/// Takes one frame into the statistics of a universe.
fn add_frame_to_universe(
    entry: &mut UniverseStats,
    source_id: &String,
    summary: SourceSummary,
    sequence: Option<u8>,
    ts: Option<u64>,
)
    requires
        old(entry)@.wf(),
        ts_in_range(ts),
    ensures
        final(entry)@ == universe_step(old(entry)@, source_id@, summary@, sequence, ts),
{
    entry.frames = entry.frames.saturating_add(1);
    proof {
        assert(model_keys(entry.sources@) =~= entry.sources.keys());
        assert(model_keys(entry.per_source@) =~= entry.per_source.keys());
    }
    if entry.sources.find(source_id.as_str()).is_none() {
        entry.sources.entries.push(Entry { key: source_id.clone(), value: summary });
        assert(entry.sources@ =~= old(entry).sources@.push((source_id@, summary@)));
    }
    match entry.per_source.find(source_id.as_str()) {
        Some(i) => {
            assert(old(entry)@.per_source[i as int].1.wf());
            step_source(&mut entry.per_source.entries[i].value, sequence, ts);
            assert(entry.per_source@ =~= old(entry).per_source@.update(
                i as int,
                (source_id@, source_step(old(entry).per_source@[i as int].1, sequence, ts)),
            ));
        },
        None => {
            let mut fresh = UniverseSourceStats::default();
            step_source(&mut fresh, sequence, ts);
            entry.per_source.entries.push(Entry { key: source_id.clone(), value: fresh });
            assert(entry.per_source@ =~= old(entry).per_source@.push(
                (source_id@, source_step(fresh_source(), sequence, ts)),
            ));
        },
    }
    update_ts_bounds(&mut entry.first_ts, &mut entry.last_ts, ts);
}

fn add_frame(
    stats: &mut UniverseTable,
    universe: u16,
    source_id: &String,
    summary: SourceSummary,
    sequence: Option<u8>,
    ts: Option<u64>,
)
    requires
        universes_wf(old(stats)@),
        ts_in_range(ts),
    ensures
        final(stats)@ == universes_step(old(stats)@, universe, source_id@, summary@, sequence, ts),
        universes_wf(final(stats)@),
{
    proof {
        lemma_universes_step_wf(old(stats)@, universe, source_id@, summary@, sequence, ts);
    }
    match stats.find(universe) {
        Some(i) => {
            assert(old(stats)@[i as int].1.wf());
            add_frame_to_universe(&mut stats.entries[i].stats, source_id, summary, sequence, ts);
            assert(stats.entries@.len() == old(stats).entries@.len());
            assert(stats.entries@[i as int].universe == universe);
            assert(stats.entries@[i as int].stats@ == universe_step(
                old(stats)@[i as int].1,
                source_id@,
                summary@,
                sequence,
                ts,
            ));
            assert forall|j: int| 0 <= j < stats.entries@.len() && j != i implies stats.entries@[j]
                == old(stats).entries@[j] by {}
            assert(stats@ =~= old(stats)@.update(
                i as int,
                (
                    universe,
                    universe_step(old(stats)@[i as int].1, source_id@, summary@, sequence, ts),
                ),
            ));
        },
        None => {
            let mut fresh = UniverseStats::default();
            add_frame_to_universe(&mut fresh, source_id, summary, sequence, ts);
            stats.entries.push(UniverseEntry { universe, stats: fresh });
            assert(stats@ =~= old(stats)@.push(
                (universe, universe_step(fresh_universe(), source_id@, summary@, sequence, ts)),
            ));
        },
    }
}

/// What the report says of an Art-Net source.
pub open spec fn artnet_summary(ip: Seq<u8>) -> SourceSummaryView {
    SourceSummaryView { source_ip: ip_text(ip), cid: None, source_name: None }
}

/// What the report says of an sACN source.
pub open spec fn sacn_summary(
    ip: Seq<u8>,
    cid: Seq<char>,
    source_name: Option<Seq<char>>,
) -> SourceSummaryView {
    SourceSummaryView { source_ip: ip_text(ip), cid: Some(cid), source_name }
}

/// Takes an ArtDMX frame into the statistics and returns the identity of
/// its source. A capture time that cannot be reported counts as unknown.
pub fn add_artnet_frame(
    stats: &mut UniverseTable,
    universe: u16,
    source_ip: &IpAddress,
    source_port: u16,
    sequence: Option<u8>,
    ts: Option<u64>,
) -> (source_id: String)
    requires
        universes_wf(old(stats)@),
    ensures
        source_id@ == artnet_source_text(source_ip@, source_port),
        final(stats)@ == universes_step(
            old(stats)@,
            universe,
            source_id@,
            artnet_summary(source_ip@),
            sequence,
            usable_ts(ts),
        ),
        universes_wf(final(stats)@),
{
    let ts = clamp_ts(ts);
    let source_id = artnet_source_id(source_ip, source_port);
    let summary = SourceSummary { source_ip: source_ip.to_text(), cid: None, source_name: None };
    add_frame(stats, universe, &source_id, summary, sequence, ts);
    source_id
}

/// Takes an sACN frame into the statistics and returns the identity of its
/// source. A capture time that cannot be reported counts as unknown.
pub fn add_sacn_frame(
    stats: &mut UniverseTable,
    universe: u16,
    source_ip: &IpAddress,
    source_port: u16,
    cid: String,
    source_name: Option<String>,
    sequence: Option<u8>,
    ts: Option<u64>,
) -> (source_id: String)
    requires
        universes_wf(old(stats)@),
    ensures
        source_id@ == sacn_source_text(cid@, source_ip@, source_port),
        final(stats)@ == universes_step(
            old(stats)@,
            universe,
            source_id@,
            sacn_summary(source_ip@, cid@, optional_text(source_name)),
            sequence,
            usable_ts(ts),
        ),
        universes_wf(final(stats)@),
{
    let ts = clamp_ts(ts);
    let source_id = sacn_source_id(cid.as_str(), source_ip, source_port);
    let summary = SourceSummary { source_ip: source_ip.to_text(), cid: Some(cid), source_name };
    add_frame(stats, universe, &source_id, summary, sequence, ts);
    source_id
}


/// The sum of the values.
pub open spec fn sum_of(values: Seq<u64>) -> nat
    decreases values.len(),
{
    if values.len() == 0 {
        0
    } else {
        sum_of(values.drop_last()) + values.last() as nat
    }
}

/// A sum of values is at most their number times the largest value.
pub proof fn lemma_sum_bound(values: Seq<u64>)
    ensures
        sum_of(values) <= values.len() * u64::MAX,
    decreases values.len(),
{
    if values.len() > 0 {
        lemma_sum_bound(values.drop_last());
        assert((values.len() - 1) * u64::MAX + u64::MAX == values.len() * u64::MAX)
            by (nonlinear_arith);
    }
}

/// Frames of the source within the window; all its frames where no frame
/// was timed.
pub open spec fn frames_in_window(s: SourceStatsView) -> u64 {
    if s.frame_samples.len() == 0 {
        s.frames
    } else {
        clip64(s.frame_samples.len() as int)
    }
}

/// Frames that the source lost within the window; all its losses where
/// none was timed.
pub open spec fn loss_in_window(s: SourceStatsView) -> u64 {
    if s.loss_samples.len() == 0 {
        s.loss
    } else {
        s.loss_sum
    }
}

/// Bursts that began within the window; all bursts where none was timed.
pub open spec fn burst_count_in_window(s: SourceStatsView) -> u64 {
    if s.burst_start_samples.len() == 0 {
        s.burst_count
    } else {
        clip64(s.burst_start_samples.len() as int)
    }
}

/// The largest value of the samples, and at least `floor`.
pub open spec fn largest(samples: Seq<(u64, u64)>, floor: u64) -> u64
    decreases samples.len(),
{
    if samples.len() == 0 {
        floor
    } else {
        let before = largest(samples.drop_last(), floor);
        if samples.last().1 > before {
            samples.last().1
        } else {
            before
        }
    }
}

/// The longest burst within the window, the one under way included; the
/// longest burst ever where none ended within the window and none is under way.
pub open spec fn max_burst_len_in_window(s: SourceStatsView) -> u64 {
    if s.burst_length_samples.len() == 0 && s.current_burst == 0 {
        s.max_burst_len
    } else {
        largest(s.burst_length_samples, s.current_burst)
    }
}

/// The mean change of inter-arrival time of the source within the window,
/// in whole microseconds.
pub open spec fn jitter_mean(s: SourceStatsView) -> Option<u128> {
    if s.jitter_samples.len() > 0 {
        Some((s.jitter_sum as int / s.jitter_samples.len() as int) as u128)
    } else {
        None
    }
}

/// Per source with sequence numbers the frames within the window; zero for
/// the other sources.
pub open spec fn tracked_frames(stats: Seq<SourceStatsView>) -> Seq<u64> {
    Seq::new(
        stats.len(),
        |i: int|
            if stats[i].last_seq is Some {
                frames_in_window(stats[i])
            } else {
                0
            },
    )
}

/// Per source with sequence numbers the losses within the window; zero for
/// the other sources.
pub open spec fn tracked_losses(stats: Seq<SourceStatsView>) -> Seq<u64> {
    Seq::new(
        stats.len(),
        |i: int|
            if stats[i].last_seq is Some {
                loss_in_window(stats[i])
            } else {
                0
            },
    )
}

/// Per source with sequence numbers the bursts within the window; zero for
/// the other sources.
pub open spec fn tracked_bursts(stats: Seq<SourceStatsView>) -> Seq<u64> {
    Seq::new(
        stats.len(),
        |i: int|
            if stats[i].last_seq is Some {
                burst_count_in_window(stats[i])
            } else {
                0
            },
    )
}

/// The longest burst of any source with sequence numbers.
pub open spec fn top_burst(stats: Seq<SourceStatsView>) -> u64
    decreases stats.len(),
{
    if stats.len() == 0 {
        0
    } else {
        let before = top_burst(stats.drop_last());
        if stats.last().last_seq is Some && max_burst_len_in_window(stats.last()) > before {
            max_burst_len_in_window(stats.last())
        } else {
            before
        }
    }
}

/// Whether any source numbers its frames.
pub open spec fn any_tracked(stats: Seq<SourceStatsView>) -> bool {
    exists|i: int| 0 <= i < stats.len() && (#[trigger] stats[i]).last_seq is Some
}

/// The sum of the jitter means of the sources that have one, stopping at
/// `u128::MAX`.
pub open spec fn jitter_total(stats: Seq<SourceStatsView>) -> u128
    decreases stats.len(),
{
    if stats.len() == 0 {
        0
    } else {
        match jitter_mean(stats.last()) {
            Some(mean) => super::window::sat_add128(jitter_total(stats.drop_last()), mean as int),
            None => jitter_total(stats.drop_last()),
        }
    }
}

/// How many sources have a jitter mean.
pub open spec fn jitter_sources(stats: Seq<SourceStatsView>) -> nat
    decreases stats.len(),
{
    if stats.len() == 0 {
        0
    } else if jitter_mean(stats.last()) is Some {
        jitter_sources(stats.drop_last()) + 1
    } else {
        jitter_sources(stats.drop_last())
    }
}

/// Loss, bursts and jitter of a universe.
#[derive(Debug, Clone, Copy, PartialEq, Eq, Structural)]
pub struct UniverseMetrics {
    pub loss_packets: Option<u64>,
    pub loss_rate: Option<Ratio>,
    pub burst_count: Option<u64>,
    pub max_burst_len: Option<u64>,
    pub jitter_us: Option<u64>,
}

/// The metrics of a universe with these sources.
///
/// Loss and bursts are reported where a source numbers its frames and more
/// than one of their frames lies within the window. The loss rate is the
/// share of lost frames among lost and received ones. The jitter is the mean
/// of the jitter means of the sources.
pub open spec fn metrics_of(stats: Seq<SourceStatsView>) -> UniverseMetrics {
    let frames = sum_of(tracked_frames(stats));
    let loss = sum_of(tracked_losses(stats));
    let reported = any_tracked(stats) && frames > 1;
    UniverseMetrics {
        loss_packets: if reported {
            Some(clip64(loss as int))
        } else {
            None
        },
        loss_rate: if reported {
            Some(Ratio { num: clip128(loss as int), den: clip128((frames + loss) as int) })
        } else {
            None
        },
        burst_count: if reported {
            Some(clip64(sum_of(tracked_bursts(stats)) as int))
        } else {
            None
        },
        max_burst_len: if reported {
            Some(top_burst(stats))
        } else {
            None
        },
        jitter_us: if jitter_sources(stats) > 0 {
            Some(clip64(jitter_total(stats) as int / jitter_sources(stats) as int))
        } else {
            None
        },
    }
}

fn window_frames(stats: &UniverseSourceStats) -> (r: u64)
    ensures
        r == frames_in_window(stats@),
{
    if stats.frame_samples.len() == 0 {
        stats.frames
    } else {
        stats.frame_samples.len() as u64
    }
}

fn window_loss(stats: &UniverseSourceStats) -> (r: u64)
    ensures
        r == loss_in_window(stats@),
{
    if stats.loss_samples.len() == 0 {
        stats.loss
    } else {
        stats.loss_sum
    }
}

fn window_bursts(stats: &UniverseSourceStats) -> (r: u64)
    ensures
        r == burst_count_in_window(stats@),
{
    if stats.burst_start_samples.len() == 0 {
        stats.burst_count
    } else {
        stats.burst_start_samples.len() as u64
    }
}

fn window_max_burst(stats: &UniverseSourceStats) -> (r: u64)
    ensures
        r == max_burst_len_in_window(stats@),
{
    if stats.burst_length_samples.len() == 0 && stats.current_burst == 0 {
        return stats.max_burst_len;
    }
    let mut max_len: u64 = stats.current_burst;
    let mut i: usize = 0;
    assert(stats.burst_length_samples@.take(0) =~= Seq::<(u64, u64)>::empty());
    while i < stats.burst_length_samples.len()
        invariant
            i <= stats.burst_length_samples.len(),
            max_len == largest(stats.burst_length_samples@.take(i as int), stats.current_burst),
        decreases stats.burst_length_samples.len() - i,
    {
        proof {
            let next = stats.burst_length_samples@.take(i + 1);
            assert(next.drop_last() =~= stats.burst_length_samples@.take(i as int));
        }
        let len: u64 = stats.burst_length_samples[i].1;
        if len > max_len {
            max_len = len;
        }
        i += 1;
    }
    assert(stats.burst_length_samples@.take(stats.burst_length_samples.len() as int)
        =~= stats.burst_length_samples@);
    max_len
}

/// Computes the metrics of a universe from the statistics of its sources.
pub fn compute_metrics(per_source: &Table<UniverseSourceStats>) -> (r: UniverseMetrics)
    ensures
        r == metrics_of(model_values(per_source@)),
{
    let ghost stats = model_values(per_source@);
    let mut jitter_sum: u128 = 0;
    let mut jitter_count: u64 = 0;
    let mut any_seq = false;
    let mut total_seq_frames: u128 = 0;
    let mut total_seq_loss: u128 = 0;
    let mut total_seq_bursts: u128 = 0;
    let mut total_seq_max_burst: u64 = 0;
    let mut i: usize = 0;
    proof {
        assert(stats.take(0) =~= Seq::<SourceStatsView>::empty());
        assert(tracked_frames(stats.take(0)) =~= Seq::<u64>::empty());
        assert(tracked_losses(stats.take(0)) =~= Seq::<u64>::empty());
        assert(tracked_bursts(stats.take(0)) =~= Seq::<u64>::empty());
    }
    while i < per_source.entries.len()
        invariant
            i <= per_source.entries.len(),
            stats == model_values(per_source@),
            stats.len() == per_source.entries@.len(),
            total_seq_frames == sum_of(tracked_frames(stats.take(i as int))),
            total_seq_loss == sum_of(tracked_losses(stats.take(i as int))),
            total_seq_bursts == sum_of(tracked_bursts(stats.take(i as int))),
            total_seq_max_burst == top_burst(stats.take(i as int)),
            any_seq == any_tracked(stats.take(i as int)),
            jitter_sum == jitter_total(stats.take(i as int)),
            jitter_count == jitter_sources(stats.take(i as int)),
            jitter_count <= i,
        decreases per_source.entries.len() - i,
    {
        let source = &per_source.entries[i].value;
        proof {
            let next = stats.take(i + 1);
            let done = stats.take(i as int);
            assert(next.drop_last() =~= done);
            assert(next.last() == source@);
            assert(tracked_frames(next).drop_last() =~= tracked_frames(done));
            assert(tracked_losses(next).drop_last() =~= tracked_losses(done));
            assert(tracked_bursts(next).drop_last() =~= tracked_bursts(done));
            lemma_sum_bound(tracked_frames(next));
            lemma_sum_bound(tracked_losses(next));
            lemma_sum_bound(tracked_bursts(next));
            assert(next.len() * u64::MAX <= usize::MAX * u64::MAX) by (nonlinear_arith)
                requires
                    next.len() <= usize::MAX,
            ;
            if any_tracked(done) {
                let k = choose|k: int| 0 <= k < done.len() && (#[trigger] done[k]).last_seq is Some;
                assert(next[k] == done[k]);
            }
            if any_tracked(next) && !(source@.last_seq is Some) {
                let k = choose|k: int| 0 <= k < next.len() && (#[trigger] next[k]).last_seq is Some;
                assert(done[k] == next[k]);
            }
        }
        if source.last_seq.is_some() {
            any_seq = true;
            total_seq_frames = total_seq_frames + window_frames(source) as u128;
            total_seq_loss = total_seq_loss + window_loss(source) as u128;
            total_seq_bursts = total_seq_bursts + window_bursts(source) as u128;
            let max_burst = window_max_burst(source);
            if max_burst > total_seq_max_burst {
                total_seq_max_burst = max_burst;
            }
            proof {
                assert(stats.take(i + 1)[i as int].last_seq is Some);
            }
        }
        if source.jitter_samples.len() > 0 {
            let mean: u128 = source.jitter_sum / (source.jitter_samples.len() as u128);
            jitter_sum = jitter_sum.saturating_add(mean);
            jitter_count = jitter_count + 1;
        }
        i += 1;
    }
    assert(stats.take(per_source.entries.len() as int) =~= stats);
    let reported = any_seq && total_seq_frames > 1;
    let loss_packets = if reported {
        Some(super::window::clip_to_u64(total_seq_loss))
    } else {
        None
    };
    let loss_rate = if reported {
        Some(Ratio { num: total_seq_loss, den: total_seq_frames.saturating_add(total_seq_loss) })
    } else {
        None
    };
    let burst_count = if reported {
        Some(super::window::clip_to_u64(total_seq_bursts))
    } else {
        None
    };
    let max_burst_len = if reported {
        Some(total_seq_max_burst)
    } else {
        None
    };
    let jitter_us = if jitter_count > 0 {
        Some(super::window::clip_to_u64(jitter_sum / (jitter_count as u128)))
    } else {
        None
    };
    UniverseMetrics { loss_packets, loss_rate, burst_count, max_burst_len, jitter_us }
}


/// What the report says of a universe.
pub open spec fn summary_of(
    universe: u16,
    u: UniverseStatsView,
    frames: Seq<DmxFrameView>,
    protocol: DmxProtocol,
    proto: Seq<char>,
) -> UniverseSummaryView {
    let metrics = metrics_of(model_values(u.per_source));
    UniverseSummaryView {
        universe,
        proto,
        sources: sorted_by(model_values(u.sources), ranking::<SourceSummary>()),
        fps: fps_of(stamped(frames_of_universe(frames, universe, protocol))),
        frames_count: u.frames,
        loss_packets: metrics.loss_packets,
        loss_rate: metrics.loss_rate,
        burst_count: metrics.burst_count,
        max_burst_len: metrics.max_burst_len,
        jitter_us: metrics.jitter_us,
        dup_packets: None,
        reordered_packets: None,
    }
}

/// The summaries of the universes, in the order of the table.
pub open spec fn unsorted_summaries(
    m: Seq<(u16, UniverseStatsView)>,
    frames: Seq<DmxFrameView>,
    protocol: DmxProtocol,
    proto: Seq<char>,
) -> Seq<UniverseSummaryView> {
    Seq::new(m.len(), |i: int| summary_of(m[i].0, m[i].1, frames, protocol, proto))
}

/// The summaries of the universes of one protocol, by universe number.
pub open spec fn universe_summaries(
    m: Seq<(u16, UniverseStatsView)>,
    frames: Seq<DmxFrameView>,
    protocol: DmxProtocol,
    proto: Seq<char>,
) -> Seq<UniverseSummaryView> {
    sorted_by(unsorted_summaries(m, frames, protocol, proto), ranking::<UniverseSummary>())
}

fn copy_optional(s: &Option<String>) -> (r: Option<String>)
    ensures
        optional_text(r) == optional_text(*s),
{
    match s {
        Some(t) => Some(t.clone()),
        None => None,
    }
}

fn copy_source(s: &SourceSummary) -> (r: SourceSummary)
    ensures
        r@ == s@,
{
    SourceSummary {
        source_ip: s.source_ip.clone(),
        cid: copy_optional(&s.cid),
        source_name: copy_optional(&s.source_name),
    }
}

fn summarize_universe(
    entry: &UniverseEntry,
    dmx_store: &DmxStore,
    protocol: DmxProtocol,
    proto: &str,
) -> (r: UniverseSummary)
    ensures
        r@ == summary_of(entry.universe, entry.stats@, dmx_store@, protocol, proto@),
{
    let fps = fps_from_dmx(dmx_store, entry.universe, protocol, entry.stats.frames);
    let mut sources: Vec<SourceSummary> = Vec::new();
    let mut i: usize = 0;
    let ghost all = model_values(entry.stats.sources@);
    while i < entry.stats.sources.entries.len()
        invariant
            i <= entry.stats.sources.entries.len(),
            all == model_values(entry.stats.sources@),
            views_of(sources@) =~= all.take(i as int),
        decreases entry.stats.sources.entries.len() - i,
    {
        let copy = copy_source(&entry.stats.sources.entries[i].value);
        assert(all[i as int] == copy@);
        let ghost before = views_of(sources@);
        sources.push(copy);
        assert(views_of(sources@) =~= before.push(copy@));
        i += 1;
    }
    assert(all.take(all.len() as int) =~= all);
    let sources = sort_ranked(sources);
    let metrics = compute_metrics(&entry.stats.per_source);
    UniverseSummary {
        universe: entry.universe,
        proto: String::from_str(proto),
        sources,
        fps,
        frames_count: entry.stats.frames,
        loss_packets: metrics.loss_packets,
        loss_rate: metrics.loss_rate,
        burst_count: metrics.burst_count,
        max_burst_len: metrics.max_burst_len,
        jitter_us: metrics.jitter_us,
        dup_packets: None,
        reordered_packets: None,
    }
}

/// The summaries of the universes of a table, by universe number.
pub fn build_universe_summaries(
    stats: &UniverseTable,
    dmx_store: &DmxStore,
    protocol: DmxProtocol,
    proto: &str,
) -> (r: Vec<UniverseSummary>)
    ensures
        views_of(r@) == universe_summaries(stats@, dmx_store@, protocol, proto@),
{
    let mut universes: Vec<UniverseSummary> = Vec::new();
    let mut i: usize = 0;
    let ghost all = unsorted_summaries(stats@, dmx_store@, protocol, proto@);
    while i < stats.entries.len()
        invariant
            i <= stats.entries.len(),
            all == unsorted_summaries(stats@, dmx_store@, protocol, proto@),
            views_of(universes@) =~= all.take(i as int),
        decreases stats.entries.len() - i,
    {
        let summary = summarize_universe(&stats.entries[i], dmx_store, protocol, proto);
        assert(all[i as int] == summary@);
        let ghost before = views_of(universes@);
        universes.push(summary);
        assert(views_of(universes@) =~= before.push(summary@));
        i += 1;
    }
    assert(all.take(all.len() as int) =~= all);
    sort_ranked(universes)
}

/// The summaries of the Art-Net universes, by universe number.
pub fn build_artnet_universe_summaries(stats: UniverseTable, dmx_store: &DmxStore) -> (r: Vec<
    UniverseSummary,
>)
    ensures
        views_of(r@) == universe_summaries(stats@, dmx_store@, DmxProtocol::ArtNet, "artnet"@),
{
    build_universe_summaries(&stats, dmx_store, DmxProtocol::ArtNet, "artnet")
}

/// The summaries of the sACN universes, by universe number.
pub fn build_sacn_universe_summaries(stats: UniverseTable, dmx_store: &DmxStore) -> (r: Vec<
    UniverseSummary,
>)
    ensures
        views_of(r@) == universe_summaries(stats@, dmx_store@, DmxProtocol::Sacn, "sacn"@),
{
    build_universe_summaries(&stats, dmx_store, DmxProtocol::Sacn, "sacn")
}

} // verus!
