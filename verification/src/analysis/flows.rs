//! Flow statistics: per UDP flow the packets and bytes, the inter-arrival
//! times and their jitter, and the peak rates within one second.

use super::table::{
    distinct, index_of, keys_after, lemma_index_of, lemma_index_of_prefix,
    lemma_keys_after_distinct,
};
use super::udp::parser::{UdpPacket, UdpPacketView};
use super::window::{
    all_fresh, clip64, clip_to_u64, evicted, lemma_samples_after_insertion, non_decreasing,
    none_after, lemma_pruned_keeps_newest, lemma_stale_count_bound,
    prune_samples, pruned, sat_add, stale_count, times_of, window_sum, window_sum128,
};
use crate::address::{endpoint_text, format_endpoint, IpAddress};
use crate::order::{ranking, sort_ranked, sorted_by};
use crate::report::{views_of, FlowSummary, FlowSummaryView};
use crate::source::{clamp_ts, ts_in_range, usable_ts, MAX_TIMESTAMP_US};
use std::collections::VecDeque;
use vstd::prelude::*;
use vstd::string::*;

verus! {

/// Length of the rate window: one second.
pub const PPS_BPS_WINDOW_US: u64 = 1_000_000;

/// Length of the jitter window: ten seconds.
pub const JITTER_WINDOW_US: u64 = 10_000_000;

/// The endpoints of a flow.
#[derive(Debug, Clone, Copy)]
pub struct FlowKey {
    pub src_ip: IpAddress,
    pub src_port: u16,
    pub dst_ip: IpAddress,
    pub dst_port: u16,
}

/// The view of `FlowKey`: the addresses as byte sequences.
pub struct FlowKeyView {
    pub src_ip: Seq<u8>,
    pub src_port: u16,
    pub dst_ip: Seq<u8>,
    pub dst_port: u16,
}

impl View for FlowKey {
    type V = FlowKeyView;

    open spec fn view(&self) -> FlowKeyView {
        FlowKeyView {
            src_ip: self.src_ip@,
            src_port: self.src_port,
            dst_ip: self.dst_ip@,
            dst_port: self.dst_port,
        }
    }
}

impl FlowKey {
    /// Whether two flows have the same endpoints.
    pub fn same(&self, other: &FlowKey) -> (r: bool)
        ensures
            r == (self@ == other@),
    {
        self.src_port == other.src_port && self.dst_port == other.dst_port && self.src_ip.same(
            &other.src_ip,
        ) && self.dst_ip.same(&other.dst_ip)
    }
}

/// What is known of one flow.
#[derive(Debug, Clone)]
pub struct FlowStats {
    pub packets: u64,
    /// Payload bytes.
    pub bytes: u64,
    pub first_ts: Option<u64>,
    pub last_ts: Option<u64>,
    /// The last inter-arrival time, in microseconds.
    pub prev_iat: Option<i64>,
    /// Inter-arrival times that did not go back in time.
    pub iat_count: u64,
    pub max_iat_ms: Option<u64>,
    /// Sum of the changes of inter-arrival time within the jitter window.
    pub jitter_sum: u128,
    /// Time and change of inter-arrival time.
    pub jitter_samples: VecDeque<(u64, u64)>,
    /// The highest mean of the jitter window so far, in microseconds.
    pub jitter_peak: Option<u128>,
    /// Packets within the rate window.
    pub window_packets: u64,
    /// Payload bytes within the rate window.
    pub window_bytes: u64,
    /// Time and payload bytes of the packets of the rate window.
    pub window_samples: VecDeque<(u64, u64)>,
    pub peak_pps: Option<u64>,
    pub peak_bps: Option<u64>,
    pub peak_window_packets: u64,
    pub peak_window_bytes: u64,
}

/// The view of `FlowStats`: its windows as sequences.
pub struct FlowStatsView {
    pub packets: u64,
    pub bytes: u64,
    pub first_ts: Option<u64>,
    pub last_ts: Option<u64>,
    pub prev_iat: Option<i64>,
    pub iat_count: u64,
    pub max_iat_ms: Option<u64>,
    pub jitter_sum: u128,
    pub jitter_samples: Seq<(u64, u64)>,
    pub jitter_peak: Option<u128>,
    pub window_packets: u64,
    pub window_bytes: u64,
    pub window_samples: Seq<(u64, u64)>,
    pub peak_pps: Option<u64>,
    pub peak_bps: Option<u64>,
    pub peak_window_packets: u64,
    pub peak_window_bytes: u64,
}

impl View for FlowStats {
    type V = FlowStatsView;

    open spec fn view(&self) -> FlowStatsView {
        FlowStatsView {
            packets: self.packets,
            bytes: self.bytes,
            first_ts: self.first_ts,
            last_ts: self.last_ts,
            prev_iat: self.prev_iat,
            iat_count: self.iat_count,
            max_iat_ms: self.max_iat_ms,
            jitter_sum: self.jitter_sum,
            jitter_samples: self.jitter_samples@,
            jitter_peak: self.jitter_peak,
            window_packets: self.window_packets,
            window_bytes: self.window_bytes,
            window_samples: self.window_samples@,
            peak_pps: self.peak_pps,
            peak_bps: self.peak_bps,
            peak_window_packets: self.peak_window_packets,
            peak_window_bytes: self.peak_window_bytes,
        }
    }
}

/// The statistics of a flow of which no packet was seen.
pub open spec fn fresh_flow() -> FlowStatsView {
    FlowStatsView {
        packets: 0,
        bytes: 0,
        first_ts: None,
        last_ts: None,
        prev_iat: None,
        iat_count: 0,
        max_iat_ms: None,
        jitter_sum: 0,
        jitter_samples: Seq::empty(),
        jitter_peak: None,
        window_packets: 0,
        window_bytes: 0,
        window_samples: Seq::empty(),
        peak_pps: None,
        peak_bps: None,
        peak_window_packets: 0,
        peak_window_bytes: 0,
    }
}

impl FlowStatsView {
    /// The times held are in range, so that their differences are too.
    pub open spec fn wf(self) -> bool {
        &&& ts_in_range(self.last_ts)
        &&& match self.prev_iat {
            Some(p) => -MAX_TIMESTAMP_US <= p <= MAX_TIMESTAMP_US,
            None => true,
        }
    }
}

impl Default for FlowStats {
    fn default() -> (r: Self)
        ensures
            r@ == fresh_flow(),
    {
        FlowStats {
            packets: 0,
            bytes: 0,
            first_ts: None,
            last_ts: None,
            prev_iat: None,
            iat_count: 0,
            max_iat_ms: None,
            jitter_sum: 0,
            jitter_samples: VecDeque::new(),
            jitter_peak: None,
            window_packets: 0,
            window_bytes: 0,
            window_samples: VecDeque::new(),
            peak_pps: None,
            peak_bps: None,
            peak_window_packets: 0,
            peak_window_bytes: 0,
        }
    }
}

/// The larger of an optional peak and a value.
pub open spec fn raised(peak: Option<u64>, value: u64) -> u64 {
    match peak {
        Some(p) => if p > value {
            p
        } else {
            value
        },
        None => value,
    }
}

/// The larger of an optional peak and a value.
pub open spec fn raised128(peak: Option<u128>, value: u128) -> u128 {
    match peak {
        Some(p) => if p > value {
            p
        } else {
            value
        },
        None => value,
    }
}

/// An inter-arrival time in milliseconds, rounded to the nearest, halves up.
pub open spec fn rounded_ms(iat_us: int) -> u64 {
    ((iat_us + 500) / 1000) as u64
}

/// The jitter window after a packet at `t` that comes `iat` after the last
/// one, where the inter-arrival time before was `prev`.
pub open spec fn jitter_window_step(s: FlowStatsView, t: u64, iat: int, prev: int) -> FlowStatsView {
    let sample = (t, vstd::math::abs(iat - prev) as u64);
    let samples = pruned(s.jitter_samples.push(sample), t, JITTER_WINDOW_US);
    let sum = window_sum128(
        s.jitter_sum,
        sample.1 as int,
        evicted(s.jitter_samples.push(sample), t, JITTER_WINDOW_US),
    );
    FlowStatsView {
        jitter_sum: sum,
        jitter_samples: samples,
        jitter_peak: Some(raised128(s.jitter_peak, (sum as int / samples.len() as int) as u128)),
        ..s
    }
}

/// The statistics after a packet at `ts`, as far as inter-arrival times go.
/// A packet without time changes nothing here.
pub open spec fn flow_jitter_step(s: FlowStatsView, ts: Option<u64>) -> FlowStatsView {
    match ts {
        None => s,
        Some(t) => {
            let started = FlowStatsView {
                first_ts: if s.first_ts is None {
                    Some(t)
                } else {
                    s.first_ts
                },
                ..s
            };
            let timed = match s.last_ts {
                None => started,
                Some(last) => {
                    let iat = t - last;
                    let counted = if iat >= 0 {
                        FlowStatsView {
                            iat_count: sat_add(s.iat_count, 1),
                            max_iat_ms: Some(raised(s.max_iat_ms, rounded_ms(iat))),
                            ..started
                        }
                    } else {
                        started
                    };
                    let jittered = match s.prev_iat {
                        Some(prev) => jitter_window_step(counted, t, iat, prev as int),
                        None => counted,
                    };
                    FlowStatsView { prev_iat: Some(iat as i64), ..jittered }
                },
            };
            FlowStatsView { last_ts: Some(t), ..timed }
        },
    }
}

/// The statistics after a packet of `bytes` payload bytes at `ts`, as far
/// as rates go. A packet without time changes nothing here.
pub open spec fn flow_rates_step(s: FlowStatsView, ts: Option<u64>, bytes: u64) -> FlowStatsView {
    match ts {
        None => s,
        Some(t) => {
            let taken = s.window_samples.push((t, bytes));
            let packets = window_sum(
                s.window_packets,
                1,
                stale_count(times_of(taken), t, PPS_BPS_WINDOW_US),
            );
            let window_bytes = window_sum(
                s.window_bytes,
                bytes as int,
                evicted(taken, t, PPS_BPS_WINDOW_US),
            );
            FlowStatsView {
                window_packets: packets,
                window_bytes,
                window_samples: pruned(taken, t, PPS_BPS_WINDOW_US),
                peak_pps: Some(raised(s.peak_pps, packets)),
                peak_bps: Some(raised(s.peak_bps, window_bytes)),
                peak_window_packets: if s.peak_window_packets > packets {
                    s.peak_window_packets
                } else {
                    packets
                },
                peak_window_bytes: if s.peak_window_bytes > window_bytes {
                    s.peak_window_bytes
                } else {
                    window_bytes
                },
                ..s
            }
        },
    }
}

/// The statistics of a flow after one more packet.
pub open spec fn flow_step(s: FlowStatsView, bytes: u64, ts: Option<u64>) -> FlowStatsView {
    flow_rates_step(
        flow_jitter_step(
            FlowStatsView { packets: sat_add(s.packets, 1), bytes: sat_add(s.bytes, bytes as int), ..s },
            ts,
        ),
        ts,
        bytes,
    )
}

/// A step keeps the times of a flow in range.
pub proof fn lemma_flow_step_wf(s: FlowStatsView, bytes: u64, ts: Option<u64>)
    requires
        s.wf(),
        ts_in_range(ts),
    ensures
        flow_step(s, bytes, ts).wf(),
{
}

/// The times of both windows of the flow do not go back and none is after
/// `now`.
pub open spec fn flow_windows_in_order(s: FlowStatsView, now: u64) -> bool {
    &&& non_decreasing(times_of(s.jitter_samples)) && none_after(times_of(s.jitter_samples), now)
    &&& non_decreasing(times_of(s.window_samples)) && none_after(times_of(s.window_samples), now)
}

/// Where time does not go back, a packet at `t` leaves no sample older than
/// one second in the rate window, and none older than ten seconds in the
/// jitter window if that took a sample; else the jitter window is as it was.
pub proof fn lemma_flow_windows_hold_their_span(s: FlowStatsView, bytes: u64, before: u64, t: u64)
    requires
        flow_windows_in_order(s, before),
        before <= t,
    ensures
        ({
            let next = flow_step(s, bytes, Some(t));
            &&& flow_windows_in_order(next, t)
            &&& all_fresh(times_of(next.window_samples), t, PPS_BPS_WINDOW_US)
            &&& next.jitter_samples == s.jitter_samples || all_fresh(
                times_of(next.jitter_samples),
                t,
                JITTER_WINDOW_US,
            )
        }),
{
    lemma_samples_after_insertion(s.window_samples, bytes, t, PPS_BPS_WINDOW_US);
    match (s.last_ts, s.prev_iat) {
        (Some(last), Some(prev)) => {
            let diff = vstd::math::abs(t - last - prev) as u64;
            lemma_samples_after_insertion(s.jitter_samples, diff, t, JITTER_WINDOW_US);
        },
        _ => {},
    }
}

fn update_flow_jitter(stats: &mut FlowStats, ts: Option<u64>)
    requires
        old(stats)@.wf(),
        ts_in_range(ts),
    ensures
        final(stats)@ == flow_jitter_step(old(stats)@, ts),
{
    let t = match ts {
        Some(t) => t,
        None => { return ; },
    };
    if stats.first_ts.is_none() {
        stats.first_ts = Some(t);
    }
    if let Some(last) = stats.last_ts {
        let iat: i64 = (t as i64) - (last as i64);
        if iat >= 0 {
            stats.iat_count = stats.iat_count.saturating_add(1);
            let ms: u64 = ((iat + 500) / 1000) as u64;
            stats.max_iat_ms = Some(
                match stats.max_iat_ms {
                    Some(prev) => if prev > ms {
                        prev
                    } else {
                        ms
                    },
                    None => ms,
                },
            );
        }
        if let Some(prev) = stats.prev_iat {
            let change: i64 = iat - prev;
            let diff: u64 = if change < 0 {
                (-change) as u64
            } else {
                change as u64
            };
            stats.jitter_sum = stats.jitter_sum.saturating_add(diff as u128);
            stats.jitter_samples.push_back((t, diff));
            proof {
                let taken = stats.jitter_samples@;
                assert(times_of(taken).last() == t);
                lemma_pruned_keeps_newest(times_of(taken), t, JITTER_WINDOW_US);
            }
            let gone = prune_samples(&mut stats.jitter_samples, t, JITTER_WINDOW_US);
            stats.jitter_sum = stats.jitter_sum.saturating_sub(gone);
            let window_avg: u128 = stats.jitter_sum / (stats.jitter_samples.len() as u128);
            stats.jitter_peak = Some(
                match stats.jitter_peak {
                    Some(peak) => if peak > window_avg {
                        peak
                    } else {
                        window_avg
                    },
                    None => window_avg,
                },
            );
        }
        stats.prev_iat = Some(iat);
    }
    stats.last_ts = Some(t);
}

fn update_flow_rates(stats: &mut FlowStats, ts: Option<u64>, bytes: u64)
    ensures
        final(stats)@ == flow_rates_step(old(stats)@, ts, bytes),
{
    let t = match ts {
        Some(t) => t,
        None => { return ; },
    };
    stats.window_packets = stats.window_packets.saturating_add(1);
    stats.window_bytes = stats.window_bytes.saturating_add(bytes);
    stats.window_samples.push_back((t, bytes));
    let before: usize = stats.window_samples.len();
    proof {
        lemma_stale_count_bound(times_of(stats.window_samples@), t, PPS_BPS_WINDOW_US);
    }
    let gone = prune_samples(&mut stats.window_samples, t, PPS_BPS_WINDOW_US);
    let removed: usize = before - stats.window_samples.len();
    stats.window_packets = stats.window_packets.saturating_sub(removed as u64);
    stats.window_bytes = stats.window_bytes.saturating_sub(clip_to_u64(gone));
    stats.peak_pps = Some(
        match stats.peak_pps {
            Some(peak) => if peak > stats.window_packets {
                peak
            } else {
                stats.window_packets
            },
            None => stats.window_packets,
        },
    );
    stats.peak_bps = Some(
        match stats.peak_bps {
            Some(peak) => if peak > stats.window_bytes {
                peak
            } else {
                stats.window_bytes
            },
            None => stats.window_bytes,
        },
    );
    if stats.window_packets > stats.peak_window_packets {
        stats.peak_window_packets = stats.window_packets;
    }
    if stats.window_bytes > stats.peak_window_bytes {
        stats.peak_window_bytes = stats.window_bytes;
    }
}

/// A flow and its statistics.
pub struct FlowEntry {
    pub key: FlowKey,
    pub stats: FlowStats,
}

/// The statistics of every flow, by endpoints.
pub struct FlowTable {
    pub entries: Vec<FlowEntry>,
}

impl View for FlowTable {
    type V = Seq<(FlowKeyView, FlowStatsView)>;

    /// Endpoints and statistics, in the order in which the flows were first seen.
    open spec fn view(&self) -> Seq<(FlowKeyView, FlowStatsView)> {
        Seq::new(self.entries@.len(), |i: int| (self.entries@[i].key@, self.entries@[i].stats@))
    }
}

/// The endpoints of a table model.
pub open spec fn flow_keys(m: Seq<(FlowKeyView, FlowStatsView)>) -> Seq<FlowKeyView> {
    Seq::new(m.len(), |i: int| m[i].0)
}

/// Every flow holds times in range.
pub open spec fn flows_wf(m: Seq<(FlowKeyView, FlowStatsView)>) -> bool {
    forall|i: int| 0 <= i < m.len() ==> (#[trigger] m[i]).1.wf()
}

/// The endpoints of a datagram.
pub open spec fn key_of_packet(packet: UdpPacketView) -> FlowKeyView {
    FlowKeyView {
        src_ip: packet.src_ip,
        src_port: packet.src_port,
        dst_ip: packet.dst_ip,
        dst_port: packet.dst_port,
    }
}

/// The statistics of all flows after one more packet.
pub open spec fn flows_step(
    m: Seq<(FlowKeyView, FlowStatsView)>,
    key: FlowKeyView,
    bytes: u64,
    ts: Option<u64>,
) -> Seq<(FlowKeyView, FlowStatsView)> {
    match index_of(flow_keys(m), key) {
        Some(i) => m.update(i, (key, flow_step(m[i].1, bytes, ts))),
        None => m.push((key, flow_step(fresh_flow(), bytes, ts))),
    }
}

/// A step keeps the times of all flows in range.
pub proof fn lemma_flows_step_wf(
    m: Seq<(FlowKeyView, FlowStatsView)>,
    key: FlowKeyView,
    bytes: u64,
    ts: Option<u64>,
)
    requires
        flows_wf(m),
        ts_in_range(ts),
    ensures
        flows_wf(flows_step(m, key, bytes, ts)),
{
    let next = flows_step(m, key, bytes, ts);
    lemma_index_of(flow_keys(m), key);
    assert forall|i: int| 0 <= i < next.len() implies (#[trigger] next[i]).1.wf() by {
        match index_of(flow_keys(m), key) {
            Some(k) => {
                assert(m[i].1.wf());
                if i == k {
                    lemma_flow_step_wf(m[k].1, bytes, ts);
                }
            },
            None => {
                if i < m.len() {
                    assert(m[i].1.wf());
                } else {
                    lemma_flow_step_wf(fresh_flow(), bytes, ts);
                }
            },
        }
    }
}

/// A table that holds no flow twice stays so with every packet.
pub proof fn lemma_flows_step_keeps_keys_distinct(
    m: Seq<(FlowKeyView, FlowStatsView)>,
    key: FlowKeyView,
    bytes: u64,
    ts: Option<u64>,
)
    requires
        distinct(flow_keys(m)),
    ensures
        distinct(flow_keys(flows_step(m, key, bytes, ts))),
{
    lemma_keys_after_distinct(flow_keys(m), key);
    lemma_index_of(flow_keys(m), key);
    assert(flow_keys(flows_step(m, key, bytes, ts)) =~= keys_after(flow_keys(m), key));
}

impl FlowTable {
    /// A table without flows.
    pub fn new() -> (r: Self)
        ensures
            r@ == Seq::<(FlowKeyView, FlowStatsView)>::empty(),
    {
        let r = FlowTable { entries: Vec::new() };
        assert(r@ =~= Seq::<(FlowKeyView, FlowStatsView)>::empty());
        r
    }

    /// The index of the entry of the flow.
    pub fn find(&self, key: &FlowKey) -> (r: Option<usize>)
        ensures
            match r {
                Some(i) => index_of(flow_keys(self@), key@) == Some(i as int) && i
                    < self.entries@.len() && self.entries@[i as int].key@ == key@,
                None => index_of(flow_keys(self@), key@) is None,
            },
    {
        let ghost keys = flow_keys(self@);
        let mut i: usize = 0;
        while i < self.entries.len()
            invariant
                i <= self.entries.len(),
                keys == flow_keys(self@),
                index_of(keys.take(i as int), key@) is None,
            decreases self.entries.len() - i,
        {
            proof {
                assert(keys.take(i + 1).drop_last() =~= keys.take(i as int));
            }
            if self.entries[i].key.same(key) {
                proof {
                    lemma_index_of_prefix(keys, i + 1, key@);
                }
                return Some(i);
            }
            i += 1;
        }
        assert(keys.take(self.entries.len() as int) =~= keys);
        None
    }

    /// Stores `stats` for the flow: in place of what was stored for it, or
    /// else as a new entry at the end.
    pub fn insert(&mut self, key: FlowKey, stats: FlowStats)
        ensures
            final(self)@ == match index_of(flow_keys(old(self)@), key@) {
                Some(i) => old(self)@.update(i, (key@, stats@)),
                None => old(self)@.push((key@, stats@)),
            },
    {
        match self.find(&key) {
            Some(i) => {
                self.entries[i].stats = stats;
                assert(final(self)@ =~= old(self)@.update(i as int, (key@, stats@)));
            },
            None => {
                self.entries.push(FlowEntry { key, stats });
                assert(final(self)@ =~= old(self)@.push((key@, stats@)));
            },
        }
    }
}

fn step_flow(stats: &mut FlowStats, bytes: u64, ts: Option<u64>)
    requires
        old(stats)@.wf(),
        ts_in_range(ts),
    ensures
        final(stats)@ == flow_step(old(stats)@, bytes, ts),
{
    stats.packets = stats.packets.saturating_add(1);
    stats.bytes = stats.bytes.saturating_add(bytes);
    update_flow_jitter(stats, ts);
    update_flow_rates(stats, ts, bytes);
}

/// Takes one datagram into the statistics of its flow. A capture time that
/// cannot be reported counts as unknown.
pub fn add_flow_stats(stats: &mut FlowTable, packet: &UdpPacket<'_>, ts: Option<u64>)
    requires
        flows_wf(old(stats)@),
    ensures
        final(stats)@ == flows_step(
            old(stats)@,
            key_of_packet(packet@),
            packet@.payload.len() as u64,
            usable_ts(ts),
        ),
        flows_wf(final(stats)@),
{
    let ts = clamp_ts(ts);
    let key = FlowKey {
        src_ip: packet.src_ip,
        src_port: packet.src_port,
        dst_ip: packet.dst_ip,
        dst_port: packet.dst_port,
    };
    let bytes: u64 = packet.payload.len() as u64;
    proof {
        lemma_flows_step_wf(old(stats)@, key@, bytes, ts);
    }
    match stats.find(&key) {
        Some(i) => {
            assert(old(stats)@[i as int].1.wf());
            step_flow(&mut stats.entries[i].stats, bytes, ts);
            assert(stats.entries@.len() == old(stats).entries@.len());
            assert forall|j: int| 0 <= j < stats.entries@.len() && j != i implies stats.entries@[j]
                == old(stats).entries@[j] by {}
            assert(stats@ =~= old(stats)@.update(
                i as int,
                (key@, flow_step(old(stats)@[i as int].1, bytes, ts)),
            ));
        },
        None => {
            let mut fresh = FlowStats::default();
            step_flow(&mut fresh, bytes, ts);
            stats.entries.push(FlowEntry { key, stats: fresh });
            assert(stats@ =~= old(stats)@.push((key@, flow_step(fresh_flow(), bytes, ts))));
        },
    }
}

/// What the report says of a flow.
///
/// The longest inter-arrival time is reported where one was measured, and
/// the one-second peaks where the flow lasted a second or more.
pub open spec fn flow_summary_of(key: FlowKeyView, s: FlowStatsView) -> FlowSummaryView {
    let lasted = match (s.first_ts, s.last_ts) {
        (Some(start), Some(end)) => end - start >= PPS_BPS_WINDOW_US,
        _ => false,
    };
    FlowSummaryView {
        app_proto: "udp"@,
        src: endpoint_text(key.src_ip, key.src_port),
        dst: endpoint_text(key.dst_ip, key.dst_port),
        pps: s.peak_pps,
        bps: s.peak_bps,
        iat_jitter_us: match s.jitter_peak {
            Some(peak) => Some(clip64(peak as int)),
            None => None,
        },
        max_iat_ms: if s.iat_count > 0 {
            s.max_iat_ms
        } else {
            None
        },
        pps_peak_1s: if lasted {
            Some(s.peak_window_packets)
        } else {
            None
        },
        bps_peak_1s: if lasted {
            Some(s.peak_window_bytes)
        } else {
            None
        },
    }
}

/// The summaries of the flows, in the order of the table.
pub open spec fn unsorted_flow_summaries(m: Seq<(FlowKeyView, FlowStatsView)>) -> Seq<FlowSummaryView> {
    Seq::new(m.len(), |i: int| flow_summary_of(m[i].0, m[i].1))
}

/// The summaries of the flows, by source and destination endpoint.
pub open spec fn flow_summaries(m: Seq<(FlowKeyView, FlowStatsView)>) -> Seq<FlowSummaryView> {
    sorted_by(unsorted_flow_summaries(m), ranking::<FlowSummary>())
}

fn summarize_flow(entry: &FlowEntry) -> (r: FlowSummary)
    ensures
        r@ == flow_summary_of(entry.key@, entry.stats@),
{
    let stats = &entry.stats;
    let max_iat_ms = if stats.iat_count > 0 {
        stats.max_iat_ms
    } else {
        None
    };
    let lasted = match (stats.first_ts, stats.last_ts) {
        (Some(start), Some(end)) => end >= start && end - start >= PPS_BPS_WINDOW_US,
        _ => false,
    };
    let iat_jitter_us = match stats.jitter_peak {
        Some(peak) => Some(clip_to_u64(peak)),
        None => None,
    };
    FlowSummary {
        app_proto: String::from_str("udp"),
        src: format_endpoint(&entry.key.src_ip, entry.key.src_port),
        dst: format_endpoint(&entry.key.dst_ip, entry.key.dst_port),
        pps: stats.peak_pps,
        bps: stats.peak_bps,
        iat_jitter_us,
        max_iat_ms,
        pps_peak_1s: if lasted {
            Some(stats.peak_window_packets)
        } else {
            None
        },
        bps_peak_1s: if lasted {
            Some(stats.peak_window_bytes)
        } else {
            None
        },
    }
}

/// The summaries of all flows, by source and destination endpoint. The
/// duration of the capture has no part in them.
pub fn build_flow_summaries(stats: FlowTable, duration_us: Option<u64>) -> (r: Vec<FlowSummary>)
    ensures
        views_of(r@) == flow_summaries(stats@),
{
    let mut flows: Vec<FlowSummary> = Vec::new();
    let ghost all = unsorted_flow_summaries(stats@);
    let mut i: usize = 0;
    while i < stats.entries.len()
        invariant
            i <= stats.entries.len(),
            all == unsorted_flow_summaries(stats@),
            views_of(flows@) =~= all.take(i as int),
        decreases stats.entries.len() - i,
    {
        let summary = summarize_flow(&stats.entries[i]);
        assert(all[i as int] == summary@);
        let ghost before = views_of(flows@);
        flows.push(summary);
        assert(views_of(flows@) =~= before.push(summary@));
        i += 1;
    }
    assert(all.take(all.len() as int) =~= all);
    sort_ranked(flows)
}

} // verus!
