//! What holds of every analysis and of every report.

use super::compliance::{
    compliance_ok, examples_distinct, examples_ok, final_summary, final_violation,
    lemma_compliance_step_keeps_examples,
};
use super::conflicts::{
    compared_spans, conflict_record, conflicting, conflicts_of, lemma_conflict_is_reported_once,
    lemma_conflicting_pair_is_reported, lemma_conflicts_exceed_threshold,
    CONFLICT_MIN_OVERLAP_US,
};
use super::dmx::{
    lemma_state_step_keeps_keys_distinct, state_keys, DmxFrameView, DmxProtocol, StateKey,
};
use super::flows::{flow_keys, lemma_flows_step_keeps_keys_distinct};
use super::table::distinct;
use super::udp::parser::{udp_of, UdpPacketView};
use super::universes::{
    keys_are_distinct, lemma_universes_step_keeps_keys_distinct, universe_summaries,
    unsorted_summaries, UniverseStatsView,
};
use super::{analyzer_step, artnet_offer, report_of, sacn_offer, state_after, AnalyzerView};
use crate::order::{
    distinct_by, lemma_sorted_by, lemma_sorted_by_distinct, lemma_sorted_by_members, ordered_by,
    ranking, sorted_by,
};
use crate::protocols::artnet::parser::artdmx_of;
use crate::protocols::sacn::parser::sacn_of;
use crate::report::{
    ComplianceSummary, ConflictSummary, FlowSummary, InputInfoView, ReportView, SourceSummary,
    UniverseSummary, UniverseSummaryView, Violation,
};
use crate::source::{usable_ts, PacketEventView};
use vstd::prelude::*;

verus! {

/// Nothing is held twice: no universe and no source of a universe, no flow,
/// no retained image, no protocol and no violation of a protocol; and no
/// violation holds more than three examples or one example twice.
pub open spec fn state_ok(s: AnalyzerView) -> bool {
    &&& keys_are_distinct(s.artnet)
    &&& keys_are_distinct(s.sacn)
    &&& distinct(flow_keys(s.flows))
    &&& distinct(state_keys(s.states))
    &&& compliance_ok(s.compliance)
}

proof fn lemma_artnet_offer_ok(s: AnalyzerView, udp: UdpPacketView, ts: Option<u64>)
    requires
        state_ok(s),
    ensures
        state_ok(artnet_offer(s, udp, ts)),
{
    let next = artnet_offer(s, udp, ts);
    match artdmx_of(udp.payload) {
        Ok(Some(art)) => {
            let id = super::universes::artnet_source_text(udp.src_ip, udp.src_port);
            lemma_state_step_keeps_keys_distinct(
                s.states,
                StateKey { universe: art.universe, source: id, protocol: DmxProtocol::ArtNet },
                art.slots,
            );
            lemma_universes_step_keeps_keys_distinct(
                s.artnet,
                art.universe,
                id,
                super::universes::artnet_summary(udp.src_ip),
                art.sequence,
                ts,
            );
            let note = super::notes::artnet_port_note();
            lemma_compliance_step_keeps_examples(
                s.compliance,
                note.protocol,
                note.id,
                note.severity,
                note.message,
                super::notes::example_text(
                    super::notes::ports_detail(udp),
                    Some((udp.src_ip, udp.src_port)),
                    ts,
                ),
            );
        },
        Ok(None) => {},
        Err(e) => {
            let note = super::notes::artnet_note(e);
            lemma_compliance_step_keeps_examples(
                s.compliance,
                note.protocol,
                note.id,
                note.severity,
                note.message,
                super::notes::example_text(note.detail, Some((udp.src_ip, udp.src_port)), ts),
            );
        },
    }
}

proof fn lemma_sacn_offer_ok(s: AnalyzerView, udp: UdpPacketView, ts: Option<u64>)
    requires
        state_ok(s),
    ensures
        state_ok(sacn_offer(s, udp, ts)),
{
    match sacn_of(udp.payload) {
        Ok(Some(frame)) => {
            let id = super::universes::sacn_source_text(frame.cid, udp.src_ip, udp.src_port);
            lemma_state_step_keeps_keys_distinct(
                s.states,
                StateKey { universe: frame.universe, source: id, protocol: DmxProtocol::Sacn },
                frame.slots,
            );
            lemma_universes_step_keeps_keys_distinct(
                s.sacn,
                frame.universe,
                id,
                super::universes::sacn_summary(udp.src_ip, frame.cid, frame.source_name),
                frame.sequence,
                ts,
            );
            let note = super::notes::sacn_port_note();
            lemma_compliance_step_keeps_examples(
                s.compliance,
                note.protocol,
                note.id,
                note.severity,
                note.message,
                super::notes::example_text(
                    super::notes::ports_detail(udp),
                    Some((udp.src_ip, udp.src_port)),
                    ts,
                ),
            );
        },
        Ok(None) => {},
        Err(e) => {
            let note = super::notes::sacn_note(e);
            lemma_compliance_step_keeps_examples(
                s.compliance,
                note.protocol,
                note.id,
                note.severity,
                note.message,
                super::notes::example_text(note.detail, Some((udp.src_ip, udp.src_port)), ts),
            );
        },
    }
}

/// Every packet leaves the state in order.
pub proof fn lemma_step_keeps_state_ok(s: AnalyzerView, event: PacketEventView)
    requires
        state_ok(s),
    ensures
        state_ok(analyzer_step(s, event)),
{
    reveal(analyzer_step);
    let ts = usable_ts(event.ts);
    let counted = AnalyzerView {
        packets_total: super::window::sat_add(s.packets_total, 1),
        first_ts: super::universes::bounds_step(s.first_ts, s.last_ts, ts).0,
        last_ts: super::universes::bounds_step(s.first_ts, s.last_ts, ts).1,
        ..s
    };
    match udp_of(event.linktype, event.data) {
        Ok(Some(udp)) => {
            lemma_artnet_offer_ok(counted, udp, ts);
            lemma_sacn_offer_ok(artnet_offer(counted, udp, ts), udp, ts);
            let offered = if artdmx_of(udp.payload) is Ok && artdmx_of(udp.payload)->Ok_0 is Some {
                artnet_offer(counted, udp, ts)
            } else {
                sacn_offer(artnet_offer(counted, udp, ts), udp, ts)
            };
            lemma_flows_step_keeps_keys_distinct(
                offered.flows,
                super::flows::key_of_packet(udp),
                udp.payload.len() as u64,
                ts,
            );
        },
        Ok(None) => {},
        Err(e) => {
            let note = super::notes::udp_note(e);
            lemma_compliance_step_keeps_examples(
                counted.compliance,
                note.protocol,
                note.id,
                note.severity,
                note.message,
                note.detail,
            );
        },
    }
}

/// The state after any capture is in order.
pub proof fn lemma_state_after_ok(events: Seq<PacketEventView>)
    ensures
        state_ok(state_after(events)),
    decreases events.len(),
{
    if events.len() > 0 {
        lemma_state_after_ok(events.drop_last());
        lemma_step_keeps_state_ok(state_after(events.drop_last()), events.last());
    }
}

/// The report is made from the packets alone: two reports of the same
/// packets differ in nothing but the name and the size of the capture.
pub proof fn lemma_report_depends_on_packets_alone(
    events: Seq<PacketEventView>,
    path_a: Seq<char>,
    bytes_a: u64,
    path_b: Seq<char>,
    bytes_b: u64,
)
    ensures
        report_of(state_after(events), path_a, bytes_a) == (ReportView {
            input: InputInfoView { path: path_a, bytes: bytes_a },
            ..report_of(state_after(events), path_b, bytes_b)
        }),
{
}

proof fn lemma_summaries_list_sources_in_order(
    m: Seq<(u16, UniverseStatsView)>,
    frames: Seq<DmxFrameView>,
    protocol: DmxProtocol,
    proto: Seq<char>,
)
    ensures
        forall|u: UniverseSummaryView|
            universe_summaries(m, frames, protocol, proto).contains(u) ==> ordered_by(
                u.sources,
                ranking::<SourceSummary>(),
            ),
{
    let unsorted = unsorted_summaries(m, frames, protocol, proto);
    lemma_sorted_by_members(unsorted, ranking::<UniverseSummary>());
    assert forall|u: UniverseSummaryView|
        universe_summaries(m, frames, protocol, proto).contains(u) implies ordered_by(
        u.sources,
        ranking::<SourceSummary>(),
    ) by {
        assert(unsorted.contains(u));
        let k = choose|k: int| 0 <= k < unsorted.len() && unsorted[k] == u;
        lemma_sorted_by(
            super::table::model_values(m[k].1.sources),
            ranking::<SourceSummary>(),
        );
    }
}

/// Every list of a report is in its order: universes by number and
/// protocol, the sources of a universe by address, flows by source and
/// destination endpoint, conflicts by universe and sources, protocols of the
/// compliance list by name, their violations by severity and identifier, and
/// the examples of a violation by text.
pub proof fn lemma_report_is_ordered(s: AnalyzerView, path: Seq<char>, input_bytes: u64)
    ensures
        ({
            let r = report_of(s, path, input_bytes);
            &&& ordered_by(r.universes, ranking::<UniverseSummary>())
            &&& forall|i: int|
                0 <= i < r.universes.len() ==> ordered_by(
                    (#[trigger] r.universes[i]).sources,
                    ranking::<SourceSummary>(),
                )
            &&& ordered_by(r.flows, ranking::<FlowSummary>())
            &&& ordered_by(r.conflicts, ranking::<ConflictSummary>())
            &&& ordered_by(r.compliance, ranking::<ComplianceSummary>())
            &&& forall|i: int|
                0 <= i < r.compliance.len() ==> ordered_by(
                    (#[trigger] r.compliance[i]).violations,
                    ranking::<Violation>(),
                )
            &&& forall|i: int, j: int|
                0 <= i < r.compliance.len() && 0 <= j < r.compliance[i].violations.len()
                    ==> ordered_by(
                    (#[trigger] r.compliance[i].violations[j]).examples,
                    ranking::<String>(),
                )
        }),
{
    let r = report_of(s, path, input_bytes);
    let artnet = universe_summaries(s.artnet, s.frames, DmxProtocol::ArtNet, "artnet"@);
    let sacn = universe_summaries(s.sacn, s.frames, DmxProtocol::Sacn, "sacn"@);
    lemma_sorted_by(artnet + sacn, ranking::<UniverseSummary>());
    lemma_sorted_by_members(artnet + sacn, ranking::<UniverseSummary>());
    lemma_summaries_list_sources_in_order(s.artnet, s.frames, DmxProtocol::ArtNet, "artnet"@);
    lemma_summaries_list_sources_in_order(s.sacn, s.frames, DmxProtocol::Sacn, "sacn"@);
    assert forall|i: int| 0 <= i < r.universes.len() implies ordered_by(
        (#[trigger] r.universes[i]).sources,
        ranking::<SourceSummary>(),
    ) by {
        let u = r.universes[i];
        assert(r.universes.contains(u));
        assert((artnet + sacn).contains(u));
        let k = choose|k: int| 0 <= k < (artnet + sacn).len() && (artnet + sacn)[k] == u;
        if k < artnet.len() {
            assert(artnet[k] == u);
            assert(artnet.contains(u));
        } else {
            assert(sacn[k - artnet.len()] == u);
            assert(sacn.contains(u));
        }
    }
    lemma_sorted_by(
        super::flows::unsorted_flow_summaries(s.flows),
        ranking::<FlowSummary>(),
    );
    lemma_sorted_by(conflicts_of(s.artnet) + conflicts_of(s.sacn), ranking::<ConflictSummary>());
    let summaries = Seq::new(s.compliance.len(), |i: int| final_summary(s.compliance[i].1));
    lemma_sorted_by(summaries, ranking::<ComplianceSummary>());
    lemma_sorted_by_members(summaries, ranking::<ComplianceSummary>());
    assert forall|i: int| 0 <= i < r.compliance.len() implies ordered_by(
        (#[trigger] r.compliance[i]).violations,
        ranking::<Violation>(),
    ) && forall|j: int|
        0 <= j < r.compliance[i].violations.len() ==> ordered_by(
            (#[trigger] r.compliance[i].violations[j]).examples,
            ranking::<String>(),
        ) by {
        let c = r.compliance[i];
        assert(r.compliance.contains(c));
        assert(summaries.contains(c));
        let k = choose|k: int| 0 <= k < summaries.len() && summaries[k] == c;
        let before = s.compliance[k].1;
        let finals = Seq::new(
            before.violations.len(),
            |i: int| final_violation(before.violations[i]),
        );
        lemma_sorted_by(finals, ranking::<Violation>());
        lemma_sorted_by_members(finals, ranking::<Violation>());
        assert forall|j: int| 0 <= j < c.violations.len() implies ordered_by(
            (#[trigger] c.violations[j]).examples,
            ranking::<String>(),
        ) by {
            let v = c.violations[j];
            assert(c.violations.contains(v));
            assert(finals.contains(v));
            let n = choose|n: int| 0 <= n < finals.len() && finals[n] == v;
            lemma_sorted_by(before.violations[n].examples, ranking::<String>());
        }
    }
}

/// The text of an example.
pub open spec fn example_itself() -> spec_fn(Seq<char>) -> Seq<char> {
    |e: Seq<char>| e
}

/// In the report of any capture, every violation holds at most three
/// examples, and no example twice.
pub proof fn lemma_examples_are_capped(
    events: Seq<PacketEventView>,
    path: Seq<char>,
    input_bytes: u64,
)
    ensures
        ({
            let r = report_of(state_after(events), path, input_bytes);
            forall|i: int, j: int|
                0 <= i < r.compliance.len() && 0 <= j < r.compliance[i].violations.len()
                    ==> examples_ok(#[trigger] r.compliance[i].violations[j])
        }),
{
    let s = state_after(events);
    lemma_state_after_ok(events);
    let r = report_of(s, path, input_bytes);
    let summaries = Seq::new(s.compliance.len(), |i: int| final_summary(s.compliance[i].1));
    lemma_sorted_by_members(summaries, ranking::<ComplianceSummary>());
    assert forall|i: int, j: int|
        0 <= i < r.compliance.len() && 0 <= j < r.compliance[i].violations.len() implies examples_ok(
        #[trigger] r.compliance[i].violations[j],
    ) by {
        let c = r.compliance[i];
        assert(r.compliance.contains(c));
        assert(summaries.contains(c));
        let k = choose|k: int| 0 <= k < summaries.len() && summaries[k] == c;
        let before = s.compliance[k].1;
        let finals = Seq::new(
            before.violations.len(),
            |i: int| final_violation(before.violations[i]),
        );
        lemma_sorted_by_members(finals, ranking::<Violation>());
        let v = c.violations[j];
        assert(c.violations.contains(v));
        assert(finals.contains(v));
        let n = choose|n: int| 0 <= n < finals.len() && finals[n] == v;
        let raw = before.violations[n].examples;
        assert(examples_ok(s.compliance[k].1.violations[n]));
        lemma_sorted_by(raw, ranking::<String>());
        assert(distinct_by(raw, example_itself())) by {
            assert forall|a: int, b: int| 0 <= a < b < raw.len() implies example_itself()(raw[a])
                != example_itself()(raw[b]) by {
                assert(raw[a] != raw[b]);
            }
        }
        lemma_sorted_by_distinct(raw, ranking::<String>(), example_itself());
        let sorted = sorted_by(raw, ranking::<String>());
        assert(examples_distinct(sorted)) by {
            assert forall|a: int, b: int| 0 <= a < b < sorted.len() implies sorted[a]
                != sorted[b] by {
                assert(example_itself()(sorted[a]) != example_itself()(sorted[b]));
            }
        }
    }
}

/// In the report of any capture, every conflict is an overlap of more than
/// one second.
pub proof fn lemma_reported_conflicts_exceed_threshold(
    s: AnalyzerView,
    path: Seq<char>,
    input_bytes: u64,
)
    ensures
        ({
            let r = report_of(s, path, input_bytes);
            forall|k: int|
                0 <= k < r.conflicts.len() ==> (#[trigger] r.conflicts[k]).overlap_duration_us
                    > CONFLICT_MIN_OVERLAP_US
        }),
{
    let r = report_of(s, path, input_bytes);
    let artnet = conflicts_of(s.artnet);
    let sacn = conflicts_of(s.sacn);
    lemma_conflicts_exceed_threshold(s.artnet);
    lemma_conflicts_exceed_threshold(s.sacn);
    lemma_sorted_by_members(artnet + sacn, ranking::<ConflictSummary>());
    assert forall|k: int| 0 <= k < r.conflicts.len() implies (
    #[trigger] r.conflicts[k]).overlap_duration_us > CONFLICT_MIN_OVERLAP_US by {
        let c = r.conflicts[k];
        assert(r.conflicts.contains(c));
        assert((artnet + sacn).contains(c));
        let n = choose|n: int| 0 <= n < (artnet + sacn).len() && (artnet + sacn)[n] == c;
        if n < artnet.len() {
            assert(artnet[n] == c);
        } else {
            assert(sacn[n - artnet.len()] == c);
        }
    }
}

/// In the report of any capture, every pair of Art-Net sources of a
/// universe that overlap for more than one second has a record, and so has
/// every such pair of sACN sources.
pub proof fn lemma_reported_conflicts_are_complete(
    events: Seq<PacketEventView>,
    path: Seq<char>,
    input_bytes: u64,
    artnet: bool,
    e: int,
    i: int,
    j: int,
)
    requires
        ({
            let s = state_after(events);
            let m = if artnet {
                s.artnet
            } else {
                s.sacn
            };
            &&& 0 <= e < m.len()
            &&& 0 <= i < j < compared_spans(m[e].1).len()
            &&& conflicting(compared_spans(m[e].1)[i], compared_spans(m[e].1)[j])
        }),
    ensures
        ({
            let s = state_after(events);
            let m = if artnet {
                s.artnet
            } else {
                s.sacn
            };
            let record = conflict_record(
                m[e].0,
                compared_spans(m[e].1)[i],
                compared_spans(m[e].1)[j],
            );
            &&& report_of(s, path, input_bytes).conflicts.contains(record)
            &&& conflicts_of(m).to_multiset().count(record) == 1
        }),
{
    let s = state_after(events);
    let m = if artnet {
        s.artnet
    } else {
        s.sacn
    };
    lemma_state_after_ok(events);
    lemma_conflicting_pair_is_reported(m, e, i, j);
    lemma_conflict_is_reported_once(m, e, i, j);
    let record = conflict_record(m[e].0, compared_spans(m[e].1)[i], compared_spans(m[e].1)[j]);
    let both = conflicts_of(s.artnet) + conflicts_of(s.sacn);
    lemma_sorted_by_members(both, ranking::<ConflictSummary>());
    let n = choose|n: int| 0 <= n < conflicts_of(m).len() && conflicts_of(m)[n] == record;
    if artnet {
        assert(both[n] == record);
    } else {
        assert(both[conflicts_of(s.artnet).len() + n] == record);
    }
    assert(both.contains(record));
    assert(sorted_by(both, ranking::<ConflictSummary>()).contains(record));
    assert(report_of(s, path, input_bytes).conflicts == sorted_by(
        both,
        ranking::<ConflictSummary>(),
    ));
}

} // verus!
