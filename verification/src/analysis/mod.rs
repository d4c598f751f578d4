//! The analysis engine: every packet of a capture is decoded and taken into
//! the statistics, and at the end of the capture the statistics become the
//! report.

pub mod compliance;
pub mod conflicts;
pub mod dmx;
pub mod flows;
pub mod fps;
pub mod guarantees;
pub mod loss;
pub mod notes;
pub mod table;
pub mod udp;
pub mod universes;
pub mod window;

use crate::order::{ranking, sort_ranked, sorted_by};
use crate::protocols::artnet::parser::{artdmx_of, parse_artdmx, ArtDmx, ArtDmxView};
use crate::protocols::sacn::parser::{parse_sacn_dmx, sacn_of, SacnDmx, SacnDmxView};
use crate::report::{
    make_stub_report, stub_report, views_of, CaptureSummary, CaptureSummaryView, ComplianceSummary,
    ComplianceSummaryView, ConflictSummary, Report, ReportView, UniverseSummary,
};
use crate::source::{
    clamp_ts, ts_in_range, usable_ts, LinkType, PacketEvent, PacketEventView, SourceError,
    SourceErrorView,
};
use crate::time_text::{rfc3339_of, ts_to_rfc3339};
use compliance::{compliance_step, final_compliance, finalize_compliance, record_violation};
use conflicts::{build_conflicts, conflicts_of};
use dmx::{
    image_of, overlay, state_step, DmxFrame, DmxFrameView, DmxProtocol, DmxStateStore, DmxStore,
    StateKey,
};
use flows::{
    add_flow_stats, build_flow_summaries, flow_summaries, flows_step, flows_wf, key_of_packet,
    FlowKeyView, FlowStatsView, FlowTable,
};
use notes::{
    artnet_note, artnet_note_of, artnet_port_note, artnet_port_note_of, example_of, example_text,
    ports_detail, ports_text, sacn_note, sacn_note_of, sacn_port_note, sacn_port_note_of, udp_note,
    udp_note_of, NoteView,
};
use table::Table;
use udp::parser::{parse_udp_packet, udp_of, UdpPacket, UdpPacketView};
use universes::{
    add_artnet_frame, add_sacn_frame, artnet_source_text, artnet_summary, bounds_step,
    build_universe_summaries, sacn_source_text, sacn_summary, universe_summaries, universes_step,
    universes_wf, update_ts_bounds, UniverseStatsView, UniverseTable,
};
use vstd::prelude::*;
use vstd::string::*;
use window::sat_add;

verus! {

/// The UDP port of Art-Net.
pub const ARTNET_PORT: u16 = 6454;

/// The UDP port of sACN.
pub const SACN_PORT: u16 = 5568;

/// Failures of the analysis of a capture file. The analysis of packets
/// cannot fail; reading them can.
#[derive(Debug, Clone)]
pub enum AnalysisError {
    /// The capture could not be read; holds the words of the system.
    Io(String),
    /// The source of packets failed.
    Source(SourceError),
}

/// The view of `AnalysisError`: its texts as characters, its lists as sequences.
pub enum AnalysisErrorView {
    Io(Seq<char>),
    Source(SourceErrorView),
}

impl View for AnalysisError {
    type V = AnalysisErrorView;

    open spec fn view(&self) -> AnalysisErrorView {
        match self {
            AnalysisError::Io(m) => AnalysisErrorView::Io(m@),
            AnalysisError::Source(e) => AnalysisErrorView::Source(e@),
        }
    }
}

impl AnalysisErrorView {
    /// The text of the error.
    pub open spec fn message(self) -> Seq<char> {
        match self {
            AnalysisErrorView::Io(m) => "I/O error: "@ + m,
            AnalysisErrorView::Source(e) => "Source error: "@ + e.message(),
        }
    }
}

impl AnalysisError {
    /// Writes the text of the error.
    pub fn to_string(&self) -> (s: String)
        ensures
            s@ == self@.message(),
    {
        match self {
            AnalysisError::Io(m) => {
                let mut s = String::from_str("I/O error: ");
                s.append(m.as_str());
                s
            },
            AnalysisError::Source(e) => {
                let mut s = String::from_str("Source error: ");
                let inner = e.to_string();
                s.append(inner.as_str());
                s
            },
        }
    }
}

/// The state of an analysis: what the packets seen so far have told.
pub struct Analyzer {
    packets_total: u64,
    first_ts: Option<u64>,
    last_ts: Option<u64>,
    flow_stats: FlowTable,
    artnet_stats: UniverseTable,
    sacn_stats: UniverseTable,
    dmx_store: DmxStore,
    dmx_state: DmxStateStore,
    compliance: Table<ComplianceSummary>,
}

/// The view of `Analyzer`: every table and log as a sequence.
pub struct AnalyzerView {
    pub packets_total: u64,
    pub first_ts: Option<u64>,
    pub last_ts: Option<u64>,
    pub flows: Seq<(FlowKeyView, FlowStatsView)>,
    pub artnet: Seq<(u16, UniverseStatsView)>,
    pub sacn: Seq<(u16, UniverseStatsView)>,
    pub frames: Seq<DmxFrameView>,
    pub states: Seq<(StateKey, Seq<u8>)>,
    pub compliance: Seq<(Seq<char>, ComplianceSummaryView)>,
}

impl View for Analyzer {
    type V = AnalyzerView;

    closed spec fn view(&self) -> AnalyzerView {
        AnalyzerView {
            packets_total: self.packets_total,
            first_ts: self.first_ts,
            last_ts: self.last_ts,
            flows: self.flow_stats@,
            artnet: self.artnet_stats@,
            sacn: self.sacn_stats@,
            frames: self.dmx_store@,
            states: self.dmx_state@,
            compliance: self.compliance@,
        }
    }
}

/// The state before the first packet.
pub open spec fn initial_state() -> AnalyzerView {
    AnalyzerView {
        packets_total: 0,
        first_ts: None,
        last_ts: None,
        flows: Seq::empty(),
        artnet: Seq::empty(),
        sacn: Seq::empty(),
        frames: Seq::empty(),
        states: Seq::empty(),
        compliance: Seq::empty(),
    }
}

/// The compliance record with one more violation, described by a note.
pub open spec fn noted(
    c: Seq<(Seq<char>, ComplianceSummaryView)>,
    note: NoteView,
    example: Seq<char>,
) -> Seq<(Seq<char>, ComplianceSummaryView)> {
    compliance_step(c, note.protocol, note.id, note.severity, note.message, example)
}

/// The state after an ArtDMX frame: a port warning where neither port is the
/// Art-Net port, the frame in the statistics of its universe, its data
/// merged into the image of its source, and the image in the frame log.
pub open spec fn artnet_frame_step(
    s: AnalyzerView,
    udp: UdpPacketView,
    art: ArtDmxView,
    ts: Option<u64>,
) -> AnalyzerView {
    let id = artnet_source_text(udp.src_ip, udp.src_port);
    let key = StateKey { universe: art.universe, source: id, protocol: DmxProtocol::ArtNet };
    AnalyzerView {
        compliance: if udp.src_port != ARTNET_PORT && udp.dst_port != ARTNET_PORT {
            noted(
                s.compliance,
                artnet_port_note(),
                example_text(ports_detail(udp), Some((udp.src_ip, udp.src_port)), ts),
            )
        } else {
            s.compliance
        },
        artnet: universes_step(
            s.artnet,
            art.universe,
            id,
            artnet_summary(udp.src_ip),
            art.sequence,
            ts,
        ),
        states: state_step(s.states, key, art.slots),
        frames: s.frames.push(
            DmxFrameView {
                universe: art.universe,
                timestamp: ts,
                source_id: id,
                protocol: DmxProtocol::ArtNet,
                slots: overlay(image_of(s.states, key), art.slots),
            },
        ),
        ..s
    }
}

/// The state after an sACN frame, as for Art-Net.
pub open spec fn sacn_frame_step(
    s: AnalyzerView,
    udp: UdpPacketView,
    frame: SacnDmxView,
    ts: Option<u64>,
) -> AnalyzerView {
    let id = sacn_source_text(frame.cid, udp.src_ip, udp.src_port);
    let key = StateKey { universe: frame.universe, source: id, protocol: DmxProtocol::Sacn };
    AnalyzerView {
        compliance: if udp.src_port != SACN_PORT && udp.dst_port != SACN_PORT {
            noted(
                s.compliance,
                sacn_port_note(),
                example_text(ports_detail(udp), Some((udp.src_ip, udp.src_port)), ts),
            )
        } else {
            s.compliance
        },
        sacn: universes_step(
            s.sacn,
            frame.universe,
            id,
            sacn_summary(udp.src_ip, frame.cid, frame.source_name),
            frame.sequence,
            ts,
        ),
        states: state_step(s.states, key, frame.slots),
        frames: s.frames.push(
            DmxFrameView {
                universe: frame.universe,
                timestamp: ts,
                source_id: id,
                protocol: DmxProtocol::Sacn,
                slots: overlay(image_of(s.states, key), frame.slots),
            },
        ),
        ..s
    }
}

/// The state after the payload was offered to the Art-Net decoder: a frame
/// is taken in, a payload that is not ArtDMX changes nothing, and an error
/// becomes a violation.
pub open spec fn artnet_offer(s: AnalyzerView, udp: UdpPacketView, ts: Option<u64>) -> AnalyzerView {
    match artdmx_of(udp.payload) {
        Ok(Some(art)) => artnet_frame_step(s, udp, art, ts),
        Ok(None) => s,
        Err(e) => AnalyzerView {
            compliance: noted(
                s.compliance,
                artnet_note(e),
                example_text(artnet_note(e).detail, Some((udp.src_ip, udp.src_port)), ts),
            ),
            ..s
        },
    }
}

/// The state after the payload was offered to the sACN decoder.
pub open spec fn sacn_offer(s: AnalyzerView, udp: UdpPacketView, ts: Option<u64>) -> AnalyzerView {
    match sacn_of(udp.payload) {
        Ok(Some(frame)) => sacn_frame_step(s, udp, frame, ts),
        Ok(None) => s,
        Err(e) => AnalyzerView {
            compliance: noted(
                s.compliance,
                sacn_note(e),
                example_text(sacn_note(e).detail, Some((udp.src_ip, udp.src_port)), ts),
            ),
            ..s
        },
    }
}

/// The state after a UDP datagram: its payload is offered to the Art-Net
/// decoder and, unless that decoded a frame, to the sACN decoder; whatever
/// they made of it, the datagram counts for its flow.
pub open spec fn udp_step(s: AnalyzerView, udp: UdpPacketView, ts: Option<u64>) -> AnalyzerView {
    let offered = if artdmx_of(udp.payload) is Ok && artdmx_of(udp.payload)->Ok_0 is Some {
        artnet_offer(s, udp, ts)
    } else {
        sacn_offer(artnet_offer(s, udp, ts), udp, ts)
    };
    AnalyzerView {
        flows: flows_step(offered.flows, key_of_packet(udp), udp.payload.len() as u64, ts),
        ..offered
    }
}

/// The state after one more packet. A capture time that cannot be reported
/// counts as unknown. A frame that holds no UDP datagram is counted and no
/// more; one that cannot be decoded is a violation.
#[verifier::opaque]
pub open spec fn analyzer_step(s: AnalyzerView, event: PacketEventView) -> AnalyzerView {
    let ts = usable_ts(event.ts);
    let counted = AnalyzerView {
        packets_total: sat_add(s.packets_total, 1),
        first_ts: bounds_step(s.first_ts, s.last_ts, ts).0,
        last_ts: bounds_step(s.first_ts, s.last_ts, ts).1,
        ..s
    };
    match udp_of(event.linktype, event.data) {
        Ok(Some(udp)) => udp_step(counted, udp, ts),
        Ok(None) => counted,
        Err(e) => AnalyzerView {
            compliance: noted(counted.compliance, udp_note(e), udp_note(e).detail),
            ..counted
        },
    }
}

/// The state after all packets of a capture, in capture order.
pub open spec fn state_after(events: Seq<PacketEventView>) -> AnalyzerView
    decreases events.len(),
{
    if events.len() == 0 {
        initial_state()
    } else {
        analyzer_step(state_after(events.drop_last()), events.last())
    }
}

/// The time that a report bears: that of the last packet, else that of the
/// first, else the default.
pub open spec fn generated_at_of(start: Option<Seq<char>>, end: Option<Seq<char>>) -> Seq<char> {
    match end {
        Some(e) => e,
        None => match start {
            Some(s) => s,
            None => "1970-01-01T00:00:00Z"@,
        },
    }
}

/// The report of a state.
///
/// Universes are listed by number and protocol, flows by endpoints,
/// conflicts by universe and sources, protocols of the compliance list by
/// name.
pub open spec fn report_of(s: AnalyzerView, path: Seq<char>, input_bytes: u64) -> ReportView {
    let time_start = rfc3339_of(s.first_ts);
    let time_end = rfc3339_of(s.last_ts);
    ReportView {
        generated_at: generated_at_of(time_start, time_end),
        capture_summary: Some(
            CaptureSummaryView { packets_total: s.packets_total, time_start, time_end },
        ),
        universes: sorted_by(
            universe_summaries(s.artnet, s.frames, DmxProtocol::ArtNet, "artnet"@)
                + universe_summaries(s.sacn, s.frames, DmxProtocol::Sacn, "sacn"@),
            ranking::<UniverseSummary>(),
        ),
        flows: flow_summaries(s.flows),
        conflicts: sorted_by(
            conflicts_of(s.artnet) + conflicts_of(s.sacn),
            ranking::<ConflictSummary>(),
        ),
        compliance: final_compliance(s.compliance),
        ..stub_report(path, input_bytes)
    }
}

fn append_all<T: View>(head: Vec<T>, tail: Vec<T>) -> (r: Vec<T>)
    ensures
        views_of(r@) == views_of(head@) + views_of(tail@),
{
    let mut out = head;
    let mut rest = tail;
    out.append(&mut rest);
    assert(views_of(out@) =~= views_of(head@) + views_of(tail@));
    out
}

impl Analyzer {
    /// The times that the statistics hold are in the range that can be
    /// reported. Every state that `new` and `process_packet` make is so.
    pub closed spec fn wf(&self) -> bool {
        &&& flows_wf(self.flow_stats@)
        &&& universes_wf(self.artnet_stats@)
        &&& universes_wf(self.sacn_stats@)
    }

    /// An analysis that has seen no packet.
    pub fn new() -> (r: Self)
        ensures
            r@ == initial_state(),
            r.wf(),
    {
        let r = Analyzer {
            packets_total: 0,
            first_ts: None,
            last_ts: None,
            flow_stats: FlowTable::new(),
            artnet_stats: UniverseTable::new(),
            sacn_stats: UniverseTable::new(),
            dmx_store: DmxStore::new(),
            dmx_state: DmxStateStore::new(),
            compliance: Table::new(),
        };
        assert(r@.compliance =~= Seq::empty());
        r
    }

    fn take_artnet(&mut self, udp: &UdpPacket<'_>, art: ArtDmx, ts: Option<u64>)
        requires
            old(self).wf(),
            ts_in_range(ts),
        ensures
            final(self)@ == artnet_frame_step(old(self)@, udp@, art@, ts),
            final(self).wf(),
    {
        if udp.src_port != ARTNET_PORT && udp.dst_port != ARTNET_PORT {
            let note = artnet_port_note_of();
            let example = example_of(ports_text(udp), Some((&udp.src_ip, udp.src_port)), ts);
            record_violation(
                &mut self.compliance,
                note.protocol,
                note.id,
                note.severity,
                note.message,
                example,
            );
        }
        let source_id = add_artnet_frame(
            &mut self.artnet_stats,
            art.universe,
            &udp.src_ip,
            udp.src_port,
            art.sequence,
            ts,
        );
        let slots = self.dmx_state.apply_partial(
            art.universe,
            source_id.clone(),
            DmxProtocol::ArtNet,
            art.slots.as_slice(),
        );
        self.dmx_store.push(
            DmxFrame {
                universe: art.universe,
                timestamp: ts,
                source_id,
                protocol: DmxProtocol::ArtNet,
                slots,
            },
        );
    }

    fn take_sacn(&mut self, udp: &UdpPacket<'_>, frame: SacnDmx, ts: Option<u64>)
        requires
            old(self).wf(),
            ts_in_range(ts),
        ensures
            final(self)@ == sacn_frame_step(old(self)@, udp@, frame@, ts),
            final(self).wf(),
    {
        if udp.src_port != SACN_PORT && udp.dst_port != SACN_PORT {
            let note = sacn_port_note_of();
            let example = example_of(ports_text(udp), Some((&udp.src_ip, udp.src_port)), ts);
            record_violation(
                &mut self.compliance,
                note.protocol,
                note.id,
                note.severity,
                note.message,
                example,
            );
        }
        let SacnDmx { universe, cid, source_name, sequence, slots } = frame;
        let source_id = add_sacn_frame(
            &mut self.sacn_stats,
            universe,
            &udp.src_ip,
            udp.src_port,
            cid,
            source_name,
            sequence,
            ts,
        );
        let image = self.dmx_state.apply_partial(
            universe,
            source_id.clone(),
            DmxProtocol::Sacn,
            slots.as_slice(),
        );
        self.dmx_store.push(
            DmxFrame {
                universe,
                timestamp: ts,
                source_id,
                protocol: DmxProtocol::Sacn,
                slots: image,
            },
        );
    }

    fn take_udp(&mut self, udp: &UdpPacket<'_>, ts: Option<u64>)
        requires
            old(self).wf(),
            ts_in_range(ts),
        ensures
            final(self)@ == udp_step(old(self)@, udp@, ts),
            final(self).wf(),
    {
        let mut decoded = false;
        match parse_artdmx(udp.payload) {
            Ok(Some(art)) => {
                decoded = true;
                self.take_artnet(udp, art, ts);
            },
            Ok(None) => {},
            Err(e) => {
                let note = artnet_note_of(&e);
                let example = example_of(note.detail, Some((&udp.src_ip, udp.src_port)), ts);
                record_violation(
                    &mut self.compliance,
                    note.protocol,
                    note.id,
                    note.severity,
                    note.message,
                    example,
                );
            },
        }
        if !decoded {
            match parse_sacn_dmx(udp.payload) {
                Ok(Some(frame)) => {
                    self.take_sacn(udp, frame, ts);
                },
                Ok(None) => {},
                Err(e) => {
                    let note = sacn_note_of(&e);
                    let example = example_of(note.detail, Some((&udp.src_ip, udp.src_port)), ts);
                    record_violation(
                        &mut self.compliance,
                        note.protocol,
                        note.id,
                        note.severity,
                        note.message,
                        example,
                    );
                },
            }
        }
        add_flow_stats(&mut self.flow_stats, udp, ts);
    }

    /// Takes one packet into the analysis.
    pub fn process_packet(&mut self, ts: Option<u64>, linktype: LinkType, data: &[u8])
        requires
            old(self).wf(),
        ensures
            final(self)@ == analyzer_step(
                old(self)@,
                PacketEventView { ts, linktype, data: data@ },
            ),
            final(self).wf(),
    {
        proof {
            reveal(analyzer_step);
        }
        let ts = clamp_ts(ts);
        self.packets_total = self.packets_total.saturating_add(1);
        update_ts_bounds(&mut self.first_ts, &mut self.last_ts, ts);
        match parse_udp_packet(linktype, data) {
            Ok(Some(udp)) => {
                self.take_udp(&udp, ts);
            },
            Ok(None) => {},
            Err(e) => {
                let note = udp_note_of(&e);
                record_violation(
                    &mut self.compliance,
                    note.protocol,
                    note.id,
                    note.severity,
                    note.message,
                    note.detail,
                );
            },
        }
    }

    /// Ends the analysis and gives the report of the capture at `path`,
    /// `input_bytes` bytes long.
    pub fn finish(self, path: &str, input_bytes: u64) -> (r: Report)
        ensures
            r@ == report_of(self@, path@, input_bytes),
    {
        let mut report = make_stub_report(path, input_bytes);
        let time_start = ts_to_rfc3339(self.first_ts);
        let time_end = ts_to_rfc3339(self.last_ts);
        report.generated_at = match &time_end {
            Some(end) => end.clone(),
            None => match &time_start {
                Some(start) => start.clone(),
                None => String::from_str(crate::report::DEFAULT_GENERATED_AT),
            },
        };
        report.capture_summary = Some(
            CaptureSummary { packets_total: self.packets_total, time_start, time_end },
        );
        let duration_us = match (self.first_ts, self.last_ts) {
            (Some(start), Some(end)) => if end > start {
                Some(end - start)
            } else {
                None
            },
            _ => None,
        };
        let conflicts = append_all(
            build_conflicts(&self.artnet_stats),
            build_conflicts(&self.sacn_stats),
        );
        report.conflicts = sort_ranked(conflicts);
        let universes = append_all(
            build_universe_summaries(
                &self.artnet_stats,
                &self.dmx_store,
                DmxProtocol::ArtNet,
                "artnet",
            ),
            build_universe_summaries(&self.sacn_stats, &self.dmx_store, DmxProtocol::Sacn, "sacn"),
        );
        report.universes = sort_ranked(universes);
        report.flows = build_flow_summaries(self.flow_stats, duration_us);
        report.compliance = finalize_compliance(self.compliance);
        report
    }
}

/// The items of a list of events, viewed.
pub open spec fn event_views(events: Seq<PacketEvent>) -> Seq<PacketEventView> {
    Seq::new(events.len(), |i: int| events[i]@)
}

/// Analyses a capture: takes its packets in capture order into a fresh
/// analysis and gives the report. `path` and `input_bytes` name the capture
/// in the report.
pub fn analyze_source(path: &str, input_bytes: u64, events: &[PacketEvent]) -> (r: Report)
    ensures
        r@ == report_of(state_after(event_views(events@)), path@, input_bytes),
{
    let mut analyzer = Analyzer::new();
    let ghost all = event_views(events@);
    let mut i: usize = 0;
    assert(all.take(0) =~= Seq::<PacketEventView>::empty());
    while i < events.len()
        invariant
            i <= events.len(),
            all == event_views(events@),
            analyzer.wf(),
            analyzer@ == state_after(all.take(i as int)),
        decreases events.len() - i,
    {
        proof {
            assert(all.take(i + 1).drop_last() =~= all.take(i as int));
            assert(all.take(i + 1).last() == events@[i as int]@);
        }
        let event = &events[i];
        analyzer.process_packet(event.ts, event.linktype, event.data.as_slice());
        i += 1;
    }
    assert(all.take(events.len() as int) =~= all);
    analyzer.finish(path, input_bytes)
}

} // verus!
