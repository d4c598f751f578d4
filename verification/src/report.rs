//! The report: what an analysis says of a capture.
//!
//! Times are whole microseconds and rates are exact fractions, so that a
//! report is the same on every machine.

use crate::order::{key_le_exec, Ranked, SortKey};
use crate::text::{optional_text, text_eq, texts_of};
use vstd::prelude::*;
use vstd::string::*;

verus! {

/// Version of the report layout.
pub const REPORT_VERSION: u32 = 1;

/// The time a report bears when the capture has none.
pub const DEFAULT_GENERATED_AT: &'static str = "1970-01-01T00:00:00Z";

/// Name under which reports are written.
pub const TOOL_NAME: &'static str = "liveshark";

/// Version of the tool that writes reports.
pub const TOOL_VERSION: &'static str = "0.1.0";

/// An exact fraction. `den` is never zero in a report.
#[derive(Debug, Clone, Copy, PartialEq, Eq, Structural)]
pub struct Ratio {
    pub num: u128,
    pub den: u128,
}

/// The tool that wrote a report.
#[derive(Debug, Clone)]
pub struct ToolInfo {
    pub name: String,
    pub version: String,
}

/// The capture that a report is about.
#[derive(Debug, Clone)]
pub struct InputInfo {
    pub path: String,
    pub bytes: u64,
}

/// The capture as a whole.
#[derive(Debug, Clone)]
pub struct CaptureSummary {
    pub packets_total: u64,
    /// Time of the earliest packet, RFC 3339.
    pub time_start: Option<String>,
    /// Time of the latest packet, RFC 3339.
    pub time_end: Option<String>,
}

/// A source of a universe.
#[derive(Debug, Clone)]
pub struct SourceSummary {
    pub source_ip: String,
    /// sACN component identifier.
    pub cid: Option<String>,
    /// sACN source name.
    pub source_name: Option<String>,
}

/// What was measured of one universe of one protocol.
#[derive(Debug, Clone)]
pub struct UniverseSummary {
    pub universe: u16,
    /// "artnet" or "sacn".
    pub proto: String,
    /// Sources seen on the universe, by address.
    pub sources: Vec<SourceSummary>,
    /// Frames per second over the last five seconds of the universe.
    pub fps: Option<Ratio>,
    pub frames_count: u64,
    /// Frames lost within the last ten seconds, by sequence numbers.
    pub loss_packets: Option<u64>,
    /// Lost frames over lost and received frames.
    pub loss_rate: Option<Ratio>,
    pub burst_count: Option<u64>,
    pub max_burst_len: Option<u64>,
    /// Mean change of the inter-arrival time, in microseconds.
    pub jitter_us: Option<u64>,
    /// Not measured; always absent.
    pub dup_packets: Option<u64>,
    /// Not measured; always absent.
    pub reordered_packets: Option<u64>,
}

/// What was measured of one UDP flow.
#[derive(Debug, Clone)]
pub struct FlowSummary {
    /// Always "udp".
    pub app_proto: String,
    pub src: String,
    pub dst: String,
    /// Most packets seen within one second.
    pub pps: Option<u64>,
    /// Most payload bytes seen within one second.
    pub bps: Option<u64>,
    /// Highest ten-second mean change of the inter-arrival time, in microseconds.
    pub iat_jitter_us: Option<u64>,
    /// Longest inter-arrival time, rounded to milliseconds.
    pub max_iat_ms: Option<u64>,
    /// As `pps`, for flows that last a second or more.
    pub pps_peak_1s: Option<u64>,
    /// As `bps`, for flows that last a second or more.
    pub bps_peak_1s: Option<u64>,
}

/// Two sources that sent to one universe during the same time.
#[derive(Debug, Clone)]
pub struct ConflictSummary {
    pub universe: u16,
    /// The two sources, in ascending order.
    pub sources: Vec<String>,
    /// For how long both sources were active, in microseconds.
    pub overlap_duration_us: u64,
    /// Reserved; always empty.
    pub affected_channels: Vec<u16>,
    pub severity: String,
    /// The overlap, in microseconds.
    pub conflict_score: u64,
}

/// A violation of a protocol, counted.
#[derive(Debug, Clone)]
pub struct Violation {
    pub id: String,
    /// "error" or "warning".
    pub severity: String,
    pub message: String,
    pub count: u64,
    /// Up to three different examples.
    pub examples: Vec<String>,
}

/// The violations of one protocol.
#[derive(Debug, Clone)]
pub struct ComplianceSummary {
    pub protocol: String,
    /// Kept at 100.
    pub compliance_percentage: u8,
    pub violations: Vec<Violation>,
}

/// The report of an analysis.
#[derive(Debug, Clone)]
pub struct Report {
    pub report_version: u32,
    pub tool: ToolInfo,
    /// RFC 3339.
    pub generated_at: String,
    pub input: InputInfo,
    pub capture_summary: Option<CaptureSummary>,
    pub universes: Vec<UniverseSummary>,
    pub flows: Vec<FlowSummary>,
    pub conflicts: Vec<ConflictSummary>,
    pub compliance: Vec<ComplianceSummary>,
}

/// The view of `ToolInfo`: its texts as characters, its lists as sequences.
pub struct ToolInfoView {
    pub name: Seq<char>,
    pub version: Seq<char>,
}

/// The view of `InputInfo`: its texts as characters, its lists as sequences.
pub struct InputInfoView {
    pub path: Seq<char>,
    pub bytes: u64,
}

/// The view of `CaptureSummary`: its texts as characters, its lists as sequences.
pub struct CaptureSummaryView {
    pub packets_total: u64,
    pub time_start: Option<Seq<char>>,
    pub time_end: Option<Seq<char>>,
}

/// The view of `SourceSummary`: its texts as characters, its lists as sequences.
pub struct SourceSummaryView {
    pub source_ip: Seq<char>,
    pub cid: Option<Seq<char>>,
    pub source_name: Option<Seq<char>>,
}

/// The view of `UniverseSummary`: its texts as characters, its lists as sequences.
pub struct UniverseSummaryView {
    pub universe: u16,
    pub proto: Seq<char>,
    pub sources: Seq<SourceSummaryView>,
    pub fps: Option<Ratio>,
    pub frames_count: u64,
    pub loss_packets: Option<u64>,
    pub loss_rate: Option<Ratio>,
    pub burst_count: Option<u64>,
    pub max_burst_len: Option<u64>,
    pub jitter_us: Option<u64>,
    pub dup_packets: Option<u64>,
    pub reordered_packets: Option<u64>,
}

/// The view of `FlowSummary`: its texts as characters, its lists as sequences.
pub struct FlowSummaryView {
    pub app_proto: Seq<char>,
    pub src: Seq<char>,
    pub dst: Seq<char>,
    pub pps: Option<u64>,
    pub bps: Option<u64>,
    pub iat_jitter_us: Option<u64>,
    pub max_iat_ms: Option<u64>,
    pub pps_peak_1s: Option<u64>,
    pub bps_peak_1s: Option<u64>,
}

/// The view of `ConflictSummary`: its texts as characters, its lists as sequences.
pub struct ConflictSummaryView {
    pub universe: u16,
    pub sources: Seq<Seq<char>>,
    pub overlap_duration_us: u64,
    pub affected_channels: Seq<u16>,
    pub severity: Seq<char>,
    pub conflict_score: u64,
}

/// The view of `Violation`: its texts as characters, its lists as sequences.
pub struct ViolationView {
    pub id: Seq<char>,
    pub severity: Seq<char>,
    pub message: Seq<char>,
    pub count: u64,
    pub examples: Seq<Seq<char>>,
}

/// The view of `ComplianceSummary`: its texts as characters, its lists as sequences.
pub struct ComplianceSummaryView {
    pub protocol: Seq<char>,
    pub compliance_percentage: u8,
    pub violations: Seq<ViolationView>,
}

/// The view of `Report`: its texts as characters, its lists as sequences.
pub struct ReportView {
    pub report_version: u32,
    pub tool: ToolInfoView,
    pub generated_at: Seq<char>,
    pub input: InputInfoView,
    pub capture_summary: Option<CaptureSummaryView>,
    pub universes: Seq<UniverseSummaryView>,
    pub flows: Seq<FlowSummaryView>,
    pub conflicts: Seq<ConflictSummaryView>,
    pub compliance: Seq<ComplianceSummaryView>,
}

/// The view of each item, in order.
pub open spec fn views_of<T: View>(v: Seq<T>) -> Seq<T::V> {
    Seq::new(v.len(), |i: int| v[i]@)
}

impl View for ToolInfo {
    type V = ToolInfoView;

    open spec fn view(&self) -> ToolInfoView {
        ToolInfoView { name: self.name@, version: self.version@ }
    }
}

impl View for InputInfo {
    type V = InputInfoView;

    open spec fn view(&self) -> InputInfoView {
        InputInfoView { path: self.path@, bytes: self.bytes }
    }
}

impl View for CaptureSummary {
    type V = CaptureSummaryView;

    open spec fn view(&self) -> CaptureSummaryView {
        CaptureSummaryView {
            packets_total: self.packets_total,
            time_start: optional_text(self.time_start),
            time_end: optional_text(self.time_end),
        }
    }
}

impl View for SourceSummary {
    type V = SourceSummaryView;

    open spec fn view(&self) -> SourceSummaryView {
        SourceSummaryView {
            source_ip: self.source_ip@,
            cid: optional_text(self.cid),
            source_name: optional_text(self.source_name),
        }
    }
}

impl View for UniverseSummary {
    type V = UniverseSummaryView;

    open spec fn view(&self) -> UniverseSummaryView {
        UniverseSummaryView {
            universe: self.universe,
            proto: self.proto@,
            sources: views_of(self.sources@),
            fps: self.fps,
            frames_count: self.frames_count,
            loss_packets: self.loss_packets,
            loss_rate: self.loss_rate,
            burst_count: self.burst_count,
            max_burst_len: self.max_burst_len,
            jitter_us: self.jitter_us,
            dup_packets: self.dup_packets,
            reordered_packets: self.reordered_packets,
        }
    }
}

impl View for FlowSummary {
    type V = FlowSummaryView;

    open spec fn view(&self) -> FlowSummaryView {
        FlowSummaryView {
            app_proto: self.app_proto@,
            src: self.src@,
            dst: self.dst@,
            pps: self.pps,
            bps: self.bps,
            iat_jitter_us: self.iat_jitter_us,
            max_iat_ms: self.max_iat_ms,
            pps_peak_1s: self.pps_peak_1s,
            bps_peak_1s: self.bps_peak_1s,
        }
    }
}

impl View for ConflictSummary {
    type V = ConflictSummaryView;

    open spec fn view(&self) -> ConflictSummaryView {
        ConflictSummaryView {
            universe: self.universe,
            sources: texts_of(self.sources@),
            overlap_duration_us: self.overlap_duration_us,
            affected_channels: self.affected_channels@,
            severity: self.severity@,
            conflict_score: self.conflict_score,
        }
    }
}

impl View for Violation {
    type V = ViolationView;

    open spec fn view(&self) -> ViolationView {
        ViolationView {
            id: self.id@,
            severity: self.severity@,
            message: self.message@,
            count: self.count,
            examples: texts_of(self.examples@),
        }
    }
}

impl View for ComplianceSummary {
    type V = ComplianceSummaryView;

    open spec fn view(&self) -> ComplianceSummaryView {
        ComplianceSummaryView {
            protocol: self.protocol@,
            compliance_percentage: self.compliance_percentage,
            violations: views_of(self.violations@),
        }
    }
}

/// The view of an optional capture summary.
pub open spec fn optional_capture(c: Option<CaptureSummary>) -> Option<CaptureSummaryView> {
    match c {
        Some(s) => Some(s@),
        None => None,
    }
}

impl View for Report {
    type V = ReportView;

    open spec fn view(&self) -> ReportView {
        ReportView {
            report_version: self.report_version,
            tool: self.tool@,
            generated_at: self.generated_at@,
            input: self.input@,
            capture_summary: optional_capture(self.capture_summary),
            universes: views_of(self.universes@),
            flows: views_of(self.flows@),
            conflicts: views_of(self.conflicts@),
            compliance: views_of(self.compliance@),
        }
    }
}

/// The texts joined by commas.
pub open spec fn joined(parts: Seq<Seq<char>>) -> Seq<char>
    decreases parts.len(),
{
    if parts.len() == 0 {
        Seq::empty()
    } else if parts.len() == 1 {
        parts[0]
    } else {
        joined(parts.drop_last()) + seq![','] + parts.last()
    }
}

/// The texts joined by commas.
pub fn join_with_commas(parts: &Vec<String>) -> (s: String)
    ensures
        s@ == joined(texts_of(parts@)),
{
    let mut s = String::new();
    let mut i: usize = 0;
    assert(texts_of(parts@).take(0) =~= Seq::<Seq<char>>::empty());
    while i < parts.len()
        invariant
            i <= parts.len(),
            s@ == joined(texts_of(parts@).take(i as int)),
        decreases parts.len() - i,
    {
        proof {
            let next = texts_of(parts@).take(i + 1);
            assert(next.drop_last() =~= texts_of(parts@).take(i as int));
            assert(next.last() == parts@[i as int]@);
            if i == 0 {
                assert(next[0] == parts@[0]@);
            }
        }
        let ghost before = s@;
        if i > 0 {
            s.push(',');
        }
        s.append(parts[i].as_str());
        proof {
            if i == 0 {
                assert(s@ =~= parts@[0]@);
            } else {
                assert(s@ =~= before + seq![','] + parts@[i as int]@);
            }
        }
        i += 1;
    }
    assert(texts_of(parts@).take(parts.len() as int) =~= texts_of(parts@));
    s
}

/// Errors come first, then warnings, then anything else.
pub open spec fn severity_rank_of(severity: Seq<char>) -> u8 {
    if severity == "error"@ {
        0
    } else if severity == "warning"@ {
        1
    } else {
        2
    }
}

/// The rank of a severity.
pub fn severity_rank(severity: &str) -> (r: u8)
    ensures
        r == severity_rank_of(severity@),
{
    if text_eq(severity, "error") {
        0
    } else if text_eq(severity, "warning") {
        1
    } else {
        2
    }
}

impl Ranked for SourceSummary {
    /// Sources are listed by address.
    open spec fn rank_of(v: SourceSummaryView) -> SortKey {
        SortKey { rank: 0, major: v.source_ip, minor: ""@ }
    }

    fn ranks_up_to(&self, other: &Self) -> (r: bool) {
        key_le_exec(0, self.source_ip.as_str(), "", 0, other.source_ip.as_str(), "")
    }
}

impl Ranked for UniverseSummary {
    /// Universes are listed by number, then by protocol.
    open spec fn rank_of(v: UniverseSummaryView) -> SortKey {
        SortKey { rank: v.universe as int, major: v.proto, minor: ""@ }
    }

    fn ranks_up_to(&self, other: &Self) -> (r: bool) {
        key_le_exec(
            self.universe as u64,
            self.proto.as_str(),
            "",
            other.universe as u64,
            other.proto.as_str(),
            "",
        )
    }
}

impl Ranked for FlowSummary {
    /// Flows are listed by source endpoint, then by destination endpoint.
    open spec fn rank_of(v: FlowSummaryView) -> SortKey {
        SortKey { rank: 0, major: v.src, minor: v.dst }
    }

    fn ranks_up_to(&self, other: &Self) -> (r: bool) {
        key_le_exec(0, self.src.as_str(), self.dst.as_str(), 0, other.src.as_str(), other.dst.as_str())
    }
}

impl Ranked for ConflictSummary {
    /// Conflicts are listed by universe, then by their sources joined by commas.
    open spec fn rank_of(v: ConflictSummaryView) -> SortKey {
        SortKey { rank: v.universe as int, major: joined(v.sources), minor: ""@ }
    }

    fn ranks_up_to(&self, other: &Self) -> (r: bool) {
        let a = join_with_commas(&self.sources);
        let b = join_with_commas(&other.sources);
        key_le_exec(self.universe as u64, a.as_str(), "", other.universe as u64, b.as_str(), "")
    }
}

impl Ranked for Violation {
    /// Violations are listed by severity, then by identifier.
    open spec fn rank_of(v: ViolationView) -> SortKey {
        SortKey { rank: severity_rank_of(v.severity) as int, major: v.id, minor: ""@ }
    }

    fn ranks_up_to(&self, other: &Self) -> (r: bool) {
        key_le_exec(
            severity_rank(self.severity.as_str()) as u64,
            self.id.as_str(),
            "",
            severity_rank(other.severity.as_str()) as u64,
            other.id.as_str(),
            "",
        )
    }
}

impl Ranked for ComplianceSummary {
    /// Protocols are listed by name.
    open spec fn rank_of(v: ComplianceSummaryView) -> SortKey {
        SortKey { rank: 0, major: v.protocol, minor: ""@ }
    }

    fn ranks_up_to(&self, other: &Self) -> (r: bool) {
        key_le_exec(0, self.protocol.as_str(), "", 0, other.protocol.as_str(), "")
    }
}

/// The report of a capture of which nothing is known but its path and size.
pub open spec fn stub_report(input_path: Seq<char>, input_bytes: u64) -> ReportView {
    ReportView {
        report_version: 1,
        tool: ToolInfoView { name: "liveshark"@, version: "0.1.0"@ },
        generated_at: "1970-01-01T00:00:00Z"@,
        input: InputInfoView { path: input_path, bytes: input_bytes },
        capture_summary: None,
        universes: Seq::empty(),
        flows: Seq::empty(),
        conflicts: Seq::empty(),
        compliance: Seq::empty(),
    }
}

/// A report with the base fields filled in and nothing analysed.
pub fn make_stub_report(input_path: &str, input_bytes: u64) -> (r: Report)
    ensures
        r@ == stub_report(input_path@, input_bytes),
{
    let r = Report {
        report_version: REPORT_VERSION,
        tool: ToolInfo { name: String::from_str(TOOL_NAME), version: String::from_str(TOOL_VERSION) },
        generated_at: String::from_str(DEFAULT_GENERATED_AT),
        input: InputInfo { path: String::from_str(input_path), bytes: input_bytes },
        capture_summary: None,
        universes: Vec::new(),
        flows: Vec::new(),
        conflicts: Vec::new(),
        compliance: Vec::new(),
    };
    proof {
        assert(r@.universes =~= Seq::empty());
        assert(r@.flows =~= Seq::empty());
        assert(r@.conflicts =~= Seq::empty());
        assert(r@.compliance =~= Seq::empty());
    }
    r
}

} // verus!
