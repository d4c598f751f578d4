//! Offline analysis of show-control lighting traffic (Art-Net and sACN over UDP).

pub mod address;
pub mod analysis;
pub mod cli;
pub mod fixtures;
pub mod order;
pub mod protocols;
pub mod report;
pub mod source;
pub mod text;
pub mod time_text;

pub use analysis::{analyze_source, AnalysisError, Analyzer};
pub use source::{LinkType, PacketEvent, SourceError};
pub use report::{
    make_stub_report, CaptureSummary, ComplianceSummary, ConflictSummary, FlowSummary, InputInfo,
    Ratio, Report, SourceSummary, ToolInfo, UniverseSummary, Violation, DEFAULT_GENERATED_AT,
    REPORT_VERSION,
};
