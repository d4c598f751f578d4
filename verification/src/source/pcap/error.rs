//! Failures of reading a capture file.

use vstd::prelude::*;
use vstd::string::*;

verus! {

/// Why a capture file could not be read.
#[derive(Debug, Clone)]
pub enum PcapSourceError {
    /// The file could not be read; holds the words of the system.
    Io(String),
    /// The file is not a well-formed capture; `context` says what was being
    /// done, `message` what went wrong.
    Pcap { context: &'static str, message: String },
}

/// The view of `PcapSourceError`: its texts as characters, its lists as sequences.
pub enum PcapSourceErrorView {
    Io(Seq<char>),
    Pcap { context: Seq<char>, message: Seq<char> },
}

impl View for PcapSourceError {
    type V = PcapSourceErrorView;

    open spec fn view(&self) -> PcapSourceErrorView {
        match self {
            PcapSourceError::Io(m) => PcapSourceErrorView::Io(m@),
            PcapSourceError::Pcap { context, message } => PcapSourceErrorView::Pcap {
                context: context@,
                message: message@,
            },
        }
    }
}

impl PcapSourceErrorView {
    /// The text of the error.
    pub open spec fn message(self) -> Seq<char> {
        match self {
            PcapSourceErrorView::Io(m) => "I/O error: "@ + m,
            PcapSourceErrorView::Pcap { context, message } => "PCAP parse error ("@ + context
                + "): "@ + message,
        }
    }
}

impl PcapSourceError {
    /// Writes the text of the error.
    pub fn to_string(&self) -> (s: String)
        ensures
            s@ == self@.message(),
    {
        match self {
            PcapSourceError::Io(m) => {
                let mut s = String::from_str("I/O error: ");
                s.append(m.as_str());
                s
            },
            PcapSourceError::Pcap { context, message } => {
                let mut s = String::from_str("PCAP parse error (");
                s.append(context);
                s.append("): ");
                s.append(message.as_str());
                s
            },
        }
    }
}

} // verus!
