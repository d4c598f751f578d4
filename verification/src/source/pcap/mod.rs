//! What the analysis needs to know of pcap and pcapng files.

pub mod error;
pub mod layout;
pub mod reader;
