//! Art-Net decoding: the ArtDMX packet with strict validation of universe
//! and data length.

pub mod error;
pub mod layout;
pub mod parser;
pub mod reader;
