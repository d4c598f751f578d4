//! sACN (E1.31) decoding: the DMX data packet with validation of the ACN
//! packet identifier, the layer vectors, the start code and the property
//! value count.

pub mod error;
pub mod layout;
pub mod parser;
pub mod reader;
