//! UDP decoding: from a captured frame to endpoints and payload.

pub mod error;
pub mod layout;
pub mod parser;
pub mod reader;
