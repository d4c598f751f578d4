//! Protocol decoders.
//!
//! Each protocol is split the same way: `layout` holds the wire offsets,
//! `reader` the bounds-checked accessors, `parser` the frame decoder and
//! `error` the typed failures.

pub mod artnet;
pub mod common;
pub mod sacn;
