//! Bounds-checked access to an Art-Net payload.

use super::error::ArtNetError;
use super::layout;
use crate::protocols::common::{be16, le16, nonzero, optional_nonzero_u8, u16_from_be, u16_from_le};
use vstd::prelude::*;
use vstd::slice::slice_subrange;

verus! {

/// Bounds-checked access to an Art-Net payload.
pub struct ArtNetReader<'a> {
    payload: &'a [u8],
}

/// The bytes of `payload` in `[start, end)`, or how many bytes were needed.
pub open spec fn slice_of(payload: Seq<u8>, start: usize, end: usize) -> Result<
    Seq<u8>,
    ArtNetError,
> {
    if start <= end && end <= payload.len() {
        Ok(payload.subrange(start as int, end as int))
    } else {
        Err(ArtNetError::TooShort { needed: end, actual: payload.len() as usize })
    }
}

/// The byte at `offset`. The count of bytes needed stops at `usize::MAX`.
pub open spec fn byte_of(payload: Seq<u8>, offset: usize) -> Result<u8, ArtNetError> {
    if offset < payload.len() {
        Ok(payload[offset as int])
    } else {
        Err(
            ArtNetError::TooShort {
                needed: if offset < usize::MAX {
                    (offset + 1) as usize
                } else {
                    usize::MAX
                },
                actual: payload.len() as usize,
            },
        )
    }
}

/// Exactly two bytes, or the error that says two were needed.
pub open spec fn pair_of(payload: Seq<u8>, start: usize, end: usize) -> Result<
    (u8, u8),
    ArtNetError,
> {
    match slice_of(payload, start, end) {
        Err(e) => Err(e),
        Ok(bytes) => if bytes.len() == 2 {
            Ok((bytes[0], bytes[1]))
        } else {
            Err(ArtNetError::TooShort { needed: 2, actual: bytes.len() as usize })
        },
    }
}

/// The little-endian `u16` of the range.
pub open spec fn u16_le_of(payload: Seq<u8>, start: usize, end: usize) -> Result<u16, ArtNetError> {
    match pair_of(payload, start, end) {
        Err(e) => Err(e),
        Ok(p) => Ok(le16(p.0, p.1)),
    }
}

/// The big-endian `u16` of the range.
pub open spec fn u16_be_of(payload: Seq<u8>, start: usize, end: usize) -> Result<u16, ArtNetError> {
    match pair_of(payload, start, end) {
        Err(e) => Err(e),
        Ok(p) => Ok(be16(p.0, p.1)),
    }
}

/// A DMX data length is even and lies in 2..=512.
pub open spec fn valid_dmx_length(len: int) -> bool {
    2 <= len <= 512 && len % 2 == 0
}

/// The DMX data length of the range, if it is a valid one.
pub open spec fn dmx_length_of(payload: Seq<u8>, start: usize, end: usize) -> Result<
    usize,
    ArtNetError,
> {
    match u16_be_of(payload, start, end) {
        Err(e) => Err(e),
        Ok(v) => if valid_dmx_length(v as int) {
            Ok(v as usize)
        } else {
            Err(ArtNetError::InvalidDmxLength { len: v as usize })
        },
    }
}

/// The universe of the range, if it is a valid one.
pub open spec fn universe_id_of(payload: Seq<u8>, start: usize, end: usize) -> Result<
    u16,
    ArtNetError,
> {
    match u16_le_of(payload, start, end) {
        Err(e) => Err(e),
        Ok(v) => if v > 0x7fff {
            Err(ArtNetError::InvalidUniverseId { value: v })
        } else {
            Ok(v)
        },
    }
}

/// The byte at `offset`, zero read as absent.
pub open spec fn optional_byte_of(payload: Seq<u8>, offset: usize) -> Result<
    Option<u8>,
    ArtNetError,
> {
    match byte_of(payload, offset) {
        Err(e) => Err(e),
        Ok(v) => Ok(nonzero(v)),
    }
}

/// A borrowed slice answers as the model does.
pub open spec fn slice_matches(r: Result<&[u8], ArtNetError>, m: Result<Seq<u8>, ArtNetError>) -> bool {
    match r {
        Ok(s) => m == Ok::<Seq<u8>, ArtNetError>(s@),
        Err(e) => m == Err::<Seq<u8>, ArtNetError>(e),
    }
}

impl<'a> ArtNetReader<'a> {
    /// The bytes of the payload.
    pub closed spec fn bytes(&self) -> Seq<u8> {
        self.payload@
    }

    /// A reader of the payload.
    pub fn new(payload: &'a [u8]) -> (r: Self)
        ensures
            r.bytes() == payload@,
    {
        ArtNetReader { payload }
    }

    /// Checks that the payload holds at least `needed` bytes.
    pub fn require_len(&self, needed: usize) -> (r: Result<(), ArtNetError>)
        ensures
            r == if self.bytes().len() < needed {
                Err::<(), ArtNetError>(
                    ArtNetError::TooShort { needed, actual: self.bytes().len() as usize },
                )
            } else {
                Ok::<(), ArtNetError>(())
            },
    {
        if self.payload.len() < needed {
            return Err(ArtNetError::TooShort { needed, actual: self.payload.len() });
        }
        Ok(())
    }

    /// Reads a little-endian `u16` from the range.
    pub fn read_u16_le(&self, range: std::ops::Range<usize>) -> (r: Result<u16, ArtNetError>)
        ensures
            r == u16_le_of(self.bytes(), range.start, range.end),
    {
        let bytes = self.read_slice(range)?;
        if bytes.len() != 2 {
            return Err(ArtNetError::TooShort { needed: 2, actual: bytes.len() });
        }
        Ok(u16_from_le(bytes[0], bytes[1]))
    }

    /// Reads the DMX data length and checks that it is even and in 2..=512.
    pub fn read_dmx_length(&self, range: std::ops::Range<usize>) -> (r: Result<usize, ArtNetError>)
        ensures
            r == dmx_length_of(self.bytes(), range.start, range.end),
    {
        let value = self.read_u16_be(range)?;
        let len: usize = value as usize;
        if len < 2 || len > layout::DMX_MAX_SLOTS || len % 2 != 0 {
            return Err(ArtNetError::InvalidDmxLength { len });
        }
        Ok(len)
    }

    /// Reads the universe identifier and checks its range.
    pub fn read_universe_id(&self, range: std::ops::Range<usize>) -> (r: Result<u16, ArtNetError>)
        ensures
            r == universe_id_of(self.bytes(), range.start, range.end),
    {
        let value = self.read_u16_le(range)?;
        if value > layout::MAX_UNIVERSE_ID {
            return Err(ArtNetError::InvalidUniverseId { value });
        }
        Ok(value)
    }

    /// Reads a big-endian `u16` from the range.
    pub fn read_u16_be(&self, range: std::ops::Range<usize>) -> (r: Result<u16, ArtNetError>)
        ensures
            r == u16_be_of(self.bytes(), range.start, range.end),
    {
        let bytes = self.read_slice(range)?;
        if bytes.len() != 2 {
            return Err(ArtNetError::TooShort { needed: 2, actual: bytes.len() });
        }
        Ok(u16_from_be(bytes[0], bytes[1]))
    }

    /// Reads the byte at `offset`.
    pub fn read_u8(&self, offset: usize) -> (r: Result<u8, ArtNetError>)
        ensures
            r == byte_of(self.bytes(), offset),
    {
        if offset < self.payload.len() {
            Ok(self.payload[offset])
        } else {
            Err(
                ArtNetError::TooShort {
                    needed: offset.saturating_add(1),
                    actual: self.payload.len(),
                },
            )
        }
    }

    /// Reads the byte at `offset`; zero reads as `None`.
    pub fn read_optional_nonzero_u8(&self, offset: usize) -> (r: Result<Option<u8>, ArtNetError>)
        ensures
            r == optional_byte_of(self.bytes(), offset),
    {
        let value = self.read_u8(offset)?;
        Ok(optional_nonzero_u8(value))
    }

    /// Borrows the bytes of the range.
    pub fn read_slice(&self, range: std::ops::Range<usize>) -> (r: Result<&'a [u8], ArtNetError>)
        ensures
            slice_matches(r, slice_of(self.bytes(), range.start, range.end)),
    {
        if range.start <= range.end && range.end <= self.payload.len() {
            Ok(slice_subrange(self.payload, range.start, range.end))
        } else {
            Err(ArtNetError::TooShort { needed: range.end, actual: self.payload.len() })
        }
    }

    /// Borrows the eight bytes of the packet identifier.
    pub fn read_signature(&self) -> (r: Result<&'a [u8], ArtNetError>)
        ensures
            slice_matches(r, slice_of(self.bytes(), 0, 8)),
    {
        self.read_slice(0..8)
    }
}

} // verus!
