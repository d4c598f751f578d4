//! Bounds-checked access to an sACN payload.

use super::error::SacnError;
use super::layout;
use crate::protocols::common::{be16, be32, nonzero, optional_nonzero_u8, u16_from_be, u32_from_be};
use crate::text::{hex_bytes, hex_text, trim, trim_nul_end, trimmed_name};
use vstd::prelude::*;
use vstd::slice::slice_subrange;

verus! {

/// Bounds-checked access to an sACN payload.
pub struct SacnReader<'a> {
    payload: &'a [u8],
}

/// The text that lossy UTF-8 decoding makes of the bytes: valid sequences
/// decode to their characters, each invalid one to U+FFFD.
pub uninterp spec fn utf8_lossy(bytes: Seq<u8>) -> Seq<char>;

/// Each byte read as the character of the same code.
pub open spec fn ascii_text(bytes: Seq<u8>) -> Seq<char> {
    Seq::new(bytes.len(), |i: int| bytes[i] as char)
}

/// Whether every byte is an ASCII character.
pub open spec fn all_ascii(bytes: Seq<u8>) -> bool {
    forall|i: int| 0 <= i < bytes.len() ==> bytes[i] < 128
}

/// `String::from_utf8_lossy`, made an owned string. The result depends on
/// the bytes alone; bytes that are all ASCII are valid UTF-8 and come back
/// as the same characters.
#[verifier::external_body]
fn lossy_text(bytes: &[u8]) -> (s: String)
    ensures
        s@ == utf8_lossy(bytes@),
        all_ascii(bytes@) ==> s@ == ascii_text(bytes@),
{
    String::from_utf8_lossy(bytes).into_owned()
}

/// The bytes of `payload` in `[start, end)`, or how many bytes were needed.
pub open spec fn slice_of(payload: Seq<u8>, start: usize, end: usize) -> Result<Seq<u8>, SacnError> {
    if start <= end && end <= payload.len() {
        Ok(payload.subrange(start as int, end as int))
    } else {
        Err(SacnError::TooShort { needed: end, actual: payload.len() as usize })
    }
}

/// The byte at `offset`. The count of bytes needed stops at `usize::MAX`.
pub open spec fn byte_of(payload: Seq<u8>, offset: usize) -> Result<u8, SacnError> {
    if offset < payload.len() {
        Ok(payload[offset as int])
    } else {
        Err(
            SacnError::TooShort {
                needed: if offset < usize::MAX {
                    (offset + 1) as usize
                } else {
                    usize::MAX
                },
                actual: payload.len() as usize,
            },
        )
    }
}

/// The big-endian `u16` of the range.
pub open spec fn u16_be_of(payload: Seq<u8>, start: usize, end: usize) -> Result<u16, SacnError> {
    match slice_of(payload, start, end) {
        Err(e) => Err(e),
        Ok(bytes) => if bytes.len() == 2 {
            Ok(be16(bytes[0], bytes[1]))
        } else {
            Err(SacnError::TooShort { needed: 2, actual: bytes.len() as usize })
        },
    }
}

/// The big-endian `u32` of the range.
pub open spec fn u32_be_of(payload: Seq<u8>, start: usize, end: usize) -> Result<u32, SacnError> {
    match slice_of(payload, start, end) {
        Err(e) => Err(e),
        Ok(bytes) => if bytes.len() == 4 {
            Ok(be32(bytes[0], bytes[1], bytes[2], bytes[3]))
        } else {
            Err(SacnError::TooShort { needed: 4, actual: bytes.len() as usize })
        },
    }
}

/// The byte at `offset`, zero read as absent.
pub open spec fn optional_byte_of(payload: Seq<u8>, offset: usize) -> Result<Option<u8>, SacnError> {
    match byte_of(payload, offset) {
        Err(e) => Err(e),
        Ok(v) => Ok(nonzero(v)),
    }
}

/// The text that the bytes stand for: ASCII bytes are their characters,
/// anything else is decoded as UTF-8, lossily.
pub open spec fn decoded_text(bytes: Seq<u8>) -> Seq<char> {
    if all_ascii(bytes) {
        ascii_text(bytes)
    } else {
        utf8_lossy(bytes)
    }
}

/// The text of a NUL-padded field: decoded, the padding removed, trimmed.
pub open spec fn field_text(bytes: Seq<u8>) -> Seq<char> {
    trim(trim_nul_end(decoded_text(bytes)))
}

/// How a returned string relates to the model's text.
pub open spec fn text_matches(r: Result<String, SacnError>, m: Result<Seq<char>, SacnError>) -> bool {
    match r {
        Ok(s) => m == Ok::<Seq<char>, SacnError>(s@),
        Err(e) => m == Err::<Seq<char>, SacnError>(e),
    }
}

/// How a returned optional string relates to the model's text: an empty
/// text is returned as absent.
pub open spec fn optional_text_matches(
    r: Result<Option<String>, SacnError>,
    m: Result<Seq<char>, SacnError>,
) -> bool {
    match r {
        Ok(Some(s)) => m == Ok::<Seq<char>, SacnError>(s@) && s@.len() > 0,
        Ok(None) => m == Ok::<Seq<char>, SacnError>(Seq::empty()),
        Err(e) => m == Err::<Seq<char>, SacnError>(e),
    }
}

/// The text of the field in the range.
pub open spec fn ascii_string_of(payload: Seq<u8>, start: usize, end: usize) -> Result<
    Seq<char>,
    SacnError,
> {
    match slice_of(payload, start, end) {
        Err(e) => Err(e),
        Ok(bytes) => Ok(field_text(bytes)),
    }
}

/// The component identifier in hexadecimal.
pub open spec fn cid_hex_of(payload: Seq<u8>) -> Result<Seq<char>, SacnError> {
    match slice_of(payload, 22, 38) {
        Err(e) => Err(e),
        Ok(bytes) => Ok(hex_bytes(bytes)),
    }
}

/// The start code must be the DMX null start code.
pub open spec fn start_code_of(payload: Seq<u8>) -> Result<(), SacnError> {
    match byte_of(payload, 125) {
        Err(e) => Err(e),
        Ok(v) => if v == 0 {
            Ok(())
        } else {
            Err(SacnError::InvalidStartCode { value: v })
        },
    }
}

/// The number of DMX slots: the property value count, which must lie in
/// 2..=513, less the start code.
pub open spec fn dmx_data_len_of(payload: Seq<u8>) -> Result<usize, SacnError> {
    match u16_be_of(payload, 123, 125) {
        Err(e) => Err(e),
        Ok(count) => if 2 <= count <= 513 {
            Ok((count - 1) as usize)
        } else {
            Err(SacnError::InvalidPropertyValueCount { count })
        },
    }
}

/// A borrowed slice answers as the model does.
pub open spec fn slice_matches(r: Result<&[u8], SacnError>, m: Result<Seq<u8>, SacnError>) -> bool {
    match r {
        Ok(s) => m == Ok::<Seq<u8>, SacnError>(s@),
        Err(e) => m == Err::<Seq<u8>, SacnError>(e),
    }
}

impl<'a> SacnReader<'a> {
    /// The bytes of the payload.
    pub closed spec fn bytes(&self) -> Seq<u8> {
        self.payload@
    }

    /// A reader of the payload.
    pub fn new(payload: &'a [u8]) -> (r: Self)
        ensures
            r.bytes() == payload@,
    {
        SacnReader { payload }
    }

    /// Checks that the payload holds at least `needed` bytes.
    pub fn require_len(&self, needed: usize) -> (r: Result<(), SacnError>)
        ensures
            r == if self.bytes().len() < needed {
                Err::<(), SacnError>(
                    SacnError::TooShort { needed, actual: self.bytes().len() as usize },
                )
            } else {
                Ok::<(), SacnError>(())
            },
    {
        if self.payload.len() < needed {
            return Err(SacnError::TooShort { needed, actual: self.payload.len() });
        }
        Ok(())
    }

    /// Reads the byte at `offset`.
    pub fn read_u8(&self, offset: usize) -> (r: Result<u8, SacnError>)
        ensures
            r == byte_of(self.bytes(), offset),
    {
        if offset < self.payload.len() {
            Ok(self.payload[offset])
        } else {
            Err(
                SacnError::TooShort {
                    needed: offset.saturating_add(1),
                    actual: self.payload.len(),
                },
            )
        }
    }

    /// Reads a big-endian `u16` from the range.
    pub fn read_u16_be(&self, range: std::ops::Range<usize>) -> (r: Result<u16, SacnError>)
        ensures
            r == u16_be_of(self.bytes(), range.start, range.end),
    {
        let bytes = self.read_slice(range)?;
        if bytes.len() != 2 {
            return Err(SacnError::TooShort { needed: 2, actual: bytes.len() });
        }
        Ok(u16_from_be(bytes[0], bytes[1]))
    }

    /// Reads a big-endian `u32` from the range.
    pub fn read_u32_be(&self, range: std::ops::Range<usize>) -> (r: Result<u32, SacnError>)
        ensures
            r == u32_be_of(self.bytes(), range.start, range.end),
    {
        let bytes = self.read_slice(range)?;
        if bytes.len() != 4 {
            return Err(SacnError::TooShort { needed: 4, actual: bytes.len() });
        }
        Ok(u32_from_be(bytes[0], bytes[1], bytes[2], bytes[3]))
    }

    /// Borrows the bytes of the range.
    pub fn read_slice(&self, range: std::ops::Range<usize>) -> (r: Result<&'a [u8], SacnError>)
        ensures
            slice_matches(r, slice_of(self.bytes(), range.start, range.end)),
    {
        if range.start <= range.end && range.end <= self.payload.len() {
            Ok(slice_subrange(self.payload, range.start, range.end))
        } else {
            Err(SacnError::TooShort { needed: range.end, actual: self.payload.len() })
        }
    }

    /// Reads a NUL-padded text field.
    pub fn read_ascii_string(&self, range: std::ops::Range<usize>) -> (r: Result<String, SacnError>)
        ensures
            text_matches(r, ascii_string_of(self.bytes(), range.start, range.end)),
    {
        let bytes = self.read_slice(range)?;
        let raw = lossy_text(bytes);
        Ok(trimmed_name(raw.as_str()))
    }

    /// Reads the component identifier as 32 lower-case hexadecimal digits.
    pub fn read_cid_hex(&self) -> (r: Result<String, SacnError>)
        ensures
            text_matches(r, cid_hex_of(self.bytes())),
    {
        let bytes = self.read_slice(layout::CID_RANGE)?;
        Ok(hex_text(bytes))
    }

    /// Reads the byte at `offset`; zero reads as `None`.
    pub fn read_optional_nonzero_u8(&self, offset: usize) -> (r: Result<Option<u8>, SacnError>)
        ensures
            r == optional_byte_of(self.bytes(), offset),
    {
        let value = self.read_u8(offset)?;
        Ok(optional_nonzero_u8(value))
    }

    /// Reads a NUL-padded text field; an empty text reads as `None`.
    pub fn read_optional_ascii_string(&self, range: std::ops::Range<usize>) -> (r: Result<
        Option<String>,
        SacnError,
    >)
        ensures
            optional_text_matches(r, ascii_string_of(self.bytes(), range.start, range.end)),
    {
        let value = self.read_ascii_string(range)?;
        if value.as_str().unicode_len() == 0 {
            assert(value@ =~= Seq::<char>::empty());
            Ok(None)
        } else {
            Ok(Some(value))
        }
    }

    /// Checks the start code.
    pub fn read_start_code(&self) -> (r: Result<(), SacnError>)
        ensures
            r == start_code_of(self.bytes()),
    {
        let value = self.read_u8(layout::START_CODE_OFFSET)?;
        if value != layout::DMX_START_CODE {
            return Err(SacnError::InvalidStartCode { value });
        }
        Ok(())
    }

    /// Reads the property value count and gives the number of DMX slots.
    pub fn read_dmx_data_len(&self) -> (r: Result<usize, SacnError>)
        ensures
            r == dmx_data_len_of(self.bytes()),
    {
        let count = self.read_u16_be(layout::DMP_PROPERTY_VALUE_COUNT_RANGE)?;
        if count < 2 || count > 513 {
            return Err(SacnError::InvalidPropertyValueCount { count });
        }
        Ok((count - 1) as usize)
    }
}

} // verus!
