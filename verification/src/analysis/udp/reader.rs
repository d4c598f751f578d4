//! Bounds-checked access to a UDP datagram.

use super::error::{UdpError, UdpErrorView};
use super::layout;
use vstd::prelude::*;
use vstd::slice::slice_subrange;

verus! {

/// Bounds-checked access to a UDP datagram, header included.
pub struct UdpReader<'a> {
    payload: &'a [u8],
}

/// The datagram without its eight-byte header, or how many bytes were needed.
pub open spec fn payload_after_header(datagram: Seq<u8>) -> Result<Seq<u8>, UdpErrorView> {
    if datagram.len() < 8 {
        Err(UdpErrorView::TooShort { needed: 8, actual: datagram.len() as usize })
    } else {
        Ok(datagram.skip(8))
    }
}

/// A borrowed payload answers as the model does.
pub open spec fn payload_matches(r: Result<&[u8], UdpError>, m: Result<Seq<u8>, UdpErrorView>) -> bool {
    match r {
        Ok(s) => m == Ok::<Seq<u8>, UdpErrorView>(s@),
        Err(e) => m == Err::<Seq<u8>, UdpErrorView>(e@),
    }
}

impl<'a> UdpReader<'a> {
    /// The bytes of the datagram.
    pub closed spec fn bytes(&self) -> Seq<u8> {
        self.payload@
    }

    /// A reader of the datagram.
    pub fn new(payload: &'a [u8]) -> (r: Self)
        ensures
            r.bytes() == payload@,
    {
        UdpReader { payload }
    }

    /// Checks that the datagram holds at least `needed` bytes.
    pub fn require_len(&self, needed: usize) -> (r: Result<(), UdpError>)
        ensures
            self.bytes().len() >= needed ==> r is Ok,
            self.bytes().len() < needed ==> r is Err && r->Err_0@ == (UdpErrorView::TooShort {
                needed,
                actual: self.bytes().len() as usize,
            }),
    {
        if self.payload.len() < needed {
            return Err(UdpError::TooShort { needed, actual: self.payload.len() });
        }
        Ok(())
    }

    /// Borrows what follows the UDP header.
    pub fn payload_without_header(&self) -> (r: Result<&'a [u8], UdpError>)
        ensures
            payload_matches(r, payload_after_header(self.bytes())),
    {
        match self.require_len(layout::UDP_HEADER_LEN) {
            Err(e) => Err(e),
            Ok(_) => {
                let rest = slice_subrange(self.payload, layout::UDP_HEADER_LEN, self.payload.len());
                assert(rest@ =~= self.payload@.skip(8));
                Ok(rest)
            },
        }
    }
}

} // verus!
