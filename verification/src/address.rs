//! Network addresses and their text.

use crate::text::{decimal, hex, push_decimal, push_hex};
use vstd::prelude::*;
use vstd::string::*;

verus! {

/// An IPv4 or IPv6 address, as the bytes of the packet header.
#[derive(Debug, Clone, Copy)]
pub enum IpAddress {
    V4([u8; 4]),
    V6([u8; 16]),
}

impl View for IpAddress {
    type V = Seq<u8>;

    /// The address bytes: four for IPv4, sixteen for IPv6.
    open spec fn view(&self) -> Seq<u8> {
        match self {
            IpAddress::V4(b) => b@,
            IpAddress::V6(b) => b@,
        }
    }
}

/// Dotted decimal: the four bytes in decimal, joined by dots.
pub open spec fn ipv4_text(b: Seq<u8>) -> Seq<char> {
    decimal(b[0] as nat) + seq!['.'] + decimal(b[1] as nat) + seq!['.'] + decimal(b[2] as nat)
        + seq!['.'] + decimal(b[3] as nat)
}

/// The `i`-th 16-bit group of an IPv6 address.
pub open spec fn group(b: Seq<u8>, i: int) -> nat {
    (256 * (b[2 * i] as int) + b[2 * i + 1] as int) as nat
}

/// How many groups from `i` on are zero without interruption.
pub open spec fn zero_run(b: Seq<u8>, i: int) -> nat
    decreases 8 - i,
{
    if 0 <= i < 8 && group(b, i) == 0 {
        1 + zero_run(b, i + 1)
    } else {
        0
    }
}

/// The longest run of zero groups at or after `i`, as start and length; of
/// runs of equal length the first. Length 0 where no group is zero.
pub open spec fn longest_zero_run(b: Seq<u8>, i: int) -> (int, nat)
    decreases 8 - i,
{
    if 0 <= i < 8 {
        let rest = longest_zero_run(b, i + 1);
        let here = zero_run(b, i);
        if here > 0 && here >= rest.1 {
            (i, here)
        } else {
            rest
        }
    } else {
        (0, 0)
    }
}

/// The groups `from..to` in hexadecimal without leading zeros, joined by colons.
pub open spec fn groups_text(b: Seq<u8>, from: int, to: int) -> Seq<char>
    decreases to - from,
{
    if from >= to {
        Seq::empty()
    } else if from + 1 == to {
        hex(group(b, from))
    } else {
        groups_text(b, from, to - 1) + seq![':'] + hex(group(b, to - 1))
    }
}

/// Whether the address is an IPv4 address mapped into IPv6 (`::ffff:a.b.c.d`).
pub open spec fn is_v4_mapped(b: Seq<u8>) -> bool {
    &&& forall|i: int| 0 <= i < 10 ==> b[i] == 0
    &&& b[10] == 0xff
    &&& b[11] == 0xff
}

/// The canonical text of an IPv6 address: an IPv4-mapped address shows its
/// last four bytes in dotted decimal; otherwise the longest run of two or
/// more zero groups is written `::`.
pub open spec fn ipv6_text(b: Seq<u8>) -> Seq<char> {
    if is_v4_mapped(b) {
        seq![':', ':', 'f', 'f', 'f', 'f', ':'] + ipv4_text(b.subrange(12, 16))
    } else {
        let run = longest_zero_run(b, 0);
        if run.1 > 1 {
            groups_text(b, 0, run.0) + seq![':', ':'] + groups_text(b, run.0 + run.1, 8)
        } else {
            groups_text(b, 0, 8)
        }
    }
}

/// The text of an address of either family.
pub open spec fn ip_text(b: Seq<u8>) -> Seq<char> {
    if b.len() == 4 {
        ipv4_text(b)
    } else {
        ipv6_text(b)
    }
}

/// An endpoint: `ip:port`, the address in brackets for IPv6.
pub open spec fn endpoint_text(b: Seq<u8>, port: u16) -> Seq<char> {
    if b.len() == 4 {
        ipv4_text(b) + seq![':'] + decimal(port as nat)
    } else {
        seq!['['] + ipv6_text(b) + seq![']', ':'] + decimal(port as nat)
    }
}

fn push_ipv4(out: &mut String, b: &[u8])
    requires
        b@.len() == 4,
    ensures
        final(out)@ == old(out)@ + ipv4_text(b@),
{
    push_decimal(out, b[0] as u64);
    out.push('.');
    push_decimal(out, b[1] as u64);
    out.push('.');
    push_decimal(out, b[2] as u64);
    out.push('.');
    push_decimal(out, b[3] as u64);
    assert(out@ =~= old(out)@ + ipv4_text(b@));
}

fn group_at(b: &[u8; 16], i: usize) -> (g: u16)
    requires
        i < 8,
    ensures
        g == group(b@, i as int),
{
    let hi: u16 = b[2 * i] as u16;
    let lo: u16 = b[2 * i + 1] as u16;
    hi * 256 + lo
}

fn push_groups(out: &mut String, b: &[u8; 16], from: usize, to: usize)
    requires
        from <= to <= 8,
    ensures
        final(out)@ == old(out)@ + groups_text(b@, from as int, to as int),
{
    let mut i: usize = from;
    while i < to
        invariant
            from <= i <= to <= 8,
            out@ == old(out)@ + groups_text(b@, from as int, i as int),
        decreases to - i,
    {
        let ghost before = out@;
        if i > from {
            out.push(':');
        }
        push_hex(out, group_at(b, i) as u64);
        assert(out@ =~= old(out)@ + groups_text(b@, from as int, i + 1));
        i += 1;
    }
    assert(out@ =~= old(out)@ + groups_text(b@, from as int, to as int));
}

fn find_zero_run(b: &[u8; 16]) -> (r: (usize, usize))
    ensures
        r.0 as int == longest_zero_run(b@, 0).0,
        r.1 as nat == longest_zero_run(b@, 0).1,
        r.0 + r.1 <= 8,
{
    let mut i: usize = 8;
    let mut here: usize = 0;
    let mut best_start: usize = 0;
    let mut best_len: usize = 0;
    while i > 0
        invariant
            i <= 8,
            here as nat == zero_run(b@, i as int),
            here <= 8 - i,
            best_start as int == longest_zero_run(b@, i as int).0,
            best_len as nat == longest_zero_run(b@, i as int).1,
            best_start + best_len <= 8,
        decreases i,
    {
        i -= 1;
        if group_at(b, i) == 0 {
            here += 1;
        } else {
            here = 0;
        }
        if here > 0 && here >= best_len {
            best_start = i;
            best_len = here;
        }
    }
    (best_start, best_len)
}

fn v4_mapped(b: &[u8; 16]) -> (r: bool)
    ensures
        r == is_v4_mapped(b@),
{
    let mut i: usize = 0;
    while i < 10
        invariant
            i <= 10,
            forall|k: int| 0 <= k < i ==> b@[k] == 0,
        decreases 10 - i,
    {
        if b[i] != 0 {
            return false;
        }
        i += 1;
    }
    b[10] == 0xff && b[11] == 0xff
}

fn push_ipv6(out: &mut String, b: &[u8; 16])
    ensures
        final(out)@ == old(out)@ + ipv6_text(b@),
{
    if v4_mapped(b) {
        out.push(':');
        out.push(':');
        out.push('f');
        out.push('f');
        out.push('f');
        out.push('f');
        out.push(':');
        let tail = vstd::slice::slice_subrange(b.as_slice(), 12, 16);
        push_ipv4(out, tail);
        assert(out@ =~= old(out)@ + ipv6_text(b@));
    } else {
        let (start, len) = find_zero_run(b);
        if len > 1 {
            push_groups(out, b, 0, start);
            out.push(':');
            out.push(':');
            push_groups(out, b, start + len, 8);
            assert(out@ =~= old(out)@ + ipv6_text(b@));
        } else {
            push_groups(out, b, 0, 8);
        }
    }
}

impl IpAddress {
    /// Appends the text of the address.
    pub fn push_text(&self, out: &mut String)
        ensures
            final(out)@ == old(out)@ + ip_text(self@),
    {
        match self {
            IpAddress::V4(b) => push_ipv4(out, b.as_slice()),
            IpAddress::V6(b) => push_ipv6(out, b),
        }
    }

    /// The text of the address: dotted decimal or canonical IPv6.
    pub fn to_text(&self) -> (s: String)
        ensures
            s@ == ip_text(self@),
    {
        let mut s = String::new();
        self.push_text(&mut s);
        assert(s@ =~= ip_text(self@));
        s
    }

    /// Whether two addresses are the same.
    pub fn same(&self, other: &IpAddress) -> (r: bool)
        ensures
            r == (self@ == other@),
    {
        match (self, other) {
            (IpAddress::V4(a), IpAddress::V4(b)) => same_bytes(a.as_slice(), b.as_slice()),
            (IpAddress::V6(a), IpAddress::V6(b)) => same_bytes(a.as_slice(), b.as_slice()),
            (IpAddress::V4(a), IpAddress::V6(b)) => {
                assert(a@.len() == 4 && b@.len() == 16);
                false
            },
            (IpAddress::V6(a), IpAddress::V4(b)) => {
                assert(a@.len() == 16 && b@.len() == 4);
                false
            },
        }
    }
}

/// Whether two byte strings are equal.
pub fn same_bytes(a: &[u8], b: &[u8]) -> (r: bool)
    ensures
        r == (a@ == b@),
{
    if a.len() != b.len() {
        return false;
    }
    let mut i: usize = 0;
    while i < a.len()
        invariant
            i <= a.len(),
            a.len() == b.len(),
            forall|k: int| 0 <= k < i ==> a@[k] == b@[k],
        decreases a.len() - i,
    {
        if a[i] != b[i] {
            return false;
        }
        i += 1;
    }
    assert(a@ =~= b@);
    true
}

/// The text of an endpoint: `ip:port`, or `[ip]:port` for IPv6.
pub fn format_endpoint(ip: &IpAddress, port: u16) -> (s: String)
    ensures
        s@ == endpoint_text(ip@, port),
{
    let mut s = String::new();
    match ip {
        IpAddress::V4(b) => {
            push_ipv4(&mut s, b.as_slice());
            s.push(':');
            push_decimal(&mut s, port as u64);
        },
        IpAddress::V6(b) => {
            s.push('[');
            push_ipv6(&mut s, b);
            s.push(']');
            s.push(':');
            push_decimal(&mut s, port as u64);
        },
    }
    assert(s@ =~= endpoint_text(ip@, port));
    s
}

} // verus!
