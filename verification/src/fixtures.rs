//! Sample captures: small pcapng files with Art-Net or sACN frames whose
//! sequence numbers are chosen, for trying the analysis on known input.

use crate::analysis::{ARTNET_PORT, SACN_PORT};
use crate::protocols::artnet::error::ArtNetError;
use crate::protocols::artnet::parser::{artdmx_of, artnet_id, zero_padded, ArtDmxView};
use crate::protocols::artnet::reader::valid_dmx_length;
use crate::protocols::common::nonzero;
use crate::protocols::sacn::error::SacnError;
use crate::protocols::sacn::parser::{acn_pid, sacn_of, SacnDmxView};
use crate::protocols::sacn::reader::{all_ascii, ascii_text};
use crate::text::{chars_of, hex_bytes, trim, trim_nul_end};
use vstd::prelude::*;

verus! {

/// The two bytes of `v`, most significant first.
pub open spec fn be_bytes16(v: u16) -> Seq<u8> {
    seq![(v / 256) as u8, (v % 256) as u8]
}

/// The four bytes of `v`, most significant first.
pub open spec fn be_bytes32(v: u32) -> Seq<u8> {
    seq![
        (v / 16777216) as u8,
        (v / 65536 % 256) as u8,
        (v / 256 % 256) as u8,
        (v % 256) as u8,
    ]
}

/// `n` zero bytes.
pub open spec fn zeros(n: nat) -> Seq<u8> {
    Seq::new(n, |i: int| 0u8)
}

fn push_be16(out: &mut Vec<u8>, v: u16)
    ensures
        final(out)@ == old(out)@ + be_bytes16(v),
{
    out.push((v / 256) as u8);
    out.push((v % 256) as u8);
    assert(out@ =~= old(out)@ + be_bytes16(v));
}

fn push_be32(out: &mut Vec<u8>, v: u32)
    ensures
        final(out)@ == old(out)@ + be_bytes32(v),
{
    out.push((v / 16777216) as u8);
    out.push((v / 65536 % 256) as u8);
    out.push((v / 256 % 256) as u8);
    out.push((v % 256) as u8);
    assert(out@ =~= old(out)@ + be_bytes32(v));
}

fn push_zeros(out: &mut Vec<u8>, n: usize)
    ensures
        final(out)@ == old(out)@ + zeros(n as nat),
{
    let mut i: usize = 0;
    while i < n
        invariant
            i <= n,
            out@ =~= old(out)@ + zeros(i as nat),
        decreases n - i,
    {
        out.push(0);
        i += 1;
    }
}

fn push_all(out: &mut Vec<u8>, bytes: &[u8])
    ensures
        final(out)@ == old(out)@ + bytes@,
{
    let mut i: usize = 0;
    while i < bytes.len()
        invariant
            i <= bytes.len(),
            out@ =~= old(out)@ + bytes@.take(i as int),
        decreases bytes.len() - i,
    {
        out.push(bytes[i]);
        i += 1;
    }
    assert(bytes@.take(bytes.len() as int) =~= bytes@);
}

/// The slots that fit into one frame: the first 512.
pub open spec fn frame_data(slots: Seq<u8>) -> Seq<u8> {
    if slots.len() <= 512 {
        slots
    } else {
        slots.take(512)
    }
}

/// Byte `i` of the ArtDMX packet with this sequence number, universe and data.
pub open spec fn artnet_byte(sequence: u8, universe: u16, data: Seq<u8>, i: int) -> u8 {
    if i < 8 {
        artnet_id()[i]
    } else if i == 9 {
        0x50
    } else if i == 12 {
        sequence
    } else if i == 14 {
        (universe % 256) as u8
    } else if i == 15 {
        (universe / 256) as u8
    } else if i == 16 {
        (data.len() / 256) as u8
    } else if i == 17 {
        (data.len() % 256) as u8
    } else if i >= 18 {
        data[i - 18]
    } else {
        0
    }
}

/// The ArtDMX packet with this sequence number, universe and data.
pub open spec fn artnet_wire(sequence: u8, universe: u16, data: Seq<u8>) -> Seq<u8> {
    Seq::new(18 + data.len(), |i: int| artnet_byte(sequence, universe, data, i))
}

/// Builds an ArtDMX packet. Of more than 512 slots the first 512 are sent.
pub fn build_artnet_payload(sequence: u8, slots: &[u8], universe: u16) -> (payload: Vec<u8>)
    ensures
        payload@ == artnet_wire(sequence, universe, frame_data(slots@)),
{
    let length: usize = if slots.len() < 512 {
        slots.len()
    } else {
        512
    };
    let ghost data = frame_data(slots@);
    let mut payload: Vec<u8> = Vec::new();
    payload.push(0x41);
    payload.push(0x72);
    payload.push(0x74);
    payload.push(0x2d);
    payload.push(0x4e);
    payload.push(0x65);
    payload.push(0x74);
    payload.push(0x00);
    payload.push(0x00);
    payload.push(0x50);
    payload.push(0);
    payload.push(0);
    payload.push(sequence);
    payload.push(0);
    payload.push((universe % 256) as u8);
    payload.push((universe / 256) as u8);
    payload.push((length / 256) as u8);
    payload.push((length % 256) as u8);
    let mut i: usize = 0;
    while i < length
        invariant
            i <= length,
            length == data.len(),
            length <= slots@.len(),
            data == frame_data(slots@),
            payload@.len() == 18 + i,
            forall|k: int|
                0 <= k < 18 + i ==> payload@[k] == artnet_byte(sequence, universe, data, k),
        decreases length - i,
    {
        payload.push(slots[i]);
        i += 1;
    }
    assert(payload@ =~= artnet_wire(sequence, universe, data));
    payload
}

/// An ArtDMX packet that was built decodes to what it was built from,
/// where the universe is a valid one and the data length is even and not
/// zero: the universe, the sequence number unless it is zero, and the data
/// followed by zeros.
pub proof fn lemma_artnet_payload_decodes(sequence: u8, universe: u16, slots: Seq<u8>)
    requires
        universe <= 0x7fff,
        valid_dmx_length(frame_data(slots).len() as int),
    ensures
        artdmx_of(artnet_wire(sequence, universe, frame_data(slots))) == Ok::<
            Option<ArtDmxView>,
            ArtNetError,
        >(
            Some(
                ArtDmxView {
                    universe,
                    sequence: nonzero(sequence),
                    slots: zero_padded(frame_data(slots)),
                },
            ),
        ),
{
    let data = frame_data(slots);
    let wire = artnet_wire(sequence, universe, data);
    assert(wire.subrange(0, 8) =~= artnet_id());
    assert(wire.subrange(8, 10) =~= seq![0x00u8, 0x50u8]);
    assert(wire.subrange(14, 16) =~= seq![(universe % 256) as u8, (universe / 256) as u8]);
    assert(wire.subrange(16, 18) =~= seq![(data.len() / 256) as u8, (data.len() % 256) as u8]);
    assert(wire.subrange(18, 18 + data.len() as int) =~= data);
}

/// The component identifier of the sample sACN source: the bytes 0 to 15.
pub open spec fn sample_cid() -> Seq<u8> {
    Seq::new(16, |i: int| i as u8)
}

/// The component identifier of the sample sACN source.
pub fn cid_bytes() -> (cid: [u8; 16])
    ensures
        cid@ == sample_cid(),
{
    let mut cid = [0u8; 16];
    let mut i: usize = 0;
    while i < 16
        invariant
            i <= 16,
            forall|k: int| 0 <= k < i ==> cid@[k] == k as u8,
        decreases 16 - i,
    {
        cid[i] = i as u8;
        i += 1;
    }
    assert(cid@ =~= sample_cid());
    cid
}

/// Byte `i` of the sACN data packet with this sequence number, universe and
/// data, sent by the sample source, which has no name.
pub open spec fn sacn_byte(sequence: u8, universe: u16, data: Seq<u8>, i: int) -> u8 {
    if i == 1 {
        0x10
    } else if 4 <= i < 16 {
        acn_pid()[i - 4]
    } else if i == 21 {
        0x04
    } else if 22 <= i < 38 {
        (i - 22) as u8
    } else if i == 43 {
        0x02
    } else if i == 111 {
        sequence
    } else if i == 113 {
        (universe / 256) as u8
    } else if i == 114 {
        (universe % 256) as u8
    } else if i == 117 {
        0x02
    } else if i == 123 {
        ((data.len() + 1) / 256) as u8
    } else if i == 124 {
        ((data.len() + 1) % 256) as u8
    } else if i >= 126 {
        data[i - 126]
    } else {
        0
    }
}

/// The sACN data packet with this sequence number, universe and data.
pub open spec fn sacn_wire(sequence: u8, universe: u16, data: Seq<u8>) -> Seq<u8> {
    Seq::new(126 + data.len(), |i: int| sacn_byte(sequence, universe, data, i))
}

/// Builds an sACN data packet of the sample source. Of more than 512 slots
/// the first 512 are sent.
pub fn build_sacn_payload(sequence: u8, slots: &[u8], universe: u16) -> (payload: Vec<u8>)
    ensures
        payload@ == sacn_wire(sequence, universe, frame_data(slots@)),
{
    let length: usize = if slots.len() < 512 {
        slots.len()
    } else {
        512
    };
    let ghost data = frame_data(slots@);
    let count: usize = length + 1;
    let cid = cid_bytes();
    let mut payload: Vec<u8> = Vec::new();
    push_be16(&mut payload, 0x0010);
    push_be16(&mut payload, 0x0000);
    push_all(&mut payload, crate::protocols::sacn::layout::ACN_PID.as_slice());
    push_zeros(&mut payload, 2);
    push_be32(&mut payload, 4);
    push_all(&mut payload, cid.as_slice());
    push_zeros(&mut payload, 2);
    push_be32(&mut payload, 2);
    push_zeros(&mut payload, 67);
    payload.push(sequence);
    payload.push(0);
    push_be16(&mut payload, universe);
    push_zeros(&mut payload, 2);
    payload.push(0x02);
    push_zeros(&mut payload, 5);
    push_be16(&mut payload, count as u16);
    payload.push(0x00);
    assert(payload@.len() == 126);
    assert forall|k: int| 0 <= k < 126 implies payload@[k] == sacn_byte(
        sequence,
        universe,
        data,
        k,
    ) by {
        assert(crate::protocols::sacn::layout::ACN_PID@ =~= acn_pid());
    }
    let mut i: usize = 0;
    while i < length
        invariant
            i <= length,
            length == data.len(),
            length <= slots@.len(),
            data == frame_data(slots@),
            payload@.len() == 126 + i,
            forall|k: int|
                0 <= k < 126 + i ==> payload@[k] == sacn_byte(sequence, universe, data, k),
        decreases length - i,
    {
        payload.push(slots[i]);
        i += 1;
    }
    assert(payload@ =~= sacn_wire(sequence, universe, data));
    payload
}

proof fn lemma_blank_name(bytes: Seq<u8>)
    requires
        forall|i: int| 0 <= i < bytes.len() ==> bytes[i] == 0,
    ensures
        all_ascii(bytes),
        trim_nul_end(ascii_text(bytes)) == Seq::<char>::empty(),
        trim(trim_nul_end(ascii_text(bytes))) == Seq::<char>::empty(),
    decreases bytes.len(),
{
    let text = ascii_text(bytes);
    if bytes.len() > 0 {
        let front = bytes.drop_last();
        assert forall|i: int| 0 <= i < front.len() implies front[i] == 0 by {
            assert(front[i] == bytes[i]);
        }
        lemma_blank_name(front);
        assert(text.last() == '\0');
        assert(text.drop_last() =~= ascii_text(front));
    } else {
        assert(text =~= Seq::<char>::empty());
    }
}

/// An sACN data packet that was built decodes to what it was built from,
/// where it carries a slot or more: the universe, the sequence number unless
/// it is zero, the data, the component identifier of the sample source in
/// hexadecimal, and no source name.
pub proof fn lemma_sacn_payload_decodes(sequence: u8, universe: u16, slots: Seq<u8>)
    requires
        slots.len() > 0,
    ensures
        sacn_of(sacn_wire(sequence, universe, frame_data(slots))) == Ok::<
            Option<SacnDmxView>,
            SacnError,
        >(
            Some(
                SacnDmxView {
                    universe,
                    cid: hex_bytes(sample_cid()),
                    source_name: None,
                    sequence: nonzero(sequence),
                    slots: frame_data(slots),
                },
            ),
        ),
{
    let data = frame_data(slots);
    let wire = sacn_wire(sequence, universe, data);
    let count = (data.len() + 1) as int;
    assert(wire.subrange(0, 2) =~= seq![0x00u8, 0x10u8]);
    assert(wire.subrange(2, 4) =~= seq![0x00u8, 0x00u8]);
    assert(wire.subrange(4, 16) =~= acn_pid());
    assert(wire.subrange(18, 22) =~= seq![0u8, 0u8, 0u8, 4u8]);
    assert(wire.subrange(40, 44) =~= seq![0u8, 0u8, 0u8, 2u8]);
    assert(wire.subrange(22, 38) =~= sample_cid());
    assert(wire.subrange(113, 115) =~= seq![(universe / 256) as u8, (universe % 256) as u8]);
    assert(wire.subrange(123, 125) =~= seq![(count / 256) as u8, (count % 256) as u8]);
    assert(wire.subrange(126, 126 + data.len() as int) =~= data);
    lemma_blank_name(wire.subrange(44, 108));
}

/// The value of a decimal numeral; `None` for a text that is no numeral or
/// stands for more than 255. A numeral may begin with `+`.
pub open spec fn octet_of(text: Seq<char>) -> Option<u8> {
    let digits = if text.len() > 0 && text[0] == '+' {
        text.drop_first()
    } else {
        text
    };
    if digits.len() == 0 {
        None
    } else {
        digits_value(digits)
    }
}

/// The value of a run of decimal digits, if it is one and is at most 255.
pub open spec fn digits_value(digits: Seq<char>) -> Option<u8>
    decreases digits.len(),
{
    if digits.len() == 0 {
        Some(0)
    } else {
        let last = digits.last();
        match digits_value(digits.drop_last()) {
            Some(front) => if '0' <= last && last <= '9' && front * 10 + (last as u8 - '0' as u8)
                <= 255 {
                Some((front * 10 + (last as u8 - '0' as u8)) as u8)
            } else {
                None
            },
            None => None,
        }
    }
}

/// The part of `text` from `from` up to the next dot, or to the end.
pub open spec fn part_end(text: Seq<char>, from: int) -> int
    decreases text.len() - from,
{
    if from >= text.len() || text[from] == '.' {
        from
    } else {
        part_end(text, from + 1)
    }
}

/// The octets of an address in dotted decimal, from part `idx` on that
/// begins at `from`: a part that is no numeral counts as zero, and parts
/// after the fourth are left aside.
pub open spec fn octets_from(text: Seq<char>, from: int, idx: int, out: Seq<u8>) -> Seq<u8>
    decreases 4 - idx,
{
    if idx >= 4 || from > text.len() || from < 0 {
        out
    } else {
        let end = part_end(text, from);
        let value = match octet_of(text.subrange(from, end)) {
            Some(v) => v,
            None => 0u8,
        };
        if end >= text.len() {
            out.update(idx, value)
        } else {
            octets_from(text, end + 1, idx + 1, out.update(idx, value))
        }
    }
}

proof fn lemma_part_end(text: Seq<char>, from: int)
    requires
        0 <= from <= text.len(),
    ensures
        from <= part_end(text, from) <= text.len(),
    decreases text.len() - from,
{
    if from < text.len() && text[from] != '.' {
        lemma_part_end(text, from + 1);
    }
}

fn parse_octet(v: &Vec<char>, from: usize, end: usize) -> (r: u8)
    requires
        from <= end <= v.len(),
    ensures
        r == match octet_of(v@.subrange(from as int, end as int)) {
            Some(x) => x,
            None => 0u8,
        },
{
    let ghost text = v@.subrange(from as int, end as int);
    let start: usize = if from < end && v[from] == '+' {
        from + 1
    } else {
        from
    };
    let ghost digits = v@.subrange(start as int, end as int);
    proof {
        if from < end {
            assert(text[0] == v@[from as int]);
        }
        if start > from {
            assert(text.drop_first() =~= digits);
        } else {
            assert(text =~= digits);
        }
    }
    if start == end {
        return 0;
    }
    assert(octet_of(text) == digits_value(digits));
    let mut value: u16 = 0;
    let mut i: usize = start;
    assert(digits.take(0) =~= Seq::<char>::empty());
    while i < end
        invariant
            start < end,
            start <= i <= end <= v.len(),
            digits == v@.subrange(start as int, end as int),
            text == v@.subrange(from as int, end as int),
            octet_of(text) == digits_value(digits),
            digits_value(digits.take(i - start)) == Some(value as u8),
            value <= 255,
        decreases end - i,
    {
        proof {
            let next = digits.take(i - start + 1);
            assert(next.drop_last() =~= digits.take(i - start));
            assert(next.last() == v@[i as int]);
        }
        let c: char = v[i];
        if !('0' <= c && c <= '9') {
            proof {
                assert(digits_value(digits.take(i - start + 1)) is None);
                lemma_digits_fail(digits, i - start + 1);
            }
            return 0;
        }
        let d: u16 = (c as u8 - '0' as u8) as u16;
        if value * 10 + d > 255 {
            proof {
                assert(digits_value(digits.take(i - start + 1)) is None);
                lemma_digits_fail(digits, i - start + 1);
            }
            return 0;
        }
        value = value * 10 + d;
        i += 1;
    }
    assert(digits.take(end - start) =~= digits);
    value as u8
}

proof fn lemma_digits_fail(digits: Seq<char>, n: int)
    requires
        0 <= n <= digits.len(),
        digits_value(digits.take(n)) is None,
    ensures
        digits_value(digits) is None,
    decreases digits.len() - n,
{
    if n < digits.len() {
        assert(digits.take(n + 1).drop_last() =~= digits.take(n));
        lemma_digits_fail(digits, n + 1);
    } else {
        assert(digits.take(n) =~= digits);
    }
}

/// Reads an IPv4 address in dotted decimal. A part that is no numeral
/// counts as zero, missing parts too, and parts after the fourth are left
/// aside.
pub fn parse_ipv4(ip: &str) -> (out: [u8; 4])
    ensures
        out@ == octets_from(ip@, 0, 0, zeros(4)),
{
    let v = chars_of(ip);
    let mut out = [0u8; 4];
    let mut idx: usize = 0;
    let mut from: usize = 0;
    assert(out@ =~= zeros(4));
    while idx < 4
        invariant
            idx <= 4,
            from <= v.len(),
            v@ == ip@,
            out@.len() == 4,
            octets_from(v@, 0, 0, zeros(4)) == octets_from(v@, from as int, idx as int, out@),
        decreases 4 - idx,
    {
        let mut end: usize = from;
        while end < v.len() && v[end] != '.'
            invariant
                from <= end <= v.len(),
                part_end(v@, from as int) == part_end(v@, end as int),
            decreases v.len() - end,
        {
            end += 1;
        }
        let value = parse_octet(&v, from, end);
        let ghost before = out@;
        out[idx] = value;
        assert(out@ =~= before.update(idx as int, value));
        if end >= v.len() {
            return out;
        }
        from = end + 1;
        idx += 1;
    }
    out
}

/// The sum of the ten 16-bit words of an IPv4 header.
pub open spec fn words_sum(header: Seq<u8>, n: int) -> int
    decreases n,
{
    if n <= 0 {
        0
    } else {
        words_sum(header, n - 1) + 256 * header[2 * n - 2] + header[2 * n - 1]
    }
}

/// A sum with its carries folded back in, until it fits 16 bits.
pub open spec fn folded(sum: int) -> int
    decreases sum,
{
    if sum < 65536 {
        sum
    } else {
        folded(sum % 65536 + sum / 65536)
    }
}

/// The checksum of an IPv4 header: the complement of the folded sum of its
/// words.
pub open spec fn checksum_of(header: Seq<u8>) -> u16 {
    (65535 - folded(words_sum(header, 10))) as u16
}

proof fn lemma_folded_bound(sum: int)
    requires
        0 <= sum,
    ensures
        0 <= folded(sum) < 65536,
    decreases sum,
{
    if sum >= 65536 {
        lemma_folded_bound(sum % 65536 + sum / 65536);
    }
}

/// Computes the checksum of an IPv4 header whose checksum field is zero.
pub fn ipv4_checksum(header: &[u8; 20]) -> (r: u16)
    ensures
        r == checksum_of(header@),
{
    let mut sum: u32 = 0;
    let mut i: usize = 0;
    while i < 10
        invariant
            i <= 10,
            sum == words_sum(header@, i as int),
            sum <= 65535 * i,
        decreases 10 - i,
    {
        let part: u32 = (header[2 * i] as u32) * 256 + (header[2 * i + 1] as u32);
        sum = sum + part;
        i += 1;
    }
    let ghost total = sum as int;
    while sum >= 65536
        invariant
            folded(sum as int) == folded(total),
            sum <= 655350,
        decreases sum,
    {
        sum = sum % 65536 + sum / 65536;
    }
    proof {
        lemma_folded_bound(total);
    }
    (65535 - sum) as u16
}

/// The Ethernet, IPv4 and UDP headers in front of a payload of `len` bytes.
pub open spec fn udp_headers(
    src_ip: Seq<u8>,
    dst_ip: Seq<u8>,
    src_port: u16,
    dst_port: u16,
    len: nat,
) -> Seq<u8> {
    let bare = ip_header(src_ip, dst_ip, len, 0);
    seq![0x01u8, 0x02u8, 0x03u8, 0x04u8, 0x05u8, 0x06u8] + seq![
        0x0au8,
        0x0bu8,
        0x0cu8,
        0x0du8,
        0x0eu8,
        0x0fu8,
    ] + be_bytes16(0x0800) + ip_header(src_ip, dst_ip, len, checksum_of(bare)) + be_bytes16(
        src_port,
    ) + be_bytes16(dst_port) + be_bytes16((8 + len) as u16) + be_bytes16(0)
}

/// The IPv4 header of a UDP datagram with a payload of `len` bytes.
pub open spec fn ip_header(src_ip: Seq<u8>, dst_ip: Seq<u8>, len: nat, checksum: u16) -> Seq<u8> {
    seq![0x45u8, 0u8] + be_bytes16((28 + len) as u16) + zeros(4) + seq![64u8, 17u8] + be_bytes16(
        checksum,
    ) + src_ip + dst_ip
}

/// The longest payload that fits into one IPv4 packet with a UDP header.
pub const MAX_UDP_PAYLOAD: usize = 65507;

/// Builds an Ethernet frame that carries a UDP datagram over IPv4. The
/// addresses are given in dotted decimal.
pub fn build_ipv4_udp_packet(
    src_ip: &str,
    dst_ip: &str,
    src_port: u16,
    dst_port: u16,
    payload: &[u8],
) -> (packet: Vec<u8>)
    requires
        payload@.len() <= MAX_UDP_PAYLOAD,
    ensures
        packet@ == udp_headers(
            octets_from(src_ip@, 0, 0, zeros(4)),
            octets_from(dst_ip@, 0, 0, zeros(4)),
            src_port,
            dst_port,
            payload@.len(),
        ) + payload@,
{
    let src = parse_ipv4(src_ip);
    let dst = parse_ipv4(dst_ip);
    let total_len: u16 = (28 + payload.len()) as u16;
    let mut bare: Vec<u8> = Vec::new();
    bare.push(0x45);
    bare.push(0);
    push_be16(&mut bare, total_len);
    push_zeros(&mut bare, 4);
    bare.push(64);
    bare.push(17);
    push_be16(&mut bare, 0);
    push_all(&mut bare, src.as_slice());
    push_all(&mut bare, dst.as_slice());
    assert(bare@ =~= ip_header(src@, dst@, payload@.len(), 0));
    let mut header = [0u8; 20];
    let mut i: usize = 0;
    while i < 20
        invariant
            i <= 20,
            bare@.len() == 20,
            forall|k: int| 0 <= k < i ==> header@[k] == bare@[k],
        decreases 20 - i,
    {
        header[i] = bare[i];
        i += 1;
    }
    assert(header@ =~= bare@);
    let checksum = ipv4_checksum(&header);

    let mut packet: Vec<u8> = Vec::new();
    packet.push(0x01);
    packet.push(0x02);
    packet.push(0x03);
    packet.push(0x04);
    packet.push(0x05);
    packet.push(0x06);
    packet.push(0x0a);
    packet.push(0x0b);
    packet.push(0x0c);
    packet.push(0x0d);
    packet.push(0x0e);
    packet.push(0x0f);
    push_be16(&mut packet, 0x0800);
    packet.push(0x45);
    packet.push(0);
    push_be16(&mut packet, total_len);
    push_zeros(&mut packet, 4);
    packet.push(64);
    packet.push(17);
    push_be16(&mut packet, checksum);
    push_all(&mut packet, src.as_slice());
    push_all(&mut packet, dst.as_slice());
    push_be16(&mut packet, src_port);
    push_be16(&mut packet, dst_port);
    push_be16(&mut packet, (8 + payload.len()) as u16);
    push_be16(&mut packet, 0);
    assert(packet@ =~= udp_headers(src@, dst@, src_port, dst_port, payload@.len()));
    push_all(&mut packet, payload);
    packet
}

/// A pcapng block: type, total length, body, and the total length again.
pub open spec fn block_of(block_type: u32, body: Seq<u8>) -> Seq<u8> {
    be_bytes32(block_type) + be_bytes32((12 + body.len()) as u32) + body + be_bytes32(
        (12 + body.len()) as u32,
    )
}

/// The longest body of a pcapng block: the length of the block, which
/// counts twelve bytes more, must fit 32 bits.
pub const MAX_BLOCK_BODY: usize = 0xffff_fff3;

/// Builds a pcapng block, big-endian.
pub fn pcapng_block(block_type: u32, body: &[u8]) -> (block: Vec<u8>)
    requires
        body@.len() <= MAX_BLOCK_BODY,
    ensures
        block@ == block_of(block_type, body@),
{
    let total_len: u32 = (12 + body.len()) as u32;
    let mut block: Vec<u8> = Vec::new();
    push_be32(&mut block, block_type);
    push_be32(&mut block, total_len);
    push_all(&mut block, body);
    push_be32(&mut block, total_len);
    block
}

/// The body of the section header: byte-order magic, version 1.0, and a
/// section of unknown length.
pub open spec fn section_header() -> Seq<u8> {
    be_bytes32(0x1A2B3C4D) + be_bytes16(1) + be_bytes16(0) + Seq::new(8, |i: int| 0xffu8)
}

/// Builds the body of the section header.
pub fn section_header_body() -> (body: Vec<u8>)
    ensures
        body@ == section_header(),
{
    let mut body: Vec<u8> = Vec::new();
    push_be32(&mut body, 0x1A2B3C4D);
    push_be16(&mut body, 1);
    push_be16(&mut body, 0);
    let ghost head = body@;
    let mut i: usize = 0;
    while i < 8
        invariant
            i <= 8,
            body@ =~= head + Seq::new(i as nat, |k: int| 0xffu8),
        decreases 8 - i,
    {
        body.push(0xff);
        i += 1;
    }
    body
}

/// The body of the interface description: Ethernet, and a snap length of
/// 65535 bytes.
pub open spec fn interface_description() -> Seq<u8> {
    be_bytes16(1) + be_bytes16(0) + be_bytes32(65535)
}

/// Builds the body of the interface description.
pub fn interface_desc_body() -> (body: Vec<u8>)
    ensures
        body@ == interface_description(),
{
    let mut body: Vec<u8> = Vec::new();
    push_be16(&mut body, 1);
    push_be16(&mut body, 0);
    push_be32(&mut body, 65535);
    body
}

/// How many bytes fill `len` up to a multiple of four.
pub open spec fn padding(len: nat) -> nat {
    ((4 - len % 4) % 4) as nat
}

/// The body of an enhanced packet block: interface 0, the time in
/// microseconds as two words, the length twice, and the data filled up to a
/// multiple of four bytes.
pub open spec fn enhanced_packet(ts_us: u64, data: Seq<u8>) -> Seq<u8> {
    be_bytes32(0) + be_bytes32((ts_us / 0x1_0000_0000) as u32) + be_bytes32(
        (ts_us % 0x1_0000_0000) as u32,
    ) + be_bytes32(data.len() as u32) + be_bytes32(data.len() as u32) + data + zeros(
        padding(data.len()),
    )
}

/// Builds the body of an enhanced packet block.
pub fn enhanced_packet_body(ts_us: u64, data: &[u8]) -> (body: Vec<u8>)
    requires
        data@.len() <= u32::MAX,
    ensures
        body@ == enhanced_packet(ts_us, data@),
{
    let ts_high: u32 = (ts_us / 0x1_0000_0000) as u32;
    let ts_low: u32 = (ts_us % 0x1_0000_0000) as u32;
    let cap_len: u32 = data.len() as u32;
    let mut body: Vec<u8> = Vec::new();
    push_be32(&mut body, 0);
    push_be32(&mut body, ts_high);
    push_be32(&mut body, ts_low);
    push_be32(&mut body, cap_len);
    push_be32(&mut body, cap_len);
    push_all(&mut body, data);
    let pad_len: usize = (4 - (data.len() % 4)) % 4;
    push_zeros(&mut body, pad_len);
    body
}

/// The protocol of a sample capture.
#[derive(Debug, Clone, Copy, PartialEq, Eq, Structural)]
pub enum Protocol {
    Sacn,
    ArtNet,
}

/// A sample capture: one frame a second on universe 1, with these sequence
/// numbers.
pub struct CaptureSpec {
    pub protocol: Protocol,
    pub sequences: Vec<u8>,
}

impl CaptureSpec {
    /// A sample capture of sACN frames.
    pub fn sacn(sequences: Vec<u8>) -> (r: Self)
        ensures
            r.protocol == Protocol::Sacn,
            r.sequences == sequences,
    {
        CaptureSpec { protocol: Protocol::Sacn, sequences }
    }

    /// A sample capture of Art-Net frames.
    pub fn artnet(sequences: Vec<u8>) -> (r: Self)
        ensures
            r.protocol == Protocol::ArtNet,
            r.sequences == sequences,
    {
        CaptureSpec { protocol: Protocol::ArtNet, sequences }
    }
}

/// The frame of a sample capture with sequence number `seq`: from 10.0.0.1
/// to 10.0.0.2 on the port of the protocol, universe 1, with the slots
/// `seq` and zero.
pub open spec fn sample_frame(protocol: Protocol, seq: u8) -> Seq<u8> {
    let data = seq![seq, 0u8];
    let address_a = seq![10u8, 0u8, 0u8, 1u8];
    let address_b = seq![10u8, 0u8, 0u8, 2u8];
    match protocol {
        Protocol::Sacn => udp_headers(address_a, address_b, SACN_PORT, SACN_PORT, 128) + sacn_wire(
            seq,
            1,
            data,
        ),
        Protocol::ArtNet => udp_headers(address_a, address_b, ARTNET_PORT, ARTNET_PORT, 20)
            + artnet_wire(seq, 1, data),
    }
}

/// The packets of a sample capture, each with its time in microseconds.
pub open spec fn sample_packets(protocol: Protocol, sequences: Seq<u8>) -> Seq<(u64, Seq<u8>)> {
    Seq::new(
        sequences.len(),
        |i: int| ((i * 1_000_000) as u64, sample_frame(protocol, sequences[i])),
    )
}

/// The packets as values.
pub open spec fn packet_views(packets: Seq<(u64, Vec<u8>)>) -> Seq<(u64, Seq<u8>)> {
    Seq::new(packets.len(), |i: int| (packets[i].0, packets[i].1@))
}

fn sample_address(last: u8) -> (r: [u8; 4])
    ensures
        r@ == seq![10u8, 0u8, 0u8, last],
{
    let r: [u8; 4] = [10, 0, 0, last];
    assert(r@ =~= seq![10u8, 0u8, 0u8, last]);
    r
}

/// The packets of a sample capture.
pub fn capture_packets(spec: &CaptureSpec) -> (packets: Vec<(u64, Vec<u8>)>)
    requires
        spec.sequences@.len() * 1_000_000 <= u64::MAX,
    ensures
        packet_views(packets@) == sample_packets(spec.protocol, spec.sequences@),
{
    let mut packets: Vec<(u64, Vec<u8>)> = Vec::new();
    let ghost all = sample_packets(spec.protocol, spec.sequences@);
    let mut idx: usize = 0;
    proof {
        lemma_sample_addresses();
    }
    while idx < spec.sequences.len()
        invariant
            idx <= spec.sequences.len(),
            spec.sequences@.len() * 1_000_000 <= u64::MAX,
            all == sample_packets(spec.protocol, spec.sequences@),
            packet_views(packets@) =~= all.take(idx as int),
            octets_from("10.0.0.1"@, 0, 0, zeros(4)) == seq![10u8, 0u8, 0u8, 1u8],
            octets_from("10.0.0.2"@, 0, 0, zeros(4)) == seq![10u8, 0u8, 0u8, 2u8],
        decreases spec.sequences.len() - idx,
    {
        let seq: u8 = spec.sequences[idx];
        let slots: [u8; 2] = [seq, 0x00];
        assert(slots@ =~= seq![seq, 0u8]);
        assert(frame_data(slots@) == slots@);
        let frame = match spec.protocol {
            Protocol::Sacn => {
                let payload = build_sacn_payload(seq, slots.as_slice(), 1);
                build_ipv4_udp_packet(
                    "10.0.0.1",
                    "10.0.0.2",
                    SACN_PORT,
                    SACN_PORT,
                    payload.as_slice(),
                )
            },
            Protocol::ArtNet => {
                let payload = build_artnet_payload(seq, slots.as_slice(), 1);
                build_ipv4_udp_packet(
                    "10.0.0.1",
                    "10.0.0.2",
                    ARTNET_PORT,
                    ARTNET_PORT,
                    payload.as_slice(),
                )
            },
        };
        let ts_us: u64 = (idx as u64) * 1_000_000;
        assert(all[idx as int] == (ts_us, frame@));
        let ghost before = packet_views(packets@);
        packets.push((ts_us, frame));
        assert(packet_views(packets@) =~= before.push((ts_us, frame@)));
        idx += 1;
    }
    assert(all.take(all.len() as int) =~= all);
    packets
}

proof fn lemma_sample_addresses()
    ensures
        octets_from("10.0.0.1"@, 0, 0, zeros(4)) == seq![10u8, 0u8, 0u8, 1u8],
        octets_from("10.0.0.2"@, 0, 0, zeros(4)) == seq![10u8, 0u8, 0u8, 2u8],
{
    reveal_strlit("10.0.0.1");
    reveal_strlit("10.0.0.2");
    lemma_sample_address("10.0.0.1"@, '1');
    lemma_sample_address("10.0.0.2"@, '2');
}

proof fn lemma_sample_address(text: Seq<char>, last: char)
    requires
        text =~= seq!['1', '0', '.', '0', '.', '0', '.', last],
        '0' <= last <= '9',
    ensures
        octets_from(text, 0, 0, zeros(4)) == seq![10u8, 0u8, 0u8, (last as u8 - '0' as u8) as u8],
{
    reveal_with_fuel(part_end, 4);
    reveal_with_fuel(octets_from, 5);
    reveal_with_fuel(digits_value, 4);
    assert(part_end(text, 0) == 2);
    assert(part_end(text, 3) == 4);
    assert(part_end(text, 5) == 6);
    assert(part_end(text, 7) == 8);
    let a = text.subrange(0, 2);
    assert(a =~= seq!['1', '0']);
    assert(a.drop_last() =~= seq!['1']);
    assert(a.drop_last().drop_last() =~= Seq::<char>::empty());
    assert(octet_of(a) == Some(10u8));
    let b = text.subrange(3, 4);
    assert(b =~= seq!['0']);
    assert(b.drop_last() =~= Seq::<char>::empty());
    assert(octet_of(b) == Some(0u8));
    let c = text.subrange(5, 6);
    assert(c =~= seq!['0']);
    assert(octet_of(c) == Some(0u8));
    let d = text.subrange(7, 8);
    assert(d =~= seq![last]);
    assert(d.drop_last() =~= Seq::<char>::empty());
    assert(octet_of(d) == Some((last as u8 - '0' as u8) as u8));
    let z = zeros(4);
    let z1 = z.update(0, 10u8);
    let z2 = z1.update(1, 0u8);
    let z3 = z2.update(2, 0u8);
    let z4 = z3.update(3, (last as u8 - '0' as u8) as u8);
    assert(z4 =~= seq![10u8, 0u8, 0u8, (last as u8 - '0' as u8) as u8]);
}

/// The pcapng file of the packets: a section header, one interface
/// description, and an enhanced packet block for each packet.
pub open spec fn capture_file(packets: Seq<(u64, Seq<u8>)>) -> Seq<u8>
    decreases packets.len(),
{
    if packets.len() == 0 {
        block_of(0x0A0D0D0A, section_header()) + block_of(1, interface_description())
    } else {
        capture_file(packets.drop_last()) + block_of(
            6,
            enhanced_packet(packets.last().0, packets.last().1),
        )
    }
}

/// Every packet fits into a block: with the twenty bytes in front of the
/// data and the padding behind it, it is no longer than the longest body.
pub open spec fn packets_fit(packets: Seq<(u64, Vec<u8>)>) -> bool {
    forall|i: int|
        0 <= i < packets.len() ==> 20 + (#[trigger] packets[i]).1@.len() + padding(
            packets[i].1@.len(),
        ) <= MAX_BLOCK_BODY
}

/// The bytes of the pcapng file of the packets.
pub fn pcapng_file(packets: &[(u64, Vec<u8>)]) -> (output: Vec<u8>)
    requires
        packets_fit(packets@),
    ensures
        output@ == capture_file(packet_views(packets@)),
{
    let mut output: Vec<u8> = Vec::new();
    let section = section_header_body();
    let interface = interface_desc_body();
    assert(section@.len() == 16 && interface@.len() == 8);
    let first = pcapng_block(0x0A0D0D0A, section.as_slice());
    push_all(&mut output, first.as_slice());
    let second = pcapng_block(1, interface.as_slice());
    push_all(&mut output, second.as_slice());
    let ghost all = packet_views(packets@);
    assert(all.take(0) =~= Seq::<(u64, Seq<u8>)>::empty());
    let mut i: usize = 0;
    while i < packets.len()
        invariant
            i <= packets.len(),
            packets_fit(packets@),
            all == packet_views(packets@),
            output@ == capture_file(all.take(i as int)),
        decreases packets.len() - i,
    {
        proof {
            assert(all.take(i + 1).drop_last() =~= all.take(i as int));
            assert(all.take(i + 1).last() == (packets@[i as int].0, packets@[i as int].1@));
            assert(20 + packets@[i as int].1@.len() + padding(packets@[i as int].1@.len())
                <= MAX_BLOCK_BODY);
        }
        let body = enhanced_packet_body(packets[i].0, packets[i].1.as_slice());
        let block = pcapng_block(6, body.as_slice());
        push_all(&mut output, block.as_slice());
        i += 1;
    }
    assert(all.take(packets.len() as int) =~= all);
    output
}

} // verus!
