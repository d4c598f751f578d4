//! The UDP decoder: slices a frame with etherparse and keeps the endpoints
//! and the payload of a UDP datagram.

use super::error::{UdpError, UdpErrorView};
use super::reader::{payload_after_header, UdpReader};
use crate::address::IpAddress;
use crate::source::LinkType;
use etherparse::{NetSlice, SlicedPacket, TransportSlice};
use vstd::prelude::*;

verus! {

/// A UDP datagram: its endpoints and its payload.
pub struct UdpPacket<'a> {
    pub src_ip: IpAddress,
    pub src_port: u16,
    pub dst_ip: IpAddress,
    pub dst_port: u16,
    pub payload: &'a [u8],
}

/// The view of `UdpPacket`: its texts as characters, its lists as sequences.
pub struct UdpPacketView {
    pub src_ip: Seq<u8>,
    pub src_port: u16,
    pub dst_ip: Seq<u8>,
    pub dst_port: u16,
    pub payload: Seq<u8>,
}

impl<'a> View for UdpPacket<'a> {
    type V = UdpPacketView;

    open spec fn view(&self) -> UdpPacketView {
        UdpPacketView {
            src_ip: self.src_ip@,
            src_port: self.src_port,
            dst_ip: self.dst_ip@,
            dst_port: self.dst_port,
            payload: self.payload@,
        }
    }
}

/// The network layer of a sliced frame.
pub enum SlicedNet<'a> {
    /// The frame has no network layer.
    Missing,
    /// A network layer that is not IP.
    NotIp,
    /// IPv4: source, destination, and the payload of the IP packet.
    V4([u8; 4], [u8; 4], &'a [u8]),
    /// IPv6: source, destination, and the payload of the IP packet.
    V6([u8; 16], [u8; 16], &'a [u8]),
}

/// What the decoder reads of a sliced frame.
pub struct SlicedFrame<'a> {
    pub net: SlicedNet<'a>,
    /// Source and destination port where the transport layer is UDP.
    pub udp: Option<(u16, u16)>,
}

/// The view of `SlicedNet`: addresses and payload as byte sequences.
pub enum SlicedNetView {
    Missing,
    NotIp,
    Ip { src: Seq<u8>, dst: Seq<u8>, payload: Seq<u8> },
}

/// The view of `SlicedFrame`: its texts as characters, its lists as sequences.
pub struct SlicedFrameView {
    pub net: SlicedNetView,
    pub udp: Option<(u16, u16)>,
}

impl<'a> View for SlicedFrame<'a> {
    type V = SlicedFrameView;

    open spec fn view(&self) -> SlicedFrameView {
        SlicedFrameView {
            net: match self.net {
                SlicedNet::Missing => SlicedNetView::Missing,
                SlicedNet::NotIp => SlicedNetView::NotIp,
                SlicedNet::V4(s, d, p) => SlicedNetView::Ip { src: s@, dst: d@, payload: p@ },
                SlicedNet::V6(s, d, p) => SlicedNetView::Ip { src: s@, dst: d@, payload: p@ },
            },
            udp: self.udp,
        }
    }
}

/// What etherparse makes of `data` read as an Ethernet II frame: the sliced
/// frame, or the text of its error.
pub uninterp spec fn ethernet_slicing(data: Seq<u8>) -> Result<SlicedFrameView, Seq<char>>;

/// What etherparse makes of `data` read as an IP packet: the sliced frame,
/// or the text of its error.
pub uninterp spec fn ip_slicing(data: Seq<u8>) -> Result<SlicedFrameView, Seq<char>>;

/// How a slicing result relates to its model.
pub open spec fn sliced_as(r: Result<SlicedFrame, String>, m: Result<SlicedFrameView, Seq<char>>) -> bool {
    match r {
        Ok(frame) => m == Ok::<SlicedFrameView, Seq<char>>(frame@),
        Err(message) => m == Err::<SlicedFrameView, Seq<char>>(message@),
    }
}

/// `SlicedPacket::from_ethernet`. The result depends on the bytes alone. Of
/// what it returns, the network slice gives the addresses and the IP payload,
/// the transport slice the UDP ports; an error is kept as its text.
#[verifier::external_body]
fn slice_ethernet<'a>(data: &'a [u8]) -> (r: Result<SlicedFrame<'a>, String>)
    ensures
        sliced_as(r, ethernet_slicing(data@)),
{
    let p = SlicedPacket::from_ethernet(data).map_err(|e| e.to_string())?;
    let udp = match &p.transport {
        Some(TransportSlice::Udp(u)) => Some((u.source_port(), u.destination_port())),
        _ => None,
    };
    let net = match &p.net {
        Some(NetSlice::Ipv4(s)) => SlicedNet::V4(s.header().source(), s.header().destination(), s.payload().payload),
        Some(NetSlice::Ipv6(s)) => SlicedNet::V6(s.header().source(), s.header().destination(), s.payload().payload),
        Some(_) => SlicedNet::NotIp,
        None => SlicedNet::Missing,
    };
    Ok(SlicedFrame { net, udp })
}

/// `SlicedPacket::from_ip`. The result depends on the bytes alone. Of what
/// it returns, the network slice gives the addresses and the IP payload, the
/// transport slice the UDP ports; an error is kept as its text.
#[verifier::external_body]
fn slice_ip<'a>(data: &'a [u8]) -> (r: Result<SlicedFrame<'a>, String>)
    ensures
        sliced_as(r, ip_slicing(data@)),
{
    let p = SlicedPacket::from_ip(data).map_err(|e| e.to_string())?;
    let udp = match &p.transport {
        Some(TransportSlice::Udp(u)) => Some((u.source_port(), u.destination_port())),
        _ => None,
    };
    let net = match &p.net {
        Some(NetSlice::Ipv4(s)) => SlicedNet::V4(s.header().source(), s.header().destination(), s.payload().payload),
        Some(NetSlice::Ipv6(s)) => SlicedNet::V6(s.header().source(), s.header().destination(), s.payload().payload),
        Some(_) => SlicedNet::NotIp,
        None => SlicedNet::Missing,
    };
    Ok(SlicedFrame { net, udp })
}

/// What a sliced frame decodes to.
///
/// A frame that carries no IP packet, be it that it has no network layer or
/// one that is not IP, is an error. An IP packet whose transport layer is
/// not UDP is not a datagram and decodes to nothing. The IP payload of a
/// datagram must hold the UDP header.
pub open spec fn udp_from_frame(frame: SlicedFrameView) -> Result<Option<UdpPacketView>, UdpErrorView> {
    match frame.net {
        SlicedNetView::Missing => Err(UdpErrorView::MissingNetworkLayer),
        SlicedNetView::NotIp => Err(UdpErrorView::MissingNetworkLayer),
        SlicedNetView::Ip { src, dst, payload } => match frame.udp {
            None => Ok(None),
            Some(ports) => match payload_after_header(payload) {
                Err(e) => Err(e),
                Ok(rest) => Ok(
                    Some(
                        UdpPacketView {
                            src_ip: src,
                            src_port: ports.0,
                            dst_ip: dst,
                            dst_port: ports.1,
                            payload: rest,
                        },
                    ),
                ),
            },
        },
    }
}

/// What a captured frame decodes to: frames of a link type other than
/// Ethernet and raw IP decode to nothing, and a frame that cannot be sliced
/// is an error that holds the slicer's words.
pub open spec fn udp_of(linktype: LinkType, data: Seq<u8>) -> Result<Option<UdpPacketView>, UdpErrorView> {
    match linktype {
        LinkType::Other => Ok(None),
        LinkType::Ethernet => match ethernet_slicing(data) {
            Err(message) => Err(UdpErrorView::Slice(message)),
            Ok(frame) => udp_from_frame(frame),
        },
        LinkType::Raw => match ip_slicing(data) {
            Err(message) => Err(UdpErrorView::Slice(message)),
            Ok(frame) => udp_from_frame(frame),
        },
    }
}

/// How a decoder's answer relates to its model.
pub open spec fn udp_decoded_as(
    r: Result<Option<UdpPacket>, UdpError>,
    m: Result<Option<UdpPacketView>, UdpErrorView>,
) -> bool {
    match r {
        Ok(Some(packet)) => m == Ok::<Option<UdpPacketView>, UdpErrorView>(Some(packet@)),
        Ok(None) => m == Ok::<Option<UdpPacketView>, UdpErrorView>(None),
        Err(e) => m == Err::<Option<UdpPacketView>, UdpErrorView>(e@),
    }
}

/// Decodes the UDP datagram of a sliced frame.
pub fn udp_from_slice<'a>(frame: SlicedFrame<'a>) -> (r: Result<Option<UdpPacket<'a>>, UdpError>)
    ensures
        udp_decoded_as(r, udp_from_frame(frame@)),
{
    let (src_ip, dst_ip, ip_payload) = match frame.net {
        SlicedNet::Missing => { return Err(UdpError::MissingNetworkLayer); },
        SlicedNet::NotIp => { return Err(UdpError::MissingNetworkLayer); },
        SlicedNet::V4(s, d, p) => (IpAddress::V4(s), IpAddress::V4(d), p),
        SlicedNet::V6(s, d, p) => (IpAddress::V6(s), IpAddress::V6(d), p),
    };
    let (src_port, dst_port) = match frame.udp {
        None => { return Ok(None); },
        Some(ports) => ports,
    };
    let reader = UdpReader::new(ip_payload);
    match reader.payload_without_header() {
        Err(e) => Err(e),
        Ok(payload) => Ok(Some(UdpPacket { src_ip, src_port, dst_ip, dst_port, payload })),
    }
}

/// Decodes a UDP datagram from a captured frame.
pub fn parse_udp_packet<'a>(linktype: LinkType, data: &'a [u8]) -> (r: Result<
    Option<UdpPacket<'a>>,
    UdpError,
>)
    ensures
        udp_decoded_as(r, udp_of(linktype, data@)),
{
    let sliced = match linktype {
        LinkType::Ethernet => slice_ethernet(data),
        LinkType::Raw => slice_ip(data),
        LinkType::Other => { return Ok(None); },
    };
    match sliced {
        Err(message) => Err(UdpError::Slice(message)),
        Ok(frame) => udp_from_slice(frame),
    }
}

} // verus!
