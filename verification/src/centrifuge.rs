//! The centrifuge: best-effort, layered dissection of a raw frame into the
//! packet tree.  Every decoder either consumes a prefix or fails, and every
//! failure leaves the remaining bytes verbatim under an `Unknown` variant.

use vstd::prelude::*;
use crate::link::ArwahDataLink;
use crate::packet::{ArwahEther, ArwahEthernetFrame, ArwahIPv4, ArwahIPv6, ArwahRaw};
use crate::bytes::arwah_tail;
use crate::arp;
use crate::cjdns;
use crate::icmp;
use crate::ip::{
    arwah_parse_ipv4_header,
    arwah_parse_ipv6_header,
    spec_ipv4_header_fields,
    spec_ipv6_header_scalar_fields,
};
use crate::tcp;
use crate::udp;

verus! {

/// Why a decoder gave up: a structural failure, a recognizable but
/// inapplicable format, exhaustion of the alternatives, or an internal
/// inconsistency in a recognized protocol.
#[derive(Debug, Clone, Copy, PartialEq, Eq, Structural)]
pub enum ArwahCentrifugeError {
    WrongProtocol,
    ParsingError,
    UnknownProtocol,
    InvalidPacket,
}

/// What the transport layer under an IPv4 header holds: the protocol
/// number dispatches to TCP, UDP or ICMP, a failed or unknown transport
/// keeps the payload bytes verbatim, and a successful one carries that
/// parser's result.
pub open spec fn spec_ipv4_payload_ok(h: crate::packet::ArwahIPv4Header, payload: Seq<u8>, inner: ArwahIPv4) -> bool {
    if h.protocol == 6 {
        if tcp::spec_tcp_header_accepts(payload) {
            inner matches ArwahIPv4::TCP(th, tc) && tcp::spec_tcp_parse_ok(payload, th, tc)
        } else {
            inner matches ArwahIPv4::Unknown(d) && d@ == payload
        }
    } else if h.protocol == 17 {
        if payload.len() >= 8 {
            inner matches ArwahIPv4::UDP(uh, uc) && udp::spec_udp_parse_ok(payload, uh, uc)
        } else {
            inner matches ArwahIPv4::Unknown(d) && d@ == payload
        }
    } else if h.protocol == 1 {
        if icmp::spec_icmp_accepts(payload) {
            inner matches ArwahIPv4::ICMP(ih, ic) && icmp::spec_icmp_parse_ok(payload, ih, ic)
        } else {
            inner matches ArwahIPv4::Unknown(d) && d@ == payload
        }
    } else {
        inner matches ArwahIPv4::Unknown(d) && d@ == payload
    }
}

/// What decoding bytes as an IPv4 packet holds: a short input is kept
/// verbatim, and otherwise the exact header stands over its dispatched
/// payload.
pub open spec fn spec_ipv4_result_ok(data: Seq<u8>, r: ArwahEther) -> bool {
    if data.len() < 20 {
        r matches ArwahEther::Unknown(d) && d@ == data
    } else {
        r matches ArwahEther::IPv4(h, inner) && spec_ipv4_header_fields(data, h)
            && spec_ipv4_payload_ok(h, data.skip(20), inner)
    }
}

/// What the transport layer under an IPv6 header holds: the next-header
/// number dispatches to TCP or UDP, and anything else keeps the payload.
pub open spec fn spec_ipv6_payload_ok(h: crate::packet::ArwahIPv6Header, payload: Seq<u8>, inner: ArwahIPv6) -> bool {
    if h.next_header == 6 {
        if tcp::spec_tcp_header_accepts(payload) {
            inner matches ArwahIPv6::TCP(th, tc) && tcp::spec_tcp_parse_ok(payload, th, tc)
        } else {
            inner matches ArwahIPv6::Unknown(d) && d@ == payload
        }
    } else if h.next_header == 17 {
        if payload.len() >= 8 {
            inner matches ArwahIPv6::UDP(uh, uc) && udp::spec_udp_parse_ok(payload, uh, uc)
        } else {
            inner matches ArwahIPv6::Unknown(d) && d@ == payload
        }
    } else {
        inner matches ArwahIPv6::Unknown(d) && d@ == payload
    }
}

/// What decoding bytes as an IPv6 packet holds.
pub open spec fn spec_ipv6_result_ok(data: Seq<u8>, r: ArwahEther) -> bool {
    if data.len() < 40 {
        r matches ArwahEther::Unknown(d) && d@ == data
    } else {
        r matches ArwahEther::IPv6(h, inner) && spec_ipv6_header_scalar_fields(data, h)
            && spec_ipv6_payload_ok(h, data.skip(40), inner)
    }
}

/// What the network layer under an Ethernet-level type holds: the type
/// dispatches to IPv4, IPv6, ARP or the CJDNS beacon; any failure and any
/// other type keep the payload bytes verbatim.
pub open spec fn spec_ether_payload_ok(ethertype: u16, payload: Seq<u8>, r: ArwahEther) -> bool {
    if ethertype == 0x0800 {
        spec_ipv4_result_ok(payload, r)
    } else if ethertype == 0x86dd {
        spec_ipv6_result_ok(payload, r)
    } else if ethertype == 0x0806 {
        if arp::spec_arp_accepts(payload) {
            r matches ArwahEther::Arp(v) && arp::spec_arp_result_ok(payload, v)
        } else {
            r matches ArwahEther::Unknown(d) && d@ == payload
        }
    } else if ethertype == 0xfc00 {
        if cjdns::spec_cjdns_beacon(payload) {
            r matches ArwahEther::Cjdns(pkt) && cjdns::spec_cjdns_result_ok(payload, pkt)
        } else {
            r matches ArwahEther::Unknown(d) && d@ == payload
        }
    } else {
        r matches ArwahEther::Unknown(d) && d@ == payload
    }
}

/// Parses an Ethernet header: six destination bytes, six source bytes and
/// the big-endian type.
pub fn arwah_parse_eth_header(b: &Vec<u8>) -> (r: Option<ArwahEthernetFrame>)
    ensures
        r is Some <==> b@.len() >= 14,
        r matches Some(h) ==> (forall|k: int| 0 <= k < 6 ==> h.dest_mac@[k] == b@[k]) && (
        forall|k: int| 0 <= k < 6 ==> h.source_mac@[k] == b@[6 + k]) && h.ethertype == b@[12] as u16
            * 256 + b@[13] as u16,
{
    if b.len() < 14 {
        return None;
    }
    Some(
        ArwahEthernetFrame {
            dest_mac: [b[0], b[1], b[2], b[3], b[4], b[5]],
            source_mac: [b[6], b[7], b[8], b[9], b[10], b[11]],
            ethertype: (b[12] as u16) * 256 + (b[13] as u16),
        },
    )
}

/// Decodes the network layer under an Ethernet-level header, by its type:
/// IPv4, IPv6, ARP and the CJDNS beacon are tried, and any failure or any
/// other type keeps the bytes as they are.
pub fn arwah_parse_ether_payload(ethertype: u16, remaining: &Vec<u8>) -> (r: ArwahEther)
    ensures
        spec_ether_payload_ok(ethertype, remaining@, r),
{
    proof {
        assert(remaining@.skip(0) =~= remaining@);
    }
    if ethertype == 0x0800 {
        match arwah_parse_ipv4(remaining) {
            Ok(inner) => inner,
            Err(_) => ArwahEther::Unknown(arwah_tail(remaining, 0)),
        }
    } else if ethertype == 0x86dd {
        match arwah_parse_ipv6(remaining) {
            Ok(inner) => inner,
            Err(_) => ArwahEther::Unknown(arwah_tail(remaining, 0)),
        }
    } else if ethertype == 0x0806 {
        match arp::arwah_extract(remaining) {
            Ok(arp_pkt) => ArwahEther::Arp(arp_pkt),
            Err(_) => ArwahEther::Unknown(arwah_tail(remaining, 0)),
        }
    } else if ethertype == 0xfc00 {
        match cjdns::arwah_parse(remaining) {
            Ok(beacon) => ArwahEther::Cjdns(beacon),
            Err(_) => ArwahEther::Unknown(arwah_tail(remaining, 0)),
        }
    } else {
        ArwahEther::Unknown(arwah_tail(remaining, 0))
    }
}

/// Parses an Ethernet frame: the fourteen-byte header, then the network
/// layer under the frame's type.
pub fn arwah_parse_eth(data: &Vec<u8>) -> (r: Result<ArwahRaw, ArwahCentrifugeError>)
    ensures
        r is Err <==> data@.len() < 14,
        r matches Err(e) ==> e == ArwahCentrifugeError::InvalidPacket,
        r matches Ok(v) ==> (v matches ArwahRaw::Ether(h, inner) && (forall|k: int|
            0 <= k < 6 ==> h.dest_mac@[k] == data@[k]) && (forall|k: int|
            0 <= k < 6 ==> h.source_mac@[k] == data@[6 + k]) && h.ethertype == data@[12] as u16
            * 256 + data@[13] as u16 && spec_ether_payload_ok(h.ethertype, data@.skip(14), inner)),
{
    match arwah_parse_eth_header(data) {
        Some(frame) => {
            let remaining = arwah_tail(data, 14);
            let ethertype = frame.ethertype;
            let inner = arwah_parse_ether_payload(ethertype, &remaining);
            Ok(ArwahRaw::Ether(frame, inner))
        },
        None => Err(ArwahCentrifugeError::InvalidPacket),
    }
}

/// Parses the transport layer under an IPv4 header, by protocol number:
/// TCP, UDP and ICMP are tried, and any failure or any other protocol
/// keeps the bytes.
pub fn arwah_parse_ipv4(data: &Vec<u8>) -> (r: Result<ArwahEther, ArwahCentrifugeError>)
    ensures
        r is Ok,
        r matches Ok(v) ==> spec_ipv4_result_ok(data@, v),
{
    proof {
        assert(data@.skip(0) =~= data@);
    }
    match arwah_parse_ipv4_header(data) {
        Some(header) => {
            let remaining = arwah_tail(data, 20);
            let protocol = header.protocol;
            let inner = if protocol == 6 {
                match tcp::arwah_parse(&remaining) {
                    Ok((tcp_header, tcp_inner)) => ArwahIPv4::TCP(tcp_header, tcp_inner),
                    Err(_) => ArwahIPv4::Unknown(arwah_tail(&remaining, 0)),
                }
            } else if protocol == 17 {
                match udp::arwah_parse(&remaining) {
                    Ok((udp_header, udp_inner)) => ArwahIPv4::UDP(udp_header, udp_inner),
                    Err(_) => ArwahIPv4::Unknown(arwah_tail(&remaining, 0)),
                }
            } else if protocol == 1 {
                match icmp::arwah_parse(&remaining) {
                    Ok((icmp_header, icmp_inner)) => ArwahIPv4::ICMP(icmp_header, icmp_inner),
                    Err(_) => ArwahIPv4::Unknown(arwah_tail(&remaining, 0)),
                }
            } else {
                ArwahIPv4::Unknown(arwah_tail(&remaining, 0))
            };
            proof {
                assert(remaining@.skip(0) =~= remaining@);
            }
            Ok(ArwahEther::IPv4(header, inner))
        },
        None => Ok(ArwahEther::Unknown(arwah_tail(data, 0))),
    }
}

/// Parses the transport layer under an IPv6 header, by next-header number:
/// TCP and UDP are tried, and any failure or any other protocol keeps the
/// bytes.
pub fn arwah_parse_ipv6(data: &Vec<u8>) -> (r: Result<ArwahEther, ArwahCentrifugeError>)
    ensures
        r is Ok,
        r matches Ok(v) ==> spec_ipv6_result_ok(data@, v),
{
    proof {
        assert(data@.skip(0) =~= data@);
    }
    match arwah_parse_ipv6_header(data) {
        Some(header) => {
            let remaining = arwah_tail(data, 40);
            let next_header = header.next_header;
            let inner = if next_header == 6 {
                match tcp::arwah_parse(&remaining) {
                    Ok((tcp_header, tcp_inner)) => ArwahIPv6::TCP(tcp_header, tcp_inner),
                    Err(_) => ArwahIPv6::Unknown(arwah_tail(&remaining, 0)),
                }
            } else if next_header == 17 {
                match udp::arwah_parse(&remaining) {
                    Ok((udp_header, udp_inner)) => ArwahIPv6::UDP(udp_header, udp_inner),
                    Err(_) => ArwahIPv6::Unknown(arwah_tail(&remaining, 0)),
                }
            } else {
                ArwahIPv6::Unknown(arwah_tail(&remaining, 0))
            };
            proof {
                assert(remaining@.skip(0) =~= remaining@);
            }
            Ok(ArwahEther::IPv6(header, inner))
        },
        None => Ok(ArwahEther::Unknown(arwah_tail(data, 0))),
    }
}

/// Parses a TUN frame: a bare IPv4 packet.
pub fn arwah_parse_tun(data: &Vec<u8>) -> (r: ArwahRaw)
    ensures
        r matches ArwahRaw::Tun(inner) && spec_ipv4_result_ok(data@, inner),
{
    proof {
        assert(data@.skip(0) =~= data@);
    }
    match arwah_parse_ipv4(data) {
        Ok(inner) => ArwahRaw::Tun(inner),
        Err(_) => ArwahRaw::Tun(ArwahEther::Unknown(arwah_tail(data, 0))),
    }
}

/// Parses a Linux cooked capture frame: a sixteen-byte pseudo header whose
/// final big-endian field names the protocol, then the network layer.
pub fn arwah_parse_sll(data: &Vec<u8>) -> (r: ArwahRaw)
    ensures
        data@.len() < 16 ==> (r matches ArwahRaw::Sll(e) && e matches ArwahEther::Unknown(d) && d@
            == data@),
        data@.len() >= 16 ==> (r matches ArwahRaw::Sll(e) && spec_ether_payload_ok(
            (data@[14] as u16 * 256 + data@[15] as u16) as u16,
            data@.skip(16),
            e,
        )),
{
    if data.len() < 16 {
        proof {
            assert(data@.skip(0) =~= data@);
        }
        return ArwahRaw::Sll(ArwahEther::Unknown(arwah_tail(data, 0)));
    }
    let protocol = (data[14] as u16) * 256 + (data[15] as u16);
    let remaining = arwah_tail(data, 16);
    ArwahRaw::Sll(arwah_parse_ether_payload(protocol, &remaining))
}

/// Dissects one captured frame by its link type.  The result always
/// carries every input byte, decoded or kept verbatim, and the dissection
/// is total: no input leads anywhere but to a tree.
pub fn arwah_parse(link: &ArwahDataLink, data: &Vec<u8>) -> (r: ArwahRaw)
    ensures
        link is Ethernet ==> (if data@.len() < 14 {
            r matches ArwahRaw::Unknown(d) && d@ == data@
        } else {
            r matches ArwahRaw::Ether(h, inner) && (forall|k: int|
                0 <= k < 6 ==> h.dest_mac@[k] == data@[k]) && (forall|k: int|
                0 <= k < 6 ==> h.source_mac@[k] == data@[6 + k]) && h.ethertype == data@[12] as u16
                * 256 + data@[13] as u16 && spec_ether_payload_ok(
                h.ethertype,
                data@.skip(14),
                inner,
            )
        }),
        link is Tun ==> (r matches ArwahRaw::Tun(inner) && spec_ipv4_result_ok(data@, inner)),
        link is Sll ==> (if data@.len() < 16 {
            r matches ArwahRaw::Sll(e) && e matches ArwahEther::Unknown(d) && d@ == data@
        } else {
            r matches ArwahRaw::Sll(e) && spec_ether_payload_ok(
                (data@[14] as u16 * 256 + data@[15] as u16) as u16,
                data@.skip(16),
                e,
            )
        }),
        link is RadioTap ==> (r matches ArwahRaw::Unknown(d) && d@ == data@),
{
    proof {
        assert(data@.skip(0) =~= data@);
    }
    match link {
        ArwahDataLink::Ethernet => match arwah_parse_eth(data) {
            Ok(eth) => eth,
            Err(_) => ArwahRaw::Unknown(arwah_tail(data, 0)),
        },
        ArwahDataLink::Tun => arwah_parse_tun(data),
        ArwahDataLink::Sll => arwah_parse_sll(data),
        ArwahDataLink::RadioTap => ArwahRaw::Unknown(arwah_tail(data, 0)),
    }
}

} // verus!
