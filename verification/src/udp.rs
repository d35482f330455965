//! UDP: the eight-byte header, and classification of the payload by port
//! pair or content.

use vstd::prelude::*;
use vstd::utf8::{decode_utf8, valid_utf8};
use crate::centrifuge::ArwahCentrifugeError;
use crate::packet::{ArwahUdpHeader, ARWAH_UDP};
use crate::bytes::{arwah_contains_zero, arwah_tail, arwah_utf8_text, spec_has_zero};
use crate::dhcp;
use crate::dns;
use crate::dropbox;
use crate::ssdp;

verus! {

/// The UDP header read from eight bytes.
pub open spec fn spec_udp_header(b: Seq<u8>) -> ArwahUdpHeader {
    ArwahUdpHeader {
        source_port: (b[0] * 256 + b[1]) as u16,
        dest_port: (b[2] * 256 + b[3]) as u16,
        length: (b[4] * 256 + b[5]) as u16,
        checksum: (b[6] * 256 + b[7]) as u16,
    }
}

/// Parses the UDP header: eight bytes, big-endian fields.
pub fn arwah_parse_udp_header(b: &Vec<u8>) -> (r: Option<ArwahUdpHeader>)
    ensures
        r is Some <==> b@.len() >= 8,
        r matches Some(h) ==> h == spec_udp_header(b@),
{
    if b.len() < 8 {
        return None;
    }
    Some(
        ArwahUdpHeader {
            source_port: (b[0] as u16) * 256 + (b[1] as u16),
            dest_port: (b[2] as u16) * 256 + (b[3] as u16),
            length: (b[4] as u16) * 256 + (b[5] as u16),
            checksum: (b[6] as u16) * 256 + (b[7] as u16),
        },
    )
}

/// What the payload-sniffing classification of an unclaimed UDP payload
/// leaves: a zero byte or invalid text is binary, and clean text is SSDP
/// exactly when its request line is one of the SSDP forms.
pub open spec fn spec_udp_sniff_ok(payload: Seq<u8>, c: ARWAH_UDP) -> bool {
    if spec_has_zero(payload) || !valid_utf8(payload) {
        c matches ARWAH_UDP::Binary(b) && b@ == payload
    } else if ssdp::spec_ssdp_accepts(decode_utf8(payload)) {
        c matches ARWAH_UDP::SSDP(m) && ssdp::spec_ssdp_result_ok(decode_utf8(payload), m)
    } else {
        c matches ARWAH_UDP::Text(t) && t@ == decode_utf8(payload)
    }
}

/// Classifies a UDP payload that no port pair claimed: bytes holding a
/// zero are binary; text is tried as SSDP and otherwise kept as text; the
/// rest is binary.
pub fn arwah_unknown(remaining: &Vec<u8>) -> (r: ARWAH_UDP)
    ensures
        spec_udp_sniff_ok(remaining@, r),
{
    proof {
        assert(remaining@.skip(0) =~= remaining@);
    }
    if arwah_contains_zero(remaining) {
        return ARWAH_UDP::Binary(arwah_tail(remaining, 0));
    }
    match arwah_utf8_text(remaining) {
        Some(text) => {
            match ssdp::arwah_parse_ssdp(text.as_str()) {
                Ok(msg) => ARWAH_UDP::SSDP(msg),
                Err(_) => ARWAH_UDP::Text(text),
            }
        },
        None => ARWAH_UDP::Binary(arwah_tail(remaining, 0)),
    }
}

/// Whether the port pair hands the payload to the DNS dissector.
pub open spec fn spec_udp_is_dns(h: ArwahUdpHeader) -> bool {
    h.dest_port == 53 || h.source_port == 53
}

/// Whether the port pair hands the payload to the DHCP dissector.
pub open spec fn spec_udp_is_dhcp(h: ArwahUdpHeader) -> bool {
    (h.dest_port == 67 && h.source_port == 68) || (h.dest_port == 68 && h.source_port == 67)
}

/// Whether the port pair hands the payload to the beacon dissector.
pub open spec fn spec_udp_is_dropbox(h: ArwahUdpHeader) -> bool {
    h.source_port == 17500 && h.dest_port == 17500
}

/// Classifies a UDP payload by its port pair: port 53 on either side is
/// DNS, 67 against 68 is DHCP, 17500 both sides is a Dropbox beacon, an
/// empty payload is empty binary, and any other pair is no known protocol.
pub fn arwah_extract(udp_header: &ArwahUdpHeader, remaining: &Vec<u8>) -> (r: Result<
    ARWAH_UDP,
    ArwahCentrifugeError,
>)
    ensures
        remaining@.len() == 0 ==> (r matches Ok(v) && v matches ARWAH_UDP::Binary(b) && b@.len()
            == 0),
        remaining@.len() > 0 ==> ({
            &&& spec_udp_is_dns(*udp_header) ==> (if dns::spec_dns_of(remaining@) is Some {
                r matches Ok(v) && v matches ARWAH_UDP::DNS(d) && dns::spec_dns_result_ok(
                    remaining@,
                    d,
                )
            } else {
                r == Err::<ARWAH_UDP, _>(ArwahCentrifugeError::WrongProtocol)
            })
            &&& !spec_udp_is_dns(*udp_header) && spec_udp_is_dhcp(*udp_header) ==> (
            if dhcp::spec_dhcp_of(remaining@) is Some {
                r matches Ok(v) && v matches ARWAH_UDP::DHCP(d) && dhcp::spec_dhcp_result_ok(
                    remaining@,
                    d,
                )
            } else {
                r == Err::<ARWAH_UDP, _>(ArwahCentrifugeError::InvalidPacket)
            })
            &&& !spec_udp_is_dns(*udp_header) && !spec_udp_is_dhcp(*udp_header)
                && spec_udp_is_dropbox(*udp_header) ==> (if dropbox::spec_dropbox_accepts(
                remaining@,
            ) {
                r matches Ok(v) && v matches ARWAH_UDP::Dropbox(d) && dropbox::spec_dropbox_result_ok(
                    remaining@,
                    d,
                )
            } else {
                r == Err::<ARWAH_UDP, _>(ArwahCentrifugeError::InvalidPacket)
            })
            &&& !spec_udp_is_dns(*udp_header) && !spec_udp_is_dhcp(*udp_header)
                && !spec_udp_is_dropbox(*udp_header) ==> r == Err::<ARWAH_UDP, _>(
                ArwahCentrifugeError::UnknownProtocol,
            )
        }),
{
    if remaining.len() == 0 {
        return Ok(ARWAH_UDP::Binary(Vec::new()));
    }
    if udp_header.dest_port == 53 || udp_header.source_port == 53 {
        return match dns::arwah_extract(remaining) {
            Ok(msg) => Ok(ARWAH_UDP::DNS(msg)),
            Err(e) => Err(e),
        };
    }
    if (udp_header.dest_port == 67 && udp_header.source_port == 68) || (udp_header.dest_port == 68
        && udp_header.source_port == 67) {
        return match dhcp::arwah_extract(remaining) {
            Ok(msg) => Ok(ARWAH_UDP::DHCP(msg)),
            Err(e) => Err(e),
        };
    }
    if udp_header.source_port == 17500 && udp_header.dest_port == 17500 {
        return match dropbox::arwah_extract(remaining) {
            Ok(beacon) => Ok(ARWAH_UDP::Dropbox(beacon)),
            Err(e) => Err(e),
        };
    }
    Err(ArwahCentrifugeError::UnknownProtocol)
}

/// What classifying a UDP payload under its header leaves: a claimed port
/// pair decides the protocol and its parse decides success; an unclaimed
/// or unparseable payload is sniffed into SSDP, text or binary.
pub open spec fn spec_udp_class_ok(h: ArwahUdpHeader, payload: Seq<u8>, c: ARWAH_UDP) -> bool {
    if payload.len() == 0 {
        c matches ARWAH_UDP::Binary(b) && b@.len() == 0
    } else if spec_udp_is_dns(h) {
        if dns::spec_dns_of(payload) is Some {
            c matches ARWAH_UDP::DNS(d) && dns::spec_dns_result_ok(payload, d)
        } else {
            spec_udp_sniff_ok(payload, c)
        }
    } else if spec_udp_is_dhcp(h) {
        if dhcp::spec_dhcp_of(payload) is Some {
            c matches ARWAH_UDP::DHCP(d) && dhcp::spec_dhcp_result_ok(payload, d)
        } else {
            spec_udp_sniff_ok(payload, c)
        }
    } else if spec_udp_is_dropbox(h) {
        if dropbox::spec_dropbox_accepts(payload) {
            c matches ARWAH_UDP::Dropbox(d) && dropbox::spec_dropbox_result_ok(payload, d)
        } else {
            spec_udp_sniff_ok(payload, c)
        }
    } else {
        spec_udp_sniff_ok(payload, c)
    }
}

/// What a successful UDP parse of the bytes holds: the eight-byte header
/// and the classified payload past it.
pub open spec fn spec_udp_parse_ok(b: Seq<u8>, h: ArwahUdpHeader, c: ARWAH_UDP) -> bool {
    &&& b.len() >= 8
    &&& h == spec_udp_header(b)
    &&& spec_udp_class_ok(h, b.skip(8), c)
}

/// Parses the UDP layer: the header, then the payload classified, with an
/// unclaimed payload kept as text or bytes.
pub fn arwah_parse(remaining: &Vec<u8>) -> (r: Result<
    (ArwahUdpHeader, ARWAH_UDP),
    ArwahCentrifugeError,
>)
    ensures
        remaining@.len() < 8 <==> r is Err,
        r matches Err(e) ==> e == ArwahCentrifugeError::InvalidPacket,
        r matches Ok(p) ==> spec_udp_parse_ok(remaining@, p.0, p.1),
{
    match arwah_parse_udp_header(remaining) {
        Some(header) => {
            let payload = arwah_tail(remaining, 8);
            let inner = match arwah_extract(&header, &payload) {
                Ok(x) => x,
                Err(_) => arwah_unknown(&payload),
            };
            proof {
                assert(spec_udp_class_ok(header, payload@, inner));
            }
            Ok((header, inner))
        },
        None => Err(ArwahCentrifugeError::InvalidPacket),
    }
}

} // verus!
