//! ICMP: the type and code word, the code-specific data, and the trailing
//! bytes.

use vstd::prelude::*;
use crate::centrifuge::ArwahCentrifugeError;
use crate::packet::{ArwahICMP, ArwahIcmpData, ArwahIcmpHeader};
use crate::bytes::arwah_tail;

verus! {

/// How many bytes the header takes for a given type and code word: the
/// unreachable, redirect and time-exceeded families carry four extra
/// bytes, an inner IP header and eight payload bytes.
pub open spec fn spec_icmp_header_len(code: int) -> int {
    let t = code / 256;
    let c = code % 256;
    if (t == 3 && c <= 15) || (t == 5 && c <= 3) || (t == 11 && c <= 1) {
        36
    } else {
        4
    }
}

/// Whether the bytes open with a readable ICMP header, its code-specific
/// data included.
pub open spec fn spec_icmp_accepts(b: Seq<u8>) -> bool {
    b.len() >= 4 && spec_icmp_header_len(b[0] as int * 256 + b[1] as int) <= b.len()
}

/// What a successful ICMP parse of the bytes holds: the type and code
/// word, the checksum, the code-specific data of the families that carry
/// one, and the rest of the bytes verbatim.
pub open spec fn spec_icmp_parse_ok(b: Seq<u8>, h: ArwahIcmpHeader, i: ArwahICMP) -> bool {
    let code = b[0] as int * 256 + b[1] as int;
    let t = code / 256;
    let c = code % 256;
    &&& spec_icmp_accepts(b)
    &&& h.code == code
    &&& h.checksum == b[2] as int * 256 + b[3] as int
    &&& i.data@ == b.skip(spec_icmp_header_len(code))
    &&& (t == 3 && c <= 15 ==> h.data == ArwahIcmpData::Unreachable {
        nexthop_mtu: (b[6] as int * 256 + b[7] as int) as u16,
    })
    &&& (t == 5 && c <= 3 ==> (h.data matches ArwahIcmpData::Redirect { gateway } && forall|
        k: int,
    |
        0 <= k < 4 ==> gateway@[k] == b[4 + k]))
    &&& (t == 11 && c <= 1 ==> h.data == ArwahIcmpData::TimeExceeded)
    &&& (spec_icmp_header_len(code) == 4 ==> h.data == ArwahIcmpData::Empty)
}

/// Parses the ICMP layer: the type, code and checksum, then the
/// code-specific data for the families that carry one, and the rest of the
/// bytes verbatim.
pub fn arwah_parse(remaining: &Vec<u8>) -> (r: Result<
    (ArwahIcmpHeader, ArwahICMP),
    ArwahCentrifugeError,
>)
    ensures
        r is Ok <==> spec_icmp_accepts(remaining@),
        r matches Err(e) ==> e == ArwahCentrifugeError::InvalidPacket,
        r matches Ok(p) ==> spec_icmp_parse_ok(remaining@, p.0, p.1),
{
    if remaining.len() < 4 {
        return Err(ArwahCentrifugeError::InvalidPacket);
    }
    let t = remaining[0];
    let c = remaining[1];
    let checksum = (remaining[2] as u16) * 256 + (remaining[3] as u16);
    let code: u16 = (t as u16) * 256 + (c as u16);
    let unreachable = t == 3 && c <= 15;
    let redirect = t == 5 && c <= 3;
    let time_exceeded = t == 11 && c <= 1;
    if unreachable || redirect || time_exceeded {
        if remaining.len() < 36 {
            return Err(ArwahCentrifugeError::InvalidPacket);
        }
        let data = if unreachable {
            ArwahIcmpData::Unreachable {
                nexthop_mtu: (remaining[6] as u16) * 256 + (remaining[7] as u16),
            }
        } else if redirect {
            ArwahIcmpData::Redirect { gateway: crate::arp::arwah_addr4_at(remaining, 4) }
        } else {
            ArwahIcmpData::TimeExceeded
        };
        let header = ArwahIcmpHeader { code, checksum, data };
        let rest = arwah_tail(remaining, 36);
        Ok((header, ArwahICMP { data: rest }))
    } else {
        let header = ArwahIcmpHeader { code, checksum, data: ArwahIcmpData::Empty };
        let rest = arwah_tail(remaining, 4);
        Ok((header, ArwahICMP { data: rest }))
    }
}

} // verus!
