//! ARP: the fixed twenty-eight byte Ethernet/IPv4 packet.

use vstd::prelude::*;
use crate::centrifuge::ArwahCentrifugeError;
use crate::packet::{ArwahArpOperation, ArwahArpPacket, ARWAH_ARP};

verus! {

/// Reads six bytes into an array.
fn arwah_mac_at(b: &Vec<u8>, at: usize) -> (r: [u8; 6])
    requires
        at + 6 <= b@.len(),
    ensures
        forall|k: int| 0 <= k < 6 ==> r@[k] == b@[at + k],
{
    let n = b.len();
    [b[at], b[at + 1], b[at + 2], b[at + 3], b[at + 4], b[at + 5]]
}

/// Reads four bytes into an array.
pub fn arwah_addr4_at(b: &Vec<u8>, at: usize) -> (r: [u8; 4])
    requires
        at + 4 <= b@.len(),
    ensures
        forall|k: int| 0 <= k < 4 ==> r@[k] == b@[at + k],
{
    let n = b.len();
    [b[at], b[at + 1], b[at + 2], b[at + 3]]
}

/// Whether the bytes are an ARP packet the dissector keeps: twenty-eight
/// bytes whose operation word is a request or a reply.
pub open spec fn spec_arp_accepts(b: Seq<u8>) -> bool {
    b.len() >= 28 && (b[6] as u16 * 256 + b[7] as u16 == 1 || b[6] as u16 * 256 + b[7] as u16
        == 2)
}

/// What a successful ARP extraction of the bytes holds: the variant from
/// the operation word, and every field from its fixed offset.
pub open spec fn spec_arp_result_ok(b: Seq<u8>, v: ARWAH_ARP) -> bool {
    let packet = match v {
        ARWAH_ARP::Request(p) => p,
        ARWAH_ARP::Reply(p) => p,
    };
    &&& (v matches ARWAH_ARP::Request(_) <==> b[6] as u16 * 256 + b[7] as u16 == 1)
    &&& packet.hw_addr_type == b[0] as u16 * 256 + b[1] as u16
    &&& packet.proto_addr_type == b[2] as u16 * 256 + b[3] as u16
    &&& packet.hw_addr_size == b[4]
    &&& packet.proto_addr_size == b[5]
    &&& (forall|k: int| 0 <= k < 6 ==> packet.src_mac@[k] == b[8 + k])
    &&& (forall|k: int| 0 <= k < 4 ==> packet.src_addr@[k] == b[14 + k])
    &&& (forall|k: int| 0 <= k < 6 ==> packet.dest_mac@[k] == b[18 + k])
    &&& (forall|k: int| 0 <= k < 4 ==> packet.dest_addr@[k] == b[24 + k])
}

/// Parses an ARP packet and keeps requests and replies: twenty-eight
/// bytes of fixed fields; an operation other than request or reply is an
/// unknown protocol, and fewer bytes are an invalid packet.
pub fn arwah_extract(remaining: &Vec<u8>) -> (r: Result<ARWAH_ARP, ArwahCentrifugeError>)
    ensures
        r is Ok <==> spec_arp_accepts(remaining@),
        remaining@.len() < 28 ==> r == Err::<ARWAH_ARP, _>(ArwahCentrifugeError::InvalidPacket),
        remaining@.len() >= 28 && !spec_arp_accepts(remaining@) ==> r == Err::<ARWAH_ARP, _>(
            ArwahCentrifugeError::UnknownProtocol,
        ),
        r matches Ok(v) ==> spec_arp_result_ok(remaining@, v),
{
    if remaining.len() < 28 {
        return Err(ArwahCentrifugeError::InvalidPacket);
    }
    let operation_raw = (remaining[6] as u16) * 256 + (remaining[7] as u16);
    let operation = if operation_raw == 1 {
        ArwahArpOperation::Request
    } else if operation_raw == 2 {
        ArwahArpOperation::Reply
    } else {
        return Err(ArwahCentrifugeError::UnknownProtocol);
    };
    let packet = ArwahArpPacket {
        hw_addr_type: (remaining[0] as u16) * 256 + (remaining[1] as u16),
        proto_addr_type: (remaining[2] as u16) * 256 + (remaining[3] as u16),
        hw_addr_size: remaining[4],
        proto_addr_size: remaining[5],
        operation,
        src_mac: arwah_mac_at(remaining, 8),
        src_addr: arwah_addr4_at(remaining, 14),
        dest_mac: arwah_mac_at(remaining, 18),
        dest_addr: arwah_addr4_at(remaining, 24),
    };
    if operation_raw == 1 {
        Ok(ARWAH_ARP::Request(packet))
    } else {
        Ok(ARWAH_ARP::Reply(packet))
    }
}

} // verus!
