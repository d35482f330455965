//! The CJDNS LAN beacon: a fixed layout of sixty-two bytes, parsed
//! directly.

use vstd::prelude::*;

verus! {

/// A CJDNS Ethernet beacon: the announced protocol version, the password
/// bytes, and the announcing node's public key.
#[derive(Debug, Clone, PartialEq, Eq)]
pub struct ArwahCjdnsEthPkt {
    pub version: u16,
    pub password: Vec<u8>,
    pub pubkey: Vec<u8>,
}

pub const ARWAH_BEACON_PASSWORD_LEN: usize = 20;

pub const ARWAH_BEACON_PUBKEY_LEN: usize = 32;

/// Whether the bytes are exactly one beacon: two zero bytes, a big-endian
/// length, the `0xFC 0x00` tag, two padding bytes, a big-endian version,
/// twenty password bytes and thirty-two public-key bytes, nothing after.
pub open spec fn spec_cjdns_beacon(b: Seq<u8>) -> bool {
    &&& b.len() == 62
    &&& b[0] == 0
    &&& b[1] == 0
    &&& b[4] == 0xfc
    &&& b[5] == 0x00
}

/// What a parsed beacon holds: the version word and the password and
/// public-key fields, straight from their fixed offsets.
pub open spec fn spec_cjdns_result_ok(b: Seq<u8>, pkt: ArwahCjdnsEthPkt) -> bool {
    &&& pkt.version == b[8] as u16 * 256 + b[9] as u16
    &&& pkt.password@ == b.subrange(10, 30)
    &&& pkt.pubkey@ == b.subrange(30, 62)
}

/// Parses a beacon: succeeds exactly on the sixty-two byte layout with its
/// fixed tags, and returns the version, password and public key fields.
pub fn arwah_parse(remaining: &Vec<u8>) -> (r: Result<ArwahCjdnsEthPkt, crate::centrifuge::ArwahCentrifugeError>)
    ensures
        r is Ok <==> spec_cjdns_beacon(remaining@),
        r matches Ok(pkt) ==> spec_cjdns_result_ok(remaining@, pkt),
        r matches Err(e) ==> e == crate::centrifuge::ArwahCentrifugeError::InvalidPacket,
{
    if remaining.len() != 62 {
        return Err(crate::centrifuge::ArwahCentrifugeError::InvalidPacket);
    }
    if remaining[0] != 0 || remaining[1] != 0 || remaining[4] != 0xfc || remaining[5] != 0x00 {
        return Err(crate::centrifuge::ArwahCentrifugeError::InvalidPacket);
    }
    let version: u16 = (remaining[8] as u16) * 256 + (remaining[9] as u16);
    let mut password: Vec<u8> = Vec::new();
    let mut i: usize = 10;
    while i < 30
        invariant
            10 <= i <= 30,
            remaining@.len() == 62,
            password@ =~= remaining@.subrange(10, i as int),
        decreases 30 - i,
    {
        password.push(remaining[i]);
        i += 1;
    }
    let mut pubkey: Vec<u8> = Vec::new();
    let mut j: usize = 30;
    while j < 62
        invariant
            30 <= j <= 62,
            remaining@.len() == 62,
            pubkey@ =~= remaining@.subrange(30, j as int),
        decreases 62 - j,
    {
        pubkey.push(remaining[j]);
        j += 1;
    }
    Ok(ArwahCjdnsEthPkt { version, password, pubkey })
}

} // verus!
