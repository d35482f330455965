//! The IP header grammars, and rendering of their addresses.

use vstd::prelude::*;
use crate::packet::{ArwahIPv4Header, ArwahIPv6Header};
use crate::fmt_text::{arwah_u8_text, arwah_push_hex_byte};

verus! {

/// The IPv4 header read from twenty bytes; the options area the header
/// length announces is left in the remainder.
pub open spec fn spec_ipv4_header_fields(b: Seq<u8>, h: ArwahIPv4Header) -> bool {
    &&& h.version == b[0] / 16
    &&& h.ihl == b[0] % 16
    &&& h.tos == b[1]
    &&& h.length == b[2] * 256 + b[3]
    &&& h.id == b[4] * 256 + b[5]
    &&& h.flags == b[6] / 32
    &&& h.fragment_offset == (b[6] % 32) * 256 + b[7]
    &&& h.ttl == b[8]
    &&& h.protocol == b[9]
    &&& h.chksum == b[10] * 256 + b[11]
    &&& (forall|k: int| 0 <= k < 4 ==> h.source_addr@[k] == b[12 + k])
    &&& (forall|k: int| 0 <= k < 4 ==> h.dest_addr@[k] == b[16 + k])
}

/// Parses an IPv4 header: twenty bytes of fixed fields.
pub fn arwah_parse_ipv4_header(b: &Vec<u8>) -> (r: Option<ArwahIPv4Header>)
    ensures
        r is Some <==> b@.len() >= 20,
        r matches Some(h) ==> spec_ipv4_header_fields(b@, h),
{
    if b.len() < 20 {
        return None;
    }
    Some(
        ArwahIPv4Header {
            version: b[0] / 16,
            ihl: b[0] % 16,
            tos: b[1],
            length: (b[2] as u16) * 256 + (b[3] as u16),
            id: (b[4] as u16) * 256 + (b[5] as u16),
            flags: b[6] / 32,
            fragment_offset: ((b[6] % 32) as u16) * 256 + (b[7] as u16),
            ttl: b[8],
            protocol: b[9],
            chksum: (b[10] as u16) * 256 + (b[11] as u16),
            source_addr: crate::arp::arwah_addr4_at(b, 12),
            dest_addr: crate::arp::arwah_addr4_at(b, 16),
        },
    )
}

/// Reads sixteen bytes into an array.
fn arwah_addr16_at(b: &Vec<u8>, at: usize) -> (r: [u8; 16])
    requires
        at + 16 <= b@.len(),
    ensures
        forall|k: int| 0 <= k < 16 ==> r@[k] == b@[at + k],
{
    let n = b.len();
    [
        b[at],
        b[at + 1],
        b[at + 2],
        b[at + 3],
        b[at + 4],
        b[at + 5],
        b[at + 6],
        b[at + 7],
        b[at + 8],
        b[at + 9],
        b[at + 10],
        b[at + 11],
        b[at + 12],
        b[at + 13],
        b[at + 14],
        b[at + 15],
    ]
}

/// The IPv6 header read from forty bytes.
pub open spec fn spec_ipv6_header_scalar_fields(b: Seq<u8>, h: ArwahIPv6Header) -> bool {
    &&& h.version == b[0] / 16
    &&& h.ds == (b[0] % 16) * 4 + ((b[1] / 16) / 4)
    &&& h.ecn == (b[1] / 16) % 4
    &&& h.flow_label == (b[1] % 16) * 0x10000 + b[2] * 256 + b[3]
    &&& h.length == b[4] * 256 + b[5]
    &&& h.next_header == b[6]
    &&& h.hop_limit == b[7]
    &&& (forall|k: int| 0 <= k < 16 ==> h.source_addr@[k] == b[8 + k])
    &&& (forall|k: int| 0 <= k < 16 ==> h.dest_addr@[k] == b[24 + k])
}

/// Parses an IPv6 header: forty bytes of fixed fields.
pub fn arwah_parse_ipv6_header(b: &Vec<u8>) -> (r: Option<ArwahIPv6Header>)
    ensures
        r is Some <==> b@.len() >= 40,
        r matches Some(h) ==> spec_ipv6_header_scalar_fields(b@, h),
{
    if b.len() < 40 {
        return None;
    }
    Some(
        ArwahIPv6Header {
            version: b[0] / 16,
            ds: (b[0] % 16) * 4 + ((b[1] / 16) / 4),
            ecn: (b[1] / 16) % 4,
            flow_label: ((b[1] % 16) as u32) * 0x10000 + (b[2] as u32) * 256 + (b[3] as u32),
            length: (b[4] as u16) * 256 + (b[5] as u16),
            next_header: b[6],
            hop_limit: b[7],
            source_addr: arwah_addr16_at(b, 8),
            dest_addr: arwah_addr16_at(b, 24),
        },
    )
}

/// An IP header whose addresses can be shown as text.
pub trait ArwahIPHeader {
    /// What the source address renders to.
    spec fn spec_source_text(&self) -> Seq<char>;

    /// What the destination address renders to.
    spec fn spec_dest_text(&self) -> Seq<char>;

    /// The source address, rendered.
    fn arwah_source_addr(&self) -> (r: String)
        ensures
            r@ == self.spec_source_text(),
    ;

    /// The destination address, rendered.
    fn arwah_dest_addr(&self) -> (r: String)
        ensures
            r@ == self.spec_dest_text(),
    ;
}

/// The dotted-decimal text of four address bytes.
pub open spec fn spec_ipv4_text(a: Seq<u8>) -> Seq<char> {
    crate::fmt_text::spec_decimal(a[0] as int) + "."@ + crate::fmt_text::spec_decimal(a[1] as int)
        + "."@ + crate::fmt_text::spec_decimal(a[2] as int) + "."@ + crate::fmt_text::spec_decimal(
        a[3] as int,
    )
}

/// Renders four address bytes as dotted decimal.
pub fn arwah_ipv4_text(a: &[u8; 4]) -> (r: String)
    ensures
        r@ == spec_ipv4_text(a@),
{
    let mut out = arwah_u8_text(a[0]);
    out.append(".");
    out.append(arwah_u8_text(a[1]).as_str());
    out.append(".");
    out.append(arwah_u8_text(a[2]).as_str());
    out.append(".");
    out.append(arwah_u8_text(a[3]).as_str());
    out
}

/// The bracketed hexadecimal text of sixteen address bytes: eight
/// two-byte groups joined with colons.
pub open spec fn spec_ipv6_text(a: Seq<u8>) -> Seq<char> {
    "["@ + crate::fmt_text::spec_join_colon(
        Seq::new(8nat, |x: int| crate::fmt_text::spec_hex_byte(a[2 * x] as int)
            + crate::fmt_text::spec_hex_byte(a[2 * x + 1] as int)),
    ) + "]"@
}

/// Renders sixteen address bytes as bracketed hexadecimal groups.
pub fn arwah_ipv6_text(a: &[u8; 16]) -> (r: String)
    ensures
        r@ == spec_ipv6_text(a@),
{
    let ghost parts = Seq::new(8nat, |x: int| crate::fmt_text::spec_hex_byte(a@[2 * x] as int)
        + crate::fmt_text::spec_hex_byte(a@[2 * x + 1] as int));
    let mut out = String::new();
    let mut i: usize = 0;
    proof {
        assert(crate::fmt_text::spec_join_colon(parts.take(0)) =~= Seq::<char>::empty());
    }
    while i < 8
        invariant
            i <= 8,
            parts == Seq::new(8nat, |x: int| crate::fmt_text::spec_hex_byte(a@[2 * x] as int)
                + crate::fmt_text::spec_hex_byte(a@[2 * x + 1] as int)),
            out@ == crate::fmt_text::spec_join_colon(parts.take(i as int)),
        decreases 8 - i,
    {
        if i > 0 {
            out.append(":");
        }
        arwah_push_hex_byte(&mut out, a[i * 2]);
        arwah_push_hex_byte(&mut out, a[i * 2 + 1]);
        i += 1;
        proof {
            assert(parts.take(i as int).drop_last() =~= parts.take(i - 1));
            assert(parts.take(i as int).last() == parts[i - 1]);
            assert(out@ == crate::fmt_text::spec_join_colon(parts.take(i as int)));
        }
    }
    proof {
        assert(parts.take(8) =~= parts);
    }
    let mut line = String::new();
    proof {
        reveal_strlit("[");
    }
    line.append("[");
    line.append(out.as_str());
    line.append("]");
    line
}

impl ArwahIPHeader for ArwahIPv4Header {
    open spec fn spec_source_text(&self) -> Seq<char> {
        spec_ipv4_text(self.source_addr@)
    }

    open spec fn spec_dest_text(&self) -> Seq<char> {
        spec_ipv4_text(self.dest_addr@)
    }

    fn arwah_source_addr(&self) -> (r: String) {
        arwah_ipv4_text(&self.source_addr)
    }

    fn arwah_dest_addr(&self) -> (r: String) {
        arwah_ipv4_text(&self.dest_addr)
    }
}

impl ArwahIPHeader for ArwahIPv6Header {
    open spec fn spec_source_text(&self) -> Seq<char> {
        spec_ipv6_text(self.source_addr@)
    }

    open spec fn spec_dest_text(&self) -> Seq<char> {
        spec_ipv6_text(self.dest_addr@)
    }

    fn arwah_source_addr(&self) -> (r: String) {
        arwah_ipv6_text(&self.source_addr)
    }

    fn arwah_dest_addr(&self) -> (r: String) {
        arwah_ipv6_text(&self.dest_addr)
    }
}

} // verus!
