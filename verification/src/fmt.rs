//! Output: the verbosity filter, and the compact, debugging and JSON
//! renderings of a packet tree.

use vstd::prelude::*;
use crate::noise::ArwahNoiseLevel;
use crate::packet::{
    ArwahEther,
    ArwahICMP,
    ArwahIcmpData,
    ArwahIcmpHeader,
    ArwahIPv4,
    ArwahIPv6,
    ArwahRaw,
    ArwahTcpHeader,
    ArwahUdpHeader,
    ARWAH_ARP,
    ARWAH_TCP,
    ARWAH_UDP,
};
use crate::cjdns::ArwahCjdnsEthPkt;
use crate::dhcp::{ArwahPacket, ARWAH_DHCP};
use crate::dns::{ArwahRecord, ARWAH_DNS};
use crate::http::ArwahHttp;
use crate::ip::{arwah_ipv4_text, spec_ipv4_text, ArwahIPHeader};
use crate::ssdp::ARWAH_SSDP;
use crate::tls::ArwahTls;
use crate::fmt_text::{arwah_push_char, arwah_push_hex_byte, arwah_u128_text, arwah_u64_text, spec_decimal, spec_hex_byte, spec_join_colon};
use sha2::Digest;

verus! {

/// How packets are laid out on the sink.
#[derive(Debug, Clone, Copy, PartialEq, Eq, Structural)]
pub enum ArwahLayout {
    Compact,
    Debugging,
    Json,
}

/// A color a compact line may carry; the sink decides how to paint it.
#[derive(Debug, Clone, Copy, PartialEq, Eq, Structural)]
pub enum ArwahColor {
    Red,
    Green,
    Blue,
    Yellow,
    Purple,
    Grey,
}

/// The output settings chosen once per run.
pub struct ArwahConfig {
    pub fmt: ArwahFormat,
    pub filter: ArwahFilter,
}

/// The renderer: a layout, and whether lines carry color.
pub struct ArwahFormat {
    pub layout: ArwahLayout,
    pub colors: bool,
}

/// The verbosity filter.
pub struct ArwahFilter {
    pub verbosity: u8,
}

impl ArwahConfig {
    /// Bundles a renderer and a filter; the verbosity is clamped to the
    /// noisiest level.
    pub fn arwah_new(layout: ArwahLayout, verbosity: u8, colors: bool) -> (r: ArwahConfig)
        ensures
            r.fmt.layout == layout,
            r.fmt.colors == colors,
            r.filter.verbosity == vstd::math::min(
                verbosity as int,
                ArwahNoiseLevel::Maximum.spec_into_u8() as int,
            ),
    {
        ArwahConfig { fmt: ArwahFormat::arwah_new(layout, colors), filter: ArwahFilter::arwah_new(verbosity) }
    }

    /// The filter the sniffing workers share.
    pub fn arwah_filter(&self) -> (r: ArwahFilter)
        ensures
            r.verbosity == self.filter.verbosity,
    {
        ArwahFilter { verbosity: self.filter.verbosity }
    }

    /// The renderer, for the consuming end.
    pub fn arwah_format(self) -> (r: ArwahFormat)
        ensures
            r == self.fmt,
    {
        self.fmt
    }
}

impl ArwahFilter {
    /// A filter at the given verbosity, clamped to the noisiest level.
    pub fn arwah_new(verbosity: u8) -> (r: ArwahFilter)
        ensures
            r.verbosity == vstd::math::min(
                verbosity as int,
                ArwahNoiseLevel::Maximum.spec_into_u8() as int,
            ),
    {
        let max = ArwahNoiseLevel::Maximum.arwah_into_u8();
        let verbosity = if verbosity < max {
            verbosity
        } else {
            max
        };
        ArwahFilter { verbosity }
    }

    /// A packet passes exactly when its noise level does not exceed the
    /// verbosity.
    pub fn arwah_matches(&self, packet: &ArwahRaw) -> (r: bool)
        ensures
            r == (packet.spec_noise_level().spec_into_u8() <= self.verbosity),
    {
        packet.arwah_noise_level().arwah_into_u8() <= self.verbosity
    }
}

impl ArwahFormat {
    /// A renderer.
    pub fn arwah_new(layout: ArwahLayout, colors: bool) -> (r: ArwahFormat)
        ensures
            r.layout == layout,
            r.colors == colors,
    {
        ArwahFormat { layout, colors }
    }

    /// Renders one packet under the chosen layout.  The text is never
    /// empty, and the color, where one is given, is for the whole line.
    pub fn arwah_print(&self, packet: ArwahRaw) -> (r: (String, Option<ArwahColor>))
        ensures
            self.layout == ArwahLayout::Compact ==> spec_raw_compact_ok(packet, r.0@, r.1),
            self.layout == ArwahLayout::Debugging ==> spec_raw_debugging_ok(packet, r.0@) && r.1
                is None,
            self.layout == ArwahLayout::Json ==> r.0@.len() > 0 && r.1 is None,
    {
        match self.layout {
            ArwahLayout::Compact => self.arwah_print_compact(packet),
            ArwahLayout::Debugging => (self.arwah_print_debugging(packet), None),
            ArwahLayout::Json => (arwah_to_json(&packet), None),
        }
    }

    /// The one-line summary of a packet.
    pub fn arwah_print_compact(&self, packet: ArwahRaw) -> (r: (String, Option<ArwahColor>))
        ensures
            spec_raw_compact_ok(packet, r.0@, r.1),
    {
        let mut out = String::new();
        let color = match packet {
            ArwahRaw::Ether(eth_frame, eth) => {
                out.append(arwah_display_macaddr(&eth_frame.source_mac).as_str());
                out.append(" -> ");
                out.append(arwah_display_macaddr(&eth_frame.dest_mac).as_str());
                out.append(", ");
                proof {
                    assert(out@ =~= spec_mac_text(eth_frame.source_mac@) + " -> "@ + spec_mac_text(
                        eth_frame.dest_mac@,
                    ) + ", "@);
                }
                arwah_format_compact_eth(&mut out, eth)
            },
            ArwahRaw::Tun(eth) => {
                proof { assert(out@ =~= Seq::<char>::empty()); }
                arwah_format_compact_eth(&mut out, eth)
            },
            ArwahRaw::Sll(eth) => {
                proof { assert(out@ =~= Seq::<char>::empty()); }
                arwah_format_compact_eth(&mut out, eth)
            },
            ArwahRaw::Unknown(data) => {
                proof { assert(out@ =~= Seq::<char>::empty()); }
                let c = arwah_format_compact_unknown_data(&mut out, &data);
                proof { assert(out@ =~= "UNKNOWN "@ + spec_bytes_debug(data@)); }
                c
            },
        };
        (out, color)
    }

    /// The indented multi-line rendering of a packet.
    pub fn arwah_print_debugging(&self, packet: ArwahRaw) -> (r: String)
        ensures
            spec_raw_debugging_ok(packet, r@),
    {
        let mut out = String::new();
        match packet {
            ArwahRaw::Ether(eth_frame, eth) => {
                let ghost geth = eth;
                out.append("ETH -> ");
                out.append(arwah_display_macaddr(&eth_frame.source_mac).as_str());
                out.append(" ");
                out.append(arwah_display_macaddr(&eth_frame.dest_mac).as_str());
                out.append("\n");
                let ghost mid = out@;
                proof {
                    assert(mid =~= "ETH -> "@ + spec_mac_text(eth_frame.source_mac@) + " "@
                        + spec_mac_text(eth_frame.dest_mac@) + "\n"@);
                }
                arwah_print_debugging_eth(&mut out, 1, eth);
                proof {
                    assert(out@.subrange(
                        0,
                        ("ETH -> "@ + spec_mac_text(eth_frame.source_mac@) + " "@ + spec_mac_text(
                            eth_frame.dest_mac@,
                        ) + "\n"@ + spec_tabs(1nat) + spec_eth_debug_tag(geth)).len() as int,
                    ) =~= "ETH -> "@ + spec_mac_text(eth_frame.source_mac@) + " "@ + spec_mac_text(
                        eth_frame.dest_mac@,
                    ) + "\n"@ + spec_tabs(1nat) + spec_eth_debug_tag(geth));
                }
            },
            ArwahRaw::Tun(eth) => {
                proof { assert(out@ =~= Seq::<char>::empty()); }
                arwah_print_debugging_eth(&mut out, 0, eth);
            },
            ArwahRaw::Sll(eth) => {
                proof { assert(out@ =~= Seq::<char>::empty()); }
                arwah_print_debugging_eth(&mut out, 0, eth);
            },
            ArwahRaw::Unknown(data) => {
                out.append("UNKNOWN -> ");
                arwah_push_bytes_debug(&mut out, &data);
                proof { assert(out@ =~= "UNKNOWN -> "@ + spec_bytes_debug(data@)); }
            },
        }
        out
    }
}

/// What the one-line summary of a whole captured packet owes: the frame's
/// MAC prefix where one was captured, then the network layer's summary.
pub open spec fn spec_raw_compact_ok(
    packet: ArwahRaw,
    text: Seq<char>,
    color: Option<ArwahColor>,
) -> bool {
    match packet {
        ArwahRaw::Ether(f, eth) => spec_ether_compact_ok(
            spec_mac_text(f.source_mac@) + " -> "@ + spec_mac_text(f.dest_mac@) + ", "@,
            text,
            eth,
            color,
        ),
        ArwahRaw::Tun(eth) => spec_ether_compact_ok(Seq::empty(), text, eth, color),
        ArwahRaw::Sll(eth) => spec_ether_compact_ok(Seq::empty(), text, eth, color),
        ArwahRaw::Unknown(d) => text == "UNKNOWN "@ + spec_bytes_debug(d@) && color is None,
    }
}

/// What the debugging rendering of a whole captured packet opens with:
/// the frame line where one was captured, then the network layer's
/// indented tag.
pub open spec fn spec_raw_debugging_ok(packet: ArwahRaw, text: Seq<char>) -> bool {
    match packet {
        ArwahRaw::Ether(f, eth) => spec_extends_with(
            Seq::empty(),
            text,
            "ETH -> "@ + spec_mac_text(f.source_mac@) + " "@ + spec_mac_text(f.dest_mac@) + "\n"@
                + spec_tabs(1nat) + spec_eth_debug_tag(eth),
        ),
        ArwahRaw::Tun(eth) => spec_extends_with(
            Seq::empty(),
            text,
            spec_tabs(0nat) + spec_eth_debug_tag(eth),
        ),
        ArwahRaw::Sll(eth) => spec_extends_with(
            Seq::empty(),
            text,
            spec_tabs(0nat) + spec_eth_debug_tag(eth),
        ),
        ArwahRaw::Unknown(d) => text == "UNKNOWN -> "@ + spec_bytes_debug(d@),
    }
}

/// What a MAC address renders to.
pub open spec fn spec_mac_text(m: Seq<u8>) -> Seq<char> {
    spec_join_colon(Seq::new(6nat, |x: int| spec_hex_byte(m[x] as int)))
}

/// Appends the undecoded-frame summary.
fn arwah_format_compact_unknown_data(out: &mut String, data: &Vec<u8>) -> (r: Option<ArwahColor>)
    ensures
        final(out)@ == old(out)@ + "UNKNOWN "@ + spec_bytes_debug(data@),
        r is None,
{
    proof {
        reveal_strlit("UNKNOWN ");
    }
    out.append("UNKNOWN ");
    arwah_push_bytes_debug(out, data);
    None
}

/// What formatting a network layer owes: the summary of whichever
/// protocol the frame carried, and the matching color.
pub open spec fn spec_ether_compact_ok(
    before: Seq<char>,
    after: Seq<char>,
    eth: ArwahEther,
    r: Option<ArwahColor>,
) -> bool {
    match eth {
        ArwahEther::Arp(v) => after == before + spec_arp_compact(v) && r == Some(ArwahColor::Blue),
        ArwahEther::IPv4(h, next) => spec_ipv4_compact_ok(
            before,
            after,
            h.spec_source_text(),
            h.spec_dest_text(),
            next,
            r,
        ),
        ArwahEther::IPv6(h, next) => spec_ipv6_compact_ok(
            before,
            after,
            h.spec_source_text(),
            h.spec_dest_text(),
            next,
            r,
        ),
        ArwahEther::Cjdns(p) => after == before + spec_cjdns_compact(p) && r == Some(
            ArwahColor::Purple,
        ),
        ArwahEther::Unknown(d) => after == before + "UNKNOWN "@ + spec_bytes_debug(d@) && r is None,
    }
}

/// Appends the network-layer summary and names the line's color.
fn arwah_format_compact_eth(out: &mut String, eth: ArwahEther) -> (r: Option<ArwahColor>)
    ensures
        spec_ether_compact_ok(old(out)@, final(out)@, eth, r),
{
    match eth {
        ArwahEther::Arp(arp_pkt) => Some(arwah_format_compact_arp(out, &arp_pkt)),
        ArwahEther::IPv4(ip_header, ipv4) => arwah_format_compact_ipv4(out, &ip_header, ipv4),
        ArwahEther::IPv6(ip_header, ipv6) => arwah_format_compact_ipv6(out, &ip_header, ipv6),
        ArwahEther::Cjdns(cjdns_pkt) => Some(arwah_format_compact_cjdns(out, &cjdns_pkt)),
        ArwahEther::Unknown(data) => arwah_format_compact_unknown_data(out, &data),
    }
}

/// What the ARP summary line holds.
pub open spec fn spec_arp_compact(v: ARWAH_ARP) -> Seq<char> {
    match v {
        ARWAH_ARP::Request(pkt) => "[ ETA ]: -> ARP/REQUEST "@ + crate::ip::spec_ipv4_text(
            pkt.dest_addr@,
        ) + " ? (tell "@ + crate::ip::spec_ipv4_text(pkt.src_addr@) + ", "@ + spec_mac_text(
            pkt.src_mac@,
        ) + ")"@,
        ARWAH_ARP::Reply(pkt) => "[ ETA ]: -> ARP/REPLY "@ + crate::ip::spec_ipv4_text(
            pkt.src_addr@,
        ) + " ! => "@ + spec_mac_text(pkt.src_mac@) + " (fyi  "@ + crate::ip::spec_ipv4_text(
            pkt.dest_addr@,
        ) + ", "@ + spec_mac_text(pkt.dest_mac@) + ")"@,
    }
}

/// Appends the ARP summary.
fn arwah_format_compact_arp(out: &mut String, arp_pkt: &ARWAH_ARP) -> (r: ArwahColor)
    ensures
        final(out)@ == old(out)@ + spec_arp_compact(*arp_pkt),
        r == ArwahColor::Blue,
{
    match arp_pkt {
        ARWAH_ARP::Request(pkt) => {
            out.append("[ ETA ]: -> ARP/REQUEST ");
            out.append(arwah_ipv4_text(&pkt.dest_addr).as_str());
            out.append(" ? (tell ");
            out.append(arwah_ipv4_text(&pkt.src_addr).as_str());
            out.append(", ");
            out.append(arwah_display_macaddr(&pkt.src_mac).as_str());
            out.append(")");
        },
        ARWAH_ARP::Reply(pkt) => {
            out.append("[ ETA ]: -> ARP/REPLY ");
            out.append(arwah_ipv4_text(&pkt.src_addr).as_str());
            out.append(" ! => ");
            out.append(arwah_display_macaddr(&pkt.src_mac).as_str());
            out.append(" (fyi  ");
            out.append(arwah_ipv4_text(&pkt.dest_addr).as_str());
            out.append(", ");
            out.append(arwah_display_macaddr(&pkt.dest_mac).as_str());
            out.append(")");
        },
    }
    ArwahColor::Blue
}

/// What the double digest's first sixteen bytes are, as an address; the
/// digest depends on the public key alone.
pub uninterp spec fn spec_sha512_of(b: Seq<u8>) -> Seq<u8>;

/// Relies on `sha2::Sha512`: the digest of the bytes, sixty-four bytes, a
/// function of the input alone.
#[verifier::external_body]
pub fn arwah_sha512(b: &Vec<u8>) -> (r: Vec<u8>)
    ensures
        r@ == spec_sha512_of(b@),
        r@.len() == 64,
{
    Vec::from(sha2::Sha512::digest(b.as_slice()).as_slice())
}

/// The beacon address: the double digest's first sixteen bytes, rendered
/// as colon-separated hexadecimal pairs.
pub fn arwah_cjdns_ipv6(pubkey: &Vec<u8>) -> (r: String)
    ensures
        ({
            let digest = spec_sha512_of(spec_sha512_of(pubkey@));
            r@ == spec_join_colon(
                Seq::new(8nat, |x: int| spec_hex_byte(digest[2 * x] as int) + spec_hex_byte(
                    digest[2 * x + 1] as int,
                )),
            )
        }),
{
    let first = arwah_sha512(pubkey);
    let second = arwah_sha512(&first);
    let ghost digest = second@;
    let ghost parts = Seq::new(8nat, |x: int| spec_hex_byte(digest[2 * x] as int) + spec_hex_byte(
        digest[2 * x + 1] as int,
    ));
    let mut out = String::new();
    let mut x: usize = 0;
    proof {
        assert(spec_join_colon(parts.take(0)) =~= Seq::<char>::empty());
    }
    while x < 8
        invariant
            x <= 8,
            second@ == digest,
            digest.len() == 64,
            parts == Seq::new(8nat, |k: int| spec_hex_byte(digest[2 * k] as int) + spec_hex_byte(
                digest[2 * k + 1] as int,
            )),
            out@ == spec_join_colon(parts.take(x as int)),
        decreases 8 - x,
    {
        if x > 0 {
            out.append(":");
        }
        arwah_push_hex_byte(&mut out, second[2 * x]);
        arwah_push_hex_byte(&mut out, second[2 * x + 1]);
        x += 1;
        proof {
            assert(parts.take(x as int).drop_last() =~= parts.take(x - 1));
            assert(parts.take(x as int).last() == parts[x - 1]);
            assert(out@ == spec_join_colon(parts.take(x as int)));
        }
    }
    proof {
        assert(parts.take(8) =~= parts);
    }
    out
}

/// What the password bytes render to: one escaped hexadecimal pair per
/// byte.
pub open spec fn spec_cjdns_password_text(p: Seq<u8>) -> Seq<char>
    decreases p.len(),
{
    if p.len() == 0 {
        Seq::empty()
    } else {
        spec_cjdns_password_text(p.drop_last()) + "[ ETA ]: -> \\x"@ + spec_hex_byte(
            p.last() as int,
        )
    }
}

/// What the CJDNS beacon summary line holds: the version, the escaped
/// password, the address derived from the double digest, and the public
/// key.
pub open spec fn spec_cjdns_compact(pkt: ArwahCjdnsEthPkt) -> Seq<char> {
    "CJDNS BEACON  version="@ + crate::fmt_text::spec_decimal(pkt.version as int)
        + ", password=\""@ + spec_cjdns_password_text(pkt.password@) + "\", ipv6=\""@
        + spec_join_colon(
        Seq::new(8nat, |x: int| spec_hex_byte(
            spec_sha512_of(spec_sha512_of(pkt.pubkey@))[2 * x] as int,
        ) + spec_hex_byte(spec_sha512_of(spec_sha512_of(pkt.pubkey@))[2 * x + 1] as int)),
    ) + "\", pubkey="@ + spec_bytes_debug(pkt.pubkey@)
}

/// Appends the CJDNS beacon summary.
fn arwah_format_compact_cjdns(out: &mut String, cjdns: &ArwahCjdnsEthPkt) -> (r: ArwahColor)
    ensures
        final(out)@ == old(out)@ + spec_cjdns_compact(*cjdns),
        r == ArwahColor::Purple,
{
    proof {
        reveal_strlit("CJDNS BEACON  version=");
        reveal_strlit(", password=\"");
        reveal_strlit("\", ipv6=\"");
        reveal_strlit("\", pubkey=");
    }
    out.append("CJDNS BEACON  version=");
    out.append(arwah_u64_text(cjdns.version as u64).as_str());
    out.append(", password=\"");
    let ghost before_password = out@;
    proof {
        assert(spec_cjdns_password_text(cjdns.password@.take(0)) =~= Seq::<char>::empty());
    }
    let mut i: usize = 0;
    while i < cjdns.password.len()
        invariant
            i <= cjdns.password@.len(),
            out@ == before_password + spec_cjdns_password_text(cjdns.password@.take(i as int)),
        decreases cjdns.password@.len() - i,
    {
        proof {
            reveal_strlit("[ ETA ]: -> \\x");
        }
        out.append("[ ETA ]: -> \\x");
        arwah_push_hex_byte(out, cjdns.password[i]);
        i += 1;
        proof {
            assert(cjdns.password@.take(i as int).drop_last() =~= cjdns.password@.take(i - 1));
            assert(cjdns.password@.take(i as int).last() == cjdns.password@[i - 1]);
            assert(out@ == before_password + spec_cjdns_password_text(cjdns.password@.take(
                i as int,
            )));
        }
    }
    proof {
        assert(cjdns.password@.take(cjdns.password@.len() as int) =~= cjdns.password@);
    }
    out.append("\", ipv6=\"");
    out.append(arwah_cjdns_ipv6(&cjdns.pubkey).as_str());
    out.append("\", pubkey=");
    arwah_push_bytes_debug(out, &cjdns.pubkey);
    ArwahColor::Purple
}

/// Appends the transport summary under an IPv4 header.
/// What formatting an IPv4 payload owes: the transport's summary under
/// the addresses' texts, and the matching color.
pub open spec fn spec_ipv4_compact_ok(
    before: Seq<char>,
    after: Seq<char>,
    src: Seq<char>,
    dst: Seq<char>,
    next: ArwahIPv4,
    r: Option<ArwahColor>,
) -> bool {
    match next {
        ArwahIPv4::TCP(h, c) => spec_extends_with(before, after, spec_tcp_compact_head(src, dst, h, c))
            && r == Some(spec_tcp_compact_color(h, c)),
        ArwahIPv4::UDP(h, c) => spec_extends_with(before, after, spec_udp_compact_head(src, dst, h, c))
            && r == Some(spec_udp_compact_color(c)),
        ArwahIPv4::ICMP(h, i) => after == before + spec_icmp_compact(src, dst, h, i) && r == Some(
            ArwahColor::Blue,
        ),
        ArwahIPv4::Unknown(d) => after == before + spec_ip_unknown_compact(src, dst, d@) && r is None,
    }
}

/// Appends the transport summary under an IPv4 header.
fn arwah_format_compact_ipv4<IP: ArwahIPHeader>(out: &mut String, ip_header: &IP, next: ArwahIPv4) -> (r:
    Option<ArwahColor>)
    ensures
        spec_ipv4_compact_ok(
            old(out)@,
            final(out)@,
            ip_header.spec_source_text(),
            ip_header.spec_dest_text(),
            next,
            r,
        ),
{
    match next {
        ArwahIPv4::TCP(tcp_header, tcp) => Some(
            arwah_format_compact_ip_tcp(out, ip_header, &tcp_header, tcp),
        ),
        ArwahIPv4::UDP(udp_header, udp) => Some(
            arwah_format_compact_ip_udp(out, ip_header, &udp_header, udp),
        ),
        ArwahIPv4::ICMP(icmp_header, icmp) => Some(
            arwah_format_compact_ip_icmp(out, ip_header, &icmp_header, &icmp),
        ),
        ArwahIPv4::Unknown(data) => arwah_format_compact_ip_unknown(out, ip_header, &data),
    }
}

/// What formatting an IPv6 payload owes.
pub open spec fn spec_ipv6_compact_ok(
    before: Seq<char>,
    after: Seq<char>,
    src: Seq<char>,
    dst: Seq<char>,
    next: ArwahIPv6,
    r: Option<ArwahColor>,
) -> bool {
    match next {
        ArwahIPv6::TCP(h, c) => spec_extends_with(before, after, spec_tcp_compact_head(src, dst, h, c))
            && r == Some(spec_tcp_compact_color(h, c)),
        ArwahIPv6::UDP(h, c) => spec_extends_with(before, after, spec_udp_compact_head(src, dst, h, c))
            && r == Some(spec_udp_compact_color(c)),
        ArwahIPv6::Unknown(d) => after == before + spec_ip_unknown_compact(src, dst, d@) && r is None,
    }
}

/// Appends the transport summary under an IPv6 header.
fn arwah_format_compact_ipv6<IP: ArwahIPHeader>(out: &mut String, ip_header: &IP, next: ArwahIPv6) -> (r:
    Option<ArwahColor>)
    ensures
        spec_ipv6_compact_ok(
            old(out)@,
            final(out)@,
            ip_header.spec_source_text(),
            ip_header.spec_dest_text(),
            next,
            r,
        ),
{
    match next {
        ArwahIPv6::TCP(tcp_header, tcp) => Some(
            arwah_format_compact_ip_tcp(out, ip_header, &tcp_header, tcp),
        ),
        ArwahIPv6::UDP(udp_header, udp) => Some(
            arwah_format_compact_ip_udp(out, ip_header, &udp_header, udp),
        ),
        ArwahIPv6::Unknown(data) => arwah_format_compact_ip_unknown(out, ip_header, &data),
    }
}

/// What an unknown transport's summary line holds.
pub open spec fn spec_ip_unknown_compact(src: Seq<char>, dst: Seq<char>, d: Seq<u8>) -> Seq<char> {
    "UNKNOWN "@ + src + " -> "@ + dst + " "@ + spec_bytes_debug(d)
}

/// Appends the summary of an unknown transport.
fn arwah_format_compact_ip_unknown<IP: ArwahIPHeader>(
    out: &mut String,
    ip_header: &IP,
    data: &Vec<u8>,
) -> (r: Option<ArwahColor>)
    ensures
        final(out)@ == old(out)@ + spec_ip_unknown_compact(
            ip_header.spec_source_text(),
            ip_header.spec_dest_text(),
            data@,
        ),
        r is None,
{
    let ghost start = out@;
    out.append("UNKNOWN ");
    out.append(ip_header.arwah_source_addr().as_str());
    out.append(" -> ");
    out.append(ip_header.arwah_dest_addr().as_str());
    out.append(" ");
    arwah_push_bytes_debug(out, data);
    proof {
        assert(out@ =~= start + spec_ip_unknown_compact(
            ip_header.spec_source_text(),
            ip_header.spec_dest_text(),
            data@,
        ));
    }
    None
}

/// What one `addr:port` endpoint renders to.
pub open spec fn spec_endpoint_text(addr: Seq<char>, port: u16) -> Seq<char> {
    addr + ":"@ + crate::fmt_text::spec_decimal(port as int)
}

/// Appends `addr:port`.
fn arwah_push_endpoint(out: &mut String, addr: String, port: u16)
    ensures
        final(out)@ == old(out)@ + spec_endpoint_text(addr@, port),
{
    proof {
        reveal_strlit(":");
    }
    out.append(addr.as_str());
    out.append(":");
    out.append(arwah_u64_text(port as u64).as_str());
}

/// The flag letters of a segment, in display order.
pub open spec fn spec_tcp_flags_text(h: ArwahTcpHeader) -> Seq<char> {
    (if h.flag_syn {
        "S"@
    } else {
        Seq::empty()
    }) + (if h.flag_ack {
        "A"@
    } else {
        Seq::empty()
    }) + (if h.flag_rst {
        "R"@
    } else {
        Seq::empty()
    }) + (if h.flag_fin {
        "F"@
    } else {
        Seq::empty()
    })
}

/// The tag that opens a classified TCP payload's summary.
pub open spec fn spec_tcp_payload_tag(c: ARWAH_TCP) -> Seq<char> {
    match c {
        ARWAH_TCP::HTTP(ArwahHttp::Request(_)) => "[http] req, "@,
        ARWAH_TCP::HTTP(ArwahHttp::Response(_)) => "[http] resp, HTTP/1."@,
        ARWAH_TCP::TLS(ArwahTls::ClientHello(_)) => "TLS ClientHello"@,
        ARWAH_TCP::TLS(ArwahTls::ServerHello(_)) => "TLS ServerHello"@,
        ARWAH_TCP::Text(_) => "TEXT "@,
        ARWAH_TCP::Binary(_) => "BINARY "@,
        ARWAH_TCP::Empty => Seq::empty(),
    }
}

/// What opens every TCP summary line: the flags, the two endpoints and
/// the payload's tag.
pub open spec fn spec_tcp_compact_head(
    src: Seq<char>,
    dst: Seq<char>,
    h: ArwahTcpHeader,
    c: ARWAH_TCP,
) -> Seq<char> {
    "[tcp/"@ + spec_tcp_flags_text(h) + "] "@ + spec_endpoint_text(src, h.source_port)
        + " -> "@ + spec_endpoint_text(dst, h.dest_port) + " "@ + spec_tcp_payload_tag(c)
}

/// The color a TCP summary line carries.
pub open spec fn spec_tcp_compact_color(h: ArwahTcpHeader, c: ARWAH_TCP) -> ArwahColor {
    match c {
        ARWAH_TCP::HTTP(_) => ArwahColor::Red,
        ARWAH_TCP::TLS(_) => ArwahColor::Green,
        ARWAH_TCP::Text(_) => ArwahColor::Red,
        ARWAH_TCP::Binary(_) => if h.flag_rst {
            ArwahColor::Grey
        } else {
            ArwahColor::Red
        },
        ARWAH_TCP::Empty => ArwahColor::Grey,
    }
}

/// Appends the TCP summary: the flags, the endpoints, and the classified
/// payload.
#[verifier::rlimit(100)]
fn arwah_format_compact_ip_tcp<IP: ArwahIPHeader>(
    out: &mut String,
    ip_header: &IP,
    tcp_header: &ArwahTcpHeader,
    tcp: ARWAH_TCP,
) -> (r: ArwahColor)
    ensures
        spec_extends_with(
            old(out)@,
            final(out)@,
            spec_tcp_compact_head(
                ip_header.spec_source_text(),
                ip_header.spec_dest_text(),
                *tcp_header,
                tcp,
            ),
        ),
        r == spec_tcp_compact_color(*tcp_header, tcp),
{
    proof {
        reveal_strlit("[tcp/");
        reveal_strlit("S");
        reveal_strlit("A");
        reveal_strlit("R");
        reveal_strlit("F");
        reveal_strlit("] ");
        reveal_strlit(" -> ");
        reveal_strlit(" ");
        reveal_strlit("[http] req, ");
        reveal_strlit("[http] resp, HTTP/1.");
        reveal_strlit("TLS ClientHello");
        reveal_strlit("TLS ServerHello");
        reveal_strlit("TEXT ");
        reveal_strlit("BINARY ");
    }
    let ghost start = out@;
    let ghost head = spec_tcp_compact_head(
        ip_header.spec_source_text(),
        ip_header.spec_dest_text(),
        *tcp_header,
        tcp,
    );
    out.append("[tcp/");
    if tcp_header.flag_syn {
        out.append("S");
    }
    if tcp_header.flag_ack {
        out.append("A");
    }
    if tcp_header.flag_rst {
        out.append("R");
    }
    if tcp_header.flag_fin {
        out.append("F");
    }
    out.append("] ");
    arwah_push_endpoint(out, ip_header.arwah_source_addr(), tcp_header.source_port);
    out.append(" -> ");
    arwah_push_endpoint(out, ip_header.arwah_dest_addr(), tcp_header.dest_port);
    out.append(" ");
    let ghost pre_tag = out@;
    proof {
        assert(pre_tag =~= start + "[tcp/"@ + spec_tcp_flags_text(*tcp_header) + "] "@
            + spec_endpoint_text(ip_header.spec_source_text(), tcp_header.source_port) + " -> "@
            + spec_endpoint_text(ip_header.spec_dest_text(), tcp_header.dest_port) + " "@);
    }
    match tcp {
        ARWAH_TCP::HTTP(ArwahHttp::Request(http)) => {
            out.append("[http] req, ");
            proof { assert(out@ =~= start + head); }
            let ghost with_head = out@;
            arwah_push_text_debug(out, &http.method);
            out.append(" ");
            arwah_push_text_debug(out, &http.path);
            out.append(" HTTP/1.");
            out.append(arwah_u64_text(http.version as u64).as_str());
            if let Some(host) = &http.host {
                out.append(" http://");
                out.append(host.as_str());
                out.append(http.path.as_str());
            }
            let mut i: usize = 0;
            proof { assert(out@.subrange(0, with_head.len() as int) =~= with_head); }
            while i < http.headers.len()
                invariant
                    spec_appends(with_head, out@),
                decreases http.headers@.len() - i,
            {
                out.append("\n  ");
                out.append(http.headers[i].0.as_str());
                out.append(": ");
                arwah_push_bytes_debug(out, &http.headers[i].1);
                i += 1;
                proof { assert(out@.subrange(0, with_head.len() as int) =~= with_head); }
            }
            if let Some(body) = &http.body {
                out.append("\n  ");
                arwah_push_bytes_debug(out, body);
            }
            proof {
                assert(out@.subrange(0, (start + head).len() as int) =~= start + head);
            }
            ArwahColor::Red
        },
        ARWAH_TCP::HTTP(ArwahHttp::Response(http)) => {
            out.append("[http] resp, HTTP/1.");
            proof { assert(out@ =~= start + head); }
            let ghost with_head = out@;
            out.append(arwah_u64_text(http.version as u64).as_str());
            out.append(" ");
            out.append(arwah_u64_text(http.code as u64).as_str());
            out.append(" ");
            arwah_push_text_debug(out, &http.reason);
            out.append(" ");
            let mut i: usize = 0;
            proof { assert(out@.subrange(0, with_head.len() as int) =~= with_head); }
            while i < http.headers.len()
                invariant
                    spec_appends(with_head, out@),
                decreases http.headers@.len() - i,
            {
                out.append("\n  ");
                out.append(http.headers[i].0.as_str());
                out.append(": ");
                arwah_push_bytes_debug(out, &http.headers[i].1);
                i += 1;
                proof { assert(out@.subrange(0, with_head.len() as int) =~= with_head); }
            }
            if let Some(body) = &http.body {
                out.append("\n  ");
                arwah_push_bytes_debug(out, body);
            }
            proof {
                assert(out@.subrange(0, (start + head).len() as int) =~= start + head);
            }
            ArwahColor::Red
        },
        ARWAH_TCP::TLS(ArwahTls::ClientHello(client_hello)) => {
            out.append("TLS ClientHello");
            proof { assert(out@ =~= start + head); }
            let extra = arwah_display_kv_list(
                &vec![
                    ("version".to_owned(), client_hello.version),
                    ("session".to_owned(), client_hello.session_id),
                    ("hostname".to_owned(), client_hello.hostname),
                ],
            );
            out.append(extra.as_str());
            proof {
                assert(out@.subrange(0, (start + head).len() as int) =~= start + head);
            }
            ArwahColor::Green
        },
        ARWAH_TCP::TLS(ArwahTls::ServerHello(server_hello)) => {
            out.append("TLS ServerHello");
            proof { assert(out@ =~= start + head); }
            let extra = arwah_display_kv_list(
                &vec![
                    ("version".to_owned(), server_hello.version),
                    ("session".to_owned(), server_hello.session_id),
                    ("cipher".to_owned(), server_hello.cipher),
                ],
            );
            out.append(extra.as_str());
            proof {
                assert(out@.subrange(0, (start + head).len() as int) =~= start + head);
            }
            ArwahColor::Green
        },
        ARWAH_TCP::Text(text) => {
            out.append("TEXT ");
            proof { assert(out@ =~= start + head); }
            arwah_push_text_debug(out, &text);
            proof {
                assert(out@.subrange(0, (start + head).len() as int) =~= start + head);
            }
            ArwahColor::Red
        },
        ARWAH_TCP::Binary(x) => {
            out.append("BINARY ");
            proof { assert(out@ =~= start + head); }
            arwah_push_bytes_debug(out, &x);
            proof {
                assert(out@.subrange(0, (start + head).len() as int) =~= start + head);
            }
            if tcp_header.flag_rst {
                ArwahColor::Grey
            } else {
                ArwahColor::Red
            }
        },
        ARWAH_TCP::Empty => {
            proof {
                assert(out@ =~= start + head);
                assert(out@.subrange(0, (start + head).len() as int) =~= start + head);
            }
            ArwahColor::Grey
        },
    }
}

/// The tag that opens a classified UDP payload's summary.
pub open spec fn spec_udp_payload_tag(c: ARWAH_UDP) -> Seq<char> {
    match c {
        ARWAH_UDP::DHCP(d) => match d {
            ARWAH_DHCP::DISCOVER(_) => "DHCP DISCOVER: "@,
            ARWAH_DHCP::REQUEST(_) => "DHCP REQ: "@,
            ARWAH_DHCP::ACK(_) => "DHCP ACK: "@,
            ARWAH_DHCP::OFFER(_) => "DHCP OFFER: "@,
            ARWAH_DHCP::DECLINE(_) => "DHCP DECLINE: "@,
            ARWAH_DHCP::INFORM(_) => "DHCP INFORM: "@,
            ARWAH_DHCP::NAK(_) => "DHCP NAK: "@,
            ARWAH_DHCP::RELEASE(_) => "DHCP RELEASE: "@,
            ARWAH_DHCP::UNKNOWN(_) => "DHCP UNKNOWN: "@,
        },
        ARWAH_UDP::DNS(ARWAH_DNS::Request(_)) => "DNS req, "@,
        ARWAH_UDP::DNS(ARWAH_DNS::Response(_)) => "DNS resp, "@,
        ARWAH_UDP::SSDP(ARWAH_SSDP::Discover(Some(_))) => "[ssdp] searching("@,
        ARWAH_UDP::SSDP(ARWAH_SSDP::Discover(None)) => "[ssdp] searching..."@,
        ARWAH_UDP::SSDP(ARWAH_SSDP::Notify(_)) => "[ssdp] notify: "@,
        ARWAH_UDP::SSDP(ARWAH_SSDP::BTSearch(_)) => "[ssdp] torrent search: "@,
        ARWAH_UDP::Dropbox(_) => "[dropbox] beacon: version="@,
        ARWAH_UDP::Text(_) => "TEXT "@,
        ARWAH_UDP::Binary(_) => "BINARY "@,
    }
}

/// What opens every UDP summary line: the endpoints and the payload's tag.
pub open spec fn spec_udp_compact_head(
    src: Seq<char>,
    dst: Seq<char>,
    h: ArwahUdpHeader,
    c: ARWAH_UDP,
) -> Seq<char> {
    "UDP "@ + spec_endpoint_text(src, h.source_port) + " -> "@
        + spec_endpoint_text(dst, h.dest_port) + " "@ + spec_udp_payload_tag(c)
}

/// The color a UDP summary line carries.
pub open spec fn spec_udp_compact_color(c: ARWAH_UDP) -> ArwahColor {
    match c {
        ARWAH_UDP::DHCP(_) => ArwahColor::Blue,
        ARWAH_UDP::DNS(_) => ArwahColor::Yellow,
        ARWAH_UDP::SSDP(_) => ArwahColor::Purple,
        ARWAH_UDP::Dropbox(_) => ArwahColor::Purple,
        ARWAH_UDP::Text(_) => ArwahColor::Red,
        ARWAH_UDP::Binary(_) => ArwahColor::Red,
    }
}

/// Appends the UDP summary: the endpoints and the classified payload.
#[verifier::rlimit(100)]
fn arwah_format_compact_ip_udp<IP: ArwahIPHeader>(
    out: &mut String,
    ip_header: &IP,
    udp_header: &ArwahUdpHeader,
    udp: ARWAH_UDP,
) -> (r: ArwahColor)
    ensures
        spec_extends_with(
            old(out)@,
            final(out)@,
            spec_udp_compact_head(
                ip_header.spec_source_text(),
                ip_header.spec_dest_text(),
                *udp_header,
                udp,
            ),
        ),
        r == spec_udp_compact_color(udp),
{
    let ghost start = out@;
    let ghost head = spec_udp_compact_head(
        ip_header.spec_source_text(),
        ip_header.spec_dest_text(),
        *udp_header,
        udp,
    );
    out.append("UDP ");
    arwah_push_endpoint(out, ip_header.arwah_source_addr(), udp_header.source_port);
    out.append(" -> ");
    arwah_push_endpoint(out, ip_header.arwah_dest_addr(), udp_header.dest_port);
    out.append(" ");
    let ghost pre_tag = out@;
    proof {
        assert(pre_tag =~= start + "UDP "@
            + spec_endpoint_text(ip_header.spec_source_text(), udp_header.source_port) + " -> "@
            + spec_endpoint_text(ip_header.spec_dest_text(), udp_header.dest_port) + " "@);
    }
    match udp {
        ARWAH_UDP::DHCP(dhcp) => {
            match dhcp {
                ARWAH_DHCP::DISCOVER(disc) => {
                    out.append("DHCP DISCOVER: ");
                    out.append(arwah_display_macadr_buf(disc.chaddr).as_str());
                    arwah_push_dhcp_fields(out, &disc, false);
                    proof { assert(out@.subrange(0, (start + head).len() as int) =~= start + head); }
                },
                ARWAH_DHCP::REQUEST(req) => {
                    out.append("DHCP REQ: ");
                    out.append(arwah_display_macadr_buf(req.chaddr).as_str());
                    arwah_push_dhcp_fields(out, &req, false);
                    proof { assert(out@.subrange(0, (start + head).len() as int) =~= start + head); }
                },
                ARWAH_DHCP::ACK(ack) => {
                    out.append("DHCP ACK: ");
                    out.append(arwah_display_macadr_buf(ack.chaddr).as_str());
                    out.append(" => ");
                    out.append(arwah_ipv4_text(&ack.yiaddr).as_str());
                    arwah_push_dhcp_fields(out, &ack, true);
                    proof { assert(out@.subrange(0, (start + head).len() as int) =~= start + head); }
                },
                ARWAH_DHCP::OFFER(offer) => {
                    out.append("DHCP OFFER: ");
                    out.append(arwah_display_macadr_buf(offer.chaddr).as_str());
                    out.append(" => ");
                    out.append(arwah_ipv4_text(&offer.yiaddr).as_str());
                    arwah_push_dhcp_fields(out, &offer, true);
                    proof { assert(out@.subrange(0, (start + head).len() as int) =~= start + head); }
                },
                ARWAH_DHCP::DECLINE(pkt) => {
                    out.append("DHCP DECLINE: ");
                    out.append(arwah_display_macadr_buf(pkt.chaddr).as_str());
                    proof { assert(out@.subrange(0, (start + head).len() as int) =~= start + head); }
                },
                ARWAH_DHCP::INFORM(pkt) => {
                    out.append("DHCP INFORM: ");
                    out.append(arwah_display_macadr_buf(pkt.chaddr).as_str());
                    proof { assert(out@.subrange(0, (start + head).len() as int) =~= start + head); }
                },
                ARWAH_DHCP::NAK(pkt) => {
                    out.append("DHCP NAK: ");
                    out.append(arwah_display_macadr_buf(pkt.chaddr).as_str());
                    proof { assert(out@.subrange(0, (start + head).len() as int) =~= start + head); }
                },
                ARWAH_DHCP::RELEASE(pkt) => {
                    out.append("DHCP RELEASE: ");
                    out.append(arwah_display_macadr_buf(pkt.chaddr).as_str());
                    proof { assert(out@.subrange(0, (start + head).len() as int) =~= start + head); }
                },
                ARWAH_DHCP::UNKNOWN(pkt) => {
                    out.append("DHCP UNKNOWN: ");
                    out.append(arwah_display_macadr_buf(pkt.chaddr).as_str());
                    proof { assert(out@.subrange(0, (start + head).len() as int) =~= start + head); }
                },
            }
            ArwahColor::Blue
        },
        ARWAH_UDP::DNS(dns) => {
            match dns {
                ARWAH_DNS::Request(req) => {
                    out.append("DNS req, ");
                    proof { assert(out@ =~= start + head); }
                    let ghost with_head = out@;
                    if req.questions.len() == 0 {
                        out.append("[]");
                    }
                    let mut i: usize = 0;
                    proof { assert(out@.subrange(0, with_head.len() as int) =~= with_head); }
                    while i < req.questions.len()
                        invariant
                            spec_appends(with_head, out@),
                        decreases req.questions@.len() - i,
                    {
                        if i > 0 {
                            out.append("\n  ");
                        }
                        out.append(arwah_qtype_text(req.questions[i].0).as_str());
                        out.append(" ");
                        arwah_push_text_debug(out, &req.questions[i].1);
                        i += 1;
                        proof { assert(out@.subrange(0, with_head.len() as int) =~= with_head); }
                    }
                    proof {
                        assert(out@.subrange(0, (start + head).len() as int) =~= start + head);
                    }
                },
                ARWAH_DNS::Response(resp) => {
                    out.append("DNS resp, ");
                    proof { assert(out@ =~= start + head); }
                    let ghost with_head = out@;
                    if resp.answers.len() == 0 {
                        out.append("[]");
                    }
                    let mut i: usize = 0;
                    proof { assert(out@.subrange(0, with_head.len() as int) =~= with_head); }
                    while i < resp.answers.len()
                        invariant
                            spec_appends(with_head, out@),
                        decreases resp.answers@.len() - i,
                    {
                        if i > 0 {
                            out.append("\n  ");
                        }
                        arwah_push_text_debug(out, &resp.answers[i].0);
                        out.append(" ");
                        arwah_push_record(out, &resp.answers[i].1);
                        i += 1;
                        proof { assert(out@.subrange(0, with_head.len() as int) =~= with_head); }
                    }
                    proof {
                        assert(out@.subrange(0, (start + head).len() as int) =~= start + head);
                    }
                },
            }
            ArwahColor::Yellow
        },
        ARWAH_UDP::SSDP(ssdp) => {
            match ssdp {
                ARWAH_SSDP::Discover(extra) => {
                    match extra {
                        Some(extra) => {
                            out.append("[ssdp] searching(");
                            arwah_push_text_debug(out, &extra);
                            out.append(")...");
                            proof { assert(out@.subrange(0, (start + head).len() as int) =~= start + head); }
                        },
                        None => {
                            out.append("[ssdp] searching...");
                            proof { assert(out@.subrange(0, (start + head).len() as int) =~= start + head); }
                        },
                    }
                },
                ARWAH_SSDP::Notify(extra) => {
                    out.append("[ssdp] notify: ");
                    arwah_push_text_debug(out, &extra);
                    proof { assert(out@.subrange(0, (start + head).len() as int) =~= start + head); }
                },
                ARWAH_SSDP::BTSearch(extra) => {
                    out.append("[ssdp] torrent search: ");
                    arwah_push_text_debug(out, &extra);
                    proof { assert(out@.subrange(0, (start + head).len() as int) =~= start + head); }
                },
            }
            ArwahColor::Purple
        },
        ARWAH_UDP::Dropbox(dropbox) => {
            out.append("[dropbox] beacon: version=");
            proof { assert(out@ =~= start + head); }
            let ghost with_head = out@;
            let mut i: usize = 0;
            out.append("[");
            proof { assert(out@.subrange(0, with_head.len() as int) =~= with_head); }
            while i < dropbox.version.len()
                invariant
                    spec_appends(with_head, out@),
                decreases dropbox.version@.len() - i,
            {
                if i > 0 {
                    out.append(", ");
                }
                out.append(arwah_u64_text(dropbox.version[i] as u64).as_str());
                i += 1;
                proof { assert(out@.subrange(0, with_head.len() as int) =~= with_head); }
            }
            out.append("], host_int=");
            out.append(arwah_u128_text(dropbox.host_int).as_str());
            out.append(", namespaces=[");
            let mut j: usize = 0;
            proof { assert(out@.subrange(0, with_head.len() as int) =~= with_head); }
            while j < dropbox.namespaces.len()
                invariant
                    spec_appends(with_head, out@),
                decreases dropbox.namespaces@.len() - j,
            {
                if j > 0 {
                    out.append(", ");
                }
                out.append(arwah_u64_text(dropbox.namespaces[j]).as_str());
                j += 1;
                proof { assert(out@.subrange(0, with_head.len() as int) =~= with_head); }
            }
            out.append("], displayname=");
            arwah_push_text_debug(out, &dropbox.displayname);
            out.append(", port=");
            out.append(arwah_u64_text(dropbox.port as u64).as_str());
            proof {
                assert(out@.subrange(0, (start + head).len() as int) =~= start + head);
            }
            ArwahColor::Purple
        },
        ARWAH_UDP::Text(text) => {
            out.append("TEXT ");
            proof { assert(out@ =~= start + head); }
            arwah_push_text_debug(out, &text);
            proof {
                assert(out@.subrange(0, (start + head).len() as int) =~= start + head);
            }
            ArwahColor::Red
        },
        ARWAH_UDP::Binary(x) => {
            out.append("BINARY ");
            proof { assert(out@ =~= start + head); }
            arwah_push_bytes_debug(out, &x);
            proof {
                assert(out@.subrange(0, (start + head).len() as int) =~= start + head);
            }
            ArwahColor::Red
        },
    }
}

/// The mnemonic for an ICMP type.
pub open spec fn spec_icmp_type_tag(code: u16) -> Seq<char> {
    let t = code / 256;
    if t == 0 {
        "icmp/pong"@
    } else if t == 3 {
        "icmp/unrch"@
    } else if t == 8 {
        "icmp/ping"@
    } else if t == 11 {
        "icmp/ttl"@
    } else {
        "icmp"@
    }
}

/// The rendering of the code-specific ICMP data.
pub open spec fn spec_icmp_data_text(d: ArwahIcmpData) -> Seq<char> {
    match d {
        ArwahIcmpData::Unreachable { nexthop_mtu } => ", data=unreachable mtu="@ + spec_decimal(
            nexthop_mtu as int,
        ),
        ArwahIcmpData::Redirect { gateway } => ", data=redirect gateway="@ + spec_ipv4_text(
            gateway@,
        ),
        ArwahIcmpData::TimeExceeded => ", data=time exceeded"@,
        ArwahIcmpData::Empty => Seq::empty(),
    }
}

/// The whole ICMP summary line: the type mnemonic, the endpoints, the code
/// word with its data, and the trailing bytes.
pub open spec fn spec_icmp_compact(
    src: Seq<char>,
    dst: Seq<char>,
    h: ArwahIcmpHeader,
    i: ArwahICMP,
) -> Seq<char> {
    "[ ETA ]: -> ["@ + spec_icmp_type_tag(h.code) + "] "@ + src + " -> "@ + dst + " [code="@
        + spec_decimal(h.code as int) + spec_icmp_data_text(h.data) + "] "@ + spec_bytes_debug(
        i.data@,
    )
}

/// Appends the ICMP summary.
#[verifier::rlimit(60)]
fn arwah_format_compact_ip_icmp<IP: ArwahIPHeader>(
    out: &mut String,
    ip_header: &IP,
    icmp_header: &ArwahIcmpHeader,
    icmp: &ArwahICMP,
) -> (r: ArwahColor)
    ensures
        final(out)@ == old(out)@ + spec_icmp_compact(
            ip_header.spec_source_text(),
            ip_header.spec_dest_text(),
            *icmp_header,
            *icmp,
        ),
        r == ArwahColor::Blue,
{
    let ghost start = out@;
    let icmp_type = (icmp_header.code / 256) as u8;
    out.append("[ ETA ]: -> [");
    if icmp_type == 0 {
        out.append("icmp/pong");
    } else if icmp_type == 3 {
        out.append("icmp/unrch");
    } else if icmp_type == 8 {
        out.append("icmp/ping");
    } else if icmp_type == 11 {
        out.append("icmp/ttl");
    } else {
        out.append("icmp");
    }
    out.append("] ");
    out.append(ip_header.arwah_source_addr().as_str());
    out.append(" -> ");
    out.append(ip_header.arwah_dest_addr().as_str());
    out.append(" [code=");
    out.append(arwah_u64_text(icmp_header.code as u64).as_str());
    match &icmp_header.data {
        ArwahIcmpData::Unreachable { nexthop_mtu } => {
            out.append(", data=unreachable mtu=");
            out.append(arwah_u64_text(*nexthop_mtu as u64).as_str());
        },
        ArwahIcmpData::Redirect { gateway } => {
            out.append(", data=redirect gateway=");
            out.append(arwah_ipv4_text(gateway).as_str());
        },
        ArwahIcmpData::TimeExceeded => {
            out.append(", data=time exceeded");
        },
        ArwahIcmpData::Empty => {},
    }
    out.append("] ");
    arwah_push_bytes_debug(out, &icmp.data);
    proof {
        assert(out@ =~= start + spec_icmp_compact(
            ip_header.spec_source_text(),
            ip_header.spec_dest_text(),
            *icmp_header,
            *icmp,
        ));
    }
    ArwahColor::Blue
}

/// Appends the promoted DHCP fields that are set.
fn arwah_push_dhcp_fields(out: &mut String, pkt: &ArwahPacket, with_routing: bool)
    ensures
        spec_appends(old(out)@, final(out)@),
{
    let ghost base = out@;
    let mut writer = ArwahDhcpKvListWriter::arwah_new();
    if let Some(hostname) = &pkt.hostname {
        let mut value = String::new();
        arwah_push_text_debug(&mut value, hostname);
        writer = writer.arwah_append("hostname", value);
    }
    if !with_routing {
        if let Some(addr) = &pkt.requested_ip_address {
            writer = writer.arwah_append("requested_ip_address", arwah_ipv4_text(addr));
        }
    } else {
        if let Some(router) = &pkt.router {
            writer = writer.arwah_append("router", arwah_addr_list_text(router));
        }
        if let Some(dns_servers) = &pkt.domain_name_server {
            writer = writer.arwah_append("dns", arwah_addr_list_text(dns_servers));
        }
    }
    out.append(writer.arwah_finalize().as_str());
    proof { assert(out@.subrange(0, base.len() as int) =~= base); }
}

/// Renders an address list as a bracketed, comma-separated row.
fn arwah_addr_list_text(addrs: &Vec<[u8; 4]>) -> (r: String) {
    let mut out = String::new();
    out.append("[");
    let mut i: usize = 0;
    while i < addrs.len()
        decreases addrs@.len() - i,
    {
        if i > 0 {
            out.append(", ");
        }
        out.append(arwah_ipv4_text(&addrs[i]).as_str());
        i += 1;
    }
    out.append("]");
    out
}

/// The registry mnemonic of a question type.
fn arwah_qtype_text(q: crate::dns::ArwahQueryType) -> (r: String) {
    match q {
        crate::dns::ArwahQueryType::A => "A".to_owned(),
        crate::dns::ArwahQueryType::NS => "NS".to_owned(),
        crate::dns::ArwahQueryType::MF => "MF".to_owned(),
        crate::dns::ArwahQueryType::CNAME => "CNAME".to_owned(),
        crate::dns::ArwahQueryType::SOA => "SOA".to_owned(),
        crate::dns::ArwahQueryType::MB => "MB".to_owned(),
        crate::dns::ArwahQueryType::MG => "MG".to_owned(),
        crate::dns::ArwahQueryType::MR => "MR".to_owned(),
        crate::dns::ArwahQueryType::NULL => "NULL".to_owned(),
        crate::dns::ArwahQueryType::WKS => "WKS".to_owned(),
        crate::dns::ArwahQueryType::PTR => "PTR".to_owned(),
        crate::dns::ArwahQueryType::HINFO => "HINFO".to_owned(),
        crate::dns::ArwahQueryType::MINFO => "MINFO".to_owned(),
        crate::dns::ArwahQueryType::MX => "MX".to_owned(),
        crate::dns::ArwahQueryType::TXT => "TXT".to_owned(),
        crate::dns::ArwahQueryType::AAAA => "AAAA".to_owned(),
        crate::dns::ArwahQueryType::SRV => "SRV".to_owned(),
        crate::dns::ArwahQueryType::AXFR => "AXFR".to_owned(),
        crate::dns::ArwahQueryType::MAILB => "MAILB".to_owned(),
        crate::dns::ArwahQueryType::MAILA => "MAILA".to_owned(),
        crate::dns::ArwahQueryType::All => "All".to_owned(),
    }
}

/// Appends one DNS record's data.
fn arwah_push_record(out: &mut String, record: &ArwahRecord)
    ensures
        spec_appends(old(out)@, final(out)@),
{
    let ghost base = out@;
    match record {
        ArwahRecord::A(addr) => {
            out.append("A ");
            out.append(arwah_ipv4_text(addr).as_str());
        },
        ArwahRecord::AAAA(addr) => {
            out.append("AAAA ");
            out.append(crate::ip::arwah_ipv6_text(addr).as_str());
        },
        ArwahRecord::CNAME(name) => {
            out.append("CNAME ");
            arwah_push_text_debug(out, name);
        },
        ArwahRecord::NS(name) => {
            out.append("NS ");
            arwah_push_text_debug(out, name);
        },
        ArwahRecord::PTR(name) => {
            out.append("PTR ");
            arwah_push_text_debug(out, name);
        },
        ArwahRecord::TXT(chunks) => {
            out.append("TXT ");
            let mut i: usize = 0;
            proof { assert(out@.subrange(0, base.len() as int) =~= base); }
            while i < chunks.len()
                invariant
                    spec_appends(base, out@),
                decreases chunks@.len() - i,
            {
                arwah_push_bytes_debug(out, &chunks[i]);
                i += 1;
                proof { assert(out@.subrange(0, base.len() as int) =~= base); }
            }
        },
        ArwahRecord::Unknown => {
            out.append("Unknown");
        },
    }
    proof { assert(out@.subrange(0, base.len() as int) =~= base); }
}

/// The given depth of tab indentation.
pub open spec fn spec_tabs(n: nat) -> Seq<char>
    decreases n,
{
    if n == 0 {
        Seq::empty()
    } else {
        spec_tabs((n - 1) as nat) + "\t"@
    }
}

/// The tag that opens a network layer's debugging rendering.
pub open spec fn spec_eth_debug_tag(eth: ArwahEther) -> Seq<char> {
    match eth {
        ArwahEther::Arp(_) => "[ ETA ]: -> ARP  "@,
        ArwahEther::IPv4(_, _) => "IPv4 "@,
        ArwahEther::IPv6(_, _) => "IPv6 "@,
        ArwahEther::Cjdns(_) => "CJDNS -> "@,
        ArwahEther::Unknown(_) => "UNKNOWN -> "@,
    }
}

/// Appends the indented network-layer rendering: the indentation, the
/// layer's tag, then its summary.
#[verifier::rlimit(60)]
fn arwah_print_debugging_eth(out: &mut String, indent: usize, eth: ArwahEther)
    requires
        indent <= 4,
    ensures
        spec_extends_with(old(out)@, final(out)@, spec_tabs(indent as nat) + spec_eth_debug_tag(eth)),
{
    let ghost start = out@;
    let ghost head = spec_tabs(indent as nat) + spec_eth_debug_tag(eth);
    arwah_push_indent(out, indent);
    match eth {
        ArwahEther::Arp(arp_pkt) => {
            out.append("[ ETA ]: -> ARP  ");
            proof { assert(out@ =~= start + head); }
            arwah_format_compact_arp(out, &arp_pkt);
            proof { assert(out@.subrange(0, (start + head).len() as int) =~= start + head); }
        },
        ArwahEther::IPv4(ip_header, inner) => {
            out.append("IPv4 ");
            proof { assert(out@ =~= start + head); }
            out.append(ip_header.arwah_source_addr().as_str());
            out.append(" -> ");
            out.append(ip_header.arwah_dest_addr().as_str());
            out.append("\n");
            arwah_push_indent(out, indent + 1);
            let ghost mid = out@;
            proof { assert(mid.subrange(0, (start + head).len() as int) =~= start + head); }
            arwah_format_compact_ipv4(out, &ip_header, inner);
            proof {
                assert(out@.subrange(0, mid.len() as int) =~= mid);
                lemma_prefix_chain(start + head, mid, out@);
            }
        },
        ArwahEther::IPv6(ip_header, inner) => {
            out.append("IPv6 ");
            proof { assert(out@ =~= start + head); }
            out.append(ip_header.arwah_source_addr().as_str());
            out.append(" -> ");
            out.append(ip_header.arwah_dest_addr().as_str());
            out.append("\n");
            arwah_push_indent(out, indent + 1);
            let ghost mid = out@;
            proof { assert(mid.subrange(0, (start + head).len() as int) =~= start + head); }
            arwah_format_compact_ipv6(out, &ip_header, inner);
            proof {
                assert(out@.subrange(0, mid.len() as int) =~= mid);
                lemma_prefix_chain(start + head, mid, out@);
            }
        },
        ArwahEther::Cjdns(cjdns_pkt) => {
            out.append("CJDNS -> ");
            proof { assert(out@ =~= start + head); }
            arwah_format_compact_cjdns(out, &cjdns_pkt);
            proof { assert(out@.subrange(0, (start + head).len() as int) =~= start + head); }
        },
        ArwahEther::Unknown(data) => {
            out.append("UNKNOWN -> ");
            proof { assert(out@ =~= start + head); }
            arwah_push_bytes_debug(out, &data);
            proof { assert(out@.subrange(0, (start + head).len() as int) =~= start + head); }
        },
    }
}

/// Appends tab indentation.
fn arwah_push_indent(out: &mut String, indent: usize)
    ensures
        final(out)@ == old(out)@ + spec_tabs(indent as nat),
{
    let ghost base = out@;
    let mut i: usize = 0;
    proof { assert(base + spec_tabs(0nat) =~= base); }
    while i < indent
        invariant
            i <= indent,
            out@ == base + spec_tabs(i as nat),
        decreases indent - i,
    {
        out.append("\t");
        i += 1;
        proof {
            assert(spec_tabs(i as nat) == spec_tabs((i - 1) as nat) + "\t"@);
            assert(out@ =~= base + spec_tabs(i as nat));
        }
    }
}

/// Builds the parenthesized key/value tail of a summary line.
pub struct ArwahDhcpKvListWriter {
    elements: Vec<(String, String)>,
}

impl ArwahDhcpKvListWriter {
    /// An empty tail.
    pub fn arwah_new() -> (r: ArwahDhcpKvListWriter)
        ensures
            r.spec_elements().len() == 0,
    {
        ArwahDhcpKvListWriter { elements: Vec::new() }
    }

    /// The collected pairs.
    pub closed spec fn spec_elements(self) -> Seq<(String, String)> {
        self.elements@
    }

    /// Adds one pair.
    pub fn arwah_append(self, key: &str, value: String) -> (r: ArwahDhcpKvListWriter)
        ensures
            r.spec_elements().len() == self.spec_elements().len() + 1,
            forall|k: int|
                0 <= k < self.spec_elements().len() ==> r.spec_elements()[k]
                    == self.spec_elements()[k],
            r.spec_elements().last().0@ == key@,
            r.spec_elements().last().1 == value,
    {
        let mut elements = self.elements;
        elements.push((key.to_owned(), value));
        ArwahDhcpKvListWriter { elements }
    }

    /// The finished tail: nothing when no pair was added, else the pairs
    /// joined with commas inside parentheses.
    pub fn arwah_finalize(self) -> (r: String)
        ensures
            self.spec_elements().len() == 0 ==> r@.len() == 0,
            self.spec_elements().len() > 0 ==> r@.len() > 0,
    {
        let mut out = String::new();
        if self.elements.len() == 0 {
            return out;
        }
        proof {
            reveal_strlit(" (");
        }
        out.append(" (");
        let mut i: usize = 0;
        while i < self.elements.len()
            invariant
                i <= self.elements@.len(),
                out@.len() > 0,
            decreases self.elements@.len() - i,
        {
            if i > 0 {
                out.append(", ");
            }
            out.append(self.elements[i].0.as_str());
            out.append(" ");
            out.append(self.elements[i].1.as_str());
            i += 1;
        }
        out.append(")");
        out
    }
}

/// Indents a continuation line under a given column.
pub fn arwah_align(len: usize, a: &str) -> (r: String)
    ensures
        r@.len() == 2 + len + a@.len(),
{
    let mut out = String::new();
    proof {
        reveal_strlit("\n");
    }
    out.append("\n");
    let mut i: usize = 0;
    while i < len
        invariant
            i <= len,
            out@.len() == 1 + i,
        decreases len - i,
    {
        proof {
            reveal_strlit(" ");
        }
        out.append(" ");
        i += 1;
    }
    proof {
        reveal_strlit(" ");
    }
    out.append(" ");
    out.append(a);
    out
}

/// Renders a MAC address as colon-separated hexadecimal pairs.
pub fn arwah_display_macadr_buf(mac: [u8; 6]) -> (r: String)
    ensures
        r@ == spec_join_colon(Seq::new(6nat, |x: int| spec_hex_byte(mac@[x] as int))),
{
    let ghost parts = Seq::new(6nat, |x: int| spec_hex_byte(mac@[x] as int));
    let mut out = String::new();
    let mut i: usize = 0;
    proof {
        assert(spec_join_colon(parts.take(0)) =~= Seq::<char>::empty());
    }
    while i < 6
        invariant
            i <= 6,
            parts == Seq::new(6nat, |x: int| spec_hex_byte(mac@[x] as int)),
            out@ == spec_join_colon(parts.take(i as int)),
        decreases 6 - i,
    {
        if i > 0 {
            out.append(":");
        }
        arwah_push_hex_byte(&mut out, mac[i]);
        i += 1;
        proof {
            assert(parts.take(i as int).drop_last() =~= parts.take(i - 1));
            assert(parts.take(i as int).last() == parts[i - 1]);
            assert(out@ == spec_join_colon(parts.take(i as int)));
        }
    }
    proof {
        assert(parts.take(6) =~= parts);
    }
    out
}

/// Renders a MAC address.
pub fn arwah_display_macaddr(mac: &[u8; 6]) -> (r: String)
    ensures
        r@ == spec_join_colon(Seq::new(6nat, |x: int| spec_hex_byte(mac@[x] as int))),
{
    arwah_display_macadr_buf(*mac)
}

/// Joins the present values of a key/value list: nothing where every value
/// is absent, else `(k1: v1, k2: v2)` over the present ones.
/// How many entries of the list carry a value.
pub open spec fn spec_kv_count(l: Seq<(String, Option<String>)>) -> nat
    decreases l.len(),
{
    if l.len() == 0 {
        0nat
    } else {
        spec_kv_count(l.drop_last()) + (if l.last().1 is Some {
            1nat
        } else {
            0nat
        })
    }
}

/// The carried entries joined as `key: value` rows, comma-separated.
pub open spec fn spec_kv_joined(l: Seq<(String, Option<String>)>) -> Seq<char>
    decreases l.len(),
{
    if l.len() == 0 {
        Seq::empty()
    } else {
        match l.last().1 {
            Some(v) => spec_kv_joined(l.drop_last()) + (if spec_kv_count(l.drop_last()) == 0 {
                Seq::empty()
            } else {
                ", "@
            }) + l.last().0@ + ": "@ + spec_text_debug(v@),
            None => spec_kv_joined(l.drop_last()),
        }
    }
}

/// What the key/value tail renders to: nothing where no entry carries a
/// value, else the carried entries parenthesized.
pub open spec fn spec_kv_list(l: Seq<(String, Option<String>)>) -> Seq<char> {
    if spec_kv_count(l) == 0 {
        Seq::empty()
    } else {
        " ("@ + spec_kv_joined(l) + ")"@
    }
}

/// A list none of whose entries carries a value joins to nothing.
proof fn lemma_kv_joined_empty(l: Seq<(String, Option<String>)>)
    requires
        spec_kv_count(l) == 0,
    ensures
        spec_kv_joined(l) == Seq::<char>::empty(),
    decreases l.len(),
{
    if l.len() > 0 {
        lemma_kv_joined_empty(l.drop_last());
        assert(spec_kv_joined(l) =~= Seq::<char>::empty());
    }
}

pub fn arwah_display_kv_list(list: &Vec<(String, Option<String>)>) -> (r: String)
    ensures
        r@ == spec_kv_list(list@),
{
    let mut found = false;
    let mut out = String::new();
    let mut i: usize = 0;
    proof {
        assert(spec_kv_joined(list@.take(0)) =~= Seq::<char>::empty());
    }
    while i < list.len()
        invariant
            i <= list@.len(),
            found <==> spec_kv_count(list@.take(i as int)) > 0,
            !found ==> out@ == Seq::<char>::empty(),
            found ==> out@ == " ("@ + spec_kv_joined(list@.take(i as int)),
        decreases list@.len() - i,
    {
        if let Some(value) = &list[i].1 {
            if !found {
                out.append(" (");
                found = true;
            } else {
                out.append(", ");
            }
            out.append(list[i].0.as_str());
            out.append(": ");
            arwah_push_text_debug(&mut out, value);
        }
        i += 1;
        proof {
            assert(list@.take(i as int).drop_last() =~= list@.take(i - 1));
            assert(list@.take(i as int).last() == list@[i - 1]);
            if spec_kv_count(list@.take(i - 1)) == 0 {
                lemma_kv_joined_empty(list@.take(i - 1));
            }
            if found {
                assert(out@ =~= " ("@ + spec_kv_joined(list@.take(i as int)));
            }
        }
    }
    proof {
        assert(list@.take(list@.len() as int) =~= list@);
    }
    if found {
        out.append(")");
        proof {
            assert(out@ =~= " ("@ + spec_kv_joined(list@) + ")"@);
        }
    }
    out
}

/// One text-typed sequence extends another: nothing already written is
/// touched.
pub open spec fn spec_appends(before: Seq<char>, after: Seq<char>) -> bool {
    after.len() >= before.len() && after.subrange(0, before.len() as int) == before
}

/// Keeping a prefix is transitive across successive appends.
proof fn lemma_prefix_chain(a: Seq<char>, b: Seq<char>, c: Seq<char>)
    requires
        a.len() <= b.len() <= c.len(),
        b.subrange(0, a.len() as int) == a,
        c.subrange(0, b.len() as int) == b,
    ensures
        c.subrange(0, a.len() as int) == a,
{
    assert(c.subrange(0, a.len() as int) =~= a);
}

/// One text-typed sequence extends another, beginning with the given
/// head.
pub open spec fn spec_extends_with(before: Seq<char>, after: Seq<char>, head: Seq<char>) -> bool {
    after.len() >= before.len() + head.len() && after.subrange(
        0,
        before.len() + head.len() as int,
    ) == before + head
}

/// The escape a character gets inside quoted text.
pub open spec fn spec_char_debug(c: char) -> Seq<char> {
    if c == '"' {
        "\\\""@
    } else if c == '\\' {
        "\\\\"@
    } else if c == '\n' {
        "\\n"@
    } else if c == '\r' {
        "\\r"@
    } else if c == '\t' {
        "\\t"@
    } else {
        seq![c]
    }
}

/// A string's quoted rendering, character by character.
pub open spec fn spec_text_debug_body(t: Seq<char>) -> Seq<char>
    decreases t.len(),
{
    if t.len() == 0 {
        Seq::empty()
    } else {
        spec_text_debug_body(t.drop_last()) + spec_char_debug(t.last())
    }
}

/// A string's quoted rendering.
pub open spec fn spec_text_debug(t: Seq<char>) -> Seq<char> {
    "\""@ + spec_text_debug_body(t) + "\""@
}

/// Appends a string the way a debugger would show it: quoted, with
/// backslashes, quotes and the common control characters escaped.
pub fn arwah_push_text_debug(out: &mut String, text: &String)
    ensures
        final(out)@ == old(out)@ + spec_text_debug(text@),
{
    proof {
        reveal_strlit("\"");
    }
    out.append("\"");
    let s = text.as_str();
    proof {
        assert(s@ == text@);
        assert(spec_text_debug_body(text@.take(0)) =~= Seq::<char>::empty());
    }
    let ghost opened = old(out)@ + "\""@;
    let n = s.unicode_len();
    let mut i: usize = 0;
    while i < n
        invariant
            i <= n,
            n == s@.len(),
            s@ == text@,
            out@ == opened + spec_text_debug_body(text@.take(i as int)),
        decreases n - i,
    {
        let c = s.get_char(i);
        proof {
            reveal_strlit("\\\"");
            reveal_strlit("\\\\");
            reveal_strlit("\\n");
            reveal_strlit("\\r");
            reveal_strlit("\\t");
        }
        if c == '"' {
            out.append("\\\"");
        } else if c == '\\' {
            out.append("\\\\");
        } else if c == '\n' {
            out.append("\\n");
        } else if c == '\r' {
            out.append("\\r");
        } else if c == '\t' {
            out.append("\\t");
        } else {
            arwah_push_char(out, c);
        }
        i += 1;
        proof {
            assert(text@.take(i as int).drop_last() =~= text@.take(i - 1));
            assert(text@.take(i as int).last() == c);
            assert(out@ == opened + spec_text_debug_body(text@.take(i as int)));
        }
    }
    proof {
        assert(text@.take(n as int) =~= text@);
        reveal_strlit("\"");
    }
    out.append("\"");
}

/// The escape a byte gets inside quoted byte text: a printable character
/// stands for itself, quotes and backslashes carry a backslash, and every
/// other byte is a hexadecimal escape.
pub open spec fn spec_byte_debug(b: u8) -> Seq<char> {
    if b == 34 {
        "\\\""@
    } else if b == 92 {
        "\\\\"@
    } else if b >= 32 && b < 127 {
        seq![b as char]
    } else {
        "\\x"@ + spec_hex_byte(b as int)
    }
}

/// A byte row's quoted rendering, byte by byte.
pub open spec fn spec_bytes_debug_body(d: Seq<u8>) -> Seq<char>
    decreases d.len(),
{
    if d.len() == 0 {
        Seq::empty()
    } else {
        spec_bytes_debug_body(d.drop_last()) + spec_byte_debug(d.last())
    }
}

/// A byte row's quoted rendering.
pub open spec fn spec_bytes_debug(d: Seq<u8>) -> Seq<char> {
    "\""@ + spec_bytes_debug_body(d) + "\""@
}

/// Appends bytes the way a debugger would show them: quoted, printable
/// ASCII as itself and every other byte as a hexadecimal escape.
pub fn arwah_push_bytes_debug(out: &mut String, data: &Vec<u8>)
    ensures
        final(out)@ == old(out)@ + spec_bytes_debug(data@),
{
    proof {
        reveal_strlit("\"");
    }
    out.append("\"");
    let ghost opened = old(out)@ + "\""@;
    proof {
        assert(spec_bytes_debug_body(data@.take(0)) =~= Seq::<u8>::empty().map_values(
            |b: u8| b as char,
        ));
        assert(spec_bytes_debug_body(data@.take(0)) =~= Seq::<char>::empty());
    }
    let mut i: usize = 0;
    while i < data.len()
        invariant
            i <= data@.len(),
            out@ == opened + spec_bytes_debug_body(data@.take(i as int)),
        decreases data@.len() - i,
    {
        let b = data[i];
        proof {
            reveal_strlit("\\\"");
            reveal_strlit("\\\\");
            reveal_strlit("\\x");
        }
        if b == 34 {
            out.append("\\\"");
        } else if b == 92 {
            out.append("\\\\");
        } else if b >= 32 && b < 127 {
            arwah_push_char(out, b as char);
        } else {
            out.append("\\x");
            arwah_push_hex_byte(out, b);
        }
        i += 1;
        proof {
            assert(data@.take(i as int).drop_last() =~= data@.take(i - 1));
            assert(data@.take(i as int).last() == b);
            assert(out@ == opened + spec_bytes_debug_body(data@.take(i as int)));
        }
    }
    proof {
        assert(data@.take(data@.len() as int) =~= data@);
        reveal_strlit("\"");
    }
    out.append("\"");
}

/// Serializes a packet tree as JSON.  The serializer is total: every tree
/// renders, and the text is never empty.
pub fn arwah_to_json(packet: &ArwahRaw) -> (r: String)
    ensures
        r@.len() > 0,
{
    let mut out = String::new();
    match packet {
        ArwahRaw::Ether(frame, eth) => {
            out.append("{\"ether\":{\"source_mac\":\"");
            out.append(arwah_display_macaddr(&frame.source_mac).as_str());
            out.append("\",\"dest_mac\":\"");
            out.append(arwah_display_macaddr(&frame.dest_mac).as_str());
            out.append("\",\"ethertype\":");
            out.append(arwah_u64_text(frame.ethertype as u64).as_str());
            out.append(",\"payload\":");
            arwah_ether_to_json(&mut out, eth);
            out.append("}}");
        },
        ArwahRaw::Tun(eth) => {
            out.append("{\"tun\":");
            arwah_ether_to_json(&mut out, eth);
            out.append("}");
        },
        ArwahRaw::Sll(eth) => {
            out.append("{\"sll\":");
            arwah_ether_to_json(&mut out, eth);
            out.append("}");
        },
        ArwahRaw::Unknown(data) => {
            out.append("{\"unknown\":");
            arwah_bytes_to_json(&mut out, data);
            out.append("}");
        },
    }
    proof {
        reveal_strlit("}");
        reveal_strlit("}}");
    }
    out
}

/// Appends a byte row as a JSON array.
fn arwah_bytes_to_json(out: &mut String, data: &Vec<u8>) {
    out.append("[");
    let mut i: usize = 0;
    while i < data.len()
        decreases data@.len() - i,
    {
        if i > 0 {
            out.append(",");
        }
        out.append(arwah_u64_text(data[i] as u64).as_str());
        i += 1;
    }
    out.append("]");
}

/// Appends a JSON string with the debugger-style escaping.
fn arwah_string_to_json(out: &mut String, text: &String) {
    arwah_push_text_debug(out, text);
}

/// Appends the network layer as JSON.
fn arwah_ether_to_json(out: &mut String, eth: &ArwahEther) {
    match eth {
        ArwahEther::Arp(arp_pkt) => {
            let pkt = match arp_pkt {
                ARWAH_ARP::Request(p) => {
                    out.append("{\"arp\":{\"operation\":\"request\",\"src\":\"");
                    p
                },
                ARWAH_ARP::Reply(p) => {
                    out.append("{\"arp\":{\"operation\":\"reply\",\"src\":\"");
                    p
                },
            };
            out.append(arwah_ipv4_text(&pkt.src_addr).as_str());
            out.append("\",\"dest\":\"");
            out.append(arwah_ipv4_text(&pkt.dest_addr).as_str());
            out.append("\"}}");
        },
        ArwahEther::IPv4(header, inner) => {
            out.append("{\"ipv4\":{\"source\":\"");
            out.append(arwah_ipv4_text(&header.source_addr).as_str());
            out.append("\",\"dest\":\"");
            out.append(arwah_ipv4_text(&header.dest_addr).as_str());
            out.append("\",\"protocol\":");
            out.append(arwah_u64_text(header.protocol as u64).as_str());
            out.append(",\"payload\":");
            arwah_ipv4_payload_to_json(out, inner);
            out.append("}}");
        },
        ArwahEther::IPv6(header, inner) => {
            out.append("{\"ipv6\":{\"source\":\"");
            out.append(crate::ip::arwah_ipv6_text(&header.source_addr).as_str());
            out.append("\",\"dest\":\"");
            out.append(crate::ip::arwah_ipv6_text(&header.dest_addr).as_str());
            out.append("\",\"next_header\":");
            out.append(arwah_u64_text(header.next_header as u64).as_str());
            out.append(",\"payload\":");
            arwah_ipv6_payload_to_json(out, inner);
            out.append("}}");
        },
        ArwahEther::Cjdns(beacon) => {
            out.append("{\"cjdns\":{\"version\":");
            out.append(arwah_u64_text(beacon.version as u64).as_str());
            out.append(",\"pubkey\":");
            arwah_bytes_to_json(out, &beacon.pubkey);
            out.append("}}");
        },
        ArwahEther::Unknown(data) => {
            out.append("{\"unknown\":");
            arwah_bytes_to_json(out, data);
            out.append("}");
        },
    }
}

/// Appends an IPv4 payload as JSON.
fn arwah_ipv4_payload_to_json(out: &mut String, inner: &ArwahIPv4) {
    match inner {
        ArwahIPv4::TCP(header, tcp) => {
            arwah_tcp_to_json(out, header, tcp);
        },
        ArwahIPv4::UDP(header, udp) => {
            arwah_udp_to_json(out, header, udp);
        },
        ArwahIPv4::ICMP(header, icmp) => {
            out.append("{\"icmp\":{\"code\":");
            out.append(arwah_u64_text(header.code as u64).as_str());
            out.append(",\"data\":");
            arwah_bytes_to_json(out, &icmp.data);
            out.append("}}");
        },
        ArwahIPv4::Unknown(data) => {
            out.append("{\"unknown\":");
            arwah_bytes_to_json(out, data);
            out.append("}");
        },
    }
}

/// Appends an IPv6 payload as JSON.
fn arwah_ipv6_payload_to_json(out: &mut String, inner: &ArwahIPv6) {
    match inner {
        ArwahIPv6::TCP(header, tcp) => {
            arwah_tcp_to_json(out, header, tcp);
        },
        ArwahIPv6::UDP(header, udp) => {
            arwah_udp_to_json(out, header, udp);
        },
        ArwahIPv6::Unknown(data) => {
            out.append("{\"unknown\":");
            arwah_bytes_to_json(out, data);
            out.append("}");
        },
    }
}

/// Appends a TCP layer as JSON.
fn arwah_tcp_to_json(out: &mut String, header: &ArwahTcpHeader, tcp: &ARWAH_TCP) {
    out.append("{\"tcp\":{\"source_port\":");
    out.append(arwah_u64_text(header.source_port as u64).as_str());
    out.append(",\"dest_port\":");
    out.append(arwah_u64_text(header.dest_port as u64).as_str());
    out.append(",\"payload\":");
    match tcp {
        ARWAH_TCP::TLS(tls) => {
            match tls {
                ArwahTls::ClientHello(ch) => {
                    out.append("{\"tls_client_hello\":{\"hostname\":");
                    match &ch.hostname {
                        Some(h) => arwah_string_to_json(out, h),
                        None => out.append("null"),
                    }
                    out.append("}}");
                },
                ArwahTls::ServerHello(sh) => {
                    out.append("{\"tls_server_hello\":{\"cipher\":");
                    match &sh.cipher {
                        Some(c) => arwah_string_to_json(out, c),
                        None => out.append("null"),
                    }
                    out.append("}}");
                },
            }
        },
        ARWAH_TCP::HTTP(http) => {
            match http {
                ArwahHttp::Request(req) => {
                    out.append("{\"http_request\":{\"method\":");
                    arwah_string_to_json(out, &req.method);
                    out.append(",\"path\":");
                    arwah_string_to_json(out, &req.path);
                    out.append("}}");
                },
                ArwahHttp::Response(resp) => {
                    out.append("{\"http_response\":{\"code\":");
                    out.append(arwah_u64_text(resp.code as u64).as_str());
                    out.append("}}");
                },
            }
        },
        ARWAH_TCP::Text(text) => {
            out.append("{\"text\":");
            arwah_string_to_json(out, text);
            out.append("}");
        },
        ARWAH_TCP::Binary(data) => {
            out.append("{\"binary\":");
            arwah_bytes_to_json(out, data);
            out.append("}");
        },
        ARWAH_TCP::Empty => {
            out.append("\"empty\"");
        },
    }
    out.append("}}");
}

/// Appends a UDP layer as JSON.
fn arwah_udp_to_json(out: &mut String, header: &ArwahUdpHeader, udp: &ARWAH_UDP) {
    out.append("{\"udp\":{\"source_port\":");
    out.append(arwah_u64_text(header.source_port as u64).as_str());
    out.append(",\"dest_port\":");
    out.append(arwah_u64_text(header.dest_port as u64).as_str());
    out.append(",\"payload\":");
    match udp {
        ARWAH_UDP::DHCP(_) => {
            out.append("\"dhcp\"");
        },
        ARWAH_UDP::DNS(_) => {
            out.append("\"dns\"");
        },
        ARWAH_UDP::SSDP(_) => {
            out.append("\"ssdp\"");
        },
        ARWAH_UDP::Dropbox(_) => {
            out.append("\"dropbox\"");
        },
        ARWAH_UDP::Text(text) => {
            out.append("{\"text\":");
            arwah_string_to_json(out, text);
            out.append("}");
        },
        ARWAH_UDP::Binary(data) => {
            out.append("{\"binary\":");
            arwah_bytes_to_json(out, data);
            out.append("}");
        },
    }
    out.append("}}");
}

} // verus!
