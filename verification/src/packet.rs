//! The decoded packet tree: link, network and transport layers, with the
//! noise level each layer assigns.

use vstd::prelude::*;
use crate::noise::ArwahNoiseLevel;
use crate::tls::ArwahTls;
use crate::http::ArwahHttp;
use crate::dns::ARWAH_DNS;
use crate::dhcp::ARWAH_DHCP;
use crate::ssdp::ARWAH_SSDP;
use crate::dropbox::ArwahDropboxBeacon;
use crate::cjdns::ArwahCjdnsEthPkt;

verus! {

/// An Ethernet frame header, as plain values.
#[derive(Debug, Clone, PartialEq, Eq)]
pub struct ArwahEthernetFrame {
    pub source_mac: [u8; 6],
    pub dest_mac: [u8; 6],
    pub ethertype: u16,
}

/// An IPv4 header, as plain values; addresses keep their wire bytes.
#[derive(Debug, Clone, PartialEq, Eq)]
pub struct ArwahIPv4Header {
    pub version: u8,
    pub ihl: u8,
    pub tos: u8,
    pub length: u16,
    pub id: u16,
    pub flags: u8,
    pub fragment_offset: u16,
    pub ttl: u8,
    pub protocol: u8,
    pub chksum: u16,
    pub source_addr: [u8; 4],
    pub dest_addr: [u8; 4],
}

/// An IPv6 header, as plain values; addresses keep their wire bytes.
#[derive(Debug, Clone, PartialEq, Eq)]
pub struct ArwahIPv6Header {
    pub version: u8,
    pub ds: u8,
    pub ecn: u8,
    pub flow_label: u32,
    pub length: u16,
    pub next_header: u8,
    pub hop_limit: u8,
    pub source_addr: [u8; 16],
    pub dest_addr: [u8; 16],
}

/// One TCP header option.
#[derive(Debug, Clone, Copy, PartialEq, Eq, Structural)]
pub enum ArwahTcpOption {
    EndOfOptions,
    NoOperation,
    MaximumSegmentSize(u16),
    WindowScale(u8),
    SackPermitted,
}

/// A TCP header, as plain values.
#[derive(Debug, Clone, PartialEq, Eq)]
pub struct ArwahTcpHeader {
    pub source_port: u16,
    pub dest_port: u16,
    pub sequence_no: u32,
    pub ack_no: u32,
    pub data_offset: u8,
    pub reserved: u8,
    pub flag_urg: bool,
    pub flag_ack: bool,
    pub flag_psh: bool,
    pub flag_rst: bool,
    pub flag_syn: bool,
    pub flag_fin: bool,
    pub window: u16,
    pub checksum: u16,
    pub urgent_pointer: u16,
    pub options: Option<Vec<ArwahTcpOption>>,
}

/// A UDP header, as plain values.
#[derive(Debug, Clone, Copy, PartialEq, Eq, Structural)]
pub struct ArwahUdpHeader {
    pub source_port: u16,
    pub dest_port: u16,
    pub length: u16,
    pub checksum: u16,
}

/// What an ARP packet does.
#[derive(Debug, Clone, Copy, PartialEq, Eq, Structural)]
pub enum ArwahArpOperation {
    Request,
    Reply,
}

/// An ARP packet, as plain values.
#[derive(Debug, Clone, PartialEq, Eq)]
pub struct ArwahArpPacket {
    pub hw_addr_type: u16,
    pub proto_addr_type: u16,
    pub hw_addr_size: u8,
    pub proto_addr_size: u8,
    pub operation: ArwahArpOperation,
    pub src_mac: [u8; 6],
    pub src_addr: [u8; 4],
    pub dest_mac: [u8; 6],
    pub dest_addr: [u8; 4],
}

/// An ARP layer: a request or a reply.
#[derive(Debug, Clone, PartialEq, Eq)]
#[allow(non_camel_case_types)]
pub enum ARWAH_ARP {
    Request(ArwahArpPacket),
    Reply(ArwahArpPacket),
}

/// An ICMP header: the type and code bytes as one word, the checksum, and
/// what the code-specific data carried.
#[derive(Debug, Clone, PartialEq, Eq)]
pub struct ArwahIcmpHeader {
    pub code: u16,
    pub checksum: u16,
    pub data: ArwahIcmpData,
}

/// The code-specific data of an ICMP message, reduced to plain values.
#[derive(Debug, Clone, Copy, PartialEq, Eq)]
pub enum ArwahIcmpData {
    Unreachable { nexthop_mtu: u16 },
    Redirect { gateway: [u8; 4] },
    TimeExceeded,
    Empty,
}

/// An ICMP layer: the header and the trailing bytes.
#[derive(Debug, Clone, PartialEq, Eq)]
pub struct ArwahICMP {
    pub data: Vec<u8>,
}

/// The TCP payload, classified.
#[derive(Debug, Clone, PartialEq, Eq)]
#[allow(non_camel_case_types)]
pub enum ARWAH_TCP {
    TLS(ArwahTls),
    HTTP(ArwahHttp),
    Text(String),
    Binary(Vec<u8>),
    Empty,
}

/// The UDP payload, classified.
#[derive(Debug, Clone, PartialEq, Eq)]
#[allow(non_camel_case_types)]
pub enum ARWAH_UDP {
    DHCP(ARWAH_DHCP),
    DNS(ARWAH_DNS),
    SSDP(ARWAH_SSDP),
    Dropbox(ArwahDropboxBeacon),
    Text(String),
    Binary(Vec<u8>),
}

/// What an IPv4 packet carries.
#[derive(Debug, Clone, PartialEq, Eq)]
pub enum ArwahIPv4 {
    TCP(ArwahTcpHeader, ARWAH_TCP),
    UDP(ArwahUdpHeader, ARWAH_UDP),
    ICMP(ArwahIcmpHeader, ArwahICMP),
    Unknown(Vec<u8>),
}

/// What an IPv6 packet carries.
#[derive(Debug, Clone, PartialEq, Eq)]
pub enum ArwahIPv6 {
    TCP(ArwahTcpHeader, ARWAH_TCP),
    UDP(ArwahUdpHeader, ARWAH_UDP),
    Unknown(Vec<u8>),
}

/// What an Ethernet-level frame carries.
#[derive(Debug, Clone, PartialEq, Eq)]
pub enum ArwahEther {
    Arp(ARWAH_ARP),
    IPv4(ArwahIPv4Header, ArwahIPv4),
    IPv6(ArwahIPv6Header, ArwahIPv6),
    Cjdns(ArwahCjdnsEthPkt),
    Unknown(Vec<u8>),
}

/// A captured frame, decoded from its link type.
#[derive(Debug, Clone, PartialEq, Eq)]
pub enum ArwahRaw {
    Ether(ArwahEthernetFrame, ArwahEther),
    Tun(ArwahEther),
    Sll(ArwahEther),
    Unknown(Vec<u8>),
}

impl ARWAH_TCP {
    /// The noise a TCP payload contributes under the given header: control
    /// segments are quiet unless decoded, and short or undecoded payload on
    /// a data segment is near the maximum.
    pub open spec fn spec_noise_level(&self, header: &ArwahTcpHeader) -> ArwahNoiseLevel {
        if header.flag_rst || header.flag_syn || header.flag_fin {
            match self {
                ARWAH_TCP::Text(_) => ArwahNoiseLevel::Two,
                ARWAH_TCP::Binary(_) => ArwahNoiseLevel::Two,
                ARWAH_TCP::Empty => ArwahNoiseLevel::Two,
                _ => ArwahNoiseLevel::Zero,
            }
        } else {
            match self {
                ARWAH_TCP::Text(text) => if vstd::utf8::encode_utf8(text@).len() <= 8 {
                    ArwahNoiseLevel::AlmostMaximum
                } else {
                    ArwahNoiseLevel::Zero
                },
                ARWAH_TCP::Binary(_) => ArwahNoiseLevel::AlmostMaximum,
                ARWAH_TCP::Empty => ArwahNoiseLevel::AlmostMaximum,
                _ => ArwahNoiseLevel::Zero,
            }
        }
    }

    pub fn arwah_noise_level(&self, header: &ArwahTcpHeader) -> (r: ArwahNoiseLevel)
        ensures
            r == self.spec_noise_level(header),
    {
        if header.flag_rst || header.flag_syn || header.flag_fin {
            match self {
                ARWAH_TCP::Text(_) => ArwahNoiseLevel::Two,
                ARWAH_TCP::Binary(_) => ArwahNoiseLevel::Two,
                ARWAH_TCP::Empty => ArwahNoiseLevel::Two,
                _ => ArwahNoiseLevel::Zero,
            }
        } else {
            match self {
                ARWAH_TCP::Text(text) => {
                    if text.as_str().as_bytes_vec().len() <= 8 {
                        ArwahNoiseLevel::AlmostMaximum
                    } else {
                        ArwahNoiseLevel::Zero
                    }
                },
                ARWAH_TCP::Binary(_) => ArwahNoiseLevel::AlmostMaximum,
                ARWAH_TCP::Empty => ArwahNoiseLevel::AlmostMaximum,
                _ => ArwahNoiseLevel::Zero,
            }
        }
    }
}

impl ARWAH_UDP {
    /// The noise a UDP payload contributes: decoded application protocols
    /// are quiet, broadcasts and text are middling, and raw bytes are near
    /// the maximum.
    pub open spec fn spec_noise_level(&self) -> ArwahNoiseLevel {
        match self {
            ARWAH_UDP::DHCP(_) => ArwahNoiseLevel::Zero,
            ARWAH_UDP::DNS(_) => ArwahNoiseLevel::Zero,
            ARWAH_UDP::SSDP(_) => ArwahNoiseLevel::Two,
            ARWAH_UDP::Dropbox(_) => ArwahNoiseLevel::Two,
            ARWAH_UDP::Text(_) => ArwahNoiseLevel::Two,
            ARWAH_UDP::Binary(_) => ArwahNoiseLevel::AlmostMaximum,
        }
    }

    pub fn arwah_noise_level(&self) -> (r: ArwahNoiseLevel)
        ensures
            r == self.spec_noise_level(),
    {
        match self {
            ARWAH_UDP::DHCP(_) => ArwahNoiseLevel::Zero,
            ARWAH_UDP::DNS(_) => ArwahNoiseLevel::Zero,
            ARWAH_UDP::SSDP(_) => ArwahNoiseLevel::Two,
            ARWAH_UDP::Dropbox(_) => ArwahNoiseLevel::Two,
            ARWAH_UDP::Text(_) => ArwahNoiseLevel::Two,
            ARWAH_UDP::Binary(_) => ArwahNoiseLevel::AlmostMaximum,
        }
    }
}

impl ArwahICMP {
    /// The noise an ICMP message contributes: echo traffic is quieter than
    /// the rest.  The type byte is the high half of the header's code word.
    pub open spec fn spec_noise_level(&self, header: &ArwahIcmpHeader) -> ArwahNoiseLevel {
        if header.code / 256 == 0 || header.code / 256 == 8 {
            ArwahNoiseLevel::One
        } else {
            ArwahNoiseLevel::Two
        }
    }

    pub fn arwah_noise_level(&self, header: &ArwahIcmpHeader) -> (r: ArwahNoiseLevel)
        ensures
            r == self.spec_noise_level(header),
    {
        let icmp_type = (header.code / 256) as u8;
        if icmp_type == 0 || icmp_type == 8 {
            ArwahNoiseLevel::One
        } else {
            ArwahNoiseLevel::Two
        }
    }
}

impl ArwahIPv4 {
    /// The noise of the layer below the IPv4 header.
    pub open spec fn spec_noise_level(&self) -> ArwahNoiseLevel {
        match self {
            ArwahIPv4::TCP(header, tcp) => tcp.spec_noise_level(header),
            ArwahIPv4::UDP(_, udp) => udp.spec_noise_level(),
            ArwahIPv4::ICMP(header, icmp) => icmp.spec_noise_level(header),
            ArwahIPv4::Unknown(_) => ArwahNoiseLevel::Maximum,
        }
    }

    pub fn arwah_noise_level(&self) -> (r: ArwahNoiseLevel)
        ensures
            r == self.spec_noise_level(),
    {
        match self {
            ArwahIPv4::TCP(header, tcp) => tcp.arwah_noise_level(header),
            ArwahIPv4::UDP(_, udp) => udp.arwah_noise_level(),
            ArwahIPv4::ICMP(header, icmp) => icmp.arwah_noise_level(header),
            ArwahIPv4::Unknown(_) => ArwahNoiseLevel::Maximum,
        }
    }
}

impl ArwahIPv6 {
    /// The noise of the layer below the IPv6 header.
    pub open spec fn spec_noise_level(&self) -> ArwahNoiseLevel {
        match self {
            ArwahIPv6::TCP(header, tcp) => tcp.spec_noise_level(header),
            ArwahIPv6::UDP(_, udp) => udp.spec_noise_level(),
            ArwahIPv6::Unknown(_) => ArwahNoiseLevel::Maximum,
        }
    }

    pub fn arwah_noise_level(&self) -> (r: ArwahNoiseLevel)
        ensures
            r == self.spec_noise_level(),
    {
        match self {
            ArwahIPv6::TCP(header, tcp) => tcp.arwah_noise_level(header),
            ArwahIPv6::UDP(_, udp) => udp.arwah_noise_level(),
            ArwahIPv6::Unknown(_) => ArwahNoiseLevel::Maximum,
        }
    }
}

impl ArwahEther {
    /// The noise of the frame's payload.
    pub open spec fn spec_noise_level(&self) -> ArwahNoiseLevel {
        match self {
            ArwahEther::Arp(_) => ArwahNoiseLevel::One,
            ArwahEther::IPv4(_, ipv4) => ipv4.spec_noise_level(),
            ArwahEther::IPv6(_, ipv6) => ipv6.spec_noise_level(),
            ArwahEther::Cjdns(_) => ArwahNoiseLevel::Two,
            ArwahEther::Unknown(_) => ArwahNoiseLevel::Maximum,
        }
    }

    pub fn arwah_noise_level(&self) -> (r: ArwahNoiseLevel)
        ensures
            r == self.spec_noise_level(),
    {
        match self {
            ArwahEther::Arp(_) => ArwahNoiseLevel::One,
            ArwahEther::IPv4(_, ipv4) => ipv4.arwah_noise_level(),
            ArwahEther::IPv6(_, ipv6) => ipv6.arwah_noise_level(),
            ArwahEther::Cjdns(_) => ArwahNoiseLevel::Two,
            ArwahEther::Unknown(_) => ArwahNoiseLevel::Maximum,
        }
    }
}

impl ArwahRaw {
    /// A frame's noise is its inner layer's, recursively; an undecoded
    /// frame is pure noise.
    pub open spec fn spec_noise_level(&self) -> ArwahNoiseLevel {
        match self {
            ArwahRaw::Ether(_, ether) => ether.spec_noise_level(),
            ArwahRaw::Tun(ether) => ether.spec_noise_level(),
            ArwahRaw::Sll(ether) => ether.spec_noise_level(),
            ArwahRaw::Unknown(_) => ArwahNoiseLevel::Maximum,
        }
    }

    pub fn arwah_noise_level(&self) -> (r: ArwahNoiseLevel)
        ensures
            r == self.spec_noise_level(),
    {
        match self {
            ArwahRaw::Ether(_, ether) => ether.arwah_noise_level(),
            ArwahRaw::Tun(ether) => ether.arwah_noise_level(),
            ArwahRaw::Sll(ether) => ether.arwah_noise_level(),
            ArwahRaw::Unknown(_) => ArwahNoiseLevel::Maximum,
        }
    }
}

} // verus!
