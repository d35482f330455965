//! DHCPv4 packets: the fixed header fields, with the common options
//! promoted to fields and the message type deciding the kind.

use vstd::prelude::*;
use dhcp4r::options::DhcpOption;
use crate::centrifuge::ArwahCentrifugeError;

verus! {

/// The fields the dissector keeps from a DHCP packet.
#[derive(Debug, Clone, PartialEq, Eq)]
pub struct ArwahPacket {
    pub ciaddr: [u8; 4],
    pub yiaddr: [u8; 4],
    pub siaddr: [u8; 4],
    pub chaddr: [u8; 6],
    pub hostname: Option<String>,
    pub requested_ip_address: Option<[u8; 4]>,
    pub router: Option<Vec<[u8; 4]>>,
    pub domain_name_server: Option<Vec<[u8; 4]>>,
}

/// A DHCP message, tagged by its message-type option.
#[derive(Debug, Clone, PartialEq, Eq)]
#[allow(non_camel_case_types)]
pub enum ARWAH_DHCP {
    ACK(ArwahPacket),
    DECLINE(ArwahPacket),
    DISCOVER(ArwahPacket),
    INFORM(ArwahPacket),
    NAK(ArwahPacket),
    OFFER(ArwahPacket),
    RELEASE(ArwahPacket),
    REQUEST(ArwahPacket),
    UNKNOWN(ArwahPacket),
}

/// One option, reduced to the plain values the dissector reads.
#[derive(Debug, Clone, PartialEq, Eq)]
pub enum ArwahDhcpOpt {
    MessageType(u8),
    RequestedIp([u8; 4]),
    HostName(String),
    Router(Vec<[u8; 4]>),
    Dns(Vec<[u8; 4]>),
    Other,
}

/// What the parser filled in: the addresses and the option list in order.
#[derive(Debug, Clone, PartialEq, Eq)]
pub struct ArwahDhcpRaw {
    pub ciaddr: [u8; 4],
    pub yiaddr: [u8; 4],
    pub siaddr: [u8; 4],
    pub chaddr: [u8; 6],
    pub options: Vec<ArwahDhcpOpt>,
}

/// What `dhcp4r::packet::Packet::from` yields on the bytes, reduced, or
/// nothing where no packet parses.
pub uninterp spec fn spec_dhcp_of(b: Seq<u8>) -> Option<ArwahDhcpRaw>;

/// Relies on `dhcp4r::packet::Packet::from` for the fixed header fields.
#[verifier::external_body]
fn arwah_dhcp_head(b: &Vec<u8>) -> (r: Option<([u8; 4], [u8; 4], [u8; 4], [u8; 6])>)
    ensures
        match r {
            Some(h) => spec_dhcp_of(b@) matches Some(d) && d.ciaddr == h.0 && d.yiaddr == h.1
                && d.siaddr == h.2 && d.chaddr == h.3,
            None => spec_dhcp_of(b@) is None,
        },
{
    match dhcp4r::packet::Packet::from(b.as_slice()) {
        Err(_) => None,
        Ok(p) => Some((p.ciaddr.octets(), p.yiaddr.octets(), p.siaddr.octets(), p.chaddr)),
    }
}

/// Relies on `dhcp4r::packet::Packet::from` for the option list: each
/// option the dissector reads is reduced to plain values, in order, and
/// the rest become `Other`.
#[verifier::external_body]
fn arwah_dhcp_options(b: &Vec<u8>) -> (r: Option<Vec<ArwahDhcpOpt>>)
    ensures
        match r {
            Some(opts) => spec_dhcp_of(b@) matches Some(d) && d.options@ == opts@,
            None => spec_dhcp_of(b@) is None,
        },
{
    match dhcp4r::packet::Packet::from(b.as_slice()) {
        Err(_) => None,
        Ok(p) => Some(p.options.iter().map(|o| match o {
            DhcpOption::DhcpMessageType(t) => ArwahDhcpOpt::MessageType(*t as u8),
            DhcpOption::RequestedIpAddress(a) => ArwahDhcpOpt::RequestedIp(a.octets()),
            DhcpOption::HostName(h) => ArwahDhcpOpt::HostName(h.clone()),
            DhcpOption::Router(v) => ArwahDhcpOpt::Router(v.iter().map(|a| a.octets()).collect()),
            DhcpOption::DomainNameServer(v) => ArwahDhcpOpt::Dns(v.iter().map(|a| a.octets()).collect()),
            _ => ArwahDhcpOpt::Other,
        }).collect()),
    }
}

/// The first message-type option's value, if any.
pub open spec fn spec_dhcp_message_type(opts: Seq<ArwahDhcpOpt>) -> Option<u8>
    decreases opts.len(),
{
    if opts.len() == 0 {
        None
    } else {
        match opts[0] {
            ArwahDhcpOpt::MessageType(t) => Some(t),
            _ => spec_dhcp_message_type(opts.drop_first()),
        }
    }
}

/// The message kind a type value stands for; values outside `1..=8` have
/// no kind and the packet stays `UNKNOWN`.
pub open spec fn spec_dhcp_kind(t: Option<u8>, p: ArwahPacket) -> ARWAH_DHCP {
    match t {
        Some(v) => if v == 1 {
            ARWAH_DHCP::DISCOVER(p)
        } else if v == 2 {
            ARWAH_DHCP::OFFER(p)
        } else if v == 3 {
            ARWAH_DHCP::REQUEST(p)
        } else if v == 4 {
            ARWAH_DHCP::DECLINE(p)
        } else if v == 5 {
            ARWAH_DHCP::ACK(p)
        } else if v == 6 {
            ARWAH_DHCP::NAK(p)
        } else if v == 7 {
            ARWAH_DHCP::RELEASE(p)
        } else if v == 8 {
            ARWAH_DHCP::INFORM(p)
        } else {
            ARWAH_DHCP::UNKNOWN(p)
        },
        None => ARWAH_DHCP::UNKNOWN(p),
    }
}

/// What the promotion loop leaves in each field: the last occurrence of
/// each promoted option wins.
pub open spec fn spec_dhcp_promote(opts: Seq<ArwahDhcpOpt>, p: ArwahPacket) -> ArwahPacket
    decreases opts.len(),
{
    if opts.len() == 0 {
        p
    } else {
        let p2 = match opts[0] {
            ArwahDhcpOpt::RequestedIp(a) => ArwahPacket { requested_ip_address: Some(a), ..p },
            ArwahDhcpOpt::HostName(h) => ArwahPacket { hostname: Some(h), ..p },
            ArwahDhcpOpt::Router(v) => ArwahPacket { router: Some(v), ..p },
            ArwahDhcpOpt::Dns(v) => ArwahPacket { domain_name_server: Some(v), ..p },
            _ => p,
        };
        spec_dhcp_promote(opts.drop_first(), p2)
    }
}

impl ArwahPacket {
    /// A packet with only its addresses filled in.
    pub fn arwah_new(ciaddr: [u8; 4], yiaddr: [u8; 4], siaddr: [u8; 4], chaddr: [u8; 6]) -> (r:
        ArwahPacket)
        ensures
            r == (ArwahPacket {
                ciaddr,
                yiaddr,
                siaddr,
                chaddr,
                hostname: None,
                requested_ip_address: None,
                router: None,
                domain_name_server: None,
            }),
    {
        ArwahPacket {
            ciaddr,
            yiaddr,
            siaddr,
            chaddr,
            hostname: None,
            requested_ip_address: None,
            router: None,
            domain_name_server: None,
        }
    }
}

/// What a successful DHCP extraction of the bytes holds: the promoted
/// packet under the kind the first message-type option names.
pub open spec fn spec_dhcp_result_ok(b: Seq<u8>, v: ARWAH_DHCP) -> bool {
    match spec_dhcp_of(b) {
        Some(d) => v == spec_dhcp_kind(
            spec_dhcp_message_type(d.options@),
            spec_dhcp_promote(
                d.options@,
                ArwahPacket {
                    ciaddr: d.ciaddr,
                    yiaddr: d.yiaddr,
                    siaddr: d.siaddr,
                    chaddr: d.chaddr,
                    hostname: None,
                    requested_ip_address: None,
                    router: None,
                    domain_name_server: None,
                },
            ),
        ),
        None => false,
    }
}

/// Extracts a DHCP message: bytes that do not parse are an invalid packet;
/// otherwise the addresses and promoted options fill the packet and the
/// first message-type option names the kind.
pub fn arwah_extract(remaining: &Vec<u8>) -> (r: Result<ARWAH_DHCP, ArwahCentrifugeError>)
    ensures
        r is Err <==> spec_dhcp_of(remaining@) is None,
        r matches Err(e) ==> e == ArwahCentrifugeError::InvalidPacket,
        r matches Ok(v) ==> spec_dhcp_result_ok(remaining@, v),
{
    let head = match arwah_dhcp_head(remaining) {
        Some(h) => h,
        None => {
            return Err(ArwahCentrifugeError::InvalidPacket);
        },
    };
    let options = match arwah_dhcp_options(remaining) {
        Some(o) => o,
        None => {
            return Err(ArwahCentrifugeError::InvalidPacket);
        },
    };
    let mut packet = ArwahPacket::arwah_new(head.0, head.1, head.2, head.3);
    let ghost gopts = options@;
    let ghost initial = packet;
    let mut opts = options;
    let ghost gi: int = 0;
    let mut message_type: Option<u8> = None;
    proof {
        assert(gopts.skip(0) =~= gopts);
    }
    while opts.len() > 0
        invariant
            0 <= gi <= gopts.len(),
            opts@ == gopts.skip(gi),
            spec_dhcp_promote(gopts, initial) == spec_dhcp_promote(gopts.skip(gi), packet),
            spec_dhcp_message_type(gopts) == (match message_type {
                Some(t) => Some(t),
                None => spec_dhcp_message_type(gopts.skip(gi)),
            }),
        decreases opts@.len(),
    {
        proof {
            assert(gopts.skip(gi).drop_first() =~= gopts.skip(gi + 1));
            assert(gopts.skip(gi)[0] == gopts[gi]);
            assert(opts@.remove(0) =~= gopts.skip(gi + 1));
        }
        let opt = opts.remove(0);
        match opt {
            ArwahDhcpOpt::MessageType(t) => {
                if message_type.is_none() {
                    message_type = Some(t);
                }
            },
            ArwahDhcpOpt::RequestedIp(a) => {
                packet.requested_ip_address = Some(a);
            },
            ArwahDhcpOpt::HostName(h) => {
                packet.hostname = Some(h);
            },
            ArwahDhcpOpt::Router(v) => {
                packet.router = Some(v);
            },
            ArwahDhcpOpt::Dns(v) => {
                packet.domain_name_server = Some(v);
            },
            ArwahDhcpOpt::Other => {},
        }
        proof {
            gi = gi + 1;
        }
    }
    proof {
        assert(gopts.skip(gi).len() == 0);
    }
    let kind = match message_type {
        Some(t) => {
            if t == 1 {
                ARWAH_DHCP::DISCOVER(packet)
            } else if t == 2 {
                ARWAH_DHCP::OFFER(packet)
            } else if t == 3 {
                ARWAH_DHCP::REQUEST(packet)
            } else if t == 4 {
                ARWAH_DHCP::DECLINE(packet)
            } else if t == 5 {
                ARWAH_DHCP::ACK(packet)
            } else if t == 6 {
                ARWAH_DHCP::NAK(packet)
            } else if t == 7 {
                ARWAH_DHCP::RELEASE(packet)
            } else if t == 8 {
                ARWAH_DHCP::INFORM(packet)
            } else {
                ARWAH_DHCP::UNKNOWN(packet)
            }
        },
        None => ARWAH_DHCP::UNKNOWN(packet),
    };
    Ok(kind)
}


} // verus!
