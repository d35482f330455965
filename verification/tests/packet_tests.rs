use arwah::centrifuge::{arwah_parse, arwah_parse_eth, ArwahCentrifugeError};
use arwah::cjdns;
use arwah::dhcp::ARWAH_DHCP;
use arwah::dns::{ArwahQueryType, ARWAH_DNS};
use arwah::fmt::{ArwahFilter, ArwahFormat, ArwahLayout};
use arwah::http::ArwahHttp;
use arwah::link::ArwahDataLink;
use arwah::noise::ArwahNoiseLevel;
use arwah::packet::{ArwahEther, ArwahIPv4, ArwahRaw, ARWAH_TCP, ARWAH_UDP};
use arwah::ssdp::{arwah_parse_ssdp, ARWAH_SSDP};
use sha2::Digest;

fn eth_frame(ethertype: u16, payload: &[u8]) -> Vec<u8> {
    let mut bytes = vec![
        0x00, 0x23, 0x54, 0x07, 0x93, 0x6c, // destination
        0x00, 0x1b, 0x21, 0x0f, 0x91, 0x9b, // source
    ];
    bytes.push((ethertype >> 8) as u8);
    bytes.push(ethertype as u8);
    bytes.extend_from_slice(payload);
    bytes
}

fn ipv4_tcp_packet(payload: &[u8]) -> Vec<u8> {
    let mut ip = vec![
        0x45, 0x00, // version 4, ihl 5, tos
        0x00, 0x00, // total length (unchecked)
        0x1a, 0xe6, // id
        0x00, 0x00, // flags, fragment offset
        0x40, 0x06, // ttl, protocol tcp
        0x00, 0x00, // checksum
        10, 0, 0, 1, // source
        10, 0, 0, 2, // destination
    ];
    let tcp = [
        0x04, 0xd2, // source port 1234
        0x00, 0x50, // destination port 80
        0, 0, 0, 0, // sequence
        0, 0, 0, 0, // acknowledgment
        0x50, 0x18, // offset 5, flags PSH|ACK
        0x01, 0x00, // window
        0x00, 0x00, // checksum
        0x00, 0x00, // urgent pointer
    ];
    ip.extend_from_slice(&tcp);
    ip.extend_from_slice(payload);
    ip
}

#[test]
fn minimal_http_request_decodes_through_every_layer() {
    let bytes = eth_frame(0x0800, &ipv4_tcp_packet(b"GET / HTTP/1.0\r\n\r\n"));
    let raw = arwah_parse(&ArwahDataLink::Ethernet, &bytes);
    match raw {
        ArwahRaw::Ether(frame, ArwahEther::IPv4(ip_header, ArwahIPv4::TCP(tcp_header, tcp))) => {
            assert_eq!(frame.ethertype, 0x0800);
            assert_eq!(ip_header.protocol, 6);
            assert_eq!(ip_header.source_addr, [10, 0, 0, 1]);
            assert_eq!(tcp_header.source_port, 1234);
            assert_eq!(tcp_header.dest_port, 80);
            assert!(tcp_header.flag_psh && tcp_header.flag_ack);
            match tcp {
                ARWAH_TCP::HTTP(ArwahHttp::Request(request)) => {
                    assert_eq!(request.method, "GET");
                    assert_eq!(request.path, "/");
                    assert_eq!(request.version, 0);
                    assert!(request.body.is_none());
                }
                other => panic!("expected an HTTP request, got {:?}", other),
            }
        }
        other => panic!("expected an Ethernet/IPv4/TCP tree, got {:?}", other),
    }
}

fn beacon_bytes() -> Vec<u8> {
    let mut beacon = vec![0x00, 0x00, 0x00, 0x3a, 0xfc, 0x00, 0x00, 0x00, 0x00, 0x01];
    beacon.extend_from_slice(&[7u8; 20]); // password
    beacon.extend_from_slice(&[9u8; 32]); // public key
    beacon
}

#[test]
fn cjdns_beacon_decodes_with_its_derived_address() {
    let beacon = beacon_bytes();
    assert_eq!(beacon.len(), 62);
    let bytes = eth_frame(0xfc00, &beacon);
    let raw = arwah_parse(&ArwahDataLink::Ethernet, &bytes);
    let pkt = match &raw {
        ArwahRaw::Ether(_, ArwahEther::Cjdns(pkt)) => pkt.clone(),
        other => panic!("expected a CJDNS beacon, got {:?}", other),
    };
    assert_eq!(pkt.version, 1);
    assert_eq!(pkt.password, vec![7u8; 20]);
    assert_eq!(pkt.pubkey, vec![9u8; 32]);

    // the compact line shows the address derived from the double digest
    let digest = sha2::Sha512::digest(sha2::Sha512::digest(&pkt.pubkey));
    let mut expected = String::new();
    for x in 0..8 {
        if x > 0 {
            expected.push(':');
        }
        expected.push_str(&format!("{:02x}{:02x}", digest[2 * x], digest[2 * x + 1]));
    }
    let format = ArwahFormat::arwah_new(ArwahLayout::Compact, false);
    let (line, _color) = format.arwah_print_compact(raw);
    assert!(line.contains(&expected), "line {:?} lacks {:?}", line, expected);
}

#[test]
fn truncated_beacon_stays_unknown() {
    let mut beacon = beacon_bytes();
    beacon.pop();
    let bytes = eth_frame(0xfc00, &beacon);
    let raw = arwah_parse(&ArwahDataLink::Ethernet, &bytes);
    match raw {
        ArwahRaw::Ether(_, ArwahEther::Unknown(data)) => assert_eq!(data, beacon),
        other => panic!("expected the beacon bytes kept verbatim, got {:?}", other),
    }
}

#[test]
fn cjdns_rejects_wrong_tags() {
    let mut beacon = beacon_bytes();
    beacon[4] = 0xfd;
    assert_eq!(
        cjdns::arwah_parse(&beacon).unwrap_err(),
        ArwahCentrifugeError::InvalidPacket
    );
}

#[test]
fn short_frames_are_kept_verbatim() {
    let bytes = vec![1, 2, 3];
    assert!(arwah_parse_eth(&bytes).is_err());
    let raw = arwah_parse(&ArwahDataLink::Ethernet, &bytes);
    assert_eq!(raw, ArwahRaw::Unknown(vec![1, 2, 3]));
    let radio = arwah_parse(&ArwahDataLink::RadioTap, &bytes.clone());
    assert_eq!(radio, ArwahRaw::Unknown(vec![1, 2, 3]));
}

#[test]
fn arp_requests_decode() {
    let arp = [
        0, 1, // hardware type
        8, 0, // protocol type
        6, 4, // sizes
        0, 1, // request
        0x00, 0x1b, 0x21, 0x0f, 0x91, 0x9b, // sender mac
        192, 168, 1, 1, // sender ip
        0, 0, 0, 0, 0, 0, // target mac
        192, 168, 1, 2, // target ip
    ];
    let bytes = eth_frame(0x0806, &arp);
    let raw = arwah_parse(&ArwahDataLink::Ethernet, &bytes);
    match raw {
        ArwahRaw::Ether(_, ArwahEther::Arp(arwah::packet::ARWAH_ARP::Request(pkt))) => {
            assert_eq!(pkt.src_addr, [192, 168, 1, 1]);
            assert_eq!(pkt.dest_addr, [192, 168, 1, 2]);
        }
        other => panic!("expected an ARP request, got {:?}", other),
    }
}

fn ipv4_udp_packet(sport: u16, dport: u16, payload: &[u8]) -> Vec<u8> {
    let mut ip = vec![
        0x45, 0x00, 0x00, 0x00, 0x1a, 0xe6, 0x00, 0x00, 0x40, 0x11, 0x00, 0x00, 10, 0, 0, 1, 10,
        0, 0, 2,
    ];
    let length = (8 + payload.len()) as u16;
    ip.extend_from_slice(&[
        (sport >> 8) as u8,
        sport as u8,
        (dport >> 8) as u8,
        dport as u8,
        (length >> 8) as u8,
        length as u8,
        0,
        0,
    ]);
    ip.extend_from_slice(payload);
    ip
}

#[test]
fn dns_queries_decode() {
    let dns = [
        0xab, 0xcd, // id
        0x01, 0x00, // recursion desired, query
        0x00, 0x01, // one question
        0x00, 0x00, 0x00, 0x00, 0x00, 0x00, // no answers
        0x01, b'a', 0x00, // name "a"
        0x00, 0x01, // type A
        0x00, 0x01, // class IN
    ];
    let bytes = eth_frame(0x0800, &ipv4_udp_packet(5353, 53, &dns));
    let raw = arwah_parse(&ArwahDataLink::Ethernet, &bytes);
    match raw {
        ArwahRaw::Ether(_, ArwahEther::IPv4(_, ArwahIPv4::UDP(udp_header, udp))) => {
            assert_eq!(udp_header.dest_port, 53);
            match udp {
                ARWAH_UDP::DNS(ARWAH_DNS::Request(request)) => {
                    assert_eq!(request.questions.len(), 1);
                    assert_eq!(request.questions[0].0, ArwahQueryType::A);
                    assert_eq!(request.questions[0].1, "a");
                }
                other => panic!("expected a DNS request, got {:?}", other),
            }
        }
        other => panic!("expected a UDP packet, got {:?}", other),
    }
}

#[test]
fn dhcp_acks_decode_with_promoted_fields() {
    let mut dhcp = vec![2u8, 1, 6, 0]; // reply, ethernet, hlen 6, hops
    dhcp.extend_from_slice(&[0, 0, 0, 42]); // xid
    dhcp.extend_from_slice(&[0, 0, 0, 0]); // secs, flags
    dhcp.extend_from_slice(&[1, 2, 3, 4]); // ciaddr
    dhcp.extend_from_slice(&[5, 6, 7, 8]); // yiaddr
    dhcp.extend_from_slice(&[9, 10, 11, 12]); // siaddr
    dhcp.extend_from_slice(&[0, 0, 0, 0]); // giaddr
    dhcp.extend_from_slice(&[0xaa, 0xbb, 0xcc, 0xdd, 0xee, 0xff]); // chaddr
    dhcp.extend_from_slice(&[0u8; 10]); // chaddr padding
    dhcp.extend_from_slice(&[0u8; 64]); // sname
    dhcp.extend_from_slice(&[0u8; 128]); // file
    assert_eq!(dhcp.len(), 236);
    dhcp.extend_from_slice(&[99, 130, 83, 99]); // cookie
    dhcp.extend_from_slice(&[53, 1, 5]); // message type: ack
    dhcp.extend_from_slice(&[12, 4, b'h', b'o', b's', b't']); // host name
    dhcp.push(255); // end

    let bytes = eth_frame(0x0800, &ipv4_udp_packet(67, 68, &dhcp));
    let raw = arwah_parse(&ArwahDataLink::Ethernet, &bytes);
    match raw {
        ArwahRaw::Ether(_, ArwahEther::IPv4(_, ArwahIPv4::UDP(_, ARWAH_UDP::DHCP(msg)))) => {
            match msg {
                ARWAH_DHCP::ACK(pkt) => {
                    assert_eq!(pkt.yiaddr, [5, 6, 7, 8]);
                    assert_eq!(pkt.chaddr, [0xaa, 0xbb, 0xcc, 0xdd, 0xee, 0xff]);
                    assert_eq!(pkt.hostname.as_deref(), Some("host"));
                }
                other => panic!("expected an acknowledged lease, got {:?}", other),
            }
        }
        other => panic!("expected a DHCP packet, got {:?}", other),
    }
}

#[test]
fn ssdp_lines_classify() {
    assert_eq!(
        arwah_parse_ssdp("M-SEARCH * HTTP/1.1\r\n").unwrap(),
        ARWAH_SSDP::Discover(None)
    );
    assert_eq!(
        arwah_parse_ssdp("M-SEARCH * HTTP/1.1\r\nHost: x").unwrap(),
        ARWAH_SSDP::Discover(Some("Host: x".to_owned()))
    );
    assert_eq!(
        arwah_parse_ssdp("M-SEARCH * HTTP/1.0").unwrap(),
        ARWAH_SSDP::Discover(None)
    );
    assert_eq!(
        arwah_parse_ssdp("NOTIFY * HTTP/1.1\r\nX: y").unwrap(),
        ARWAH_SSDP::Notify("X: y".to_owned())
    );
    assert_eq!(
        arwah_parse_ssdp("BT-SEARCH * HTTP/1.1\r\nz").unwrap(),
        ARWAH_SSDP::BTSearch("z".to_owned())
    );
    assert_eq!(
        arwah_parse_ssdp("GET / HTTP/1.1\r\n").unwrap_err(),
        ArwahCentrifugeError::UnknownProtocol
    );
}

#[test]
fn udp_text_payloads_on_unclaimed_ports_stay_text() {
    let bytes = eth_frame(0x0800, &ipv4_udp_packet(4000, 4001, b"hello there"));
    let raw = arwah_parse(&ArwahDataLink::Ethernet, &bytes);
    match raw {
        ArwahRaw::Ether(_, ArwahEther::IPv4(_, ArwahIPv4::UDP(_, udp))) => {
            assert_eq!(udp, ARWAH_UDP::Text("hello there".to_owned()));
        }
        other => panic!("expected a UDP packet, got {:?}", other),
    }
}

#[test]
fn filter_matches_exactly_when_noise_fits_verbosity() {
    let quiet = arwah_parse(
        &ArwahDataLink::Ethernet,
        &eth_frame(0x0800, &ipv4_tcp_packet(b"GET / HTTP/1.0\r\n\r\n")),
    );
    assert_eq!(quiet.arwah_noise_level(), ArwahNoiseLevel::Zero);
    let noisy = ArwahRaw::Unknown(vec![1, 2, 3]);
    assert_eq!(noisy.arwah_noise_level(), ArwahNoiseLevel::Maximum);

    for verbosity in 0u8..=4 {
        let filter = ArwahFilter::arwah_new(verbosity);
        assert_eq!(
            filter.arwah_matches(&quiet),
            quiet.arwah_noise_level().arwah_into_u8() <= verbosity
        );
        assert_eq!(
            filter.arwah_matches(&noisy),
            noisy.arwah_noise_level().arwah_into_u8() <= verbosity
        );
        assert!(filter.arwah_matches(&quiet));
        assert_eq!(filter.arwah_matches(&noisy), verbosity >= 4);
    }
    // the verbosity saturates at the noisiest level
    let clamped = ArwahFilter::arwah_new(200);
    assert_eq!(clamped.verbosity, 4);
    assert!(clamped.arwah_matches(&noisy));
}

#[test]
fn noise_levels_follow_the_model() {
    // an ARP packet sits one level above the decoded application protocols
    let arp = [
        0, 1, 8, 0, 6, 4, 0, 1, 0, 0, 0, 0, 0, 0, 0, 1, 192, 168, 1, 1, 0, 0, 0, 0, 0, 0, 192,
        168, 1, 2,
    ];
    let raw = arwah_parse(&ArwahDataLink::Ethernet, &eth_frame(0x0806, &arp));
    assert_eq!(raw.arwah_noise_level(), ArwahNoiseLevel::One);

    // an empty TCP segment with SYN set is control traffic
    let mut syn = ipv4_tcp_packet(b"");
    syn[33] = 0x02; // flags: SYN alone
    let raw = arwah_parse(&ArwahDataLink::Ethernet, &eth_frame(0x0800, &syn));
    assert_eq!(raw.arwah_noise_level(), ArwahNoiseLevel::Two);

    // an empty TCP segment without control flags is near the maximum
    let mut plain = ipv4_tcp_packet(b"");
    plain[33] = 0x10; // flags: ACK alone
    let raw = arwah_parse(&ArwahDataLink::Ethernet, &eth_frame(0x0800, &plain));
    assert_eq!(raw.arwah_noise_level(), ArwahNoiseLevel::AlmostMaximum);
}

#[test]
fn json_serialization_succeeds_for_every_tree() {
    let trees = vec![
        arwah_parse(
            &ArwahDataLink::Ethernet,
            &eth_frame(0x0800, &ipv4_tcp_packet(b"GET / HTTP/1.0\r\n\r\n")),
        ),
        arwah_parse(&ArwahDataLink::Ethernet, &eth_frame(0xfc00, &beacon_bytes())),
        arwah_parse(&ArwahDataLink::RadioTap, &vec![1, 2, 3]),
        arwah_parse(&ArwahDataLink::Tun, &vec![]),
    ];
    for tree in trees {
        let text = arwah::fmt::arwah_to_json(&tree);
        assert!(!text.is_empty());
        let value: serde_json::Value = serde_json::from_str(&text).unwrap();
        assert!(value.is_object());
    }
}

#[test]
fn tun_and_sll_frames_decode() {
    let tun = arwah_parse(&ArwahDataLink::Tun, &ipv4_tcp_packet(b""));
    assert!(matches!(tun, ArwahRaw::Tun(ArwahEther::IPv4(_, _))));

    let mut sll = vec![0u8; 14];
    sll.extend_from_slice(&[0x08, 0x00]);
    sll.extend_from_slice(&ipv4_tcp_packet(b""));
    let parsed = arwah_parse(&ArwahDataLink::Sll, &sll);
    assert!(matches!(parsed, ArwahRaw::Sll(ArwahEther::IPv4(_, _))));
}

#[test]
fn tcp_options_are_read_when_the_offset_says_so() {
    // offset 7: twenty fixed bytes plus eight option bytes
    let mut packet = ipv4_tcp_packet(b"GET / HTTP/1.0\r\n\r\n");
    packet[32] = 0x70; // data offset 7
    let options = [2u8, 4, 0x05, 0xb4, 1, 1, 1, 0]; // segment size, padding, end
    let mut with_options = packet[..40].to_vec();
    with_options.extend_from_slice(&options);
    with_options.extend_from_slice(&packet[40..]);
    let bytes = eth_frame(0x0800, &with_options);
    let raw = arwah_parse(&ArwahDataLink::Ethernet, &bytes);
    match raw {
        ArwahRaw::Ether(_, ArwahEther::IPv4(_, ArwahIPv4::TCP(tcp_header, tcp))) => {
            assert_eq!(
                tcp_header.options,
                Some(vec![
                    arwah::packet::ArwahTcpOption::MaximumSegmentSize(1460),
                    arwah::packet::ArwahTcpOption::NoOperation,
                    arwah::packet::ArwahTcpOption::NoOperation,
                    arwah::packet::ArwahTcpOption::NoOperation,
                    arwah::packet::ArwahTcpOption::EndOfOptions,
                ])
            );
            assert!(matches!(tcp, ARWAH_TCP::HTTP(_)));
        }
        other => panic!("expected a TCP segment with options, got {:?}", other),
    }
}

#[test]
fn unreadable_tcp_options_are_dropped_but_the_segment_survives() {
    // offset 6, but the option area holds an unknown kind
    let mut packet = ipv4_tcp_packet(b"GET / HTTP/1.0\r\n\r\n");
    packet[32] = 0x60;
    let options = [9u8, 9, 9, 9];
    let mut with_options = packet[..40].to_vec();
    with_options.extend_from_slice(&options);
    with_options.extend_from_slice(&packet[40..]);
    let bytes = eth_frame(0x0800, &with_options);
    let raw = arwah_parse(&ArwahDataLink::Ethernet, &bytes);
    match raw {
        ArwahRaw::Ether(_, ArwahEther::IPv4(_, ArwahIPv4::TCP(tcp_header, tcp))) => {
            assert_eq!(tcp_header.options, None);
            assert!(matches!(tcp, ARWAH_TCP::HTTP(_)));
        }
        other => panic!("expected a TCP segment, got {:?}", other),
    }
}

#[test]
fn tcp_binary_and_text_payloads_classify() {
    let with_zero = eth_frame(0x0800, &ipv4_tcp_packet(&[104, 105, 0, 106]));
    let raw = arwah_parse(&ArwahDataLink::Ethernet, &with_zero);
    match raw {
        ArwahRaw::Ether(_, ArwahEther::IPv4(_, ArwahIPv4::TCP(_, tcp))) => {
            assert_eq!(tcp, ARWAH_TCP::Binary(vec![104, 105, 0, 106]));
        }
        other => panic!("expected a TCP segment, got {:?}", other),
    }

    let text = eth_frame(0x0800, &ipv4_tcp_packet(b"just some plain words"));
    let raw = arwah_parse(&ArwahDataLink::Ethernet, &text);
    match raw {
        ArwahRaw::Ether(_, ArwahEther::IPv4(_, ArwahIPv4::TCP(_, tcp))) => {
            assert_eq!(tcp, ARWAH_TCP::Text("just some plain words".to_owned()));
        }
        other => panic!("expected a TCP segment, got {:?}", other),
    }
}

#[test]
fn icmp_echo_requests_decode() {
    let mut packet = vec![
        0x45, 0x00, 0x00, 0x00, 0x1a, 0xe6, 0x00, 0x00, 0x40, 0x01, 0x00, 0x00, 10, 0, 0, 1, 10,
        0, 0, 2,
    ];
    packet.extend_from_slice(&[8, 0, 0x12, 0x34, 0xde, 0xad]); // echo request + payload
    let bytes = eth_frame(0x0800, &packet);
    let raw = arwah_parse(&ArwahDataLink::Ethernet, &bytes);
    assert_eq!(raw.arwah_noise_level(), ArwahNoiseLevel::One);
    match raw {
        ArwahRaw::Ether(_, ArwahEther::IPv4(_, ArwahIPv4::ICMP(header, icmp))) => {
            assert_eq!(header.code, 0x0800);
            assert_eq!(header.checksum, 0x1234);
            assert_eq!(icmp.data, vec![0xde, 0xad]);
        }
        other => panic!("expected an ICMP message, got {:?}", other),
    }
}

#[test]
fn ipv6_segments_decode() {
    let mut packet = vec![0x60, 0, 0, 0]; // version 6
    packet.extend_from_slice(&[0, 20]); // payload length
    packet.push(6); // next header tcp
    packet.push(64); // hop limit
    packet.extend_from_slice(&[0u8; 15]);
    packet.push(1); // source ::1
    packet.extend_from_slice(&[0u8; 15]);
    packet.push(2); // destination ::2
    packet.extend_from_slice(&[
        0x04, 0xd2, 0x00, 0x50, 0, 0, 0, 0, 0, 0, 0, 0, 0x50, 0x02, 0x01, 0x00, 0x00, 0x00, 0x00,
        0x00,
    ]);
    let bytes = eth_frame(0x86dd, &packet);
    let raw = arwah_parse(&ArwahDataLink::Ethernet, &bytes);
    match raw {
        ArwahRaw::Ether(_, ArwahEther::IPv6(header, arwah::packet::ArwahIPv6::TCP(tcp_header, tcp))) => {
            assert_eq!(header.next_header, 6);
            assert_eq!(tcp_header.dest_port, 80);
            assert!(tcp_header.flag_syn);
            assert_eq!(tcp, ARWAH_TCP::Empty);
            // an empty SYN segment is control traffic
        }
        other => panic!("expected an IPv6 TCP segment, got {:?}", other),
    }
}

#[test]
fn empty_scan_inputs_expand_to_nothing() {
    let opts = arwah::input::ArwahOpts::default();
    let lookups = arwah::address::ArwahLookups {
        hosts: vec![],
        files: vec![],
    };
    assert!(arwah::address::arwah_parse_addresses(&opts, &lookups).is_empty());
}
