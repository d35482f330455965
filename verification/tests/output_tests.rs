use arwah::benchmark::{arwah_seconds_text, ArwahBenchmark, ArwahNamedTimer};
use arwah::fmt::{
    arwah_align, arwah_display_kv_list, arwah_display_macadr_buf, arwah_display_macaddr,
    ArwahConfig, ArwahDhcpKvListWriter, ArwahFormat, ArwahLayout,
};
use arwah::fmt_text::{arwah_u128_text, arwah_u64_text, arwah_u8_text};
use arwah::link::ArwahDataLink;

#[test]
fn decimal_rendering_is_exact() {
    assert_eq!(arwah_u8_text(0), "0");
    assert_eq!(arwah_u8_text(255), "255");
    assert_eq!(arwah_u64_text(65535), "65535");
    assert_eq!(arwah_u64_text(1000), "1000");
    assert_eq!(arwah_u128_text(340282366920938463463374607431768211455), "340282366920938463463374607431768211455");
}

#[test]
fn macaddr_rendering_is_exact() {
    assert_eq!(
        arwah_display_macadr_buf([0x00, 0x1b, 0x21, 0x0f, 0x91, 0x9b]),
        "00:1b:21:0f:91:9b"
    );
    assert_eq!(
        arwah_display_macaddr(&[0xff, 0x00, 0x10, 0x01, 0xab, 0xcd]),
        "ff:00:10:01:ab:cd"
    );
}

#[test]
fn alignment_indents_under_the_column() {
    assert_eq!(arwah_align(3, "x"), "\n    x".to_owned());
    assert_eq!(arwah_align(0, "ab"), "\n ab".to_owned());
}

#[test]
fn kv_lists_show_only_present_values() {
    let list = vec![
        ("version".to_owned(), Some("tls1.2".to_owned())),
        ("session".to_owned(), None),
        ("hostname".to_owned(), Some("example.org".to_owned())),
    ];
    assert_eq!(
        arwah_display_kv_list(&list),
        " (version: \"tls1.2\", hostname: \"example.org\")"
    );
    let empty = vec![("version".to_owned(), None)];
    assert_eq!(arwah_display_kv_list(&empty), "");
}

#[test]
fn dhcp_kv_writer_joins_pairs() {
    let writer = ArwahDhcpKvListWriter::arwah_new();
    assert_eq!(writer.arwah_finalize(), "");
    let writer = ArwahDhcpKvListWriter::arwah_new()
        .arwah_append("hostname", "\"host\"".to_owned())
        .arwah_append("dns", "[10.0.0.1]".to_owned());
    assert_eq!(writer.arwah_finalize(), " (hostname \"host\", dns [10.0.0.1])");
}

#[test]
fn config_clamps_verbosity_and_hands_its_parts_out() {
    let config = ArwahConfig::arwah_new(ArwahLayout::Compact, 9, true);
    assert_eq!(config.arwah_filter().verbosity, 4);
    let format = config.arwah_format();
    assert_eq!(format.layout, ArwahLayout::Compact);
    assert!(format.colors);
}

#[test]
fn from_linktype_knows_the_four_layers() {
    assert_eq!(
        ArwahDataLink::arwah_from_linktype(1).unwrap(),
        ArwahDataLink::Ethernet
    );
    assert_eq!(
        ArwahDataLink::arwah_from_linktype(12).unwrap(),
        ArwahDataLink::Tun
    );
    assert_eq!(
        ArwahDataLink::arwah_from_linktype(113).unwrap(),
        ArwahDataLink::Sll
    );
    assert_eq!(
        ArwahDataLink::arwah_from_linktype(127).unwrap(),
        ArwahDataLink::RadioTap
    );
    assert_eq!(ArwahDataLink::arwah_from_linktype(9), Err(9));
}

#[test]
fn seconds_rendering_keeps_three_decimals() {
    assert_eq!(arwah_seconds_text(0), "0.000");
    assert_eq!(arwah_seconds_text(1), "0.001");
    assert_eq!(arwah_seconds_text(100), "0.100");
    assert_eq!(arwah_seconds_text(12345), "12.345");
}

#[test]
fn test_benchmark() {
    let mut benchmark = ArwahBenchmark::arwah_init();
    let mut test_timer = ArwahNamedTimer::arwah_start("test");
    test_timer.arwah_end();
    benchmark.arwah_push(test_timer);
    benchmark.arwah_push(ArwahNamedTimer::arwah_start("only_start"));
    assert!(benchmark
        .arwah_summary()
        .contains("\nArwah Benchmark Summary\ntest       | 0."));
    assert!(!benchmark.arwah_summary().contains("only_test"));
}

#[test]
fn compact_tcp_line_opens_with_flags_and_endpoints() {
    let ip_header = arwah::packet::ArwahIPv4Header {
        version: 4,
        ihl: 5,
        tos: 0,
        length: 40,
        id: 1,
        flags: 0,
        fragment_offset: 0,
        ttl: 64,
        protocol: 6,
        chksum: 0,
        source_addr: [1, 2, 3, 4],
        dest_addr: [5, 6, 7, 8],
    };
    let tcp_header = arwah::packet::ArwahTcpHeader {
        source_port: 80,
        dest_port: 1234,
        sequence_no: 0,
        ack_no: 0,
        data_offset: 5,
        reserved: 0,
        flag_urg: false,
        flag_ack: true,
        flag_psh: false,
        flag_rst: false,
        flag_syn: true,
        flag_fin: false,
        window: 0,
        checksum: 0,
        urgent_pointer: 0,
        options: None,
    };
    let raw = arwah::packet::ArwahRaw::Tun(arwah::packet::ArwahEther::IPv4(
        ip_header,
        arwah::packet::ArwahIPv4::TCP(tcp_header, arwah::packet::ARWAH_TCP::Text("hi".to_owned())),
    ));
    let format = ArwahFormat::arwah_new(ArwahLayout::Compact, false);
    let (line, color) = format.arwah_print_compact(raw);
    assert!(
        line.starts_with("[tcp/SA] 1.2.3.4:80 -> 5.6.7.8:1234 TEXT "),
        "line was {line:?}"
    );
    assert_eq!(color, Some(arwah::fmt::ArwahColor::Red));
}

#[test]
fn compact_udp_text_line_is_exact() {
    let ip_header = arwah::packet::ArwahIPv4Header {
        version: 4,
        ihl: 5,
        tos: 0,
        length: 28,
        id: 1,
        flags: 0,
        fragment_offset: 0,
        ttl: 64,
        protocol: 17,
        chksum: 0,
        source_addr: [1, 2, 3, 4],
        dest_addr: [5, 6, 7, 8],
    };
    let udp_header = arwah::packet::ArwahUdpHeader {
        source_port: 53,
        dest_port: 9999,
        length: 10,
        checksum: 0,
    };
    let raw = arwah::packet::ArwahRaw::Tun(arwah::packet::ArwahEther::IPv4(
        ip_header,
        arwah::packet::ArwahIPv4::UDP(udp_header, arwah::packet::ARWAH_UDP::Text("hi".to_owned())),
    ));
    let format = ArwahFormat::arwah_new(ArwahLayout::Compact, false);
    let (line, color) = format.arwah_print_compact(raw);
    assert_eq!(line, "UDP 1.2.3.4:53 -> 5.6.7.8:9999 TEXT \"hi\"");
    assert_eq!(color, Some(arwah::fmt::ArwahColor::Red));
}

#[test]
fn compact_icmp_line_is_exact() {
    let ip_header = arwah::packet::ArwahIPv4Header {
        version: 4,
        ihl: 5,
        tos: 0,
        length: 28,
        id: 1,
        flags: 0,
        fragment_offset: 0,
        ttl: 64,
        protocol: 1,
        chksum: 0,
        source_addr: [1, 2, 3, 4],
        dest_addr: [5, 6, 7, 8],
    };
    let icmp_header = arwah::packet::ArwahIcmpHeader {
        code: 8 * 256,
        checksum: 7,
        data: arwah::packet::ArwahIcmpData::Empty,
    };
    let icmp = arwah::packet::ArwahICMP { data: vec![] };
    let raw = arwah::packet::ArwahRaw::Tun(arwah::packet::ArwahEther::IPv4(
        ip_header,
        arwah::packet::ArwahIPv4::ICMP(icmp_header, icmp),
    ));
    let format = ArwahFormat::arwah_new(ArwahLayout::Compact, false);
    let (line, color) = format.arwah_print_compact(raw);
    assert_eq!(line, "[ ETA ]: -> [icmp/ping] 1.2.3.4 -> 5.6.7.8 [code=2048] \"\"");
    assert_eq!(color, Some(arwah::fmt::ArwahColor::Blue));
}

#[test]
fn debugging_rendering_opens_with_the_layer_tag() {
    let raw = arwah::packet::ArwahRaw::Tun(arwah::packet::ArwahEther::Unknown(vec![0x41]));
    let format = ArwahFormat::arwah_new(ArwahLayout::Debugging, false);
    let text = format.arwah_print_debugging(raw);
    assert!(text.starts_with("UNKNOWN -> "), "text was {text:?}");
}

#[test]
fn benchmark_summary_is_bare_heading_without_finished_timers() {
    let mut benchmark = ArwahBenchmark::arwah_init();
    assert_eq!(benchmark.arwah_summary(), "\nArwah Benchmark Summary");
    benchmark.arwah_push(ArwahNamedTimer::arwah_start("pending"));
    assert_eq!(benchmark.arwah_summary(), "\nArwah Benchmark Summary");
}
