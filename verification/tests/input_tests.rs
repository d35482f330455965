use arwah::input::{
    arwah_parse_range, arwah_parse_u16, ArwahConfig, ArwahOpts, ArwahPortRange, ArwahScanOrder,
    ArwahScriptsRequired,
};

fn test_config() -> ArwahConfig {
    ArwahConfig {
        addresses: Some(vec!["127.0.0.1".to_owned()]),
        ports: None,
        range: None,
        greppable: Some(true),
        batch_size: Some(25_000),
        timeout: Some(1_000),
        tries: Some(1),
        ulimit: None,
        command: Some(vec!["-A".to_owned()]),
        accessible: Some(true),
        resolver: None,
        scan_order: Some(ArwahScanOrder::Random),
        scripts: None,
        exclude_ports: None,
        exclude_addresses: None,
        udp: Some(false),
    }
}

#[test]
fn opts_no_merge_when_config_is_ignored() {
    let mut opts = ArwahOpts::default();
    let config = test_config();

    opts.arwah_merge(&config);

    assert_eq!(opts.addresses, vec![] as Vec<String>);
    assert!(opts.greppable);
    assert!(!opts.accessible);
    assert_eq!(opts.timeout, 0);
    assert_eq!(opts.command, vec![] as Vec<String>);
    assert_eq!(opts.scan_order, ArwahScanOrder::Serial);
}

#[test]
fn opts_merge_required_arguments() {
    let mut opts = ArwahOpts::default();
    let config = test_config();

    opts.arwah_merge_required(&config);

    assert_eq!(opts.addresses, config.addresses.unwrap());
    assert_eq!(opts.greppable, config.greppable.unwrap());
    assert_eq!(opts.timeout, config.timeout.unwrap());
    assert_eq!(opts.command, config.command.unwrap());
    assert_eq!(opts.accessible, config.accessible.unwrap());
    assert_eq!(opts.scan_order, config.scan_order.unwrap());
    assert_eq!(opts.scripts, ArwahScriptsRequired::Default);
}

#[test]
fn opts_merge_optional_arguments() {
    let mut opts = ArwahOpts::default();
    let mut config = test_config();
    config.range = Some(ArwahPortRange {
        start: 1,
        end: 1_000,
    });
    config.ulimit = Some(1_000);
    config.resolver = Some("1.1.1.1".to_owned());

    opts.arwah_merge_optional(&config);

    assert_eq!(opts.range, config.range);
    assert_eq!(opts.ulimit, config.ulimit);
    assert_eq!(opts.resolver, config.resolver);
}

#[test]
fn parse_range_accepts_start_end() {
    let range = arwah_parse_range("1-1000").unwrap();
    assert_eq!(range.start, 1);
    assert_eq!(range.end, 1000);
}

#[test]
fn parse_range_rejects_malformed_input() {
    assert!(arwah_parse_range("").is_err());
    assert!(arwah_parse_range("1000").is_err());
    assert!(arwah_parse_range("1-2-3").is_err());
    assert!(arwah_parse_range("a-b").is_err());
    assert!(arwah_parse_range("80000-90000").is_err());
    let message = arwah_parse_range("nope").unwrap_err();
    assert_eq!(
        message,
        "[ ETA ]: the range format must be 'start-end'. Example: 1-1000."
    );
}

#[test]
fn parse_u16_accepts_decimals_and_plus() {
    assert_eq!(arwah_parse_u16("0"), Some(0));
    assert_eq!(arwah_parse_u16("65535"), Some(65535));
    assert_eq!(arwah_parse_u16("+80"), Some(80));
    assert_eq!(arwah_parse_u16("65536"), None);
    assert_eq!(arwah_parse_u16(""), None);
    assert_eq!(arwah_parse_u16("-1"), None);
    assert_eq!(arwah_parse_u16("12a"), None);
}

#[test]
fn default_range_is_filled_when_nothing_was_given() {
    let mut opts = ArwahOpts::default();
    opts.arwah_apply_default_range();
    assert_eq!(opts.range, Some(ArwahPortRange { start: 1, end: 65535 }));

    let mut with_ports = ArwahOpts::default();
    with_ports.ports = Some(vec![80]);
    with_ports.arwah_apply_default_range();
    assert_eq!(with_ports.range, None);
}
