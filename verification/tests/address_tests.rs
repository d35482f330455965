use arwah::address::{
    arwah_parse_addresses, ArwahHostLookup, ArwahIpAddress, ArwahLookups,
};
use arwah::input::ArwahOpts;

fn v4(a: u8, b: u8, c: u8, d: u8) -> ArwahIpAddress {
    ArwahIpAddress::V4(u32::from_be_bytes([a, b, c, d]))
}

fn no_lookups() -> ArwahLookups {
    ArwahLookups {
        hosts: vec![],
        files: vec![],
    }
}

#[test]
fn test_parse_correct_addresses() {
    let opts = ArwahOpts {
        addresses: vec!["127.0.0.1".to_owned(), "192.168.0.0/30".to_owned()],
        ..ArwahOpts::default()
    };
    let ips = arwah_parse_addresses(&opts, &no_lookups());
    assert_eq!(
        ips,
        [
            v4(127, 0, 0, 1),
            v4(192, 168, 0, 0),
            v4(192, 168, 0, 1),
            v4(192, 168, 0, 2),
            v4(192, 168, 0, 3)
        ]
    );
}

#[test]
fn test_parse_addresses_with_address_exclusions() {
    let opts = ArwahOpts {
        addresses: vec!["192.168.0.0/30".to_owned()],
        exclude_addresses: Some(vec!["192.168.0.1".to_owned()]),
        ..ArwahOpts::default()
    };
    let ips = arwah_parse_addresses(&opts, &no_lookups());
    assert_eq!(
        ips,
        [v4(192, 168, 0, 0), v4(192, 168, 0, 2), v4(192, 168, 0, 3)]
    );
}

#[test]
fn test_parse_addresses_with_cidr_exclusions() {
    let opts = ArwahOpts {
        addresses: vec!["192.168.0.0/29".to_owned()],
        exclude_addresses: Some(vec!["192.168.0.0/30".to_owned()]),
        ..ArwahOpts::default()
    };
    let ips = arwah_parse_addresses(&opts, &no_lookups());
    assert_eq!(
        ips,
        [
            v4(192, 168, 0, 4),
            v4(192, 168, 0, 5),
            v4(192, 168, 0, 6),
            v4(192, 168, 0, 7),
        ]
    );
}

#[test]
fn test_parse_addresses_with_incorrect_address_exclusions() {
    let opts = ArwahOpts {
        addresses: vec!["192.168.0.0/30".to_owned()],
        exclude_addresses: Some(vec!["192.168.0.1".to_owned()]),
        ..ArwahOpts::default()
    };
    let ips = arwah_parse_addresses(&opts, &no_lookups());
    assert_eq!(
        ips,
        [v4(192, 168, 0, 0), v4(192, 168, 0, 2), v4(192, 168, 0, 3)]
    );
}

#[test]
fn test_parse_correct_host_addresses() {
    // resolver answers stand in for the system's name service
    let opts = ArwahOpts {
        addresses: vec!["google.com".to_owned()],
        ..ArwahOpts::default()
    };
    let lookups = ArwahLookups {
        hosts: vec![ArwahHostLookup {
            name: "google.com".to_owned(),
            ips: vec![v4(142, 250, 80, 46)],
        }],
        files: vec![],
    };
    let ips = arwah_parse_addresses(&opts, &lookups);
    assert_eq!(ips.len(), 1);
}

#[test]
fn test_parse_correct_and_incorrect_addresses() {
    let opts = ArwahOpts {
        addresses: vec!["127.0.0.1".to_owned(), "im_wrong".to_owned()],
        ..ArwahOpts::default()
    };
    let ips = arwah_parse_addresses(&opts, &no_lookups());
    assert_eq!(ips, [v4(127, 0, 0, 1),]);
}

#[test]
fn test_parse_incorrect_addresses() {
    let opts = ArwahOpts {
        addresses: vec!["im_wrong".to_owned(), "300.10.1.1".to_owned()],
        ..ArwahOpts::default()
    };
    let ips = arwah_parse_addresses(&opts, &no_lookups());
    assert!(ips.is_empty());
}

#[test]
fn test_parse_hosts_file_and_incorrect_hosts() {
    // the file's lines are handed in the way the front end reads them
    let opts = ArwahOpts {
        addresses: vec!["hosts.txt".to_owned()],
        ..ArwahOpts::default()
    };
    let lookups = ArwahLookups {
        hosts: vec![],
        files: vec![arwah::address::ArwahFileEntry {
            path: "hosts.txt".to_owned(),
            lines: Some(vec![
                "127.0.0.1".to_owned(),
                "192.168.0.1".to_owned(),
                "192.168.0.2".to_owned(),
                "not_an_address".to_owned(),
            ]),
        }],
    };
    let ips = arwah_parse_addresses(&opts, &lookups);
    assert_eq!(ips.len(), 3);
}

#[test]
fn test_parse_duplicate_cidrs() {
    let opts = ArwahOpts {
        addresses: vec!["79.98.104.0/21".to_owned(), "79.98.104.0/24".to_owned()],
        ..ArwahOpts::default()
    };
    let ips = arwah_parse_addresses(&opts, &no_lookups());
    assert_eq!(ips.len(), 2_048);
}

#[test]
fn parse_overspecific_cidr() {
    let opts = ArwahOpts {
        addresses: vec!["192.128.1.1/24".to_owned()],
        ..ArwahOpts::default()
    };
    let ips = arwah_parse_addresses(&opts, &no_lookups());
    assert_eq!(ips.len(), 256);
}

#[test]
fn expansion_is_sorted_and_free_of_duplicates() {
    let opts = ArwahOpts {
        addresses: vec![
            "10.0.0.2".to_owned(),
            "10.0.0.0/30".to_owned(),
            "10.0.0.1".to_owned(),
        ],
        ..ArwahOpts::default()
    };
    let ips = arwah_parse_addresses(&opts, &no_lookups());
    assert_eq!(
        ips,
        [v4(10, 0, 0, 0), v4(10, 0, 0, 1), v4(10, 0, 0, 2), v4(10, 0, 0, 3)]
    );
}

#[test]
fn excluded_hostname_blocks_its_addresses() {
    let opts = ArwahOpts {
        addresses: vec!["10.0.0.0/30".to_owned()],
        exclude_addresses: Some(vec!["blocked.example".to_owned()]),
        ..ArwahOpts::default()
    };
    let lookups = ArwahLookups {
        hosts: vec![ArwahHostLookup {
            name: "blocked.example".to_owned(),
            ips: vec![v4(10, 0, 0, 2)],
        }],
        files: vec![],
    };
    let ips = arwah_parse_addresses(&opts, &lookups);
    assert_eq!(ips, [v4(10, 0, 0, 0), v4(10, 0, 0, 1), v4(10, 0, 0, 3)]);
}

#[test]
fn ipv6_literals_expand() {
    let opts = ArwahOpts {
        addresses: vec!["::1".to_owned()],
        ..ArwahOpts::default()
    };
    let ips = arwah_parse_addresses(&opts, &no_lookups());
    assert_eq!(ips, [ArwahIpAddress::V6(1)]);
}
