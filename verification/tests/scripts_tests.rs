use arwah::address::ArwahIpAddress;
use arwah::input::ArwahScriptsRequired;
use arwah::scripts::{
    arwah_builtin_scripts, arwah_filter_scripts_by_tags, arwah_parse_scripts,
    arwah_script_file_new, arwah_script_headers, arwah_trim, ArwahScript,
};
use arwah::sandbox::arwah_parse_sandbox_config;
use arwah::socket::ArwahSocket;

fn script_text() -> String {
    [
        "#!/usr/bin/env bash",
        "#tags = [\"core_approved\", \"example\"]",
        "#developer = [ \"example\", \"https://example.org\" ]",
        "#ports_separator = \",\"",
        "#call_format = \"nmap -vvv -p {{port}} {{ip}}\"",
        "",
        "echo \"scanning\"",
    ]
    .join("\n")
}

#[test]
fn parse_txt_script() {
    let script_f = arwah_script_file_new("test_script.txt".to_owned(), &script_text()).unwrap();
    assert_eq!(
        script_f.tags,
        Some(vec!["core_approved".to_string(), "example".to_string()])
    );
    assert_eq!(
        script_f.developer,
        Some(vec!["example".to_string(), "https://example.org".to_string()])
    );
    assert_eq!(script_f.ports_separator, Some(",".to_string()));
    assert_eq!(
        script_f.call_format,
        Some("nmap -vvv -p {{port}} {{ip}}".to_string())
    );
    assert_eq!(script_f.path, Some("test_script.txt".to_string()));
}

#[test]
fn header_block_stops_at_the_first_plain_line() {
    let headers = arwah_script_headers(&script_text());
    assert_eq!(
        headers,
        "tags = [\"core_approved\", \"example\"]\ndeveloper = [ \"example\", \"https://example.org\" ]\nports_separator = \",\"\ncall_format = \"nmap -vvv -p {{port}} {{ip}}\"\n"
    );
}

#[test]
fn trim_strips_both_ends() {
    assert_eq!(arwah_trim(&"  a b \t".to_owned()), "a b");
    assert_eq!(arwah_trim(&"".to_owned()), "");
    assert_eq!(arwah_trim(&" \t ".to_owned()), "");
}

#[test]
fn scripts_with_broken_headers_contribute_nothing() {
    let bad = "#!/bin/sh\n#this is = = no toml at all [\nwhatever".to_owned();
    let scripts = arwah_parse_scripts(vec![
        ("good.txt".to_owned(), script_text()),
        ("bad.txt".to_owned(), bad),
    ]);
    assert_eq!(scripts.len(), 1);
    assert_eq!(scripts[0].path, Some("good.txt".to_owned()));
}

#[test]
fn tag_filter_keeps_approved_scripts_only() {
    let approved = vec!["core_approved".to_owned(), "example".to_owned()];
    let matching = arwah_script_file_new("a.txt".to_owned(), &script_text()).unwrap();
    let mut other = matching.clone();
    other.tags = Some(vec!["experimental".to_owned()]);
    let mut untagged = matching.clone();
    untagged.tags = None;
    let kept = arwah_filter_scripts_by_tags(vec![matching, other, untagged], &approved);
    assert_eq!(kept.len(), 1);
    assert_eq!(kept[0].path, Some("a.txt".to_owned()));
}

#[test]
fn command_assembly_fills_the_template() {
    let script = ArwahScript::arwah_build(
        Some("test_script.txt".to_owned()),
        ArwahIpAddress::V4(u32::from_be_bytes([127, 0, 0, 1])),
        vec![80, 8080],
        None,
        Some(",".to_owned()),
        None,
        Some("nmap -vvv -p {{port}} {{ip}}".to_owned()),
    );
    assert_eq!(script.arwah_command().unwrap(), "nmap -vvv -p 80,8080 127.0.0.1");
}

#[test]
fn trigger_port_replaces_the_joined_list() {
    let script = ArwahScript::arwah_build(
        None,
        ArwahIpAddress::V4(u32::from_be_bytes([10, 0, 0, 1])),
        vec![80, 8080],
        Some("8443".to_owned()),
        None,
        None,
        Some("probe {{ip}} {{port}} {{ipversion}}".to_owned()),
    );
    assert_eq!(script.arwah_command().unwrap(), "probe 10.0.0.1 8443 4");
}

#[test]
fn missing_call_format_is_an_error() {
    let script = ArwahScript::arwah_build(
        None,
        ArwahIpAddress::V4(1),
        vec![80],
        None,
        None,
        None,
        None,
    );
    assert!(script.arwah_command().is_err());
}

#[test]
fn unknown_placeholders_are_an_error() {
    let script = ArwahScript::arwah_build(
        None,
        ArwahIpAddress::V4(1),
        vec![80],
        None,
        None,
        None,
        Some("run {{nope}}".to_owned()),
    );
    assert!(script.arwah_command().is_err());
}

#[test]
fn builtin_scripts_follow_the_setting() {
    assert!(arwah_builtin_scripts(&ArwahScriptsRequired::Disabled).is_empty());
    assert!(arwah_builtin_scripts(&ArwahScriptsRequired::Custom).is_empty());
    let default = arwah_builtin_scripts(&ArwahScriptsRequired::Default);
    assert_eq!(default.len(), 1);
    assert_eq!(
        default[0].call_format,
        Some("nmap -vvv -p {{port}} -{{ipversion}} {{ip}}".to_owned())
    );
    assert_eq!(default[0].ports_separator, Some(",".to_owned()));
}

#[test]
fn sandbox_config_parses_its_section() {
    let config =
        arwah_parse_sandbox_config("[sandbox]\nuser = \"foo\"\nchroot = \"/var/empty\"\n").unwrap();
    assert_eq!(config.sandbox.user, Some("foo".to_owned()));
    assert_eq!(config.sandbox.chroot, Some("/var/empty".to_owned()));
    let empty = arwah_parse_sandbox_config("").unwrap();
    assert_eq!(empty.sandbox.user, None);
    assert!(arwah_parse_sandbox_config("not [ toml").is_none());
}

#[test]
fn test_goes_through_every_ip_port_combination() {
    let addrs = vec![
        ArwahIpAddress::V4(u32::from_be_bytes([127, 0, 0, 1])),
        ArwahIpAddress::V4(u32::from_be_bytes([192, 168, 0, 1])),
    ];
    let ports: Vec<u16> = vec![22, 80, 443];
    let mut it = ArwahSocket::arwah_new(&addrs, &ports);

    for port in &ports {
        for addr in &addrs {
            let pair = it.arwah_next().unwrap();
            assert_eq!(pair.ip, *addr);
            assert_eq!(pair.port, *port);
        }
    }
    assert!(it.arwah_next().is_none());
}
