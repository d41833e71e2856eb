//! The watch over the host's addresses, TAP devices, and what is printed.

use netbox::error::{Context, Error};
use netbox::monitor::{
    coalesced, emitted, monitor_host_ipv4, waited, MonitorAction, COALESCE_MILLIS, RTNLGRP_IPV4_IFADDR,
};
use netbox::net::Net;
use netbox::number::IntError;
use netbox::report::{complaint, host_ips_line};
use netbox::tap::{add_tap, resume_set_iff, resume_set_persist, TapAction, TapName};

fn s(text: &str) -> String {
    text.to_string()
}

fn set(ips: &[&str]) -> Vec<String> {
    ips.iter().map(|ip| s(ip)).collect()
}

fn opened(name: &str) -> TapName {
    match add_tap(name) {
        TapAction::Open(tap) => tap,
        other => panic!("not opened: {other:?}"),
    }
}

#[test]
fn watch_starts_with_the_current_set() {
    let (mut watch, action) = monitor_host_ipv4(set(&["wlan"]), None);
    assert_eq!(action, MonitorAction::Query);
    assert_eq!(watch.queried(Ok(set(&["10.0.0.1"]))), MonitorAction::Emit(set(&["10.0.0.1"])));
    let (mut empty, _) = monitor_host_ipv4(set(&["wlan"]), None);
    assert_eq!(empty.queried(Ok(vec![])), MonitorAction::Emit(vec![]));
}

#[test]
fn watch_asks_what_the_query_asks() {
    let (watch, _) = monitor_host_ipv4(set(&["wlan", "rmnet"]), Some(4));
    assert_eq!(watch.query(&Net), Net.host_ipv4(&set(&["wlan", "rmnet"]), Some(4)));
}

#[test]
fn only_real_changes_are_emitted() {
    let (mut watch, _) = monitor_host_ipv4(set(&["wlan"]), None);
    let steps = [
        (set(&["a"]), true),
        (set(&["a"]), false),
        (set(&["a", "b"]), true),
        (set(&["a", "c"]), true),
        (set(&["a", "c"]), false),
        (set(&[]), true),
        (set(&[]), false),
        (set(&["a"]), true),
    ];
    for (ips, emits) in steps {
        let expected = if emits { MonitorAction::Emit(ips.clone()) } else { MonitorAction::Wait };
        assert_eq!(watch.queried(Ok(ips)), expected);
    }
}

#[test]
fn bursts_are_taken_as_one() {
    assert_eq!(waited(true), MonitorAction::Coalesce(200));
    assert_eq!(COALESCE_MILLIS, 200);
    assert_eq!(coalesced(), MonitorAction::Query);
    assert_eq!(RTNLGRP_IPV4_IFADDR, 5);
}

#[test]
fn watch_ends_with_its_connection() {
    assert_eq!(waited(false), MonitorAction::Stop(Ok(())));
}

#[test]
fn watch_ends_with_a_failure() {
    let (mut watch, _) = monitor_host_ipv4(vec![], None);
    let error = || Error::Failed(Context::LinkDump, s("closed"));
    assert_eq!(watch.queried(Err(error())), MonitorAction::Stop(Err(error())));
    assert_eq!(emitted(Ok(())), MonitorAction::Wait);
    assert_eq!(emitted(Err(s("broken pipe"))), MonitorAction::Stop(Err(Error::Outside(s("broken pipe")))));
}

#[test]
fn tap_is_requested_and_let_stay() {
    let request = match opened("tap0").resume(Ok(())) {
        TapAction::SetIff(request) => request,
        other => panic!("not requested: {other:?}"),
    };
    assert_eq!(&request.name, b"tap0\0\0\0\0\0\0\0\0\0\0\0\0");
    assert_eq!(request.flags, 0x5002);
    assert_eq!(resume_set_iff(Ok(())), TapAction::SetPersist);
    assert_eq!(resume_set_persist(Ok(())), TapAction::Finish(Ok(())));
}

#[test]
fn tap_names_have_fifteen_bytes_at_most() {
    match opened("tap456789012345").resume(Ok(())) {
        TapAction::SetIff(request) => assert_eq!(&request.name, b"tap456789012345\0"),
        other => panic!("not requested: {other:?}"),
    }
    for name in ["tap4567890123456", "\u{e9}\u{e9}\u{e9}\u{e9}\u{e9}\u{e9}\u{e9}\u{e9}"] {
        assert_eq!(add_tap(name), TapAction::Finish(Err(Error::TapNameTooLong(s(name)))));
    }
    match opened("\u{e9}").resume(Ok(())) {
        TapAction::SetIff(request) => assert_eq!(request.name[..3], [0xc3, 0xa9, 0]),
        other => panic!("not requested: {other:?}"),
    }
}

#[test]
fn tap_names_hold_no_zero_byte() {
    assert_eq!(opened("a\0b\0").resume(Ok(())), TapAction::Finish(Err(Error::NulByte(1))));
}

#[test]
fn tap_failures_say_what_was_being_done() {
    let failed = |context: Context| TapAction::Finish(Err(Error::Failed(context, s("denied"))));
    assert_eq!(opened("a\0").resume(Err(s("denied"))), failed(Context::OpenTun));
    assert_eq!(resume_set_iff(Err(s("denied"))), failed(Context::TunSetIff));
    assert_eq!(resume_set_persist(Err(s("denied"))), failed(Context::TunSetPersist));
}

#[test]
fn host_addresses_are_printed_as_json() {
    assert_eq!(host_ips_line(&vec![]), "{\"v4\":[]}");
    assert_eq!(host_ips_line(&set(&["10.0.0.1"])), "{\"v4\":[\"10.0.0.1\"]}");
    assert_eq!(host_ips_line(&set(&["10.0.0.1", "9.0.0.1"])), "{\"v4\":[\"10.0.0.1\",\"9.0.0.1\"]}");
}

#[test]
fn json_strings_are_escaped() {
    assert_eq!(
        host_ips_line(&set(&["\"\\/\u{8}\u{9}\u{a}\u{c}\u{d}\u{1}\u{1f}\u{7f}\u{e9}"])),
        "{\"v4\":[\"\\\"\\\\/\\b\\t\\n\\f\\r\\u0001\\u001f\u{7f}\u{e9}\"]}"
    );
}

#[test]
fn errors_are_put_in_words() {
    let cases = [
        (Error::DeviceNotFound(s("tap0")), "device not found: tap0"),
        (Error::BadMac(s("x"), IntError::InvalidDigit), "bad MAC: x: invalid digit found in string"),
        (Error::BadMac(s(""), IntError::Empty), "bad MAC: : cannot parse integer from empty string"),
        (Error::MacLength(s("00")), "MAC must be 6 octets: 00"),
        (Error::NotCidr(s("x")), "not a CIDR: x"),
        (Error::BadAddress, "invalid IP address syntax"),
        (Error::BadPrefix(IntError::PosOverflow), "number too large to fit in target type"),
        (Error::TapNameTooLong(s("long")), "tap name too long: long"),
        (Error::NulByte(12), "nul byte found in provided data at position: 12"),
        (Error::Failed(Context::LinkDump, s("closed")), "link dump: closed"),
        (Error::Failed(Context::GetLink(s("tap0")), s("closed")), "get_link tap0: closed"),
        (Error::Outside(s("broken pipe")), "broken pipe"),
    ];
    for (error, text) in cases {
        assert_eq!(error.text(), text);
        assert_eq!(complaint(&error), format!("netbox: {text}"));
    }
}

#[test]
fn contexts_are_put_in_words() {
    let cases = [
        (Context::NetlinkConnect, "netlink connect"),
        (Context::JoinAddressGroup, "join RTNLGRP_IPV4_IFADDR"),
        (Context::LinkDump, "link dump"),
        (Context::AddrDump, "addr dump"),
        (Context::NeighDump, "neigh dump"),
        (Context::RuleDump, "rule dump"),
        (Context::LinkAddBridge, "link_add_bridge"),
        (Context::LinkAddVlan, "link_add_vlan"),
        (Context::LinkDel, "link_del"),
        (Context::LinkSetState, "link_set_state"),
        (Context::LinkSetMaster, "link_set_master"),
        (Context::LinkSetMac, "link_set_mac"),
        (Context::LinkSetStp, "link_set_stp"),
        (Context::SetPortFlag, "set_port_flag"),
        (Context::AddrAdd, "addr_add"),
        (Context::AddrDel, "addr_del"),
        (Context::RouteAdd, "route_add"),
        (Context::RuleAdd, "rule_add"),
        (Context::RuleDel, "rule_del"),
        (Context::FdbAdd, "fdb_add"),
        (Context::OpenTun, "open /dev/net/tun"),
        (Context::TunSetIff, "TUNSETIFF"),
        (Context::TunSetPersist, "TUNSETPERSIST"),
        (Context::GetLink(s("br0")), "get_link br0"),
    ];
    for (context, text) in cases {
        assert_eq!(context.text(), text);
    }
}
