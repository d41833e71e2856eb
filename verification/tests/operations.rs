//! The changes: what each asks of the kernel, and what is made of the answer.

use netbox::change::{
    settle_with, Ack, AddressRequest, Change, FdbRequest, RouteRequest, RuleRequest, Tolerates,
    NTF_MASTER, RTPROT_BOOT, RT_SCOPE_LINK,
};
use netbox::command::{run, run_oneshot, Cmd, Launch};
use netbox::error::{Context, Error};
use netbox::ip::IpAddress;
use netbox::message::{
    BridgeStpState, InfoBridge, InfoBridgePort, InfoVlan, LinkAttribute, LinkInfo, LinkMessage,
    NeighbourState, RuleAction,
};
use netbox::net::Net;
use netbox::number::IntError;
use netbox::outside::{FIB_RULE_DETACHED, IFA_F_NOPREFIXROUTE, IFF_UP};
use netbox::step::{Action, Found, Output, Pending};
use netlink_packet_route::address::AddressFlags;
use netlink_packet_route::link::LinkFlags;
use netlink_packet_route::neighbour::NeighbourFlags;
use netlink_packet_route::route::{RouteProtocol, RouteScope};
use netlink_packet_route::rule::RuleFlags;

const HOST: IpAddress = IpAddress::V4(0xc0a8_0114);

fn s(text: &str) -> String {
    text.to_string()
}

fn found(action: Action, name: &str, answer: Found) -> Action {
    match action {
        Action::LookUp(question) => {
            assert_eq!(question.name, name);
            question.resume(answer)
        }
        other => panic!("no question for a link: {other:?}"),
    }
}

fn change_of(action: Action) -> (Change, Pending) {
    match action {
        Action::Change(change, pending) => (change, pending),
        other => panic!("no change: {other:?}"),
    }
}

fn plain(context: Context) -> Pending {
    Pending { context, tolerates: Tolerates::Nothing }
}

fn link(index: u32, flags: u32, change_mask: u32, attributes: Vec<LinkAttribute>) -> LinkMessage {
    LinkMessage { index, flags, change_mask, attributes }
}

fn refused(code: i32) -> Ack {
    Ack::Refused(code, s("refused"))
}

fn done() -> Action {
    Action::Finish(Ok(Output::Done))
}

#[test]
fn bridge_is_created_up() {
    let (change, pending) = change_of(Net.link_add_bridge("br0"));
    let attributes = vec![
        LinkAttribute::IfName(s("br0")),
        LinkAttribute::LinkInfo(vec![LinkInfo::Kind(s("bridge"))]),
    ];
    assert_eq!(change, Change::AddLink(link(0, 1, 1, attributes)));
    assert_eq!(pending, plain(Context::LinkAddBridge));
}

#[test]
fn vlan_is_created_on_its_parent() {
    let action = found(Net.link_add_vlan("eth0", "eth0.7", 7), "eth0", Found::Index(3));
    let (change, pending) = change_of(action);
    let attributes = vec![
        LinkAttribute::IfName(s("eth0.7")),
        LinkAttribute::Link(3),
        LinkAttribute::LinkInfo(vec![
            LinkInfo::Kind(s("vlan")),
            LinkInfo::DataVlan(vec![InfoVlan::Id(7)]),
        ]),
    ];
    assert_eq!(change, Change::AddLink(link(0, 0, 0, attributes)));
    assert_eq!(pending, plain(Context::LinkAddVlan));
}

#[test]
fn link_is_deleted_by_its_index() {
    let (change, pending) = change_of(found(Net.link_del("tap0"), "tap0", Found::Index(9)));
    assert_eq!(change, Change::DelLink(9));
    assert_eq!(pending, plain(Context::LinkDel));
}

#[test]
fn deleting_a_missing_link_succeeds() {
    assert_eq!(found(Net.link_del("tap0"), "tap0", Found::Missing), done());
    assert_eq!(found(Net.link_del("tap0"), "tap0", Found::Failed(s("no such device"))), done());
}

#[test]
fn other_operations_on_a_missing_link_fail() {
    assert_eq!(
        found(Net.link_set_state("tap0", true), "tap0", Found::Missing),
        Action::Finish(Err(Error::DeviceNotFound(s("tap0"))))
    );
    assert_eq!(
        found(Net.neigh_list("tap0"), "tap0", Found::Failed(s("oops"))),
        Action::Finish(Err(Error::Failed(Context::GetLink(s("tap0")), s("oops"))))
    );
}

#[test]
fn state_changes_one_flag() {
    let up = change_of(found(Net.link_set_state("eth0", true), "eth0", Found::Index(2)));
    assert_eq!(up.0, Change::SetLink(link(2, 1, 1, vec![])));
    assert_eq!(up.1, plain(Context::LinkSetState));
    let down = change_of(found(Net.link_set_state("eth0", false), "eth0", Found::Index(2)));
    assert_eq!(down.0, Change::SetLink(link(2, 0, 1, vec![])));
}

#[test]
fn master_is_looked_up_second() {
    let next = found(Net.link_set_master("tap0", Some("br0")), "tap0", Found::Index(5));
    let (change, pending) = change_of(found(next, "br0", Found::Index(8)));
    assert_eq!(change, Change::SetLink(link(5, 0, 0, vec![LinkAttribute::Controller(8)])));
    assert_eq!(pending, plain(Context::LinkSetMaster));
}

#[test]
fn missing_master_is_an_error() {
    let next = found(Net.link_set_master("tap0", Some("br0")), "tap0", Found::Index(5));
    assert_eq!(
        found(next, "br0", Found::Missing),
        Action::Finish(Err(Error::DeviceNotFound(s("br0"))))
    );
}

#[test]
fn no_master_is_index_zero() {
    let (change, _) = change_of(found(Net.link_set_master("tap0", None), "tap0", Found::Index(5)));
    assert_eq!(change, Change::SetLink(link(5, 0, 0, vec![LinkAttribute::Controller(0)])));
}

#[test]
fn mac_is_set() {
    let action = Net.link_set_mac("tap0", "02:00:00:00:00:0a");
    let (change, pending) = change_of(found(action, "tap0", Found::Index(5)));
    let attributes = vec![LinkAttribute::Address(vec![2, 0, 0, 0, 0, 10])];
    assert_eq!(change, Change::SetLink(link(5, 0, 0, attributes)));
    assert_eq!(pending, plain(Context::LinkSetMac));
}

#[test]
fn missing_link_is_reported_before_a_bad_mac() {
    assert_eq!(
        found(Net.link_set_mac("tap0", "x"), "tap0", Found::Missing),
        Action::Finish(Err(Error::DeviceNotFound(s("tap0"))))
    );
    assert_eq!(
        found(Net.link_set_mac("tap0", "x"), "tap0", Found::Index(5)),
        Action::Finish(Err(Error::BadMac(s("x"), IntError::InvalidDigit)))
    );
    assert_eq!(
        found(Net.fdb_add("00:11", "tap0"), "tap0", Found::Index(5)),
        Action::Finish(Err(Error::MacLength(s("00:11"))))
    );
}

#[test]
fn stp_is_switched() {
    for (on, stp) in [(true, BridgeStpState::KernelStp), (false, BridgeStpState::Disabled)] {
        let (change, pending) = change_of(found(Net.link_set_stp("br0", on), "br0", Found::Index(4)));
        let attributes = vec![LinkAttribute::LinkInfo(vec![
            LinkInfo::Kind(s("bridge")),
            LinkInfo::DataBridge(vec![InfoBridge::StpState(stp)]),
        ])];
        assert_eq!(change, Change::SetLink(link(4, 0, 0, attributes)));
        assert_eq!(pending, plain(Context::LinkSetStp));
    }
}

#[test]
fn port_flags_are_switched() {
    let cases = [
        (Net.link_set_isolated("tap0", true), InfoBridgePort::Isolated(true)),
        (Net.link_set_isolated("tap0", false), InfoBridgePort::Isolated(false)),
        (Net.link_set_locked("tap0", true), InfoBridgePort::Locked(true)),
        (Net.set_port_flag("tap0", InfoBridgePort::Locked(false)), InfoBridgePort::Locked(false)),
    ];
    for (action, flag) in cases {
        let (change, pending) = change_of(found(action, "tap0", Found::Index(6)));
        let attributes = vec![LinkAttribute::LinkInfo(vec![
            LinkInfo::PortKindBridge,
            LinkInfo::PortDataBridge(vec![flag]),
        ])];
        assert_eq!(change, Change::SetLink(link(6, 0, 0, attributes)));
        assert_eq!(pending, plain(Context::SetPortFlag));
    }
}

#[test]
fn address_is_added_with_its_broadcast() {
    let cases = [
        (HOST, 24, Some(0xc0a8_01ff)),
        (HOST, 30, Some(0xc0a8_0117)),
        (HOST, 0, Some(0xffff_ffff)),
        (HOST, 31, None),
        (HOST, 32, None),
        (IpAddress::V6([1, 0, 0, 0, 0, 0, 0, 2]), 24, None),
    ];
    for (ip, prefix_len, broadcast) in cases {
        let action = found(Net.addr_add("br0", ip, prefix_len), "br0", Found::Index(4));
        let (change, pending) = change_of(action);
        assert_eq!(change, Change::AddAddress(AddressRequest { index: 4, ip, prefix_len, broadcast }));
        assert_eq!(pending, plain(Context::AddrAdd));
    }
}

#[test]
fn removed_address_is_named_as_it_was_added() {
    let (change, pending) = change_of(found(Net.addr_del("br0", HOST, 24), "br0", Found::Index(4)));
    let request = AddressRequest { index: 4, ip: HOST, prefix_len: 24, broadcast: None };
    assert_eq!(change, Change::DelAddress(request));
    let tolerates = Tolerates::MissingAddress;
    assert_eq!(pending, Pending { context: Context::AddrDel, tolerates });
}

#[test]
fn route_is_on_the_link() {
    let action = found(Net.route_add("br0", HOST, 24, 1000), "br0", Found::Index(4));
    let (change, pending) = change_of(action);
    let request = RouteRequest {
        index: 4,
        dst: HOST,
        prefix_len: 24,
        table: 1000,
        scope: 253,
        protocol: 3,
    };
    assert_eq!(change, Change::AddRoute(request));
    assert_eq!(pending, Pending { context: Context::RouteAdd, tolerates: Tolerates::Existing });
}

#[test]
fn removed_rule_is_named_as_it_was_added() {
    for v6 in [false, true] {
        let request = || RuleRequest { v6, iif: s("wlan0"), table: 99, action: RuleAction::ToTable };
        let (added, pending) = change_of(Net.rule_add(v6, "wlan0", 99));
        assert_eq!(added, Change::AddRule(request()));
        assert_eq!(pending, Pending { context: Context::RuleAdd, tolerates: Tolerates::Existing });
        let (removed, pending) = change_of(Net.rule_del(v6, "wlan0", 99));
        assert_eq!(removed, Change::DelRule(request()));
        assert_eq!(pending, Pending { context: Context::RuleDel, tolerates: Tolerates::MissingRule });
    }
}

#[test]
fn forwarding_entry_is_static_and_the_masters() {
    let action = Net.fdb_add("02:00:00:00:00:01", "tap0");
    let (change, pending) = change_of(found(action, "tap0", Found::Index(5)));
    let request = FdbRequest {
        index: 5,
        lladdr: vec![2, 0, 0, 0, 0, 1],
        state: NeighbourState::Noarp,
        flags: 4,
    };
    assert_eq!(change, Change::AddFdb(request));
    assert_eq!(pending, Pending { context: Context::FdbAdd, tolerates: Tolerates::Existing });
}

#[test]
fn what_is_there_already_is_no_failure() {
    let pending = || Pending { context: Context::RouteAdd, tolerates: Tolerates::Existing };
    assert_eq!(pending().resume(Ack::Done), done());
    assert_eq!(pending().resume(refused(-libc::EEXIST)), done());
    for code in [-libc::ENOENT, -libc::ESRCH, -libc::EPERM, libc::EEXIST] {
        let error = Error::Failed(Context::RouteAdd, s("refused"));
        assert_eq!(pending().resume(refused(code)), Action::Finish(Err(error)));
    }
}

#[test]
fn what_is_gone_already_is_no_failure() {
    let address = || Pending { context: Context::AddrDel, tolerates: Tolerates::MissingAddress };
    assert_eq!(address().resume(refused(-libc::EADDRNOTAVAIL)), done());
    assert_eq!(address().resume(refused(-libc::ENOENT)), done());
    let error = Error::Failed(Context::AddrDel, s("refused"));
    assert_eq!(address().resume(refused(-libc::ESRCH)), Action::Finish(Err(error)));
    let rule = || Pending { context: Context::RuleDel, tolerates: Tolerates::MissingRule };
    assert_eq!(rule().resume(refused(-libc::ENOENT)), done());
    assert_eq!(rule().resume(refused(-libc::ESRCH)), done());
    let error = Error::Failed(Context::RuleDel, s("refused"));
    assert_eq!(rule().resume(refused(-libc::EADDRNOTAVAIL)), Action::Finish(Err(error)));
}

#[test]
fn plain_changes_tolerate_no_refusal() {
    for code in [-libc::EEXIST, -libc::ENOENT, -libc::ESRCH, -libc::EADDRNOTAVAIL] {
        let error = Error::Failed(Context::LinkAddBridge, s("refused"));
        assert_eq!(
            plain(Context::LinkAddBridge).resume(refused(code)),
            Action::Finish(Err(error))
        );
    }
}

#[test]
fn failed_requests_are_never_tolerated() {
    let pending = Pending { context: Context::FdbAdd, tolerates: Tolerates::Existing };
    assert_eq!(
        pending.resume(Ack::Failed(s("closed"))),
        Action::Finish(Err(Error::Failed(Context::FdbAdd, s("closed"))))
    );
}

#[test]
fn machine_decides_the_number_of_an_address_that_is_not_there() {
    let settle = |n: i32| settle_with(Context::AddrDel, Tolerates::MissingAddress, refused(-126), n);
    assert_eq!(settle(126), Ok(()));
    assert_eq!(settle(99), Err(Error::Failed(Context::AddrDel, s("refused"))));
    let pending = Pending { context: Context::AddrDel, tolerates: Tolerates::MissingAddress };
    assert_eq!(pending.resume_with(refused(-49), 49), done());
}

#[test]
fn repeated_operations_succeed() {
    let again = |action: Action, code: i32| {
        let action = match action {
            Action::LookUp(question) => question.resume(Found::Index(4)),
            other => other,
        };
        let (_, pending) = change_of(action);
        assert_eq!(pending.resume(refused(code)), done());
    };
    again(Net.rule_add(false, "wlan0", 99), -libc::EEXIST);
    again(Net.rule_del(false, "wlan0", 99), -libc::ENOENT);
    again(Net.rule_del(true, "wlan0", 99), -libc::ESRCH);
    again(Net.addr_del("br0", HOST, 24), -libc::EADDRNOTAVAIL);
    again(Net.route_add("br0", HOST, 24, 5), -libc::EEXIST);
    again(Net.fdb_add("02:00:00:00:00:01", "tap0"), -libc::EEXIST);
}

#[test]
fn constants_are_those_of_the_netlink_crates() {
    assert_eq!(RT_SCOPE_LINK, u8::from(RouteScope::Link));
    assert_eq!(RTPROT_BOOT, u8::from(RouteProtocol::Boot));
    assert_eq!(NTF_MASTER, NeighbourFlags::Controller.bits());
    assert_eq!(IFA_F_NOPREFIXROUTE, AddressFlags::Noprefixroute.bits());
    assert_eq!(FIB_RULE_DETACHED, (RuleFlags::IifDetached | RuleFlags::OifDetached).bits());
    assert_eq!(IFF_UP, LinkFlags::Up.bits());
}

#[test]
fn tap_and_monitor_are_carried_out_apart() {
    assert_eq!(run(Cmd::LinkAddTap { name: s("tap0") }), Launch::Tap(s("tap0")));
    assert_eq!(
        run(Cmd::MonitorAddr { iface: vec![s("wlan")], exclude_metric: Some(7) }),
        Launch::Monitor(vec![s("wlan")], Some(7))
    );
    assert_eq!(
        run(Cmd::LinkDel { name: s("br0") }),
        Launch::Oneshot(Cmd::LinkDel { name: s("br0") })
    );
}

#[test]
fn commands_start_their_operations() {
    let starts = |cmd: Cmd, action: Action| assert_eq!(run_oneshot(&Net, cmd), action);
    starts(Cmd::LinkAddBridge { name: s("b") }, Net.link_add_bridge("b"));
    starts(
        Cmd::LinkAddVlan { link: s("p"), name: s("n"), id: 4094 },
        Net.link_add_vlan("p", "n", 4094),
    );
    starts(Cmd::LinkDel { name: s("n") }, Net.link_del("n"));
    for (state, up) in [("up", true), ("down", false), ("UP", false)] {
        starts(Cmd::LinkSetState { name: s("n"), state: s(state) }, Net.link_set_state("n", up));
    }
    starts(
        Cmd::LinkSetMaster { iface: s("n"), master: s("b") },
        Net.link_set_master("n", Some("b")),
    );
    starts(Cmd::LinkSetNomaster { iface: s("n") }, Net.link_set_master("n", None));
    starts(Cmd::LinkSetMac { dev: s("n"), mac: s("m") }, Net.link_set_mac("n", "m"));
    starts(Cmd::LinkSetStp { bridge: s("b"), on: true }, Net.link_set_stp("b", true));
    starts(Cmd::LinkSetIsolated { dev: s("n"), on: true }, Net.link_set_isolated("n", true));
    starts(Cmd::LinkSetLocked { dev: s("n"), on: false }, Net.link_set_locked("n", false));
    starts(
        Cmd::AddrAdd { dev: s("n"), cidr: s("192.168.1.20/24") },
        Net.addr_add("n", HOST, 24),
    );
    starts(
        Cmd::AddrDel { dev: s("n"), cidr: s("192.168.1.20/24") },
        Net.addr_del("n", HOST, 24),
    );
    starts(
        Cmd::AddrList { dev: Some(s("n")), metric: Some(1) },
        Net.addr_list(Some("n"), Some(1)),
    );
    for v6 in [false, true] {
        starts(
            Cmd::RouteAdd { dev: s("n"), dst: s("192.168.1.20/24"), table: 5, v6 },
            Net.route_add("n", HOST, 24, 5),
        );
        starts(Cmd::RuleAdd { iif: s("n"), table: 5, v6 }, Net.rule_add(v6, "n", 5));
        starts(Cmd::RuleDel { iif: s("n"), table: 5, v6 }, Net.rule_del(v6, "n", 5));
        starts(Cmd::RuleList { v6 }, Net.rule_list(v6));
    }
    starts(Cmd::FdbAdd { mac: s("m"), dev: s("n") }, Net.fdb_add("m", "n"));
    starts(Cmd::LinkList { master: None, type_bridge: true }, Net.link_list(None, true));
    starts(Cmd::NeighList { dev: s("n") }, Net.neigh_list("n"));
    starts(
        Cmd::HostIps { iface: vec![s("wlan")], exclude_metric: None },
        Net.host_ipv4(&vec![s("wlan")], None),
    );
}

#[test]
fn bad_addresses_end_a_command_before_anything_is_asked() {
    let error = || Action::Finish(Err(Error::NotCidr(s("nowhere"))));
    let add = Cmd::AddrAdd { dev: s("n"), cidr: s("nowhere") };
    assert_eq!(run_oneshot(&Net, add), error());
    let del = Cmd::AddrDel { dev: s("n"), cidr: s("nowhere") };
    assert_eq!(run_oneshot(&Net, del), error());
    let route = Cmd::RouteAdd { dev: s("n"), dst: s("nowhere"), table: 1, v6: false };
    assert_eq!(run_oneshot(&Net, route), error());
}
