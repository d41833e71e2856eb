//! The queries: the rows that are reported, and the host's own addresses.

use netbox::error::{Context, Error};
use netbox::ip::IpAddress;
use netbox::links::{kind_to_string, link_bridges, link_name, link_names, link_rows};
use netbox::message::{
    AddressAttribute, AddressFamily, AddressMessage, AddressScope, LinkAttribute, LinkInfo,
    LinkMessage, NeighbourAttribute, NeighbourMessage, NeighbourState, RuleAction, RuleAttribute,
    RuleMessage, State,
};
use netbox::net::Net;
use netbox::order::{insert_in_order, text_less};
use netbox::rows::{neigh_states, oper_to_string, scope_to_string, AddrRow, LinkRow, NeighRow, RuleRow};
use netbox::step::{resume_rules, Action, Found, Output};

fn s(text: &str) -> String {
    text.to_string()
}

fn link(index: u32, attributes: Vec<LinkAttribute>) -> LinkMessage {
    LinkMessage { index, flags: 0, change_mask: 0, attributes }
}

fn named(index: u32, name: &str) -> LinkMessage {
    link(index, vec![LinkAttribute::IfName(s(name))])
}

fn kind(name: &str) -> LinkAttribute {
    LinkAttribute::LinkInfo(vec![LinkInfo::Other, LinkInfo::Kind(s(name))])
}

/// wlan0, br0 (a bridge), tap0 (under br0) and a link of no name.
fn links() -> Vec<LinkMessage> {
    vec![
        link(
            2,
            vec![
                LinkAttribute::Other,
                LinkAttribute::IfName(s("wlan0")),
                LinkAttribute::IfName(s("later")),
                LinkAttribute::Address(vec![2, 0, 0, 0, 0, 0xff]),
                LinkAttribute::OperState(State::Up),
                LinkAttribute::Mtu(1500),
            ],
        ),
        link(
            3,
            vec![
                LinkAttribute::IfName(s("br0")),
                kind("bridge"),
                LinkAttribute::OperState(State::LowerLayerDown),
            ],
        ),
        link(
            4,
            vec![
                LinkAttribute::IfName(s("tap0")),
                LinkAttribute::Controller(3),
                LinkAttribute::Mtu(1400),
                LinkAttribute::Mtu(1300),
                kind("tun"),
            ],
        ),
        link(5, vec![]),
    ]
}

fn link_row(ifname: &str, address: &str, operstate: &str, master: &str, mtu: u32, kind: &str) -> LinkRow {
    LinkRow {
        ifname: s(ifname),
        address: s(address),
        operstate: s(operstate),
        master: s(master),
        mtu,
        kind: s(kind),
    }
}

fn dump_links(action: Action, answer: Result<Vec<LinkMessage>, String>) -> Action {
    match action {
        Action::DumpLinks(next) => next.resume(answer),
        other => panic!("no list of links: {other:?}"),
    }
}

fn look_up(action: Action, name: &str, index: u32) -> Action {
    match action {
        Action::LookUp(question) => {
            assert_eq!(question.name, name);
            question.resume(Found::Index(index))
        }
        other => panic!("no question for a link: {other:?}"),
    }
}

fn dump_addresses(action: Action, index: Option<u32>, answer: Result<Vec<AddressMessage>, String>) -> Action {
    match action {
        Action::DumpAddresses(filter, next) => {
            assert_eq!(filter, index);
            next.resume(answer)
        }
        other => panic!("no list of addresses: {other:?}"),
    }
}

fn address(family: AddressFamily, index: u32, scope: AddressScope, attributes: Vec<AddressAttribute>) -> AddressMessage {
    AddressMessage { family, index, prefix_len: 24, scope, attributes }
}

fn global(index: u32, ip: u32, metric: u32) -> AddressMessage {
    let attributes = vec![
        AddressAttribute::Local(IpAddress::V4(ip)),
        AddressAttribute::RoutePriority(metric),
    ];
    address(AddressFamily::Inet, index, AddressScope::Universe, attributes)
}

fn addr_rows(addresses: Vec<AddressMessage>, metric: Option<u32>) -> Vec<AddrRow> {
    let next = dump_links(Net.addr_list(None, metric), Ok(links()));
    match dump_addresses(next, None, Ok(addresses)) {
        Action::Finish(Ok(Output::Addrs(rows))) => rows,
        other => panic!("no rows: {other:?}"),
    }
}

fn host_ips(addresses: Vec<AddressMessage>, prefixes: &[&str], exclude: Option<u32>) -> Vec<String> {
    let prefixes: Vec<String> = prefixes.iter().map(|p| s(p)).collect();
    let next = dump_links(Net.host_ipv4(&prefixes, exclude), Ok(links()));
    match dump_addresses(next, None, Ok(addresses)) {
        Action::Finish(Ok(Output::HostIps(ips))) => ips,
        other => panic!("no addresses: {other:?}"),
    }
}

#[test]
fn first_name_of_a_link_counts() {
    let all = links();
    assert_eq!(link_name(&all[0]), "wlan0");
    assert_eq!(link_name(&all[3]), "");
}

#[test]
fn names_are_found_by_index() {
    let names = link_names(&vec![named(1, "a"), named(2, "b"), named(1, "c")]);
    assert_eq!(names.get(1), "c");
    assert_eq!(names.get(2), "b");
    assert_eq!(names.get(3), "");
}

#[test]
fn bridges_are_found_by_index() {
    let infos = vec![LinkInfo::Kind(s("bridge")), LinkInfo::Kind(s("vlan"))];
    let mut all = links();
    all.push(link(6, vec![LinkAttribute::LinkInfo(infos)]));
    let bridges = link_bridges(&all);
    assert!(bridges.get(3) && bridges.get(6));
    assert!(!bridges.get(2) && !bridges.get(4) && !bridges.get(99));
}

#[test]
fn kinds_are_reported_by_their_variant() {
    assert_eq!(kind_to_string("bridge"), "bridge");
    assert_eq!(kind_to_string("vlan"), "vlan");
    assert_eq!(kind_to_string("tun"), "tun");
    assert_eq!(kind_to_string("veth"), "veth");
    assert_eq!(kind_to_string("Bridge"), "other(\"bridge\")");
    assert_eq!(kind_to_string("strange"), "other(\"strange\")");
}

#[test]
fn links_are_listed() {
    let next = dump_links(Net.link_list(None, false), Ok(links()));
    assert_eq!(
        dump_links(next, Ok(links())),
        Action::Finish(Ok(Output::Links(vec![
            link_row("wlan0", "02:00:00:00:00:ff", "UP", "", 1500, ""),
            link_row("br0", "", "LOWERLAYERDOWN", "", 0, "bridge"),
            link_row("tap0", "", "UNKNOWN", "br0", 1300, "tun"),
            link_row("", "", "UNKNOWN", "", 0, ""),
        ])))
    );
}

#[test]
fn bridges_are_listed() {
    let next = dump_links(Net.link_list(None, true), Ok(links()));
    let rows = vec![link_row("br0", "", "LOWERLAYERDOWN", "", 0, "bridge")];
    assert_eq!(dump_links(next, Ok(links())), Action::Finish(Ok(Output::Links(rows))));
}

#[test]
fn listed_bridges_are_the_links_reported_as_bridges() {
    let mut all = links();
    all.push(link(6, vec![LinkAttribute::IfName(s("odd")), kind("Bridge")]));
    all.push(link(7, vec![LinkAttribute::IfName(s("br1")), kind("vlan"), kind("bridge")]));
    all.push(link(8, vec![LinkAttribute::IfName(s("was")), kind("bridge"), kind("vlan")]));
    let names = link_names(&all);
    let mut kept = link_rows(&names, &all, None, false);
    kept.retain(|row| row.kind == "bridge");
    let bridges = link_rows(&names, &all, None, true);
    assert_eq!(bridges, kept);
    let found: Vec<&str> = bridges.iter().map(|row| row.ifname.as_str()).collect();
    assert_eq!(found, vec!["br0", "br1"]);
}

#[test]
fn links_under_a_master_are_listed() {
    let next = dump_links(Net.link_list(Some("br0"), false), Ok(links()));
    let next = look_up(next, "br0", 3);
    let rows = vec![link_row("tap0", "", "UNKNOWN", "br0", 1300, "tun")];
    assert_eq!(dump_links(next, Ok(links())), Action::Finish(Ok(Output::Links(rows))));
    let next = look_up(dump_links(Net.link_list(Some("br0"), true), Ok(links())), "br0", 3);
    assert_eq!(dump_links(next, Ok(links())), Action::Finish(Ok(Output::Links(vec![]))));
}

#[test]
fn master_of_no_known_name_is_nameless() {
    let next = dump_links(Net.link_list(None, false), Ok(vec![]));
    let port = link(4, vec![LinkAttribute::IfName(s("tap0")), LinkAttribute::Controller(3)]);
    let rows = vec![link_row("tap0", "", "UNKNOWN", "", 0, "")];
    assert_eq!(dump_links(next, Ok(vec![port])), Action::Finish(Ok(Output::Links(rows))));
}

#[test]
fn operational_states_have_names() {
    let cases = [
        (State::Up, "UP"),
        (State::Down, "DOWN"),
        (State::LowerLayerDown, "LOWERLAYERDOWN"),
        (State::Testing, "TESTING"),
        (State::Dormant, "DORMANT"),
        (State::NotPresent, "NOTPRESENT"),
        (State::Unknown, "UNKNOWN"),
        (State::Other(77), "UNKNOWN"),
    ];
    for (state, name) in cases {
        assert_eq!(oper_to_string(&state), name);
    }
}

#[test]
fn scopes_have_names() {
    let cases = [
        (AddressScope::Universe, "global"),
        (AddressScope::Link, "link"),
        (AddressScope::Host, "host"),
        (AddressScope::Site, "other"),
        (AddressScope::Nowhere, "other"),
        (AddressScope::Other(9), "other"),
    ];
    for (scope, name) in cases {
        assert_eq!(scope_to_string(&scope), name);
    }
}

#[test]
fn neighbour_states_have_one_name() {
    let cases = [
        (NeighbourState::Incomplete, "INCOMPLETE"),
        (NeighbourState::Reachable, "REACHABLE"),
        (NeighbourState::Stale, "STALE"),
        (NeighbourState::Delay, "DELAY"),
        (NeighbourState::Probe, "PROBE"),
        (NeighbourState::Failed, "FAILED"),
        (NeighbourState::Noarp, "NOARP"),
        (NeighbourState::Permanent, "PERMANENT"),
        (NeighbourState::NoState, "NONE"),
        (NeighbourState::Other(3), "NONE"),
    ];
    for (state, name) in cases {
        assert_eq!(neigh_states(&state), vec![s(name)]);
    }
}

#[test]
fn addresses_are_listed() {
    let v6 = IpAddress::V6([0xfe80, 0, 0, 0, 0, 0, 0, 1]);
    let rows = addr_rows(
        vec![
            global(2, 0x0a00_0001, 0),
            address(AddressFamily::Inet6, 99, AddressScope::Link, vec![AddressAttribute::Address(v6)]),
        ],
        None,
    );
    let expected = vec![
        AddrRow {
            ifname: s("wlan0"),
            family: 4,
            local: s("10.0.0.1"),
            prefixlen: 24,
            scope: s("global"),
            metric: 0,
            noprefixroute: false,
        },
        AddrRow {
            ifname: s(""),
            family: 6,
            local: s("fe80::1"),
            prefixlen: 24,
            scope: s("link"),
            metric: 0,
            noprefixroute: false,
        },
    ];
    assert_eq!(rows, expected);
}

#[test]
fn local_address_counts_before_the_other() {
    let local = |n: u32| AddressAttribute::Local(IpAddress::V4(n));
    let other = |n: u32| AddressAttribute::Address(IpAddress::V4(n));
    let cases = [
        (vec![other(1), local(2)], "0.0.0.2"),
        (vec![local(2), other(1)], "0.0.0.2"),
        (vec![local(2), local(3)], "0.0.0.3"),
        (vec![other(1), other(4)], "0.0.0.1"),
    ];
    for (attributes, text) in cases {
        let rows = addr_rows(vec![address(AddressFamily::Inet, 2, AddressScope::Host, attributes)], None);
        assert_eq!(rows[0].local, text);
    }
}

#[test]
fn addresses_without_a_local_or_of_another_family_are_left_out() {
    let unknown = vec![AddressAttribute::Local(IpAddress::V4(1))];
    let rows = addr_rows(
        vec![
            address(AddressFamily::Inet, 2, AddressScope::Universe, vec![AddressAttribute::Other]),
            address(AddressFamily::Other, 2, AddressScope::Universe, unknown),
        ],
        None,
    );
    assert_eq!(rows, vec![]);
}

#[test]
fn addresses_are_filtered_by_metric() {
    let all = || vec![global(2, 1, 7), global(2, 2, 0), global(2, 3, 7), global(2, 4, 8)];
    let filtered = addr_rows(all(), Some(7));
    let texts: Vec<&str> = filtered.iter().map(|r| r.local.as_str()).collect();
    assert_eq!(texts, vec!["0.0.0.1", "0.0.0.3"]);
    let kept: Vec<AddrRow> = addr_rows(all(), None).into_iter().filter(|r| r.metric == 7).collect();
    assert_eq!(filtered, kept);
    assert_eq!(addr_rows(all(), Some(0)).len(), 1);
}

#[test]
fn route_flag_of_an_address_is_reported() {
    for (bits, expected) in [(0x200, true), (0x280, true), (0x80, false), (0, false), (0xffff_fdff, false)] {
        let attributes = vec![
            AddressAttribute::Local(IpAddress::V4(1)),
            AddressAttribute::Flags(bits),
        ];
        let rows = addr_rows(vec![address(AddressFamily::Inet, 2, AddressScope::Universe, attributes)], None);
        assert_eq!(rows[0].noprefixroute, expected, "{bits:x}");
    }
}

#[test]
fn addresses_of_a_device_are_asked_for_by_index() {
    let next = dump_links(Net.addr_list(Some("wlan0"), None), Ok(links()));
    let next = look_up(next, "wlan0", 2);
    match dump_addresses(next, Some(2), Ok(vec![global(2, 0x0a00_0001, 5)])) {
        Action::Finish(Ok(Output::Addrs(rows))) => {
            assert_eq!(rows.len(), 1);
            assert_eq!(rows[0].ifname, "wlan0");
            assert_eq!(rows[0].metric, 5);
        }
        other => panic!("no rows: {other:?}"),
    }
}

#[test]
fn host_addresses_are_sorted_as_texts_and_each_once() {
    let ips = host_ips(
        vec![
            global(2, 0x0a00_0009, 0),
            global(2, 0x0a00_000a, 0),
            global(2, 0x0a00_0009, 1),
            global(2, 0x0900_0001, 0),
        ],
        &["wlan"],
        None,
    );
    assert_eq!(ips, vec!["10.0.0.10", "10.0.0.9", "9.0.0.1"]);
}

#[test]
fn host_addresses_do_not_depend_on_the_order_of_the_list() {
    let a = host_ips(vec![global(2, 1, 0), global(2, 2, 0)], &["wlan"], None);
    let b = host_ips(vec![global(2, 2, 0), global(2, 1, 0), global(2, 2, 0)], &["wlan"], None);
    assert_eq!(a, b);
}

#[test]
fn host_addresses_are_global_ipv4_on_wanted_links() {
    let local = || vec![AddressAttribute::Local(IpAddress::V4(1))];
    let v6 = vec![AddressAttribute::Local(IpAddress::V6([0, 0, 0, 0, 0, 0, 0, 1]))];
    let addresses = || {
        vec![
            global(3, 0x0a00_0003, 0),
            global(4, 0x0a00_0004, 0),
            global(99, 0x0a00_0063, 0),
            address(AddressFamily::Inet, 2, AddressScope::Link, local()),
            address(AddressFamily::Inet, 2, AddressScope::Host, local()),
            address(AddressFamily::Inet6, 2, AddressScope::Universe, local()),
            address(AddressFamily::Inet, 2, AddressScope::Universe, vec![]),
        ]
    };
    assert_eq!(host_ips(addresses(), &["wlan", "br"], None), Vec::<String>::new());
    assert_eq!(host_ips(addresses(), &["wlan", "ta"], None), vec!["10.0.0.4"]);
    assert_eq!(host_ips(addresses(), &[], None), Vec::<String>::new());
    assert_eq!(host_ips(addresses(), &[""], None), vec!["10.0.0.4", "10.0.0.99"]);
    let odd = vec![address(AddressFamily::Inet, 2, AddressScope::Universe, v6)];
    assert_eq!(host_ips(odd, &["wlan"], None), Vec::<String>::new());
}

#[test]
fn excluded_metric_drops_host_addresses() {
    let addresses = || vec![global(2, 1, 7), global(2, 2, 0)];
    assert_eq!(host_ips(addresses(), &["wlan"], Some(7)), vec!["0.0.0.2"]);
    assert_eq!(host_ips(addresses(), &["wlan"], Some(0)), vec!["0.0.0.1"]);
    assert_eq!(host_ips(addresses(), &["wlan"], None), vec!["0.0.0.1", "0.0.0.2"]);
}

#[test]
fn prefixes_together_give_what_each_gives() {
    let addresses = || vec![global(2, 3, 0), global(4, 2, 0), global(2, 1, 0), global(4, 3, 0)];
    assert_eq!(host_ips(addresses(), &["wlan"], None), vec!["0.0.0.1", "0.0.0.3"]);
    assert_eq!(host_ips(addresses(), &["tap"], None), vec!["0.0.0.2", "0.0.0.3"]);
    assert_eq!(
        host_ips(addresses(), &["wlan", "tap"], None),
        vec!["0.0.0.1", "0.0.0.2", "0.0.0.3"]
    );
    assert_eq!(host_ips(addresses(), &[], None), Vec::<String>::new());
}

#[test]
fn address_that_also_comes_without_the_excluded_metric_stays() {
    let addresses = vec![global(2, 1, 7), global(2, 1, 0), global(2, 2, 7)];
    assert_eq!(host_ips(addresses, &["wlan"], Some(7)), vec!["0.0.0.1"]);
}

#[test]
fn items_are_put_in_order_once() {
    let mut list: Vec<String> = Vec::new();
    for item in ["b", "a", "ab", "b", "", "a"] {
        insert_in_order(&mut list, s(item));
    }
    assert_eq!(list, vec!["", "a", "ab", "b"]);
    assert!(text_less("10", "9") && text_less("", "a") && !text_less("a", "a") && !text_less("b", "a"));
    assert!(text_less("z", "\u{e9}") && text_less("\u{ffff}", "\u{10000}"));
}

#[test]
fn neighbours_of_both_families_are_listed() {
    let neighbour = |ifindex: u32, state: NeighbourState, attributes: Vec<NeighbourAttribute>| {
        NeighbourMessage { ifindex, state, attributes }
    };
    let dst = |n: u32| NeighbourAttribute::Destination(IpAddress::V4(n));
    let v6 = NeighbourAttribute::Destination(IpAddress::V6([0xfe80, 0, 0, 0, 0, 0, 0, 2]));
    let first = match look_up(Net.neigh_list("br0"), "br0", 3) {
        Action::DumpNeighbours(dump) => dump,
        other => panic!("no list of neighbours: {other:?}"),
    };
    assert!(!first.v6);
    let second = first.resume(Ok(vec![
        neighbour(3, NeighbourState::Reachable, vec![
            dst(1),
            NeighbourAttribute::LinkLayerAddress(vec![0xaa, 0xbb]),
            dst(2),
        ]),
        neighbour(4, NeighbourState::Stale, vec![dst(3)]),
        neighbour(3, NeighbourState::Stale, vec![NeighbourAttribute::Other]),
    ]));
    let second = match second {
        Action::DumpNeighbours(dump) => dump,
        other => panic!("no list of neighbours: {other:?}"),
    };
    assert!(second.v6);
    let row = |dst: &str, lladdr: &str, state: &str| NeighRow {
        dst: s(dst),
        lladdr: s(lladdr),
        dev: s("br0"),
        state: vec![s(state)],
    };
    assert_eq!(
        second.resume(Ok(vec![neighbour(3, NeighbourState::Permanent, vec![v6])])),
        Action::Finish(Ok(Output::Neighs(vec![
            row("0.0.0.2", "aa:bb", "REACHABLE"),
            row("fe80::2", "", "PERMANENT"),
        ])))
    );
}

#[test]
fn rules_are_listed() {
    assert_eq!(Net.rule_list(true), Action::DumpRules(true));
    let rules = vec![
        RuleMessage { table: 254, action: RuleAction::ToTable, flags: 0, attributes: vec![] },
        RuleMessage {
            table: 0,
            action: RuleAction::Blackhole,
            flags: 0x8,
            attributes: vec![
                RuleAttribute::Priority(100),
                RuleAttribute::Iifname(s("wlan0")),
                RuleAttribute::Table(1000),
                RuleAttribute::FwMark(1),
                RuleAttribute::FwMask(0xff),
                RuleAttribute::Other,
                RuleAttribute::Priority(200),
            ],
        },
    ];
    let expected = vec![
        RuleRow {
            priority: 0,
            iif: None,
            table: 254,
            fwmark: None,
            fwmask: None,
            detached: false,
            lookup: true,
        },
        RuleRow {
            priority: 200,
            iif: Some(s("wlan0")),
            table: 1000,
            fwmark: Some(1),
            fwmask: Some(0xff),
            detached: true,
            lookup: false,
        },
    ];
    assert_eq!(resume_rules(Ok(rules)), Action::Finish(Ok(Output::Rules(expected))));
}

#[test]
fn rules_of_missing_devices_are_detached() {
    for (flags, detached) in [(0, false), (0x8, true), (0x10, true), (0x18, true), (0xffff_ffe7, false)] {
        let rule = RuleMessage { table: 0, action: RuleAction::ToTable, flags, attributes: vec![] };
        match resume_rules(Ok(vec![rule])) {
            Action::Finish(Ok(Output::Rules(rows))) => assert_eq!(rows[0].detached, detached, "{flags:x}"),
            other => panic!("no rows: {other:?}"),
        }
    }
}

#[test]
fn lists_that_fail_end_a_query() {
    let failed = |context: Context| Action::Finish(Err(Error::Failed(context, s("closed"))));
    for action in [Net.addr_list(None, None), Net.link_list(None, false), Net.host_ipv4(&vec![], None)] {
        assert_eq!(dump_links(action, Err(s("closed"))), failed(Context::LinkDump));
    }
    let next = dump_links(Net.addr_list(None, None), Ok(vec![]));
    assert_eq!(dump_addresses(next, None, Err(s("closed"))), failed(Context::AddrDump));
    let next = dump_links(Net.link_list(None, false), Ok(vec![]));
    assert_eq!(dump_links(next, Err(s("closed"))), failed(Context::LinkDump));
    match look_up(Net.neigh_list("br0"), "br0", 3) {
        Action::DumpNeighbours(dump) => {
            assert_eq!(dump.resume(Err(s("closed"))), failed(Context::NeighDump));
        }
        other => panic!("no list of neighbours: {other:?}"),
    }
    assert_eq!(resume_rules(Err(s("closed"))), failed(Context::RuleDump));
}
