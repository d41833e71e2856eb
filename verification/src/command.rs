//! The commands, and what each of them starts.

use vstd::prelude::*;

use crate::args::{cidr_of, parse_cidr};
use crate::change::ChangeView;
use crate::course::{reports, Report};
use crate::error::ContextView;
use crate::message::InfoBridgePort;
use crate::net::{
    bridge_link, host_ips_asked, look_up, optional_str, rule_added, rule_removed, Net,
};
use crate::step::{
    optional_text, plain_change, Action, ActionView, AfterLinksView, AfterLookUpView,
};
use crate::text::{same_text, strings};

verus! {

/// A command with its arguments.
#[derive(Debug, PartialEq, Eq)]
pub enum Cmd {
    /// Create a bridge device.
    LinkAddBridge { name: String },
    /// Create an 802.1q VLAN subinterface on a parent device.
    LinkAddVlan { link: String, name: String, id: u16 },
    /// Create a persistent TAP.
    LinkAddTap { name: String },
    /// Delete a link by name.
    LinkDel { name: String },
    /// Bring a link up or down.
    LinkSetState { name: String, state: String },
    /// Enslave a link into a bridge.
    LinkSetMaster { iface: String, master: String },
    /// Detach a link from its bridge.
    LinkSetNomaster { iface: String },
    /// Set a link's MAC address.
    LinkSetMac { dev: String, mac: String },
    /// Toggle STP on a bridge.
    LinkSetStp { bridge: String, on: bool },
    /// Toggle bridge-port isolation.
    LinkSetIsolated { dev: String, on: bool },
    /// Toggle bridge-port MAC locking.
    LinkSetLocked { dev: String, on: bool },
    /// Add an address to a device.
    AddrAdd { dev: String, cidr: String },
    /// Remove an address from a device.
    AddrDel { dev: String, cidr: String },
    /// List addresses.
    AddrList { dev: Option<String>, metric: Option<u32> },
    /// Add an onlink subnet route in a table. The address tells the family; the flag does not.
    RouteAdd { dev: String, dst: String, table: u32, v6: bool },
    /// Add a rule.
    RuleAdd { iif: String, table: u32, v6: bool },
    /// Remove a rule.
    RuleDel { iif: String, table: u32, v6: bool },
    /// Add a static fdb entry on a bridge master.
    FdbAdd { mac: String, dev: String },
    /// List links.
    LinkList { master: Option<String>, type_bridge: bool },
    /// List a device's neighbours.
    NeighList { dev: String },
    /// List policy routing rules.
    RuleList { v6: bool },
    /// Print the host's own reachable IPv4 addresses once.
    HostIps { iface: Vec<String>, exclude_metric: Option<u32> },
    /// Print the host's own reachable IPv4 addresses whenever they change.
    MonitorAddr { iface: Vec<String>, exclude_metric: Option<u32> },
}

/// How a command is carried out.
#[derive(Debug, PartialEq, Eq)]
pub enum Launch {
    /// Create a TAP, which needs no netlink connection.
    Tap(String),
    /// Watch the host's addresses, on a connection of its own.
    Monitor(Vec<String>, Option<u32>),
    /// One operation on a fresh connection.
    Oneshot(Cmd),
}

/// How a command is carried out.
pub open spec fn launch_of(cmd: Cmd) -> Launch {
    match cmd {
        Cmd::LinkAddTap { name } => Launch::Tap(name),
        Cmd::MonitorAddr { iface, exclude_metric } => Launch::Monitor(iface, exclude_metric),
        _ => Launch::Oneshot(cmd),
    }
}

/// Whether a command is one operation on a fresh connection.
pub open spec fn is_oneshot(cmd: Cmd) -> bool {
    !(cmd is LinkAddTap) && !(cmd is MonitorAddr)
}

/// How a command is carried out.
pub fn run(cmd: Cmd) -> (launch: Launch)
    ensures
        launch == launch_of(cmd),
        launch matches Launch::Oneshot(c) ==> is_oneshot(c),
{
    match cmd {
        Cmd::LinkAddTap { name } => Launch::Tap(name),
        Cmd::MonitorAddr { iface, exclude_metric } => Launch::Monitor(iface, exclude_metric),
        other => Launch::Oneshot(other),
    }
}

/// The first thing to ask of the kernel for a command. An address that cannot be read ends the
/// command before anything is asked.
pub open spec fn first_action(cmd: Cmd) -> ActionView {
    match cmd {
        Cmd::LinkAddBridge { name } => plain_change(
            ChangeView::AddLink(bridge_link(name@)),
            ContextView::LinkAddBridge,
        ),
        Cmd::LinkAddVlan { link, name, id } => look_up(
            link@,
            AfterLookUpView::AddVlan { name: name@, vid: id },
        ),
        Cmd::LinkDel { name } => look_up(name@, AfterLookUpView::Del),
        Cmd::LinkSetState { name, state } => look_up(
            name@,
            AfterLookUpView::SetState { up: state@ == "up"@ },
        ),
        Cmd::LinkSetMaster { iface, master } => look_up(
            iface@,
            AfterLookUpView::SetMaster { master: Some(master@) },
        ),
        Cmd::LinkSetNomaster { iface } => look_up(
            iface@,
            AfterLookUpView::SetMaster { master: None },
        ),
        Cmd::LinkSetMac { dev, mac } => look_up(dev@, AfterLookUpView::SetMac { mac: mac@ }),
        Cmd::LinkSetStp { bridge, on } => look_up(bridge@, AfterLookUpView::SetStp { on }),
        Cmd::LinkSetIsolated { dev, on } => look_up(
            dev@,
            AfterLookUpView::SetPort { flag: InfoBridgePort::Isolated(on) },
        ),
        Cmd::LinkSetLocked { dev, on } => look_up(
            dev@,
            AfterLookUpView::SetPort { flag: InfoBridgePort::Locked(on) },
        ),
        Cmd::AddrAdd { dev, cidr } => match cidr_of(cidr@) {
            Ok((ip, prefix_len)) => look_up(dev@, AfterLookUpView::AddrAdd { ip, prefix_len }),
            Err(e) => ActionView::Finish(Err(e)),
        },
        Cmd::AddrDel { dev, cidr } => match cidr_of(cidr@) {
            Ok((ip, prefix_len)) => look_up(dev@, AfterLookUpView::AddrDel { ip, prefix_len }),
            Err(e) => ActionView::Finish(Err(e)),
        },
        Cmd::AddrList { dev, metric } => ActionView::DumpLinks {
            next: AfterLinksView::AddrList { dev: optional_text(dev), metric },
        },
        Cmd::RouteAdd { dev, dst, table, .. } => match cidr_of(dst@) {
            Ok((ip, prefix_len)) => look_up(
                dev@,
                AfterLookUpView::RouteAdd { dst: ip, prefix_len, table },
            ),
            Err(e) => ActionView::Finish(Err(e)),
        },
        Cmd::RuleAdd { iif, table, v6 } => rule_added(v6, iif@, table),
        Cmd::RuleDel { iif, table, v6 } => rule_removed(v6, iif@, table),
        Cmd::FdbAdd { mac, dev } => look_up(dev@, AfterLookUpView::FdbAdd { mac: mac@ }),
        Cmd::LinkList { master, type_bridge } => ActionView::DumpLinks {
            next: AfterLinksView::LinkList {
                master: optional_text(master),
                bridge_only: type_bridge,
            },
        },
        Cmd::NeighList { dev } => look_up(dev@, AfterLookUpView::NeighList),
        Cmd::RuleList { v6 } => ActionView::DumpRules { v6 },
        Cmd::HostIps { iface, exclude_metric } => host_ips_asked(strings(iface@), exclude_metric),
        Cmd::LinkAddTap { .. } => arbitrary(),
        Cmd::MonitorAddr { .. } => arbitrary(),
    }
}

/// The text in an optional string.
fn as_deref(s: &Option<String>) -> (r: Option<&str>)
    ensures
        optional_str(r) == optional_text(*s),
{
    match s {
        Some(text) => Some(text.as_str()),
        None => None,
    }
}

/// Starts a command that is one operation on a fresh connection.
pub fn run_oneshot(net: &Net, cmd: Cmd) -> (action: Action)
    requires
        is_oneshot(cmd),
    ensures
        action@ == first_action(cmd),
{
    match cmd {
        Cmd::LinkAddBridge { name } => net.link_add_bridge(name.as_str()),
        Cmd::LinkAddVlan { link, name, id } => net.link_add_vlan(link.as_str(), name.as_str(), id),
        Cmd::LinkDel { name } => net.link_del(name.as_str()),
        Cmd::LinkSetState { name, state } => net.link_set_state(
            name.as_str(),
            same_text(state.as_str(), "up"),
        ),
        Cmd::LinkSetMaster { iface, master } => net.link_set_master(
            iface.as_str(),
            Some(master.as_str()),
        ),
        Cmd::LinkSetNomaster { iface } => net.link_set_master(iface.as_str(), None),
        Cmd::LinkSetMac { dev, mac } => net.link_set_mac(dev.as_str(), mac.as_str()),
        Cmd::LinkSetStp { bridge, on } => net.link_set_stp(bridge.as_str(), on),
        Cmd::LinkSetIsolated { dev, on } => net.link_set_isolated(dev.as_str(), on),
        Cmd::LinkSetLocked { dev, on } => net.link_set_locked(dev.as_str(), on),
        Cmd::AddrAdd { dev, cidr } => match parse_cidr(cidr.as_str()) {
            Ok((ip, plen)) => net.addr_add(dev.as_str(), ip, plen),
            Err(e) => Action::Finish(Err(e)),
        },
        Cmd::AddrDel { dev, cidr } => match parse_cidr(cidr.as_str()) {
            Ok((ip, plen)) => net.addr_del(dev.as_str(), ip, plen),
            Err(e) => Action::Finish(Err(e)),
        },
        Cmd::AddrList { dev, metric } => net.addr_list(as_deref(&dev), metric),
        Cmd::RouteAdd { dev, dst, table, v6: _ } => match parse_cidr(dst.as_str()) {
            Ok((ip, plen)) => net.route_add(dev.as_str(), ip, plen, table),
            Err(e) => Action::Finish(Err(e)),
        },
        Cmd::RuleAdd { iif, table, v6 } => net.rule_add(v6, iif.as_str(), table),
        Cmd::RuleDel { iif, table, v6 } => net.rule_del(v6, iif.as_str(), table),
        Cmd::FdbAdd { mac, dev } => net.fdb_add(mac.as_str(), dev.as_str()),
        Cmd::LinkList { master, type_bridge } => net.link_list(as_deref(&master), type_bridge),
        Cmd::NeighList { dev } => net.neigh_list(dev.as_str()),
        Cmd::RuleList { v6 } => net.rule_list(v6),
        Cmd::HostIps { iface, exclude_metric } => net.host_ipv4(&iface, exclude_metric),
        Cmd::LinkAddTap { .. } => vstd::pervasive::unreached(),
        Cmd::MonitorAddr { .. } => vstd::pervasive::unreached(),
    }
}

/// What kind of report a command makes.
pub open spec fn report_for(cmd: Cmd) -> Report {
    match cmd {
        Cmd::AddrList { .. } => Report::Addrs,
        Cmd::LinkList { .. } => Report::Links,
        Cmd::NeighList { .. } => Report::Neighs,
        Cmd::RuleList { .. } => Report::Rules,
        Cmd::HostIps { .. } => Report::HostIps,
        _ => Report::Nothing,
    }
}

/// Every command starts an operation that makes the command's kind of report: the queries
/// report rows, and all others success or failure only.
pub proof fn law_report_for(cmd: Cmd)
    requires
        is_oneshot(cmd),
    ensures
        reports(first_action(cmd), report_for(cmd)),
{
}

} // verus!
