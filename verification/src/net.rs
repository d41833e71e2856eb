//! The operations, each given by the first thing to ask of the kernel.

use vstd::prelude::*;

use crate::change::{Change, ChangeView, RuleRequest, Tolerates};
use crate::error::{Context, ContextView};
use crate::ip::IpAddress;
use crate::message::{
    InfoBridgePort, LinkAttributeView, LinkInfoView, LinkMessageView, RuleAction,
};
use crate::outside::{bridge_message, IFF_UP};
use crate::step::{
    optional_text, plain_change, Action, ActionView, AfterLinks, AfterLinksView, AfterLookUp,
    AfterLookUpView, LookUp, Pending,
};
use crate::text::{copy_strings, strings};

verus! {

/// The operations on links, addresses, routes, rules and neighbours.
#[derive(Debug, Clone, Copy)]
pub struct Net;

/// A message that creates a bridge, which is up at once.
pub open spec fn bridge_link(name: Seq<char>) -> LinkMessageView {
    LinkMessageView {
        index: 0,
        flags: IFF_UP,
        change_mask: IFF_UP,
        attributes: seq![
            LinkAttributeView::IfName(name),
            LinkAttributeView::LinkInfo(seq![LinkInfoView::Kind("bridge"@)]),
        ],
    }
}

/// The question for a link by its name.
pub open spec fn look_up(name: Seq<char>, next: AfterLookUpView) -> ActionView {
    ActionView::LookUp { name, next }
}

/// The request for a rule that has what comes in at a device looked up in a table.
pub open spec fn rule_added(v6: bool, iif: Seq<char>, table: u32) -> ActionView {
    ActionView::Change {
        change: ChangeView::AddRule { v6, iif, table, action: RuleAction::ToTable },
        context: ContextView::RuleAdd,
        tolerates: Tolerates::Existing,
    }
}

/// The request to remove the rule that [`rule_added`] adds.
pub open spec fn rule_removed(v6: bool, iif: Seq<char>, table: u32) -> ActionView {
    ActionView::Change {
        change: ChangeView::DelRule { v6, iif, table, action: RuleAction::ToTable },
        context: ContextView::RuleDel,
        tolerates: Tolerates::MissingRule,
    }
}

/// The question for the host's own IPv4 addresses, which starts with a list of all links.
pub open spec fn host_ips_asked(
    prefixes: Seq<Seq<char>>,
    exclude_metric: Option<u32>,
) -> ActionView {
    ActionView::DumpLinks { next: AfterLinksView::HostIpv4 { prefixes, exclude_metric } }
}

/// The text in an optional string slice.
pub open spec fn optional_str(s: Option<&str>) -> Option<Seq<char>> {
    match s {
        Some(text) => Some(text@),
        None => None,
    }
}

/// A copy of an optional text.
fn optional_string(s: Option<&str>) -> (r: Option<String>)
    ensures
        optional_text(r) == optional_str(s),
{
    match s {
        Some(text) => Some(text.to_owned()),
        None => None,
    }
}

/// Looks a link up by its name first.
fn look_up_first(name: &str, next: AfterLookUp) -> (action: Action)
    ensures
        action@ == look_up(name@, next@),
{
    Action::LookUp(LookUp { name: name.to_owned(), next })
}

impl Net {
    /// Creates a bridge.
    pub fn link_add_bridge(&self, name: &str) -> (action: Action)
        ensures
            action@ == plain_change(
                ChangeView::AddLink(bridge_link(name@)),
                ContextView::LinkAddBridge,
            ),
    {
        Action::Change(
            Change::AddLink(bridge_message(name)),
            Pending { context: Context::LinkAddBridge, tolerates: Tolerates::Nothing },
        )
    }

    /// Creates a VLAN device on a parent.
    pub fn link_add_vlan(&self, parent: &str, name: &str, vid: u16) -> (action: Action)
        ensures
            action@ == look_up(parent@, AfterLookUpView::AddVlan { name: name@, vid }),
    {
        look_up_first(parent, AfterLookUp::AddVlan { name: name.to_owned(), vid })
    }

    /// Deletes a link, unless it is gone already.
    pub fn link_del(&self, name: &str) -> (action: Action)
        ensures
            action@ == look_up(name@, AfterLookUpView::Del),
    {
        look_up_first(name, AfterLookUp::Del)
    }

    /// Sets a link up or down.
    pub fn link_set_state(&self, name: &str, up: bool) -> (action: Action)
        ensures
            action@ == look_up(name@, AfterLookUpView::SetState { up }),
    {
        look_up_first(name, AfterLookUp::SetState { up })
    }

    /// Puts a link under a master, or under none.
    pub fn link_set_master(&self, iface: &str, master: Option<&str>) -> (action: Action)
        ensures
            action@ == look_up(
                iface@,
                AfterLookUpView::SetMaster { master: optional_str(master) },
            ),
    {
        look_up_first(iface, AfterLookUp::SetMaster { master: optional_string(master) })
    }

    /// Sets the MAC address of a link.
    pub fn link_set_mac(&self, dev: &str, mac: &str) -> (action: Action)
        ensures
            action@ == look_up(dev@, AfterLookUpView::SetMac { mac: mac@ }),
    {
        look_up_first(dev, AfterLookUp::SetMac { mac: mac.to_owned() })
    }

    /// Switches STP of a bridge.
    pub fn link_set_stp(&self, bridge: &str, on: bool) -> (action: Action)
        ensures
            action@ == look_up(bridge@, AfterLookUpView::SetStp { on }),
    {
        look_up_first(bridge, AfterLookUp::SetStp { on })
    }

    /// Sets a flag of a bridge port.
    pub fn set_port_flag(&self, dev: &str, port: InfoBridgePort) -> (action: Action)
        ensures
            action@ == look_up(dev@, AfterLookUpView::SetPort { flag: port }),
    {
        look_up_first(dev, AfterLookUp::SetPort { flag: port })
    }

    /// Switches the isolation of a bridge port.
    pub fn link_set_isolated(&self, dev: &str, on: bool) -> (action: Action)
        ensures
            action@ == look_up(
                dev@,
                AfterLookUpView::SetPort { flag: InfoBridgePort::Isolated(on) },
            ),
    {
        self.set_port_flag(dev, InfoBridgePort::Isolated(on))
    }

    /// Switches the MAC locking of a bridge port.
    pub fn link_set_locked(&self, dev: &str, on: bool) -> (action: Action)
        ensures
            action@ == look_up(
                dev@,
                AfterLookUpView::SetPort { flag: InfoBridgePort::Locked(on) },
            ),
    {
        self.set_port_flag(dev, InfoBridgePort::Locked(on))
    }

    /// Adds an address to a device.
    pub fn addr_add(&self, dev: &str, ip: IpAddress, plen: u8) -> (action: Action)
        ensures
            action@ == look_up(dev@, AfterLookUpView::AddrAdd { ip: ip@, prefix_len: plen }),
    {
        look_up_first(dev, AfterLookUp::AddrAdd { ip, prefix_len: plen })
    }

    /// Removes an address from a device, unless it is gone already.
    pub fn addr_del(&self, dev: &str, ip: IpAddress, plen: u8) -> (action: Action)
        ensures
            action@ == look_up(dev@, AfterLookUpView::AddrDel { ip: ip@, prefix_len: plen }),
    {
        look_up_first(dev, AfterLookUp::AddrDel { ip, prefix_len: plen })
    }

    /// Adds a route to a subnet that is on the link itself, unless it is there already.
    pub fn route_add(&self, dev: &str, dst: IpAddress, plen: u8, table: u32) -> (action: Action)
        ensures
            action@ == look_up(
                dev@,
                AfterLookUpView::RouteAdd { dst: dst@, prefix_len: plen, table },
            ),
    {
        look_up_first(dev, AfterLookUp::RouteAdd { dst, prefix_len: plen, table })
    }

    /// Adds a rule that looks up what comes in at `iif` in a table, unless it is there already.
    pub fn rule_add(&self, v6: bool, iif: &str, table: u32) -> (action: Action)
        ensures
            action@ == rule_added(v6, iif@, table),
    {
        Action::Change(
            Change::AddRule(
                RuleRequest { v6, iif: iif.to_owned(), table, action: RuleAction::ToTable },
            ),
            Pending { context: Context::RuleAdd, tolerates: Tolerates::Existing },
        )
    }

    /// Removes a rule that looks up what comes in at `iif` in a table, unless it is gone already.
    pub fn rule_del(&self, v6: bool, iif: &str, table: u32) -> (action: Action)
        ensures
            action@ == rule_removed(v6, iif@, table),
    {
        Action::Change(
            Change::DelRule(
                RuleRequest { v6, iif: iif.to_owned(), table, action: RuleAction::ToTable },
            ),
            Pending { context: Context::RuleDel, tolerates: Tolerates::MissingRule },
        )
    }

    /// Adds a permanent forwarding entry that the bridge manages, unless it is there already.
    pub fn fdb_add(&self, mac: &str, dev: &str) -> (action: Action)
        ensures
            action@ == look_up(dev@, AfterLookUpView::FdbAdd { mac: mac@ }),
    {
        look_up_first(dev, AfterLookUp::FdbAdd { mac: mac.to_owned() })
    }

    /// Lists addresses: of one device or of all, with one route priority or with any.
    pub fn addr_list(&self, dev: Option<&str>, metric: Option<u32>) -> (action: Action)
        ensures
            action@ == (ActionView::DumpLinks {
                next: AfterLinksView::AddrList { dev: optional_str(dev), metric },
            }),
    {
        Action::DumpLinks(AfterLinks::AddrList { dev: optional_string(dev), metric })
    }

    /// Lists the host's own IPv4 addresses. This is the one definition of that set.
    pub fn host_ipv4(&self, prefixes: &Vec<String>, exclude_metric: Option<u32>) -> (action: Action)
        ensures
            action@ == host_ips_asked(strings(prefixes@), exclude_metric),
    {
        Action::DumpLinks(
            AfterLinks::HostIpv4 { prefixes: copy_strings(prefixes), exclude_metric },
        )
    }

    /// Lists links: under one master or all, bridges only or all.
    pub fn link_list(&self, master: Option<&str>, bridge_only: bool) -> (action: Action)
        ensures
            action@ == (ActionView::DumpLinks {
                next: AfterLinksView::LinkList { master: optional_str(master), bridge_only },
            }),
    {
        Action::DumpLinks(AfterLinks::LinkList { master: optional_string(master), bridge_only })
    }

    /// Lists the neighbours on a device, of both families.
    pub fn neigh_list(&self, dev: &str) -> (action: Action)
        ensures
            action@ == look_up(dev@, AfterLookUpView::NeighList),
    {
        look_up_first(dev, AfterLookUp::NeighList)
    }

    /// Lists the rules of one family.
    pub fn rule_list(&self, v6: bool) -> (action: Action)
        ensures
            action@ == (ActionView::DumpRules { v6 }),
    {
        Action::DumpRules(v6)
    }
}

} // verus!
