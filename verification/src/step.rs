//! An operation as a conversation with the kernel: what to ask next, and what to make of the
//! answer. Each answer is taken by the question that it answers.

use vstd::prelude::*;

use crate::addresses::{addr_rows, addr_rows_of, host_set, host_set_of};
use crate::change::{
    broadcast_for, is_not_available, port_link, port_message, settle, settle_with, settled,
    stp_link, stp_message, subnet_broadcast, vlan_link, vlan_message, Ack, AddressRequest, Change,
    ChangeView, FdbRequest, RouteRequest, Tolerates, NTF_MASTER, RTPROT_BOOT, RT_SCOPE_LINK,
};
use crate::error::{Context, ContextView, Error, ErrorView};
use crate::ip::{IpAddress, IpView};
use crate::links::{
    bridge_rows, bridges_of, kinds_tell_bridges, link_bridges, link_names, link_rows, link_rows_of,
    names_of, LinkBridges, LinkNames,
};
use crate::mac::{mac_of, parse_mac};
use crate::message::{
    AddressMessage, InfoBridgePort, LinkAttributeView, LinkMessage, LinkMessageView,
    NeighbourMessage, NeighbourState, RuleMessage,
};
use crate::neighbours::{neigh_rows, neigh_rows_of};
use crate::outside::{
    address_message, controller_message, down_message, up_message, IFF_UP,
};
use crate::rows::{
    addr_row_views, link_row_views, neigh_row_views, rule_row_views, AddrRow, AddrRowView, LinkRow,
    LinkRowView, NeighRow, NeighRowView, RuleRow, RuleRowView,
};
use crate::rules::{rule_rows, rule_rows_of};
use crate::text::strings;

verus! {

/// What an operation reports when it is finished.
#[derive(Debug, PartialEq, Eq)]
pub enum Output {
    /// A change was made, or there was nothing to change.
    Done,
    Addrs(Vec<AddrRow>),
    Links(Vec<LinkRow>),
    Neighs(Vec<NeighRow>),
    Rules(Vec<RuleRow>),
    /// The host's own IPv4 addresses.
    HostIps(Vec<String>),
}

/// An [`Output`] with its rows as sequences.
pub enum OutputView {
    Done,
    Addrs(Seq<AddrRowView>),
    Links(Seq<LinkRowView>),
    Neighs(Seq<NeighRowView>),
    Rules(Seq<RuleRowView>),
    HostIps(Seq<Seq<char>>),
}

impl View for Output {
    type V = OutputView;

    open spec fn view(&self) -> OutputView {
        match *self {
            Output::Done => OutputView::Done,
            Output::Addrs(rows) => OutputView::Addrs(addr_row_views(rows@)),
            Output::Links(rows) => OutputView::Links(link_row_views(rows@)),
            Output::Neighs(rows) => OutputView::Neighs(neigh_row_views(rows@)),
            Output::Rules(rows) => OutputView::Rules(rule_row_views(rows@)),
            Output::HostIps(ips) => OutputView::HostIps(strings(ips@)),
        }
    }
}

/// The answer to the question for a link by its name.
#[derive(Debug, PartialEq, Eq)]
pub enum Found {
    /// The index of the link.
    Index(u32),
    /// There was no answer.
    Missing,
    /// The request failed, with these words.
    Failed(String),
}

/// What to do with the index of a link.
#[derive(Debug, PartialEq, Eq)]
pub enum AfterLookUp {
    /// Create a VLAN device on it.
    AddVlan { name: String, vid: u16 },
    /// Delete it.
    Del,
    SetState { up: bool },
    /// Put it under a master, once that has been found, or under none.
    SetMaster { master: Option<String> },
    /// It is the master: put the link with this index under it.
    JoinMaster { index: u32 },
    SetMac { mac: String },
    SetStp { on: bool },
    SetPort { flag: InfoBridgePort },
    AddrAdd { ip: IpAddress, prefix_len: u8 },
    AddrDel { ip: IpAddress, prefix_len: u8 },
    RouteAdd { dst: IpAddress, prefix_len: u8, table: u32 },
    FdbAdd { mac: String },
    /// List its addresses.
    AddrList { names: LinkNames, metric: Option<u32> },
    /// List the links under it.
    LinkList { names: LinkNames, bridge_only: bool },
    /// List the neighbours on it.
    NeighList,
}

/// An [`AfterLookUp`] with its texts and maps.
pub enum AfterLookUpView {
    AddVlan { name: Seq<char>, vid: u16 },
    Del,
    SetState { up: bool },
    SetMaster { master: Option<Seq<char>> },
    JoinMaster { index: u32 },
    SetMac { mac: Seq<char> },
    SetStp { on: bool },
    SetPort { flag: InfoBridgePort },
    AddrAdd { ip: IpView, prefix_len: u8 },
    AddrDel { ip: IpView, prefix_len: u8 },
    RouteAdd { dst: IpView, prefix_len: u8, table: u32 },
    FdbAdd { mac: Seq<char> },
    AddrList { names: Map<u32, Seq<char>>, metric: Option<u32> },
    LinkList { names: Map<u32, Seq<char>>, bridge_only: bool },
    NeighList,
}

/// The text in an optional string.
pub open spec fn optional_text(s: Option<String>) -> Option<Seq<char>> {
    match s {
        Some(text) => Some(text@),
        None => None,
    }
}

impl View for AfterLookUp {
    type V = AfterLookUpView;

    open spec fn view(&self) -> AfterLookUpView {
        match *self {
            AfterLookUp::AddVlan { name, vid } => AfterLookUpView::AddVlan { name: name@, vid },
            AfterLookUp::Del => AfterLookUpView::Del,
            AfterLookUp::SetState { up } => AfterLookUpView::SetState { up },
            AfterLookUp::SetMaster { master } => AfterLookUpView::SetMaster {
                master: optional_text(master),
            },
            AfterLookUp::JoinMaster { index } => AfterLookUpView::JoinMaster { index },
            AfterLookUp::SetMac { mac } => AfterLookUpView::SetMac { mac: mac@ },
            AfterLookUp::SetStp { on } => AfterLookUpView::SetStp { on },
            AfterLookUp::SetPort { flag } => AfterLookUpView::SetPort { flag },
            AfterLookUp::AddrAdd { ip, prefix_len } => AfterLookUpView::AddrAdd {
                ip: ip@,
                prefix_len,
            },
            AfterLookUp::AddrDel { ip, prefix_len } => AfterLookUpView::AddrDel {
                ip: ip@,
                prefix_len,
            },
            AfterLookUp::RouteAdd { dst, prefix_len, table } => AfterLookUpView::RouteAdd {
                dst: dst@,
                prefix_len,
                table,
            },
            AfterLookUp::FdbAdd { mac } => AfterLookUpView::FdbAdd { mac: mac@ },
            AfterLookUp::AddrList { names, metric } => AfterLookUpView::AddrList {
                names: names@,
                metric,
            },
            AfterLookUp::LinkList { names, bridge_only } => AfterLookUpView::LinkList {
                names: names@,
                bridge_only,
            },
            AfterLookUp::NeighList => AfterLookUpView::NeighList,
        }
    }
}

/// The question for a link by its name.
#[derive(Debug, PartialEq, Eq)]
pub struct LookUp {
    pub name: String,
    pub next: AfterLookUp,
}

/// A change, and how to take the answer to it.
#[derive(Debug, PartialEq, Eq)]
pub struct Pending {
    pub context: Context,
    pub tolerates: Tolerates,
}

/// What to do with a list of all links.
#[derive(Debug, PartialEq, Eq)]
pub enum AfterLinks {
    /// Go on to list addresses, of one device or of all.
    AddrList { dev: Option<String>, metric: Option<u32> },
    /// Go on to list the host's own IPv4 addresses.
    HostIpv4 { prefixes: Vec<String>, exclude_metric: Option<u32> },
    /// Go on to list links, under one master or all.
    LinkList { master: Option<String>, bridge_only: bool },
    /// Report the links.
    LinkRows { names: LinkNames, master: Option<u32>, bridge_only: bool },
}

/// An [`AfterLinks`] with its texts and maps.
pub enum AfterLinksView {
    AddrList { dev: Option<Seq<char>>, metric: Option<u32> },
    HostIpv4 { prefixes: Seq<Seq<char>>, exclude_metric: Option<u32> },
    LinkList { master: Option<Seq<char>>, bridge_only: bool },
    LinkRows { names: Map<u32, Seq<char>>, master: Option<u32>, bridge_only: bool },
}

impl View for AfterLinks {
    type V = AfterLinksView;

    open spec fn view(&self) -> AfterLinksView {
        match *self {
            AfterLinks::AddrList { dev, metric } => AfterLinksView::AddrList {
                dev: optional_text(dev),
                metric,
            },
            AfterLinks::HostIpv4 { prefixes, exclude_metric } => AfterLinksView::HostIpv4 {
                prefixes: strings(prefixes@),
                exclude_metric,
            },
            AfterLinks::LinkList { master, bridge_only } => AfterLinksView::LinkList {
                master: optional_text(master),
                bridge_only,
            },
            AfterLinks::LinkRows { names, master, bridge_only } => AfterLinksView::LinkRows {
                names: names@,
                master,
                bridge_only,
            },
        }
    }
}

/// What to do with a list of addresses.
#[derive(Debug, PartialEq, Eq)]
pub enum AfterAddresses {
    /// Report the addresses.
    AddrRows { names: LinkNames, metric: Option<u32> },
    /// Report the host's own IPv4 addresses.
    HostIpv4 {
        names: LinkNames,
        bridges: LinkBridges,
        prefixes: Vec<String>,
        exclude_metric: Option<u32>,
    },
}

/// An [`AfterAddresses`] with its texts and maps.
pub enum AfterAddressesView {
    AddrRows { names: Map<u32, Seq<char>>, metric: Option<u32> },
    HostIpv4 {
        names: Map<u32, Seq<char>>,
        bridges: Map<u32, bool>,
        prefixes: Seq<Seq<char>>,
        exclude_metric: Option<u32>,
    },
}

impl View for AfterAddresses {
    type V = AfterAddressesView;

    open spec fn view(&self) -> AfterAddressesView {
        match *self {
            AfterAddresses::AddrRows { names, metric } => AfterAddressesView::AddrRows {
                names: names@,
                metric,
            },
            AfterAddresses::HostIpv4 {
                names,
                bridges,
                prefixes,
                exclude_metric,
            } => AfterAddressesView::HostIpv4 {
                names: names@,
                bridges: bridges@,
                prefixes: strings(prefixes@),
                exclude_metric,
            },
        }
    }
}

/// The question for the neighbours of one family, with what has been gathered of the device.
#[derive(Debug, PartialEq, Eq)]
pub struct NeighDump {
    pub v6: bool,
    pub dev: String,
    pub index: u32,
    pub rows: Vec<NeighRow>,
}

/// What to ask of the kernel next, or the end.
#[derive(Debug, PartialEq, Eq)]
pub enum Action {
    /// Look a link up by its name.
    LookUp(LookUp),
    /// Make a change.
    Change(Change, Pending),
    /// List all links.
    DumpLinks(AfterLinks),
    /// List the addresses of one link or of all.
    DumpAddresses(Option<u32>, AfterAddresses),
    /// List the neighbours of one family.
    DumpNeighbours(NeighDump),
    /// List the rules of one family.
    DumpRules(bool),
    /// Nothing: the operation is finished.
    Finish(Result<Output, Error>),
}

/// An [`Action`] with its texts, maps and sequences.
pub enum ActionView {
    LookUp { name: Seq<char>, next: AfterLookUpView },
    Change { change: ChangeView, context: ContextView, tolerates: Tolerates },
    DumpLinks { next: AfterLinksView },
    DumpAddresses { index: Option<u32>, next: AfterAddressesView },
    DumpNeighbours { v6: bool, dev: Seq<char>, index: u32, rows: Seq<NeighRowView> },
    DumpRules { v6: bool },
    Finish(Result<OutputView, ErrorView>),
}

/// A result with its output or error.
pub open spec fn result_view(r: Result<Output, Error>) -> Result<OutputView, ErrorView> {
    match r {
        Ok(output) => Ok(output@),
        Err(e) => Err(e@),
    }
}

impl View for Action {
    type V = ActionView;

    open spec fn view(&self) -> ActionView {
        match *self {
            Action::LookUp(q) => ActionView::LookUp { name: q.name@, next: q.next@ },
            Action::Change(change, p) => ActionView::Change {
                change: change@,
                context: p.context@,
                tolerates: p.tolerates,
            },
            Action::DumpLinks(next) => ActionView::DumpLinks { next: next@ },
            Action::DumpAddresses(index, next) => ActionView::DumpAddresses { index, next: next@ },
            Action::DumpNeighbours(d) => ActionView::DumpNeighbours {
                v6: d.v6,
                dev: d.dev@,
                index: d.index,
                rows: neigh_row_views(d.rows@),
            },
            Action::DumpRules(v6) => ActionView::DumpRules { v6 },
            Action::Finish(r) => ActionView::Finish(result_view(r)),
        }
    }
}

/// The index of the link with this name, from the answer to the question for it.
pub open spec fn found_index(name: Seq<char>, found: Found) -> Result<u32, ErrorView> {
    match found {
        Found::Index(index) => Ok(index),
        Found::Missing => Err(ErrorView::DeviceNotFound(name)),
        Found::Failed(text) => Err(ErrorView::Failed(ContextView::GetLink(name), text@)),
    }
}

/// The index of the link with this name, from the answer to the question for it.
pub fn index_of(name: String, found: Found) -> (r: Result<u32, Error>)
    ensures
        r matches Ok(index) ==> found_index(name@, found) == Ok::<u32, ErrorView>(index),
        r matches Err(e) ==> found_index(name@, found) == Err::<u32, ErrorView>(e@),
{
    match found {
        Found::Index(index) => Ok(index),
        Found::Missing => Err(Error::DeviceNotFound(name)),
        Found::Failed(text) => Err(Error::Failed(Context::GetLink(name), text)),
    }
}

/// A message that changes nothing of the link with this index but one attribute.
pub open spec fn one_attribute(index: u32, attribute: LinkAttributeView) -> LinkMessageView {
    LinkMessageView { index, flags: 0, change_mask: 0, attributes: seq![attribute] }
}

/// A message that sets the link with this index up or down.
pub open spec fn state_link(index: u32, up: bool) -> LinkMessageView {
    LinkMessageView {
        index,
        flags: if up {
            IFF_UP
        } else {
            0
        },
        change_mask: IFF_UP,
        attributes: Seq::empty(),
    }
}

/// A change of which no refusal is tolerated.
pub open spec fn plain_change(change: ChangeView, context: ContextView) -> ActionView {
    ActionView::Change { change, context, tolerates: Tolerates::Nothing }
}

/// What follows once the link `name` is known to have the index `i`.
pub open spec fn with_index(name: Seq<char>, next: AfterLookUpView, i: u32) -> ActionView {
    match next {
        AfterLookUpView::AddVlan { name: vlan, vid } => plain_change(
            ChangeView::AddLink(vlan_link(i, vlan, vid)),
            ContextView::LinkAddVlan,
        ),
        AfterLookUpView::Del => plain_change(ChangeView::DelLink(i), ContextView::LinkDel),
        AfterLookUpView::SetState { up } => plain_change(
            ChangeView::SetLink(state_link(i, up)),
            ContextView::LinkSetState,
        ),
        AfterLookUpView::SetMaster { master } => match master {
            Some(m) => ActionView::LookUp {
                name: m,
                next: AfterLookUpView::JoinMaster { index: i },
            },
            None => plain_change(
                ChangeView::SetLink(one_attribute(i, LinkAttributeView::Controller(0))),
                ContextView::LinkSetMaster,
            ),
        },
        AfterLookUpView::JoinMaster { index } => plain_change(
            ChangeView::SetLink(one_attribute(index, LinkAttributeView::Controller(i))),
            ContextView::LinkSetMaster,
        ),
        AfterLookUpView::SetMac { mac } => match mac_of(mac) {
            Ok(bytes) => plain_change(
                ChangeView::SetLink(one_attribute(i, LinkAttributeView::Address(bytes))),
                ContextView::LinkSetMac,
            ),
            Err(e) => ActionView::Finish(Err(e)),
        },
        AfterLookUpView::SetStp { on } => plain_change(
            ChangeView::SetLink(stp_link(i, on)),
            ContextView::LinkSetStp,
        ),
        AfterLookUpView::SetPort { flag } => plain_change(
            ChangeView::SetLink(port_link(i, flag)),
            ContextView::SetPortFlag,
        ),
        AfterLookUpView::AddrAdd { ip, prefix_len } => plain_change(
            ChangeView::AddAddress {
                index: i,
                ip,
                prefix_len,
                broadcast: broadcast_for(ip, prefix_len),
            },
            ContextView::AddrAdd,
        ),
        AfterLookUpView::AddrDel { ip, prefix_len } => ActionView::Change {
            change: ChangeView::DelAddress { index: i, ip, prefix_len, broadcast: None },
            context: ContextView::AddrDel,
            tolerates: Tolerates::MissingAddress,
        },
        AfterLookUpView::RouteAdd { dst, prefix_len, table } => ActionView::Change {
            change: ChangeView::AddRoute {
                index: i,
                dst,
                prefix_len,
                table,
                scope: RT_SCOPE_LINK,
                protocol: RTPROT_BOOT,
            },
            context: ContextView::RouteAdd,
            tolerates: Tolerates::Existing,
        },
        AfterLookUpView::FdbAdd { mac } => match mac_of(mac) {
            Ok(bytes) => ActionView::Change {
                change: ChangeView::AddFdb {
                    index: i,
                    lladdr: bytes,
                    state: NeighbourState::Noarp,
                    flags: NTF_MASTER,
                },
                context: ContextView::FdbAdd,
                tolerates: Tolerates::Existing,
            },
            Err(e) => ActionView::Finish(Err(e)),
        },
        AfterLookUpView::AddrList { names, metric } => ActionView::DumpAddresses {
            index: Some(i),
            next: AfterAddressesView::AddrRows { names, metric },
        },
        AfterLookUpView::LinkList { names, bridge_only } => ActionView::DumpLinks {
            next: AfterLinksView::LinkRows { names, master: Some(i), bridge_only },
        },
        AfterLookUpView::NeighList => ActionView::DumpNeighbours {
            v6: false,
            dev: name,
            index: i,
            rows: Seq::empty(),
        },
    }
}

/// What follows the answer to the question for the link `name`. A link that is to be deleted
/// and cannot be found is gone already.
pub open spec fn after_look_up(name: Seq<char>, next: AfterLookUpView, found: Found) -> ActionView {
    match found_index(name, found) {
        Ok(i) => with_index(name, next, i),
        Err(e) => if next is Del {
            ActionView::Finish(Ok(OutputView::Done))
        } else {
            ActionView::Finish(Err(e))
        },
    }
}

/// What follows the answer to a change, where `not_available` is the error number for an
/// address that is not there.
pub open spec fn after_change(
    context: ContextView,
    tolerates: Tolerates,
    ack: Ack,
    not_available: i32,
) -> ActionView {
    match settled(context, tolerates, ack, not_available) {
        Ok(_) => ActionView::Finish(Ok(OutputView::Done)),
        Err(e) => ActionView::Finish(Err(e)),
    }
}

/// The end of an operation for which a list could not be had.
pub open spec fn list_failed(context: ContextView, text: String) -> ActionView {
    ActionView::Finish(Err(ErrorView::Failed(context, text@)))
}

/// What follows a list of all links.
pub open spec fn after_links(next: AfterLinksView, links: Result<Vec<LinkMessage>, String>) -> ActionView {
    match links {
        Err(text) => list_failed(ContextView::LinkDump, text),
        Ok(list) => match next {
            AfterLinksView::AddrList { dev, metric } => match dev {
                Some(name) => ActionView::LookUp {
                    name,
                    next: AfterLookUpView::AddrList { names: names_of(list@), metric },
                },
                None => ActionView::DumpAddresses {
                    index: None,
                    next: AfterAddressesView::AddrRows { names: names_of(list@), metric },
                },
            },
            AfterLinksView::HostIpv4 { prefixes, exclude_metric } => ActionView::DumpAddresses {
                index: None,
                next: AfterAddressesView::HostIpv4 {
                    names: names_of(list@),
                    bridges: bridges_of(list@),
                    prefixes,
                    exclude_metric,
                },
            },
            AfterLinksView::LinkList { master, bridge_only } => match master {
                Some(name) => ActionView::LookUp {
                    name,
                    next: AfterLookUpView::LinkList { names: names_of(list@), bridge_only },
                },
                None => ActionView::DumpLinks {
                    next: AfterLinksView::LinkRows {
                        names: names_of(list@),
                        master: None,
                        bridge_only,
                    },
                },
            },
            AfterLinksView::LinkRows { names, master, bridge_only } => ActionView::Finish(
                Ok(OutputView::Links(link_rows_of(names, list@, master, bridge_only))),
            ),
        },
    }
}

/// What follows a list of addresses.
pub open spec fn after_addresses(
    next: AfterAddressesView,
    addresses: Result<Vec<AddressMessage>, String>,
) -> ActionView {
    match addresses {
        Err(text) => list_failed(ContextView::AddrDump, text),
        Ok(list) => match next {
            AfterAddressesView::AddrRows { names, metric } => ActionView::Finish(
                Ok(OutputView::Addrs(addr_rows_of(names, list@, metric))),
            ),
            AfterAddressesView::HostIpv4 { names, bridges, prefixes, exclude_metric } =>
            ActionView::Finish(
                Ok(
                    OutputView::HostIps(
                        host_set_of(names, bridges, list@, prefixes, exclude_metric),
                    ),
                ),
            ),
        },
    }
}

/// What follows a list of neighbours: those of IPv6 come after those of IPv4.
pub open spec fn after_neighbours(
    v6: bool,
    dev: Seq<char>,
    index: u32,
    rows: Seq<NeighRowView>,
    neighbours: Result<Vec<NeighbourMessage>, String>,
) -> ActionView {
    match neighbours {
        Err(text) => list_failed(ContextView::NeighDump, text),
        Ok(list) => {
            let more = rows + neigh_rows_of(dev, index, list@);
            if v6 {
                ActionView::Finish(Ok(OutputView::Neighs(more)))
            } else {
                ActionView::DumpNeighbours { v6: true, dev, index, rows: more }
            }
        },
    }
}

/// What follows a list of rules.
pub open spec fn after_rules(rules: Result<Vec<RuleMessage>, String>) -> ActionView {
    match rules {
        Err(text) => list_failed(ContextView::RuleDump, text),
        Ok(list) => ActionView::Finish(Ok(OutputView::Rules(rule_rows_of(list@)))),
    }
}

/// A change of which no refusal is tolerated.
fn change_plainly(change: Change, context: Context) -> (action: Action)
    ensures
        action@ == plain_change(change@, context@),
{
    Action::Change(change, Pending { context, tolerates: Tolerates::Nothing })
}

impl LookUp {
    /// Takes the answer to this question.
    pub fn resume(self, found: Found) -> (action: Action)
        ensures
            action@ == after_look_up(self.name@, self.next@, found),
    {
        let name = self.name.clone();
        match index_of(self.name, found) {
            Ok(i) => self.next.go_on(name, i),
            Err(e) => match self.next {
                AfterLookUp::Del => Action::Finish(Ok(Output::Done)),
                _ => Action::Finish(Err(e)),
            },
        }
    }
}

impl AfterLookUp {
    /// Goes on with the index `i` of the link `name`.
    fn go_on(self, name: String, i: u32) -> (action: Action)
        ensures
            action@ == with_index(name@, self@, i),
    {
        match self {
            AfterLookUp::AddVlan { name: vlan, vid } => change_plainly(
                Change::AddLink(vlan_message(i, vlan, vid)),
                Context::LinkAddVlan,
            ),
            AfterLookUp::Del => change_plainly(Change::DelLink(i), Context::LinkDel),
            AfterLookUp::SetState { up } => {
                let m = if up {
                    up_message(i)
                } else {
                    down_message(i)
                };
                change_plainly(Change::SetLink(m), Context::LinkSetState)
            },
            AfterLookUp::SetMaster { master } => match master {
                Some(m) => Action::LookUp(
                    LookUp { name: m, next: AfterLookUp::JoinMaster { index: i } },
                ),
                None => change_plainly(
                    Change::SetLink(controller_message(i, 0)),
                    Context::LinkSetMaster,
                ),
            },
            AfterLookUp::JoinMaster { index } => change_plainly(
                Change::SetLink(controller_message(index, i)),
                Context::LinkSetMaster,
            ),
            AfterLookUp::SetMac { mac } => match parse_mac(mac.as_str()) {
                Ok(bytes) => change_plainly(
                    Change::SetLink(address_message(i, bytes)),
                    Context::LinkSetMac,
                ),
                Err(e) => Action::Finish(Err(e)),
            },
            AfterLookUp::SetStp { on } => change_plainly(
                Change::SetLink(stp_message(i, on)),
                Context::LinkSetStp,
            ),
            AfterLookUp::SetPort { flag } => change_plainly(
                Change::SetLink(port_message(i, flag)),
                Context::SetPortFlag,
            ),
            AfterLookUp::AddrAdd { ip, prefix_len } => change_plainly(
                Change::AddAddress(
                    AddressRequest {
                        index: i,
                        ip,
                        prefix_len,
                        broadcast: subnet_broadcast(ip, prefix_len),
                    },
                ),
                Context::AddrAdd,
            ),
            AfterLookUp::AddrDel { ip, prefix_len } => Action::Change(
                Change::DelAddress(AddressRequest { index: i, ip, prefix_len, broadcast: None }),
                Pending { context: Context::AddrDel, tolerates: Tolerates::MissingAddress },
            ),
            AfterLookUp::RouteAdd { dst, prefix_len, table } => Action::Change(
                Change::AddRoute(
                    RouteRequest {
                        index: i,
                        dst,
                        prefix_len,
                        table,
                        scope: RT_SCOPE_LINK,
                        protocol: RTPROT_BOOT,
                    },
                ),
                Pending { context: Context::RouteAdd, tolerates: Tolerates::Existing },
            ),
            AfterLookUp::FdbAdd { mac } => match parse_mac(mac.as_str()) {
                Ok(bytes) => Action::Change(
                    Change::AddFdb(
                        FdbRequest {
                            index: i,
                            lladdr: bytes,
                            state: NeighbourState::Noarp,
                            flags: NTF_MASTER,
                        },
                    ),
                    Pending { context: Context::FdbAdd, tolerates: Tolerates::Existing },
                ),
                Err(e) => Action::Finish(Err(e)),
            },
            AfterLookUp::AddrList { names, metric } => Action::DumpAddresses(
                Some(i),
                AfterAddresses::AddrRows { names, metric },
            ),
            AfterLookUp::LinkList { names, bridge_only } => Action::DumpLinks(
                AfterLinks::LinkRows { names, master: Some(i), bridge_only },
            ),
            AfterLookUp::NeighList => {
                let rows: Vec<NeighRow> = Vec::new();
                assert(neigh_row_views(rows@) =~= Seq::empty());
                Action::DumpNeighbours(NeighDump { v6: false, dev: name, index: i, rows })
            },
        }
    }
}

impl Pending {
    /// Takes the answer to a change, where `not_available` is the error number for an address
    /// that is not there.
    pub fn resume_with(self, ack: Ack, not_available: i32) -> (action: Action)
        requires
            not_available > i32::MIN,
        ensures
            action@ == after_change(self.context@, self.tolerates, ack, not_available),
    {
        match settle_with(self.context, self.tolerates, ack, not_available) {
            Ok(_) => Action::Finish(Ok(Output::Done)),
            Err(e) => Action::Finish(Err(e)),
        }
    }

    /// Takes the answer to a change. The machine decides only whether the refusal to remove an
    /// address says that it is not there.
    pub fn resume(self, ack: Ack) -> (action: Action)
        ensures
            exists|n: i32|
                #[trigger] is_not_available(n) && action@ == after_change(
                    self.context@,
                    self.tolerates,
                    ack,
                    n,
                ),
    {
        match settle(self.context, self.tolerates, ack) {
            Ok(_) => Action::Finish(Ok(Output::Done)),
            Err(e) => Action::Finish(Err(e)),
        }
    }
}

impl AfterLinks {
    /// Takes a list of all links. Where only bridges are to be reported, the rows are those of
    /// all links whose kind is reported as `bridge`.
    pub fn resume(self, links: Result<Vec<LinkMessage>, String>) -> (action: Action)
        ensures
            action@ == after_links(self@, links),
            self is LinkRows ==> (links matches Ok(list) ==> kinds_tell_bridges(list@)),
            self@ matches AfterLinksView::LinkRows { names, master, bridge_only: true } ==> (
            links matches Ok(list) ==> action@ == ActionView::Finish(
                Ok(OutputView::Links(bridge_rows(link_rows_of(names, list@, master, false)))),
            )),
    {
        match links {
            Err(text) => Action::Finish(Err(Error::Failed(Context::LinkDump, text))),
            Ok(list) => match self {
                AfterLinks::AddrList { dev, metric } => {
                    let names = link_names(&list);
                    match dev {
                        Some(name) => Action::LookUp(
                            LookUp { name, next: AfterLookUp::AddrList { names, metric } },
                        ),
                        None => Action::DumpAddresses(
                            None,
                            AfterAddresses::AddrRows { names, metric },
                        ),
                    }
                },
                AfterLinks::HostIpv4 { prefixes, exclude_metric } => {
                    let names = link_names(&list);
                    let bridges = link_bridges(&list);
                    Action::DumpAddresses(
                        None,
                        AfterAddresses::HostIpv4 { names, bridges, prefixes, exclude_metric },
                    )
                },
                AfterLinks::LinkList { master, bridge_only } => {
                    let names = link_names(&list);
                    match master {
                        Some(name) => Action::LookUp(
                            LookUp { name, next: AfterLookUp::LinkList { names, bridge_only } },
                        ),
                        None => Action::DumpLinks(
                            AfterLinks::LinkRows { names, master: None, bridge_only },
                        ),
                    }
                },
                AfterLinks::LinkRows { names, master, bridge_only } => Action::Finish(
                    Ok(Output::Links(link_rows(&names, &list, master, bridge_only))),
                ),
            },
        }
    }
}

impl AfterAddresses {
    /// Takes a list of addresses.
    pub fn resume(self, addresses: Result<Vec<AddressMessage>, String>) -> (action: Action)
        ensures
            action@ == after_addresses(self@, addresses),
    {
        match addresses {
            Err(text) => Action::Finish(Err(Error::Failed(Context::AddrDump, text))),
            Ok(list) => match self {
                AfterAddresses::AddrRows { names, metric } => Action::Finish(
                    Ok(Output::Addrs(addr_rows(&names, &list, metric))),
                ),
                AfterAddresses::HostIpv4 { names, bridges, prefixes, exclude_metric } =>
                Action::Finish(
                    Ok(
                        Output::HostIps(
                            host_set(&names, &bridges, &list, &prefixes, exclude_metric),
                        ),
                    ),
                ),
            },
        }
    }
}

impl NeighDump {
    /// Takes a list of neighbours.
    pub fn resume(self, neighbours: Result<Vec<NeighbourMessage>, String>) -> (action: Action)
        ensures
            action@ == after_neighbours(
                self.v6,
                self.dev@,
                self.index,
                neigh_row_views(self.rows@),
                neighbours,
            ),
    {
        match neighbours {
            Err(text) => Action::Finish(Err(Error::Failed(Context::NeighDump, text))),
            Ok(list) => {
                let more = neigh_rows(self.rows, &self.dev, self.index, &list);
                if self.v6 {
                    Action::Finish(Ok(Output::Neighs(more)))
                } else {
                    Action::DumpNeighbours(
                        NeighDump { v6: true, dev: self.dev, index: self.index, rows: more },
                    )
                }
            },
        }
    }
}

/// Takes a list of rules.
pub fn resume_rules(rules: Result<Vec<RuleMessage>, String>) -> (action: Action)
    ensures
        action@ == after_rules(rules),
{
    match rules {
        Err(text) => Action::Finish(Err(Error::Failed(Context::RuleDump, text))),
        Ok(list) => Action::Finish(Ok(Output::Rules(rule_rows(&list)))),
    }
}

} // verus!
