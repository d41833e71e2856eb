//! Changes that are asked of the kernel, and what its answer to one means.

use vstd::prelude::*;

use crate::error::{Context, ContextView, Error, ErrorView};
use crate::ip::{broadcast, broadcast_of, IpAddress, IpView};
use crate::message::{
    BridgeStpState, InfoBridge, InfoBridgePort, InfoVlan, LinkAttribute, LinkAttributeView,
    LinkInfo, LinkInfoView, LinkMessage, LinkMessageView, NeighbourState, RuleAction,
};
use crate::outside::{eaddrnotavail, eexist, enoent, esrch};

verus! {

/// The scope of a route to what is on the link itself.
pub const RT_SCOPE_LINK: u8 = 253;

/// The origin of a route that was added while setting up.
pub const RTPROT_BOOT: u8 = 3;

/// The flag of a forwarding entry that belongs to the bridge, not to its port.
pub const NTF_MASTER: u8 = 4;

/// An address to add to a link or to remove from it.
#[derive(Debug, Clone, Copy, PartialEq, Eq)]
pub struct AddressRequest {
    pub index: u32,
    pub ip: IpAddress,
    pub prefix_len: u8,
    /// The broadcast address to go with it.
    pub broadcast: Option<u32>,
}

/// A route to add.
#[derive(Debug, Clone, Copy, PartialEq, Eq)]
pub struct RouteRequest {
    pub index: u32,
    pub dst: IpAddress,
    pub prefix_len: u8,
    pub table: u32,
    pub scope: u8,
    pub protocol: u8,
}

/// A policy routing rule to add or to remove.
#[derive(Debug, PartialEq, Eq)]
pub struct RuleRequest {
    pub v6: bool,
    pub iif: String,
    pub table: u32,
    pub action: RuleAction,
}

/// A forwarding entry of a bridge to add.
#[derive(Debug, PartialEq, Eq)]
pub struct FdbRequest {
    pub index: u32,
    pub lladdr: Vec<u8>,
    pub state: NeighbourState,
    pub flags: u8,
}

/// A change that is asked of the kernel.
#[derive(Debug, PartialEq, Eq)]
pub enum Change {
    AddLink(LinkMessage),
    SetLink(LinkMessage),
    /// Delete the link with this index.
    DelLink(u32),
    AddAddress(AddressRequest),
    DelAddress(AddressRequest),
    AddRoute(RouteRequest),
    AddRule(RuleRequest),
    DelRule(RuleRequest),
    AddFdb(FdbRequest),
}

/// A [`Change`] with its texts, addresses, bytes and attributes as sequences.
pub enum ChangeView {
    AddLink(LinkMessageView),
    SetLink(LinkMessageView),
    DelLink(u32),
    AddAddress { index: u32, ip: IpView, prefix_len: u8, broadcast: Option<u32> },
    DelAddress { index: u32, ip: IpView, prefix_len: u8, broadcast: Option<u32> },
    AddRoute { index: u32, dst: IpView, prefix_len: u8, table: u32, scope: u8, protocol: u8 },
    AddRule { v6: bool, iif: Seq<char>, table: u32, action: RuleAction },
    DelRule { v6: bool, iif: Seq<char>, table: u32, action: RuleAction },
    AddFdb { index: u32, lladdr: Seq<u8>, state: NeighbourState, flags: u8 },
}

impl View for Change {
    type V = ChangeView;

    open spec fn view(&self) -> ChangeView {
        match *self {
            Change::AddLink(m) => ChangeView::AddLink(m@),
            Change::SetLink(m) => ChangeView::SetLink(m@),
            Change::DelLink(index) => ChangeView::DelLink(index),
            Change::AddAddress(r) => ChangeView::AddAddress {
                index: r.index,
                ip: r.ip@,
                prefix_len: r.prefix_len,
                broadcast: r.broadcast,
            },
            Change::DelAddress(r) => ChangeView::DelAddress {
                index: r.index,
                ip: r.ip@,
                prefix_len: r.prefix_len,
                broadcast: r.broadcast,
            },
            Change::AddRoute(r) => ChangeView::AddRoute {
                index: r.index,
                dst: r.dst@,
                prefix_len: r.prefix_len,
                table: r.table,
                scope: r.scope,
                protocol: r.protocol,
            },
            Change::AddRule(r) => ChangeView::AddRule {
                v6: r.v6,
                iif: r.iif@,
                table: r.table,
                action: r.action,
            },
            Change::DelRule(r) => ChangeView::DelRule {
                v6: r.v6,
                iif: r.iif@,
                table: r.table,
                action: r.action,
            },
            Change::AddFdb(r) => ChangeView::AddFdb {
                index: r.index,
                lladdr: r.lladdr@,
                state: r.state,
                flags: r.flags,
            },
        }
    }
}

/// The kernel's answer to a change.
#[derive(Debug, PartialEq, Eq)]
pub enum Ack {
    Done,
    /// The kernel refused, with this code (the negative of an error number) and these words.
    Refused(i32, String),
    /// The request failed in another way, with these words.
    Failed(String),
}

/// Which refusals mean that there was nothing left to do.
#[derive(Debug, Clone, Copy, PartialEq, Eq, Structural)]
pub enum Tolerates {
    Nothing,
    /// What was to be added is there already.
    Existing,
    /// The address that was to be removed is gone already.
    MissingAddress,
    /// The rule that was to be removed is gone already.
    MissingRule,
}

/// Whether a refusal with this code is no failure, where `not_available` is the error number
/// for an address that is not there.
pub open spec fn tolerated(tolerates: Tolerates, code: i32, not_available: i32) -> bool {
    match tolerates {
        Tolerates::Nothing => false,
        Tolerates::Existing => code == -17,
        Tolerates::MissingAddress => code == -not_available || code == -2,
        Tolerates::MissingRule => code == -2 || code == -3,
    }
}

/// Whether `n` is the error number for an address that is not there, on some Linux machine.
pub open spec fn is_not_available(n: i32) -> bool {
    n == 99 || n == 126 || n == 49
}

/// What an answer to a change means, where `not_available` is the error number for an address
/// that is not there.
pub open spec fn settled(
    context: ContextView,
    tolerates: Tolerates,
    ack: Ack,
    not_available: i32,
) -> Result<(), ErrorView> {
    match ack {
        Ack::Done => Ok(()),
        Ack::Refused(code, text) => if tolerated(tolerates, code, not_available) {
            Ok(())
        } else {
            Err(ErrorView::Failed(context, text@))
        },
        Ack::Failed(text) => Err(ErrorView::Failed(context, text@)),
    }
}

/// Whether a refusal with this code is no failure.
fn is_tolerated(tolerates: Tolerates, code: i32, not_available: i32) -> (r: bool)
    requires
        not_available > i32::MIN,
    ensures
        r == tolerated(tolerates, code, not_available),
{
    match tolerates {
        Tolerates::Nothing => false,
        Tolerates::Existing => code == -eexist(),
        Tolerates::MissingAddress => code == -not_available || code == -enoent(),
        Tolerates::MissingRule => code == -enoent() || code == -esrch(),
    }
}

/// What an answer to a change means, where `not_available` is the error number for an address
/// that is not there.
pub fn settle_with(context: Context, tolerates: Tolerates, ack: Ack, not_available: i32) -> (r:
    Result<(), Error>)
    requires
        not_available > i32::MIN,
    ensures
        r matches Ok(_) ==> settled(context@, tolerates, ack, not_available) is Ok,
        r matches Err(e) ==> settled(context@, tolerates, ack, not_available) == Err::<
            (),
            ErrorView,
        >(e@),
{
    match ack {
        Ack::Done => Ok(()),
        Ack::Refused(code, text) => if is_tolerated(tolerates, code, not_available) {
            Ok(())
        } else {
            Err(Error::Failed(context, text))
        },
        Ack::Failed(text) => Err(Error::Failed(context, text)),
    }
}

/// What an answer to a change means on this machine. The machine decides only whether the
/// refusal to remove an address says that it is not there.
pub fn settle(context: Context, tolerates: Tolerates, ack: Ack) -> (r: Result<(), Error>)
    ensures
        exists|n: i32|
            #[trigger] is_not_available(n) && match r {
                Ok(_) => settled(context@, tolerates, ack, n) is Ok,
                Err(e) => settled(context@, tolerates, ack, n) == Err::<(), ErrorView>(e@),
            },
{
    let not_available = eaddrnotavail();
    assert(is_not_available(not_available));
    settle_with(context, tolerates, ack, not_available)
}

/// Adding what is there already is no failure.
pub proof fn law_adding_again(context: ContextView, ack: Ack, not_available: i32)
    requires
        ack matches Ack::Refused(code, _) && code == -17,
    ensures
        settled(context, Tolerates::Existing, ack, not_available) is Ok,
{
}

/// Removing an address or a rule that is gone already is no failure.
pub proof fn law_removing_again(context: ContextView, ack: Ack, not_available: i32)
    requires
        is_not_available(not_available),
    ensures
        (ack matches Ack::Refused(code, _) && (code == -2 || code == -not_available)) ==> settled(
            context,
            Tolerates::MissingAddress,
            ack,
            not_available,
        ) is Ok,
        (ack matches Ack::Refused(code, _) && (code == -2 || code == -3)) ==> settled(
            context,
            Tolerates::MissingRule,
            ack,
            not_available,
        ) is Ok,
{
}

/// Every other refusal is a failure, and is reported with what was being done.
pub proof fn law_refusals_are_reported(
    context: ContextView,
    tolerates: Tolerates,
    code: i32,
    text: String,
    not_available: i32,
)
    requires
        is_not_available(not_available),
        code != -17 && code != -2 && code != -3 && code != -not_available,
    ensures
        settled(context, tolerates, Ack::Refused(code, text), not_available) == Err::<
            (),
            ErrorView,
        >(ErrorView::Failed(context, text@)),
{
}

/// A message that creates a VLAN device on the link with this index.
pub open spec fn vlan_link(parent: u32, name: Seq<char>, vid: u16) -> LinkMessageView {
    LinkMessageView {
        index: 0,
        flags: 0,
        change_mask: 0,
        attributes: seq![
            LinkAttributeView::IfName(name),
            LinkAttributeView::Link(parent),
            LinkAttributeView::LinkInfo(
                seq![LinkInfoView::Kind("vlan"@), LinkInfoView::DataVlan(seq![InfoVlan::Id(vid)])],
            ),
        ],
    }
}

/// A message that creates a VLAN device on the link with this index.
pub fn vlan_message(parent: u32, name: String, vid: u16) -> (m: LinkMessage)
    ensures
        m@ == vlan_link(parent, name@, vid),
{
    let data: Vec<InfoVlan> = vec![InfoVlan::Id(vid)];
    let infos: Vec<LinkInfo> = vec![LinkInfo::Kind("vlan".to_owned()), LinkInfo::DataVlan(data)];
    let m = LinkMessage {
        index: 0,
        flags: 0,
        change_mask: 0,
        attributes: vec![
            LinkAttribute::IfName(name),
            LinkAttribute::Link(parent),
            LinkAttribute::LinkInfo(infos),
        ],
    };
    proof {
        assert(data@ =~= seq![InfoVlan::Id(vid)]);
        assert(infos@.map_values(|info: LinkInfo| info@) =~= seq![
            LinkInfoView::Kind("vlan"@),
            LinkInfoView::DataVlan(seq![InfoVlan::Id(vid)]),
        ]);
        assert(m@.attributes =~= vlan_link(parent, name@, vid).attributes);
    }
    m
}

/// A message that sets STP of the bridge with this index.
pub open spec fn stp_link(index: u32, on: bool) -> LinkMessageView {
    LinkMessageView {
        index,
        flags: 0,
        change_mask: 0,
        attributes: seq![
            LinkAttributeView::LinkInfo(
                seq![
                    LinkInfoView::Kind("bridge"@),
                    LinkInfoView::DataBridge(
                        seq![
                            InfoBridge::StpState(
                                if on {
                                    BridgeStpState::KernelStp
                                } else {
                                    BridgeStpState::Disabled
                                },
                            ),
                        ],
                    ),
                ],
            ),
        ],
    }
}

/// A message that sets STP of the bridge with this index.
pub fn stp_message(index: u32, on: bool) -> (m: LinkMessage)
    ensures
        m@ == stp_link(index, on),
{
    let stp = if on {
        BridgeStpState::KernelStp
    } else {
        BridgeStpState::Disabled
    };
    let data: Vec<InfoBridge> = vec![InfoBridge::StpState(stp)];
    let infos: Vec<LinkInfo> = vec![
        LinkInfo::Kind("bridge".to_owned()),
        LinkInfo::DataBridge(data),
    ];
    let m = LinkMessage {
        index,
        flags: 0,
        change_mask: 0,
        attributes: vec![LinkAttribute::LinkInfo(infos)],
    };
    proof {
        assert(data@ =~= seq![InfoBridge::StpState(stp)]);
        assert(infos@.map_values(|info: LinkInfo| info@) =~= seq![
            LinkInfoView::Kind("bridge"@),
            LinkInfoView::DataBridge(seq![InfoBridge::StpState(stp)]),
        ]);
        assert(m@.attributes =~= stp_link(index, on).attributes);
    }
    m
}

/// A message that sets a flag of the bridge port with this index.
pub open spec fn port_link(index: u32, flag: InfoBridgePort) -> LinkMessageView {
    LinkMessageView {
        index,
        flags: 0,
        change_mask: 0,
        attributes: seq![
            LinkAttributeView::LinkInfo(
                seq![LinkInfoView::PortKindBridge, LinkInfoView::PortDataBridge(seq![flag])],
            ),
        ],
    }
}

/// A message that sets a flag of the bridge port with this index.
pub fn port_message(index: u32, flag: InfoBridgePort) -> (m: LinkMessage)
    ensures
        m@ == port_link(index, flag),
{
    let data: Vec<InfoBridgePort> = vec![flag];
    let infos: Vec<LinkInfo> = vec![LinkInfo::PortKindBridge, LinkInfo::PortDataBridge(data)];
    let m = LinkMessage {
        index,
        flags: 0,
        change_mask: 0,
        attributes: vec![LinkAttribute::LinkInfo(infos)],
    };
    proof {
        assert(data@ =~= seq![flag]);
        assert(infos@.map_values(|info: LinkInfo| info@) =~= seq![
            LinkInfoView::PortKindBridge,
            LinkInfoView::PortDataBridge(seq![flag]),
        ]);
        assert(m@.attributes =~= port_link(index, flag).attributes);
    }
    m
}

/// The broadcast address that goes with an address to add: that of its subnet, for an IPv4
/// address whose subnet has room for one.
pub open spec fn broadcast_for(ip: IpView, prefix_len: u8) -> Option<u32> {
    match ip {
        IpView::V4(v) => if prefix_len < 31 {
            Some(broadcast_of(v, prefix_len))
        } else {
            None
        },
        IpView::V6(_) => None,
    }
}

/// The broadcast address that goes with an address to add.
pub fn subnet_broadcast(ip: IpAddress, prefix_len: u8) -> (brd: Option<u32>)
    ensures
        brd == broadcast_for(ip@, prefix_len),
{
    match ip {
        IpAddress::V4(v) => if prefix_len < 31 {
            Some(broadcast(v, prefix_len))
        } else {
            None
        },
        IpAddress::V6(_) => None,
    }
}

} // verus!
