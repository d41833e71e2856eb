//! rtnetlink messages, as far as this library reads or writes them.

use vstd::prelude::*;

use crate::ip::IpAddress;

verus! {

/// The operational state of a link.
#[derive(Debug, Clone, Copy, PartialEq, Eq, Structural)]
pub enum State {
    Unknown,
    NotPresent,
    Down,
    LowerLayerDown,
    Testing,
    Dormant,
    Up,
    Other(u8),
}

/// The STP state of a bridge.
#[derive(Debug, Clone, Copy, PartialEq, Eq, Structural)]
pub enum BridgeStpState {
    Disabled,
    KernelStp,
}

/// A setting of a bridge.
#[derive(Debug, Clone, Copy, PartialEq, Eq, Structural)]
pub enum InfoBridge {
    StpState(BridgeStpState),
}

/// A setting of a VLAN device.
#[derive(Debug, Clone, Copy, PartialEq, Eq, Structural)]
pub enum InfoVlan {
    Id(u16),
}

/// A setting of a bridge port.
#[derive(Debug, Clone, Copy, PartialEq, Eq, Structural)]
pub enum InfoBridgePort {
    Isolated(bool),
    Locked(bool),
}

/// What a link is, and the settings of that kind.
#[derive(Debug, PartialEq, Eq)]
pub enum LinkInfo {
    /// The kernel's name for the kind.
    Kind(String),
    /// Settings of a VLAN device.
    DataVlan(Vec<InfoVlan>),
    /// Settings of a bridge.
    DataBridge(Vec<InfoBridge>),
    /// The link is a port of a bridge.
    PortKindBridge,
    /// Settings of a bridge port.
    PortDataBridge(Vec<InfoBridgePort>),
    /// Anything else.
    Other,
}

/// An attribute of a link.
#[derive(Debug, PartialEq, Eq)]
pub enum LinkAttribute {
    IfName(String),
    /// The link-layer address.
    Address(Vec<u8>),
    OperState(State),
    /// The index of the master.
    Controller(u32),
    Mtu(u32),
    /// The index of the parent.
    Link(u32),
    LinkInfo(Vec<LinkInfo>),
    /// Anything else.
    Other,
}

/// A link, or what to make or change of one.
#[derive(Debug, PartialEq, Eq)]
pub struct LinkMessage {
    pub index: u32,
    pub flags: u32,
    pub change_mask: u32,
    pub attributes: Vec<LinkAttribute>,
}

/// A [`LinkInfo`] with its text and settings as sequences.
pub enum LinkInfoView {
    Kind(Seq<char>),
    DataVlan(Seq<InfoVlan>),
    DataBridge(Seq<InfoBridge>),
    PortKindBridge,
    PortDataBridge(Seq<InfoBridgePort>),
    Other,
}

impl View for LinkInfo {
    type V = LinkInfoView;

    open spec fn view(&self) -> LinkInfoView {
        match *self {
            LinkInfo::Kind(name) => LinkInfoView::Kind(name@),
            LinkInfo::DataVlan(data) => LinkInfoView::DataVlan(data@),
            LinkInfo::DataBridge(data) => LinkInfoView::DataBridge(data@),
            LinkInfo::PortKindBridge => LinkInfoView::PortKindBridge,
            LinkInfo::PortDataBridge(data) => LinkInfoView::PortDataBridge(data@),
            LinkInfo::Other => LinkInfoView::Other,
        }
    }
}

/// A [`LinkAttribute`] with its text, bytes and settings as sequences.
pub enum LinkAttributeView {
    IfName(Seq<char>),
    Address(Seq<u8>),
    OperState(State),
    Controller(u32),
    Mtu(u32),
    Link(u32),
    LinkInfo(Seq<LinkInfoView>),
    Other,
}

impl View for LinkAttribute {
    type V = LinkAttributeView;

    open spec fn view(&self) -> LinkAttributeView {
        match *self {
            LinkAttribute::IfName(name) => LinkAttributeView::IfName(name@),
            LinkAttribute::Address(bytes) => LinkAttributeView::Address(bytes@),
            LinkAttribute::OperState(state) => LinkAttributeView::OperState(state),
            LinkAttribute::Controller(index) => LinkAttributeView::Controller(index),
            LinkAttribute::Mtu(mtu) => LinkAttributeView::Mtu(mtu),
            LinkAttribute::Link(index) => LinkAttributeView::Link(index),
            LinkAttribute::LinkInfo(infos) => LinkAttributeView::LinkInfo(
                infos@.map_values(|info: LinkInfo| info@),
            ),
            LinkAttribute::Other => LinkAttributeView::Other,
        }
    }
}

/// A [`LinkMessage`] with its attributes as a sequence.
pub struct LinkMessageView {
    pub index: u32,
    pub flags: u32,
    pub change_mask: u32,
    pub attributes: Seq<LinkAttributeView>,
}

impl View for LinkMessage {
    type V = LinkMessageView;

    open spec fn view(&self) -> LinkMessageView {
        LinkMessageView {
            index: self.index,
            flags: self.flags,
            change_mask: self.change_mask,
            attributes: self.attributes@.map_values(|a: LinkAttribute| a@),
        }
    }
}

/// The family of an address.
#[derive(Debug, Clone, Copy, PartialEq, Eq, Structural)]
pub enum AddressFamily {
    Inet,
    Inet6,
    Other,
}

/// The scope of an address.
#[derive(Debug, Clone, Copy, PartialEq, Eq, Structural)]
pub enum AddressScope {
    Universe,
    Site,
    Link,
    Host,
    Nowhere,
    Other(u8),
}

/// An attribute of an address.
#[derive(Debug, Clone, Copy, PartialEq, Eq)]
pub enum AddressAttribute {
    Local(IpAddress),
    Address(IpAddress),
    RoutePriority(u32),
    /// The flag bits.
    Flags(u32),
    /// Anything else.
    Other,
}

/// An address of a link.
#[derive(Debug, PartialEq, Eq)]
pub struct AddressMessage {
    pub family: AddressFamily,
    pub index: u32,
    pub prefix_len: u8,
    pub scope: AddressScope,
    pub attributes: Vec<AddressAttribute>,
}

/// The state of a neighbour.
#[derive(Debug, Clone, Copy, PartialEq, Eq, Structural)]
pub enum NeighbourState {
    Incomplete,
    Reachable,
    Stale,
    Delay,
    Probe,
    Failed,
    Noarp,
    Permanent,
    NoState,
    Other(u16),
}

/// An attribute of a neighbour.
#[derive(Debug, PartialEq, Eq)]
pub enum NeighbourAttribute {
    Destination(IpAddress),
    LinkLayerAddress(Vec<u8>),
    /// Anything else.
    Other,
}

/// A neighbour on a link.
#[derive(Debug, PartialEq, Eq)]
pub struct NeighbourMessage {
    pub ifindex: u32,
    pub state: NeighbourState,
    pub attributes: Vec<NeighbourAttribute>,
}

/// What a policy routing rule does.
#[derive(Debug, Clone, Copy, PartialEq, Eq, Structural)]
pub enum RuleAction {
    Unspec,
    ToTable,
    Goto,
    Nop,
    Blackhole,
    Unreachable,
    Prohibit,
    Other(u8),
}

/// An attribute of a rule.
#[derive(Debug, PartialEq, Eq)]
pub enum RuleAttribute {
    Priority(u32),
    Iifname(String),
    Table(u32),
    FwMark(u32),
    FwMask(u32),
    /// Anything else.
    Other,
}

/// A policy routing rule.
#[derive(Debug, PartialEq, Eq)]
pub struct RuleMessage {
    pub table: u8,
    pub action: RuleAction,
    /// The flag bits.
    pub flags: u32,
    pub attributes: Vec<RuleAttribute>,
}

} // verus!
