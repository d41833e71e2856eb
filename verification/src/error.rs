//! What can go wrong, and the words for it.

use vstd::prelude::*;

use crate::number::{numeral, numeral_of, IntError};
use crate::text::string_of;

verus! {

/// What was being done when an outside request failed.
#[derive(Debug, PartialEq, Eq)]
pub enum Context {
    /// Opening the netlink connection.
    NetlinkConnect,
    /// Joining the IPv4 address group.
    JoinAddressGroup,
    /// Listing links.
    LinkDump,
    /// Listing addresses.
    AddrDump,
    /// Listing neighbours.
    NeighDump,
    /// Listing rules.
    RuleDump,
    /// Creating a bridge.
    LinkAddBridge,
    /// Creating a VLAN device.
    LinkAddVlan,
    /// Deleting a link.
    LinkDel,
    /// Setting a link up or down.
    LinkSetState,
    /// Setting a link's master.
    LinkSetMaster,
    /// Setting a link's MAC address.
    LinkSetMac,
    /// Switching STP of a bridge.
    LinkSetStp,
    /// Switching a bridge port flag.
    SetPortFlag,
    /// Adding an address.
    AddrAdd,
    /// Removing an address.
    AddrDel,
    /// Adding a route.
    RouteAdd,
    /// Adding a rule.
    RuleAdd,
    /// Removing a rule.
    RuleDel,
    /// Adding a forwarding entry.
    FdbAdd,
    /// Opening the TUN control device.
    OpenTun,
    /// Creating the TAP device.
    TunSetIff,
    /// Making the TAP device persistent.
    TunSetPersist,
    /// Looking up the named link.
    GetLink(String),
}

/// A [`Context`] with its text.
pub enum ContextView {
    NetlinkConnect,
    JoinAddressGroup,
    LinkDump,
    AddrDump,
    NeighDump,
    RuleDump,
    LinkAddBridge,
    LinkAddVlan,
    LinkDel,
    LinkSetState,
    LinkSetMaster,
    LinkSetMac,
    LinkSetStp,
    SetPortFlag,
    AddrAdd,
    AddrDel,
    RouteAdd,
    RuleAdd,
    RuleDel,
    FdbAdd,
    OpenTun,
    TunSetIff,
    TunSetPersist,
    GetLink(Seq<char>),
}

impl View for Context {
    type V = ContextView;

    open spec fn view(&self) -> ContextView {
        match *self {
            Context::NetlinkConnect => ContextView::NetlinkConnect,
            Context::JoinAddressGroup => ContextView::JoinAddressGroup,
            Context::LinkDump => ContextView::LinkDump,
            Context::AddrDump => ContextView::AddrDump,
            Context::NeighDump => ContextView::NeighDump,
            Context::RuleDump => ContextView::RuleDump,
            Context::LinkAddBridge => ContextView::LinkAddBridge,
            Context::LinkAddVlan => ContextView::LinkAddVlan,
            Context::LinkDel => ContextView::LinkDel,
            Context::LinkSetState => ContextView::LinkSetState,
            Context::LinkSetMaster => ContextView::LinkSetMaster,
            Context::LinkSetMac => ContextView::LinkSetMac,
            Context::LinkSetStp => ContextView::LinkSetStp,
            Context::SetPortFlag => ContextView::SetPortFlag,
            Context::AddrAdd => ContextView::AddrAdd,
            Context::AddrDel => ContextView::AddrDel,
            Context::RouteAdd => ContextView::RouteAdd,
            Context::RuleAdd => ContextView::RuleAdd,
            Context::RuleDel => ContextView::RuleDel,
            Context::FdbAdd => ContextView::FdbAdd,
            Context::OpenTun => ContextView::OpenTun,
            Context::TunSetIff => ContextView::TunSetIff,
            Context::TunSetPersist => ContextView::TunSetPersist,
            Context::GetLink(name) => ContextView::GetLink(name@),
        }
    }
}

impl ContextView {
    /// The words for this context.
    pub open spec fn words(self) -> Seq<char> {
        match self {
            ContextView::NetlinkConnect => "netlink connect"@,
            ContextView::JoinAddressGroup => "join RTNLGRP_IPV4_IFADDR"@,
            ContextView::LinkDump => "link dump"@,
            ContextView::AddrDump => "addr dump"@,
            ContextView::NeighDump => "neigh dump"@,
            ContextView::RuleDump => "rule dump"@,
            ContextView::LinkAddBridge => "link_add_bridge"@,
            ContextView::LinkAddVlan => "link_add_vlan"@,
            ContextView::LinkDel => "link_del"@,
            ContextView::LinkSetState => "link_set_state"@,
            ContextView::LinkSetMaster => "link_set_master"@,
            ContextView::LinkSetMac => "link_set_mac"@,
            ContextView::LinkSetStp => "link_set_stp"@,
            ContextView::SetPortFlag => "set_port_flag"@,
            ContextView::AddrAdd => "addr_add"@,
            ContextView::AddrDel => "addr_del"@,
            ContextView::RouteAdd => "route_add"@,
            ContextView::RuleAdd => "rule_add"@,
            ContextView::RuleDel => "rule_del"@,
            ContextView::FdbAdd => "fdb_add"@,
            ContextView::OpenTun => "open /dev/net/tun"@,
            ContextView::TunSetIff => "TUNSETIFF"@,
            ContextView::TunSetPersist => "TUNSETPERSIST"@,
            ContextView::GetLink(name) => "get_link "@ + name,
        }
    }
}

impl Context {
    /// The words for this context.
    pub fn text(&self) -> (text: String)
        ensures
            text@ == self@.words(),
    {
        match self {
            Context::NetlinkConnect => "netlink connect".to_owned(),
            Context::JoinAddressGroup => "join RTNLGRP_IPV4_IFADDR".to_owned(),
            Context::LinkDump => "link dump".to_owned(),
            Context::AddrDump => "addr dump".to_owned(),
            Context::NeighDump => "neigh dump".to_owned(),
            Context::RuleDump => "rule dump".to_owned(),
            Context::LinkAddBridge => "link_add_bridge".to_owned(),
            Context::LinkAddVlan => "link_add_vlan".to_owned(),
            Context::LinkDel => "link_del".to_owned(),
            Context::LinkSetState => "link_set_state".to_owned(),
            Context::LinkSetMaster => "link_set_master".to_owned(),
            Context::LinkSetMac => "link_set_mac".to_owned(),
            Context::LinkSetStp => "link_set_stp".to_owned(),
            Context::SetPortFlag => "set_port_flag".to_owned(),
            Context::AddrAdd => "addr_add".to_owned(),
            Context::AddrDel => "addr_del".to_owned(),
            Context::RouteAdd => "route_add".to_owned(),
            Context::RuleAdd => "rule_add".to_owned(),
            Context::RuleDel => "rule_del".to_owned(),
            Context::FdbAdd => "fdb_add".to_owned(),
            Context::OpenTun => "open /dev/net/tun".to_owned(),
            Context::TunSetIff => "TUNSETIFF".to_owned(),
            Context::TunSetPersist => "TUNSETPERSIST".to_owned(),
            Context::GetLink(name) => "get_link ".to_owned().concat(name.as_str()),
        }
    }
}

/// An error of this library.
#[derive(Debug, PartialEq, Eq)]
pub enum Error {
    /// No link has this name.
    DeviceNotFound(String),
    /// A MAC address holds an octet that is no hexadecimal byte.
    BadMac(String, IntError),
    /// A MAC address has another number of octets than six.
    MacLength(String),
    /// An address and prefix length are not separated by a slash.
    NotCidr(String),
    /// Text that is no IP address.
    BadAddress,
    /// A prefix length that is no byte.
    BadPrefix(IntError),
    /// A TAP name that does not fit an interface request.
    TapNameTooLong(String),
    /// A name with a zero byte at this position.
    NulByte(usize),
    /// An outside request failed: what was being done, and the outside error's words.
    Failed(Context, String),
    /// An outside error that needs no context.
    Outside(String),
}

/// An [`Error`] with its texts.
pub enum ErrorView {
    DeviceNotFound(Seq<char>),
    BadMac(Seq<char>, IntError),
    MacLength(Seq<char>),
    NotCidr(Seq<char>),
    BadAddress,
    BadPrefix(IntError),
    TapNameTooLong(Seq<char>),
    NulByte(nat),
    Failed(ContextView, Seq<char>),
    Outside(Seq<char>),
}

impl View for Error {
    type V = ErrorView;

    open spec fn view(&self) -> ErrorView {
        match *self {
            Error::DeviceNotFound(name) => ErrorView::DeviceNotFound(name@),
            Error::BadMac(text, e) => ErrorView::BadMac(text@, e),
            Error::MacLength(text) => ErrorView::MacLength(text@),
            Error::NotCidr(text) => ErrorView::NotCidr(text@),
            Error::BadAddress => ErrorView::BadAddress,
            Error::BadPrefix(e) => ErrorView::BadPrefix(e),
            Error::TapNameTooLong(name) => ErrorView::TapNameTooLong(name@),
            Error::NulByte(at) => ErrorView::NulByte(at as nat),
            Error::Failed(context, cause) => ErrorView::Failed(context@, cause@),
            Error::Outside(cause) => ErrorView::Outside(cause@),
        }
    }
}

impl ErrorView {
    /// The words for this error: a context before its cause, with a colon between.
    pub open spec fn words(self) -> Seq<char> {
        match self {
            ErrorView::DeviceNotFound(name) => "device not found: "@ + name,
            ErrorView::BadMac(text, e) => "bad MAC: "@ + text + ": "@ + e.words(),
            ErrorView::MacLength(text) => "MAC must be 6 octets: "@ + text,
            ErrorView::NotCidr(text) => "not a CIDR: "@ + text,
            ErrorView::BadAddress => "invalid IP address syntax"@,
            ErrorView::BadPrefix(e) => e.words(),
            ErrorView::TapNameTooLong(name) => "tap name too long: "@ + name,
            ErrorView::NulByte(at) => "nul byte found in provided data at position: "@ + numeral(
                at,
                10,
            ),
            ErrorView::Failed(context, cause) => context.words() + ": "@ + cause,
            ErrorView::Outside(cause) => cause,
        }
    }
}

impl Error {
    /// The words for this error.
    pub fn text(&self) -> (text: String)
        ensures
            text@ == self@.words(),
    {
        match self {
            Error::DeviceNotFound(name) => "device not found: ".to_owned().concat(name.as_str()),
            Error::BadMac(mac, e) => "bad MAC: ".to_owned().concat(mac.as_str()).concat(
                ": ",
            ).concat(e.text().as_str()),
            Error::MacLength(mac) => "MAC must be 6 octets: ".to_owned().concat(mac.as_str()),
            Error::NotCidr(cidr) => "not a CIDR: ".to_owned().concat(cidr.as_str()),
            Error::BadAddress => "invalid IP address syntax".to_owned(),
            Error::BadPrefix(e) => e.text(),
            Error::TapNameTooLong(name) => "tap name too long: ".to_owned().concat(name.as_str()),
            Error::NulByte(at) => "nul byte found in provided data at position: ".to_owned().concat(
                string_of(&numeral_of(*at as u64, 10)).as_str(),
            ),
            Error::Failed(context, cause) => context.text().concat(": ").concat(cause.as_str()),
            Error::Outside(cause) => cause.clone(),
        }
    }
}

} // verus!
