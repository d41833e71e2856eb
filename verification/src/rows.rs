//! The rows that queries report.

use vstd::prelude::*;

use crate::message::{AddressScope, NeighbourState, State};

verus! {

/// An address. `metric` is its route priority, which is reported whether or not it is set.
#[derive(Debug, PartialEq, Eq)]
pub struct AddrRow {
    pub ifname: String,
    pub family: u8,
    pub local: String,
    pub prefixlen: u8,
    pub scope: String,
    pub metric: u32,
    pub noprefixroute: bool,
}

/// A link.
#[derive(Debug, PartialEq, Eq)]
pub struct LinkRow {
    pub ifname: String,
    pub address: String,
    pub operstate: String,
    pub master: String,
    pub mtu: u32,
    pub kind: String,
}

/// A neighbour.
#[derive(Debug, PartialEq, Eq)]
pub struct NeighRow {
    pub dst: String,
    pub lladdr: String,
    pub dev: String,
    pub state: Vec<String>,
}

/// A policy routing rule.
#[derive(Debug, PartialEq, Eq)]
pub struct RuleRow {
    pub priority: u32,
    pub iif: Option<String>,
    pub table: u32,
    pub fwmark: Option<u32>,
    pub fwmask: Option<u32>,
    pub detached: bool,
    /// The action is a lookup in `table`, the one action for which the table means anything.
    pub lookup: bool,
}

/// An [`AddrRow`] with its texts.
#[verifier::ext_equal]
pub struct AddrRowView {
    pub ifname: Seq<char>,
    pub family: u8,
    pub local: Seq<char>,
    pub prefixlen: u8,
    pub scope: Seq<char>,
    pub metric: u32,
    pub noprefixroute: bool,
}

/// A [`LinkRow`] with its texts.
#[verifier::ext_equal]
pub struct LinkRowView {
    pub ifname: Seq<char>,
    pub address: Seq<char>,
    pub operstate: Seq<char>,
    pub master: Seq<char>,
    pub mtu: u32,
    pub kind: Seq<char>,
}

/// A [`NeighRow`] with its texts.
#[verifier::ext_equal]
pub struct NeighRowView {
    pub dst: Seq<char>,
    pub lladdr: Seq<char>,
    pub dev: Seq<char>,
    pub state: Seq<Seq<char>>,
}

/// A [`RuleRow`] with its text.
#[verifier::ext_equal]
pub struct RuleRowView {
    pub priority: u32,
    pub iif: Option<Seq<char>>,
    pub table: u32,
    pub fwmark: Option<u32>,
    pub fwmask: Option<u32>,
    pub detached: bool,
    pub lookup: bool,
}

impl View for AddrRow {
    type V = AddrRowView;

    open spec fn view(&self) -> AddrRowView {
        AddrRowView {
            ifname: self.ifname@,
            family: self.family,
            local: self.local@,
            prefixlen: self.prefixlen,
            scope: self.scope@,
            metric: self.metric,
            noprefixroute: self.noprefixroute,
        }
    }
}

impl View for LinkRow {
    type V = LinkRowView;

    open spec fn view(&self) -> LinkRowView {
        LinkRowView {
            ifname: self.ifname@,
            address: self.address@,
            operstate: self.operstate@,
            master: self.master@,
            mtu: self.mtu,
            kind: self.kind@,
        }
    }
}

impl View for NeighRow {
    type V = NeighRowView;

    open spec fn view(&self) -> NeighRowView {
        NeighRowView {
            dst: self.dst@,
            lladdr: self.lladdr@,
            dev: self.dev@,
            state: crate::text::strings(self.state@),
        }
    }
}

impl View for RuleRow {
    type V = RuleRowView;

    open spec fn view(&self) -> RuleRowView {
        RuleRowView {
            priority: self.priority,
            iif: match self.iif {
                Some(name) => Some(name@),
                None => None,
            },
            table: self.table,
            fwmark: self.fwmark,
            fwmask: self.fwmask,
            detached: self.detached,
            lookup: self.lookup,
        }
    }
}

/// The rows with their texts.
pub open spec fn addr_row_views(rows: Seq<AddrRow>) -> Seq<AddrRowView> {
    rows.map_values(|row: AddrRow| row@)
}

/// The rows with their texts.
pub open spec fn link_row_views(rows: Seq<LinkRow>) -> Seq<LinkRowView> {
    rows.map_values(|row: LinkRow| row@)
}

/// The rows with their texts.
pub open spec fn neigh_row_views(rows: Seq<NeighRow>) -> Seq<NeighRowView> {
    rows.map_values(|row: NeighRow| row@)
}

/// The rows with their texts.
pub open spec fn rule_row_views(rows: Seq<RuleRow>) -> Seq<RuleRowView> {
    rows.map_values(|row: RuleRow| row@)
}

/// The name of an operational state. States that the kernel may add are unknown.
pub open spec fn oper_text(s: State) -> Seq<char> {
    match s {
        State::Up => "UP"@,
        State::Down => "DOWN"@,
        State::LowerLayerDown => "LOWERLAYERDOWN"@,
        State::Testing => "TESTING"@,
        State::Dormant => "DORMANT"@,
        State::NotPresent => "NOTPRESENT"@,
        State::Unknown => "UNKNOWN"@,
        State::Other(_) => "UNKNOWN"@,
    }
}

/// The name of an operational state.
pub fn oper_to_string(s: &State) -> (text: String)
    ensures
        text@ == oper_text(*s),
{
    match s {
        State::Up => "UP".to_owned(),
        State::Down => "DOWN".to_owned(),
        State::LowerLayerDown => "LOWERLAYERDOWN".to_owned(),
        State::Testing => "TESTING".to_owned(),
        State::Dormant => "DORMANT".to_owned(),
        State::NotPresent => "NOTPRESENT".to_owned(),
        _ => "UNKNOWN".to_owned(),
    }
}

/// The name of a neighbour's state. States that are a mix of several have none.
pub open spec fn neigh_state_text(s: NeighbourState) -> Seq<char> {
    match s {
        NeighbourState::Incomplete => "INCOMPLETE"@,
        NeighbourState::Reachable => "REACHABLE"@,
        NeighbourState::Stale => "STALE"@,
        NeighbourState::Delay => "DELAY"@,
        NeighbourState::Probe => "PROBE"@,
        NeighbourState::Failed => "FAILED"@,
        NeighbourState::Noarp => "NOARP"@,
        NeighbourState::Permanent => "PERMANENT"@,
        NeighbourState::NoState => "NONE"@,
        NeighbourState::Other(_) => "NONE"@,
    }
}

/// The one name of a neighbour's state, as a list.
pub fn neigh_states(s: &NeighbourState) -> (names: Vec<String>)
    ensures
        crate::text::strings(names@) == seq![neigh_state_text(*s)],
{
    let name = match s {
        NeighbourState::Incomplete => "INCOMPLETE".to_owned(),
        NeighbourState::Reachable => "REACHABLE".to_owned(),
        NeighbourState::Stale => "STALE".to_owned(),
        NeighbourState::Delay => "DELAY".to_owned(),
        NeighbourState::Probe => "PROBE".to_owned(),
        NeighbourState::Failed => "FAILED".to_owned(),
        NeighbourState::Noarp => "NOARP".to_owned(),
        NeighbourState::Permanent => "PERMANENT".to_owned(),
        _ => "NONE".to_owned(),
    };
    let mut names: Vec<String> = Vec::new();
    names.push(name);
    assert(crate::text::strings(names@) =~= seq![neigh_state_text(*s)]);
    names
}

/// The name of an address's scope.
pub open spec fn scope_text(s: AddressScope) -> Seq<char> {
    match s {
        AddressScope::Universe => "global"@,
        AddressScope::Link => "link"@,
        AddressScope::Host => "host"@,
        AddressScope::Site => "other"@,
        AddressScope::Nowhere => "other"@,
        AddressScope::Other(_) => "other"@,
    }
}

/// The name of an address's scope.
pub fn scope_to_string(s: &AddressScope) -> (text: String)
    ensures
        text@ == scope_text(*s),
{
    match s {
        AddressScope::Universe => "global".to_owned(),
        AddressScope::Link => "link".to_owned(),
        AddressScope::Host => "host".to_owned(),
        _ => "other".to_owned(),
    }
}

} // verus!
