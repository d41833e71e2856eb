//! That what contracts speak of is what a caller gets to see: each view holds the fields of its
//! value, and texts and lists as they are.

use vstd::prelude::*;

use crate::change::{Change, ChangeView};
use crate::error::{Context, ContextView, Error, ErrorView};
use crate::ip::{IpAddress, IpView};
use crate::message::{LinkAttribute, LinkAttributeView, LinkInfo, LinkInfoView, LinkMessage};
use crate::monitor::{MonitorAction, MonitorActionView};
use crate::rows::{AddrRow, LinkRow, NeighRow, RuleRow};
use crate::step::{Action, ActionView, Output, OutputView};
use crate::tap::{Ifreq, TapAction, TapActionView};
use crate::text::strings;

verus! {

/// The texts of some strings are those of each, in their order.
pub proof fn law_strings(items: Seq<String>, i: int)
    ensures
        strings(items).len() == items.len(),
        0 <= i < items.len() ==> strings(items)[i] == items[i]@,
{
}

/// The view of a row holds every field of it.
pub proof fn law_row_views(a: AddrRow, l: LinkRow, n: NeighRow, r: RuleRow, i: int, iif: String)
    ensures
        a@.ifname == a.ifname@,
        a@.family == a.family,
        a@.local == a.local@,
        a@.prefixlen == a.prefixlen,
        a@.scope == a.scope@,
        a@.metric == a.metric,
        a@.noprefixroute == a.noprefixroute,
        l@.ifname == l.ifname@,
        l@.address == l.address@,
        l@.operstate == l.operstate@,
        l@.master == l.master@,
        l@.mtu == l.mtu,
        l@.kind == l.kind@,
        n@.dst == n.dst@,
        n@.lladdr == n.lladdr@,
        n@.dev == n.dev@,
        n@.state.len() == n.state@.len(),
        0 <= i < n.state@.len() ==> n@.state[i] == n.state@[i]@,
        r@.priority == r.priority,
        r.iif == Some(iif) ==> r@.iif == Some(iif@),
        r.iif is None ==> r@.iif is None,
        r@.table == r.table,
        r@.fwmark == r.fwmark,
        r@.fwmask == r.fwmask,
        r@.detached == r.detached,
        r@.lookup == r.lookup,
{
}

/// The view of an output holds the view of every row, in its place, and the text of every
/// address.
pub proof fn law_output_view(output: Output, i: int)
    ensures
        output is Done <==> output@ is Done,
        output matches Output::Addrs(rows) ==> (output@ matches OutputView::Addrs(views)
            && views.len() == rows@.len() && (0 <= i < rows@.len() ==> views[i] == rows@[i]@)),
        output matches Output::Links(rows) ==> (output@ matches OutputView::Links(views)
            && views.len() == rows@.len() && (0 <= i < rows@.len() ==> views[i] == rows@[i]@)),
        output matches Output::Neighs(rows) ==> (output@ matches OutputView::Neighs(views)
            && views.len() == rows@.len() && (0 <= i < rows@.len() ==> views[i] == rows@[i]@)),
        output matches Output::Rules(rows) ==> (output@ matches OutputView::Rules(views)
            && views.len() == rows@.len() && (0 <= i < rows@.len() ==> views[i] == rows@[i]@)),
        output matches Output::HostIps(ips) ==> (output@ matches OutputView::HostIps(texts)
            && texts.len() == ips@.len() && (0 <= i < ips@.len() ==> texts[i] == ips@[i]@)),
{
}

/// The view of an address holds its number or its groups.
pub proof fn law_ip_view(v: u32, groups: [u16; 8])
    ensures
        IpAddress::V4(v)@ == IpView::V4(v),
        IpAddress::V6(groups)@ == IpView::V6(groups@),
{
}

/// The view of a message holds its header, and the view of every attribute in its place; that of
/// an attribute what the attribute gives.
pub proof fn law_link_message_view(m: LinkMessage, a: LinkAttribute, info: LinkInfo, i: int)
    ensures
        m@.index == m.index,
        m@.flags == m.flags,
        m@.change_mask == m.change_mask,
        m@.attributes.len() == m.attributes@.len(),
        0 <= i < m.attributes@.len() ==> m@.attributes[i] == m.attributes@[i]@,
        a matches LinkAttribute::IfName(name) ==> a@ == LinkAttributeView::IfName(name@),
        a matches LinkAttribute::Address(bytes) ==> a@ == LinkAttributeView::Address(bytes@),
        a matches LinkAttribute::OperState(state) ==> a@ == LinkAttributeView::OperState(state),
        a matches LinkAttribute::Controller(index) ==> a@ == LinkAttributeView::Controller(index),
        a matches LinkAttribute::Mtu(mtu) ==> a@ == LinkAttributeView::Mtu(mtu),
        a matches LinkAttribute::Link(index) ==> a@ == LinkAttributeView::Link(index),
        a matches LinkAttribute::LinkInfo(infos) ==> (a@ matches LinkAttributeView::LinkInfo(views)
            && views.len() == infos@.len() && (0 <= i < infos@.len() ==> views[i] == infos@[i]@)),
        a is Other ==> a@ is Other,
        info matches LinkInfo::Kind(name) ==> info@ == LinkInfoView::Kind(name@),
        info matches LinkInfo::DataVlan(data) ==> info@ == LinkInfoView::DataVlan(data@),
        info matches LinkInfo::DataBridge(data) ==> info@ == LinkInfoView::DataBridge(data@),
        info is PortKindBridge ==> info@ is PortKindBridge,
        info matches LinkInfo::PortDataBridge(data) ==> info@ == LinkInfoView::PortDataBridge(
            data@,
        ),
        info is Other ==> info@ is Other,
{
}

/// The view of a change holds every field of the request.
pub proof fn law_change_view(change: Change)
    ensures
        change matches Change::AddLink(m) ==> change@ == ChangeView::AddLink(m@),
        change matches Change::SetLink(m) ==> change@ == ChangeView::SetLink(m@),
        change matches Change::DelLink(index) ==> change@ == ChangeView::DelLink(index),
        change matches Change::AddAddress(r) ==> (change@ matches ChangeView::AddAddress {
            index,
            ip,
            prefix_len,
            broadcast,
        } && index == r.index && ip == r.ip@ && prefix_len == r.prefix_len && broadcast
            == r.broadcast),
        change matches Change::DelAddress(r) ==> (change@ matches ChangeView::DelAddress {
            index,
            ip,
            prefix_len,
            broadcast,
        } && index == r.index && ip == r.ip@ && prefix_len == r.prefix_len && broadcast
            == r.broadcast),
        change matches Change::AddRoute(r) ==> (change@ matches ChangeView::AddRoute {
            index,
            dst,
            prefix_len,
            table,
            scope,
            protocol,
        } && index == r.index && dst == r.dst@ && prefix_len == r.prefix_len && table == r.table
            && scope == r.scope && protocol == r.protocol),
        change matches Change::AddRule(r) ==> (change@ matches ChangeView::AddRule {
            v6,
            iif,
            table,
            action,
        } && v6 == r.v6 && iif == r.iif@ && table == r.table && action == r.action),
        change matches Change::DelRule(r) ==> (change@ matches ChangeView::DelRule {
            v6,
            iif,
            table,
            action,
        } && v6 == r.v6 && iif == r.iif@ && table == r.table && action == r.action),
        change matches Change::AddFdb(r) ==> (change@ matches ChangeView::AddFdb {
            index,
            lladdr,
            state,
            flags,
        } && index == r.index && lladdr == r.lladdr@ && state == r.state && flags == r.flags),
{
}

/// The view of an action holds what is asked for, and what is reported at the end.
pub proof fn law_action_view(action: Action)
    ensures
        action matches Action::LookUp(q) ==> (action@ matches ActionView::LookUp { name, .. }
            && name == q.name@),
        action matches Action::Change(change, p) ==> (action@ matches ActionView::Change {
            change: asked,
            context,
            tolerates,
        } && asked == change@ && context == p.context@ && tolerates == p.tolerates),
        action is DumpLinks <==> action@ is DumpLinks,
        action matches Action::DumpAddresses(index, _) ==> (
        action@ matches ActionView::DumpAddresses { index: asked, .. } && asked == index),
        action matches Action::DumpNeighbours(d) ==> (action@ matches ActionView::DumpNeighbours {
            v6,
            dev,
            index,
            ..
        } && v6 == d.v6 && dev == d.dev@ && index == d.index),
        action matches Action::DumpRules(v6) ==> action@ == (ActionView::DumpRules { v6 }),
        action matches Action::Finish(Ok(output)) ==> action@ == ActionView::Finish(Ok(output@)),
        action matches Action::Finish(Err(e)) ==> action@ == ActionView::Finish(Err(e@)),
{
}

/// The view of an error holds its texts and its cause.
pub proof fn law_error_view(e: Error)
    ensures
        e matches Error::DeviceNotFound(name) ==> e@ == ErrorView::DeviceNotFound(name@),
        e matches Error::BadMac(text, cause) ==> e@ == ErrorView::BadMac(text@, cause),
        e matches Error::MacLength(text) ==> e@ == ErrorView::MacLength(text@),
        e matches Error::NotCidr(text) ==> e@ == ErrorView::NotCidr(text@),
        e is BadAddress ==> e@ is BadAddress,
        e matches Error::BadPrefix(cause) ==> e@ == ErrorView::BadPrefix(cause),
        e matches Error::TapNameTooLong(name) ==> e@ == ErrorView::TapNameTooLong(name@),
        e matches Error::NulByte(at) ==> e@ == ErrorView::NulByte(at as nat),
        e matches Error::Failed(context, cause) ==> e@ == ErrorView::Failed(context@, cause@),
        e matches Error::Outside(cause) ==> e@ == ErrorView::Outside(cause@),
{
}

/// The view of a context holds which it is, and the name of a link that was being looked up.
pub proof fn law_context_view(c: Context)
    ensures
        c is NetlinkConnect ==> c@ is NetlinkConnect,
        c is JoinAddressGroup ==> c@ is JoinAddressGroup,
        c is LinkDump ==> c@ is LinkDump,
        c is AddrDump ==> c@ is AddrDump,
        c is NeighDump ==> c@ is NeighDump,
        c is RuleDump ==> c@ is RuleDump,
        c is LinkAddBridge ==> c@ is LinkAddBridge,
        c is LinkAddVlan ==> c@ is LinkAddVlan,
        c is LinkDel ==> c@ is LinkDel,
        c is LinkSetState ==> c@ is LinkSetState,
        c is LinkSetMaster ==> c@ is LinkSetMaster,
        c is LinkSetMac ==> c@ is LinkSetMac,
        c is LinkSetStp ==> c@ is LinkSetStp,
        c is SetPortFlag ==> c@ is SetPortFlag,
        c is AddrAdd ==> c@ is AddrAdd,
        c is AddrDel ==> c@ is AddrDel,
        c is RouteAdd ==> c@ is RouteAdd,
        c is RuleAdd ==> c@ is RuleAdd,
        c is RuleDel ==> c@ is RuleDel,
        c is FdbAdd ==> c@ is FdbAdd,
        c is OpenTun ==> c@ is OpenTun,
        c is TunSetIff ==> c@ is TunSetIff,
        c is TunSetPersist ==> c@ is TunSetPersist,
        c matches Context::GetLink(name) ==> c@ == ContextView::GetLink(name@),
{
}

/// The views of what the watch and the creation of a TAP device do next hold what is to be done.
pub proof fn law_next_views(m: MonitorAction, t: TapAction, request: Ifreq, i: int)
    ensures
        m is Query ==> m@ is Query,
        m matches MonitorAction::Emit(set) ==> (m@ matches MonitorActionView::Emit(texts)
            && texts.len() == set@.len() && (0 <= i < set@.len() ==> texts[i] == set@[i]@)),
        m is Wait ==> m@ is Wait,
        m matches MonitorAction::Coalesce(millis) ==> m@ == MonitorActionView::Coalesce(millis),
        m matches MonitorAction::Stop(Ok(_)) ==> m@ == MonitorActionView::Stop(Ok(())),
        m matches MonitorAction::Stop(Err(e)) ==> m@ == MonitorActionView::Stop(Err(e@)),
        t matches TapAction::Open(name) ==> t@ == TapActionView::Open(name@),
        t matches TapAction::SetIff(r) ==> t@ == TapActionView::SetIff(r@),
        t is SetPersist ==> t@ is SetPersist,
        t matches TapAction::Finish(Ok(_)) ==> t@ == TapActionView::Finish(Ok(())),
        t matches TapAction::Finish(Err(e)) ==> t@ == TapActionView::Finish(Err(e@)),
        request@.name == request.name@,
        request@.flags == request.flags,
{
}

} // verus!
