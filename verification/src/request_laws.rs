//! What each command asks of the kernel, and what it makes of the answers, from the command's
//! arguments to the requests in full.

use vstd::prelude::*;

use crate::addresses::{addr_rows_of, host_set_of};
use crate::args::cidr_of;
use crate::change::{is_not_available, Ack, ChangeView, Tolerates};
use crate::command::{first_action, launch_of, Cmd, Launch};
use crate::course::{course, follow, lemma_one, lemma_three, lemma_two, Answer};
use crate::error::{ContextView, ErrorView};
use crate::ip::{law_broadcast, IpView};
use crate::links::{bridges_of, link_rows_of, names_of};
use crate::mac::mac_of;
use crate::message::{
    AddressMessage, BridgeStpState, InfoBridge, InfoBridgePort, InfoVlan, LinkAttributeView,
    LinkInfoView, LinkMessage, LinkMessageView, NeighbourMessage, NeighbourState, RuleAction,
    RuleMessage,
};
use crate::neighbours::neigh_rows_of;
use crate::rules::rule_rows_of;
use crate::step::{ActionView, AfterLookUpView, Found, OutputView};
use crate::text::strings;

verus! {

/// Whether an action asks for the link with this name.
pub open spec fn asks_for(action: ActionView, name: Seq<char>) -> bool {
    action matches ActionView::LookUp { name: asked, .. } && asked == name
}

/// The answer that a link was found with this index.
pub open spec fn at_index(index: u32) -> Answer {
    Answer::Found(Found::Index(index))
}

/// A TAP device is created and the watch is run apart; every other command, as it is, is one
/// operation on a fresh connection.
pub proof fn law_launch(cmd: Cmd, name: String, iface: Vec<String>, exclude_metric: Option<u32>)
    ensures
        launch_of(Cmd::LinkAddTap { name }) == Launch::Tap(name),
        launch_of(Cmd::MonitorAddr { iface, exclude_metric }) == Launch::Monitor(
            iface,
            exclude_metric,
        ),
        !(cmd is LinkAddTap) && !(cmd is MonitorAddr) ==> launch_of(cmd) == Launch::Oneshot(cmd),
{
}

/// A change that the kernel makes succeeds. A refusal is no failure if and only if it says, by
/// the number of its error, that there is nothing left to do: 17 where what exists is tolerated,
/// 2 or 3 where a missing rule is, and 2 or the number for an address that is not there where a
/// missing address is. Any other refusal, and any other failure, is reported with what was being
/// done.
pub proof fn law_outcome(
    change: ChangeView,
    context: ContextView,
    tolerates: Tolerates,
    code: i32,
    text: String,
    n: i32,
)
    ensures
        ({
            let asked = ActionView::Change { change, context, tolerates };
            let answered = follow(asked, Answer::Ack(Ack::Refused(code, text), n));
            let nothing_left = (tolerates is Existing && code == -17) || (tolerates is MissingRule
                && (code == -2 || code == -3)) || (tolerates is MissingAddress && (code == -2 || code
                == -n));
            &&& follow(asked, Answer::Ack(Ack::Done, n)) == ActionView::Finish(Ok(OutputView::Done))
            &&& follow(asked, Answer::Ack(Ack::Failed(text), n)) == ActionView::Finish(
                Err(ErrorView::Failed(context, text@)),
            )
            &&& nothing_left ==> answered == ActionView::Finish(Ok(OutputView::Done))
            &&& !nothing_left ==> answered == ActionView::Finish(
                Err(ErrorView::Failed(context, text@)),
            )
        }),
        is_not_available(n) <==> n == 99 || n == 126 || n == 49,
{
}

/// A list that cannot be had ends the query, and the failure says which list.
pub proof fn law_list_fails(action: ActionView, text: String)
    ensures
        action is DumpLinks ==> follow(action, Answer::Links(Err(text))) == ActionView::Finish(
            Err(ErrorView::Failed(ContextView::LinkDump, text@)),
        ),
        action is DumpAddresses ==> follow(action, Answer::Addresses(Err(text)))
            == ActionView::Finish(Err(ErrorView::Failed(ContextView::AddrDump, text@))),
        action is DumpNeighbours ==> follow(action, Answer::Neighbours(Err(text)))
            == ActionView::Finish(Err(ErrorView::Failed(ContextView::NeighDump, text@))),
        action is DumpRules ==> follow(action, Answer::Rules(Err(text))) == ActionView::Finish(
            Err(ErrorView::Failed(ContextView::RuleDump, text@)),
        ),
{
}

/// A bridge is created with its name, and is up.
pub proof fn law_link_add_bridge(name: String)
    ensures
        first_action(Cmd::LinkAddBridge { name }) == (ActionView::Change {
            change: ChangeView::AddLink(
                LinkMessageView {
                    index: 0,
                    flags: 1,
                    change_mask: 1,
                    attributes: seq![
                        LinkAttributeView::IfName(name@),
                        LinkAttributeView::LinkInfo(seq![LinkInfoView::Kind("bridge"@)]),
                    ],
                },
            ),
            context: ContextView::LinkAddBridge,
            tolerates: Tolerates::Nothing,
        }),
{
}

/// A VLAN device is created with its name and number, on the link that was asked for.
pub proof fn law_link_add_vlan(link: String, name: String, id: u16, i: u32)
    ensures
        asks_for(first_action(Cmd::LinkAddVlan { link, name, id }), link@),
        course(first_action(Cmd::LinkAddVlan { link, name, id }), seq![at_index(i)]) == (
        ActionView::Change {
            change: ChangeView::AddLink(
                LinkMessageView {
                    index: 0,
                    flags: 0,
                    change_mask: 0,
                    attributes: seq![
                        LinkAttributeView::IfName(name@),
                        LinkAttributeView::Link(i),
                        LinkAttributeView::LinkInfo(
                            seq![
                                LinkInfoView::Kind("vlan"@),
                                LinkInfoView::DataVlan(seq![InfoVlan::Id(id)]),
                            ],
                        ),
                    ],
                },
            ),
            context: ContextView::LinkAddVlan,
            tolerates: Tolerates::Nothing,
        }),
{
    lemma_one(first_action(Cmd::LinkAddVlan { link, name, id }), at_index(i));
}

/// The link that was asked for is deleted; where it cannot be found, nothing is asked and the
/// command succeeds.
pub proof fn law_link_del(name: String, i: u32, text: String)
    ensures
        asks_for(first_action(Cmd::LinkDel { name }), name@),
        course(first_action(Cmd::LinkDel { name }), seq![at_index(i)]) == (ActionView::Change {
            change: ChangeView::DelLink(i),
            context: ContextView::LinkDel,
            tolerates: Tolerates::Nothing,
        }),
        course(first_action(Cmd::LinkDel { name }), seq![Answer::Found(Found::Missing)])
            == ActionView::Finish(Ok(OutputView::Done)),
        course(first_action(Cmd::LinkDel { name }), seq![Answer::Found(Found::Failed(text))])
            == ActionView::Finish(Ok(OutputView::Done)),
{
    let first = first_action(Cmd::LinkDel { name });
    lemma_one(first, at_index(i));
    lemma_one(first, Answer::Found(Found::Missing));
    lemma_one(first, Answer::Found(Found::Failed(text)));
}

/// Any other command that asks for a link fails where the link cannot be found, and says which
/// link; where the request failed, with the words of that failure.
pub proof fn law_link_not_found(action: ActionView, name: Seq<char>, text: String)
    requires
        asks_for(action, name),
        !(action matches ActionView::LookUp { next: AfterLookUpView::Del, .. }),
    ensures
        follow(action, Answer::Found(Found::Missing)) == ActionView::Finish(
            Err(ErrorView::DeviceNotFound(name)),
        ),
        follow(action, Answer::Found(Found::Failed(text))) == ActionView::Finish(
            Err(ErrorView::Failed(ContextView::GetLink(name), text@)),
        ),
{
}

/// Only the command that deletes a link asks for one in order to delete it.
pub proof fn law_only_delete_deletes(cmd: Cmd)
    requires
        !(cmd is LinkAddTap) && !(cmd is MonitorAddr),
    ensures
        first_action(cmd) matches ActionView::LookUp { next: AfterLookUpView::Del, .. }
            ==> cmd is LinkDel,
{
}

/// The link that was asked for is set up where the state is `up`, and down otherwise, by the one
/// flag for it.
pub proof fn law_link_set_state(name: String, state: String, i: u32)
    ensures
        asks_for(first_action(Cmd::LinkSetState { name, state }), name@),
        course(first_action(Cmd::LinkSetState { name, state }), seq![at_index(i)]) == (
        ActionView::Change {
            change: ChangeView::SetLink(
                LinkMessageView {
                    index: i,
                    flags: if state@ == "up"@ {
                        1
                    } else {
                        0
                    },
                    change_mask: 1,
                    attributes: Seq::empty(),
                },
            ),
            context: ContextView::LinkSetState,
            tolerates: Tolerates::Nothing,
        }),
{
    lemma_one(first_action(Cmd::LinkSetState { name, state }), at_index(i));
}

/// A request that sets one attribute of a link and changes no flag.
pub open spec fn sets(
    index: u32,
    attribute: LinkAttributeView,
    context: ContextView,
) -> ActionView {
    ActionView::Change {
        change: ChangeView::SetLink(
            LinkMessageView { index, flags: 0, change_mask: 0, attributes: seq![attribute] },
        ),
        context,
        tolerates: Tolerates::Nothing,
    }
}

/// A link is put under a master: the link is asked for, then the master, and the link gets the
/// master's index. To be under none is to get the index zero.
pub proof fn law_link_set_master(iface: String, master: String, i: u32, m: u32)
    ensures
        asks_for(first_action(Cmd::LinkSetMaster { iface, master }), iface@),
        asks_for(
            course(first_action(Cmd::LinkSetMaster { iface, master }), seq![at_index(i)]),
            master@,
        ),
        !(course(
            first_action(Cmd::LinkSetMaster { iface, master }),
            seq![at_index(i)],
        ) matches ActionView::LookUp { next: AfterLookUpView::Del, .. }),
        course(first_action(Cmd::LinkSetMaster { iface, master }), seq![at_index(i), at_index(m)])
            == sets(i, LinkAttributeView::Controller(m), ContextView::LinkSetMaster),
        asks_for(first_action(Cmd::LinkSetNomaster { iface }), iface@),
        course(first_action(Cmd::LinkSetNomaster { iface }), seq![at_index(i)]) == sets(
            i,
            LinkAttributeView::Controller(0),
            ContextView::LinkSetMaster,
        ),
{
    let first = first_action(Cmd::LinkSetMaster { iface, master });
    lemma_one(first, at_index(i));
    lemma_two(first, at_index(i), at_index(m));
    lemma_one(first_action(Cmd::LinkSetNomaster { iface }), at_index(i));
}

/// The link that was asked for gets the bytes of the MAC address; one that cannot be read ends
/// the command with its error.
pub proof fn law_link_set_mac(dev: String, mac: String, i: u32)
    ensures
        asks_for(first_action(Cmd::LinkSetMac { dev, mac }), dev@),
        mac_of(mac@) matches Ok(bytes) ==> course(
            first_action(Cmd::LinkSetMac { dev, mac }),
            seq![at_index(i)],
        ) == sets(i, LinkAttributeView::Address(bytes), ContextView::LinkSetMac),
        mac_of(mac@) matches Err(e) ==> course(
            first_action(Cmd::LinkSetMac { dev, mac }),
            seq![at_index(i)],
        ) == ActionView::Finish(Err(e)),
{
    lemma_one(first_action(Cmd::LinkSetMac { dev, mac }), at_index(i));
}

/// STP of the bridge that was asked for is switched to the kernel's, or off.
pub proof fn law_link_set_stp(bridge: String, on: bool, i: u32)
    ensures
        asks_for(first_action(Cmd::LinkSetStp { bridge, on }), bridge@),
        course(first_action(Cmd::LinkSetStp { bridge, on }), seq![at_index(i)]) == sets(
            i,
            LinkAttributeView::LinkInfo(
                seq![
                    LinkInfoView::Kind("bridge"@),
                    LinkInfoView::DataBridge(
                        seq![
                            InfoBridge::StpState(
                                if on {
                                    BridgeStpState::KernelStp
                                } else {
                                    BridgeStpState::Disabled
                                },
                            ),
                        ],
                    ),
                ],
            ),
            ContextView::LinkSetStp,
        ),
{
    lemma_one(first_action(Cmd::LinkSetStp { bridge, on }), at_index(i));
}

/// The isolation, or the MAC locking, of the bridge port that was asked for is switched.
pub proof fn law_link_set_port(dev: String, on: bool, i: u32)
    ensures
        asks_for(first_action(Cmd::LinkSetIsolated { dev, on }), dev@),
        asks_for(first_action(Cmd::LinkSetLocked { dev, on }), dev@),
        course(first_action(Cmd::LinkSetIsolated { dev, on }), seq![at_index(i)]) == sets(
            i,
            LinkAttributeView::LinkInfo(
                seq![
                    LinkInfoView::PortKindBridge,
                    LinkInfoView::PortDataBridge(seq![InfoBridgePort::Isolated(on)]),
                ],
            ),
            ContextView::SetPortFlag,
        ),
        course(first_action(Cmd::LinkSetLocked { dev, on }), seq![at_index(i)]) == sets(
            i,
            LinkAttributeView::LinkInfo(
                seq![
                    LinkInfoView::PortKindBridge,
                    LinkInfoView::PortDataBridge(seq![InfoBridgePort::Locked(on)]),
                ],
            ),
            ContextView::SetPortFlag,
        ),
{
    lemma_one(first_action(Cmd::LinkSetIsolated { dev, on }), at_index(i));
    lemma_one(first_action(Cmd::LinkSetLocked { dev, on }), at_index(i));
}

/// An address is added to the link that was asked for, with its prefix length. An IPv4 address
/// whose prefix leaves at least two bits for the host goes with a broadcast address, which has
/// the bits of the prefix and every other bit set; any other address goes with none. An address
/// that cannot be read ends the command before anything is asked.
pub proof fn law_addr_add(dev: String, cidr: String, i: u32)
    ensures
        cidr_of(cidr@) matches Err(e) ==> first_action(Cmd::AddrAdd { dev, cidr })
            == ActionView::Finish(Err(e)),
        cidr_of(cidr@) matches Ok((ip, plen)) ==> {
            &&& asks_for(first_action(Cmd::AddrAdd { dev, cidr }), dev@)
            &&& course(
                first_action(Cmd::AddrAdd { dev, cidr }),
                seq![at_index(i)],
            ) matches ActionView::Change { change, context, tolerates }
            &&& context == ContextView::AddrAdd
            &&& tolerates == Tolerates::Nothing
            &&& change matches ChangeView::AddAddress { index, ip: added, prefix_len, broadcast }
            &&& index == i
            &&& added == ip
            &&& prefix_len == plen
            &&& ip is V6 || plen >= 31 ==> broadcast is None
            &&& ip matches IpView::V4(v) ==> (plen < 31 ==> {
                let host = 0xffff_ffffu32 >> (plen as u32);
                &&& broadcast is Some
                &&& broadcast.unwrap() & host == host
                &&& plen > 0 ==> broadcast.unwrap() >> ((32 - plen) as u32) == v >> ((32 - plen)
                    as u32)
            })
        },
{
    if let Ok((ip, plen)) = cidr_of(cidr@) {
        lemma_one(first_action(Cmd::AddrAdd { dev, cidr }), at_index(i));
        if let IpView::V4(v) = ip {
            if plen < 31 {
                law_broadcast(v, plen);
            }
        }
    }
}

/// An address is removed from the link that was asked for, with its prefix length and no
/// broadcast address; one that is gone already is tolerated. An address that cannot be read ends
/// the command before anything is asked.
pub proof fn law_addr_del(dev: String, cidr: String, i: u32)
    ensures
        cidr_of(cidr@) matches Err(e) ==> first_action(Cmd::AddrDel { dev, cidr })
            == ActionView::Finish(Err(e)),
        cidr_of(cidr@) matches Ok((ip, prefix_len)) ==> {
            &&& asks_for(first_action(Cmd::AddrDel { dev, cidr }), dev@)
            &&& course(first_action(Cmd::AddrDel { dev, cidr }), seq![at_index(i)]) == (
            ActionView::Change {
                change: ChangeView::DelAddress { index: i, ip, prefix_len, broadcast: None },
                context: ContextView::AddrDel,
                tolerates: Tolerates::MissingAddress,
            })
        },
{
    if let Ok((ip, prefix_len)) = cidr_of(cidr@) {
        lemma_one(first_action(Cmd::AddrDel { dev, cidr }), at_index(i));
    }
}

/// A route is added to the table, on the link that was asked for and of link scope; one that is
/// there already is tolerated. The address tells the family, and the flag for it nothing. An
/// address that cannot be read ends the command before anything is asked.
pub proof fn law_route_add(dev: String, dst: String, table: u32, v6: bool, i: u32)
    ensures
        cidr_of(dst@) matches Err(e) ==> first_action(Cmd::RouteAdd { dev, dst, table, v6 })
            == ActionView::Finish(Err(e)),
        cidr_of(dst@) matches Ok((ip, prefix_len)) ==> {
            &&& asks_for(first_action(Cmd::RouteAdd { dev, dst, table, v6 }), dev@)
            &&& course(first_action(Cmd::RouteAdd { dev, dst, table, v6 }), seq![at_index(i)]) == (
            ActionView::Change {
                change: ChangeView::AddRoute {
                    index: i,
                    dst: ip,
                    prefix_len,
                    table,
                    scope: 253,
                    protocol: 3,
                },
                context: ContextView::RouteAdd,
                tolerates: Tolerates::Existing,
            })
        },
{
    if let Ok((ip, prefix_len)) = cidr_of(dst@) {
        lemma_one(first_action(Cmd::RouteAdd { dev, dst, table, v6 }), at_index(i));
    }
}

/// A rule is added that has what comes in at the device looked up in the table, and the same
/// rule removed; one that is there, or gone, already is tolerated.
pub proof fn law_rule_changes(iif: String, table: u32, v6: bool)
    ensures
        first_action(Cmd::RuleAdd { iif, table, v6 }) == (ActionView::Change {
            change: ChangeView::AddRule { v6, iif: iif@, table, action: RuleAction::ToTable },
            context: ContextView::RuleAdd,
            tolerates: Tolerates::Existing,
        }),
        first_action(Cmd::RuleDel { iif, table, v6 }) == (ActionView::Change {
            change: ChangeView::DelRule { v6, iif: iif@, table, action: RuleAction::ToTable },
            context: ContextView::RuleDel,
            tolerates: Tolerates::MissingRule,
        }),
{
}

/// A static forwarding entry of the master is added for the bytes of the MAC address, on the
/// link that was asked for; one that is there already is tolerated. A MAC address that cannot be
/// read ends the command with its error.
pub proof fn law_fdb_add(mac: String, dev: String, i: u32)
    ensures
        asks_for(first_action(Cmd::FdbAdd { mac, dev }), dev@),
        mac_of(mac@) matches Ok(bytes) ==> course(
            first_action(Cmd::FdbAdd { mac, dev }),
            seq![at_index(i)],
        ) == (ActionView::Change {
            change: ChangeView::AddFdb {
                index: i,
                lladdr: bytes,
                state: NeighbourState::Noarp,
                flags: 4,
            },
            context: ContextView::FdbAdd,
            tolerates: Tolerates::Existing,
        }),
        mac_of(mac@) matches Err(e) ==> course(
            first_action(Cmd::FdbAdd { mac, dev }),
            seq![at_index(i)],
        ) == ActionView::Finish(Err(e)),
{
    lemma_one(first_action(Cmd::FdbAdd { mac, dev }), at_index(i));
}

/// All addresses are listed from a list of all links, for their names, and a list of all
/// addresses; those of a device from a list of the addresses of its index.
pub proof fn law_addr_list_command(
    dev: String,
    metric: Option<u32>,
    links: Vec<LinkMessage>,
    i: u32,
    addresses: Vec<AddressMessage>,
)
    ensures
        ({
            let all = first_action(Cmd::AddrList { dev: None, metric });
            let of_one = first_action(Cmd::AddrList { dev: Some(dev), metric });
            let rows = ActionView::Finish(
                Ok(OutputView::Addrs(addr_rows_of(names_of(links@), addresses@, metric))),
            );
            let linked = Answer::Links(Ok(links));
            let listed = Answer::Addresses(Ok(addresses));
            &&& all is DumpLinks
            &&& course(all, seq![linked]) matches ActionView::DumpAddresses { index: None, .. }
            &&& course(all, seq![linked, listed]) == rows
            &&& of_one is DumpLinks
            &&& asks_for(course(of_one, seq![linked]), dev@)
            &&& course(of_one, seq![linked, at_index(i)]) matches ActionView::DumpAddresses {
                index: Some(asked),
                ..
            } && asked == i
            &&& course(of_one, seq![linked, at_index(i), listed]) == rows
        }),
{
    let all = first_action(Cmd::AddrList { dev: None, metric });
    let of_one = first_action(Cmd::AddrList { dev: Some(dev), metric });
    let linked = Answer::Links(Ok(links));
    let listed = Answer::Addresses(Ok(addresses));
    lemma_one(all, linked);
    lemma_two(all, linked, listed);
    lemma_one(of_one, linked);
    lemma_two(of_one, linked, at_index(i));
    lemma_three(of_one, linked, at_index(i), listed);
}

/// The host's own addresses are listed from a list of all links and a list of all addresses,
/// for the prefixes and the route priority that the command gives.
pub proof fn law_host_ips_command(
    iface: Vec<String>,
    exclude_metric: Option<u32>,
    links: Vec<LinkMessage>,
    addresses: Vec<AddressMessage>,
)
    ensures
        first_action(Cmd::HostIps { iface, exclude_metric }) is DumpLinks,
        course(
            first_action(Cmd::HostIps { iface, exclude_metric }),
            seq![Answer::Links(Ok(links))],
        ) matches ActionView::DumpAddresses { index: None, .. },
        course(
            first_action(Cmd::HostIps { iface, exclude_metric }),
            seq![Answer::Links(Ok(links)), Answer::Addresses(Ok(addresses))],
        ) == ActionView::Finish(
            Ok(
                OutputView::HostIps(
                    host_set_of(
                        names_of(links@),
                        bridges_of(links@),
                        addresses@,
                        strings(iface@),
                        exclude_metric,
                    ),
                ),
            ),
        ),
{
    let first = first_action(Cmd::HostIps { iface, exclude_metric });
    lemma_one(first, Answer::Links(Ok(links)));
    lemma_two(first, Answer::Links(Ok(links)), Answer::Addresses(Ok(addresses)));
}

/// Links are listed from two lists of all links, of which the first gives the names; those under
/// a master after the master was asked for, by its index.
pub proof fn law_link_list_command(
    master: String,
    type_bridge: bool,
    names: Vec<LinkMessage>,
    i: u32,
    links: Vec<LinkMessage>,
)
    ensures
        ({
            let all = first_action(Cmd::LinkList { master: None, type_bridge });
            let under = first_action(Cmd::LinkList { master: Some(master), type_bridge });
            let named = Answer::Links(Ok(names));
            let listed = Answer::Links(Ok(links));
            &&& all is DumpLinks
            &&& course(all, seq![named]) is DumpLinks
            &&& course(all, seq![named, listed]) == ActionView::Finish(
                Ok(OutputView::Links(link_rows_of(names_of(names@), links@, None, type_bridge))),
            )
            &&& under is DumpLinks
            &&& asks_for(course(under, seq![named]), master@)
            &&& course(under, seq![named, at_index(i)]) is DumpLinks
            &&& course(under, seq![named, at_index(i), listed]) == ActionView::Finish(
                Ok(OutputView::Links(link_rows_of(names_of(names@), links@, Some(i), type_bridge))),
            )
        }),
{
    let all = first_action(Cmd::LinkList { master: None, type_bridge });
    let under = first_action(Cmd::LinkList { master: Some(master), type_bridge });
    let named = Answer::Links(Ok(names));
    let listed = Answer::Links(Ok(links));
    lemma_one(all, named);
    lemma_two(all, named, listed);
    lemma_one(under, named);
    lemma_two(under, named, at_index(i));
    lemma_three(under, named, at_index(i), listed);
}

/// The neighbours on the device that was asked for are listed from a list of those of IPv4, then
/// one of those of IPv6.
pub proof fn law_neigh_list_command(
    dev: String,
    i: u32,
    v4: Vec<NeighbourMessage>,
    v6: Vec<NeighbourMessage>,
)
    ensures
        ({
            let first = first_action(Cmd::NeighList { dev });
            let one = Answer::Neighbours(Ok(v4));
            let two = Answer::Neighbours(Ok(v6));
            &&& asks_for(first, dev@)
            &&& course(first, seq![at_index(i)]) matches ActionView::DumpNeighbours {
                v6: false,
                ..
            }
            &&& course(first, seq![at_index(i), one]) matches ActionView::DumpNeighbours {
                v6: true,
                ..
            }
            &&& course(first, seq![at_index(i), one, two]) == ActionView::Finish(
                Ok(OutputView::Neighs(neigh_rows_of(dev@, i, v4@) + neigh_rows_of(dev@, i, v6@))),
            )
        }),
{
    let first = first_action(Cmd::NeighList { dev });
    let one = Answer::Neighbours(Ok(v4));
    let two = Answer::Neighbours(Ok(v6));
    lemma_one(first, at_index(i));
    lemma_two(first, at_index(i), one);
    lemma_three(first, at_index(i), one, two);
    let rows = neigh_rows_of(dev@, i, v4@);
    assert(Seq::empty() + rows =~= rows);
}

/// Rules are listed from a list of those of the family that is asked for.
pub proof fn law_rule_list_command(v6: bool, rules: Vec<RuleMessage>)
    ensures
        first_action(Cmd::RuleList { v6 }) == (ActionView::DumpRules { v6 }),
        course(first_action(Cmd::RuleList { v6 }), seq![Answer::Rules(Ok(rules))])
            == ActionView::Finish(Ok(OutputView::Rules(rule_rows_of(rules@)))),
{
    lemma_one(first_action(Cmd::RuleList { v6 }), Answer::Rules(Ok(rules)));
}

} // verus!
