//! What an operation comes to, over all the answers to it.

use vstd::prelude::*;

use crate::addresses::{addr_rows_of, host_set_of};
use crate::change::{is_not_available, Ack, ChangeView};
use crate::error::{ContextView, ErrorView};
use crate::ip::IpView;
use crate::links::{bridges_of, link_rows_of, names_of};
use crate::mac::mac_of;
use crate::message::{AddressMessage, LinkMessage, NeighbourMessage, RuleMessage};
use crate::neighbours::neigh_rows_of;
use crate::net::{host_ips_asked, look_up, rule_added, rule_removed};
use crate::rules::rule_rows_of;
use crate::step::{
    after_addresses, after_change, after_links, after_look_up, after_neighbours, after_rules,
    with_index, ActionView, AfterAddressesView, AfterLinksView, AfterLookUpView, Found, OutputView,
};

verus! {

/// An answer of the kernel.
pub enum Answer {
    Found(Found),
    /// The answer to a change, on a machine with this error number for an address that is not
    /// there.
    Ack(Ack, i32),
    Links(Result<Vec<LinkMessage>, String>),
    Addresses(Result<Vec<AddressMessage>, String>),
    Neighbours(Result<Vec<NeighbourMessage>, String>),
    Rules(Result<Vec<RuleMessage>, String>),
}

/// Whether this is an answer to that question.
pub open spec fn answers(answer: Answer, action: ActionView) -> bool {
    match action {
        ActionView::LookUp { .. } => answer is Found,
        ActionView::Change { .. } => answer is Ack,
        ActionView::DumpLinks { .. } => answer is Links,
        ActionView::DumpAddresses { .. } => answer is Addresses,
        ActionView::DumpNeighbours { .. } => answer is Neighbours,
        ActionView::DumpRules { .. } => answer is Rules,
        ActionView::Finish(_) => false,
    }
}

/// What follows an answer.
pub open spec fn follow(action: ActionView, answer: Answer) -> ActionView {
    match (action, answer) {
        (ActionView::LookUp { name, next }, Answer::Found(found)) => after_look_up(
            name,
            next,
            found,
        ),
        (ActionView::Change { context, tolerates, .. }, Answer::Ack(ack, n)) => after_change(
            context,
            tolerates,
            ack,
            n,
        ),
        (ActionView::DumpLinks { next }, Answer::Links(links)) => after_links(next, links),
        (ActionView::DumpAddresses { next, .. }, Answer::Addresses(addresses)) => after_addresses(
            next,
            addresses,
        ),
        (
            ActionView::DumpNeighbours { v6, dev, index, rows },
            Answer::Neighbours(neighbours),
        ) => after_neighbours(v6, dev, index, rows, neighbours),
        (ActionView::DumpRules { .. }, Answer::Rules(rules)) => after_rules(rules),
        _ => action,
    }
}

/// What follows some answers, one after the other.
pub open spec fn course(action: ActionView, given: Seq<Answer>) -> ActionView
    decreases given.len(),
{
    if given.len() == 0 {
        action
    } else {
        follow(course(action, given.drop_last()), given.last())
    }
}

/// How many questions can still come, this one among them.
pub open spec fn questions_left(action: ActionView) -> nat {
    match action {
        ActionView::LookUp { next, .. } => match next {
            AfterLookUpView::SetMaster { .. } => 3,
            AfterLookUpView::NeighList => 3,
            _ => 2,
        },
        ActionView::Change { .. } => 1,
        ActionView::DumpLinks { next } => match next {
            AfterLinksView::AddrList { .. } => 3,
            AfterLinksView::HostIpv4 { .. } => 2,
            AfterLinksView::LinkList { .. } => 3,
            AfterLinksView::LinkRows { .. } => 1,
        },
        ActionView::DumpAddresses { .. } => 1,
        ActionView::DumpNeighbours { v6, .. } => if v6 {
            1
        } else {
            2
        },
        ActionView::DumpRules { .. } => 1,
        ActionView::Finish(_) => 0,
    }
}

/// Every answer brings an operation nearer to its end, which it reaches after three at most.
pub proof fn law_operations_end(action: ActionView, answer: Answer)
    requires
        answers(answer, action),
    ensures
        questions_left(follow(action, answer)) < questions_left(action) <= 3,
        questions_left(action) == 1 ==> follow(action, answer) is Finish,
{
}

/// What kind of report an operation makes.
#[derive(Debug, Clone, Copy, PartialEq, Eq, Structural)]
pub enum Report {
    /// None but success or failure.
    Nothing,
    Addrs,
    Links,
    Neighs,
    Rules,
    HostIps,
}

/// What kind of report an output is.
pub open spec fn report_of(output: OutputView) -> Report {
    match output {
        OutputView::Done => Report::Nothing,
        OutputView::Addrs(_) => Report::Addrs,
        OutputView::Links(_) => Report::Links,
        OutputView::Neighs(_) => Report::Neighs,
        OutputView::Rules(_) => Report::Rules,
        OutputView::HostIps(_) => Report::HostIps,
    }
}

/// Whether an operation that does not fail makes this kind of report.
pub open spec fn reports(action: ActionView, report: Report) -> bool {
    match action {
        ActionView::LookUp { next, .. } => report == match next {
            AfterLookUpView::AddrList { .. } => Report::Addrs,
            AfterLookUpView::LinkList { .. } => Report::Links,
            AfterLookUpView::NeighList => Report::Neighs,
            _ => Report::Nothing,
        },
        ActionView::Change { .. } => report == Report::Nothing,
        ActionView::DumpLinks { next } => report == match next {
            AfterLinksView::AddrList { .. } => Report::Addrs,
            AfterLinksView::HostIpv4 { .. } => Report::HostIps,
            AfterLinksView::LinkList { .. } => Report::Links,
            AfterLinksView::LinkRows { .. } => Report::Links,
        },
        ActionView::DumpAddresses { next, .. } => report == match next {
            AfterAddressesView::AddrRows { .. } => Report::Addrs,
            AfterAddressesView::HostIpv4 { .. } => Report::HostIps,
        },
        ActionView::DumpNeighbours { .. } => report == Report::Neighs,
        ActionView::DumpRules { .. } => report == Report::Rules,
        ActionView::Finish(Ok(output)) => report == report_of(output),
        ActionView::Finish(Err(_)) => true,
    }
}

/// An operation keeps the kind of its report to the end: a change reports success or failure
/// only, and a query reports its rows.
pub proof fn law_report_is_kept(action: ActionView, given: Seq<Answer>, report: Report)
    requires
        reports(action, report),
    ensures
        reports(course(action, given), report),
    decreases given.len(),
{
    if given.len() > 0 {
        law_report_is_kept(action, given.drop_last(), report);
    }
}

/// Deleting a link that cannot be found succeeds, and asks for no change.
pub proof fn law_deleting_again(name: Seq<char>, found: Found)
    requires
        !(found is Index),
    ensures
        follow(look_up(name, AfterLookUpView::Del), Answer::Found(found)) == ActionView::Finish(
            Ok(OutputView::Done),
        ),
{
}

/// Every other operation on a link that cannot be found fails, and says which link.
pub proof fn law_missing_link(name: Seq<char>, next: AfterLookUpView, found: Found)
    requires
        !(found is Index),
        !(next is Del),
    ensures
        follow(look_up(name, next), Answer::Found(found)) == ActionView::Finish(
            Err(
                if let Found::Failed(text) = found {
                    ErrorView::Failed(ContextView::GetLink(name), text@)
                } else {
                    ErrorView::DeviceNotFound(name)
                },
            ),
        ),
{
}

/// Removing a rule names the rule that adding it names.
pub proof fn law_rule_removed_as_added(v6: bool, iif: Seq<char>, table: u32)
    ensures
        rule_added(v6, iif, table) matches ActionView::Change {
            change: ChangeView::AddRule { v6: a, iif: b, table: c, action: d },
            ..
        } && (rule_removed(v6, iif, table) matches ActionView::Change { change, .. } && change
            == (ChangeView::DelRule { v6: a, iif: b, table: c, action: d })),
{
}

/// Removing an address names the address that adding it names, without its broadcast address.
pub proof fn law_address_removed_as_added(name: Seq<char>, ip: IpView, prefix_len: u8, i: u32)
    ensures
        with_index(name, AfterLookUpView::AddrAdd { ip, prefix_len }, i) matches ActionView::Change {
            change: ChangeView::AddAddress { index: a, ip: b, prefix_len: c, .. },
            ..
        } && (with_index(
            name,
            AfterLookUpView::AddrDel { ip, prefix_len },
            i,
        ) matches ActionView::Change { change, .. } && change == (ChangeView::DelAddress {
            index: a,
            ip: b,
            prefix_len: c,
            broadcast: None,
        })),
{
}

/// A course in one answer.
pub proof fn lemma_one(action: ActionView, a: Answer)
    ensures
        course(action, seq![a]) == follow(action, a),
{
    reveal_with_fuel(course, 2);
    assert(seq![a].drop_last() =~= Seq::<Answer>::empty());
}

/// A course in two answers.
pub proof fn lemma_two(action: ActionView, a: Answer, b: Answer)
    ensures
        course(action, seq![a, b]) == follow(follow(action, a), b),
{
    reveal_with_fuel(course, 3);
    assert(seq![a, b].drop_last() =~= seq![a]);
    assert(seq![a].drop_last() =~= Seq::<Answer>::empty());
}

/// A course in three answers.
pub proof fn lemma_three(action: ActionView, a: Answer, b: Answer, c: Answer)
    ensures
        course(action, seq![a, b, c]) == follow(follow(follow(action, a), b), c),
{
    assert(seq![a, b, c].drop_last() =~= seq![a, b]);
    lemma_two(action, a, b);
}

/// Whether the kernel made a change, or refused it with this code.
pub open spec fn is_done_or(ack: Ack, code: int) -> bool {
    match ack {
        Ack::Done => true,
        Ack::Refused(c, _) => c == code,
        Ack::Failed(_) => false,
    }
}

/// Adding a rule succeeds, also where the rule is there already; removing one succeeds, also
/// where the rule is gone already.
pub proof fn law_rules_again(v6: bool, iif: Seq<char>, table: u32, ack: Ack, not_available: i32)
    ensures
        is_done_or(ack, -17) ==> follow(
            rule_added(v6, iif, table),
            Answer::Ack(ack, not_available),
        ) == ActionView::Finish(Ok(OutputView::Done)),
        is_done_or(ack, -2) || is_done_or(ack, -3) ==> follow(
            rule_removed(v6, iif, table),
            Answer::Ack(ack, not_available),
        ) == ActionView::Finish(Ok(OutputView::Done)),
{
}

/// Removing an address from a device succeeds, also where the address is gone already.
pub proof fn law_address_removed_again(
    dev: Seq<char>,
    index: u32,
    ip: IpView,
    prefix_len: u8,
    ack: Ack,
    not_available: i32,
)
    requires
        is_not_available(not_available),
        is_done_or(ack, -2) || is_done_or(ack, -not_available),
    ensures
        course(
            look_up(dev, AfterLookUpView::AddrDel { ip, prefix_len }),
            seq![Answer::Found(Found::Index(index)), Answer::Ack(ack, not_available)],
        ) == ActionView::Finish(Ok(OutputView::Done)),
{
    lemma_two(
        look_up(dev, AfterLookUpView::AddrDel { ip, prefix_len }),
        Answer::Found(Found::Index(index)),
        Answer::Ack(ack, not_available),
    );
}

/// Adding a route, or a forwarding entry with a MAC address that can be read, succeeds, also
/// where it is there already.
pub proof fn law_routes_and_entries_again(
    dev: Seq<char>,
    index: u32,
    dst: IpView,
    prefix_len: u8,
    table: u32,
    mac: Seq<char>,
    ack: Ack,
    not_available: i32,
)
    requires
        is_done_or(ack, -17),
    ensures
        course(
            look_up(dev, AfterLookUpView::RouteAdd { dst, prefix_len, table }),
            seq![Answer::Found(Found::Index(index)), Answer::Ack(ack, not_available)],
        ) == ActionView::Finish(Ok(OutputView::Done)),
        mac_of(mac) is Ok ==> course(
            look_up(dev, AfterLookUpView::FdbAdd { mac }),
            seq![Answer::Found(Found::Index(index)), Answer::Ack(ack, not_available)],
        ) == ActionView::Finish(Ok(OutputView::Done)),
{
    lemma_two(
        look_up(dev, AfterLookUpView::RouteAdd { dst, prefix_len, table }),
        Answer::Found(Found::Index(index)),
        Answer::Ack(ack, not_available),
    );
    lemma_two(
        look_up(dev, AfterLookUpView::FdbAdd { mac }),
        Answer::Found(Found::Index(index)),
        Answer::Ack(ack, not_available),
    );
}

/// Listing all addresses reports the rows of the addresses, with the names of the links.
pub proof fn law_addr_list(
    metric: Option<u32>,
    links: Vec<LinkMessage>,
    addresses: Vec<AddressMessage>,
)
    ensures
        course(
            ActionView::DumpLinks { next: AfterLinksView::AddrList { dev: None, metric } },
            seq![Answer::Links(Ok(links)), Answer::Addresses(Ok(addresses))],
        ) == ActionView::Finish(
            Ok(OutputView::Addrs(addr_rows_of(names_of(links@), addresses@, metric))),
        ),
{
    lemma_two(
        ActionView::DumpLinks { next: AfterLinksView::AddrList { dev: None, metric } },
        Answer::Links(Ok(links)),
        Answer::Addresses(Ok(addresses)),
    );
}

/// Listing the addresses of a device asks for those of its index, and reports their rows.
pub proof fn law_addr_list_of_device(
    dev: Seq<char>,
    metric: Option<u32>,
    links: Vec<LinkMessage>,
    index: u32,
    addresses: Vec<AddressMessage>,
)
    ensures
        course(
            ActionView::DumpLinks { next: AfterLinksView::AddrList { dev: Some(dev), metric } },
            seq![Answer::Links(Ok(links)), Answer::Found(Found::Index(index))],
        ) == (ActionView::DumpAddresses {
            index: Some(index),
            next: AfterAddressesView::AddrRows { names: names_of(links@), metric },
        }),
        course(
            ActionView::DumpLinks { next: AfterLinksView::AddrList { dev: Some(dev), metric } },
            seq![
                Answer::Links(Ok(links)),
                Answer::Found(Found::Index(index)),
                Answer::Addresses(Ok(addresses)),
            ],
        ) == ActionView::Finish(
            Ok(OutputView::Addrs(addr_rows_of(names_of(links@), addresses@, metric))),
        ),
{
    let first = ActionView::DumpLinks { next: AfterLinksView::AddrList { dev: Some(dev), metric } };
    lemma_two(first, Answer::Links(Ok(links)), Answer::Found(Found::Index(index)));
    lemma_three(
        first,
        Answer::Links(Ok(links)),
        Answer::Found(Found::Index(index)),
        Answer::Addresses(Ok(addresses)),
    );
}

/// Listing the host's own addresses reports the set that the links and addresses give.
pub proof fn law_host_ipv4(
    prefixes: Seq<Seq<char>>,
    exclude_metric: Option<u32>,
    links: Vec<LinkMessage>,
    addresses: Vec<AddressMessage>,
)
    ensures
        course(
            host_ips_asked(prefixes, exclude_metric),
            seq![Answer::Links(Ok(links)), Answer::Addresses(Ok(addresses))],
        ) == ActionView::Finish(
            Ok(
                OutputView::HostIps(
                    host_set_of(
                        names_of(links@),
                        bridges_of(links@),
                        addresses@,
                        prefixes,
                        exclude_metric,
                    ),
                ),
            ),
        ),
{
    lemma_two(
        host_ips_asked(prefixes, exclude_metric),
        Answer::Links(Ok(links)),
        Answer::Addresses(Ok(addresses)),
    );
}

/// Listing links reports the rows of the second list, with the names of the first.
pub proof fn law_link_list(
    bridge_only: bool,
    names: Vec<LinkMessage>,
    links: Vec<LinkMessage>,
)
    ensures
        course(
            ActionView::DumpLinks { next: AfterLinksView::LinkList { master: None, bridge_only } },
            seq![Answer::Links(Ok(names)), Answer::Links(Ok(links))],
        ) == ActionView::Finish(
            Ok(OutputView::Links(link_rows_of(names_of(names@), links@, None, bridge_only))),
        ),
{
    lemma_two(
        ActionView::DumpLinks { next: AfterLinksView::LinkList { master: None, bridge_only } },
        Answer::Links(Ok(names)),
        Answer::Links(Ok(links)),
    );
}

/// Listing the links under a master reports the rows of those with the master's index.
pub proof fn law_link_list_of_master(
    master: Seq<char>,
    bridge_only: bool,
    names: Vec<LinkMessage>,
    index: u32,
    links: Vec<LinkMessage>,
)
    ensures
        course(
            ActionView::DumpLinks {
                next: AfterLinksView::LinkList { master: Some(master), bridge_only },
            },
            seq![
                Answer::Links(Ok(names)),
                Answer::Found(Found::Index(index)),
                Answer::Links(Ok(links)),
            ],
        ) == ActionView::Finish(
            Ok(
                OutputView::Links(
                    link_rows_of(names_of(names@), links@, Some(index), bridge_only),
                ),
            ),
        ),
{
    lemma_three(
        ActionView::DumpLinks {
            next: AfterLinksView::LinkList { master: Some(master), bridge_only },
        },
        Answer::Links(Ok(names)),
        Answer::Found(Found::Index(index)),
        Answer::Links(Ok(links)),
    );
}

/// Listing the neighbours on a device reports those of IPv4, then those of IPv6.
pub proof fn law_neigh_list(
    dev: Seq<char>,
    index: u32,
    v4: Vec<NeighbourMessage>,
    v6: Vec<NeighbourMessage>,
)
    ensures
        course(
            look_up(dev, AfterLookUpView::NeighList),
            seq![
                Answer::Found(Found::Index(index)),
                Answer::Neighbours(Ok(v4)),
                Answer::Neighbours(Ok(v6)),
            ],
        ) == ActionView::Finish(
            Ok(OutputView::Neighs(neigh_rows_of(dev, index, v4@) + neigh_rows_of(dev, index, v6@))),
        ),
{
    lemma_three(
        look_up(dev, AfterLookUpView::NeighList),
        Answer::Found(Found::Index(index)),
        Answer::Neighbours(Ok(v4)),
        Answer::Neighbours(Ok(v6)),
    );
    let rows = neigh_rows_of(dev, index, v4@);
    assert(Seq::empty() + rows =~= rows);
}

/// Listing rules reports one row for each.
pub proof fn law_rule_list(v6: bool, rules: Vec<RuleMessage>)
    ensures
        follow(ActionView::DumpRules { v6 }, Answer::Rules(Ok(rules))) == ActionView::Finish(
            Ok(OutputView::Rules(rule_rows_of(rules@))),
        ),
        rule_rows_of(rules@).len() == rules@.len(),
{
}

/// Whether an answer says that a request failed, other than by a refusal.
pub open spec fn is_failure(answer: Answer) -> bool {
    match answer {
        Answer::Found(found) => found is Failed,
        Answer::Ack(ack, _) => ack is Failed,
        Answer::Links(r) => r is Err,
        Answer::Addresses(r) => r is Err,
        Answer::Neighbours(r) => r is Err,
        Answer::Rules(r) => r is Err,
    }
}

/// A request that fails ends the operation with a failure, unless a link was to be deleted and
/// could not be looked up.
pub proof fn law_failures_end(action: ActionView, answer: Answer)
    requires
        answers(answer, action),
        is_failure(answer),
        !(action matches ActionView::LookUp { next: AfterLookUpView::Del, .. }),
    ensures
        follow(action, answer) matches ActionView::Finish(r) && r is Err,
{
}

} // verus!
