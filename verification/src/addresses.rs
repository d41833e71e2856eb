//! Addresses: the rows that are reported of them, and the host's own IPv4 addresses.

use vstd::prelude::*;

use crate::ip::IpAddress;
use crate::links::{bridge_at, name_at, LinkBridges, LinkNames};
use crate::message::{AddressAttribute, AddressFamily, AddressMessage, AddressScope};
use crate::order::{
    in_order, increasing, insert_in_order, law_in_order, lemma_in_order, lemma_push_contains,
    lemma_sum_contains, same_items,
};
use crate::outside::{has_noprefixroute, IFA_F_NOPREFIXROUTE};
use crate::pick::{
    all_matches, first_match, last_match, lemma_all_matches_from, lemma_pick_next, value_or,
};
use crate::rows::{addr_row_views, scope_text, scope_to_string, AddrRow, AddrRowView};
use crate::text::{chars_of, strings};
use crate::v4::{v4_text, v4_to_string};

verus! {

/// The local address that an attribute gives.
pub open spec fn local_attribute() -> spec_fn(AddressAttribute) -> Option<IpAddress> {
    |a: AddressAttribute|
        match a {
            AddressAttribute::Local(ip) => Some(ip),
            _ => None,
        }
}

/// The address, of this end or the other of a link between two, that an attribute gives.
pub open spec fn address_attribute() -> spec_fn(AddressAttribute) -> Option<IpAddress> {
    |a: AddressAttribute|
        match a {
            AddressAttribute::Address(ip) => Some(ip),
            _ => None,
        }
}

/// The route priority that an attribute gives.
pub open spec fn priority_attribute() -> spec_fn(AddressAttribute) -> Option<u32> {
    |a: AddressAttribute|
        match a {
            AddressAttribute::RoutePriority(p) => Some(p),
            _ => None,
        }
}

/// The flag bits that an attribute gives.
pub open spec fn flags_attribute() -> spec_fn(AddressAttribute) -> Option<u32> {
    |a: AddressAttribute|
        match a {
            AddressAttribute::Flags(bits) => Some(bits),
            _ => None,
        }
}

/// The local address: the last that is marked as local, or else the first address.
pub open spec fn local_of(attributes: Seq<AddressAttribute>) -> Option<IpAddress> {
    match last_match(attributes, local_attribute()) {
        Some(ip) => Some(ip),
        None => first_match(attributes, address_attribute()),
    }
}

/// The route priority, or zero.
pub open spec fn metric_of(attributes: Seq<AddressAttribute>) -> u32 {
    value_or(last_match(attributes, priority_attribute()), 0)
}

/// Whether the flags say that the address brings no route for its prefix.
pub open spec fn noprefixroute_of(attributes: Seq<AddressAttribute>) -> bool {
    match last_match(attributes, flags_attribute()) {
        Some(bits) => bits & IFA_F_NOPREFIXROUTE == IFA_F_NOPREFIXROUTE,
        None => false,
    }
}

/// The number of an address family, if it is one of IP's.
pub open spec fn family_number(family: AddressFamily) -> Option<u8> {
    match family {
        AddressFamily::Inet => Some(4),
        AddressFamily::Inet6 => Some(6),
        AddressFamily::Other => None,
    }
}

/// What is reported of an address that is asked for: an IP address with a local address, and
/// with this route priority, where one is given.
pub open spec fn wanted_address(
    names: Map<u32, Seq<char>>,
    metric: Option<u32>,
) -> spec_fn(AddressMessage) -> Option<AddrRowView> {
    |m: AddressMessage|
        match (family_number(m.family), local_of(m.attributes@)) {
            (Some(family), Some(ip)) => if metric is Some ==> metric == Some(
                metric_of(m.attributes@),
            ) {
                Some(
                    AddrRowView {
                        ifname: name_at(names, m.index),
                        family,
                        local: ip@.text(),
                        prefixlen: m.prefix_len,
                        scope: scope_text(m.scope),
                        metric: metric_of(m.attributes@),
                        noprefixroute: noprefixroute_of(m.attributes@),
                    },
                )
            } else {
                None
            },
            _ => None,
        }
}

/// The rows of the addresses that are asked for.
pub open spec fn addr_rows_of(
    names: Map<u32, Seq<char>>,
    addresses: Seq<AddressMessage>,
    metric: Option<u32>,
) -> Seq<AddrRowView> {
    all_matches(addresses, wanted_address(names, metric))
}

/// The local address, route priority and route flag of an address.
fn read_attributes(attributes: &Vec<AddressAttribute>) -> (r: (Option<IpAddress>, u32, bool))
    ensures
        r.0 == local_of(attributes@),
        r.1 == metric_of(attributes@),
        r.2 == noprefixroute_of(attributes@),
{
    let mut local: Option<IpAddress> = None;
    let mut priority: u32 = 0;
    let mut no_prefix_route = false;
    let ghost all = attributes@;
    let mut i: usize = 0;
    while i < attributes.len()
        invariant
            i <= attributes.len(),
            all == attributes@,
            local == local_of(all.take(i as int)),
            priority == metric_of(all.take(i as int)),
            no_prefix_route == noprefixroute_of(all.take(i as int)),
        decreases attributes.len() - i,
    {
        proof {
            lemma_pick_next(all, i as int, local_attribute());
            lemma_pick_next(all, i as int, address_attribute());
            lemma_pick_next(all, i as int, priority_attribute());
            lemma_pick_next(all, i as int, flags_attribute());
        }
        match &attributes[i] {
            AddressAttribute::Local(ip) => {
                local = Some(*ip);
            },
            AddressAttribute::Address(ip) => {
                if local.is_none() {
                    local = Some(*ip);
                }
            },
            AddressAttribute::RoutePriority(p) => {
                priority = *p;
            },
            AddressAttribute::Flags(bits) => {
                no_prefix_route = has_noprefixroute(*bits);
            },
            AddressAttribute::Other => {},
        }
        i = i + 1;
    }
    assert(all.take(all.len() as int) =~= all);
    (local, priority, no_prefix_route)
}

/// What is reported of one address that is asked for.
fn wanted_address_row(names: &LinkNames, m: &AddressMessage, metric: Option<u32>) -> (row: Option<
    AddrRow,
>)
    ensures
        row matches Some(r) ==> wanted_address(names@, metric)(*m) == Some(r@),
        row is None ==> wanted_address(names@, metric)(*m) is None,
{
    let family: u8 = match m.family {
        AddressFamily::Inet => 4,
        AddressFamily::Inet6 => 6,
        AddressFamily::Other => {
            return None;
        },
    };
    let (local, priority, no_prefix_route) = read_attributes(&m.attributes);
    if let Some(want) = metric {
        if priority != want {
            return None;
        }
    }
    match local {
        None => None,
        Some(ip) => Some(
            AddrRow {
                ifname: names.get(m.index),
                family,
                local: ip.to_string(),
                prefixlen: m.prefix_len,
                scope: scope_to_string(&m.scope),
                metric: priority,
                noprefixroute: no_prefix_route,
            },
        ),
    }
}

/// The rows of the addresses that are asked for.
pub fn addr_rows(
    names: &LinkNames,
    addresses: &Vec<AddressMessage>,
    metric: Option<u32>,
) -> (rows: Vec<AddrRow>)
    ensures
        addr_row_views(rows@) == addr_rows_of(names@, addresses@, metric),
{
    let ghost value = wanted_address(names@, metric);
    let mut rows: Vec<AddrRow> = Vec::new();
    let mut i: usize = 0;
    assert(addr_row_views(rows@) =~= all_matches(addresses@.take(0), value));
    while i < addresses.len()
        invariant
            i <= addresses.len(),
            value == wanted_address(names@, metric),
            addr_row_views(rows@) == all_matches(addresses@.take(i as int), value),
        decreases addresses.len() - i,
    {
        proof {
            lemma_pick_next(addresses@, i as int, value);
        }
        let ghost before = addr_row_views(rows@);
        if let Some(row) = wanted_address_row(names, &addresses[i], metric) {
            let ghost view = row@;
            rows.push(row);
            assert(addr_row_views(rows@) =~= before.push(view));
        }
        i = i + 1;
    }
    assert(addresses@.take(addresses.len() as int) =~= addresses@);
    rows
}

/// Where a route priority is asked for, the rows are those of all addresses that have it, in
/// the same order.
pub proof fn law_addr_rows_metric(
    names: Map<u32, Seq<char>>,
    addresses: Seq<AddressMessage>,
    metric: u32,
)
    ensures
        addr_rows_of(names, addresses, Some(metric)) == addr_rows_of(names, addresses, None).filter(
            |row: AddrRowView| row.metric == metric,
        ),
    decreases addresses.len(),
{
    reveal(Seq::filter);
    let has = |row: AddrRowView| row.metric == metric;
    if addresses.len() > 0 {
        let front = addresses.drop_last();
        law_addr_rows_metric(names, front, metric);
        let rows = addr_rows_of(names, front, None);
        if let Some(row) = wanted_address(names, None)(addresses.last()) {
            assert(rows.push(row).drop_last() =~= rows);
            assert(rows.push(row).last() == row);
        }
    }
}

/// Whether a name starts with one of the prefixes.
pub open spec fn has_prefix(name: Seq<char>, prefixes: Seq<Seq<char>>) -> bool {
    exists|i: int| 0 <= i < prefixes.len() && (#[trigger] prefixes[i]).is_prefix_of(name)
}

/// The text of an address that the host can be reached at: an IPv4 address of global scope, on
/// a link that is no bridge and whose name starts with one of the prefixes, without the route
/// priority that is excluded, where one is.
pub open spec fn host_address(
    names: Map<u32, Seq<char>>,
    bridges: Map<u32, bool>,
    prefixes: Seq<Seq<char>>,
    exclude_metric: Option<u32>,
) -> spec_fn(AddressMessage) -> Option<Seq<char>> {
    |m: AddressMessage|
        if m.family is Inet && m.scope is Universe && !bridge_at(bridges, m.index) && has_prefix(
            name_at(names, m.index),
            prefixes,
        ) && exclude_metric != Some(metric_of(m.attributes@)) {
            match local_of(m.attributes@) {
                Some(IpAddress::V4(v)) => Some(v4_text(v)),
                _ => None,
            }
        } else {
            None
        }
}

/// The addresses that the host can be reached at, in the order of their texts, each once.
pub open spec fn host_set_of(
    names: Map<u32, Seq<char>>,
    bridges: Map<u32, bool>,
    addresses: Seq<AddressMessage>,
    prefixes: Seq<Seq<char>>,
    exclude_metric: Option<u32>,
) -> Seq<Seq<char>> {
    in_order(all_matches(addresses, host_address(names, bridges, prefixes, exclude_metric)))
}

/// Whether `name` starts with `prefix`.
fn starts_with(name: &str, prefix: &str) -> (r: bool)
    ensures
        r == prefix@.is_prefix_of(name@),
{
    let n = chars_of(name);
    let p = chars_of(prefix);
    if p.len() > n.len() {
        return false;
    }
    let mut i: usize = 0;
    while i < p.len()
        invariant
            i <= p.len() <= n.len(),
            n@ == name@,
            p@ == prefix@,
            forall|j: int| 0 <= j < i ==> p[j] == n[j],
        decreases p.len() - i,
    {
        if p[i] != n[i] {
            assert(name@.subrange(0, p.len() as int)[i as int] == n[i as int]);
            return false;
        }
        i = i + 1;
    }
    assert(prefix@ =~= name@.subrange(0, p.len() as int));
    true
}

/// Whether a name starts with one of the prefixes.
fn starts_with_any(name: &str, prefixes: &Vec<String>) -> (r: bool)
    ensures
        r == has_prefix(name@, strings(prefixes@)),
{
    let ghost all = strings(prefixes@);
    let mut i: usize = 0;
    while i < prefixes.len()
        invariant
            i <= prefixes.len(),
            all == strings(prefixes@),
            forall|j: int| 0 <= j < i ==> !(#[trigger] all[j]).is_prefix_of(name@),
        decreases prefixes.len() - i,
    {
        assert(all[i as int] == prefixes@[i as int]@);
        if starts_with(name, prefixes[i].as_str()) {
            return true;
        }
        i = i + 1;
    }
    false
}

/// The text of one address, if the host can be reached at it.
fn host_address_text(
    names: &LinkNames,
    bridges: &LinkBridges,
    m: &AddressMessage,
    prefixes: &Vec<String>,
    exclude_metric: Option<u32>,
) -> (text: Option<String>)
    ensures
        text matches Some(t) ==> host_address(names@, bridges@, strings(prefixes@), exclude_metric)(
            *m,
        ) == Some(t@),
        text is None ==> host_address(names@, bridges@, strings(prefixes@), exclude_metric)(
            *m,
        ) is None,
{
    match m.family {
        AddressFamily::Inet => {},
        _ => {
            return None;
        },
    }
    match m.scope {
        AddressScope::Universe => {},
        _ => {
            return None;
        },
    }
    if bridges.get(m.index) {
        return None;
    }
    let name = names.get(m.index);
    if !starts_with_any(name.as_str(), prefixes) {
        return None;
    }
    let (local, priority, _) = read_attributes(&m.attributes);
    if let Some(unwanted) = exclude_metric {
        if priority == unwanted {
            return None;
        }
    }
    match local {
        Some(IpAddress::V4(v)) => Some(v4_to_string(v)),
        _ => None,
    }
}

/// The addresses that the host can be reached at.
pub fn host_set(
    names: &LinkNames,
    bridges: &LinkBridges,
    addresses: &Vec<AddressMessage>,
    prefixes: &Vec<String>,
    exclude_metric: Option<u32>,
) -> (set: Vec<String>)
    ensures
        strings(set@) == host_set_of(
            names@,
            bridges@,
            addresses@,
            strings(prefixes@),
            exclude_metric,
        ),
{
    let ghost value = host_address(names@, bridges@, strings(prefixes@), exclude_metric);
    let mut set: Vec<String> = Vec::new();
    let mut i: usize = 0;
    proof {
        assert(addresses@.take(0).len() == 0);
        assert(strings(set@) =~= all_matches(addresses@.take(0), value));
    }
    while i < addresses.len()
        invariant
            i <= addresses.len(),
            value == host_address(names@, bridges@, strings(prefixes@), exclude_metric),
            increasing(strings(set@)),
            same_items(strings(set@), all_matches(addresses@.take(i as int), value)),
        decreases addresses.len() - i,
    {
        proof {
            lemma_pick_next(addresses@, i as int, value);
        }
        let ghost before = strings(set@);
        if let Some(text) = host_address_text(
            names,
            bridges,
            &addresses[i],
            prefixes,
            exclude_metric,
        ) {
            let ghost item = text@;
            insert_in_order(&mut set, text);
            proof {
                let picks = all_matches(addresses@.take(i as int), value);
                let after = strings(set@);
                assert forall|s: Seq<char>| #[trigger] after.contains(s) == picks.push(
                    item,
                ).contains(s) by {
                    lemma_push_contains(picks, item, s);
                    lemma_push_contains(before, item, s);
                    assert(before.contains(s) == picks.contains(s));
                }
            }
        }
        i = i + 1;
    }
    proof {
        assert(addresses@.take(addresses.len() as int) =~= addresses@);
        lemma_in_order(strings(set@), all_matches(addresses@, value));
    }
    set
}

/// The host's addresses are listed in order and each once, and a text is among them if and only
/// if it is that of an address that the host can be reached at.
pub proof fn law_host_set(
    names: Map<u32, Seq<char>>,
    bridges: Map<u32, bool>,
    addresses: Seq<AddressMessage>,
    prefixes: Seq<Seq<char>>,
    exclude_metric: Option<u32>,
    text: Seq<char>,
)
    ensures
        increasing(host_set_of(names, bridges, addresses, prefixes, exclude_metric)),
        host_set_of(names, bridges, addresses, prefixes, exclude_metric).contains(text)
            <==> exists|i: int|
            0 <= i < addresses.len() && host_address(names, bridges, prefixes, exclude_metric)(
                #[trigger] addresses[i],
            ) == Some(text),
{
    let value = host_address(names, bridges, prefixes, exclude_metric);
    let picks = all_matches(addresses, value);
    law_in_order(picks);
    lemma_all_matches_from(addresses, value, text);
    assert(in_order(picks).contains(text) == picks.contains(text));
}

/// Two lists of prefixes together give what either gives alone.
pub proof fn law_host_set_prefixes(
    names: Map<u32, Seq<char>>,
    bridges: Map<u32, bool>,
    addresses: Seq<AddressMessage>,
    p: Seq<Seq<char>>,
    q: Seq<Seq<char>>,
    exclude_metric: Option<u32>,
)
    ensures
        host_set_of(names, bridges, addresses, p + q, exclude_metric) == in_order(
            host_set_of(names, bridges, addresses, p, exclude_metric) + host_set_of(
                names,
                bridges,
                addresses,
                q,
                exclude_metric,
            ),
        ),
{
    let a = host_set_of(names, bridges, addresses, p, exclude_metric);
    let b = host_set_of(names, bridges, addresses, q, exclude_metric);
    let whole = host_set_of(names, bridges, addresses, p + q, exclude_metric);
    let in_p = host_address(names, bridges, p, exclude_metric);
    let in_q = host_address(names, bridges, q, exclude_metric);
    let in_whole = host_address(names, bridges, p + q, exclude_metric);
    assert forall|m: AddressMessage| true implies #[trigger] in_whole(m) == match in_p(m) {
        Some(text) => Some(text),
        None => in_q(m),
    } by {
        lemma_has_prefix_of_either(name_at(names, m.index), p, q);
    }
    assert forall|s: Seq<char>| #[trigger] whole.contains(s) == (a + b).contains(s) by {
        law_host_set(names, bridges, addresses, p, exclude_metric, s);
        law_host_set(names, bridges, addresses, q, exclude_metric, s);
        law_host_set(names, bridges, addresses, p + q, exclude_metric, s);
        lemma_sum_contains(a, b, s);
        if whole.contains(s) {
            let i = choose|i: int|
                0 <= i < addresses.len() && in_whole(#[trigger] addresses[i]) == Some(s);
            assert(in_p(addresses[i]) == Some(s) || in_q(addresses[i]) == Some(s));
        }
        if a.contains(s) {
            let i = choose|i: int|
                0 <= i < addresses.len() && in_p(#[trigger] addresses[i]) == Some(s);
            assert(in_whole(addresses[i]) == Some(s));
        }
        if b.contains(s) {
            let i = choose|i: int|
                0 <= i < addresses.len() && in_q(#[trigger] addresses[i]) == Some(s);
            assert(in_whole(addresses[i]) == Some(s));
        }
    }
    law_host_set(names, bridges, addresses, p + q, exclude_metric, Seq::empty());
    lemma_in_order(whole, a + b);
}

/// A name starts with a prefix of two lists together if it does with one of either.
proof fn lemma_has_prefix_of_either(name: Seq<char>, p: Seq<Seq<char>>, q: Seq<Seq<char>>)
    ensures
        has_prefix(name, p + q) == (has_prefix(name, p) || has_prefix(name, q)),
{
    let all = p + q;
    if has_prefix(name, all) {
        let i = choose|i: int| 0 <= i < all.len() && (#[trigger] all[i]).is_prefix_of(name);
        if i < p.len() {
            assert(p[i].is_prefix_of(name));
        } else {
            assert(q[i - p.len()].is_prefix_of(name));
        }
    }
    if has_prefix(name, p) {
        let i = choose|i: int| 0 <= i < p.len() && (#[trigger] p[i]).is_prefix_of(name);
        assert(all[i].is_prefix_of(name));
    }
    if has_prefix(name, q) {
        let i = choose|i: int| 0 <= i < q.len() && (#[trigger] q[i]).is_prefix_of(name);
        assert(all[p.len() + i].is_prefix_of(name));
    }
}

/// Without a prefix there are no host addresses.
pub proof fn law_host_set_no_prefix(
    names: Map<u32, Seq<char>>,
    bridges: Map<u32, bool>,
    addresses: Seq<AddressMessage>,
    exclude_metric: Option<u32>,
)
    ensures
        host_set_of(names, bridges, addresses, Seq::empty(), exclude_metric) == Seq::<
            Seq<char>,
        >::empty(),
{
    let set = host_set_of(names, bridges, addresses, Seq::empty(), exclude_metric);
    if set.len() > 0 {
        law_host_set(names, bridges, addresses, Seq::empty(), exclude_metric, set[0]);
        assert(set.contains(set[0]));
    }
    assert(set =~= Seq::<Seq<char>>::empty());
}

/// To exclude a route priority is to leave out exactly the addresses that carry it.
pub proof fn law_host_set_excludes(
    names: Map<u32, Seq<char>>,
    bridges: Map<u32, bool>,
    addresses: Seq<AddressMessage>,
    prefixes: Seq<Seq<char>>,
    metric: u32,
)
    ensures
        host_set_of(names, bridges, addresses, prefixes, Some(metric)) == host_set_of(
            names,
            bridges,
            addresses.filter(|m: AddressMessage| metric_of(m.attributes@) != metric),
            prefixes,
            None,
        ),
{
    lemma_excluded_matches(names, bridges, addresses, prefixes, metric);
}

/// What is picked with a route priority excluded is what is picked of the addresses without it.
proof fn lemma_excluded_matches(
    names: Map<u32, Seq<char>>,
    bridges: Map<u32, bool>,
    addresses: Seq<AddressMessage>,
    prefixes: Seq<Seq<char>>,
    metric: u32,
)
    ensures
        all_matches(addresses, host_address(names, bridges, prefixes, Some(metric))) == all_matches(
            addresses.filter(|m: AddressMessage| metric_of(m.attributes@) != metric),
            host_address(names, bridges, prefixes, None),
        ),
    decreases addresses.len(),
{
    reveal(Seq::filter);
    let keeps = |m: AddressMessage| metric_of(m.attributes@) != metric;
    if addresses.len() > 0 {
        let front = addresses.drop_last();
        lemma_excluded_matches(names, bridges, front, prefixes, metric);
        let kept = front.filter(keeps);
        if keeps(addresses.last()) {
            assert(kept.push(addresses.last()).drop_last() =~= kept);
        }
    }
}

/// The host's addresses depend on which addresses there are, not on their order or number.
pub proof fn law_host_set_order_free(
    names: Map<u32, Seq<char>>,
    bridges: Map<u32, bool>,
    a: Seq<AddressMessage>,
    b: Seq<AddressMessage>,
    prefixes: Seq<Seq<char>>,
    exclude_metric: Option<u32>,
)
    requires
        forall|m: AddressMessage| #[trigger] a.contains(m) == b.contains(m),
    ensures
        host_set_of(names, bridges, a, prefixes, exclude_metric) == host_set_of(
            names,
            bridges,
            b,
            prefixes,
            exclude_metric,
        ),
{
    let value = host_address(names, bridges, prefixes, exclude_metric);
    let p = all_matches(a, value);
    let q = all_matches(b, value);
    assert forall|s: Seq<char>| #[trigger] in_order(p).contains(s) == q.contains(s) by {
        law_in_order(p);
        assert(in_order(p).contains(s) == p.contains(s));
        lemma_all_matches_from(a, value, s);
        lemma_all_matches_from(b, value, s);
        if p.contains(s) {
            let i = choose|i: int| 0 <= i < a.len() && value(#[trigger] a[i]) == Some(s);
            assert(a.contains(a[i]));
            let j = choose|j: int| 0 <= j < b.len() && b[j] == a[i];
            assert(value(b[j]) == Some(s));
        }
        if q.contains(s) {
            let i = choose|i: int| 0 <= i < b.len() && value(#[trigger] b[i]) == Some(s);
            assert(b.contains(b[i]));
            assert(a.contains(b[i]));
            let j = choose|j: int| 0 <= j < a.len() && a[j] == b[i];
            assert(value(a[j]) == Some(s));
        }
    }
    law_in_order(p);
    lemma_in_order(in_order(p), q);
}

} // verus!
