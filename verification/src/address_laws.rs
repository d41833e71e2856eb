//! What is reported of addresses, stated on the fields and attributes of the kernel's messages.

use vstd::prelude::*;

use crate::addresses::{
    addr_rows_of, address_attribute, flags_attribute, has_prefix, host_address, host_set_of,
    law_host_set, local_attribute, local_of, metric_of, priority_attribute, wanted_address,
};
use crate::command::{first_action, Cmd};
use crate::course::{course, law_host_ipv4, Answer};
use crate::ip::IpAddress;
use crate::link_laws::{law_bridges, law_names, names_no_bridge};
use crate::links::{bridges_of, name_at, names_of};
use crate::message::{
    AddressAttribute, AddressMessage, LinkAttribute, LinkInfo, LinkMessage,
};
use crate::order::{
    increasing, lemma_in_order, lemma_less_irreflexive, less, less_at, same_items,
};
use crate::pick::{
    all_matches, lemma_first_at, lemma_last_at, lemma_matches_of_one, lemma_matches_of_sum,
    lemma_no_match, lemma_some_match,
};
use crate::rows::AddrRowView;
use crate::step::{ActionView, OutputView};
use crate::text::strings;
use crate::v4::v4_text;
use crate::v6::v6_text;

verus! {

/// The local address among some attributes is the last that is marked as local; where none is,
/// the first address; where there is neither, none.
proof fn lemma_local(all: Seq<AddressAttribute>, k: int, ip: IpAddress)
    ensures
        0 <= k < all.len() && all[k] == AddressAttribute::Local(ip) && (forall|j: int|
            k < j < all.len() ==> !(#[trigger] all[j] is Local)) ==> local_of(all) == Some(ip),
        0 <= k < all.len() && all[k] == AddressAttribute::Address(ip) && (forall|j: int|
            0 <= j < k ==> !(#[trigger] all[j] is Address)) && (forall|j: int|
            0 <= j < all.len() ==> !(#[trigger] all[j] is Local)) ==> local_of(all) == Some(ip),
        (forall|j: int|
            0 <= j < all.len() ==> !(#[trigger] all[j] is Local) && !(all[j] is Address))
            ==> local_of(all) is None,
        0 <= k < all.len() && (all[k] is Local || all[k] is Address) ==> local_of(all) is Some,
{
    if 0 <= k < all.len() && all[k] == AddressAttribute::Local(ip) && (forall|j: int|
        k < j < all.len() ==> !(#[trigger] all[j] is Local)) {
        lemma_last_at(all, local_attribute(), k);
    }
    if forall|j: int| 0 <= j < all.len() ==> !(#[trigger] all[j] is Local) {
        lemma_no_match(all, local_attribute());
        if 0 <= k < all.len() && all[k] == AddressAttribute::Address(ip) && (forall|j: int|
            0 <= j < k ==> !(#[trigger] all[j] is Address)) {
            lemma_first_at(all, address_attribute(), k);
        }
    }
    if forall|j: int| 0 <= j < all.len() ==> !(#[trigger] all[j] is Local) && !(all[j] is Address) {
        assert(forall|j: int| 0 <= j < all.len() ==> !(#[trigger] all[j] is Local));
        lemma_no_match(all, local_attribute());
        lemma_no_match(all, address_attribute());
    }
    if 0 <= k < all.len() && all[k] is Local {
        lemma_some_match(all, local_attribute(), k);
    }
    if 0 <= k < all.len() && all[k] is Address {
        lemma_some_match(all, address_attribute(), k);
    }
}

/// The route priority among some attributes is the last, or zero.
proof fn lemma_metric(all: Seq<AddressAttribute>, k: int, metric: u32)
    ensures
        0 <= k < all.len() && all[k] == AddressAttribute::RoutePriority(metric) && (forall|j: int|
            k < j < all.len() ==> !(#[trigger] all[j] is RoutePriority)) ==> metric_of(all)
            == metric,
        (forall|j: int| 0 <= j < all.len() ==> !(#[trigger] all[j] is RoutePriority)) ==> metric_of(
            all,
        ) == 0,
{
    if 0 <= k < all.len() && all[k] == AddressAttribute::RoutePriority(metric) && (forall|j: int|
        k < j < all.len() ==> !(#[trigger] all[j] is RoutePriority)) {
        lemma_last_at(all, priority_attribute(), k);
    }
    if forall|j: int| 0 <= j < all.len() ==> !(#[trigger] all[j] is RoutePriority) {
        lemma_no_match(all, priority_attribute());
    }
}

/// The addresses of two lists, one after the other, are reported as those of the first, then
/// those of the second; and of no addresses there is no row.
pub proof fn law_addr_rows_of_sum(
    names: Map<u32, Seq<char>>,
    a: Seq<AddressMessage>,
    b: Seq<AddressMessage>,
    metric: Option<u32>,
)
    ensures
        addr_rows_of(names, a + b, metric) == addr_rows_of(names, a, metric) + addr_rows_of(
            names,
            b,
            metric,
        ),
        addr_rows_of(names, Seq::empty(), metric) == Seq::<AddrRowView>::empty(),
{
    lemma_matches_of_sum(a, b, wanted_address(names, metric));
}

/// Where no route priority is asked for, an address has one row if it is of one of IP's families
/// and its attributes give a local or another address, and else none. The row has the name of
/// the address's index, the family's number, and the prefix length and scope of the message.
pub proof fn law_addr_row(
    names: Map<u32, Seq<char>>,
    m: AddressMessage,
    k: int,
    metric: Option<u32>,
)
    ensures
        m.family is Other ==> addr_rows_of(names, seq![m], metric) == Seq::<AddrRowView>::empty(),
        (forall|j: int|
            0 <= j < m.attributes@.len() ==> !(#[trigger] m.attributes@[j] is Local)
                && !(m.attributes@[j] is Address)) ==> addr_rows_of(names, seq![m], metric) == Seq::<
            AddrRowView,
        >::empty(),
        !(m.family is Other) && 0 <= k < m.attributes@.len() && (m.attributes@[k] is Local
            || m.attributes@[k] is Address) ==> {
            let rows = addr_rows_of(names, seq![m], None);
            &&& rows.len() == 1
            &&& names.contains_key(m.index) ==> rows[0].ifname == names[m.index]
            &&& !names.contains_key(m.index) ==> rows[0].ifname == Seq::<char>::empty()
            &&& m.family is Inet ==> rows[0].family == 4
            &&& m.family is Inet6 ==> rows[0].family == 6
            &&& rows[0].prefixlen == m.prefix_len
            &&& m.scope is Universe ==> rows[0].scope == "global"@
            &&& m.scope is Link ==> rows[0].scope == "link"@
            &&& m.scope is Host ==> rows[0].scope == "host"@
            &&& m.scope is Site || m.scope is Nowhere || m.scope is Other ==> rows[0].scope
                == "other"@
        },
{
    lemma_matches_of_one(m, wanted_address(names, metric));
    lemma_matches_of_one(m, wanted_address(names, None));
    lemma_local(m.attributes@, k, IpAddress::V4(0));
}

/// The address of a row is the last local one that the attributes give; where they give none, it
/// is the first address. It is written as its family writes it.
pub proof fn law_addr_local(names: Map<u32, Seq<char>>, m: AddressMessage, k: int, ip: IpAddress)
    requires
        !(m.family is Other),
        0 <= k < m.attributes@.len(),
        m.attributes@[k] == AddressAttribute::Local(ip) && (forall|j: int|
            k < j < m.attributes@.len() ==> !(#[trigger] m.attributes@[j] is Local))
            || m.attributes@[k] == AddressAttribute::Address(ip) && (forall|j: int|
            0 <= j < k ==> !(#[trigger] m.attributes@[j] is Address)) && (forall|j: int|
            0 <= j < m.attributes@.len() ==> !(#[trigger] m.attributes@[j] is Local)),
    ensures
        addr_rows_of(names, seq![m], None).len() == 1,
        ip matches IpAddress::V4(v) ==> addr_rows_of(names, seq![m], None)[0].local == v4_text(v),
        ip matches IpAddress::V6(groups) ==> addr_rows_of(names, seq![m], None)[0].local == v6_text(
            groups@,
        ),
{
    lemma_matches_of_one(m, wanted_address(names, None));
    lemma_local(m.attributes@, k, ip);
}

/// The metric of a row is the last route priority that the attributes give, or zero. Where a
/// route priority is asked for, an address is reported if and only if it has that metric, and as
/// it is reported where none is.
pub proof fn law_addr_metric(
    names: Map<u32, Seq<char>>,
    m: AddressMessage,
    k: int,
    metric: u32,
    want: u32,
    i: int,
)
    requires
        0 <= k < m.attributes@.len() && m.attributes@[k] == AddressAttribute::RoutePriority(metric)
            && (forall|j: int|
            k < j < m.attributes@.len() ==> !(#[trigger] m.attributes@[j] is RoutePriority))
            || metric == 0 && (forall|j: int|
            0 <= j < m.attributes@.len() ==> !(#[trigger] m.attributes@[j] is RoutePriority)),
    ensures
        0 <= i < addr_rows_of(names, seq![m], None).len() ==> addr_rows_of(
            names,
            seq![m],
            None,
        )[i].metric == metric,
        metric == want ==> addr_rows_of(names, seq![m], Some(want)) == addr_rows_of(
            names,
            seq![m],
            None,
        ),
        metric != want ==> addr_rows_of(names, seq![m], Some(want)) == Seq::<AddrRowView>::empty(),
{
    lemma_matches_of_one(m, wanted_address(names, None));
    lemma_matches_of_one(m, wanted_address(names, Some(want)));
    lemma_metric(m.attributes@, k, metric);
}

/// Whether an address brings no route for its prefix is told by the tenth of the last flag bits
/// that the attributes give; without flags it does.
pub proof fn law_addr_flags(
    names: Map<u32, Seq<char>>,
    m: AddressMessage,
    k: int,
    bits: u32,
    i: int,
)
    ensures
        0 <= i < addr_rows_of(names, seq![m], None).len() && 0 <= k < m.attributes@.len()
            && m.attributes@[k] == AddressAttribute::Flags(bits) && (forall|j: int|
            k < j < m.attributes@.len() ==> !(#[trigger] m.attributes@[j] is Flags))
            ==> addr_rows_of(names, seq![m], None)[i].noprefixroute == (bits as int / 512 % 2 == 1),
        0 <= i < addr_rows_of(names, seq![m], None).len() && (forall|j: int|
            0 <= j < m.attributes@.len() ==> !(#[trigger] m.attributes@[j] is Flags))
            ==> !addr_rows_of(names, seq![m], None)[i].noprefixroute,
{
    let all = m.attributes@;
    lemma_matches_of_one(m, wanted_address(names, None));
    if 0 <= k < all.len() && all[k] == AddressAttribute::Flags(bits) && (forall|j: int|
        k < j < all.len() ==> !(#[trigger] all[j] is Flags)) {
        lemma_last_at(all, flags_attribute(), k);
        assert((bits & 0x200u32 == 0x200u32) == (bits / 512u32 % 2u32 == 1u32)) by (bit_vector);
    }
    if forall|j: int| 0 <= j < all.len() ==> !(#[trigger] all[j] is Flags) {
        lemma_no_match(all, flags_attribute());
    }
}

/// The host's addresses are listed without repetition and in the order of their texts: no text
/// comes after one that it begins, and where two texts first differ the earlier has the lesser
/// character.
pub proof fn law_host_order(
    names: Map<u32, Seq<char>>,
    bridges: Map<u32, bool>,
    addresses: Seq<AddressMessage>,
    prefixes: Seq<Seq<char>>,
    exclude_metric: Option<u32>,
    i: int,
    j: int,
    n: int,
)
    requires
        0 <= i < j < host_set_of(names, bridges, addresses, prefixes, exclude_metric).len(),
    ensures
        ({
            let set = host_set_of(names, bridges, addresses, prefixes, exclude_metric);
            let a = set[i];
            let b = set[j];
            &&& a != b
            &&& 0 <= n <= a.len() && n <= b.len() && a.take(n) == b.take(n) ==> {
                &&& n == b.len() ==> n == a.len()
                &&& n < a.len() && n < b.len() ==> a[n] <= b[n]
            }
        }),
{
    let set = host_set_of(names, bridges, addresses, prefixes, exclude_metric);
    let a = set[i];
    let b = set[j];
    law_host_set(names, bridges, addresses, prefixes, exclude_metric, a);
    assert(less(a, b));
    lemma_less_irreflexive(a);
    let k = choose|k: int| less_at(a, b, k);
    if 0 <= n <= a.len() && n <= b.len() && a.take(n) == b.take(n) {
        assert forall|x: int| 0 <= x < n implies a[x] == b[x] by {
            assert(a.take(n)[x] == a[x]);
            assert(b.take(n)[x] == b[x]);
        }
    }
}

/// The host's addresses of two lists together are those of either.
pub proof fn law_host_set_of_sum(
    names: Map<u32, Seq<char>>,
    bridges: Map<u32, bool>,
    a: Seq<AddressMessage>,
    b: Seq<AddressMessage>,
    prefixes: Seq<Seq<char>>,
    exclude_metric: Option<u32>,
    text: Seq<char>,
)
    ensures
        host_set_of(names, bridges, a + b, prefixes, exclude_metric).contains(text) <==> (
        host_set_of(names, bridges, a, prefixes, exclude_metric).contains(text) || host_set_of(
            names,
            bridges,
            b,
            prefixes,
            exclude_metric,
        ).contains(text)),
        host_set_of(names, bridges, Seq::empty(), prefixes, exclude_metric) == Seq::<
            Seq<char>,
        >::empty(),
{
    let value = host_address(names, bridges, prefixes, exclude_metric);
    let none = Seq::<AddressMessage>::empty();
    law_host_set(names, bridges, a, prefixes, exclude_metric, text);
    law_host_set(names, bridges, b, prefixes, exclude_metric, text);
    law_host_set(names, bridges, a + b, prefixes, exclude_metric, text);
    if host_set_of(names, bridges, a, prefixes, exclude_metric).contains(text) {
        let i = choose|i: int| 0 <= i < a.len() && value(#[trigger] a[i]) == Some(text);
        assert((a + b)[i] == a[i]);
    }
    if host_set_of(names, bridges, b, prefixes, exclude_metric).contains(text) {
        let i = choose|i: int| 0 <= i < b.len() && value(#[trigger] b[i]) == Some(text);
        assert((a + b)[a.len() + i] == b[i]);
    }
    if host_set_of(names, bridges, a + b, prefixes, exclude_metric).contains(text) {
        let i = choose|i: int| 0 <= i < (a + b).len() && value(#[trigger] (a + b)[i]) == Some(text);
        if i < a.len() {
            assert((a + b)[i] == a[i]);
        } else {
            assert((a + b)[i] == b[i - a.len()]);
        }
    }
    assert(all_matches(none, value) =~= Seq::<Seq<char>>::empty());
    assert(increasing(Seq::<Seq<char>>::empty()));
    lemma_in_order(Seq::<Seq<char>>::empty(), Seq::<Seq<char>>::empty());
}

/// What a list of one address comes to.
proof fn lemma_host_one(
    names: Map<u32, Seq<char>>,
    bridges: Map<u32, bool>,
    m: AddressMessage,
    prefixes: Seq<Seq<char>>,
    exclude_metric: Option<u32>,
)
    ensures
        host_set_of(names, bridges, seq![m], prefixes, exclude_metric) == match host_address(
            names,
            bridges,
            prefixes,
            exclude_metric,
        )(m) {
            Some(text) => seq![text],
            None => Seq::empty(),
        },
{
    let value = host_address(names, bridges, prefixes, exclude_metric);
    lemma_matches_of_one(m, value);
    let picks = all_matches(seq![m], value);
    assert(increasing(picks));
    assert(same_items(picks, picks));
    lemma_in_order(picks, picks);
}

/// The name of an index, where names are given.
pub open spec fn known_name(names: Map<u32, Seq<char>>, index: u32, name: Seq<char>) -> bool {
    if names.contains_key(index) {
        name == names[index]
    } else {
        name.len() == 0
    }
}

/// An address is none of the host's that is not IPv4 or not of global scope, or is on a bridge,
/// or on a link whose name starts with none of the prefixes, or has the excluded route priority,
/// or gives no local or other IPv4 address.
pub proof fn law_not_a_host_address(
    names: Map<u32, Seq<char>>,
    bridges: Map<u32, bool>,
    m: AddressMessage,
    prefixes: Seq<Seq<char>>,
    exclude_metric: Option<u32>,
    name: Seq<char>,
    k: int,
    metric: u32,
    r: int,
    groups: [u16; 8],
)
    requires
        known_name(names, m.index, name),
        !(m.family is Inet) || !(m.scope is Universe) || (bridges.contains_key(m.index)
            && bridges[m.index]) || (forall|p: int|
            0 <= p < prefixes.len() ==> (#[trigger] prefixes[p]).len() > name.len() || name.take(
                prefixes[p].len() as int,
            ) != prefixes[p]) || (exclude_metric == Some(metric) && (0 <= r < m.attributes@.len()
            && m.attributes@[r] == AddressAttribute::RoutePriority(metric) && (forall|j: int|
            r < j < m.attributes@.len() ==> !(#[trigger] m.attributes@[j] is RoutePriority))
            || metric == 0 && (forall|j: int|
            0 <= j < m.attributes@.len() ==> !(#[trigger] m.attributes@[j] is RoutePriority))))
            || (forall|j: int|
            0 <= j < m.attributes@.len() ==> !(#[trigger] m.attributes@[j] is Local)
                && !(m.attributes@[j] is Address)) || (0 <= k < m.attributes@.len() && (
        m.attributes@[k] == AddressAttribute::Local(IpAddress::V6(groups)) && (forall|j: int|
            k < j < m.attributes@.len() ==> !(#[trigger] m.attributes@[j] is Local))
            || m.attributes@[k] == AddressAttribute::Address(IpAddress::V6(groups)) && (forall|
            j: int,
        |
            0 <= j < k ==> !(#[trigger] m.attributes@[j] is Address)) && (forall|j: int|
            0 <= j < m.attributes@.len() ==> !(#[trigger] m.attributes@[j] is Local)))),
    ensures
        host_set_of(names, bridges, seq![m], prefixes, exclude_metric) == Seq::<Seq<char>>::empty(),
{
    lemma_host_one(names, bridges, m, prefixes, exclude_metric);
    lemma_local(m.attributes@, k, IpAddress::V6(groups));
    lemma_metric(m.attributes@, r, metric);
    assert(name =~= name_at(names, m.index));
    if forall|p: int|
        0 <= p < prefixes.len() ==> (#[trigger] prefixes[p]).len() > name.len() || name.take(
            prefixes[p].len() as int,
        ) != prefixes[p] {
        if has_prefix(name, prefixes) {
            let p = choose|p: int|
                0 <= p < prefixes.len() && (#[trigger] prefixes[p]).is_prefix_of(name);
            assert(name.take(prefixes[p].len() as int) =~= prefixes[p]);
        }
    }
}

/// Every IPv4 address of global scope is one of the host's, whatever its number, that is on no
/// bridge and on a link whose name starts with one of the prefixes, and does not have the
/// excluded route priority. The address is the last local one, or else the first of all; it is
/// written as dotted decimal.
pub proof fn law_host_address(
    names: Map<u32, Seq<char>>,
    bridges: Map<u32, bool>,
    m: AddressMessage,
    prefixes: Seq<Seq<char>>,
    exclude_metric: Option<u32>,
    name: Seq<char>,
    p: int,
    k: int,
    v: u32,
    metric: u32,
    r: int,
)
    requires
        m.family is Inet,
        m.scope is Universe,
        !bridges.contains_key(m.index) || !bridges[m.index],
        known_name(names, m.index, name),
        0 <= p < prefixes.len(),
        prefixes[p].len() <= name.len(),
        name.take(prefixes[p].len() as int) == prefixes[p],
        0 <= r < m.attributes@.len() && m.attributes@[r] == AddressAttribute::RoutePriority(metric)
            && (forall|j: int|
            r < j < m.attributes@.len() ==> !(#[trigger] m.attributes@[j] is RoutePriority))
            || metric == 0 && (forall|j: int|
            0 <= j < m.attributes@.len() ==> !(#[trigger] m.attributes@[j] is RoutePriority)),
        exclude_metric != Some(metric),
        0 <= k < m.attributes@.len(),
        m.attributes@[k] == AddressAttribute::Local(IpAddress::V4(v)) && (forall|j: int|
            k < j < m.attributes@.len() ==> !(#[trigger] m.attributes@[j] is Local))
            || m.attributes@[k] == AddressAttribute::Address(IpAddress::V4(v)) && (forall|j: int|
            0 <= j < k ==> !(#[trigger] m.attributes@[j] is Address)) && (forall|j: int|
            0 <= j < m.attributes@.len() ==> !(#[trigger] m.attributes@[j] is Local)),
    ensures
        host_set_of(names, bridges, seq![m], prefixes, exclude_metric) == seq![v4_text(v)],
{
    lemma_host_one(names, bridges, m, prefixes, exclude_metric);
    lemma_local(m.attributes@, k, IpAddress::V4(v));
    lemma_metric(m.attributes@, r, metric);
    assert(name =~= name_at(names, m.index));
    assert(prefixes[p] =~= name.subrange(0, prefixes[p].len() as int));
    assert(prefixes[p].is_prefix_of(name));
}

/// The command that lists the host's own addresses lists every one of them: every IPv4 address
/// of the list of addresses, at `a`, of global scope, on an index whose last link in the list of
/// links, at `l`, has a first name that starts with a prefix and no kind of a bridge, and
/// without the excluded route priority.
pub proof fn law_host_ips_complete(
    iface: Vec<String>,
    exclude_metric: Option<u32>,
    links: Vec<LinkMessage>,
    addresses: Vec<AddressMessage>,
    a: int,
    l: int,
    n: int,
    name: String,
    p: int,
    k: int,
    v: u32,
    metric: u32,
    r: int,
)
    requires
        0 <= a < addresses@.len(),
        addresses@[a].family is Inet,
        addresses@[a].scope is Universe,
        0 <= l < links@.len(),
        links@[l].index == addresses@[a].index,
        forall|j: int|
            l < j < links@.len() ==> (#[trigger] links@[j]).index != addresses@[a].index,
        0 <= n < links@[l].attributes@.len(),
        links@[l].attributes@[n] == LinkAttribute::IfName(name),
        forall|j: int| 0 <= j < n ==> !(#[trigger] links@[l].attributes@[j] is IfName),
        forall|j: int|
            0 <= j < links@[l].attributes@.len() ==> names_no_bridge(
                #[trigger] links@[l].attributes@[j],
            ),
        0 <= p < iface@.len(),
        iface@[p]@.len() <= name@.len(),
        name@.take(iface@[p]@.len() as int) == iface@[p]@,
        0 <= r < addresses@[a].attributes@.len() && addresses@[a].attributes@[r]
            == AddressAttribute::RoutePriority(metric) && (forall|j: int|
            r < j < addresses@[a].attributes@.len() ==> !(
            #[trigger] addresses@[a].attributes@[j] is RoutePriority)) || metric == 0 && (forall|
            j: int,
        |
            0 <= j < addresses@[a].attributes@.len() ==> !(
            #[trigger] addresses@[a].attributes@[j] is RoutePriority)),
        exclude_metric != Some(metric),
        0 <= k < addresses@[a].attributes@.len(),
        addresses@[a].attributes@[k] == AddressAttribute::Local(IpAddress::V4(v)) && (forall|
            j: int,
        |
            k < j < addresses@[a].attributes@.len() ==> !(
            #[trigger] addresses@[a].attributes@[j] is Local)) || addresses@[a].attributes@[k]
            == AddressAttribute::Address(IpAddress::V4(v)) && (forall|j: int|
            0 <= j < k ==> !(#[trigger] addresses@[a].attributes@[j] is Address)) && (forall|
            j: int,
        |
            0 <= j < addresses@[a].attributes@.len() ==> !(
            #[trigger] addresses@[a].attributes@[j] is Local)),
    ensures
        course(
            first_action(Cmd::HostIps { iface, exclude_metric }),
            seq![Answer::Links(Ok(links)), Answer::Addresses(Ok(addresses))],
        ) matches ActionView::Finish(Ok(OutputView::HostIps(ips))) && ips.contains(v4_text(v)),
{
    let names = names_of(links@);
    let bridges = bridges_of(links@);
    let prefixes = strings(iface@);
    let m = addresses@[a];
    let some_infos: Vec<LinkInfo> = arbitrary();
    law_host_ipv4(prefixes, exclude_metric, links, addresses);
    law_names(links@, m.index, l, n, name);
    law_bridges(links@, m.index, l, 0, some_infos, 0, name);
    assert(prefixes[p] == iface@[p]@);
    law_host_address(
        names,
        bridges,
        m,
        prefixes,
        exclude_metric,
        name@,
        p,
        k,
        v,
        metric,
        r,
    );
    let value = host_address(names, bridges, prefixes, exclude_metric);
    lemma_host_one(names, bridges, m, prefixes, exclude_metric);
    let one = seq![v4_text(v)];
    assert(one[0] == v4_text(v));
    assert(value(addresses@[a]) == Some(v4_text(v)));
    law_host_set(names, bridges, addresses@, prefixes, exclude_metric, v4_text(v));
}

} // verus!
