//! What is reported of neighbours, stated on the fields and attributes of the kernel's messages.

use vstd::prelude::*;

use crate::ip::IpAddress;
use crate::mac::mac_text;
use crate::message::{NeighbourAttribute, NeighbourMessage};
use crate::neighbours::{destination, link_layer_address, neigh_rows_of, wanted_neighbour};
use crate::pick::{
    all_matches, lemma_last_at, lemma_matches_of_one, lemma_matches_of_sum, lemma_no_match,
    lemma_some_match,
};
use crate::rows::NeighRowView;
use crate::v4::v4_text;
use crate::v6::v6_text;

verus! {

/// The neighbours of two lists, one after the other, are reported as those of the first, then
/// those of the second; and of no neighbours there is no row.
pub proof fn law_neigh_rows_of_sum(
    dev: Seq<char>,
    index: u32,
    a: Seq<NeighbourMessage>,
    b: Seq<NeighbourMessage>,
)
    ensures
        neigh_rows_of(dev, index, a + b) == neigh_rows_of(dev, index, a) + neigh_rows_of(
            dev,
            index,
            b,
        ),
        neigh_rows_of(dev, index, Seq::empty()) == Seq::<NeighRowView>::empty(),
{
    lemma_matches_of_sum(a, b, wanted_neighbour(dev, index));
}

/// Whether the attributes of a neighbour give an IP address.
pub open spec fn has_destination(m: NeighbourMessage) -> bool {
    exists|k: int| 0 <= k < m.attributes@.len() && #[trigger] m.attributes@[k] is Destination
}

/// A neighbour has one row, whatever its state, if it is on the device and its attributes give
/// an IP address, and else none. The row names the device, and the state by its name, if it has
/// one.
pub proof fn law_neigh_row(dev: Seq<char>, index: u32, m: NeighbourMessage)
    ensures
        m.ifindex != index || !has_destination(m) ==> neigh_rows_of(dev, index, seq![m]) == Seq::<
            NeighRowView,
        >::empty(),
        m.ifindex == index && has_destination(m) ==> {
            let rows = neigh_rows_of(dev, index, seq![m]);
            &&& rows.len() == 1
            &&& rows[0].dev == dev
            &&& rows[0].state.len() == 1
            &&& m.state is Incomplete ==> rows[0].state[0] == "INCOMPLETE"@
            &&& m.state is Reachable ==> rows[0].state[0] == "REACHABLE"@
            &&& m.state is Stale ==> rows[0].state[0] == "STALE"@
            &&& m.state is Delay ==> rows[0].state[0] == "DELAY"@
            &&& m.state is Probe ==> rows[0].state[0] == "PROBE"@
            &&& m.state is Failed ==> rows[0].state[0] == "FAILED"@
            &&& m.state is Noarp ==> rows[0].state[0] == "NOARP"@
            &&& m.state is Permanent ==> rows[0].state[0] == "PERMANENT"@
            &&& m.state is NoState || m.state is Other ==> rows[0].state[0] == "NONE"@
        },
{
    lemma_matches_of_one(m, wanted_neighbour(dev, index));
    if has_destination(m) {
        let k = choose|k: int|
            0 <= k < m.attributes@.len() && #[trigger] m.attributes@[k] is Destination;
        lemma_some_match(m.attributes@, destination(), k);
    } else {
        lemma_no_match(m.attributes@, destination());
    }
}

/// The address of a row is the last IP address that the attributes give, written as its family
/// writes it.
pub proof fn law_neigh_destination(
    dev: Seq<char>,
    index: u32,
    m: NeighbourMessage,
    k: int,
    ip: IpAddress,
)
    requires
        m.ifindex == index,
        0 <= k < m.attributes@.len(),
        m.attributes@[k] == NeighbourAttribute::Destination(ip),
        forall|j: int|
            k < j < m.attributes@.len() ==> !(#[trigger] m.attributes@[j] is Destination),
    ensures
        neigh_rows_of(dev, index, seq![m]).len() == 1,
        ip matches IpAddress::V4(v) ==> neigh_rows_of(dev, index, seq![m])[0].dst == v4_text(v),
        ip matches IpAddress::V6(groups) ==> neigh_rows_of(dev, index, seq![m])[0].dst == v6_text(
            groups@,
        ),
{
    lemma_matches_of_one(m, wanted_neighbour(dev, index));
    lemma_last_at(m.attributes@, destination(), k);
}

/// The link-layer address of a row is the last that the attributes give, or empty.
pub proof fn law_neigh_lladdr(
    dev: Seq<char>,
    index: u32,
    m: NeighbourMessage,
    k: int,
    bytes: Vec<u8>,
    i: int,
)
    requires
        0 <= i < neigh_rows_of(dev, index, seq![m]).len(),
    ensures
        0 <= k < m.attributes@.len() && m.attributes@[k] == NeighbourAttribute::LinkLayerAddress(
            bytes,
        ) && (forall|j: int|
            k < j < m.attributes@.len() ==> !(#[trigger] m.attributes@[j] is LinkLayerAddress))
            ==> neigh_rows_of(dev, index, seq![m])[i].lladdr == mac_text(bytes@),
        (forall|j: int|
            0 <= j < m.attributes@.len() ==> !(#[trigger] m.attributes@[j] is LinkLayerAddress))
            ==> neigh_rows_of(dev, index, seq![m])[i].lladdr == Seq::<char>::empty(),
{
    let all = m.attributes@;
    lemma_matches_of_one(m, wanted_neighbour(dev, index));
    if 0 <= k < all.len() && all[k] == NeighbourAttribute::LinkLayerAddress(bytes) && (forall|
        j: int,
    |
        k < j < all.len() ==> !(#[trigger] all[j] is LinkLayerAddress)) {
        lemma_last_at(all, link_layer_address(), k);
    }
    if forall|j: int| 0 <= j < all.len() ==> !(#[trigger] all[j] is LinkLayerAddress) {
        lemma_no_match(all, link_layer_address());
    }
}

/// There are as many rows as neighbours on the device that give an IP address, and they come in
/// the order of the list: the row of such a neighbour stands where as many rows come before it
/// as such neighbours do.
pub proof fn law_neigh_count(dev: Seq<char>, index: u32, neighbours: Seq<NeighbourMessage>, i: int)
    ensures
        neigh_rows_of(dev, index, neighbours).len() == neighbours.filter(
            |m: NeighbourMessage| m.ifindex == index && has_destination(m),
        ).len(),
        0 <= i < neighbours.len() && neighbours[i].ifindex == index && has_destination(
            neighbours[i],
        ) ==> {
            let before = neigh_rows_of(dev, index, neighbours.take(i)).len() as int;
            &&& before < neigh_rows_of(dev, index, neighbours).len()
            &&& neigh_rows_of(dev, index, neighbours)[before] == neigh_rows_of(
                dev,
                index,
                seq![neighbours[i]],
            )[0]
        },
    decreases neighbours.len(),
{
    reveal(Seq::filter);
    let value = wanted_neighbour(dev, index);
    let listed = |m: NeighbourMessage| m.ifindex == index && has_destination(m);
    if neighbours.len() > 0 {
        let front = neighbours.drop_last();
        law_neigh_count(dev, index, front, 0);
        law_neigh_row(dev, index, neighbours.last());
        lemma_matches_of_one(neighbours.last(), value);
        let m = neighbours.last();
        let one = neigh_rows_of(dev, index, seq![m]);
        assert(one == all_matches(seq![m], value));
        if value(m) is None {
            assert(one.len() == 0);
        } else {
            assert(one.len() == 1);
        }
        assert(listed(m) == (value(m) is Some));
    }
    if 0 <= i < neighbours.len() && listed(neighbours[i]) {
        let a = neighbours.take(i);
        let b = seq![neighbours[i]];
        let c = neighbours.skip(i + 1);
        assert(neighbours =~= a + b + c);
        lemma_matches_of_sum(a + b, c, value);
        lemma_matches_of_sum(a, b, value);
        law_neigh_row(dev, index, neighbours[i]);
    }
}

} // verus!
