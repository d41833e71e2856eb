//! Neighbours: the rows that are reported of them.

use vstd::prelude::*;

use crate::ip::{lemma_ip_text_not_empty, IpAddress};
use crate::mac::{mac_text, mac_to_string};
use crate::message::{NeighbourAttribute, NeighbourMessage};
use crate::pick::{all_matches, last_match, lemma_pick_next};
use crate::rows::{neigh_row_views, neigh_state_text, neigh_states, NeighRow, NeighRowView};

verus! {

/// The IP address that an attribute gives.
pub open spec fn destination() -> spec_fn(NeighbourAttribute) -> Option<IpAddress> {
    |a: NeighbourAttribute|
        match a {
            NeighbourAttribute::Destination(ip) => Some(ip),
            _ => None,
        }
}

/// The link-layer address that an attribute gives.
pub open spec fn link_layer_address() -> spec_fn(NeighbourAttribute) -> Option<Seq<u8>> {
    |a: NeighbourAttribute|
        match a {
            NeighbourAttribute::LinkLayerAddress(bytes) => Some(bytes@),
            _ => None,
        }
}

/// What is reported of a neighbour that is asked for: on the device with this index, with an
/// IP address. Of an attribute that comes more than once, the last counts.
pub open spec fn wanted_neighbour(dev: Seq<char>, index: u32) -> spec_fn(
    NeighbourMessage,
) -> Option<NeighRowView> {
    |m: NeighbourMessage|
        match last_match(m.attributes@, destination()) {
            Some(ip) => if m.ifindex == index {
                Some(
                    NeighRowView {
                        dst: ip@.text(),
                        lladdr: match last_match(m.attributes@, link_layer_address()) {
                            Some(bytes) => mac_text(bytes),
                            None => Seq::empty(),
                        },
                        dev,
                        state: seq![neigh_state_text(m.state)],
                    },
                )
            } else {
                None
            },
            None => None,
        }
}

/// The rows of the neighbours that are asked for.
pub open spec fn neigh_rows_of(
    dev: Seq<char>,
    index: u32,
    neighbours: Seq<NeighbourMessage>,
) -> Seq<NeighRowView> {
    all_matches(neighbours, wanted_neighbour(dev, index))
}

/// What is reported of one neighbour that is asked for.
fn wanted_neighbour_row(dev: &String, index: u32, m: &NeighbourMessage) -> (row: Option<NeighRow>)
    ensures
        row matches Some(r) ==> wanted_neighbour(dev@, index)(*m) == Some(r@),
        row is None ==> wanted_neighbour(dev@, index)(*m) is None,
{
    if m.ifindex != index {
        return None;
    }
    let mut dst = String::new();
    let mut lladdr = String::new();
    let ghost all = m.attributes@;
    let mut i: usize = 0;
    while i < m.attributes.len()
        invariant
            i <= m.attributes.len(),
            all == m.attributes@,
            dst@ == match last_match(all.take(i as int), destination()) {
                Some(ip) => ip@.text(),
                None => Seq::empty(),
            },
            lladdr@ == match last_match(all.take(i as int), link_layer_address()) {
                Some(bytes) => mac_text(bytes),
                None => Seq::empty(),
            },
        decreases m.attributes.len() - i,
    {
        proof {
            lemma_pick_next(all, i as int, destination());
            lemma_pick_next(all, i as int, link_layer_address());
        }
        match &m.attributes[i] {
            NeighbourAttribute::Destination(ip) => {
                dst = ip.to_string();
            },
            NeighbourAttribute::LinkLayerAddress(bytes) => {
                lladdr = mac_to_string(bytes.as_slice());
            },
            NeighbourAttribute::Other => {},
        }
        i = i + 1;
    }
    proof {
        assert(all.take(all.len() as int) =~= all);
        if let Some(ip) = last_match(all, destination()) {
            lemma_ip_text_not_empty(ip);
        }
    }
    if dst.as_str().is_empty() {
        return None;
    }
    Some(NeighRow { dst, lladdr, dev: dev.clone(), state: neigh_states(&m.state) })
}

/// The rows of the neighbours that are asked for, after those that are there already.
pub fn neigh_rows(
    rows: Vec<NeighRow>,
    dev: &String,
    index: u32,
    neighbours: &Vec<NeighbourMessage>,
) -> (more: Vec<NeighRow>)
    ensures
        neigh_row_views(more@) == neigh_row_views(rows@) + neigh_rows_of(
            dev@,
            index,
            neighbours@,
        ),
{
    let ghost value = wanted_neighbour(dev@, index);
    let ghost start = neigh_row_views(rows@);
    let mut more = rows;
    let mut i: usize = 0;
    assert(start + all_matches(neighbours@.take(0), value) =~= start);
    while i < neighbours.len()
        invariant
            i <= neighbours.len(),
            value == wanted_neighbour(dev@, index),
            neigh_row_views(more@) == start + all_matches(neighbours@.take(i as int), value),
        decreases neighbours.len() - i,
    {
        proof {
            lemma_pick_next(neighbours@, i as int, value);
        }
        let ghost before = neigh_row_views(more@);
        let ghost picks = all_matches(neighbours@.take(i as int), value);
        if let Some(row) = wanted_neighbour_row(dev, index, &neighbours[i]) {
            let ghost view = row@;
            more.push(row);
            assert(neigh_row_views(more@) =~= before.push(view));
            assert(before.push(view) =~= start + picks.push(view));
        }
        i = i + 1;
    }
    assert(neighbours@.take(neighbours.len() as int) =~= neighbours@);
    more
}

} // verus!
