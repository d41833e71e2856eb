//! What is reported of links, stated on the fields and attributes of the kernel's messages.

use vstd::prelude::*;

use crate::links::{
    attribute_kind, bridges_of, controller, hardware_address, if_name, info_kind, is_bridge,
    link_rows_of, mtu, name_of, names_of, oper_state, says_bridge, wanted_link,
};
use crate::mac::mac_text;
use crate::message::{LinkAttribute, LinkInfo, LinkMessage, State};
use crate::outside::{kind_variant, lowered};
use crate::pick::{
    lemma_first_at, lemma_last_at, lemma_matches_of_one, lemma_matches_of_sum, lemma_no_match,
};
use crate::rows::LinkRowView;

verus! {

/// The links of two lists, one after the other, are reported as those of the first, then those
/// of the second; and of no links there is no row.
pub proof fn law_link_rows_of_sum(
    names: Map<u32, Seq<char>>,
    a: Seq<LinkMessage>,
    b: Seq<LinkMessage>,
    master: Option<u32>,
    bridge_only: bool,
)
    ensures
        link_rows_of(names, a + b, master, bridge_only) == link_rows_of(
            names,
            a,
            master,
            bridge_only,
        ) + link_rows_of(names, b, master, bridge_only),
        link_rows_of(names, Seq::empty(), master, bridge_only) == Seq::<LinkRowView>::empty(),
{
    lemma_matches_of_sum(a, b, wanted_link(names, master, bridge_only));
}

/// Where neither a master nor bridges are asked for, every link has one row. Its name is the
/// first that its attributes give, or empty.
pub proof fn law_link_name(names: Map<u32, Seq<char>>, m: LinkMessage, k: int, name: String)
    ensures
        link_rows_of(names, seq![m], None, false).len() == 1,
        0 <= k < m.attributes@.len() && m.attributes@[k] == LinkAttribute::IfName(name) && (forall|
            j: int,
        |
            0 <= j < k ==> !(#[trigger] m.attributes@[j] is IfName)) ==> link_rows_of(
            names,
            seq![m],
            None,
            false,
        )[0].ifname == name@,
        (forall|j: int| 0 <= j < m.attributes@.len() ==> !(#[trigger] m.attributes@[j] is IfName))
            ==> link_rows_of(names, seq![m], None, false)[0].ifname == Seq::<char>::empty(),
{
    lemma_matches_of_one(m, wanted_link(names, None, false));
    lemma_name(m, k, name);
}

/// The name of a link is the first that its attributes give, or empty.
proof fn lemma_name(m: LinkMessage, k: int, name: String)
    ensures
        0 <= k < m.attributes@.len() && m.attributes@[k] == LinkAttribute::IfName(name) && (forall|
            j: int,
        |
            0 <= j < k ==> !(#[trigger] m.attributes@[j] is IfName)) ==> name_of(m) == name@,
        (forall|j: int| 0 <= j < m.attributes@.len() ==> !(#[trigger] m.attributes@[j] is IfName))
            ==> name_of(m) == Seq::<char>::empty(),
{
    let all = m.attributes@;
    if 0 <= k < all.len() && all[k] == LinkAttribute::IfName(name) && (forall|j: int|
        0 <= j < k ==> !(#[trigger] all[j] is IfName)) {
        lemma_first_at(all, if_name(), k);
    }
    if forall|j: int| 0 <= j < all.len() ==> !(#[trigger] all[j] is IfName) {
        lemma_no_match(all, if_name());
    }
}

/// The address of a link is reported from the last link-layer address that its attributes give,
/// or as empty.
pub proof fn law_link_address(names: Map<u32, Seq<char>>, m: LinkMessage, k: int, bytes: Vec<u8>)
    ensures
        0 <= k < m.attributes@.len() && m.attributes@[k] == LinkAttribute::Address(bytes) && (
        forall|j: int|
            k < j < m.attributes@.len() ==> !(#[trigger] m.attributes@[j] is Address))
            ==> link_rows_of(names, seq![m], None, false)[0].address == mac_text(bytes@),
        (forall|j: int| 0 <= j < m.attributes@.len() ==> !(#[trigger] m.attributes@[j] is Address))
            ==> link_rows_of(names, seq![m], None, false)[0].address == Seq::<char>::empty(),
{
    let all = m.attributes@;
    lemma_matches_of_one(m, wanted_link(names, None, false));
    if 0 <= k < all.len() && all[k] == LinkAttribute::Address(bytes) && (forall|j: int|
        k < j < all.len() ==> !(#[trigger] all[j] is Address)) {
        lemma_last_at(all, hardware_address(), k);
    }
    if forall|j: int| 0 <= j < all.len() ==> !(#[trigger] all[j] is Address) {
        lemma_no_match(all, hardware_address());
    }
}

/// The state of a link is reported by the name of the last operational state that its
/// attributes give; where they give none, or one without a name, it is unknown.
pub proof fn law_link_state(names: Map<u32, Seq<char>>, m: LinkMessage, k: int, state: State)
    ensures
        0 <= k < m.attributes@.len() && m.attributes@[k] == LinkAttribute::OperState(state) && (
        forall|j: int|
            k < j < m.attributes@.len() ==> !(#[trigger] m.attributes@[j] is OperState)) ==> {
            let text = link_rows_of(names, seq![m], None, false)[0].operstate;
            &&& state is Up ==> text == "UP"@
            &&& state is Down ==> text == "DOWN"@
            &&& state is LowerLayerDown ==> text == "LOWERLAYERDOWN"@
            &&& state is Testing ==> text == "TESTING"@
            &&& state is Dormant ==> text == "DORMANT"@
            &&& state is NotPresent ==> text == "NOTPRESENT"@
            &&& state is Unknown || state is Other ==> text == "UNKNOWN"@
        },
        (forall|j: int|
            0 <= j < m.attributes@.len() ==> !(#[trigger] m.attributes@[j] is OperState))
            ==> link_rows_of(names, seq![m], None, false)[0].operstate == "UNKNOWN"@,
{
    let all = m.attributes@;
    lemma_matches_of_one(m, wanted_link(names, None, false));
    if 0 <= k < all.len() && all[k] == LinkAttribute::OperState(state) && (forall|j: int|
        k < j < all.len() ==> !(#[trigger] all[j] is OperState)) {
        lemma_last_at(all, oper_state(), k);
    }
    if forall|j: int| 0 <= j < all.len() ==> !(#[trigger] all[j] is OperState) {
        lemma_no_match(all, oper_state());
    }
}

/// The MTU of a link is the last that its attributes give, or zero.
pub proof fn law_link_mtu(names: Map<u32, Seq<char>>, m: LinkMessage, k: int, value: u32)
    ensures
        0 <= k < m.attributes@.len() && m.attributes@[k] == LinkAttribute::Mtu(value) && (forall|
            j: int,
        |
            k < j < m.attributes@.len() ==> !(#[trigger] m.attributes@[j] is Mtu)) ==> link_rows_of(
            names,
            seq![m],
            None,
            false,
        )[0].mtu == value,
        (forall|j: int| 0 <= j < m.attributes@.len() ==> !(#[trigger] m.attributes@[j] is Mtu))
            ==> link_rows_of(names, seq![m], None, false)[0].mtu == 0,
{
    let all = m.attributes@;
    lemma_matches_of_one(m, wanted_link(names, None, false));
    if 0 <= k < all.len() && all[k] == LinkAttribute::Mtu(value) && (forall|j: int|
        k < j < all.len() ==> !(#[trigger] all[j] is Mtu)) {
        lemma_last_at(all, mtu(), k);
    }
    if forall|j: int| 0 <= j < all.len() ==> !(#[trigger] all[j] is Mtu) {
        lemma_no_match(all, mtu());
    }
}

/// The master of a link is the last controller that its attributes give. It is reported by the
/// name of that index, and the link is listed under that master and no other. A link without a
/// controller, whatever else it has, has no master and is listed under none.
pub proof fn law_link_master(
    names: Map<u32, Seq<char>>,
    m: LinkMessage,
    k: int,
    index: u32,
    want: u32,
    bridge_only: bool,
)
    ensures
        0 <= k < m.attributes@.len() && m.attributes@[k] == LinkAttribute::Controller(index) && (
        forall|j: int|
            k < j < m.attributes@.len() ==> !(#[trigger] m.attributes@[j] is Controller)) ==> {
            &&& names.contains_key(index) ==> link_rows_of(names, seq![m], None, false)[0].master
                == names[index]
            &&& !names.contains_key(index) ==> link_rows_of(names, seq![m], None, false)[0].master
                == Seq::<char>::empty()
            &&& index == want ==> link_rows_of(names, seq![m], Some(want), bridge_only)
                == link_rows_of(names, seq![m], None, bridge_only)
            &&& index != want ==> link_rows_of(names, seq![m], Some(want), bridge_only) == Seq::<
                LinkRowView,
            >::empty()
        },
        (forall|j: int|
            0 <= j < m.attributes@.len() ==> !(#[trigger] m.attributes@[j] is Controller)) ==> {
            &&& link_rows_of(names, seq![m], None, false)[0].master == Seq::<char>::empty()
            &&& link_rows_of(names, seq![m], Some(want), bridge_only) == Seq::<LinkRowView>::empty()
        },
{
    let all = m.attributes@;
    lemma_matches_of_one(m, wanted_link(names, None, false));
    lemma_matches_of_one(m, wanted_link(names, None, bridge_only));
    lemma_matches_of_one(m, wanted_link(names, Some(want), bridge_only));
    if 0 <= k < all.len() && all[k] == LinkAttribute::Controller(index) && (forall|j: int|
        k < j < all.len() ==> !(#[trigger] all[j] is Controller)) {
        lemma_last_at(all, controller(), k);
    }
    if forall|j: int| 0 <= j < all.len() ==> !(#[trigger] all[j] is Controller) {
        lemma_no_match(all, controller());
    }
}

/// The kind of a link is the last that the last of its attributes with one gives. It is reported
/// as the variant that stands for it in lower case, and the link is listed among bridges if and
/// only if the kernel names the kind a bridge. A link that gives no kind has an empty one, and is
/// not listed among bridges.
pub proof fn law_link_kind(
    names: Map<u32, Seq<char>>,
    m: LinkMessage,
    k: int,
    infos: Vec<LinkInfo>,
    j: int,
    name: String,
    master: Option<u32>,
)
    ensures
        0 <= k < m.attributes@.len() && m.attributes@[k] == LinkAttribute::LinkInfo(infos) && 0 <= j
            < infos@.len() && infos@[j] == LinkInfo::Kind(name) && (forall|i: int|
            j < i < infos@.len() ==> !(#[trigger] infos@[i] is Kind)) && (forall|i: int|
            k < i < m.attributes@.len() ==> gives_no_kind(#[trigger] m.attributes@[i])) ==> {
            &&& link_rows_of(names, seq![m], None, false)[0].kind == lowered(kind_variant(name@))
            &&& name@ == "bridge"@ ==> link_rows_of(names, seq![m], master, true) == link_rows_of(
                names,
                seq![m],
                master,
                false,
            )
            &&& name@ != "bridge"@ ==> link_rows_of(names, seq![m], master, true) == Seq::<
                LinkRowView,
            >::empty()
        },
        (forall|i: int|
            0 <= i < m.attributes@.len() ==> gives_no_kind(#[trigger] m.attributes@[i])) ==> {
            &&& link_rows_of(names, seq![m], None, false)[0].kind == Seq::<char>::empty()
            &&& link_rows_of(names, seq![m], master, true) == Seq::<LinkRowView>::empty()
        },
{
    let all = m.attributes@;
    lemma_matches_of_one(m, wanted_link(names, None, false));
    lemma_matches_of_one(m, wanted_link(names, master, false));
    lemma_matches_of_one(m, wanted_link(names, master, true));
    assert forall|i: int| 0 <= i < all.len() && gives_no_kind(all[i]) implies attribute_kind()(
        #[trigger] all[i],
    ) is None by {
        if let LinkAttribute::LinkInfo(other) = all[i] {
            lemma_no_match(other@, info_kind());
        }
    }
    if 0 <= k < all.len() && all[k] == LinkAttribute::LinkInfo(infos) && 0 <= j < infos@.len()
        && infos@[j] == LinkInfo::Kind(name) && (forall|i: int|
        j < i < infos@.len() ==> !(#[trigger] infos@[i] is Kind)) && (forall|i: int|
        k < i < all.len() ==> gives_no_kind(#[trigger] all[i])) {
        lemma_last_at(infos@, info_kind(), j);
        lemma_last_at(all, attribute_kind(), k);
    }
    if forall|i: int| 0 <= i < all.len() ==> gives_no_kind(#[trigger] all[i]) {
        lemma_no_match(all, attribute_kind());
    }
}

/// Whether an attribute gives no kind.
pub open spec fn gives_no_kind(a: LinkAttribute) -> bool {
    a matches LinkAttribute::LinkInfo(infos) ==> forall|i: int|
        0 <= i < infos@.len() ==> !(#[trigger] infos@[i] is Kind)
}

/// An index has a name if and only if a link of the list has that index. The name is the first
/// that the attributes of the last such link give, or empty.
pub proof fn law_names(links: Seq<LinkMessage>, index: u32, l: int, k: int, name: String)
    ensures
        (forall|j: int| 0 <= j < links.len() ==> (#[trigger] links[j]).index != index)
            ==> !names_of(links).contains_key(index),
        0 <= l < links.len() && links[l].index == index ==> names_of(links).contains_key(index),
        0 <= l < links.len() && links[l].index == index && (forall|j: int|
            l < j < links.len() ==> (#[trigger] links[j]).index != index) && 0 <= k
            < links[l].attributes@.len() && links[l].attributes@[k] == LinkAttribute::IfName(name)
            && (forall|j: int|
            0 <= j < k ==> !(#[trigger] links[l].attributes@[j] is IfName)) ==> names_of(
            links,
        )[index] == name@,
        0 <= l < links.len() && links[l].index == index && (forall|j: int|
            l < j < links.len() ==> (#[trigger] links[j]).index != index) && (forall|j: int|
            0 <= j < links[l].attributes@.len() ==> !(#[trigger] links[l].attributes@[j] is IfName))
            ==> names_of(links)[index] == Seq::<char>::empty(),
{
    lemma_names_absent(links, index);
    if 0 <= l < links.len() && links[l].index == index {
        lemma_names_present(links, index, l);
        lemma_name(links[l], k, name);
    }
}

/// An index that no link has has no name, and is not known for a bridge.
proof fn lemma_names_absent(links: Seq<LinkMessage>, index: u32)
    ensures
        (forall|j: int| 0 <= j < links.len() ==> (#[trigger] links[j]).index != index)
            ==> !names_of(links).contains_key(index) && !bridges_of(links).contains_key(index),
    decreases links.len(),
{
    if links.len() > 0 && forall|j: int|
        0 <= j < links.len() ==> (#[trigger] links[j]).index != index {
        let front = links.drop_last();
        assert(links[links.len() - 1].index != index);
        assert forall|j: int| 0 <= j < front.len() implies (#[trigger] front[j]).index != index by {
            assert(front[j] == links[j]);
        }
        lemma_names_absent(front, index);
    }
}

/// An index that a link has is known; where no later link has it, as that link says.
proof fn lemma_names_present(links: Seq<LinkMessage>, index: u32, l: int)
    requires
        0 <= l < links.len(),
        links[l].index == index,
    ensures
        names_of(links).contains_key(index),
        bridges_of(links).contains_key(index),
        (forall|j: int| l < j < links.len() ==> (#[trigger] links[j]).index != index) ==> names_of(
            links,
        )[index] == name_of(links[l]) && bridges_of(links)[index] == is_bridge(links[l]),
    decreases links.len(),
{
    if l < links.len() - 1 {
        let front = links.drop_last();
        lemma_names_present(front, index, l);
        if forall|j: int| l < j < links.len() ==> (#[trigger] links[j]).index != index {
            assert(links[links.len() - 1].index != index);
            assert forall|j: int| l < j < front.len() implies (#[trigger] front[j]).index
                != index by {
                assert(front[j] == links[j]);
            }
        }
    }
}

/// An index is known for a bridge if and only if the last link of the list with that index has
/// an attribute that says so, whatever other kinds the link has.
pub proof fn law_bridges(
    links: Seq<LinkMessage>,
    index: u32,
    l: int,
    k: int,
    infos: Vec<LinkInfo>,
    j: int,
    name: String,
)
    ensures
        (forall|i: int| 0 <= i < links.len() ==> (#[trigger] links[i]).index != index)
            ==> !bridges_of(links).contains_key(index),
        0 <= l < links.len() && links[l].index == index ==> bridges_of(links).contains_key(index),
        0 <= l < links.len() && links[l].index == index && (forall|i: int|
            l < i < links.len() ==> (#[trigger] links[i]).index != index) && 0 <= k
            < links[l].attributes@.len() && links[l].attributes@[k] == LinkAttribute::LinkInfo(
            infos,
        ) && 0 <= j < infos@.len() && infos@[j] == LinkInfo::Kind(name) && name@ == "bridge"@
            ==> bridges_of(links)[index],
        0 <= l < links.len() && links[l].index == index && (forall|i: int|
            l < i < links.len() ==> (#[trigger] links[i]).index != index) && (forall|i: int|
            0 <= i < links[l].attributes@.len() ==> names_no_bridge(
                #[trigger] links[l].attributes@[i],
            )) ==> !bridges_of(links)[index],
{
    lemma_names_absent(links, index);
    if 0 <= l < links.len() && links[l].index == index {
        lemma_names_present(links, index, l);
        let all = links[l].attributes@;
        if 0 <= k < all.len() && all[k] == LinkAttribute::LinkInfo(infos) && 0 <= j < infos@.len()
            && infos@[j] == LinkInfo::Kind(name) && name@ == "bridge"@ {
            assert(info_kind()(infos@[j]) == Some("bridge"@));
            assert(says_bridge(infos@));
            assert(is_bridge(links[l]));
        }
        if forall|i: int| 0 <= i < all.len() ==> names_no_bridge(#[trigger] all[i]) {
            if is_bridge(links[l]) {
                let i = choose|i: int|
                    0 <= i < all.len() && (#[trigger] all[i] matches LinkAttribute::LinkInfo(x)
                        && says_bridge(x@));
                assert(names_no_bridge(all[i]));
                if let LinkAttribute::LinkInfo(x) = all[i] {
                    let n = choose|n: int|
                        0 <= n < x@.len() && info_kind()(#[trigger] x@[n]) == Some("bridge"@);
                    assert(x@[n] is Kind);
                }
            }
        }
    }
}

/// Whether no kind that an attribute gives is that of a bridge.
pub open spec fn names_no_bridge(a: LinkAttribute) -> bool {
    a matches LinkAttribute::LinkInfo(infos) ==> forall|i: int|
        0 <= i < infos@.len() ==> !(#[trigger] infos@[i] matches LinkInfo::Kind(name) && name@
            == "bridge"@)
}

} // verus!
