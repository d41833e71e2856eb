//! Links: their names, and the rows that are reported of them.

use std::collections::HashMap;

use vstd::prelude::*;

use crate::mac::{mac_text, mac_to_string};
use crate::message::{LinkAttribute, LinkInfo, LinkMessage, State};
use crate::outside::{kind_debug, kind_variant, lower, lowered};
use crate::pick::{
    all_matches, first_match, last_match, lemma_all_matches_from, lemma_first_match_stays,
    lemma_pick_next, value_or,
};
use crate::rows::{link_row_views, oper_text, oper_to_string, LinkRow, LinkRowView};
use crate::text::same_text;

verus! {

broadcast use vstd::std_specs::hash::group_hash_axioms;

/// The name that an attribute gives.
pub open spec fn if_name() -> spec_fn(LinkAttribute) -> Option<Seq<char>> {
    |a: LinkAttribute|
        match a {
            LinkAttribute::IfName(name) => Some(name@),
            _ => None,
        }
}

/// The name of a link: the first that its attributes give, or nothing.
pub open spec fn name_of(m: LinkMessage) -> Seq<char> {
    value_or(first_match(m.attributes@, if_name()), Seq::empty())
}

/// The name of a link.
pub fn link_name(m: &LinkMessage) -> (name: String)
    ensures
        name@ == name_of(*m),
{
    let ghost attributes = m.attributes@;
    let mut i: usize = 0;
    while i < m.attributes.len()
        invariant
            i <= m.attributes.len(),
            attributes == m.attributes@,
            first_match(attributes.take(i as int), if_name()) is None,
        decreases m.attributes.len() - i,
    {
        proof {
            lemma_pick_next(attributes, i as int, if_name());
        }
        if let LinkAttribute::IfName(name) = &m.attributes[i] {
            proof {
                lemma_first_match_stays(attributes, i + 1, if_name());
            }
            return name.clone();
        }
        i = i + 1;
    }
    assert(attributes.take(attributes.len() as int) =~= attributes);
    String::new()
}

/// The names of some links by their index; of several links with one index, the last.
pub open spec fn names_of(links: Seq<LinkMessage>) -> Map<u32, Seq<char>>
    decreases links.len(),
{
    if links.len() == 0 {
        Map::empty()
    } else {
        names_of(links.drop_last()).insert(links.last().index, name_of(links.last()))
    }
}

/// The name of the link with this index, or nothing.
pub open spec fn name_at(names: Map<u32, Seq<char>>, index: u32) -> Seq<char> {
    if names.contains_key(index) {
        names[index]
    } else {
        Seq::empty()
    }
}

/// The names of links by their index.
#[derive(Debug, PartialEq, Eq)]
pub struct LinkNames {
    map: HashMap<u32, String>,
}

impl View for LinkNames {
    type V = Map<u32, Seq<char>>;

    closed spec fn view(&self) -> Map<u32, Seq<char>> {
        self.map@.map_values(|name: String| name@)
    }
}

impl LinkNames {
    /// The name of the link with this index, or nothing.
    pub fn get(&self, index: u32) -> (name: String)
        ensures
            name@ == name_at(self@, index),
    {
        match self.map.get(&index) {
            Some(name) => name.clone(),
            None => String::new(),
        }
    }
}

/// The names of some links by their index: addresses and neighbours carry an index only.
pub fn link_names(links: &Vec<LinkMessage>) -> (names: LinkNames)
    ensures
        names@ == names_of(links@),
{
    let mut names = LinkNames { map: HashMap::new() };
    let mut i: usize = 0;
    assert(names@ =~= names_of(links@.take(0)));
    while i < links.len()
        invariant
            i <= links.len(),
            names@ == names_of(links@.take(i as int)),
        decreases links.len() - i,
    {
        let ghost before = names@;
        let name = link_name(&links[i]);
        let ghost text = name@;
        names.map.insert(links[i].index, name);
        proof {
            assert(links@.take(i + 1).drop_last() =~= links@.take(i as int));
            assert(names@ =~= before.insert(links@[i as int].index, text));
        }
        i = i + 1;
    }
    assert(links@.take(links.len() as int) =~= links@);
    names
}

/// The kernel's name for the kind that an info gives.
pub open spec fn info_kind() -> spec_fn(LinkInfo) -> Option<Seq<char>> {
    |info: LinkInfo|
        match info {
            LinkInfo::Kind(name) => Some(name@),
            _ => None,
        }
}

/// The kernel's name for the last kind that an attribute gives.
pub open spec fn attribute_kind() -> spec_fn(LinkAttribute) -> Option<Seq<char>> {
    |a: LinkAttribute|
        match a {
            LinkAttribute::LinkInfo(infos) => last_match(infos@, info_kind()),
            _ => None,
        }
}

/// The kernel's name for the kind of a link, if it has one.
pub open spec fn kind_name(m: LinkMessage) -> Option<Seq<char>> {
    last_match(m.attributes@, attribute_kind())
}

/// A kind as it is reported, from the kernel's name for it.
pub open spec fn kind_text(name: Seq<char>) -> Seq<char> {
    lowered(kind_variant(name))
}

/// The kind of a link as it is reported, or nothing.
pub open spec fn reported_kind(m: LinkMessage) -> Seq<char> {
    match kind_name(m) {
        Some(name) => kind_text(name),
        None => Seq::empty(),
    }
}

/// Whether the reported kind of a link is `bridge` if and only if the kernel's name for its
/// kind is.
pub open spec fn kind_tells_bridge(m: LinkMessage) -> bool {
    (reported_kind(m) == "bridge"@) == (kind_name(m) == Some("bridge"@))
}

/// Whether the reported kinds of some links tell which of them are bridges.
pub open spec fn kinds_tell_bridges(links: Seq<LinkMessage>) -> bool {
    forall|i: int| 0 <= i < links.len() ==> kind_tells_bridge(#[trigger] links[i])
}

/// The rows whose kind is reported as `bridge`.
pub open spec fn bridge_rows(rows: Seq<LinkRowView>) -> Seq<LinkRowView> {
    rows.filter(|row: LinkRowView| row.kind == "bridge"@)
}

/// The link-layer address that an attribute gives.
pub open spec fn hardware_address() -> spec_fn(LinkAttribute) -> Option<Seq<u8>> {
    |a: LinkAttribute|
        match a {
            LinkAttribute::Address(bytes) => Some(bytes@),
            _ => None,
        }
}

/// The operational state that an attribute gives.
pub open spec fn oper_state() -> spec_fn(LinkAttribute) -> Option<State> {
    |a: LinkAttribute|
        match a {
            LinkAttribute::OperState(state) => Some(state),
            _ => None,
        }
}

/// The index of a master that an attribute gives.
pub open spec fn controller() -> spec_fn(LinkAttribute) -> Option<u32> {
    |a: LinkAttribute|
        match a {
            LinkAttribute::Controller(index) => Some(index),
            _ => None,
        }
}

/// The MTU that an attribute gives.
pub open spec fn mtu() -> spec_fn(LinkAttribute) -> Option<u32> {
    |a: LinkAttribute|
        match a {
            LinkAttribute::Mtu(value) => Some(value),
            _ => None,
        }
}

/// What is reported of a link. Of an attribute that comes more than once, the last counts.
pub open spec fn link_row(names: Map<u32, Seq<char>>, m: LinkMessage) -> LinkRowView {
    LinkRowView {
        ifname: name_of(m),
        address: match last_match(m.attributes@, hardware_address()) {
            Some(bytes) => mac_text(bytes),
            None => Seq::empty(),
        },
        operstate: oper_text(value_or(last_match(m.attributes@, oper_state()), State::Unknown)),
        master: match last_match(m.attributes@, controller()) {
            Some(index) => name_at(names, index),
            None => Seq::empty(),
        },
        mtu: value_or(last_match(m.attributes@, mtu()), 0),
        kind: reported_kind(m),
    }
}

/// What is reported of a link that is asked for: with this master, where one is given, and a
/// bridge, where only bridges are.
pub open spec fn wanted_link(
    names: Map<u32, Seq<char>>,
    master: Option<u32>,
    bridge_only: bool,
) -> spec_fn(LinkMessage) -> Option<LinkRowView> {
    |m: LinkMessage|
        if (master is Some ==> last_match(m.attributes@, controller()) == master) && (bridge_only
            ==> kind_name(m) == Some("bridge"@)) {
            Some(link_row(names, m))
        } else {
            None
        }
}

/// The rows of the links that are asked for.
pub open spec fn link_rows_of(
    names: Map<u32, Seq<char>>,
    links: Seq<LinkMessage>,
    master: Option<u32>,
    bridge_only: bool,
) -> Seq<LinkRowView> {
    all_matches(links, wanted_link(names, master, bridge_only))
}

/// The last kind among some infos, as the kernel names it.
fn last_kind(infos: &Vec<LinkInfo>) -> (kind: Option<String>)
    ensures
        kind matches Some(name) ==> last_match(infos@, info_kind()) == Some(name@),
        kind is None ==> last_match(infos@, info_kind()) is None,
{
    let mut kind: Option<String> = None;
    let mut i: usize = 0;
    while i < infos.len()
        invariant
            i <= infos.len(),
            kind matches Some(name) ==> last_match(infos@.take(i as int), info_kind()) == Some(
                name@,
            ),
            kind is None ==> last_match(infos@.take(i as int), info_kind()) is None,
        decreases infos.len() - i,
    {
        proof {
            lemma_pick_next(infos@, i as int, info_kind());
        }
        if let LinkInfo::Kind(name) = &infos[i] {
            kind = Some(name.clone());
        }
        i = i + 1;
    }
    assert(infos@.take(infos.len() as int) =~= infos@);
    kind
}

/// A kind as it is reported: the name of the variant that stands for it, in lower case.
pub fn kind_to_string(name: &str) -> (text: String)
    ensures
        text@ == kind_text(name@),
        (text@ == "bridge"@) == (name@ == "bridge"@),
{
    let variant = kind_debug(name);
    proof {
        if name@ == "bridge"@ {
            reveal_strlit("Bridge");
            reveal_strlit("bridge");
            assert(vstd::utf8::is_ascii_chars(variant@));
            assert(variant@.map_values(|c: char| crate::outside::ascii_lower(c)) =~= "bridge"@);
        }
    }
    lower(variant.as_str())
}

/// What is reported of one link that is asked for.
fn wanted_link_row(
    names: &LinkNames,
    m: &LinkMessage,
    master: Option<u32>,
    bridge_only: bool,
) -> (row: Option<LinkRow>)
    ensures
        row matches Some(r) ==> wanted_link(names@, master, bridge_only)(*m) == Some(r@),
        row is None ==> wanted_link(names@, master, bridge_only)(*m) is None,
        row matches Some(r) ==> (r.kind@ == "bridge"@) == (kind_name(*m) == Some("bridge"@)),
        kind_tells_bridge(*m),
{
    let mut address = String::new();
    let mut operstate = "UNKNOWN".to_owned();
    let mut master_index: Option<u32> = None;
    let mut size: u32 = 0;
    let mut kind = String::new();
    let ghost attributes = m.attributes@;
    proof {
        reveal_strlit("bridge");
    }
    let mut i: usize = 0;
    while i < m.attributes.len()
        invariant
            i <= m.attributes.len(),
            attributes == m.attributes@,
            address@ == match last_match(attributes.take(i as int), hardware_address()) {
                Some(bytes) => mac_text(bytes),
                None => Seq::empty(),
            },
            operstate@ == oper_text(
                value_or(last_match(attributes.take(i as int), oper_state()), State::Unknown),
            ),
            master_index == last_match(attributes.take(i as int), controller()),
            size == value_or(last_match(attributes.take(i as int), mtu()), 0),
            kind@ == match last_match(attributes.take(i as int), attribute_kind()) {
                Some(name) => kind_text(name),
                None => Seq::empty(),
            },
            (kind@ == "bridge"@) == (last_match(attributes.take(i as int), attribute_kind())
                == Some("bridge"@)),
        decreases m.attributes.len() - i,
    {
        proof {
            lemma_pick_next(attributes, i as int, hardware_address());
            lemma_pick_next(attributes, i as int, oper_state());
            lemma_pick_next(attributes, i as int, controller());
            lemma_pick_next(attributes, i as int, mtu());
            lemma_pick_next(attributes, i as int, attribute_kind());
        }
        match &m.attributes[i] {
            LinkAttribute::Address(bytes) => {
                address = mac_to_string(bytes.as_slice());
            },
            LinkAttribute::OperState(state) => {
                operstate = oper_to_string(state);
            },
            LinkAttribute::Controller(index) => {
                master_index = Some(*index);
            },
            LinkAttribute::Mtu(value) => {
                size = *value;
            },
            LinkAttribute::LinkInfo(infos) => {
                if let Some(name) = last_kind(infos) {
                    kind = kind_to_string(name.as_str());
                }
            },
            _ => {},
        }
        i = i + 1;
    }
    assert(attributes.take(attributes.len() as int) =~= attributes);
    if let Some(want) = master {
        match master_index {
            Some(index) => {
                if index != want {
                    return None;
                }
            },
            None => {
                return None;
            },
        }
    }
    if bridge_only && !same_text(kind.as_str(), "bridge") {
        return None;
    }
    let master_name = match master_index {
        Some(index) => names.get(index),
        None => String::new(),
    };
    Some(
        LinkRow {
            ifname: link_name(m),
            address,
            operstate,
            master: master_name,
            mtu: size,
            kind,
        },
    )
}

/// The rows of the links that are asked for. Where only bridges are, they are the rows of all
/// whose kind is reported as `bridge`.
pub fn link_rows(
    names: &LinkNames,
    links: &Vec<LinkMessage>,
    master: Option<u32>,
    bridge_only: bool,
) -> (rows: Vec<LinkRow>)
    ensures
        link_row_views(rows@) == link_rows_of(names@, links@, master, bridge_only),
        kinds_tell_bridges(links@),
        bridge_only ==> link_row_views(rows@) == bridge_rows(
            link_rows_of(names@, links@, master, false),
        ),
{
    let ghost value = wanted_link(names@, master, bridge_only);
    let mut rows: Vec<LinkRow> = Vec::new();
    let mut i: usize = 0;
    assert(link_row_views(rows@) =~= all_matches(links@.take(0), value));
    while i < links.len()
        invariant
            i <= links.len(),
            value == wanted_link(names@, master, bridge_only),
            link_row_views(rows@) == all_matches(links@.take(i as int), value),
            forall|j: int| 0 <= j < i ==> kind_tells_bridge(#[trigger] links@[j]),
        decreases links.len() - i,
    {
        proof {
            lemma_pick_next(links@, i as int, value);
        }
        let ghost before = link_row_views(rows@);
        if let Some(row) = wanted_link_row(names, &links[i], master, bridge_only) {
            let ghost view = row@;
            rows.push(row);
            assert(link_row_views(rows@) =~= before.push(view));
        }
        i = i + 1;
    }
    proof {
        assert(links@.take(links.len() as int) =~= links@);
        law_bridges_only(names@, links@, master);
    }
    rows
}

/// Where the reported kinds tell which links are bridges, as they do of every list that is
/// reported, the list of bridges is the list of all links, kept where the kind is `bridge`.
pub proof fn law_bridges_only(
    names: Map<u32, Seq<char>>,
    links: Seq<LinkMessage>,
    master: Option<u32>,
)
    requires
        kinds_tell_bridges(links),
    ensures
        link_rows_of(names, links, master, true) == bridge_rows(
            link_rows_of(names, links, master, false),
        ),
    decreases links.len(),
{
    reveal(Seq::filter);
    if links.len() > 0 {
        let front = links.drop_last();
        assert forall|i: int| 0 <= i < front.len() implies kind_tells_bridge(
            #[trigger] front[i],
        ) by {
            assert(front[i] == links[i]);
        }
        law_bridges_only(names, front, master);
        assert(kind_tells_bridge(links[links.len() - 1]));
        let rows = link_rows_of(names, front, master, false);
        if let Some(row) = wanted_link(names, master, false)(links.last()) {
            assert(rows.push(row).drop_last() =~= rows);
            assert(rows.push(row).last() == row);
        }
    }
}

/// Where only the ports of a master are asked for, every row is of a link with that master;
/// where only bridges are, every row is of a bridge; and every such link has a row.
pub proof fn law_link_rows(
    names: Map<u32, Seq<char>>,
    links: Seq<LinkMessage>,
    master: Option<u32>,
    bridge_only: bool,
    row: LinkRowView,
)
    ensures
        link_rows_of(names, links, master, bridge_only).contains(row) <==> exists|i: int|
            {
                &&& 0 <= i < links.len()
                &&& row == link_row(names, #[trigger] links[i])
                &&& master is Some ==> last_match(links[i].attributes@, controller()) == master
                &&& bridge_only ==> kind_name(links[i]) == Some("bridge"@)
            },
{
    let value = wanted_link(names, master, bridge_only);
    lemma_all_matches_from(links, value, row);
    if link_rows_of(names, links, master, bridge_only).contains(row) {
        let i = choose|i: int| 0 <= i < links.len() && value(#[trigger] links[i]) == Some(row);
        assert(row == link_row(names, links[i]));
    }
    if exists|i: int|
        {
            &&& 0 <= i < links.len()
            &&& row == link_row(names, #[trigger] links[i])
            &&& master is Some ==> last_match(links[i].attributes@, controller()) == master
            &&& bridge_only ==> kind_name(links[i]) == Some("bridge"@)
        } {
        let i = choose|i: int|
            {
                &&& 0 <= i < links.len()
                &&& row == link_row(names, #[trigger] links[i])
                &&& master is Some ==> last_match(links[i].attributes@, controller()) == master
                &&& bridge_only ==> kind_name(links[i]) == Some("bridge"@)
            };
        assert(value(links[i]) == Some(row));
    }
}

/// Whether some infos say that a link is a bridge.
pub open spec fn says_bridge(infos: Seq<LinkInfo>) -> bool {
    exists|i: int| 0 <= i < infos.len() && info_kind()(#[trigger] infos[i]) == Some("bridge"@)
}

/// Whether a link is a bridge.
pub open spec fn is_bridge(m: LinkMessage) -> bool {
    exists|i: int|
        0 <= i < m.attributes@.len() && (#[trigger] m.attributes@[i] matches LinkAttribute::LinkInfo(
            infos,
        ) && says_bridge(infos@))
}

/// Which links are bridges, by their index; of several links with one index, the last.
pub open spec fn bridges_of(links: Seq<LinkMessage>) -> Map<u32, bool>
    decreases links.len(),
{
    if links.len() == 0 {
        Map::empty()
    } else {
        bridges_of(links.drop_last()).insert(links.last().index, is_bridge(links.last()))
    }
}

/// Whether the link with this index is known to be a bridge.
pub open spec fn bridge_at(bridges: Map<u32, bool>, index: u32) -> bool {
    bridges.contains_key(index) && bridges[index]
}

/// Whether some infos say that a link is a bridge.
fn infos_say_bridge(infos: &Vec<LinkInfo>) -> (bridge: bool)
    ensures
        bridge == says_bridge(infos@),
{
    let mut i: usize = 0;
    while i < infos.len()
        invariant
            i <= infos.len(),
            forall|j: int| 0 <= j < i ==> info_kind()(#[trigger] infos@[j]) != Some("bridge"@),
        decreases infos.len() - i,
    {
        if let LinkInfo::Kind(name) = &infos[i] {
            if same_text(name.as_str(), "bridge") {
                assert(info_kind()(infos@[i as int]) == Some("bridge"@));
                return true;
            }
        }
        i = i + 1;
    }
    false
}

/// Whether a link is a bridge.
fn link_is_bridge(m: &LinkMessage) -> (bridge: bool)
    ensures
        bridge == is_bridge(*m),
{
    let mut i: usize = 0;
    while i < m.attributes.len()
        invariant
            i <= m.attributes.len(),
            forall|j: int|
                0 <= j < i ==> !(#[trigger] m.attributes@[j] matches LinkAttribute::LinkInfo(infos)
                    && says_bridge(infos@)),
        decreases m.attributes.len() - i,
    {
        if let LinkAttribute::LinkInfo(infos) = &m.attributes[i] {
            if infos_say_bridge(infos) {
                return true;
            }
        }
        i = i + 1;
    }
    false
}

/// Which links are bridges, by their index.
#[derive(Debug, PartialEq, Eq)]
pub struct LinkBridges {
    map: HashMap<u32, bool>,
}

impl View for LinkBridges {
    type V = Map<u32, bool>;

    closed spec fn view(&self) -> Map<u32, bool> {
        self.map@
    }
}

impl LinkBridges {
    /// Whether the link with this index is known to be a bridge.
    pub fn get(&self, index: u32) -> (bridge: bool)
        ensures
            bridge == bridge_at(self@, index),
    {
        match self.map.get(&index) {
            Some(bridge) => *bridge,
            None => false,
        }
    }
}

/// Which of some links are bridges, by their index.
pub fn link_bridges(links: &Vec<LinkMessage>) -> (bridges: LinkBridges)
    ensures
        bridges@ == bridges_of(links@),
{
    let mut bridges = LinkBridges { map: HashMap::new() };
    let mut i: usize = 0;
    assert(bridges@ =~= bridges_of(links@.take(0)));
    while i < links.len()
        invariant
            i <= links.len(),
            bridges@ == bridges_of(links@.take(i as int)),
        decreases links.len() - i,
    {
        let bridge = link_is_bridge(&links[i]);
        bridges.map.insert(links[i].index, bridge);
        assert(links@.take(i + 1).drop_last() =~= links@.take(i as int));
        i = i + 1;
    }
    assert(links@.take(links.len() as int) =~= links@);
    bridges
}

} // verus!
