//! What the library takes on trust from outside crates and the standard library.

use vstd::prelude::*;

use crate::message::{
    LinkAttribute, LinkAttributeView, LinkInfo, LinkInfoView, LinkMessage, LinkMessageView,
};
use crate::number::digit_char;
use crate::text::{join, strings};

verus! {

/// The text of a string in quotes, with escapes, as `{:?}` formats it.
pub uninterp spec fn quoted(s: Seq<char>) -> Seq<char>;

/// `<str as Debug>::fmt`, through `format!`: the result depends on the text alone.
#[verifier::external_body]
pub(crate) fn quote(s: &str) -> (text: String)
    ensures
        text@ == quoted(s@),
{
    format!("{s:?}")
}

/// Text in lower case, as Unicode defines it.
pub uninterp spec fn lowered(s: Seq<char>) -> Seq<char>;

/// An ASCII letter in lower case; any other character as it is.
pub open spec fn ascii_lower(c: char) -> char {
    if 'A' <= c <= 'Z' {
        (c as int + 32) as char
    } else {
        c
    }
}

/// `str::to_lowercase`: the result depends on the text alone, and ASCII text is lowered
/// letter by letter.
#[verifier::external_body]
pub(crate) fn lower(s: &str) -> (text: String)
    ensures
        text@ == lowered(s@),
        vstd::utf8::is_ascii_chars(s@) ==> text@ == s@.map_values(|c: char| ascii_lower(c)),
{
    s.to_lowercase()
}

/// The name of the variant that a kernel name for a kind of link is read as.
pub uninterp spec fn kind_variant(name: Seq<char>) -> Seq<char>;

/// `InfoKind::from(&str)` of netlink-packet-route, then its derived `Debug`: the result
/// depends on the name alone. Each known name has a variant of its own, written as the
/// variant's name; any other is written `Other("...")`. So the name of a bridge gives
/// `Bridge`, and no other name gives a text that is `bridge` in lower case.
#[verifier::external_body]
pub(crate) fn kind_debug(name: &str) -> (text: String)
    ensures
        text@ == kind_variant(name@),
        name@ == "bridge"@ ==> text@ == "Bridge"@,
        name@ != "bridge"@ ==> lowered(text@) != "bridge"@,
{
    format!("{:?}", netlink_packet_route::link::InfoKind::from(name))
}

/// The flag bit of an address that brings no route for its prefix.
pub const IFA_F_NOPREFIXROUTE: u32 = 0x200;

/// The flag bits of a rule whose input or output device is gone.
pub const FIB_RULE_DETACHED: u32 = 0x18;

/// The flag bit of a link that is up.
pub const IFF_UP: u32 = 1;

/// `AddressFlags::contains` of netlink-packet-route, for `AddressFlags::Noprefixroute`:
/// whether that bit is set.
#[verifier::external_body]
pub(crate) fn has_noprefixroute(bits: u32) -> (has: bool)
    ensures
        has == (bits & IFA_F_NOPREFIXROUTE == IFA_F_NOPREFIXROUTE),
{
    netlink_packet_route::address::AddressFlags::from_bits_retain(bits).contains(
        netlink_packet_route::address::AddressFlags::Noprefixroute,
    )
}

/// `RuleFlags::intersects` of netlink-packet-route, for `RuleFlags::IifDetached` and
/// `RuleFlags::OifDetached`: whether one of the two bits is set.
#[verifier::external_body]
pub(crate) fn is_detached(bits: u32) -> (detached: bool)
    ensures
        detached == (bits & FIB_RULE_DETACHED != 0),
{
    netlink_packet_route::rule::RuleFlags::from_bits_retain(bits).intersects(
        netlink_packet_route::rule::RuleFlags::IifDetached
            | netlink_packet_route::rule::RuleFlags::OifDetached,
    )
}

/// `LinkBridge::new` and `LinkMessageBuilder::build` of rtnetlink: a new link that is up,
/// with this name and the kind of a bridge.
#[verifier::external_body]
pub(crate) fn bridge_message(name: &str) -> (message: LinkMessage)
    ensures
        message@ == (LinkMessageView {
            index: 0,
            flags: IFF_UP,
            change_mask: IFF_UP,
            attributes: seq![
                LinkAttributeView::IfName(name@),
                LinkAttributeView::LinkInfo(seq![LinkInfoView::Kind("bridge"@)]),
            ],
        }),
{
    let built = rtnetlink::LinkBridge::new(name).build();
    LinkMessage {
        index: built.header.index,
        flags: built.header.flags.bits(),
        change_mask: built.header.change_mask.bits(),
        attributes: built.attributes.into_iter().map(|a| match a {
            netlink_packet_route::link::LinkAttribute::IfName(n) => LinkAttribute::IfName(n),
            netlink_packet_route::link::LinkAttribute::LinkInfo(i) => LinkAttribute::LinkInfo(i.into_iter().map(|i| match i {
                netlink_packet_route::link::LinkInfo::Kind(k) => LinkInfo::Kind(k.to_string()),
                _ => LinkInfo::Other,
            }).collect()),
            _ => LinkAttribute::Other,
        }).collect(),
    }
}

/// `LinkUnspec::new_with_index` of rtnetlink, `up` and `build` of its builder: the link
/// with this index gets the flag of a link that is up, and nothing else.
#[verifier::external_body]
pub(crate) fn up_message(index: u32) -> (message: LinkMessage)
    ensures
        message@ == (LinkMessageView {
            index,
            flags: IFF_UP,
            change_mask: IFF_UP,
            attributes: Seq::empty(),
        }),
{
    let built = rtnetlink::LinkUnspec::new_with_index(index).up().build();
    LinkMessage {
        index: built.header.index,
        flags: built.header.flags.bits(),
        change_mask: built.header.change_mask.bits(),
        attributes: built.attributes.into_iter().map(|_a| LinkAttribute::Other).collect(),
    }
}

/// `LinkUnspec::new_with_index` of rtnetlink, `down` and `build` of its builder: the link
/// with this index loses the flag of a link that is up, and nothing else changes.
#[verifier::external_body]
pub(crate) fn down_message(index: u32) -> (message: LinkMessage)
    ensures
        message@ == (LinkMessageView {
            index,
            flags: 0,
            change_mask: IFF_UP,
            attributes: Seq::empty(),
        }),
{
    let built = rtnetlink::LinkUnspec::new_with_index(index).down().build();
    LinkMessage {
        index: built.header.index,
        flags: built.header.flags.bits(),
        change_mask: built.header.change_mask.bits(),
        attributes: built.attributes.into_iter().map(|_a| LinkAttribute::Other).collect(),
    }
}

/// `LinkUnspec::new_with_index` of rtnetlink, `controller` and `build` of its builder: the
/// link with this index gets this master, and nothing else changes.
#[verifier::external_body]
pub(crate) fn controller_message(index: u32, controller: u32) -> (message: LinkMessage)
    ensures
        message@ == (LinkMessageView {
            index,
            flags: 0,
            change_mask: 0,
            attributes: seq![LinkAttributeView::Controller(controller)],
        }),
{
    let built = rtnetlink::LinkUnspec::new_with_index(index).controller(controller).build();
    LinkMessage {
        index: built.header.index,
        flags: built.header.flags.bits(),
        change_mask: built.header.change_mask.bits(),
        attributes: built.attributes.into_iter().map(|a| match a {
            netlink_packet_route::link::LinkAttribute::Controller(c) => LinkAttribute::Controller(c),
            _ => LinkAttribute::Other,
        }).collect(),
    }
}

/// `LinkUnspec::new_with_index` of rtnetlink, `address` and `build` of its builder: the
/// link with this index gets this link-layer address, and nothing else changes.
#[verifier::external_body]
pub(crate) fn address_message(index: u32, address: Vec<u8>) -> (message: LinkMessage)
    ensures
        message@ == (LinkMessageView {
            index,
            flags: 0,
            change_mask: 0,
            attributes: seq![LinkAttributeView::Address(address@)],
        }),
{
    let built = rtnetlink::LinkUnspec::new_with_index(index).address(address).build();
    LinkMessage {
        index: built.header.index,
        flags: built.header.flags.bits(),
        change_mask: built.header.change_mask.bits(),
        attributes: built.attributes.into_iter().map(|a| match a {
            netlink_packet_route::link::LinkAttribute::Address(b) => LinkAttribute::Address(b),
            _ => LinkAttribute::Other,
        }).collect(),
    }
}

/// `libc::EEXIST`, which is 17 on every Linux target.
#[verifier::external_body]
pub(crate) fn eexist() -> (code: i32)
    ensures
        code == 17,
{
    libc::EEXIST
}

/// `libc::ENOENT`, which is 2 on every Linux target.
#[verifier::external_body]
pub(crate) fn enoent() -> (code: i32)
    ensures
        code == 2,
{
    libc::ENOENT
}

/// `libc::ESRCH`, which is 3 on every Linux target.
#[verifier::external_body]
pub(crate) fn esrch() -> (code: i32)
    ensures
        code == 3,
{
    libc::ESRCH
}

/// `libc::EADDRNOTAVAIL`, which is 99 on Linux targets, but 126 on MIPS and 49 on SPARC.
#[verifier::external_body]
pub(crate) fn eaddrnotavail() -> (code: i32)
    ensures
        code == 99 || code == 126 || code == 49,
{
    libc::EADDRNOTAVAIL
}

/// A character within a JSON string.
pub open spec fn json_char(c: char) -> Seq<char> {
    let code = c as int;
    if c == '"' {
        seq!['\\', '"']
    } else if c == '\\' {
        seq!['\\', '\\']
    } else if code == 8 {
        seq!['\\', 'b']
    } else if code == 9 {
        seq!['\\', 't']
    } else if code == 10 {
        seq!['\\', 'n']
    } else if code == 12 {
        seq!['\\', 'f']
    } else if code == 13 {
        seq!['\\', 'r']
    } else if code < 32 {
        seq!['\\', 'u', '0', '0', digit_char(code / 16), digit_char(code % 16)]
    } else {
        seq![c]
    }
}

/// Text as a JSON string.
pub open spec fn json_string(s: Seq<char>) -> Seq<char> {
    seq!['"'] + s.map_values(|c: char| json_char(c)).flatten() + seq!['"']
}

/// Texts as a JSON array of strings.
pub open spec fn json_array(items: Seq<Seq<char>>) -> Seq<char> {
    seq!['['] + join(items.map_values(|s: Seq<char>| json_string(s)), ',') + seq![']']
}

/// `serde_json::to_string`, for a vector of strings: it does not fail, and writes a compact
/// array.
#[verifier::external_body]
pub(crate) fn json_of_strings(items: &Vec<String>) -> (text: Option<String>)
    ensures
        text is Some,
        text.unwrap()@ == json_array(strings(items@)),
{
    serde_json::to_string(items).ok()
}

} // verus!
