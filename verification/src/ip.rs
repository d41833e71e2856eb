//! IP addresses: their text, and reading it.

use vstd::prelude::*;

use crate::text::chars_of;
use crate::v4::{
    law_v4_round_trip, lemma_v4_dots, lemma_v4_no_slash, parse_v4, v4_of, v4_text, v4_to_string,
};
use crate::v6::{
    law_v6_round_trip, lemma_v6_colon, lemma_v6_no_slash, parse_v6, v6_of, v6_text, v6_to_string,
};

verus! {

/// An IP address: the IPv4 number, or the eight groups of an IPv6 address.
#[derive(Debug, Clone, Copy, PartialEq, Eq)]
pub enum IpAddress {
    V4(u32),
    V6([u16; 8]),
}

/// An [`IpAddress`] with its groups as a sequence.
pub enum IpView {
    V4(u32),
    V6(Seq<u16>),
}

impl View for IpAddress {
    type V = IpView;

    open spec fn view(&self) -> IpView {
        match *self {
            IpAddress::V4(v) => IpView::V4(v),
            IpAddress::V6(groups) => IpView::V6(groups@),
        }
    }
}

impl IpView {
    /// The address as text.
    pub open spec fn text(self) -> Seq<char> {
        match self {
            IpView::V4(v) => v4_text(v),
            IpView::V6(groups) => v6_text(groups),
        }
    }
}

/// The address that `s` is the text of.
pub open spec fn ip_of(s: Seq<char>) -> Option<IpView> {
    match v4_of(s) {
        Some(v) => Some(IpView::V4(v)),
        None => match v6_of(s) {
            Some(groups) => Some(IpView::V6(groups)),
            None => None,
        },
    }
}

impl IpAddress {
    /// The address as text.
    pub fn to_string(&self) -> (text: String)
        ensures
            text@ == self@.text(),
    {
        match self {
            IpAddress::V4(v) => v4_to_string(*v),
            IpAddress::V6(groups) => v6_to_string(groups),
        }
    }

    /// Reads an address of either family.
    pub fn parse(s: &str) -> (r: Option<IpAddress>)
        ensures
            r matches Some(ip) ==> ip_of(s@) == Some(ip@),
            r is None ==> ip_of(s@) is None,
    {
        let chars = chars_of(s);
        match parse_v4(chars.as_slice()) {
            Some(v) => Some(IpAddress::V4(v)),
            None => match parse_v6(chars.as_slice()) {
                Some(groups) => Some(IpAddress::V6(groups)),
                None => None,
            },
        }
    }
}

/// What is written of an address is read back as the same address.
pub proof fn law_ip_round_trip(ip: IpAddress)
    ensures
        ip_of(ip@.text()) == Some(ip@),
{
    match ip {
        IpAddress::V4(v) => {
            law_v4_round_trip(v);
        },
        IpAddress::V6(groups) => {
            law_v6_round_trip(groups@);
            let s = v6_text(groups@);
            if v4_of(s) is Some {
                let v = choose|v: u32| s == v4_text(v);
                lemma_v4_dots(v);
                lemma_v6_colon(groups@);
            }
        },
    }
}

/// The text of an address is not empty.
pub proof fn lemma_ip_text_not_empty(ip: IpAddress)
    ensures
        ip@.text().len() > 0,
{
    match ip {
        IpAddress::V4(v) => {
            lemma_v4_dots(v);
        },
        IpAddress::V6(groups) => {
            lemma_v6_colon(groups@);
        },
    }
}

/// The text of an address holds no slash.
pub proof fn lemma_ip_text_no_slash(ip: IpView)
    ensures
        !ip.text().contains('/'),
{
    match ip {
        IpView::V4(v) => {
            lemma_v4_no_slash(v);
        },
        IpView::V6(groups) => {
            lemma_v6_no_slash(groups);
        },
    }
}

/// The broadcast address of the subnet of `v` with a prefix of `prefix_len` bits.
pub open spec fn broadcast_of(v: u32, prefix_len: u8) -> u32 {
    v | (0xffff_ffffu32 >> (prefix_len as u32))
}

/// The broadcast address of a subnet.
pub fn broadcast(v: u32, prefix_len: u8) -> (brd: u32)
    requires
        prefix_len < 32,
    ensures
        brd == broadcast_of(v, prefix_len),
{
    v | (u32::MAX >> (prefix_len as u32))
}

/// A broadcast address has the network bits of its subnet, and every host bit set.
pub proof fn law_broadcast(v: u32, prefix_len: u8)
    requires
        prefix_len < 32,
    ensures
        broadcast_of(v, prefix_len) >> ((32 - prefix_len) as u32) == v >> ((32 - prefix_len)
            as u32) || prefix_len == 0,
        broadcast_of(v, prefix_len) & (0xffff_ffffu32 >> (prefix_len as u32)) == 0xffff_ffffu32
            >> (prefix_len as u32),
{
    let p = prefix_len as u32;
    let q = (32 - prefix_len) as u32;
    assert((v | (0xffff_ffffu32 >> p)) >> q == v >> q || p == 0) by (bit_vector)
        requires
            p < 32,
            q == 32 - p,
    ;
    assert((v | (0xffff_ffffu32 >> p)) & (0xffff_ffffu32 >> p) == 0xffff_ffffu32 >> p)
        by (bit_vector);
}

} // verus!
