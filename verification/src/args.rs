//! Command line arguments that need reading.

use vstd::prelude::*;

use crate::error::{Error, ErrorView};
use crate::ip::{ip_of, law_ip_round_trip, lemma_ip_text_no_slash, IpAddress, IpView};
use crate::number::{byte_of, lemma_byte_numeral, numeral, parse_byte};
use crate::outside::{quote, quoted};
use crate::text::{chars_of, same_text, string_of};

verus! {

/// What is said of a switch that is neither on nor off, for its text in quotes.
pub open spec fn switch_complaint(quoted: Seq<char>) -> Seq<char> {
    "expected on|off, got "@ + quoted
}

/// What is said of a switch that is neither on nor off, for its text in quotes.
pub fn complain_of_switch(quoted: &str) -> (text: String)
    ensures
        text@ == switch_complaint(quoted@),
{
    "expected on|off, got ".to_owned().concat(quoted)
}

/// What a switch says, or what is said of one that says neither.
pub open spec fn switch_of(s: Seq<char>) -> Result<bool, Seq<char>> {
    if s == "on"@ {
        Ok(true)
    } else if s == "off"@ {
        Ok(false)
    } else {
        Err(switch_complaint(quoted(s)))
    }
}

/// A switch is on if and only if it reads `on`, and off if and only if it reads `off`; any other
/// text, whatever its case or length, is refused and quoted back.
pub proof fn law_switch(s: Seq<char>)
    ensures
        switch_of(s) == Ok::<bool, Seq<char>>(true) <==> s == seq!['o', 'n'],
        switch_of(s) == Ok::<bool, Seq<char>>(false) <==> s == seq!['o', 'f', 'f'],
        s != seq!['o', 'n'] && s != seq!['o', 'f', 'f'] ==> switch_of(s) == Err::<bool, Seq<char>>(
            "expected on|off, got "@ + quoted(s),
        ),
{
    reveal_strlit("on");
    reveal_strlit("off");
    assert("on"@ =~= seq!['o', 'n']);
    assert("off"@ =~= seq!['o', 'f', 'f']);
    assert(seq!['o', 'n'].len() != seq!['o', 'f', 'f'].len());
}

/// Reads a switch: `on` or `off`, and nothing else.
pub fn on_off(s: &str) -> (r: Result<bool, String>)
    ensures
        s@ == "on"@ ==> r == Ok::<bool, String>(true),
        s@ == "off"@ ==> r == Ok::<bool, String>(false),
        s@ != "on"@ && s@ != "off"@ ==> (r matches Err(text) && text@ == switch_complaint(
            quoted(s@),
        )),
        r matches Ok(on) ==> switch_of(s@) == Ok::<bool, Seq<char>>(on),
        r matches Err(text) ==> switch_of(s@) == Err::<bool, Seq<char>>(text@),
{
    proof {
        reveal_strlit("on");
        reveal_strlit("off");
        assert("on"@.len() != "off"@.len());
    }
    if same_text(s, "on") {
        Ok(true)
    } else if same_text(s, "off") {
        Ok(false)
    } else {
        Err(complain_of_switch(quote(s).as_str()))
    }
}

/// Whether the first `c` of `s` stands at `i`.
pub open spec fn is_first_of(s: Seq<char>, c: char, i: int) -> bool {
    &&& 0 <= i < s.len()
    &&& s[i] == c
    &&& forall|j: int| 0 <= j < i ==> s[j] != c
}

/// An address and a prefix length with a slash between. A bad address is reported before
/// a bad prefix length, which is any byte.
pub open spec fn cidr_of(s: Seq<char>) -> Result<(IpView, u8), ErrorView> {
    if s.contains('/') {
        let i = choose|i: int| is_first_of(s, '/', i);
        match ip_of(s.take(i)) {
            None => Err(ErrorView::BadAddress),
            Some(ip) => match byte_of(s.skip(i + 1), 10) {
                Err(e) => Err(ErrorView::BadPrefix(e)),
                Ok(prefix_len) => Ok((ip, prefix_len)),
            },
        }
    } else {
        Err(ErrorView::NotCidr(s))
    }
}

/// Splits "addr/plen" into its address and prefix length.
pub fn parse_cidr(cidr: &str) -> (r: Result<(IpAddress, u8), Error>)
    ensures
        r matches Ok(pair) ==> cidr_of(cidr@) == Ok::<(IpView, u8), ErrorView>((pair.0@, pair.1)),
        r matches Err(e) ==> cidr_of(cidr@) == Err::<(IpView, u8), ErrorView>(e@),
{
    let chars = chars_of(cidr);
    let mut i: usize = 0;
    while i < chars.len() && chars[i] != '/'
        invariant
            i <= chars.len(),
            forall|j: int| 0 <= j < i ==> chars[j] != '/',
        decreases chars.len() - i,
    {
        i = i + 1;
    }
    if i == chars.len() {
        return Err(Error::NotCidr(cidr.to_owned()));
    }
    proof {
        assert(cidr@.contains(cidr@[i as int]));
        assert(is_first_of(cidr@, '/', i as int));
        let chosen = choose|j: int| is_first_of(cidr@, '/', j);
        assert(chosen == i);
        assert(chars@.subrange(0, i as int) =~= cidr@.take(i as int));
        assert(chars@.subrange(i + 1, chars@.len() as int) =~= cidr@.skip(i + 1));
    }
    let address = string_of(vstd::slice::slice_subrange(chars.as_slice(), 0, i));
    let prefix = vstd::slice::slice_subrange(chars.as_slice(), i + 1, chars.len());
    match IpAddress::parse(address.as_str()) {
        None => Err(Error::BadAddress),
        Some(ip) => match parse_byte(prefix, 10) {
            Err(e) => Err(Error::BadPrefix(e)),
            Ok(prefix_len) => Ok((ip, prefix_len)),
        },
    }
}

/// An address and a prefix length that are written with a slash between are read back as the
/// same address and prefix length.
pub proof fn law_cidr_round_trip(ip: IpAddress, prefix_len: u8)
    ensures
        cidr_of(ip@.text() + "/"@ + numeral(prefix_len as nat, 10)) == Ok::<
            (IpView, u8),
            ErrorView,
        >((ip@, prefix_len)),
{
    let a = ip@.text();
    let p = numeral(prefix_len as nat, 10);
    let s = a + "/"@ + p;
    reveal_strlit("/");
    lemma_ip_text_no_slash(ip@);
    let at = a.len() as int;
    assert(s[at] == '/');
    assert forall|j: int| 0 <= j < at implies s[j] != '/' by {
        assert(a.contains(a[j]));
    }
    assert(is_first_of(s, '/', at));
    let chosen = choose|i: int| is_first_of(s, '/', i);
    assert(chosen == at);
    assert(s.take(at) =~= a);
    assert(s.skip(at + 1) =~= p);
    law_ip_round_trip(ip);
    lemma_byte_numeral(prefix_len, 10);
}

} // verus!
