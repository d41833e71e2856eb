//! IPv4 addresses as text.

use vstd::prelude::*;

use crate::number::{lemma_byte_numeral, lemma_numeral_digits, numeral, numeral_of, parse_byte};
use crate::text::{
    join, lemma_join_lacks, lemma_join_split, lemma_split_join, lemma_split_plain, same_chars,
    split, split_chars, string_of, texts,
};

verus! {

/// The octets of an IPv4 address, the most significant first.
pub open spec fn octets(v: u32) -> Seq<u8> {
    seq![
        (v as int / 16777216) as u8,
        (v as int / 65536 % 256) as u8,
        (v as int / 256 % 256) as u8,
        (v as int % 256) as u8,
    ]
}

/// The decimal numerals of some octets.
pub open spec fn decimals(octets: Seq<u8>) -> Seq<Seq<char>> {
    octets.map_values(|o: u8| numeral(o as nat, 10))
}

/// The dotted decimal text of an IPv4 address.
pub open spec fn v4_text(v: u32) -> Seq<char> {
    join(decimals(octets(v)), '.')
}

/// The IPv4 address whose dotted decimal text is `s`.
pub open spec fn v4_of(s: Seq<char>) -> Option<u32> {
    if exists|v: u32| s == v4_text(v) {
        Some(choose|v: u32| s == v4_text(v))
    } else {
        None
    }
}

/// Division with remainder gives back what was put together.
proof fn lemma_div_mod(q: int, r: int, d: int)
    requires
        0 <= r < d,
    ensures
        (q * d + r) / d == q,
        (q * d + r) % d == r,
{
    vstd::arithmetic::div_mod::lemma_fundamental_div_mod_converse(q * d + r, d, q, r);
}

/// The octets of the number that four octets make up are those octets.
pub proof fn lemma_octets(a: u8, b: u8, c: u8, d: u8)
    ensures
        octets((a * 16777216 + b * 65536 + c * 256 + d) as u32) == seq![a, b, c, d],
{
    let v = a * 16777216 + b * 65536 + c * 256 + d;
    lemma_div_mod(a as int, b * 65536 + c * 256 + d, 16777216);
    lemma_div_mod(a * 256 + b, c * 256 + d, 65536);
    lemma_div_mod(a * 65536 + b * 256 + c, d as int, 256);
    lemma_div_mod(a as int, b as int, 256);
    lemma_div_mod(a * 256 + b, c as int, 256);
    assert(octets(v as u32) =~= seq![a, b, c, d]);
}

/// An address is the number that its octets make up.
proof fn lemma_octets_value(v: u32)
    ensures
        v == octets(v)[0] * 16777216 + octets(v)[1] * 65536 + octets(v)[2] * 256 + octets(v)[3],
{
    let w = v as int;
    assert(w == w / 16777216 * 16777216 + w / 65536 % 256 * 65536 + w / 256 % 256 * 256 + w % 256);
}

/// The decimal numerals of some octets hold no separator.
proof fn lemma_decimals(octets: Seq<u8>)
    ensures
        decimals(octets).len() == octets.len(),
        forall|i: int|
            0 <= i < octets.len() ==> !(#[trigger] decimals(octets)[i]).contains('.')
                && !decimals(octets)[i].contains(':') && decimals(octets)[i].len() >= 1,
{
    assert forall|i: int| 0 <= i < octets.len() implies !(#[trigger] decimals(octets)[i]).contains(
        '.',
    ) && !decimals(octets)[i].contains(':') && decimals(octets)[i].len() >= 1 by {
        lemma_numeral_digits(octets[i] as nat, 10);
    }
}

/// Splitting the text of an IPv4 address at its dots gives its octets' numerals.
proof fn lemma_v4_split(v: u32)
    ensures
        split(v4_text(v), '.') == decimals(octets(v)),
{
    lemma_decimals(octets(v));
    lemma_split_join(decimals(octets(v)), '.');
}

/// Different addresses have different texts.
pub proof fn law_v4_text_injective(v: u32, w: u32)
    requires
        v4_text(v) == v4_text(w),
    ensures
        v == w,
{
    lemma_v4_split(v);
    lemma_v4_split(w);
    assert forall|i: int| 0 <= i < 4 implies octets(v)[i] == octets(w)[i] by {
        lemma_byte_numeral(octets(v)[i], 10);
        lemma_byte_numeral(octets(w)[i], 10);
        assert(decimals(octets(v))[i] == decimals(octets(w))[i]);
    }
    lemma_octets_value(v);
    lemma_octets_value(w);
}

/// What is written of an IPv4 address is read back as the same address.
pub proof fn law_v4_round_trip(v: u32)
    ensures
        v4_of(v4_text(v)) == Some(v),
{
    let w = choose|w: u32| v4_text(v) == v4_text(w);
    assert(v4_text(v) == v4_text(v));
    law_v4_text_injective(v, w);
}

/// The text of an IPv4 address holds a dot and no colon.
pub proof fn lemma_v4_dots(v: u32)
    ensures
        v4_text(v).contains('.'),
        !v4_text(v).contains(':'),
{
    let all = decimals(octets(v));
    lemma_decimals(octets(v));
    lemma_split_join(all, '.');
    if !v4_text(v).contains('.') {
        lemma_split_plain(v4_text(v), '.');
    }
    lemma_join_lacks(all, '.', ':');
}

/// The text of an IPv4 address holds no slash.
pub proof fn lemma_v4_no_slash(v: u32)
    ensures
        !v4_text(v).contains('/'),
{
    let all = decimals(octets(v));
    assert forall|i: int| 0 <= i < all.len() implies !(#[trigger] all[i]).contains('/') by {
        lemma_numeral_digits(octets(v)[i] as nat, 10);
    }
    lemma_join_lacks(all, '.', '/');
}

/// Reads an octet: the numeral of a byte, without a sign or leading zeros.
fn parse_octet(s: &[char]) -> (r: Option<u8>)
    ensures
        r matches Some(o) ==> s@ == numeral(o as nat, 10),
        r is None ==> forall|o: u8| s@ != numeral(o as nat, 10),
{
    match parse_byte(s, 10) {
        Err(_) => {
            proof {
                assert forall|o: u8| s@ != numeral(o as nat, 10) by {
                    lemma_byte_numeral(o, 10);
                }
            }
            None
        },
        Ok(o) => {
            let digits = numeral_of(o as u64, 10);
            if same_chars(digits.as_slice(), s) {
                Some(o)
            } else {
                proof {
                    assert forall|p: u8| s@ != numeral(p as nat, 10) by {
                        lemma_byte_numeral(p, 10);
                    }
                }
                None
            }
        },
    }
}

/// Reads a dotted decimal IPv4 address.
pub fn parse_v4(s: &[char]) -> (r: Option<u32>)
    ensures
        r == v4_of(s@),
        r matches Some(v) ==> s@ == v4_text(v),
        r is None ==> forall|v: u32| s@ != v4_text(v),
{
    let pieces = split_chars(s, '.');
    let ghost all = texts(pieces@);
    if pieces.len() != 4 {
        proof {
            assert forall|v: u32| s@ != v4_text(v) by {
                lemma_v4_split(v);
            }
        }
        return None;
    }
    let mut value: u32 = 0;
    let ghost mut found: Seq<u8> = Seq::empty();
    let mut i: usize = 0;
    while i < 4
        invariant
            i <= 4,
            pieces.len() == 4,
            all == texts(pieces@),
            all == split(s@, '.'),
            found.len() == i,
            decimals(found) == all.take(i as int),
            i == 0 ==> value == 0,
            i == 1 ==> value == found[0],
            i == 2 ==> value == found[0] * 256 + found[1],
            i == 3 ==> value == found[0] * 65536 + found[1] * 256 + found[2],
            i == 4 ==> value == found[0] * 16777216 + found[1] * 65536 + found[2] * 256 + found[3],
        decreases 4 - i,
    {
        assert(all[i as int] == pieces[i as int]@);
        match parse_octet(pieces[i].as_slice()) {
            None => {
                proof {
                    assert forall|v: u32| s@ != v4_text(v) by {
                        lemma_v4_split(v);
                        if s@ == v4_text(v) {
                            assert(decimals(octets(v))[i as int] == numeral(
                                octets(v)[i as int] as nat,
                                10,
                            ));
                        }
                    }
                }
                return None;
            },
            Some(o) => {
                value = value * 256 + o as u32;
                proof {
                    found = found.push(o);
                    assert(decimals(found) =~= all.take(i + 1));
                }
            },
        }
        i = i + 1;
    }
    proof {
        lemma_octets(found[0], found[1], found[2], found[3]);
        assert(found =~= seq![found[0], found[1], found[2], found[3]]);
        assert(all.take(4) =~= all);
        lemma_join_split(s@, '.');
        assert(s@ == v4_text(value));
        law_v4_round_trip(value);
    }
    Some(value)
}

/// The dotted decimal text of an IPv4 address.
pub fn v4_to_string(v: u32) -> (text: String)
    ensures
        text@ == v4_text(v),
{
    let a = string_of(&numeral_of((v / 16777216) as u64, 10));
    let b = string_of(&numeral_of((v / 65536 % 256) as u64, 10));
    let c = string_of(&numeral_of((v / 256 % 256) as u64, 10));
    let d = string_of(&numeral_of((v % 256) as u64, 10));
    proof {
        let all = decimals(octets(v));
        reveal_with_fuel(join, 4);
        assert(all =~= seq![a@, b@, c@, d@]);
        assert(all.drop_last() =~= seq![a@, b@, c@]);
        assert(seq![a@, b@, c@].drop_last() =~= seq![a@, b@]);
        assert(seq![a@, b@].drop_last() =~= seq![a@]);
        reveal_strlit(".");
        assert("."@ =~= seq!['.']);
        assert(v4_text(v) =~= a@ + "."@ + b@ + "."@ + c@ + "."@ + d@);
    }
    a.concat(".").concat(b.as_str()).concat(".").concat(c.as_str()).concat(".").concat(d.as_str())
}

} // verus!
