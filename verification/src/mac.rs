//! MAC addresses as text.

use vstd::prelude::*;

use crate::error::{Error, ErrorView};
use crate::number::{
    byte_of, digit_char, digit_to_char, lemma_byte_of_number, lemma_digit_char, number, parse_byte,
    IntError,
};
use crate::text::{chars_of, join, lemma_split_join, split, split_chars, texts};

verus! {

/// The two lower-case hexadecimal digits of a byte.
pub open spec fn hex_pair(b: u8) -> Seq<char> {
    seq![digit_char(b as int / 16), digit_char(b as int % 16)]
}

/// The pairs of digits of each byte.
pub open spec fn hex_pairs(bytes: Seq<u8>) -> Seq<Seq<char>> {
    bytes.map_values(|b: u8| hex_pair(b))
}

/// A link-layer address as text: the bytes in hexadecimal, with colons between.
pub open spec fn mac_text(bytes: Seq<u8>) -> Seq<char> {
    join(hex_pairs(bytes), ':')
}

/// The bytes that the pieces stand for, or the error of the first that is none.
pub open spec fn hex_bytes(pieces: Seq<Seq<char>>) -> Result<Seq<u8>, IntError>
    decreases pieces.len(),
{
    if pieces.len() == 0 {
        Ok(Seq::empty())
    } else {
        match hex_bytes(pieces.drop_last()) {
            Err(e) => Err(e),
            Ok(front) => match byte_of(pieces.last(), 16) {
                Err(e) => Err(e),
                Ok(b) => Ok(front.push(b)),
            },
        }
    }
}

/// The six bytes of a MAC address: colon-separated hexadecimal bytes, of which a
/// bad one is reported before a wrong number of them.
pub open spec fn mac_of(s: Seq<char>) -> Result<Seq<u8>, ErrorView> {
    match hex_bytes(split(s, ':')) {
        Err(e) => Err(ErrorView::BadMac(s, e)),
        Ok(bytes) => if bytes.len() == 6 {
            Ok(bytes)
        } else {
            Err(ErrorView::MacLength(s))
        },
    }
}

/// Writes a link-layer address.
pub fn mac_to_string(b: &[u8]) -> (text: String)
    ensures
        text@ == mac_text(b@),
{
    let mut text = String::new();
    let mut i: usize = 0;
    while i < b.len()
        invariant
            i <= b.len(),
            text@ == mac_text(b@.take(i as int)),
        decreases b.len() - i,
    {
        proof {
            let before = hex_pairs(b@.take(i as int));
            let after = hex_pairs(b@.take(i + 1));
            assert(after =~= before.push(hex_pair(b@[i as int])));
            assert(after.drop_last() =~= before);
            if i == 0 {
                assert(text@ =~= Seq::<char>::empty());
                assert(mac_text(b@.take(i + 1)) =~= hex_pair(b@[i as int]));
            } else {
                assert(mac_text(b@.take(i + 1)) =~= text@.push(':') + hex_pair(b@[i as int]));
            }
        }
        if i > 0 {
            text.push(':');
        }
        text.push(digit_to_char(b[i] / 16));
        text.push(digit_to_char(b[i] % 16));
        i = i + 1;
    }
    assert(b@.take(b.len() as int) =~= b@);
    text
}

/// Reads a MAC address.
pub fn parse_mac(s: &str) -> (r: Result<Vec<u8>, Error>)
    ensures
        r matches Ok(bytes) ==> mac_of(s@) == Ok::<Seq<u8>, ErrorView>(bytes@),
        r matches Err(e) ==> mac_of(s@) == Err::<Seq<u8>, ErrorView>(e@),
{
    let chars = chars_of(s);
    let pieces = split_chars(chars.as_slice(), ':');
    let ghost all = texts(pieces@);
    let mut bytes: Vec<u8> = Vec::new();
    let mut i: usize = 0;
    while i < pieces.len()
        invariant
            i <= pieces.len(),
            all == texts(pieces@),
            all == split(s@, ':'),
            hex_bytes(all.take(i as int)) == Ok::<Seq<u8>, IntError>(bytes@),
            bytes.len() == i,
        decreases pieces.len() - i,
    {
        proof {
            assert(all.take(i + 1).drop_last() =~= all.take(i as int));
            assert(all.take(i + 1).last() == pieces[i as int]@);
        }
        match parse_byte(pieces[i].as_slice(), 16) {
            Ok(b) => {
                bytes.push(b);
            },
            Err(e) => {
                proof {
                    lemma_first_bad(all, i + 1);
                }
                return Err(Error::BadMac(s.to_owned(), e));
            },
        }
        i = i + 1;
    }
    assert(all.take(pieces.len() as int) =~= all);
    if bytes.len() != 6 {
        return Err(Error::MacLength(s.to_owned()));
    }
    Ok(bytes)
}

/// An error among the first `n` pieces is the error of the whole.
proof fn lemma_first_bad(pieces: Seq<Seq<char>>, n: int)
    requires
        0 <= n <= pieces.len(),
        hex_bytes(pieces.take(n)) is Err,
    ensures
        hex_bytes(pieces) == hex_bytes(pieces.take(n)),
    decreases pieces.len(),
{
    if n == pieces.len() {
        assert(pieces.take(n) =~= pieces);
    } else {
        assert(pieces.drop_last().take(n) =~= pieces.take(n));
        lemma_first_bad(pieces.drop_last(), n);
    }
}

/// A byte's pair of digits reads back as the byte.
proof fn lemma_hex_pair(b: u8)
    ensures
        byte_of(hex_pair(b), 16) == Ok::<u8, IntError>(b),
        !hex_pair(b).contains(':'),
{
    let s = hex_pair(b);
    lemma_digit_char(b as int / 16);
    lemma_digit_char(b as int % 16);
    reveal_with_fuel(number, 3);
    assert(s.drop_last().drop_last() =~= Seq::<char>::empty());
    assert(number(s, 16) == Some(b as nat));
    lemma_byte_of_number(s, 16);
}

/// The pairs of digits of some bytes read back as those bytes.
proof fn lemma_hex_pairs(bytes: Seq<u8>)
    ensures
        hex_bytes(hex_pairs(bytes)) == Ok::<Seq<u8>, IntError>(bytes),
    decreases bytes.len(),
{
    if bytes.len() == 0 {
        assert(bytes =~= Seq::<u8>::empty());
    } else {
        lemma_hex_pairs(bytes.drop_last());
        lemma_hex_pair(bytes.last());
        assert(hex_pairs(bytes).drop_last() =~= hex_pairs(bytes.drop_last()));
        assert(bytes.drop_last().push(bytes.last()) =~= bytes);
    }
}

/// What is written of a six-byte address is read back as the same address; what is written of
/// any other number of bytes is refused, for its length or, of none at all, as empty.
pub proof fn law_mac_round_trip(bytes: Seq<u8>)
    ensures
        bytes.len() == 6 ==> mac_of(mac_text(bytes)) == Ok::<Seq<u8>, ErrorView>(bytes),
        bytes.len() == 0 ==> mac_of(mac_text(bytes)) == Err::<Seq<u8>, ErrorView>(
            ErrorView::BadMac(mac_text(bytes), IntError::Empty),
        ),
        bytes.len() != 6 && bytes.len() != 0 ==> mac_of(mac_text(bytes)) == Err::<
            Seq<u8>,
            ErrorView,
        >(ErrorView::MacLength(mac_text(bytes))),
{
    if bytes.len() == 0 {
        let none = seq![Seq::<char>::empty()];
        reveal_with_fuel(hex_bytes, 2);
        assert(none.drop_last() =~= Seq::<Seq<char>>::empty());
        assert(split(mac_text(bytes), ':') == none);
    } else {
        assert forall|i: int| 0 <= i < hex_pairs(bytes).len() implies !(#[trigger] hex_pairs(
            bytes,
        )[i]).contains(':') by {
            lemma_hex_pair(bytes[i]);
        }
        lemma_split_join(hex_pairs(bytes), ':');
        lemma_hex_pairs(bytes);
    }
}

} // verus!
