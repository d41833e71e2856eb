//! Numerals, MAC addresses and IP addresses as text, stated on characters and pieces.

use vstd::prelude::*;

use crate::args::{cidr_of, is_first_of};
use crate::error::ErrorView;
use crate::ip::{ip_of, IpView};
use crate::mac::{hex_bytes, hex_pair, hex_pairs, mac_of, mac_text};
use crate::number::{
    byte_of, byte_of_digits, digit_char, digit_value, hex_value, lemma_byte_of_number, number,
    numeral, IntError,
};
use crate::text::{join, lemma_join_split, lemma_split_join, lemma_split_len, split};
use crate::v4::{decimals, law_v4_round_trip, lemma_octets, octets, v4_of, v4_text};

verus! {

/// The digits are those of the alphabet, written in lower case and read in either.
pub proof fn law_digits(d: int, c: char, radix: int)
    ensures
        0 <= d < 16 ==> digit_char(d) == "0123456789abcdef"@[d],
        0 <= d < 16 && (c == "0123456789abcdef"@[d] || c == "0123456789ABCDEF"@[d]) ==> hex_value(c)
            == Some(d),
        (forall|i: int|
            0 <= i < 16 ==> c != #[trigger] "0123456789abcdef"@[i] && c != "0123456789ABCDEF"@[i])
            ==> hex_value(c) is None,
        hex_value(c) == Some(d) && d < radix ==> digit_value(c, radix) == Some(d),
        hex_value(c) == Some(d) && d >= radix ==> digit_value(c, radix) is None,
        hex_value(c) is None ==> digit_value(c, radix) is None,
{
    reveal_strlit("0123456789abcdef");
    reveal_strlit("0123456789ABCDEF");
    if forall|i: int|
        0 <= i < 16 ==> c != #[trigger] "0123456789abcdef"@[i] && c != "0123456789ABCDEF"@[i] {
        if hex_value(c) is Some {
            let v = hex_value(c).unwrap();
            assert(c != "0123456789abcdef"@[v] && c != "0123456789ABCDEF"@[v]);
        }
    }
}

/// A decimal numeral of up to three digits has its digits in order and no leading zero.
pub proof fn law_decimal(n: nat)
    ensures
        n < 10 ==> numeral(n, 10) == seq![digit_char(n as int)],
        10 <= n < 100 ==> numeral(n, 10) == seq![
            digit_char(n as int / 10),
            digit_char(n as int % 10),
        ],
        100 <= n < 1000 ==> numeral(n, 10) == seq![
            digit_char(n as int / 100),
            digit_char(n as int / 10 % 10),
            digit_char(n as int % 10),
        ],
{
    reveal_with_fuel(numeral, 3);
    if 10 <= n < 100 {
        assert(numeral(n, 10) =~= seq![digit_char(n as int / 10), digit_char(n as int % 10)]);
    } else if 100 <= n < 1000 {
        assert(n / 10 / 10 == n / 100);
        assert(numeral(n, 10) =~= seq![
            digit_char(n as int / 100),
            digit_char(n as int / 10 % 10),
            digit_char(n as int % 10),
        ]);
    }
}

/// A hexadecimal numeral of up to four digits has its digits in order and no leading zero.
pub proof fn law_hexadecimal(n: nat)
    ensures
        n < 0x10 ==> numeral(n, 16) == seq![digit_char(n as int)],
        0x10 <= n < 0x100 ==> numeral(n, 16) == seq![
            digit_char(n as int / 16),
            digit_char(n as int % 16),
        ],
        0x100 <= n < 0x1000 ==> numeral(n, 16) == seq![
            digit_char(n as int / 256),
            digit_char(n as int / 16 % 16),
            digit_char(n as int % 16),
        ],
        0x1000 <= n < 0x10000 ==> numeral(n, 16) == seq![
            digit_char(n as int / 4096),
            digit_char(n as int / 256 % 16),
            digit_char(n as int / 16 % 16),
            digit_char(n as int % 16),
        ],
{
    reveal_with_fuel(numeral, 4);
    assert(n / 16 / 16 == n / 256);
    assert(n / 16 / 16 / 16 == n / 4096);
    if 0x10 <= n < 0x100 {
        assert(numeral(n, 16) =~= seq![digit_char(n as int / 16), digit_char(n as int % 16)]);
    } else if 0x100 <= n < 0x1000 {
        assert(numeral(n, 16) =~= seq![
            digit_char(n as int / 256),
            digit_char(n as int / 16 % 16),
            digit_char(n as int % 16),
        ]);
    } else if 0x1000 <= n < 0x10000 {
        assert(numeral(n, 16) =~= seq![
            digit_char(n as int / 4096),
            digit_char(n as int / 256 % 16),
            digit_char(n as int / 16 % 16),
            digit_char(n as int % 16),
        ]);
    }
}

/// No digits stand for zero; one more digit makes the number that many times larger, and adds
/// its value; anything that is no digit makes it no number.
pub proof fn law_number(s: Seq<char>, c: char, radix: nat)
    ensures
        number(Seq::empty(), radix) == Some(0nat),
        number(s, radix) is Some && digit_value(c, radix as int) is Some ==> number(
            s.push(c),
            radix,
        ) == Some((number(s, radix).unwrap() * radix + digit_value(c, radix as int).unwrap()) as nat),
        number(s, radix) is None || digit_value(c, radix as int) is None ==> number(
            s.push(c),
            radix,
        ) is None,
{
    assert(s.push(c).drop_last() =~= s);
}

/// Digits that read as a byte stand for it.
proof fn lemma_number_of_byte(s: Seq<char>, radix: nat)
    requires
        2 <= radix <= 16,
        byte_of_digits(s, radix) is Ok,
    ensures
        number(s, radix) == Some(byte_of_digits(s, radix).unwrap() as nat),
    decreases s.len(),
{
    if s.len() > 0 {
        lemma_number_of_byte(s.drop_last(), radix);
        let n = byte_of_digits(s.drop_last(), radix).unwrap();
        let d = digit_value(s.last(), radix as int).unwrap();
        assert(0 <= n * radix) by (nonlinear_arith)
            requires
                0 <= n,
                0 <= radix,
        ;
        assert(0 <= d);
    }
}

/// An error in the first digits is the error of all.
proof fn lemma_error_stays(s: Seq<char>, n: int, radix: nat)
    requires
        0 <= n <= s.len(),
        byte_of_digits(s.take(n), radix) is Err,
    ensures
        byte_of_digits(s, radix) == byte_of_digits(s.take(n), radix),
    decreases s.len(),
{
    if n == s.len() {
        assert(s.take(n) =~= s);
    } else {
        assert(s.drop_last().take(n) =~= s.take(n));
        lemma_error_stays(s.drop_last(), n, radix);
    }
}

/// The digits of a numeral: what follows one plus sign at its start, or all of it.
pub open spec fn unsigned(s: Seq<char>) -> Seq<char> {
    if s.len() > 0 && s[0] == '+' {
        s.skip(1)
    } else {
        s
    }
}

/// A byte is read if and only if there is at least one digit, all are digits, and they stand for
/// a number up to 255, which is the byte.
pub proof fn law_byte(s: Seq<char>, radix: nat, b: u8)
    requires
        2 <= radix <= 16,
    ensures
        byte_of(s, radix) == Ok::<u8, IntError>(b) <==> unsigned(s).len() > 0 && number(
            unsigned(s),
            radix,
        ) == Some(b as nat),
{
    let d = unsigned(s);
    if d.len() > 0 && number(d, radix) == Some(b as nat) {
        lemma_byte_of_number(d, radix);
    }
    if byte_of(s, radix) == Ok::<u8, IntError>(b) {
        lemma_number_of_byte(d, radix);
    }
}

/// Nothing at all is refused as empty, and a sign alone as no digit. Digits that stand for more
/// than 255 up to `k` are refused as too large, and a character at `k` that is no digit as such,
/// whichever comes first.
pub proof fn law_byte_refused(s: Seq<char>, radix: nat, k: int)
    requires
        2 <= radix <= 16,
    ensures
        s.len() == 0 ==> byte_of(s, radix) == Err::<u8, IntError>(IntError::Empty),
        s.len() > 0 && unsigned(s).len() == 0 ==> byte_of(s, radix) == Err::<u8, IntError>(
            IntError::InvalidDigit,
        ),
        0 <= k < unsigned(s).len() && number(unsigned(s).take(k), radix) is Some && number(
            unsigned(s).take(k),
            radix,
        ).unwrap() <= 255 ==> {
            &&& digit_value(unsigned(s)[k], radix as int) is None ==> byte_of(s, radix) == Err::<
                u8,
                IntError,
            >(IntError::InvalidDigit)
            &&& number(unsigned(s).take(k + 1), radix) is Some && number(
                unsigned(s).take(k + 1),
                radix,
            ).unwrap() > 255 ==> byte_of(s, radix) == Err::<u8, IntError>(IntError::PosOverflow)
        },
{
    let d = unsigned(s);
    if 0 <= k < d.len() && number(d.take(k), radix) is Some && number(d.take(k), radix).unwrap()
        <= 255 {
        let now = d.take(k + 1);
        assert(now.drop_last() =~= d.take(k));
        assert(now.last() == d[k]);
        lemma_byte_of_number(d.take(k), radix);
        if byte_of_digits(now, radix) is Err {
            lemma_error_stays(d, k + 1, radix);
        }
    }
}

/// Nothing joins to nothing and one piece to itself; what is joined from two lists has the
/// separator between what each of them joins to.
pub proof fn law_join(a: Seq<Seq<char>>, b: Seq<Seq<char>>, piece: Seq<char>, sep: char)
    ensures
        join(Seq::empty(), sep) == Seq::<char>::empty(),
        join(seq![piece], sep) == piece,
        a.len() > 0 && b.len() > 0 ==> join(a + b, sep) == join(a, sep) + seq![sep] + join(b, sep),
    decreases b.len(),
{
    if a.len() > 0 && b.len() > 0 {
        let front = b.drop_last();
        assert((a + b).drop_last() =~= a + front);
        assert((a + b).last() == b.last());
        if b.len() == 1 {
            assert(a + front =~= a);
            assert(join(a + b, sep) =~= join(a, sep) + seq![sep] + join(b, sep));
        } else {
            law_join(a, front, piece, sep);
            assert(join(a + b, sep) =~= join(a, sep) + seq![sep] + join(b, sep));
        }
    }
}

/// The pieces of a text hold no separator, and join to the text again; and pieces without a
/// separator are those of what they join to.
pub proof fn law_split(s: Seq<char>, sep: char, i: int, pieces: Seq<Seq<char>>)
    ensures
        split(s, sep).len() >= 1,
        0 <= i < split(s, sep).len() ==> !split(s, sep)[i].contains(sep),
        join(split(s, sep), sep) == s,
        pieces.len() >= 1 && (forall|j: int|
            0 <= j < pieces.len() ==> !(#[trigger] pieces[j]).contains(sep)) ==> split(
            join(pieces, sep),
            sep,
        ) == pieces,
    decreases s.len(),
{
    lemma_split_len(s, sep);
    lemma_join_split(s, sep);
    if pieces.len() >= 1 && (forall|j: int|
        0 <= j < pieces.len() ==> !(#[trigger] pieces[j]).contains(sep)) {
        lemma_split_join(pieces, sep);
    }
    if 0 <= i < split(s, sep).len() && s.len() > 0 {
        let front = split(s.drop_last(), sep);
        lemma_split_len(s.drop_last(), sep);
        law_split(s.drop_last(), sep, i, pieces);
        if s.last() != sep && i == front.len() - 1 {
            let piece = front.last();
            law_split(s.drop_last(), sep, front.len() - 1, pieces);
            let longer = piece.push(s.last());
            if longer.contains(sep) {
                let x = choose|x: int| 0 <= x < longer.len() && longer[x] == sep;
                if x < piece.len() {
                    assert(piece.contains(piece[x]));
                }
            }
        }
    }
}

/// A link-layer address is written as two digits for each byte, the higher first, and a colon
/// before each byte but the first.
pub proof fn law_mac_text(bytes: Seq<u8>, i: int)
    ensures
        bytes.len() == 0 ==> mac_text(bytes).len() == 0,
        bytes.len() > 0 ==> mac_text(bytes).len() == 3 * bytes.len() - 1,
        0 <= i < bytes.len() ==> {
            &&& mac_text(bytes)[3 * i] == digit_char(bytes[i] as int / 16)
            &&& mac_text(bytes)[3 * i + 1] == digit_char(bytes[i] as int % 16)
            &&& i > 0 ==> mac_text(bytes)[3 * i - 1] == ':'
        },
    decreases bytes.len(),
{
    let pairs = hex_pairs(bytes);
    if bytes.len() == 1 {
        assert(mac_text(bytes) == hex_pair(bytes[0]));
    } else if bytes.len() > 1 {
        let front = bytes.drop_last();
        law_mac_text(front, i);
        assert(pairs.drop_last() =~= hex_pairs(front));
        assert(mac_text(bytes) == mac_text(front).push(':') + hex_pair(bytes.last()));
    }
}

/// Where every piece reads as a byte, those are the bytes; where one does not, the first such
/// one tells the error.
proof fn lemma_hex_bytes(pieces: Seq<Seq<char>>, bytes: Seq<u8>, k: int)
    ensures
        bytes.len() == pieces.len() && (forall|i: int|
            0 <= i < pieces.len() ==> byte_of(#[trigger] pieces[i], 16) == Ok::<u8, IntError>(
                bytes[i],
            )) ==> hex_bytes(pieces) == Ok::<Seq<u8>, IntError>(bytes),
        0 <= k < pieces.len() && byte_of(pieces[k], 16) is Err && (forall|i: int|
            0 <= i < k ==> byte_of(#[trigger] pieces[i], 16) is Ok) ==> hex_bytes(pieces) == Err::<
            Seq<u8>,
            IntError,
        >(byte_of(pieces[k], 16)->Err_0),
    decreases pieces.len(),
{
    if pieces.len() == 0 {
        if bytes.len() == 0 {
            assert(bytes =~= Seq::<u8>::empty());
        }
    } else {
        let front = pieces.drop_last();
        let last = pieces.len() - 1;
        if bytes.len() == pieces.len() && (forall|i: int|
            0 <= i < pieces.len() ==> byte_of(#[trigger] pieces[i], 16) == Ok::<u8, IntError>(
                bytes[i],
            )) {
            let rest = bytes.drop_last();
            assert forall|i: int| 0 <= i < front.len() implies byte_of(#[trigger] front[i], 16)
                == Ok::<u8, IntError>(rest[i]) by {
                assert(front[i] == pieces[i]);
            }
            lemma_hex_bytes(front, rest, k);
            assert(byte_of(pieces[last], 16) == Ok::<u8, IntError>(bytes[last]));
            assert(rest.push(bytes[last]) =~= bytes);
        }
        if 0 <= k < pieces.len() && byte_of(pieces[k], 16) is Err && (forall|i: int|
            0 <= i < k ==> byte_of(#[trigger] pieces[i], 16) is Ok) {
            assert forall|i: int| 0 <= i < k && i < front.len() implies byte_of(
                #[trigger] front[i],
                16,
            ) is Ok by {
                assert(front[i] == pieces[i]);
            }
            if k < last {
                assert(front[k] == pieces[k]);
                lemma_hex_bytes(front, bytes, k);
            } else {
                lemma_all_ok(front);
            }
        }
    }
}

/// Where every piece reads as a byte, there is no error.
proof fn lemma_all_ok(pieces: Seq<Seq<char>>)
    requires
        forall|i: int| 0 <= i < pieces.len() ==> byte_of(#[trigger] pieces[i], 16) is Ok,
    ensures
        hex_bytes(pieces) is Ok,
    decreases pieces.len(),
{
    if pieces.len() > 0 {
        let front = pieces.drop_last();
        assert forall|i: int| 0 <= i < front.len() implies byte_of(#[trigger] front[i], 16) is Ok by {
            assert(front[i] == pieces[i]);
        }
        lemma_all_ok(front);
        assert(byte_of(pieces[pieces.len() - 1], 16) is Ok);
    }
}

/// A MAC address is read from pieces with colons between. Where all pieces are hexadecimal
/// bytes, six of them are the address and any other number is refused for it; where one is not,
/// the first such one is the reason for refusal.
pub proof fn law_mac_of(pieces: Seq<Seq<char>>, bytes: Seq<u8>, k: int)
    requires
        pieces.len() >= 1,
        forall|i: int| 0 <= i < pieces.len() ==> !(#[trigger] pieces[i]).contains(':'),
    ensures
        bytes.len() == pieces.len() && (forall|i: int|
            0 <= i < pieces.len() ==> byte_of(#[trigger] pieces[i], 16) == Ok::<u8, IntError>(
                bytes[i],
            )) ==> mac_of(join(pieces, ':')) == if bytes.len() == 6 {
            Ok::<Seq<u8>, ErrorView>(bytes)
        } else {
            Err(ErrorView::MacLength(join(pieces, ':')))
        },
        0 <= k < pieces.len() && byte_of(pieces[k], 16) is Err && (forall|i: int|
            0 <= i < k ==> byte_of(#[trigger] pieces[i], 16) is Ok) ==> mac_of(join(pieces, ':'))
            == Err::<Seq<u8>, ErrorView>(
            ErrorView::BadMac(join(pieces, ':'), byte_of(pieces[k], 16)->Err_0),
        ),
{
    lemma_split_join(pieces, ':');
    lemma_hex_bytes(pieces, bytes, k);
}

/// An IPv4 address is written as the decimal numerals of its four bytes, the most significant
/// first, with dots between.
pub proof fn law_v4_text(a: u8, b: u8, c: u8, d: u8)
    ensures
        v4_text((a * 16777216 + b * 65536 + c * 256 + d) as u32) == numeral(a as nat, 10) + seq!['.']
            + numeral(b as nat, 10) + seq!['.'] + numeral(c as nat, 10) + seq!['.'] + numeral(
            d as nat,
            10,
        ),
{
    let v = (a * 16777216 + b * 65536 + c * 256 + d) as u32;
    lemma_octets(a, b, c, d);
    let p = numeral(a as nat, 10);
    let q = numeral(b as nat, 10);
    let r = numeral(c as nat, 10);
    let s = numeral(d as nat, 10);
    assert(decimals(octets(v)) =~= seq![p, q, r, s]);
    reveal_with_fuel(join, 4);
    assert(seq![p, q, r, s].drop_last() =~= seq![p, q, r]);
    assert(seq![p, q, r].drop_last() =~= seq![p, q]);
    assert(seq![p, q].drop_last() =~= seq![p]);
    assert(v4_text(v) =~= p + seq!['.'] + q + seq!['.'] + r + seq!['.'] + s);
}

/// A text is read as an IPv4 address if and only if it is what is written of that address.
pub proof fn law_v4_of(s: Seq<char>, v: u32)
    ensures
        v4_of(s) == Some(v) <==> s == v4_text(v),
{
    if s == v4_text(v) {
        law_v4_round_trip(v);
    }
}

/// Text without a slash is refused. What stands before the first slash is read as an address,
/// and what follows it as a decimal byte; an address that cannot be read is reported first.
pub proof fn law_cidr(address: Seq<char>, prefix: Seq<char>)
    requires
        !address.contains('/'),
    ensures
        cidr_of(address) == Err::<(IpView, u8), ErrorView>(ErrorView::NotCidr(address)),
        ip_of(address) is None ==> cidr_of(address + seq!['/'] + prefix) == Err::<
            (IpView, u8),
            ErrorView,
        >(ErrorView::BadAddress),
        ip_of(address) is Some && byte_of(prefix, 10) is Err ==> cidr_of(
            address + seq!['/'] + prefix,
        ) == Err::<(IpView, u8), ErrorView>(ErrorView::BadPrefix(byte_of(prefix, 10)->Err_0)),
        ip_of(address) is Some && byte_of(prefix, 10) is Ok ==> cidr_of(
            address + seq!['/'] + prefix,
        ) == Ok::<(IpView, u8), ErrorView>((ip_of(address).unwrap(), byte_of(prefix, 10)->Ok_0)),
{
    let s = address + seq!['/'] + prefix;
    let at = address.len() as int;
    assert(s[at] == '/');
    assert forall|j: int| 0 <= j < at implies s[j] != '/' by {
        assert(address.contains(address[j]));
    }
    assert(is_first_of(s, '/', at));
    let chosen = choose|i: int| is_first_of(s, '/', i);
    assert(chosen == at);
    assert(s.take(at) =~= address);
    assert(s.skip(at + 1) =~= prefix);
}

} // verus!
