//! IPv6 addresses as text, stated on groups and pieces.

use vstd::prelude::*;

use crate::ip::{ip_of, IpView};
use crate::number::{hex_value, number, numeral};
use crate::text::{join, lemma_join_split, lemma_split_join, split};
use crate::text_laws::{law_join, law_split};
use crate::v4::{law_v4_round_trip, lemma_v4_dots, v4_of, v4_text};
use crate::v6::{
    group_of, groups_of, groups_text, head_of, hex_numerals, is_first_gap, is_gap, is_longest_row,
    is_mapped, lemma_first_gap_unique, lemma_join_gapless, lemma_longest_row_exists,
    lemma_longest_row_unique, lemma_zero_row, tail_of, v6_of, v6_text, zero_groups, zeros_from,
};

verus! {

/// No groups are written as nothing, one as its hexadecimal numeral, and those of two lists with
/// a colon between what is written of each.
pub proof fn law_groups_text(a: Seq<u16>, b: Seq<u16>, g: u16)
    ensures
        groups_text(Seq::empty()) == Seq::<char>::empty(),
        groups_text(seq![g]) == numeral(g as nat, 16),
        a.len() > 0 && b.len() > 0 ==> groups_text(a + b) == groups_text(a) + seq![':']
            + groups_text(b),
{
    law_join(hex_numerals(a), hex_numerals(b), numeral(g as nat, 16), ':');
    assert(hex_numerals(Seq::empty()) =~= Seq::<Seq<char>>::empty());
    assert(hex_numerals(seq![g]) =~= seq![numeral(g as nat, 16)]);
    assert(hex_numerals(a + b) =~= hex_numerals(a) + hex_numerals(b));
}

/// Whether there are `len` zero groups in a row from `start` on.
pub open spec fn zero_run(groups: Seq<u16>, start: int, len: int) -> bool {
    &&& 0 <= start
    &&& 1 <= len
    &&& start + len <= groups.len()
    &&& forall|j: int| start <= j < start + len ==> #[trigger] groups[j] == 0
}

/// A row of zeros is at least as long as any that starts at the same place.
proof fn lemma_run_counted(groups: Seq<u16>, start: int, len: int)
    requires
        0 <= start,
        0 <= len,
        start + len <= groups.len(),
        forall|j: int| start <= j < start + len ==> #[trigger] groups[j] == 0,
    ensures
        zeros_from(groups, start) >= len,
    decreases len,
{
    if len > 0 {
        assert(groups[start] == 0);
        lemma_run_counted(groups, start + 1, len - 1);
    }
}

/// An IPv4 address that is mapped into IPv6 is written after `::ffff:` as dotted decimal. In any
/// other address, the longest row of at least two zero groups, and the first of several, is
/// written as two colons; where no two zero groups are neighbours, all groups are written out.
pub proof fn law_v6_text(groups: Seq<u16>, start: int, len: int)
    requires
        groups.len() == 8,
    ensures
        groups[0] == 0 && groups[1] == 0 && groups[2] == 0 && groups[3] == 0 && groups[4] == 0
            && groups[5] == 0xffff ==> v6_text(groups) == "::ffff:"@ + v4_text(
            (groups[6] * 65536 + groups[7]) as u32,
        ),
        !(groups[0] == 0 && groups[1] == 0 && groups[2] == 0 && groups[3] == 0 && groups[4] == 0
            && groups[5] == 0xffff) && len >= 2 && zero_run(groups, start, len) && (forall|
            s: int,
            l: int,
        |
            #[trigger] zero_run(groups, s, l) ==> l < len || l == len && start <= s) ==> v6_text(
            groups,
        ) == groups_text(groups.take(start)) + seq![':', ':'] + groups_text(
            groups.skip(start + len),
        ),
        !(groups[0] == 0 && groups[1] == 0 && groups[2] == 0 && groups[3] == 0 && groups[4] == 0
            && groups[5] == 0xffff) && (forall|j: int|
            0 <= j < 7 ==> !(#[trigger] groups[j] == 0 && groups[j + 1] == 0)) ==> v6_text(groups)
            == groups_text(groups),
{
    reveal_strlit("::");
    assert("::"@ =~= seq![':', ':']);
    if !is_mapped(groups) {
        let chosen = choose|i: int| is_longest_row(groups, i);
        lemma_longest_row_exists(groups);
        if len >= 2 && zero_run(groups, start, len) && (forall|s: int, l: int|
            #[trigger] zero_run(groups, s, l) ==> l < len || l == len && start <= s) {
            lemma_run_counted(groups, start, len);
            lemma_zero_row(groups, start);
            assert(zero_run(groups, start, zeros_from(groups, start) as int));
            assert(zeros_from(groups, start) == len);
            assert forall|j: int| 0 <= j < groups.len() implies {
                ||| #[trigger] zeros_from(groups, j) < zeros_from(groups, start)
                ||| zeros_from(groups, j) == zeros_from(groups, start) && start <= j
            } by {
                lemma_zero_row(groups, j);
                if zeros_from(groups, j) > 0 {
                    assert(zero_run(groups, j, zeros_from(groups, j) as int));
                }
            }
            assert(is_longest_row(groups, start));
            lemma_longest_row_unique(groups, start, chosen);
        }
        if forall|j: int| 0 <= j < 7 ==> !(#[trigger] groups[j] == 0 && groups[j + 1] == 0) {
            lemma_zero_row(groups, chosen);
            if zeros_from(groups, chosen) > 1 {
                assert(groups[chosen] == 0 && groups[chosen + 1] == 0);
            }
        }
    }
}

/// A group is read from one to four hexadecimal digits, of which each counts sixteen times the
/// one after it, and from nothing else.
pub proof fn law_group(s: Seq<char>, i: int)
    ensures
        s.len() == 0 || s.len() > 4 ==> group_of(s) is None,
        0 <= i < s.len() && hex_value(s[i]) is None ==> group_of(s) is None,
        1 <= s.len() <= 4 && (forall|j: int|
            0 <= j < s.len() ==> hex_value(#[trigger] s[j]) is Some) ==> {
            &&& s.len() == 1 ==> group_of(s) == Some(digit(s, 0) as u16)
            &&& s.len() == 2 ==> group_of(s) == Some((digit(s, 0) * 16 + digit(s, 1)) as u16)
            &&& s.len() == 3 ==> group_of(s) == Some(
                (digit(s, 0) * 256 + digit(s, 1) * 16 + digit(s, 2)) as u16,
            )
            &&& s.len() == 4 ==> group_of(s) == Some(
                (digit(s, 0) * 4096 + digit(s, 1) * 256 + digit(s, 2) * 16 + digit(s, 3)) as u16,
            )
        },
{
    if 0 <= i < s.len() && hex_value(s[i]) is None {
        lemma_no_number(s, i);
    }
    if 1 <= s.len() <= 4 && (forall|j: int|
        0 <= j < s.len() ==> hex_value(#[trigger] s[j]) is Some) {
        let n = s.len() as int;
        reveal_with_fuel(number, 5);
        assert(hex_value(s[n - 1]) is Some);
        assert(s.drop_last() =~= s.take(n - 1));
        if n >= 2 {
            assert(hex_value(s[n - 2]) is Some);
            assert(s.drop_last().drop_last() =~= s.take(n - 2));
        }
        if n >= 3 {
            assert(hex_value(s[n - 3]) is Some);
            assert(s.drop_last().drop_last().drop_last() =~= s.take(n - 3));
        }
        if n >= 4 {
            assert(hex_value(s[n - 4]) is Some);
        }
    }
}

/// The value of the digit at `i`.
pub open spec fn digit(s: Seq<char>, i: int) -> int {
    hex_value(s[i]).unwrap()
}

/// Text with a character that is no digit is no number.
proof fn lemma_no_number(s: Seq<char>, i: int)
    requires
        0 <= i < s.len(),
        hex_value(s[i]) is None,
    ensures
        number(s, 16) is None,
    decreases s.len(),
{
    if i < s.len() - 1 {
        assert(s.drop_last()[i] == s[i]);
        lemma_no_number(s.drop_last(), i);
    }
}

/// Whether each piece reads as the group in its place.
pub open spec fn read_as(pieces: Seq<Seq<char>>, groups: Seq<u16>) -> bool {
    &&& pieces.len() == groups.len()
    &&& forall|i: int| 0 <= i < pieces.len() ==> group_of(#[trigger] pieces[i]) == Some(groups[i])
}

/// Whether the last groups of an address can be written as `s`: as pieces with colons between,
/// of which a dotted decimal IPv4 address can be the last, and stands for two groups.
pub open spec fn ends_as(
    s: Seq<char>,
    pieces: Seq<Seq<char>>,
    v: Option<u32>,
    groups: Seq<u16>,
) -> bool {
    match v {
        None => s == join(pieces, ':') && read_as(pieces, groups),
        Some(v4) => {
            &&& s == join(pieces.push(v4_text(v4)), ':')
            &&& groups.len() >= 2
            &&& read_as(pieces, groups.take(groups.len() - 2))
            &&& groups[groups.len() - 2] == v4 / 65536
            &&& groups[groups.len() - 1] == v4 % 65536
        },
    }
}

/// The groups of pieces are those that the pieces read as.
proof fn lemma_read(pieces: Seq<Seq<char>>, groups: Seq<u16>)
    ensures
        groups_of(pieces) == Some(groups) <==> read_as(pieces, groups),
    decreases pieces.len(),
{
    if pieces.len() == 0 {
        if groups.len() == 0 {
            assert(groups =~= Seq::<u16>::empty());
        }
    } else {
        let front = pieces.drop_last();
        let last = pieces.len() - 1;
        if read_as(pieces, groups) {
            let rest = groups.drop_last();
            assert forall|i: int| 0 <= i < front.len() implies group_of(#[trigger] front[i]) == Some(
                rest[i],
            ) by {
                assert(front[i] == pieces[i]);
            }
            lemma_read(front, rest);
            assert(group_of(pieces[last]) == Some(groups[last]));
            assert(rest.push(groups[last]) =~= groups);
        }
        if groups_of(pieces) == Some(groups) {
            let rest = groups_of(front).unwrap();
            lemma_read(front, rest);
            assert(groups == rest.push(group_of(pieces.last()).unwrap()));
            assert forall|i: int| 0 <= i < pieces.len() implies group_of(#[trigger] pieces[i])
                == Some(groups[i]) by {
                if i < last {
                    assert(front[i] == pieces[i]);
                }
            }
        }
    }
}

/// A piece that reads as a group is not empty, and holds neither a colon nor a dot.
proof fn lemma_group_piece(s: Seq<char>)
    requires
        group_of(s) is Some,
    ensures
        s.len() >= 1,
        !s.contains(':'),
        !s.contains('.'),
{
    if s.contains(':') {
        let i = choose|i: int| 0 <= i < s.len() && s[i] == ':';
        lemma_no_number(s, i);
    }
    if s.contains('.') {
        let i = choose|i: int| 0 <= i < s.len() && s[i] == '.';
        lemma_no_number(s, i);
    }
}

/// Text without a dot is no IPv4 address.
proof fn lemma_no_v4(s: Seq<char>)
    requires
        !s.contains('.'),
    ensures
        v4_of(s) is None,
{
    if exists|v: u32| s == v4_text(v) {
        let v = choose|v: u32| s == v4_text(v);
        lemma_v4_dots(v);
    }
}

/// What the end of an address can be written as reads back, and has no two colons in a row.
proof fn lemma_ends(s: Seq<char>, pieces: Seq<Seq<char>>, v: Option<u32>, groups: Seq<u16>)
    requires
        ends_as(s, pieces, v, groups),
    ensures
        tail_of(s) == Some(groups),
        forall|i: int| !is_gap(s, i),
        v is None ==> head_of(s) == Some(groups),
        s.len() > 0 ==> s.last() != ':',
{
    let all = match v {
        None => pieces,
        Some(v4) => pieces.push(v4_text(v4)),
    };
    let read = match v {
        None => groups,
        Some(_) => groups.take(groups.len() - 2),
    };
    assert forall|i: int| 0 <= i < all.len() implies (#[trigger] all[i]).len() >= 1
        && !all[i].contains(':') by {
        if i < pieces.len() {
            assert(all[i] == pieces[i]);
            lemma_group_piece(pieces[i]);
        } else {
            lemma_v4_dots(v.unwrap());
        }
    }
    lemma_read(pieces, read);
    if all.len() == 0 {
        assert(groups =~= Seq::<u16>::empty());
    } else {
        lemma_join_gapless(all);
        lemma_split_join(all, ':');
        match v {
            None => {
                lemma_group_piece(pieces[pieces.len() - 1]);
                lemma_no_v4(all.last());
            },
            Some(v4) => {
                law_v4_round_trip(v4);
                assert(all.last() == v4_text(v4));
                assert(all.drop_last() =~= pieces);
                assert(read.push((v4 / 65536) as u16).push((v4 % 65536) as u16) =~= groups);
            },
        }
    }
}

/// An address is read that is written as eight groups.
pub proof fn law_v6_written_out(
    s: Seq<char>,
    pieces: Seq<Seq<char>>,
    v: Option<u32>,
    groups: Seq<u16>,
)
    requires
        ends_as(s, pieces, v, groups),
        groups.len() == 8,
    ensures
        v6_of(s) == Some(groups),
{
    lemma_ends(s, pieces, v, groups);
    assert(!exists|i: int| is_first_gap(s, i));
}

/// An address is read that is written as up to seven groups with two colons among them, which
/// stand for as many zero groups as are missing.
pub proof fn law_v6_with_gap(
    head: Seq<Seq<char>>,
    front: Seq<u16>,
    s: Seq<char>,
    pieces: Seq<Seq<char>>,
    v: Option<u32>,
    back: Seq<u16>,
)
    requires
        read_as(head, front),
        ends_as(s, pieces, v, back),
        front.len() + back.len() <= 7,
    ensures
        v6_of(join(head, ':') + seq![':', ':'] + s) == Some(
            front + Seq::new((8 - front.len() - back.len()) as nat, |i: int| 0u16) + back,
        ),
{
    let a = join(head, ':');
    let whole = a + seq![':', ':'] + s;
    lemma_ends(a, head, None, front);
    lemma_ends(s, pieces, v, back);
    let at = a.len() as int;
    assert(is_gap(whole, at));
    assert forall|j: int| 0 <= j < at implies !is_gap(whole, j) by {
        if is_gap(whole, j) {
            if j + 1 < at {
                assert(is_gap(a, j));
            } else {
                assert(whole[j] == a.last());
            }
        }
    }
    assert(is_first_gap(whole, at));
    lemma_first_gap_unique(whole, at, choose|i: int| is_first_gap(whole, i));
    assert(whole.take(at) =~= a);
    assert(whole.skip(at + 2) =~= s);
    assert(zero_groups(8 - front.len() - back.len()) =~= Seq::new(
        (8 - front.len() - back.len()) as nat,
        |i: int| 0u16,
    ));
}

/// The groups before two colons are written as pieces.
proof fn lemma_head_form(s: Seq<char>) -> (pieces: Seq<Seq<char>>)
    requires
        head_of(s) is Some,
    ensures
        s == join(pieces, ':'),
        read_as(pieces, head_of(s).unwrap()),
{
    if s.len() == 0 {
        let none = Seq::<Seq<char>>::empty();
        assert(s =~= join(none, ':'));
        lemma_read(none, head_of(s).unwrap());
        none
    } else {
        let pieces = split(s, ':');
        lemma_join_split(s, ':');
        lemma_read(pieces, head_of(s).unwrap());
        pieces
    }
}

/// The groups at the end of an address are written as its end can be.
proof fn lemma_tail_form(s: Seq<char>) -> (form: (Seq<Seq<char>>, Option<u32>))
    requires
        tail_of(s) is Some,
    ensures
        ends_as(s, form.0, form.1, tail_of(s).unwrap()),
{
    let groups = tail_of(s).unwrap();
    if s.len() == 0 {
        let none = Seq::<Seq<char>>::empty();
        assert(s =~= join(none, ':'));
        lemma_read(none, groups);
        (none, None)
    } else {
        let pieces = split(s, ':');
        law_split(s, ':', 0, pieces);
        match v4_of(pieces.last()) {
            None => {
                lemma_read(pieces, groups);
                (pieces, None)
            },
            Some(v) => {
                let front = pieces.drop_last();
                let read = groups_of(front).unwrap();
                lemma_read(front, read);
                assert(pieces.last() == v4_text(v));
                assert(front.push(v4_text(v)) =~= pieces);
                assert(groups.take(groups.len() - 2) =~= read);
                (front, Some(v))
            },
        }
    }
}

/// Nothing else is read: an address that is read has eight groups, and is written out, or with
/// two colons in place of at least one zero group.
pub proof fn law_v6_only(s: Seq<char>)
    requires
        v6_of(s) is Some,
    ensures
        v6_of(s).unwrap().len() == 8,
        (exists|pieces: Seq<Seq<char>>, v: Option<u32>|
            #[trigger] ends_as(s, pieces, v, v6_of(s).unwrap())) || (exists|
            head: Seq<Seq<char>>,
            front: Seq<u16>,
            t: Seq<char>,
            pieces: Seq<Seq<char>>,
            v: Option<u32>,
            back: Seq<u16>,
        |
            #[trigger] read_as(head, front) && #[trigger] ends_as(t, pieces, v, back) && front.len()
                + back.len() <= 7 && s == join(head, ':') + seq![':', ':'] + t),
        s.contains(':'),
{
    if exists|i: int| is_first_gap(s, i) {
        let i = choose|i: int| is_first_gap(s, i);
        let front = head_of(s.take(i)).unwrap();
        let back = tail_of(s.skip(i + 2)).unwrap();
        let head = lemma_head_form(s.take(i));
        let form = lemma_tail_form(s.skip(i + 2));
        assert(s =~= join(head, ':') + seq![':', ':'] + s.skip(i + 2));
        assert(read_as(head, front) && ends_as(s.skip(i + 2), form.0, form.1, back));
        assert(s[i] == ':');
    } else {
        let form = lemma_tail_form(s);
        let groups = v6_of(s).unwrap();
        assert(ends_as(s, form.0, form.1, groups));
        let all = match form.1 {
            None => form.0,
            Some(v) => form.0.push(v4_text(v)),
        };
        assert(all.len() >= 2);
        law_join(all.drop_last(), seq![all.last()], all.last(), ':');
        assert(all.drop_last() + seq![all.last()] =~= all);
        let a = join(all.drop_last(), ':');
        assert(s[a.len() as int] == ':');
    }
}

/// A text is read as an IPv4 address if it is one, and as an IPv6 address if it is one; it is
/// never both.
pub proof fn law_ip_of(s: Seq<char>)
    ensures
        v4_of(s) is Some ==> v6_of(s) is None && ip_of(s) == Some(IpView::V4(v4_of(s).unwrap())),
        v6_of(s) is Some ==> v4_of(s) is None && ip_of(s) == Some(IpView::V6(v6_of(s).unwrap())),
        v4_of(s) is None && v6_of(s) is None ==> ip_of(s) is None,
{
    if v6_of(s) is Some {
        law_v6_only(s);
    }
    if v4_of(s) is Some {
        let v = choose|v: u32| s == v4_text(v);
        lemma_v4_dots(v);
    }
}

} // verus!
