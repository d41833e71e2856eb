//! IPv6 addresses as text.

use vstd::prelude::*;

use crate::number::{
    char_to_digit, lemma_number_numeral, lemma_numeral_digits, number, numeral, numeral_of,
};
use crate::text::{
    join, lemma_join_lacks, lemma_split_join, lemma_split_plain, split, split_chars, string_of,
    texts,
};
use crate::v4::{
    law_v4_round_trip, lemma_v4_dots, lemma_v4_no_slash, parse_v4, v4_of, v4_text, v4_to_string,
};

verus! {

/// How many zero groups there are in a row from `i` on.
pub open spec fn zeros_from(groups: Seq<u16>, i: int) -> nat
    decreases groups.len() - i,
{
    if 0 <= i < groups.len() && groups[i] == 0 {
        1 + zeros_from(groups, i + 1)
    } else {
        0
    }
}

/// Whether the longest row of zero groups starts at `i`, the first one of several.
pub open spec fn is_longest_row(groups: Seq<u16>, i: int) -> bool {
    &&& 0 <= i < groups.len()
    &&& forall|j: int|
        0 <= j < groups.len() ==> {
            ||| #[trigger] zeros_from(groups, j) < zeros_from(groups, i)
            ||| zeros_from(groups, j) == zeros_from(groups, i) && i <= j
        }
}

/// Groups in hexadecimal, with colons between.
pub open spec fn groups_text(groups: Seq<u16>) -> Seq<char> {
    join(hex_numerals(groups), ':')
}

/// The hexadecimal numerals of some groups.
pub open spec fn hex_numerals(groups: Seq<u16>) -> Seq<Seq<char>> {
    groups.map_values(|g: u16| numeral(g as nat, 16))
}

/// Whether the groups hold an IPv4 address that is mapped into IPv6.
pub open spec fn is_mapped(groups: Seq<u16>) -> bool {
    &&& groups[0] == 0
    &&& groups[1] == 0
    &&& groups[2] == 0
    &&& groups[3] == 0
    &&& groups[4] == 0
    &&& groups[5] == 0xffff
}

/// The IPv4 address in the last two of eight groups.
pub open spec fn mapped_v4(groups: Seq<u16>) -> u32 {
    (groups[6] * 65536 + groups[7]) as u32
}

/// The text of an IPv6 address: a mapped address ends in dotted decimal; in any other,
/// two colons stand for the longest row of at least two zero groups.
pub open spec fn v6_text(groups: Seq<u16>) -> Seq<char> {
    if is_mapped(groups) {
        "::ffff:"@ + v4_text(mapped_v4(groups))
    } else {
        let start = choose|i: int| is_longest_row(groups, i);
        let len = zeros_from(groups, start);
        if len > 1 {
            groups_text(groups.take(start)) + "::"@ + groups_text(groups.skip(start + len))
        } else {
            groups_text(groups)
        }
    }
}

/// A group: one to four hexadecimal digits of either case.
pub open spec fn group_of(s: Seq<char>) -> Option<u16> {
    if 1 <= s.len() <= 4 {
        match number(s, 16) {
            Some(n) => Some(n as u16),
            None => None,
        }
    } else {
        None
    }
}

/// The groups that the pieces stand for, if all of them do.
pub open spec fn groups_of(pieces: Seq<Seq<char>>) -> Option<Seq<u16>>
    decreases pieces.len(),
{
    if pieces.len() == 0 {
        Some(Seq::empty())
    } else {
        match (groups_of(pieces.drop_last()), group_of(pieces.last())) {
            (Some(front), Some(g)) => Some(front.push(g)),
            _ => None,
        }
    }
}

/// The groups before two colons: none, or groups with colons between.
pub open spec fn head_of(s: Seq<char>) -> Option<Seq<u16>> {
    if s.len() == 0 {
        Some(Seq::empty())
    } else {
        groups_of(split(s, ':'))
    }
}

/// The groups at the end of an address, where a dotted decimal IPv4 address can stand
/// for the last two.
pub open spec fn tail_of(s: Seq<char>) -> Option<Seq<u16>> {
    if s.len() == 0 {
        Some(Seq::empty())
    } else {
        let pieces = split(s, ':');
        match v4_of(pieces.last()) {
            Some(v) => match groups_of(pieces.drop_last()) {
                Some(front) => Some(front.push((v / 65536) as u16).push((v % 65536) as u16)),
                None => None,
            },
            None => groups_of(pieces),
        }
    }
}

/// Whether two colons stand at `i`.
pub open spec fn is_gap(s: Seq<char>, i: int) -> bool {
    0 <= i < s.len() - 1 && s[i] == ':' && s[i + 1] == ':'
}

/// Whether the first two colons in a row stand at `i`.
pub open spec fn is_first_gap(s: Seq<char>, i: int) -> bool {
    is_gap(s, i) && forall|j: int| 0 <= j < i ==> !is_gap(s, j)
}

/// Some zero groups.
pub open spec fn zero_groups(n: int) -> Seq<u16> {
    Seq::new(n as nat, |i: int| 0u16)
}

/// The eight groups of the IPv6 address `s`: all of them written out, or two colons in
/// place of at least one zero group.
pub open spec fn v6_of(s: Seq<char>) -> Option<Seq<u16>> {
    if exists|i: int| is_first_gap(s, i) {
        let i = choose|i: int| is_first_gap(s, i);
        match (head_of(s.take(i)), tail_of(s.skip(i + 2))) {
            (Some(head), Some(tail)) => if head.len() + tail.len() <= 7 {
                Some(head + zero_groups(8 - head.len() - tail.len()) + tail)
            } else {
                None
            },
            _ => None,
        }
    } else {
        match tail_of(s) {
            Some(groups) => if groups.len() == 8 {
                Some(groups)
            } else {
                None
            },
            None => None,
        }
    }
}

/// There is only one longest row that comes first.
pub proof fn lemma_longest_row_unique(groups: Seq<u16>, i: int, j: int)
    requires
        is_longest_row(groups, i),
        is_longest_row(groups, j),
    ensures
        i == j,
{
    assert(zeros_from(groups, i) <= zeros_from(groups, j));
    assert(zeros_from(groups, j) <= zeros_from(groups, i));
}

/// Where the longest row of zero groups starts, and how long it is.
fn longest_row(groups: &[u16; 8]) -> (row: (usize, usize))
    ensures
        is_longest_row(groups@, row.0 as int),
        row.1 == zeros_from(groups@, row.0 as int),
        row.0 + row.1 <= 8,
{
    let mut best: usize = 0;
    let mut longest: usize = 0;
    let mut i: usize = 0;
    while i < 8
        invariant
            i <= 8,
            best <= 7,
            best < i || i == 0,
            longest == zeros_from(groups@, best as int) || i == 0,
            best + longest <= 8,
            forall|j: int|
                0 <= j < i ==> {
                    ||| #[trigger] zeros_from(groups@, j) < longest
                    ||| zeros_from(groups@, j) == longest && best <= j
                },
        decreases 8 - i,
    {
        let row = row_at(groups, i);
        if i == 0 || row > longest {
            best = i;
            longest = row;
        }
        i = i + 1;
    }
    (best, longest)
}

/// How many zero groups there are in a row from `start` on.
fn row_at(groups: &[u16; 8], start: usize) -> (row: usize)
    requires
        start < 8,
    ensures
        row == zeros_from(groups@, start as int),
        start + row <= 8,
{
    let mut end: usize = start;
    while end < 8 && groups[end] == 0
        invariant
            start <= end <= 8,
            zeros_from(groups@, start as int) == (end - start) + zeros_from(groups@, end as int),
        decreases 8 - end,
    {
        end = end + 1;
    }
    end - start
}

/// Groups `from` up to `to` in hexadecimal, with colons between.
fn groups_to_string(groups: &[u16; 8], from: usize, to: usize) -> (text: String)
    requires
        from <= to <= 8,
    ensures
        text@ == groups_text(groups@.subrange(from as int, to as int)),
{
    let mut text = String::new();
    let mut i: usize = from;
    assert(hex_numerals(groups@.subrange(from as int, from as int)).len() == 0);
    while i < to
        invariant
            from <= i <= to <= 8,
            text@ == groups_text(groups@.subrange(from as int, i as int)),
        decreases to - i,
    {
        proof {
            let before = hex_numerals(groups@.subrange(from as int, i as int));
            let after = hex_numerals(groups@.subrange(from as int, i + 1));
            assert(after =~= before.push(numeral(groups@[i as int] as nat, 16)));
            assert(after.drop_last() =~= before);
            reveal_strlit(":");
            assert(":"@ =~= seq![':']);
            if i == from {
                assert(text@ =~= Seq::<char>::empty());
            } else {
                assert(text@.push(':') =~= text@ + ":"@);
            }
        }
        if i > from {
            text = text.concat(":");
        }
        text = text.concat(string_of(&numeral_of(groups[i] as u64, 16)).as_str());
        i = i + 1;
    }
    text
}

/// The text of an IPv6 address.
pub fn v6_to_string(groups: &[u16; 8]) -> (text: String)
    ensures
        text@ == v6_text(groups@),
{
    if groups[0] == 0 && groups[1] == 0 && groups[2] == 0 && groups[3] == 0 && groups[4] == 0
        && groups[5] == 0xffff {
        let v: u32 = groups[6] as u32 * 65536 + groups[7] as u32;
        return "::ffff:".to_owned().concat(v4_to_string(v).as_str());
    }
    let (start, len) = longest_row(groups);
    proof {
        let chosen = choose|i: int| is_longest_row(groups@, i);
        lemma_longest_row_unique(groups@, start as int, chosen);
        assert(groups@.subrange(0, start as int) =~= groups@.take(start as int));
        assert(groups@.subrange(start + len, 8) =~= groups@.skip(start + len));
        assert(groups@.subrange(0, 8) =~= groups@);
    }
    if len > 1 {
        groups_to_string(groups, 0, start).concat("::").concat(
            groups_to_string(groups, start + len, 8).as_str(),
        )
    } else {
        groups_to_string(groups, 0, 8)
    }
}

/// Up to four hexadecimal digits stand for a number that fits a group.
proof fn lemma_group_fits(s: Seq<char>)
    requires
        number(s, 16) is Some,
    ensures
        s.len() == 0 ==> number(s, 16).unwrap() == 0,
        s.len() <= 1 ==> number(s, 16).unwrap() <= 0xf,
        s.len() <= 2 ==> number(s, 16).unwrap() <= 0xff,
        s.len() <= 3 ==> number(s, 16).unwrap() <= 0xfff,
        s.len() <= 4 ==> number(s, 16).unwrap() <= 0xffff,
    decreases s.len(),
{
    if s.len() > 0 {
        lemma_group_fits(s.drop_last());
    }
}

/// Digits with a bad one in front stand for no number.
proof fn lemma_bad_digit(s: Seq<char>, n: int)
    requires
        0 <= n <= s.len(),
        number(s.take(n), 16) is None,
    ensures
        number(s, 16) is None,
    decreases s.len(),
{
    if n == s.len() {
        assert(s.take(n) =~= s);
    } else {
        assert(s.drop_last().take(n) =~= s.take(n));
        lemma_bad_digit(s.drop_last(), n);
    }
}

/// Reads a group.
fn parse_group(s: &[char]) -> (r: Option<u16>)
    ensures
        r == group_of(s@),
{
    if s.len() == 0 || s.len() > 4 {
        return None;
    }
    let mut value: u32 = 0;
    let mut i: usize = 0;
    assert(s@.take(0) =~= Seq::<char>::empty());
    while i < s.len()
        invariant
            i <= s.len() <= 4,
            number(s@.take(i as int), 16) == Some(value as nat),
        decreases s.len() - i,
    {
        proof {
            assert(s@.take(i + 1).drop_last() =~= s@.take(i as int));
            lemma_group_fits(s@.take(i as int));
        }
        match char_to_digit(s[i], 16) {
            None => {
                proof {
                    lemma_bad_digit(s@, i + 1);
                }
                return None;
            },
            Some(d) => {
                value = value * 16 + d;
            },
        }
        i = i + 1;
    }
    proof {
        assert(s@.take(s.len() as int) =~= s@);
        lemma_group_fits(s@);
    }
    Some(value as u16)
}

/// Pieces with a bad one in front stand for no groups.
proof fn lemma_bad_group(pieces: Seq<Seq<char>>, n: int)
    requires
        0 <= n <= pieces.len(),
        groups_of(pieces.take(n)) is None,
    ensures
        groups_of(pieces) is None,
    decreases pieces.len(),
{
    if n == pieces.len() {
        assert(pieces.take(n) =~= pieces);
    } else {
        assert(pieces.drop_last().take(n) =~= pieces.take(n));
        lemma_bad_group(pieces.drop_last(), n);
    }
}

/// Reads the first `n` pieces as groups.
fn parse_groups(pieces: &Vec<Vec<char>>, n: usize) -> (r: Option<Vec<u16>>)
    requires
        n <= pieces.len(),
    ensures
        r matches Some(groups) ==> groups_of(texts(pieces@).take(n as int)) == Some(groups@),
        r is None ==> groups_of(texts(pieces@).take(n as int)) is None,
{
    let ghost all = texts(pieces@);
    let mut groups: Vec<u16> = Vec::new();
    let mut i: usize = 0;
    while i < n
        invariant
            i <= n <= pieces.len(),
            all == texts(pieces@),
            groups_of(all.take(i as int)) == Some(groups@),
        decreases n - i,
    {
        proof {
            assert(all.take(i + 1).drop_last() =~= all.take(i as int));
            assert(all.take(i + 1).last() == pieces[i as int]@);
        }
        match parse_group(pieces[i].as_slice()) {
            None => {
                proof {
                    assert(all.take(n as int).take(i + 1) =~= all.take(i + 1));
                    lemma_bad_group(all.take(n as int), i + 1);
                }
                return None;
            },
            Some(g) => {
                groups.push(g);
            },
        }
        i = i + 1;
    }
    Some(groups)
}

/// Reads the groups before two colons.
fn parse_head(s: &[char]) -> (r: Option<Vec<u16>>)
    ensures
        r matches Some(groups) ==> head_of(s@) == Some(groups@),
        r is None ==> head_of(s@) is None,
{
    if s.len() == 0 {
        return Some(Vec::new());
    }
    let pieces = split_chars(s, ':');
    assert(texts(pieces@).take(pieces.len() as int) =~= texts(pieces@));
    parse_groups(&pieces, pieces.len())
}

/// Reads the groups at the end of an address.
fn parse_tail(s: &[char]) -> (r: Option<Vec<u16>>)
    ensures
        r matches Some(groups) ==> tail_of(s@) == Some(groups@),
        r is None ==> tail_of(s@) is None,
{
    if s.len() == 0 {
        return Some(Vec::new());
    }
    let pieces = split_chars(s, ':');
    let last: usize = pieces.len() - 1;
    proof {
        let all = texts(pieces@);
        assert(all.take(pieces.len() as int) =~= all);
        assert(all.take(last as int) =~= all.drop_last());
        assert(all.last() == pieces[last as int]@);
    }
    match parse_v4(pieces[last].as_slice()) {
        None => parse_groups(&pieces, pieces.len()),
        Some(v) => match parse_groups(&pieces, last) {
            None => None,
            Some(mut groups) => {
                groups.push((v / 65536) as u16);
                groups.push((v % 65536) as u16);
                Some(groups)
            },
        },
    }
}

/// Where the first two colons in a row stand.
fn find_gap(s: &[char]) -> (r: Option<usize>)
    ensures
        r matches Some(i) ==> is_first_gap(s@, i as int),
        r is None ==> forall|i: int| !is_gap(s@, i),
{
    let mut i: usize = 0;
    while i < s.len()
        invariant
            i <= s.len(),
            forall|j: int| 0 <= j < i ==> !is_gap(s@, j),
        decreases s.len() - i,
    {
        if i + 1 < s.len() && s[i] == ':' && s[i + 1] == ':' {
            return Some(i);
        }
        i = i + 1;
    }
    None
}

/// An array of eight groups.
fn eight(groups: &Vec<u16>) -> (array: [u16; 8])
    requires
        groups.len() == 8,
    ensures
        array@ == groups@,
{
    let array: [u16; 8] = [
        groups[0],
        groups[1],
        groups[2],
        groups[3],
        groups[4],
        groups[5],
        groups[6],
        groups[7],
    ];
    assert(array@ =~= groups@);
    array
}

/// Reads an IPv6 address.
pub fn parse_v6(s: &[char]) -> (r: Option<[u16; 8]>)
    ensures
        r matches Some(groups) ==> v6_of(s@) == Some(groups@),
        r is None ==> v6_of(s@) is None,
{
    let end: usize = s.len();
    match find_gap(s) {
        None => {
            assert(!exists|i: int| is_first_gap(s@, i));
            match parse_tail(s) {
                None => None,
                Some(groups) => if groups.len() == 8 {
                    Some(eight(&groups))
                } else {
                    None
                },
            }
        },
        Some(i) => {
            proof {
                assert(is_gap(s@, i as int));
                let chosen = choose|j: int| is_first_gap(s@, j);
                lemma_first_gap_unique(s@, i as int, chosen);
                assert(s@.subrange(0, i as int) =~= s@.take(i as int));
                assert(s@.subrange(i + 2, s@.len() as int) =~= s@.skip(i + 2));
            }
            let head = parse_head(vstd::slice::slice_subrange(s, 0, i));
            let tail = parse_tail(vstd::slice::slice_subrange(s, i + 2, end));
            match (head, tail) {
                (Some(head), Some(tail)) => {
                    if head.len() > 7 || tail.len() > 7 - head.len() {
                        None
                    } else {
                        Some(eight(&fill(head, &tail)))
                    }
                },
                _ => None,
            }
        },
    }
}

/// The groups of `head`, then zero groups, then those of `tail`: eight in all.
fn fill(head: Vec<u16>, tail: &Vec<u16>) -> (groups: Vec<u16>)
    requires
        head.len() + tail.len() <= 7,
    ensures
        groups@ == head@ + zero_groups(8 - head.len() - tail.len()) + tail@,
{
    let ghost start = head@;
    let mut groups = head;
    while groups.len() < 8 - tail.len()
        invariant
            start.len() <= groups.len() <= 8 - tail.len(),
            tail.len() <= 7,
            groups@ == start + zero_groups(groups.len() - start.len()),
        decreases 8 - groups.len(),
    {
        groups.push(0);
        assert(groups@ =~= start + zero_groups(groups.len() - start.len()));
    }
    let ghost front = groups@;
    let mut i: usize = 0;
    while i < tail.len()
        invariant
            i <= tail.len(),
            groups@ == front + tail@.take(i as int),
        decreases tail.len() - i,
    {
        groups.push(tail[i]);
        i = i + 1;
        assert(groups@ =~= front + tail@.take(i as int));
    }
    assert(tail@.take(tail.len() as int) =~= tail@);
    groups
}

/// There is only one first gap.
pub proof fn lemma_first_gap_unique(s: Seq<char>, i: int, j: int)
    requires
        is_first_gap(s, i),
        is_first_gap(s, j),
    ensures
        i == j,
{
}

/// Joined pieces that are not empty and hold no colon have no gap, and no colon at
/// either end.
pub proof fn lemma_join_gapless(pieces: Seq<Seq<char>>)
    requires
        pieces.len() >= 1,
        forall|i: int|
            0 <= i < pieces.len() ==> (#[trigger] pieces[i]).len() >= 1 && !pieces[i].contains(':'),
    ensures
        join(pieces, ':').len() >= 1,
        join(pieces, ':')[0] != ':',
        join(pieces, ':').last() != ':',
        forall|i: int| !is_gap(join(pieces, ':'), i),
    decreases pieces.len(),
{
    let s = join(pieces, ':');
    let last = pieces.last();
    assert forall|i: int| 0 <= i < last.len() implies last[i] != ':' by {
        assert(last.contains(last[i]));
    }
    if pieces.len() > 1 {
        let front = pieces.drop_last();
        assert forall|i: int| 0 <= i < front.len() implies (#[trigger] front[i]).len() >= 1
            && !front[i].contains(':') by {
            assert(front[i] == pieces[i]);
        }
        lemma_join_gapless(front);
        let t = join(front, ':');
        assert(s == t.push(':') + last);
        assert forall|i: int| !is_gap(s, i) by {
            if is_gap(s, i) {
                if i + 1 < t.len() {
                    assert(is_gap(t, i));
                } else if i + 1 == t.len() {
                    assert(s[i] == t.last());
                } else {
                    assert(s[i + 1] == last[i + 1 - t.len() - 1]);
                }
            }
        }
        assert(s[0] == t[0]);
        assert(s.last() == last[last.len() - 1]);
    } else {
        assert(s == last);
    }
}

/// The numeral of a group has at most four digits.
proof fn lemma_group_numeral(g: u16)
    ensures
        group_of(numeral(g as nat, 16)) == Some(g),
        numeral(g as nat, 16).len() >= 1,
        !numeral(g as nat, 16).contains(':'),
        !numeral(g as nat, 16).contains('.'),
{
    lemma_number_numeral(g as nat, 16);
    lemma_numeral_digits(g as nat, 16);
    let n = g as nat;
    reveal_with_fuel(numeral, 4);
    assert(n / 16 / 16 / 16 < 16);
    assert(numeral(n, 16).len() <= 4);
}

/// The numerals of some groups read back as those groups.
proof fn lemma_groups_numerals(groups: Seq<u16>)
    ensures
        groups_of(hex_numerals(groups)) == Some(groups),
    decreases groups.len(),
{
    if groups.len() == 0 {
        assert(groups =~= Seq::<u16>::empty());
    } else {
        lemma_groups_numerals(groups.drop_last());
        lemma_group_numeral(groups.last());
        assert(hex_numerals(groups).drop_last() =~= hex_numerals(groups.drop_last()));
        assert(groups.drop_last().push(groups.last()) =~= groups);
    }
}

/// The numerals of some groups are not empty and hold no separator.
proof fn lemma_numerals_plain(groups: Seq<u16>)
    ensures
        hex_numerals(groups).len() == groups.len(),
        forall|i: int|
            0 <= i < groups.len() ==> (#[trigger] hex_numerals(groups)[i]).len() >= 1
                && !hex_numerals(groups)[i].contains(':') && !hex_numerals(groups)[i].contains('.'),
{
    assert forall|i: int| 0 <= i < groups.len() implies (#[trigger] hex_numerals(groups)[i]).len()
        >= 1 && !hex_numerals(groups)[i].contains(':') && !hex_numerals(groups)[i].contains(
        '.',
    ) by {
        lemma_group_numeral(groups[i]);
    }
}

/// Text without a dot is no IPv4 address.
proof fn lemma_no_dot_no_v4(s: Seq<char>)
    requires
        !s.contains('.'),
    ensures
        v4_of(s) is None,
{
    if exists|v: u32| s == v4_text(v) {
        let v = choose|v: u32| s == v4_text(v);
        lemma_v4_dots(v);
    }
}

/// Groups in hexadecimal read back as those groups, before and after a gap.
proof fn lemma_groups_text(groups: Seq<u16>)
    ensures
        head_of(groups_text(groups)) == Some(groups),
        tail_of(groups_text(groups)) == Some(groups),
        forall|i: int| !is_gap(groups_text(groups), i),
        groups_text(groups).len() > 0 ==> groups_text(groups).last() != ':',
{
    let pieces = hex_numerals(groups);
    lemma_numerals_plain(groups);
    if groups.len() == 0 {
        assert(groups =~= Seq::<u16>::empty());
    } else {
        lemma_join_gapless(pieces);
        lemma_split_join(pieces, ':');
        lemma_groups_numerals(groups);
        assert(pieces.last() == pieces[pieces.len() - 1]);
        lemma_no_dot_no_v4(pieces.last());
    }
}

/// The text of a mapped address reads back.
proof fn lemma_mapped_round_trip(groups: Seq<u16>)
    requires
        groups.len() == 8,
        is_mapped(groups),
    ensures
        v6_of(v6_text(groups)) == Some(groups),
{
    let v = mapped_v4(groups);
    let s = v6_text(groups);
    reveal_strlit("::ffff:");
    let marker = "::ffff:"@;
    assert(is_gap(s, 0));
    assert(is_first_gap(s, 0));
    lemma_first_gap_unique(s, 0, choose|i: int| is_first_gap(s, i));
    let ffff = seq!['f', 'f', 'f', 'f'];
    let pieces = seq![ffff, v4_text(v)];
    lemma_v4_dots(v);
    reveal_with_fuel(join, 2);
    assert(pieces.drop_last() =~= seq![ffff]);
    assert(s.skip(2) =~= ffff.push(':') + v4_text(v));
    assert(join(pieces, ':') =~= s.skip(2));
    lemma_split_join(pieces, ':');
    law_v4_round_trip(v);
    assert(pieces.last() == v4_text(v));
    reveal_with_fuel(number, 5);
    assert(ffff.drop_last().drop_last().drop_last().drop_last() =~= Seq::<char>::empty());
    assert(number(ffff, 16) == Some(0xffffnat));
    reveal_with_fuel(groups_of, 2);
    assert(seq![ffff].drop_last() =~= Seq::<Seq<char>>::empty());
    assert(groups_of(seq![ffff]) == Some(Seq::<u16>::empty().push(0xffff)));
    assert(tail_of(s.skip(2)) == Some(
        Seq::<u16>::empty().push(0xffff).push((v / 65536) as u16).push((v % 65536) as u16),
    ));
    assert(v / 65536 == groups[6] && v % 65536 == groups[7]);
    let tail = tail_of(s.skip(2)).unwrap();
    assert(s.take(0) =~= Seq::<char>::empty());
    assert(head_of(s.take(0)) == Some(Seq::<u16>::empty()));
    assert(Seq::<u16>::empty() + zero_groups(5) + tail =~= groups);
}

/// What is written of an IPv6 address is read back as the same address.
pub proof fn law_v6_round_trip(groups: Seq<u16>)
    requires
        groups.len() == 8,
    ensures
        v6_of(v6_text(groups)) == Some(groups),
{
    let s = v6_text(groups);
    if is_mapped(groups) {
        lemma_mapped_round_trip(groups);
    } else {
        let start = choose|i: int| is_longest_row(groups, i);
        lemma_longest_row_exists(groups);
        let len = zeros_from(groups, start);
        lemma_zero_row(groups, start);
        if len > 1 {
            lemma_gap_round_trip(groups, start, len as int);
        } else {
            lemma_groups_text(groups);
            assert(!exists|i: int| is_first_gap(s, i));
        }
    }
}

/// Groups with a row of zeros left out read back.
proof fn lemma_gap_round_trip(groups: Seq<u16>, start: int, len: int)
    requires
        groups.len() == 8,
        0 <= start,
        1 <= len,
        start + len <= 8,
        forall|j: int| start <= j < start + len ==> groups[j] == 0,
    ensures
        v6_of(groups_text(groups.take(start)) + "::"@ + groups_text(groups.skip(start + len)))
            == Some(groups),
{
    let head = groups.take(start);
    let tail = groups.skip(start + len);
    let a = groups_text(head);
    let b = groups_text(tail);
    let s = a + "::"@ + b;
    lemma_groups_text(head);
    lemma_groups_text(tail);
    reveal_strlit("::");
    let at = a.len() as int;
    assert(is_gap(s, at));
    assert forall|j: int| 0 <= j < at implies !is_gap(s, j) by {
        if is_gap(s, j) {
            if j + 1 < at {
                assert(is_gap(a, j));
            } else {
                assert(s[j] == a.last());
            }
        }
    }
    assert(is_first_gap(s, at));
    lemma_first_gap_unique(s, at, choose|i: int| is_first_gap(s, i));
    assert(s.take(at) =~= a);
    assert(s.skip(at + 2) =~= b);
    assert(head + zero_groups(len) + tail =~= groups);
}

/// A row of zero groups lies within the groups and holds zeros only.
pub proof fn lemma_zero_row(groups: Seq<u16>, i: int)
    requires
        0 <= i <= groups.len(),
    ensures
        i + zeros_from(groups, i) <= groups.len(),
        forall|j: int| i <= j < i + zeros_from(groups, i) ==> groups[j] == 0,
    decreases groups.len() - i,
{
    if i < groups.len() && groups[i] == 0 {
        lemma_zero_row(groups, i + 1);
    }
}

/// The longest of the rows that start before `n`.
proof fn lemma_longest_below(groups: Seq<u16>, n: int) -> (i: int)
    requires
        1 <= n <= groups.len(),
    ensures
        0 <= i < n,
        forall|j: int|
            0 <= j < n ==> {
                ||| #[trigger] zeros_from(groups, j) < zeros_from(groups, i)
                ||| zeros_from(groups, j) == zeros_from(groups, i) && i <= j
            },
    decreases n,
{
    if n == 1 {
        0
    } else {
        let i = lemma_longest_below(groups, n - 1);
        if zeros_from(groups, n - 1) > zeros_from(groups, i) {
            n - 1
        } else {
            i
        }
    }
}

/// One of the rows is the longest.
pub proof fn lemma_longest_row_exists(groups: Seq<u16>)
    requires
        groups.len() >= 1,
    ensures
        exists|i: int| is_longest_row(groups, i),
{
    let i = lemma_longest_below(groups, groups.len() as int);
    assert(is_longest_row(groups, i));
}

/// The text of an IPv6 address holds a colon.
pub proof fn lemma_v6_colon(groups: Seq<u16>)
    requires
        groups.len() == 8,
    ensures
        v6_text(groups).contains(':'),
{
    let s = v6_text(groups);
    reveal_strlit("::");
    reveal_strlit("::ffff:");
    if is_mapped(groups) {
        assert(s[0] == ':');
    } else {
        let start = choose|i: int| is_longest_row(groups, i);
        let len = zeros_from(groups, start);
        if len > 1 {
            assert(s[groups_text(groups.take(start)).len() as int] == ':');
        } else {
            lemma_numerals_plain(groups);
            lemma_split_join(hex_numerals(groups), ':');
            if !s.contains(':') {
                lemma_split_plain(s, ':');
            }
        }
    }
}

/// Groups in hexadecimal hold no slash.
proof fn lemma_groups_no_slash(groups: Seq<u16>)
    ensures
        !groups_text(groups).contains('/'),
{
    let all = hex_numerals(groups);
    assert forall|i: int| 0 <= i < all.len() implies !(#[trigger] all[i]).contains('/') by {
        lemma_numeral_digits(groups[i] as nat, 16);
    }
    lemma_join_lacks(all, ':', '/');
}

/// Two texts without a slash have none together.
proof fn lemma_sum_no_slash(a: Seq<char>, b: Seq<char>)
    requires
        !a.contains('/'),
        !b.contains('/'),
    ensures
        !(a + b).contains('/'),
{
    let s = a + b;
    if s.contains('/') {
        let i = choose|i: int| 0 <= i < s.len() && s[i] == '/';
        if i < a.len() {
            assert(a.contains(a[i]));
        } else {
            assert(b.contains(b[i - a.len()]));
        }
    }
}

/// The text of an IPv6 address holds no slash.
pub proof fn lemma_v6_no_slash(groups: Seq<u16>)
    ensures
        !v6_text(groups).contains('/'),
{
    reveal_strlit("::");
    reveal_strlit("::ffff:");
    if is_mapped(groups) {
        lemma_v4_no_slash(mapped_v4(groups));
        lemma_sum_no_slash("::ffff:"@, v4_text(mapped_v4(groups)));
    } else {
        let start = choose|i: int| is_longest_row(groups, i);
        let len = zeros_from(groups, start);
        if len > 1 {
            let head = groups_text(groups.take(start));
            lemma_groups_no_slash(groups.take(start));
            lemma_groups_no_slash(groups.skip(start + len));
            lemma_sum_no_slash(head, "::"@);
            lemma_sum_no_slash(head + "::"@, groups_text(groups.skip(start + len)));
        } else {
            lemma_groups_no_slash(groups);
        }
    }
}

} // verus!
