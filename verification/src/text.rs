//! Text as sequences of characters: copying, comparing, splitting and joining.

use vstd::prelude::*;

verus! {

/// `String::push` appends one character to the end of the string.
pub assume_specification[ String::push ](string: &mut String, ch: char)
    ensures
        final(string)@ == old(string)@.push(ch),
;

/// The characters of `s`, in order.
pub fn chars_of(s: &str) -> (chars: Vec<char>)
    ensures
        chars@ == s@,
{
    let mut chars: Vec<char> = Vec::new();
    for c in it: s.chars()
        invariant
            it.seq() == s@,
            chars@ == s@.take(it.index() as int),
    {
        chars.push(c);
    }
    assert(s@.take(s@.len() as int) == s@);
    chars
}

/// The string made of `chars`.
pub fn string_of(chars: &[char]) -> (s: String)
    ensures
        s@ == chars@,
{
    let mut s = String::new();
    let mut i: usize = 0;
    while i < chars.len()
        invariant
            i <= chars.len(),
            s@ == chars@.take(i as int),
        decreases chars.len() - i,
    {
        s.push(chars[i]);
        i = i + 1;
    }
    assert(chars@.take(chars.len() as int) == chars@);
    s
}

/// Whether two runs of characters are the same.
pub fn same_chars(a: &[char], b: &[char]) -> (same: bool)
    ensures
        same == (a@ == b@),
{
    if a.len() != b.len() {
        return false;
    }
    let mut i: usize = 0;
    while i < a.len()
        invariant
            i <= a.len(),
            a.len() == b.len(),
            forall|j: int| 0 <= j < i ==> a[j] == b[j],
        decreases a.len() - i,
    {
        if a[i] != b[i] {
            return false;
        }
        i = i + 1;
    }
    assert(a@ =~= b@);
    true
}

/// Whether two pieces of text are the same.
pub fn same_text(a: &str, b: &str) -> (same: bool)
    ensures
        same == (a@ == b@),
{
    same_chars(chars_of(a).as_slice(), chars_of(b).as_slice())
}

/// The pieces of `s` between occurrences of `sep`: one more than there are
/// occurrences, so that the empty text has one empty piece.
pub open spec fn split(s: Seq<char>, sep: char) -> Seq<Seq<char>>
    decreases s.len(),
{
    if s.len() == 0 {
        seq![Seq::empty()]
    } else {
        let front = split(s.drop_last(), sep);
        if s.last() == sep {
            front.push(Seq::empty())
        } else {
            front.drop_last().push(front.last().push(s.last()))
        }
    }
}

/// The pieces one after the other, with `sep` between neighbours.
pub open spec fn join(pieces: Seq<Seq<char>>, sep: char) -> Seq<char>
    decreases pieces.len(),
{
    if pieces.len() == 0 {
        Seq::empty()
    } else if pieces.len() == 1 {
        pieces[0]
    } else {
        join(pieces.drop_last(), sep).push(sep) + pieces.last()
    }
}

/// The text of each vector of characters.
pub open spec fn texts(pieces: Seq<Vec<char>>) -> Seq<Seq<char>> {
    pieces.map_values(|piece: Vec<char>| piece@)
}

/// The text of each string.
pub open spec fn strings(items: Seq<String>) -> Seq<Seq<char>> {
    items.map_values(|item: String| item@)
}

/// There is always at least one piece.
pub proof fn lemma_split_len(s: Seq<char>, sep: char)
    ensures
        split(s, sep).len() >= 1,
    decreases s.len(),
{
    if s.len() > 0 {
        lemma_split_len(s.drop_last(), sep);
    }
}

/// Text without the separator is its own single piece.
pub proof fn lemma_split_plain(s: Seq<char>, sep: char)
    requires
        !s.contains(sep),
    ensures
        split(s, sep) == seq![s],
    decreases s.len(),
{
    if s.len() == 0 {
        assert(s == Seq::<char>::empty());
    } else {
        assert forall|i: int| 0 <= i < s.drop_last().len() implies s.drop_last()[i] != sep by {
            assert(s.contains(s[i]));
        }
        lemma_split_plain(s.drop_last(), sep);
        assert(s.contains(s.last()));
        assert(s.drop_last().push(s.last()) == s);
        assert(split(s, sep) =~= seq![s]);
    }
}

/// A last piece without the separator splits off as a piece of its own.
pub proof fn lemma_split_last(front: Seq<char>, sep: char, piece: Seq<char>)
    requires
        !piece.contains(sep),
    ensures
        split(front.push(sep) + piece, sep) == split(front, sep).push(piece),
    decreases piece.len(),
{
    lemma_split_len(front, sep);
    let whole = front.push(sep) + piece;
    if piece.len() == 0 {
        assert(whole.drop_last() =~= front);
        assert(piece =~= Seq::<char>::empty());
    } else {
        let rest = piece.drop_last();
        assert forall|i: int| 0 <= i < rest.len() implies rest[i] != sep by {
            assert(piece.contains(piece[i]));
        }
        assert(piece.contains(piece.last()));
        lemma_split_last(front, sep, rest);
        assert(whole.drop_last() =~= front.push(sep) + rest);
        assert(rest.push(piece.last()) =~= piece);
        assert(split(front, sep).push(rest).drop_last() =~= split(front, sep));
    }
}

/// Splitting undoes joining, for pieces that do not hold the separator.
pub proof fn lemma_split_join(pieces: Seq<Seq<char>>, sep: char)
    requires
        pieces.len() >= 1,
        forall|i: int| 0 <= i < pieces.len() ==> !(#[trigger] pieces[i]).contains(sep),
    ensures
        split(join(pieces, sep), sep) == pieces,
    decreases pieces.len(),
{
    if pieces.len() == 1 {
        lemma_split_plain(pieces[0], sep);
        assert(seq![pieces[0]] =~= pieces);
    } else {
        assert forall|i: int| 0 <= i < pieces.drop_last().len() implies !(
        #[trigger] pieces.drop_last()[i]).contains(sep) by {
            assert(pieces.drop_last()[i] == pieces[i]);
        }
        lemma_split_join(pieces.drop_last(), sep);
        lemma_split_last(join(pieces.drop_last(), sep), sep, pieces.last());
        assert(pieces.drop_last().push(pieces.last()) =~= pieces);
    }
}

/// A character that neither the pieces hold nor separates them is not in the joined text.
pub proof fn lemma_join_lacks(pieces: Seq<Seq<char>>, sep: char, c: char)
    requires
        c != sep,
        forall|i: int| 0 <= i < pieces.len() ==> !(#[trigger] pieces[i]).contains(c),
    ensures
        !join(pieces, sep).contains(c),
    decreases pieces.len(),
{
    if pieces.len() > 1 {
        let front = pieces.drop_last();
        assert forall|i: int| 0 <= i < front.len() implies !(#[trigger] front[i]).contains(c) by {
            assert(front[i] == pieces[i]);
        }
        lemma_join_lacks(front, sep, c);
        let s = join(pieces, sep);
        let t = join(front, sep);
        let last = pieces.last();
        if s.contains(c) {
            let i = choose|i: int| 0 <= i < s.len() && s[i] == c;
            if i < t.len() {
                assert(t.contains(t[i]));
            } else if i > t.len() {
                assert(last.contains(last[i - t.len() - 1]));
            }
        }
    }
}

/// Joining undoes splitting.
pub proof fn lemma_join_split(s: Seq<char>, sep: char)
    ensures
        join(split(s, sep), sep) == s,
    decreases s.len(),
{
    lemma_split_len(s, sep);
    if s.len() > 0 {
        let front = split(s.drop_last(), sep);
        lemma_join_split(s.drop_last(), sep);
        lemma_split_len(s.drop_last(), sep);
        let pieces = split(s, sep);
        if s.last() == sep {
            assert(pieces.drop_last() =~= front);
            assert(join(pieces, sep) =~= s.drop_last().push(sep));
            assert(join(pieces, sep) =~= s);
        } else {
            assert(pieces.drop_last() =~= front.drop_last());
            assert(join(pieces, sep) =~= s.drop_last().push(s.last()));
            assert(join(pieces, sep) =~= s);
        }
    }
}

/// The pieces of `chars` between occurrences of `sep`.
pub fn split_chars(chars: &[char], sep: char) -> (pieces: Vec<Vec<char>>)
    ensures
        texts(pieces@) == split(chars@, sep),
        pieces.len() >= 1,
{
    let mut done: Vec<Vec<char>> = Vec::new();
    let mut piece: Vec<char> = Vec::new();
    let mut i: usize = 0;
    while i < chars.len()
        invariant
            i <= chars.len(),
            texts(done@).push(piece@) == split(chars@.take(i as int), sep),
        decreases chars.len() - i,
    {
        let c = chars[i];
        proof {
            assert(chars@.take(i + 1).drop_last() =~= chars@.take(i as int));
            assert(chars@.take(i + 1).last() == c);
            assert(texts(done@).push(piece@).drop_last() =~= texts(done@));
        }
        if c == sep {
            let ghost before = done@;
            let ghost last = piece;
            done.push(piece);
            piece = Vec::new();
            assert(texts(done@) =~= texts(before).push(last@));
            assert(piece@ =~= Seq::<char>::empty());
        } else {
            piece.push(c);
        }
        i = i + 1;
    }
    let ghost before = done@;
    let ghost last = piece;
    done.push(piece);
    proof {
        assert(texts(done@) =~= texts(before).push(last@));
        assert(chars@.take(chars.len() as int) =~= chars@);
    }
    done
}

/// Copies of some strings.
pub fn copy_strings(items: &Vec<String>) -> (copy: Vec<String>)
    ensures
        strings(copy@) == strings(items@),
{
    let mut copy: Vec<String> = Vec::new();
    let mut i: usize = 0;
    while i < items.len()
        invariant
            i <= items.len(),
            copy.len() == i,
            forall|j: int| 0 <= j < i ==> copy[j] == items[j],
        decreases items.len() - i,
    {
        copy.push(items[i].clone());
        i = i + 1;
    }
    assert(strings(copy@) =~= strings(items@));
    copy
}

} // verus!
