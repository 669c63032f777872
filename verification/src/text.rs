//! Text as sequences of characters: splitting at a separator and joining
//! pieces back together.

use vstd::prelude::*;

verus! {

/// The pieces of `s` that lie between occurrences of `sep`.
///
/// The result always holds at least one piece: a text without separator is
/// its own single piece, and a separator at either end of the text leaves
/// an empty piece there.
pub open spec fn split(s: Seq<char>, sep: char) -> Seq<Seq<char>>
    decreases s.len(),
{
    if s.len() == 0 {
        seq![Seq::<char>::empty()]
    } else {
        let before = split(s.drop_last(), sep);
        if s.last() == sep {
            before.push(Seq::<char>::empty())
        } else {
            before.drop_last().push(before.last().push(s.last()))
        }
    }
}

/// The pieces written one after the other with `sep` between neighbours.
pub open spec fn join(pieces: Seq<Seq<char>>, sep: char) -> Seq<char>
    decreases pieces.len(),
{
    if pieces.len() == 0 {
        Seq::<char>::empty()
    } else if pieces.len() == 1 {
        pieces[0]
    } else {
        join(pieces.drop_last(), sep).push(sep) + pieces.last()
    }
}

/// No character of `s` is `sep`.
pub open spec fn free_of(s: Seq<char>, sep: char) -> bool {
    forall|i: int| 0 <= i < s.len() ==> s[i] != sep
}

/// The character sequences held by a vector of character vectors.
pub open spec fn piece_views(pieces: Seq<Vec<char>>) -> Seq<Seq<char>> {
    pieces.map_values(|piece: Vec<char>| piece@)
}

/// Splitting never yields an empty list of pieces.
pub proof fn lemma_split_nonempty(s: Seq<char>, sep: char)
    ensures
        split(s, sep).len() >= 1,
    decreases s.len(),
{
    if s.len() > 0 {
        lemma_split_nonempty(s.drop_last(), sep);
    }
}

/// No piece of a split contains the separator.
pub proof fn lemma_split_pieces_free(s: Seq<char>, sep: char)
    ensures
        forall|i: int| 0 <= i < split(s, sep).len() ==> free_of(#[trigger] split(s, sep)[i], sep),
    decreases s.len(),
{
    if s.len() > 0 {
        lemma_split_nonempty(s.drop_last(), sep);
        lemma_split_pieces_free(s.drop_last(), sep);
    }
}

/// Joining the pieces of a split gives the text back.
pub proof fn lemma_join_split(s: Seq<char>, sep: char)
    ensures
        join(split(s, sep), sep) == s,
    decreases s.len(),
{
    if s.len() > 0 {
        let rest = s.drop_last();
        let before = split(rest, sep);
        lemma_split_nonempty(rest, sep);
        lemma_join_split(rest, sep);
        if s.last() == sep {
            let after = before.push(Seq::<char>::empty());
            assert(after.drop_last() == before);
            assert(join(after, sep) == join(before, sep).push(sep) + Seq::<char>::empty());
            assert(join(after, sep) == rest.push(sep));
            assert(rest.push(sep) == s);
        } else {
            let grown = before.last().push(s.last());
            let after = before.drop_last().push(grown);
            assert(after.drop_last() == before.drop_last());
            assert(after.last() == grown);
            if before.len() == 1 {
                assert(join(before, sep) == before[0]);
                assert(join(after, sep) == grown);
                assert(grown == rest.push(s.last()));
            } else {
                assert(join(before, sep) == join(before.drop_last(), sep).push(sep) + before.last());
                assert(join(after, sep) == join(before.drop_last(), sep).push(sep) + grown);
                assert(join(before.drop_last(), sep).push(sep) + grown == (join(
                    before.drop_last(),
                    sep,
                ).push(sep) + before.last()).push(s.last()));
            }
            assert(rest.push(s.last()) == s);
        }
    }
}

/// The pieces of two texts written around one separator are the pieces of
/// the first followed by the pieces of the second.
pub proof fn lemma_split_around(a: Seq<char>, b: Seq<char>, sep: char)
    ensures
        split(a.push(sep) + b, sep) == split(a, sep) + split(b, sep),
    decreases b.len(),
{
    let whole = a.push(sep) + b;
    lemma_split_nonempty(a, sep);
    if b.len() == 0 {
        assert(whole == a.push(sep));
        assert(whole.drop_last() == a);
        assert(split(whole, sep) == split(a, sep).push(Seq::<char>::empty()));
        assert(split(a, sep).push(Seq::<char>::empty()) == split(a, sep) + split(b, sep));
    } else {
        let rest = b.drop_last();
        lemma_split_around(a, rest, sep);
        lemma_split_nonempty(rest, sep);
        assert(whole.drop_last() == a.push(sep) + rest);
        assert(whole.last() == b.last());
        let before = split(a, sep) + split(rest, sep);
        if b.last() == sep {
            assert(before.push(Seq::<char>::empty()) == split(a, sep) + split(rest, sep).push(
                Seq::<char>::empty(),
            ));
        } else {
            assert(before.last() == split(rest, sep).last());
            assert(before.drop_last() == split(a, sep) + split(rest, sep).drop_last());
            assert(before.drop_last().push(before.last().push(b.last())) == split(a, sep) + split(
                rest,
                sep,
            ).drop_last().push(split(rest, sep).last().push(b.last())));
        }
    }
}

/// A text without separator is its own single piece.
pub proof fn lemma_split_free(s: Seq<char>, sep: char)
    requires
        free_of(s, sep),
    ensures
        split(s, sep) == seq![s],
    decreases s.len(),
{
    if s.len() == 0 {
        assert(s == Seq::<char>::empty());
    } else {
        lemma_split_free(s.drop_last(), sep);
        assert(s.drop_last().push(s.last()) == s);
        assert(seq![s.drop_last()].drop_last().push(s) == seq![s]);
    }
}

/// Splitting undoes joining: pieces that hold no separator come back
/// unchanged, provided there is at least one piece.
pub proof fn lemma_split_join(pieces: Seq<Seq<char>>, sep: char)
    requires
        pieces.len() >= 1,
        forall|i: int| 0 <= i < pieces.len() ==> free_of(#[trigger] pieces[i], sep),
    ensures
        split(join(pieces, sep), sep) == pieces,
    decreases pieces.len(),
{
    if pieces.len() == 1 {
        lemma_split_free(pieces[0], sep);
        assert(pieces == seq![pieces[0]]);
    } else {
        let front = pieces.drop_last();
        lemma_split_join(front, sep);
        lemma_split_around(join(front, sep), pieces.last(), sep);
        lemma_split_free(pieces.last(), sep);
        assert(front + seq![pieces.last()] == pieces);
    }
}

/// Appends one character to a string.
///
/// Wraps `String::push`, which appends the given character to the end of
/// the string.
#[verifier::external_body]
pub(crate) fn push_char(s: &mut String, c: char)
    ensures
        final(s)@ == old(s)@.push(c),
{
    s.push(c)
}

/// Collects the characters of a string slice.
pub fn chars_of(s: &str) -> (chars: Vec<char>)
    ensures
        chars@ == s@,
{
    broadcast use vstd::string::axiom_spec_iter;

    let mut chars: Vec<char> = Vec::new();
    let source = s.chars();
    for c in it: source
        invariant
            it.seq() == s@,
            chars@ == it.seq().take(it.index()),
    {
        chars.push(c);
    }
    chars
}

/// Splits the characters at every occurrence of `sep`.
pub fn split_chars(s: &Vec<char>, sep: char) -> (pieces: Vec<Vec<char>>)
    ensures
        piece_views(pieces@) == split(s@, sep),
{
    let mut pieces: Vec<Vec<char>> = Vec::new();
    let mut current: Vec<char> = Vec::new();
    let mut i: usize = 0;
    while i < s.len()
        invariant
            i <= s.len(),
            piece_views(pieces@).push(current@) == split(s@.take(i as int), sep),
        decreases s.len() - i,
    {
        let c = s[i];
        proof {
            let prefix = s@.take(i + 1);
            assert(prefix.drop_last() == s@.take(i as int));
            assert(prefix.last() == c);
        }
        if c == sep {
            let ghost done = pieces@;
            pieces.push(current);
            current = Vec::new();
            assert(piece_views(pieces@) == piece_views(done).push(pieces@.last()@));
        } else {
            let ghost started = current@;
            current.push(c);
            assert(piece_views(pieces@).push(started).drop_last() == piece_views(pieces@));
        }
        i += 1;
    }
    assert(s@.take(s.len() as int) == s@);
    let ghost done = pieces@;
    pieces.push(current);
    assert(piece_views(pieces@) == piece_views(done).push(pieces@.last()@));
    pieces
}

} // verus!
