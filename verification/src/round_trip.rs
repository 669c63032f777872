//! Reading the canonical text of an address gives the address back.

use crate::address::{
    address_from_text, address_text, closing_groups_from_texts, decimal_texts, embedded_groups,
    embedded_octets, ends_with_gap, groups_from_fields, groups_from_texts, hex_texts,
    inner_fields, ipv4_from_text, ipv4_text, ipv6_from_text, ipv6_text, is_ipv4_mapped,
    lemma_first_empty_unique, longest_zero_run, octets_from_texts, starts_with_gap, zero_groups,
    zero_run_before, IpAddress, IpAddressModel,
};
use crate::digits::{
    decimal_text, hex_numeral, hex_text, hextet_from_text, is_decimal_digit, is_hex_digit,
    lemma_hextet_round_trip, lemma_octet_round_trip, octet_from_text,
};
use crate::text::{
    free_of, join, lemma_join_split, lemma_split_around, lemma_split_free, lemma_split_join, split,
};
use vstd::prelude::*;

verus! {

/// A text joined from pieces holds no character that is neither the
/// separator nor in one of the pieces.
proof fn lemma_join_free(pieces: Seq<Seq<char>>, sep: char, c: char)
    requires
        c != sep,
        forall|i: int| 0 <= i < pieces.len() ==> free_of(#[trigger] pieces[i], c),
    ensures
        free_of(join(pieces, sep), c),
    decreases pieces.len(),
{
    if pieces.len() >= 2 {
        lemma_join_free(pieces.drop_last(), sep, c);
        assert(free_of(pieces.last(), c));
        assert(pieces.last() == pieces[pieces.len() - 1]);
    } else if pieces.len() == 1 {
        assert(free_of(pieces[0], c));
    }
}

/// A text joined from two or more pieces holds the separator.
proof fn lemma_join_holds_separator(pieces: Seq<Seq<char>>, sep: char)
    requires
        pieces.len() >= 2,
    ensures
        exists|i: int| 0 <= i < join(pieces, sep).len() && join(pieces, sep)[i] == sep,
{
    let front = join(pieces.drop_last(), sep);
    let text = join(pieces, sep);
    assert(text == front.push(sep) + pieces.last());
    assert(text[front.len() as int] == sep);
}

/// The decimal numerals of octets are free of dots and colons.
proof fn lemma_decimal_texts(octets: Seq<u8>)
    ensures
        forall|i: int|
            0 <= i < octets.len() ==> free_of(#[trigger] decimal_texts(octets)[i], '.'),
        forall|i: int|
            0 <= i < octets.len() ==> free_of(#[trigger] decimal_texts(octets)[i], ':'),
        forall|i: int|
            0 <= i < octets.len() ==> octet_from_text(#[trigger] decimal_texts(octets)[i]) == Some(
                octets[i],
            ),
{
    assert forall|i: int| 0 <= i < octets.len() implies free_of(
        #[trigger] decimal_texts(octets)[i],
        '.',
    ) && free_of(decimal_texts(octets)[i], ':') && octet_from_text(decimal_texts(octets)[i])
        == Some(octets[i]) by {
        lemma_octet_round_trip(octets[i]);
        let t = decimal_text(octets[i]);
        assert forall|k: int| 0 <= k < t.len() implies t[k] != '.' && t[k] != ':' by {
            assert(is_decimal_digit(t[k]));
        }
    }
}

/// The hexadecimal numerals of groups are not empty, free of dots and
/// colons, and read back as the groups.
proof fn lemma_hex_texts(groups: Seq<u16>)
    ensures
        forall|i: int| 0 <= i < groups.len() ==> (#[trigger] hex_texts(groups)[i]).len() > 0,
        forall|i: int| 0 <= i < groups.len() ==> free_of(#[trigger] hex_texts(groups)[i], '.'),
        forall|i: int| 0 <= i < groups.len() ==> free_of(#[trigger] hex_texts(groups)[i], ':'),
        forall|i: int|
            0 <= i < groups.len() ==> hextet_from_text(#[trigger] hex_texts(groups)[i]) == Some(
                groups[i],
            ),
{
    assert forall|i: int| 0 <= i < groups.len() implies (#[trigger] hex_texts(groups)[i]).len() > 0
        && free_of(hex_texts(groups)[i], '.') && free_of(hex_texts(groups)[i], ':')
        && hextet_from_text(hex_texts(groups)[i]) == Some(groups[i]) by {
        lemma_hextet_round_trip(groups[i]);
        let t = hex_text(groups[i]);
        assert forall|k: int| 0 <= k < t.len() implies t[k] != '.' && t[k] != ':' by {
            assert(is_hex_digit(t[k]));
        }
    }
}

/// Hexadecimal numerals read back as their groups, also where the fields
/// close an address.
proof fn lemma_hex_texts_read_back(groups: Seq<u16>)
    ensures
        groups_from_texts(hex_texts(groups)) == Some(groups),
        closing_groups_from_texts(hex_texts(groups)) == Some(groups),
{
    lemma_hex_texts(groups);
    let texts = hex_texts(groups);
    assert(Seq::new(texts.len(), |i: int| hextet_from_text(texts[i]).unwrap()) == groups);
    if texts.len() >= 1 {
        let last = texts.last();
        assert(last == texts[texts.len() - 1]);
        lemma_split_free(last, '.');
        assert(ipv4_from_text(last) is None);
    }
}

/// The dotted-quad text of four octets reads back as those octets.
pub proof fn lemma_ipv4_round_trip(octets: Seq<u8>)
    requires
        octets.len() == 4,
    ensures
        ipv4_from_text(ipv4_text(octets)) == Some(octets),
        free_of(ipv4_text(octets), ':'),
        ipv4_text(octets).len() > 0,
{
    let texts = decimal_texts(octets);
    lemma_decimal_texts(octets);
    lemma_split_join(texts, '.');
    assert(Seq::new(texts.len(), |i: int| octet_from_text(texts[i]).unwrap()) == octets);
    lemma_join_free(texts, '.', ':');
    lemma_join_holds_separator(texts, '.');
}

/// A text that holds a colon is no dotted quad.
proof fn lemma_colon_excludes_ipv4(s: Seq<char>, at: int)
    requires
        0 <= at < s.len(),
        s[at] == ':',
    ensures
        ipv4_from_text(s) is None,
{
    let parts = split(s, '.');
    if octets_from_texts(parts) is Some {
        assert forall|i: int| 0 <= i < parts.len() implies free_of(#[trigger] parts[i], ':') by {
            assert(octet_from_text(parts[i]) is Some);
            assert forall|k: int| 0 <= k < parts[i].len() implies parts[i][k] != ':' by {
                assert(is_decimal_digit(parts[i][k]));
            }
        }
        lemma_join_free(parts, '.', ':');
        lemma_join_split(s, '.');
        assert(false);
    }
}

/// What [`zero_run_before`] counts: that many zero groups right before `i`.
proof fn lemma_zero_run_before(groups: Seq<u16>, i: int)
    requires
        0 <= i <= groups.len(),
    ensures
        0 <= zero_run_before(groups, i) <= i,
        forall|j: int| i - zero_run_before(groups, i) <= j < i ==> groups[j] == 0,
    decreases i,
{
    if i > 0 {
        lemma_zero_run_before(groups, i - 1);
    }
}

/// What [`longest_zero_run`] finds: a run of zero groups within the first
/// `i` groups.
proof fn lemma_longest_zero_run(groups: Seq<u16>, i: int)
    requires
        0 <= i <= groups.len(),
    ensures
        0 <= longest_zero_run(groups, i).0,
        0 <= longest_zero_run(groups, i).1,
        longest_zero_run(groups, i).0 + longest_zero_run(groups, i).1 <= i,
        forall|j: int|
            longest_zero_run(groups, i).0 <= j < longest_zero_run(groups, i).0 + longest_zero_run(
                groups,
                i,
            ).1 ==> groups[j] == 0,
    decreases i,
{
    if i > 0 {
        lemma_longest_zero_run(groups, i - 1);
        lemma_zero_run_before(groups, i);
    }
}

/// Fields that write groups around one empty field are read as those
/// groups with zero groups between them.
proof fn lemma_fields_around_gap(
    head_texts: Seq<Seq<char>>,
    tail_texts: Seq<Seq<char>>,
    head: Seq<u16>,
    tail: Seq<u16>,
)
    requires
        head_texts.len() == head.len(),
        forall|i: int| 0 <= i < head_texts.len() ==> (#[trigger] head_texts[i]).len() > 0,
        groups_from_texts(head_texts) == Some(head),
        closing_groups_from_texts(tail_texts) == Some(tail),
        head.len() + tail.len() <= 7,
    ensures
        groups_from_fields(
            head_texts + seq![Seq::<char>::empty()] + tail_texts,
            head_texts.len() == 0,
            tail_texts.len() == 0,
        ) == Some(head + zero_groups(8 - head.len() - tail.len()) + tail),
{
    let body = head_texts + seq![Seq::<char>::empty()] + tail_texts;
    let gap = head_texts.len() as int;
    assert forall|j: int| 0 <= j < gap implies (#[trigger] body[j]).len() > 0 by {
        assert(body[j] == head_texts[j]);
    }
    assert(body[gap].len() == 0);
    lemma_first_empty_unique(body, gap);
    assert(body.take(gap) == head_texts);
    assert(body.skip(gap + 1) == tail_texts);
}

/// The text of a mapped version 4 address is cut into two empty fields,
/// `ffff` and the dotted quad.
proof fn lemma_mapped_fields(quad: Seq<char>)
    requires
        free_of(quad, ':'),
    ensures
        split(seq![':', ':', 'f', 'f', 'f', 'f', ':'] + quad, ':') == seq![
            Seq::<char>::empty(),
            Seq::<char>::empty(),
            seq!['f', 'f', 'f', 'f'],
            quad,
        ],
{
    let empty = Seq::<char>::empty();
    let ffff = seq!['f', 'f', 'f', 'f'];
    let text = seq![':', ':', 'f', 'f', 'f', 'f', ':'] + quad;
    assert(text == seq![':', ':', 'f', 'f', 'f', 'f'].push(':') + quad);
    lemma_split_around(seq![':', ':', 'f', 'f', 'f', 'f'], quad, ':');
    lemma_split_free(quad, ':');
    assert(seq![':', ':', 'f', 'f', 'f', 'f'] == seq![':'].push(':') + ffff);
    lemma_split_around(seq![':'], ffff, ':');
    lemma_split_free(ffff, ':');
    assert(seq![':'] == empty.push(':') + empty);
    lemma_split_around(empty, empty, ':');
    assert(split(empty, ':') == seq![empty]);
    assert(split(seq![':'], ':') == seq![empty, empty]);
    assert(split(seq![':', ':', 'f', 'f', 'f', 'f'], ':') == seq![empty, empty, ffff]);
}

/// The fields `ffff` and a dotted quad are read as the group `ffff` and the
/// two groups of the quad.
proof fn lemma_mapped_closing(octets: Seq<u8>)
    requires
        octets.len() == 4,
    ensures
        closing_groups_from_texts(seq![seq!['f', 'f', 'f', 'f'], ipv4_text(octets)]) == Some(
            seq![0xffffu16] + embedded_groups(octets),
        ),
{
    let ffff = seq!['f', 'f', 'f', 'f'];
    let quad = ipv4_text(octets);
    let closing = seq![ffff, quad];
    lemma_ipv4_round_trip(octets);
    assert(closing.last() == quad);
    assert(closing.drop_last() == seq![ffff]);
    lemma_hextet_round_trip(0xffff);
    assert(ffff == hex_text(0xffff)) by {
        reveal_with_fuel(hex_numeral, 4);
    }
    assert(groups_from_texts(seq![ffff]) == Some(seq![0xffffu16])) by {
        assert(hextet_from_text(seq![ffff][0]) == Some(0xffffu16));
        assert(Seq::new(1, |i: int| hextet_from_text(seq![ffff][i]).unwrap()) == seq![0xffffu16]);
    }
}

/// The text of a mapped version 4 address reads back as its groups.
proof fn lemma_mapped_round_trip(groups: Seq<u16>)
    requires
        groups.len() == 8,
        is_ipv4_mapped(groups),
    ensures
        ipv6_from_text(ipv6_text(groups)) == Some(groups),
{
    let empty = Seq::<char>::empty();
    let octets = embedded_octets(groups);
    let quad = ipv4_text(octets);
    let ffff = seq!['f', 'f', 'f', 'f'];
    let text = ipv6_text(groups);
    lemma_ipv4_round_trip(octets);
    lemma_mapped_fields(quad);
    let parts = split(text, ':');
    assert(parts == seq![empty, empty, ffff, quad]);
    assert(starts_with_gap(parts));
    assert(!ends_with_gap(parts));
    let body = inner_fields(parts);
    assert(body == Seq::<Seq<char>>::empty() + seq![empty] + seq![ffff, quad]);
    lemma_mapped_closing(octets);
    let tail = seq![0xffffu16] + embedded_groups(octets);
    assert(groups_from_texts(Seq::<Seq<char>>::empty()) == Some(Seq::<u16>::empty()));
    lemma_fields_around_gap(Seq::<Seq<char>>::empty(), seq![ffff, quad], Seq::<u16>::empty(), tail);
    assert(embedded_groups(octets) == seq![groups[6], groups[7]]);
    assert(Seq::<u16>::empty() + zero_groups(8 - 0 - 3) + tail == groups);
}

/// The text of groups written in full reads back as those groups.
proof fn lemma_full_round_trip(groups: Seq<u16>)
    requires
        groups.len() == 8,
    ensures
        ipv6_from_text(join(hex_texts(groups), ':')) == Some(groups),
{
    let texts = hex_texts(groups);
    lemma_hex_texts(groups);
    lemma_hex_texts_read_back(groups);
    lemma_split_join(texts, ':');
    let parts = split(join(texts, ':'), ':');
    assert(parts == texts);
    assert(parts[0].len() > 0);
    assert(parts[7].len() > 0);
    assert(!starts_with_gap(parts));
    assert(!ends_with_gap(parts));
    let body = inner_fields(parts);
    assert(body == texts);
    lemma_first_empty_unique(body, 8);
}

/// The fields of a text that has a double colon between two joined lists of
/// fields, neither of which holds an empty field.
proof fn lemma_split_around_gap(head: Seq<Seq<char>>, tail: Seq<Seq<char>>)
    requires
        forall|i: int| 0 <= i < head.len() ==> free_of(#[trigger] head[i], ':'),
        forall|i: int| 0 <= i < tail.len() ==> free_of(#[trigger] tail[i], ':'),
    ensures
        ({
            let empty = Seq::<char>::empty();
            let parts = split(join(head, ':') + seq![':', ':'] + join(tail, ':'), ':');
            let first = if head.len() == 0 {
                seq![empty]
            } else {
                head
            };
            let second = if tail.len() == 0 {
                seq![empty]
            } else {
                tail
            };
            parts == first + seq![empty] + second
        }),
{
    let empty = Seq::<char>::empty();
    let before = join(head, ':');
    let after = join(tail, ':');
    let text = before + seq![':', ':'] + after;
    assert(text == before.push(':') + (empty.push(':') + after));
    lemma_split_around(before, empty.push(':') + after, ':');
    lemma_split_around(empty, after, ':');
    assert(split(empty, ':') == seq![empty]);
    if head.len() > 0 {
        lemma_split_join(head, ':');
    }
    if tail.len() > 0 {
        lemma_split_join(tail, ':');
    }
    assert(split(text, ':') == split(before, ':') + (seq![empty] + split(after, ':')));
    assert(split(before, ':') + (seq![empty] + split(after, ':')) == split(before, ':')
        + seq![empty] + split(after, ':'));
}

/// The inner fields of a text that has a double colon between two joined
/// lists of fields, none of which is empty.
proof fn lemma_inner_fields_around_gap(head: Seq<Seq<char>>, tail: Seq<Seq<char>>)
    requires
        forall|i: int| 0 <= i < head.len() ==> free_of(#[trigger] head[i], ':'),
        forall|i: int| 0 <= i < tail.len() ==> free_of(#[trigger] tail[i], ':'),
        forall|i: int| 0 <= i < head.len() ==> (#[trigger] head[i]).len() > 0,
        forall|i: int| 0 <= i < tail.len() ==> (#[trigger] tail[i]).len() > 0,
    ensures
        ({
            let parts = split(join(head, ':') + seq![':', ':'] + join(tail, ':'), ':');
            &&& starts_with_gap(parts) == (head.len() == 0)
            &&& ends_with_gap(parts) == (tail.len() == 0)
            &&& inner_fields(parts) == head + seq![Seq::<char>::empty()] + tail
        }),
{
    let empty = Seq::<char>::empty();
    let parts = split(join(head, ':') + seq![':', ':'] + join(tail, ':'), ':');
    lemma_split_around_gap(head, tail);
    let first = if head.len() == 0 {
        seq![empty]
    } else {
        head
    };
    let second = if tail.len() == 0 {
        seq![empty]
    } else {
        tail
    };
    assert(parts == first + seq![empty] + second);
    let n = parts.len() as int;
    assert(n == first.len() + 1 + second.len());
    assert(parts[0] == first[0]);
    assert(parts[first.len() as int] == empty);
    assert(parts[n - 1] == second[second.len() - 1]);
    assert(parts[n - 1 - second.len()] == empty);
    if head.len() > 0 {
        assert(parts[0] == head[0]);
    } else {
        assert(parts[1] == empty);
    }
    if tail.len() > 0 {
        assert(parts[n - 1] == tail[tail.len() - 1]);
    } else {
        assert(parts[n - 2] == empty);
    }
    assert(starts_with_gap(parts) == (head.len() == 0));
    assert(ends_with_gap(parts) == (tail.len() == 0));
    assert(inner_fields(parts) == head + seq![empty] + tail);
}

/// The text of groups with a run of zero groups replaced by a double colon
/// reads back as those groups.
proof fn lemma_gap_round_trip(groups: Seq<u16>, start: int, len: int)
    requires
        groups.len() == 8,
        0 <= start,
        2 <= len,
        start + len <= 8,
        forall|j: int| start <= j < start + len ==> groups[j] == 0,
    ensures
        ipv6_from_text(
            join(hex_texts(groups.take(start)), ':') + seq![':', ':'] + join(
                hex_texts(groups.skip(start + len)),
                ':',
            ),
        ) == Some(groups),
{
    let head = groups.take(start);
    let tail = groups.skip(start + len);
    let head_texts = hex_texts(head);
    let tail_texts = hex_texts(tail);
    lemma_hex_texts(head);
    lemma_hex_texts(tail);
    lemma_hex_texts_read_back(head);
    lemma_hex_texts_read_back(tail);
    lemma_inner_fields_around_gap(head_texts, tail_texts);
    lemma_fields_around_gap(head_texts, tail_texts, head, tail);
    assert(head + zero_groups(8 - head.len() - tail.len()) + tail == groups);
}

/// The canonical colon-hex text of eight groups reads back as those groups,
/// and is no dotted quad.
pub proof fn lemma_ipv6_round_trip(groups: Seq<u16>)
    requires
        groups.len() == 8,
    ensures
        ipv6_from_text(ipv6_text(groups)) == Some(groups),
        ipv4_from_text(ipv6_text(groups)) is None,
{
    let text = ipv6_text(groups);
    if is_ipv4_mapped(groups) {
        lemma_mapped_round_trip(groups);
        assert(text[0] == ':');
        lemma_colon_excludes_ipv4(text, 0);
    } else {
        let (start, len) = longest_zero_run(groups, 8);
        lemma_longest_zero_run(groups, 8);
        if len > 1 {
            lemma_gap_round_trip(groups, start, len);
            let before = join(hex_texts(groups.take(start)), ':');
            assert(text[before.len() as int] == ':');
            lemma_colon_excludes_ipv4(text, before.len() as int);
        } else {
            lemma_full_round_trip(groups);
            lemma_join_holds_separator(hex_texts(groups), ':');
            let at = choose|i: int| 0 <= i < text.len() && text[i] == ':';
            lemma_colon_excludes_ipv4(text, at);
        }
    }
}

/// The canonical text of an address reads back as that address.
pub proof fn lemma_text_round_trip(address: IpAddressModel)
    requires
        address.wf(),
    ensures
        address_from_text(address_text(address)) == Some(address),
{
    match address {
        IpAddressModel::V4(octets) => {
            lemma_ipv4_round_trip(octets);
        },
        IpAddressModel::V6(groups) => {
            lemma_ipv6_round_trip(groups);
        },
    }
}

/// An address that was read from a text is well formed.
pub proof fn lemma_read_address_wf(text: Seq<char>)
    requires
        address_from_text(text) is Some,
    ensures
        address_from_text(text).unwrap().wf(),
{
}

/// Every text that reads as an address round-trips: the canonical text of
/// the address it is read as reads as that same address again, however the
/// text spelled it.
pub proof fn lemma_parse_round_trip(text: Seq<char>)
    requires
        address_from_text(text) is Some,
    ensures
        address_from_text(address_text(address_from_text(text).unwrap())) == address_from_text(
            text,
        ),
{
    lemma_read_address_wf(text);
    lemma_text_round_trip(address_from_text(text).unwrap());
}

/// Two addresses with the same canonical text are the same address.
pub proof fn lemma_canonical_text_is_unique(first: IpAddressModel, second: IpAddressModel)
    requires
        first.wf(),
        second.wf(),
        address_text(first) == address_text(second),
    ensures
        first == second,
{
    lemma_text_round_trip(first);
    lemma_text_round_trip(second);
}

/// Every address value is well formed.
pub proof fn lemma_address_wf(address: IpAddress)
    ensures
        address@.wf(),
{
}

} // verus!
