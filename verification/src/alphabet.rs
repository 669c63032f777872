//! What the text of an address is made of: hexadecimal digits, dots and
//! colons.

use crate::address::{
    address_from_text, closing_groups_from_texts, ends_with_gap, first_empty, groups_from_fields,
    groups_from_texts, inner_fields, ipv4_from_text, ipv6_from_text, lemma_first_empty,
    starts_with_gap,
};
use crate::digits::{hextet_from_text, is_decimal_digit, is_hex_digit, octet_from_text};
use crate::text::{free_of, join, lemma_join_split, split};
use vstd::prelude::*;

verus! {

/// `c` may stand in the text of an address: a hexadecimal digit, a dot or
/// a colon.
pub open spec fn is_address_char(c: char) -> bool {
    is_hex_digit(c) || c == '.' || c == ':'
}

/// Every character of `s` may stand in the text of an address.
pub open spec fn address_chars(s: Seq<char>) -> bool {
    forall|i: int| 0 <= i < s.len() ==> is_address_char(#[trigger] s[i])
}

/// Pieces made of address characters, joined by a dot or a colon, give a
/// text made of address characters.
proof fn lemma_join_address_chars(pieces: Seq<Seq<char>>, sep: char)
    requires
        sep == '.' || sep == ':',
        forall|i: int| 0 <= i < pieces.len() ==> address_chars(#[trigger] pieces[i]),
    ensures
        address_chars(join(pieces, sep)),
    decreases pieces.len(),
{
    if pieces.len() >= 2 {
        lemma_join_address_chars(pieces.drop_last(), sep);
        assert(address_chars(pieces[pieces.len() - 1]));
    } else if pieces.len() == 1 {
        assert(address_chars(pieces[0]));
    }
}

/// A dotted quad is made of address characters.
proof fn lemma_ipv4_chars(s: Seq<char>)
    requires
        ipv4_from_text(s) is Some,
    ensures
        address_chars(s),
{
    let parts = split(s, '.');
    assert forall|i: int| 0 <= i < parts.len() implies address_chars(#[trigger] parts[i]) by {
        assert(octet_from_text(parts[i]) is Some);
        assert forall|k: int| 0 <= k < parts[i].len() implies is_address_char(
            #[trigger] parts[i][k],
        ) by {
            assert(is_decimal_digit(parts[i][k]));
        }
    }
    lemma_join_address_chars(parts, '.');
    lemma_join_split(s, '.');
}

/// Fields that are all groups are made of address characters.
proof fn lemma_groups_chars(parts: Seq<Seq<char>>)
    requires
        groups_from_texts(parts) is Some,
    ensures
        forall|i: int| 0 <= i < parts.len() ==> address_chars(#[trigger] parts[i]),
{
    assert forall|i: int| 0 <= i < parts.len() implies address_chars(#[trigger] parts[i]) by {
        assert(hextet_from_text(parts[i]) is Some);
        assert forall|k: int| 0 <= k < parts[i].len() implies is_address_char(
            #[trigger] parts[i][k],
        ) by {
            assert(is_hex_digit(parts[i][k]));
        }
    }
}

/// Fields that close an address are made of address characters.
proof fn lemma_closing_chars(parts: Seq<Seq<char>>)
    requires
        closing_groups_from_texts(parts) is Some,
    ensures
        forall|i: int| 0 <= i < parts.len() ==> address_chars(#[trigger] parts[i]),
{
    if parts.len() >= 1 && ipv4_from_text(parts.last()) is Some {
        lemma_ipv4_chars(parts.last());
        lemma_groups_chars(parts.drop_last());
        assert forall|i: int| 0 <= i < parts.len() implies address_chars(#[trigger] parts[i]) by {
            if i < parts.len() - 1 {
                assert(parts[i] == parts.drop_last()[i]);
            }
        }
    } else {
        lemma_groups_chars(parts);
    }
}

/// The inner fields of a colon-hex text are made of address characters.
proof fn lemma_fields_chars(body: Seq<Seq<char>>, lead: bool, trail: bool)
    requires
        groups_from_fields(body, lead, trail) is Some,
    ensures
        forall|i: int| 0 <= i < body.len() ==> address_chars(#[trigger] body[i]),
{
    let gap = first_empty(body);
    lemma_first_empty(body);
    if gap == body.len() {
        lemma_closing_chars(body);
    } else {
        let head = body.take(gap);
        let tail = body.skip(gap + 1);
        lemma_groups_chars(head);
        lemma_closing_chars(tail);
        assert forall|i: int| 0 <= i < body.len() implies address_chars(#[trigger] body[i]) by {
            if i < gap {
                assert(body[i] == head[i]);
            } else if i > gap {
                assert(body[i] == tail[i - gap - 1]);
            }
        }
    }
}

/// A colon-hex text is made of address characters.
proof fn lemma_ipv6_chars(s: Seq<char>)
    requires
        ipv6_from_text(s) is Some,
    ensures
        address_chars(s),
{
    let parts = split(s, ':');
    let body = inner_fields(parts);
    lemma_fields_chars(body, starts_with_gap(parts), ends_with_gap(parts));
    let from: int = if starts_with_gap(parts) {
        1
    } else {
        0
    };
    assert forall|i: int| 0 <= i < parts.len() implies address_chars(#[trigger] parts[i]) by {
        if from <= i < from + body.len() {
            assert(parts[i] == body[i - from]);
        }
    }
    lemma_join_address_chars(parts, ':');
    lemma_join_split(s, ':');
}

/// A text that reads as an address is made of hexadecimal digits, dots and
/// colons only: it holds no space, no newline and no other character.
pub proof fn lemma_address_chars(s: Seq<char>)
    requires
        address_from_text(s) is Some,
    ensures
        address_chars(s),
        free_of(s, '\n'),
{
    if ipv4_from_text(s) is Some {
        lemma_ipv4_chars(s);
    } else {
        lemma_ipv6_chars(s);
    }
    assert forall|i: int| 0 <= i < s.len() implies s[i] != '\n' by {
        assert(is_address_char(s[i]));
    }
}

} // verus!
