//! IP addresses and their textual forms: dotted-quad for version 4,
//! colon-hex for version 6.

use crate::digits::{
    decimal_text, hex_text, hextet_from_text, octet_from_text, parse_hextet, parse_octet,
    push_decimal, push_hex,
};
use crate::text::{chars_of, join, lemma_split_nonempty, piece_views, push_char, split, split_chars};
use vstd::prelude::*;

verus! {

/// An IP address of either version.
#[derive(Clone, Copy, Debug, PartialEq, Eq, Hash)]
pub enum IpAddress {
    /// The four octets of a version 4 address, most significant first.
    V4([u8; 4]),
    /// The eight 16-bit groups of a version 6 address, most significant
    /// first.
    V6([u16; 8]),
}

/// The mathematical value of an [`IpAddress`].
pub enum IpAddressModel {
    V4(Seq<u8>),
    V6(Seq<u16>),
}

impl IpAddressModel {
    /// A version 4 value has four octets, a version 6 value eight groups.
    pub open spec fn wf(self) -> bool {
        match self {
            IpAddressModel::V4(octets) => octets.len() == 4,
            IpAddressModel::V6(groups) => groups.len() == 8,
        }
    }
}

impl View for IpAddress {
    type V = IpAddressModel;

    open spec fn view(&self) -> IpAddressModel {
        match self {
            IpAddress::V4(octets) => IpAddressModel::V4(octets@),
            IpAddress::V6(groups) => IpAddressModel::V6(groups@),
        }
    }
}

/// The octets written by the given fields, if every field is a valid octet.
pub open spec fn octets_from_texts(parts: Seq<Seq<char>>) -> Option<Seq<u8>> {
    if forall|i: int| 0 <= i < parts.len() ==> (#[trigger] octet_from_text(parts[i])) is Some {
        Some(Seq::new(parts.len(), |i: int| octet_from_text(parts[i]).unwrap()))
    } else {
        None
    }
}

/// The groups written by the given fields, if every field is a valid group.
pub open spec fn groups_from_texts(parts: Seq<Seq<char>>) -> Option<Seq<u16>> {
    if forall|i: int| 0 <= i < parts.len() ==> (#[trigger] hextet_from_text(parts[i])) is Some {
        Some(Seq::new(parts.len(), |i: int| hextet_from_text(parts[i]).unwrap()))
    } else {
        None
    }
}

/// The octets of a dotted-quad text: exactly four fields between dots, each
/// a valid octet.
pub open spec fn ipv4_from_text(s: Seq<char>) -> Option<Seq<u8>> {
    let parts = split(s, '.');
    if parts.len() == 4 {
        octets_from_texts(parts)
    } else {
        None
    }
}

/// The two groups that four embedded octets stand for.
pub open spec fn embedded_groups(octets: Seq<u8>) -> Seq<u16> {
    seq![
        (octets[0] as int * 256 + octets[1] as int) as u16,
        (octets[2] as int * 256 + octets[3] as int) as u16,
    ]
}

/// The groups written by fields that close an address: every field is a
/// group, but the last may be a dotted quad, which stands for two groups.
pub open spec fn closing_groups_from_texts(parts: Seq<Seq<char>>) -> Option<Seq<u16>> {
    if parts.len() >= 1 && ipv4_from_text(parts.last()) is Some {
        match groups_from_texts(parts.drop_last()) {
            Some(groups) => Some(groups + embedded_groups(ipv4_from_text(parts.last()).unwrap())),
            None => None,
        }
    } else {
        groups_from_texts(parts)
    }
}

/// The index of the first empty field, or the number of fields if none is
/// empty.
pub open spec fn first_empty(parts: Seq<Seq<char>>) -> int
    decreases parts.len(),
{
    if parts.len() == 0 {
        0
    } else {
        let before = first_empty(parts.drop_last());
        if before < parts.len() - 1 {
            before
        } else if parts.last().len() == 0 {
            parts.len() - 1
        } else {
            parts.len() as int
        }
    }
}

/// `count` groups of zero.
pub open spec fn zero_groups(count: int) -> Seq<u16> {
    Seq::new(count as nat, |i: int| 0u16)
}

/// The fields start with the two empty fields that a double colon at the
/// start of a text leaves.
pub open spec fn starts_with_gap(parts: Seq<Seq<char>>) -> bool {
    parts.len() >= 2 && parts[0].len() == 0 && parts[1].len() == 0
}

/// The fields end with the two empty fields that a double colon at the end
/// of a text leaves.
pub open spec fn ends_with_gap(parts: Seq<Seq<char>>) -> bool {
    parts.len() >= 2 && parts[parts.len() - 1].len() == 0 && parts[parts.len() - 2].len() == 0
}

/// The fields without the outer one of two empty fields at either end.
pub open spec fn inner_fields(parts: Seq<Seq<char>>) -> Seq<Seq<char>> {
    parts.subrange(
        if starts_with_gap(parts) {
            1
        } else {
            0
        },
        if ends_with_gap(parts) {
            parts.len() - 1
        } else {
            parts.len() as int
        },
    )
}

/// The groups written by the inner fields of a colon-hex text; `lead` and
/// `trail` say whether an empty field was set aside at the start and at the
/// end.
///
/// Without an empty field the fields must write all eight groups. With one,
/// which must not be the first field unless `lead` holds nor the last unless
/// `trail` holds, the fields before it and after it write the first and the
/// last groups, at most seven together, and the groups between them are
/// zero. Only fields that close the address may end in a dotted quad.
pub open spec fn groups_from_fields(body: Seq<Seq<char>>, lead: bool, trail: bool) -> Option<
    Seq<u16>,
> {
    let gap = first_empty(body);
    if gap == body.len() {
        match closing_groups_from_texts(body) {
            Some(groups) => if groups.len() == 8 {
                Some(groups)
            } else {
                None
            },
            None => None,
        }
    } else if (gap == 0 && !lead) || (gap == body.len() - 1 && !trail) {
        None
    } else {
        match (groups_from_texts(body.take(gap)), closing_groups_from_texts(body.skip(gap + 1))) {
            (Some(head), Some(tail)) => if head.len() + tail.len() <= 7 {
                Some(head + zero_groups(8 - head.len() - tail.len()) + tail)
            } else {
                None
            },
            _ => None,
        }
    }
}

/// The groups of a colon-hex text.
///
/// The text is cut at its colons. A double colon shows as one empty field;
/// where it stands at the start or the end of the text, the empty field next
/// to it is set aside. What the remaining fields write is said by
/// [`groups_from_fields`].
pub open spec fn ipv6_from_text(s: Seq<char>) -> Option<Seq<u16>> {
    let parts = split(s, ':');
    groups_from_fields(inner_fields(parts), starts_with_gap(parts), ends_with_gap(parts))
}

/// The address written by a text: a dotted quad, or else colon-hex.
pub open spec fn address_from_text(s: Seq<char>) -> Option<IpAddressModel> {
    match ipv4_from_text(s) {
        Some(octets) => Some(IpAddressModel::V4(octets)),
        None => match ipv6_from_text(s) {
            Some(groups) => Some(IpAddressModel::V6(groups)),
            None => None,
        },
    }
}

/// The decimal numerals of the octets.
pub open spec fn decimal_texts(octets: Seq<u8>) -> Seq<Seq<char>> {
    Seq::new(octets.len(), |i: int| decimal_text(octets[i]))
}

/// The hexadecimal numerals of the groups.
pub open spec fn hex_texts(groups: Seq<u16>) -> Seq<Seq<char>> {
    Seq::new(groups.len(), |i: int| hex_text(groups[i]))
}

/// The dotted-quad text of four octets.
pub open spec fn ipv4_text(octets: Seq<u8>) -> Seq<char> {
    join(decimal_texts(octets), '.')
}

/// The number of zero groups that end just before index `i`.
pub open spec fn zero_run_before(groups: Seq<u16>, i: int) -> int
    decreases i,
{
    if i <= 0 {
        0
    } else if groups[i - 1] == 0 {
        zero_run_before(groups, i - 1) + 1
    } else {
        0
    }
}

/// Start and length of the longest run of zero groups among the first `i`
/// groups; of several longest runs the first.
pub open spec fn longest_zero_run(groups: Seq<u16>, i: int) -> (int, int)
    decreases i,
{
    if i <= 0 {
        (0, 0)
    } else {
        let best = longest_zero_run(groups, i - 1);
        let run = zero_run_before(groups, i);
        if run > best.1 {
            (i - run, run)
        } else {
            best
        }
    }
}

/// The groups are those of a version 4 address mapped into version 6: five
/// zero groups and one of `ffff` before the 32 bits of the address.
pub open spec fn is_ipv4_mapped(groups: Seq<u16>) -> bool {
    groups[0] == 0 && groups[1] == 0 && groups[2] == 0 && groups[3] == 0 && groups[4] == 0
        && groups[5] == 0xffff
}

/// The four octets held by the last two groups.
pub open spec fn embedded_octets(groups: Seq<u16>) -> Seq<u8> {
    seq![
        (groups[6] / 256) as u8,
        (groups[6] % 256) as u8,
        (groups[7] / 256) as u8,
        (groups[7] % 256) as u8,
    ]
}

/// The canonical colon-hex text of eight groups.
///
/// A mapped version 4 address is written as `::ffff:` and its dotted quad.
/// Otherwise the groups are written as their shortest lower-case numerals
/// with colons between them, and the longest run of two or more zero groups,
/// the first of them if several are as long, is replaced by a double colon.
pub open spec fn ipv6_text(groups: Seq<u16>) -> Seq<char> {
    if is_ipv4_mapped(groups) {
        seq![':', ':', 'f', 'f', 'f', 'f', ':'] + ipv4_text(embedded_octets(groups))
    } else {
        let (start, len) = longest_zero_run(groups, 8);
        if len > 1 {
            join(hex_texts(groups.take(start)), ':') + seq![':', ':'] + join(
                hex_texts(groups.skip(start + len)),
                ':',
            )
        } else {
            join(hex_texts(groups), ':')
        }
    }
}

/// The canonical text of an address.
pub open spec fn address_text(address: IpAddressModel) -> Seq<char> {
    match address {
        IpAddressModel::V4(octets) => ipv4_text(octets),
        IpAddressModel::V6(groups) => ipv6_text(groups),
    }
}

/// What [`first_empty`] finds: no field before it is empty, and the field at
/// it is, unless it is the number of fields.
pub proof fn lemma_first_empty(parts: Seq<Seq<char>>)
    ensures
        0 <= first_empty(parts) <= parts.len(),
        forall|j: int| 0 <= j < first_empty(parts) ==> (#[trigger] parts[j]).len() > 0,
        first_empty(parts) < parts.len() ==> parts[first_empty(parts)].len() == 0,
    decreases parts.len(),
{
    if parts.len() > 0 {
        lemma_first_empty(parts.drop_last());
        assert forall|j: int| 0 <= j < first_empty(parts) implies (#[trigger] parts[j]).len()
            > 0 by {
            if j < parts.len() - 1 {
                assert(parts[j] == parts.drop_last()[j]);
            }
        }
    }
}

/// An index before which no field is empty, and at which one is unless it is
/// the number of fields, is the one that [`first_empty`] finds.
pub proof fn lemma_first_empty_unique(parts: Seq<Seq<char>>, k: int)
    requires
        0 <= k <= parts.len(),
        forall|j: int| 0 <= j < k ==> (#[trigger] parts[j]).len() > 0,
        k < parts.len() ==> parts[k].len() == 0,
    ensures
        first_empty(parts) == k,
{
    lemma_first_empty(parts);
    let found = first_empty(parts);
    if found < k {
        assert(parts[found].len() > 0);
    } else if k < found {
        assert(parts[k].len() > 0);
    }
}

/// Reads every field as an octet.
fn parse_octets(parts: &Vec<Vec<char>>) -> (octets: Option<Vec<u8>>)
    ensures
        match octets {
            Some(v) => octets_from_texts(piece_views(parts@)) == Some(v@),
            None => octets_from_texts(piece_views(parts@)) is None,
        },
{
    let ghost texts = piece_views(parts@);
    let mut octets: Vec<u8> = Vec::new();
    let mut i: usize = 0;
    while i < parts.len()
        invariant
            i <= parts.len(),
            texts == piece_views(parts@),
            octets@.len() == i,
            forall|j: int| 0 <= j < i ==> (#[trigger] octet_from_text(texts[j])) == Some(octets@[j]),
        decreases parts.len() - i,
    {
        match parse_octet(&parts[i]) {
            Some(octet) => {
                octets.push(octet);
            },
            None => {
                assert(octet_from_text(texts[i as int]) is None);
                return None;
            },
        }
        i += 1;
    }
    assert(octets@ == Seq::new(texts.len(), |i: int| octet_from_text(texts[i]).unwrap()));
    Some(octets)
}

/// Reads a dotted quad.
pub fn parse_ipv4(s: &Vec<char>) -> (octets: Option<[u8; 4]>)
    ensures
        match octets {
            Some(o) => ipv4_from_text(s@) == Some(o@),
            None => ipv4_from_text(s@) is None,
        },
{
    let parts = split_chars(s, '.');
    if parts.len() != 4 {
        return None;
    }
    match parse_octets(&parts) {
        Some(v) => {
            let octets = [v[0], v[1], v[2], v[3]];
            assert(octets@ == v@);
            Some(octets)
        },
        None => None,
    }
}

/// Reads the fields `from..to` as groups.
fn parse_groups(parts: &Vec<Vec<char>>, from: usize, to: usize) -> (groups: Option<Vec<u16>>)
    requires
        from <= to <= parts.len(),
    ensures
        match groups {
            Some(v) => groups_from_texts(piece_views(parts@).subrange(from as int, to as int))
                == Some(v@),
            None => groups_from_texts(piece_views(parts@).subrange(from as int, to as int))
                is None,
        },
{
    let ghost texts = piece_views(parts@).subrange(from as int, to as int);
    let mut groups: Vec<u16> = Vec::new();
    let mut i: usize = from;
    while i < to
        invariant
            from <= i <= to <= parts.len(),
            texts == piece_views(parts@).subrange(from as int, to as int),
            groups@.len() == i - from,
            forall|j: int|
                0 <= j < i - from ==> (#[trigger] hextet_from_text(texts[j])) == Some(groups@[j]),
        decreases to - i,
    {
        match parse_hextet(&parts[i]) {
            Some(group) => {
                groups.push(group);
            },
            None => {
                assert(hextet_from_text(texts[i - from]) is None);
                return None;
            },
        }
        i += 1;
    }
    assert(groups@ == Seq::new(texts.len(), |i: int| hextet_from_text(texts[i]).unwrap()));
    Some(groups)
}

/// Reads the fields `from..to` as groups that close an address.
fn parse_closing_groups(parts: &Vec<Vec<char>>, from: usize, to: usize) -> (groups: Option<
    Vec<u16>,
>)
    requires
        from <= to <= parts.len(),
    ensures
        match groups {
            Some(v) => closing_groups_from_texts(
                piece_views(parts@).subrange(from as int, to as int),
            ) == Some(v@),
            None => closing_groups_from_texts(
                piece_views(parts@).subrange(from as int, to as int),
            ) is None,
        },
{
    let ghost texts = piece_views(parts@).subrange(from as int, to as int);
    if from < to {
        assert(texts.last() == parts@[to - 1]@);
        assert(texts.drop_last() == piece_views(parts@).subrange(from as int, to - 1));
        match parse_ipv4(&parts[to - 1]) {
            Some(octets) => {
                match parse_groups(parts, from, to - 1) {
                    Some(mut groups) => {
                        let ghost before = groups@;
                        let high: u16 = (octets[0] as u16) * 256 + (octets[1] as u16);
                        let low: u16 = (octets[2] as u16) * 256 + (octets[3] as u16);
                        groups.push(high);
                        groups.push(low);
                        assert(groups@ == before + embedded_groups(octets@));
                        return Some(groups);
                    },
                    None => {
                        return None;
                    },
                }
            },
            None => {},
        }
    }
    parse_groups(parts, from, to)
}

/// The eight groups made of `head`, zero groups and `tail`.
fn assemble_groups(head: &Vec<u16>, tail: &Vec<u16>) -> (groups: [u16; 8])
    requires
        head.len() + tail.len() <= 7,
    ensures
        groups@ == head@ + zero_groups(8 - head@.len() - tail@.len()) + tail@,
{
    let mut groups: [u16; 8] = [0u16; 8];
    let mut i: usize = 0;
    while i < head.len()
        invariant
            i <= head.len(),
            head.len() + tail.len() <= 7,
            forall|j: int| 0 <= j < i ==> groups@[j] == head@[j],
            forall|j: int| i <= j < 8 ==> groups@[j] == 0,
        decreases head.len() - i,
    {
        groups[i] = head[i];
        i += 1;
    }
    let offset: usize = 8 - tail.len();
    let mut k: usize = 0;
    while k < tail.len()
        invariant
            k <= tail.len(),
            head.len() + tail.len() <= 7,
            offset == 8 - tail.len(),
            forall|j: int| 0 <= j < head.len() ==> groups@[j] == head@[j],
            forall|j: int| head.len() <= j < offset ==> groups@[j] == 0,
            forall|j: int| 0 <= j < k ==> groups@[offset + j] == tail@[j],
        decreases tail.len() - k,
    {
        groups[offset + k] = tail[k];
        k += 1;
    }
    assert(groups@ == head@ + zero_groups(8 - head@.len() - tail@.len()) + tail@);
    groups
}

/// Finds the first empty field among the fields `start..end`.
fn find_gap(parts: &Vec<Vec<char>>, start: usize, end: usize) -> (gap: usize)
    requires
        start <= end <= parts.len(),
    ensures
        start <= gap <= end,
        gap - start == first_empty(piece_views(parts@).subrange(start as int, end as int)),
{
    let ghost body = piece_views(parts@).subrange(start as int, end as int);
    let mut gap: usize = start;
    while gap < end && parts[gap].len() != 0
        invariant
            start <= gap <= end <= parts.len(),
            body == piece_views(parts@).subrange(start as int, end as int),
            forall|j: int| 0 <= j < gap - start ==> (#[trigger] body[j]).len() > 0,
        decreases end - gap,
    {
        gap += 1;
    }
    proof {
        lemma_first_empty_unique(body, gap - start);
    }
    gap
}

/// Reads the fields `start..end`, which hold no empty field, as all eight
/// groups.
fn parse_full(parts: &Vec<Vec<char>>, start: usize, end: usize) -> (groups: Option<[u16; 8]>)
    requires
        start <= end <= parts.len(),
    ensures
        ({
            let body = piece_views(parts@).subrange(start as int, end as int);
            match groups {
                Some(g) => closing_groups_from_texts(body) == Some(g@),
                None => match closing_groups_from_texts(body) {
                    Some(found) => found.len() != 8,
                    None => true,
                },
            }
        }),
{
    match parse_closing_groups(parts, start, end) {
        Some(v) => {
            if v.len() == 8 {
                let groups = [v[0], v[1], v[2], v[3], v[4], v[5], v[6], v[7]];
                assert(groups@ == v@);
                Some(groups)
            } else {
                None
            }
        },
        None => None,
    }
}

/// Reads the fields `start..gap` and `gap + 1..end` as the groups around a
/// double colon.
fn parse_around_gap(parts: &Vec<Vec<char>>, start: usize, gap: usize, end: usize) -> (groups:
    Option<[u16; 8]>)
    requires
        start <= gap < end <= parts.len(),
    ensures
        ({
            let texts = piece_views(parts@);
            let head = groups_from_texts(texts.subrange(start as int, gap as int));
            let tail = closing_groups_from_texts(texts.subrange(gap + 1, end as int));
            match groups {
                Some(g) => head is Some && tail is Some && head.unwrap().len() + tail.unwrap().len()
                    <= 7 && g@ == head.unwrap() + zero_groups(
                    8 - head.unwrap().len() - tail.unwrap().len(),
                ) + tail.unwrap(),
                None => !(head is Some && tail is Some && head.unwrap().len() + tail.unwrap().len()
                    <= 7),
            }
        }),
{
    let head = match parse_groups(parts, start, gap) {
        Some(v) => v,
        None => {
            return None;
        },
    };
    let tail = match parse_closing_groups(parts, gap + 1, end) {
        Some(v) => v,
        None => {
            return None;
        },
    };
    if head.len() > 7 || tail.len() > 7 || head.len() + tail.len() > 7 {
        return None;
    }
    Some(assemble_groups(&head, &tail))
}

/// Reads a colon-hex text.
pub fn parse_ipv6(s: &Vec<char>) -> (groups: Option<[u16; 8]>)
    ensures
        match groups {
            Some(g) => ipv6_from_text(s@) == Some(g@),
            None => ipv6_from_text(s@) is None,
        },
{
    let parts = split_chars(s, ':');
    let n = parts.len();
    proof {
        lemma_split_nonempty(s@, ':');
    }
    let ghost texts = piece_views(parts@);
    let lead = n >= 2 && parts[0].len() == 0 && parts[1].len() == 0;
    let trail = n >= 2 && parts[n - 1].len() == 0 && parts[n - 2].len() == 0;
    assert(lead == starts_with_gap(texts));
    assert(trail == ends_with_gap(texts));
    let start: usize = if lead {
        1
    } else {
        0
    };
    let end: usize = if trail {
        n - 1
    } else {
        n
    };
    let ghost body = texts.subrange(start as int, end as int);
    assert(body == inner_fields(texts));
    let gap = find_gap(&parts, start, end);
    if gap == end {
        return parse_full(&parts, start, end);
    }
    if (gap == start && !lead) || (gap == end - 1 && !trail) {
        return None;
    }
    assert(body.take(gap - start) == texts.subrange(start as int, gap as int));
    assert(body.skip(gap - start + 1) == texts.subrange(gap + 1, end as int));
    parse_around_gap(&parts, start, gap, end)
}

/// Appends the dotted-quad text of the octets.
fn push_ipv4(s: &mut String, octets: &[u8; 4])
    ensures
        final(s)@ == old(s)@ + ipv4_text(octets@),
{
    push_decimal(s, octets[0]);
    push_char(s, '.');
    push_decimal(s, octets[1]);
    push_char(s, '.');
    push_decimal(s, octets[2]);
    push_char(s, '.');
    push_decimal(s, octets[3]);
    proof {
        let texts = decimal_texts(octets@);
        let three = texts.drop_last();
        let two = three.drop_last();
        let one = two.drop_last();
        reveal_with_fuel(join, 4);
        assert(join(one, '.') == texts[0]);
        assert(join(two, '.') == join(one, '.').push('.') + texts[1]);
        assert(join(three, '.') == join(two, '.').push('.') + texts[2]);
        assert(join(texts, '.') == join(three, '.').push('.') + texts[3]);
        assert(final(s)@ == old(s)@ + join(texts, '.'));
    }
}

/// Appends the groups `from..to` as numerals with colons between them.
fn push_groups(s: &mut String, groups: &[u16; 8], from: usize, to: usize)
    requires
        from <= to <= 8,
    ensures
        final(s)@ == old(s)@ + join(hex_texts(groups@.subrange(from as int, to as int)), ':'),
{
    let mut i: usize = from;
    assert(hex_texts(groups@.subrange(from as int, from as int)) == Seq::<Seq<char>>::empty());
    while i < to
        invariant
            from <= i <= to <= 8,
            s@ == old(s)@ + join(hex_texts(groups@.subrange(from as int, i as int)), ':'),
        decreases to - i,
    {
        let ghost written = hex_texts(groups@.subrange(from as int, i as int));
        let ghost next = hex_texts(groups@.subrange(from as int, i + 1));
        proof {
            assert(next.drop_last() == written);
            assert(next.last() == hex_text(groups@[i as int]));
        }
        if i > from {
            push_char(s, ':');
        }
        push_hex(s, groups[i]);
        proof {
            if i > from {
                assert(join(next, ':') == join(written, ':').push(':') + next.last());
            } else {
                assert(join(next, ':') == next[0]);
                assert(join(written, ':') == Seq::<char>::empty());
            }
            assert(s@ == old(s)@ + join(next, ':'));
        }
        i += 1;
    }
}

impl IpAddress {
    /// Reads an address from its textual form.
    pub fn parse(s: &str) -> (address: Option<IpAddress>)
        ensures
            match address {
                Some(a) => address_from_text(s@) == Some(a@),
                None => address_from_text(s@) is None,
            },
    {
        let chars = chars_of(s);
        IpAddress::parse_chars(&chars)
    }

    /// Writes the address in its canonical textual form.
    pub fn to_string(&self) -> (text: String)
        ensures
            text@ == address_text(self@),
    {
        let mut text = String::new();
        match self {
            IpAddress::V4(octets) => {
                push_ipv4(&mut text, octets);
            },
            IpAddress::V6(groups) => {
                if groups[0] == 0 && groups[1] == 0 && groups[2] == 0 && groups[3] == 0
                    && groups[4] == 0 && groups[5] == 0xffff {
                    let octets: [u8; 4] = [
                        (groups[6] / 256) as u8,
                        (groups[6] % 256) as u8,
                        (groups[7] / 256) as u8,
                        (groups[7] % 256) as u8,
                    ];
                    assert(octets@ == embedded_octets(groups@));
                    text.append("::ffff:");
                    proof {
                        reveal_strlit("::ffff:");
                        assert("::ffff:"@ == seq![':', ':', 'f', 'f', 'f', 'f', ':']);
                    }
                    push_ipv4(&mut text, &octets);
                } else {
                    let mut start: usize = 0;
                    let mut len: usize = 0;
                    let mut run: usize = 0;
                    let mut i: usize = 0;
                    while i < 8
                        invariant
                            i <= 8,
                            run <= i,
                            len <= i,
                            start + len <= i,
                            run == zero_run_before(groups@, i as int),
                            (start as int, len as int) == longest_zero_run(groups@, i as int),
                        decreases 8 - i,
                    {
                        if groups[i] == 0 {
                            run += 1;
                        } else {
                            run = 0;
                        }
                        i += 1;
                        if run > len {
                            start = i - run;
                            len = run;
                        }
                    }
                    if len > 1 {
                        push_groups(&mut text, groups, 0, start);
                        push_char(&mut text, ':');
                        push_char(&mut text, ':');
                        push_groups(&mut text, groups, start + len, 8);
                        proof {
                            assert(groups@.subrange(0, start as int) == groups@.take(start as int));
                            assert(groups@.subrange(start + len, 8) == groups@.skip(start + len));
                            let head = join(hex_texts(groups@.take(start as int)), ':');
                            let tail = join(hex_texts(groups@.skip(start + len)), ':');
                            assert(text@ == head + seq![':', ':'] + tail);
                        }
                    } else {
                        push_groups(&mut text, groups, 0, 8);
                        assert(groups@.subrange(0, 8) == groups@);
                    }
                }
            },
        }
        text
    }

    /// Reads an address from the characters of its textual form.
    pub fn parse_chars(chars: &Vec<char>) -> (address: Option<IpAddress>)
        ensures
            match address {
                Some(a) => address_from_text(chars@) == Some(a@),
                None => address_from_text(chars@) is None,
            },
    {
        match parse_ipv4(chars) {
            Some(octets) => Some(IpAddress::V4(octets)),
            None => match parse_ipv6(chars) {
                Some(groups) => Some(IpAddress::V6(groups)),
                None => None,
            },
        }
    }
}

} // verus!
