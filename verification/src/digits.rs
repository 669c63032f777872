//! Decimal and hexadecimal numerals as they occur in the textual form of
//! IP addresses.

use crate::text::push_char;
use vstd::prelude::*;

verus! {

/// `c` is one of `0` to `9`.
pub open spec fn is_decimal_digit(c: char) -> bool {
    48 <= c as u32 <= 57
}

/// `c` is one of `0` to `9`, `a` to `f` or `A` to `F`.
pub open spec fn is_hex_digit(c: char) -> bool {
    is_decimal_digit(c) || 97 <= c as u32 <= 102 || 65 <= c as u32 <= 70
}

/// The number that a hexadecimal digit stands for; for a decimal digit this
/// is also its decimal value.
pub open spec fn digit_value(c: char) -> nat {
    if is_decimal_digit(c) {
        (c as u32 - 48) as nat
    } else if 97 <= c as u32 <= 102 {
        (c as u32 - 87) as nat
    } else {
        (c as u32 - 55) as nat
    }
}

/// Every character of `s` is a decimal digit.
pub open spec fn all_decimal_digits(s: Seq<char>) -> bool {
    forall|i: int| 0 <= i < s.len() ==> is_decimal_digit(#[trigger] s[i])
}

/// Every character of `s` is a hexadecimal digit.
pub open spec fn all_hex_digits(s: Seq<char>) -> bool {
    forall|i: int| 0 <= i < s.len() ==> is_hex_digit(#[trigger] s[i])
}

/// The number written by the digits `s` in the given radix, most
/// significant digit first.
pub open spec fn numeral_value(s: Seq<char>, radix: nat) -> nat
    decreases s.len(),
{
    if s.len() == 0 {
        0
    } else {
        numeral_value(s.drop_last(), radix) * radix + digit_value(s.last())
    }
}

/// The value of one dotted-quad field: one to three decimal digits without
/// a superfluous leading zero, worth at most 255.
pub open spec fn octet_from_text(s: Seq<char>) -> Option<u8> {
    if 1 <= s.len() <= 3 && all_decimal_digits(s) && (s.len() > 1 ==> s[0] != '0')
        && numeral_value(s, 10) <= 255 {
        Some(numeral_value(s, 10) as u8)
    } else {
        None
    }
}

/// The value of one colon-hex group: one to four hexadecimal digits of
/// either case.
pub open spec fn hextet_from_text(s: Seq<char>) -> Option<u16> {
    if 1 <= s.len() <= 4 && all_hex_digits(s) {
        Some(numeral_value(s, 16) as u16)
    } else {
        None
    }
}

/// The lower-case digit character for a value below sixteen.
pub open spec fn digit_char(d: nat) -> char {
    if d < 10 {
        ((48 + d) as u8) as char
    } else {
        ((87 + d) as u8) as char
    }
}

/// The shortest decimal numeral for `n`.
pub open spec fn decimal_numeral(n: nat) -> Seq<char>
    decreases n,
{
    if n < 10 {
        seq![digit_char(n)]
    } else {
        decimal_numeral(n / 10).push(digit_char(n % 10))
    }
}

/// The shortest hexadecimal numeral for `n`, with lower-case digits.
pub open spec fn hex_numeral(n: nat) -> Seq<char>
    decreases n,
{
    if n < 16 {
        seq![digit_char(n)]
    } else {
        hex_numeral(n / 16).push(digit_char(n % 16))
    }
}

/// The decimal numeral of an octet.
pub open spec fn decimal_text(n: u8) -> Seq<char> {
    decimal_numeral(n as nat)
}

/// The lower-case hexadecimal numeral of a 16-bit group.
pub open spec fn hex_text(n: u16) -> Seq<char> {
    hex_numeral(n as nat)
}

/// A hexadecimal numeral of up to four digits fits in sixteen bits.
proof fn lemma_numeral_value_bound(s: Seq<char>)
    requires
        all_hex_digits(s),
        s.len() <= 4,
    ensures
        s.len() == 0 ==> numeral_value(s, 16) == 0,
        s.len() <= 1 ==> numeral_value(s, 16) < 0x10,
        s.len() <= 2 ==> numeral_value(s, 16) < 0x100,
        s.len() <= 3 ==> numeral_value(s, 16) < 0x1000,
        numeral_value(s, 16) < 0x10000,
    decreases s.len(),
{
    if s.len() > 0 {
        lemma_numeral_value_bound(s.drop_last());
        assert(is_hex_digit(s.last()));
    }
}

/// The decimal numeral of an octet reads back as that octet.
pub proof fn lemma_octet_round_trip(n: u8)
    ensures
        octet_from_text(decimal_text(n)) == Some(n),
        1 <= decimal_text(n).len() <= 3,
        all_decimal_digits(decimal_text(n)),
{
    let t = decimal_text(n);
    let v = n as nat;
    reveal_with_fuel(decimal_numeral, 3);
    reveal_with_fuel(numeral_value, 4);
    if v < 10 {
        assert(t == seq![digit_char(v)]);
        assert(t.drop_last() == Seq::<char>::empty());
    } else if v < 100 {
        let hi = seq![digit_char(v / 10)];
        assert(t == hi.push(digit_char(v % 10)));
        assert(t.drop_last() == hi);
        assert(hi.drop_last() == Seq::<char>::empty());
    } else {
        let top = seq![digit_char(v / 10 / 10)];
        let hi = top.push(digit_char(v / 10 % 10));
        assert(t == hi.push(digit_char(v % 10)));
        assert(t.drop_last() == hi);
        assert(hi.drop_last() == top);
        assert(top.drop_last() == Seq::<char>::empty());
    }
}

/// The hexadecimal numeral of a group reads back as that group.
pub proof fn lemma_hextet_round_trip(n: u16)
    ensures
        hextet_from_text(hex_text(n)) == Some(n),
        1 <= hex_text(n).len() <= 4,
        all_hex_digits(hex_text(n)),
{
    let t = hex_text(n);
    let v = n as nat;
    reveal_with_fuel(hex_numeral, 4);
    reveal_with_fuel(numeral_value, 5);
    if v < 0x10 {
        assert(t == seq![digit_char(v)]);
        assert(t.drop_last() == Seq::<char>::empty());
    } else if v < 0x100 {
        let hi = seq![digit_char(v / 16)];
        assert(t == hi.push(digit_char(v % 16)));
        assert(t.drop_last() == hi);
        assert(hi.drop_last() == Seq::<char>::empty());
    } else if v < 0x1000 {
        let top = seq![digit_char(v / 16 / 16)];
        let hi = top.push(digit_char(v / 16 % 16));
        assert(t == hi.push(digit_char(v % 16)));
        assert(t.drop_last() == hi);
        assert(hi.drop_last() == top);
        assert(top.drop_last() == Seq::<char>::empty());
    } else {
        let first = seq![digit_char(v / 16 / 16 / 16)];
        let top = first.push(digit_char(v / 16 / 16 % 16));
        let hi = top.push(digit_char(v / 16 % 16));
        assert(t == hi.push(digit_char(v % 16)));
        assert(t.drop_last() == hi);
        assert(hi.drop_last() == top);
        assert(top.drop_last() == first);
        assert(first.drop_last() == Seq::<char>::empty());
    }
}

/// Reads one dotted-quad field.
pub fn parse_octet(s: &Vec<char>) -> (value: Option<u8>)
    ensures
        value == octet_from_text(s@),
{
    if s.len() < 1 || s.len() > 3 {
        return None;
    }
    let mut total: u32 = 0;
    let mut i: usize = 0;
    while i < s.len()
        invariant
            i <= s.len() <= 3,
            all_decimal_digits(s@.take(i as int)),
            total == numeral_value(s@.take(i as int), 10),
            i == 0 ==> total == 0,
            i <= 1 ==> total < 10,
            i <= 2 ==> total < 100,
            total < 1000,
        decreases s.len() - i,
    {
        let code = s[i] as u32;
        if code < 48 || code > 57 {
            assert(!is_decimal_digit(s@[i as int]));
            return None;
        }
        proof {
            let prefix = s@.take(i + 1);
            assert(prefix.drop_last() == s@.take(i as int));
            assert(prefix.last() == s@[i as int]);
            assert forall|j: int| 0 <= j < prefix.len() implies is_decimal_digit(
                #[trigger] prefix[j],
            ) by {
                if j < i {
                    assert(prefix[j] == s@.take(i as int)[j]);
                }
            }
        }
        total = total * 10 + (code - 48);
        i += 1;
    }
    assert(s@.take(s.len() as int) == s@);
    if s.len() > 1 && s[0] == '0' {
        return None;
    }
    if total > 255 {
        return None;
    }
    Some(total as u8)
}

/// Reads one colon-hex group.
pub fn parse_hextet(s: &Vec<char>) -> (value: Option<u16>)
    ensures
        value == hextet_from_text(s@),
{
    if s.len() < 1 || s.len() > 4 {
        return None;
    }
    let mut total: u32 = 0;
    let mut i: usize = 0;
    while i < s.len()
        invariant
            i <= s.len() <= 4,
            all_hex_digits(s@.take(i as int)),
            total == numeral_value(s@.take(i as int), 16),
            total < 0x10000,
            i <= 3 ==> total < 0x1000,
        decreases s.len() - i,
    {
        let code = s[i] as u32;
        let digit: u32 = if 48 <= code && code <= 57 {
            code - 48
        } else if 97 <= code && code <= 102 {
            code - 87
        } else if 65 <= code && code <= 70 {
            code - 55
        } else {
            assert(!is_hex_digit(s@[i as int]));
            return None;
        };
        proof {
            let prefix = s@.take(i + 1);
            assert(prefix.drop_last() == s@.take(i as int));
            assert(prefix.last() == s@[i as int]);
            assert forall|j: int| 0 <= j < prefix.len() implies is_hex_digit(
                #[trigger] prefix[j],
            ) by {
                if j < i {
                    assert(prefix[j] == s@.take(i as int)[j]);
                }
            }
            lemma_numeral_value_bound(s@.take(i as int));
        }
        total = total * 16 + digit;
        i += 1;
    }
    assert(s@.take(s.len() as int) == s@);
    Some(total as u16)
}

/// Appends the lower-case digit for a value below sixteen.
fn push_digit(s: &mut String, d: u8)
    requires
        d < 16,
    ensures
        final(s)@ == old(s)@.push(digit_char(d as nat)),
{
    let c = if d < 10 {
        (48 + d) as char
    } else {
        (87 + d) as char
    };
    push_char(s, c);
}

/// Appends the decimal numeral of `n`.
pub fn push_decimal(s: &mut String, n: u8)
    ensures
        final(s)@ == old(s)@ + decimal_text(n),
{
    reveal_with_fuel(decimal_numeral, 3);
    if n >= 100 {
        push_digit(s, n / 100);
        assert((n as nat) / 10 / 10 == (n / 100) as nat);
    }
    if n >= 10 {
        push_digit(s, (n / 10) % 10);
    }
    push_digit(s, n % 10);
    assert(final(s)@ == old(s)@ + decimal_text(n));
}

/// Appends the lower-case hexadecimal numeral of `n`.
pub fn push_hex(s: &mut String, n: u16)
    ensures
        final(s)@ == old(s)@ + hex_text(n),
{
    reveal_with_fuel(hex_numeral, 4);
    if n >= 0x1000 {
        push_digit(s, (n / 0x1000) as u8);
        assert((n as nat) / 16 / 16 / 16 == (n / 0x1000) as nat);
    }
    if n >= 0x100 {
        push_digit(s, ((n / 0x100) % 16) as u8);
        assert((n as nat) / 16 / 16 % 16 == ((n / 0x100) % 16) as nat);
    }
    if n >= 0x10 {
        push_digit(s, ((n / 0x10) % 16) as u8);
    }
    push_digit(s, (n % 16) as u8);
    assert(final(s)@ == old(s)@ + hex_text(n));
}

/// Appends the shortest decimal numeral of `n`.
pub fn push_number(s: &mut String, n: usize)
    ensures
        final(s)@ == old(s)@ + decimal_numeral(n as nat),
    decreases n,
{
    if n >= 10 {
        push_number(s, n / 10);
    }
    push_digit(s, (n % 10) as u8);
    assert(final(s)@ == old(s)@ + decimal_numeral(n as nat));
}

} // verus!
