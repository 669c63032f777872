//! The request that asks a provider about one IP address.

use crate::address::{address_text, IpAddress, IpAddressModel};
use crate::provider::Provider;
use crate::text::push_char;
use vstd::prelude::*;
use vstd::utf8::encode_utf8;

verus! {

/// The byte stands for itself in a query: a letter or digit of ASCII, or one
/// of `*`, `-`, `.` and `_`.
pub open spec fn is_unreserved(byte: u8) -> bool {
    byte == 42 || byte == 45 || byte == 46 || byte == 95 || 48 <= byte <= 57 || 65 <= byte <= 90
        || 97 <= byte <= 122
}

/// The upper-case hexadecimal digit for a value below sixteen.
pub open spec fn upper_hex_digit(d: nat) -> char {
    if d < 10 {
        ((48 + d) as u8) as char
    } else {
        ((55 + d) as u8) as char
    }
}

/// How one byte is written in a query: an unreserved byte as itself, a
/// space as `+`, any other byte as `%` and its two hexadecimal digits.
pub open spec fn encoded_byte(byte: u8) -> Seq<char> {
    if is_unreserved(byte) {
        seq![byte as char]
    } else if byte == 32 {
        seq!['+']
    } else {
        seq!['%', upper_hex_digit((byte / 16) as nat), upper_hex_digit((byte % 16) as nat)]
    }
}

/// How a sequence of bytes is written in a query.
pub open spec fn encoded_bytes(bytes: Seq<u8>) -> Seq<char>
    decreases bytes.len(),
{
    if bytes.len() == 0 {
        Seq::<char>::empty()
    } else {
        encoded_bytes(bytes.drop_last()) + encoded_byte(bytes.last())
    }
}

/// How a text is written as a name or a value in a query: the bytes of its
/// UTF-8 form, each written as [`encoded_byte`] says.
pub open spec fn query_encoded(text: Seq<char>) -> Seq<char> {
    encoded_bytes(encode_utf8(text))
}

/// The URL that asks `provider` about the address written as `address`,
/// with `api_key` as the credential.
pub open spec fn url_text(provider: Provider, address: Seq<char>, api_key: Seq<char>) -> Seq<
    char,
> {
    match provider {
        Provider::Ip2Location => "https://api.ip2location.io/?ip="@ + query_encoded(address)
            + "&key="@ + query_encoded(api_key),
        Provider::IpGeolocation => "https://api.ipgeolocation.io/ipgeo?apiKey="@ + query_encoded(
            api_key,
        ) + "&ip="@ + query_encoded(address),
    }
}

/// The URL that asks `provider` about `address`: the address stands in it
/// in its canonical textual form.
pub open spec fn request_url(provider: Provider, address: IpAddressModel, api_key: Seq<char>) -> Seq<
    char,
> {
    url_text(provider, address_text(address), api_key)
}

/// A character that may stand in an encoded query: an unreserved byte, `+`
/// or `%`.
pub open spec fn is_query_char(c: char) -> bool {
    c as u32 <= 127 && (is_unreserved(c as u8) || c == '+' || c == '%')
}

/// An encoded text holds nothing but characters that may stand in a query;
/// in particular it holds no `&`, `=`, `#` or space, whatever the text was.
pub proof fn lemma_encoded_is_query_safe(bytes: Seq<u8>)
    ensures
        forall|i: int|
            0 <= i < encoded_bytes(bytes).len() ==> is_query_char(#[trigger] encoded_bytes(bytes)[i]),
    decreases bytes.len(),
{
    if bytes.len() > 0 {
        lemma_encoded_is_query_safe(bytes.drop_last());
        let before = encoded_bytes(bytes.drop_last());
        let last = encoded_byte(bytes.last());
        assert forall|i: int| 0 <= i < last.len() implies is_query_char(#[trigger] last[i]) by {}
        assert forall|i: int| 0 <= i < encoded_bytes(bytes).len() implies is_query_char(
            #[trigger] encoded_bytes(bytes)[i],
        ) by {
            if i < before.len() {
                assert(encoded_bytes(bytes)[i] == before[i]);
            } else {
                assert(encoded_bytes(bytes)[i] == last[i - before.len()]);
            }
        }
    }
}

/// Bytes that are all unreserved are written as themselves.
pub proof fn lemma_unreserved_unchanged(bytes: Seq<u8>)
    requires
        forall|i: int| 0 <= i < bytes.len() ==> is_unreserved(#[trigger] bytes[i]),
    ensures
        encoded_bytes(bytes) == Seq::new(bytes.len(), |i: int| bytes[i] as char),
    decreases bytes.len(),
{
    if bytes.len() > 0 {
        assert forall|i: int| 0 <= i < bytes.drop_last().len() implies is_unreserved(
            #[trigger] bytes.drop_last()[i],
        ) by {
            assert(bytes.drop_last()[i] == bytes[i]);
        }
        lemma_unreserved_unchanged(bytes.drop_last());
        assert(is_unreserved(bytes[bytes.len() - 1]));
        assert(encoded_bytes(bytes) == Seq::new(bytes.len(), |i: int| bytes[i] as char));
    }
}

/// The upper-case hexadecimal digit for a value below sixteen.
fn upper_hex(d: u8) -> (c: char)
    requires
        d < 16,
    ensures
        c == upper_hex_digit(d as nat),
{
    if d < 10 {
        (48 + d) as char
    } else {
        (55 + d) as char
    }
}

/// Appends `text` as it is written in a query.
pub fn push_query_encoded(url: &mut String, text: &str)
    ensures
        final(url)@ == old(url)@ + query_encoded(text@),
{
    let bytes = text.as_bytes();
    let mut i: usize = 0;
    assert(bytes@.take(0) == Seq::<u8>::empty());
    while i < bytes.len()
        invariant
            i <= bytes.len(),
            bytes@ == encode_utf8(text@),
            url@ == old(url)@ + encoded_bytes(bytes@.take(i as int)),
        decreases bytes.len() - i,
    {
        let byte = bytes[i];
        proof {
            let prefix = bytes@.take(i + 1);
            assert(prefix.drop_last() == bytes@.take(i as int));
            assert(prefix.last() == byte);
        }
        if byte == 42 || byte == 45 || byte == 46 || byte == 95 || (48 <= byte && byte <= 57) || (65
            <= byte && byte <= 90) || (97 <= byte && byte <= 122) {
            push_char(url, byte as char);
        } else if byte == 32 {
            push_char(url, '+');
        } else {
            push_char(url, '%');
            push_char(url, upper_hex(byte / 16));
            push_char(url, upper_hex(byte % 16));
        }
        assert(url@ == old(url)@ + encoded_bytes(bytes@.take(i + 1)));
        i += 1;
    }
    assert(bytes@.take(bytes.len() as int) == bytes@);
}

/// Builds the URL of the request that asks `provider` about `address`.
///
/// The address is written in its canonical textual form; address and key
/// are encoded as values of a query.
pub fn build_url(provider: Provider, address: &IpAddress, api_key: &str) -> (url: String)
    ensures
        url@ == request_url(provider, address@, api_key@),
{
    let address_text = address.to_string();
    match provider {
        Provider::Ip2Location => {
            let mut url = "https://api.ip2location.io/?ip=".to_owned();
            push_query_encoded(&mut url, address_text.as_str());
            url.append("&key=");
            push_query_encoded(&mut url, api_key);
            url
        },
        Provider::IpGeolocation => {
            let mut url = "https://api.ipgeolocation.io/ipgeo?apiKey=".to_owned();
            push_query_encoded(&mut url, api_key);
            url.append("&ip=");
            push_query_encoded(&mut url, address_text.as_str());
            url
        },
    }
}

} // verus!
