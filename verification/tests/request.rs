use geolocate_lib::address::IpAddress;
use geolocate_lib::provider::Provider;
use geolocate_lib::request::{build_url, push_query_encoded};

fn encoded(text: &str) -> String {
    let mut out = String::new();
    push_query_encoded(&mut out, text);
    out
}

#[test]
fn ip2location_url_for_a_plain_token() {
    let address = IpAddress::V4([192, 168, 0, 1]);
    assert_eq!(
        build_url(Provider::Ip2Location, &address, "abc"),
        "https://api.ip2location.io/?ip=192.168.0.1&key=abc"
    );
}

#[test]
fn ipgeolocation_url_for_a_plain_token() {
    let address = IpAddress::V4([192, 168, 0, 1]);
    assert_eq!(
        build_url(Provider::IpGeolocation, &address, "abc"),
        "https://api.ipgeolocation.io/ipgeo?apiKey=abc&ip=192.168.0.1"
    );
}

#[test]
fn colons_of_an_address_are_encoded() {
    let address = IpAddress::V6([0x2001, 0xdb8, 0, 0, 0, 0, 0, 1]);
    assert_eq!(
        build_url(Provider::Ip2Location, &address, "k"),
        "https://api.ip2location.io/?ip=2001%3Adb8%3A%3A1&key=k"
    );
    assert_eq!(
        build_url(Provider::IpGeolocation, &address, "k"),
        "https://api.ipgeolocation.io/ipgeo?apiKey=k&ip=2001%3Adb8%3A%3A1"
    );
}

#[test]
fn token_is_encoded() {
    let address = IpAddress::V4([8, 8, 8, 8]);
    assert_eq!(
        build_url(Provider::Ip2Location, &address, "a b&c=d"),
        "https://api.ip2location.io/?ip=8.8.8.8&key=a+b%26c%3Dd"
    );
    assert_eq!(
        build_url(Provider::IpGeolocation, &address, "p#q?r/s%t"),
        "https://api.ipgeolocation.io/ipgeo?apiKey=p%23q%3Fr%2Fs%25t&ip=8.8.8.8"
    );
}

#[test]
fn query_encoding_of_single_characters() {
    assert_eq!(encoded(""), "");
    assert_eq!(encoded("azAZ09"), "azAZ09");
    assert_eq!(encoded("*-._"), "*-._");
    assert_eq!(encoded(" "), "+");
    assert_eq!(encoded("+"), "%2B");
    assert_eq!(encoded("~"), "%7E");
    assert_eq!(encoded("\n"), "%0A");
    assert_eq!(encoded("\u{0}"), "%00");
    assert_eq!(encoded("\u{7f}"), "%7F");
    assert_eq!(encoded("é"), "%C3%A9");
    assert_eq!(encoded("€"), "%E2%82%AC");
    assert_eq!(encoded("𝄞"), "%F0%9D%84%9E");
    assert_eq!(encoded("/@:[]"), "%2F%40%3A%5B%5D");
}

#[test]
fn query_encoding_appends_to_what_is_there() {
    let mut out = String::from("key=");
    push_query_encoded(&mut out, "a b");
    assert_eq!(out, "key=a+b");
}

#[test]
fn query_encoding_agrees_with_the_url_crate() {
    let texts = [
        "",
        "abc",
        "a b&c=d",
        "192.168.0.1",
        "2001:db8::1",
        "::ffff:192.0.2.128",
        "*-._~!'()",
        "é€𝄞",
        "\u{0}\u{1f}\u{7f} \t\r\n",
        "%25+%2B",
        "ABCDEFGHIJKLMNOPQRSTUVWXYZabcdefghijklmnopqrstuvwxyz0123456789",
        "\"#$%&'()*+,-./:;<=>?@[\\]^_`{|}~",
    ];
    for text in texts {
        let theirs: String = url::form_urlencoded::byte_serialize(text.as_bytes()).collect();
        assert_eq!(encoded(text), theirs, "{:?}", text);
    }
}

#[test]
fn urls_agree_with_the_url_crate() {
    let address = IpAddress::V6([0xfe80, 0, 0, 0, 0, 0, 0, 0x1234]);
    let text = address.to_string();
    for key in ["abc", "a b", "k&y=1", "ключ", "a+b/c"] {
        let theirs = url::Url::parse_with_params(
            "https://api.ip2location.io/",
            &[("ip", text.as_str()), ("key", key)],
        )
        .unwrap();
        assert_eq!(build_url(Provider::Ip2Location, &address, key), theirs.as_str());
        let theirs = url::Url::parse_with_params(
            "https://api.ipgeolocation.io/ipgeo",
            &[("apiKey", key), ("ip", text.as_str())],
        )
        .unwrap();
        assert_eq!(build_url(Provider::IpGeolocation, &address, key), theirs.as_str());
    }
}
