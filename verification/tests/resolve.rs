use geolocate_lib::address::IpAddress;
use geolocate_lib::config::ApiKeyStore;
use geolocate_lib::error::{GeolocationBuildError, InvalidAddressError};
use geolocate_lib::helpers::{
    fetch_from_file, read_ip_addresses_from_file, resolve_file, LookupStep,
};
use geolocate_lib::provider::Provider;

fn invalid_line(line: usize) -> GeolocationBuildError {
    GeolocationBuildError::InvalidIpAddress(InvalidAddressError { line })
}

fn store_with_tokens() -> ApiKeyStore {
    let mut store = ApiKeyStore::new();
    store.set_ip2location_token("abc".to_string());
    store.set_ipgeolocation_token("xyz".to_string());
    store
}

#[test]
fn ip_addrs_are_read_from_file_correctly() {
    let content = "1.1.1.1\n8.8.8.8\n192.168.0.1\n2001:4860:4860::8888\n::1\n";
    let addrs = read_ip_addresses_from_file(content).unwrap();
    assert!(addrs.iter().all(|item| item.is_ok()) == true);
    assert_eq!(addrs.len(), 5);
}

#[test]
fn ip_addr_format_is_wrong() {
    let content = "1.1.1.1\n2.2.2\n3.3.3.3\n";
    let addr = read_ip_addresses_from_file(content).unwrap();
    assert!(addr[1].is_err());
    assert!(
        addr[1].as_ref().unwrap_err().message() == "IP address at line 2 is invalid"
    )
}

#[test]
fn file_with_ip_addrs_doesnt_exist() {
    let read = Err("No such file or directory (os error 2)".to_string());
    let step = fetch_from_file(read, Provider::Ip2Location, &store_with_tokens());
    assert!(step.is_err());
    assert_eq!(
        step,
        Err(GeolocationBuildError::FileNotGood(
            "No such file or directory (os error 2)".to_string()
        ))
    );
    assert_eq!(step.unwrap_err().message(), "File is not good");
}

#[test]
fn valid_lines_are_resolved_in_file_order() {
    let content = "10.0.0.3\n10.0.0.1\n::2\n10.0.0.2";
    assert_eq!(
        resolve_file(content),
        Ok(vec![
            IpAddress::V4([10, 0, 0, 3]),
            IpAddress::V4([10, 0, 0, 1]),
            IpAddress::V6([0, 0, 0, 0, 0, 0, 0, 2]),
            IpAddress::V4([10, 0, 0, 2]),
        ])
    );
}

#[test]
fn a_trailing_newline_makes_no_difference() {
    assert_eq!(resolve_file("1.1.1.1\n2.2.2.2\n"), resolve_file("1.1.1.1\n2.2.2.2"));
    assert_eq!(
        resolve_file("1.1.1.1\n2.2.2.2\n"),
        Ok(vec![IpAddress::V4([1, 1, 1, 1]), IpAddress::V4([2, 2, 2, 2])])
    );
}

#[test]
fn invalid_line_is_cited_by_its_number() {
    assert_eq!(
        resolve_file("1.1.1.1\n2.2.2.2\nnotanip\n"),
        Err(invalid_line(3))
    );
    assert_eq!(
        resolve_file("1.1.1.1\n2.2.2.2\nnotanip\n").unwrap_err().message(),
        "IP address at line 3 is invalid"
    );
}

#[test]
fn first_invalid_line_is_cited_whatever_follows() {
    for rest in ["", "3.3.3.3\n", "also bad\n", "3.3.3.3\nbad again\n4.4.4.4\n"] {
        let content = format!("1.1.1.1\nbad\n{}", rest);
        assert_eq!(resolve_file(&content), Err(invalid_line(2)), "{:?}", rest);
    }
    assert_eq!(resolve_file("x\n1.1.1.1\n"), Err(invalid_line(1)));
}

#[test]
fn empty_lines_are_skipped_and_still_counted() {
    assert_eq!(
        resolve_file("1.1.1.1\n\n2.2.2.2\n\n"),
        Ok(vec![IpAddress::V4([1, 1, 1, 1]), IpAddress::V4([2, 2, 2, 2])])
    );
    assert_eq!(resolve_file("1.1.1.1\n\n\nbad\n"), Err(invalid_line(4)));
    let readings = read_ip_addresses_from_file("\n1.1.1.1\n\nbad\n");
    assert_eq!(
        readings,
        Ok(vec![Ok(IpAddress::V4([1, 1, 1, 1])), Err(InvalidAddressError { line: 4 })])
    );
}

#[test]
fn a_file_without_addresses_is_refused() {
    for content in ["", "\n", "\n\n\n"] {
        assert_eq!(
            resolve_file(content),
            Err(GeolocationBuildError::NoIpAddressProvidedError),
            "{:?}",
            content
        );
        assert_eq!(
            read_ip_addresses_from_file(content),
            Err(GeolocationBuildError::NoIpAddressProvidedError),
            "{:?}",
            content
        );
        // The file is refused whether or not there is a token.
        assert_eq!(
            fetch_from_file(Ok(content.to_string()), Provider::Ip2Location, &ApiKeyStore::new()),
            Err(GeolocationBuildError::NoIpAddressProvidedError),
            "{:?}",
            content
        );
    }
    assert_eq!(
        resolve_file("").unwrap_err().message(),
        "Must provide at least one IP address"
    );
}

#[test]
fn lines_are_not_trimmed() {
    assert_eq!(resolve_file("1.1.1.1\r\n2.2.2.2\r\n"), Err(invalid_line(1)));
    assert_eq!(resolve_file("1.1.1.1\n 2.2.2.2\n"), Err(invalid_line(2)));
    assert_eq!(resolve_file("1.1.1.1\n2.2.2.2 \n"), Err(invalid_line(2)));
}

#[test]
fn every_line_gets_its_own_reading() {
    let readings = read_ip_addresses_from_file("1.1.1.1\nbad\n::1\nworse");
    assert_eq!(
        readings,
        Ok(vec![
            Ok(IpAddress::V4([1, 1, 1, 1])),
            Err(InvalidAddressError { line: 2 }),
            Ok(IpAddress::V6([0, 0, 0, 0, 0, 0, 0, 1])),
            Err(InvalidAddressError { line: 4 }),
        ])
    );
}

#[test]
fn file_lookup_plans_one_request_per_line() {
    let step = fetch_from_file(
        Ok("1.1.1.1\n2.2.2.2\n".to_string()),
        Provider::Ip2Location,
        &store_with_tokens(),
    );
    match step {
        Ok(LookupStep::Fetch(plan)) => assert_eq!(
            plan.into_urls(),
            vec![
                "https://api.ip2location.io/?ip=1.1.1.1&key=abc".to_string(),
                "https://api.ip2location.io/?ip=2.2.2.2&key=abc".to_string(),
            ]
        ),
        other => panic!("{:?}", other),
    }
}

#[test]
fn file_lookup_fails_on_invalid_line_before_the_token_is_looked_up() {
    let step = fetch_from_file(
        Ok("1.1.1.1\n2.2.2.2\nnotanip\n".to_string()),
        Provider::Ip2Location,
        &ApiKeyStore::new(),
    );
    assert_eq!(
        step,
        Err(GeolocationBuildError::InvalidIpAddress(InvalidAddressError { line: 3 }))
    );
}

#[test]
fn file_lookup_without_addresses_fails() {
    let step = fetch_from_file(Ok("\n".to_string()), Provider::Ip2Location, &store_with_tokens());
    assert_eq!(step, Err(GeolocationBuildError::NoIpAddressProvidedError));
    assert_eq!(step.unwrap_err().message(), "Must provide at least one IP address");
}
