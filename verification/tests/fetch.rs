use geolocate_lib::address::IpAddress;
use geolocate_lib::config::ApiKeyStore;
use geolocate_lib::error::{FetchError, GeolocationBuildError, MissingTokenError, TokenWording};
use geolocate_lib::gather::gather;
use geolocate_lib::geolocation::{FetchPlan, Geolocation};
use geolocate_lib::helpers::{fetch_from_provider, fetch_many, plan_lookup, LookupStep};
use geolocate_lib::parser::{Ip2LocationArguments, IpGeolocationArguments};
use geolocate_lib::provider::Provider;

fn store_with_tokens() -> ApiKeyStore {
    let mut store = ApiKeyStore::new();
    store.set_ip2location_token("abc".to_string());
    store.set_ipgeolocation_token("xyz".to_string());
    store
}

/// Stands for a provider: answers every request with a body that names
/// the URL, but fails for URLs that hold `fail`.
fn stub(url: &str) -> Result<String, FetchError> {
    if url.contains("fail") {
        Err(FetchError::Transport(format!("connection refused: {}", url)))
    } else {
        Ok(format!("{{\"url\":\"{}\"}}", url))
    }
}

fn send_all(plan: FetchPlan) -> Vec<Result<String, FetchError>> {
    plan.into_urls().iter().map(|url| stub(url)).collect()
}

#[test]
fn single_address_is_fetched_on_its_own() {
    let geolocation = Geolocation::new(vec![IpAddress::V4([1, 1, 1, 1])], "abc".to_string());
    let plan = geolocation.fetch(Provider::Ip2Location);
    assert_eq!(
        plan,
        FetchPlan::Single("https://api.ip2location.io/?ip=1.1.1.1&key=abc".to_string())
    );
    assert_eq!(
        fetch_many(send_all(plan)),
        Ok(vec!["{\"url\":\"https://api.ip2location.io/?ip=1.1.1.1&key=abc\"}".to_string()])
    );
}

#[test]
fn many_addresses_are_fetched_together_in_their_order() {
    let geolocation = Geolocation::new(
        vec![
            IpAddress::V4([3, 3, 3, 3]),
            IpAddress::V4([1, 1, 1, 1]),
            IpAddress::V6([0, 0, 0, 0, 0, 0, 0, 1]),
        ],
        "xyz".to_string(),
    );
    assert_eq!(geolocation.len(), 3);
    let plan = geolocation.fetch(Provider::IpGeolocation);
    assert_eq!(
        plan,
        FetchPlan::Concurrent(vec![
            "https://api.ipgeolocation.io/ipgeo?apiKey=xyz&ip=3.3.3.3".to_string(),
            "https://api.ipgeolocation.io/ipgeo?apiKey=xyz&ip=1.1.1.1".to_string(),
            "https://api.ipgeolocation.io/ipgeo?apiKey=xyz&ip=%3A%3A1".to_string(),
        ])
    );
    assert_eq!(
        fetch_many(send_all(plan)),
        Ok(vec![
            "{\"url\":\"https://api.ipgeolocation.io/ipgeo?apiKey=xyz&ip=3.3.3.3\"}".to_string(),
            "{\"url\":\"https://api.ipgeolocation.io/ipgeo?apiKey=xyz&ip=1.1.1.1\"}".to_string(),
            "{\"url\":\"https://api.ipgeolocation.io/ipgeo?apiKey=xyz&ip=%3A%3A1\"}".to_string(),
        ])
    );
}

#[test]
fn fetch_many_sends_even_a_single_request_with_the_others() {
    let geolocation = Geolocation::new(vec![IpAddress::V4([1, 1, 1, 1])], "abc".to_string());
    assert_eq!(
        geolocation.fetch_many(Provider::Ip2Location),
        FetchPlan::Concurrent(vec!["https://api.ip2location.io/?ip=1.1.1.1&key=abc".to_string()])
    );
    assert_eq!(
        geolocation.request_urls(Provider::IpGeolocation),
        vec!["https://api.ipgeolocation.io/ipgeo?apiKey=abc&ip=1.1.1.1".to_string()]
    );
}

#[test]
fn no_address_means_no_request() {
    let geolocation = Geolocation::new(vec![], "abc".to_string());
    assert_eq!(geolocation.fetch(Provider::Ip2Location), FetchPlan::Concurrent(vec![]));
    assert_eq!(geolocation.fetch_many(Provider::Ip2Location), FetchPlan::Concurrent(vec![]));
    assert_eq!(geolocation.request_urls(Provider::Ip2Location), Vec::<String>::new());
    assert_eq!(fetch_many(Vec::<Result<String, FetchError>>::new()), Ok(vec![]));
}

#[test]
fn fixed_bodies_come_back_exactly() {
    let bodies = vec!["{\"a\":1}".to_string(), "{\"b\":[2,3]}".to_string(), "{}".to_string()];
    let outcomes: Vec<Result<String, FetchError>> = bodies.iter().cloned().map(Ok).collect();
    assert_eq!(fetch_many(outcomes), Ok(bodies));
    assert_eq!(
        fetch_many(vec![Ok::<String, FetchError>("{\"only\":true}".to_string())]),
        Ok(vec!["{\"only\":true}".to_string()])
    );
}

#[test]
fn any_failed_request_fails_the_whole_fetch() {
    let failure = FetchError::Transport("connection reset".to_string());
    for failing in 0..4 {
        let outcomes: Vec<Result<u32, FetchError>> = (0..4)
            .map(|i| if i == failing { Err(failure.clone()) } else { Ok(i) })
            .collect();
        assert_eq!(fetch_many(outcomes), Err(failure.clone()), "{}", failing);
    }
}

#[test]
fn the_first_of_several_failures_is_reported() {
    let outcomes: Vec<Result<u32, FetchError>> = vec![
        Ok(1),
        Err(FetchError::Decode("expected value at line 1 column 1".to_string())),
        Ok(3),
        Err(FetchError::Transport("timed out".to_string())),
    ];
    let failed = fetch_many(outcomes);
    assert_eq!(
        failed,
        Err(FetchError::Decode("expected value at line 1 column 1".to_string()))
    );
    assert_eq!(failed.unwrap_err().message(), "expected value at line 1 column 1");
    assert_eq!(FetchError::Transport("timed out".to_string()).message(), "timed out");
}

#[test]
fn a_failing_provider_yields_no_partial_list() {
    let plan = FetchPlan::Concurrent(vec![
        "https://one".to_string(),
        "https://fail".to_string(),
        "https://three".to_string(),
    ]);
    assert_eq!(
        fetch_many(send_all(plan)),
        Err(FetchError::Transport("connection refused: https://fail".to_string()))
    );
}

#[test]
fn gather_keeps_order_or_reports_first_failure() {
    assert_eq!(gather(vec![Ok::<u8, &str>(1), Ok(2), Ok(3)]), Ok(vec![1, 2, 3]));
    assert_eq!(gather(vec![Ok::<u8, &str>(1), Err("x"), Err("y")]), Err("x"));
    assert_eq!(gather(vec![Err::<u8, &str>("first")]), Err("first"));
    assert_eq!(gather(Vec::<Result<u8, &str>>::new()), Ok(vec![]));
}

#[test]
fn missing_token_fails_before_any_request_is_planned() {
    let mut store = ApiKeyStore::new();
    store.set_ip2location_token("abc".to_string());
    let arguments = IpGeolocationArguments {
        addrs: Some(vec![IpAddress::V4([1, 1, 1, 1])]),
        file: None,
    };
    let step = fetch_from_provider(arguments, &store);
    assert_eq!(
        step,
        Err(GeolocationBuildError::TokenMissingError(MissingTokenError {
            provider: Provider::IpGeolocation,
            wording: TokenWording::NotSpecified,
        }))
    );
    assert_eq!(
        step.unwrap_err().message(),
        "No token for ipgeolocation specified. Set it with the 'config' subcommand."
    );
}

#[test]
fn lookup_of_given_addresses_plans_their_requests() {
    let arguments = Ip2LocationArguments {
        addrs: Some(vec![IpAddress::V4([192, 168, 0, 1])]),
        file: None,
    };
    assert_eq!(
        fetch_from_provider(arguments, &store_with_tokens()),
        Ok(LookupStep::Fetch(FetchPlan::Single(
            "https://api.ip2location.io/?ip=192.168.0.1&key=abc".to_string()
        )))
    );
    let arguments = IpGeolocationArguments {
        addrs: Some(vec![IpAddress::V4([1, 1, 1, 1]), IpAddress::V4([2, 2, 2, 2])]),
        file: None,
    };
    assert_eq!(
        fetch_from_provider(arguments, &store_with_tokens()),
        Ok(LookupStep::Fetch(FetchPlan::Concurrent(vec![
            "https://api.ipgeolocation.io/ipgeo?apiKey=xyz&ip=1.1.1.1".to_string(),
            "https://api.ipgeolocation.io/ipgeo?apiKey=xyz&ip=2.2.2.2".to_string(),
        ])))
    );
}

#[test]
fn lookup_from_a_file_asks_for_the_file_first() {
    let arguments = Ip2LocationArguments { addrs: None, file: Some("ips.txt".to_string()) };
    assert_eq!(
        fetch_from_provider(arguments, &ApiKeyStore::new()),
        Ok(LookupStep::ReadFile("ips.txt".to_string()))
    );
}

#[test]
fn lookup_with_an_empty_list_of_addresses_fails() {
    let arguments = Ip2LocationArguments { addrs: Some(vec![]), file: None };
    assert_eq!(
        fetch_from_provider(arguments, &store_with_tokens()),
        Err(GeolocationBuildError::NoIpAddressProvidedError)
    );
    assert_eq!(
        plan_lookup(vec![], Provider::Ip2Location, &ApiKeyStore::new()),
        Err(GeolocationBuildError::TokenMissingError(MissingTokenError {
            provider: Provider::Ip2Location,
            wording: TokenWording::NotSpecified,
        }))
    );
}

#[test]
fn try_new_checks_token_and_addresses() {
    let store = store_with_tokens();
    let built =
        Geolocation::try_new(vec![IpAddress::V4([9, 9, 9, 9])], Provider::IpGeolocation, &store)
            .unwrap();
    assert_eq!(built.provider(), Some(Provider::IpGeolocation));
    assert_eq!(built.len(), 1);
    assert_eq!(
        built.fetch(Provider::IpGeolocation),
        FetchPlan::Single("https://api.ipgeolocation.io/ipgeo?apiKey=xyz&ip=9.9.9.9".to_string())
    );
    assert_eq!(
        Geolocation::try_new(vec![], Provider::Ip2Location, &store),
        Err(GeolocationBuildError::NoIpAddressProvidedError)
    );
    assert_eq!(
        Geolocation::try_new(
            vec![IpAddress::V4([9, 9, 9, 9])],
            Provider::Ip2Location,
            &ApiKeyStore::new()
        ),
        Err(GeolocationBuildError::TokenMissingError(MissingTokenError {
            provider: Provider::Ip2Location,
            wording: TokenWording::NotSpecified,
        }))
    );
}

#[test]
fn a_lookup_keeps_the_provider_of_its_token() {
    let store = store_with_tokens();
    let built =
        Geolocation::try_new(vec![IpAddress::V4([9, 9, 9, 9])], Provider::Ip2Location, &store)
            .unwrap();
    // The token is that of ip2location, so the request goes there.
    assert_eq!(
        built.fetch(Provider::IpGeolocation),
        FetchPlan::Single("https://api.ip2location.io/?ip=9.9.9.9&key=abc".to_string())
    );
    assert_eq!(
        built.fetch_many(Provider::IpGeolocation),
        FetchPlan::Concurrent(vec!["https://api.ip2location.io/?ip=9.9.9.9&key=abc".to_string()])
    );
    // A lookup with a bare key is tied to no provider.
    let bare = Geolocation::new(vec![IpAddress::V4([9, 9, 9, 9])], "abc".to_string());
    assert_eq!(bare.provider(), None);
    assert_eq!(
        bare.fetch(Provider::IpGeolocation),
        FetchPlan::Single("https://api.ipgeolocation.io/ipgeo?apiKey=abc&ip=9.9.9.9".to_string())
    );
}

#[test]
fn try_new_from_file_reads_the_addresses() {
    let store = store_with_tokens();
    let built =
        Geolocation::try_new_from_file("1.1.1.1\n::1\n", Provider::Ip2Location, &store).unwrap();
    assert_eq!(built.provider(), Some(Provider::Ip2Location));
    assert_eq!(
        built.request_urls(Provider::Ip2Location),
        vec![
            "https://api.ip2location.io/?ip=1.1.1.1&key=abc".to_string(),
            "https://api.ip2location.io/?ip=%3A%3A1&key=abc".to_string(),
        ]
    );
    assert_eq!(
        Geolocation::try_new_from_file("1.1.1.1\nx\n", Provider::Ip2Location, &store)
            .unwrap_err()
            .message(),
        "IP address at line 2 is invalid"
    );
    assert_eq!(
        Geolocation::try_new_from_file("", Provider::Ip2Location, &store),
        Err(GeolocationBuildError::NoIpAddressProvidedError)
    );
    // A file without addresses is refused before the token is looked up.
    assert_eq!(
        Geolocation::try_new_from_file("\n\n", Provider::Ip2Location, &ApiKeyStore::new()),
        Err(GeolocationBuildError::NoIpAddressProvidedError)
    );
}
