//! The operation of geolocation: given IP addresses and an API key, which
//! requests are to be sent.

use crate::address::{IpAddress, IpAddressModel};
use crate::config::ApiKeyStore;
use crate::error::{GeolocationBuildError, MissingTokenError, TokenWording};
use crate::helpers::{addresses_in_file, address_views, resolve_file};
use crate::provider::Provider;
use crate::request::{build_url, request_url};
use vstd::prelude::*;

verus! {

/// The URLs of the requests that ask `provider` about each of the
/// addresses, in the order of the addresses.
pub open spec fn request_urls(
    provider: Provider,
    addresses: Seq<IpAddressModel>,
    api_key: Seq<char>,
) -> Seq<Seq<char>> {
    Seq::new(addresses.len(), |i: int| request_url(provider, addresses[i], api_key))
}

/// The character sequences of a list of strings.
pub open spec fn string_views(strings: Seq<String>) -> Seq<Seq<char>> {
    strings.map_values(|s: String| s@)
}

/// How the requests of a lookup are to be sent.
#[derive(Clone, Debug, PartialEq, Eq)]
pub enum FetchPlan {
    /// Exactly one request, sent on its own.
    Single(String),
    /// Any other number of requests, all sent together.
    Concurrent(Vec<String>),
}

impl FetchPlan {
    /// The URLs of the requests of the plan, in their order.
    pub open spec fn urls(self) -> Seq<Seq<char>> {
        match self {
            FetchPlan::Single(url) => seq![url@],
            FetchPlan::Concurrent(urls) => string_views(urls@),
        }
    }

    /// Returns the URLs of the requests of the plan, in their order.
    pub fn into_urls(self) -> (urls: Vec<String>)
        ensures
            string_views(urls@) == self.urls(),
    {
        match self {
            FetchPlan::Single(url) => {
                let mut urls: Vec<String> = Vec::new();
                urls.push(url);
                assert(string_views(urls@) == seq![url@]);
                urls
            },
            FetchPlan::Concurrent(urls) => urls,
        }
    }
}

/// Represents the operation of geolocation. Give it IP addresses and an API
/// key and it tells which requests yield the geolocation data.
///
/// A lookup that was built with the token of a provider keeps that
/// provider: its requests go to the provider that the key belongs to.
#[derive(Clone, Debug, PartialEq, Eq)]
pub struct Geolocation {
    ip_addrs: Vec<IpAddress>,
    api_key: String,
    provider: Option<Provider>,
}

impl Geolocation {
    /// The addresses to look up, in their order.
    pub closed spec fn addresses(&self) -> Seq<IpAddressModel> {
        address_views(self.ip_addrs@)
    }

    /// The API key that goes with each request.
    pub closed spec fn key(&self) -> Seq<char> {
        self.api_key@
    }

    /// The provider whose token the API key is, if the lookup was built
    /// with the token of a provider.
    pub closed spec fn own_provider(&self) -> Option<Provider> {
        self.provider
    }

    /// The provider that the requests go to when `named` is asked for: the
    /// provider that the lookup was built for, or else the one that is
    /// named.
    pub open spec fn asked(&self, named: Provider) -> Provider {
        match self.own_provider() {
            Some(own) => own,
            None => named,
        }
    }

    /// A lookup of the given addresses with the given API key, which is
    /// tied to no provider.
    pub fn new(ip_addrs: Vec<IpAddress>, api_key: String) -> (geolocation: Geolocation)
        ensures
            geolocation.addresses() == address_views(ip_addrs@),
            geolocation.key() == api_key@,
            geolocation.own_provider() is None,
    {
        Geolocation { ip_addrs, api_key, provider: None }
    }

    /// Returns the provider whose token the API key is, if the lookup was
    /// built with the token of a provider.
    pub fn provider(&self) -> (provider: Option<Provider>)
        ensures
            provider == self.own_provider(),
    {
        self.provider
    }

    /// A lookup of the given addresses at `provider`, with the token that
    /// the store holds for it.
    ///
    /// Fails if the store holds no token for the provider, and else if no
    /// address is given.
    pub fn try_new(ip_addresses: Vec<IpAddress>, provider: Provider, store: &ApiKeyStore) -> (built:
        Result<Geolocation, GeolocationBuildError>)
        ensures
            match store.token(provider) {
                None => built == Err::<Geolocation, GeolocationBuildError>(
                    GeolocationBuildError::TokenMissingError(
                        MissingTokenError { provider, wording: TokenWording::NotSpecified },
                    ),
                ),
                Some(token) => if ip_addresses@.len() == 0 {
                    built == Err::<Geolocation, GeolocationBuildError>(
                        GeolocationBuildError::NoIpAddressProvidedError,
                    )
                } else {
                    built is Ok && built->Ok_0.addresses() == address_views(ip_addresses@)
                        && built->Ok_0.key() == token && built->Ok_0.own_provider() == Some(
                        provider,
                    )
                },
            },
    {
        let api_key = match store.get_provider_token(&provider) {
            Ok(key) => key,
            Err(missing) => {
                return Err(GeolocationBuildError::TokenMissingError(missing));
            },
        };
        if ip_addresses.len() < 1 {
            return Err(GeolocationBuildError::NoIpAddressProvidedError);
        }
        Ok(Geolocation { ip_addrs: ip_addresses, api_key, provider: Some(provider) })
    }

    /// A lookup at `provider` of the addresses that the content of an
    /// address file lists, one on each line that is not empty.
    ///
    /// Fails with the first line that holds no address if there is one,
    /// else if the file lists no address, and else as
    /// [`Geolocation::try_new`] does.
    pub fn try_new_from_file(content: &str, provider: Provider, store: &ApiKeyStore) -> (built:
        Result<Geolocation, GeolocationBuildError>)
        ensures
            match addresses_in_file(content@) {
                Err(line) => built matches Err(GeolocationBuildError::InvalidIpAddress(invalid))
                    && invalid.line == line,
                Ok(addresses) => if addresses.len() == 0 {
                    built == Err::<Geolocation, GeolocationBuildError>(
                        GeolocationBuildError::NoIpAddressProvidedError,
                    )
                } else {
                    match store.token(provider) {
                        None => built == Err::<Geolocation, GeolocationBuildError>(
                            GeolocationBuildError::TokenMissingError(
                                MissingTokenError { provider, wording: TokenWording::NotSpecified },
                            ),
                        ),
                        Some(token) => built is Ok && built->Ok_0.addresses() == addresses
                            && built->Ok_0.key() == token && built->Ok_0.own_provider() == Some(
                            provider,
                        ),
                    }
                },
            },
    {
        match resolve_file(content) {
            Ok(addresses) => Geolocation::try_new(addresses, provider, store),
            Err(error) => Err(error),
        }
    }

    /// The number of addresses to look up.
    pub fn len(&self) -> (len: usize)
        ensures
            len == self.addresses().len(),
    {
        self.ip_addrs.len()
    }

    /// Builds the URL of one request for each address, in the order of the
    /// addresses. The requests go to the provider that the lookup was built
    /// for, or else to `provider`.
    pub fn request_urls(&self, provider: Provider) -> (urls: Vec<String>)
        ensures
            string_views(urls@) == request_urls(
                self.asked(provider),
                self.addresses(),
                self.key(),
            ),
    {
        let asked = match self.provider {
            Some(own) => own,
            None => provider,
        };
        let mut urls: Vec<String> = Vec::new();
        let mut i: usize = 0;
        while i < self.ip_addrs.len()
            invariant
                i <= self.ip_addrs@.len(),
                urls@.len() == i,
                forall|j: int|
                    0 <= j < i ==> (#[trigger] urls@[j])@ == request_url(
                        asked,
                        self.ip_addrs@[j]@,
                        self.api_key@,
                    ),
            decreases self.ip_addrs.len() - i,
        {
            let url = build_url(asked, &self.ip_addrs[i], self.api_key.as_str());
            urls.push(url);
            i += 1;
        }
        assert(string_views(urls@) == request_urls(asked, self.addresses(), self.key()));
        urls
    }

    /// Plans the fetch of the geolocation data: one request for each
    /// address, in the order of the addresses. The requests go to the
    /// provider that the lookup was built for, or else to `provider`. A
    /// single request is sent on its own; any other number of requests is
    /// sent together.
    pub fn fetch(&self, provider: Provider) -> (plan: FetchPlan)
        ensures
            plan.urls() == request_urls(self.asked(provider), self.addresses(), self.key()),
            plan is Single <==> self.addresses().len() == 1,
    {
        if self.ip_addrs.len() == 1 {
            let asked = match self.provider {
                Some(own) => own,
                None => provider,
            };
            let url = build_url(asked, &self.ip_addrs[0], self.api_key.as_str());
            assert(seq![url@] == request_urls(asked, self.addresses(), self.key()));
            FetchPlan::Single(url)
        } else {
            self.fetch_many(provider)
        }
    }

    /// Plans the fetch of the geolocation data for multiple IP addresses:
    /// one request for each address, in the order of the addresses, all sent
    /// together. The requests go to the provider that the lookup was built
    /// for, or else to `provider`.
    pub fn fetch_many(&self, provider: Provider) -> (plan: FetchPlan)
        ensures
            plan.urls() == request_urls(self.asked(provider), self.addresses(), self.key()),
            plan is Concurrent,
    {
        FetchPlan::Concurrent(self.request_urls(provider))
    }
}

} // verus!
