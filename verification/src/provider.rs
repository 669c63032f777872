//! The geolocation data providers that can be queried.

use vstd::prelude::*;

verus! {

/// The supported geolocation data providers.
#[derive(Clone, Copy, Debug, PartialEq, Eq, Structural, Hash)]
pub enum Provider {
    Ip2Location,
    IpGeolocation,
}

impl Provider {
    /// The canonical name of the provider, which is also the key under
    /// which its API token is stored.
    pub open spec fn name(self) -> Seq<char> {
        match self {
            Provider::Ip2Location => "ip2location"@,
            Provider::IpGeolocation => "ipgeolocation"@,
        }
    }

    /// Returns the canonical name of the provider.
    pub fn to_string(&self) -> (name: String)
        ensures
            name@ == self.name(),
    {
        match self {
            Provider::Ip2Location => "ip2location".to_owned(),
            Provider::IpGeolocation => "ipgeolocation".to_owned(),
        }
    }
}

} // verus!
