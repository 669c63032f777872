//! What the arguments of a command have to offer.

use crate::address::IpAddress;
use crate::error::MutualExclusivityError;
use crate::provider::Provider;
use vstd::prelude::*;

verus! {

/// Arguments of which exactly one of several alternatives has to be given.
///
/// `check_exclusivity` tells which one was given, or why the arguments are
/// refused.
pub trait MutualExclusivity {
    /// Names the alternative that was given.
    type ExclusiveValue;

    /// The alternative that was given, or the reason why the arguments are
    /// refused.
    spec fn exclusive_value(&self) -> Result<Self::ExclusiveValue, MutualExclusivityError>;

    /// Checks that exactly one of the alternatives was given.
    fn check_exclusivity(&self) -> (value: Result<Self::ExclusiveValue, MutualExclusivityError>)
        ensures
            value == self.exclusive_value(),
    ;
}

/// To send a request to a geolocation data provider at least one IP address
/// is needed, which comes from the command line or from a file.
pub trait GeolocationInput {
    /// The addresses given on the command line, if any.
    spec fn given_addrs(&self) -> Option<Vec<IpAddress>>;

    /// The path of the address file, if one is given.
    spec fn given_file(&self) -> Option<String>;

    /// Takes the addresses out of the arguments.
    fn addrs(&mut self) -> (addrs: Option<Vec<IpAddress>>)
        ensures
            addrs == old(self).given_addrs(),
            final(self).given_addrs() is None,
            final(self).given_file() == old(self).given_file(),
    ;

    /// Takes the path of the address file out of the arguments.
    fn file(&mut self) -> (file: Option<String>)
        ensures
            file == old(self).given_file(),
            final(self).given_file() is None,
            final(self).given_addrs() == old(self).given_addrs(),
    ;
}

/// The providers differ in the requests that they take. Arguments that are
/// meant for one provider name it.
pub trait GeolocationProvider {
    /// The provider that the arguments are meant for.
    spec fn chosen_provider(&self) -> Provider;

    /// Returns the provider that the arguments are meant for.
    fn provider(&self) -> (provider: Provider)
        ensures
            provider == self.chosen_provider(),
    ;
}

} // verus!
