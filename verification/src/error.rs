//! The errors that a lookup can end in, each with the message shown to the
//! user.

use crate::digits::{decimal_numeral, push_number};
use crate::provider::Provider;
use vstd::prelude::*;

verus! {

/// Both or neither of two alternative inputs were supplied.
#[derive(Clone, Copy, Debug, PartialEq, Eq, Structural)]
pub enum MutualExclusivityError {
    /// A file and a list of addresses were given together.
    FileAndAddresses,
    /// Neither a file nor a list of addresses was given.
    NeitherFileNorAddresses,
    /// Editing and showing the configuration were asked for together.
    EditAndShow,
    /// Neither editing nor showing the configuration was asked for.
    NeitherEditNorShow,
}

impl MutualExclusivityError {
    /// The message of the error.
    pub open spec fn text(self) -> Seq<char> {
        match self {
            MutualExclusivityError::FileAndAddresses =>
                "file and addresses arguments are mutually exclusive"@,
            MutualExclusivityError::NeitherFileNorAddresses =>
                "either file or addresses must be provided, but not both"@,
            MutualExclusivityError::EditAndShow =>
                "Arguments --edit and --show are mutually exclusive"@,
            MutualExclusivityError::NeitherEditNorShow =>
                "Either --edit or --show has to be provided"@,
        }
    }

    /// Returns the message of the error.
    pub fn message(&self) -> (message: String)
        ensures
            message@ == self.text(),
    {
        match self {
            MutualExclusivityError::FileAndAddresses =>
                "file and addresses arguments are mutually exclusive".to_owned(),
            MutualExclusivityError::NeitherFileNorAddresses =>
                "either file or addresses must be provided, but not both".to_owned(),
            MutualExclusivityError::EditAndShow =>
                "Arguments --edit and --show are mutually exclusive".to_owned(),
            MutualExclusivityError::NeitherEditNorShow =>
                "Either --edit or --show has to be provided".to_owned(),
        }
    }
}

/// The wording in which a missing token is reported.
#[derive(Clone, Copy, Debug, PartialEq, Eq, Structural)]
pub enum TokenWording {
    /// `No token for <provider> specified. Set it with the 'config'
    /// subcommand.`
    NotSpecified,
    /// `Token for provider '<provider>' is not set. Set it with the config
    /// command`
    NotSet,
}

/// No API token is configured for the selected provider.
#[derive(Clone, Copy, Debug, PartialEq, Eq, Structural)]
pub struct MissingTokenError {
    /// The provider whose token is missing.
    pub provider: Provider,
    /// The wording of the message.
    pub wording: TokenWording,
}

impl MissingTokenError {
    /// The message of the error, which names the provider and says how to
    /// set the token.
    pub open spec fn text(self) -> Seq<char> {
        match (self.wording, self.provider) {
            (TokenWording::NotSpecified, Provider::Ip2Location) =>
                "No token for ip2location specified. Set it with the 'config' subcommand."@,
            (TokenWording::NotSpecified, Provider::IpGeolocation) =>
                "No token for ipgeolocation specified. Set it with the 'config' subcommand."@,
            (TokenWording::NotSet, Provider::Ip2Location) =>
                "Token for provider 'ip2location' is not set. Set it with the config command"@,
            (TokenWording::NotSet, Provider::IpGeolocation) =>
                "Token for provider 'ipgeolocation' is not set. Set it with the config command"@,
        }
    }

    /// Returns the message of the error.
    pub fn message(&self) -> (message: String)
        ensures
            message@ == self.text(),
    {
        match (self.wording, self.provider) {
            (TokenWording::NotSpecified, Provider::Ip2Location) =>
                "No token for ip2location specified. Set it with the 'config' subcommand."
                    .to_owned(),
            (TokenWording::NotSpecified, Provider::IpGeolocation) =>
                "No token for ipgeolocation specified. Set it with the 'config' subcommand."
                    .to_owned(),
            (TokenWording::NotSet, Provider::Ip2Location) =>
                "Token for provider 'ip2location' is not set. Set it with the config command"
                    .to_owned(),
            (TokenWording::NotSet, Provider::IpGeolocation) =>
                "Token for provider 'ipgeolocation' is not set. Set it with the config command"
                    .to_owned(),
        }
    }
}

/// A line of an address file does not hold an IP address.
#[derive(Clone, Copy, Debug, PartialEq, Eq, Structural)]
pub struct InvalidAddressError {
    /// The number of the line, counted from one.
    pub line: usize,
}

impl InvalidAddressError {
    /// The message of the error, which names the line.
    pub open spec fn text(self) -> Seq<char> {
        "IP address at line "@ + decimal_numeral(self.line as nat) + " is invalid"@
    }

    /// Returns the message of the error.
    pub fn message(&self) -> (message: String)
        ensures
            message@ == self.text(),
    {
        let mut message = "IP address at line ".to_owned();
        push_number(&mut message, self.line);
        message.append(" is invalid");
        message
    }
}

/// Why a request to a provider yielded no result.
#[derive(Clone, Debug, PartialEq, Eq)]
pub enum FetchError {
    /// The request could not be sent or no response arrived; holds the
    /// cause as reported by the transport.
    Transport(String),
    /// The body of the response is not the JSON that was expected; holds
    /// the cause as reported by the decoder.
    Decode(String),
}

impl FetchError {
    /// The cause carried by the error.
    pub open spec fn cause(self) -> Seq<char> {
        match self {
            FetchError::Transport(cause) => cause@,
            FetchError::Decode(cause) => cause@,
        }
    }

    /// Returns the message of the error, which is its cause.
    pub fn message(&self) -> (message: String)
        ensures
            message@ == self.cause(),
    {
        match self {
            FetchError::Transport(cause) => cause.clone(),
            FetchError::Decode(cause) => cause.clone(),
        }
    }
}

/// Why the addresses and the token for a lookup could not be put together.
#[derive(Clone, Debug, PartialEq, Eq)]
pub enum GeolocationBuildError {
    /// The configuration could not be loaded; holds the cause.
    ConfigurationLoadError(String),
    /// No API token is stored for the provider.
    TokenMissingError(MissingTokenError),
    /// The list of addresses is empty.
    NoIpAddressProvidedError,
    /// The address file could not be read; holds the cause.
    FileNotGood(String),
    /// A line of the address file holds no IP address.
    InvalidIpAddress(InvalidAddressError),
}

impl GeolocationBuildError {
    /// The message of the error.
    pub open spec fn text(self) -> Seq<char> {
        match self {
            GeolocationBuildError::ConfigurationLoadError(cause) => cause@,
            GeolocationBuildError::TokenMissingError(missing) => missing.text(),
            GeolocationBuildError::NoIpAddressProvidedError =>
                "Must provide at least one IP address"@,
            GeolocationBuildError::FileNotGood(_) => "File is not good"@,
            GeolocationBuildError::InvalidIpAddress(invalid) => invalid.text(),
        }
    }

    /// Returns the message of the error.
    pub fn message(&self) -> (message: String)
        ensures
            message@ == self.text(),
    {
        match self {
            GeolocationBuildError::ConfigurationLoadError(cause) => cause.clone(),
            GeolocationBuildError::TokenMissingError(missing) => missing.message(),
            GeolocationBuildError::NoIpAddressProvidedError =>
                "Must provide at least one IP address".to_owned(),
            GeolocationBuildError::FileNotGood(_) => "File is not good".to_owned(),
            GeolocationBuildError::InvalidIpAddress(invalid) => invalid.message(),
        }
    }
}

} // verus!
