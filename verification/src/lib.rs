//! Geolocation lookups for IP addresses: argument validation, address
//! resolution, request construction and result aggregation.

pub mod address;
pub mod alphabet;
pub mod completions;
pub mod config;
pub mod digits;
pub mod error;
pub mod gather;
pub mod geolocation;
pub mod helpers;
pub mod output;
pub mod parser;
pub mod provider;
pub mod request;
pub mod round_trip;
pub mod run;
pub mod text;
pub mod traits;

pub use address::IpAddress;
pub use config::ApiKeyStore;
pub use error::GeolocationBuildError;
pub use geolocation::Geolocation;
pub use helpers::{fetch_from_provider, read_or_modify_configuration};
pub use parser::{
    CommandLineArguments, ExclusiveConfigArgument, ExclusiveGeolocationArgument, Subcommands,
};
pub use provider::Provider;
pub use traits::{GeolocationInput, GeolocationProvider, MutualExclusivity};
