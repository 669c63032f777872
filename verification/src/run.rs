//! What a command line asks the program to do.

use crate::completions::{
    directory_or_current, generate_shell_completions, match_shell_spec, CompletionTarget,
};
use crate::config::{ApiKeyStore, LoadFailure};
use crate::error::GeolocationBuildError;
use crate::helpers::{
    config_step, fetch_from_provider, read_or_modify_configuration, started, ConfigStep,
    LookupStep,
};
use crate::parser::{CommandLineArguments, Subcommands};
use crate::provider::Provider;
use crate::traits::MutualExclusivity;
use vstd::prelude::*;

verus! {

/// How the program starts, given whether the configuration could be
/// loaded.
#[derive(Clone, Debug, PartialEq, Eq)]
pub enum Startup {
    /// The configuration is loaded and the command can be run.
    Proceed,
    /// The configuration file holds bad data: it is to be opened in the
    /// editor that the user prefers, and then to be loaded again.
    EditThenReload,
    /// The program ends with this error.
    Fail(GeolocationBuildError),
}

/// Tells how the program starts.
pub fn startup(loaded: Result<(), LoadFailure>) -> (start: Startup)
    ensures
        match loaded {
            Ok(_) => start == Startup::Proceed,
            Err(LoadFailure::BadTomlData(_)) => start == Startup::EditThenReload,
            Err(LoadFailure::Other(cause)) => start matches Startup::Fail(
                GeolocationBuildError::ConfigurationLoadError(kept),
            ) && kept@ == cause@,
        },
{
    match loaded {
        Ok(_) => Startup::Proceed,
        Err(LoadFailure::BadTomlData(_)) => Startup::EditThenReload,
        Err(LoadFailure::Other(cause)) => Startup::Fail(
            GeolocationBuildError::ConfigurationLoadError(cause),
        ),
    }
}

/// What a command comes to.
#[derive(Debug, PartialEq, Eq)]
pub enum Task {
    /// A lookup of geolocation data at a provider, with its first step or
    /// the error that it fails with.
    Lookup { provider: Provider, step: Result<LookupStep, GeolocationBuildError> },
    /// The path of the configuration file is to be shown.
    PrintConfigurationPath,
    /// The configuration is to be shown or edited.
    Configuration(ConfigStep),
    /// Shell completions are to be generated.
    Completions(CompletionTarget),
}

/// Tells what the command line asks for, with the tokens of `store`.
///
/// A lookup is started at the provider of the command. For the
/// configuration, to show the path of its file comes before everything
/// else.
pub fn run(arguments: CommandLineArguments, store: &ApiKeyStore) -> (task: Task)
    ensures
        match arguments.command {
            Subcommands::Ip2location(lookup) => task matches Task::Lookup { provider, step }
                && provider == Provider::Ip2Location && started(step, lookup, store),
            Subcommands::Ipgeolocation(lookup) => task matches Task::Lookup { provider, step }
                && provider == Provider::IpGeolocation && started(step, lookup, store),
            Subcommands::Config(config) => if config.print_path {
                task == Task::PrintConfigurationPath
            } else {
                task == Task::Configuration(config_step(config.exclusive_value()))
            },
            Subcommands::Completions(shell) => task matches Task::Completions(target)
                && target.shell == match_shell_spec(shell).shell() && target.bin_name@
                == "geolocate"@ && target.directory@ == directory_or_current(
                match_shell_spec(shell).outdir(),
            ),
        },
{
    match arguments.command {
        Subcommands::Ip2location(lookup) => Task::Lookup {
            provider: Provider::Ip2Location,
            step: fetch_from_provider(lookup, store),
        },
        Subcommands::Ipgeolocation(lookup) => Task::Lookup {
            provider: Provider::IpGeolocation,
            step: fetch_from_provider(lookup, store),
        },
        Subcommands::Config(config) => {
            if config.print_path() {
                Task::PrintConfigurationPath
            } else {
                Task::Configuration(read_or_modify_configuration(config))
            }
        },
        Subcommands::Completions(shell) => Task::Completions(generate_shell_completions(shell)),
    }
}

} // verus!
