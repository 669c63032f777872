use geolocate_lib::address::IpAddress;
use geolocate_lib::completions::{CompletionTarget, Shell};
use geolocate_lib::config::{ApiKeyStore, LoadFailure};
use geolocate_lib::error::{
    GeolocationBuildError, MissingTokenError, MutualExclusivityError, TokenWording,
};
use geolocate_lib::geolocation::FetchPlan;
use geolocate_lib::helpers::{ConfigStep, LookupStep};
use geolocate_lib::parser::{
    CommandLineArguments, ConfigArguments, Ip2LocationArguments, IpGeolocationArguments, OutDir,
    ShellCompletions, Subcommands,
};
use geolocate_lib::provider::Provider;
use geolocate_lib::run::{run, startup, Startup, Task};

fn store_with_tokens() -> ApiKeyStore {
    let mut store = ApiKeyStore::new();
    store.set_ip2location_token("abc".to_string());
    store
}

fn task(command: Subcommands) -> Task {
    run(CommandLineArguments { command }, &store_with_tokens())
}

#[test]
fn program_starts_when_the_configuration_loads() {
    assert_eq!(startup(Ok(())), Startup::Proceed);
    assert_eq!(
        startup(Err(LoadFailure::BadTomlData("expected an equals".to_string()))),
        Startup::EditThenReload
    );
    assert_eq!(
        startup(Err(LoadFailure::Other("permission denied".to_string()))),
        Startup::Fail(GeolocationBuildError::ConfigurationLoadError(
            "permission denied".to_string()
        ))
    );
}

#[test]
fn lookup_commands_start_a_lookup_at_their_provider() {
    assert_eq!(
        task(Subcommands::Ip2location(Ip2LocationArguments {
            addrs: Some(vec![IpAddress::V4([192, 168, 0, 1])]),
            file: None,
        })),
        Task::Lookup {
            provider: Provider::Ip2Location,
            step: Ok(LookupStep::Fetch(FetchPlan::Single(
                "https://api.ip2location.io/?ip=192.168.0.1&key=abc".to_string()
            ))),
        }
    );
    assert_eq!(
        task(Subcommands::Ipgeolocation(IpGeolocationArguments {
            addrs: Some(vec![IpAddress::V4([192, 168, 0, 1])]),
            file: None,
        })),
        Task::Lookup {
            provider: Provider::IpGeolocation,
            step: Err(GeolocationBuildError::TokenMissingError(MissingTokenError {
            provider: Provider::IpGeolocation,
            wording: TokenWording::NotSpecified,
        })),
        }
    );
    assert_eq!(
        task(Subcommands::Ipgeolocation(IpGeolocationArguments {
            addrs: None,
            file: Some("list.txt".to_string()),
        })),
        Task::Lookup {
            provider: Provider::IpGeolocation,
            step: Ok(LookupStep::ReadFile("list.txt".to_string())),
        }
    );
    assert_eq!(
        task(Subcommands::Ip2location(Ip2LocationArguments { addrs: None, file: None })),
        Task::Lookup {
            provider: Provider::Ip2Location,
            step: Ok(LookupStep::Refused(MutualExclusivityError::NeitherFileNorAddresses)),
        }
    );
}

#[test]
fn config_command_shows_the_path_first() {
    let config = |show, edit, print_path| {
        task(Subcommands::Config(ConfigArguments { show, edit, print_path }))
    };
    assert_eq!(config(false, false, true), Task::PrintConfigurationPath);
    assert_eq!(config(true, true, true), Task::PrintConfigurationPath);
    assert_eq!(config(true, false, false), Task::Configuration(ConfigStep::Show));
    assert_eq!(config(false, true, false), Task::Configuration(ConfigStep::Edit));
    assert_eq!(
        config(true, true, false),
        Task::Configuration(ConfigStep::Refused(MutualExclusivityError::EditAndShow))
    );
    assert_eq!(
        config(false, false, false),
        Task::Configuration(ConfigStep::Refused(MutualExclusivityError::NeitherEditNorShow))
    );
}

#[test]
fn completions_command_names_its_target() {
    assert_eq!(
        task(Subcommands::Completions(ShellCompletions::Elvish(OutDir { path: None }))),
        Task::Completions(CompletionTarget {
            shell: Shell::Elvish,
            bin_name: "geolocate".to_string(),
            directory: ".".to_string(),
        })
    );
}
