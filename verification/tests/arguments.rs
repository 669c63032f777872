use geolocate_lib::address::IpAddress;
use geolocate_lib::error::MutualExclusivityError;
use geolocate_lib::helpers::{read_or_modify_configuration, ConfigStep};
use geolocate_lib::parser::{
    validate, ConfigArguments, ExclusiveConfigArgument, ExclusiveGeolocationArgument,
    Ip2LocationArguments, IpGeolocationArguments,
};
use geolocate_lib::provider::Provider;
use geolocate_lib::traits::{GeolocationInput, GeolocationProvider, MutualExclusivity};

fn some_addrs() -> Option<Vec<IpAddress>> {
    Some(vec![IpAddress::V4([192, 168, 0, 1])])
}

fn some_file() -> Option<String> {
    Some("addresses.txt".to_string())
}

#[test]
fn exactly_one_input_is_accepted() {
    assert_eq!(validate(true, false), Ok(ExclusiveGeolocationArgument::IpAddresses));
    assert_eq!(validate(false, true), Ok(ExclusiveGeolocationArgument::File));
    assert_eq!(validate(true, true), Err(MutualExclusivityError::FileAndAddresses));
    assert_eq!(validate(false, false), Err(MutualExclusivityError::NeitherFileNorAddresses));
}

#[test]
fn ip2location_arguments_are_checked() {
    let check = |addrs, file| Ip2LocationArguments { addrs, file }.check_exclusivity();
    assert_eq!(check(some_addrs(), None), Ok(ExclusiveGeolocationArgument::IpAddresses));
    assert_eq!(check(None, some_file()), Ok(ExclusiveGeolocationArgument::File));
    assert_eq!(check(some_addrs(), some_file()), Err(MutualExclusivityError::FileAndAddresses));
    assert_eq!(check(None, None), Err(MutualExclusivityError::NeitherFileNorAddresses));
    // An empty list is still a list that was given.
    assert_eq!(check(Some(vec![]), None), Ok(ExclusiveGeolocationArgument::IpAddresses));
}

#[test]
fn ipgeolocation_arguments_are_checked() {
    let check = |addrs, file| IpGeolocationArguments { addrs, file }.check_exclusivity();
    assert_eq!(check(some_addrs(), None), Ok(ExclusiveGeolocationArgument::IpAddresses));
    assert_eq!(check(None, some_file()), Ok(ExclusiveGeolocationArgument::File));
    assert_eq!(check(some_addrs(), some_file()), Err(MutualExclusivityError::FileAndAddresses));
    assert_eq!(check(None, None), Err(MutualExclusivityError::NeitherFileNorAddresses));
}

#[test]
fn config_arguments_are_checked() {
    let check =
        |show, edit| ConfigArguments { show, edit, print_path: false }.check_exclusivity();
    assert_eq!(check(true, false), Ok(ExclusiveConfigArgument::Show));
    assert_eq!(check(false, true), Ok(ExclusiveConfigArgument::Edit));
    assert_eq!(check(true, true), Err(MutualExclusivityError::EditAndShow));
    assert_eq!(check(false, false), Err(MutualExclusivityError::NeitherEditNorShow));
}

#[test]
fn refusals_have_their_messages() {
    assert_eq!(
        MutualExclusivityError::FileAndAddresses.message(),
        "file and addresses arguments are mutually exclusive"
    );
    assert_eq!(
        MutualExclusivityError::NeitherFileNorAddresses.message(),
        "either file or addresses must be provided, but not both"
    );
    assert_eq!(
        MutualExclusivityError::EditAndShow.message(),
        "Arguments --edit and --show are mutually exclusive"
    );
    assert_eq!(
        MutualExclusivityError::NeitherEditNorShow.message(),
        "Either --edit or --show has to be provided"
    );
}

#[test]
fn inputs_are_taken_out_of_the_arguments() {
    let mut arguments = Ip2LocationArguments { addrs: some_addrs(), file: some_file() };
    assert_eq!(arguments.addrs(), some_addrs());
    assert_eq!(arguments.addrs(), None);
    assert_eq!(arguments.file(), some_file());
    assert_eq!(arguments.file(), None);
    assert_eq!(arguments, Ip2LocationArguments { addrs: None, file: None });

    let mut arguments = IpGeolocationArguments { addrs: some_addrs(), file: some_file() };
    assert_eq!(arguments.file(), some_file());
    assert_eq!(arguments.addrs(), some_addrs());
    assert_eq!(arguments, IpGeolocationArguments { addrs: None, file: None });
}

#[test]
fn arguments_name_their_provider() {
    assert_eq!(
        Ip2LocationArguments { addrs: None, file: None }.provider(),
        Provider::Ip2Location
    );
    assert_eq!(
        IpGeolocationArguments { addrs: None, file: None }.provider(),
        Provider::IpGeolocation
    );
    assert_eq!(Provider::Ip2Location.to_string(), "ip2location");
    assert_eq!(Provider::IpGeolocation.to_string(), "ipgeolocation");
}

#[test]
fn print_path_is_reported() {
    assert!(ConfigArguments { show: false, edit: false, print_path: true }.print_path());
    assert!(!ConfigArguments { show: true, edit: true, print_path: false }.print_path());
}

#[test]
fn configuration_is_read_or_modified() {
    let step = |show, edit| {
        read_or_modify_configuration(ConfigArguments { show, edit, print_path: false })
    };
    assert_eq!(step(true, false), ConfigStep::Show);
    assert_eq!(step(false, true), ConfigStep::Edit);
    assert_eq!(step(true, true), ConfigStep::Refused(MutualExclusivityError::EditAndShow));
    assert_eq!(
        step(false, false),
        ConfigStep::Refused(MutualExclusivityError::NeitherEditNorShow)
    );
}
