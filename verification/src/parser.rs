//! The arguments of the commands, as they come from the command line.

use crate::address::IpAddress;
use crate::error::MutualExclusivityError;
use crate::provider::Provider;
use crate::traits::{GeolocationInput, GeolocationProvider, MutualExclusivity};
use vstd::prelude::*;

verus! {

/// Arguments to the geolocation data providers are meant to be exclusive.
/// The user can either provide a list of IP addresses or a file containing
/// a newline delimited list of IP addresses.
#[derive(Clone, Copy, Debug, PartialEq, Eq, Structural)]
pub enum ExclusiveGeolocationArgument {
    IpAddresses,
    File,
}

/// Config arguments are meant to be exclusive. The configuration is either
/// shown or opened in an editor.
#[derive(Clone, Copy, Debug, PartialEq, Eq, Structural)]
pub enum ExclusiveConfigArgument {
    Show,
    Edit,
}

/// Which of a list of addresses and an address file stands for the input of
/// a lookup: the one that is given, if exactly one is.
pub open spec fn exclusive_input(has_addrs: bool, has_file: bool) -> Result<
    ExclusiveGeolocationArgument,
    MutualExclusivityError,
> {
    if has_addrs && has_file {
        Err(MutualExclusivityError::FileAndAddresses)
    } else if has_addrs {
        Ok(ExclusiveGeolocationArgument::IpAddresses)
    } else if has_file {
        Ok(ExclusiveGeolocationArgument::File)
    } else {
        Err(MutualExclusivityError::NeitherFileNorAddresses)
    }
}

/// Which of showing and editing the configuration is asked for: the one
/// that is, if exactly one is.
pub open spec fn exclusive_config(show: bool, edit: bool) -> Result<
    ExclusiveConfigArgument,
    MutualExclusivityError,
> {
    if show && edit {
        Err(MutualExclusivityError::EditAndShow)
    } else if show {
        Ok(ExclusiveConfigArgument::Show)
    } else if edit {
        Ok(ExclusiveConfigArgument::Edit)
    } else {
        Err(MutualExclusivityError::NeitherEditNorShow)
    }
}

/// With exactly one of addresses and file the input that is given is
/// accepted; with both and with neither the input is refused, each with an
/// error of its own.
pub proof fn lemma_exactly_one_input(has_addrs: bool, has_file: bool)
    ensures
        has_addrs && !has_file ==> exclusive_input(has_addrs, has_file) == Ok::<
            ExclusiveGeolocationArgument,
            MutualExclusivityError,
        >(ExclusiveGeolocationArgument::IpAddresses),
        !has_addrs && has_file ==> exclusive_input(has_addrs, has_file) == Ok::<
            ExclusiveGeolocationArgument,
            MutualExclusivityError,
        >(ExclusiveGeolocationArgument::File),
        has_addrs && has_file ==> exclusive_input(has_addrs, has_file) == Err::<
            ExclusiveGeolocationArgument,
            MutualExclusivityError,
        >(MutualExclusivityError::FileAndAddresses),
        !has_addrs && !has_file ==> exclusive_input(has_addrs, has_file) == Err::<
            ExclusiveGeolocationArgument,
            MutualExclusivityError,
        >(MutualExclusivityError::NeitherFileNorAddresses),
        exclusive_input(has_addrs, has_file) is Ok <==> has_addrs != has_file,
{
}

/// Tells which of a list of addresses and an address file was given.
pub fn validate(has_addrs: bool, has_file: bool) -> (mode: Result<
    ExclusiveGeolocationArgument,
    MutualExclusivityError,
>)
    ensures
        mode == exclusive_input(has_addrs, has_file),
{
    match (has_addrs, has_file) {
        (true, false) => Ok(ExclusiveGeolocationArgument::IpAddresses),
        (false, true) => Ok(ExclusiveGeolocationArgument::File),
        (true, true) => Err(MutualExclusivityError::FileAndAddresses),
        (false, false) => Err(MutualExclusivityError::NeitherFileNorAddresses),
    }
}

/// The arguments of a lookup with the ip2location API.
#[derive(Clone, Debug, PartialEq, Eq)]
pub struct Ip2LocationArguments {
    /// IP addresses to fetch geolocation data about. Can be IPv4 or IPv6.
    pub addrs: Option<Vec<IpAddress>>,
    /// File to read IP addresses from.
    pub file: Option<String>,
}

impl MutualExclusivity for Ip2LocationArguments {
    type ExclusiveValue = ExclusiveGeolocationArgument;

    open spec fn exclusive_value(&self) -> Result<
        ExclusiveGeolocationArgument,
        MutualExclusivityError,
    > {
        exclusive_input(self.addrs is Some, self.file is Some)
    }

    fn check_exclusivity(&self) -> (value: Result<
        ExclusiveGeolocationArgument,
        MutualExclusivityError,
    >) {
        validate(self.addrs.is_some(), self.file.is_some())
    }
}

/// Both addrs and file are consumed when they are used: there is no need
/// to keep them around.
impl GeolocationInput for Ip2LocationArguments {
    open spec fn given_addrs(&self) -> Option<Vec<IpAddress>> {
        self.addrs
    }

    open spec fn given_file(&self) -> Option<String> {
        self.file
    }

    fn addrs(&mut self) -> (addrs: Option<Vec<IpAddress>>) {
        self.addrs.take()
    }

    fn file(&mut self) -> (file: Option<String>) {
        self.file.take()
    }
}

impl GeolocationProvider for Ip2LocationArguments {
    open spec fn chosen_provider(&self) -> Provider {
        Provider::Ip2Location
    }

    fn provider(&self) -> (provider: Provider) {
        Provider::Ip2Location
    }
}

/// The arguments of a lookup with the ipgeolocation API.
#[derive(Clone, Debug, PartialEq, Eq)]
pub struct IpGeolocationArguments {
    /// IP addresses to fetch geolocation data about. Can be IPv4 or IPv6.
    pub addrs: Option<Vec<IpAddress>>,
    /// File to read IP addresses from.
    pub file: Option<String>,
}

impl MutualExclusivity for IpGeolocationArguments {
    type ExclusiveValue = ExclusiveGeolocationArgument;

    open spec fn exclusive_value(&self) -> Result<
        ExclusiveGeolocationArgument,
        MutualExclusivityError,
    > {
        exclusive_input(self.addrs is Some, self.file is Some)
    }

    fn check_exclusivity(&self) -> (value: Result<
        ExclusiveGeolocationArgument,
        MutualExclusivityError,
    >) {
        validate(self.addrs.is_some(), self.file.is_some())
    }
}

impl GeolocationInput for IpGeolocationArguments {
    open spec fn given_addrs(&self) -> Option<Vec<IpAddress>> {
        self.addrs
    }

    open spec fn given_file(&self) -> Option<String> {
        self.file
    }

    fn addrs(&mut self) -> (addrs: Option<Vec<IpAddress>>) {
        self.addrs.take()
    }

    fn file(&mut self) -> (file: Option<String>) {
        self.file.take()
    }
}

impl GeolocationProvider for IpGeolocationArguments {
    open spec fn chosen_provider(&self) -> Provider {
        Provider::IpGeolocation
    }

    fn provider(&self) -> (provider: Provider) {
        Provider::IpGeolocation
    }
}

/// The arguments of the command that shows or edits the configuration.
#[derive(Clone, Copy, Debug, PartialEq, Eq, Structural)]
pub struct ConfigArguments {
    /// Print the configuration file's contents.
    pub show: bool,
    /// Edit the configuration file.
    pub edit: bool,
    /// Print the path to the configuration file.
    pub print_path: bool,
}

impl ConfigArguments {
    /// Whether the path to the configuration file is asked for.
    pub fn print_path(&self) -> (asked: bool)
        ensures
            asked == self.print_path,
    {
        self.print_path
    }
}

impl MutualExclusivity for ConfigArguments {
    type ExclusiveValue = ExclusiveConfigArgument;

    open spec fn exclusive_value(&self) -> Result<ExclusiveConfigArgument, MutualExclusivityError> {
        exclusive_config(self.show, self.edit)
    }

    fn check_exclusivity(&self) -> (value: Result<
        ExclusiveConfigArgument,
        MutualExclusivityError,
    >) {
        match (self.show, self.edit) {
            (false, true) => Ok(ExclusiveConfigArgument::Edit),
            (true, false) => Ok(ExclusiveConfigArgument::Show),
            (true, true) => Err(MutualExclusivityError::EditAndShow),
            (false, false) => Err(MutualExclusivityError::NeitherEditNorShow),
        }
    }
}

/// The directory that shell completions are written to.
#[derive(Clone, Debug, PartialEq, Eq)]
pub struct OutDir {
    pub path: Option<String>,
}

/// The shells that completions can be generated for.
#[derive(Clone, Debug, PartialEq, Eq)]
pub enum ShellCompletions {
    Bash(OutDir),
    Zsh(OutDir),
    Fish(OutDir),
    PowerShell(OutDir),
    Elvish(OutDir),
}

/// The commands of the program.
#[derive(Clone, Debug, PartialEq, Eq)]
pub enum Subcommands {
    /// Use the ip2location API.
    Ip2location(Ip2LocationArguments),
    /// Use the ipgeolocation API.
    Ipgeolocation(IpGeolocationArguments),
    /// Print the current configuration.
    Config(ConfigArguments),
    /// Generate shell completions.
    Completions(ShellCompletions),
}

/// What the command line holds.
#[derive(Clone, Debug, PartialEq, Eq)]
pub struct CommandLineArguments {
    pub command: Subcommands,
}

} // verus!
