//! Where the completions for a shell are to be generated.

use crate::parser::{OutDir, ShellCompletions};
use vstd::prelude::*;

verus! {

/// The shells that completions can be generated for.
#[derive(Clone, Copy, Debug, PartialEq, Eq, Structural)]
pub enum Shell {
    Bash,
    Zsh,
    Fish,
    PowerShell,
    Elvish,
}

/// A shell together with the directory that its completions are meant for,
/// if one was named.
#[derive(Clone, Debug, PartialEq, Eq)]
pub enum ShellName {
    Bash { name: Shell, outdir: Option<String> },
    Zsh { name: Shell, outdir: Option<String> },
    Fish { name: Shell, outdir: Option<String> },
    PowerShell { name: Shell, outdir: Option<String> },
    Elvish { name: Shell, outdir: Option<String> },
}

/// What is to be generated: the completions of a program for a shell, and
/// the directory that they are written to.
#[derive(Clone, Debug, PartialEq, Eq)]
pub struct CompletionTarget {
    /// The shell that the completions are for.
    pub shell: Shell,
    /// The name of the program that is completed.
    pub bin_name: String,
    /// The directory that the completions are written to.
    pub directory: String,
}

/// The directory that completions go to where none is named: the current
/// one.
pub open spec fn directory_or_current(outdir: Option<String>) -> Seq<char> {
    match outdir {
        Some(directory) => directory@,
        None => "."@,
    }
}

/// The directory that completions go to: the one that was named, or else
/// the current directory.
pub fn default_dir(outdir: Option<String>) -> (directory: String)
    ensures
        directory@ == directory_or_current(outdir),
{
    match outdir {
        Some(directory) => directory,
        None => ".".to_owned(),
    }
}

/// The shell that a command asks completions for, with the directory that
/// it names.
pub open spec fn match_shell_spec(shell: ShellCompletions) -> ShellName {
    match shell {
        ShellCompletions::Bash(OutDir { path }) => ShellName::Bash {
            name: Shell::Bash,
            outdir: path,
        },
        ShellCompletions::Zsh(OutDir { path }) => ShellName::Zsh { name: Shell::Zsh, outdir: path },
        ShellCompletions::Fish(OutDir { path }) => ShellName::Fish {
            name: Shell::Fish,
            outdir: path,
        },
        ShellCompletions::PowerShell(OutDir { path }) => ShellName::PowerShell {
            name: Shell::PowerShell,
            outdir: path,
        },
        ShellCompletions::Elvish(OutDir { path }) => ShellName::Elvish {
            name: Shell::Elvish,
            outdir: path,
        },
    }
}

/// Names the shell that the command asks completions for.
pub fn match_shell(shell: ShellCompletions) -> (shell_name: ShellName)
    ensures
        shell_name == match_shell_spec(shell),
{
    match shell {
        ShellCompletions::Bash(OutDir { path: outdir }) => ShellName::Bash {
            name: Shell::Bash,
            outdir,
        },
        ShellCompletions::Zsh(OutDir { path: outdir }) => ShellName::Zsh {
            name: Shell::Zsh,
            outdir,
        },
        ShellCompletions::Fish(OutDir { path: outdir }) => ShellName::Fish {
            name: Shell::Fish,
            outdir,
        },
        ShellCompletions::PowerShell(OutDir { path: outdir }) => ShellName::PowerShell {
            name: Shell::PowerShell,
            outdir,
        },
        ShellCompletions::Elvish(OutDir { path: outdir }) => ShellName::Elvish {
            name: Shell::Elvish,
            outdir,
        },
    }
}

impl ShellName {
    /// The shell that is named.
    pub open spec fn shell(self) -> Shell {
        match self {
            ShellName::Bash { name, outdir } => name,
            ShellName::Zsh { name, outdir } => name,
            ShellName::Fish { name, outdir } => name,
            ShellName::PowerShell { name, outdir } => name,
            ShellName::Elvish { name, outdir } => name,
        }
    }

    /// The directory that was named for the completions, if any.
    pub open spec fn outdir(self) -> Option<String> {
        match self {
            ShellName::Bash { name, outdir } => outdir,
            ShellName::Zsh { name, outdir } => outdir,
            ShellName::Fish { name, outdir } => outdir,
            ShellName::PowerShell { name, outdir } => outdir,
            ShellName::Elvish { name, outdir } => outdir,
        }
    }
}

/// Tells what is to be generated for the named shell: the completions of
/// `geolocate`, written to the directory that was named, or else to the
/// current one.
pub fn generate_completions_to(shell_name: ShellName) -> (target: CompletionTarget)
    ensures
        target.shell == shell_name.shell(),
        target.bin_name@ == "geolocate"@,
        target.directory@ == directory_or_current(shell_name.outdir()),
{
    match shell_name {
        ShellName::Bash { name, outdir } => CompletionTarget {
            shell: name,
            bin_name: "geolocate".to_owned(),
            directory: default_dir(outdir),
        },
        ShellName::Zsh { name, outdir } => CompletionTarget {
            shell: name,
            bin_name: "geolocate".to_owned(),
            directory: default_dir(outdir),
        },
        ShellName::Fish { name, outdir } => CompletionTarget {
            shell: name,
            bin_name: "geolocate".to_owned(),
            directory: default_dir(outdir),
        },
        ShellName::PowerShell { name, outdir } => CompletionTarget {
            shell: name,
            bin_name: "geolocate".to_owned(),
            directory: default_dir(outdir),
        },
        ShellName::Elvish { name, outdir } => CompletionTarget {
            shell: name,
            bin_name: "geolocate".to_owned(),
            directory: default_dir(outdir),
        },
    }
}

/// Tells what is to be generated for the shell that the command names.
pub fn generate_shell_completions(shell: ShellCompletions) -> (target: CompletionTarget)
    ensures
        target.shell == match_shell_spec(shell).shell(),
        target.bin_name@ == "geolocate"@,
        target.directory@ == directory_or_current(match_shell_spec(shell).outdir()),
{
    let shell_name = match_shell(shell);
    generate_completions_to(shell_name)
}

} // verus!
