use geolocate_lib::completions::{
    default_dir, generate_completions_to, generate_shell_completions, match_shell,
    CompletionTarget, Shell, ShellName,
};
use geolocate_lib::parser::{OutDir, ShellCompletions};

fn out(path: Option<&str>) -> OutDir {
    OutDir { path: path.map(|p| p.to_string()) }
}

#[test]
fn default_directory_is_the_current_one() {
    assert_eq!(default_dir(None), ".");
    assert_eq!(default_dir(Some("/tmp/completions".to_string())), "/tmp/completions");
    assert_eq!(default_dir(Some("".to_string())), "");
}

#[test]
fn every_shell_is_matched() {
    assert_eq!(
        match_shell(ShellCompletions::Bash(out(None))),
        ShellName::Bash { name: Shell::Bash, outdir: None }
    );
    assert_eq!(
        match_shell(ShellCompletions::Zsh(out(Some("z")))),
        ShellName::Zsh { name: Shell::Zsh, outdir: Some("z".to_string()) }
    );
    assert_eq!(
        match_shell(ShellCompletions::Fish(out(Some("f")))),
        ShellName::Fish { name: Shell::Fish, outdir: Some("f".to_string()) }
    );
    assert_eq!(
        match_shell(ShellCompletions::PowerShell(out(None))),
        ShellName::PowerShell { name: Shell::PowerShell, outdir: None }
    );
    assert_eq!(
        match_shell(ShellCompletions::Elvish(out(Some("e")))),
        ShellName::Elvish { name: Shell::Elvish, outdir: Some("e".to_string()) }
    );
}

#[test]
fn completions_are_generated_for_geolocate() {
    assert_eq!(
        generate_completions_to(ShellName::Fish { name: Shell::Fish, outdir: None }),
        CompletionTarget {
            shell: Shell::Fish,
            bin_name: "geolocate".to_string(),
            directory: ".".to_string(),
        }
    );
    assert_eq!(
        generate_shell_completions(ShellCompletions::Zsh(out(Some("/usr/share/zsh")))),
        CompletionTarget {
            shell: Shell::Zsh,
            bin_name: "geolocate".to_string(),
            directory: "/usr/share/zsh".to_string(),
        }
    );
    for (shell, expected) in [
        (ShellCompletions::Bash(out(None)), Shell::Bash),
        (ShellCompletions::Zsh(out(None)), Shell::Zsh),
        (ShellCompletions::Fish(out(None)), Shell::Fish),
        (ShellCompletions::PowerShell(out(None)), Shell::PowerShell),
        (ShellCompletions::Elvish(out(None)), Shell::Elvish),
    ] {
        assert_eq!(generate_shell_completions(shell).shell, expected);
    }
}
