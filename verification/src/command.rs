//! What a command line of the build tool can ask for.

use vstd::prelude::*;
use std::path::PathBuf;

verus! {

/// A shell that a completion script can be written for.
#[derive(Debug, Clone, Copy, PartialEq, Eq, Structural)]
pub enum ShellSubCommand {
    Bash,
    Elvish,
    Fish,
    PowerShell,
    Zsh,
}

impl ShellSubCommand {
    /// The name of the shell on the command line.
    pub open spec fn name(self) -> Seq<char> {
        match self {
            ShellSubCommand::Bash => "bash"@,
            ShellSubCommand::Elvish => "elvish"@,
            ShellSubCommand::Fish => "fish"@,
            ShellSubCommand::PowerShell => "powershell"@,
            ShellSubCommand::Zsh => "zsh"@,
        }
    }

    /// The name of the shell on the command line.
    pub fn to_text(&self) -> (s: String)
        ensures
            s@ == self.name(),
    {
        match self {
            ShellSubCommand::Bash => String::from_str("bash"),
            ShellSubCommand::Elvish => String::from_str("elvish"),
            ShellSubCommand::Fish => String::from_str("fish"),
            ShellSubCommand::PowerShell => String::from_str("powershell"),
            ShellSubCommand::Zsh => String::from_str("zsh"),
        }
    }
}

/// The shell that a completion script is asked for.
#[derive(Debug, Clone, Copy, PartialEq, Eq, Structural)]
pub struct ShellOptions {
    pub shell_sub_command: ShellSubCommand,
}

/// What to do with a completion script.
#[derive(Debug, Clone, Copy, PartialEq, Eq, Structural)]
pub enum AutoCompleteSubCommand {
    Install { shell: ShellOptions },
    Reinstall { shell: ShellOptions },
    Uninstall { shell: ShellOptions },
}

impl AutoCompleteSubCommand {
    /// The shell that the request is about.
    pub fn shell(&self) -> (shell: ShellSubCommand)
        ensures
            shell == match *self {
                AutoCompleteSubCommand::Install { shell } => shell.shell_sub_command,
                AutoCompleteSubCommand::Reinstall { shell } => shell.shell_sub_command,
                AutoCompleteSubCommand::Uninstall { shell } => shell.shell_sub_command,
            },
    {
        match self {
            AutoCompleteSubCommand::Install { shell } => shell.shell_sub_command,
            AutoCompleteSubCommand::Reinstall { shell } => shell.shell_sub_command,
            AutoCompleteSubCommand::Uninstall { shell } => shell.shell_sub_command,
        }
    }
}

/// The workspace, project and profile that a command is about.
#[derive(Debug, Clone, PartialEq, Eq)]
pub struct ScopeOptions {
    pub workspace: Option<PathBuf>,
    pub project: Option<String>,
    pub profile: Option<String>,
}

impl Default for ScopeOptions {
    fn default() -> (scope: ScopeOptions)
        ensures
            scope.workspace is None,
            scope.project is None,
            scope.profile is None,
    {
        ScopeOptions { workspace: None, project: None, profile: None }
    }
}

} // verus!
