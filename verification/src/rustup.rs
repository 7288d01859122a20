//! The `rustup` installer: what can be asked of it, and the arguments that
//! its installation script takes.

use vstd::prelude::*;
use std::path::PathBuf;
use crate::rust::{HostTriple, Profile, ToolError, Toolchain};
use crate::text::texts;

verus! {

/// An installed `rustup`.
#[derive(Debug, Clone, PartialEq, Eq, Hash)]
pub struct Rustup {
    pub home_path: PathBuf,
}

/// The choices of a custom installation.
#[derive(Debug, Clone, PartialEq, Eq, Hash)]
pub struct InstallCustomInfo {
    pub default_host_triple: HostTriple,
    pub default_toolchain: Toolchain,
    pub profile: Profile,
    pub modify_path_variable: bool,
}

/// How to install.
#[derive(Debug, Clone, PartialEq, Eq, Hash)]
pub enum InstallInfo {
    Default,
    Custom(InstallCustomInfo),
}

/// How to install again.
#[derive(Debug, Clone, PartialEq, Eq, Hash)]
pub enum ReinstallInfo {
    Default,
    Custom(InstallCustomInfo),
}

/// How to remove.
#[derive(Debug, Clone, Copy, PartialEq, Eq, Structural, Hash)]
pub enum RemoveInfo {
    Default,
}

/// How to update.
#[derive(Debug, Clone, Copy, PartialEq, Eq, Structural, Hash)]
pub enum UpdateInfo {
    Default,
}

impl InstallCustomInfo {
    /// The arguments that state the choices: the host triple, the
    /// toolchain and the profile, each between single quotes, and a last
    /// one if the `PATH` variable is to be changed.
    pub open spec fn args(self) -> Seq<Seq<char>> {
        seq![
            "--default-host-triple='"@ + self.default_host_triple.name() + "'"@,
            "--default-toolchain='"@ + self.default_toolchain.name() + "'"@,
            "--profile='"@ + self.profile.name() + "'"@,
        ] + (if self.modify_path_variable {
            seq![" --modify-path"@]
        } else {
            Seq::empty()
        })
    }
}

impl Default for InstallCustomInfo {
    fn default() -> (info: InstallCustomInfo)
        ensures
            info.default_host_triple is Host,
            info.default_toolchain == Toolchain::Stable,
            info.profile == Profile::Default,
            info.modify_path_variable,
    {
        InstallCustomInfo {
            default_host_triple: HostTriple::Host,
            default_toolchain: Toolchain::Stable,
            profile: Profile::Default,
            modify_path_variable: true,
        }
    }
}

/// `option`, then `value` between single quotes.
fn quoted_option(option: &str, value: &str) -> (s: String)
    ensures
        s@ == option@ + value@ + "'"@,
{
    let mut s = String::from_str(option);
    s.append(value);
    s.append("'");
    s
}

impl InstallInfo {
    /// The arguments of the installation script: `-y`, so that it asks
    /// nothing, then the choices of a custom installation.
    pub open spec fn args(self) -> Seq<Seq<char>> {
        match self {
            InstallInfo::Default => seq!["-y"@],
            InstallInfo::Custom(custom) => seq!["-y"@] + custom.args(),
        }
    }

    /// The arguments of the installation script.
    pub fn to_args(&self) -> (args: Vec<String>)
        ensures
            texts(args@) == self.args(),
    {
        let mut args: Vec<String> = Vec::new();
        args.push(String::from_str("-y"));
        match self {
            InstallInfo::Default => {},
            InstallInfo::Custom(custom) => {
                let host = custom.default_host_triple.to_text();
                args.push(quoted_option("--default-host-triple='", host.as_str()));
                let toolchain = custom.default_toolchain.to_text();
                args.push(quoted_option("--default-toolchain='", toolchain.as_str()));
                let profile = custom.profile.to_text();
                args.push(quoted_option("--profile='", profile.as_str()));
                if custom.modify_path_variable {
                    args.push(String::from_str(" --modify-path"));
                }
            },
        }
        assert(texts(args@) =~= self.args());
        args
    }
}

impl Default for InstallInfo {
    fn default() -> (info: InstallInfo)
        ensures
            info is Default,
    {
        InstallInfo::Default
    }
}

impl Default for ReinstallInfo {
    fn default() -> (info: ReinstallInfo)
        ensures
            info is Default,
    {
        ReinstallInfo::Default
    }
}

impl Default for RemoveInfo {
    fn default() -> (info: RemoveInfo)
        ensures
            info == RemoveInfo::Default,
    {
        RemoveInfo::Default
    }
}

impl Default for UpdateInfo {
    fn default() -> (info: UpdateInfo)
        ensures
            info == UpdateInfo::Default,
    {
        UpdateInfo::Default
    }
}

/// How a process ended: with a code, or without one if a signal ended it.
#[derive(Debug, Clone, Copy, PartialEq, Eq, Structural)]
pub struct Exit {
    pub code: Option<i32>,
}

impl Exit {
    /// Whether the process ended with code 0.
    pub open spec fn succeeded(self) -> bool {
        self.code == Some(0i32)
    }

    /// Whether the process ended with code 0.
    pub fn success(&self) -> (b: bool)
        ensures
            b == self.succeeded(),
    {
        match self.code {
            Some(code) => code == 0,
            None => false,
        }
    }
}

/// What a process left behind: how it ended and what it wrote.
#[derive(Debug, Clone, PartialEq, Eq)]
pub struct Output {
    pub exit: Exit,
    pub stdout: String,
    pub stderr: String,
}

/// The stages of an installation.
#[derive(Debug, Clone, PartialEq, Eq)]
pub enum RustupInstallStatus {
    Initial,
    Downloading,
    Downloaded,
    Running,
    OnExitStatus(Exit),
    Success,
    Failed { exit_status: Exit, stdout: String, stderr: String },
}

/// The stages of a second installation.
#[derive(Debug, Clone, PartialEq, Eq)]
pub enum RustupReinstallStatus {
    Initial,
    RemoveStatus(RustupInstallStatus),
    InstallStatus(RustupInstallStatus),
    Success,
    Failed { exit_status: Exit, stdout: String, stderr: String },
}

/// The stages of a removal.
#[derive(Debug, Clone, PartialEq, Eq)]
pub enum RustupRemoveStatus {
    Initial,
    Running,
    OnExitStatus(Exit),
    Success,
    Failed { exit_status: Exit, stdout: String, stderr: String },
}

/// The stages of an update.
#[derive(Debug, Clone, PartialEq, Eq)]
pub enum RustupUpdateStatus {
    Initial,
    Running,
    OnExitStatus(Exit),
    Success,
    Failed { exit_status: Exit, stdout: String, stderr: String },
}

/// What happened to an installation.
#[derive(Debug)]
pub enum InstallEvent {
    /// It was asked for.
    Started,
    /// The installation script is at hand.
    ScriptReady,
    /// The process has ended.
    Exited(Output),
}

/// What is to be done next.
#[derive(Debug)]
pub enum Action {
    /// Get the installation script.
    FetchScript,
    /// Run the script or the tool with these arguments, and wait for its end.
    Run(Vec<String>),
    /// Stop, with this result.
    Finish(Result<(), ToolError>),
}

impl Action {
    /// The arguments to run with, if the action is to run.
    pub open spec fn run_args(self) -> Option<Seq<Seq<char>>> {
        match self {
            Action::Run(args) => Some(texts(args@)),
            _ => None,
        }
    }

    /// Whether the action is to stop with a failure of the given text.
    pub open spec fn fails_with(self, text: Seq<char>) -> bool {
        self matches Action::Finish(Err(ToolError::Failed(t))) && t@ == text
    }
}

/// What is reported when the process did not end well.
pub open spec fn failure_text() -> Seq<char> {
    "Rustup installation failed. For more, please use on_status_changed."@
}

fn failure() -> (e: ToolError)
    ensures
        e matches ToolError::Failed(t) && t@ == failure_text(),
{
    ToolError::Failed(
        String::from_str("Rustup installation failed. For more, please use on_status_changed."),
    )
}

/// The course of an installation. For each event it says which stages
/// are reached, in order, and what is to be done then. When it is asked
/// for, the script is fetched; with the script at hand, it is run with
/// the arguments of `info`; when the script has ended, the installation
/// has succeeded if the script has, and failed if not.
pub fn install_step(event: InstallEvent, info: &InstallInfo) -> (r: (Vec<RustupInstallStatus>, Action))
    ensures
        match event {
            InstallEvent::Started => r.0@ == seq![
                RustupInstallStatus::Initial,
                RustupInstallStatus::Downloading,
            ] && r.1 is FetchScript,
            InstallEvent::ScriptReady => r.0@ == seq![
                RustupInstallStatus::Downloaded,
                RustupInstallStatus::Running,
            ] && r.1.run_args() == Some(info.args()),
            InstallEvent::Exited(out) => if out.exit.succeeded() {
                r.0@ == seq![
                    RustupInstallStatus::OnExitStatus(out.exit),
                    RustupInstallStatus::Success,
                ] && r.1 matches Action::Finish(Ok(_))
            } else {
                r.0@ == seq![
                    RustupInstallStatus::OnExitStatus(out.exit),
                    RustupInstallStatus::Failed {
                        exit_status: out.exit,
                        stdout: out.stdout,
                        stderr: out.stderr,
                    },
                ] && r.1.fails_with(failure_text())
            },
        },
{
    let mut stages: Vec<RustupInstallStatus> = Vec::new();
    match event {
        InstallEvent::Started => {
            stages.push(RustupInstallStatus::Initial);
            stages.push(RustupInstallStatus::Downloading);
            (stages, Action::FetchScript)
        },
        InstallEvent::ScriptReady => {
            stages.push(RustupInstallStatus::Downloaded);
            stages.push(RustupInstallStatus::Running);
            (stages, Action::Run(info.to_args()))
        },
        InstallEvent::Exited(out) => {
            stages.push(RustupInstallStatus::OnExitStatus(out.exit));
            if out.exit.success() {
                stages.push(RustupInstallStatus::Success);
                (stages, Action::Finish(Ok(())))
            } else {
                stages.push(
                    RustupInstallStatus::Failed {
                        exit_status: out.exit,
                        stdout: out.stdout,
                        stderr: out.stderr,
                    },
                );
                (stages, Action::Finish(Err(failure())))
            }
        },
    }
}

/// The arguments that make `rustup` remove itself.
pub open spec fn uninstall_args() -> Seq<Seq<char>> {
    seq!["self"@, "uninstall"@]
}

/// The course of a removal. When it is asked for, nothing having ended
/// yet, `rustup` is run so that it removes itself; when that has ended,
/// the removal has succeeded if it has, and failed if not.
pub fn remove_step(ended: Option<Output>) -> (r: (Vec<RustupRemoveStatus>, Action))
    ensures
        match ended {
            None => r.0@ == seq![RustupRemoveStatus::Initial, RustupRemoveStatus::Running]
                && r.1.run_args() == Some(uninstall_args()),
            Some(out) => if out.exit.succeeded() {
                r.0@ == seq![
                    RustupRemoveStatus::OnExitStatus(out.exit),
                    RustupRemoveStatus::Success,
                ] && r.1 matches Action::Finish(Ok(_))
            } else {
                r.0@ == seq![
                    RustupRemoveStatus::OnExitStatus(out.exit),
                    RustupRemoveStatus::Failed {
                        exit_status: out.exit,
                        stdout: out.stdout,
                        stderr: out.stderr,
                    },
                ] && r.1.fails_with(failure_text())
            },
        },
{
    let mut stages: Vec<RustupRemoveStatus> = Vec::new();
    match ended {
        None => {
            stages.push(RustupRemoveStatus::Initial);
            stages.push(RustupRemoveStatus::Running);
            let args = uninstall();
            (stages, Action::Run(args))
        },
        Some(out) => {
            stages.push(RustupRemoveStatus::OnExitStatus(out.exit));
            if out.exit.success() {
                stages.push(RustupRemoveStatus::Success);
                (stages, Action::Finish(Ok(())))
            } else {
                stages.push(
                    RustupRemoveStatus::Failed {
                        exit_status: out.exit,
                        stdout: out.stdout,
                        stderr: out.stderr,
                    },
                );
                (stages, Action::Finish(Err(failure())))
            }
        },
    }
}

fn uninstall() -> (args: Vec<String>)
    ensures
        texts(args@) == uninstall_args(),
{
    let mut args: Vec<String> = Vec::new();
    args.push(String::from_str("self"));
    args.push(String::from_str("uninstall"));
    assert(texts(args@) =~= uninstall_args());
    args
}

/// The age, in seconds, from which a kept installation script is fetched anew.
pub const SCRIPT_MAX_AGE: u64 = 1440;

/// Whether the installation script has to be fetched: it is not there, it
/// is no regular file, or it is too old.
pub fn script_is_stale(present: bool, is_file: bool, age_in_seconds: u64) -> (stale: bool)
    ensures
        stale == (!present || !is_file || age_in_seconds >= SCRIPT_MAX_AGE),
{
    !present || !is_file || age_in_seconds >= SCRIPT_MAX_AGE
}

/// Whether the text starts like a script, with `#!`.
pub open spec fn is_script(content: Seq<char>) -> bool {
    content.len() >= 2 && content[0] == '#' && content[1] == '!'
}

/// Accepts what was fetched as the installation script if it starts like
/// a script.
pub fn check_script(content: &str) -> (r: Result<(), ToolError>)
    ensures
        match r {
            Ok(_) => is_script(content@),
            Err(e) => e is InvalidRsinitShContent && !is_script(content@),
        },
{
    let n = content.unicode_len();
    if n >= 2 && content.get_char(0) == '#' && content.get_char(1) == '!' {
        Ok(())
    } else {
        Err(ToolError::InvalidRsinitShContent)
    }
}

} // verus!
