//! The Rust toolchain as an installer sees it: release channels, host
//! triples and installation profiles, each with its name on a command line.

use vstd::prelude::*;
use crate::text::str_eq;

verus! {

/// A release channel.
#[derive(Debug, Clone, Copy, PartialEq, Eq, Structural, Hash)]
pub enum Toolchain {
    Stable,
    Beta,
    Nightly,
    NoToolchain,
}

/// The platform that a toolchain is installed for.
#[derive(Debug, Clone, PartialEq, Eq, Hash)]
pub enum HostTriple {
    /// The platform of the machine.
    Host,
    /// A named platform, such as `x86_64-unknown-linux-gnu`.
    Target(String),
}

/// How much of a toolchain is installed.
#[derive(Debug, Clone, Copy, PartialEq, Eq, Structural, Hash)]
pub enum Profile {
    Minimal,
    Default,
    Complete,
}

impl Toolchain {
    /// The name of the channel.
    pub open spec fn name(self) -> Seq<char> {
        match self {
            Toolchain::Stable => "stable"@,
            Toolchain::Beta => "beta"@,
            Toolchain::Nightly => "nightly"@,
            Toolchain::NoToolchain => "none"@,
        }
    }

    /// The name of the channel, as it is written on a command line.
    pub fn to_text(&self) -> (s: String)
        ensures
            s@ == self.name(),
    {
        match self {
            Toolchain::Stable => String::from_str("stable"),
            Toolchain::Beta => String::from_str("beta"),
            Toolchain::Nightly => String::from_str("nightly"),
            Toolchain::NoToolchain => String::from_str("none"),
        }
    }

    /// The channel of the given name, if it is the name of one.
    pub fn parse(s: &str) -> (r: Option<Toolchain>)
        ensures
            match r {
                Some(t) => s@ == t.name(),
                None => forall|t: Toolchain| s@ != t.name(),
            },
    {
        if str_eq(s, "stable") {
            Some(Toolchain::Stable)
        } else if str_eq(s, "beta") {
            Some(Toolchain::Beta)
        } else if str_eq(s, "nightly") {
            Some(Toolchain::Nightly)
        } else if str_eq(s, "none") {
            Some(Toolchain::NoToolchain)
        } else {
            None
        }
    }
}

impl Default for Toolchain {
    fn default() -> (t: Toolchain)
        ensures
            t == Toolchain::Stable,
    {
        Toolchain::Stable
    }
}

impl HostTriple {
    /// The name of the platform: `host` for the machine's own.
    pub open spec fn name(self) -> Seq<char> {
        match self {
            HostTriple::Host => "host"@,
            HostTriple::Target(target) => target@,
        }
    }

    /// The named platform, or nothing for the machine's own.
    pub fn to_string(self) -> (r: Option<String>)
        ensures
            match self {
                HostTriple::Host => r is None,
                HostTriple::Target(target) => r == Some(target),
            },
    {
        match self {
            HostTriple::Host => None,
            HostTriple::Target(target) => Some(target),
        }
    }

    /// The name of the platform, as it is written on a command line.
    pub fn to_text(&self) -> (s: String)
        ensures
            s@ == self.name(),
    {
        match self {
            HostTriple::Host => String::from_str("host"),
            HostTriple::Target(target) => target.clone(),
        }
    }

    /// The platform of the given name: any name but `host` is that of a target.
    pub fn parse(s: &str) -> (r: HostTriple)
        ensures
            r.name() == s@,
            r is Host <==> s@ == "host"@,
    {
        if str_eq(s, "host") {
            HostTriple::Host
        } else {
            HostTriple::Target(String::from_str(s))
        }
    }
}

impl Default for HostTriple {
    fn default() -> (h: HostTriple)
        ensures
            h is Host,
    {
        HostTriple::Host
    }
}

impl Profile {
    /// The name of the profile.
    pub open spec fn name(self) -> Seq<char> {
        match self {
            Profile::Minimal => "minimal"@,
            Profile::Default => "default"@,
            Profile::Complete => "complete"@,
        }
    }

    /// The name of the profile, as it is written on a command line.
    pub fn to_text(&self) -> (s: String)
        ensures
            s@ == self.name(),
    {
        match self {
            Profile::Minimal => String::from_str("minimal"),
            Profile::Default => String::from_str("default"),
            Profile::Complete => String::from_str("complete"),
        }
    }

    /// The profile of the given name, if it is the name of one.
    pub fn parse(s: &str) -> (r: Option<Profile>)
        ensures
            match r {
                Some(p) => s@ == p.name(),
                None => forall|p: Profile| s@ != p.name(),
            },
    {
        if str_eq(s, "minimal") {
            Some(Profile::Minimal)
        } else if str_eq(s, "default") {
            Some(Profile::Default)
        } else if str_eq(s, "complete") {
            Some(Profile::Complete)
        } else {
            None
        }
    }
}

impl Default for Profile {
    fn default() -> (p: Profile)
        ensures
            p == Profile::Default,
    {
        Profile::Default
    }
}

/// What can go wrong with a Rust tool, as far as it is decided here.
#[derive(Debug)]
pub enum ToolError {
    Unsupported(String),
    InnerError(String),
    Failed(String),
    FailedToGetHomeDir,
    RegexError(String),
    VersionStringNoMatch,
    InvalidRsinitShContent,
}

impl ToolError {
    /// The error in words.
    pub open spec fn text(self) -> Seq<char> {
        match self {
            ToolError::Unsupported(what) => "Unsupported: "@ + what@,
            ToolError::InnerError(what) => "Inner error: "@ + what@,
            ToolError::Failed(what) => "Failed: "@ + what@,
            ToolError::FailedToGetHomeDir => "Failed to get HOME dir"@,
            ToolError::RegexError(what) => "Regex error: "@ + what@,
            ToolError::VersionStringNoMatch => "Version string no match"@,
            ToolError::InvalidRsinitShContent => "Invalid rustup-init.sh content"@,
        }
    }

    /// The error in words.
    pub fn to_text(&self) -> (s: String)
        ensures
            s@ == self.text(),
    {
        match self {
            ToolError::Unsupported(what) => String::from_str("Unsupported: ").concat(what.as_str()),
            ToolError::InnerError(what) => String::from_str("Inner error: ").concat(what.as_str()),
            ToolError::Failed(what) => String::from_str("Failed: ").concat(what.as_str()),
            ToolError::FailedToGetHomeDir => String::from_str("Failed to get HOME dir"),
            ToolError::RegexError(what) => String::from_str("Regex error: ").concat(what.as_str()),
            ToolError::VersionStringNoMatch => String::from_str("Version string no match"),
            ToolError::InvalidRsinitShContent => String::from_str("Invalid rustup-init.sh content"),
        }
    }
}

} // verus!
