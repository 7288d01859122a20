//! The `cargo` tool: where it is installed, and the command lines that
//! ask it for its version and for the metadata of a package.

use vstd::prelude::*;
use std::path::PathBuf;
use std::sync::Arc;
use crate::app::share_path;
use crate::args::{
    flag_for_each, flag_if_given, option_text, push_flag_for_each, push_flag_if_given,
};
use crate::text::texts;

verus! {

/// An installed `cargo`.
#[derive(Debug, Clone, PartialEq, Eq, Hash)]
pub struct Cargo {
    home_path: Arc<PathBuf>,
}

impl Cargo {
    /// The directory that holds the tool.
    pub closed spec fn home(&self) -> Arc<PathBuf> {
        self.home_path
    }

    /// The `cargo` that is installed in `home_path`.
    pub fn new(home_path: Arc<PathBuf>) -> (cargo: Cargo)
        ensures
            cargo.home() == home_path,
    {
        Cargo { home_path }
    }

    /// The directory that holds the tool.
    pub fn as_home_path(&self) -> (path: Arc<PathBuf>)
        ensures
            path == self.home(),
    {
        share_path(&self.home_path)
    }
}

/// A request to `cargo`.
#[derive(Debug, Clone, PartialEq, Eq, Hash)]
pub enum CargoCommandArgs {
    Version,
    Metadata { format_version: Option<String>, no_deps: bool, features: Vec<String> },
}

impl CargoCommandArgs {
    /// The arguments of the request: the subcommand, then `--no-deps` if
    /// asked for, a `-F` flag for each feature, and the format version if
    /// one is given.
    pub open spec fn args(self) -> Seq<Seq<char>> {
        match self {
            CargoCommandArgs::Version => seq!["version"@],
            CargoCommandArgs::Metadata { format_version, no_deps, features } => {
                seq!["metadata"@] + (if no_deps {
                    seq!["--no-deps"@]
                } else {
                    Seq::empty()
                }) + flag_for_each("-F"@, texts(features@)) + flag_if_given(
                    "--format-version"@,
                    option_text(format_version),
                )
            },
        }
    }

    /// The arguments of the request, as `cargo` takes them.
    pub fn into_args(self) -> (args: Vec<String>)
        ensures
            texts(args@) == self.args(),
    {
        let mut args: Vec<String> = Vec::new();
        match self {
            CargoCommandArgs::Version => {
                args.push(String::from_str("version"));
                assert(texts(args@) =~= seq!["version"@]);
            },
            CargoCommandArgs::Metadata { format_version, no_deps, features } => {
                args.push(String::from_str("metadata"));
                if no_deps {
                    args.push(String::from_str("--no-deps"));
                }
                assert(texts(args@) =~= seq!["metadata"@] + (if no_deps {
                    seq!["--no-deps"@]
                } else {
                    Seq::empty()
                }));
                push_flag_for_each(&mut args, "-F", &features);
                push_flag_if_given(&mut args, "--format-version", format_version);
            },
        }
        args
    }
}

impl Default for CargoCommandArgs {
    fn default() -> (r: CargoCommandArgs)
        ensures
            r is Version,
    {
        CargoCommandArgs::Version
    }
}

} // verus!
