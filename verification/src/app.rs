//! What is known of an installed application.

use vstd::prelude::*;
use std::path::PathBuf;
use std::sync::Arc;

verus! {

#[verifier::external_type_specification]
#[verifier::external_body]
pub struct ExPathBuf(PathBuf);

/// `Clone` of `PathBuf`: the copy is the same path.
pub assume_specification[ <PathBuf as Clone>::clone ](path: &PathBuf) -> (r: PathBuf)
    ensures
        r == *path,
;

/// `Debug` of a path: the path between quotes, with escapes. Nothing is
/// claimed of the text.
#[verifier::external_body]
fn path_in_quotes(path: &PathBuf) -> String {
    format!("{path:?}")
}

/// `Arc::clone`: another pointer to the same path.
#[verifier::external_body]
pub(crate) fn share_path(path: &Arc<PathBuf>) -> (r: Arc<PathBuf>)
    ensures
        r == *path,
{
    Arc::clone(path)
}

/// The licence of an application.
#[derive(Debug, PartialEq, Eq, Hash)]
pub enum AppLicense {
    Unknown,
    /// An identifier such as `GPL-3.0-only`.
    Text(String),
    /// A file that holds the terms.
    File(PathBuf),
    /// Either of two licences, at the user's choice.
    Or(Box<AppLicense>, Box<AppLicense>),
}

impl AppLicense {
    /// Whether the licence names no file.
    pub open spec fn is_plain(self) -> bool
        decreases self,
    {
        match self {
            AppLicense::Unknown => true,
            AppLicense::Text(_) => true,
            AppLicense::File(_) => false,
            AppLicense::Or(a, b) => a.is_plain() && b.is_plain(),
        }
    }

    /// The licence in words, where it names no file.
    pub open spec fn text(self) -> Seq<char>
        decreases self,
    {
        match self {
            AppLicense::Unknown => "Unknown"@,
            AppLicense::Text(s) => s@,
            AppLicense::File(_) => Seq::empty(),
            AppLicense::Or(a, b) => a.text() + " or "@ + b.text(),
        }
    }

    /// The licence in words. A file is shown by its path between quotes.
    pub fn to_text(&self) -> (s: String)
        ensures
            self.is_plain() ==> s@ == self.text(),
        decreases self,
    {
        match self {
            AppLicense::Unknown => String::from_str("Unknown"),
            AppLicense::Text(s) => s.clone(),
            AppLicense::File(path) => path_in_quotes(path),
            AppLicense::Or(a, b) => {
                let mut out = a.to_text();
                out.append(" or ");
                let right = b.to_text();
                out.append(right.as_str());
                out
            },
        }
    }
}

impl Default for AppLicense {
    fn default() -> (l: AppLicense)
        ensures
            l is Unknown,
    {
        AppLicense::Unknown
    }
}

/// The licence of the Rust tools: Apache or MIT.
pub fn rust_license() -> (l: AppLicense)
    ensures
        l.is_plain(),
        l.text() == "Apache"@ + " or "@ + "MIT"@,
{
    let apache = AppLicense::Text(String::from_str("Apache"));
    let mit = AppLicense::Text(String::from_str("MIT"));
    assert(apache.is_plain() && apache.text() == "Apache"@);
    assert(mit.is_plain() && mit.text() == "MIT"@);
    AppLicense::Or(Box::new(apache), Box::new(mit))
}

} // verus!
