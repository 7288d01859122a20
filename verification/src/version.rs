//! The version line that a Rust tool prints, such as
//! `rustup 1.28.2 (e4f3ad6f8 2025-04-28)`, taken apart.

use vstd::prelude::*;
use crate::rust::ToolError;

verus! {

#[verifier::external_type_specification]
#[verifier::external_body]
pub struct ExRegex(regex::Regex);

#[verifier::external_type_specification]
#[verifier::external_body]
pub struct ExRegexError(regex::Error);

/// The pattern that a compiled regular expression holds.
pub uninterp spec fn regex_source(re: regex::Regex) -> Seq<char>;

/// What the leftmost match of `pattern` in `text` captures: nothing if
/// there is no match, else the text of each group, the whole match first,
/// with nothing for a group that took no part.
pub uninterp spec fn regex_groups(pattern: Seq<char>, text: Seq<char>) -> Option<
    Seq<Option<Seq<char>>>,
>;

/// The texts of a list of captured groups.
pub open spec fn group_texts(groups: Seq<Option<String>>) -> Seq<Option<Seq<char>>> {
    Seq::new(
        groups.len(),
        |i: int|
            match groups[i] {
                Some(s) => Some(s@),
                None => None,
            },
    )
}

/// The texts of what a search captured.
pub open spec fn capture_texts(captures: Option<Vec<Option<String>>>) -> Option<
    Seq<Option<Seq<char>>>,
> {
    match captures {
        Some(groups) => Some(group_texts(groups@)),
        None => None,
    }
}

/// `regex::Regex::new`: compiles `pattern`, or says why it cannot. A
/// compiled expression keeps its pattern.
#[verifier::external_body]
fn compile_regex(pattern: &str) -> (r: Result<regex::Regex, regex::Error>)
    ensures
        r matches Ok(re) ==> regex_source(re) == pattern@,
{
    regex::Regex::new(pattern)
}

/// `regex::Regex::captures`: the groups of the leftmost match in `text`,
/// which depend on the pattern and the text alone.
#[verifier::external_body]
fn regex_captures(re: &regex::Regex, text: &str) -> (r: Option<Vec<Option<String>>>)
    ensures
        capture_texts(r) == regex_groups(regex_source(*re), text@),
{
    re.captures(text).map(|c| c.iter().map(|m| m.map(|m| m.as_str().to_string())).collect())
}

/// `Display` of `regex::Error`. Nothing is claimed of its wording.
#[verifier::external_body]
fn describe_regex_error(e: &regex::Error) -> String {
    e.to_string()
}

/// The parts of a version line.
#[derive(Debug, Clone, Hash, PartialEq, Eq)]
pub struct RustVersion {
    pub tool_name: String,
    pub version: String,
    pub hash: Option<String>,
    pub date: String,
}

/// What a `RustVersion` stands for.
pub struct RustVersionModel {
    pub tool_name: Seq<char>,
    pub version: Seq<char>,
    pub hash: Option<Seq<char>>,
    pub date: Seq<char>,
}

impl View for RustVersion {
    type V = RustVersionModel;

    open spec fn view(&self) -> RustVersionModel {
        RustVersionModel {
            tool_name: self.tool_name@,
            version: self.version@,
            hash: match self.hash {
                Some(h) => Some(h@),
                None => None,
            },
            date: self.date@,
        }
    }
}

impl RustVersionModel {
    /// The version line: name, version, and in brackets the hash, if
    /// there is one, and the date.
    pub open spec fn line(self) -> Seq<char> {
        match self.hash {
            Some(hash) => self.tool_name + " "@ + self.version + " ("@ + hash + " "@ + self.date
                + ")"@,
            None => self.tool_name + " "@ + self.version + " ("@ + self.date + ")"@,
        }
    }
}

impl RustVersion {
    /// The version line.
    pub fn to_text(&self) -> (s: String)
        ensures
            s@ == self@.line(),
    {
        let mut s = self.tool_name.clone();
        s.append(" ");
        s.append(self.version.as_str());
        s.append(" (");
        match &self.hash {
            Some(hash) => {
                s.append(hash.as_str());
                s.append(" ");
            },
            None => {},
        }
        s.append(self.date.as_str());
        s.append(")");
        s
    }
}

/// The pattern of a version line: a tool name, a version, and in brackets
/// an optional hash and a date. The hash is group 3, the date group 4.
pub const RUST_VERSION: &'static str =
    r"(.+)\s+([\w.\-]+)\s+\((?:(?P<hash>[a-f0-9]+)\s+)?(?P<date>\d{4}-\d{2}-\d{2})\)";

/// Whether the captured groups are those of a version line: five of them,
/// of which only the hash may be missing.
pub open spec fn is_version_capture(groups: Seq<Option<Seq<char>>>) -> bool {
    groups.len() == 5 && groups[1] is Some && groups[2] is Some && groups[4] is Some
}

/// The version that the captured groups spell out.
pub open spec fn version_of(groups: Seq<Option<Seq<char>>>) -> RustVersionModel {
    RustVersionModel {
        tool_name: groups[1]->0,
        version: groups[2]->0,
        hash: groups[3],
        date: groups[4]->0,
    }
}

/// Builds the version from what a search with `RUST_VERSION` captured.
/// Without a match, or with groups that are not those of a version line,
/// there is no version.
pub fn version_from_captures(captures: Option<Vec<Option<String>>>) -> (r: Result<
    RustVersion,
    ToolError,
>)
    ensures
        match r {
            Ok(v) => capture_texts(captures) matches Some(groups) && is_version_capture(groups)
                && v@ == version_of(groups),
            Err(e) => e is VersionStringNoMatch && !(capture_texts(captures) matches Some(groups)
                && is_version_capture(groups)),
        },
{
    match captures {
        None => Err(ToolError::VersionStringNoMatch),
        Some(groups) => {
            let ghost texts = group_texts(groups@);
            if groups.len() != 5 {
                return Err(ToolError::VersionStringNoMatch);
            }
            assert(texts[1] is Some == groups@[1] is Some);
            assert(texts[2] is Some == groups@[2] is Some);
            assert(texts[4] is Some == groups@[4] is Some);
            match (&groups[1], &groups[2], &groups[4]) {
                (Some(tool_name), Some(version), Some(date)) => {
                    let v = RustVersion {
                        tool_name: tool_name.clone(),
                        version: version.clone(),
                        hash: groups[3].clone(),
                        date: date.clone(),
                    };
                    assert(texts[3] == v@.hash);
                    Ok(v)
                },
                _ => Err(ToolError::VersionStringNoMatch),
            }
        },
    }
}

/// Reading a version line.
pub trait ToRustVersion {
    /// The line that is read.
    spec fn version_line(&self) -> Seq<char>;

    /// Takes the line apart. If the pattern compiles, the answer is that
    /// of `version_from_captures` on what the pattern captures in the line.
    fn to_rust_version(&self) -> (r: Result<RustVersion, ToolError>)
        ensures
            match r {
                Ok(v) => regex_groups(RUST_VERSION@, self.version_line()) matches Some(groups)
                    && is_version_capture(groups) && v@ == version_of(groups),
                Err(e) => e is RegexError || (e is VersionStringNoMatch && !(regex_groups(
                    RUST_VERSION@,
                    self.version_line(),
                ) matches Some(groups) && is_version_capture(groups))),
            },
    ;
}

impl ToRustVersion for String {
    open spec fn version_line(&self) -> Seq<char> {
        self@
    }

    fn to_rust_version(&self) -> (r: Result<RustVersion, ToolError>) {
        match compile_regex(RUST_VERSION) {
            Err(e) => Err(ToolError::RegexError(describe_regex_error(&e))),
            Ok(re) => version_from_captures(regex_captures(&re, self.as_str())),
        }
    }
}

} // verus!
