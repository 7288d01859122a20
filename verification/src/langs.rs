//! Programming languages by name.

use vstd::prelude::*;

verus! {

#[derive(Debug, Clone, Copy, PartialEq, Eq, Structural, Hash)]
pub enum LanguageType {
    C,
    CPP,
    CSharp,
    Rust,
}

impl LanguageType {
    /// The name of the language.
    pub open spec fn name(self) -> Seq<char> {
        match self {
            LanguageType::C => "C"@,
            LanguageType::CPP => "C++"@,
            LanguageType::CSharp => "C#"@,
            LanguageType::Rust => "Rust"@,
        }
    }

    /// The name of the language.
    pub fn to_text(&self) -> (s: String)
        ensures
            s@ == self.name(),
    {
        match self {
            LanguageType::C => String::from_str("C"),
            LanguageType::CPP => String::from_str("C++"),
            LanguageType::CSharp => String::from_str("C#"),
            LanguageType::Rust => String::from_str("Rust"),
        }
    }
}

} // verus!
