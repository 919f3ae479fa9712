//! The closed set of supported languages and the mapping from the wire-level
//! language tag to it.

use vstd::prelude::*;
use crate::error::CompilerError;
use crate::strutil::str_eq;

verus! {

/// Languages the engine can execute. Any other tag is rejected with
/// `CompilerError::UnsupportedLanguage` before any container or cache work
/// begins.
#[derive(Clone, Copy, Debug, PartialEq, Eq, Structural)]
pub enum LanguageId {
    JavaScript,
    Python,
    TypeScript,
    Rust,
    C,
    Cpp,
    Csharp,
    Zig,
}

/// How many languages there are; per-language state is held in an array-like
/// vector indexed by `LanguageId::index`.
pub const LANGUAGE_COUNT: usize = 8;

impl LanguageId {
    /// The wire tag of this language, as the HTTP API and the container image
    /// names spell it.
    pub open spec fn spec_tag(self) -> Seq<char> {
        match self {
            LanguageId::JavaScript => "javascript"@,
            LanguageId::Python => "python"@,
            LanguageId::TypeScript => "typescript"@,
            LanguageId::Rust => "rust"@,
            LanguageId::C => "c"@,
            LanguageId::Cpp => "cpp"@,
            LanguageId::Csharp => "csharp"@,
            LanguageId::Zig => "zig"@,
        }
    }

    /// The wire tag of this language.
    pub fn tag(&self) -> (r: &'static str)
        ensures
            r@ == self.spec_tag(),
    {
        match self {
            LanguageId::JavaScript => "javascript",
            LanguageId::Python => "python",
            LanguageId::TypeScript => "typescript",
            LanguageId::Rust => "rust",
            LanguageId::C => "c",
            LanguageId::Cpp => "cpp",
            LanguageId::Csharp => "csharp",
            LanguageId::Zig => "zig",
        }
    }

    /// A distinct index below `LANGUAGE_COUNT`, used to key per-language
    /// inventory state.
    pub open spec fn spec_index(self) -> int {
        match self {
            LanguageId::JavaScript => 0,
            LanguageId::Python => 1,
            LanguageId::TypeScript => 2,
            LanguageId::Rust => 3,
            LanguageId::C => 4,
            LanguageId::Cpp => 5,
            LanguageId::Csharp => 6,
            LanguageId::Zig => 7,
        }
    }

    /// The distinct index of this language.
    pub fn index(&self) -> (r: usize)
        ensures
            r == self.spec_index(),
            r < LANGUAGE_COUNT,
    {
        match self {
            LanguageId::JavaScript => 0,
            LanguageId::Python => 1,
            LanguageId::TypeScript => 2,
            LanguageId::Rust => 3,
            LanguageId::C => 4,
            LanguageId::Cpp => 5,
            LanguageId::Csharp => 6,
            LanguageId::Zig => 7,
        }
    }
}

/// The language whose tag is `tag`, if any.
pub open spec fn spec_parse_language(tag: Seq<char>) -> Option<LanguageId> {
    if tag == "javascript"@ {
        Some(LanguageId::JavaScript)
    } else if tag == "python"@ {
        Some(LanguageId::Python)
    } else if tag == "typescript"@ {
        Some(LanguageId::TypeScript)
    } else if tag == "rust"@ {
        Some(LanguageId::Rust)
    } else if tag == "c"@ {
        Some(LanguageId::C)
    } else if tag == "cpp"@ {
        Some(LanguageId::Cpp)
    } else if tag == "csharp"@ {
        Some(LanguageId::Csharp)
    } else if tag == "zig"@ {
        Some(LanguageId::Zig)
    } else {
        None
    }
}

/// Maps a wire tag to its language; every unknown tag fails fast with
/// `UnsupportedLanguage`, before any container or cache work.
pub fn parse_language(tag: &str) -> (r: Result<LanguageId, CompilerError>)
    ensures
        r matches Ok(l) ==> spec_parse_language(tag@) == Some(l),
        r matches Err(e) ==> e is UnsupportedLanguage && spec_parse_language(tag@) is None,
{
    if str_eq(tag, "javascript") {
        Ok(LanguageId::JavaScript)
    } else if str_eq(tag, "python") {
        Ok(LanguageId::Python)
    } else if str_eq(tag, "typescript") {
        Ok(LanguageId::TypeScript)
    } else if str_eq(tag, "rust") {
        Ok(LanguageId::Rust)
    } else if str_eq(tag, "c") {
        Ok(LanguageId::C)
    } else if str_eq(tag, "cpp") {
        Ok(LanguageId::Cpp)
    } else if str_eq(tag, "csharp") {
        Ok(LanguageId::Csharp)
    } else if str_eq(tag, "zig") {
        Ok(LanguageId::Zig)
    } else {
        Err(CompilerError::UnsupportedLanguage)
    }
}

} // verus!
