//! The languages whose tooling the scan knows.

use vstd::prelude::*;
use vstd::string::StringExecFns;
use crate::text::{lowercase_of, same_text, to_lowercase};

verus! {

/// A language, by whose tooling a result is classified.
#[derive(Copy, Clone, Debug, PartialEq, Eq, Structural)]
pub enum Language {
    Python,
    Rust,
    JS,
}

/// Why a value of this module could not be made.
#[derive(Debug)]
pub enum TypesError {
    /// The name, as it was given, names no known language.
    UnknownLanguage(String),
}

/// The language that a name in lowercase stands for.
pub open spec fn language_named(lower: Seq<char>) -> Option<Language> {
    if lower == "python"@ {
        Some(Language::Python)
    } else if lower == "rust"@ {
        Some(Language::Rust)
    } else if lower == "javascript"@ {
        Some(Language::JS)
    } else {
        None
    }
}

/// The language that `lower` names, where `lower` is `given` in lowercase;
/// the error holds `given`.
pub fn language_from_lowercase(lower: &str, given: &str) -> (r: Result<Language, TypesError>)
    ensures
        match r {
            Ok(language) => language_named(lower@) == Some(language),
            Err(TypesError::UnknownLanguage(name)) => language_named(lower@) is None && name@
                == given@,
        },
{
    if same_text(lower, "python") {
        Ok(Language::Python)
    } else if same_text(lower, "rust") {
        Ok(Language::Rust)
    } else if same_text(lower, "javascript") {
        Ok(Language::JS)
    } else {
        Err(TypesError::UnknownLanguage(String::from_str(given)))
    }
}

impl Language {
    /// The language that `value` names, whatever the case of its letters.
    pub fn try_from(value: &str) -> (r: Result<Language, TypesError>)
        ensures
            match r {
                Ok(language) => language_named(lowercase_of(value@)) == Some(language),
                Err(TypesError::UnknownLanguage(name)) => language_named(lowercase_of(value@))
                    is None && name@ == value@,
            },
    {
        let lower = to_lowercase(value);
        language_from_lowercase(lower.as_str(), value)
    }

    /// The sign under which results of this language are listed.
    pub fn symbol(&self) -> (sign: &'static str)
        ensures
            sign@ == match self {
                Language::Python => "🐍"@,
                Language::Rust => "🦀"@,
                Language::JS => "🟨"@,
            },
    {
        match self {
            Language::Python => "🐍",
            Language::Rust => "🦀",
            Language::JS => "🟨",
        }
    }
}

impl TypesError {
    /// The error in words.
    pub fn message(&self) -> (text: String)
        ensures
            match self {
                TypesError::UnknownLanguage(name) => text@ == "Language '"@ + name@
                    + "' is not known"@,
            },
    {
        match self {
            TypesError::UnknownLanguage(name) => {
                let mut text = String::from_str("Language '");
                text.append(name.as_str());
                text.append("' is not known");
                text
            },
        }
    }
}

} // verus!
