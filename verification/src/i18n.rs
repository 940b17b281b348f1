//! Localization: the display language and its text tables.
//!
//! Detecting the language from the process environment is the surrounding
//! program's job; the tables themselves are plain functions from key to
//! text.

use vstd::prelude::*;

pub mod en;
pub mod ko;

verus! {

/// The display language.
#[derive(Clone, Debug, PartialEq, Eq, Structural)]
pub enum Language {
    English,
    Korean,
}

/// The text a language gives for a key; unknown keys give the empty string.
pub open spec fn spec_text(lang: Language, key: Seq<char>) -> Seq<char> {
    match lang {
        Language::English => en::spec_get_text(key),
        Language::Korean => ko::spec_get_text(key),
    }
}

impl Language {
    /// Get localized text for a given key.
    pub fn text(&self, key: &str) -> (r: &'static str)
        ensures
            r@ == spec_text(*self, key@),
    {
        match self {
            Language::English => en::get_text(key),
            Language::Korean => ko::get_text(key),
        }
    }
}

} // verus!
