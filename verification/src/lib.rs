//! UYWI word generator.
//!
//! Concepts of two, three or four distinct radicals are numbered without gaps,
//! laid out on pages and rows, and expanded into stems and words that a script
//! renders and parses.

use vstd::prelude::*;

pub mod bounded;
pub mod concept;
pub mod decimal;
pub mod dictionary;
pub mod length;
pub mod page;
pub mod row;
pub mod script;
pub mod stem;
pub mod structure;
pub mod translator;
pub mod util;
pub mod word;

pub use concept::{Concept, Radical};
pub use length::{Length, NUM_OF_RADICALS};
pub use page::{Page, Pages};
pub use row::{Row, Rows};
pub use script::{ConceptOrWord, Script};
pub use stem::{Stem, Stems};
pub use structure::{Letter, Vowel};
pub use word::{Word, Words};

verus! {

/// Error type for words.
#[derive(Clone, Copy, Debug, PartialEq, Eq, Structural)]
pub enum Error {
    /// The number given for a length has no corresponding length.
    LengthInvalid,
    /// The index given for a page is not below the number of pages.
    PageIndexInvalid,
    /// The string given for a page is not a number.
    PageStringInvalid,
    /// The string given for a page is the number 0.
    PageStringNull,
    /// The index given for a concept is not below the number of concepts.
    ConceptIndexInvalid,
    /// The string given for a concept index is not a number.
    ConceptStringInvalid,
    /// The string given for a concept index is the number 0.
    ConceptStringNull,
    /// A concept string names the same radical twice.
    ConceptRadicalDuplicate,
    /// A concept string holds a letter that is no radical.
    ConceptRadicalInvalid,
    /// The consonants of a word do not fit the concept buffer.
    WordLengthInvalid,
    /// A string is neither a concept nor a word.
    WordInvalid,
}

impl Error {
    /// The message of this error, as a spec value.
    pub open spec fn spec_message(self) -> Seq<char> {
        match self {
            Error::LengthInvalid => "Length is invalid."@,
            Error::PageIndexInvalid => "Index of page is invalid."@,
            Error::PageStringInvalid => "String of page is invalid."@,
            Error::PageStringNull => "String of page is 0."@,
            Error::ConceptIndexInvalid => "Index of concept is invalid."@,
            Error::ConceptStringInvalid => "String of concept is invalid."@,
            Error::ConceptStringNull => "String of concept is 0."@,
            Error::ConceptRadicalDuplicate => "Duplicate letters in a concept are invalid."@,
            Error::ConceptRadicalInvalid => "Concept contains invalid letters."@,
            Error::WordLengthInvalid => "Length of word is invalid."@,
            Error::WordInvalid => "Word is invalid."@,
        }
    }

    /// The message of this error.
    pub fn message(self) -> (message: &'static str)
        ensures
            message@ == self.spec_message(),
    {
        match self {
            Error::LengthInvalid => "Length is invalid.",
            Error::PageIndexInvalid => "Index of page is invalid.",
            Error::PageStringInvalid => "String of page is invalid.",
            Error::PageStringNull => "String of page is 0.",
            Error::ConceptIndexInvalid => "Index of concept is invalid.",
            Error::ConceptStringInvalid => "String of concept is invalid.",
            Error::ConceptStringNull => "String of concept is 0.",
            Error::ConceptRadicalDuplicate => "Duplicate letters in a concept are invalid.",
            Error::ConceptRadicalInvalid => "Concept contains invalid letters.",
            Error::WordLengthInvalid => "Length of word is invalid.",
            Error::WordInvalid => "Word is invalid.",
        }
    }

    /// The message of this error as an owned string.
    pub fn to_string(self) -> (message: String)
        ensures
            message@ == self.spec_message(),
    {
        self.message().to_owned()
    }
}

} // verus!
