//! Script handling.

pub mod ipa_peter;
pub mod round_trip;
pub mod uywi_chiffre;

use crate::bounded::{text_as_str, text_held};
use crate::concept::{concept_result, ConceptView};
use crate::word::WordView;
use crate::{Concept, Error, Word};
use arrayvec::ArrayString;
use vstd::prelude::*;

verus! {

/// Display script.
#[derive(Clone, Copy, Debug, PartialEq, Eq, Structural)]
pub enum Script {
    /// UYWI Chiffre.
    UywiChiffre,
    /// IPA (Peter's script)
    IpaPeter,
}

/// Represents a [`Concept`] or [`Word`], what a string may stand for.
#[derive(Clone, Copy, Debug, PartialEq, Eq)]
pub enum ConceptOrWord {
    /// A [`Concept`].
    Concept(Concept),
    /// A [`Word`].
    Word(Word),
}

/// What a concept or a word is.
pub enum ConceptOrWordView {
    /// A concept.
    Concept(ConceptView),
    /// A word.
    Word(WordView),
}

impl View for ConceptOrWord {
    type V = ConceptOrWordView;

    open spec fn view(&self) -> ConceptOrWordView {
        match *self {
            ConceptOrWord::Concept(concept) => ConceptOrWordView::Concept(concept@),
            ConceptOrWord::Word(word) => ConceptOrWordView::Word(word@),
        }
    }
}

/// What a result with a concept or a word is.
pub open spec fn parsed_result(result: Result<ConceptOrWord, Error>) -> Result<
    ConceptOrWordView,
    Error,
> {
    match result {
        Ok(parsed) => Ok(parsed@),
        Err(error) => Err(error),
    }
}

impl Script {
    /// The name of the script.
    pub open spec fn spec_to_string(self) -> Seq<char> {
        match self {
            Script::UywiChiffre => "Uywi Chiffre"@,
            Script::IpaPeter => "IPA (Peter's script)"@,
        }
    }

    /// The text of a concept in this script.
    pub open spec fn spec_concept(self, concept: ConceptView) -> Seq<char> {
        match self {
            Script::UywiChiffre => uywi_chiffre::spec_concept(concept),
            Script::IpaPeter => ipa_peter::spec_concept(concept),
        }
    }

    /// The text of a word in this script.
    pub open spec fn spec_word(self, word: WordView) -> Seq<char> {
        match self {
            Script::UywiChiffre => uywi_chiffre::spec_word(word),
            Script::IpaPeter => ipa_peter::spec_word(word),
        }
    }

    /// Whether strings of this script can be read: those of the UYWI Chiffre
    /// can, those of the IPA cannot.
    pub open spec fn spec_reads(self) -> bool {
        self is UywiChiffre
    }

    /// Whether strings of this script can be read.
    #[verifier::when_used_as_spec(spec_reads)]
    pub fn reads(self) -> (reads: bool)
        ensures
            reads == self.spec_reads(),
    {
        match self {
            Self::UywiChiffre => true,
            Self::IpaPeter => false,
        }
    }

    /// Build [`Concept`] from string.
    /// # Errors
    /// [`Error::LengthInvalid`] unless the string has 2, 3 or 4 graphemes; else,
    /// for the first position that fails, [`Error::ConceptRadicalInvalid`] if its
    /// grapheme is no radical and [`Error::ConceptRadicalDuplicate`] if an
    /// earlier position has its radical.
    pub fn from_concept(self, string: &str) -> (result: Result<Concept, Error>)
        requires
            self.spec_reads(),
        ensures
            concept_result(result) == uywi_chiffre::spec_from_concept(string@),
            result matches Ok(concept) ==> concept.valid(),
    {
        uywi_chiffre::from_concept(string)
    }

    /// Build [`Concept`] or [`Word`] from string.
    /// # Errors
    /// [`Error::WordLengthInvalid`] if the consonants of the first stem with as
    /// many letters as the string has graphemes take more than 64 bytes;
    /// [`Error::WordInvalid`] if the string is no concept and no stem has a form
    /// with this text.
    pub fn from_str(self, string: &str) -> (result: Result<ConceptOrWord, Error>)
        requires
            self.spec_reads(),
        ensures
            parsed_result(result) == uywi_chiffre::spec_from_str(string@),
    {
        uywi_chiffre::from_str(string)
    }

    /// Build concept string.
    pub fn concept(self, given: Concept) -> (string: ArrayString<64>)
        ensures
            text_held(string) == self.spec_concept(given@),
    {
        match self {
            Self::UywiChiffre => uywi_chiffre::concept(given),
            Self::IpaPeter => ipa_peter::concept(given),
        }
    }

    /// Build word.
    pub fn word(self, given: Word) -> (string: ArrayString<64>)
        ensures
            text_held(string) == self.spec_word(given@),
    {
        match self {
            Self::UywiChiffre => uywi_chiffre::word(given),
            Self::IpaPeter => ipa_peter::word(given),
        }
    }

    /// The name of the script.
    pub fn to_string(self) -> (string: String)
        ensures
            string@ == self.spec_to_string(),
    {
        match self {
            Self::UywiChiffre => "Uywi Chiffre".to_owned(),
            Self::IpaPeter => "IPA (Peter's script)".to_owned(),
        }
    }
}

impl Default for Script {
    fn default() -> (script: Self)
        ensures
            script == Script::UywiChiffre,
    {
        Self::UywiChiffre
    }
}

impl ConceptOrWord {
    /// Get string from [`Concept`] or [`Word`].
    pub fn to_string(self, script: Script) -> (string: String)
        ensures
            string@ == (match self@ {
                ConceptOrWordView::Concept(concept) => script.spec_concept(concept),
                ConceptOrWordView::Word(word) => script.spec_word(word),
            }),
    {
        match self {
            Self::Concept(concept) => concept.to_string(script),
            Self::Word(word) => word.to_string(script),
        }
    }
}

impl Concept {
    /// Get concept as [`String`].
    pub fn to_string(self, script: Script) -> (string: String)
        ensures
            string@ == script.spec_concept(self@),
    {
        let text = script.concept(self);
        text_as_str(&text).to_owned()
    }
}

impl Word {
    /// Get word as [`String`].
    pub fn to_string(self, script: Script) -> (string: String)
        ensures
            string@ == script.spec_word(self@),
    {
        let text = script.word(self);
        text_as_str(&text).to_owned()
    }
}

} // verus!
