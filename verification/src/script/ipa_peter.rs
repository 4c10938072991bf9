//! IPA (Peter's script)

use crate::bounded::{
    byte_len, indices_slice, lemma_byte_len_append, lemma_short_text, letters_held, letters_slice,
    short_text, sounds_held, sounds_new, sounds_push, sounds_set, sounds_slice, text_held, text_new,
    text_push_str,
};
use crate::concept::ConceptView;
use crate::structure::{lemma_structures, spec_structures, structures, Letter, Vowel};
use crate::word::WordView;
use crate::{Concept, Length, Word};
use arrayvec::{ArrayString, ArrayVec};
use vstd::prelude::*;

verus! {

/// Quality of radical.
#[derive(Clone, Copy, Debug, PartialEq, Eq, Structural)]
pub enum Quality1 {
    /// Neutral radical.
    Neutral,
    /// Dark radical.
    Dark,
    /// Light radical.
    Light,
}

impl Quality1 {
    /// The sign of the quality.
    pub open spec fn spec_as_str(self) -> &'static str {
        match self {
            Quality1::Neutral => "",
            Quality1::Dark => "ˤ",
            Quality1::Light => "ʲ",
        }
    }

    /// Gets `str` form of quality.
    #[verifier::when_used_as_spec(spec_as_str)]
    pub fn as_str(self) -> (sign: &'static str)
        ensures
            sign == self.spec_as_str(),
    {
        match self {
            Self::Neutral => "",
            Self::Dark => "ˤ",
            Self::Light => "ʲ",
        }
    }
}

/// Shading and rounding.
#[derive(Clone, Copy, Debug, PartialEq, Eq, Structural)]
pub enum Quality2 {
    /// Shading.
    Shading,
    /// Rounding.
    Rounding,
}

/// Voiceless and alternatives.
#[derive(Clone, Copy, Debug)]
pub enum Quality3 {
    /// Voiceless.
    Voiceless,
    /// Alternative consonant.
    Alternative(&'static str),
}

/// Remove if at beginning or end.
#[derive(Clone, Copy, Debug, PartialEq, Eq, Structural)]
pub enum Quality4 {
    /// Remove when it is at the beginning.
    Beginning,
    /// Remove when it is at the end.
    End,
}

/// Save radicals with all the exceptions: the consonant, its quality, whether
/// the quality shows, shading or rounding, voicelessness or an alternative
/// consonant, and removal at the beginning or the end.
#[derive(Clone, Copy, Debug)]
pub struct IpaRadical(
    pub &'static str,
    pub Quality1,
    pub bool,
    pub Option<Quality2>,
    pub Option<Quality3>,
    pub Option<Quality4>,
);

impl IpaRadical {
    /// Radical's quality.
    pub open spec fn spec_quality(self) -> Quality1 {
        self.1
    }

    /// Whether the radical is dark.
    pub open spec fn spec_is_dark(self) -> bool {
        self.1 is Dark
    }

    /// Whether the radical is light.
    pub open spec fn spec_is_light(self) -> bool {
        self.1 is Light
    }

    /// Whether the radical is shading.
    pub open spec fn spec_is_shading(self) -> bool {
        self.3 == Some(Quality2::Shading)
    }

    /// Whether the radical is rounding.
    pub open spec fn spec_is_rounding(self) -> bool {
        self.3 == Some(Quality2::Rounding)
    }

    /// Whether the radical is voiceless.
    pub open spec fn spec_is_voiceless(self) -> bool {
        self.4 matches Some(Quality3::Voiceless)
    }

    /// Radical's alternative consonant.
    pub open spec fn spec_alternative(self) -> Option<&'static str> {
        match self.4 {
            Some(Quality3::Alternative(alternative)) => Some(alternative),
            _ => None,
        }
    }

    /// Whether the radical is removed at the beginning of a word.
    pub open spec fn spec_is_beginning(self) -> bool {
        self.5 == Some(Quality4::Beginning)
    }

    /// Whether the radical is removed at the end of a word.
    pub open spec fn spec_is_end(self) -> bool {
        self.5 == Some(Quality4::End)
    }

    /// The text of the radical: its consonant, or its alternative consonant
    /// where one is asked for and there is one, and behind it the sign of its
    /// quality where that is forced or part of the letter.
    pub open spec fn spec_text(self, force_quality: bool, alternative: bool) -> Seq<char> {
        let consonant = if alternative && self.spec_alternative() is Some {
            self.spec_alternative()->0@
        } else {
            self.0@
        };
        if force_quality || self.2 {
            consonant + self.1.spec_as_str()@
        } else {
            consonant
        }
    }

    /// Get radical's quality.
    #[verifier::when_used_as_spec(spec_quality)]
    pub fn quality(self) -> (quality: Quality1)
        ensures
            quality == self.spec_quality(),
    {
        self.1
    }

    /// Get if radical is dark.
    #[verifier::when_used_as_spec(spec_is_dark)]
    pub fn is_dark(self) -> (dark: bool)
        ensures
            dark == self.spec_is_dark(),
    {
        if let Quality1::Dark = self.1 {
            true
        } else {
            false
        }
    }

    /// Get if radical is light.
    #[verifier::when_used_as_spec(spec_is_light)]
    pub fn is_light(self) -> (light: bool)
        ensures
            light == self.spec_is_light(),
    {
        if let Quality1::Light = self.1 {
            true
        } else {
            false
        }
    }

    /// Get if radical is shading.
    #[verifier::when_used_as_spec(spec_is_shading)]
    pub fn is_shading(self) -> (shading: bool)
        ensures
            shading == self.spec_is_shading(),
    {
        if let Some(Quality2::Shading) = self.3 {
            true
        } else {
            false
        }
    }

    /// Get if radical is rounding.
    #[verifier::when_used_as_spec(spec_is_rounding)]
    pub fn is_rounding(self) -> (rounding: bool)
        ensures
            rounding == self.spec_is_rounding(),
    {
        if let Some(Quality2::Rounding) = self.3 {
            true
        } else {
            false
        }
    }

    /// Get if radical is voiceless.
    #[verifier::when_used_as_spec(spec_is_voiceless)]
    pub fn is_voiceless(self) -> (voiceless: bool)
        ensures
            voiceless == self.spec_is_voiceless(),
    {
        if let Some(Quality3::Voiceless) = self.4 {
            true
        } else {
            false
        }
    }

    /// Get radical's alternative.
    #[verifier::when_used_as_spec(spec_alternative)]
    pub fn alternative(self) -> (alternative: Option<&'static str>)
        ensures
            alternative == self.spec_alternative(),
    {
        if let Some(Quality3::Alternative(alternative)) = self.4 {
            Some(alternative)
        } else {
            None
        }
    }

    /// Get if radical has a quality that removes it at the beginning of a word.
    #[verifier::when_used_as_spec(spec_is_beginning)]
    pub fn is_beginning(self) -> (beginning: bool)
        ensures
            beginning == self.spec_is_beginning(),
    {
        if let Some(Quality4::Beginning) = self.5 {
            true
        } else {
            false
        }
    }

    /// Get if radical has a quality that removes it at the end of a word.
    #[verifier::when_used_as_spec(spec_is_end)]
    pub fn is_end(self) -> (end: bool)
        ensures
            end == self.spec_is_end(),
    {
        if let Some(Quality4::End) = self.5 {
            true
        } else {
            false
        }
    }
}

/// The radical with the given index, with all exceptions.
pub open spec fn spec_script_radical(index: u8) -> IpaRadical {
    match index {
        0 => IpaRadical("ʔ", Quality1::Neutral, false, None, None, Some(Quality4::Beginning)),
        1 => IpaRadical("j", Quality1::Dark, false, None, None, None),
        2 => IpaRadical("w", Quality1::Neutral, false, None, None, None),
        3 => IpaRadical("h", Quality1::Neutral, false, None, Some(Quality3::Voiceless), Some(Quality4::End)),
        4 => IpaRadical("ʕ", Quality1::Neutral, false, None, None, None),
        5 => IpaRadical("ħ", Quality1::Neutral, false, None, Some(Quality3::Voiceless), None),
        6 => IpaRadical("k", Quality1::Dark, false, Some(Quality2::Shading), Some(Quality3::Voiceless), None),
        7 => IpaRadical("kʰ", Quality1::Neutral, false, None, Some(Quality3::Voiceless), None),
        8 => IpaRadical("x", Quality1::Dark, false, Some(Quality2::Shading), Some(Quality3::Voiceless), None),
        9 => IpaRadical("x", Quality1::Light, false, None, Some(Quality3::Voiceless), None),
        10 => IpaRadical("ʁ", Quality1::Neutral, false, None, Some(Quality3::Alternative("χ")), None),
        11 => IpaRadical("ɟ", Quality1::Neutral, false, None, Some(Quality3::Alternative("c")), None),
        12 => IpaRadical("g", Quality1::Dark, false, Some(Quality2::Shading), None, None),
        13 => IpaRadical("g", Quality1::Light, false, None, None, None),
        14 => IpaRadical("ɥ", Quality1::Light, false, Some(Quality2::Rounding), None, None),
        15 => IpaRadical("d͡ʐ", Quality1::Dark, false, Some(Quality2::Shading), None, None),
        16 => IpaRadical("d͡ʒ", Quality1::Neutral, false, None, None, None),
        17 => IpaRadical("ʂ", Quality1::Dark, false, Some(Quality2::Shading), Some(Quality3::Voiceless), None),
        18 => IpaRadical("ɕ", Quality1::Light, false, None, Some(Quality3::Voiceless), None),
        19 => IpaRadical("ʃ", Quality1::Neutral, false, None, Some(Quality3::Voiceless), None),
        20 => IpaRadical("s", Quality1::Dark, false, Some(Quality2::Shading), Some(Quality3::Voiceless), None),
        21 => IpaRadical("s", Quality1::Light, true, None, Some(Quality3::Voiceless), None),
        22 => IpaRadical("z", Quality1::Dark, false, Some(Quality2::Shading), None, None),
        23 => IpaRadical("z", Quality1::Light, true, None, None, None),
        24 => IpaRadical("d", Quality1::Dark, false, Some(Quality2::Shading), None, None),
        25 => IpaRadical("d", Quality1::Light, true, None, None, None),
        26 => IpaRadical("t", Quality1::Dark, false, Some(Quality2::Shading), Some(Quality3::Voiceless), None),
        27 => IpaRadical("tʰ", Quality1::Neutral, false, None, Some(Quality3::Voiceless), None),
        28 => IpaRadical("t͡ɕ", Quality1::Light, false, None, Some(Quality3::Voiceless), None),
        29 => IpaRadical("t͡s", Quality1::Neutral, false, None, Some(Quality3::Voiceless), None),
        30 => IpaRadical("θ", Quality1::Neutral, false, None, Some(Quality3::Voiceless), None),
        31 => IpaRadical("ð", Quality1::Neutral, false, None, None, None),
        32 => IpaRadical("v", Quality1::Dark, false, None, None, None),
        33 => IpaRadical("f", Quality1::Neutral, false, None, Some(Quality3::Voiceless), None),
        34 => IpaRadical("p", Quality1::Neutral, false, Some(Quality2::Rounding), Some(Quality3::Voiceless), None),
        35 => IpaRadical("b", Quality1::Neutral, false, Some(Quality2::Rounding), None, None),
        36 => IpaRadical("m", Quality1::Neutral, false, Some(Quality2::Rounding), None, None),
        37 => IpaRadical("n", Quality1::Neutral, false, None, None, None),
        38 => IpaRadical("ŋ", Quality1::Neutral, false, None, None, None),
        39 => IpaRadical("ɻ", Quality1::Dark, false, Some(Quality2::Rounding), None, None),
        40 => IpaRadical("r", Quality1::Neutral, false, None, None, None),
        41 => IpaRadical("l", Quality1::Light, true, None, None, None),
        42 => IpaRadical("ʟ", Quality1::Dark, false, Some(Quality2::Shading), None, None),
        _ => IpaRadical("l", Quality1::Neutral, false, None, None, None),
    }
}

/// Get the radical with the given index, with all exceptions.
pub fn script_radical(index: u8) -> (radical: IpaRadical)
    requires
        index < 44,
    ensures
        radical == spec_script_radical(index),
{
    match index {
        0 => IpaRadical("ʔ", Quality1::Neutral, false, None, None, Some(Quality4::Beginning)),
        1 => IpaRadical("j", Quality1::Dark, false, None, None, None),
        2 => IpaRadical("w", Quality1::Neutral, false, None, None, None),
        3 => IpaRadical("h", Quality1::Neutral, false, None, Some(Quality3::Voiceless), Some(Quality4::End)),
        4 => IpaRadical("ʕ", Quality1::Neutral, false, None, None, None),
        5 => IpaRadical("ħ", Quality1::Neutral, false, None, Some(Quality3::Voiceless), None),
        6 => IpaRadical("k", Quality1::Dark, false, Some(Quality2::Shading), Some(Quality3::Voiceless), None),
        7 => IpaRadical("kʰ", Quality1::Neutral, false, None, Some(Quality3::Voiceless), None),
        8 => IpaRadical("x", Quality1::Dark, false, Some(Quality2::Shading), Some(Quality3::Voiceless), None),
        9 => IpaRadical("x", Quality1::Light, false, None, Some(Quality3::Voiceless), None),
        10 => IpaRadical("ʁ", Quality1::Neutral, false, None, Some(Quality3::Alternative("χ")), None),
        11 => IpaRadical("ɟ", Quality1::Neutral, false, None, Some(Quality3::Alternative("c")), None),
        12 => IpaRadical("g", Quality1::Dark, false, Some(Quality2::Shading), None, None),
        13 => IpaRadical("g", Quality1::Light, false, None, None, None),
        14 => IpaRadical("ɥ", Quality1::Light, false, Some(Quality2::Rounding), None, None),
        15 => IpaRadical("d͡ʐ", Quality1::Dark, false, Some(Quality2::Shading), None, None),
        16 => IpaRadical("d͡ʒ", Quality1::Neutral, false, None, None, None),
        17 => IpaRadical("ʂ", Quality1::Dark, false, Some(Quality2::Shading), Some(Quality3::Voiceless), None),
        18 => IpaRadical("ɕ", Quality1::Light, false, None, Some(Quality3::Voiceless), None),
        19 => IpaRadical("ʃ", Quality1::Neutral, false, None, Some(Quality3::Voiceless), None),
        20 => IpaRadical("s", Quality1::Dark, false, Some(Quality2::Shading), Some(Quality3::Voiceless), None),
        21 => IpaRadical("s", Quality1::Light, true, None, Some(Quality3::Voiceless), None),
        22 => IpaRadical("z", Quality1::Dark, false, Some(Quality2::Shading), None, None),
        23 => IpaRadical("z", Quality1::Light, true, None, None, None),
        24 => IpaRadical("d", Quality1::Dark, false, Some(Quality2::Shading), None, None),
        25 => IpaRadical("d", Quality1::Light, true, None, None, None),
        26 => IpaRadical("t", Quality1::Dark, false, Some(Quality2::Shading), Some(Quality3::Voiceless), None),
        27 => IpaRadical("tʰ", Quality1::Neutral, false, None, Some(Quality3::Voiceless), None),
        28 => IpaRadical("t͡ɕ", Quality1::Light, false, None, Some(Quality3::Voiceless), None),
        29 => IpaRadical("t͡s", Quality1::Neutral, false, None, Some(Quality3::Voiceless), None),
        30 => IpaRadical("θ", Quality1::Neutral, false, None, Some(Quality3::Voiceless), None),
        31 => IpaRadical("ð", Quality1::Neutral, false, None, None, None),
        32 => IpaRadical("v", Quality1::Dark, false, None, None, None),
        33 => IpaRadical("f", Quality1::Neutral, false, None, Some(Quality3::Voiceless), None),
        34 => IpaRadical("p", Quality1::Neutral, false, Some(Quality2::Rounding), Some(Quality3::Voiceless), None),
        35 => IpaRadical("b", Quality1::Neutral, false, Some(Quality2::Rounding), None, None),
        36 => IpaRadical("m", Quality1::Neutral, false, Some(Quality2::Rounding), None, None),
        37 => IpaRadical("n", Quality1::Neutral, false, None, None, None),
        38 => IpaRadical("ŋ", Quality1::Neutral, false, None, None, None),
        39 => IpaRadical("ɻ", Quality1::Dark, false, Some(Quality2::Rounding), None, None),
        40 => IpaRadical("r", Quality1::Neutral, false, None, None, None),
        41 => IpaRadical("l", Quality1::Light, true, None, None, None),
        42 => IpaRadical("ʟ", Quality1::Dark, false, Some(Quality2::Shading), None, None),
        _ => IpaRadical("l", Quality1::Neutral, false, None, None, None),
    }
}

/// The text of every radical has four characters at most, of two bytes at most
/// each.
pub proof fn lemma_radical_text(index: u8, force_quality: bool, alternative: bool)
    ensures
        spec_script_radical(index).spec_text(force_quality, alternative).len() <= 4,
        short_text(spec_script_radical(index).spec_text(force_quality, alternative)),
        spec_script_radical(index).0@.len() <= 3,
        short_text(spec_script_radical(index).0@),
        spec_script_radical(index).spec_alternative() matches Some(other) ==> other@.len() <= 3
            && short_text(other@),
        spec_script_radical(index).1.spec_as_str()@.len() <= 1,
        short_text(spec_script_radical(index).1.spec_as_str()@),
{
    reveal_strlit("ʔ");
    reveal_strlit("j");
    reveal_strlit("w");
    reveal_strlit("h");
    reveal_strlit("ʕ");
    reveal_strlit("ħ");
    reveal_strlit("k");
    reveal_strlit("kʰ");
    reveal_strlit("x");
    reveal_strlit("ʁ");
    reveal_strlit("ɟ");
    reveal_strlit("g");
    reveal_strlit("ɥ");
    reveal_strlit("d͡ʐ");
    reveal_strlit("d͡ʒ");
    reveal_strlit("ʂ");
    reveal_strlit("ɕ");
    reveal_strlit("ʃ");
    reveal_strlit("s");
    reveal_strlit("z");
    reveal_strlit("d");
    reveal_strlit("t");
    reveal_strlit("tʰ");
    reveal_strlit("t͡ɕ");
    reveal_strlit("t͡s");
    reveal_strlit("θ");
    reveal_strlit("ð");
    reveal_strlit("v");
    reveal_strlit("f");
    reveal_strlit("p");
    reveal_strlit("b");
    reveal_strlit("m");
    reveal_strlit("n");
    reveal_strlit("ŋ");
    reveal_strlit("ɻ");
    reveal_strlit("r");
    reveal_strlit("l");
    reveal_strlit("ʟ");
    reveal_strlit("χ");
    reveal_strlit("c");
    reveal_strlit("ˤ");
    reveal_strlit("ʲ");
    reveal_strlit("");
}

/// Represents vowels.
#[derive(Clone, Copy, Debug, PartialEq, Eq, Structural)]
pub enum IpaVowel {
    /// Neutral `a`.
    NeutralA,
    /// Neutral `e`.
    NeutralE,
    /// Neutral `i`.
    NeutralI,
    /// Neutral `u`.
    NeutralU,
    /// Dark `a`.
    DarkA,
    /// Dark `u`.
    DarkU,
    /// Light `e`.
    LightE,
    /// Light `i`.
    LightI,
    /// Nasal `a`.
    NasalA,
    /// Nasal `e`.
    NasalE,
    /// Nasal `i`.
    NasalI,
    /// Nasal `u`.
    NasalU,
    /// Shading `e`.
    ShadingE,
    /// Shading `i`.
    ShadingI,
    /// Rounding `a`.
    RoundingA,
    /// Rounding `e`.
    RoundingE,
    /// Rounding `i`.
    RoundingI,
}

impl IpaVowel {
    /// The text of the vowel.
    pub open spec fn spec_as_str(self) -> &'static str {
        match self {
            IpaVowel::NeutralA | IpaVowel::DarkA => "a",
            IpaVowel::NeutralE | IpaVowel::LightE => "e",
            IpaVowel::NeutralI | IpaVowel::LightI => "i",
            IpaVowel::NeutralU | IpaVowel::DarkU => "u",
            IpaVowel::NasalA => "ɑ̃",
            IpaVowel::NasalE => "ɔ̃",
            IpaVowel::NasalI => "ɛ̃",
            IpaVowel::NasalU => "œ̃",
            IpaVowel::ShadingE => "æ",
            IpaVowel::ShadingI => "ɨ",
            IpaVowel::RoundingA => "ɔ",
            IpaVowel::RoundingE => "ø",
            IpaVowel::RoundingI => "y",
        }
    }

    /// The vowel coloured dark: `e` becomes `a`, `i` becomes `u`.
    pub open spec fn dark(self) -> IpaVowel {
        match self {
            IpaVowel::NeutralE | IpaVowel::LightE => IpaVowel::DarkA,
            IpaVowel::NeutralI | IpaVowel::LightI => IpaVowel::DarkU,
            _ => self,
        }
    }

    /// The vowel coloured light: `a` becomes `e`, `u` becomes `i`.
    pub open spec fn light(self) -> IpaVowel {
        match self {
            IpaVowel::NeutralA | IpaVowel::DarkA => IpaVowel::LightE,
            IpaVowel::NeutralU | IpaVowel::DarkU => IpaVowel::LightI,
            _ => self,
        }
    }

    /// The vowel made nasal.
    pub open spec fn nasal(self) -> IpaVowel {
        match self {
            IpaVowel::NeutralA | IpaVowel::DarkA => IpaVowel::NasalA,
            IpaVowel::NeutralE | IpaVowel::LightE => IpaVowel::NasalE,
            IpaVowel::NeutralI | IpaVowel::LightI => IpaVowel::NasalI,
            IpaVowel::NeutralU | IpaVowel::DarkU => IpaVowel::NasalU,
            _ => self,
        }
    }

    /// The vowel shaded: `e` becomes `æ`, `i` becomes `ɨ`.
    pub open spec fn shading(self) -> IpaVowel {
        match self {
            IpaVowel::NeutralE | IpaVowel::LightE => IpaVowel::ShadingE,
            IpaVowel::NeutralI | IpaVowel::LightI => IpaVowel::ShadingI,
            _ => self,
        }
    }

    /// The vowel rounded: `a` becomes `ɔ`, `e` becomes `ø`, `i` becomes `y`.
    pub open spec fn rounding(self) -> IpaVowel {
        match self {
            IpaVowel::NeutralA | IpaVowel::DarkA => IpaVowel::RoundingA,
            IpaVowel::NeutralE | IpaVowel::LightE => IpaVowel::RoundingE,
            IpaVowel::NeutralI | IpaVowel::LightI => IpaVowel::RoundingI,
            _ => self,
        }
    }

    /// Get in `str` form.
    #[verifier::when_used_as_spec(spec_as_str)]
    pub fn as_str(self) -> (text: &'static str)
        ensures
            text == self.spec_as_str(),
    {
        match self {
            Self::NeutralA | Self::DarkA => "a",
            Self::NeutralE | Self::LightE => "e",
            Self::NeutralI | Self::LightI => "i",
            Self::NeutralU | Self::DarkU => "u",
            Self::NasalA => "ɑ̃",
            Self::NasalE => "ɔ̃",
            Self::NasalI => "ɛ̃",
            Self::NasalU => "œ̃",
            Self::ShadingE => "æ",
            Self::ShadingI => "ɨ",
            Self::RoundingA => "ɔ",
            Self::RoundingE => "ø",
            Self::RoundingI => "y",
        }
    }

    /// Turn vowel dark.
    pub fn as_dark(&mut self)
        ensures
            *final(self) == old(self).dark(),
    {
        match *self {
            Self::NeutralE | Self::LightE => *self = Self::DarkA,
            Self::NeutralI | Self::LightI => *self = Self::DarkU,
            _ => (),
        }
    }

    /// Turn vowel light.
    pub fn as_light(&mut self)
        ensures
            *final(self) == old(self).light(),
    {
        match *self {
            Self::NeutralA | Self::DarkA => *self = Self::LightE,
            Self::NeutralU | Self::DarkU => *self = Self::LightI,
            _ => (),
        }
    }

    /// Turn vowel nasal.
    pub fn as_nasal(&mut self)
        ensures
            *final(self) == old(self).nasal(),
    {
        match *self {
            Self::NeutralA | Self::DarkA => *self = Self::NasalA,
            Self::NeutralE | Self::LightE => *self = Self::NasalE,
            Self::NeutralI | Self::LightI => *self = Self::NasalI,
            Self::NeutralU | Self::DarkU => *self = Self::NasalU,
            _ => (),
        }
    }

    /// Turn vowel shading.
    pub fn as_shading(&mut self)
        ensures
            *final(self) == old(self).shading(),
    {
        match *self {
            Self::NeutralE | Self::LightE => *self = Self::ShadingE,
            Self::NeutralI | Self::LightI => *self = Self::ShadingI,
            _ => (),
        }
    }

    /// Turn vowel rounding.
    pub fn as_rounding(&mut self)
        ensures
            *final(self) == old(self).rounding(),
    {
        match *self {
            Self::NeutralA | Self::DarkA => *self = Self::RoundingA,
            Self::NeutralE | Self::LightE => *self = Self::RoundingE,
            Self::NeutralI | Self::LightI => *self = Self::RoundingI,
            _ => (),
        }
    }

    /// The text of every vowel, and the sign of a duplicate, have two characters
    /// at most, of two bytes at most each.
    pub proof fn lemma_text(self)
        ensures
            self.spec_as_str()@.len() <= 2,
            short_text(self.spec_as_str()@),
            "ː"@.len() == 1,
            short_text("ː"@),
    {
        reveal_strlit("a");
        reveal_strlit("e");
        reveal_strlit("i");
        reveal_strlit("u");
        reveal_strlit("ɑ̃");
        reveal_strlit("ɔ̃");
        reveal_strlit("ɛ̃");
        reveal_strlit("œ̃");
        reveal_strlit("æ");
        reveal_strlit("ɨ");
        reveal_strlit("ɔ");
        reveal_strlit("ø");
        reveal_strlit("y");
        reveal_strlit("ː");
    }
}

/// Stores vowels.
/// Purely there to make it easier to extract vowels with [`Vowel`].
#[derive(Clone, Copy, Debug, PartialEq, Eq, Structural)]
pub struct Vowels(pub IpaVowel, pub IpaVowel);

impl Vowels {
    /// The right vowel for [`Vowel`].
    pub open spec fn spec_get(self, vowel: Vowel) -> IpaVowel {
        match vowel {
            Vowel::First => self.0,
            Vowel::Last => self.1,
        }
    }

    /// Gets the right vowel with [`Vowel`].
    #[verifier::when_used_as_spec(spec_get)]
    pub fn get(self, vowel: Vowel) -> (found: IpaVowel)
        ensures
            found == self.spec_get(vowel),
    {
        match vowel {
            Vowel::First => self.0,
            Vowel::Last => self.1,
        }
    }
}

/// The vowels of the form `form_index` of a stem of `length`: a length of two
/// has the forms (a, a) and (i, i), the others have (a, e), (e, i), (u, a) and
/// (u, i).
pub open spec fn spec_form_configs(length: Length, form_index: u8) -> Vowels {
    match length {
        Length::L2 => match form_index {
            0 => Vowels(IpaVowel::NeutralA, IpaVowel::NeutralA),
            _ => Vowels(IpaVowel::NeutralI, IpaVowel::NeutralI),
        },
        Length::L3 | Length::L4 => match form_index {
            0 => Vowels(IpaVowel::NeutralA, IpaVowel::NeutralE),
            1 => Vowels(IpaVowel::NeutralE, IpaVowel::NeutralI),
            2 => Vowels(IpaVowel::NeutralU, IpaVowel::NeutralA),
            _ => Vowels(IpaVowel::NeutralU, IpaVowel::NeutralI),
        },
    }
}

/// List how forms are configured.
pub fn form_configs(length: Length, form_index: u8) -> (vowels: Vowels)
    requires
        form_index < length.spec_forms_per_stem(),
    ensures
        vowels == spec_form_configs(length, form_index),
{
    match length {
        Length::L2 => match form_index {
            0 => Vowels(IpaVowel::NeutralA, IpaVowel::NeutralA),
            _ => Vowels(IpaVowel::NeutralI, IpaVowel::NeutralI),
        },
        Length::L3 | Length::L4 => match form_index {
            0 => Vowels(IpaVowel::NeutralA, IpaVowel::NeutralE),
            1 => Vowels(IpaVowel::NeutralE, IpaVowel::NeutralI),
            2 => Vowels(IpaVowel::NeutralU, IpaVowel::NeutralA),
            _ => Vowels(IpaVowel::NeutralU, IpaVowel::NeutralI),
        },
    }
}

/// Represents letter.
#[derive(Clone, Copy, Debug, PartialEq, Eq, Structural)]
pub enum IpaLetter {
    /// Radical, by its index, and whether its alternative consonant is used.
    Radical(u8, bool),
    /// Vowel.
    Vowel(IpaVowel),
    /// Duplicate.
    Duplicate,
    /// Removed letter.
    Removed,
}

/// Letters whose radicals are all among the 44.
pub open spec fn valid_sounds(letters: Seq<IpaLetter>) -> bool {
    forall|place: int|
        0 <= place < letters.len() ==> (#[trigger] letters[place] matches IpaLetter::Radical(radical, _)
            ==> radical < 44)
}

/// A colouring that radicals give to the vowels beside them.
#[derive(Clone, Copy, Debug, PartialEq, Eq, Structural)]
pub enum Colouring {
    /// Dark radicals turn the vowels on both sides dark.
    Dark,
    /// Light radicals turn the vowels on both sides light.
    Light,
    /// Shading radicals shade the vowel behind them.
    Shading,
    /// Rounding radicals round the vowel behind them.
    Rounding,
}

impl Colouring {
    /// Whether `radical` gives this colouring.
    pub open spec fn spec_given_by(self, radical: IpaRadical) -> bool {
        match self {
            Colouring::Dark => radical.spec_is_dark(),
            Colouring::Light => radical.spec_is_light(),
            Colouring::Shading => radical.spec_is_shading(),
            Colouring::Rounding => radical.spec_is_rounding(),
        }
    }

    /// Whether the colouring reaches the vowel before the radical too.
    pub open spec fn spec_reaches_back(self) -> bool {
        self is Dark || self is Light
    }

    /// The vowel with this colouring.
    pub open spec fn spec_recolour(self, vowel: IpaVowel) -> IpaVowel {
        match self {
            Colouring::Dark => vowel.dark(),
            Colouring::Light => vowel.light(),
            Colouring::Shading => vowel.shading(),
            Colouring::Rounding => vowel.rounding(),
        }
    }

    /// Whether `radical` gives this colouring.
    #[verifier::when_used_as_spec(spec_given_by)]
    pub fn given_by(self, radical: IpaRadical) -> (given: bool)
        ensures
            given == self.spec_given_by(radical),
    {
        match self {
            Self::Dark => radical.is_dark(),
            Self::Light => radical.is_light(),
            Self::Shading => radical.is_shading(),
            Self::Rounding => radical.is_rounding(),
        }
    }

    /// Whether the colouring reaches the vowel before the radical too.
    #[verifier::when_used_as_spec(spec_reaches_back)]
    pub fn reaches_back(self) -> (back: bool)
        ensures
            back == self.spec_reaches_back(),
    {
        match self {
            Self::Dark | Self::Light => true,
            Self::Shading | Self::Rounding => false,
        }
    }

    /// The vowel with this colouring.
    #[verifier::when_used_as_spec(spec_recolour)]
    pub fn recolour(self, vowel: IpaVowel) -> (coloured: IpaVowel)
        ensures
            coloured == self.spec_recolour(vowel),
    {
        let mut coloured = vowel;
        match self {
            Self::Dark => coloured.as_dark(),
            Self::Light => coloured.as_light(),
            Self::Shading => coloured.as_shading(),
            Self::Rounding => coloured.as_rounding(),
        }
        coloured
    }
}

/// Whether the letter at `place` is a radical that gives `colouring`.
pub open spec fn colouring_at(letters: Seq<IpaLetter>, place: int, colouring: Colouring) -> bool {
    &&& 0 <= place < letters.len()
    &&& letters[place] matches IpaLetter::Radical(radical, _)
    &&& colouring.spec_given_by(spec_script_radical(radical))
}

/// Whether a radical before `limit` colours the place `place`: the radical
/// stands right behind or right before the place, or one further with a
/// duplicate in between; a colouring that does not reach back is only given by
/// radicals before the place.
pub open spec fn coloured_upto(letters: Seq<IpaLetter>, colouring: Colouring, place: int, limit: int) -> bool {
    ||| colouring.spec_reaches_back() && place + 1 < limit && colouring_at(letters, place + 1, colouring)
    ||| colouring.spec_reaches_back() && place + 2 < limit && colouring_at(letters, place + 2, colouring)
        && letters[place + 1] is Duplicate
    ||| place - 1 < limit && colouring_at(letters, place - 1, colouring)
    ||| place - 2 < limit && colouring_at(letters, place - 2, colouring) && letters[place - 1] is Duplicate
}

/// The letters once the radicals before `limit` have given `colouring`: every
/// vowel that one of them colours has the colouring, all else is as before.
pub open spec fn spec_coloured_upto(letters: Seq<IpaLetter>, colouring: Colouring, limit: int) -> Seq<
    IpaLetter,
> {
    Seq::new(
        letters.len(),
        |place: int|
            match letters[place] {
                IpaLetter::Vowel(vowel) => if coloured_upto(letters, colouring, place, limit) {
                    IpaLetter::Vowel(colouring.spec_recolour(vowel))
                } else {
                    letters[place]
                },
                _ => letters[place],
            },
    )
}

/// The letters once all radicals have given `colouring`.
pub open spec fn spec_coloured(letters: Seq<IpaLetter>, colouring: Colouring) -> Seq<IpaLetter> {
    spec_coloured_upto(letters, colouring, letters.len() as int)
}

/// Give the vowels beside the radicals of a colouring that colouring.
pub(crate) fn colour_neighbours(ipa_structure: &mut ArrayVec<IpaLetter, 8>, colouring: Colouring)
    requires
        valid_sounds(sounds_held(*old(ipa_structure))),
    ensures
        sounds_held(*final(ipa_structure)) == spec_coloured(sounds_held(*old(ipa_structure)), colouring),
        valid_sounds(sounds_held(*final(ipa_structure))),
{
    let ghost start = sounds_held(*ipa_structure);
    let len: usize = sounds_slice(ipa_structure).len();
    let mut position: usize = 0;
    assert(sounds_held(*ipa_structure) =~= spec_coloured_upto(start, colouring, 0));
    while position < len
        invariant
            position <= len,
            len == start.len(),
            valid_sounds(start),
            sounds_held(*ipa_structure) == spec_coloured_upto(start, colouring, position as int),
        decreases len - position,
    {
        let ghost before = sounds_held(*ipa_structure);
        if let IpaLetter::Radical(radical, _) = sounds_slice(ipa_structure)[position] {
            assert(start[position as int] == IpaLetter::Radical(radical, start[position as int]->Radical_1));
            if colouring.given_by(script_radical(radical)) {
                if colouring.reaches_back() && position > 0 {
                    let mut target: usize = position - 1;
                    let mut found = true;
                    if let IpaLetter::Duplicate = sounds_slice(ipa_structure)[target] {
                        if target > 0 {
                            target = target - 1;
                        } else {
                            found = false;
                        }
                    }
                    if found {
                        if let IpaLetter::Vowel(vowel) = sounds_slice(ipa_structure)[target] {
                            sounds_set(
                                ipa_structure,
                                target,
                                IpaLetter::Vowel(colouring.recolour(vowel)),
                            );
                        }
                    }
                }
                if position + 1 < len {
                    let mut target: usize = position + 1;
                    if let IpaLetter::Duplicate = sounds_slice(ipa_structure)[target] {
                        target = target + 1;
                    }
                    if target < len {
                        if let IpaLetter::Vowel(vowel) = sounds_slice(ipa_structure)[target] {
                            sounds_set(
                                ipa_structure,
                                target,
                                IpaLetter::Vowel(colouring.recolour(vowel)),
                            );
                        }
                    }
                }
            }
        }
        position += 1;
        assert(sounds_held(*ipa_structure) =~= spec_coloured_upto(start, colouring, position as int));
    }
    assert(valid_sounds(sounds_held(*ipa_structure)));
}

/// First assimilation: turn all vowels around dark consonants to dark vowels.
pub(crate) fn assimilation_1(ipa_structure: &mut ArrayVec<IpaLetter, 8>)
    requires
        valid_sounds(sounds_held(*old(ipa_structure))),
    ensures
        sounds_held(*final(ipa_structure)) == spec_coloured(
            sounds_held(*old(ipa_structure)),
            Colouring::Dark,
        ),
        valid_sounds(sounds_held(*final(ipa_structure))),
{
    colour_neighbours(ipa_structure, Colouring::Dark)
}

/// Second assimilation: turn all vowels around light consonants to light vowels.
pub(crate) fn assimilation_2(ipa_structure: &mut ArrayVec<IpaLetter, 8>)
    requires
        valid_sounds(sounds_held(*old(ipa_structure))),
    ensures
        sounds_held(*final(ipa_structure)) == spec_coloured(
            sounds_held(*old(ipa_structure)),
            Colouring::Light,
        ),
        valid_sounds(sounds_held(*final(ipa_structure))),
{
    colour_neighbours(ipa_structure, Colouring::Light)
}

/// Third assimilation: turn all vowels after shading consonants to shading vowels.
pub(crate) fn assimilation_3(ipa_structure: &mut ArrayVec<IpaLetter, 8>)
    requires
        valid_sounds(sounds_held(*old(ipa_structure))),
    ensures
        sounds_held(*final(ipa_structure)) == spec_coloured(
            sounds_held(*old(ipa_structure)),
            Colouring::Shading,
        ),
        valid_sounds(sounds_held(*final(ipa_structure))),
{
    colour_neighbours(ipa_structure, Colouring::Shading)
}

/// Seventh assimilation: turn all vowels after rounding consonants to rounding
/// vowels.
pub(crate) fn assimilation_7(ipa_structure: &mut ArrayVec<IpaLetter, 8>)
    requires
        valid_sounds(sounds_held(*old(ipa_structure))),
    ensures
        sounds_held(*final(ipa_structure)) == spec_coloured(
            sounds_held(*old(ipa_structure)),
            Colouring::Rounding,
        ),
        valid_sounds(sounds_held(*final(ipa_structure))),
{
    colour_neighbours(ipa_structure, Colouring::Rounding)
}

/// Whether the letter at `place` is a voiceless radical.
pub open spec fn voiceless_at(letters: Seq<IpaLetter>, place: int) -> bool {
    &&& 0 <= place < letters.len()
    &&& letters[place] matches IpaLetter::Radical(radical, _)
    &&& spec_script_radical(radical).spec_is_voiceless()
}

/// The letters once the voiceless radicals before `limit` have turned the
/// radicals right beside them to their alternative consonants.
pub open spec fn spec_alternated_upto(letters: Seq<IpaLetter>, limit: int) -> Seq<IpaLetter> {
    Seq::new(
        letters.len(),
        |place: int|
            match letters[place] {
                IpaLetter::Radical(radical, alternative) => if spec_script_radical(
                    radical,
                ).spec_alternative() is Some && ((place - 1 < limit && voiceless_at(letters, place - 1))
                    || (place + 1 < limit && voiceless_at(letters, place + 1))) {
                    IpaLetter::Radical(radical, true)
                } else {
                    letters[place]
                },
                _ => letters[place],
            },
    )
}

/// The letters once all voiceless radicals have turned the radicals right
/// beside them to their alternative consonants.
pub open spec fn spec_alternated(letters: Seq<IpaLetter>) -> Seq<IpaLetter> {
    spec_alternated_upto(letters, letters.len() as int)
}

/// Fourth assimilation: turn all consonants around voiceless consonants that
/// have an alternative to their alternative form.
pub(crate) fn assimilation_4(ipa_structure: &mut ArrayVec<IpaLetter, 8>)
    requires
        valid_sounds(sounds_held(*old(ipa_structure))),
    ensures
        sounds_held(*final(ipa_structure)) == spec_alternated(sounds_held(*old(ipa_structure))),
        valid_sounds(sounds_held(*final(ipa_structure))),
{
    let ghost start = sounds_held(*ipa_structure);
    let len: usize = sounds_slice(ipa_structure).len();
    let mut position: usize = 0;
    assert(sounds_held(*ipa_structure) =~= spec_alternated_upto(start, 0));
    while position < len
        invariant
            position <= len,
            len == start.len(),
            valid_sounds(start),
            sounds_held(*ipa_structure) == spec_alternated_upto(start, position as int),
        decreases len - position,
    {
        if let IpaLetter::Radical(radical, _) = sounds_slice(ipa_structure)[position] {
            assert(start[position as int] == IpaLetter::Radical(radical, start[position as int]->Radical_1));
            if script_radical(radical).is_voiceless() {
                if position > 0 {
                    if let IpaLetter::Radical(neighbour, _) = sounds_slice(ipa_structure)[position - 1] {
                        assert(start[position - 1] == IpaLetter::Radical(
                            neighbour,
                            start[position - 1]->Radical_1,
                        ));
                        if script_radical(neighbour).alternative().is_some() {
                            sounds_set(ipa_structure, position - 1, IpaLetter::Radical(neighbour, true));
                        }
                    }
                }
                if position + 1 < len {
                    if let IpaLetter::Radical(neighbour, _) = sounds_slice(ipa_structure)[position + 1] {
                        assert(start[position + 1] == IpaLetter::Radical(
                            neighbour,
                            start[position + 1]->Radical_1,
                        ));
                        if script_radical(neighbour).alternative().is_some() {
                            sounds_set(ipa_structure, position + 1, IpaLetter::Radical(neighbour, true));
                        }
                    }
                }
            }
        }
        position += 1;
        assert(sounds_held(*ipa_structure) =~= spec_alternated_upto(start, position as int));
    }
    assert(valid_sounds(sounds_held(*ipa_structure)));
}

/// The place of the first consonant that is no duplicate among the letters from
/// `from` on, or the number of letters where there is none.
pub open spec fn first_consonant(structure: Seq<Letter>, from: int) -> int
    decreases structure.len() - from,
{
    if from >= structure.len() {
        structure.len() as int
    } else if from >= 0 && structure[from] is Consonant {
        from
    } else {
        first_consonant(structure, from + 1)
    }
}

/// The place of the last consonant that is no duplicate among the first `upto`
/// letters, or -1 where there is none.
pub open spec fn last_consonant(structure: Seq<Letter>, upto: int) -> int
    decreases upto,
{
    if upto <= 0 {
        -1
    } else if upto <= structure.len() && structure[upto - 1] is Consonant {
        upto - 1
    } else {
        last_consonant(structure, upto - 1)
    }
}

/// The letters without the first consonant, where its radical is removed at the
/// beginning.
pub open spec fn spec_beginning_removed(structure: Seq<Letter>, letters: Seq<IpaLetter>) -> Seq<IpaLetter> {
    let first = first_consonant(structure, 0);
    if 0 <= first < letters.len() && (letters[first] matches IpaLetter::Radical(radical, _)
        && spec_script_radical(radical).spec_is_beginning()) {
        letters.update(first, IpaLetter::Removed)
    } else {
        letters
    }
}

/// Whether the last consonant of the letters has a radical that is removed at
/// the end.
pub open spec fn ends_removed(structure: Seq<Letter>, letters: Seq<IpaLetter>) -> bool {
    let last = last_consonant(structure, structure.len() as int);
    &&& 0 <= last < letters.len()
    &&& letters[last] matches IpaLetter::Radical(radical, _)
    &&& spec_script_radical(radical).spec_is_end()
}

/// The letters with everything removed from `last` on that is no nasal.
pub open spec fn spec_end_cut(structure: Seq<Letter>, letters: Seq<IpaLetter>, last: int) -> Seq<IpaLetter> {
    Seq::new(
        letters.len(),
        |place: int|
            if place >= last && !(structure[place] is Nasal) {
                IpaLetter::Removed
            } else {
                letters[place]
            },
    )
}

/// The letters after a scan from `place` down to the first letter, with `nasal`
/// the place of the nasal that the scan has passed, if it passed one. The scan
/// passes nasals and removed letters. At the first other letter it ends; if that
/// letter is a vowel and a nasal was passed, the vowel moves to the nasal's
/// place and leaves its own place empty.
pub open spec fn spec_relocated(structure: Seq<Letter>, letters: Seq<IpaLetter>, place: int, nasal: Option<
    int,
>) -> Seq<IpaLetter>
    decreases place + 1,
{
    if place < 0 {
        letters
    } else if structure[place] is Nasal {
        spec_relocated(structure, letters, place - 1, Some(place))
    } else {
        match letters[place] {
            IpaLetter::Vowel(_) => match nasal {
                Some(found) => letters.update(found, letters[place]).update(place, IpaLetter::Removed),
                None => letters,
            },
            IpaLetter::Removed => spec_relocated(structure, letters, place - 1, nasal),
            _ => letters,
        }
    }
}

/// The letters after the removal at the boundaries: the first consonant goes
/// where its radical is removed at the beginning; where the radical of the last
/// consonant is removed at the end, it goes with all behind it that is no nasal,
/// and the last vowel before a nasal at the end moves to the nasal's place.
pub open spec fn spec_boundaries_removed(structure: Seq<Letter>, letters: Seq<IpaLetter>) -> Seq<IpaLetter> {
    let kept = spec_beginning_removed(structure, letters);
    if ends_removed(structure, kept) {
        spec_relocated(
            structure,
            spec_end_cut(structure, kept, last_consonant(structure, structure.len() as int)),
            structure.len() - 1,
            None,
        )
    } else {
        kept
    }
}

/// Find the first consonant of a structure that is no duplicate.
fn find_first_consonant(structure: &[Letter]) -> (place: usize)
    ensures
        place == first_consonant(structure@, 0),
        place <= structure@.len(),
{
    let mut place: usize = 0;
    while place < structure.len()
        invariant
            place <= structure.len(),
            first_consonant(structure@, 0) == first_consonant(structure@, place as int),
        decreases structure.len() - place,
    {
        if let Letter::Consonant(_) = structure[place] {
            return place;
        }
        place += 1;
    }
    place
}

/// Find the last consonant of a structure that is no duplicate.
fn find_last_consonant(structure: &[Letter]) -> (place: Option<usize>)
    ensures
        place matches Some(found) ==> found == last_consonant(structure@, structure@.len() as int)
            && found < structure@.len(),
        place is None ==> last_consonant(structure@, structure@.len() as int) == -1,
{
    let mut upto: usize = structure.len();
    while upto > 0
        invariant
            upto <= structure.len(),
            last_consonant(structure@, structure@.len() as int) == last_consonant(
                structure@,
                upto as int,
            ),
        decreases upto,
    {
        if let Letter::Consonant(_) = structure[upto - 1] {
            return Some(upto - 1);
        }
        upto -= 1;
    }
    None
}

/// Fifth assimilation: if the consonant should be removed at the beginning or
/// end, remove it.
pub(crate) fn assimilation_5(structure: &ArrayVec<Letter, 8>, ipa_structure: &mut ArrayVec<IpaLetter, 8>)
    requires
        valid_sounds(sounds_held(*old(ipa_structure))),
        letters_held(*structure).len() == sounds_held(*old(ipa_structure)).len(),
    ensures
        sounds_held(*final(ipa_structure)) == spec_boundaries_removed(
            letters_held(*structure),
            sounds_held(*old(ipa_structure)),
        ),
        sounds_held(*final(ipa_structure)).len() == sounds_held(*old(ipa_structure)).len(),
        valid_sounds(sounds_held(*final(ipa_structure))),
{
    let letters = letters_slice(structure);
    let len: usize = letters.len();
    let ghost start = sounds_held(*ipa_structure);
    let first: usize = find_first_consonant(letters);
    if first < len {
        if let IpaLetter::Radical(radical, _) = sounds_slice(ipa_structure)[first] {
            if script_radical(radical).is_beginning() {
                sounds_set(ipa_structure, first, IpaLetter::Removed);
            }
        }
    }
    let ghost kept = sounds_held(*ipa_structure);
    assert(kept == spec_beginning_removed(letters@, start));
    if let Some(last) = find_last_consonant(letters) {
        if let IpaLetter::Radical(radical, _) = sounds_slice(ipa_structure)[last] {
            if script_radical(radical).is_end() {
                let mut place: usize = last;
                while place < len
                    invariant
                        last <= place <= len,
                        len == letters@.len(),
                        len == kept.len(),
                        sounds_held(*ipa_structure).len() == len,
                        forall|at: int|
                            0 <= at < len ==> #[trigger] sounds_held(*ipa_structure)[at] == (if last <= at
                                < place && !(letters@[at] is Nasal) {
                                IpaLetter::Removed
                            } else {
                                kept[at]
                            }),
                    decreases len - place,
                {
                    match letters[place] {
                        Letter::Nasal(_) => {},
                        _ => {
                            sounds_set(ipa_structure, place, IpaLetter::Removed);
                        },
                    }
                    place += 1;
                }
                let ghost cut = sounds_held(*ipa_structure);
                assert(cut =~= spec_end_cut(letters@, kept, last as int));
                let mut nasal_found: Option<usize> = None;
                let mut upto: usize = len;
                let mut scanning = true;
                while scanning && upto > 0
                    invariant
                        upto <= len,
                        len == letters@.len(),
                        len == cut.len(),
                        nasal_found matches Some(found) ==> found < len,
                        scanning ==> sounds_held(*ipa_structure) == cut,
                        scanning ==> spec_relocated(letters@, cut, len - 1, None) == spec_relocated(
                            letters@,
                            cut,
                            upto - 1,
                            match nasal_found {
                                Some(found) => Some(found as int),
                                None => None,
                            },
                        ),
                        !scanning ==> sounds_held(*ipa_structure) == spec_relocated(
                            letters@,
                            cut,
                            len - 1,
                            None,
                        ),
                    decreases upto,
                {
                    let at: usize = upto - 1;
                    upto = at;
                    if let Letter::Nasal(_) = letters[at] {
                        nasal_found = Some(at);
                    } else {
                        let letter = sounds_slice(ipa_structure)[at];
                        match letter {
                            IpaLetter::Vowel(_) => {
                                if let Some(found) = nasal_found {
                                    sounds_set(ipa_structure, found, letter);
                                    sounds_set(ipa_structure, at, IpaLetter::Removed);
                                }
                                scanning = false;
                            },
                            IpaLetter::Removed => {},
                            _ => {
                                scanning = false;
                            },
                        }
                    }
                }
            }
        }
    }
    proof {
        lemma_boundaries_valid(letters@, start);
    }
}

/// The removal at the boundaries brings in no radical.
pub proof fn lemma_boundaries_valid(structure: Seq<Letter>, letters: Seq<IpaLetter>)
    requires
        valid_sounds(letters),
        structure.len() == letters.len(),
    ensures
        valid_sounds(spec_boundaries_removed(structure, letters)),
        spec_boundaries_removed(structure, letters).len() == letters.len(),
{
    let kept = spec_beginning_removed(structure, letters);
    assert(kept.len() == letters.len());
    assert(valid_sounds(kept)) by {
        assert forall|place: int| 0 <= place < kept.len() implies (#[trigger] kept[place] matches IpaLetter::Radical(
            radical,
            _,
        ) ==> radical < 44) by {
            if kept[place] is Radical {
                assert(kept[place] == letters[place]);
            }
        }
    }
    if ends_removed(structure, kept) {
        let cut = spec_end_cut(
            structure,
            kept,
            last_consonant(structure, structure.len() as int),
        );
        assert(cut.len() == letters.len());
        assert(valid_sounds(cut)) by {
            assert forall|place: int| 0 <= place < cut.len() implies (#[trigger] cut[place] matches IpaLetter::Radical(
                radical,
                _,
            ) ==> radical < 44) by {
                if cut[place] is Radical {
                    assert(cut[place] == kept[place]);
                }
            }
        }
        lemma_relocated_valid(structure, cut, structure.len() - 1, None);
    }
}

/// The scan for the vowel before a nasal brings in no radical.
pub proof fn lemma_relocated_valid(structure: Seq<Letter>, letters: Seq<IpaLetter>, place: int, nasal: Option<
    int,
>)
    requires
        valid_sounds(letters),
        structure.len() == letters.len(),
        place < letters.len(),
        nasal matches Some(found) ==> 0 <= found < letters.len(),
    ensures
        valid_sounds(spec_relocated(structure, letters, place, nasal)),
        spec_relocated(structure, letters, place, nasal).len() == letters.len(),
    decreases place + 1,
{
    if place >= 0 {
        if structure[place] is Nasal {
            lemma_relocated_valid(structure, letters, place - 1, Some(place));
        } else {
            match letters[place] {
                IpaLetter::Removed => {
                    lemma_relocated_valid(structure, letters, place - 1, nasal);
                },
                _ => {},
            }
        }
    }
}

/// The letters once every vowel that stands for a nasal of the structure is
/// nasal.
pub open spec fn spec_nasalised(structure: Seq<Letter>, letters: Seq<IpaLetter>) -> Seq<IpaLetter> {
    Seq::new(
        letters.len(),
        |place: int|
            match letters[place] {
                IpaLetter::Vowel(vowel) => if place < structure.len() && structure[place] is Nasal {
                    IpaLetter::Vowel(vowel.nasal())
                } else {
                    letters[place]
                },
                _ => letters[place],
            },
    )
}

/// Sixth assimilation: turn vowels that should be nasal to nasal.
pub(crate) fn assimilation_6(structure: &ArrayVec<Letter, 8>, ipa_structure: &mut ArrayVec<IpaLetter, 8>)
    requires
        valid_sounds(sounds_held(*old(ipa_structure))),
        letters_held(*structure).len() == sounds_held(*old(ipa_structure)).len(),
    ensures
        sounds_held(*final(ipa_structure)) == spec_nasalised(
            letters_held(*structure),
            sounds_held(*old(ipa_structure)),
        ),
        valid_sounds(sounds_held(*final(ipa_structure))),
{
    let letters = letters_slice(structure);
    let len: usize = letters.len();
    let ghost start = sounds_held(*ipa_structure);
    let mut place: usize = 0;
    while place < len
        invariant
            place <= len,
            len == letters@.len(),
            len == start.len(),
            sounds_held(*ipa_structure).len() == len,
            forall|at: int|
                0 <= at < len ==> #[trigger] sounds_held(*ipa_structure)[at] == (if at < place {
                    spec_nasalised(letters@, start)[at]
                } else {
                    start[at]
                }),
        decreases len - place,
    {
        if let Letter::Nasal(_) = letters[place] {
            if let IpaLetter::Vowel(vowel) = sounds_slice(ipa_structure)[place] {
                let mut nasal = vowel;
                nasal.as_nasal();
                sounds_set(ipa_structure, place, IpaLetter::Vowel(nasal));
            }
        }
        place += 1;
    }
    assert(sounds_held(*ipa_structure) =~= spec_nasalised(letters@, start));
    assert(valid_sounds(sounds_held(*ipa_structure)));
}

/// The letter that a word starts with for a letter of its structure: a
/// consonant gives its radical, a vowel or a nasal the vowel of the form, and a
/// duplicate the sign of a duplicate.
pub open spec fn spec_base_letter(word: WordView, letter: Letter) -> IpaLetter {
    match letter {
        Letter::Consonant(slot) => IpaLetter::Radical(word.concept.slots[slot as int], false),
        Letter::Vowel(vowel) | Letter::Nasal(vowel) => IpaLetter::Vowel(
            spec_form_configs(word.concept.length, word.form_index).spec_get(vowel),
        ),
        Letter::DuplicateConsonant(_) | Letter::DuplicateVowel(_) => IpaLetter::Duplicate,
    }
}

/// The letters that a word starts with: one for each letter of its structure.
pub open spec fn spec_word_base(word: WordView) -> Seq<IpaLetter> {
    let structure = spec_structures(word.concept.length, word.stem_index as int);
    Seq::new(structure.len(), |place: int| spec_base_letter(word, structure[place]))
}

/// Build base of the word: insert concept radicals, fix stem and form structure
/// and insert neutral vowels.
pub(crate) fn word_base(
    structure: &ArrayVec<Letter, 8>,
    concept: Concept,
    form_index: u8,
    ipa_structure: &mut ArrayVec<IpaLetter, 8>,
    Ghost(word): Ghost<WordView>,
)
    requires
        word.valid(),
        word.concept == concept@,
        word.form_index == form_index,
        concept.valid(),
        letters_held(*structure) == spec_structures(word.concept.length, word.stem_index as int),
        sounds_held(*old(ipa_structure)) == Seq::<IpaLetter>::empty(),
    ensures
        sounds_held(*final(ipa_structure)) == spec_word_base(word),
        valid_sounds(sounds_held(*final(ipa_structure))),
{
    let length = concept.length();
    let concept_radicals = concept.radicals();
    let radicals = indices_slice(&concept_radicals);
    let vowels = form_configs(length, form_index);
    let letters = letters_slice(structure);
    let mut place: usize = 0;
    proof {
        concept.lemma_valid();
        lemma_structures(length, word.stem_index as int);
    }
    while place < letters.len()
        invariant
            place <= letters.len() <= 8,
            word.concept == concept@,
            word.form_index == form_index,
            concept@.valid(),
            concept@.length == length,
            radicals@ == concept@.radicals(),
            vowels == spec_form_configs(length, form_index),
            letters@ == spec_structures(length, word.stem_index as int),
            forall|at: int| 0 <= at < letters@.len() ==> (#[trigger] letters@[at]).fits(length),
            sounds_held(*ipa_structure) =~= spec_word_base(word).take(place as int),
            valid_sounds(sounds_held(*ipa_structure)),
        decreases letters.len() - place,
    {
        let letter = letters[place];
        assert(letter.fits(length));
        let sound = match letter {
            Letter::Consonant(slot) => {
                assert(radicals@[slot as int] == concept@.slots[slot as int]);
                IpaLetter::Radical(radicals[slot as usize], false)
            },
            Letter::Vowel(vowel) | Letter::Nasal(vowel) => IpaLetter::Vowel(vowels.get(vowel)),
            Letter::DuplicateConsonant(_) | Letter::DuplicateVowel(_) => IpaLetter::Duplicate,
        };
        proof {
            assert(sound == spec_base_letter(word, letter));
            assert(spec_word_base(word).take(place + 1) =~= spec_word_base(word).take(place as int).push(
                sound,
            ));
        }
        sounds_push(ipa_structure, sound);
        place += 1;
    }
    assert(spec_word_base(word).take(place as int) =~= spec_word_base(word));
}

/// The letters of a word after all assimilations, in their order: dark and
/// light colouring, shading, alternatives, removal at the boundaries, nasals,
/// rounding.
pub open spec fn spec_word_letters(word: WordView) -> Seq<IpaLetter> {
    let structure = spec_structures(word.concept.length, word.stem_index as int);
    let dark = spec_coloured(spec_word_base(word), Colouring::Dark);
    let light = spec_coloured(dark, Colouring::Light);
    let shaded = spec_coloured(light, Colouring::Shading);
    let alternated = spec_alternated(shaded);
    let removed = spec_boundaries_removed(structure, alternated);
    let nasalised = spec_nasalised(structure, removed);
    spec_coloured(nasalised, Colouring::Rounding)
}

/// The text of a letter: a radical gives its consonant or its alternative, with
/// the sign of its quality where that is part of the letter; a vowel gives its
/// text, a duplicate its sign, a removed letter nothing.
pub open spec fn spec_letter_text(letter: IpaLetter) -> Seq<char> {
    match letter {
        IpaLetter::Radical(radical, alternative) => spec_script_radical(radical).spec_text(
            false,
            alternative,
        ),
        IpaLetter::Vowel(vowel) => vowel.spec_as_str()@,
        IpaLetter::Duplicate => "ː"@,
        IpaLetter::Removed => Seq::empty(),
    }
}

/// The text of letters: their texts one after another.
pub open spec fn spec_emitted(letters: Seq<IpaLetter>) -> Seq<char>
    decreases letters.len(),
{
    if letters.len() == 0 {
        Seq::empty()
    } else {
        spec_emitted(letters.drop_last()) + spec_letter_text(letters.last())
    }
}

/// The text of a word: the text of its letters after all assimilations.
pub open spec fn spec_word(word: WordView) -> Seq<char> {
    spec_emitted(spec_word_letters(word))
}

/// The text of the first `count` radicals of a concept, each with the sign of
/// its quality.
pub open spec fn spec_concept_upto(concept: ConceptView, count: int) -> Seq<char>
    decreases count,
{
    if count <= 0 {
        Seq::empty()
    } else {
        spec_concept_upto(concept, count - 1) + spec_script_radical(
            concept.slots[count - 1],
        ).spec_text(true, false)
    }
}

/// The text of a concept: the texts of its radicals, each with the sign of its
/// quality.
pub open spec fn spec_concept(concept: ConceptView) -> Seq<char> {
    spec_concept_upto(concept, concept.length.spec_as_int() as int)
}

/// Write a radical behind what a text buffer holds: its consonant, or its
/// alternative consonant where one is asked for and there is one, and the sign
/// of its quality where that is forced or part of the letter.
pub(crate) fn push_radical(string: &mut ArrayString<64>, index: u8, force_quality: bool, alternative: bool)
    requires
        index < 44,
        byte_len(text_held(*old(string))) + 8 <= 64,
    ensures
        text_held(*final(string)) == text_held(*old(string)) + spec_script_radical(index).spec_text(
            force_quality,
            alternative,
        ),
        byte_len(text_held(*final(string))) <= byte_len(text_held(*old(string))) + 8,
{
    let radical = script_radical(index);
    let ghost before = text_held(*string);
    let consonant: &'static str = if alternative {
        match radical.alternative() {
            Some(other) => other,
            None => radical.0,
        }
    } else {
        radical.0
    };
    proof {
        lemma_radical_text(index, force_quality, alternative);
        lemma_short_text(consonant@);
        lemma_short_text(radical.1.spec_as_str()@);
        lemma_byte_len_append(before, consonant@);
        lemma_byte_len_append(before + consonant@, radical.1.spec_as_str()@);
    }
    text_push_str(string, consonant);
    if force_quality || radical.2 {
        text_push_str(string, radical.quality().as_str());
        assert(text_held(*string) =~= before + radical.spec_text(force_quality, alternative));
    }
}

/// Build concept string.
pub fn concept(given: Concept) -> (string: ArrayString<64>)
    ensures
        text_held(string) == spec_concept(given@),
{
    let radicals = given.radicals();
    let slots = indices_slice(&radicals);
    let mut string = text_new();
    let mut slot: usize = 0;
    proof {
        use_type_invariant(&given);
        given.lemma_valid();
        assert(byte_len(text_held(string)) == 0);
    }
    while slot < slots.len()
        invariant
            slot <= slots.len() <= 4,
            slots@ == given@.radicals(),
            given@.valid(),
            slots@.len() == given@.length.spec_as_int(),
            forall|at: int| 0 <= at < slots@.len() ==> #[trigger] slots@[at] < 44,
            text_held(string) == spec_concept_upto(given@, slot as int),
            byte_len(text_held(string)) <= 8 * slot,
        decreases slots.len() - slot,
    {
        assert(slots@[slot as int] == given@.slots[slot as int]);
        push_radical(&mut string, slots[slot], true, false);
        slot += 1;
    }
    string
}

/// Build word.
pub fn word(given: Word) -> (string: ArrayString<64>)
    ensures
        text_held(string) == spec_word(given@),
{
    let concept = given.concept();
    let structure = structures(concept.length(), given.stem_index());
    let mut ipa_structure = sounds_new();
    proof {
        use_type_invariant(&given);
        given.lemma_valid();
        lemma_structures(concept@.length, given@.stem_index as int);
    }
    word_base(&structure, concept, given.form_index(), &mut ipa_structure, Ghost(given@));
    assimilation_1(&mut ipa_structure);
    assimilation_2(&mut ipa_structure);
    assimilation_3(&mut ipa_structure);
    assimilation_4(&mut ipa_structure);
    assimilation_5(&structure, &mut ipa_structure);
    assimilation_6(&structure, &mut ipa_structure);
    assimilation_7(&mut ipa_structure);
    let letters = sounds_slice(&ipa_structure);
    assert(letters@ == spec_word_letters(given@));
    let mut string = text_new();
    let mut place: usize = 0;
    assert(letters@.take(0) =~= Seq::<IpaLetter>::empty());
    assert(byte_len(text_held(string)) == 0);
    while place < letters.len()
        invariant
            place <= letters.len() <= 8,
            valid_sounds(letters@),
            text_held(string) == spec_emitted(letters@.take(place as int)),
            byte_len(text_held(string)) <= 8 * place,
        decreases letters.len() - place,
    {
        let letter = letters[place];
        let ghost before = text_held(string);
        proof {
            assert(letters@.take(place + 1).drop_last() =~= letters@.take(place as int));
            assert(letters@.take(place + 1).last() == letter);
            assert(letters@[place as int] == letter);
            IpaVowel::NeutralA.lemma_text();
        }
        match letter {
            IpaLetter::Radical(radical, alternative) => {
                push_radical(&mut string, radical, false, alternative);
            },
            IpaLetter::Vowel(vowel) => {
                proof {
                    vowel.lemma_text();
                    lemma_short_text(vowel.spec_as_str()@);
                    lemma_byte_len_append(before, vowel.spec_as_str()@);
                }
                text_push_str(&mut string, vowel.as_str());
            },
            IpaLetter::Duplicate => {
                proof {
                    lemma_short_text("ː"@);
                    lemma_byte_len_append(before, "ː"@);
                }
                text_push_str(&mut string, "ː");
            },
            IpaLetter::Removed => {
                assert(before + Seq::<char>::empty() =~= before);
            },
        }
        place += 1;
    }
    assert(letters@.take(place as int) =~= letters@);
    string
}

} // verus!
