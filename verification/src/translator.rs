//! Translates whole sentences.

use crate::script::uywi_chiffre::spec_from_str;
use crate::script::{ConceptOrWordView, Script};
use vstd::prelude::*;
use vstd::string::StringExecFns;

verus! {

/// Whether a character is white space.
pub uninterp spec fn is_whitespace(letter: char) -> bool;

/// `char::is_whitespace`: says whether the character is white space.
#[verifier::external_body]
fn whitespace(letter: char) -> (white: bool)
    ensures
        white == is_whitespace(letter),
{
    letter.is_whitespace()
}

/// `String::push`: appends the character to the string.
#[verifier::external_body]
fn push_char(string: &mut String, letter: char)
    ensures
        final(string)@ == old(string)@.push(letter),
{
    string.push(letter)
}

/// What a word of a sentence becomes: a word or a concept of the UYWI Chiffre
/// becomes its text in the IPA, any other word stays as it is.
pub open spec fn spec_translate_word(word: Seq<char>) -> Seq<char> {
    if word.len() == 0 {
        word
    } else {
        match spec_from_str(word) {
            Ok(ConceptOrWordView::Concept(concept)) => Script::IpaPeter.spec_concept(concept),
            Ok(ConceptOrWordView::Word(parsed)) => Script::IpaPeter.spec_word(parsed),
            Err(_) => word,
        }
    }
}

/// The translation of the first `count` characters of a sentence, without the
/// word that has begun but not ended.
pub open spec fn spec_translated(sentence: Seq<char>, count: int) -> Seq<char>
    decreases count,
{
    if count <= 0 {
        Seq::empty()
    } else if is_whitespace(sentence[count - 1]) {
        (spec_translated(sentence, count - 1) + spec_translate_word(
            spec_pending(sentence, count - 1),
        )).push(sentence[count - 1])
    } else {
        spec_translated(sentence, count - 1)
    }
}

/// The word that has begun but not ended among the first `count` characters of
/// a sentence: what stands behind the last white space.
pub open spec fn spec_pending(sentence: Seq<char>, count: int) -> Seq<char>
    decreases count,
{
    if count <= 0 || is_whitespace(sentence[count - 1]) {
        Seq::empty()
    } else {
        spec_pending(sentence, count - 1).push(sentence[count - 1])
    }
}

/// The translation of a sentence: every run of characters between white space
/// is translated as a word, and the white space stays as it is.
pub open spec fn spec_translate(sentence: Seq<char>) -> Seq<char> {
    spec_translated(sentence, sentence.len() as int) + spec_translate_word(
        spec_pending(sentence, sentence.len() as int),
    )
}

/// Translate a word of the UYWI Chiffre to the IPA, and write it behind
/// `output`; a word that cannot be read is written as it is.
fn translate_word(output: &mut String, word: &String)
    ensures
        final(output)@ == old(output)@ + spec_translate_word(word@),
{
    if word.as_str().unicode_len() == 0 {
        assert(old(output)@ + word@ =~= old(output)@);
        return ;
    }
    match Script::UywiChiffre.from_str(word.as_str()) {
        Ok(parsed) => {
            let text = parsed.to_string(Script::IpaPeter);
            output.append(text.as_str());
        },
        Err(_) => {
            output.append(word.as_str());
        },
    }
}

/// Translate a sentence of the UYWI Chiffre to the IPA, word by word.
pub fn translate(sentence: &str) -> (output: String)
    ensures
        output@ == spec_translate(sentence@),
{
    let mut output = String::new();
    let mut word = String::new();
    for letter in letters: sentence.chars()
        invariant
            letters.seq() == sentence@,
            output@ == spec_translated(sentence@, letters.index() as int),
            word@ == spec_pending(sentence@, letters.index() as int),
    {
        if whitespace(letter) {
            translate_word(&mut output, &word);
            push_char(&mut output, letter);
            word = String::new();
        } else {
            push_char(&mut word, letter);
        }
    }
    translate_word(&mut output, &word);
    output
}

} // verus!
