//! What the UYWI Chiffre writes, it reads back.

use crate::bounded::{lemma_short_text, short_text};
use crate::concept::{chosen_of, lemma_chosen_of, lemma_ordered_len, lemma_stored, ConceptView};
use crate::length::distinct_radicals;
use crate::script::uywi_chiffre::{
    candidate_length, candidate_outcome, candidate_stem, chiffre_letter, consonant_graphemes,
    form_vowel_index, joined, lemma_parsed_radicals, lemma_radical_table, letter_index,
    matching_form, parsed_radicals, search_words, spec_concept, spec_concept_from_graphemes,
    spec_from_concept, spec_from_str, spec_radical_index, spec_word,
};
use crate::script::ConceptOrWordView;
use crate::structure::{
    consonants_upto, lemma_consonant_slots, lemma_structures, spec_structures, Letter, Vowel,
};
use crate::util::grapheme_clusters;
use crate::word::WordView;
use crate::{Error, Length};
use vstd::prelude::*;

verus! {

/// The letters of a text, each as a grapheme of its own.
pub open spec fn letters_of(text: Seq<char>) -> Seq<Seq<char>> {
    Seq::new(text.len(), |place: int| seq![text[place]])
}

/// The letters of a concept stand for the concept.
pub proof fn lemma_concept_letters_round_trip(concept: ConceptView)
    requires
        concept.valid(),
    ensures
        spec_concept_from_graphemes(letters_of(spec_concept(concept))) == Ok::<ConceptView, Error>(
            concept,
        ),
{
    let length = concept.length;
    let graphemes = letters_of(spec_concept(concept));
    lemma_chosen_of(length, concept.slots);
    lemma_letters_parsed(concept, length.spec_as_int() as nat);
    assert(chosen_of(length, concept.slots).take(length.spec_as_int() as int) =~= chosen_of(
        length,
        concept.slots,
    ));
}

/// The letters of a concept are read as its radicals, position by position.
pub proof fn lemma_letters_parsed(concept: ConceptView, count: nat)
    requires
        concept.valid(),
        count <= concept.length.spec_as_int(),
    ensures
        parsed_radicals(concept.length, letters_of(spec_concept(concept)), count) == Ok::<
            Seq<u8>,
            Error,
        >(chosen_of(concept.length, concept.slots).take(count as int)),
    decreases count,
{
    let length = concept.length;
    let graphemes = letters_of(spec_concept(concept));
    let chosen = chosen_of(length, concept.slots);
    lemma_chosen_of(length, concept.slots);
    if count == 0 {
        assert(chosen.take(0) =~= Seq::<u8>::empty());
    } else {
        let position = count - 1;
        lemma_letters_parsed(concept, position as nat);
        let before = chosen.take(position);
        let slot = length.spec_radical_order_mirrored()[position] as int;
        let radical = concept.slots[slot];
        assert(radical == chosen[position]);
        assert(graphemes[slot] =~= seq![chiffre_letter(radical)]);
        lemma_radical_table(radical, graphemes[slot]);
        assert(spec_radical_index(graphemes[slot]) == Some(radical));
        assert(distinct_radicals(before)) by {
            assert forall|i: int| 0 <= i < before.len() implies #[trigger] before[i] < 44 by {
                assert(before[i] == chosen[i]);
            }
        }
        assert(!before.contains(radical)) by {
            if before.contains(radical) {
                let i = choose|i: int| 0 <= i < before.len() && before[i] == radical;
                assert(chosen[i] == chosen[position]);
            }
        }
        lemma_ordered_len(length, position, before);
        assert(chosen.take(count as int) =~= before.push(radical));
    }
}

/// A concept is read back from its text, where the grapheme clusters of the text
/// are its letters.
pub proof fn lemma_concept_round_trip(concept: ConceptView)
    requires
        concept.valid(),
        grapheme_clusters(spec_concept(concept)) == letters_of(spec_concept(concept)),
    ensures
        spec_from_concept(spec_concept(concept)) == Ok::<ConceptView, Error>(concept),
        spec_from_str(spec_concept(concept)) == Ok::<ConceptOrWordView, Error>(
            ConceptOrWordView::Concept(concept),
        ),
{
    lemma_concept_letters_round_trip(concept);
}

/// Whether a letter is a vowel of the Chiffre.
pub open spec fn is_vowel_letter(letter: char) -> bool {
    letter == 'o' || letter == 'ı'
}

/// A text of letters of the Chiffre: letters of radicals and vowels.
pub open spec fn chiffre_text(text: Seq<char>) -> bool {
    forall|place: int|
        0 <= place < text.len() ==> (letter_index(#[trigger] text[place]) is Some || is_vowel_letter(
            text[place],
        ))
}

/// Whether a letter of a structure is a consonant or the duplicate of one.
pub open spec fn consonant_kind(letter: Letter) -> bool {
    letter is Consonant || letter is DuplicateConsonant
}

/// The number of the candidate that is the stem `stem_index` of `length`.
pub open spec fn candidate_of(length: Length, stem_index: u8) -> int {
    match length {
        Length::L2 => stem_index as int,
        Length::L3 => 3 + stem_index,
        Length::L4 => 8 + stem_index,
    }
}

/// The structure of a candidate.
pub open spec fn candidate_structure(candidate: int) -> Seq<Letter> {
    spec_structures(candidate_length(candidate), candidate_stem(candidate) as int)
}

/// The place of the last vowel in the structure of a candidate of the lengths 3
/// and 4.
pub open spec fn last_vowel_place(candidate: int) -> int {
    if candidate == 3 {
        3
    } else if candidate == 4 {
        4
    } else if candidate == 5 {
        4
    } else if candidate == 6 {
        3
    } else if candidate == 7 {
        3
    } else if candidate == 8 {
        4
    } else if candidate == 9 {
        5
    } else if candidate == 10 {
        5
    } else if candidate == 11 {
        4
    } else if candidate == 12 {
        4
    } else if candidate == 13 {
        6
    } else if candidate == 14 {
        6
    } else if candidate == 15 {
        5
    } else {
        0
    }
}

/// The letters of a text at the consonants among the first `count` letters of a
/// structure.
pub open spec fn consonant_text(structure: Seq<Letter>, text: Seq<char>, count: int) -> Seq<char>
    decreases count,
{
    if count <= 0 {
        Seq::empty()
    } else {
        let before = consonant_text(structure, text, count - 1);
        match structure[count - 1] {
            Letter::Consonant(_) => before.push(text[count - 1]),
            _ => before,
        }
    }
}

/// Letters that are put together make their text.
pub proof fn lemma_joined_letters(text: Seq<char>)
    ensures
        joined(letters_of(text)) == text,
    decreases text.len(),
{
    if text.len() > 0 {
        lemma_joined_letters(text.drop_last());
        assert(letters_of(text).drop_last() =~= letters_of(text.drop_last()));
        assert(text.drop_last() + letters_of(text).last() =~= text);
    } else {
        assert(joined(letters_of(text)) =~= text);
    }
}

/// The graphemes at the consonants of a structure, for a text that is read
/// letter by letter, are the letters at the consonants; these are as many as the
/// structure has consonants, and letters of the text.
pub proof fn lemma_consonant_text(structure: Seq<Letter>, text: Seq<char>, count: int)
    requires
        0 <= count <= structure.len(),
        structure.len() == text.len(),
    ensures
        consonant_graphemes(structure, letters_of(text), count) == letters_of(
            consonant_text(structure, text, count),
        ),
        consonant_text(structure, text, count).len() == consonants_upto(structure, count).len(),
        forall|at: int|
            0 <= at < consonants_upto(structure, count).len() ==> exists|place: int|
                0 <= place < count && structure[place] == Letter::Consonant(
                    #[trigger] consonants_upto(structure, count)[at],
                ) && consonant_text(structure, text, count)[at] == text[place],
    decreases count,
{
    if count > 0 {
        lemma_consonant_text(structure, text, count - 1);
        let before = consonant_text(structure, text, count - 1);
        let slots = consonants_upto(structure, count);
        match structure[count - 1] {
            Letter::Consonant(slot) => {
                assert(letters_of(before.push(text[count - 1])) =~= letters_of(before).push(
                    seq![text[count - 1]],
                ));
                assert forall|at: int| 0 <= at < slots.len() implies exists|place: int|
                    0 <= place < count && structure[place] == Letter::Consonant(#[trigger] slots[at])
                        && consonant_text(structure, text, count)[at] == text[place] by {
                    if at < slots.len() - 1 {
                        let place = choose|place: int|
                            0 <= place < count - 1 && structure[place] == Letter::Consonant(
                                consonants_upto(structure, count - 1)[at],
                            ) && before[at] == text[place];
                        assert(0 <= place < count && structure[place] == Letter::Consonant(slots[at])
                            && consonant_text(structure, text, count)[at] == text[place]);
                    } else {
                        assert(structure[count - 1] == Letter::Consonant(slots[at]));
                    }
                }
            },
            _ => {
                assert forall|at: int| 0 <= at < slots.len() implies exists|place: int|
                    0 <= place < count && structure[place] == Letter::Consonant(#[trigger] slots[at])
                        && consonant_text(structure, text, count)[at] == text[place] by {
                    let place = choose|place: int|
                        0 <= place < count - 1 && structure[place] == Letter::Consonant(
                            consonants_upto(structure, count - 1)[at],
                        ) && before[at] == text[place];
                    assert(0 <= place < count && structure[place] == Letter::Consonant(slots[at])
                        && consonant_text(structure, text, count)[at] == text[place]);
                }
            },
        }
    } else {
        assert(consonant_graphemes(structure, letters_of(text), count) =~= letters_of(
            consonant_text(structure, text, count),
        ));
    }
}

/// The text of a word has one letter of the Chiffre for each letter of its
/// structure: the letter of a radical for a consonant, a vowel for all else.
pub proof fn lemma_word_text(word: WordView)
    requires
        word.valid(),
    ensures
        spec_word(word).len() == spec_structures(
            word.concept.length,
            word.stem_index as int,
        ).len(),
        chiffre_text(spec_word(word)),
        forall|place: int|
            0 <= place < spec_word(word).len() ==> (is_vowel_letter(#[trigger] spec_word(word)[place])
                <==> !consonant_kind(
                spec_structures(word.concept.length, word.stem_index as int)[place],
            )),
{
    let structure = spec_structures(word.concept.length, word.stem_index as int);
    let text = spec_word(word);
    lemma_structures(word.concept.length, word.stem_index as int);
    assert forall|place: int| 0 <= place < text.len() implies (letter_index(#[trigger] text[place]) is Some
        || is_vowel_letter(text[place])) && (is_vowel_letter(text[place]) <==> !consonant_kind(
        structure[place],
    )) by {
        let letter = structure[place];
        assert(letter.fits(word.concept.length));
        match letter {
            Letter::Consonant(slot) | Letter::DuplicateConsonant(slot) => {
                let radical = word.concept.slots[slot as int];
                assert(radical == word.concept.radicals()[slot as int]);
                lemma_radical_table(radical, seq![chiffre_letter(radical)]);
                assert(seq![chiffre_letter(radical)][0] == chiffre_letter(radical));
            },
            _ => {},
        }
    }
}

/// The letters of a word do not stand for a concept: the second is a vowel.
pub proof fn lemma_word_is_no_concept(word: WordView)
    requires
        word.valid(),
    ensures
        spec_concept_from_graphemes(letters_of(spec_word(word))) is Err,
{
    let text = spec_word(word);
    let graphemes = letters_of(text);
    lemma_word_text(word);
    lemma_structures(word.concept.length, word.stem_index as int);
    assert(is_vowel_letter(text[1]));
    assert(graphemes[1] =~= seq![text[1]]);
    assert(spec_radical_index(graphemes[1]) is None);
    if text.len() == 3 {
        lemma_parsed_radicals(Length::L3, graphemes, 2, 3);
    } else if text.len() == 4 {
        lemma_parsed_radicals(Length::L4, graphemes, 3, 4);
    }
}

/// The concept that graphemes stand for is valid, and has as many radicals as
/// there are graphemes.
pub proof fn lemma_parsed_concept(graphemes: Seq<Seq<char>>)
    ensures
        spec_concept_from_graphemes(graphemes) matches Ok(concept) ==> concept.valid()
            && concept.length.spec_as_int() == graphemes.len(),
{
    match Length::spec_new(graphemes.len()) {
        Ok(length) => {
            lemma_parsed_radicals(
                length,
                graphemes,
                length.spec_as_int() as nat,
                length.spec_as_int() as nat,
            );
            match parsed_radicals(length, graphemes, length.spec_as_int() as nat) {
                Ok(chosen) => {
                    lemma_stored(length, chosen);
                },
                Err(_) => {},
            }
        },
        Err(_) => {},
    }
}

/// Words with the same text have consonants at the same places.
pub proof fn lemma_same_kinds(word: WordView, other: WordView)
    requires
        word.valid(),
        other.valid(),
        spec_word(word) == spec_word(other),
    ensures
        spec_structures(word.concept.length, word.stem_index as int).len() == spec_structures(
            other.concept.length,
            other.stem_index as int,
        ).len(),
        forall|place: int|
            0 <= place < spec_word(word).len() ==> consonant_kind(
                #[trigger] spec_structures(word.concept.length, word.stem_index as int)[place],
            ) == consonant_kind(
                spec_structures(other.concept.length, other.stem_index as int)[place],
            ),
{
    lemma_word_text(word);
    lemma_word_text(other);
    let text = spec_word(word);
    assert forall|place: int| 0 <= place < text.len() implies consonant_kind(
        #[trigger] spec_structures(word.concept.length, word.stem_index as int)[place],
    ) == consonant_kind(spec_structures(other.concept.length, other.stem_index as int)[place]) by {
        let one = spec_word(word)[place];
        let two = spec_word(other)[place];
        assert(one == two);
        assert(is_vowel_letter(one) <==> !consonant_kind(
            spec_structures(word.concept.length, word.stem_index as int)[place],
        ));
        assert(is_vowel_letter(two) <==> !consonant_kind(
            spec_structures(other.concept.length, other.stem_index as int)[place],
        ));
    }
}

/// Two candidates with structures of one length have a place where one has a
/// consonant and the other has none; but for the second stem of the length 3 and
/// the first of the length 4.
pub proof fn lemma_kinds_differ(first: int, second: int)
    requires
        0 <= first < second < 16,
        candidate_structure(first).len() == candidate_structure(second).len(),
        !(first == 4 && second == 8),
    ensures
        exists|place: int|
            0 <= place < candidate_structure(first).len() && consonant_kind(
                #[trigger] candidate_structure(first)[place],
            ) != consonant_kind(candidate_structure(second)[place]),
{
    let one = candidate_structure(first);
    let other = candidate_structure(second);
    if first == 2 && second == 3 {
        assert(consonant_kind(one[3]) != consonant_kind(other[3]));
    }
    if first == 4 && second == 5 {
        assert(consonant_kind(one[2]) != consonant_kind(other[2]));
    }
    if first == 4 && second == 6 {
        assert(consonant_kind(one[3]) != consonant_kind(other[3]));
    }
    if first == 5 && second == 6 {
        assert(consonant_kind(one[2]) != consonant_kind(other[2]));
    }
    if first == 5 && second == 8 {
        assert(consonant_kind(one[2]) != consonant_kind(other[2]));
    }
    if first == 6 && second == 8 {
        assert(consonant_kind(one[3]) != consonant_kind(other[3]));
    }
    if first == 7 && second == 9 {
        assert(consonant_kind(one[5]) != consonant_kind(other[5]));
    }
    if first == 7 && second == 10 {
        assert(consonant_kind(one[2]) != consonant_kind(other[2]));
    }
    if first == 7 && second == 11 {
        assert(consonant_kind(one[3]) != consonant_kind(other[3]));
    }
    if first == 9 && second == 10 {
        assert(consonant_kind(one[2]) != consonant_kind(other[2]));
    }
    if first == 9 && second == 11 {
        assert(consonant_kind(one[3]) != consonant_kind(other[3]));
    }
    if first == 10 && second == 11 {
        assert(consonant_kind(one[2]) != consonant_kind(other[2]));
    }
    if first == 12 && second == 13 {
        assert(consonant_kind(one[3]) != consonant_kind(other[3]));
    }
    if first == 12 && second == 14 {
        assert(consonant_kind(one[3]) != consonant_kind(other[3]));
    }
    if first == 12 && second == 15 {
        assert(consonant_kind(one[3]) != consonant_kind(other[3]));
    }
    if first == 13 && second == 14 {
        assert(consonant_kind(one[4]) != consonant_kind(other[4]));
    }
    if first == 13 && second == 15 {
        assert(consonant_kind(one[4]) != consonant_kind(other[4]));
    }
    if first == 14 && second == 15 {
        assert(consonant_kind(one[5]) != consonant_kind(other[5]));
    }
}

/// Two forms of a stem have different texts.
pub proof fn lemma_forms_differ(word: WordView, form_index: u8)
    requires
        word.valid(),
        form_index < word.concept.length.spec_forms_per_stem(),
        form_index != word.form_index,
    ensures
        spec_word(WordView { form_index, ..word }) != spec_word(word),
{
    let other = WordView { form_index, ..word };
    let length = word.concept.length;
    let structure = spec_structures(length, word.stem_index as int);
    lemma_structures(length, word.stem_index as int);
    let candidate = candidate_of(length, word.stem_index);
    assert(candidate_structure(candidate) == structure);
    if form_vowel_index(length, form_index as int, Vowel::First) != form_vowel_index(
        length,
        word.form_index as int,
        Vowel::First,
    ) {
        assert(spec_word(other)[1] != spec_word(word)[1]);
    } else {
        let place = last_vowel_place(candidate);
        assert(structure[place] == Letter::Vowel(Vowel::Last));
        assert(spec_word(other)[place] != spec_word(word)[place]);
    }
}

/// The form of a word is the first form of its stem that has its text.
pub proof fn lemma_own_form(word: WordView, forms: int)
    requires
        word.valid(),
        0 <= forms <= word.concept.length.spec_forms_per_stem(),
    ensures
        forms <= word.form_index ==> matching_form(
            spec_word(word),
            word.concept,
            word.stem_index,
            forms,
        ) is None,
        forms > word.form_index ==> matching_form(
            spec_word(word),
            word.concept,
            word.stem_index,
            forms,
        ) == Some(word.form_index),
    decreases forms,
{
    if forms > 0 {
        lemma_own_form(word, forms - 1);
        if forms - 1 != word.form_index {
            lemma_forms_differ(word, (forms - 1) as u8);
        } else {
            assert(WordView {
                concept: word.concept,
                stem_index: word.stem_index,
                form_index: (forms - 1) as u8,
            } == word);
        }
    }
}

/// A form that matches is one of the forms, and has the text.
pub proof fn lemma_matching_form_found(text: Seq<char>, concept: ConceptView, stem_index: u8, forms: int)
    requires
        0 <= forms <= 4,
    ensures
        matching_form(text, concept, stem_index, forms) matches Some(form_index) ==> form_index
            < forms && spec_word(WordView { concept, stem_index, form_index }) == text,
    decreases forms,
{
    if forms > 0 {
        lemma_matching_form_found(text, concept, stem_index, forms - 1);
    }
}

/// The candidate of a word finds the word.
pub proof fn lemma_own_candidate(word: WordView)
    requires
        word.valid(),
        grapheme_clusters(spec_concept(word.concept)) == letters_of(spec_concept(word.concept)),
    ensures
        candidate_outcome(
            spec_word(word),
            letters_of(spec_word(word)),
            candidate_of(word.concept.length, word.stem_index),
        ) == Some(Ok::<ConceptOrWordView, Error>(ConceptOrWordView::Word(word))),
{
    let length = word.concept.length;
    let text = spec_word(word);
    let structure = spec_structures(length, word.stem_index as int);
    let count = structure.len() as int;
    lemma_word_text(word);
    lemma_structures(length, word.stem_index as int);
    lemma_consonant_slots(structure, count);
    assert(structure.take(count) =~= structure);
    lemma_consonant_text(structure, text, count);
    let consonants = consonant_text(structure, text, count);
    lemma_joined_letters(consonants);
    assert(consonants =~= spec_concept(word.concept)) by {
        let slots = consonants_upto(structure, count);
        assert forall|at: int| 0 <= at < consonants.len() implies consonants[at] == spec_concept(
            word.concept,
        )[at] by {
            let place = choose|place: int|
                0 <= place < count && structure[place] == Letter::Consonant(slots[at])
                    && consonants[at] == text[place];
            assert(slots[at] == at as u8);
        }
    }
    lemma_concept_round_trip(word.concept);
    assert(short_text(consonants)) by {
        assert forall|at: int| 0 <= at < consonants.len() implies (#[trigger] consonants[at] as u32)
            < 0x800 by {
            let radical = word.concept.slots[at];
            assert(radical == word.concept.radicals()[at]);
            lemma_radical_table(radical, Seq::empty());
        }
    }
    lemma_short_text(consonants);
    lemma_own_form(word, length.spec_forms_per_stem() as int);
}

/// A candidate before the candidate of a word does not end the search for the
/// word.
pub proof fn lemma_other_candidate(word: WordView, candidate: int)
    requires
        word.valid(),
        0 <= candidate < candidate_of(word.concept.length, word.stem_index),
        forall|text: Seq<char>|
            chiffre_text(text) ==> #[trigger] grapheme_clusters(text) == letters_of(text),
    ensures
        candidate_outcome(spec_word(word), letters_of(spec_word(word)), candidate) is None,
{
    let text = spec_word(word);
    let own = candidate_of(word.concept.length, word.stem_index);
    let structure = candidate_structure(candidate);
    let stem_index = candidate_stem(candidate);
    lemma_word_text(word);
    lemma_structures(word.concept.length, word.stem_index as int);
    lemma_structures(candidate_length(candidate), stem_index as int);
    assert(candidate_structure(own) == spec_structures(
        word.concept.length,
        word.stem_index as int,
    ));
    if structure.len() == text.len() {
        let count = structure.len() as int;
        lemma_consonant_text(structure, text, count);
        let consonants = consonant_text(structure, text, count);
        lemma_joined_letters(consonants);
        lemma_consonant_slots(structure, count);
        assert(structure.take(count) =~= structure);
        assert(consonants.len() == candidate_length(candidate).spec_as_int());
        assert(chiffre_text(consonants)) by {
            let slots = consonants_upto(structure, count);
            assert forall|at: int| 0 <= at < consonants.len() implies (letter_index(
                #[trigger] consonants[at],
            ) is Some || is_vowel_letter(consonants[at])) by {
                let place = choose|place: int|
                    0 <= place < count && structure[place] == Letter::Consonant(slots[at])
                        && consonants[at] == text[place];
                assert(letter_index(text[place]) is Some || is_vowel_letter(text[place]));
            }
        }
        assert(short_text(consonants)) by {
            assert forall|at: int| 0 <= at < consonants.len() implies (#[trigger] consonants[at] as u32)
                < 0x800 by {
                assert(letter_index(consonants[at]) is Some || is_vowel_letter(consonants[at]));
            }
        }
        lemma_short_text(consonants);
        assert(grapheme_clusters(consonants) == letters_of(consonants));
        lemma_parsed_concept(letters_of(consonants));
        match spec_from_concept(consonants) {
            Err(_) => {},
            Ok(concept) => {
                assert(concept.length == candidate_length(candidate));
                let forms = concept.length.spec_forms_per_stem() as int;
                lemma_matching_form_found(text, concept, stem_index, forms);
                match matching_form(text, concept, stem_index, forms) {
                    None => {},
                    Some(form_index) => {
                        let other = WordView { concept, stem_index, form_index };
                        lemma_same_kinds(other, word);
                        if candidate == 4 && own == 8 {
                            lemma_word_text(other);
                            let first = word.concept.slots[1];
                            let second = word.concept.slots[2];
                            assert(spec_word(other)[2] == spec_word(other)[3]);
                            assert(text[2] == chiffre_letter(first));
                            assert(text[3] == chiffre_letter(second));
                            assert(first == word.concept.radicals()[1]);
                            assert(second == word.concept.radicals()[2]);
                            lemma_radical_table(first, Seq::empty());
                            lemma_radical_table(second, Seq::empty());
                            assert(spec_radical_index(seq![chiffre_letter(first)]) == Some(first));
                            assert(spec_radical_index(seq![chiffre_letter(second)]) == Some(second));
                            assert(false);
                        } else {
                            lemma_kinds_differ(candidate, own);
                            assert(false);
                        }
                    },
                }
            },
        }
    }
}

/// The search for a word, from a candidate up to its own, finds the word.
pub proof fn lemma_search_finds(word: WordView, candidate: int)
    requires
        word.valid(),
        0 <= candidate <= candidate_of(word.concept.length, word.stem_index),
        forall|text: Seq<char>|
            chiffre_text(text) ==> #[trigger] grapheme_clusters(text) == letters_of(text),
    ensures
        search_words(spec_word(word), letters_of(spec_word(word)), candidate) == Ok::<
            ConceptOrWordView,
            Error,
        >(ConceptOrWordView::Word(word)),
    decreases candidate_of(word.concept.length, word.stem_index) - candidate,
{
    if candidate < candidate_of(word.concept.length, word.stem_index) {
        lemma_other_candidate(word, candidate);
        lemma_search_finds(word, candidate + 1);
    } else {
        lemma_concept_text(word.concept);
        lemma_own_candidate(word);
    }
}

/// The text of a valid concept is a text of letters of the Chiffre.
pub proof fn lemma_concept_text(concept: ConceptView)
    requires
        concept.valid(),
    ensures
        chiffre_text(spec_concept(concept)),
{
    let text = spec_concept(concept);
    assert forall|place: int| 0 <= place < text.len() implies (letter_index(#[trigger] text[place]) is Some
        || is_vowel_letter(text[place])) by {
        let radical = concept.slots[place];
        assert(radical == concept.radicals()[place]);
        lemma_radical_table(radical, seq![chiffre_letter(radical)]);
        assert(seq![chiffre_letter(radical)][0] == chiffre_letter(radical));
    }
}

/// A word is read back from its text, where the grapheme clusters of every text
/// of letters of the Chiffre are its letters.
pub proof fn lemma_word_round_trip(word: WordView)
    requires
        word.valid(),
        forall|text: Seq<char>|
            chiffre_text(text) ==> #[trigger] grapheme_clusters(text) == letters_of(text),
    ensures
        spec_from_str(spec_word(word)) == Ok::<ConceptOrWordView, Error>(
            ConceptOrWordView::Word(word),
        ),
{
    lemma_word_text(word);
    lemma_word_is_no_concept(word);
    lemma_search_finds(word, 0);
}

} // verus!
