//! UYWI Chiffre.

use crate::bounded::{
    byte_len, indices_held, indices_new, indices_push, indices_slice, lemma_byte_len_append,
    lemma_short_text, letters_slice, short_text, text_as_str, text_clear, text_held, text_new,
    text_push_str, text_try_push_str,
};
use crate::script::{parsed_result, ConceptOrWord, ConceptOrWordView};
use crate::concept::{
    concept_result, lemma_ordered_len, lemma_stored, store_radicals, stored_slots, ConceptView,
};
use crate::length::distinct_radicals;
use crate::structure::{lemma_structures, spec_structures, structures, Letter, Vowel};
use crate::util::{grapheme_clusters, graphemes, texts};
use crate::word::WordView;
use crate::{Concept, Error, Length, Radical, Word};
use arrayvec::ArrayString;
use vstd::prelude::*;
use vstd::string::StrSliceExecFns;

verus! {

/// The letter of the radical with the given index.
pub open spec fn chiffre_letter(index: u8) -> char {
    match index {
        0 => '?',
        1 => 'Y',
        2 => 'w',
        3 => 'h',
        4 => '2',
        5 => 'H',
        6 => 'K',
        7 => 'k',
        8 => 'X',
        9 => 'x',
        10 => '8',
        11 => '4',
        12 => 'G',
        13 => 'g',
        14 => 'j',
        15 => '7',
        16 => '3',
        17 => 'Q',
        18 => 'c',
        19 => '9',
        20 => 'S',
        21 => 's',
        22 => 'Z',
        23 => 'z',
        24 => 'D',
        25 => 'd',
        26 => 'T',
        27 => 't',
        28 => 'P',
        29 => '0',
        30 => 'B',
        31 => '6',
        32 => 'V',
        33 => 'f',
        34 => 'p',
        35 => 'b',
        36 => 'm',
        37 => 'n',
        38 => 'O',
        39 => 'R',
        40 => 'r',
        41 => '1',
        42 => 'L',
        _ => 'l',
    }
}

/// The index of the radical with the given letter.
pub open spec fn letter_index(letter: char) -> Option<u8> {
    match letter {
        '?' => Some(0),
        'Y' => Some(1),
        'w' => Some(2),
        'h' => Some(3),
        '2' => Some(4),
        'H' => Some(5),
        'K' => Some(6),
        'k' => Some(7),
        'X' => Some(8),
        'x' => Some(9),
        '8' => Some(10),
        '4' => Some(11),
        'G' => Some(12),
        'g' => Some(13),
        'j' => Some(14),
        '7' => Some(15),
        '3' => Some(16),
        'Q' => Some(17),
        'c' => Some(18),
        '9' => Some(19),
        'S' => Some(20),
        's' => Some(21),
        'Z' => Some(22),
        'z' => Some(23),
        'D' => Some(24),
        'd' => Some(25),
        'T' => Some(26),
        't' => Some(27),
        'P' => Some(28),
        '0' => Some(29),
        'B' => Some(30),
        '6' => Some(31),
        'V' => Some(32),
        'f' => Some(33),
        'p' => Some(34),
        'b' => Some(35),
        'm' => Some(36),
        'n' => Some(37),
        'O' => Some(38),
        'R' => Some(39),
        'r' => Some(40),
        '1' => Some(41),
        'L' => Some(42),
        'l' => Some(43),
        _ => None,
    }
}

/// The text of the radical with the given index: its letter alone.
pub open spec fn spec_script_radical(index: u8) -> Seq<char> {
    seq![chiffre_letter(index)]
}

/// The index of the radical that a grapheme stands for, if it stands for one.
pub open spec fn spec_radical_index(grapheme: Seq<char>) -> Option<u8> {
    if grapheme.len() == 1 {
        letter_index(grapheme[0])
    } else {
        None
    }
}

/// The letters of the radicals and their indices name each other: a grapheme
/// stands for a radical exactly if it is the text of that radical.
pub proof fn lemma_radical_table(index: u8, grapheme: Seq<char>)
    ensures
        0 <= index < 44 ==> spec_radical_index(spec_script_radical(index)) == Some(index),
        spec_radical_index(grapheme) matches Some(found) ==> found < 44 && spec_script_radical(
            found,
        ) == grapheme,
        0 <= index < 44 ==> (chiffre_letter(index) as u32) < 0x80,
        0 <= index < 44 ==> chiffre_letter(index) != 'o' && chiffre_letter(index) != 'ı',
{
    if spec_radical_index(grapheme) is Some {
        let found = spec_radical_index(grapheme)->0;
        assert(spec_script_radical(found) =~= grapheme);
    }
}

/// Get the text of a radical of this script.
pub fn script_radical(index: u8) -> (radical: &'static str)
    requires
        index < 44,
    ensures
        radical@ == spec_script_radical(index),
{
    proof {
        reveal_strlit("?");
        reveal_strlit("Y");
        reveal_strlit("w");
        reveal_strlit("h");
        reveal_strlit("2");
        reveal_strlit("H");
        reveal_strlit("K");
        reveal_strlit("k");
        reveal_strlit("X");
        reveal_strlit("x");
        reveal_strlit("8");
        reveal_strlit("4");
        reveal_strlit("G");
        reveal_strlit("g");
        reveal_strlit("j");
        reveal_strlit("7");
        reveal_strlit("3");
        reveal_strlit("Q");
        reveal_strlit("c");
        reveal_strlit("9");
        reveal_strlit("S");
        reveal_strlit("s");
        reveal_strlit("Z");
        reveal_strlit("z");
        reveal_strlit("D");
        reveal_strlit("d");
        reveal_strlit("T");
        reveal_strlit("t");
        reveal_strlit("P");
        reveal_strlit("0");
        reveal_strlit("B");
        reveal_strlit("6");
        reveal_strlit("V");
        reveal_strlit("f");
        reveal_strlit("p");
        reveal_strlit("b");
        reveal_strlit("m");
        reveal_strlit("n");
        reveal_strlit("O");
        reveal_strlit("R");
        reveal_strlit("r");
        reveal_strlit("1");
        reveal_strlit("L");
        reveal_strlit("l");
    }
    let radical = match index {
        0 => "?",
        1 => "Y",
        2 => "w",
        3 => "h",
        4 => "2",
        5 => "H",
        6 => "K",
        7 => "k",
        8 => "X",
        9 => "x",
        10 => "8",
        11 => "4",
        12 => "G",
        13 => "g",
        14 => "j",
        15 => "7",
        16 => "3",
        17 => "Q",
        18 => "c",
        19 => "9",
        20 => "S",
        21 => "s",
        22 => "Z",
        23 => "z",
        24 => "D",
        25 => "d",
        26 => "T",
        27 => "t",
        28 => "P",
        29 => "0",
        30 => "B",
        31 => "6",
        32 => "V",
        33 => "f",
        34 => "p",
        35 => "b",
        36 => "m",
        37 => "n",
        38 => "O",
        39 => "R",
        40 => "r",
        41 => "1",
        42 => "L",
        _ => "l",
    };
    assert(radical@ =~= spec_script_radical(index));
    radical
}

/// Get the index of the radical that a grapheme stands for.
pub fn radical_index(grapheme: &str) -> (index: Option<u8>)
    ensures
        index == spec_radical_index(grapheme@),
{
    if grapheme.unicode_len() != 1 {
        return None;
    }
    match grapheme.get_char(0) {
        '?' => Some(0),
        'Y' => Some(1),
        'w' => Some(2),
        'h' => Some(3),
        '2' => Some(4),
        'H' => Some(5),
        'K' => Some(6),
        'k' => Some(7),
        'X' => Some(8),
        'x' => Some(9),
        '8' => Some(10),
        '4' => Some(11),
        'G' => Some(12),
        'g' => Some(13),
        'j' => Some(14),
        '7' => Some(15),
        '3' => Some(16),
        'Q' => Some(17),
        'c' => Some(18),
        '9' => Some(19),
        'S' => Some(20),
        's' => Some(21),
        'Z' => Some(22),
        'z' => Some(23),
        'D' => Some(24),
        'd' => Some(25),
        'T' => Some(26),
        't' => Some(27),
        'P' => Some(28),
        '0' => Some(29),
        'B' => Some(30),
        '6' => Some(31),
        'V' => Some(32),
        'f' => Some(33),
        'p' => Some(34),
        'b' => Some(35),
        'm' => Some(36),
        'n' => Some(37),
        'O' => Some(38),
        'R' => Some(39),
        'r' => Some(40),
        '1' => Some(41),
        'L' => Some(42),
        'l' => Some(43),
        _ => None,
    }
}

impl Radical {
    /// Build new [`Radical`] from string.
    /// # Errors
    /// [`Error::ConceptRadicalInvalid`] if `string` is not the text of a radical.
    pub fn from_str(string: &str) -> (result: Result<Self, Error>)
        ensures
            spec_radical_index(string@) matches Some(index) ==> result is Ok
                && result->Ok_0.spec_index() == index,
            spec_radical_index(string@) is None ==> result == Err::<Self, Error>(
                Error::ConceptRadicalInvalid,
            ),
    {
        match radical_index(string) {
            Some(index) => {
                proof {
                    lemma_radical_table(0, string@);
                }
                Ok(Self::from_index(index))
            },
            None => Err(Error::ConceptRadicalInvalid),
        }
    }

    /// Get [`str`] representation of this radical.
    pub fn as_str(self) -> (string: &'static str)
        ensures
            string@ == spec_script_radical(self.spec_index()),
    {
        script_radical(self.index())
    }
}

/// The letter of the vowel with the given index: 0 is `o`, anything else `ı`.
pub open spec fn spec_script_vowel(index: int) -> char {
    if index == 0 {
        'o'
    } else {
        'ı'
    }
}

/// Get vowels for this script.
pub fn script_vowels() -> (vowels: [&'static str; 2])
    ensures
        vowels@[0]@ == seq![spec_script_vowel(0)],
        vowels@[1]@ == seq![spec_script_vowel(1)],
{
    proof {
        reveal_strlit("o");
        reveal_strlit("ı");
    }
    let vowels = ["o", "ı"];
    assert(vowels@[0]@ =~= seq![spec_script_vowel(0)]);
    assert(vowels@[1]@ =~= seq![spec_script_vowel(1)]);
    vowels
}

/// Index of the vowel that the form `form_index` of a stem of `length` has for
/// `vowel`: a length of two has the forms (0, 0) and (1, 1), the others have
/// (0, 0), (0, 1), (1, 0) and (1, 1).
pub open spec fn form_vowel_index(length: Length, form_index: int, vowel: Vowel) -> int {
    match length {
        Length::L2 => form_index,
        _ => match vowel {
            Vowel::First => form_index / 2,
            Vowel::Last => form_index % 2,
        },
    }
}

/// The letter that a form has for `vowel`.
pub open spec fn spec_form_vowel(length: Length, form_index: int, vowel: Vowel) -> char {
    spec_script_vowel(form_vowel_index(length, form_index, vowel))
}

/// Stores vowels.
/// Purely there to make it easier to extract vowels with [`Vowel`].
#[derive(Clone, Copy, Debug)]
pub struct Vowels(pub &'static str, pub &'static str);

impl Vowels {
    /// Gets the right vowel with [`Vowel`].
    pub fn get(&self, vowel: Vowel) -> (string: &'static str)
        ensures
            string == (match vowel {
                Vowel::First => self.0,
                Vowel::Last => self.1,
            }),
    {
        match vowel {
            Vowel::First => self.0,
            Vowel::Last => self.1,
        }
    }
}

/// List how forms are configured.
pub fn form_configs(length: Length, form_index: u8) -> (vowels: Vowels)
    requires
        form_index < length.spec_forms_per_stem(),
    ensures
        vowels.0@ == seq![spec_form_vowel(length, form_index as int, Vowel::First)],
        vowels.1@ == seq![spec_form_vowel(length, form_index as int, Vowel::Last)],
{
    let script = script_vowels();
    let o = script[0];
    let i = script[1];
    match length {
        Length::L2 => match form_index {
            0 => Vowels(o, o),
            _ => Vowels(i, i),
        },
        Length::L3 | Length::L4 => match form_index {
            0 => Vowels(o, o),
            1 => Vowels(o, i),
            2 => Vowels(i, o),
            _ => Vowels(i, i),
        },
    }
}

/// The text of a concept: the letters of its radicals, slot by slot.
pub open spec fn spec_concept(concept: ConceptView) -> Seq<char> {
    Seq::new(
        concept.length.spec_as_int() as nat,
        |slot: int| chiffre_letter(concept.slots[slot]),
    )
}

/// The letter that a word has for a letter of its structure: a consonant or its
/// duplicate gives the letter of the radical of its slot, a vowel, its duplicate
/// or its nasal the vowel of the form.
pub open spec fn spec_letter(word: WordView, letter: Letter) -> char {
    match letter {
        Letter::Consonant(slot) | Letter::DuplicateConsonant(slot) => chiffre_letter(
            word.concept.slots[slot as int],
        ),
        Letter::Vowel(vowel) | Letter::DuplicateVowel(vowel) | Letter::Nasal(
            vowel,
        ) => spec_form_vowel(word.concept.length, word.form_index as int, vowel),
    }
}

/// The text of a word: one letter for each letter of its structure.
pub open spec fn spec_word(word: WordView) -> Seq<char> {
    let structure = spec_structures(word.concept.length, word.stem_index as int);
    Seq::new(structure.len(), |place: int| spec_letter(word, structure[place]))
}

/// The third stem of a concept of two radicals, in its first form, is the first
/// radical, `o`, the second radical twice, and `o`.
pub proof fn lemma_third_stem_of_two(concept: ConceptView)
    requires
        concept.length == Length::L2,
    ensures
        spec_word(WordView { concept, stem_index: 2, form_index: 0 }) == seq![
            chiffre_letter(concept.slots[0]),
            'o',
            chiffre_letter(concept.slots[1]),
            chiffre_letter(concept.slots[1]),
            'o',
        ],
{
    let word = WordView { concept, stem_index: 2, form_index: 0 };
    assert(spec_word(word) =~= seq![
        chiffre_letter(concept.slots[0]),
        'o',
        chiffre_letter(concept.slots[1]),
        chiffre_letter(concept.slots[1]),
        'o',
    ]);
}

/// Build concept string.
pub fn concept(given: Concept) -> (string: ArrayString<64>)
    ensures
        text_held(string) == spec_concept(given@),
{
    let radicals = given.radicals();
    let slots = indices_slice(&radicals);
    let mut string = text_new();
    let mut slot: usize = 0;
    proof {
        use_type_invariant(&given);
        given.lemma_valid();
    }
    while slot < slots.len()
        invariant
            slot <= slots.len() <= 4,
            slots@ == given@.radicals(),
            given@.valid(),
            slots@.len() == given@.length.spec_as_int(),
            forall|at: int| 0 <= at < slots@.len() ==> #[trigger] slots@[at] < 44,
            text_held(string) =~= spec_concept(given@).take(slot as int),
        decreases slots.len() - slot,
    {
        let radical = script_radical(slots[slot]);
        proof {
            let held = text_held(string);
            assert(short_text(held)) by {
                assert forall|at: int| 0 <= at < held.len() implies (#[trigger] held[at] as u32)
                    < 0x800 by {
                    lemma_radical_table(slots@[at], Seq::empty());
                }
            }
            lemma_radical_table(slots@[slot as int], Seq::empty());
            lemma_short_text(held);
            lemma_short_text(radical@);
        }
        text_push_str(&mut string, radical);
        proof {
            assert(slots@[slot as int] == given@.slots[slot as int]);
            assert(spec_concept(given@).take(slot + 1) =~= spec_concept(given@).take(slot as int)
                + radical@);
        }
        slot += 1;
    }
    assert(spec_concept(given@).take(slot as int) =~= spec_concept(given@));
    string
}

/// Build word.
pub fn word(given: Word) -> (string: ArrayString<64>)
    ensures
        text_held(string) == spec_word(given@),
{
    let concept = given.concept();
    let length = concept.length();
    let concept_radicals = concept.radicals();
    let radicals = indices_slice(&concept_radicals);
    let vowels = form_configs(length, given.form_index());
    let structure = structures(length, given.stem_index());
    let letters = letters_slice(&structure);
    let mut string = text_new();
    let mut place: usize = 0;
    proof {
        concept.lemma_valid();
        lemma_structures(length, given.stem_index() as int);
    }
    while place < letters.len()
        invariant
            place <= letters.len() <= 8,
            given@.concept == concept@,
            concept@.valid(),
            concept@.length == length,
            radicals@ == concept@.radicals(),
            letters@ == spec_structures(length, given@.stem_index as int),
            forall|at: int| 0 <= at < letters@.len() ==> (#[trigger] letters@[at]).fits(length),
            vowels.0@ == seq![spec_form_vowel(length, given@.form_index as int, Vowel::First)],
            vowels.1@ == seq![spec_form_vowel(length, given@.form_index as int, Vowel::Last)],
            text_held(string) =~= spec_word(given@).take(place as int),
            short_text(text_held(string)),
        decreases letters.len() - place,
    {
        let letter = letters[place];
        assert(letter.fits(length));
        let text: &'static str = match letter {
            Letter::Consonant(slot) | Letter::DuplicateConsonant(slot) => {
                assert(radicals@[slot as int] == concept@.slots[slot as int]);
                script_radical(radicals[slot as usize])
            },
            Letter::Vowel(vowel) | Letter::DuplicateVowel(vowel) | Letter::Nasal(vowel) => vowels.get(
                vowel,
            ),
        };
        proof {
            assert(text@ =~= seq![spec_letter(given@, letter)]);
            lemma_letter_short(given@, letter);
            lemma_short_text(text_held(string));
            lemma_short_text(text@);
            assert(spec_word(given@).take(place + 1) =~= spec_word(given@).take(place as int)
                + text@);
        }
        text_push_str(&mut string, text);
        place += 1;
    }
    assert(spec_word(given@).take(place as int) =~= spec_word(given@));
    string
}

/// Every letter of a word is a radical's letter or a vowel, and takes two bytes
/// at most.
pub proof fn lemma_letter_short(word: WordView, letter: Letter)
    requires
        word.concept.valid(),
        letter.fits(word.concept.length),
    ensures
        (spec_letter(word, letter) as u32) < 0x800,
{
    match letter {
        Letter::Consonant(slot) | Letter::DuplicateConsonant(slot) => {
            let radical = word.concept.slots[slot as int];
            assert(radical == word.concept.radicals()[slot as int]);
            lemma_radical_table(radical, Seq::empty());
        },
        _ => {},
    }
}

/// The radicals of the first `count` positions that the graphemes of a concept
/// stand for, or the error of the first position that has none: its grapheme is
/// no radical, or its radical is not among those open to the position.
pub open spec fn parsed_radicals(length: Length, graphemes: Seq<Seq<char>>, count: nat) -> Result<
    Seq<u8>,
    Error,
>
    decreases count,
{
    if count == 0 {
        Ok(Seq::empty())
    } else {
        let position = count - 1;
        match parsed_radicals(length, graphemes, position as nat) {
            Err(error) => Err(error),
            Ok(before) => match spec_radical_index(
                graphemes[length.spec_radical_order_mirrored()[position] as int],
            ) {
                None => Err(Error::ConceptRadicalInvalid),
                Some(radical) => if length.spec_radicals_ordered(position, before).contains(radical) {
                    Ok(before.push(radical))
                } else {
                    Err(Error::ConceptRadicalDuplicate)
                },
            },
        }
    }
}

/// The concept that a list of graphemes stands for.
pub open spec fn spec_concept_from_graphemes(graphemes: Seq<Seq<char>>) -> Result<ConceptView, Error> {
    match Length::spec_new(graphemes.len()) {
        Err(error) => Err(error),
        Ok(length) => match parsed_radicals(length, graphemes, length.spec_as_int() as nat) {
            Err(error) => Err(error),
            Ok(chosen) => Ok(ConceptView { length, slots: stored_slots(length, chosen) }),
        },
    }
}

/// The concept that a text stands for: the concept of its grapheme clusters.
pub open spec fn spec_from_concept(text: Seq<char>) -> Result<ConceptView, Error> {
    spec_concept_from_graphemes(grapheme_clusters(text))
}

/// The radicals that were parsed are as many as the positions, distinct, and
/// stay as they are when more positions are parsed; an error stays too.
pub proof fn lemma_parsed_radicals(length: Length, graphemes: Seq<Seq<char>>, count: nat, more: nat)
    requires
        count <= more <= length.spec_as_int(),
    ensures
        parsed_radicals(length, graphemes, count) matches Ok(chosen) ==> chosen.len() == count
            && distinct_radicals(chosen),
        parsed_radicals(length, graphemes, count) is Err ==> parsed_radicals(length, graphemes, more)
            == parsed_radicals(length, graphemes, count),
        parsed_radicals(length, graphemes, more) matches Ok(chosen) ==> parsed_radicals(
            length,
            graphemes,
            count,
        ) == Ok::<Seq<u8>, Error>(chosen.take(count as int)),
    decreases more,
{
    if count > 0 {
        lemma_parsed_radicals(length, graphemes, (count - 1) as nat, (count - 1) as nat);
        match parsed_radicals(length, graphemes, (count - 1) as nat) {
            Ok(before) => {
                lemma_ordered_len(length, count - 1, before);
                match parsed_radicals(length, graphemes, count) {
                    Ok(chosen) => {
                        let radical = chosen[count - 1];
                        assert(chosen == before.push(radical));
                        assert forall|i: int, j: int|
                            0 <= i < chosen.len() && 0 <= j < chosen.len() && i != j implies chosen[i]
                            != chosen[j] by {
                            if i < before.len() && j < before.len() {
                                assert(before[i] != before[j]);
                            } else if i < before.len() {
                                assert(before.contains(before[i]));
                            } else {
                                assert(before.contains(before[j]));
                            }
                        }
                    },
                    Err(_) => {},
                }
            },
            Err(_) => {},
        }
    }
    if count < more {
        lemma_parsed_radicals(length, graphemes, count, (more - 1) as nat);
        lemma_parsed_radicals(length, graphemes, (more - 1) as nat, (more - 1) as nat);
        match parsed_radicals(length, graphemes, more) {
            Ok(chosen) => {
                let before = parsed_radicals(length, graphemes, (more - 1) as nat)->Ok_0;
                assert(chosen.take(count as int) =~= before.take(count as int));
            },
            Err(_) => {},
        }
    } else {
        match parsed_radicals(length, graphemes, more) {
            Ok(chosen) => {
                assert(chosen.take(count as int) =~= chosen);
            },
            Err(_) => {},
        }
    }
}

/// Graphemes that all stand for radicals, two of them for the same, stand for no
/// concept: they are rejected as holding a duplicate.
pub proof fn lemma_duplicate_rejected(graphemes: Seq<Seq<char>>, first: int, second: int)
    requires
        2 <= graphemes.len() <= 4,
        forall|place: int|
            0 <= place < graphemes.len() ==> spec_radical_index(#[trigger] graphemes[place]) is Some,
        0 <= first < second < graphemes.len(),
        spec_radical_index(graphemes[first]) == spec_radical_index(graphemes[second]),
    ensures
        spec_concept_from_graphemes(graphemes) == Err::<ConceptView, Error>(
            Error::ConceptRadicalDuplicate,
        ),
{
    let length = Length::spec_new(graphemes.len())->Ok_0;
    let count = length.spec_as_int() as nat;
    lemma_radicals_or_duplicate(length, graphemes, count);
    lemma_parsed_radicals(length, graphemes, count, count);
    match parsed_radicals(length, graphemes, count) {
        Ok(chosen) => {
            let order = length.spec_radical_order();
            let mirrored = length.spec_radical_order_mirrored();
            let one = order[first] as int;
            let two = order[second] as int;
            assert(mirrored[one] == first && mirrored[two] == second);
            assert(chosen[one] == chosen[two]);
            assert(one != two);
        },
        Err(_) => {},
    }
}

/// Graphemes that all stand for radicals are read as those radicals, position by
/// position, or rejected as holding a duplicate.
pub proof fn lemma_radicals_or_duplicate(length: Length, graphemes: Seq<Seq<char>>, count: nat)
    requires
        graphemes.len() == length.spec_as_int(),
        count <= length.spec_as_int(),
        forall|place: int|
            0 <= place < graphemes.len() ==> spec_radical_index(#[trigger] graphemes[place]) is Some,
    ensures
        match parsed_radicals(length, graphemes, count) {
            Ok(chosen) => chosen.len() == count && forall|position: int|
                0 <= position < count ==> Some(#[trigger] chosen[position]) == spec_radical_index(
                    graphemes[length.spec_radical_order_mirrored()[position] as int],
                ),
            Err(error) => error == Error::ConceptRadicalDuplicate,
        },
    decreases count,
{
    if count > 0 {
        lemma_radicals_or_duplicate(length, graphemes, (count - 1) as nat);
        let slot = length.spec_radical_order_mirrored()[count - 1] as int;
        assert(spec_radical_index(graphemes[slot]) is Some);
    }
}

/// Build [`Concept`] from its graphemes, one for each slot.
/// # Errors
/// [`Error::LengthInvalid`] unless there are 2, 3 or 4 graphemes; else, for the
/// first position that fails, [`Error::ConceptRadicalInvalid`] if its grapheme is
/// no radical and [`Error::ConceptRadicalDuplicate`] if an earlier position has
/// its radical.
pub fn concept_from_graphemes(graphemes: &Vec<String>) -> (result: Result<Concept, Error>)
    ensures
        concept_result(result) == spec_concept_from_graphemes(texts(graphemes@)),
        result matches Ok(concept) ==> concept.valid(),
{
    let length = match Length::new(graphemes.len()) {
        Ok(length) => length,
        Err(error) => {
            return Err(error);
        },
    };
    let ghost clusters = texts(graphemes@);
    let mut radicals = indices_new();
    let radical_order_mirrored = length.radical_order_mirrored();
    let mirrored = indices_slice(&radical_order_mirrored);
    let count: usize = length.as_int();
    let mut position: usize = 0;
    while position < count
        invariant
            position <= count,
            count == length.spec_as_int(),
            count == graphemes@.len(),
            clusters == texts(graphemes@),
            mirrored@ == length.spec_radical_order_mirrored(),
            parsed_radicals(length, clusters, position as nat) == Ok::<Seq<u8>, Error>(
                indices_held(radicals),
            ),
        decreases count - position,
    {
        proof {
            lemma_parsed_radicals(length, clusters, position as nat, position as nat);
            lemma_parsed_radicals(length, clusters, (position + 1) as nat, count as nat);
        }
        let grapheme = graphemes[mirrored[position] as usize].as_str();
        let radical: u8 = match radical_index(grapheme) {
            Some(radical) => radical,
            None => {
                return Err(Error::ConceptRadicalInvalid);
            },
        };
        if length.ordered_position(position, indices_slice(&radicals), radical).is_none() {
            return Err(Error::ConceptRadicalDuplicate);
        }
        indices_push(&mut radicals, radical);
        position += 1;
    }
    let order = length.radical_order();
    proof {
        lemma_parsed_radicals(length, clusters, count as nat, count as nat);
        lemma_stored(length, indices_held(radicals));
    }
    let slots = store_radicals(&radicals, &order);
    assert(slots@ =~= stored_slots(length, indices_held(radicals)));
    Ok(Concept::new(slots, length))
}

/// Build [`Concept`] from string.
/// # Errors
/// The errors of [`concept_from_graphemes`], for the grapheme clusters of
/// `string`.
pub fn from_concept(string: &str) -> (result: Result<Concept, Error>)
    ensures
        concept_result(result) == spec_from_concept(string@),
        result matches Ok(concept) ==> concept.valid(),
{
    let clusters = graphemes(string);
    concept_from_graphemes(&clusters)
}

/// The length of the candidate with the given number: the candidates are the
/// stems of the length 2, then those of the length 3, then those of the length 4.
pub open spec fn candidate_length(candidate: int) -> Length {
    if candidate < 3 {
        Length::L2
    } else if candidate < 8 {
        Length::L3
    } else {
        Length::L4
    }
}

/// The stem index of the candidate with the given number.
pub open spec fn candidate_stem(candidate: int) -> u8 {
    if candidate < 3 {
        candidate as u8
    } else if candidate < 8 {
        (candidate - 3) as u8
    } else {
        (candidate - 8) as u8
    }
}

/// The graphemes that stand where the first `count` letters of a structure have
/// a consonant that is no duplicate.
pub open spec fn consonant_graphemes(structure: Seq<Letter>, graphemes: Seq<Seq<char>>, count: int) -> Seq<
    Seq<char>,
>
    decreases count,
{
    if count <= 0 {
        Seq::empty()
    } else {
        let before = consonant_graphemes(structure, graphemes, count - 1);
        match structure[count - 1] {
            Letter::Consonant(_) => before.push(graphemes[count - 1]),
            _ => before,
        }
    }
}

/// The text that graphemes make when put together.
pub open spec fn joined(graphemes: Seq<Seq<char>>) -> Seq<char>
    decreases graphemes.len(),
{
    if graphemes.len() == 0 {
        Seq::empty()
    } else {
        joined(graphemes.drop_last()) + graphemes.last()
    }
}

/// The first of the first `forms` forms of the stem `stem_index` of `concept`
/// whose text is `text`.
pub open spec fn matching_form(text: Seq<char>, concept: ConceptView, stem_index: u8, forms: int) -> Option<
    u8,
>
    decreases forms,
{
    if forms <= 0 {
        None
    } else {
        match matching_form(text, concept, stem_index, forms - 1) {
            Some(form) => Some(form),
            None => if spec_word(WordView { concept, stem_index, form_index: (forms - 1) as u8 })
                == text {
                Some((forms - 1) as u8)
            } else {
                None
            },
        }
    }
}

/// What a candidate makes of a text and its graphemes. A candidate whose
/// structure has as many letters as there are graphemes puts the graphemes at
/// its consonants together. If they take more than 64 bytes, the search ends
/// with [`Error::WordLengthInvalid`]. If they stand for a concept that has the
/// candidate's stem, and a form of that stem has the text, the search ends with
/// that word. In every other case the search goes on.
pub open spec fn candidate_outcome(text: Seq<char>, graphemes: Seq<Seq<char>>, candidate: int) -> Option<
    Result<ConceptOrWordView, Error>,
> {
    let stem_index = candidate_stem(candidate);
    let structure = spec_structures(candidate_length(candidate), stem_index as int);
    if structure.len() != graphemes.len() {
        None
    } else {
        let consonants = joined(consonant_graphemes(structure, graphemes, structure.len() as int));
        if byte_len(consonants) > 64 {
            Some(Err(Error::WordLengthInvalid))
        } else {
            match spec_from_concept(consonants) {
                Err(_) => None,
                Ok(concept) => if stem_index < concept.length.spec_stems_per_concept() {
                    match matching_form(
                        text,
                        concept,
                        stem_index,
                        concept.length.spec_forms_per_stem() as int,
                    ) {
                        None => None,
                        Some(form_index) => Some(
                            Ok(
                                ConceptOrWordView::Word(
                                    WordView { concept, stem_index, form_index },
                                ),
                            ),
                        ),
                    }
                } else {
                    None
                },
            }
        }
    }
}

/// What the candidates from `candidate` on make of a text and its graphemes: the
/// outcome of the first candidate that ends the search, or
/// [`Error::WordInvalid`] where none does.
pub open spec fn search_words(text: Seq<char>, graphemes: Seq<Seq<char>>, candidate: int) -> Result<
    ConceptOrWordView,
    Error,
>
    decreases 16 - candidate,
{
    if candidate >= 16 {
        Err(Error::WordInvalid)
    } else {
        match candidate_outcome(text, graphemes, candidate) {
            Some(outcome) => outcome,
            None => search_words(text, graphemes, candidate + 1),
        }
    }
}

/// What a text with the given graphemes stands for: the concept of the
/// graphemes, or else the word that the search finds.
pub open spec fn spec_word_from_graphemes(text: Seq<char>, graphemes: Seq<Seq<char>>) -> Result<
    ConceptOrWordView,
    Error,
> {
    match spec_concept_from_graphemes(graphemes) {
        Ok(concept) => Ok(ConceptOrWordView::Concept(concept)),
        Err(_) => search_words(text, graphemes, 0),
    }
}

/// What a text stands for.
pub open spec fn spec_from_str(text: Seq<char>) -> Result<ConceptOrWordView, Error> {
    spec_word_from_graphemes(text, grapheme_clusters(text))
}

/// The graphemes at the consonants take more bytes with each letter.
pub proof fn lemma_consonants_grow(structure: Seq<Letter>, graphemes: Seq<Seq<char>>, fewer: int, more: int)
    requires
        0 <= fewer <= more,
    ensures
        byte_len(joined(consonant_graphemes(structure, graphemes, fewer))) <= byte_len(
            joined(consonant_graphemes(structure, graphemes, more)),
        ),
    decreases more,
{
    if fewer < more {
        lemma_consonants_grow(structure, graphemes, fewer, more - 1);
        let before = consonant_graphemes(structure, graphemes, more - 1);
        match structure[more - 1] {
            Letter::Consonant(_) => {
                let now = before.push(graphemes[more - 1]);
                assert(now.drop_last() =~= before);
                lemma_byte_len_append(joined(before), graphemes[more - 1]);
            },
            _ => {},
        }
    }
}

/// Whether two strings hold the same text.
pub fn same_text(first: &str, second: &str) -> (same: bool)
    ensures
        same == (first@ == second@),
{
    let first = first.to_owned();
    let second = second.to_owned();
    first == second
}

/// What an outcome of a candidate is.
pub open spec fn outcome_view(outcome: Option<Result<ConceptOrWord, Error>>) -> Option<
    Result<ConceptOrWordView, Error>,
> {
    match outcome {
        Some(result) => Some(parsed_result(result)),
        None => None,
    }
}

/// Put the graphemes at the consonants of a structure together in `buffer`, and
/// say whether they fit.
fn collect_consonants(letters: &[Letter], graphemes: &Vec<String>, buffer: &mut ArrayString<64>) -> (fit:
    bool)
    requires
        letters@.len() == graphemes@.len(),
        text_held(*old(buffer)) == Seq::<char>::empty(),
    ensures
        fit <==> byte_len(
            joined(consonant_graphemes(letters@, texts(graphemes@), letters@.len() as int)),
        ) <= 64,
        fit ==> text_held(*final(buffer)) == joined(
            consonant_graphemes(letters@, texts(graphemes@), letters@.len() as int),
        ),
{
    let ghost clusters = texts(graphemes@);
    let mut place: usize = 0;
    while place < letters.len()
        invariant
            place <= letters.len(),
            letters@.len() == graphemes@.len(),
            clusters == texts(graphemes@),
            text_held(*buffer) == joined(consonant_graphemes(letters@, clusters, place as int)),
            byte_len(text_held(*buffer)) <= 64,
        decreases letters.len() - place,
    {
        if let Letter::Consonant(_) = letters[place] {
            let grapheme = graphemes[place].as_str();
            proof {
                let before = consonant_graphemes(letters@, clusters, place as int);
                let now = consonant_graphemes(letters@, clusters, place + 1);
                assert(now.drop_last() =~= before);
                lemma_byte_len_append(joined(before), grapheme@);
                lemma_consonants_grow(letters@, clusters, place + 1, letters@.len() as int);
            }
            if !text_try_push_str(buffer, grapheme) {
                return false;
            }
        }
        place += 1;
    }
    true
}

/// The first form of a stem of a concept whose text is `string`.
fn find_form(string: &str, concept: Concept, stem_index: u8) -> (word: Option<Word>)
    requires
        concept.valid(),
        stem_index < concept@.length.spec_stems_per_concept(),
    ensures
        word is Some <==> matching_form(
            string@,
            concept@,
            stem_index,
            concept@.length.spec_forms_per_stem() as int,
        ) is Some,
        word matches Some(word) ==> word.valid() && word@ == (WordView {
            concept: concept@,
            stem_index,
            form_index: matching_form(
                string@,
                concept@,
                stem_index,
                concept@.length.spec_forms_per_stem() as int,
            )->0,
        }),
{
    let forms: usize = concept.length().forms_per_stem();
    let mut form_index: u8 = 0;
    while (form_index as usize) < forms
        invariant
            form_index <= forms,
            forms == concept@.length.spec_forms_per_stem(),
            concept.valid(),
            stem_index < concept@.length.spec_stems_per_concept(),
            matching_form(string@, concept@, stem_index, form_index as int) is None,
        decreases forms - form_index,
    {
        let word = Word::new(concept, stem_index, form_index);
        let rendered = self::word(word);
        if same_text(string, text_as_str(&rendered)) {
            proof {
                lemma_matching_form(
                    string@,
                    concept@,
                    stem_index,
                    form_index + 1,
                    forms as int,
                );
            }
            return Some(word);
        }
        form_index += 1;
    }
    None
}

/// The form that matched among the first forms is the one that matches among
/// more forms.
pub proof fn lemma_matching_form(text: Seq<char>, concept: ConceptView, stem_index: u8, fewer: int, more: int)
    requires
        0 <= fewer <= more,
        matching_form(text, concept, stem_index, fewer) is Some,
    ensures
        matching_form(text, concept, stem_index, more) == matching_form(
            text,
            concept,
            stem_index,
            fewer,
        ),
    decreases more,
{
    if fewer < more {
        lemma_matching_form(text, concept, stem_index, fewer, more - 1);
    }
}

/// What one candidate makes of a string and its graphemes; `buffer` is empty
/// before and after.
fn try_candidate(string: &str, graphemes: &Vec<String>, candidate: usize, buffer: &mut ArrayString<
    64,
>) -> (outcome: Option<Result<ConceptOrWord, Error>>)
    requires
        candidate < 16,
        text_held(*old(buffer)) == Seq::<char>::empty(),
    ensures
        outcome_view(outcome) == candidate_outcome(string@, texts(graphemes@), candidate as int),
        text_held(*final(buffer)) == Seq::<char>::empty(),
{
    let (length, stem_index): (Length, u8) = if candidate < 3 {
        (Length::L2, candidate as u8)
    } else if candidate < 8 {
        (Length::L3, (candidate - 3) as u8)
    } else {
        (Length::L4, (candidate - 8) as u8)
    };
    let structure = structures(length, stem_index);
    let letters = letters_slice(&structure);
    let mut outcome: Option<Result<ConceptOrWord, Error>> = None;
    if letters.len() == graphemes.len() {
        if !collect_consonants(letters, graphemes, buffer) {
            outcome = Some(Err(Error::WordLengthInvalid));
        } else if let Ok(concept) = from_concept(text_as_str(buffer)) {
            if (stem_index as usize) < concept.length().stems_per_concept() {
                if let Some(word) = find_form(string, concept, stem_index) {
                    outcome = Some(Ok(ConceptOrWord::Word(word)));
                }
            }
        }
    }
    text_clear(buffer);
    outcome
}

/// Build [`Concept`] or [`Word`] from a string and its graphemes.
/// # Errors
/// [`Error::WordLengthInvalid`] if the consonants of the first stem with as many
/// letters as there are graphemes take more than 64 bytes;
/// [`Error::WordInvalid`] if the string is no concept and no stem has a form
/// with this text.
pub fn word_from_graphemes(string: &str, graphemes: &Vec<String>) -> (result: Result<
    ConceptOrWord,
    Error,
>)
    ensures
        parsed_result(result) == spec_word_from_graphemes(string@, texts(graphemes@)),
{
    if let Ok(concept) = concept_from_graphemes(graphemes) {
        return Ok(ConceptOrWord::Concept(concept));
    }
    let mut buffer = text_new();
    let mut candidate: usize = 0;
    while candidate < 16
        invariant
            candidate <= 16,
            text_held(buffer) == Seq::<char>::empty(),
            spec_word_from_graphemes(string@, texts(graphemes@)) == search_words(
                string@,
                texts(graphemes@),
                candidate as int,
            ),
        decreases 16 - candidate,
    {
        if let Some(result) = try_candidate(string, graphemes, candidate, &mut buffer) {
            return result;
        }
        candidate += 1;
    }
    Err(Error::WordInvalid)
}

/// Build [`Concept`] or [`Word`] from string.
/// # Errors
/// The errors of [`word_from_graphemes`], for the grapheme clusters of `string`.
pub fn from_str(string: &str) -> (result: Result<ConceptOrWord, Error>)
    ensures
        parsed_result(result) == spec_from_str(string@),
{
    let clusters = graphemes(string);
    word_from_graphemes(string, &clusters)
}

} // verus!
