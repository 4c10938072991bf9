//! Structure handling.

use crate::bounded::{letters_held, letters_new, letters_push};
use crate::Length;
use arrayvec::ArrayVec;
use vstd::prelude::*;

verus! {

/// Represents a vowel.
#[derive(Clone, Copy, Debug, PartialEq, Eq, Structural)]
pub enum Vowel {
    /// Represents the first vowel.
    First,
    /// Represents the second vowel.
    Last,
}

/// Represents a consonant or a vowel in a structure.
#[derive(Clone, Copy, Debug, PartialEq, Eq, Structural)]
pub enum Letter {
    /// Represents a consonant position.
    Consonant(u8),
    /// Represents a vowel.
    Vowel(Vowel),
    /// Represents a duplicate consonant.
    DuplicateConsonant(u8),
    /// Represents a duplicate vowel.
    DuplicateVowel(Vowel),
    /// Represents a nasal vowel.
    Nasal(Vowel),
}

/// The vowel with the given index: 0 is the first, anything else the last.
pub open spec fn spec_vowel(index: int) -> Vowel {
    if index == 0 {
        Vowel::First
    } else {
        Vowel::Last
    }
}

/// The vowel with the given index.
fn vowel(index: usize) -> (vowel: Vowel)
    requires
        index < 2,
    ensures
        vowel == spec_vowel(index as int),
{
    if index == 0 {
        Vowel::First
    } else {
        Vowel::Last
    }
}

impl Letter {
    /// Whether the letter fits a concept of `length`: a consonant names a slot
    /// within the length.
    pub open spec fn fits(self, length: Length) -> bool {
        match self {
            Letter::Consonant(slot) | Letter::DuplicateConsonant(slot) => slot
                < length.spec_as_int(),
            _ => true,
        }
    }

    /// Build new [`Letter::Consonant`].
    pub fn new_consonant(length: Length, index: u8) -> (letter: Self)
        requires
            index < length.spec_as_int(),
        ensures
            letter == Letter::Consonant(index),
    {
        Self::Consonant(index)
    }

    /// Build new [`Letter::Vowel`].
    pub fn new_vowel(index: usize) -> (letter: Self)
        requires
            index < 2,
        ensures
            letter == Letter::Vowel(spec_vowel(index as int)),
    {
        Self::Vowel(vowel(index))
    }

    /// Build new [`Letter::DuplicateConsonant`].
    pub fn new_duplicate_consonant(length: Length, index: u8) -> (letter: Self)
        requires
            index < length.spec_as_int(),
        ensures
            letter == Letter::DuplicateConsonant(index),
    {
        Self::DuplicateConsonant(index)
    }

    /// Build new [`Letter::DuplicateVowel`].
    pub fn new_duplicate_vowel(index: usize) -> (letter: Self)
        requires
            index < 2,
        ensures
            letter == Letter::DuplicateVowel(spec_vowel(index as int)),
    {
        Self::DuplicateVowel(vowel(index))
    }

    /// Build new [`Letter::Nasal`].
    pub fn new_nasal(index: usize) -> (letter: Self)
        requires
            index < 2,
        ensures
            letter == Letter::Nasal(spec_vowel(index as int)),
    {
        Self::Nasal(vowel(index))
    }
}

/// Consonant of slot `slot`.
pub open spec fn c(slot: u8) -> Letter {
    Letter::Consonant(slot)
}

/// Vowel with index `index`.
pub open spec fn v(index: int) -> Letter {
    Letter::Vowel(spec_vowel(index))
}

/// Duplicate of the consonant of slot `slot`.
pub open spec fn xc(slot: u8) -> Letter {
    Letter::DuplicateConsonant(slot)
}

/// Duplicate of the vowel with index `index`.
pub open spec fn xv(index: int) -> Letter {
    Letter::DuplicateVowel(spec_vowel(index))
}

/// Nasal of the vowel with index `index`.
pub open spec fn xn(index: int) -> Letter {
    Letter::Nasal(spec_vowel(index))
}

/// The structure of the stem `stem_index` of a concept of `length`.
pub open spec fn spec_structures(length: Length, stem_index: int) -> Seq<Letter> {
    match length {
        Length::L2 => if stem_index == 0 {
            seq![c(0), v(0), c(1)]
        } else if stem_index == 1 {
            seq![c(0), v(0), xv(0), c(1)]
        } else {
            seq![c(0), v(0), c(1), xc(1), xn(0)]
        },
        Length::L3 => if stem_index == 0 {
            seq![c(0), v(0), c(1), v(1), c(2)]
        } else if stem_index == 1 {
            seq![c(0), v(0), c(1), xc(1), v(1), c(2)]
        } else if stem_index == 2 {
            seq![c(0), v(0), xv(0), c(1), v(1), c(2)]
        } else if stem_index == 3 {
            seq![c(0), v(0), c(1), v(1), xv(1), c(2)]
        } else {
            seq![c(0), v(0), c(1), v(1), c(2), xc(2), xn(1)]
        },
        Length::L4 => if stem_index == 0 {
            seq![c(0), v(0), c(1), c(2), v(1), c(3)]
        } else if stem_index == 1 {
            seq![c(0), v(0), c(1), v(0), c(2), v(1), c(3)]
        } else if stem_index == 2 {
            seq![c(0), v(0), xv(0), c(1), c(2), v(1), c(3)]
        } else if stem_index == 3 {
            seq![c(0), v(0), c(1), c(2), v(1), xv(1), c(3)]
        } else if stem_index == 4 {
            seq![c(0), v(0), c(1), c(2), v(1), c(3), xc(3), xn(1)]
        } else if stem_index == 5 {
            seq![c(0), v(0), c(1), v(0), xv(0), c(2), v(1), c(3)]
        } else if stem_index == 6 {
            seq![c(0), v(0), c(1), v(0), c(2), xc(2), v(1), c(3)]
        } else {
            seq![c(0), v(0), c(1), v(0), c(2), v(1), xv(1), c(3)]
        },
    }
}

/// The consonants of a structure, by the slots they name, in order.
pub open spec fn consonant_slots(structure: Seq<Letter>) -> Seq<u8>
    decreases structure.len(),
{
    if structure.len() == 0 {
        Seq::empty()
    } else {
        let before = consonant_slots(structure.drop_last());
        match structure.last() {
            Letter::Consonant(slot) => before.push(slot),
            _ => before,
        }
    }
}

/// Every structure has three to eight letters that fit its length, begins with
/// the consonant of slot 0 and a vowel, and names each slot of the length once,
/// in order, as a consonant.
pub proof fn lemma_structures(length: Length, stem_index: int)
    requires
        0 <= stem_index < length.spec_stems_per_concept(),
    ensures
        3 <= spec_structures(length, stem_index).len() <= 8,
        forall|place: int|
            0 <= place < spec_structures(length, stem_index).len() ==> (#[trigger] spec_structures(
                length,
                stem_index,
            )[place]).fits(length),
        spec_structures(length, stem_index)[0] == c(0),
        spec_structures(length, stem_index)[1] == v(0),
        consonant_slots(spec_structures(length, stem_index)) == Seq::new(
            length.spec_as_int() as nat,
            |slot: int| slot as u8,
        ),
{
    let structure = spec_structures(length, stem_index);
    lemma_consonant_slots(structure, structure.len() as int);
    assert(structure.take(structure.len() as int) =~= structure);
    assert(consonant_slots(structure) =~= Seq::new(
        length.spec_as_int() as nat,
        |slot: int| slot as u8,
    )) by {
        reveal_with_fuel(consonants_upto, 9);
    }
}

/// The consonants among the first `count` letters of a structure.
pub open spec fn consonants_upto(structure: Seq<Letter>, count: int) -> Seq<u8>
    decreases count,
{
    if count <= 0 {
        Seq::empty()
    } else {
        let before = consonants_upto(structure, count - 1);
        match structure[count - 1] {
            Letter::Consonant(slot) => before.push(slot),
            _ => before,
        }
    }
}

/// The consonants of the first letters of a structure, counted either way.
pub proof fn lemma_consonant_slots(structure: Seq<Letter>, count: int)
    requires
        0 <= count <= structure.len(),
    ensures
        consonant_slots(structure.take(count)) == consonants_upto(structure, count),
    decreases count,
{
    if count > 0 {
        lemma_consonant_slots(structure, count - 1);
        assert(structure.take(count).drop_last() =~= structure.take(count - 1));
    }
}

/// The digit that names a slot or a vowel in the notation of a structure.
pub open spec fn notation_digit(index: int) -> char {
    if index == 0 {
        '0'
    } else if index == 1 {
        '1'
    } else if index == 2 {
        '2'
    } else {
        '3'
    }
}

/// The index of a vowel.
pub open spec fn vowel_index(vowel: Vowel) -> int {
    match vowel {
        Vowel::First => 0,
        Vowel::Last => 1,
    }
}

/// The notation of a letter of a structure: `c` for a consonant, `v` for a
/// vowel, `xc`, `xv` and `xn` for a duplicate consonant, a duplicate vowel and a
/// nasal, and behind it the digit of the slot or of the vowel.
pub open spec fn letter_notation(letter: Letter) -> Seq<char> {
    match letter {
        Letter::Consonant(slot) => seq!['c', notation_digit(slot as int)],
        Letter::Vowel(vowel) => seq!['v', notation_digit(vowel_index(vowel))],
        Letter::DuplicateConsonant(slot) => seq!['x', 'c', notation_digit(slot as int)],
        Letter::DuplicateVowel(vowel) => seq!['x', 'v', notation_digit(vowel_index(vowel))],
        Letter::Nasal(vowel) => seq!['x', 'n', notation_digit(vowel_index(vowel))],
    }
}

/// The notation of the first `count` letters of a structure: the notations of
/// the letters with a blank between them.
pub open spec fn notation_upto(structure: Seq<Letter>, count: int) -> Seq<char>
    decreases count,
{
    if count <= 0 {
        Seq::empty()
    } else if count == 1 {
        letter_notation(structure[0])
    } else {
        notation_upto(structure, count - 1) + seq![' '] + letter_notation(structure[count - 1])
    }
}

/// The notation of a structure.
pub open spec fn notation(structure: Seq<Letter>) -> Seq<char> {
    notation_upto(structure, structure.len() as int)
}

/// The notation of the stem 0 of the length 2.
proof fn lemma_notation_of_two_0()
    ensures
        "c0 v0 c1"@ == notation(spec_structures(Length::L2, 0)),
{
    reveal_strlit("c0 v0 c1");
    reveal_with_fuel(notation_upto, 9);
    assert("c0 v0 c1"@ =~= notation(spec_structures(Length::L2, 0)));
}

/// The notation of the stem 1 of the length 2.
proof fn lemma_notation_of_two_1()
    ensures
        "c0 v0 xv0 c1"@ == notation(spec_structures(Length::L2, 1)),
{
    reveal_strlit("c0 v0 xv0 c1");
    reveal_with_fuel(notation_upto, 9);
    assert("c0 v0 xv0 c1"@ =~= notation(spec_structures(Length::L2, 1)));
}

/// The notation of the stem 2 of the length 2.
proof fn lemma_notation_of_two_2()
    ensures
        "c0 v0 c1 xc1 xn0"@ == notation(spec_structures(Length::L2, 2)),
{
    reveal_strlit("c0 v0 c1 xc1 xn0");
    reveal_with_fuel(notation_upto, 9);
    assert("c0 v0 c1 xc1 xn0"@ =~= notation(spec_structures(Length::L2, 2)));
}

/// The notation of the stem 0 of the length 3.
proof fn lemma_notation_of_three_0()
    ensures
        "c0 v0 c1 v1 c2"@ == notation(spec_structures(Length::L3, 0)),
{
    reveal_strlit("c0 v0 c1 v1 c2");
    reveal_with_fuel(notation_upto, 9);
    assert("c0 v0 c1 v1 c2"@ =~= notation(spec_structures(Length::L3, 0)));
}

/// The notation of the stem 1 of the length 3.
proof fn lemma_notation_of_three_1()
    ensures
        "c0 v0 c1 xc1 v1 c2"@ == notation(spec_structures(Length::L3, 1)),
{
    reveal_strlit("c0 v0 c1 xc1 v1 c2");
    reveal_with_fuel(notation_upto, 9);
    assert("c0 v0 c1 xc1 v1 c2"@ =~= notation(spec_structures(Length::L3, 1)));
}

/// The notation of the stem 2 of the length 3.
proof fn lemma_notation_of_three_2()
    ensures
        "c0 v0 xv0 c1 v1 c2"@ == notation(spec_structures(Length::L3, 2)),
{
    reveal_strlit("c0 v0 xv0 c1 v1 c2");
    reveal_with_fuel(notation_upto, 9);
    assert("c0 v0 xv0 c1 v1 c2"@ =~= notation(spec_structures(Length::L3, 2)));
}

/// The notation of the stem 3 of the length 3.
proof fn lemma_notation_of_three_3()
    ensures
        "c0 v0 c1 v1 xv1 c2"@ == notation(spec_structures(Length::L3, 3)),
{
    reveal_strlit("c0 v0 c1 v1 xv1 c2");
    reveal_with_fuel(notation_upto, 9);
    assert("c0 v0 c1 v1 xv1 c2"@ =~= notation(spec_structures(Length::L3, 3)));
}

/// The notation of the stem 4 of the length 3.
proof fn lemma_notation_of_three_4()
    ensures
        "c0 v0 c1 v1 c2 xc2 xn1"@ == notation(spec_structures(Length::L3, 4)),
{
    reveal_strlit("c0 v0 c1 v1 c2 xc2 xn1");
    reveal_with_fuel(notation_upto, 9);
    assert("c0 v0 c1 v1 c2 xc2 xn1"@ =~= notation(spec_structures(Length::L3, 4)));
}

/// The notation of the stem 0 of the length 4.
proof fn lemma_notation_of_four_0()
    ensures
        "c0 v0 c1 c2 v1 c3"@ == notation(spec_structures(Length::L4, 0)),
{
    reveal_strlit("c0 v0 c1 c2 v1 c3");
    reveal_with_fuel(notation_upto, 9);
    assert("c0 v0 c1 c2 v1 c3"@ =~= notation(spec_structures(Length::L4, 0)));
}

/// The notation of the stem 1 of the length 4.
proof fn lemma_notation_of_four_1()
    ensures
        "c0 v0 c1 v0 c2 v1 c3"@ == notation(spec_structures(Length::L4, 1)),
{
    reveal_strlit("c0 v0 c1 v0 c2 v1 c3");
    reveal_with_fuel(notation_upto, 9);
    assert("c0 v0 c1 v0 c2 v1 c3"@ =~= notation(spec_structures(Length::L4, 1)));
}

/// The notation of the stem 2 of the length 4.
proof fn lemma_notation_of_four_2()
    ensures
        "c0 v0 xv0 c1 c2 v1 c3"@ == notation(spec_structures(Length::L4, 2)),
{
    reveal_strlit("c0 v0 xv0 c1 c2 v1 c3");
    reveal_with_fuel(notation_upto, 9);
    assert("c0 v0 xv0 c1 c2 v1 c3"@ =~= notation(spec_structures(Length::L4, 2)));
}

/// The notation of the stem 3 of the length 4.
proof fn lemma_notation_of_four_3()
    ensures
        "c0 v0 c1 c2 v1 xv1 c3"@ == notation(spec_structures(Length::L4, 3)),
{
    reveal_strlit("c0 v0 c1 c2 v1 xv1 c3");
    reveal_with_fuel(notation_upto, 9);
    assert("c0 v0 c1 c2 v1 xv1 c3"@ =~= notation(spec_structures(Length::L4, 3)));
}

/// The notation of the stem 4 of the length 4.
proof fn lemma_notation_of_four_4()
    ensures
        "c0 v0 c1 c2 v1 c3 xc3 xn1"@ == notation(spec_structures(Length::L4, 4)),
{
    reveal_strlit("c0 v0 c1 c2 v1 c3 xc3 xn1");
    reveal_with_fuel(notation_upto, 9);
    assert("c0 v0 c1 c2 v1 c3 xc3 xn1"@ =~= notation(spec_structures(Length::L4, 4)));
}

/// The notation of the stem 5 of the length 4.
proof fn lemma_notation_of_four_5()
    ensures
        "c0 v0 c1 v0 xv0 c2 v1 c3"@ == notation(spec_structures(Length::L4, 5)),
{
    reveal_strlit("c0 v0 c1 v0 xv0 c2 v1 c3");
    reveal_with_fuel(notation_upto, 9);
    assert("c0 v0 c1 v0 xv0 c2 v1 c3"@ =~= notation(spec_structures(Length::L4, 5)));
}

/// The notation of the stem 6 of the length 4.
proof fn lemma_notation_of_four_6()
    ensures
        "c0 v0 c1 v0 c2 xc2 v1 c3"@ == notation(spec_structures(Length::L4, 6)),
{
    reveal_strlit("c0 v0 c1 v0 c2 xc2 v1 c3");
    reveal_with_fuel(notation_upto, 9);
    assert("c0 v0 c1 v0 c2 xc2 v1 c3"@ =~= notation(spec_structures(Length::L4, 6)));
}

/// The notation of the stem 7 of the length 4.
proof fn lemma_notation_of_four_7()
    ensures
        "c0 v0 c1 v0 c2 v1 xv1 c3"@ == notation(spec_structures(Length::L4, 7)),
{
    reveal_strlit("c0 v0 c1 v0 c2 v1 xv1 c3");
    reveal_with_fuel(notation_upto, 9);
    assert("c0 v0 c1 v0 c2 v1 xv1 c3"@ =~= notation(spec_structures(Length::L4, 7)));
}

/// The notation of the structure of a stem.
pub fn stem_notation(length: Length, stem_index: u8) -> (config: &'static str)
    requires
        stem_index < length.spec_stems_per_concept(),
    ensures
        config@ == notation(spec_structures(length, stem_index as int)),
{
    match length {
        Length::L2 => match stem_index {
            0 => {
                proof {
                    lemma_notation_of_two_0();
                }
                "c0 v0 c1"
            },
            1 => {
                proof {
                    lemma_notation_of_two_1();
                }
                "c0 v0 xv0 c1"
            },
            _ => {
                proof {
                    lemma_notation_of_two_2();
                }
                "c0 v0 c1 xc1 xn0"
            },
        },
        Length::L3 => match stem_index {
            0 => {
                proof {
                    lemma_notation_of_three_0();
                }
                "c0 v0 c1 v1 c2"
            },
            1 => {
                proof {
                    lemma_notation_of_three_1();
                }
                "c0 v0 c1 xc1 v1 c2"
            },
            2 => {
                proof {
                    lemma_notation_of_three_2();
                }
                "c0 v0 xv0 c1 v1 c2"
            },
            3 => {
                proof {
                    lemma_notation_of_three_3();
                }
                "c0 v0 c1 v1 xv1 c2"
            },
            _ => {
                proof {
                    lemma_notation_of_three_4();
                }
                "c0 v0 c1 v1 c2 xc2 xn1"
            },
        },
        Length::L4 => match stem_index {
            0 => {
                proof {
                    lemma_notation_of_four_0();
                }
                "c0 v0 c1 c2 v1 c3"
            },
            1 => {
                proof {
                    lemma_notation_of_four_1();
                }
                "c0 v0 c1 v0 c2 v1 c3"
            },
            2 => {
                proof {
                    lemma_notation_of_four_2();
                }
                "c0 v0 xv0 c1 c2 v1 c3"
            },
            3 => {
                proof {
                    lemma_notation_of_four_3();
                }
                "c0 v0 c1 c2 v1 xv1 c3"
            },
            4 => {
                proof {
                    lemma_notation_of_four_4();
                }
                "c0 v0 c1 c2 v1 c3 xc3 xn1"
            },
            5 => {
                proof {
                    lemma_notation_of_four_5();
                }
                "c0 v0 c1 v0 xv0 c2 v1 c3"
            },
            6 => {
                proof {
                    lemma_notation_of_four_6();
                }
                "c0 v0 c1 v0 c2 xc2 v1 c3"
            },
            _ => {
                proof {
                    lemma_notation_of_four_7();
                }
                "c0 v0 c1 v0 c2 v1 xv1 c3"
            },
        },
    }
}

/// List of how stems are configured: the notation of the structure of each stem.
pub fn list(length: Length) -> (configs: Vec<&'static str>)
    ensures
        configs@.len() == length.spec_stems_per_concept(),
        forall|stem_index: int|
            0 <= stem_index < configs@.len() ==> (#[trigger] configs@[stem_index])@ == notation(
                spec_structures(length, stem_index),
            ),
{
    let mut configs: Vec<&'static str> = Vec::new();
    let stems: usize = length.stems_per_concept();
    let mut stem_index: u8 = 0;
    while (stem_index as usize) < stems
        invariant
            stem_index <= stems,
            stems == length.spec_stems_per_concept(),
            configs@.len() == stem_index,
            forall|before: int|
                0 <= before < configs@.len() ==> (#[trigger] configs@[before])@ == notation(
                    spec_structures(length, before),
                ),
        decreases stems - stem_index,
    {
        configs.push(stem_notation(length, stem_index));
        stem_index += 1;
    }
    configs
}

/// The structure of a stem.
pub fn structures(length: Length, stem_index: u8) -> (structure: ArrayVec<Letter, 8>)
    requires
        stem_index < length.spec_stems_per_concept(),
    ensures
        letters_held(structure) == spec_structures(length, stem_index as int),
{
    let mut structure = letters_new();
    letters_push(&mut structure, Letter::new_consonant(length, 0));
    letters_push(&mut structure, Letter::new_vowel(0));
    match length {
        Length::L2 => match stem_index {
            0 => {
                letters_push(&mut structure, Letter::new_consonant(length, 1));
            },
            1 => {
                letters_push(&mut structure, Letter::new_duplicate_vowel(0));
                letters_push(&mut structure, Letter::new_consonant(length, 1));
            },
            _ => {
                letters_push(&mut structure, Letter::new_consonant(length, 1));
                letters_push(&mut structure, Letter::new_duplicate_consonant(length, 1));
                letters_push(&mut structure, Letter::new_nasal(0));
            },
        },
        Length::L3 => match stem_index {
            0 => {
                letters_push(&mut structure, Letter::new_consonant(length, 1));
                letters_push(&mut structure, Letter::new_vowel(1));
                letters_push(&mut structure, Letter::new_consonant(length, 2));
            },
            1 => {
                letters_push(&mut structure, Letter::new_consonant(length, 1));
                letters_push(&mut structure, Letter::new_duplicate_consonant(length, 1));
                letters_push(&mut structure, Letter::new_vowel(1));
                letters_push(&mut structure, Letter::new_consonant(length, 2));
            },
            2 => {
                letters_push(&mut structure, Letter::new_duplicate_vowel(0));
                letters_push(&mut structure, Letter::new_consonant(length, 1));
                letters_push(&mut structure, Letter::new_vowel(1));
                letters_push(&mut structure, Letter::new_consonant(length, 2));
            },
            3 => {
                letters_push(&mut structure, Letter::new_consonant(length, 1));
                letters_push(&mut structure, Letter::new_vowel(1));
                letters_push(&mut structure, Letter::new_duplicate_vowel(1));
                letters_push(&mut structure, Letter::new_consonant(length, 2));
            },
            _ => {
                letters_push(&mut structure, Letter::new_consonant(length, 1));
                letters_push(&mut structure, Letter::new_vowel(1));
                letters_push(&mut structure, Letter::new_consonant(length, 2));
                letters_push(&mut structure, Letter::new_duplicate_consonant(length, 2));
                letters_push(&mut structure, Letter::new_nasal(1));
            },
        },
        Length::L4 => match stem_index {
            0 => {
                letters_push(&mut structure, Letter::new_consonant(length, 1));
                letters_push(&mut structure, Letter::new_consonant(length, 2));
                letters_push(&mut structure, Letter::new_vowel(1));
                letters_push(&mut structure, Letter::new_consonant(length, 3));
            },
            1 => {
                letters_push(&mut structure, Letter::new_consonant(length, 1));
                letters_push(&mut structure, Letter::new_vowel(0));
                letters_push(&mut structure, Letter::new_consonant(length, 2));
                letters_push(&mut structure, Letter::new_vowel(1));
                letters_push(&mut structure, Letter::new_consonant(length, 3));
            },
            2 => {
                letters_push(&mut structure, Letter::new_duplicate_vowel(0));
                letters_push(&mut structure, Letter::new_consonant(length, 1));
                letters_push(&mut structure, Letter::new_consonant(length, 2));
                letters_push(&mut structure, Letter::new_vowel(1));
                letters_push(&mut structure, Letter::new_consonant(length, 3));
            },
            3 => {
                letters_push(&mut structure, Letter::new_consonant(length, 1));
                letters_push(&mut structure, Letter::new_consonant(length, 2));
                letters_push(&mut structure, Letter::new_vowel(1));
                letters_push(&mut structure, Letter::new_duplicate_vowel(1));
                letters_push(&mut structure, Letter::new_consonant(length, 3));
            },
            4 => {
                letters_push(&mut structure, Letter::new_consonant(length, 1));
                letters_push(&mut structure, Letter::new_consonant(length, 2));
                letters_push(&mut structure, Letter::new_vowel(1));
                letters_push(&mut structure, Letter::new_consonant(length, 3));
                letters_push(&mut structure, Letter::new_duplicate_consonant(length, 3));
                letters_push(&mut structure, Letter::new_nasal(1));
            },
            5 => {
                letters_push(&mut structure, Letter::new_consonant(length, 1));
                letters_push(&mut structure, Letter::new_vowel(0));
                letters_push(&mut structure, Letter::new_duplicate_vowel(0));
                letters_push(&mut structure, Letter::new_consonant(length, 2));
                letters_push(&mut structure, Letter::new_vowel(1));
                letters_push(&mut structure, Letter::new_consonant(length, 3));
            },
            6 => {
                letters_push(&mut structure, Letter::new_consonant(length, 1));
                letters_push(&mut structure, Letter::new_vowel(0));
                letters_push(&mut structure, Letter::new_consonant(length, 2));
                letters_push(&mut structure, Letter::new_duplicate_consonant(length, 2));
                letters_push(&mut structure, Letter::new_vowel(1));
                letters_push(&mut structure, Letter::new_consonant(length, 3));
            },
            _ => {
                letters_push(&mut structure, Letter::new_consonant(length, 1));
                letters_push(&mut structure, Letter::new_vowel(0));
                letters_push(&mut structure, Letter::new_consonant(length, 2));
                letters_push(&mut structure, Letter::new_vowel(1));
                letters_push(&mut structure, Letter::new_duplicate_vowel(1));
                letters_push(&mut structure, Letter::new_consonant(length, 3));
            },
        },
    }
    assert(letters_held(structure) =~= spec_structures(length, stem_index as int));
    structure
}

} // verus!
