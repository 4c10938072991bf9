use uywi::script::uywi_chiffre;
use uywi::structure::structures;
use uywi::util::GraphemeIdentity;
use uywi::Letter::{
    Consonant as C, DuplicateConsonant as XC, DuplicateVowel as XV, Nasal as XN, Vowel as V,
};
use uywi::Vowel::{First as F, Last as L};
use uywi::{Concept, ConceptOrWord, Error, Length, Letter, Radical, Script, Vowel, Word};

const LENGTHS: [Length; 3] = [Length::L2, Length::L3, Length::L4];
const CHIFFRE: Script = Script::UywiChiffre;

fn words_of(concept: Concept) -> Vec<Word> {
    let mut all = Vec::new();
    let mut stems = concept.stems();
    while let Some(stem) = stems.next() {
        let mut words = stem.words();
        while let Some(word) = words.next() {
            all.push(word);
        }
    }
    all
}

fn fnv(hash: &mut u64, text: &str) {
    for byte in text.bytes() {
        *hash ^= u64::from(byte);
        *hash = hash.wrapping_mul(0x100000001b3);
    }
}

#[test]
fn radical_table() {
    let letters = "?Ywh2HKkXx84Ggj73Qc9SsZzDdTtP0B6VfpbmnORr1Ll";
    assert_eq!(letters.chars().count(), 44);
    for (index, letter) in letters.chars().enumerate() {
        let text = letter.to_string();
        let radical = Radical::from_index(index as u8);
        assert_eq!(radical.index(), index as u8);
        assert_eq!(radical.as_str(), text);
        assert_eq!(Radical::from_str(&text), Ok(radical));
        assert_eq!(uywi_chiffre::script_radical(index as u8), text);
        assert_eq!(uywi_chiffre::radical_index(&text), Some(index as u8));
    }
    for text in ["", "o", "ı", "a", "??", "é", "e\u{301}", " "] {
        assert_eq!(Radical::from_str(text), Err(Error::ConceptRadicalInvalid));
        assert_eq!(uywi_chiffre::radical_index(text), None);
    }
}

#[test]
fn chiffre_vowels_of_forms() {
    assert_eq!(uywi_chiffre::script_vowels(), ["o", "ı"]);
    let expected2 = [("o", "o"), ("ı", "ı")];
    for (form, (first, last)) in expected2.iter().enumerate() {
        let vowels = uywi_chiffre::form_configs(Length::L2, form as u8);
        assert_eq!(vowels.get(Vowel::First), *first);
        assert_eq!(vowels.get(Vowel::Last), *last);
    }
    let expected = [("o", "o"), ("o", "ı"), ("ı", "o"), ("ı", "ı")];
    for length in [Length::L3, Length::L4] {
        for (form, (first, last)) in expected.iter().enumerate() {
            let vowels = uywi_chiffre::form_configs(length, form as u8);
            assert_eq!(vowels.get(Vowel::First), *first);
            assert_eq!(vowels.get(Vowel::Last), *last);
        }
    }
}

#[test]
fn structures_of_stems() {
    assert_eq!(structures(Length::L2, 0).as_slice(), &[C(0), V(F), C(1)]);
    assert_eq!(structures(Length::L2, 1).as_slice(), &[C(0), V(F), XV(F), C(1)]);
    assert_eq!(structures(Length::L2, 2).as_slice(), &[C(0), V(F), C(1), XC(1), XN(F)]);
    assert_eq!(structures(Length::L3, 0).as_slice(), &[C(0), V(F), C(1), V(L), C(2)]);
    assert_eq!(structures(Length::L3, 1).as_slice(), &[C(0), V(F), C(1), XC(1), V(L), C(2)]);
    assert_eq!(structures(Length::L3, 2).as_slice(), &[C(0), V(F), XV(F), C(1), V(L), C(2)]);
    assert_eq!(structures(Length::L3, 3).as_slice(), &[C(0), V(F), C(1), V(L), XV(L), C(2)]);
    assert_eq!(
        structures(Length::L3, 4).as_slice(),
        &[C(0), V(F), C(1), V(L), C(2), XC(2), XN(L)]
    );
    assert_eq!(structures(Length::L4, 0).as_slice(), &[C(0), V(F), C(1), C(2), V(L), C(3)]);
    assert_eq!(
        structures(Length::L4, 1).as_slice(),
        &[C(0), V(F), C(1), V(F), C(2), V(L), C(3)]
    );
    assert_eq!(
        structures(Length::L4, 2).as_slice(),
        &[C(0), V(F), XV(F), C(1), C(2), V(L), C(3)]
    );
    assert_eq!(
        structures(Length::L4, 3).as_slice(),
        &[C(0), V(F), C(1), C(2), V(L), XV(L), C(3)]
    );
    assert_eq!(
        structures(Length::L4, 4).as_slice(),
        &[C(0), V(F), C(1), C(2), V(L), C(3), XC(3), XN(L)]
    );
    assert_eq!(
        structures(Length::L4, 5).as_slice(),
        &[C(0), V(F), C(1), V(F), XV(F), C(2), V(L), C(3)]
    );
    assert_eq!(
        structures(Length::L4, 6).as_slice(),
        &[C(0), V(F), C(1), V(F), C(2), XC(2), V(L), C(3)]
    );
    assert_eq!(
        structures(Length::L4, 7).as_slice(),
        &[C(0), V(F), C(1), V(F), C(2), V(L), XV(L), C(3)]
    );
    assert_eq!(Letter::new_consonant(Length::L2, 1), C(1));
    assert_eq!(Letter::new_duplicate_consonant(Length::L4, 3), XC(3));
    assert_eq!(Letter::new_vowel(0), V(F));
    assert_eq!(Letter::new_vowel(1), V(L));
    assert_eq!(Letter::new_duplicate_vowel(1), XV(L));
    assert_eq!(Letter::new_nasal(0), XN(F));
}

#[test]
fn graphemes_are_clusters() {
    assert_eq!("?Ywh".grapheme_len(), 4);
    assert_eq!("e\u{301}o".grapheme_len(), 2);
    assert_eq!("e\u{301}o".grapheme_nth(0), Some("e\u{301}".to_string()));
    assert_eq!("e\u{301}o".grapheme_nth(1), Some("o".to_string()));
    assert_eq!("e\u{301}o".grapheme_nth(2), None);
    assert_eq!("".grapheme_len(), 0);
    assert_eq!("".grapheme_nth(0), None);
}

#[test]
fn first_word_of_the_first_concept() {
    let concept = Concept::from_index(0, Length::L4).expect("concept");
    let mut stems = concept.stems();
    let stem = stems.next().expect("stem");
    let mut words = stem.words();
    let word = words.next().expect("word");
    assert_eq!(word.concept(), concept);
    assert_eq!(word.stem_index(), 0);
    assert_eq!(word.form_index(), 0);
    assert_eq!(word.to_string(CHIFFRE), "?oYwoh");
    assert_eq!(CHIFFRE.word(word).as_str(), "?oYwoh");
    assert_eq!(words.next().expect("word").to_string(CHIFFRE), "?oYwıh");
    assert_eq!(words.next().expect("word").to_string(CHIFFRE), "?ıYwoh");
    assert_eq!(words.next().expect("word").to_string(CHIFFRE), "?ıYwıh");
    assert!(words.next().is_none());
}

#[test]
fn words_of_a_concept_of_four() {
    let concept = CHIFFRE.from_concept("Yh2w").expect("concept");
    let texts: Vec<String> =
        words_of(concept).iter().map(|word| word.to_string(CHIFFRE)).collect();
    let expected = [
        "Yoh2ow", "Yoh2ıw", "Yıh2ow", "Yıh2ıw", "Yoho2ow", "Yoho2ıw", "Yıhı2ow", "Yıhı2ıw",
        "Yooh2ow", "Yooh2ıw", "Yııh2ow", "Yııh2ıw", "Yoh2oow", "Yoh2ııw", "Yıh2oow", "Yıh2ııw",
        "Yoh2owwo", "Yoh2ıwwı", "Yıh2owwo", "Yıh2ıwwı", "Yohoo2ow", "Yohoo2ıw", "Yıhıı2ow",
        "Yıhıı2ıw", "Yoho22ow", "Yoho22ıw", "Yıhı22ow", "Yıhı22ıw", "Yoho2oow", "Yoho2ııw",
        "Yıhı2oow", "Yıhı2ııw",
    ];
    assert_eq!(texts, expected);
}

#[test]
fn third_stem_of_two_doubles_the_last_radical() {
    for index in [0usize, 1, 500, 1891] {
        let concept = Concept::from_index(index, Length::L2).expect("concept");
        let radicals = concept.radicals();
        let first = uywi_chiffre::script_radical(radicals[0]);
        let second = uywi_chiffre::script_radical(radicals[1]);
        let words = words_of(concept);
        assert_eq!(words.len(), 6);
        assert_eq!(words[4].stem_index(), 2);
        assert_eq!(words[4].form_index(), 0);
        assert_eq!(words[4].to_string(CHIFFRE), format!("{first}o{second}{second}o"));
        assert_eq!(words[5].to_string(CHIFFRE), format!("{first}ı{second}{second}ı"));
    }
}

#[test]
fn concept_strings_are_read_back() {
    for length in LENGTHS {
        let last = length.num_of_concepts() - 1;
        for index in [0, 1, 2, 42, 43, 44, 1000, last / 3, last - 1, last] {
            let concept = Concept::from_index(index, length).expect("concept");
            let text = concept.to_string(CHIFFRE);
            assert_eq!(text.grapheme_len(), length.as_int());
            assert_eq!(CHIFFRE.concept(concept).as_str(), text);
            assert_eq!(CHIFFRE.from_concept(&text), Ok(concept));
            assert_eq!(CHIFFRE.from_str(&text), Ok(ConceptOrWord::Concept(concept)));
            assert_eq!(ConceptOrWord::Concept(concept).to_string(CHIFFRE), text);
        }
    }
}

#[test]
fn word_strings_are_read_back() {
    for length in LENGTHS {
        let last = length.num_of_concepts() - 1;
        for index in [0, 1, 43, 1000, last / 2, last] {
            let concept = Concept::from_index(index, length).expect("concept");
            let words = words_of(concept);
            assert_eq!(words.len(), length.stems_per_concept() * length.forms_per_stem());
            for word in words {
                let text = word.to_string(CHIFFRE);
                assert_eq!(CHIFFRE.from_str(&text), Ok(ConceptOrWord::Word(word)));
                assert_eq!(ConceptOrWord::Word(word).to_string(CHIFFRE), text);
            }
        }
    }
}

#[test]
fn wrong_length_is_rejected() {
    for text in ["", "?", "?Ywh2", "?Ywh2HKkX", "e\u{301}"] {
        assert_eq!(CHIFFRE.from_concept(text), Err(Error::LengthInvalid));
        assert_eq!(CHIFFRE.from_str(text), Err(Error::WordInvalid));
    }
}

#[test]
fn duplicate_radicals_are_rejected() {
    for text in ["??", "YY", "?Y?", "?YY", "??Y", "?Yw?", "?YwY", "?Yww", "??Yw", "hhhh"] {
        assert_eq!(CHIFFRE.from_concept(text), Err(Error::ConceptRadicalDuplicate));
    }
}

#[test]
fn letters_that_are_no_radicals_are_rejected() {
    for text in ["?o", "o?", "?Yo", "?Ywo", "ab", "?é", "?e\u{301}", "ıo", "? Y"] {
        assert_eq!(CHIFFRE.from_concept(text), Err(Error::ConceptRadicalInvalid));
    }
}

#[test]
fn the_first_error_by_position_wins() {
    assert_eq!(CHIFFRE.from_concept("?o?"), Err(Error::ConceptRadicalDuplicate));
    assert_eq!(CHIFFRE.from_concept("o??"), Err(Error::ConceptRadicalInvalid));
    assert_eq!(CHIFFRE.from_concept("?Y?o"), Err(Error::ConceptRadicalInvalid));
    assert_eq!(CHIFFRE.from_concept("oY?Y"), Err(Error::ConceptRadicalInvalid));
    assert_eq!(CHIFFRE.from_concept("Yo?Y"), Err(Error::ConceptRadicalDuplicate));
}

#[test]
fn strings_that_are_no_words_are_rejected() {
    for text in ["?oYwo", "?oYwoo", "?uYwoh", "?oYYoh2", "ooo", "?ooYoh2", "?oY?oh"] {
        assert_eq!(CHIFFRE.from_str(text), Err(Error::WordInvalid));
    }
    assert_eq!(CHIFFRE.from_str("?oY"), CHIFFRE.from_str("?oY"));
    assert!(matches!(CHIFFRE.from_str("?oY"), Ok(ConceptOrWord::Word(_))));
}

#[test]
fn consonants_that_overflow_the_buffer_are_rejected() {
    let heavy = format!("a{}", "\u{301}".repeat(40));
    assert_eq!(heavy.grapheme_len(), 1);
    let text = format!("{heavy}o?");
    assert_eq!(text.grapheme_len(), 3);
    assert_eq!(CHIFFRE.from_str(&text), Err(Error::WordLengthInvalid));
    let light = format!("a{}", "\u{301}".repeat(20));
    let text = format!("{light}o?");
    assert_eq!(CHIFFRE.from_str(&text), Err(Error::WordInvalid));
}

#[test]
fn script_names() {
    assert_eq!(Script::UywiChiffre.to_string(), "Uywi Chiffre");
    assert_eq!(Script::IpaPeter.to_string(), "IPA (Peter's script)");
    assert_eq!(Script::default(), Script::UywiChiffre);
    assert!(Script::UywiChiffre.reads());
    assert!(!Script::IpaPeter.reads());
}

#[test]
fn all_texts_of_two_and_three() {
    let expected = [
        (Length::L2, 1usize, 0x2ec606b0cbdd7f1d_u64, 0x28a9f1dc47be858f_u64),
        (Length::L3, 1, 0x5aeadb02583995b5, 0x5e642fa122b09d39),
        (Length::L4, 997, 0xfa91da70647e4b99, 0x3470a3b8bd0ce2c9),
    ];
    for (length, step, expected_words, expected_concepts) in expected {
        let mut words_hash = 0xcbf29ce484222325_u64;
        let mut concepts_hash = 0xcbf29ce484222325_u64;
        let mut index = 0;
        while index < length.num_of_concepts() {
            let concept = Concept::from_index(index, length).expect("concept");
            fnv(&mut concepts_hash, &concept.to_string(CHIFFRE));
            for word in words_of(concept) {
                fnv(&mut words_hash, &word.to_string(CHIFFRE));
            }
            index += step;
        }
        assert_eq!(words_hash, expected_words);
        assert_eq!(concepts_hash, expected_concepts);
    }
}
