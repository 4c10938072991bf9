use uywi::script::ipa_peter::IpaVowel::{
    DarkA, DarkU, LightE, LightI, NasalA, NasalE, NasalI, NasalU, NeutralA, NeutralE, NeutralI,
    NeutralU, RoundingA, RoundingE, RoundingI, ShadingE, ShadingI,
};
use uywi::script::ipa_peter::{self, IpaVowel, Quality1};
use uywi::{Concept, Length, Script, Vowel, Word};

const IPA: Script = Script::IpaPeter;

fn words_of(concept: Concept) -> Vec<Word> {
    let mut all = Vec::new();
    let mut stems = concept.stems();
    while let Some(stem) = stems.next() {
        let mut words = stem.words();
        while let Some(word) = words.next() {
            all.push(word);
        }
    }
    all
}

fn first_forms(index: usize, length: Length) -> Vec<String> {
    let concept = Concept::from_index(index, length).expect("concept");
    words_of(concept)
        .iter()
        .filter(|word| word.form_index() == 0)
        .map(|word| word.to_string(IPA))
        .collect()
}

fn fnv(hash: &mut u64, text: &str) {
    for byte in text.bytes() {
        *hash ^= u64::from(byte);
        *hash = hash.wrapping_mul(0x100000001b3);
    }
}

#[test]
fn radical_attributes() {
    let glottal = ipa_peter::script_radical(0);
    assert_eq!(glottal.0, "ʔ");
    assert_eq!(glottal.quality(), Quality1::Neutral);
    assert!(glottal.is_beginning() && !glottal.is_end());
    assert!(!glottal.is_dark() && !glottal.is_light() && !glottal.is_voiceless());
    let h = ipa_peter::script_radical(3);
    assert_eq!(h.0, "h");
    assert!(h.is_voiceless() && h.is_end() && !h.is_beginning());
    let k = ipa_peter::script_radical(6);
    assert!(k.is_dark() && k.is_shading() && k.is_voiceless() && !k.is_rounding());
    let uvular = ipa_peter::script_radical(10);
    assert_eq!(uvular.0, "ʁ");
    assert_eq!(uvular.alternative(), Some("χ"));
    assert!(!uvular.is_voiceless());
    assert_eq!(ipa_peter::script_radical(11).alternative(), Some("c"));
    let labial = ipa_peter::script_radical(14);
    assert!(labial.is_light() && labial.is_rounding() && !labial.is_shading());
    assert!(ipa_peter::script_radical(21).2);
    assert!(ipa_peter::script_radical(41).2 && ipa_peter::script_radical(41).is_light());
    assert!(!ipa_peter::script_radical(42).2 && ipa_peter::script_radical(42).is_dark());
    assert_eq!(ipa_peter::script_radical(43).0, "l");
    assert_eq!(ipa_peter::script_radical(43).quality(), Quality1::Neutral);
    assert_eq!(Quality1::Neutral.as_str(), "");
    assert_eq!(Quality1::Dark.as_str(), "ˤ");
    assert_eq!(Quality1::Light.as_str(), "ʲ");
}

#[test]
fn vowel_colours() {
    let all = [
        NeutralA, NeutralE, NeutralI, NeutralU, DarkA, DarkU, LightE, LightI, NasalA, NasalE,
        NasalI, NasalU, ShadingE, ShadingI, RoundingA, RoundingE, RoundingI,
    ];
    let texts = ["a", "e", "i", "u", "a", "u", "e", "i", "ɑ̃", "ɔ̃", "ɛ̃", "œ̃", "æ", "ɨ", "ɔ", "ø", "y"];
    for (vowel, text) in all.iter().zip(texts) {
        assert_eq!(vowel.as_str(), text);
    }
    let colour = |vowel: IpaVowel, change: fn(&mut IpaVowel)| {
        let mut coloured = vowel;
        change(&mut coloured);
        coloured.as_str()
    };
    for (vowel, text) in all.iter().zip(texts) {
        let dark = match text {
            "e" => "a",
            "i" => "u",
            other => other,
        };
        assert_eq!(colour(*vowel, IpaVowel::as_dark), dark);
        let light = match text {
            "a" => "e",
            "u" => "i",
            other => other,
        };
        assert_eq!(colour(*vowel, IpaVowel::as_light), light);
        let shading = match text {
            "e" => "æ",
            "i" => "ɨ",
            other => other,
        };
        assert_eq!(colour(*vowel, IpaVowel::as_shading), shading);
        let nasal = match text {
            "a" => "ɑ̃",
            "e" => "ɔ̃",
            "i" => "ɛ̃",
            "u" => "œ̃",
            other => other,
        };
        assert_eq!(colour(*vowel, IpaVowel::as_nasal), nasal);
        let rounding = match text {
            "a" => "ɔ",
            "e" => "ø",
            "i" => "y",
            other => other,
        };
        assert_eq!(colour(*vowel, IpaVowel::as_rounding), rounding);
    }
}

#[test]
fn ipa_vowels_of_forms() {
    let two = [(NeutralA, NeutralA), (NeutralI, NeutralI)];
    for (form, (first, last)) in two.iter().enumerate() {
        let vowels = ipa_peter::form_configs(Length::L2, form as u8);
        assert_eq!(vowels.get(Vowel::First), *first);
        assert_eq!(vowels.get(Vowel::Last), *last);
    }
    let more = [(NeutralA, NeutralE), (NeutralE, NeutralI), (NeutralU, NeutralA), (NeutralU, NeutralI)];
    for length in [Length::L3, Length::L4] {
        for (form, (first, last)) in more.iter().enumerate() {
            let vowels = ipa_peter::form_configs(length, form as u8);
            assert_eq!(vowels.get(Vowel::First), *first);
            assert_eq!(vowels.get(Vowel::Last), *last);
        }
    }
}

#[test]
fn concepts_show_their_quality() {
    let expected = [
        (Length::L2, 0usize, "ʔh"),
        (Length::L2, 1, "jˤh"),
        (Length::L2, 1000, "ɟtˤ"),
        (Length::L3, 1000, "dˤnh"),
        (Length::L3, 79463, "lʔw"),
        (Length::L4, 44, "ʔkˤʕh"),
        (Length::L4, 1000, "ʔɕʲtʰh"),
        (Length::L4, 3258023, "lʔjˤw"),
    ];
    for (length, index, text) in expected {
        let concept = Concept::from_index(index, length).expect("concept");
        assert_eq!(concept.to_string(IPA), text);
        assert_eq!(IPA.concept(concept).as_str(), text);
    }
}

#[test]
fn words_lose_radicals_at_their_boundaries() {
    assert_eq!(first_forms(0, Length::L2), ["a", "aː", "ɑ̃"]);
    assert_eq!(first_forms(1, Length::L2), ["ja", "jaː", "jɑ̃"]);
    assert_eq!(first_forms(43, Length::L2), ["aʕ", "aːʕ", "aʕːɑ̃"]);
    assert_eq!(first_forms(1891, Length::L2), ["law", "laːw", "lawːɑ̃"]);
    assert_eq!(first_forms(0, Length::L3), ["aja", "ajːa", "aːja", "ajaː", "ajɑ̃"]);
    assert_eq!(first_forms(1, Length::L3), ["awe", "awːe", "aːwe", "aweː", "awɔ̃"]);
    assert_eq!(
        first_forms(79463, Length::L3),
        ["laʔew", "laʔːew", "laːʔew", "laʔeːw", "laʔewːɔ̃"]
    );
}

#[test]
fn words_of_four() {
    assert_eq!(
        first_forms(0, Length::L4),
        ["ajwe", "ajawe", "aːjwe", "ajweː", "ajwɔ̃", "ajaːwe", "ajawːe", "ajaweː"]
    );
    assert_eq!(
        first_forms(44, Length::L4),
        ["akʕe", "akaʕe", "aːkʕe", "akʕeː", "akʕɔ̃", "akaːʕe", "akaʕːe", "akaʕeː"]
    );
    assert_eq!(
        first_forms(1000, Length::L4),
        ["eɕtʰe", "eɕetʰe", "eːɕtʰe", "eɕtʰeː", "eɕtʰɔ̃", "eɕeːtʰe", "eɕetʰːe", "eɕetʰeː"]
    );
    assert_eq!(
        first_forms(3258023, Length::L4),
        [
            "laʔjaw", "laʔajaw", "laːʔjaw", "laʔjaːw", "laʔjawːɔ̃", "laʔaːjaw", "laʔajːaw",
            "laʔajaːw"
        ]
    );
}

#[test]
fn all_words_of_two_and_three() {
    let expected = [
        (Length::L2, 1usize, 0xff2053827796ab1d_u64, 0x42cc3d4f96903c53_u64),
        (Length::L3, 1, 0x8d4b1ec6def5112b, 0x4635db1456c00483),
        (Length::L4, 997, 0x818b113a97e9606c, 0xde8f84d7e8508f54),
    ];
    for (length, step, expected_words, expected_concepts) in expected {
        let mut words_hash = 0xcbf29ce484222325_u64;
        let mut concepts_hash = 0xcbf29ce484222325_u64;
        let mut index = 0;
        while index < length.num_of_concepts() {
            let concept = Concept::from_index(index, length).expect("concept");
            fnv(&mut concepts_hash, &concept.to_string(IPA));
            for word in words_of(concept) {
                let text = word.to_string(IPA);
                assert_eq!(IPA.word(word).as_str(), text);
                fnv(&mut words_hash, &text);
            }
            index += step;
        }
        assert_eq!(words_hash, expected_words);
        assert_eq!(concepts_hash, expected_concepts);
    }
}
