use uywi::decimal::{parse, to_decimal};
use uywi::dictionary::{Answer, Event, Screen, State};
use uywi::structure::{list, stem_notation};
use uywi::translator::translate;
use uywi::util::{PAdd, PConvert, PDiv, PMul, PSub};
use uywi::{Concept, Error, Length, Page, Script};

#[test]
fn sentences_are_translated_word_by_word() {
    assert_eq!(translate(""), "");
    assert_eq!(translate(" "), " ");
    assert_eq!(translate("?oYwoh"), "ajwe");
    assert_eq!(translate("?Ywh"), "ʔjˤwh");
    assert_eq!(translate("?oYwoh ?Ywh"), "ajwe ʔjˤwh");
    assert_eq!(translate("  ?oYwoh\t\n4oT hello  "), "  ajwe\t\nɟat hello  ");
    assert_eq!(translate("hello world"), "hello world");
    assert_eq!(translate("?oYwoh\u{a0}?oh"), "ajwe\u{a0}a");
    assert_eq!(translate("?oYwoh,"), "?oYwoh,");
}

#[test]
fn structures_have_their_notation() {
    assert_eq!(list(Length::L2), ["c0 v0 c1", "c0 v0 xv0 c1", "c0 v0 c1 xc1 xn0"]);
    assert_eq!(
        list(Length::L3),
        [
            "c0 v0 c1 v1 c2",
            "c0 v0 c1 xc1 v1 c2",
            "c0 v0 xv0 c1 v1 c2",
            "c0 v0 c1 v1 xv1 c2",
            "c0 v0 c1 v1 c2 xc2 xn1"
        ]
    );
    assert_eq!(
        list(Length::L4),
        [
            "c0 v0 c1 c2 v1 c3",
            "c0 v0 c1 v0 c2 v1 c3",
            "c0 v0 xv0 c1 c2 v1 c3",
            "c0 v0 c1 c2 v1 xv1 c3",
            "c0 v0 c1 c2 v1 c3 xc3 xn1",
            "c0 v0 c1 v0 xv0 c2 v1 c3",
            "c0 v0 c1 v0 c2 xc2 v1 c3",
            "c0 v0 c1 v0 c2 v1 xv1 c3"
        ]
    );
    assert_eq!(stem_notation(Length::L4, 4), "c0 v0 c1 c2 v1 c3 xc3 xn1");
    for length in [Length::L2, Length::L3, Length::L4] {
        assert_eq!(list(length).len(), length.stems_per_concept());
    }
}

#[test]
fn decimal_numbers() {
    assert_eq!(parse("0"), Some(0));
    assert_eq!(parse("+0"), Some(0));
    assert_eq!(parse("42"), Some(42));
    assert_eq!(parse("+42"), Some(42));
    assert_eq!(parse("0042"), Some(42));
    assert_eq!(parse(&usize::MAX.to_string()), Some(usize::MAX));
    assert_eq!(parse(&format!("{}0", usize::MAX)), None);
    assert_eq!(parse(&format!("{}", u128::MAX)), None);
    for text in ["", "+", "-", "-1", "++1", "1+", "4 2", " 42", "42 ", "4_2", "0x10", "٤٢", "1e3"] {
        assert_eq!(parse(text), None);
        assert_eq!(text.parse::<usize>().ok(), None);
    }
    for number in [0usize, 1, 9, 10, 11, 99, 100, 101, 3258024, usize::MAX] {
        assert_eq!(to_decimal(number), number.to_string());
        assert_eq!(parse(&to_decimal(number)), Some(number));
    }
}

#[test]
fn arithmetic_helpers() {
    assert_eq!(3usize.padd(4), 7);
    assert_eq!(7usize.psub(4), 3);
    assert_eq!(6usize.pmul(7), 42);
    assert_eq!(42usize.pdiv(5), 8);
    assert_eq!(200u8.padd(55), 255);
    let small: u8 = 44usize.pinto();
    assert_eq!(small, 44);
    let wide: usize = 44u8.pinto();
    assert_eq!(wide, 44);
    assert_eq!(<usize as PConvert<u8>>::pfrom(7u8), 7usize);
    assert_eq!(<u8 as PConvert<usize>>::pfrom(7usize), 7u8);
}

#[test]
fn dictionary_follows_requests() {
    let mut state = State::default();
    assert_eq!(state.script(), Script::UywiChiffre);
    assert_eq!(state.length(), Length::L4);
    assert_eq!(state.screen(), Screen::Page { page: Page::from_index(0, Length::L4).unwrap() });

    assert_eq!(state.update(Event::Script(Script::IpaPeter)), Answer::Show);
    assert_eq!(state.script(), Script::IpaPeter);

    assert_eq!(state.update(Event::Page("3".to_string())), Answer::Show);
    assert_eq!(state.screen(), Screen::Page { page: Page::from_index(2, Length::L4).unwrap() });
    assert_eq!(state.update(Event::Page("0".to_string())), Answer::Refuse(Error::PageStringNull));
    assert_eq!(state.update(Event::Page("x".to_string())), Answer::Refuse(Error::PageStringInvalid));
    assert_eq!(
        state.update(Event::Page("1893".to_string())),
        Answer::Refuse(Error::PageIndexInvalid)
    );
    assert_eq!(state.screen(), Screen::Page { page: Page::from_index(2, Length::L4).unwrap() });

    assert_eq!(state.update(Event::Length(5)), Answer::Refuse(Error::LengthInvalid));
    assert_eq!(state.length(), Length::L4);
    assert_eq!(state.update(Event::Length(3)), Answer::Show);
    assert_eq!(state.length(), Length::L3);
    assert_eq!(state.screen(), Screen::Page { page: Page::from_index(0, Length::L3).unwrap() });

    assert_eq!(state.update(Event::Index("1807".to_string())), Answer::Show);
    let concept = Concept::from_index(1806, Length::L3).unwrap();
    assert_eq!(
        state.screen(),
        Screen::Concept { page: Page::from_index(1, Length::L3).unwrap(), concept }
    );
    assert_eq!(
        state.update(Event::Index("0".to_string())),
        Answer::Refuse(Error::ConceptStringNull)
    );
    assert_eq!(
        state.update(Event::Index("79465".to_string())),
        Answer::Refuse(Error::ConceptIndexInvalid)
    );

    assert_eq!(
        state.update(Event::ConceptInput("??".to_string())),
        Answer::Refuse(Error::ConceptRadicalDuplicate)
    );
    assert_eq!(state.update(Event::ConceptInput("?Y".to_string())), Answer::Skip);
    assert_eq!(state.length(), Length::L3);

    assert_eq!(
        state.update(Event::Concept("?o".to_string())),
        Answer::Refuse(Error::ConceptRadicalInvalid)
    );
    assert_eq!(state.update(Event::Concept("l?Yw".to_string())), Answer::Show);
    let concept = Concept::from_index(3258023, Length::L4).unwrap();
    assert_eq!(state.length(), Length::L4);
    assert_eq!(
        state.screen(),
        Screen::Concept { page: Page::from_index(1891, Length::L4).unwrap(), concept }
    );

    let concept = Concept::from_index(44, Length::L2).unwrap();
    assert_eq!(state.update(Event::OpenConcept(concept)), Answer::Show);
    assert_eq!(state.length(), Length::L2);
    assert_eq!(
        state.screen(),
        Screen::Forms { page: Page::from_index(0, Length::L2).unwrap(), concept }
    );
}
