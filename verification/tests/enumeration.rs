use uywi::{Concept, Error, Length, Page, Pages, Script};

const LENGTHS: [Length; 3] = [Length::L2, Length::L3, Length::L4];

#[test]
fn length_from_number() {
    assert_eq!(Length::new(2), Ok(Length::L2));
    assert_eq!(Length::new(3), Ok(Length::L3));
    assert_eq!(Length::new(4), Ok(Length::L4));
    for number in [0usize, 1, 5, 44, usize::MAX] {
        assert_eq!(Length::new(number), Err(Error::LengthInvalid));
    }
    assert_eq!(Length::L2.as_int(), 2);
    assert_eq!(Length::L3.as_int(), 3);
    assert_eq!(Length::L4.as_int(), 4);
    assert_eq!(Length::default(), Length::L4);
    assert_eq!(Length::L3.to_string(), "3");
}

#[test]
fn counts_per_length() {
    assert_eq!(Length::L2.num_of_pages(), 1);
    assert_eq!(Length::L3.num_of_pages(), 44);
    assert_eq!(Length::L4.num_of_pages(), 44 * 43);
    assert_eq!(Length::L2.rows_per_page(), 44);
    assert_eq!(Length::L3.rows_per_page(), 43);
    assert_eq!(Length::L4.rows_per_page(), 42);
    assert_eq!(Length::L2.concepts_per_row(), 43);
    assert_eq!(Length::L3.concepts_per_row(), 42);
    assert_eq!(Length::L4.concepts_per_row(), 41);
    assert_eq!(Length::L2.concepts_per_page(), 44 * 43);
    assert_eq!(Length::L3.concepts_per_page(), 43 * 42);
    assert_eq!(Length::L4.concepts_per_page(), 42 * 41);
    assert_eq!(Length::L2.num_of_concepts(), 44 * 43);
    assert_eq!(Length::L3.num_of_concepts(), 44 * 43 * 42);
    assert_eq!(Length::L4.num_of_concepts(), 44 * 43 * 42 * 41);
    assert_eq!(Length::L2.stems_per_concept(), 3);
    assert_eq!(Length::L3.stems_per_concept(), 5);
    assert_eq!(Length::L4.stems_per_concept(), 8);
    assert_eq!(Length::L2.forms_per_stem(), 2);
    assert_eq!(Length::L3.forms_per_stem(), 4);
    assert_eq!(Length::L4.forms_per_stem(), 4);
    assert_eq!(Length::L4.words_per_stem(), 4);
    assert_eq!(Length::L2.num_of_forms(), 2);
}

#[test]
fn positional_tables() {
    assert_eq!(Length::L2.radical_intervals().as_slice(), &[43, 1]);
    assert_eq!(Length::L3.radical_intervals().as_slice(), &[43 * 42, 42, 1]);
    assert_eq!(Length::L4.radical_intervals().as_slice(), &[43 * 42 * 41, 42 * 41, 41, 1]);
    assert_eq!(Length::L2.radical_order().as_slice(), &[1, 0]);
    assert_eq!(Length::L3.radical_order().as_slice(), &[1, 2, 0]);
    assert_eq!(Length::L4.radical_order().as_slice(), &[1, 3, 2, 0]);
    assert_eq!(Length::L2.radical_order_mirrored().as_slice(), &[1, 0]);
    assert_eq!(Length::L3.radical_order_mirrored().as_slice(), &[2, 0, 1]);
    assert_eq!(Length::L4.radical_order_mirrored().as_slice(), &[3, 0, 2, 1]);
    assert_eq!(Length::L2.radical_start().as_slice(), &[3, 0]);
    assert_eq!(Length::L3.radical_start().as_slice(), &[3, 0, 1]);
    assert_eq!(Length::L4.radical_start().as_slice(), &[3, 0, 2, 1]);
}

#[test]
fn mirrored_order_is_the_inverse() {
    for length in LENGTHS {
        let order = length.radical_order();
        let mirrored = length.radical_order_mirrored();
        for position in 0..length.as_int() {
            assert_eq!(usize::from(order[usize::from(mirrored[position])]), position);
            assert_eq!(usize::from(mirrored[usize::from(order[position])]), position);
        }
    }
}

#[test]
fn ordered_radicals_are_cyclic_and_filtered() {
    let all = Length::L4.radicals_ordered(0, &[]);
    let mut expected: Vec<u8> = (3..44).collect();
    expected.extend(0..3);
    assert_eq!(all, expected);

    let filtered = Length::L4.radicals_ordered(3, &[3, 0, 2]);
    let mut expected: Vec<u8> = vec![1];
    expected.extend(4..44);
    assert_eq!(filtered, expected);
    assert_eq!(filtered.len(), 41);

    assert_eq!(Length::L4.ordered_nth(3, &[3, 0, 2], 0), Some(1));
    assert_eq!(Length::L4.ordered_nth(3, &[3, 0, 2], 1), Some(4));
    assert_eq!(Length::L4.ordered_nth(3, &[3, 0, 2], 40), Some(43));
    assert_eq!(Length::L4.ordered_nth(3, &[3, 0, 2], 41), None);
    assert_eq!(Length::L4.ordered_position(3, &[3, 0, 2], 4), Some(1));
    assert_eq!(Length::L4.ordered_position(3, &[3, 0, 2], 2), None);
    assert_eq!(Length::L4.ordered_position(3, &[3, 0, 2], 44), None);
    assert_eq!(Length::L2.ordered_position(0, &[], 2), Some(43));
}

#[test]
fn first_concepts_of_four() {
    let script = Script::UywiChiffre;
    let first = Concept::from_index(0, Length::L4).expect("first concept");
    assert_eq!(first.index(), 0);
    assert_eq!(first.length(), Length::L4);
    assert_eq!(first.radicals().as_slice(), &[0, 1, 2, 3]);
    assert_eq!(first.to_string(script), "?Ywh");

    let second = Concept::from_index(1, Length::L4).expect("second concept");
    assert_eq!(second.index(), 1);
    assert_eq!(second.radicals().as_slice(), &[0, 4, 2, 3]);
    assert_eq!(second.to_string(script), "?2wh");

    let last = Concept::from_index(Length::L4.num_of_concepts() - 1, Length::L4).expect("last");
    assert_eq!(last.radicals().as_slice(), &[43, 0, 1, 2]);
    assert_eq!(last.to_string(script), "l?Yw");
}

#[test]
fn concepts_of_two_and_three() {
    let script = Script::UywiChiffre;
    let expected2 = [(0usize, "?h"), (1, "Yh"), (2, "wh"), (43, "?2"), (44, "Y2"), (1000, "4T"), (1891, "lw")];
    for (index, text) in expected2 {
        let concept = Concept::from_index(index, Length::L2).expect("concept");
        assert_eq!(concept.to_string(script), text);
        assert_eq!(concept.index(), index);
    }
    let expected3 = [(0usize, "?Yh"), (1, "?wh"), (2, "?2h"), (43, "Y2h"), (44, "YHh"), (1000, "Dnh"), (79463, "l?w")];
    for (index, text) in expected3 {
        let concept = Concept::from_index(index, Length::L3).expect("concept");
        assert_eq!(concept.to_string(script), text);
        assert_eq!(concept.index(), index);
    }
}

#[test]
fn slots_are_distinct_and_padded() {
    for length in LENGTHS {
        let last = length.num_of_concepts() - 1;
        for index in [0, 1, 42, 43, 1805, 1806, last / 2, last] {
            let concept = Concept::from_index(index, length).expect("concept");
            let radicals = concept.radicals();
            assert_eq!(radicals.len(), length.as_int());
            for first in 0..radicals.len() {
                assert!(radicals[first] < 44);
                for second in 0..first {
                    assert_ne!(radicals[first], radicals[second]);
                }
            }
        }
    }
}

#[test]
fn index_out_of_range_is_rejected() {
    for length in LENGTHS {
        assert_eq!(
            Concept::from_index(length.num_of_concepts(), length),
            Err(Error::ConceptIndexInvalid)
        );
        assert_eq!(Concept::from_index(usize::MAX, length), Err(Error::ConceptIndexInvalid));
        assert!(Concept::from_index(length.num_of_concepts() - 1, length).is_ok());
    }
}

#[test]
fn index_strings() {
    for length in LENGTHS {
        assert_eq!(Concept::from_index_str("0", length), Err(Error::ConceptStringNull));
        assert_eq!(Concept::from_index_str("+0", length), Err(Error::ConceptStringNull));
        assert_eq!(Concept::from_index_str("000", length), Err(Error::ConceptStringNull));
        for text in ["", "+", "-1", "1.0", " 1", "1 ", "a", "1_000", "١", "99999999999999999999999999"] {
            assert_eq!(Concept::from_index_str(text, length), Err(Error::ConceptStringInvalid));
        }
        assert_eq!(
            Concept::from_index_str("1", length),
            Ok(Concept::from_index(0, length).expect("concept"))
        );
        assert_eq!(
            Concept::from_index_str("+007", length),
            Ok(Concept::from_index(6, length).expect("concept"))
        );
        let count = length.num_of_concepts();
        assert_eq!(
            Concept::from_index_str(&count.to_string(), length),
            Ok(Concept::from_index(count - 1, length).expect("concept"))
        );
        assert_eq!(
            Concept::from_index_str(&(count + 1).to_string(), length),
            Err(Error::ConceptIndexInvalid)
        );
    }
}

#[test]
fn index_string_round_trip() {
    for length in LENGTHS {
        let last = length.num_of_concepts() - 1;
        for index in [0, 8, 9, 10, 99, 100, 1891, last] {
            let concept = Concept::from_index(index, length).expect("concept");
            let text = concept.index_as_string();
            assert_eq!(text, (index + 1).to_string());
            assert_eq!(text.parse::<usize>(), Ok(concept.index() + 1));
            assert_eq!(Concept::from_index_str(&text, length), Ok(concept));
        }
    }
}

#[test]
fn pages_from_index_and_string() {
    for length in LENGTHS {
        let pages = length.num_of_pages();
        assert_eq!(Page::from_index(pages, length), Err(Error::PageIndexInvalid));
        let page = Page::from_index(pages - 1, length).expect("page");
        assert_eq!(page.index(), pages - 1);
        assert_eq!(page.length(), length);
        assert_eq!(page.to_string(), pages.to_string());
        assert_eq!(Page::from_str(&pages.to_string(), length), Ok(page));
        assert_eq!(Page::from_str("1", length), Page::from_index(0, length));
        assert_eq!(Page::from_str("0", length), Err(Error::PageStringNull));
        assert_eq!(Page::from_str("", length), Err(Error::PageStringInvalid));
        assert_eq!(Page::from_str("one", length), Err(Error::PageStringInvalid));
        assert_eq!(Page::from_str(&(pages + 1).to_string(), length), Err(Error::PageIndexInvalid));
    }
}

#[test]
fn second_page_starts_behind_the_first() {
    let page = Page::from_index(1, Length::L4).expect("page");
    let mut rows = page.rows();
    let mut row = rows.next().expect("row");
    assert_eq!(row.index(), 0);
    let concept = row.next().expect("concept");
    assert_eq!(concept.index(), 42 * 41);
    assert_eq!(concept.index(), Length::L4.concepts_per_page());
    assert_eq!(concept.page(), page);
}

#[test]
fn pages_rows_and_concepts_are_counted() {
    for length in LENGTHS {
        let mut pages = Pages::new(length);
        let mut page_count = 0;
        let mut next_index = 0;
        while let Some(page) = pages.next() {
            assert_eq!(page.index(), page_count);
            page_count += 1;
            if page.index() > 2 && page.index() + 2 < length.num_of_pages() {
                next_index += length.concepts_per_page();
                continue;
            }
            let mut rows = page.rows();
            let mut row_count = 0;
            let mut in_page = 0;
            while let Some(mut row) = rows.next() {
                assert_eq!(row.index(), row_count);
                row_count += 1;
                let mut in_row = 0;
                while let Some(concept) = row.next() {
                    assert_eq!(concept.index(), next_index);
                    assert_eq!(concept.page().index(), concept.index() / length.concepts_per_page());
                    assert_eq!(concept.page(), page);
                    next_index += 1;
                    in_row += 1;
                }
                assert!(row.next().is_none());
                assert_eq!(in_row, length.concepts_per_row());
                in_page += in_row;
            }
            assert!(rows.next().is_none());
            assert_eq!(row_count, length.rows_per_page());
            assert_eq!(in_page, length.concepts_per_page());
        }
        assert!(pages.next().is_none());
        assert_eq!(page_count, length.num_of_pages());
        assert_eq!(next_index, length.num_of_concepts());
    }
}

#[test]
fn error_messages() {
    assert_eq!(Error::LengthInvalid.to_string(), "Length is invalid.");
    assert_eq!(Error::PageIndexInvalid.message(), "Index of page is invalid.");
    assert_eq!(Error::PageStringInvalid.message(), "String of page is invalid.");
    assert_eq!(Error::PageStringNull.message(), "String of page is 0.");
    assert_eq!(Error::ConceptIndexInvalid.message(), "Index of concept is invalid.");
    assert_eq!(Error::ConceptStringInvalid.message(), "String of concept is invalid.");
    assert_eq!(Error::ConceptStringNull.message(), "String of concept is 0.");
    assert_eq!(
        Error::ConceptRadicalDuplicate.message(),
        "Duplicate letters in a concept are invalid."
    );
    assert_eq!(Error::ConceptRadicalInvalid.message(), "Concept contains invalid letters.");
    assert_eq!(Error::WordLengthInvalid.message(), "Length of word is invalid.");
    assert_eq!(Error::WordInvalid.message(), "Word is invalid.");
}
