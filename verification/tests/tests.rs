use rayon::iter::{IntoParallelIterator, ParallelIterator};
use uywi::{Concept, Length, Page, Pages, Row, Script};

fn pages_of(length: Length) -> Vec<Page> {
    let mut pages = Pages::new(length);
    let mut all = Vec::new();

    while let Some(page) = pages.next() {
        all.push(page);
    }

    all
}

fn rows_of(page: Page) -> Vec<Row> {
    let mut rows = page.rows();
    let mut all = Vec::new();

    while let Some(row) = rows.next() {
        all.push(row);
    }

    all
}

#[test]
fn touch_all() {
    let script = Script::UywiChiffre;

    vec![Length::L2, Length::L3, Length::L4].into_par_iter().for_each(|length| {
        pages_of(length).into_par_iter().for_each(|page| {
            rows_of(page).into_par_iter().for_each(|mut row| {
                let mut index =
                    page.index() * length.concepts_per_page() + row.index() * length.concepts_per_row();

                while let Some(concept) = row.next() {
                    assert!(index == concept.index(), "concept index is wrong");
                    assert!(
                        concept
                            == Concept::from_index(concept.index(), length)
                                .expect("failed to create concept"),
                        "concept index is wrong"
                    );
                    assert!(
                        concept
                            == script
                                .from_concept(&concept.to_string(script))
                                .expect("failed to create concept"),
                        "concept index is wrong"
                    );

                    let mut stems = concept.stems();

                    while let Some(stem) = stems.next() {
                        let mut words = stem.words();

                        while let Some(form) = words.next() {
                            let _word = form.to_string(script);
                        }
                    }

                    index += 1;
                }
            });
        });
    });
}
