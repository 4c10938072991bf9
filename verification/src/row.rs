//! UYWI rows.

use crate::concept::ConceptView;
use crate::page::Page;
use crate::{Concept, Length};
use crate::util::PAdd;
use vstd::prelude::*;

verus! {

/// Rows of a page, only used for iteration.
#[derive(Debug)]
pub struct Rows {
    /// Concept index to start at.
    start_concept_index: usize,
    /// Concept length.
    length: Length,
    /// Current row index, saved for iteration.
    row_index: usize,
}

impl Rows {
    /// The rows start at a page, and the whole page lies within the concepts.
    #[verifier::type_invariant]
    pub closed spec fn valid(self) -> bool {
        self.start_concept_index + self.length.spec_concepts_per_page()
            <= self.length.spec_num_of_concepts()
    }

    /// Concept length.
    pub closed spec fn spec_length(self) -> Length {
        self.length
    }

    /// Index of the first concept of the page.
    pub closed spec fn spec_start(self) -> usize {
        self.start_concept_index
    }

    /// Index of the row that comes next.
    pub closed spec fn spec_row_index(self) -> usize {
        self.row_index
    }

    /// Number of rows that are still to come.
    pub open spec fn spec_remaining(self) -> nat {
        if self.spec_row_index() < self.spec_length().spec_rows_per_page() {
            (self.spec_length().spec_rows_per_page() - self.spec_row_index()) as nat
        } else {
            0
        }
    }

    /// Build [`Rows`] from [`Page`].
    pub(crate) fn new(page: Page) -> (rows: Self)
        ensures
            rows.spec_length() == page.spec_length(),
            rows.spec_start() == page.spec_index() * page.spec_length().spec_concepts_per_page(),
            rows.spec_row_index() == 0,
            rows.valid(),
    {
        let length = page.length();
        let index: usize = page.index();
        let per_page: usize = length.concepts_per_page();
        proof {
            length.lemma_counts();
            assert(index * per_page + per_page <= length.spec_num_of_pages() * per_page)
                by (nonlinear_arith)
                requires
                    index < length.spec_num_of_pages(),
            ;
        }
        Self { length, start_concept_index: index * per_page, row_index: 0 }
    }

    /// The next row, or nothing behind the last row.
    pub fn next(&mut self) -> (row: Option<Row>)
        ensures
            final(self).spec_length() == old(self).spec_length(),
            final(self).spec_start() == old(self).spec_start(),
            old(self).spec_remaining() > 0 ==> row is Some,
            old(self).spec_remaining() == 0 ==> row is None,
            row is Some ==> row->0.valid(),
            row is Some ==> row->0.spec_index() == old(self).spec_row_index(),
            row is Some ==> row->0.spec_length() == old(self).spec_length(),
            row is Some ==> row->0.spec_start() == old(self).spec_start() + old(self).spec_row_index()
                * old(self).spec_length().spec_concepts_per_row(),
            row is Some ==> row->0.spec_place() == 0,
            row is Some ==> final(self).spec_row_index() == old(self).spec_row_index() + 1,
            row is None ==> final(self).spec_row_index() == old(self).spec_row_index(),
    {
        proof {
            use_type_invariant(&*self);
        }
        if self.row_index < self.length.rows_per_page() {
            let row = Row::new(self.row_index, self.start_concept_index, self.length);
            self.row_index = self.row_index.padd(1);
            Some(row)
        } else {
            None
        }
    }
}

/// A page row, only used for iteration.
#[derive(Debug)]
pub struct Row {
    /// Row index.
    index: usize,
    /// Concept index to start at.
    start_concept_index: usize,
    /// Concept length.
    length: Length,
    /// Current iteration, added to `start_concept_index` to get current [`Concept`].
    iter: usize,
}

impl Row {
    /// The row is one of its page, and lies within the concepts.
    #[verifier::type_invariant]
    pub closed spec fn valid(self) -> bool {
        &&& self.index < self.length.spec_rows_per_page()
        &&& self.start_concept_index + self.length.spec_concepts_per_row()
            <= self.length.spec_num_of_concepts()
    }

    /// Row index.
    pub closed spec fn spec_index(self) -> usize {
        self.index
    }

    /// Concept length.
    pub closed spec fn spec_length(self) -> Length {
        self.length
    }

    /// Index of the first concept of the row.
    pub closed spec fn spec_start(self) -> usize {
        self.start_concept_index
    }

    /// Place in the row of the concept that comes next.
    pub closed spec fn spec_place(self) -> usize {
        self.iter
    }

    /// Number of concepts that are still to come.
    pub open spec fn spec_remaining(self) -> nat {
        if self.spec_place() < self.spec_length().spec_concepts_per_row() {
            (self.spec_length().spec_concepts_per_row() - self.spec_place()) as nat
        } else {
            0
        }
    }

    /// Build [`Row`] from the first concept index of its page and row index.
    pub(crate) fn new(index: usize, start_concept_index: usize, length: Length) -> (row: Self)
        requires
            index < length.spec_rows_per_page(),
            start_concept_index + length.spec_concepts_per_page() <= length.spec_num_of_concepts(),
        ensures
            row.valid(),
            row.spec_index() == index,
            row.spec_length() == length,
            row.spec_start() == start_concept_index + index * length.spec_concepts_per_row(),
            row.spec_place() == 0,
    {
        let per_row: usize = length.concepts_per_row();
        proof {
            length.lemma_counts();
            assert(index * per_row + per_row <= length.spec_rows_per_page() * per_row)
                by (nonlinear_arith)
                requires
                    index < length.spec_rows_per_page(),
            ;
        }
        Self { index, length, start_concept_index: start_concept_index + index * per_row, iter: 0 }
    }

    /// Get index.
    pub fn index(&self) -> (index: usize)
        ensures
            index == self.spec_index(),
            index < self.spec_length().spec_rows_per_page(),
    {
        proof {
            use_type_invariant(self);
        }
        self.index
    }

    /// The next concept, or nothing behind the last concept of the row.
    pub fn next(&mut self) -> (concept: Option<Concept>)
        ensures
            final(self).spec_length() == old(self).spec_length(),
            final(self).spec_start() == old(self).spec_start(),
            final(self).spec_index() == old(self).spec_index(),
            old(self).spec_remaining() > 0 ==> concept is Some,
            old(self).spec_remaining() == 0 ==> concept is None,
            concept is Some ==> concept->0.valid(),
            concept is Some ==> concept->0@ == ConceptView::numbered(
                old(self).spec_length(),
                (old(self).spec_start() + old(self).spec_place()) as nat,
            ),
            concept is Some ==> concept->0@.index() == old(self).spec_start() + old(self).spec_place(),
            concept is Some ==> final(self).spec_place() == old(self).spec_place() + 1,
            concept is None ==> final(self).spec_place() == old(self).spec_place(),
    {
        proof {
            use_type_invariant(&*self);
        }
        if self.iter < self.length.concepts_per_row() {
            let concept = Concept::from_index(self.start_concept_index.padd(self.iter), self.length);
            self.iter = self.iter.padd(1);
            Some(concept.unwrap())
        } else {
            None
        }
    }
}

impl Clone for Rows {
    fn clone(&self) -> (rows: Self)
        ensures
            rows == *self,
    {
        proof {
            use_type_invariant(self);
        }
        Self {
            start_concept_index: self.start_concept_index,
            length: self.length,
            row_index: self.row_index,
        }
    }
}

impl Clone for Row {
    fn clone(&self) -> (row: Self)
        ensures
            row == *self,
    {
        proof {
            use_type_invariant(self);
        }
        Self {
            index: self.index,
            start_concept_index: self.start_concept_index,
            length: self.length,
            iter: self.iter,
        }
    }
}

/// The index of the concept that stands at `place` in the row `row` of the page
/// `page`.
pub open spec fn spec_concept_index(length: Length, page: nat, row: nat, place: nat) -> nat {
    (page * length.spec_concepts_per_page() + row * length.spec_concepts_per_row() + place) as nat
}

/// Whether a page has such a row with such a place.
pub open spec fn spec_on_pages(length: Length, page: nat, row: nat, place: nat) -> bool {
    &&& page < length.spec_num_of_pages()
    &&& row < length.spec_rows_per_page()
    &&& place < length.spec_concepts_per_row()
}

/// Every concept stands on a page: its index is the index of one place of one row
/// of one page.
pub proof fn lemma_pages_hold_all(length: Length, index: nat)
    requires
        index < length.spec_num_of_concepts(),
    ensures
        spec_on_pages(
            length,
            index / (length.spec_concepts_per_page() as nat),
            (index % (length.spec_concepts_per_page() as nat)) / (
            length.spec_concepts_per_row() as nat),
            index % (length.spec_concepts_per_row() as nat),
        ),
        spec_concept_index(
            length,
            index / (length.spec_concepts_per_page() as nat),
            (index % (length.spec_concepts_per_page() as nat)) / (
            length.spec_concepts_per_row() as nat),
            index % (length.spec_concepts_per_row() as nat),
        ) == index,
{
}

/// Every place on the pages holds one concept, and no other place holds the
/// same: the index of a place is below the number of concepts, and gives the
/// page, the row and the place back.
pub proof fn lemma_places_differ(length: Length, page: nat, row: nat, place: nat)
    requires
        spec_on_pages(length, page, row, place),
    ensures
        spec_concept_index(length, page, row, place) < length.spec_num_of_concepts(),
        spec_concept_index(length, page, row, place) / (length.spec_concepts_per_page() as nat)
            == page,
        (spec_concept_index(length, page, row, place) % (length.spec_concepts_per_page() as nat)) / (
        length.spec_concepts_per_row() as nat) == row,
        spec_concept_index(length, page, row, place) % (length.spec_concepts_per_row() as nat)
            == place,
{
    let per_page = length.spec_concepts_per_page() as int;
    let per_row = length.spec_concepts_per_row() as int;
    let in_page = row * per_row + place;
    assert(0 <= in_page < per_page) by (nonlinear_arith)
        requires
            0 <= row < length.spec_rows_per_page(),
            0 <= place < per_row,
            per_page == length.spec_rows_per_page() * per_row,
            in_page == row * per_row + place,
    {
    }
    let index = spec_concept_index(length, page, row, place) as int;
    assert(index == page * per_page + in_page);
    vstd::arithmetic::div_mod::lemma_fundamental_div_mod_converse(
        index,
        per_page,
        page as int,
        in_page,
    );
    vstd::arithmetic::div_mod::lemma_fundamental_div_mod_converse(
        in_page,
        per_row,
        row as int,
        place as int,
    );
    assert(index < length.spec_num_of_concepts()) by (nonlinear_arith)
        requires
            index == page * per_page + in_page,
            0 <= in_page < per_page,
            0 <= page < length.spec_num_of_pages(),
            length.spec_num_of_concepts() == length.spec_num_of_pages() * per_page,
    {
    }
    assert(index % per_row == place) by {
        assert(per_page == length.spec_rows_per_page() * per_row);
        assert(index == (page * length.spec_rows_per_page() + row) * per_row + place)
            by (nonlinear_arith)
            requires
                index == page * per_page + row * per_row + place,
                per_page == length.spec_rows_per_page() * per_row,
        {
        }
        vstd::arithmetic::div_mod::lemma_fundamental_div_mod_converse(
            index,
            per_row,
            page * length.spec_rows_per_page() + row,
            place as int,
        );
    }
}

/// The places come in rising order: the next place of a row, the first place of
/// the next row and the first place of the next page each hold the concept with
/// the next index.
pub proof fn lemma_places_rise(length: Length, page: nat, row: nat, place: nat)
    requires
        spec_on_pages(length, page, row, place),
    ensures
        spec_concept_index(length, 0, 0, 0) == 0,
        place + 1 < length.spec_concepts_per_row() ==> spec_concept_index(
            length,
            page,
            row,
            place + 1,
        ) == spec_concept_index(length, page, row, place) + 1,
        place + 1 == length.spec_concepts_per_row() && row + 1 < length.spec_rows_per_page()
            ==> spec_concept_index(length, page, row + 1, 0) == spec_concept_index(
            length,
            page,
            row,
            place,
        ) + 1,
        place + 1 == length.spec_concepts_per_row() && row + 1 == length.spec_rows_per_page()
            ==> spec_concept_index(length, page + 1, 0, 0) == spec_concept_index(
            length,
            page,
            row,
            place,
        ) + 1,
        place + 1 == length.spec_concepts_per_row() && row + 1 == length.spec_rows_per_page()
            && page + 1 == length.spec_num_of_pages() ==> spec_concept_index(
            length,
            page,
            row,
            place,
        ) + 1 == length.spec_num_of_concepts(),
{
    length.lemma_counts();
    let per_page = length.spec_concepts_per_page() as int;
    let per_row = length.spec_concepts_per_row() as int;
    assert((row + 1) * per_row == row * per_row + per_row) by (nonlinear_arith);
    assert((page + 1) * per_page == page * per_page + per_page) by (nonlinear_arith);
}

} // verus!
