//! UYWI pages.

use crate::decimal::{parse, spec_decimal, spec_parse, to_decimal};
use crate::row::Rows;
use crate::{Error, Length};
use crate::util::PAdd;
use vstd::prelude::*;

verus! {

/// All pages, only used for iteration.
#[derive(Debug)]
pub struct Pages {
    /// Concept length.
    length: Length,
    /// Current page index, saved for iteration.
    page_index: usize,
}

impl Pages {
    /// Concept length.
    pub closed spec fn spec_length(self) -> Length {
        self.length
    }

    /// Index of the page that comes next.
    pub closed spec fn spec_page_index(self) -> usize {
        self.page_index
    }

    /// Number of pages that are still to come.
    pub open spec fn spec_remaining(self) -> nat {
        if self.spec_page_index() < self.spec_length().spec_num_of_pages() {
            (self.spec_length().spec_num_of_pages() - self.spec_page_index()) as nat
        } else {
            0
        }
    }

    /// Build [`Pages`] from [`Length`].
    pub fn new(length: Length) -> (pages: Self)
        ensures
            pages.spec_length() == length,
            pages.spec_page_index() == 0,
            pages.spec_remaining() == length.spec_num_of_pages(),
    {
        Self { length, page_index: 0 }
    }

    /// The next page, or nothing behind the last page.
    pub fn next(&mut self) -> (page: Option<Page>)
        ensures
            final(self).spec_length() == old(self).spec_length(),
            old(self).spec_remaining() > 0 ==> page is Some,
            old(self).spec_remaining() == 0 ==> page is None,
            page is Some ==> page->0.valid(),
            page is Some ==> page->0.spec_index() == old(self).spec_page_index(),
            page is Some ==> page->0.spec_length() == old(self).spec_length(),
            page is Some ==> final(self).spec_page_index() == old(self).spec_page_index() + 1,
            page is None ==> final(self).spec_page_index() == old(self).spec_page_index(),
    {
        if self.page_index < self.length.num_of_pages() {
            let page = Page { index: self.page_index, length: self.length };
            self.page_index = self.page_index.padd(1);
            Some(page)
        } else {
            None
        }
    }
}

/// The index of the page of a result with a page.
pub open spec fn page_result(result: Result<Page, Error>) -> Result<usize, Error> {
    match result {
        Ok(page) => Ok(page.spec_index()),
        Err(error) => Err(error),
    }
}

/// A page, used for type checking.
#[derive(Clone, Copy, Debug, PartialEq, Eq, Structural)]
pub struct Page {
    /// Page index.
    index: usize,
    /// Concept length.
    length: Length,
}

impl Page {
    /// The index of a page is below the number of pages.
    #[verifier::type_invariant]
    pub closed spec fn valid(self) -> bool {
        self.index < self.length.spec_num_of_pages()
    }

    /// Page index.
    pub closed spec fn spec_index(self) -> usize {
        self.index
    }

    /// Concept length.
    pub closed spec fn spec_length(self) -> Length {
        self.length
    }

    /// The index of the page of `length` with the index `index`, which must be
    /// below the number of pages of that length.
    pub open spec fn spec_from_index(index: nat, length: Length) -> Result<usize, Error> {
        if index < length.spec_num_of_pages() {
            Ok(index as usize)
        } else {
            Err(Error::PageIndexInvalid)
        }
    }

    /// The index of the page of `length` whose number a text holds: the text holds
    /// one more than the index of the page.
    pub open spec fn spec_from_str(text: Seq<char>, length: Length) -> Result<usize, Error> {
        match spec_parse(text) {
            None => Err(Error::PageStringInvalid),
            Some(number) => if number == 0 {
                Err(Error::PageStringNull)
            } else {
                Page::spec_from_index((number - 1) as nat, length)
            },
        }
    }

    /// The page as a number in a string: one more than its index.
    pub open spec fn spec_to_string(self) -> Seq<char> {
        spec_decimal((self.spec_index() + 1) as nat)
    }

    /// Pages of one length with the same index are the same page.
    pub proof fn lemma_same(self, other: Self)
        requires
            self.spec_index() == other.spec_index(),
            self.spec_length() == other.spec_length(),
        ensures
            self == other,
    {
    }

    /// Build [`Page`] from page index.
    /// # Errors
    /// [`Error::PageIndexInvalid`] if `index` is not below the number of pages of
    /// the given [`Length`].
    pub fn from_index(index: usize, length: Length) -> (result: Result<Self, Error>)
        ensures
            page_result(result) == Page::spec_from_index(index as nat, length),
            result matches Ok(page) ==> page.valid() && page.spec_length() == length,
    {
        if index >= length.num_of_pages() {
            return Err(Error::PageIndexInvalid);
        }
        Ok(Self { index, length })
    }

    /// Build [`Page`] from page string, which holds one more than the index.
    /// # Errors
    /// [`Error::PageStringInvalid`] if `index` is no number,
    /// [`Error::PageStringNull`] if it is 0, [`Error::PageIndexInvalid`] if it is
    /// above the number of pages of the given [`Length`].
    pub fn from_str(index: &str, length: Length) -> (result: Result<Self, Error>)
        ensures
            page_result(result) == Page::spec_from_str(index@, length),
            result matches Ok(page) ==> page.valid() && page.spec_length() == length,
    {
        match parse(index) {
            None => Err(Error::PageStringInvalid),
            Some(number) => {
                if number == 0 {
                    Err(Error::PageStringNull)
                } else {
                    Self::from_index(number - 1, length)
                }
            },
        }
    }

    /// Get index.
    #[verifier::when_used_as_spec(spec_index)]
    pub fn index(self) -> (index: usize)
        ensures
            index == self.spec_index(),
            index < self.spec_length().spec_num_of_pages(),
    {
        proof {
            use_type_invariant(&self);
        }
        self.index
    }

    /// Get length.
    #[verifier::when_used_as_spec(spec_length)]
    pub fn length(self) -> (length: Length)
        ensures
            length == self.spec_length(),
    {
        self.length
    }

    /// The rows of the page.
    pub fn rows(self) -> (rows: Rows)
        ensures
            rows.spec_length() == self.spec_length(),
            rows.spec_start() == self.spec_index() * self.spec_length().spec_concepts_per_page(),
            rows.spec_row_index() == 0,
            rows.valid(),
    {
        Rows::new(self)
    }

    /// The page as a number in a string: one more than its index.
    pub fn to_string(self) -> (string: String)
        ensures
            string@ == self.spec_to_string(),
    {
        to_decimal(self.index() + 1)
    }
}

impl Clone for Pages {
    fn clone(&self) -> (pages: Self)
        ensures
            pages == *self,
    {
        Self { length: self.length, page_index: self.page_index }
    }
}

} // verus!
