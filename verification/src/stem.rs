//! UYWI stems.

use crate::word::Words;
use crate::Concept;
use crate::util::PAdd;
use vstd::prelude::*;

verus! {

/// Stems, only used for iteration.
#[derive(Debug)]
pub struct Stems {
    /// [`Concept`] to build [`Stem`] from.
    concept: Concept,
    /// Current stem index, saved for iteration.
    stem_index: u8,
}

impl Stems {
    /// No more stems are handed out than the concept has.
    #[verifier::type_invariant]
    pub closed spec fn valid(self) -> bool {
        &&& self.concept.valid()
        &&& self.stem_index <= self.concept.spec_length().spec_stems_per_concept()
    }

    /// The concept of the stems.
    pub closed spec fn spec_concept(self) -> Concept {
        self.concept
    }

    /// Index of the stem that comes next.
    pub closed spec fn spec_stem_index(self) -> u8 {
        self.stem_index
    }

    /// Number of stems that are still to come.
    pub open spec fn spec_remaining(self) -> nat {
        if self.spec_stem_index() < self.spec_concept().spec_length().spec_stems_per_concept() {
            (self.spec_concept().spec_length().spec_stems_per_concept() - self.spec_stem_index()) as nat
        } else {
            0
        }
    }

    /// Build new [`Stems`].
    pub(crate) fn new(concept: Concept) -> (stems: Self)
        requires
            concept.valid(),
        ensures
            stems.valid(),
            stems.spec_concept() == concept,
            stems.spec_stem_index() == 0,
    {
        Self { concept, stem_index: 0 }
    }

    /// The next stem, or nothing behind the last stem.
    pub fn next(&mut self) -> (stem: Option<Stem>)
        ensures
            final(self).spec_concept() == old(self).spec_concept(),
            old(self).spec_remaining() > 0 ==> stem is Some,
            old(self).spec_remaining() == 0 ==> stem is None,
            stem is Some ==> stem->0.valid(),
            stem is Some ==> stem->0.spec_concept() == old(self).spec_concept(),
            stem is Some ==> stem->0.spec_stem_index() == old(self).spec_stem_index(),
            stem is Some ==> final(self).spec_stem_index() == old(self).spec_stem_index() + 1,
            stem is None ==> final(self).spec_stem_index() == old(self).spec_stem_index(),
    {
        proof {
            use_type_invariant(&*self);
        }
        if (self.stem_index as usize) < self.concept.length().stems_per_concept() {
            let stem = Stem::new(self.concept, self.stem_index);
            self.stem_index = self.stem_index.padd(1);
            Some(stem)
        } else {
            None
        }
    }
}

impl Clone for Stems {
    fn clone(&self) -> (stems: Self)
        ensures
            stems == *self,
    {
        proof {
            use_type_invariant(self);
        }
        Self { concept: self.concept, stem_index: self.stem_index }
    }
}

/// A stem, only used for iteration.
#[derive(Clone, Copy, Debug)]
pub struct Stem {
    /// [`Concept`] to build from.
    concept: Concept,
    /// Stem index.
    stem_index: u8,
}

impl Stem {
    /// The stem is one of its concept.
    #[verifier::type_invariant]
    pub closed spec fn valid(self) -> bool {
        &&& self.concept.valid()
        &&& self.stem_index < self.concept.spec_length().spec_stems_per_concept()
    }

    /// The concept of the stem.
    pub closed spec fn spec_concept(self) -> Concept {
        self.concept
    }

    /// Stem index.
    pub closed spec fn spec_stem_index(self) -> u8 {
        self.stem_index
    }

    /// Build new [`Stem`].
    pub(crate) fn new(concept: Concept, index: u8) -> (stem: Self)
        requires
            concept.valid(),
            index < concept.spec_length().spec_stems_per_concept(),
        ensures
            stem.valid(),
            stem.spec_concept() == concept,
            stem.spec_stem_index() == index,
    {
        Self { concept, stem_index: index }
    }

    /// The words of the stem, one for each form.
    pub fn words(self) -> (words: Words)
        ensures
            words.valid(),
            words.spec_concept() == self.spec_concept(),
            words.spec_stem_index() == self.spec_stem_index(),
            words.spec_form_index() == 0,
    {
        proof {
            use_type_invariant(&self);
        }
        Words::new(self.concept, self.stem_index)
    }
}

} // verus!
