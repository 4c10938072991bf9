//! UYWI words.

use crate::concept::ConceptView;
use crate::Concept;
use crate::util::PAdd;
use vstd::prelude::*;

verus! {

/// What a word is: its concept, the index of its stem and the index of its form.
pub struct WordView {
    /// The concept of the word.
    pub concept: ConceptView,
    /// Stem index.
    pub stem_index: u8,
    /// Form index.
    pub form_index: u8,
}

impl WordView {
    /// Whether the concept is valid and has such a stem and such a form.
    pub open spec fn valid(self) -> bool {
        &&& self.concept.valid()
        &&& self.stem_index < self.concept.length.spec_stems_per_concept()
        &&& self.form_index < self.concept.length.spec_forms_per_stem()
    }
}

/// Words, only used for iteration.
#[derive(Debug)]
pub struct Words {
    /// [`Concept`] to build [`Word`] from.
    concept: Concept,
    /// Stem index.
    stem_index: u8,
    /// Current word index, saved for iteration.
    form_index: u8,
}

impl Words {
    /// The stem is one of the concept; no more forms are handed out than a stem has.
    #[verifier::type_invariant]
    pub closed spec fn valid(self) -> bool {
        &&& self.concept.valid()
        &&& self.stem_index < self.concept.spec_length().spec_stems_per_concept()
        &&& self.form_index <= self.concept.spec_length().spec_forms_per_stem()
    }

    /// The concept of the words.
    pub closed spec fn spec_concept(self) -> Concept {
        self.concept
    }

    /// Stem index of the words.
    pub closed spec fn spec_stem_index(self) -> u8 {
        self.stem_index
    }

    /// Form index of the word that comes next.
    pub closed spec fn spec_form_index(self) -> u8 {
        self.form_index
    }

    /// Number of words that are still to come.
    pub open spec fn spec_remaining(self) -> nat {
        if self.spec_form_index() < self.spec_concept().spec_length().spec_forms_per_stem() {
            (self.spec_concept().spec_length().spec_forms_per_stem() - self.spec_form_index()) as nat
        } else {
            0
        }
    }

    /// Build new [`Words`].
    pub(crate) fn new(concept: Concept, stem_index: u8) -> (words: Self)
        requires
            concept.valid(),
            stem_index < concept.spec_length().spec_stems_per_concept(),
        ensures
            words.valid(),
            words.spec_concept() == concept,
            words.spec_stem_index() == stem_index,
            words.spec_form_index() == 0,
    {
        Self { concept, stem_index, form_index: 0 }
    }

    /// The next word, or nothing behind the last form.
    pub fn next(&mut self) -> (word: Option<Word>)
        ensures
            final(self).spec_concept() == old(self).spec_concept(),
            final(self).spec_stem_index() == old(self).spec_stem_index(),
            old(self).spec_remaining() > 0 ==> word is Some,
            old(self).spec_remaining() == 0 ==> word is None,
            word is Some ==> word->0.valid(),
            word is Some ==> word->0.spec_concept() == old(self).spec_concept(),
            word is Some ==> word->0.spec_stem_index() == old(self).spec_stem_index(),
            word is Some ==> word->0.spec_form_index() == old(self).spec_form_index(),
            word is Some ==> final(self).spec_form_index() == old(self).spec_form_index() + 1,
            word is None ==> final(self).spec_form_index() == old(self).spec_form_index(),
    {
        proof {
            use_type_invariant(&*self);
        }
        if (self.form_index as usize) < self.concept.length().words_per_stem() {
            let word = Word::new(self.concept, self.stem_index, self.form_index);
            self.form_index = self.form_index.padd(1);
            Some(word)
        } else {
            None
        }
    }
}

impl Clone for Words {
    fn clone(&self) -> (words: Self)
        ensures
            words == *self,
    {
        proof {
            use_type_invariant(self);
        }
        Self { concept: self.concept, stem_index: self.stem_index, form_index: self.form_index }
    }
}

/// A word.
#[derive(Clone, Copy, Debug, PartialEq, Eq)]
pub struct Word {
    /// [`Concept`] to build from.
    concept: Concept,
    /// Stem configuration.
    stem_index: u8,
    /// Represents which form index this word is.
    form_index: u8,
}

impl View for Word {
    type V = WordView;

    open spec fn view(&self) -> WordView {
        WordView {
            concept: self.spec_concept()@,
            stem_index: self.spec_stem_index(),
            form_index: self.spec_form_index(),
        }
    }
}

impl Word {
    /// The concept is valid and has such a stem and such a form.
    #[verifier::type_invariant]
    pub closed spec fn valid(self) -> bool {
        &&& self.concept.valid()
        &&& self.stem_index < self.concept.spec_length().spec_stems_per_concept()
        &&& self.form_index < self.concept.spec_length().spec_forms_per_stem()
    }

    /// The concept of the word.
    pub closed spec fn spec_concept(self) -> Concept {
        self.concept
    }

    /// Stem index.
    pub closed spec fn spec_stem_index(self) -> u8 {
        self.stem_index
    }

    /// Form index.
    pub closed spec fn spec_form_index(self) -> u8 {
        self.form_index
    }

    /// A valid word is valid as what it is.
    pub proof fn lemma_valid(self)
        requires
            self.valid(),
        ensures
            self@.valid(),
            self.spec_concept().valid(),
    {
        self.concept.lemma_valid();
    }

    /// Words that are the same in concept, stem and form are the same word.
    pub proof fn lemma_same(self, other: Self)
        requires
            self@ == other@,
        ensures
            self == other,
    {
        self.concept.lemma_same(other.concept);
    }

    /// Build new [`Word`].
    pub(crate) fn new(concept: Concept, stem_index: u8, form_index: u8) -> (word: Self)
        requires
            concept.valid(),
            stem_index < concept.spec_length().spec_stems_per_concept(),
            form_index < concept.spec_length().spec_forms_per_stem(),
        ensures
            word.valid(),
            word.spec_concept() == concept,
            word.spec_stem_index() == stem_index,
            word.spec_form_index() == form_index,
    {
        Self { concept, stem_index, form_index }
    }

    /// Get [`Concept`].
    #[verifier::when_used_as_spec(spec_concept)]
    pub fn concept(self) -> (concept: Concept)
        ensures
            concept == self.spec_concept(),
            concept.valid(),
    {
        proof {
            use_type_invariant(&self);
        }
        self.concept
    }

    /// Get stem index.
    #[verifier::when_used_as_spec(spec_stem_index)]
    pub fn stem_index(self) -> (stem_index: u8)
        ensures
            stem_index == self.spec_stem_index(),
            stem_index < self.spec_concept().spec_length().spec_stems_per_concept(),
    {
        proof {
            use_type_invariant(&self);
        }
        self.stem_index
    }

    /// Get form index.
    #[verifier::when_used_as_spec(spec_form_index)]
    pub fn form_index(self) -> (form_index: u8)
        ensures
            form_index == self.spec_form_index(),
            form_index < self.spec_concept().spec_length().spec_forms_per_stem(),
    {
        proof {
            use_type_invariant(&self);
        }
        self.form_index
    }
}

} // verus!
