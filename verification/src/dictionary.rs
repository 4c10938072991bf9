//! The dictionary: what it shows, and how requests change what it shows.

use crate::concept::ConceptView;
use crate::script::uywi_chiffre::spec_from_concept;
use crate::{Concept, Error, Length, Page, Script};
use vstd::prelude::*;

verus! {

/// What the dictionary shows.
#[derive(Clone, Copy, Debug, PartialEq, Eq)]
pub enum Screen {
    /// A page of concepts.
    Page {
        /// The page.
        page: Page,
    },
    /// A page of concepts, with one of its concepts marked.
    Concept {
        /// The page of the concept.
        page: Page,
        /// The concept.
        concept: Concept,
    },
    /// The stems and words of a concept.
    Forms {
        /// The page of the concept.
        page: Page,
        /// The concept.
        concept: Concept,
    },
}

/// What the dictionary shows, as plain values.
pub enum Shown {
    /// The page with the given index.
    Page(usize),
    /// The page of a concept, with the concept marked.
    Concept(ConceptView),
    /// The stems and words of a concept.
    Forms(ConceptView),
}

/// What the dictionary is, as plain values.
pub struct StateView {
    /// The script in which concepts and words are shown.
    pub script: Script,
    /// The length of the concepts that are shown.
    pub length: Length,
    /// What is shown.
    pub shown: Shown,
}

/// A request to the dictionary.
#[derive(Debug)]
pub enum Event {
    /// Show concepts and words in another script.
    Script(Script),
    /// Show concepts of another length, given as a number.
    Length(usize),
    /// Show a page, given by its number.
    Page(String),
    /// Show a concept, given by its text.
    Concept(String),
    /// Say whether a text is a concept, and show nothing new.
    ConceptInput(String),
    /// Show a concept, given by its number.
    Index(String),
    /// Show the stems and words of a concept.
    OpenConcept(Concept),
}

/// What is to be done after a request.
#[derive(Clone, Copy, Debug, PartialEq, Eq, Structural)]
pub enum Answer {
    /// Show what the dictionary shows now.
    Show,
    /// Leave on the screen what is there.
    Skip,
    /// Leave on the screen what is there, and say why the input was refused.
    Refuse(Error),
}

/// Data the dictionary saves.
#[derive(Clone, Copy, Debug)]
pub struct State {
    /// The script in which concepts and words are shown.
    script: Script,
    /// The length of the concepts that are shown.
    length: Length,
    /// What is shown.
    screen: Screen,
}

/// What a request is, as plain values.
pub enum EventView {
    /// Show concepts and words in another script.
    Script(Script),
    /// Show concepts of another length, given as a number.
    Length(usize),
    /// Show a page, given by its number.
    Page(Seq<char>),
    /// Show a concept, given by its text.
    Concept(Seq<char>),
    /// Say whether a text is a concept, and show nothing new.
    ConceptInput(Seq<char>),
    /// Show a concept, given by its number.
    Index(Seq<char>),
    /// Show the stems and words of a concept.
    OpenConcept(ConceptView),
}

impl View for Event {
    type V = EventView;

    open spec fn view(&self) -> EventView {
        match *self {
            Event::Script(script) => EventView::Script(script),
            Event::Length(number) => EventView::Length(number),
            Event::Page(text) => EventView::Page(text@),
            Event::Concept(text) => EventView::Concept(text@),
            Event::ConceptInput(text) => EventView::ConceptInput(text@),
            Event::Index(text) => EventView::Index(text@),
            Event::OpenConcept(concept) => EventView::OpenConcept(concept@),
        }
    }
}

/// What the dictionary is after a request. A request that can be met changes
/// what is shown: another script keeps all else; another length shows its first
/// page; a page, a concept or the words of a concept are shown, and a concept
/// brings its length with it. A request that cannot be met changes nothing.
pub open spec fn spec_updated(state: StateView, event: EventView) -> StateView {
    match event {
        EventView::Script(script) => StateView { script, ..state },
        EventView::Length(number) => match Length::spec_new(number as nat) {
            Ok(length) => StateView { length, shown: Shown::Page(0), ..state },
            Err(_) => state,
        },
        EventView::Page(text) => match Page::spec_from_str(text, state.length) {
            Ok(index) => StateView { shown: Shown::Page(index), ..state },
            Err(_) => state,
        },
        EventView::Concept(text) => match spec_from_concept(text) {
            Ok(concept) => StateView {
                length: concept.length,
                shown: Shown::Concept(concept),
                ..state
            },
            Err(_) => state,
        },
        EventView::ConceptInput(_) => state,
        EventView::Index(text) => match ConceptView::from_index_str(text, state.length) {
            Ok(concept) => StateView { shown: Shown::Concept(concept), ..state },
            Err(_) => state,
        },
        EventView::OpenConcept(concept) => StateView {
            length: concept.length,
            shown: Shown::Forms(concept),
            ..state
        },
    }
}

/// What is to be done after a request: a request that can be met is shown; one
/// that cannot is refused with its error; a text that is only looked at is never
/// shown, and refused if it is no concept.
pub open spec fn spec_answer(state: StateView, event: EventView) -> Answer {
    match event {
        EventView::Script(_) => Answer::Show,
        EventView::Length(number) => match Length::spec_new(number as nat) {
            Ok(_) => Answer::Show,
            Err(error) => Answer::Refuse(error),
        },
        EventView::Page(text) => match Page::spec_from_str(text, state.length) {
            Ok(_) => Answer::Show,
            Err(error) => Answer::Refuse(error),
        },
        EventView::Concept(text) => match spec_from_concept(text) {
            Ok(_) => Answer::Show,
            Err(error) => Answer::Refuse(error),
        },
        EventView::ConceptInput(text) => match spec_from_concept(text) {
            Ok(_) => Answer::Skip,
            Err(error) => Answer::Refuse(error),
        },
        EventView::Index(text) => match ConceptView::from_index_str(text, state.length) {
            Ok(_) => Answer::Show,
            Err(error) => Answer::Refuse(error),
        },
        EventView::OpenConcept(_) => Answer::Show,
    }
}

impl View for State {
    type V = StateView;

    closed spec fn view(&self) -> StateView {
        StateView {
            script: self.script,
            length: self.length,
            shown: match self.screen {
                Screen::Page { page } => Shown::Page(page.spec_index()),
                Screen::Concept { concept, .. } => Shown::Concept(concept@),
                Screen::Forms { concept, .. } => Shown::Forms(concept@),
            },
        }
    }
}

impl State {
    /// What is shown is of the length of the dictionary, and a concept is shown
    /// with its own page.
    #[verifier::type_invariant]
    pub closed spec fn valid(self) -> bool {
        match self.screen {
            Screen::Page { page } => page.valid() && page.spec_length() == self.length,
            Screen::Concept { page, concept } | Screen::Forms { page, concept } => {
                &&& page.valid()
                &&& concept.valid()
                &&& page.spec_length() == self.length
                &&& concept@.length == self.length
                &&& page.spec_index() == concept@.index() / (
                self.length.spec_concepts_per_page() as nat)
            },
        }
    }

    /// The dictionary at its start: the first page of the concepts of four
    /// radicals, in the UYWI Chiffre.
    pub fn new() -> (state: Self)
        ensures
            state@ == (StateView {
                script: Script::UywiChiffre,
                length: Length::L4,
                shown: Shown::Page(0),
            }),
    {
        let length = Length::L4;
        Self {
            script: Script::UywiChiffre,
            length,
            screen: Screen::Page { page: Page::from_index(0, length).unwrap() },
        }
    }

    /// Get the script in which concepts and words are shown.
    pub fn script(&self) -> (script: Script)
        ensures
            script == self@.script,
    {
        self.script
    }

    /// Get the length of the concepts that are shown.
    pub fn length(&self) -> (length: Length)
        ensures
            length == self@.length,
    {
        self.length
    }

    /// Get what is shown.
    pub fn screen(&self) -> (screen: Screen)
        ensures
            match screen {
                Screen::Page { page } => self@.shown == Shown::Page(page.spec_index())
                    && page.spec_length() == self@.length,
                Screen::Concept { page, concept } => self@.shown == Shown::Concept(concept@)
                    && page.spec_length() == self@.length && page.spec_index() == concept@.index()
                    / (self@.length.spec_concepts_per_page() as nat),
                Screen::Forms { page, concept } => self@.shown == Shown::Forms(concept@)
                    && page.spec_length() == self@.length && page.spec_index() == concept@.index()
                    / (self@.length.spec_concepts_per_page() as nat),
            },
    {
        proof {
            use_type_invariant(self);
        }
        self.screen
    }

    /// Handle a request.
    pub fn update(&mut self, event: Event) -> (answer: Answer)
        ensures
            final(self)@ == spec_updated(old(self)@, event@),
            answer == spec_answer(old(self)@, event@),
    {
        proof {
            use_type_invariant(&*self);
        }
        match event {
            Event::Script(script) => {
                self.script = script;
                Answer::Show
            },
            Event::Length(number) => match Length::new(number) {
                Ok(length) => {
                    let page = Page::from_index(0, length).unwrap();
                    *self = Self { script: self.script, length, screen: Screen::Page { page } };
                    Answer::Show
                },
                Err(error) => Answer::Refuse(error),
            },
            Event::Page(text) => match Page::from_str(text.as_str(), self.length) {
                Ok(page) => {
                    self.screen = Screen::Page { page };
                    Answer::Show
                },
                Err(error) => Answer::Refuse(error),
            },
            Event::Concept(text) => match Script::UywiChiffre.from_concept(text.as_str()) {
                Ok(concept) => {
                    let page = concept.page();
                    *self = Self {
                        script: self.script,
                        length: concept.length(),
                        screen: Screen::Concept { page, concept },
                    };
                    Answer::Show
                },
                Err(error) => Answer::Refuse(error),
            },
            Event::ConceptInput(text) => match Script::UywiChiffre.from_concept(text.as_str()) {
                Ok(_) => Answer::Skip,
                Err(error) => Answer::Refuse(error),
            },
            Event::Index(text) => match Concept::from_index_str(text.as_str(), self.length) {
                Ok(concept) => {
                    let page = concept.page();
                    self.screen = Screen::Concept { page, concept };
                    Answer::Show
                },
                Err(error) => Answer::Refuse(error),
            },
            Event::OpenConcept(concept) => {
                proof {
                    use_type_invariant(&concept);
                }
                let page = concept.page();
                *self = Self {
                    script: self.script,
                    length: concept.length(),
                    screen: Screen::Forms { page, concept },
                };
                Answer::Show
            },
        }
    }
}

impl Default for State {
    fn default() -> (state: Self)
        ensures
            state@ == (StateView {
                script: Script::UywiChiffre,
                length: Length::L4,
                shown: Shown::Page(0),
            }),
    {
        Self::new()
    }
}

} // verus!
