//! Length configuration.

use crate::bounded::{
    indices_held, indices_new, indices_push, indices_slice, intervals_held, intervals_new,
    intervals_push,
};
use crate::Error;
use arrayvec::ArrayVec;
use vstd::prelude::*;

verus! {

/// Number of possible radicals.
pub const NUM_OF_RADICALS: usize = 44;

/// Concept length.
#[derive(Clone, Copy, Debug, PartialEq, Eq, Structural)]
pub enum Length {
    /// Two radicals.
    L2,
    /// Three radicals.
    L3,
    /// Four radicals.
    L4,
}

/// The radical that stands `offset` steps behind `start` in the cyclic order of
/// all radicals.
pub open spec fn cyclic_radical(start: u8, offset: int) -> u8 {
    ((start + offset) % 44) as u8
}

/// Number of steps from `start` to `radical` in the cyclic order.
pub open spec fn cyclic_offset(start: u8, radical: u8) -> int {
    (radical - start + 44) % 44
}

/// The radicals met on the first `steps` steps of the cyclic order from `start`,
/// without those in `used`.
pub open spec fn ordered_prefix(start: u8, used: Seq<u8>, steps: nat) -> Seq<u8>
    decreases steps,
{
    if steps == 0 {
        Seq::empty()
    } else {
        let before = ordered_prefix(start, used, (steps - 1) as nat);
        let radical = cyclic_radical(start, steps - 1);
        if used.contains(radical) {
            before
        } else {
            before.push(radical)
        }
    }
}

/// Number of the first `steps` radicals of the cyclic order from `start` that
/// are in `used`.
pub open spec fn used_steps(start: u8, used: Seq<u8>, steps: nat) -> nat
    decreases steps,
{
    if steps == 0 {
        0
    } else {
        let before = used_steps(start, used, (steps - 1) as nat);
        if used.contains(cyclic_radical(start, steps - 1)) {
            before + 1
        } else {
            before
        }
    }
}

/// Radicals that are all valid and pairwise distinct.
pub open spec fn distinct_radicals(radicals: Seq<u8>) -> bool {
    &&& radicals.no_duplicates()
    &&& forall|i: int| 0 <= i < radicals.len() ==> #[trigger] radicals[i] < 44
}

/// Each step either yields a radical or meets a used one.
pub proof fn lemma_prefix_len(start: u8, used: Seq<u8>, steps: nat)
    ensures
        ordered_prefix(start, used, steps).len() + used_steps(start, used, steps) == steps,
    decreases steps,
{
    if steps > 0 {
        lemma_prefix_len(start, used, (steps - 1) as nat);
    }
}

/// What the first steps yield stays where it is when more steps are taken.
pub proof fn lemma_prefix_grows(start: u8, used: Seq<u8>, fewer: nat, more: nat)
    requires
        fewer <= more,
    ensures
        ordered_prefix(start, used, fewer).len() <= ordered_prefix(start, used, more).len(),
        forall|i: int|
            0 <= i < ordered_prefix(start, used, fewer).len() ==> ordered_prefix(
                start,
                used,
                more,
            )[i] == #[trigger] ordered_prefix(start, used, fewer)[i],
    decreases more,
{
    if fewer < more {
        lemma_prefix_grows(start, used, fewer, (more - 1) as nat);
    }
}

/// A radical is among the first steps exactly if it is valid, not used, and
/// fewer than `steps` steps away; the radicals come out by rising offset.
pub proof fn lemma_prefix_members(start: u8, used: Seq<u8>, steps: nat)
    requires
        start < 44,
        steps <= 44,
    ensures
        forall|radical: u8| #[trigger]
            ordered_prefix(start, used, steps).contains(radical) <==> (radical < 44
                && cyclic_offset(start, radical) < steps && !used.contains(radical)),
        forall|i: int|
            0 <= i < ordered_prefix(start, used, steps).len() ==> ordered_prefix(
                start,
                used,
                cyclic_offset(start, #[trigger] ordered_prefix(start, used, steps)[i]) as nat,
            ).len() == i,
        ordered_prefix(start, used, steps).no_duplicates(),
    decreases steps,
{
    let now = ordered_prefix(start, used, steps);
    if steps > 0 {
        let before = ordered_prefix(start, used, (steps - 1) as nat);
        let radical = cyclic_radical(start, steps - 1);
        lemma_prefix_members(start, used, (steps - 1) as nat);
        assert(cyclic_offset(start, radical) == steps - 1);
        assert forall|other: u8| other < 44 && cyclic_offset(start, other) == steps - 1 implies other
            == radical by {}
        assert forall|other: u8| #[trigger]
            now.contains(other) <==> (other < 44 && cyclic_offset(start, other) < steps
                && !used.contains(other)) by {
            if used.contains(radical) {
                assert(now == before);
            } else {
                assert(now == before.push(radical));
                if now.contains(other) {
                    let i = choose|i: int| 0 <= i < now.len() && now[i] == other;
                    if i < before.len() {
                        assert(before[i] == other);
                        assert(before.contains(other));
                    }
                }
                if other < 44 && cyclic_offset(start, other) < steps && !used.contains(other) {
                    if cyclic_offset(start, other) < steps - 1 {
                        assert(before.contains(other));
                        let i = choose|i: int| 0 <= i < before.len() && before[i] == other;
                        assert(now[i] == other);
                    } else {
                        assert(now[before.len() as int] == other);
                    }
                }
            }
        }
        assert forall|i: int| 0 <= i < now.len() implies ordered_prefix(
            start,
            used,
            cyclic_offset(start, #[trigger] now[i]) as nat,
        ).len() == i by {
            if i < before.len() {
                assert(now[i] == before[i]);
            }
        }
        assert forall|i: int, j: int| 0 <= i < now.len() && 0 <= j < now.len() && i != j implies now[i]
            != now[j] by {
            if now[i] == now[j] {
                assert(ordered_prefix(start, used, cyclic_offset(start, now[i]) as nat).len() == i);
                assert(ordered_prefix(start, used, cyclic_offset(start, now[j]) as nat).len() == j);
            }
        }
    } else {
        assert forall|radical: u8| #[trigger]
            now.contains(radical) <==> (radical < 44 && cyclic_offset(start, radical) < steps
                && !used.contains(radical)) by {}
    }
}

/// One more used radical is met on one more step, once the steps reach it.
pub proof fn lemma_used_steps_push(start: u8, used: Seq<u8>, radical: u8, steps: nat)
    requires
        start < 44,
        radical < 44,
        !used.contains(radical),
        steps <= 44,
    ensures
        used_steps(start, used.push(radical), steps) == used_steps(start, used, steps) + (if cyclic_offset(
            start,
            radical,
        ) < steps {
            1nat
        } else {
            0nat
        }),
    decreases steps,
{
    if steps > 0 {
        lemma_used_steps_push(start, used, radical, (steps - 1) as nat);
        let met = cyclic_radical(start, steps - 1);
        assert(cyclic_offset(start, met) == steps - 1);
        assert(used.push(radical).contains(met) <==> (used.contains(met) || met == radical)) by {
            if used.contains(met) {
                let i = choose|i: int| 0 <= i < used.len() && used[i] == met;
                assert(used.push(radical)[i] == met);
            }
            if met == radical {
                assert(used.push(radical)[used.len() as int] == met);
            }
        }
    }
}

/// All used radicals are met on a full round.
pub proof fn lemma_used_steps_full(start: u8, used: Seq<u8>)
    requires
        start < 44,
        distinct_radicals(used),
    ensures
        used_steps(start, used, 44) == used.len(),
    decreases used.len(),
{
    if used.len() == 0 {
        lemma_used_steps_none(start, used, 44);
    } else {
        let fewer = used.drop_last();
        let last = used.last();
        assert(used == fewer.push(last));
        assert(!fewer.contains(last)) by {
            if fewer.contains(last) {
                let i = choose|i: int| 0 <= i < fewer.len() && fewer[i] == last;
                assert(used[i] == used[used.len() - 1]);
            }
        }
        assert(distinct_radicals(fewer)) by {
            assert forall|i: int| 0 <= i < fewer.len() implies #[trigger] fewer[i] < 44 by {
                assert(fewer[i] == used[i]);
            }
        }
        lemma_used_steps_full(start, fewer);
        lemma_used_steps_push(start, fewer, last, 44);
    }
}

/// Where nothing is used, no step meets a used radical.
pub proof fn lemma_used_steps_none(start: u8, used: Seq<u8>, steps: nat)
    requires
        used.len() == 0,
    ensures
        used_steps(start, used, steps) == 0,
    decreases steps,
{
    if steps > 0 {
        lemma_used_steps_none(start, used, (steps - 1) as nat);
    }
}

impl Length {
    /// The length as a number.
    pub open spec fn spec_as_int(self) -> usize {
        match self {
            Length::L2 => 2,
            Length::L3 => 3,
            Length::L4 => 4,
        }
    }

    /// Total number of pages.
    pub open spec fn spec_num_of_pages(self) -> usize {
        match self {
            Length::L2 => 1,
            Length::L3 => 44,
            Length::L4 => 1892,
        }
    }

    /// Number of rows in a page.
    pub open spec fn spec_rows_per_page(self) -> usize {
        match self {
            Length::L2 => 44,
            Length::L3 => 43,
            Length::L4 => 42,
        }
    }

    /// Number of concepts in a row.
    pub open spec fn spec_concepts_per_row(self) -> usize {
        match self {
            Length::L2 => 43,
            Length::L3 => 42,
            Length::L4 => 41,
        }
    }

    /// Number of concepts in a page.
    pub open spec fn spec_concepts_per_page(self) -> usize {
        match self {
            Length::L2 => 1892,
            Length::L3 => 1806,
            Length::L4 => 1722,
        }
    }

    /// Total number of concepts.
    pub open spec fn spec_num_of_concepts(self) -> usize {
        match self {
            Length::L2 => 1892,
            Length::L3 => 79464,
            Length::L4 => 3258024,
        }
    }

    /// How the counts of a length hang together: a page is its rows, all concepts
    /// are all pages, and each interval is the number of ways to fill the
    /// positions behind it.
    pub proof fn lemma_counts(self)
        ensures
            self.spec_concepts_per_page() == self.spec_rows_per_page()
                * self.spec_concepts_per_row(),
            self.spec_num_of_concepts() == self.spec_num_of_pages()
                * self.spec_concepts_per_page(),
            self.spec_radical_intervals().len() == self.spec_as_int(),
            self.spec_num_of_concepts() == 44 * self.spec_radical_intervals()[0],
            forall|position: int|
                0 < position < self.spec_as_int() ==> self.spec_radical_intervals()[position - 1]
                    == (44 - position) * #[trigger] self.spec_radical_intervals()[position],
            self.spec_radical_intervals()[self.spec_as_int() - 1] == 1,
    {
        let intervals = self.spec_radical_intervals();
        assert forall|position: int| 0 < position < self.spec_as_int() implies intervals[position - 1]
            == (44 - position) * #[trigger] intervals[position] by {
            if position == 1 {
                assert(intervals[0] == 43 * intervals[1]);
            } else if position == 2 {
                assert(intervals[1] == 42 * intervals[2]);
            } else {
                assert(intervals[2] == 41 * intervals[3]);
            }
        }
    }

    /// Number of stems in a concept.
    pub open spec fn spec_stems_per_concept(self) -> usize {
        match self {
            Length::L2 => 3,
            Length::L3 => 5,
            Length::L4 => 8,
        }
    }

    /// Number of forms in a stem.
    pub open spec fn spec_forms_per_stem(self) -> usize {
        match self {
            Length::L2 => 2,
            Length::L3 | Length::L4 => 4,
        }
    }

    /// Interval at which the radical of each position changes when concepts are
    /// counted up: the number of ways to fill the positions behind it.
    pub open spec fn spec_radical_intervals(self) -> Seq<usize> {
        match self {
            Length::L2 => seq![43usize, 1usize],
            Length::L3 => seq![1806usize, 42usize, 1usize],
            Length::L4 => seq![74046usize, 1722usize, 41usize, 1usize],
        }
    }

    /// For each slot of a concept, the position whose radical it stores.
    pub open spec fn spec_radical_order(self) -> Seq<u8> {
        match self {
            Length::L2 => seq![1u8, 0u8],
            Length::L3 => seq![1u8, 2u8, 0u8],
            Length::L4 => seq![1u8, 3u8, 2u8, 0u8],
        }
    }

    /// For each position, the slot that stores its radical: the inverse of
    /// [`Length::spec_radical_order`].
    pub open spec fn spec_radical_order_mirrored(self) -> Seq<u8> {
        match self {
            Length::L2 => seq![1u8, 0u8],
            Length::L3 => seq![2u8, 0u8, 1u8],
            Length::L4 => seq![3u8, 0u8, 2u8, 1u8],
        }
    }

    /// For each position, the radical at which its cyclic order starts.
    pub open spec fn spec_radical_start(self) -> Seq<u8> {
        match self {
            Length::L2 => seq![3u8, 0u8],
            Length::L3 => seq![3u8, 0u8, 1u8],
            Length::L4 => seq![3u8, 0u8, 2u8, 1u8],
        }
    }

    /// The radicals open to `position`, in the order of that position: the cyclic
    /// order from the position's start, without the radicals in `used`.
    pub open spec fn spec_radicals_ordered(self, position: int, used: Seq<u8>) -> Seq<u8> {
        ordered_prefix(self.spec_radical_start()[position], used, 44)
    }

    /// The length with the given number of radicals: 2, 3 or 4 radicals make a
    /// concept.
    pub open spec fn spec_new(length: nat) -> Result<Length, Error> {
        if length == 2 {
            Ok(Length::L2)
        } else if length == 3 {
            Ok(Length::L3)
        } else if length == 4 {
            Ok(Length::L4)
        } else {
            Err(Error::LengthInvalid)
        }
    }

    /// Build new [`Length`].
    /// # Errors
    /// [`Error::LengthInvalid`] if `length` has no corresponding [`Length`].
    pub fn new(length: usize) -> (result: Result<Self, Error>)
        ensures
            result == Self::spec_new(length as nat),
    {
        match length {
            2 => Ok(Self::L2),
            3 => Ok(Self::L3),
            4 => Ok(Self::L4),
            _ => Err(Error::LengthInvalid),
        }
    }

    /// Get [`Length`] as number.
    #[verifier::when_used_as_spec(spec_as_int)]
    pub fn as_int(self) -> (length: usize)
        ensures
            length == self.spec_as_int(),
    {
        match self {
            Self::L2 => 2,
            Self::L3 => 3,
            Self::L4 => 4,
        }
    }

    /// Total number of pages.
    #[verifier::when_used_as_spec(spec_num_of_pages)]
    pub fn num_of_pages(self) -> (pages: usize)
        ensures
            pages == self.spec_num_of_pages(),
    {
        match self {
            Self::L2 => 1,
            Self::L3 => NUM_OF_RADICALS,
            Self::L4 => NUM_OF_RADICALS * (NUM_OF_RADICALS - 1),
        }
    }

    /// Number of concepts in a page.
    #[verifier::when_used_as_spec(spec_concepts_per_page)]
    pub fn concepts_per_page(self) -> (concepts: usize)
        ensures
            concepts == self.spec_concepts_per_page(),
    {
        self.rows_per_page() * self.concepts_per_row()
    }

    /// Number of rows in a page.
    #[verifier::when_used_as_spec(spec_rows_per_page)]
    pub fn rows_per_page(self) -> (rows: usize)
        ensures
            rows == self.spec_rows_per_page(),
    {
        match self {
            Self::L2 => NUM_OF_RADICALS,
            Self::L3 => NUM_OF_RADICALS - 1,
            Self::L4 => NUM_OF_RADICALS - 2,
        }
    }

    /// Number of concepts in a row.
    #[verifier::when_used_as_spec(spec_concepts_per_row)]
    pub fn concepts_per_row(self) -> (concepts: usize)
        ensures
            concepts == self.spec_concepts_per_row(),
    {
        match self {
            Self::L2 => NUM_OF_RADICALS - 1,
            Self::L3 => NUM_OF_RADICALS - 2,
            Self::L4 => NUM_OF_RADICALS - 3,
        }
    }

    /// Total number of concepts.
    #[verifier::when_used_as_spec(spec_num_of_concepts)]
    pub fn num_of_concepts(self) -> (concepts: usize)
        ensures
            concepts == self.spec_num_of_concepts(),
    {
        self.num_of_pages() * self.concepts_per_page()
    }

    /// Number of stems in a concept.
    #[verifier::when_used_as_spec(spec_stems_per_concept)]
    pub fn stems_per_concept(self) -> (stems: usize)
        ensures
            stems == self.spec_stems_per_concept(),
    {
        match self {
            Self::L2 => 3,
            Self::L3 => 5,
            Self::L4 => 8,
        }
    }

    /// Number of forms in a stem.
    #[verifier::when_used_as_spec(spec_forms_per_stem)]
    pub fn forms_per_stem(self) -> (forms: usize)
        ensures
            forms == self.spec_forms_per_stem(),
    {
        self.num_of_forms()
    }

    /// Number of words in a stem.
    #[verifier::when_used_as_spec(spec_forms_per_stem)]
    pub fn words_per_stem(self) -> (words: usize)
        ensures
            words == self.spec_forms_per_stem(),
    {
        self.num_of_forms()
    }

    /// Number of forms.
    #[verifier::when_used_as_spec(spec_forms_per_stem)]
    pub fn num_of_forms(self) -> (forms: usize)
        ensures
            forms == self.spec_forms_per_stem(),
    {
        match self {
            Self::L2 => 2,
            Self::L3 | Self::L4 => 4,
        }
    }

    /// Interval at which each radical position changes when iterated.
    pub fn radical_intervals(self) -> (intervals: ArrayVec<usize, 4>)
        ensures
            intervals_held(intervals) == self.spec_radical_intervals(),
    {
        let mut intervals = intervals_new();
        let radicals: usize = NUM_OF_RADICALS;
        match self {
            Self::L2 => {
                intervals_push(&mut intervals, radicals - 1);
                intervals_push(&mut intervals, 1);
            },
            Self::L3 => {
                intervals_push(&mut intervals, (radicals - 2) * (radicals - 1));
                intervals_push(&mut intervals, radicals - 2);
                intervals_push(&mut intervals, 1);
            },
            Self::L4 => {
                intervals_push(&mut intervals, (radicals - 3) * (radicals - 2) * (radicals - 1));
                intervals_push(&mut intervals, (radicals - 3) * (radicals - 2));
                intervals_push(&mut intervals, radicals - 3);
                intervals_push(&mut intervals, 1);
            },
        }
        assert(intervals_held(intervals) =~= self.spec_radical_intervals());
        intervals
    }

    /// List of positions radicals are ordered in inside a concept.
    pub fn radical_order(self) -> (order: ArrayVec<u8, 4>)
        ensures
            indices_held(order) == self.spec_radical_order(),
    {
        let mut order = indices_new();
        match self {
            Self::L2 => {
                indices_push(&mut order, 1);
                indices_push(&mut order, 0);
            },
            Self::L3 => {
                indices_push(&mut order, 1);
                indices_push(&mut order, 2);
                indices_push(&mut order, 0);
            },
            Self::L4 => {
                indices_push(&mut order, 1);
                indices_push(&mut order, 3);
                indices_push(&mut order, 2);
                indices_push(&mut order, 0);
            },
        }
        assert(indices_held(order) =~= self.spec_radical_order());
        order
    }

    /// The [`Length::radical_order`] mirrored, to reflect reverse usage.
    pub fn radical_order_mirrored(self) -> (mirrored: ArrayVec<u8, 4>)
        ensures
            indices_held(mirrored) == self.spec_radical_order_mirrored(),
    {
        let mut mirrored = indices_new();
        let radical_order = self.radical_order();
        let order = indices_slice(&radical_order);
        let length: usize = self.as_int();
        let mut position: usize = 0;
        while position < length
            invariant
                position <= length,
                length == self.spec_as_int(),
                order@ == self.spec_radical_order(),
                indices_held(mirrored) =~= self.spec_radical_order_mirrored().take(position as int),
            decreases length - position,
        {
            let mut slot: usize = 0;
            while slot < length && order[slot] as usize != position
                invariant
                    slot <= length,
                    position < length,
                    length == self.spec_as_int(),
                    order@ == self.spec_radical_order(),
                    forall|before: int| 0 <= before < slot ==> order@[before] != position,
                decreases length - slot,
            {
                slot += 1;
            }
            assert(slot == self.spec_radical_order_mirrored()[position as int]);
            indices_push(&mut mirrored, slot as u8);
            position += 1;
        }
        assert(indices_held(mirrored) =~= self.spec_radical_order_mirrored());
        mirrored
    }

    /// Where radicals start on each position in the concept.
    pub fn radical_start(self) -> (start: ArrayVec<u8, 4>)
        ensures
            indices_held(start) == self.spec_radical_start(),
    {
        let mut start = indices_new();
        match self {
            Self::L2 => {
                indices_push(&mut start, 3);
                indices_push(&mut start, 0);
            },
            Self::L3 => {
                indices_push(&mut start, 3);
                indices_push(&mut start, 0);
                indices_push(&mut start, 1);
            },
            Self::L4 => {
                indices_push(&mut start, 3);
                indices_push(&mut start, 0);
                indices_push(&mut start, 2);
                indices_push(&mut start, 1);
            },
        }
        assert(indices_held(start) =~= self.spec_radical_start());
        start
    }


    /// The radicals open to `position` in the order of that position, without the
    /// radicals in `used`.
    pub fn radicals_ordered(self, position: usize, used: &[u8]) -> (ordered: Vec<u8>)
        requires
            position < self.spec_as_int(),
        ensures
            ordered@ == self.spec_radicals_ordered(position as int, used@),
    {
        let starts = self.radical_start();
        let start: u8 = indices_slice(&starts)[position];
        let mut ordered: Vec<u8> = Vec::new();
        let mut step: u8 = 0;
        while step < 44
            invariant
                step <= 44,
                start < 44,
                start == self.spec_radical_start()[position as int],
                ordered@ == ordered_prefix(start, used@, step as nat),
            decreases 44 - step,
        {
            let radical: u8 = (start + step) % 44;
            if !is_used(used, radical) {
                ordered.push(radical);
            }
            step += 1;
        }
        ordered
    }

    /// The radical that comes `rank` places behind the first in the order of
    /// `position`, or nothing where the order is shorter.
    pub fn ordered_nth(self, position: usize, used: &[u8], rank: usize) -> (radical: Option<u8>)
        requires
            position < self.spec_as_int(),
        ensures
            rank < self.spec_radicals_ordered(position as int, used@).len() ==> radical == Some(
                self.spec_radicals_ordered(position as int, used@)[rank as int],
            ),
            rank >= self.spec_radicals_ordered(position as int, used@).len() ==> radical is None,
    {
        let starts = self.radical_start();
        let start: u8 = indices_slice(&starts)[position];
        let mut passed: usize = 0;
        let mut step: u8 = 0;
        while step < 44
            invariant
                step <= 44,
                start < 44,
                start == self.spec_radical_start()[position as int],
                passed == ordered_prefix(start, used@, step as nat).len(),
                passed <= rank,
                passed <= step,
            decreases 44 - step,
        {
            let radical: u8 = (start + step) % 44;
            if !is_used(used, radical) {
                if passed == rank {
                    proof {
                        lemma_prefix_grows(start, used@, (step + 1) as nat, 44);
                        assert(ordered_prefix(start, used@, (step + 1) as nat)[rank as int]
                            == radical);
                    }
                    return Some(radical);
                }
                passed += 1;
            }
            step += 1;
        }
        None
    }

    /// The place of `radical` in the order of `position`, counted from 0, or
    /// nothing where the order does not hold it.
    pub fn ordered_position(self, position: usize, used: &[u8], radical: u8) -> (rank: Option<usize>)
        requires
            position < self.spec_as_int(),
        ensures
            rank matches Some(rank) ==> rank < self.spec_radicals_ordered(position as int, used@).len()
                && self.spec_radicals_ordered(position as int, used@)[rank as int] == radical,
            rank is None <==> !self.spec_radicals_ordered(position as int, used@).contains(radical),
    {
        let starts = self.radical_start();
        let start: u8 = indices_slice(&starts)[position];
        let mut passed: usize = 0;
        let mut step: u8 = 0;
        while step < 44
            invariant
                step <= 44,
                start < 44,
                start == self.spec_radical_start()[position as int],
                passed == ordered_prefix(start, used@, step as nat).len(),
                passed <= step,
                forall|before: int|
                    0 <= before < step ==> cyclic_radical(start, before) != radical || used@.contains(
                        radical,
                    ),
            decreases 44 - step,
        {
            let candidate: u8 = (start + step) % 44;
            if !is_used(used, candidate) {
                if candidate == radical {
                    proof {
                        lemma_prefix_grows(start, used@, (step + 1) as nat, 44);
                        assert(ordered_prefix(start, used@, (step + 1) as nat)[passed as int]
                            == radical);
                        assert(ordered_prefix(start, used@, 44)[passed as int] == radical);
                    }
                    return Some(passed);
                }
                passed += 1;
            }
            step += 1;
        }
        proof {
            lemma_prefix_members(start, used@, 44);
            if radical < 44 && !used@.contains(radical) {
                assert(cyclic_radical(start, cyclic_offset(start, radical)) == radical);
            }
        }
        None
    }

    /// The length as a decimal number.
    pub open spec fn spec_to_string(self) -> Seq<char> {
        match self {
            Length::L2 => seq!['2'],
            Length::L3 => seq!['3'],
            Length::L4 => seq!['4'],
        }
    }

    /// The length as a decimal number.
    pub fn to_string(self) -> (string: String)
        ensures
            string@ == self.spec_to_string(),
    {
        proof {
            reveal_strlit("2");
            reveal_strlit("3");
            reveal_strlit("4");
        }
        let string = match self {
            Self::L2 => "2",
            Self::L3 => "3",
            Self::L4 => "4",
        };
        assert(string@ =~= self.spec_to_string());
        string.to_owned()
    }
}

impl Default for Length {
    fn default() -> (length: Self)
        ensures
            length == Length::L4,
    {
        Self::L4
    }
}

/// Whether `radical` is among `used`.
pub fn is_used(used: &[u8], radical: u8) -> (found: bool)
    ensures
        found == used@.contains(radical),
{
    let mut place: usize = 0;
    while place < used.len()
        invariant
            place <= used.len(),
            forall|before: int| 0 <= before < place ==> used@[before] != radical,
        decreases used.len() - place,
    {
        if used[place] == radical {
            return true;
        }
        place += 1;
    }
    false
}

} // verus!
