//! UYWI concepts.

use crate::bounded::{indices_held, indices_new, indices_push, indices_slice, intervals_slice};
use crate::length::{distinct_radicals, lemma_prefix_len, lemma_prefix_members, lemma_used_steps_full};
use crate::decimal::{lemma_parse_decimal, parse, spec_decimal, spec_parse, to_decimal};
use crate::page::Page;
use crate::stem::Stems;
use crate::{Error, Length};
use arrayvec::ArrayVec;
use vstd::arithmetic::div_mod::{
    lemma_fundamental_div_mod, lemma_fundamental_div_mod_converse, lemma_mod_bound,
    lemma_multiply_divide_lt,
};
use vstd::prelude::*;

verus! {

/// What is left of a concept index once the positions before `position` have
/// taken their share.
pub open spec fn index_left(length: Length, index: nat, position: nat) -> nat
    decreases position,
{
    if position == 0 {
        index
    } else {
        index_left(length, index, (position - 1) as nat) % (
        length.spec_radical_intervals()[position - 1] as nat)
    }
}

/// Upper bound of what is left of a concept index at `position`: the number of
/// ways to fill this position and those behind it.
pub open spec fn ways_from(length: Length, position: nat) -> nat {
    ((44 - position) * length.spec_radical_intervals()[position as int]) as nat
}

/// The radicals of the first `count` positions of the concept with number
/// `index`: at each position, the share of the index in that position's interval
/// picks among the radicals still open to it.
pub open spec fn chosen_radicals(length: Length, index: nat, count: nat) -> Seq<u8>
    decreases count,
{
    if count == 0 {
        Seq::empty()
    } else {
        let position = (count - 1) as nat;
        let before = chosen_radicals(length, index, position);
        let rank = index_left(length, index, position) / (
        length.spec_radical_intervals()[position as int] as nat);
        before.push(length.spec_radicals_ordered(position as int, before)[rank as int])
    }
}

/// The four slots of a concept that holds `chosen`, the radicals by position:
/// each slot within the length stores the radical of its position, the others 0.
pub open spec fn stored_slots(length: Length, chosen: Seq<u8>) -> Seq<u8> {
    Seq::new(
        4,
        |slot: int|
            if slot < length.spec_as_int() {
                chosen[length.spec_radical_order()[slot] as int]
            } else {
                0u8
            },
    )
}

/// The radicals by position of a concept with these slots.
pub open spec fn chosen_of(length: Length, slots: Seq<u8>) -> Seq<u8> {
    Seq::new(
        length.spec_as_int() as nat,
        |position: int| slots[length.spec_radical_order_mirrored()[position] as int],
    )
}

/// The slots of the concept with number `index`.
pub open spec fn concept_slots(length: Length, index: nat) -> Seq<u8> {
    stored_slots(length, chosen_radicals(length, index, length.spec_as_int() as nat))
}

/// The place of the radical of `position` among the radicals open to that
/// position, given the radicals of the positions before it.
pub open spec fn rank_at(length: Length, chosen: Seq<u8>, position: int) -> nat {
    length.spec_radicals_ordered(position, chosen.take(position)).index_of(chosen[position]) as nat
}

/// The share that `position` and the positions behind it have in the number of
/// the concept with the radicals `chosen`.
pub open spec fn index_from(length: Length, chosen: Seq<u8>, position: nat) -> nat
    decreases length.spec_as_int() - position,
{
    if position >= length.spec_as_int() {
        0
    } else {
        rank_at(length, chosen, position as int) * (length.spec_radical_intervals()[position as int] as nat)
            + index_from(length, chosen, position + 1)
    }
}

/// Slots that make a concept of `length`: valid radicals, pairwise distinct
/// within the length, and 0 behind it.
pub open spec fn valid_slots(length: Length, slots: Seq<u8>) -> bool {
    &&& slots.len() == 4
    &&& distinct_radicals(slots.take(length.spec_as_int() as int))
    &&& forall|slot: int| length.spec_as_int() <= slot < 4 ==> slots[slot] == 0
}

/// The radicals open to a position are as many as are not used.
pub proof fn lemma_ordered_len(length: Length, position: int, used: Seq<u8>)
    requires
        0 <= position < length.spec_as_int(),
        distinct_radicals(used),
    ensures
        length.spec_radicals_ordered(position, used).len() == 44 - used.len(),
        length.spec_radicals_ordered(position, used).no_duplicates(),
        forall|radical: u8| #[trigger]
            length.spec_radicals_ordered(position, used).contains(radical) <==> (radical < 44
                && !used.contains(radical)),
{
    let start = length.spec_radical_start()[position];
    lemma_prefix_len(start, used, 44);
    lemma_used_steps_full(start, used);
    lemma_prefix_members(start, used, 44);
}

/// In a list without duplicates a value stands where it is found.
pub proof fn lemma_index_of_unique(list: Seq<u8>, place: int)
    requires
        list.no_duplicates(),
        0 <= place < list.len(),
    ensures
        list.index_of(list[place]) == place,
{
    let found = list.index_of(list[place]);
    assert(0 <= found < list.len() && list[found] == list[place]);
}

/// The radicals chosen for an index below the number of concepts: one more with
/// each position, all distinct, with less of the index left at each step.
pub proof fn lemma_chosen(length: Length, index: nat, count: nat)
    requires
        index < length.spec_num_of_concepts(),
        count <= length.spec_as_int(),
    ensures
        chosen_radicals(length, index, count).len() == count,
        distinct_radicals(chosen_radicals(length, index, count)),
        count < length.spec_as_int() ==> index_left(length, index, count) < ways_from(length, count),
        count == length.spec_as_int() ==> index_left(length, index, count) == 0,
        forall|fewer: nat|
            fewer <= count ==> #[trigger] chosen_radicals(length, index, fewer)
                == chosen_radicals(length, index, count).take(fewer as int),
    decreases count,
{
    length.lemma_counts();
    let intervals = length.spec_radical_intervals();
    let now = chosen_radicals(length, index, count);
    if count == 0 {
        assert(now.take(0) =~= now);
    } else {
        let position = (count - 1) as nat;
        lemma_chosen(length, index, position);
        let before = chosen_radicals(length, index, position);
        let left = index_left(length, index, position);
        let interval = intervals[position as int] as nat;
        let rank = left / interval;
        let ordered = length.spec_radicals_ordered(position as int, before);
        lemma_ordered_len(length, position as int, before);
        assert(interval > 0);
        assert(rank < 44 - position) by {
            assert(left < ways_from(length, position));
            assert((44 - position) * interval == interval * (44 - position)) by (nonlinear_arith);
            lemma_multiply_divide_lt(left as int, interval as int, 44 - position);
        }
        let radical = ordered[rank as int];
        assert(ordered.contains(radical));
        assert(now == before.push(radical));
        assert(distinct_radicals(now)) by {
            assert forall|i: int, j: int| 0 <= i < now.len() && 0 <= j < now.len() && i != j implies now[i]
                != now[j] by {
                if i < before.len() && j < before.len() {
                    assert(before[i] != before[j]);
                } else if i < before.len() {
                    assert(before.contains(before[i]));
                } else {
                    assert(before.contains(before[j]));
                }
            }
        }
        lemma_mod_bound(left as int, interval as int);
        assert(index_left(length, index, count) == left % interval);
        if count < length.spec_as_int() {
            assert(intervals[count - 1] == (44 - count) * intervals[count as int]);
        }
        assert forall|fewer: nat| fewer <= count implies #[trigger] chosen_radicals(
            length,
            index,
            fewer,
        ) == now.take(fewer as int) by {
            if fewer == count {
                assert(now.take(fewer as int) =~= now);
            } else {
                assert(chosen_radicals(length, index, fewer) == before.take(fewer as int));
                assert(now.take(fewer as int) =~= before.take(fewer as int));
            }
        }
    }
}

/// The slots of the concept with a valid number are valid slots, and hold the
/// chosen radicals by position.
pub proof fn lemma_concept_slots(length: Length, index: nat)
    requires
        index < length.spec_num_of_concepts(),
    ensures
        valid_slots(length, concept_slots(length, index)),
        chosen_of(length, concept_slots(length, index)) == chosen_radicals(
            length,
            index,
            length.spec_as_int() as nat,
        ),
{
    let count = length.spec_as_int() as nat;
    lemma_chosen(length, index, count);
    let chosen = chosen_radicals(length, index, count);
    lemma_stored(length, chosen);
}

/// Storing radicals by position gives valid slots, from which the radicals by
/// position are read back.
pub proof fn lemma_stored(length: Length, chosen: Seq<u8>)
    requires
        chosen.len() == length.spec_as_int(),
        distinct_radicals(chosen),
    ensures
        valid_slots(length, stored_slots(length, chosen)),
        chosen_of(length, stored_slots(length, chosen)) == chosen,
{
    let slots = stored_slots(length, chosen);
    let order = length.spec_radical_order();
    let mirrored = length.spec_radical_order_mirrored();
    let within = slots.take(length.spec_as_int() as int);
    assert forall|position: int| 0 <= position < length.spec_as_int() implies order[mirrored[position] as int]
        == position && mirrored[order[position] as int] == position by {}
    assert forall|i: int, j: int| 0 <= i < within.len() && 0 <= j < within.len() && i != j implies within[i]
        != within[j] by {
        assert(within[i] == chosen[order[i] as int]);
        assert(within[j] == chosen[order[j] as int]);
        assert(mirrored[order[i] as int] == i);
        assert(mirrored[order[j] as int] == j);
    }
    assert forall|i: int| 0 <= i < within.len() implies #[trigger] within[i] < 44 by {
        assert(within[i] == chosen[order[i] as int]);
    }
    assert(chosen_of(length, slots) =~= chosen) by {
        assert forall|position: int| 0 <= position < length.spec_as_int() implies chosen_of(
            length,
            slots,
        )[position] == chosen[position] by {
            assert(order[mirrored[position] as int] == position);
        }
    }
}

/// Reading the radicals by position from valid slots gives distinct radicals,
/// and storing them gives the slots back.
pub proof fn lemma_chosen_of(length: Length, slots: Seq<u8>)
    requires
        valid_slots(length, slots),
    ensures
        chosen_of(length, slots).len() == length.spec_as_int(),
        distinct_radicals(chosen_of(length, slots)),
        stored_slots(length, chosen_of(length, slots)) == slots,
{
    let chosen = chosen_of(length, slots);
    let order = length.spec_radical_order();
    let mirrored = length.spec_radical_order_mirrored();
    let within = slots.take(length.spec_as_int() as int);
    assert forall|position: int| 0 <= position < length.spec_as_int() implies order[mirrored[position] as int]
        == position && mirrored[order[position] as int] == position by {}
    assert forall|i: int, j: int| 0 <= i < chosen.len() && 0 <= j < chosen.len() && i != j implies chosen[i]
        != chosen[j] by {
        assert(chosen[i] == within[mirrored[i] as int]);
        assert(chosen[j] == within[mirrored[j] as int]);
        assert(order[mirrored[i] as int] == i);
        assert(order[mirrored[j] as int] == j);
    }
    assert forall|i: int| 0 <= i < chosen.len() implies #[trigger] chosen[i] < 44 by {
        assert(chosen[i] == within[mirrored[i] as int]);
    }
    assert(stored_slots(length, chosen) =~= slots) by {
        assert forall|slot: int| 0 <= slot < 4 implies stored_slots(length, chosen)[slot]
            == slots[slot] by {
            if slot < length.spec_as_int() {
                assert(mirrored[order[slot] as int] == slot);
            }
        }
    }
}

/// The radical chosen at a position stands, among the radicals open to that
/// position, at the place that the index gave it.
pub proof fn lemma_rank_of_chosen(length: Length, index: nat, position: nat)
    requires
        index < length.spec_num_of_concepts(),
        position < length.spec_as_int(),
    ensures
        rank_at(
            length,
            chosen_radicals(length, index, length.spec_as_int() as nat),
            position as int,
        ) == index_left(length, index, position) / (
        length.spec_radical_intervals()[position as int] as nat),
{
    length.lemma_counts();
    let count = length.spec_as_int() as nat;
    let chosen = chosen_radicals(length, index, count);
    lemma_chosen(length, index, count);
    lemma_chosen(length, index, position);
    let before = chosen_radicals(length, index, position);
    let after = chosen_radicals(length, index, position + 1);
    assert(before == chosen.take(position as int));
    assert(after == chosen.take(position as int + 1));
    let left = index_left(length, index, position);
    let interval = length.spec_radical_intervals()[position as int] as nat;
    let rank = left / interval;
    let ordered = length.spec_radicals_ordered(position as int, before);
    lemma_ordered_len(length, position as int, before);
    assert(left < ways_from(length, position));
    assert((44 - position) * interval == interval * (44 - position)) by (nonlinear_arith);
    lemma_multiply_divide_lt(left as int, interval as int, 44 - position);
    assert(after[position as int] == ordered[rank as int]);
    assert(chosen[position as int] == after[position as int]);
    lemma_index_of_unique(ordered, rank as int);
}

/// The radicals chosen for an index give that index back.
pub proof fn lemma_index_from_chosen(length: Length, index: nat, position: nat)
    requires
        index < length.spec_num_of_concepts(),
        position <= length.spec_as_int(),
    ensures
        index_from(length, chosen_radicals(length, index, length.spec_as_int() as nat), position)
            == index_left(length, index, position),
    decreases length.spec_as_int() - position,
{
    let count = length.spec_as_int() as nat;
    lemma_chosen(length, index, count);
    if position < count {
        lemma_index_from_chosen(length, index, position + 1);
        lemma_rank_of_chosen(length, index, position);
        let left = index_left(length, index, position);
        let interval = length.spec_radical_intervals()[position as int] as nat;
        lemma_fundamental_div_mod(left as int, interval as int);
        assert(index_left(length, index, position + 1) == left % interval);
        assert((left / interval) * interval == interval * (left / interval)) by (nonlinear_arith);
    }
}

/// The place of each radical of a concept among the radicals open to its
/// position is below the number of those radicals.
pub proof fn lemma_rank_bound(length: Length, chosen: Seq<u8>, position: nat)
    requires
        chosen.len() == length.spec_as_int(),
        distinct_radicals(chosen),
        position < length.spec_as_int(),
    ensures
        rank_at(length, chosen, position as int) < 44 - position,
        length.spec_radicals_ordered(position as int, chosen.take(position as int))[rank_at(
            length,
            chosen,
            position as int,
        ) as int] == chosen[position as int],
        distinct_radicals(chosen.take(position as int)),
{
    let used = chosen.take(position as int);
    assert(distinct_radicals(used)) by {
        assert forall|i: int| 0 <= i < used.len() implies #[trigger] used[i] < 44 by {
            assert(used[i] == chosen[i]);
        }
    }
    lemma_ordered_len(length, position as int, used);
    let ordered = length.spec_radicals_ordered(position as int, used);
    assert(!used.contains(chosen[position as int])) by {
        if used.contains(chosen[position as int]) {
            let i = choose|i: int| 0 <= i < used.len() && used[i] == chosen[position as int];
            assert(chosen[i] == chosen[position as int]);
        }
    }
    assert(ordered.contains(chosen[position as int]));
}

/// The share of a position and those behind it is below the number of ways to
/// fill them.
pub proof fn lemma_index_from_bound(length: Length, chosen: Seq<u8>, position: nat)
    requires
        chosen.len() == length.spec_as_int(),
        distinct_radicals(chosen),
        position < length.spec_as_int(),
    ensures
        index_from(length, chosen, position) < ways_from(length, position),
    decreases length.spec_as_int() - position,
{
    length.lemma_counts();
    let intervals = length.spec_radical_intervals();
    let interval = intervals[position as int] as nat;
    let rank = rank_at(length, chosen, position as int);
    lemma_rank_bound(length, chosen, position);
    let behind = index_from(length, chosen, position + 1);
    if position + 1 < length.spec_as_int() {
        lemma_index_from_bound(length, chosen, position + 1);
        assert(intervals[position as int] == (44 - (position + 1)) * intervals[position as int + 1]);
    }
    assert(behind < interval);
    assert(rank * interval + behind < (44 - position) * interval) by (nonlinear_arith)
        requires
            rank < 44 - position,
            behind < interval,
    ;
}

/// The index of the radicals of a concept gives those radicals back.
pub proof fn lemma_chosen_from_index(length: Length, chosen: Seq<u8>, count: nat)
    requires
        chosen.len() == length.spec_as_int(),
        distinct_radicals(chosen),
        count <= length.spec_as_int(),
    ensures
        index_from(length, chosen, 0) < length.spec_num_of_concepts(),
        index_left(length, index_from(length, chosen, 0), count) == index_from(length, chosen, count),
        chosen_radicals(length, index_from(length, chosen, 0), count) == chosen.take(count as int),
    decreases count,
{
    length.lemma_counts();
    let index = index_from(length, chosen, 0);
    lemma_index_from_bound(length, chosen, 0);
    if count == 0 {
        assert(chosen.take(0) =~= Seq::<u8>::empty());
    } else {
        let position = (count - 1) as nat;
        lemma_chosen_from_index(length, chosen, position);
        let intervals = length.spec_radical_intervals();
        let interval = intervals[position as int] as nat;
        let rank = rank_at(length, chosen, position as int);
        let behind = index_from(length, chosen, count);
        lemma_rank_bound(length, chosen, position);
        if count < length.spec_as_int() {
            lemma_index_from_bound(length, chosen, count);
            assert(intervals[count - 1] == (44 - count) * intervals[count as int]);
        }
        assert(behind < interval);
        let left = index_left(length, index, position);
        assert(left == rank * interval + behind);
        lemma_fundamental_div_mod_converse(left as int, interval as int, rank as int, behind as int);
        assert(chosen.take(count as int) =~= chosen.take(position as int).push(
            chosen[position as int],
        ));
    }
}

/// What slot `slot` of a concept stores: the radical of the position that
/// `order` names for the slot, or 0 where it names none.
pub open spec fn spec_slot_radical(chosen: Seq<u8>, order: Seq<u8>, slot: int) -> u8 {
    if slot < order.len() {
        chosen[order[slot] as int]
    } else {
        0u8
    }
}

/// What slot `slot` of a concept stores.
pub(crate) fn slot_radical(radicals: &ArrayVec<u8, 4>, order: &ArrayVec<u8, 4>, slot: usize) -> (radical:
    u8)
    requires
        forall|slot: int|
            0 <= slot < indices_held(*order).len() ==> (#[trigger] indices_held(*order)[slot])
                < indices_held(*radicals).len(),
    ensures
        radical == spec_slot_radical(indices_held(*radicals), indices_held(*order), slot as int),
{
    let order = indices_slice(order);
    let radicals = indices_slice(radicals);
    if slot < order.len() {
        radicals[order[slot] as usize]
    } else {
        0
    }
}

/// `array_init::array_init`: the array holds at each of its four places what the
/// closure gives for that place, which is what [`slot_radical`] computes. The
/// closure is called for the places 0 to 3, so every position that `order`
/// names must have a radical.
#[verifier::external_body]
pub(crate) fn store_radicals(radicals: &ArrayVec<u8, 4>, order: &ArrayVec<u8, 4>) -> (slots: [u8; 4])
    requires
        forall|slot: int|
            0 <= slot < indices_held(*order).len() ==> (#[trigger] indices_held(*order)[slot])
                < indices_held(*radicals).len(),
    ensures
        forall|slot: int|
            0 <= slot < 4 ==> #[trigger] slots@[slot] == spec_slot_radical(
                indices_held(*radicals),
                indices_held(*order),
                slot,
            ),
{
    array_init::array_init(|slot| slot_radical(radicals, order, slot))
}

/// Convenience type to make it easier to deal with radicals: an index into the
/// table of radicals.
#[derive(Clone, Copy, Debug, PartialEq, Eq, Structural)]
pub struct Radical {
    /// Index of the radical.
    index: u8,
}

impl Radical {
    /// A radical is one of the 44.
    #[verifier::type_invariant]
    pub closed spec fn valid(self) -> bool {
        self.index < 44
    }

    /// Index of the radical.
    pub closed spec fn spec_index(self) -> u8 {
        self.index
    }

    /// Build new [`Radical`] from index.
    pub fn from_index(index: u8) -> (radical: Self)
        requires
            index < 44,
        ensures
            radical.spec_index() == index,
    {
        Self { index }
    }

    /// Get index of radical.
    #[verifier::when_used_as_spec(spec_index)]
    pub fn index(self) -> (index: u8)
        ensures
            index == self.spec_index(),
            index < 44,
    {
        proof {
            use_type_invariant(&self);
        }
        self.index
    }
}

/// What a concept is: its length and its four slots.
pub struct ConceptView {
    /// Concept length.
    pub length: Length,
    /// The radicals of the concept by slot; slots behind the length hold 0.
    pub slots: Seq<u8>,
}

impl ConceptView {
    /// Whether the slots make a concept of the length.
    pub open spec fn valid(self) -> bool {
        valid_slots(self.length, self.slots)
    }

    /// The radicals of the concept, one for each slot within its length.
    pub open spec fn radicals(self) -> Seq<u8> {
        self.slots.take(self.length.spec_as_int() as int)
    }

    /// The number of the concept.
    pub open spec fn index(self) -> nat {
        index_from(self.length, chosen_of(self.length, self.slots), 0)
    }

    /// The concept of `length` with the number `index`.
    pub open spec fn numbered(length: Length, index: nat) -> ConceptView {
        ConceptView { length, slots: concept_slots(length, index) }
    }

    /// The concept of `length` with the number `index`, which must be below the
    /// number of concepts of that length.
    pub open spec fn from_index(index: nat, length: Length) -> Result<ConceptView, Error> {
        if index < length.spec_num_of_concepts() {
            Ok(ConceptView::numbered(length, index))
        } else {
            Err(Error::ConceptIndexInvalid)
        }
    }

    /// The concept of `length` whose number a text holds: the text holds one more
    /// than the index of the concept.
    pub open spec fn from_index_str(text: Seq<char>, length: Length) -> Result<ConceptView, Error> {
        match spec_parse(text) {
            None => Err(Error::ConceptStringInvalid),
            Some(number) => if number == 0 {
                Err(Error::ConceptStringNull)
            } else {
                ConceptView::from_index((number - 1) as nat, length)
            },
        }
    }
}

/// What a result with a concept is.
pub open spec fn concept_result(result: Result<Concept, Error>) -> Result<ConceptView, Error> {
    match result {
        Ok(concept) => Ok(concept@),
        Err(error) => Err(error),
    }
}

impl View for Concept {
    type V = ConceptView;

    open spec fn view(&self) -> ConceptView {
        ConceptView { length: self.spec_length(), slots: self.slots() }
    }
}

/// A concept.
#[derive(Clone, Copy, Debug, PartialEq, Eq)]
pub struct Concept {
    /// The radicals of the concept by slot; slots behind the length hold 0.
    radicals: [u8; 4],
    /// Concept length.
    length: Length,
}

impl Concept {
    /// A concept holds valid slots for its length.
    #[verifier::type_invariant]
    pub closed spec fn valid(self) -> bool {
        valid_slots(self.length, self.radicals@)
    }

    /// The four slots of the concept.
    pub closed spec fn slots(self) -> Seq<u8> {
        self.radicals@
    }

    /// Concept length.
    pub closed spec fn spec_length(self) -> Length {
        self.length
    }

    /// A valid concept is valid as what it is.
    pub proof fn lemma_valid(self)
        requires
            self.valid(),
        ensures
            self@.valid(),
    {
    }

    /// Concepts that are the same in length and slots are the same concept.
    pub proof fn lemma_same(self, other: Self)
        requires
            self@ == other@,
        ensures
            self == other,
    {
        assert(self.radicals =~= other.radicals);
    }

    /// Build [`Concept`] from members.
    pub(crate) fn new(radicals: [u8; 4], length: Length) -> (concept: Self)
        requires
            valid_slots(length, radicals@),
        ensures
            concept@ == (ConceptView { length, slots: radicals@ }),
            concept.valid(),
    {
        Self { radicals, length }
    }

    /// Build [`Concept`] from concept index.
    /// # Errors
    /// [`Error::ConceptIndexInvalid`] if `index` is not below the number of
    /// concepts of the given [`Length`].
    pub fn from_index(index: usize, length: Length) -> (result: Result<Self, Error>)
        ensures
            concept_result(result) == ConceptView::from_index(index as nat, length),
            result matches Ok(concept) ==> concept.valid() && concept@.valid() && concept@.index()
                == index,
    {
        if index >= length.num_of_concepts() {
            return Err(Error::ConceptIndexInvalid);
        }
        let mut radicals = indices_new();
        let mut index_left: usize = index;
        let radical_intervals = length.radical_intervals();
        let intervals = intervals_slice(&radical_intervals);
        let count: usize = length.as_int();
        let mut position: usize = 0;
        while position < count
            invariant
                position <= count,
                count == length.spec_as_int(),
                index < length.spec_num_of_concepts(),
                intervals@ == length.spec_radical_intervals(),
                indices_held(radicals) == chosen_radicals(length, index as nat, position as nat),
                index_left == self::index_left(length, index as nat, position as nat),
            decreases count - position,
        {
            let interval: usize = intervals[position];
            proof {
                length.lemma_counts();
                lemma_chosen(length, index as nat, position as nat);
                lemma_ordered_len(length, position as int, indices_held(radicals));
                assert(index_left < ways_from(length, position as nat));
                assert((44 - position) * interval == interval * (44 - position)) by (nonlinear_arith);
                lemma_multiply_divide_lt(index_left as int, interval as int, 44 - position);
                lemma_fundamental_div_mod(index_left as int, interval as int);
                assert((index_left / interval) * interval == interval * (index_left / interval))
                    by (nonlinear_arith);
            }
            let rank: usize = index_left / interval;
            let radical: u8 = length.ordered_nth(position, indices_slice(&radicals), rank).unwrap();
            indices_push(&mut radicals, radical);
            index_left = index_left - rank * interval;
            position += 1;
        }
        let order = length.radical_order();
        proof {
            lemma_chosen(length, index as nat, count as nat);
            lemma_concept_slots(length, index as nat);
            lemma_index_from_chosen(length, index as nat, 0);
        }
        let slots = store_radicals(&radicals, &order);
        assert(slots@ =~= concept_slots(length, index as nat));
        Ok(Self::new(slots, length))
    }

    /// Get radicals.
    pub fn radicals(self) -> (radicals: ArrayVec<u8, 4>)
        ensures
            indices_held(radicals) == self@.radicals(),
    {
        proof {
            use_type_invariant(&self);
        }
        let mut radicals = indices_new();
        let count: usize = self.length.as_int();
        let mut slot: usize = 0;
        while slot < count
            invariant
                slot <= count,
                count == self.length.spec_as_int(),
                indices_held(radicals) =~= self.radicals@.take(slot as int),
            decreases count - slot,
        {
            indices_push(&mut radicals, self.radicals[slot]);
            slot += 1;
        }
        radicals
    }

    /// Get index.
    pub fn index(self) -> (index: usize)
        ensures
            index == self@.index(),
            index < self@.length.spec_num_of_concepts(),
    {
        proof {
            use_type_invariant(&self);
        }
        let length = self.length;
        let mut concept_index: usize = 0;
        let mut radicals_used = indices_new();
        let radical_intervals = length.radical_intervals();
        let intervals = intervals_slice(&radical_intervals);
        let radical_order_mirrored = length.radical_order_mirrored();
        let mirrored = indices_slice(&radical_order_mirrored);
        let count: usize = length.as_int();
        let ghost chosen = chosen_of(length, self.radicals@);
        proof {
            lemma_chosen_of(length, self.radicals@);
            lemma_index_from_bound(length, chosen, 0);
            length.lemma_counts();
        }
        let mut position: usize = 0;
        while position < count
            invariant
                position <= count,
                count == length.spec_as_int(),
                length == self.length,
                valid_slots(length, self.radicals@),
                chosen == chosen_of(length, self.radicals@),
                chosen.len() == count,
                distinct_radicals(chosen),
                intervals@ == length.spec_radical_intervals(),
                mirrored@ == length.spec_radical_order_mirrored(),
                indices_held(radicals_used) == chosen.take(position as int),
                concept_index + index_from(length, chosen, position as nat) == index_from(
                    length,
                    chosen,
                    0,
                ),
                index_from(length, chosen, 0) < length.spec_num_of_concepts(),
            decreases count - position,
        {
            let radical: u8 = self.radicals[mirrored[position] as usize];
            proof {
                lemma_rank_bound(length, chosen, position as nat);
                lemma_ordered_len(length, position as int, chosen.take(position as int));
            }
            let rank: usize = length.ordered_position(
                position,
                indices_slice(&radicals_used),
                radical,
            ).unwrap();
            proof {
                lemma_index_of_unique(
                    length.spec_radicals_ordered(position as int, chosen.take(position as int)),
                    rank as int,
                );
                assert(rank == rank_at(length, chosen, position as int));
                assert(rank * intervals@[position as int] >= 0) by (nonlinear_arith)
                    requires
                        rank >= 0,
                        intervals@[position as int] >= 0,
                ;
                assert(chosen.take(position as int + 1) =~= chosen.take(position as int).push(
                    radical,
                ));
            }
            concept_index = concept_index + rank * intervals[position];
            indices_push(&mut radicals_used, radical);
            position += 1;
        }
        concept_index
    }

    /// Build [`Concept`] from index string, which holds one more than the index.
    /// # Errors
    /// [`Error::ConceptStringInvalid`] if `index` is no number,
    /// [`Error::ConceptStringNull`] if it is 0, [`Error::ConceptIndexInvalid`] if
    /// it is above the number of concepts of the given [`Length`].
    pub fn from_index_str(index: &str, length: Length) -> (result: Result<Self, Error>)
        ensures
            concept_result(result) == ConceptView::from_index_str(index@, length),
            result matches Ok(concept) ==> concept.valid() && concept@.valid() && concept@.index() + 1
                == spec_parse(index@)->0,
    {
        match parse(index) {
            None => Err(Error::ConceptStringInvalid),
            Some(number) => {
                if number == 0 {
                    Err(Error::ConceptStringNull)
                } else {
                    Self::from_index(number - 1, length)
                }
            },
        }
    }

    /// Get index as string: one more than the index, in decimal digits.
    pub fn index_as_string(self) -> (string: String)
        ensures
            string@ == spec_decimal(self@.index() + 1),
    {
        proof {
            self.spec_length().lemma_counts();
        }
        to_decimal(self.index() + 1)
    }

    /// Get [`Page`] that concept is in.
    pub fn page(self) -> (page: Page)
        ensures
            page.valid(),
            page.spec_length() == self.spec_length(),
            page.spec_index() == self@.index() / (self@.length.spec_concepts_per_page() as nat),
    {
        let length = self.length;
        let index: usize = self.index();
        let per_page: usize = length.concepts_per_page();
        proof {
            length.lemma_counts();
            assert(length.spec_num_of_pages() * per_page == per_page * length.spec_num_of_pages())
                by (nonlinear_arith);
            lemma_multiply_divide_lt(index as int, per_page as int, length.spec_num_of_pages() as int);
        }
        Page::from_index(index / per_page, length).unwrap()
    }

    /// The stems of the concept.
    pub fn stems(self) -> (stems: Stems)
        ensures
            stems.valid(),
            stems.spec_concept() == self,
            stems.spec_stem_index() == 0,
    {
        proof {
            use_type_invariant(&self);
        }
        Stems::new(self)
    }

    /// Get length.
    #[verifier::when_used_as_spec(spec_length)]
    pub fn length(self) -> (length: Length)
        ensures
            length == self.spec_length(),
    {
        self.length
    }
}

/// Numbering undoes counting: the concept with the number `index` has the
/// number `index`, and its slots are valid.
pub proof fn lemma_index_of_numbered(length: Length, index: nat)
    requires
        index < length.spec_num_of_concepts(),
    ensures
        ConceptView::numbered(length, index).valid(),
        ConceptView::numbered(length, index).index() == index,
{
    lemma_concept_slots(length, index);
    lemma_index_from_chosen(length, index, 0);
}

/// Counting undoes numbering: the number of a concept is below the number of
/// concepts of its length, and the concept with that number is the concept.
pub proof fn lemma_numbered_of_index(concept: ConceptView)
    requires
        concept.valid(),
    ensures
        concept.index() < concept.length.spec_num_of_concepts(),
        ConceptView::numbered(concept.length, concept.index()) == concept,
{
    let chosen = chosen_of(concept.length, concept.slots);
    lemma_chosen_of(concept.length, concept.slots);
    lemma_chosen_from_index(concept.length, chosen, concept.length.spec_as_int() as nat);
    assert(chosen.take(concept.length.spec_as_int() as int) =~= chosen);
}

/// The index string of a concept is read back as one more than its index, and
/// stands for the concept.
pub proof fn lemma_index_string(concept: ConceptView)
    requires
        concept.valid(),
    ensures
        spec_parse(spec_decimal(concept.index() + 1)) == Some((concept.index() + 1) as usize),
        ConceptView::from_index_str(spec_decimal(concept.index() + 1), concept.length) == Ok::<
            ConceptView,
            Error,
        >(concept),
{
    lemma_numbered_of_index(concept);
    concept.length.lemma_counts();
    lemma_parse_decimal((concept.index() + 1) as usize);
}

} // verus!
