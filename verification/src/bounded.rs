//! Bounded inline buffers.
//!
//! The buffers are `arrayvec`'s. Verus does not look inside them: what a buffer
//! holds has a name here, and each operation on a buffer is a small function
//! whose contract is taken on trust from the `arrayvec` source.

use crate::script::ipa_peter::IpaLetter;
use crate::structure::Letter;
use arrayvec::{ArrayString, ArrayVec};
use vstd::prelude::*;

verus! {

/// `arrayvec::ArrayVec`, a vector of at most `CAP` elements that lives where it
/// is declared. Nothing is known of what is inside but through the names below.
#[verifier::external_type_specification]
#[verifier::external_body]
#[verifier::reject_recursive_types(T)]
pub struct ExArrayVec<T, const CAP: usize>(ArrayVec<T, CAP>);

/// `arrayvec::ArrayString`, a string of at most `CAP` bytes that lives where it
/// is declared. Nothing is known of what is inside but through the name below.
#[verifier::external_type_specification]
#[verifier::external_body]
pub struct ExArrayString<const CAP: usize>(ArrayString<CAP>);

/// The small indices (radicals or positions) that a buffer holds, first pushed first.
pub uninterp spec fn indices_held(buffer: ArrayVec<u8, 4>) -> Seq<u8>;

/// The intervals that a buffer holds, first pushed first.
pub uninterp spec fn intervals_held(buffer: ArrayVec<usize, 4>) -> Seq<usize>;

/// The letters of a structure that a buffer holds, first pushed first.
pub uninterp spec fn letters_held(buffer: ArrayVec<Letter, 8>) -> Seq<Letter>;

/// The letters of a word in the making that a buffer holds, first pushed first.
pub uninterp spec fn sounds_held(buffer: ArrayVec<IpaLetter, 8>) -> Seq<IpaLetter>;

/// The characters that a text buffer of 64 bytes holds, as UTF-8.
pub uninterp spec fn text_held(buffer: ArrayString<64>) -> Seq<char>;

/// Number of bytes that a text takes in a text buffer.
pub open spec fn byte_len(text: Seq<char>) -> nat {
    vstd::utf8::encode_utf8(text).len()
}

/// `ArrayVec::new`: the new buffer holds nothing.
#[verifier::external_body]
pub(crate) fn indices_new() -> (buffer: ArrayVec<u8, 4>)
    ensures
        indices_held(buffer) == Seq::<u8>::empty(),
{
    ArrayVec::new()
}

/// `ArrayVec::push`: appends `index` behind what the buffer holds. `push` panics
/// on a full buffer, so the buffer must have room.
#[verifier::external_body]
pub(crate) fn indices_push(buffer: &mut ArrayVec<u8, 4>, index: u8)
    requires
        indices_held(*old(buffer)).len() < 4,
    ensures
        indices_held(*final(buffer)) == indices_held(*old(buffer)).push(index),
{
    buffer.push(index)
}

/// `ArrayVec::as_slice`: the slice holds what the buffer holds.
#[verifier::external_body]
pub(crate) fn indices_slice(buffer: &ArrayVec<u8, 4>) -> (slice: &[u8])
    ensures
        slice@ == indices_held(*buffer),
{
    buffer.as_slice()
}

/// `ArrayVec::new`: the new buffer holds nothing.
#[verifier::external_body]
pub(crate) fn intervals_new() -> (buffer: ArrayVec<usize, 4>)
    ensures
        intervals_held(buffer) == Seq::<usize>::empty(),
{
    ArrayVec::new()
}

/// `ArrayVec::push`: appends `interval` behind what the buffer holds. `push`
/// panics on a full buffer, so the buffer must have room.
#[verifier::external_body]
pub(crate) fn intervals_push(buffer: &mut ArrayVec<usize, 4>, interval: usize)
    requires
        intervals_held(*old(buffer)).len() < 4,
    ensures
        intervals_held(*final(buffer)) == intervals_held(*old(buffer)).push(interval),
{
    buffer.push(interval)
}

/// `ArrayVec::as_slice`: the slice holds what the buffer holds.
#[verifier::external_body]
pub(crate) fn intervals_slice(buffer: &ArrayVec<usize, 4>) -> (slice: &[usize])
    ensures
        slice@ == intervals_held(*buffer),
{
    buffer.as_slice()
}

/// `ArrayVec::new`: the new buffer holds nothing.
#[verifier::external_body]
pub(crate) fn letters_new() -> (buffer: ArrayVec<Letter, 8>)
    ensures
        letters_held(buffer) == Seq::<Letter>::empty(),
{
    ArrayVec::new()
}

/// `ArrayVec::push`: appends `letter` behind what the buffer holds. `push`
/// panics on a full buffer, so the buffer must have room.
#[verifier::external_body]
pub(crate) fn letters_push(buffer: &mut ArrayVec<Letter, 8>, letter: Letter)
    requires
        letters_held(*old(buffer)).len() < 8,
    ensures
        letters_held(*final(buffer)) == letters_held(*old(buffer)).push(letter),
{
    buffer.push(letter)
}

/// `ArrayVec::as_slice`: the slice holds what the buffer holds.
#[verifier::external_body]
pub(crate) fn letters_slice(buffer: &ArrayVec<Letter, 8>) -> (slice: &[Letter])
    ensures
        slice@ == letters_held(*buffer),
{
    buffer.as_slice()
}

/// `ArrayVec::new`: the new buffer holds nothing.
#[verifier::external_body]
pub(crate) fn sounds_new() -> (buffer: ArrayVec<IpaLetter, 8>)
    ensures
        sounds_held(buffer) == Seq::<IpaLetter>::empty(),
{
    ArrayVec::new()
}

/// `ArrayVec::push`: appends `letter` behind what the buffer holds. `push`
/// panics on a full buffer, so the buffer must have room.
#[verifier::external_body]
pub(crate) fn sounds_push(buffer: &mut ArrayVec<IpaLetter, 8>, letter: IpaLetter)
    requires
        sounds_held(*old(buffer)).len() < 8,
    ensures
        sounds_held(*final(buffer)) == sounds_held(*old(buffer)).push(letter),
{
    buffer.push(letter)
}

/// `ArrayVec::as_slice`: the slice holds what the buffer holds.
#[verifier::external_body]
pub(crate) fn sounds_slice(buffer: &ArrayVec<IpaLetter, 8>) -> (slice: &[IpaLetter])
    ensures
        slice@ == sounds_held(*buffer),
{
    buffer.as_slice()
}

/// `ArrayVec::as_mut_slice`, and an assignment to one place of the slice: the
/// buffer holds `letter` at `place` and is otherwise as before. The slice has as
/// many places as the buffer holds letters, so `place` must be one of them.
#[verifier::external_body]
pub(crate) fn sounds_set(buffer: &mut ArrayVec<IpaLetter, 8>, place: usize, letter: IpaLetter)
    requires
        place < sounds_held(*old(buffer)).len(),
    ensures
        sounds_held(*final(buffer)) == sounds_held(*old(buffer)).update(place as int, letter),
{
    buffer.as_mut_slice()[place] = letter;
}

/// `ArrayString::new`: the new text buffer is empty.
#[verifier::external_body]
pub(crate) fn text_new() -> (buffer: ArrayString<64>)
    ensures
        text_held(buffer) == Seq::<char>::empty(),
{
    ArrayString::new()
}

/// `ArrayString::push_str`: appends `text`. `push_str` panics where the bytes of
/// `text` do not fit into what is left of the 64 bytes, so they must fit.
#[verifier::external_body]
pub(crate) fn text_push_str(buffer: &mut ArrayString<64>, text: &str)
    requires
        byte_len(text_held(*old(buffer))) + byte_len(text@) <= 64,
    ensures
        text_held(*final(buffer)) == text_held(*old(buffer)) + text@,
{
    buffer.push_str(text)
}

/// `ArrayString::try_push_str`: appends `text` if its bytes fit into what is left
/// of the 64 bytes, and says whether it did; a text that does not fit leaves the
/// buffer as it was.
#[verifier::external_body]
pub(crate) fn text_try_push_str(buffer: &mut ArrayString<64>, text: &str) -> (pushed: bool)
    ensures
        pushed <==> byte_len(text_held(*old(buffer))) + byte_len(text@) <= 64,
        pushed ==> text_held(*final(buffer)) == text_held(*old(buffer)) + text@,
        !pushed ==> text_held(*final(buffer)) == text_held(*old(buffer)),
{
    buffer.try_push_str(text).is_ok()
}

/// `ArrayString::clear`: empties the text buffer.
#[verifier::external_body]
pub(crate) fn text_clear(buffer: &mut ArrayString<64>)
    ensures
        text_held(*final(buffer)) == Seq::<char>::empty(),
{
    buffer.clear()
}

/// `ArrayString::as_str`: the string slice holds what the buffer holds.
#[verifier::external_body]
pub(crate) fn text_as_str(buffer: &ArrayString<64>) -> (text: &str)
    ensures
        text@ == text_held(*buffer),
{
    buffer.as_str()
}

/// A text of characters that each take two bytes at most.
pub open spec fn short_text(text: Seq<char>) -> bool {
    forall|place: int| 0 <= place < text.len() ==> (#[trigger] text[place] as u32) < 0x800
}

/// A text that is put together takes the bytes of its parts.
pub proof fn lemma_byte_len_append(first: Seq<char>, second: Seq<char>)
    ensures
        byte_len(first + second) == byte_len(first) + byte_len(second),
    decreases first.len(),
{
    if first.len() == 0 {
        assert(first + second =~= second);
    } else {
        assert((first + second).drop_first() =~= first.drop_first() + second);
        lemma_byte_len_append(first.drop_first(), second);
    }
}

/// A short text takes two bytes for each character at most.
pub proof fn lemma_short_text(text: Seq<char>)
    requires
        short_text(text),
    ensures
        byte_len(text) <= 2 * text.len(),
    decreases text.len(),
{
    if text.len() > 0 {
        assert(short_text(text.drop_first())) by {
            assert forall|place: int| 0 <= place < text.drop_first().len() implies (
            #[trigger] text.drop_first()[place] as u32) < 0x800 by {
                assert(text.drop_first()[place] == text[place + 1]);
            }
        }
        lemma_short_text(text.drop_first());
    }
}

} // verus!
