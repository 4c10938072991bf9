//! Utility functions.

use unicode_segmentation::UnicodeSegmentation;
use vstd::prelude::*;

verus! {

/// The extended grapheme clusters of a text, in order.
pub uninterp spec fn grapheme_clusters(text: Seq<char>) -> Seq<Seq<char>>;

/// The texts of a list of strings.
pub open spec fn texts(strings: Seq<String>) -> Seq<Seq<char>> {
    strings.map_values(|string: String| string@)
}

/// `UnicodeSegmentation::graphemes` with extended clusters: the strings handed
/// out are the grapheme clusters of `text`, in order.
#[verifier::external_body]
pub(crate) fn graphemes(text: &str) -> (clusters: Vec<String>)
    ensures
        texts(clusters@) == grapheme_clusters(text@),
{
    text.graphemes(true).map(|cluster| cluster.to_string()).collect()
}

/// Convenience functions for strings to separate between chars and graphemes.
pub trait GraphemeIdentity {
    /// The text that the value holds.
    spec fn text(&self) -> Seq<char>;

    /// Get length in graphemes.
    fn grapheme_len(&self) -> (len: usize)
        ensures
            len == grapheme_clusters(self.text()).len(),
    ;

    /// Get specific grapheme.
    fn grapheme_nth(&self, index: usize) -> (grapheme: Option<String>)
        ensures
            index < grapheme_clusters(self.text()).len() ==> grapheme is Some
                && grapheme->0@ == grapheme_clusters(self.text())[index as int],
            index >= grapheme_clusters(self.text()).len() ==> grapheme is None,
    ;
}

impl GraphemeIdentity for str {
    open spec fn text(&self) -> Seq<char> {
        self@
    }

    fn grapheme_len(&self) -> (len: usize) {
        let clusters = graphemes(self);
        clusters.len()
    }

    fn grapheme_nth(&self, index: usize) -> (grapheme: Option<String>) {
        let clusters = graphemes(self);
        if index < clusters.len() {
            Some(clusters[index].clone())
        } else {
            None
        }
    }
}

/// Convert between number types, for values that the other type holds.
pub trait PConvert<T>: Sized {
    /// Whether the other type holds this value.
    spec fn fits(self) -> bool;

    /// The value as a number.
    spec fn number(self) -> int;

    /// The value of the other type as a number.
    spec fn number_of(from: T) -> int;

    /// Whether this type holds the value of the other type.
    spec fn holds(from: T) -> bool;

    /// Convert `Self` to `T`.
    fn pinto(self) -> (into: T)
        requires
            self.fits(),
        ensures
            Self::number_of(into) == self.number(),
    ;

    /// Convert to `Self` from `T`.
    fn pfrom(from: T) -> (into: Self)
        requires
            Self::holds(from),
        ensures
            into.number() == Self::number_of(from),
    ;
}

impl PConvert<u8> for usize {
    open spec fn fits(self) -> bool {
        self <= u8::MAX
    }

    open spec fn number(self) -> int {
        self as int
    }

    open spec fn number_of(from: u8) -> int {
        from as int
    }

    open spec fn holds(from: u8) -> bool {
        true
    }

    fn pinto(self) -> (into: u8) {
        self as u8
    }

    fn pfrom(from: u8) -> (into: Self) {
        from as usize
    }
}

impl PConvert<usize> for u8 {
    open spec fn fits(self) -> bool {
        true
    }

    open spec fn number(self) -> int {
        self as int
    }

    open spec fn number_of(from: usize) -> int {
        from as int
    }

    open spec fn holds(from: usize) -> bool {
        from <= u8::MAX
    }

    fn pinto(self) -> (into: usize) {
        self as usize
    }

    fn pfrom(from: usize) -> (into: Self) {
        from as u8
    }
}

/// Utility trait for addition that does not overflow.
pub trait PAdd: Sized {
    /// The value as a number.
    spec fn added(self) -> int;

    /// Whether the type holds `number`.
    spec fn holds_sum(number: int) -> bool;

    /// Adds by value.
    fn padd(self, value: Self) -> (sum: Self)
        requires
            Self::holds_sum(self.added() + value.added()),
        ensures
            sum.added() == self.added() + value.added(),
    ;
}

/// Utility trait for subtraction that does not overflow.
pub trait PSub: Sized {
    /// The value as a number.
    spec fn subtracted(self) -> int;

    /// Whether the type holds `number`.
    spec fn holds_difference(number: int) -> bool;

    /// Subtracts by value.
    fn psub(self, value: Self) -> (difference: Self)
        requires
            Self::holds_difference(self.subtracted() - value.subtracted()),
        ensures
            difference.subtracted() == self.subtracted() - value.subtracted(),
    ;
}

/// Utility trait for multiplication that does not overflow.
pub trait PMul: Sized {
    /// The value as a number.
    spec fn multiplied(self) -> int;

    /// Whether the type holds `number`.
    spec fn holds_product(number: int) -> bool;

    /// Multiplies by value.
    fn pmul(self, value: Self) -> (product: Self)
        requires
            Self::holds_product(self.multiplied() * value.multiplied()),
        ensures
            product.multiplied() == self.multiplied() * value.multiplied(),
    ;
}

/// Utility trait for division by a value that is not 0.
pub trait PDiv: Sized {
    /// The value as a number.
    spec fn divided(self) -> int;

    /// Divides by value.
    fn pdiv(self, value: Self) -> (quotient: Self)
        requires
            value.divided() != 0,
        ensures
            quotient.divided() == self.divided() / value.divided(),
    ;
}

impl PAdd for usize {
    open spec fn added(self) -> int {
        self as int
    }

    open spec fn holds_sum(number: int) -> bool {
        0 <= number <= usize::MAX
    }

    fn padd(self, value: Self) -> (sum: Self) {
        self + value
    }
}

impl PSub for usize {
    open spec fn subtracted(self) -> int {
        self as int
    }

    open spec fn holds_difference(number: int) -> bool {
        0 <= number <= usize::MAX
    }

    fn psub(self, value: Self) -> (difference: Self) {
        self - value
    }
}

impl PMul for usize {
    open spec fn multiplied(self) -> int {
        self as int
    }

    open spec fn holds_product(number: int) -> bool {
        0 <= number <= usize::MAX
    }

    fn pmul(self, value: Self) -> (product: Self) {
        self * value
    }
}

impl PDiv for usize {
    open spec fn divided(self) -> int {
        self as int
    }

    fn pdiv(self, value: Self) -> (quotient: Self) {
        self / value
    }
}

impl PAdd for u8 {
    open spec fn added(self) -> int {
        self as int
    }

    open spec fn holds_sum(number: int) -> bool {
        0 <= number <= u8::MAX
    }

    fn padd(self, value: Self) -> (sum: Self) {
        self + value
    }
}

} // verus!
