//! Byte counts in the two domains of a sector, and the conversion between them.

use vstd::prelude::*;

verus! {

/// A byte count as the owner of the data sees it.
#[derive(Clone, Copy, Debug, PartialEq, Eq, Structural, PartialOrd, Ord, Hash, Default)]
pub struct UnpaddedBytesAmount(pub u64);

/// A byte count as stored in the sector, auxiliary bits included.
#[derive(Clone, Copy, Debug, PartialEq, Eq, Structural, PartialOrd, Ord, Hash, Default)]
pub struct PaddedBytesAmount(pub u64);

/// The conversion between the two domains.
///
/// A converter is a pair of pure functions: `padded_len` and `unpadded_len`
/// say what they are, `to_padded` and `to_unpadded` compute them. On the data
/// lengths it is meant for, which `is_valid` names, padding loses nothing,
/// keeps the order of lengths and never shrinks data.
pub trait ByteConverter {
    /// The padded length that stands for `unpadded` bytes of data.
    spec fn padded_len(&self, unpadded: u64) -> u64;

    /// The data bytes that `padded` bytes of the sector hold.
    spec fn unpadded_len(&self, padded: u64) -> u64;

    /// The data lengths that the converter is meant for. Beyond them a
    /// conversion still has a result, of which nothing is known.
    spec fn is_valid(&self, unpadded: u64) -> bool;

    /// A length taken to the padded domain and back is the length itself.
    proof fn round_trip(&self, unpadded: u64)
        requires
            self.is_valid(unpadded),
        ensures
            self.unpadded_len(self.padded_len(unpadded)) == unpadded,
    ;

    /// Of two lengths the shorter has the shorter padded length, or the same.
    proof fn monotonic(&self, shorter: u64, longer: u64)
        requires
            self.is_valid(shorter),
            self.is_valid(longer),
            shorter <= longer,
        ensures
            self.padded_len(shorter) <= self.padded_len(longer),
    ;

    /// A padded length is no less than the data it was derived from.
    proof fn padded_covers_unpadded(&self, unpadded: u64)
        requires
            self.is_valid(unpadded),
        ensures
            self.padded_len(unpadded) >= unpadded,
    ;

    fn to_padded(&self, amount: UnpaddedBytesAmount) -> (padded: PaddedBytesAmount)
        ensures
            padded.0 == self.padded_len(amount.0),
    ;

    fn to_unpadded(&self, amount: PaddedBytesAmount) -> (unpadded: UnpaddedBytesAmount)
        ensures
            unpadded.0 == self.unpadded_len(amount.0),
    ;
}

/// The converter of a scheme without auxiliary bits: a byte is a byte, and
/// every length is valid.
#[derive(Clone, Copy, Debug, Default)]
pub struct OneToOne;

impl ByteConverter for OneToOne {
    open spec fn padded_len(&self, unpadded: u64) -> u64 {
        unpadded
    }

    open spec fn unpadded_len(&self, padded: u64) -> u64 {
        padded
    }

    open spec fn is_valid(&self, unpadded: u64) -> bool {
        true
    }

    proof fn round_trip(&self, unpadded: u64) {
    }

    proof fn monotonic(&self, shorter: u64, longer: u64) {
    }

    proof fn padded_covers_unpadded(&self, unpadded: u64) {
    }

    fn to_padded(&self, amount: UnpaddedBytesAmount) -> (padded: PaddedBytesAmount) {
        PaddedBytesAmount(amount.0)
    }

    fn to_unpadded(&self, amount: PaddedBytesAmount) -> (unpadded: UnpaddedBytesAmount) {
        UnpaddedBytesAmount(amount.0)
    }
}

} // verus!
