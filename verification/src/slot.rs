//! Slots: the power-of-two regions of the padded domain that hold one piece each.

use vstd::prelude::*;
use vstd::arithmetic::div_mod::{
    lemma_fundamental_div_mod,
    lemma_fundamental_div_mod_converse,
    lemma_mod_add_multiples_vanish,
};
use vstd::arithmetic::power::lemma_pow_positive;
use vstd::arithmetic::power2::{is_pow2, is_pow2_equiv, lemma2_to64, lemma2_to64_rest};
use crate::bytes_amount::PaddedBytesAmount;

verus! {

/// The length of the smallest slot: four leaves of 32 padded bytes.
pub const MINIMUM_PIECE_LENGTH: u64 = 4 * 32;

/// The length of the largest slot that a 64-bit byte count can name.
pub const MAXIMUM_PIECE_LENGTH: u64 = 0x8000_0000_0000_0000;

/// The first length at or above `needed` reached by doubling a positive
/// `candidate`.
pub open spec fn doubled_until(candidate: int, needed: int) -> int
    decreases
        (if candidate < needed {
            needed - candidate
        } else {
            0
        }),
{
    if candidate >= needed || candidate <= 0 {
        candidate
    } else {
        doubled_until(2 * candidate, needed)
    }
}

/// The length of the slot of a piece of `piece_len` padded bytes.
pub open spec fn slot_len(piece_len: int) -> int {
    doubled_until(MINIMUM_PIECE_LENGTH as int, piece_len)
}

/// `slot` is the least power of two that is at least the minimum length and at
/// least `piece_len`.
pub open spec fn is_least_slot(slot: int, piece_len: int) -> bool {
    &&& is_pow2(slot)
    &&& slot >= MINIMUM_PIECE_LENGTH
    &&& slot >= piece_len
    &&& forall|other: int|
        is_pow2(other) && other >= MINIMUM_PIECE_LENGTH && other
            >= piece_len ==> slot <= other
}

/// The padding that brings a sector of `sector_len` padded bytes up to the next
/// multiple of `slot`; none where it is a multiple already.
pub open spec fn left_padding(sector_len: int, slot: int) -> int {
    (slot - (sector_len + slot)) % slot
}

/// The padding that fills what a piece of `piece_len` padded bytes leaves of
/// its slot.
pub open spec fn right_padding(piece_len: int, slot: int) -> int {
    slot - piece_len
}

/// Twice a power of two is a power of two.
proof fn lemma_double_is_pow2(n: int)
    requires
        is_pow2(n),
    ensures
        is_pow2(2 * n),
{
    reveal(is_pow2);
}

/// Between a power of two and its double lies no power of two.
proof fn lemma_pow2_gap(smaller: int, larger: int)
    requires
        is_pow2(smaller),
        is_pow2(larger),
        smaller < larger,
    ensures
        2 * smaller <= larger,
    decreases larger,
{
    reveal(is_pow2);
    if smaller > 1 {
        lemma_pow2_gap(smaller / 2, larger / 2);
    }
}

/// The two ends of the range of slot lengths are powers of two.
proof fn lemma_bounds_are_pow2()
    ensures
        is_pow2(MINIMUM_PIECE_LENGTH as int),
        is_pow2(MAXIMUM_PIECE_LENGTH as int),
{
    lemma2_to64();
    lemma2_to64_rest();
    lemma_pow_positive(2, 7);
    lemma_pow_positive(2, 63);
    is_pow2_equiv(MINIMUM_PIECE_LENGTH as int);
    is_pow2_equiv(MAXIMUM_PIECE_LENGTH as int);
}

/// Doubling a power of two until it reaches `needed` gives the least power of
/// two that is at least the start and at least `needed`.
proof fn lemma_doubled_until_is_least(candidate: int, needed: int)
    requires
        is_pow2(candidate),
    ensures
        is_pow2(doubled_until(candidate, needed)),
        doubled_until(candidate, needed) >= candidate,
        doubled_until(candidate, needed) >= needed,
        forall|other: int|
            is_pow2(other) && other >= candidate && other >= needed
                ==> doubled_until(candidate, needed) <= other,
    decreases
        (if candidate < needed {
            needed - candidate
        } else {
            0
        }),
{
    assert(candidate > 0) by {
        reveal(is_pow2);
    }
    if candidate < needed {
        lemma_double_is_pow2(candidate);
        lemma_doubled_until_is_least(2 * candidate, needed);
        assert forall|other: int|
            is_pow2(other) && other >= candidate && other
                >= needed implies doubled_until(candidate, needed) <= other by {
            lemma_pow2_gap(candidate, other);
        }
    }
}

/// The slot of a piece is the least power of two that holds the piece and is
/// no shorter than the minimum length.
pub proof fn lemma_slot_len_is_least(piece_len: int)
    ensures
        is_least_slot(slot_len(piece_len), piece_len),
{
    lemma_bounds_are_pow2();
    lemma_doubled_until_is_least(MINIMUM_PIECE_LENGTH as int, piece_len);
}

/// No other length is the least slot of a piece.
pub proof fn lemma_least_slot_is_unique(slot: int, piece_len: int)
    requires
        is_least_slot(slot, piece_len),
    ensures
        slot == slot_len(piece_len),
{
    lemma_slot_len_is_least(piece_len);
}

/// A piece that a 64-bit slot can hold has a slot of at most the maximum
/// length.
pub proof fn lemma_slot_len_fits(piece_len: int)
    requires
        piece_len <= MAXIMUM_PIECE_LENGTH,
    ensures
        MINIMUM_PIECE_LENGTH <= slot_len(piece_len) <= MAXIMUM_PIECE_LENGTH,
{
    lemma_bounds_are_pow2();
    lemma_slot_len_is_least(piece_len);
}

/// The left padding is the distance from the sector's end to the next multiple
/// of the slot's length.
pub proof fn lemma_left_padding_aligns(sector_len: int, slot: int)
    requires
        slot > 0,
    ensures
        0 <= left_padding(sector_len, slot) < slot,
        (sector_len + left_padding(sector_len, slot)) % slot == 0,
        sector_len % slot == 0 ==> left_padding(sector_len, slot) == 0,
        sector_len % slot != 0 ==> left_padding(sector_len, slot) == slot - sector_len % slot,
{
    let over = sector_len % slot;
    let whole = sector_len / slot;
    lemma_fundamental_div_mod(sector_len, slot);
    assert(slot * whole == whole * slot) by (nonlinear_arith);
    if over == 0 {
        assert(slot - (sector_len + slot) == (-whole) * slot + 0) by (nonlinear_arith)
            requires
                sector_len == whole * slot,
        ;
        lemma_fundamental_div_mod_converse(
            slot - (sector_len + slot),
            slot,
            -whole,
            0,
        );
        lemma_fundamental_div_mod_converse(sector_len, slot, whole, 0);
    } else {
        assert(slot - (sector_len + slot) == (-whole - 1) * slot + (slot - over))
            by (nonlinear_arith)
            requires
                sector_len == whole * slot + over,
        ;
        lemma_fundamental_div_mod_converse(
            slot - (sector_len + slot),
            slot,
            -whole - 1,
            slot - over,
        );
        assert(sector_len + (slot - over) == (whole + 1) * slot + 0) by (nonlinear_arith)
            requires
                sector_len == whole * slot + over,
        ;
        lemma_fundamental_div_mod_converse(
            sector_len + (slot - over),
            slot,
            whole + 1,
            0,
        );
    }
}

/// The slot of a piece of `piece_len` padded bytes that follows `sector_len`
/// padded bytes is well formed: its length is a power of two no shorter than
/// the minimum, both paddings are shorter than the slot, the piece with its
/// right padding fills the slot, and the slot starts and ends on a multiple of
/// its length.
pub open spec fn slot_is_aligned(sector_len: int, piece_len: int) -> bool {
    let slot = slot_len(piece_len);
    let left = left_padding(sector_len, slot);
    let right = right_padding(piece_len, slot);
    &&& is_pow2(slot)
    &&& slot >= MINIMUM_PIECE_LENGTH
    &&& 0 <= left < slot
    &&& 0 <= right < slot
    &&& piece_len + right == slot
    &&& (sector_len + left) % slot == 0
    &&& (sector_len + left + piece_len + right) % slot == 0
}

/// The slot of every piece that holds data is well formed, wherever the
/// sector ends.
pub proof fn lemma_slot_is_aligned(sector_len: int, piece_len: int)
    requires
        piece_len > 0,
    ensures
        slot_is_aligned(sector_len, piece_len),
{
    let slot = slot_len(piece_len);
    let left = left_padding(sector_len, slot);
    lemma_slot_len_is_least(piece_len);
    lemma_left_padding_aligns(sector_len, slot);
    lemma_mod_add_multiples_vanish(sector_len + left, slot);
}

/// Computes the length of the slot of a piece.
pub fn piece_slot_len(piece_len: PaddedBytesAmount) -> (slot: PaddedBytesAmount)
    requires
        piece_len.0 <= MAXIMUM_PIECE_LENGTH,
    ensures
        slot.0 == slot_len(piece_len.0 as int),
{
    let mut slot: u64 = MINIMUM_PIECE_LENGTH;
    proof {
        lemma_bounds_are_pow2();
    }
    while slot < piece_len.0
        invariant
            piece_len.0 <= MAXIMUM_PIECE_LENGTH,
            MINIMUM_PIECE_LENGTH <= slot <= MAXIMUM_PIECE_LENGTH,
            is_pow2(slot as int),
            doubled_until(slot as int, piece_len.0 as int) == slot_len(piece_len.0 as int),
        decreases MAXIMUM_PIECE_LENGTH - slot,
    {
        proof {
            lemma_bounds_are_pow2();
            lemma_pow2_gap(slot as int, MAXIMUM_PIECE_LENGTH as int);
            lemma_double_is_pow2(slot as int);
        }
        slot = 2 * slot;
    }
    PaddedBytesAmount(slot)
}

/// Computes the padding, in padded bytes, before and after a piece of
/// `piece_len` padded bytes that follows `sector_len` padded bytes.
pub fn slot_padding(sector_len: PaddedBytesAmount, piece_len: PaddedBytesAmount) -> (padding: (
    PaddedBytesAmount,
    PaddedBytesAmount,
))
    requires
        piece_len.0 <= MAXIMUM_PIECE_LENGTH,
    ensures
        padding.0.0 == left_padding(sector_len.0 as int, slot_len(piece_len.0 as int)),
        padding.1.0 == right_padding(piece_len.0 as int, slot_len(piece_len.0 as int)),
        piece_len.0 > 0 ==> slot_is_aligned(sector_len.0 as int, piece_len.0 as int),
{
    let slot: u64 = piece_slot_len(piece_len).0;
    proof {
        lemma_slot_len_is_least(piece_len.0 as int);
        lemma_left_padding_aligns(sector_len.0 as int, slot as int);
        if piece_len.0 > 0 {
            lemma_slot_is_aligned(sector_len.0 as int, piece_len.0 as int);
        }
    }
    let over: u64 = sector_len.0 % slot;
    let left: u64 = if over == 0 {
        0
    } else {
        slot - over
    };
    let right: u64 = slot - piece_len.0;
    (PaddedBytesAmount(left), PaddedBytesAmount(right))
}

} // verus!
