//! The model of a layout: what the padding of a piece, the length of a run of
//! pieces and the start of a piece are, and what holds of them.

use vstd::prelude::*;
use crate::bytes_amount::{ByteConverter, OneToOne, UnpaddedBytesAmount};
use crate::pieces::{PieceMetadata, PiecePadding};
use crate::slot::{
    left_padding,
    lemma_slot_is_aligned,
    lemma_slot_len_fits,
    right_padding,
    slot_is_aligned,
    slot_len,
    MAXIMUM_PIECE_LENGTH,
};

verus! {

/// A piece that can be given a slot: it holds data, and its padded length is
/// no more than the longest slot.
pub open spec fn is_placeable<C: ByteConverter>(conv: &C, piece_length: UnpaddedBytesAmount) -> bool {
    &&& piece_length.0 > 0
    &&& conv.padded_len(piece_length.0) <= MAXIMUM_PIECE_LENGTH
}

/// The padding before and after a piece of `piece_length` bytes that follows
/// `sector_length` bytes: both lengths are taken to the padded domain, the
/// slot is laid out there, and its two paddings are taken back.
pub open spec fn piece_padding<C: ByteConverter>(
    conv: &C,
    sector_length: UnpaddedBytesAmount,
    piece_length: UnpaddedBytesAmount,
) -> PiecePadding {
    let sector_len = conv.padded_len(sector_length.0) as int;
    let piece_len = conv.padded_len(piece_length.0) as int;
    let slot = slot_len(piece_len);
    (
        UnpaddedBytesAmount(conv.unpadded_len(left_padding(sector_len, slot) as u64)),
        UnpaddedBytesAmount(conv.unpadded_len(right_padding(piece_len, slot) as u64)),
    )
}

/// The length of `pieces` laid out from the start of a sector, padding
/// included: each piece adds its left padding, its data and its right padding
/// to the length of the pieces before it. Where `layout_fits` holds, every
/// length on the way is a 64-bit byte count.
pub open spec fn sum_lengths<C: ByteConverter>(conv: &C, pieces: Seq<PieceMetadata>) -> int
    decreases pieces.len(),
{
    if pieces.len() == 0 {
        0
    } else {
        let before = sum_lengths(conv, pieces.drop_last());
        let size = pieces.last().num_bytes;
        let (left, right) = piece_padding(conv, UnpaddedBytesAmount(before as u64), size);
        before + left.0 + size.0 + right.0
    }
}

/// A layout that 64-bit byte counts can express: every piece can be given a
/// slot, and the length of the whole fits.
pub open spec fn layout_fits<C: ByteConverter>(conv: &C, pieces: Seq<PieceMetadata>) -> bool {
    &&& forall|i: int| 0 <= i < pieces.len() ==> is_placeable(conv, #[trigger] pieces[i].num_bytes)
    &&& sum_lengths(conv, pieces) <= u64::MAX
}

/// The number of pieces at the front of `pieces` whose key is not `key`: the
/// position of the first piece with that key, or the length of `pieces` where
/// no piece has it.
pub open spec fn pieces_before(pieces: Seq<PieceMetadata>, key: Seq<char>) -> nat
    decreases pieces.len(),
{
    if pieces.len() == 0 || pieces.first().piece_key@ == key {
        0
    } else {
        1 + pieces_before(pieces.drop_first(), key)
    }
}

/// The offset at which the data of the piece at `position` starts: the length
/// of the pieces before it, and its own left padding.
pub open spec fn piece_start<C: ByteConverter>(
    conv: &C,
    pieces: Seq<PieceMetadata>,
    position: int,
) -> int {
    let before = sum_lengths(conv, pieces.take(position));
    before + piece_padding(
        conv,
        UnpaddedBytesAmount(before as u64),
        pieces[position].num_bytes,
    ).0.0
}

/// The start of the piece at `position` can be computed: the pieces up to it
/// can be given slots, and the offset fits in 64 bits.
pub open spec fn start_fits<C: ByteConverter>(
    conv: &C,
    pieces: Seq<PieceMetadata>,
    position: int,
) -> bool {
    &&& forall|i: int| 0 <= i <= position ==> is_placeable(conv, #[trigger] pieces[i].num_bytes)
    &&& piece_start(conv, pieces, position) <= u64::MAX
}

/// No piece before position `pieces_before` has the key, and the piece at that
/// position has it, if there is one.
pub proof fn lemma_pieces_before(pieces: Seq<PieceMetadata>, key: Seq<char>)
    ensures
        pieces_before(pieces, key) <= pieces.len(),
        forall|j: int|
            0 <= j < pieces_before(pieces, key) ==> (#[trigger] pieces[j]).piece_key@ != key,
        pieces_before(pieces, key) < pieces.len() ==> pieces[pieces_before(
            pieces,
            key,
        ) as int].piece_key@ == key,
    decreases pieces.len(),
{
    if pieces.len() > 0 && pieces.first().piece_key@ != key {
        let rest = pieces.drop_first();
        lemma_pieces_before(rest, key);
        assert forall|j: int| 0 <= j < pieces_before(pieces, key) implies (#[trigger] pieces[j]).piece_key@
            != key by {
            if j > 0 {
                assert(pieces[j] == rest[j - 1]);
            }
        }
    }
}

/// A position before which no piece has the key, and at which a piece has it
/// or the sequence ends, is `pieces_before`.
pub proof fn lemma_first_match_is_pieces_before(
    pieces: Seq<PieceMetadata>,
    key: Seq<char>,
    position: int,
)
    requires
        0 <= position <= pieces.len(),
        forall|j: int| 0 <= j < position ==> (#[trigger] pieces[j]).piece_key@ != key,
        position < pieces.len() ==> pieces[position].piece_key@ == key,
    ensures
        position == pieces_before(pieces, key),
{
    lemma_pieces_before(pieces, key);
}

/// A run of pieces is no shorter than any run it starts with, and no length is
/// negative.
pub proof fn lemma_sum_lengths_grows<C: ByteConverter>(
    conv: &C,
    pieces: Seq<PieceMetadata>,
    count: int,
)
    requires
        0 <= count <= pieces.len(),
    ensures
        0 <= sum_lengths(conv, pieces.take(count)) <= sum_lengths(conv, pieces),
    decreases pieces.len(),
{
    if count == pieces.len() {
        assert(pieces.take(count) =~= pieces);
        if count > 0 {
            lemma_sum_lengths_grows(conv, pieces.drop_last(), count - 1);
        }
    } else {
        assert(pieces.drop_last().take(count) =~= pieces.take(count));
        lemma_sum_lengths_grows(conv, pieces.drop_last(), count);
    }
}

/// The length of a run that ends with the piece at `position` is the start of
/// that piece, its data and its right padding.
pub proof fn lemma_sum_lengths_step<C: ByteConverter>(
    conv: &C,
    pieces: Seq<PieceMetadata>,
    position: int,
)
    requires
        0 <= position < pieces.len(),
    ensures
        sum_lengths(conv, pieces.take(position + 1)) == piece_start(conv, pieces, position)
            + pieces[position].num_bytes.0 + piece_padding(
            conv,
            UnpaddedBytesAmount(sum_lengths(conv, pieces.take(position)) as u64),
            pieces[position].num_bytes,
        ).1.0,
{
    assert(pieces.take(position + 1).drop_last() =~= pieces.take(position));
}

/// The slot of every piece that holds data is well formed in the padded
/// domain, whatever the converter and whatever precedes the piece.
pub proof fn lemma_piece_slot_is_aligned<C: ByteConverter>(
    conv: &C,
    sector_length: UnpaddedBytesAmount,
    piece_length: UnpaddedBytesAmount,
)
    requires
        piece_length.0 > 0,
        conv.is_valid(piece_length.0),
    ensures
        slot_is_aligned(
            conv.padded_len(sector_length.0) as int,
            conv.padded_len(piece_length.0) as int,
        ),
{
    conv.padded_covers_unpadded(piece_length.0);
    lemma_slot_is_aligned(
        conv.padded_len(sector_length.0) as int,
        conv.padded_len(piece_length.0) as int,
    );
}

/// Where a byte is a byte, the running total after every piece of a layout is
/// a multiple of the length of that piece's slot.
pub proof fn lemma_running_total_is_aligned(pieces: Seq<PieceMetadata>, position: int)
    requires
        0 <= position < pieces.len(),
        layout_fits(&OneToOne, pieces),
    ensures
        sum_lengths(&OneToOne, pieces.take(position + 1)) % slot_len(
            pieces[position].num_bytes.0 as int,
        ) == 0,
{
    let conv = &OneToOne;
    let before = sum_lengths(conv, pieces.take(position));
    let piece_len = pieces[position].num_bytes.0 as int;
    lemma_sum_lengths_grows(conv, pieces, position);
    lemma_sum_lengths_step(conv, pieces, position);
    lemma_slot_len_fits(piece_len);
    lemma_slot_is_aligned(before, piece_len);
}

/// Pieces do not overlap, and they start in the order of the sequence: the
/// data of a piece ends at or before the start of the data of every later
/// piece.
pub proof fn lemma_pieces_do_not_overlap<C: ByteConverter>(
    conv: &C,
    pieces: Seq<PieceMetadata>,
    earlier: int,
    later: int,
)
    requires
        0 <= earlier < later < pieces.len(),
    ensures
        0 <= piece_start(conv, pieces, earlier),
        piece_start(conv, pieces, earlier) + pieces[earlier].num_bytes.0 <= piece_start(
            conv,
            pieces,
            later,
        ),
{
    lemma_sum_lengths_grows(conv, pieces, earlier);
    lemma_sum_lengths_step(conv, pieces, earlier);
    assert(pieces.take(later).take(earlier + 1) =~= pieces.take(earlier + 1));
    lemma_sum_lengths_grows(conv, pieces.take(later), earlier + 1);
}

/// The start of a piece depends on the pieces up to it alone: pieces added
/// behind it leave it where it is.
pub proof fn lemma_start_ignores_later_pieces<C: ByteConverter>(
    conv: &C,
    pieces: Seq<PieceMetadata>,
    added: Seq<PieceMetadata>,
    position: int,
)
    requires
        0 <= position < pieces.len(),
    ensures
        piece_start(conv, pieces + added, position) == piece_start(conv, pieces, position),
{
    assert((pieces + added).take(position) =~= pieces.take(position));
}

} // verus!
