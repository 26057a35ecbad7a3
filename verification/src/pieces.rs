//! Pieces and the functions that lay them out: the padding around a piece,
//! the length of a run of pieces with its padding, and where a piece starts.

use vstd::prelude::*;
use vstd::slice::slice_subrange;
use crate::bytes_amount::{ByteConverter, UnpaddedBytesAmount};
use crate::layout::{
    is_placeable,
    layout_fits,
    lemma_first_match_is_pieces_before,
    lemma_pieces_before,
    lemma_piece_slot_is_aligned,
    lemma_sum_lengths_grows,
    lemma_sum_lengths_step,
    piece_padding,
    piece_start,
    pieces_before,
    start_fits,
    sum_lengths,
};
use crate::slot::{slot_is_aligned, slot_padding, MAXIMUM_PIECE_LENGTH};

verus! {

/// One piece of a sector: its key, the length of its data, and its commitment
/// where it is known. Keys need not be unique; a lookup finds the first piece
/// with a key.
#[derive(Clone, Debug, PartialEq, Eq)]
pub struct PieceMetadata {
    pub piece_key: String,
    pub num_bytes: UnpaddedBytesAmount,
    pub comm_p: Option<[u8; 32]>,
}

/// The padding before and after a piece, in unpadded bytes.
pub type PiecePadding = (UnpaddedBytesAmount, UnpaddedBytesAmount);

/// Computes the padding before and after a piece of `piece_length` bytes that
/// is added to a sector of `sector_length` bytes.
pub fn get_piece_padding<C: ByteConverter>(
    conv: &C,
    sector_length: UnpaddedBytesAmount,
    piece_length: UnpaddedBytesAmount,
) -> (padding: PiecePadding)
    requires
        is_placeable(conv, piece_length),
    ensures
        padding == piece_padding(conv, sector_length, piece_length),
        conv.is_valid(piece_length.0) ==> slot_is_aligned(
            conv.padded_len(sector_length.0) as int,
            conv.padded_len(piece_length.0) as int,
        ),
{
    proof {
        if conv.is_valid(piece_length.0) {
            lemma_piece_slot_is_aligned(conv, sector_length, piece_length);
        }
    }
    let sector_length_on_disk = conv.to_padded(sector_length);
    let piece_length_on_disk = conv.to_padded(piece_length);
    let (left_padding, right_padding) = slot_padding(sector_length_on_disk, piece_length_on_disk);
    (conv.to_unpadded(left_padding), conv.to_unpadded(right_padding))
}

/// Computes the padding before and after a piece as `get_piece_padding` does,
/// or nothing where the piece cannot be given a slot.
pub fn checked_piece_padding<C: ByteConverter>(
    conv: &C,
    sector_length: UnpaddedBytesAmount,
    piece_length: UnpaddedBytesAmount,
) -> (padding: Option<PiecePadding>)
    ensures
        padding == if is_placeable(conv, piece_length) {
            Some(piece_padding(conv, sector_length, piece_length))
        } else {
            None
        },
{
    if piece_length.0 == 0 || conv.to_padded(piece_length).0 > MAXIMUM_PIECE_LENGTH {
        None
    } else {
        Some(get_piece_padding(conv, sector_length, piece_length))
    }
}

/// Computes the length of `pieces` laid out from the start of a sector,
/// padding included.
pub fn sum_piece_lengths<C: ByteConverter>(conv: &C, pieces: &[PieceMetadata]) -> (total:
    UnpaddedBytesAmount)
    requires
        layout_fits(conv, pieces@),
    ensures
        total.0 == sum_lengths(conv, pieces@),
{
    let mut acc = UnpaddedBytesAmount(0);
    let mut i: usize = 0;
    while i < pieces.len()
        invariant
            i <= pieces@.len(),
            layout_fits(conv, pieces@),
            acc.0 == sum_lengths(conv, pieces@.take(i as int)),
        decreases pieces@.len() - i,
    {
        let size = pieces[i].num_bytes;
        let (l, r) = get_piece_padding(conv, acc, size);
        proof {
            lemma_sum_lengths_step(conv, pieces@, i as int);
            lemma_sum_lengths_grows(conv, pieces@, i + 1);
        }
        acc = UnpaddedBytesAmount(acc.0 + l.0 + size.0 + r.0);
        i += 1;
    }
    proof {
        assert(pieces@.take(i as int) =~= pieces@);
    }
    acc
}

/// Computes the length of `pieces` as `sum_piece_lengths` does, or nothing
/// where a piece cannot be given a slot or the length does not fit in 64 bits.
pub fn checked_sum_piece_lengths<C: ByteConverter>(conv: &C, pieces: &[PieceMetadata]) -> (total:
    Option<UnpaddedBytesAmount>)
    ensures
        match total {
            Some(length) => layout_fits(conv, pieces@) && length.0 == sum_lengths(conv, pieces@),
            None => !layout_fits(conv, pieces@),
        },
{
    let mut acc = UnpaddedBytesAmount(0);
    let mut i: usize = 0;
    while i < pieces.len()
        invariant
            i <= pieces@.len(),
            forall|j: int| 0 <= j < i ==> is_placeable(conv, #[trigger] pieces@[j].num_bytes),
            acc.0 == sum_lengths(conv, pieces@.take(i as int)),
        decreases pieces@.len() - i,
    {
        let size = pieces[i].num_bytes;
        proof {
            lemma_sum_lengths_step(conv, pieces@, i as int);
            lemma_sum_lengths_grows(conv, pieces@, i + 1);
        }
        match checked_piece_padding(conv, acc, size) {
            Some((l, r)) => {
                let total: u128 = acc.0 as u128 + l.0 as u128 + size.0 as u128 + r.0 as u128;
                if total > u64::MAX as u128 {
                    return None;
                }
                acc = UnpaddedBytesAmount(total as u64);
            },
            None => {
                return None;
            },
        }
        i += 1;
    }
    proof {
        assert(pieces@.take(i as int) =~= pieces@);
    }
    Some(acc)
}

/// Finds the position of the first piece with the key `piece_key`, or the
/// number of pieces where none has it.
fn position_of_key(pieces: &Vec<PieceMetadata>, piece_key: &str) -> (position: usize)
    ensures
        position == pieces_before(pieces@, piece_key@),
{
    let key = piece_key.to_owned();
    let mut i: usize = 0;
    while i < pieces.len()
        invariant
            i <= pieces@.len(),
            key@ == piece_key@,
            forall|j: int| 0 <= j < i ==> (#[trigger] pieces@[j]).piece_key@ != piece_key@,
        decreases pieces@.len() - i,
    {
        if pieces[i].piece_key == key {
            proof {
                lemma_first_match_is_pieces_before(pieces@, piece_key@, i as int);
            }
            return i;
        }
        i += 1;
    }
    proof {
        lemma_first_match_is_pieces_before(pieces@, piece_key@, i as int);
    }
    i
}

/// Finds the first piece with the key `piece_key`.
pub fn get_piece_by_key<'a>(pieces: &'a Vec<PieceMetadata>, piece_key: &str) -> (found: Option<
    &'a PieceMetadata,
>)
    ensures
        match found {
            Some(piece) => {
                let position = pieces_before(pieces@, piece_key@) as int;
                &&& position < pieces@.len()
                &&& *piece == pieces@[position]
                &&& piece.piece_key@ == piece_key@
                &&& forall|j: int|
                    0 <= j < position ==> (#[trigger] pieces@[j]).piece_key@ != piece_key@
            },
            None => forall|j: int|
                0 <= j < pieces@.len() ==> (#[trigger] pieces@[j]).piece_key@ != piece_key@,
        },
{
    let position: usize = position_of_key(pieces, piece_key);
    proof {
        lemma_pieces_before(pieces@, piece_key@);
    }
    if position < pieces.len() {
        Some(&pieces[position])
    } else {
        None
    }
}

/// Finds the offset at which the data of the first piece with the key
/// `piece_key` starts.
pub fn get_piece_start<C: ByteConverter>(
    conv: &C,
    pieces: &Vec<PieceMetadata>,
    piece_key: &str,
) -> (start: Option<UnpaddedBytesAmount>)
    requires
        pieces_before(pieces@, piece_key@) < pieces@.len() ==> start_fits(
            conv,
            pieces@,
            pieces_before(pieces@, piece_key@) as int,
        ),
    ensures
        match start {
            Some(offset) => {
                let position = pieces_before(pieces@, piece_key@) as int;
                &&& position < pieces@.len()
                &&& pieces@[position].piece_key@ == piece_key@
                &&& offset.0 == piece_start(conv, pieces@, position)
            },
            None => forall|j: int|
                0 <= j < pieces@.len() ==> (#[trigger] pieces@[j]).piece_key@ != piece_key@,
        },
{
    let position: usize = position_of_key(pieces, piece_key);
    proof {
        lemma_pieces_before(pieces@, piece_key@);
    }
    if position < pieces.len() {
        let before = slice_subrange(pieces.as_slice(), 0, position);
        let start_byte = sum_piece_lengths(conv, before);
        let (left_padding, _) = get_piece_padding(conv, start_byte, pieces[position].num_bytes);
        Some(UnpaddedBytesAmount(start_byte.0 + left_padding.0))
    } else {
        None
    }
}

/// Finds the offset at which the data of the first piece with the key
/// `piece_key` starts as `get_piece_start` does, or nothing where no piece has
/// the key, a piece up to it cannot be given a slot, or the offset does not fit
/// in 64 bits.
pub fn checked_piece_start<C: ByteConverter>(
    conv: &C,
    pieces: &Vec<PieceMetadata>,
    piece_key: &str,
) -> (start: Option<UnpaddedBytesAmount>)
    ensures
        match start {
            Some(offset) => {
                let position = pieces_before(pieces@, piece_key@) as int;
                &&& position < pieces@.len()
                &&& start_fits(conv, pieces@, position)
                &&& offset.0 == piece_start(conv, pieces@, position)
            },
            None => {
                let position = pieces_before(pieces@, piece_key@) as int;
                position < pieces@.len() ==> !start_fits(conv, pieces@, position)
            },
        },
{
    let position: usize = position_of_key(pieces, piece_key);
    proof {
        lemma_pieces_before(pieces@, piece_key@);
    }
    if position >= pieces.len() {
        return None;
    }
    let before = slice_subrange(pieces.as_slice(), 0, position);
    match checked_sum_piece_lengths(conv, before) {
        Some(start_byte) => {
            match checked_piece_padding(conv, start_byte, pieces[position].num_bytes) {
                Some((left_padding, _)) => {
                    if left_padding.0 > u64::MAX - start_byte.0 {
                        None
                    } else {
                        proof {
                            assert forall|i: int| 0 <= i <= position implies is_placeable(
                                conv,
                                #[trigger] pieces@[i].num_bytes,
                            ) by {
                                if i < position {
                                    assert(before@[i] == pieces@[i]);
                                }
                            }
                        }
                        Some(UnpaddedBytesAmount(start_byte.0 + left_padding.0))
                    }
                },
                None => None,
            }
        },
        None => None,
    }
}

} // verus!
