use piece_layout::bytes_amount::{ByteConverter, OneToOne, PaddedBytesAmount, UnpaddedBytesAmount};
use piece_layout::pieces::get_piece_padding;
use piece_layout::slot::{
    piece_slot_len, slot_padding, MAXIMUM_PIECE_LENGTH, MINIMUM_PIECE_LENGTH,
};

fn leaves(n: u64) -> UnpaddedBytesAmount {
    UnpaddedBytesAmount(n * 32)
}

fn padded(n: u64) -> PaddedBytesAmount {
    PaddedBytesAmount(n)
}

#[test]
fn test_get_piece_info() {
    // minimally sized piece in clean sector
    assert_eq!(
        get_piece_padding(&OneToOne, leaves(0), leaves(4)),
        (leaves(0), leaves(0))
    );

    // smaller than minimum piece in clean sector
    assert_eq!(
        get_piece_padding(&OneToOne, leaves(0), leaves(3)),
        (leaves(0), leaves(1))
    );

    // slightly bigger piece in clean sector
    assert_eq!(
        get_piece_padding(&OneToOne, leaves(0), leaves(5)),
        (leaves(0), leaves(3))
    );

    // minimal piece in populated sector
    assert_eq!(
        get_piece_padding(&OneToOne, leaves(4), leaves(4)),
        (leaves(0), leaves(0))
    );

    // big piece in populated sector
    assert_eq!(
        get_piece_padding(&OneToOne, leaves(4), leaves(5)),
        (leaves(4), leaves(3))
    );

    // bigger piece in populated sector
    assert_eq!(
        get_piece_padding(&OneToOne, leaves(4), leaves(8)),
        (leaves(4), leaves(0))
    );

    // even bigger piece in populated sector
    assert_eq!(
        get_piece_padding(&OneToOne, leaves(4), leaves(15)),
        (leaves(12), leaves(1))
    );

    // piece in misaligned sector
    assert_eq!(
        get_piece_padding(&OneToOne, leaves(5), leaves(5)),
        (leaves(3), leaves(3))
    );
}

#[test]
fn slot_constants() {
    assert_eq!(MINIMUM_PIECE_LENGTH, 128);
    assert_eq!(MAXIMUM_PIECE_LENGTH, 1u64 << 63);
}

#[test]
fn slot_of_a_small_piece_is_the_minimum() {
    assert_eq!(piece_slot_len(padded(0)), padded(128));
    assert_eq!(piece_slot_len(padded(1)), padded(128));
    assert_eq!(piece_slot_len(padded(127)), padded(128));
    assert_eq!(piece_slot_len(padded(128)), padded(128));
}

#[test]
fn slot_is_the_next_power_of_two() {
    assert_eq!(piece_slot_len(padded(129)), padded(256));
    assert_eq!(piece_slot_len(padded(255)), padded(256));
    assert_eq!(piece_slot_len(padded(256)), padded(256));
    assert_eq!(piece_slot_len(padded(257)), padded(512));
    assert_eq!(piece_slot_len(padded(1000)), padded(1024));
    assert_eq!(piece_slot_len(padded(1 << 40)), padded(1 << 40));
    assert_eq!(piece_slot_len(padded((1 << 40) + 1)), padded(1 << 41));
}

#[test]
fn slot_of_the_longest_piece() {
    assert_eq!(piece_slot_len(padded((1 << 62) + 1)), padded(1 << 63));
    assert_eq!(piece_slot_len(padded(1 << 63)), padded(1 << 63));
}

#[test]
fn slot_length_is_a_power_of_two_that_holds_the_piece() {
    for piece in 1..5000u64 {
        let slot = piece_slot_len(padded(piece)).0;
        assert!(slot.is_power_of_two());
        assert!(slot >= 128);
        assert!(slot >= piece);
        assert!(slot == 128 || slot / 2 < piece);
    }
}

#[test]
fn left_padding_reaches_the_next_multiple() {
    assert_eq!(slot_padding(padded(0), padded(128)).0, padded(0));
    assert_eq!(slot_padding(padded(1), padded(128)).0, padded(127));
    assert_eq!(slot_padding(padded(127), padded(128)).0, padded(1));
    assert_eq!(slot_padding(padded(128), padded(128)).0, padded(0));
    assert_eq!(slot_padding(padded(129), padded(128)).0, padded(127));
    assert_eq!(slot_padding(padded(160), padded(480)).0, padded(352));
    assert_eq!(slot_padding(padded(1024), padded(100)).0, padded(0));
    assert_eq!(slot_padding(padded(1026), padded(100)).0, padded(126));
}

#[test]
fn right_padding_fills_the_slot() {
    assert_eq!(slot_padding(padded(0), padded(1)).1, padded(127));
    assert_eq!(slot_padding(padded(0), padded(128)).1, padded(0));
    assert_eq!(slot_padding(padded(0), padded(129)).1, padded(127));
    assert_eq!(slot_padding(padded(77), padded(300)).1, padded(212));
    assert_eq!(slot_padding(padded(0), padded(1 << 63)).1, padded(0));
}

#[test]
fn padding_at_the_end_of_the_range() {
    assert_eq!(
        slot_padding(padded(u64::MAX), padded(128)),
        (padded(1), padded(0))
    );
    assert_eq!(
        slot_padding(padded(u64::MAX), padded(1 << 63)),
        (padded(1), padded(0))
    );
    assert_eq!(
        slot_padding(padded((1 << 63) + 5), padded((1 << 62) + 1)),
        (padded((1 << 63) - 5), padded((1 << 62) - 1))
    );
}

#[test]
fn every_slot_starts_and_ends_aligned() {
    for sector in (0..3000u64).step_by(7) {
        for piece in (1..3000u64).step_by(13) {
            let slot = piece_slot_len(padded(piece)).0;
            let (left, right) = slot_padding(padded(sector), padded(piece));
            assert!(left.0 < slot);
            assert!(right.0 < slot);
            assert_eq!(piece + right.0, slot);
            assert_eq!((sector + left.0) % slot, 0);
            assert_eq!((sector + left.0 + piece + right.0) % slot, 0);
        }
    }
}

#[test]
fn aligned_sector_gets_no_left_padding() {
    for whole in 0..50u64 {
        assert_eq!(slot_padding(padded(whole * 256), padded(200)).0, padded(0));
    }
}

#[test]
fn one_to_one_keeps_byte_counts() {
    assert_eq!(OneToOne.to_padded(UnpaddedBytesAmount(0)), padded(0));
    assert_eq!(OneToOne.to_padded(UnpaddedBytesAmount(300)), padded(300));
    assert_eq!(OneToOne.to_padded(UnpaddedBytesAmount(u64::MAX)), padded(u64::MAX));
    assert_eq!(OneToOne.to_unpadded(padded(300)), UnpaddedBytesAmount(300));
    assert_eq!(OneToOne.to_unpadded(padded(u64::MAX)), UnpaddedBytesAmount(u64::MAX));
}

#[test]
fn amounts_compare_by_their_byte_counts() {
    assert_eq!(UnpaddedBytesAmount(5), UnpaddedBytesAmount(5));
    assert_ne!(UnpaddedBytesAmount(5), UnpaddedBytesAmount(6));
    assert!(UnpaddedBytesAmount(5) < UnpaddedBytesAmount(6));
    assert!(padded(128) > padded(127));
    assert_eq!(UnpaddedBytesAmount::default(), UnpaddedBytesAmount(0));
    assert_eq!(PaddedBytesAmount::default(), padded(0));
}
