use lmdb_js_safe::codec::{
    can_frame, checked_block, compress, decompress, BlockFault, CompressFault, DecompressFault,
    LENGTH_PREFIX_BYTES, MAX_BLOCK_LENGTH,
};

#[test]
fn round_trip_of_a_short_value() {
    let stored = compress(&[1, 2, 3, 4, 5]).unwrap();
    assert_eq!(&stored[..4], &[5, 0, 0, 0]);
    assert_eq!(decompress(&stored).unwrap(), vec![1, 2, 3, 4, 5]);
}

#[test]
fn round_trip_of_the_empty_value() {
    let stored = compress(&[]).unwrap();
    assert_eq!(&stored[..4], &[0, 0, 0, 0]);
    assert!(stored.len() > LENGTH_PREFIX_BYTES);
    assert_eq!(decompress(&stored).unwrap(), Vec::<u8>::new());
}

#[test]
fn round_trip_of_bytes_that_do_not_compress() {
    let mut value: Vec<u8> = Vec::new();
    let mut word: u32 = 0x9E37_79B9;
    for _ in 0..5000 {
        word ^= word << 13;
        word ^= word >> 17;
        word ^= word << 5;
        value.push((word >> 24) as u8);
    }
    let stored = compress(&value).unwrap();
    assert_eq!(decompress(&stored).unwrap(), value);
}

#[test]
fn round_trip_of_every_length_up_to_three_hundred() {
    for length in 0..300usize {
        let value: Vec<u8> = (0..length).map(|i| (i * 7 % 11) as u8).collect();
        let stored = compress(&value).unwrap();
        assert_eq!(decompress(&stored).unwrap(), value);
    }
}

#[test]
fn repeated_bytes_are_stored_in_less_room() {
    let value = vec![7u8; 100_000];
    let stored = compress(&value).unwrap();
    assert!(stored.len() < 1_000);
    assert_eq!(&stored[..4], &[0xA0, 0x86, 0x01, 0x00]);
    assert_eq!(decompress(&stored).unwrap(), value);
}

#[test]
fn the_length_is_stated_least_significant_byte_first() {
    let value = vec![0u8; 0x0102_03];
    let stored = compress(&value).unwrap();
    assert_eq!(&stored[..4], &[0x03, 0x02, 0x01, 0x00]);
}

#[test]
fn a_block_of_literals_is_decoded() {
    let stored = [3, 0, 0, 0, 0x30, b'a', b'4', b'9'];
    assert_eq!(decompress(&stored).unwrap(), b"a49".to_vec());
}

#[test]
fn a_block_with_a_match_is_decoded() {
    // one literal, then a match of seven bytes at offset one, then five literals
    let stored = [13, 0, 0, 0, 0x13, b'x', 1, 0, 0x50, b'a', b'b', b'c', b'd', b'e'];
    assert_eq!(decompress(&stored).unwrap(), b"xxxxxxxxabcde".to_vec());
}

#[test]
fn truncated_length_is_refused() {
    assert_eq!(decompress(&[]), Err(DecompressFault::MissingLength));
    assert_eq!(decompress(&[1, 0, 0]), Err(DecompressFault::MissingLength));
}

#[test]
fn a_length_without_a_block_is_refused() {
    assert_eq!(
        decompress(&[1, 0, 0, 0]),
        Err(DecompressFault::Block(BlockFault::ExpectedAnotherByte))
    );
}

#[test]
fn a_block_shorter_than_stated_is_refused() {
    let stored = [5, 0, 0, 0, 0x30, b'a', b'4', b'9'];
    assert_eq!(
        decompress(&stored),
        Err(DecompressFault::LengthMismatch { stated: 5, found: 3 })
    );
}

#[test]
fn a_block_longer_than_stated_is_refused() {
    let stored = [1, 0, 0, 0, 0x20, b'a', b'a', 1, 0];
    assert_eq!(
        decompress(&stored),
        Err(DecompressFault::Block(BlockFault::OutputTooSmall { expected: 2, actual: 1 }))
    );
}

#[test]
fn literals_past_the_end_are_refused() {
    let stored = [4, 0, 0, 0, 0x40, b'a', 1, 0];
    assert_eq!(
        decompress(&stored),
        Err(DecompressFault::Block(BlockFault::LiteralOutOfBounds))
    );
}

#[test]
fn a_match_at_offset_zero_is_refused() {
    let stored = [0, 1, 0, 0, 0x0E, 0, 0, 0x70, 0, 0, 0, 0, 0, 0, 0];
    assert_eq!(decompress(&stored), Err(DecompressFault::Block(BlockFault::OffsetZero)));
}

#[test]
fn a_match_before_the_start_is_refused() {
    let stored = [0, 1, 0, 0, 0x0F, 1, 0, 1, 0x70, 0, 0, 0, 0, 0, 0, 0];
    assert_eq!(
        decompress(&stored),
        Err(DecompressFault::Block(BlockFault::OffsetOutOfBounds))
    );
}

#[test]
fn a_cut_frame_is_refused() {
    let value: Vec<u8> = (0..200u32).map(|i| (i % 251) as u8).collect();
    let mut stored = compress(&value).unwrap();
    stored.pop();
    assert!(decompress(&stored).is_err());
}

#[test]
fn a_length_fits_while_its_longest_block_is_below_sixteen_mebibytes() {
    assert_eq!(MAX_BLOCK_LENGTH, 16 * 1024 * 1024 - 1);
    assert!(can_frame(0));
    assert!(can_frame(5));
    assert!(can_frame(15_251_996));
    assert!(!can_frame(15_251_997));
    assert!(!can_frame(MAX_BLOCK_LENGTH));
    assert!(!can_frame(0xFFFF_FFFF));
    assert!(!can_frame(usize::MAX));
}

#[test]
fn a_value_that_is_too_long_is_refused() {
    let length: usize = 15_251_997;
    let value = vec![0u8; length];
    assert_eq!(compress(&value), Err(CompressFault::ValueTooLong { length }));
}

#[test]
fn round_trip_of_the_longest_value() {
    let value: Vec<u8> = (0..15_251_996u32).map(|i| (i % 240) as u8).collect();
    let stored = compress(&value).unwrap();
    assert!(stored.len() - LENGTH_PREFIX_BYTES <= MAX_BLOCK_LENGTH);
    assert_eq!(&stored[..4], &[0x1C, 0xBA, 0xE8, 0x00]);
    assert!(decompress(&stored).unwrap() == value);
}

#[test]
fn a_block_whose_lengths_add_up_past_four_bytes_is_refused() {
    // Length bytes that sum to `u32::MAX` and then one more.
    let mut stored = vec![16u8, 0, 0, 0, 0xF0];
    stored.resize(5 + 16_843_009, 0xFF);
    stored.push(0x01);
    assert_eq!(
        decompress(&stored),
        Err(DecompressFault::BlockTooLong { length: 16_843_011 })
    );
}

#[test]
fn a_block_one_byte_too_long_is_refused() {
    let mut stored = vec![3u8, 0, 0, 0, 0x30, b'a', b'4', b'9'];
    stored.resize(4 + MAX_BLOCK_LENGTH + 1, 0);
    assert_eq!(
        decompress(&stored),
        Err(DecompressFault::BlockTooLong { length: MAX_BLOCK_LENGTH + 1 })
    );
}

#[test]
fn the_longest_run_of_literal_length_bytes_is_answered() {
    let mut stored = vec![0xFFu8, 0xFF, 0xFF, 0x00, 0xF0];
    stored.resize(4 + MAX_BLOCK_LENGTH, 0xFF);
    assert_eq!(
        decompress(&stored),
        Err(DecompressFault::Block(BlockFault::ExpectedAnotherByte))
    );
    let last = stored.len() - 1;
    stored[last] = 0x01;
    assert_eq!(
        decompress(&stored),
        Err(DecompressFault::Block(BlockFault::LiteralOutOfBounds))
    );
}

#[test]
fn the_longest_run_of_match_length_bytes_is_answered() {
    let mut stored = vec![0xFFu8, 0xFF, 0xFF, 0x00, 0x1F, b'x', 1, 0];
    stored.resize(4 + MAX_BLOCK_LENGTH, 0xFF);
    let last = stored.len() - 1;
    stored[last] = 0x00;
    let expected = 1 + 19 + 255 * (MAX_BLOCK_LENGTH - 5);
    assert_eq!(
        decompress(&stored),
        Err(DecompressFault::Block(BlockFault::OutputTooSmall {
            expected,
            actual: MAX_BLOCK_LENGTH
        }))
    );
}

#[test]
fn a_stated_length_beyond_the_decoder_is_refused() {
    assert_eq!(
        decompress(&[0, 0, 0, 1, 0x30, b'a', b'4', b'9']),
        Err(DecompressFault::LengthTooLarge { stated: 0x0100_0000 })
    );
    assert_eq!(
        decompress(&[0xFF, 0xFF, 0xFF, 0xFF, 0]),
        Err(DecompressFault::LengthTooLarge { stated: 0xFFFF_FFFF })
    );
}

#[test]
fn the_decoder_s_answer_is_held_against_the_stated_length() {
    assert_eq!(checked_block(3, Ok(b"a49".to_vec())), Ok(b"a49".to_vec()));
    assert_eq!(checked_block(0, Ok(vec![])), Ok(vec![]));
    assert_eq!(
        checked_block(5, Ok(b"a49".to_vec())),
        Err(DecompressFault::LengthMismatch { stated: 5, found: 3 })
    );
    assert_eq!(
        checked_block(2, Ok(b"a49".to_vec())),
        Err(DecompressFault::LengthMismatch { stated: 2, found: 3 })
    );
    assert_eq!(
        checked_block(3, Err(BlockFault::OffsetZero)),
        Err(DecompressFault::Block(BlockFault::OffsetZero))
    );
    assert_eq!(
        checked_block(1, Err(BlockFault::OutputTooSmall { expected: 2, actual: 1 })),
        Err(DecompressFault::Block(BlockFault::OutputTooSmall { expected: 2, actual: 1 }))
    );
}

#[test]
fn a_stated_length_below_the_true_one_is_refused() {
    let mut values: Vec<Vec<u8>> = Vec::new();
    values.push((0..400u32).map(|i| (i % 7) as u8).collect());
    values.push(vec![9u8; 3000]);
    values.push((0..2000u32).map(|i| (i.wrapping_mul(2_654_435_761) >> 24) as u8).collect());
    values.push(b"abcabcabcabcabcabcabcabcabcabcabcabcabcabcabc".to_vec());
    for value in values {
        let stored = compress(&value).unwrap();
        for stated in [0usize, 1, 2, 17, 33, value.len() / 2, value.len() - 1] {
            let mut frame = (stated as u32).to_le_bytes().to_vec();
            frame.extend_from_slice(&stored[4..]);
            assert!(matches!(
                decompress(&frame),
                Err(DecompressFault::Block(BlockFault::OutputTooSmall { .. }))
            ));
        }
    }
}

#[test]
fn a_stated_length_above_the_true_one_is_refused() {
    let value = vec![9u8; 3000];
    let stored = compress(&value).unwrap();
    for stated in [3001u32, 3002, 4096, 100_000] {
        let mut frame = stated.to_le_bytes().to_vec();
        frame.extend_from_slice(&stored[4..]);
        assert_eq!(
            decompress(&frame),
            Err(DecompressFault::LengthMismatch { stated, found: 3000 })
        );
    }
}

#[test]
fn damaged_frames_are_answered() {
    let value: Vec<u8> = (0..1500u32).map(|i| (i % 13) as u8).collect();
    let stored = compress(&value).unwrap();
    for at in 4..stored.len() {
        for bit in [0x01u8, 0x10, 0x80] {
            let mut frame = stored.clone();
            frame[at] ^= bit;
            match decompress(&frame) {
                Ok(back) => assert_eq!(back.len(), value.len()),
                Err(fault) => assert!(!matches!(fault, DecompressFault::MissingLength)),
            }
        }
    }
}
