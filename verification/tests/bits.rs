use mp3_parser::error::DecodeError;
use mp3_parser::util::{extract_bits, incremental_extract};

#[test]
fn test_extract_bits() {
    for i in 0..32 {
        assert_eq!(extract_bits(&[0b1111_1111, 0b1111_1111, 0b1111_1111, 0b1111_1111], i, 1), Ok(1));
    }
    for i in 0..31 {
        assert_eq!(extract_bits(&[0b1111_1111, 0b1111_1111, 0b1111_1111, 0b1111_1111], i, 2), Ok(3));
    }

    for i in 0..30 {
        assert_eq!(extract_bits(&[0b1111_1111, 0b1111_1111, 0b1111_1111, 0b1111_1111], i, 3), Ok(7));
    }

    for i in 0..29 {
        assert_eq!(extract_bits(&[0b1111_1111, 0b1111_1111, 0b1111_1111, 0b1111_1111], i, 4), Ok(15));
    }
}

#[test]
fn all_ones_give_every_bit_set() {
    let buf = [0xFFu8; 8];
    for length in 1u16..=32 {
        for offset in 0u16..=(64 - length) {
            let expected = ((1u64 << length) - 1) as u32;
            assert_eq!(extract_bits(&buf, offset, length), Ok(expected));
        }
    }
}

#[test]
fn extract_bits_reads_most_significant_bit_first() {
    let buf = [0b1010_1100u8, 0b0101_0011];
    assert_eq!(extract_bits(&buf, 0, 1), Ok(1));
    assert_eq!(extract_bits(&buf, 1, 1), Ok(0));
    assert_eq!(extract_bits(&buf, 4, 8), Ok(0xC5));
    assert_eq!(extract_bits(&buf, 6, 5), Ok(2));
    assert_eq!(extract_bits(&buf, 0, 16), Ok(0xAC53));
}

#[test]
fn extract_bits_spans_up_to_five_bytes() {
    let buf = [0x12u8, 0x34, 0x56, 0x78, 0x9A];
    assert_eq!(extract_bits(&buf, 0, 32), Ok(0x1234_5678));
    assert_eq!(extract_bits(&buf, 4, 32), Ok(0x2345_6789));
    assert_eq!(extract_bits(&buf, 7, 32), Ok(0x1A2B_3C4D));
    assert_eq!(extract_bits(&buf, 3, 30), Ok(0x2468_ACF1));
    assert_eq!(extract_bits(&buf, 8, 32), Ok(0x3456_789A));
}

#[test]
fn extract_bits_matches_a_bit_by_bit_reading() {
    let buf: Vec<u8> = (0..12u32).map(|i| ((i * 37 + 11) % 256) as u8).collect();
    for length in 1u16..=32 {
        for offset in 0u16..=(96 - length) {
            let mut expected: u32 = 0;
            for i in offset..offset + length {
                let bit = (buf[(i / 8) as usize] >> (7 - i % 8)) & 1;
                expected = (expected << 1) | bit as u32;
            }
            assert_eq!(extract_bits(&buf, offset, length), Ok(expected));
        }
    }
}

#[test]
fn extract_bits_past_the_end_is_out_of_range() {
    let buf = [0xFFu8; 4];
    assert_eq!(extract_bits(&buf, 32, 1), Err(DecodeError::OutOfRange));
    assert_eq!(extract_bits(&buf, 30, 3), Err(DecodeError::OutOfRange));
    assert_eq!(extract_bits(&buf, 1, 32), Err(DecodeError::OutOfRange));
    assert_eq!(extract_bits(&[], 0, 1), Err(DecodeError::OutOfRange));
    assert_eq!(extract_bits(&buf, 65535, 65535), Err(DecodeError::OutOfRange));
    assert_eq!(extract_bits(&buf, 0, 48), Err(DecodeError::OutOfRange));
}

#[test]
fn extract_bits_refuses_widths_outside_1_to_32() {
    let buf = [0xFFu8; 8];
    assert_eq!(extract_bits(&buf, 0, 0), Err(DecodeError::UnsupportedFieldWidth));
    assert_eq!(extract_bits(&buf, 5, 0), Err(DecodeError::UnsupportedFieldWidth));
    assert_eq!(extract_bits(&buf, 0, 33), Err(DecodeError::UnsupportedFieldWidth));
    assert_eq!(extract_bits(&buf, 0, 40), Err(DecodeError::UnsupportedFieldWidth));
    assert_eq!(extract_bits(&buf, 7, 41), Err(DecodeError::UnsupportedFieldWidth));
    assert_eq!(extract_bits(&buf, 0, 64), Err(DecodeError::UnsupportedFieldWidth));
}

#[test]
fn incremental_extract_reads_adjacent_fields() {
    let buf = [0xFFu8, 0xFB, 0x90, 0x64];
    let mut counter: u16 = 0;
    assert_eq!(incremental_extract(&buf, 11, &mut counter), Ok(0x7FF));
    assert_eq!(counter, 11);
    assert_eq!(incremental_extract(&buf, 2, &mut counter), Ok(3));
    assert_eq!(counter, 13);
    assert_eq!(incremental_extract(&buf, 2, &mut counter), Ok(1));
    assert_eq!(incremental_extract(&buf, 1, &mut counter), Ok(1));
    assert_eq!(incremental_extract(&buf, 4, &mut counter), Ok(9));
    assert_eq!(counter, 20);
    assert_eq!(incremental_extract(&buf, 12, &mut counter), Ok(0x064));
    assert_eq!(counter, 32);
}

#[test]
fn incremental_extract_leaves_the_cursor_on_an_error() {
    let buf = [0xFFu8; 4];
    let mut counter: u16 = 30;
    assert_eq!(incremental_extract(&buf, 3, &mut counter), Err(DecodeError::OutOfRange));
    assert_eq!(counter, 30);
    assert_eq!(incremental_extract(&buf, 0, &mut counter), Err(DecodeError::UnsupportedFieldWidth));
    assert_eq!(counter, 30);
    assert_eq!(incremental_extract(&buf, 2, &mut counter), Ok(3));
    assert_eq!(counter, 32);
}

#[test]
fn incremental_extract_stops_where_the_cursor_cannot_advance() {
    let buf = vec![0xFFu8; 8192];
    let mut counter: u16 = 65530;
    assert_eq!(incremental_extract(&buf, 5, &mut counter), Ok(31));
    assert_eq!(counter, 65535);
    assert_eq!(incremental_extract(&buf, 1, &mut counter), Err(DecodeError::OutOfRange));
    assert_eq!(counter, 65535);
    assert_eq!(extract_bits(&buf, 65535, 1), Ok(1));
}

#[test]
fn extraction_is_repeatable() {
    let buf = [0x12u8, 0x34, 0x56, 0x78, 0x9A];
    let copy = buf.to_vec();
    for offset in 0u16..40 {
        for length in 0u16..40 {
            let first = extract_bits(&buf, offset, length);
            assert_eq!(extract_bits(&buf, offset, length), first);
            assert_eq!(extract_bits(&copy, offset, length), first);
        }
    }
}
