use mp3_parser::error::DecodeError;
use mp3_parser::id3::{get_id3_frame, get_id3_frames, get_size, has_id3_marker, id3v2, id3v2_3, Id3Header, Tag};

fn synchsafe(n: u32) -> [u8; 4] {
    [((n >> 21) & 0x7F) as u8, ((n >> 14) & 0x7F) as u8, ((n >> 7) & 0x7F) as u8, (n & 0x7F) as u8]
}

fn tag_header(major: u8, flags: u8, size: u32) -> Vec<u8> {
    let mut header = vec![0x49, 0x44, 0x33, major, 0, flags];
    header.extend_from_slice(&synchsafe(size));
    header
}

fn frame(id: &[u8], content: &[u8]) -> Vec<u8> {
    let mut bytes = id.to_vec();
    bytes.extend_from_slice(&synchsafe(content.len() as u32));
    bytes.extend_from_slice(&[0, 0]);
    bytes.extend_from_slice(content);
    bytes
}

#[test]
fn synchsafe_round_trip() {
    let mut n: u32 = 0;
    while n < (1 << 28) {
        assert_eq!(get_size(&synchsafe(n)), Ok(n as usize));
        n += 4099;
    }
    for n in [0u32, 1, 127, 128, 255, 256, 16383, 16384, 2097151, 2097152, (1 << 28) - 1] {
        assert_eq!(get_size(&synchsafe(n)), Ok(n as usize));
    }
}

#[test]
fn get_size_concatenates_seven_bits_per_byte() {
    assert_eq!(get_size(&[0, 0, 0, 0]), Ok(0));
    assert_eq!(get_size(&[0, 0, 2, 1]), Ok(257));
    assert_eq!(get_size(&[0, 0, 0x7F, 0x7F]), Ok(16383));
    assert_eq!(get_size(&[1, 2, 3, 4]), Ok((1 << 21) + (2 << 14) + (3 << 7) + 4));
    assert_eq!(get_size(&[0x7F, 0x7F, 0x7F, 0x7F]), Ok(268_435_455));
    assert_eq!(get_size(&[0, 0, 2, 1, 0xFF, 0xFF]), Ok(257));
}

#[test]
fn get_size_refuses_a_set_high_bit() {
    assert_eq!(get_size(&[0x80, 0, 0, 0]), Err(DecodeError::InvalidSynchsafeSize));
    assert_eq!(get_size(&[0, 0x80, 0, 0]), Err(DecodeError::InvalidSynchsafeSize));
    assert_eq!(get_size(&[0, 0, 0x80, 0]), Err(DecodeError::InvalidSynchsafeSize));
    assert_eq!(get_size(&[0, 0, 0, 0x80]), Err(DecodeError::InvalidSynchsafeSize));
    assert_eq!(get_size(&[0xFF, 0xFF, 0xFF, 0xFF]), Err(DecodeError::InvalidSynchsafeSize));
    assert_eq!(get_size(&[0, 0x81, 0, 0x81]), Err(DecodeError::InvalidSynchsafeSize));
}

#[test]
fn get_size_needs_four_bytes() {
    assert_eq!(get_size(&[]), Err(DecodeError::OutOfRange));
    assert_eq!(get_size(&[0x80, 0, 0]), Err(DecodeError::OutOfRange));
}

#[test]
fn id3_header_with_reserved_flags_is_refused() {
    assert_eq!(id3v2(&tag_header(3, 0b0001_1111, 0)), Err(DecodeError::InvalidHeaderFlags));
    assert_eq!(id3v2(&tag_header(3, 0b1000_0001, 0)), Err(DecodeError::InvalidHeaderFlags));
    assert_eq!(id3v2_3(&tag_header(3, 0b0001_0000, 0)), Err(DecodeError::InvalidHeaderFlags));
}

#[test]
fn id3_header_of_another_major_version_is_refused() {
    assert_eq!(id3v2(&tag_header(4, 0, 0)), Err(DecodeError::UnsupportedVersion));
    assert_eq!(id3v2(&tag_header(2, 0, 0)), Err(DecodeError::UnsupportedVersion));
    assert_eq!(id3v2(&tag_header(4, 0b0001_1111, 0)), Err(DecodeError::UnsupportedVersion));
}

#[test]
fn id3_header_decodes_flags_and_size() {
    assert_eq!(
        id3v2(&tag_header(3, 0, 257)),
        Ok(Id3Header { size: 257, unsynchronization: false, extended: false, experimental: false })
    );
    assert_eq!(
        id3v2(&tag_header(3, 0b1000_0000, 1)),
        Ok(Id3Header { size: 1, unsynchronization: true, extended: false, experimental: false })
    );
    assert_eq!(
        id3v2(&tag_header(3, 0b0100_0000, 2)),
        Ok(Id3Header { size: 2, unsynchronization: false, extended: true, experimental: false })
    );
    assert_eq!(
        id3v2(&tag_header(3, 0b0010_0000, 3)),
        Ok(Id3Header { size: 3, unsynchronization: false, extended: false, experimental: true })
    );
    assert_eq!(
        id3v2(&tag_header(3, 0b1110_0000, 268_435_455)),
        Ok(Id3Header { size: 268_435_455, unsynchronization: true, extended: true, experimental: true })
    );
}

#[test]
fn id3_header_ignores_the_minor_version() {
    let mut header = tag_header(3, 0, 5);
    header[4] = 9;
    assert_eq!(
        id3v2(&header),
        Ok(Id3Header { size: 5, unsynchronization: false, extended: false, experimental: false })
    );
}

#[test]
fn id3_header_with_a_bad_size_is_refused() {
    let mut header = tag_header(3, 0, 0);
    header[7] = 0x80;
    assert_eq!(id3v2(&header), Err(DecodeError::InvalidSynchsafeSize));
    assert_eq!(id3v2_3(&header), Err(DecodeError::InvalidSynchsafeSize));
}

#[test]
fn id3_header_needs_ten_bytes() {
    let header = tag_header(3, 0, 0);
    assert_eq!(id3v2(&header[..9]), Err(DecodeError::OutOfRange));
    assert_eq!(id3v2_3(&header[..9]), Err(DecodeError::OutOfRange));
    assert_eq!(id3v2(&[]), Err(DecodeError::OutOfRange));
}

#[test]
fn id3_marker() {
    assert!(has_id3_marker(b"ID3\x03\x00"));
    assert!(has_id3_marker(b"ID3"));
    assert!(!has_id3_marker(b"ID"));
    assert!(!has_id3_marker(b"TAG123"));
    assert!(!has_id3_marker(b"id3"));
    assert!(!has_id3_marker(b""));
}

#[test]
fn frame_decodes_id_content_and_size() {
    let mut data = vec![0u8; 3];
    data.extend_from_slice(&frame(b"TIT2", b"hello"));
    data.extend_from_slice(b"rest");
    assert_eq!(get_id3_frame(&data, 3), Ok(("TIT2", "hello", 5)));
}

#[test]
fn frame_with_empty_content() {
    let data = frame(b"TALB", b"");
    assert_eq!(get_id3_frame(&data, 0), Ok(("TALB", "", 0)));
}

#[test]
fn frame_content_may_be_any_utf8() {
    let text = "gr\u{fc}\u{df}e \u{266b}";
    let data = frame(b"TPE1", text.as_bytes());
    assert_eq!(get_id3_frame(&data, 0), Ok(("TPE1", text, text.len())));
}

#[test]
fn frame_flags_are_ignored() {
    let mut data = frame(b"TIT2", b"abc");
    data[8] = 0xFF;
    data[9] = 0xFF;
    assert_eq!(get_id3_frame(&data, 0), Ok(("TIT2", "abc", 3)));
}

#[test]
fn frame_with_content_that_is_not_utf8_is_refused() {
    let data = frame(b"TIT2", &[0x68, 0xFF, 0x69]);
    assert_eq!(get_id3_frame(&data, 0), Err(DecodeError::InvalidEncoding));
    let truncated = frame(b"TIT2", &[0xE2, 0x99]);
    assert_eq!(get_id3_frame(&truncated, 0), Err(DecodeError::InvalidEncoding));
}

#[test]
fn frame_with_an_id_that_is_not_utf8_is_refused() {
    let data = frame(&[0x54, 0xC0, 0x54, 0x32], b"hello");
    assert_eq!(get_id3_frame(&data, 0), Err(DecodeError::InvalidEncoding));
}

#[test]
fn frame_with_a_bad_size_is_refused() {
    let mut data = frame(b"TIT2", b"hello");
    data[5] = 0x80;
    assert_eq!(get_id3_frame(&data, 0), Err(DecodeError::InvalidSynchsafeSize));
}

#[test]
fn frame_that_reads_past_the_buffer_is_out_of_range() {
    let data = frame(b"TIT2", b"hello");
    assert_eq!(get_id3_frame(&data[..14], 0), Err(DecodeError::OutOfRange));
    assert_eq!(get_id3_frame(&data[..9], 0), Err(DecodeError::OutOfRange));
    assert_eq!(get_id3_frame(&data[..7], 0), Err(DecodeError::OutOfRange));
    assert_eq!(get_id3_frame(&data[..3], 0), Err(DecodeError::OutOfRange));
    assert_eq!(get_id3_frame(&data, 1), Err(DecodeError::OutOfRange));
    assert_eq!(get_id3_frame(&data, 16), Err(DecodeError::OutOfRange));
    assert_eq!(get_id3_frame(&data, usize::MAX), Err(DecodeError::OutOfRange));
}

#[test]
fn frame_errors_come_in_the_order_of_the_fields() {
    // a bad identifier is found before a short buffer
    assert_eq!(get_id3_frame(&[0xFF, 0xFF, 0xFF, 0xFF], 0), Err(DecodeError::InvalidEncoding));
    // a bad size is found before missing flags
    assert_eq!(get_id3_frame(&[0x54, 0x49, 0x54, 0x32, 0x80, 0, 0, 0], 0), Err(DecodeError::InvalidSynchsafeSize));
    assert_eq!(get_id3_frame(&[0x54, 0x49, 0x54, 0x32, 0, 0, 0, 0], 0), Err(DecodeError::OutOfRange));
}

#[test]
fn frames_are_walked_in_order() {
    let first = frame(b"TIT2", b"Song");
    let second = frame(b"TPE1", b"Artist");
    let third = frame(b"TALB", b"");
    let size = (first.len() + second.len() + third.len()) as u32;
    let mut raw = tag_header(3, 0, size);
    raw.extend_from_slice(&first);
    raw.extend_from_slice(&second);
    raw.extend_from_slice(&third);
    raw.extend_from_slice(&[0xFF, 0xFB, 0x90, 0x64]);
    let header = id3v2(&raw[..10]).unwrap();
    assert_eq!(header.size, 40);
    let (tags, next) = get_id3_frames(&raw, header).unwrap();
    assert_eq!(
        tags,
        vec![
            Tag { id: "TIT2", content: "Song", size: 4 },
            Tag { id: "TPE1", content: "Artist", size: 6 },
            Tag { id: "TALB", content: "", size: 0 },
        ]
    );
    assert_eq!(next, 50);
    assert_eq!(&raw[next..], &[0xFF, 0xFB, 0x90, 0x64]);
}

#[test]
fn walk_stops_at_the_first_frame_that_reaches_the_end_of_the_tag() {
    let mut raw = tag_header(3, 0, 12);
    raw.extend_from_slice(&frame(b"TIT2", b"Song"));
    raw.extend_from_slice(&frame(b"TPE1", b"Artist"));
    // the tag claims 12 bytes: the first frame, of 14 bytes, already passes them
    let header = id3v2(&raw[..10]).unwrap();
    let (tags, next) = get_id3_frames(&raw, header).unwrap();
    assert_eq!(tags, vec![Tag { id: "TIT2", content: "Song", size: 4 }]);
    assert_eq!(next, 24);
}

#[test]
fn walk_decodes_at_least_one_frame() {
    let mut raw = tag_header(3, 0, 0);
    raw.extend_from_slice(&frame(b"TIT2", b"Song"));
    let header = id3v2(&raw[..10]).unwrap();
    let (tags, next) = get_id3_frames(&raw, header).unwrap();
    assert_eq!(tags.len(), 1);
    assert_eq!(next, 24);
    let empty = tag_header(3, 0, 0);
    let header = id3v2(&empty).unwrap();
    assert_eq!(get_id3_frames(&empty, header), Err(DecodeError::OutOfRange));
}

#[test]
fn walk_goes_on_until_the_end_of_the_tag_is_reached() {
    let mut raw = tag_header(3, 0, 15);
    raw.extend_from_slice(&frame(b"TIT2", b"Song"));
    raw.extend_from_slice(&frame(b"TPE1", b"Artist"));
    let header = id3v2(&raw[..10]).unwrap();
    let (tags, next) = get_id3_frames(&raw, header).unwrap();
    assert_eq!(tags.len(), 2);
    assert_eq!(next, 40);
}

#[test]
fn walk_fails_with_the_error_of_the_first_bad_frame() {
    let mut raw = tag_header(3, 0, 100);
    raw.extend_from_slice(&frame(b"TIT2", b"Song"));
    raw.extend_from_slice(&frame(b"TPE1", &[0xC3, 0x28]));
    let header = id3v2(&raw[..10]).unwrap();
    assert_eq!(get_id3_frames(&raw, header), Err(DecodeError::InvalidEncoding));

    let mut short = tag_header(3, 0, 100);
    short.extend_from_slice(&frame(b"TIT2", b"Song"));
    let header = id3v2(&short[..10]).unwrap();
    assert_eq!(get_id3_frames(&short, header), Err(DecodeError::OutOfRange));
}

#[test]
fn walk_with_a_size_near_the_largest() {
    let mut raw = tag_header(3, 0, 0);
    raw.extend_from_slice(&frame(b"TIT2", b"Song"));
    let header = Id3Header { size: usize::MAX - 3, unsynchronization: false, extended: false, experimental: false };
    assert_eq!(get_id3_frames(&raw, header), Err(DecodeError::OutOfRange));
}

#[test]
fn id3_decoding_is_repeatable() {
    let mut raw = tag_header(3, 0b0100_0000, 24);
    raw.extend_from_slice(&frame(b"TIT2", b"Song"));
    raw.extend_from_slice(&frame(b"TPE1", b"Artist"));
    let copy = raw.clone();
    assert_eq!(id3v2(&raw), id3v2(&raw));
    assert_eq!(id3v2(&raw), id3v2(&copy));
    assert_eq!(get_id3_frame(&raw, 10), get_id3_frame(&copy, 10));
    let header = id3v2(&raw).unwrap();
    assert_eq!(get_id3_frames(&raw, header), get_id3_frames(&copy, header));
    assert_eq!(get_id3_frames(&raw, header), get_id3_frames(&raw, header));
}
