//! The ID3v2.3 tag in front of the audio stream: its 10-byte header and the
//! frames that follow it.

use vstd::prelude::*;
use vstd::arithmetic::power2::lemma2_to64;
use vstd::utf8::{decode_utf8, encode_utf8, encode_utf8_decode_utf8, valid_utf8};
use crate::error::DecodeError;
use crate::util::bit_at;

verus! {

/// Bytes of a tag header, and of the header of each frame.
pub const ID3_HEADER_LENGTH: usize = 10;

/// The header of an ID3v2.3 tag.
#[derive(Debug, Eq, PartialEq, Clone, Copy, Structural)]
pub struct Id3Header {
    /// Bytes of the tag behind its 10-byte header.
    pub size: usize,
    pub unsynchronization: bool,
    pub extended: bool,
    pub experimental: bool,
}

impl Id3Header {
    /// Whether the size is one that 4 synchsafe bytes can spell: below 2 to
    /// the power 28.
    pub open spec fn wf(&self) -> bool {
        self.size < 0x1000_0000
    }
}

/// One frame of a tag: its 4-character identifier, its text, and the number
/// of bytes of that text in the buffer.
#[derive(Debug, Eq, PartialEq, Clone, Copy)]
pub struct Tag<'s> {
    pub id: &'s str,
    pub content: &'s str,
    pub size: usize,
}

/// A frame as a mathematical value.
pub struct TagView {
    pub id: Seq<char>,
    pub content: Seq<char>,
    pub size: nat,
}

impl<'s> View for Tag<'s> {
    type V = TagView;

    open spec fn view(&self) -> TagView {
        TagView { id: self.id@, content: self.content@, size: self.size as nat }
    }
}

/// The frames of a sequence of tags.
pub open spec fn tag_views(tags: Seq<Tag<'_>>) -> Seq<TagView> {
    tags.map_values(|tag: Tag| tag@)
}

/// Whether each of the first 4 bytes has its most significant bit clear.
pub open spec fn is_synchsafe(bytes: Seq<u8>) -> bool {
    bytes[0] < 0x80 && bytes[1] < 0x80 && bytes[2] < 0x80 && bytes[3] < 0x80
}

/// The 28-bit number that the low 7 bits of each of the first 4 bytes spell,
/// most significant byte first.
pub open spec fn synchsafe_value(bytes: Seq<u8>) -> nat {
    (bytes[0] * 0x20_0000 + bytes[1] * 0x4000 + bytes[2] * 0x80 + bytes[3]) as nat
}

/// The 4 synchsafe bytes that spell a number below 2 to the power 28.
pub open spec fn synchsafe_bytes(n: nat) -> Seq<u8> {
    seq![
        ((n / 0x20_0000) % 0x80) as u8,
        ((n / 0x4000) % 0x80) as u8,
        ((n / 0x80) % 0x80) as u8,
        (n % 0x80) as u8,
    ]
}

/// What `get_size` returns: `OutOfRange` for fewer than 4 bytes, else
/// `InvalidSynchsafeSize` unless the first 4 bytes are synchsafe, else their
/// value.
pub open spec fn size_result(bytes: Seq<u8>) -> Result<usize, DecodeError> {
    if bytes.len() < 4 {
        Err(DecodeError::OutOfRange)
    } else if !is_synchsafe(bytes) {
        Err(DecodeError::InvalidSynchsafeSize)
    } else {
        Ok(synchsafe_value(bytes) as usize)
    }
}

/// Decodes the synchsafe size in the first 4 bytes of `header`.
pub fn get_size(header: &[u8]) -> (r: Result<usize, DecodeError>)
    ensures
        r == size_result(header@),
        r matches Ok(size) ==> size < 0x1000_0000,
{
    if header.len() < 4 {
        return Err(DecodeError::OutOfRange);
    }
    let size1: u8 = header[0];
    let size2: u8 = header[1];
    let size3: u8 = header[2];
    let size4: u8 = header[3];

    if (size1 | size2 | size3 | size4) & 128 != 0 {
        assert(!(size1 < 0x80 && size2 < 0x80 && size3 < 0x80 && size4 < 0x80)) by (bit_vector)
            requires
                (size1 | size2 | size3 | size4) & 128 != 0,
        ;
        return Err(DecodeError::InvalidSynchsafeSize);
    }
    assert(size1 < 0x80 && size2 < 0x80 && size3 < 0x80 && size4 < 0x80) by (bit_vector)
        requires
            (size1 | size2 | size3 | size4) & 128 == 0,
    ;
    let value: u32 = ((size1 as u32) << 21) | ((size2 as u32) << 14) | ((size3 as u32) << 7) | (size4 as u32);
    assert(value == size1 * 0x20_0000 + size2 * 0x4000 + size3 * 0x80 + size4) by (bit_vector)
        requires
            value == ((size1 as u32) << 21) | ((size2 as u32) << 14) | ((size3 as u32) << 7) | (size4 as u32),
            size1 < 0x80 && size2 < 0x80 && size3 < 0x80 && size4 < 0x80,
    ;
    Ok(value as usize)
}

/// Encoding a number below 2 to the power 28 as 4 synchsafe bytes and
/// decoding them gives the number back.
pub proof fn lemma_synchsafe_round_trip(n: nat)
    requires
        n < 0x1000_0000,
    ensures
        synchsafe_bytes(n).len() == 4,
        is_synchsafe(synchsafe_bytes(n)),
        synchsafe_value(synchsafe_bytes(n)) == n,
        size_result(synchsafe_bytes(n)) == Ok::<usize, DecodeError>(n as usize),
{
}

/// Four synchsafe bytes spell a number below 2 to the power 28, and encoding
/// that number gives the bytes back.
pub proof fn lemma_synchsafe_bytes_of_value(bytes: Seq<u8>)
    requires
        bytes.len() == 4,
        is_synchsafe(bytes),
    ensures
        synchsafe_value(bytes) < 0x1000_0000,
        synchsafe_bytes(synchsafe_value(bytes)) == bytes,
{
    let a: int = bytes[0] as int;
    let b: int = bytes[1] as int;
    let c: int = bytes[2] as int;
    let d: int = bytes[3] as int;
    let n: int = a * 0x20_0000 + b * 0x4000 + c * 0x80 + d;
    assert(n == synchsafe_value(bytes));
    assert(n / 0x80 == a * 0x4000 + b * 0x80 + c && n % 0x80 == d);
    assert(n / 0x4000 == a * 0x80 + b && (n / 0x80) % 0x80 == c);
    assert(n / 0x20_0000 == a && (n / 0x4000) % 0x80 == b);
    assert(synchsafe_bytes(n as nat) =~= bytes);
}

/// What `id3v2_3` returns for a tag header: `OutOfRange` for fewer than 10
/// bytes, else `InvalidHeaderFlags` where one of the low 5 bits of the flags
/// byte (byte 5) is set, else the error of the size in bytes 6 to 9, else the
/// header: the flags are the top three bits of the flags byte.
pub open spec fn id3v2_3_result(header: Seq<u8>) -> Result<Id3Header, DecodeError> {
    if header.len() < ID3_HEADER_LENGTH {
        Err(DecodeError::OutOfRange)
    } else if header[5] % 32 != 0 {
        Err(DecodeError::InvalidHeaderFlags)
    } else {
        match size_result(header.subrange(6, 10)) {
            Err(e) => Err(e),
            Ok(size) => Ok(
                (Id3Header {
                    size,
                    unsynchronization: bit_at(header, 40) == 1,
                    extended: bit_at(header, 41) == 1,
                    experimental: bit_at(header, 42) == 1,
                }),
            ),
        }
    }
}

/// What `id3v2` returns for a tag header: `OutOfRange` for fewer than 10
/// bytes, else `UnsupportedVersion` unless the major version (byte 3) is 3,
/// else what `id3v2_3` returns. The minor version (byte 4) is not looked at.
pub open spec fn id3v2_result(header: Seq<u8>) -> Result<Id3Header, DecodeError> {
    if header.len() < ID3_HEADER_LENGTH {
        Err(DecodeError::OutOfRange)
    } else if header[3] != 3 {
        Err(DecodeError::UnsupportedVersion)
    } else {
        id3v2_3_result(header)
    }
}

/// Decodes flags and size of the header of an ID3v2.3 tag.
pub fn id3v2_3(header: &[u8]) -> (r: Result<Id3Header, DecodeError>)
    ensures
        r == id3v2_3_result(header@),
        r matches Ok(decoded) ==> decoded.wf(),
{
    if header.len() < ID3_HEADER_LENGTH {
        return Err(DecodeError::OutOfRange);
    }
    let flags: u8 = header[5];
    let unsynchronization: bool = (flags & 128) == 128;
    let extended: bool = (flags & 64) == 64;
    let experimental: bool = (flags & 32) == 32;
    let should_be_zero: bool = (flags & 31) == 0;
    proof {
        lemma2_to64();
        assert(((flags & 128) == 128) == ((flags / 128) % 2 == 1)) by (bit_vector);
        assert(((flags & 64) == 64) == ((flags / 64) % 2 == 1)) by (bit_vector);
        assert(((flags & 32) == 32) == ((flags / 32) % 2 == 1)) by (bit_vector);
        assert(((flags & 31) == 0) == (flags % 32 == 0)) by (bit_vector);
    }
    if !should_be_zero {
        return Err(DecodeError::InvalidHeaderFlags);
    }
    let size: usize = get_size(&header[6..10])?;
    Ok(Id3Header { size, unsynchronization, extended, experimental })
}

/// Decodes the header of an ID3v2 tag, of which only major version 3 is
/// supported.
pub fn id3v2(header: &[u8]) -> (r: Result<Id3Header, DecodeError>)
    ensures
        r == id3v2_result(header@),
        r matches Ok(decoded) ==> decoded.wf(),
{
    if header.len() < ID3_HEADER_LENGTH {
        return Err(DecodeError::OutOfRange);
    }
    let major_version: u8 = header[3];
    match major_version {
        3 => id3v2_3(header),
        _ => Err(DecodeError::UnsupportedVersion),
    }
}

/// Whether `raw` starts with the three bytes "ID3" that open an ID3v2 tag.
pub fn has_id3_marker(raw: &[u8]) -> (r: bool)
    ensures
        r == (raw@.len() >= 3 && raw@[0] == 0x49 && raw@[1] == 0x44 && raw@[2] == 0x33),
{
    raw.len() >= 3 && raw[0] == 0x49 && raw[1] == 0x44 && raw[2] == 0x33
}

/// The standard library's error for bytes that are not UTF-8, carried as an
/// opaque value.
#[verifier::external_type_specification]
#[verifier::external_body]
pub struct ExUtf8Error(core::str::Utf8Error);

/// The standard library's check and conversion of UTF-8: `core::str::from_utf8`
/// returns `Ok` exactly for a slice that is valid UTF-8, and the string it
/// returns is made of the slice's bytes.
pub assume_specification[ core::str::from_utf8 ](v: &[u8]) -> (r: Result<&str, core::str::Utf8Error>)
    ensures
        r is Ok <==> valid_utf8(v@),
        r matches Ok(s) ==> encode_utf8(s@) == v@,
;

/// The frame whose 10-byte header starts at byte `offset` of `data`, by the
/// first rule that fails: the 4 bytes of the identifier lie in the buffer
/// (`OutOfRange`) and are UTF-8 (`InvalidEncoding`); the 4 bytes of the size
/// lie in the buffer (`OutOfRange`) and are synchsafe
/// (`InvalidSynchsafeSize`); the 2 bytes of flags, which are not looked at,
/// and the content, of as many bytes as the size says, lie in the buffer
/// (`OutOfRange`); the content is UTF-8 (`InvalidEncoding`).
pub open spec fn id3_frame_at(data: Seq<u8>, offset: int) -> Result<TagView, DecodeError> {
    if offset + 4 > data.len() {
        Err(DecodeError::OutOfRange)
    } else if !valid_utf8(data.subrange(offset, offset + 4)) {
        Err(DecodeError::InvalidEncoding)
    } else if offset + 8 > data.len() {
        Err(DecodeError::OutOfRange)
    } else if !is_synchsafe(data.subrange(offset + 4, offset + 8)) {
        Err(DecodeError::InvalidSynchsafeSize)
    } else {
        let size = synchsafe_value(data.subrange(offset + 4, offset + 8));
        let content = data.subrange(offset + 10, offset + 10 + size);
        if offset + 10 + size > data.len() {
            Err(DecodeError::OutOfRange)
        } else if !valid_utf8(content) {
            Err(DecodeError::InvalidEncoding)
        } else {
            Ok(TagView { id: decode_utf8(data.subrange(offset, offset + 4)), content: decode_utf8(content), size })
        }
    }
}

/// Decodes the frame at byte `offset` of `data`: its identifier, its content
/// and the size of the content in bytes.
pub fn get_id3_frame(data: &[u8], offset: usize) -> (r: Result<(&str, &str, usize), DecodeError>)
    ensures
        match r {
            Ok((id, content, size)) => id3_frame_at(data@, offset as int) == Ok::<TagView, DecodeError>(
                TagView { id: id@, content: content@, size: size as nat },
            ),
            Err(e) => id3_frame_at(data@, offset as int) == Err::<TagView, DecodeError>(e),
        },
        r matches Ok((id, content, size)) ==> {
            &&& offset + ID3_HEADER_LENGTH + size <= data@.len() <= usize::MAX
            &&& encode_utf8(id@) == data@.subrange(offset as int, offset + 4)
            &&& encode_utf8(content@) == data@.subrange(offset + ID3_HEADER_LENGTH, offset + ID3_HEADER_LENGTH + size)
        },
{
    let len: usize = data.len();
    if offset > len || len - offset < 4 {
        return Err(DecodeError::OutOfRange);
    }
    let frame_id: &str = match core::str::from_utf8(&data[offset..offset + 4]) {
        Ok(text) => text,
        Err(_) => {
            return Err(DecodeError::InvalidEncoding);
        },
    };
    if len - offset < 8 {
        return Err(DecodeError::OutOfRange);
    }
    let frame_size: usize = get_size(&data[offset + 4..offset + 8])?;
    if len - offset < ID3_HEADER_LENGTH || len - offset - ID3_HEADER_LENGTH < frame_size {
        return Err(DecodeError::OutOfRange);
    }
    let frame_content: &str = match core::str::from_utf8(&data[offset + 10..offset + 10 + frame_size]) {
        Ok(text) => text,
        Err(_) => {
            return Err(DecodeError::InvalidEncoding);
        },
    };
    proof {
        encode_utf8_decode_utf8(frame_id@);
        encode_utf8_decode_utf8(frame_content@);
    }
    Ok((frame_id, frame_content, frame_size))
}

/// The result of a walk with the frames `before` put in front of its frames.
pub open spec fn with_frames_before(before: Seq<TagView>, walk: Result<(Seq<TagView>, int), DecodeError>) -> Result<
    (Seq<TagView>, int),
    DecodeError,
> {
    match walk {
        Ok((frames, next)) => Ok((before + frames, next)),
        Err(e) => Err(e),
    }
}

/// The frames found by decoding a frame at byte `offset` of `data`, then one
/// right behind it, and so on, up to and including the first frame that ends
/// at or behind byte `end`; with them the offset at which that frame ends.
/// At least one frame is decoded. The first frame that cannot be decoded
/// makes the walk fail with that frame's error.
pub open spec fn id3_frames_from(data: Seq<u8>, offset: int, end: int) -> Result<(Seq<TagView>, int), DecodeError>
    decreases data.len() - offset,
{
    match id3_frame_at(data, offset) {
        Err(e) => Err(e),
        Ok(frame) => {
            let next = offset + ID3_HEADER_LENGTH + frame.size;
            if next >= end {
                Ok((seq![frame], next))
            } else {
                with_frames_before(seq![frame], id3_frames_from(data, next, end))
            }
        },
    }
}

/// A walk that succeeds finds at least one frame, and ends at or behind
/// `end`, behind where it started, and within the buffer.
pub proof fn lemma_walk_ends(data: Seq<u8>, offset: int, end: int)
    requires
        0 <= offset,
    ensures
        id3_frames_from(data, offset, end) matches Ok((frames, next)) ==> frames.len() >= 1 && end <= next && offset
            + ID3_HEADER_LENGTH <= next <= data.len(),
    decreases data.len() - offset,
{
    if let Ok(frame) = id3_frame_at(data, offset) {
        let next = offset + ID3_HEADER_LENGTH + frame.size;
        if next < end {
            lemma_walk_ends(data, next, end);
        }
    }
}

/// Decodes the frames of the tag whose header is `header`, from byte 10 of
/// `raw` on, until a frame ends at or behind byte `header.size + 10`. Returns
/// the frames in the order of the buffer, and the offset of the first byte
/// behind the last of them.
pub fn get_id3_frames<'s>(raw: &'s [u8], header: Id3Header) -> (r: Result<(Vec<Tag<'s>>, usize), DecodeError>)
    ensures
        match r {
            Ok((tags, next)) => id3_frames_from(raw@, ID3_HEADER_LENGTH as int, header.size + ID3_HEADER_LENGTH) == Ok::<
                (Seq<TagView>, int),
                DecodeError,
            >((tag_views(tags@), next as int)),
            Err(e) => id3_frames_from(raw@, ID3_HEADER_LENGTH as int, header.size + ID3_HEADER_LENGTH) == Err::<
                (Seq<TagView>, int),
                DecodeError,
            >(e),
        },
{
    let ghost end: int = header.size + ID3_HEADER_LENGTH;
    let mut offset: usize = ID3_HEADER_LENGTH;
    let mut tags: Vec<Tag<'s>> = Vec::new();
    assert(tag_views(tags@) =~= Seq::<TagView>::empty());
    assert(with_frames_before(tag_views(tags@), id3_frames_from(raw@, offset as int, end)) == id3_frames_from(
        raw@,
        offset as int,
        end,
    )) by {
        match id3_frames_from(raw@, offset as int, end) {
            Ok((frames, next)) => {
                assert(Seq::<TagView>::empty() + frames =~= frames);
            },
            Err(e) => {},
        }
    }
    loop
        invariant
            end == header.size + ID3_HEADER_LENGTH,
            id3_frames_from(raw@, ID3_HEADER_LENGTH as int, end) == with_frames_before(
                tag_views(tags@),
                id3_frames_from(raw@, offset as int, end),
            ),
        decreases raw@.len() - offset,
    {
        let ghost before: Seq<TagView> = tag_views(tags@);
        let (id, content, size) = get_id3_frame(raw, offset)?;
        let tag = Tag { id, content, size };
        tags.push(tag);
        let ghost next: int = offset + ID3_HEADER_LENGTH + size;
        proof {
            assert(tag_views(tags@) =~= before + seq![tag@]);
            if next < end {
                match id3_frames_from(raw@, next, end) {
                    Ok((frames, last)) => {
                        assert(before + (seq![tag@] + frames) =~= (before + seq![tag@]) + frames);
                    },
                    Err(e) => {},
                }
            }
        }
        offset += ID3_HEADER_LENGTH + size;
        if header.size <= usize::MAX - ID3_HEADER_LENGTH && offset >= header.size + ID3_HEADER_LENGTH {
            return Ok((tags, offset));
        }
    }
}

/// Decoding a tag has no hidden state: two buffers that hold the same bytes
/// give the same size, the same tag header, the same frame at each offset
/// and the same walk over the frames.
pub proof fn lemma_id3_repeatable(first: Seq<u8>, second: Seq<u8>, offset: int, end: int)
    requires
        first.len() == second.len(),
        forall|i: int| 0 <= i < first.len() ==> first[i] == second[i],
    ensures
        size_result(first) == size_result(second),
        id3v2_result(first) == id3v2_result(second),
        id3_frame_at(first, offset) == id3_frame_at(second, offset),
        id3_frames_from(first, offset, end) == id3_frames_from(second, offset, end),
{
    assert(first =~= second);
}

} // verus!
