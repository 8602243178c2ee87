//! Whole audio frames in a buffer: finding the frame sync, the extent of a
//! frame, the checksum of a protected frame, and the side information behind
//! the header.

use vstd::prelude::*;
use vstd::arithmetic::power2::lemma2_to64;
use crate::enums::{ChannelMode, DerivedMpegValues, MpegAudioFrameHeader, Protection, SideInformation};
use crate::error::DecodeError;
use crate::mpeg::{check_mpeg_audio_frame, derived_values, get_mpeg_audio_frame, header_result, FRAME_SYNC, MPEG_FRAME_HEADER_LENGTH};
use crate::side_information::{get_side_information_mono, get_side_information_stereo, side_information_bits, side_information_result};
use crate::util::{bits_value, bytes_spanned, lemma_bits_value_subrange, lemma_byte_window, lemma_drop_low_bits};

verus! {

/// A decoded audio frame and where it lies in its buffer.
#[derive(Debug, Eq, PartialEq, Clone, Copy, Structural)]
pub struct AudioFrame {
    pub header: MpegAudioFrameHeader,
    pub derived: DerivedMpegValues,
    pub side_information: SideInformation,
    /// Offset of the first byte of the frame header.
    pub start: usize,
    /// Offset of the first byte behind the side information.
    pub main_data_start: usize,
    /// Offset of the first byte behind the frame.
    pub end: usize,
}

/// Whether the two bytes at `offset` open a frame: the first is 0xFF and the
/// top three bits of the second are set.
pub open spec fn is_frame_sync(buf: Seq<u8>, offset: int) -> bool {
    0 <= offset && offset + 1 < buf.len() && buf[offset] == 0xFF && buf[offset + 1] >= 0xE0
}

/// Two bytes open a frame exactly when the 11 bits that they start with are
/// all set.
pub proof fn lemma_frame_sync_bits(buf: Seq<u8>, offset: int)
    requires
        0 <= offset,
        offset + 1 < buf.len(),
    ensures
        is_frame_sync(buf, offset) <==> bits_value(buf, 8 * offset, 11) == FRAME_SYNC,
{
    lemma2_to64();
    lemma_byte_window(buf, offset, 1);
    lemma_byte_window(buf, offset, 2);
    lemma_drop_low_bits(buf, 8 * offset, 16, 5);
    assert(bits_value(buf, 8 * offset, 0) == 0);
    assert(bits_value(buf, 8 * offset, 16) == buf[offset] * 0x100 + buf[offset + 1]);
    assert(bits_value(buf, 8 * offset, 11) == (buf[offset] * 0x100 + buf[offset + 1]) / 32);
}

/// The 4 bytes at `offset` decode to a header exactly where a frame sync
/// stands at `offset`: what `find_frame_sync` finds is never a `BadFrameSync`.
pub proof fn lemma_frame_sync_decodes(buf: Seq<u8>, offset: int)
    requires
        0 <= offset,
        offset + MPEG_FRAME_HEADER_LENGTH <= buf.len(),
    ensures
        is_frame_sync(buf, offset) <==> header_result(buf.subrange(offset, offset + MPEG_FRAME_HEADER_LENGTH)) is Ok,
{
    lemma_frame_sync_bits(buf, offset);
    lemma_bits_value_subrange(buf, offset, offset + MPEG_FRAME_HEADER_LENGTH, 0, 11);
}

/// Whether a frame sync stands at byte `offset` of `raw`.
pub fn frame_sync_at(raw: &[u8], offset: usize) -> (r: bool)
    ensures
        r == is_frame_sync(raw@, offset as int),
{
    if offset >= raw.len() || raw.len() - offset < 2 {
        return false;
    }
    let second: u8 = raw[offset + 1];
    assert(((second & 0b1110_0000) == 0b1110_0000) == (second >= 0xE0)) by (bit_vector);
    raw[offset] == 0xff && (second & 0b1110_0000) == 0b1110_0000
}

/// The offset of the first frame sync at or behind byte `start`, if there is
/// one.
pub fn find_frame_sync(raw: &[u8], start: usize) -> (r: Option<usize>)
    ensures
        match r {
            Some(at) => start <= at && is_frame_sync(raw@, at as int) && forall|between: int|
                start <= between < at ==> !is_frame_sync(raw@, between),
            None => forall|later: int| start <= later ==> !is_frame_sync(raw@, later),
        },
{
    let len: usize = raw.len();
    let mut offset: usize = start;
    while offset < len
        invariant
            len == raw@.len(),
            start <= offset,
            forall|between: int| start <= between < offset ==> !is_frame_sync(raw@, between),
        decreases len - offset,
    {
        if frame_sync_at(raw, offset) {
            return Some(offset);
        }
        offset += 1;
    }
    None
}

/// The header of the frame at byte `offset` of `buf` and the values derived
/// from it: `OutOfRange` unless 4 bytes lie at `offset`; else the error of
/// decoding the header; else the error of validating it; else `OutOfRange`
/// unless the whole frame, of the derived length, lies in the buffer.
pub open spec fn frame_bounds(buf: Seq<u8>, offset: int) -> Result<
    (MpegAudioFrameHeader, DerivedMpegValues),
    DecodeError,
> {
    if offset + MPEG_FRAME_HEADER_LENGTH > buf.len() {
        Err(DecodeError::OutOfRange)
    } else {
        match header_result(buf.subrange(offset, offset + MPEG_FRAME_HEADER_LENGTH)) {
            Err(e) => Err(e),
            Ok(header) => match derived_values(header) {
                Err(e) => Err(e),
                Ok(derived) => if offset + derived.frame_length_in_bytes > buf.len() {
                    Err(DecodeError::OutOfRange)
                } else {
                    Ok((header, derived))
                },
            },
        }
    }
}

/// Decodes and validates the header of the frame at byte `offset` of `raw`,
/// and makes sure that the whole frame lies in the buffer.
pub fn locate_frame(raw: &[u8], offset: usize) -> (r: Result<(MpegAudioFrameHeader, DerivedMpegValues), DecodeError>)
    ensures
        r == frame_bounds(raw@, offset as int),
        r matches Ok((_, derived)) ==> offset + derived.frame_length_in_bytes <= raw@.len() <= usize::MAX,
{
    let len: usize = raw.len();
    if offset > len || len - offset < MPEG_FRAME_HEADER_LENGTH {
        return Err(DecodeError::OutOfRange);
    }
    let header: MpegAudioFrameHeader = get_mpeg_audio_frame(&raw[offset..offset + MPEG_FRAME_HEADER_LENGTH])?;
    let derived: DerivedMpegValues = check_mpeg_audio_frame(&header)?;
    if derived.frame_length_in_bytes as u64 > (len - offset) as u64 {
        return Err(DecodeError::OutOfRange);
    }
    Ok((header, derived))
}

/// The CRC-16/X-25 checksum of a sequence of bytes (also known as
/// CRC-16/IBM-SDLC: polynomial 0x1021, reflected, initial value and final
/// xor 0xFFFF), as the `crc` crate computes it.
pub uninterp spec fn crc16_x25(bytes: Seq<u8>) -> u16;

/// `crc::Crc::<u16>::checksum` for the algorithm `crc::CRC_16_IBM_SDLC`: the
/// checksum depends on the bytes alone, and the call returns for every input.
#[verifier::external_body]
fn crc16_x25_checksum(bytes: &[u8]) -> (sum: u16)
    ensures
        sum == crc16_x25(bytes@),
{
    crc::Crc::<u16>::new(&crc::CRC_16_IBM_SDLC).checksum(bytes)
}

/// The checksum that a protected frame carries: bytes 4 and 5 of the frame,
/// most significant byte first.
pub open spec fn embedded_checksum(frame: Seq<u8>) -> int {
    frame[4] * 0x100 + frame[5]
}

/// Whether a frame passes its checksum, given the checksum `computed` over
/// the whole frame, header included: a frame without protection passes; a
/// protected frame of fewer than 6 bytes is `OutOfRange`; else the frame
/// passes where the checksum that it carries is `computed`, and is a
/// `ChecksumMismatch` where not.
pub open spec fn checksum_verdict(frame: Seq<u8>, protection: Protection, computed: u16) -> Result<(), DecodeError> {
    if protection == Protection::No {
        Ok(())
    } else if frame.len() < 6 {
        Err(DecodeError::OutOfRange)
    } else if embedded_checksum(frame) != computed {
        Err(DecodeError::ChecksumMismatch)
    } else {
        Ok(())
    }
}

/// Holds the checksum `computed` over the bytes of `frame` against the one
/// that the frame carries.
pub fn verify_checksum(frame: &[u8], protection: Protection, computed: u16) -> (r: Result<(), DecodeError>)
    ensures
        r == checksum_verdict(frame@, protection, computed),
{
    match protection {
        Protection::No => Ok(()),
        Protection::CRC => {
            if frame.len() < 6 {
                return Err(DecodeError::OutOfRange);
            }
            let high: u16 = frame[4] as u16;
            let low: u16 = frame[5] as u16;
            let embedded: u16 = (high << 8) | low;
            assert(embedded == high * 0x100 + low) by (bit_vector)
                requires
                    embedded == (high << 8) | low,
                    high < 0x100,
                    low < 0x100,
            ;
            if embedded != computed {
                return Err(DecodeError::ChecksumMismatch);
            }
            Ok(())
        },
    }
}

/// Checks a frame against its checksum: computes the CRC-16/X-25 checksum
/// over the whole frame where the frame is protected, and holds it against
/// the one that the frame carries.
pub fn check_frame_checksum(frame: &[u8], protection: Protection) -> (r: Result<(), DecodeError>)
    ensures
        r == checksum_verdict(frame@, protection, crc16_x25(frame@)),
{
    match protection {
        Protection::No => Ok(()),
        Protection::CRC => {
            let computed: u16 = crc16_x25_checksum(frame);
            verify_checksum(frame, protection, computed)
        },
    }
}

/// Bytes of checksum behind the header of a protected frame.
pub const CHECKSUM_LENGTH: usize = 2;

/// The offset in a frame at which its side information starts: behind the
/// header, and behind the checksum where the frame is protected.
pub open spec fn side_information_offset(protection: Protection) -> int {
    if protection == Protection::CRC {
        MPEG_FRAME_HEADER_LENGTH + CHECKSUM_LENGTH
    } else {
        MPEG_FRAME_HEADER_LENGTH as int
    }
}

/// The number of bytes that the side information takes: as many as hold its
/// bits.
pub open spec fn side_information_length(mode: ChannelMode) -> int {
    bytes_spanned(side_information_bits(mode) as int)
}

/// The offset in a frame at which its side information starts.
pub fn side_information_start(protection: Protection) -> (r: usize)
    ensures
        r == side_information_offset(protection),
{
    match protection {
        Protection::CRC => MPEG_FRAME_HEADER_LENGTH + CHECKSUM_LENGTH,
        Protection::No => MPEG_FRAME_HEADER_LENGTH,
    }
}

/// The number of bytes that the side information takes: 18 in a
/// single-channel frame, 33 in any other.
pub fn side_information_bytes(mode: ChannelMode) -> (r: usize)
    ensures
        r == side_information_length(mode),
{
    match mode {
        ChannelMode::SingleChannel => 18,
        _ => 33,
    }
}

/// The side information of a frame with the header `header`: `OutOfRange`
/// where the frame ends before it.
pub open spec fn frame_side_information(frame: Seq<u8>, header: MpegAudioFrameHeader) -> Result<
    SideInformation,
    DecodeError,
> {
    let at = side_information_offset(header.protected);
    if at > frame.len() {
        Err(DecodeError::OutOfRange)
    } else {
        side_information_result(frame.subrange(at, frame.len() as int), header.channel_mode)
    }
}

/// Decodes the side information of `frame`, whose decoded header is
/// `header`, by the layout of the header's channel mode.
pub fn get_side_information(frame: &[u8], header: &MpegAudioFrameHeader) -> (r: Result<SideInformation, DecodeError>)
    ensures
        r == frame_side_information(frame@, *header),
{
    let at: usize = side_information_start(header.protected);
    if at > frame.len() {
        return Err(DecodeError::OutOfRange);
    }
    let block: &[u8] = &frame[at..frame.len()];
    match header.channel_mode {
        ChannelMode::SingleChannel => get_side_information_mono(block),
        _ => get_side_information_stereo(block),
    }
}

/// The frame at byte `offset` of `buf`, given the checksum `computed` over
/// its bytes: the error of its bounds, else of its checksum, else of its
/// side information, else the frame.
pub open spec fn frame_result(buf: Seq<u8>, offset: int, computed: u16) -> Result<AudioFrame, DecodeError> {
    match frame_bounds(buf, offset) {
        Err(e) => Err(e),
        Ok((header, derived)) => {
            let end = offset + derived.frame_length_in_bytes;
            let frame = buf.subrange(offset, end);
            match checksum_verdict(frame, header.protected, computed) {
                Err(e) => Err(e),
                Ok(_) => match frame_side_information(frame, header) {
                    Err(e) => Err(e),
                    Ok(side_information) => Ok(
                        (AudioFrame {
                            header,
                            derived,
                            side_information,
                            start: offset as usize,
                            main_data_start: (offset + side_information_offset(header.protected)
                                + side_information_length(header.channel_mode)) as usize,
                            end: end as usize,
                        }),
                    ),
                },
            }
        },
    }
}

/// The bytes of the frame at byte `offset` of `buf`, where `frame_bounds`
/// finds one.
pub open spec fn frame_bytes(buf: Seq<u8>, offset: int) -> Seq<u8> {
    match frame_bounds(buf, offset) {
        Ok((header, derived)) => buf.subrange(offset, offset + derived.frame_length_in_bytes),
        Err(e) => Seq::empty(),
    }
}

/// Side information that decodes lies within its frame.
pub proof fn lemma_side_information_in_frame(frame: Seq<u8>, header: MpegAudioFrameHeader)
    requires
        frame_side_information(frame, header) is Ok,
    ensures
        side_information_offset(header.protected) + side_information_length(header.channel_mode) <= frame.len(),
{
}

/// Decodes the frame at byte `offset` of `raw`: header, derived values,
/// checksum where the frame is protected, and side information.
pub fn decode_frame_at(raw: &[u8], offset: usize) -> (r: Result<AudioFrame, DecodeError>)
    ensures
        r == frame_result(raw@, offset as int, crc16_x25(frame_bytes(raw@, offset as int))),
{
    let (header, derived) = locate_frame(raw, offset)?;
    let end: usize = offset + derived.frame_length_in_bytes as usize;
    let frame: &[u8] = &raw[offset..end];
    check_frame_checksum(frame, header.protected)?;
    let side_information: SideInformation = get_side_information(frame, &header)?;
    proof {
        lemma_side_information_in_frame(frame@, header);
    }
    let main_data_start: usize = offset + side_information_start(header.protected) + side_information_bytes(
        header.channel_mode,
    );
    Ok(AudioFrame { header, derived, side_information, start: offset, main_data_start, end })
}

/// Decoding a frame has no hidden state: two buffers that hold the same
/// bytes have their frame syncs at the same offsets and give, at the same
/// offset, the same frame or the same error.
pub proof fn lemma_frame_repeatable(first: Seq<u8>, second: Seq<u8>, offset: int)
    requires
        first.len() == second.len(),
        forall|i: int| 0 <= i < first.len() ==> first[i] == second[i],
    ensures
        is_frame_sync(first, offset) == is_frame_sync(second, offset),
        frame_bounds(first, offset) == frame_bounds(second, offset),
        frame_result(first, offset, crc16_x25(frame_bytes(first, offset))) == frame_result(
            second,
            offset,
            crc16_x25(frame_bytes(second, offset)),
        ),
{
    assert(first =~= second);
}

} // verus!
