//! The 4-byte header of an MPEG audio frame and what follows from it:
//! bitrate, sample rate and the length of the frame.

use vstd::prelude::*;
use vstd::arithmetic::power2::lemma2_to64;
use crate::enums::{ChannelMode, DerivedMpegValues, Layer, MpegAudioFrameHeader, MpegVersion, Protection};
use crate::error::DecodeError;
use crate::util::{bits_value, incremental_extract};

verus! {

/// Length of a frame header in bytes.
pub const MPEG_FRAME_HEADER_LENGTH: usize = 4;

/// Bitrates in kbit/s by bitrate index: MPEG 1, layer I.
pub const BITRATE_INDEX_V1_L1: [u32; 15] = [0, 32, 64, 96, 128, 160, 192, 224, 256, 288, 320, 352, 384, 416, 448];

/// Bitrates in kbit/s by bitrate index: MPEG 1, layer II.
pub const BITRATE_INDEX_V1_L2: [u32; 15] = [0, 32, 48, 56, 64, 80, 96, 112, 128, 160, 192, 224, 256, 320, 384];

/// Bitrates in kbit/s by bitrate index: MPEG 1, layer III.
pub const BITRATE_INDEX_V1_L3: [u32; 15] = [0, 32, 40, 48, 56, 64, 80, 96, 112, 128, 160, 192, 224, 256, 320];

/// Bitrates in kbit/s by bitrate index: MPEG 2 and 2.5, layer I.
pub const BITRATE_INDEX_V2_L1: [u32; 15] = [0, 32, 48, 56, 64, 80, 96, 112, 128, 144, 160, 176, 192, 224, 256];

/// Bitrates in kbit/s by bitrate index: MPEG 2 and 2.5, layers II and III.
pub const BITRATE_INDEX_V2_L2L3: [u32; 15] = [0, 8, 16, 24, 32, 40, 48, 56, 64, 80, 96, 112, 128, 144, 160];

/// Sample rates in Hz by sampling rate index: MPEG 1.
pub const SAMPLE_RATE_MPEG1: [u32; 3] = [44100, 48000, 32000];

/// Sample rates in Hz by sampling rate index: MPEG 2.
pub const SAMPLE_RATE_MPEG2: [u32; 3] = [22050, 24000, 16000];

/// Sample rates in Hz by sampling rate index: MPEG 2.5.
pub const SAMPLE_RATE_MPEG2_5: [u32; 3] = [11025, 12000, 8000];

/// The 11 bits of frame sync, all set.
pub const FRAME_SYNC: u32 = 0x7FF;

/// The fields that the 32 bits at the start of `buf` hold behind the frame
/// sync: version (2 bits), layer (2), protection (1), bitrate index (4),
/// sampling rate index (2), padding (1), private (1), channel mode (2), mode
/// extension (2), copyright (1), original (1), emphasis (2).
pub open spec fn header_at(buf: Seq<u8>) -> MpegAudioFrameHeader {
    MpegAudioFrameHeader {
        version: MpegVersion::of_bits(bits_value(buf, 11, 2) as int),
        layer: Layer::of_bits(bits_value(buf, 13, 2) as int),
        protected: Protection::of_bits(bits_value(buf, 15, 1) as int),
        bitrate_index: bits_value(buf, 16, 4) as u8,
        sampling_rate_frequency_index: bits_value(buf, 20, 2) as u8,
        padding: bits_value(buf, 22, 1) == 1,
        private: bits_value(buf, 23, 1) == 1,
        channel_mode: ChannelMode::of_bits(bits_value(buf, 24, 2) as int),
        mode_extension: bits_value(buf, 26, 2) as u8,
        copyright: bits_value(buf, 28, 1) == 1,
        original: bits_value(buf, 29, 1) == 1,
        emphasis: bits_value(buf, 30, 2) as u8,
    }
}

/// What `get_mpeg_audio_frame` returns: `OutOfRange` for fewer than 4 bytes,
/// else `BadFrameSync` unless the first 11 bits are all set, else the header.
pub open spec fn header_result(buf: Seq<u8>) -> Result<MpegAudioFrameHeader, DecodeError> {
    if buf.len() < MPEG_FRAME_HEADER_LENGTH {
        Err(DecodeError::OutOfRange)
    } else if bits_value(buf, 0, 11) != FRAME_SYNC {
        Err(DecodeError::BadFrameSync)
    } else {
        Ok(header_at(buf))
    }
}

/// Decodes the frame header at the start of `raw`.
pub fn get_mpeg_audio_frame(raw: &[u8]) -> (r: Result<MpegAudioFrameHeader, DecodeError>)
    ensures
        r == header_result(raw@),
        r matches Ok(header) ==> header.wf(),
{
    proof {
        lemma2_to64();
    }
    let mut counter: u16 = 0;
    // AAAAAAAA AAABBCCD EEEEFFGH IIJJKLMM
    let sync: u32 = incremental_extract(raw, 11, &mut counter)?;  // A
    let version: u8 = incremental_extract(raw, 2, &mut counter)? as u8;  // B
    let layer: u8 = incremental_extract(raw, 2, &mut counter)? as u8;  // C
    let protected: u8 = incremental_extract(raw, 1, &mut counter)? as u8;  // D
    let bitrate_index: u8 = incremental_extract(raw, 4, &mut counter)? as u8;  // E
    let sampling_rate_frequency_index: u8 = incremental_extract(raw, 2, &mut counter)? as u8;  // F
    let padding: u32 = incremental_extract(raw, 1, &mut counter)?;  // G
    let private: u32 = incremental_extract(raw, 1, &mut counter)?;  // H
    let channel_mode: u8 = incremental_extract(raw, 2, &mut counter)? as u8;  // I
    let mode_extension: u8 = incremental_extract(raw, 2, &mut counter)? as u8;  // J
    let copyright: u32 = incremental_extract(raw, 1, &mut counter)?;  // K
    let original: u32 = incremental_extract(raw, 1, &mut counter)?;  // L
    let emphasis: u8 = incremental_extract(raw, 2, &mut counter)? as u8;  // M

    if sync != FRAME_SYNC {
        return Err(DecodeError::BadFrameSync);
    }
    Ok(
        MpegAudioFrameHeader {
            version: MpegVersion::from_bits(version).unwrap(),
            layer: Layer::from_bits(layer).unwrap(),
            protected: Protection::from_bits(protected).unwrap(),
            bitrate_index,
            sampling_rate_frequency_index,
            padding: padding == 1,
            private: private == 1,
            channel_mode: ChannelMode::from_bits(channel_mode).unwrap(),
            mode_extension,
            copyright: copyright == 1,
            original: original == 1,
            emphasis,
        },
    )
}

/// The bitrate table for a version and a layer, neither of them reserved.
/// MPEG 2 and 2.5 share their tables, and so do their layers II and III.
pub open spec fn bitrate_table(version: MpegVersion, layer: Layer) -> Seq<u32> {
    match version {
        MpegVersion::I => match layer {
            Layer::I => BITRATE_INDEX_V1_L1@,
            Layer::II => BITRATE_INDEX_V1_L2@,
            _ => BITRATE_INDEX_V1_L3@,
        },
        _ => match layer {
            Layer::I => BITRATE_INDEX_V2_L1@,
            _ => BITRATE_INDEX_V2_L2L3@,
        },
    }
}

/// The sample rate table for a version that is not reserved.
pub open spec fn sample_rate_table(version: MpegVersion) -> Seq<u32> {
    match version {
        MpegVersion::I => SAMPLE_RATE_MPEG1@,
        MpegVersion::II => SAMPLE_RATE_MPEG2@,
        _ => SAMPLE_RATE_MPEG2_5@,
    }
}

/// The length of a frame in bytes, header included. Layer I counts in slots
/// of 4 bytes; the division truncates.
pub open spec fn frame_length(layer: Layer, bitrate: int, samplerate: int, padding: bool) -> int {
    let pad: int = if padding { 1 } else { 0 };
    if layer == Layer::I {
        (12 * bitrate / samplerate + pad) * 4
    } else {
        144 * bitrate / samplerate + pad
    }
}

/// What `check_mpeg_audio_frame` returns for a header: the error of the
/// first rule that the header breaks, in the order reserved version or layer,
/// bitrate index, sampling rate index; else the derived values.
pub open spec fn derived_values(header: MpegAudioFrameHeader) -> Result<DerivedMpegValues, DecodeError> {
    if header.version == MpegVersion::Reserved || header.layer == Layer::Reserved {
        Err(DecodeError::ReservedField)
    } else if header.bitrate_index == 0 || header.bitrate_index >= 15 {
        Err(DecodeError::InvalidBitrateIndex)
    } else if header.sampling_rate_frequency_index >= 3 {
        Err(DecodeError::InvalidSampleRateIndex)
    } else {
        let bitrate: int = bitrate_table(header.version, header.layer)[header.bitrate_index as int] * 1000;
        let samplerate: int = sample_rate_table(header.version)[header.sampling_rate_frequency_index as int] as int;
        Ok(
            (DerivedMpegValues {
                bitrate: bitrate as u32,
                samplerate: samplerate as u32,
                frame_length_in_bytes: frame_length(header.layer, bitrate, samplerate, header.padding) as u32,
            }),
        )
    }
}

/// Validates a frame header and derives bitrate, sample rate and frame
/// length from it.
pub fn check_mpeg_audio_frame(header: &MpegAudioFrameHeader) -> (r: Result<DerivedMpegValues, DecodeError>)
    ensures
        r == derived_values(*header),
        r is Ok <==> header.is_valid(),
        r matches Ok(derived) ==> {
            &&& derived.bitrate == 1000 * bitrate_table(header.version, header.layer)[header.bitrate_index as int]
            &&& derived.samplerate == sample_rate_table(header.version)[header.sampling_rate_frequency_index as int]
            &&& derived.frame_length_in_bytes == frame_length(
                header.layer,
                derived.bitrate as int,
                derived.samplerate as int,
                header.padding,
            )
            &&& 0 < derived.bitrate <= 448_000
            &&& 8_000 <= derived.samplerate <= 48_000
        },
{
    if header.version == MpegVersion::Reserved || header.layer == Layer::Reserved {
        return Err(DecodeError::ReservedField);
    }
    if header.bitrate_index == 0 || header.bitrate_index > 14 {
        return Err(DecodeError::InvalidBitrateIndex);
    }
    if header.sampling_rate_frequency_index > 2 {
        return Err(DecodeError::InvalidSampleRateIndex);
    }
    let bitrate_index: usize = header.bitrate_index as usize;
    let kbps: u32 = match header.version {
        MpegVersion::I => match header.layer {
            Layer::I => BITRATE_INDEX_V1_L1[bitrate_index],
            Layer::II => BITRATE_INDEX_V1_L2[bitrate_index],
            _ => BITRATE_INDEX_V1_L3[bitrate_index],
        },
        _ => match header.layer {
            Layer::I => BITRATE_INDEX_V2_L1[bitrate_index],
            _ => BITRATE_INDEX_V2_L2L3[bitrate_index],
        },
    };
    let sampling_index: usize = header.sampling_rate_frequency_index as usize;
    let samplerate: u32 = match header.version {
        MpegVersion::I => SAMPLE_RATE_MPEG1[sampling_index],
        MpegVersion::II => SAMPLE_RATE_MPEG2[sampling_index],
        _ => SAMPLE_RATE_MPEG2_5[sampling_index],
    };
    assert(kbps <= 448);
    assert(8000 <= samplerate <= 48000);
    let bitrate: u32 = kbps * 1000;
    let padding: u32 = if header.padding { 1 } else { 0 };
    let frame_length_in_bytes: u32 = match header.layer {
        Layer::I => (12 * bitrate / samplerate + padding) * 4,
        _ => 144 * bitrate / samplerate + padding,
    };
    Ok(DerivedMpegValues { bitrate, samplerate, frame_length_in_bytes })
}

/// A header whose layer is the reserved one is refused as `ReservedField`,
/// whatever its other fields hold.
pub proof fn lemma_reserved_layer_rejected(header: MpegAudioFrameHeader)
    requires
        header.layer == Layer::Reserved,
    ensures
        derived_values(header) == Err::<DerivedMpegValues, DecodeError>(DecodeError::ReservedField),
{
}

/// Four bytes with the frame sync set and the layer bits 00 decode to a
/// header that validation refuses as `ReservedField`.
pub proof fn lemma_reserved_layer_bits_rejected(buf: Seq<u8>)
    requires
        buf.len() >= MPEG_FRAME_HEADER_LENGTH,
        bits_value(buf, 0, 11) == FRAME_SYNC,
        bits_value(buf, 13, 2) == 0,
    ensures
        header_result(buf) matches Ok(header) && header.layer == Layer::Reserved && derived_values(header) == Err::<
            DerivedMpegValues,
            DecodeError,
        >(DecodeError::ReservedField),
{
}

/// Decoding a header has no hidden state: two buffers that hold the same
/// bytes give the same header or the same error, and the same header gives
/// the same derived values.
pub proof fn lemma_header_repeatable(first: Seq<u8>, second: Seq<u8>)
    requires
        first.len() == second.len(),
        forall|i: int| 0 <= i < first.len() ==> first[i] == second[i],
    ensures
        header_result(first) == header_result(second),
        header_result(first) matches Ok(header) ==> header_result(second) matches Ok(again) && derived_values(header)
            == derived_values(again),
{
    assert(first =~= second);
}

} // verus!
