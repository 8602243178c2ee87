//! The values that the decoders produce: the tagged fields of a frame header,
//! the header itself, what is derived from it, and the side information.

use vstd::prelude::*;

verus! {

/// The layer of an MPEG audio frame, a 2-bit field.
#[derive(Debug, Eq, PartialEq, Clone, Copy, Structural)]
pub enum Layer {
    Reserved,
    III,
    II,
    I,
}

/// The MPEG version of an audio frame, a 2-bit field.
#[derive(Debug, Eq, PartialEq, Clone, Copy, Structural)]
pub enum MpegVersion {
    /// MPEG version 2.5.
    IiV,
    Reserved,
    /// MPEG version 2 (ISO/IEC 13818-3).
    II,
    /// MPEG version 1 (ISO/IEC 11172-3).
    I,
}

/// Whether a 16-bit checksum follows the frame header, a 1-bit field.
#[derive(Debug, Eq, PartialEq, Clone, Copy, Structural)]
pub enum Protection {
    /// A checksum follows the header.
    CRC,
    /// No checksum.
    No,
}

/// The channel mode of an audio frame, a 2-bit field.
#[derive(Debug, Eq, PartialEq, Clone, Copy, Structural)]
pub enum ChannelMode {
    Stereo,
    JointStereo,
    DualChannel,
    SingleChannel,
}

impl Layer {
    /// The layer that the raw field value `raw` stands for, for `raw` below 4.
    pub open spec fn of_bits(raw: int) -> Layer {
        if raw == 0 {
            Layer::Reserved
        } else if raw == 1 {
            Layer::III
        } else if raw == 2 {
            Layer::II
        } else {
            Layer::I
        }
    }

    /// The layer for a raw 2-bit value; `None` for a value that does not fit
    /// in 2 bits.
    pub fn from_bits(raw: u8) -> (r: Option<Layer>)
        ensures
            r == (if raw < 4 {
                Some(Layer::of_bits(raw as int))
            } else {
                None
            }),
    {
        match raw {
            0 => Some(Layer::Reserved),
            1 => Some(Layer::III),
            2 => Some(Layer::II),
            3 => Some(Layer::I),
            _ => None,
        }
    }
}

impl MpegVersion {
    /// The version that the raw field value `raw` stands for, for `raw` below 4.
    pub open spec fn of_bits(raw: int) -> MpegVersion {
        if raw == 0 {
            MpegVersion::IiV
        } else if raw == 1 {
            MpegVersion::Reserved
        } else if raw == 2 {
            MpegVersion::II
        } else {
            MpegVersion::I
        }
    }

    /// The version for a raw 2-bit value; `None` for a value that does not fit
    /// in 2 bits.
    pub fn from_bits(raw: u8) -> (r: Option<MpegVersion>)
        ensures
            r == (if raw < 4 {
                Some(MpegVersion::of_bits(raw as int))
            } else {
                None
            }),
    {
        match raw {
            0 => Some(MpegVersion::IiV),
            1 => Some(MpegVersion::Reserved),
            2 => Some(MpegVersion::II),
            3 => Some(MpegVersion::I),
            _ => None,
        }
    }
}

impl Protection {
    /// The protection that the raw field value `raw` stands for, for `raw`
    /// below 2.
    pub open spec fn of_bits(raw: int) -> Protection {
        if raw == 0 {
            Protection::CRC
        } else {
            Protection::No
        }
    }

    /// The protection for a raw 1-bit value; `None` for a value that does not
    /// fit in 1 bit.
    pub fn from_bits(raw: u8) -> (r: Option<Protection>)
        ensures
            r == (if raw < 2 {
                Some(Protection::of_bits(raw as int))
            } else {
                None
            }),
    {
        match raw {
            0 => Some(Protection::CRC),
            1 => Some(Protection::No),
            _ => None,
        }
    }
}

impl ChannelMode {
    /// The channel mode that the raw field value `raw` stands for, for `raw`
    /// below 4.
    pub open spec fn of_bits(raw: int) -> ChannelMode {
        if raw == 0 {
            ChannelMode::Stereo
        } else if raw == 1 {
            ChannelMode::JointStereo
        } else if raw == 2 {
            ChannelMode::DualChannel
        } else {
            ChannelMode::SingleChannel
        }
    }

    /// The channel mode for a raw 2-bit value; `None` for a value that does
    /// not fit in 2 bits.
    pub fn from_bits(raw: u8) -> (r: Option<ChannelMode>)
        ensures
            r == (if raw < 4 {
                Some(ChannelMode::of_bits(raw as int))
            } else {
                None
            }),
    {
        match raw {
            0 => Some(ChannelMode::Stereo),
            1 => Some(ChannelMode::JointStereo),
            2 => Some(ChannelMode::DualChannel),
            3 => Some(ChannelMode::SingleChannel),
            _ => None,
        }
    }
}

/// The fields of the 4-byte header of an MPEG audio frame, in the order in
/// which the header packs them after the 11 bits of frame sync.
#[derive(Debug, Eq, PartialEq, Clone, Copy, Structural)]
pub struct MpegAudioFrameHeader {
    pub version: MpegVersion,
    pub layer: Layer,
    pub protected: Protection,
    /// Raw 4-bit index into the bitrate table.
    pub bitrate_index: u8,
    /// Raw 2-bit index into the sample rate table.
    pub sampling_rate_frequency_index: u8,
    pub padding: bool,
    pub private: bool,
    pub channel_mode: ChannelMode,
    /// Raw 2-bit field.
    pub mode_extension: u8,
    pub copyright: bool,
    pub original: bool,
    /// Raw 2-bit field.
    pub emphasis: u8,
}

impl MpegAudioFrameHeader {
    /// Whether each raw field fits its width in the header: 4 bits of bitrate
    /// index, 2 bits each of sampling rate index, mode extension and
    /// emphasis.
    pub open spec fn wf(&self) -> bool {
        &&& self.bitrate_index < 16
        &&& self.sampling_rate_frequency_index < 4
        &&& self.mode_extension < 4
        &&& self.emphasis < 4
    }

    /// Whether the header describes a frame: neither its version nor its
    /// layer is the reserved one, its bitrate index is neither 0 nor 15, and
    /// its sampling rate index is not 3.
    pub open spec fn is_valid(&self) -> bool {
        &&& self.version != MpegVersion::Reserved
        &&& self.layer != Layer::Reserved
        &&& 1 <= self.bitrate_index <= 14
        &&& self.sampling_rate_frequency_index <= 2
    }
}

/// What a valid frame header determines.
#[derive(Debug, Eq, PartialEq, Clone, Copy, Structural)]
pub struct DerivedMpegValues {
    /// Bits per second.
    pub bitrate: u32,
    /// Samples per second.
    pub samplerate: u32,
    /// From the first byte of the header to the first byte of the next
    /// frame's header.
    pub frame_length_in_bytes: u32,
}

/// The side information of a frame.
#[derive(Debug, Eq, PartialEq, Clone, Copy, Structural)]
pub struct SideInformation {
    pub main_data_begin: u32,
    pub private_bits: u32,
    pub scfsi: u32,
    pub granule0: Granule,
    pub granule1: Granule,
}

/// One granule of the side information. `block_type`, `mixed_block_flag`,
/// `table_select_two_regions` and `subblock_gain` are not decoded and are
/// always 0: the layout is the same whatever `windows_switching_flag` holds.
#[derive(Debug, Eq, PartialEq, Clone, Copy, Structural)]
pub struct Granule {
    pub part2_3_length: u32,
    pub big_values: u32,
    pub global_gain: u16,
    pub scalefac_compress: u8,
    pub windows_switching_flag: u8,
    pub table_select: u32,
    pub region0_count: u8,
    pub region1_count: u8,
    pub block_type: u8,
    pub mixed_block_flag: u8,
    pub table_select_two_regions: u32,
    pub subblock_gain: u16,
    pub preflag: u8,
    pub scalefac_scale: u8,
    pub count1table_select: u8,
}

} // verus!
