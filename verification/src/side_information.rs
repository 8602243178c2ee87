//! The side information that follows a frame header (and its checksum, where
//! there is one): three leading fields and two granules, packed without gaps.
//! Every field of a multi-channel frame but `table_select` is twice as wide
//! as in a single-channel frame.

use vstd::prelude::*;
use vstd::arithmetic::power2::{lemma2_to64, pow2};
use crate::enums::{ChannelMode, Granule, SideInformation};
use crate::error::DecodeError;
use crate::util::{bit_at, bits_value, bytes_spanned, incremental_extract, lemma_bits_value_bound, lemma_bits_value_of_equal_bits};

verus! {

/// The widths in bits of the fields of a granule, in the order in which they
/// are packed.
pub struct GranuleLayout {
    pub part2_3_length: nat,
    pub big_values: nat,
    pub global_gain: nat,
    pub scalefac_compress: nat,
    pub windows_switching_flag: nat,
    pub table_select: nat,
    pub region0_count: nat,
    pub region1_count: nat,
    pub preflag: nat,
    pub scalefac_scale: nat,
    pub count1table_select: nat,
}

/// The layout of a granule for a channel mode.
pub open spec fn granule_layout(mode: ChannelMode) -> GranuleLayout {
    if mode == ChannelMode::SingleChannel {
        GranuleLayout {
            part2_3_length: 12,
            big_values: 9,
            global_gain: 8,
            scalefac_compress: 4,
            windows_switching_flag: 1,
            table_select: 20,
            region0_count: 4,
            region1_count: 3,
            preflag: 1,
            scalefac_scale: 1,
            count1table_select: 1,
        }
    } else {
        GranuleLayout {
            part2_3_length: 24,
            big_values: 18,
            global_gain: 16,
            scalefac_compress: 8,
            windows_switching_flag: 2,
            table_select: 30,
            region0_count: 8,
            region1_count: 6,
            preflag: 2,
            scalefac_scale: 2,
            count1table_select: 2,
        }
    }
}

/// The number of bits of a granule: the sum of the widths of its fields.
pub open spec fn granule_bits(mode: ChannelMode) -> nat {
    let w = granule_layout(mode);
    w.part2_3_length + w.big_values + w.global_gain + w.scalefac_compress + w.windows_switching_flag
        + w.table_select + w.region0_count + w.region1_count + w.preflag + w.scalefac_scale
        + w.count1table_select
}

/// The granule whose first bit is bit `offset` of `buf`.
pub open spec fn granule_at(buf: Seq<u8>, offset: int, mode: ChannelMode) -> Granule {
    let w = granule_layout(mode);
    let big_values_at = offset + w.part2_3_length;
    let global_gain_at = big_values_at + w.big_values;
    let scalefac_compress_at = global_gain_at + w.global_gain;
    let windows_switching_flag_at = scalefac_compress_at + w.scalefac_compress;
    let table_select_at = windows_switching_flag_at + w.windows_switching_flag;
    let region0_count_at = table_select_at + w.table_select;
    let region1_count_at = region0_count_at + w.region0_count;
    let preflag_at = region1_count_at + w.region1_count;
    let scalefac_scale_at = preflag_at + w.preflag;
    let count1table_select_at = scalefac_scale_at + w.scalefac_scale;
    Granule {
        part2_3_length: bits_value(buf, offset, w.part2_3_length) as u32,
        big_values: bits_value(buf, big_values_at, w.big_values) as u32,
        global_gain: bits_value(buf, global_gain_at, w.global_gain) as u16,
        scalefac_compress: bits_value(buf, scalefac_compress_at, w.scalefac_compress) as u8,
        windows_switching_flag: bits_value(buf, windows_switching_flag_at, w.windows_switching_flag) as u8,
        table_select: bits_value(buf, table_select_at, w.table_select) as u32,
        region0_count: bits_value(buf, region0_count_at, w.region0_count) as u8,
        region1_count: bits_value(buf, region1_count_at, w.region1_count) as u8,
        block_type: 0,
        mixed_block_flag: 0,
        table_select_two_regions: 0,
        subblock_gain: 0,
        preflag: bits_value(buf, preflag_at, w.preflag) as u8,
        scalefac_scale: bits_value(buf, scalefac_scale_at, w.scalefac_scale) as u8,
        count1table_select: bits_value(buf, count1table_select_at, w.count1table_select) as u8,
    }
}

/// Whether each field of a granule fits the width that the layout of `mode`
/// gives it, and the fields that are not decoded are 0.
pub open spec fn granule_fits(granule: Granule, mode: ChannelMode) -> bool {
    let w = granule_layout(mode);
    &&& granule.part2_3_length < pow2(w.part2_3_length)
    &&& granule.big_values < pow2(w.big_values)
    &&& granule.global_gain < pow2(w.global_gain)
    &&& granule.scalefac_compress < pow2(w.scalefac_compress)
    &&& granule.windows_switching_flag < pow2(w.windows_switching_flag)
    &&& granule.table_select < pow2(w.table_select)
    &&& granule.region0_count < pow2(w.region0_count)
    &&& granule.region1_count < pow2(w.region1_count)
    &&& granule.preflag < pow2(w.preflag)
    &&& granule.scalefac_scale < pow2(w.scalefac_scale)
    &&& granule.count1table_select < pow2(w.count1table_select)
    &&& granule.block_type == 0
    &&& granule.mixed_block_flag == 0
    &&& granule.table_select_two_regions == 0
    &&& granule.subblock_gain == 0
}

/// Whether each field of the side information fits the width that the
/// layout of `mode` gives it.
pub open spec fn side_information_fits(side_information: SideInformation, mode: ChannelMode) -> bool {
    &&& side_information.main_data_begin < pow2(9)
    &&& side_information.private_bits < pow2(private_bits_width(mode))
    &&& side_information.scfsi < pow2(scfsi_width(mode))
    &&& granule_fits(side_information.granule0, mode)
    &&& granule_fits(side_information.granule1, mode)
}

/// What `granule_extract` returns for a cursor at `counter`: `OutOfRange`
/// where the granule ends past the buffer or past the range of the cursor,
/// else the granule.
pub open spec fn granule_result(buf: Seq<u8>, counter: int, mode: ChannelMode) -> Result<Granule, DecodeError> {
    let end = counter + granule_bits(mode);
    if bytes_spanned(end) > buf.len() || end > u16::MAX {
        Err(DecodeError::OutOfRange)
    } else {
        Ok(granule_at(buf, counter, mode))
    }
}

/// The width in bits of `private_bits`.
pub open spec fn private_bits_width(mode: ChannelMode) -> nat {
    if mode == ChannelMode::SingleChannel {
        3
    } else {
        5
    }
}

/// The width in bits of `scfsi`.
pub open spec fn scfsi_width(mode: ChannelMode) -> nat {
    if mode == ChannelMode::SingleChannel {
        4
    } else {
        8
    }
}

/// The number of bits of the side information: 9 bits of `main_data_begin`,
/// `private_bits`, `scfsi` and two granules.
pub open spec fn side_information_bits(mode: ChannelMode) -> nat {
    9 + private_bits_width(mode) + scfsi_width(mode) + 2 * granule_bits(mode)
}

/// The side information that starts at the first bit of `buf`.
pub open spec fn side_information_at(buf: Seq<u8>, mode: ChannelMode) -> SideInformation {
    let scfsi_at = 9 + private_bits_width(mode);
    let granule0_at = scfsi_at + scfsi_width(mode);
    let granule1_at = granule0_at + granule_bits(mode);
    SideInformation {
        main_data_begin: bits_value(buf, 0, 9) as u32,
        private_bits: bits_value(buf, 9, private_bits_width(mode)) as u32,
        scfsi: bits_value(buf, scfsi_at as int, scfsi_width(mode)) as u32,
        granule0: granule_at(buf, granule0_at as int, mode),
        granule1: granule_at(buf, granule1_at as int, mode),
    }
}

/// What decoding the side information of `buf` returns: `OutOfRange` where
/// the buffer is shorter than the layout, else the side information.
pub open spec fn side_information_result(buf: Seq<u8>, mode: ChannelMode) -> Result<SideInformation, DecodeError> {
    if bytes_spanned(side_information_bits(mode) as int) > buf.len() {
        Err(DecodeError::OutOfRange)
    } else {
        Ok(side_information_at(buf, mode))
    }
}

/// Reads the granule at the cursor `counter` and moves the cursor behind it.
/// On an error the cursor stays where it was.
pub fn granule_extract(raw: &[u8], counter: &mut u16, mode: ChannelMode) -> (r: Result<Granule, DecodeError>)
    ensures
        r == granule_result(raw@, *old(counter) as int, mode),
        r is Ok ==> *final(counter) == *old(counter) + granule_bits(mode),
        r is Err ==> *final(counter) == *old(counter),
        r matches Ok(granule) ==> granule_fits(granule, mode),
{
    proof {
        lemma2_to64();
    }
    let mut cursor: u16 = *counter;
    let granule = match mode {
        ChannelMode::SingleChannel => Granule {
            part2_3_length: incremental_extract(raw, 12, &mut cursor)?,
            big_values: incremental_extract(raw, 9, &mut cursor)?,
            global_gain: incremental_extract(raw, 8, &mut cursor)? as u16,
            scalefac_compress: incremental_extract(raw, 4, &mut cursor)? as u8,
            windows_switching_flag: incremental_extract(raw, 1, &mut cursor)? as u8,
            table_select: incremental_extract(raw, 20, &mut cursor)?,
            block_type: 0,
            mixed_block_flag: 0,
            table_select_two_regions: 0,
            subblock_gain: 0,
            region0_count: incremental_extract(raw, 4, &mut cursor)? as u8,
            region1_count: incremental_extract(raw, 3, &mut cursor)? as u8,
            preflag: incremental_extract(raw, 1, &mut cursor)? as u8,
            scalefac_scale: incremental_extract(raw, 1, &mut cursor)? as u8,
            count1table_select: incremental_extract(raw, 1, &mut cursor)? as u8,
        },
        _ => Granule {
            part2_3_length: incremental_extract(raw, 24, &mut cursor)?,
            big_values: incremental_extract(raw, 18, &mut cursor)?,
            global_gain: incremental_extract(raw, 16, &mut cursor)? as u16,
            scalefac_compress: incremental_extract(raw, 8, &mut cursor)? as u8,
            windows_switching_flag: incremental_extract(raw, 2, &mut cursor)? as u8,
            table_select: incremental_extract(raw, 30, &mut cursor)?,
            block_type: 0,
            mixed_block_flag: 0,
            table_select_two_regions: 0,
            subblock_gain: 0,
            region0_count: incremental_extract(raw, 8, &mut cursor)? as u8,
            region1_count: incremental_extract(raw, 6, &mut cursor)? as u8,
            preflag: incremental_extract(raw, 2, &mut cursor)? as u8,
            scalefac_scale: incremental_extract(raw, 2, &mut cursor)? as u8,
            count1table_select: incremental_extract(raw, 2, &mut cursor)? as u8,
        },
    };
    *counter = cursor;
    Ok(granule)
}

/// Decodes the side information of a single-channel frame from the start of
/// `raw`.
pub fn get_side_information_mono(raw: &[u8]) -> (r: Result<SideInformation, DecodeError>)
    ensures
        r == side_information_result(raw@, ChannelMode::SingleChannel),
        r matches Ok(side_information) ==> side_information_fits(side_information, ChannelMode::SingleChannel),
{
    let mut counter: u16 = 0;
    Ok(
        SideInformation {
            main_data_begin: incremental_extract(raw, 9, &mut counter)?,
            private_bits: incremental_extract(raw, 3, &mut counter)?,
            scfsi: incremental_extract(raw, 4, &mut counter)?,
            granule0: granule_extract(raw, &mut counter, ChannelMode::SingleChannel)?,
            granule1: granule_extract(raw, &mut counter, ChannelMode::SingleChannel)?,
        },
    )
}

/// Decodes the side information of a multi-channel frame (stereo, joint
/// stereo or dual channel) from the start of `raw`.
pub fn get_side_information_stereo(raw: &[u8]) -> (r: Result<SideInformation, DecodeError>)
    ensures
        r == side_information_result(raw@, ChannelMode::Stereo),
        r matches Ok(side_information) ==> side_information_fits(side_information, ChannelMode::Stereo),
{
    let mut counter: u16 = 0;
    Ok(
        SideInformation {
            main_data_begin: incremental_extract(raw, 9, &mut counter)?,
            private_bits: incremental_extract(raw, 5, &mut counter)?,
            scfsi: incremental_extract(raw, 8, &mut counter)?,
            granule0: granule_extract(raw, &mut counter, ChannelMode::Stereo)?,
            granule1: granule_extract(raw, &mut counter, ChannelMode::Stereo)?,
        },
    )
}

/// The three multi-channel modes share one layout.
pub proof fn lemma_multi_channel_modes_agree(buf: Seq<u8>, mode: ChannelMode)
    requires
        mode != ChannelMode::SingleChannel,
    ensures
        side_information_result(buf, mode) == side_information_result(buf, ChannelMode::Stereo),
{
}

/// The multi-channel layout holds 9 + 5 + 8 bits and two granules of 118
/// bits each, 258 bits in all. So a block decodes exactly when it has at
/// least 33 bytes, and `part2_3_length` of both granules is a 24-bit value.
pub proof fn lemma_multi_channel_layout(buf: Seq<u8>, mode: ChannelMode)
    requires
        mode != ChannelMode::SingleChannel,
    ensures
        granule_bits(mode) == 118,
        side_information_bits(mode) == 9 + 5 + 8 + 2 * 118,
        side_information_result(buf, mode) is Ok <==> buf.len() >= 33,
        side_information_result(buf, mode) matches Ok(s) ==> s.granule0.part2_3_length < 0x100_0000
            && s.granule1.part2_3_length < 0x100_0000 && s.granule0.part2_3_length == bits_value(buf, 22, 24)
            && s.granule1.part2_3_length == bits_value(buf, 140, 24),
{
    lemma2_to64();
    lemma_bits_value_bound(buf, 22, 24);
    lemma_bits_value_bound(buf, 140, 24);
}

/// The single-channel layout holds 9 + 3 + 4 bits and two granules of 64 bits
/// each, 144 bits in all. So a block decodes exactly when it has at least 18
/// bytes, and `part2_3_length` of both granules is a 12-bit value.
pub proof fn lemma_single_channel_layout(buf: Seq<u8>)
    ensures
        granule_bits(ChannelMode::SingleChannel) == 64,
        side_information_bits(ChannelMode::SingleChannel) == 9 + 3 + 4 + 2 * 64,
        side_information_result(buf, ChannelMode::SingleChannel) is Ok <==> buf.len() >= 18,
        side_information_result(buf, ChannelMode::SingleChannel) matches Ok(s) ==> s.granule0.part2_3_length
            < 0x1000 && s.granule1.part2_3_length < 0x1000 && s.granule0.part2_3_length == bits_value(buf, 16, 12)
            && s.granule1.part2_3_length == bits_value(buf, 80, 12),
{
    lemma2_to64();
    lemma_bits_value_bound(buf, 16, 12);
    lemma_bits_value_bound(buf, 80, 12);
}

/// A granule is made of the `granule_bits(mode)` bits from `offset` on and of
/// nothing else: buffers that agree on those bits give the same granule.
pub proof fn lemma_granule_bits_used(first: Seq<u8>, second: Seq<u8>, offset: int, mode: ChannelMode)
    requires
        forall|i: int| offset <= i < offset + granule_bits(mode) ==> bit_at(first, i) == bit_at(second, i),
    ensures
        granule_at(first, offset, mode) == granule_at(second, offset, mode),
{
    let w = granule_layout(mode);
    let big_values_at = offset + w.part2_3_length;
    let global_gain_at = big_values_at + w.big_values;
    let scalefac_compress_at = global_gain_at + w.global_gain;
    let windows_switching_flag_at = scalefac_compress_at + w.scalefac_compress;
    let table_select_at = windows_switching_flag_at + w.windows_switching_flag;
    let region0_count_at = table_select_at + w.table_select;
    let region1_count_at = region0_count_at + w.region0_count;
    let preflag_at = region1_count_at + w.region1_count;
    let scalefac_scale_at = preflag_at + w.preflag;
    let count1table_select_at = scalefac_scale_at + w.scalefac_scale;
    lemma_bits_value_of_equal_bits(first, second, offset, w.part2_3_length);
    lemma_bits_value_of_equal_bits(first, second, big_values_at, w.big_values);
    lemma_bits_value_of_equal_bits(first, second, global_gain_at, w.global_gain);
    lemma_bits_value_of_equal_bits(first, second, scalefac_compress_at, w.scalefac_compress);
    lemma_bits_value_of_equal_bits(first, second, windows_switching_flag_at, w.windows_switching_flag);
    lemma_bits_value_of_equal_bits(first, second, table_select_at, w.table_select);
    lemma_bits_value_of_equal_bits(first, second, region0_count_at, w.region0_count);
    lemma_bits_value_of_equal_bits(first, second, region1_count_at, w.region1_count);
    lemma_bits_value_of_equal_bits(first, second, preflag_at, w.preflag);
    lemma_bits_value_of_equal_bits(first, second, scalefac_scale_at, w.scalefac_scale);
    lemma_bits_value_of_equal_bits(first, second, count1table_select_at, w.count1table_select);
}

/// The side information is made of the first `side_information_bits(mode)`
/// bits of its buffer and of nothing else: buffers that agree on those bits
/// give the same side information.
pub proof fn lemma_side_information_bits_used(first: Seq<u8>, second: Seq<u8>, mode: ChannelMode)
    requires
        forall|i: int| 0 <= i < side_information_bits(mode) ==> bit_at(first, i) == bit_at(second, i),
    ensures
        side_information_at(first, mode) == side_information_at(second, mode),
{
    let scfsi_at: int = 9 + private_bits_width(mode) as int;
    let granule0_at: int = scfsi_at + scfsi_width(mode);
    let granule1_at: int = granule0_at + granule_bits(mode);
    lemma_bits_value_of_equal_bits(first, second, 0, 9);
    lemma_bits_value_of_equal_bits(first, second, 9, private_bits_width(mode));
    lemma_bits_value_of_equal_bits(first, second, scfsi_at, scfsi_width(mode));
    lemma_granule_bits_used(first, second, granule0_at, mode);
    lemma_granule_bits_used(first, second, granule1_at, mode);
}

/// Decoding side information has no hidden state: two buffers that hold the
/// same bytes give the same granule at each offset and the same side
/// information.
pub proof fn lemma_side_information_repeatable(first: Seq<u8>, second: Seq<u8>, counter: int, mode: ChannelMode)
    requires
        first.len() == second.len(),
        forall|i: int| 0 <= i < first.len() ==> first[i] == second[i],
    ensures
        granule_result(first, counter, mode) == granule_result(second, counter, mode),
        side_information_result(first, mode) == side_information_result(second, mode),
{
    assert(first =~= second);
}

} // verus!
