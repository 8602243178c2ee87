//! Reading unsigned integers of 1 to 32 bits from a byte buffer at any bit
//! offset. Bits are counted from the most significant bit of byte 0.

use vstd::prelude::*;
use vstd::arithmetic::div_mod::{lemma_div_denominator, lemma_fundamental_div_mod, lemma_fundamental_div_mod_converse};
use vstd::arithmetic::power2::{lemma2_to64, lemma_pow2_pos, lemma_pow2_strictly_increases, lemma_pow2_unfold, pow2};
use vstd::bits::{lemma_u64_low_bits_mask_is_mod, lemma_u64_shl_is_mul, lemma_u64_shr_is_div, low_bits_mask};
use crate::error::DecodeError;

verus! {

/// The bit of `buf` at position `index`: 0 or 1.
pub open spec fn bit_at(buf: Seq<u8>, index: int) -> nat {
    ((buf[index / 8] as nat) / pow2((7 - index % 8) as nat)) % 2
}

/// The `length` bits of `buf` from bit `offset` on, read as an unsigned
/// integer with the most significant bit first.
pub open spec fn bits_value(buf: Seq<u8>, offset: int, length: nat) -> nat
    decreases length,
{
    if length == 0 {
        0
    } else {
        2 * bits_value(buf, offset, (length - 1) as nat) + bit_at(buf, offset + length - 1)
    }
}

/// The number of bytes of a buffer that the bits before position `end_bit`
/// occupy.
pub open spec fn bytes_spanned(end_bit: int) -> int {
    (end_bit + 7) / 8
}

/// What `extract_bits` returns: `OutOfRange` where the field ends past the
/// buffer, else `UnsupportedFieldWidth` for a width outside 1..=32, else the
/// value of the field.
pub open spec fn extract_result(buf: Seq<u8>, offset: int, length: int) -> Result<u32, DecodeError> {
    if bytes_spanned(offset + length) > buf.len() {
        Err(DecodeError::OutOfRange)
    } else if length < 1 || length > 32 {
        Err(DecodeError::UnsupportedFieldWidth)
    } else {
        Ok(bits_value(buf, offset, length as nat) as u32)
    }
}

/// What `incremental_extract` returns for a cursor at `counter`: as
/// `extract_bits`, and `OutOfRange` also where the cursor cannot move on by
/// `length` bits.
pub open spec fn incremental_result(buf: Seq<u8>, counter: int, length: int) -> Result<u32, DecodeError> {
    if extract_result(buf, counter, length) is Ok && counter + length > u16::MAX {
        Err(DecodeError::OutOfRange)
    } else {
        extract_result(buf, counter, length)
    }
}

/// Doubling a number and adding a bit doubles its remainder and adds the bit,
/// where the modulus is doubled too.
proof fn lemma_mod_double(y: int, b: int, k: int)
    requires
        0 <= y,
        0 <= b < 2,
        0 < k,
    ensures
        (2 * y + b) % (2 * k) == 2 * (y % k) + b,
{
    lemma_fundamental_div_mod(y, k);
    let q: int = y / k;
    let r: int = y % k;
    assert(2 * y + b == q * (2 * k) + (2 * r + b)) by (nonlinear_arith)
        requires
            y == k * q + r,
    ;
    lemma_fundamental_div_mod_converse(2 * y + b, 2 * k, q, 2 * r + b);
}

/// A byte is the sum of its bits, each times its power of 2.
proof fn lemma_byte_bits(b: u8)
    ensures
        b == 128 * ((b / 128) % 2) + 64 * ((b / 64) % 2) + 32 * ((b / 32) % 2) + 16 * ((b / 16) % 2) + 8 * ((b / 8)
            % 2) + 4 * ((b / 4) % 2) + 2 * ((b / 2) % 2) + (b / 1) % 2,
{
    assert(b == 128 * ((b / 128) % 2) + 64 * ((b / 64) % 2) + 32 * ((b / 32) % 2) + 16 * ((b / 16) % 2) + 8 * ((b
        / 8) % 2) + 4 * ((b / 4) % 2) + 2 * ((b / 2) % 2) + (b / 1) % 2) by (bit_vector);
}

/// A field of `length` bits is below 2 to the power `length`.
pub proof fn lemma_bits_value_bound(buf: Seq<u8>, offset: int, length: nat)
    ensures
        bits_value(buf, offset, length) < pow2(length),
    decreases length,
{
    lemma2_to64();
    if length > 0 {
        lemma_bits_value_bound(buf, offset, (length - 1) as nat);
        lemma_pow2_unfold(length);
    }
}

/// A window of whole bytes is worth 256 times the window without its last
/// byte, plus that byte.
pub proof fn lemma_byte_window(buf: Seq<u8>, byte: int, n: nat)
    requires
        0 <= byte,
        1 <= n,
    ensures
        bits_value(buf, 8 * byte, 8 * n) == 256 * bits_value(buf, 8 * byte, (8 * (n - 1)) as nat) + buf[byte + n - 1],
{
    lemma2_to64();
    let o: int = 8 * byte;
    let l: nat = 8 * n;
    let b: u8 = buf[byte + n - 1];
    lemma_byte_bits(b);
    assert(bit_at(buf, o + l - 1) == (b / 1) % 2);
    assert(bit_at(buf, o + l - 2) == (b / 2) % 2);
    assert(bit_at(buf, o + l - 3) == (b / 4) % 2);
    assert(bit_at(buf, o + l - 4) == (b / 8) % 2);
    assert(bit_at(buf, o + l - 5) == (b / 16) % 2);
    assert(bit_at(buf, o + l - 6) == (b / 32) % 2);
    assert(bit_at(buf, o + l - 7) == (b / 64) % 2);
    assert(bit_at(buf, o + l - 8) == (b / 128) % 2);
    assert(bits_value(buf, o, l) == 2 * bits_value(buf, o, (l - 1) as nat) + bit_at(buf, o + l - 1));
    assert(bits_value(buf, o, (l - 1) as nat) == 2 * bits_value(buf, o, (l - 2) as nat) + bit_at(buf, o + l - 2));
    assert(bits_value(buf, o, (l - 2) as nat) == 2 * bits_value(buf, o, (l - 3) as nat) + bit_at(buf, o + l - 3));
    assert(bits_value(buf, o, (l - 3) as nat) == 2 * bits_value(buf, o, (l - 4) as nat) + bit_at(buf, o + l - 4));
    assert(bits_value(buf, o, (l - 4) as nat) == 2 * bits_value(buf, o, (l - 5) as nat) + bit_at(buf, o + l - 5));
    assert(bits_value(buf, o, (l - 5) as nat) == 2 * bits_value(buf, o, (l - 6) as nat) + bit_at(buf, o + l - 6));
    assert(bits_value(buf, o, (l - 6) as nat) == 2 * bits_value(buf, o, (l - 7) as nat) + bit_at(buf, o + l - 7));
    assert(bits_value(buf, o, (l - 7) as nat) == 2 * bits_value(buf, o, (l - 8) as nat) + bit_at(buf, o + l - 8));
}

/// Dropping the last `low` bits of a field divides its value by 2 to the
/// power `low`.
pub proof fn lemma_drop_low_bits(buf: Seq<u8>, offset: int, length: nat, low: nat)
    requires
        low <= length,
    ensures
        bits_value(buf, offset, length) / pow2(low) == bits_value(buf, offset, (length - low) as nat),
    decreases low,
{
    lemma2_to64();
    if low > 0 {
        let x: int = bits_value(buf, offset, length) as int;
        let y: int = bits_value(buf, offset, (length - 1) as nat) as int;
        let rest: int = pow2((low - 1) as nat) as int;
        lemma_pow2_unfold(low);
        lemma_pow2_pos((low - 1) as nat);
        assert(x / 2 == y);
        lemma_div_denominator(x, 2, rest);
        lemma_drop_low_bits(buf, offset, (length - 1) as nat, (low - 1) as nat);
        assert(y / rest == bits_value(buf, offset, (length - low) as nat));
        assert(x / (pow2(low) as int) == y / rest);
    } else {
        assert(bits_value(buf, offset, length) / 1 == bits_value(buf, offset, length));
    }
}

/// The value of a field modulo 2 to the power `kept` is the value of its last
/// `kept` bits.
pub proof fn lemma_drop_high_bits(buf: Seq<u8>, offset: int, length: nat, kept: nat)
    requires
        kept <= length,
    ensures
        bits_value(buf, offset, length) % pow2(kept) == bits_value(buf, offset + length - kept, kept),
    decreases kept,
{
    lemma2_to64();
    if kept > 0 {
        let y: int = bits_value(buf, offset, (length - 1) as nat) as int;
        let bit: int = bit_at(buf, offset + length - 1) as int;
        let rest: int = pow2((kept - 1) as nat) as int;
        lemma_pow2_unfold(kept);
        lemma_pow2_pos((kept - 1) as nat);
        lemma_drop_high_bits(buf, offset, (length - 1) as nat, (kept - 1) as nat);
        lemma_mod_double(y, bit, rest);
        assert(bits_value(buf, offset + length - kept, kept) == 2 * bits_value(
            buf,
            offset + length - kept,
            (kept - 1) as nat,
        ) + bit_at(buf, offset + length - kept + kept - 1));
    }
}

/// A field is what is left of the whole bytes that it lies in, read as one
/// big-endian number, after the bits behind it are shifted out and the bits
/// in front of it are masked off.
pub proof fn lemma_field_in_window(buf: Seq<u8>, offset: int, length: nat)
    requires
        0 <= offset,
    ensures
        ({
            let start: int = offset / 8;
            let end: int = bytes_spanned(offset + length);
            let shift: nat = (8 * end - (offset + length)) as nat;
            bits_value(buf, offset, length) == (bits_value(buf, 8 * start, (8 * (end - start)) as nat) / pow2(shift))
                % pow2(length)
        }),
{
    let start: int = offset / 8;
    let end: int = bytes_spanned(offset + length);
    let shift: nat = (8 * end - (offset + length)) as nat;
    let window: nat = (8 * (end - start)) as nat;
    lemma_drop_low_bits(buf, 8 * start, window, shift);
    lemma_drop_high_bits(buf, 8 * start, (window - shift) as nat, length);
}

/// A field of a part of a buffer is the field of the whole buffer that lies
/// as many bytes further on as the part starts at.
pub proof fn lemma_bits_value_subrange(buf: Seq<u8>, from: int, to: int, offset: int, length: nat)
    requires
        0 <= from <= to <= buf.len(),
        0 <= offset,
        bytes_spanned(offset + length) <= to - from,
    ensures
        bits_value(buf.subrange(from, to), offset, length) == bits_value(buf, 8 * from + offset, length),
    decreases length,
{
    if length > 0 {
        lemma_bits_value_subrange(buf, from, to, offset, (length - 1) as nat);
        let index: int = offset + length - 1;
        assert(buf.subrange(from, to)[index / 8] == buf[from + index / 8]);
        assert((8 * from + index) / 8 == from + index / 8);
        assert((8 * from + index) % 8 == index % 8);
        assert(bit_at(buf.subrange(from, to), index) == bit_at(buf, 8 * from + index));
    }
}

/// The value of a field depends on the bits of the field alone.
pub proof fn lemma_bits_value_of_equal_bits(first: Seq<u8>, second: Seq<u8>, offset: int, length: nat)
    requires
        forall|i: int| offset <= i < offset + length ==> bit_at(first, i) == bit_at(second, i),
    ensures
        bits_value(first, offset, length) == bits_value(second, offset, length),
    decreases length,
{
    if length > 0 {
        lemma_bits_value_of_equal_bits(first, second, offset, (length - 1) as nat);
    }
}

/// Every bit of the byte 0xFF is set.
proof fn lemma_ff_bit(k: nat)
    requires
        k < 8,
    ensures
        (0xFFnat / pow2(k)) % 2 == 1,
{
    lemma2_to64();
    if k == 0 {
        assert((0xFFnat / 1) % 2 == 1);
    } else if k == 1 {
        assert((0xFFnat / 2) % 2 == 1);
    } else if k == 2 {
        assert((0xFFnat / 4) % 2 == 1);
    } else if k == 3 {
        assert((0xFFnat / 8) % 2 == 1);
    } else if k == 4 {
        assert((0xFFnat / 16) % 2 == 1);
    } else if k == 5 {
        assert((0xFFnat / 32) % 2 == 1);
    } else if k == 6 {
        assert((0xFFnat / 64) % 2 == 1);
    } else {
        assert((0xFFnat / 128) % 2 == 1);
    }
}

/// A field of a buffer whose bytes are all 0xFF has all its bits set: its
/// value is 2 to the power `length`, less 1, and that is what extracting it
/// returns for a width from 1 to 32.
pub proof fn lemma_all_ones(buf: Seq<u8>, offset: int, length: nat)
    requires
        0 <= offset,
        bytes_spanned(offset + length) <= buf.len(),
        forall|i: int| 0 <= i < buf.len() ==> buf[i] == 0xFF,
    ensures
        bits_value(buf, offset, length) == pow2(length) - 1,
        1 <= length <= 32 ==> extract_result(buf, offset, length as int) == Ok::<u32, DecodeError>(
            (pow2(length) - 1) as u32,
        ),
    decreases length,
{
    lemma2_to64();
    if length > 0 {
        lemma_all_ones(buf, offset, (length - 1) as nat);
        lemma_pow2_unfold(length);
        let index: int = offset + length - 1;
        let k: nat = (7 - index % 8) as nat;
        assert(buf[index / 8] == 0xFF);
        assert(k == 0 || k == 1 || k == 2 || k == 3 || k == 4 || k == 5 || k == 6 || k == 7);
        lemma_ff_bit(k);
        assert(bit_at(buf, index) == 1);
    }
}

fn one_byte(raw: &[u8], pos: usize) -> (r: u32)
    requires
        pos < raw@.len(),
    ensures
        r == raw@[pos as int],
{
    raw[pos] as u32
}

fn two_byte(raw: &[u8], pos: usize) -> (r: u32)
    requires
        1 <= pos < raw@.len(),
    ensures
        r == raw@[pos - 1] * 0x100 + raw@[pos as int],
{
    let low: u32 = one_byte(raw, pos);
    let high: u32 = raw[pos - 1] as u32;
    assert(low | (high << 8) == high * 0x100 + low) by (bit_vector)
        requires
            low < 0x100,
            high < 0x100,
    ;
    low | (high << 8)
}

fn three_byte(raw: &[u8], pos: usize) -> (r: u32)
    requires
        2 <= pos < raw@.len(),
    ensures
        r == raw@[pos - 2] * 0x1_0000 + raw@[pos - 1] * 0x100 + raw@[pos as int],
{
    let low: u32 = two_byte(raw, pos);
    let high: u32 = raw[pos - 2] as u32;
    assert(low | (high << 16) == high * 0x1_0000 + low) by (bit_vector)
        requires
            low < 0x1_0000,
            high < 0x100,
    ;
    low | (high << 16)
}

fn four_byte(raw: &[u8], pos: usize) -> (r: u32)
    requires
        3 <= pos < raw@.len(),
    ensures
        r == raw@[pos - 3] * 0x100_0000 + raw@[pos - 2] * 0x1_0000 + raw@[pos - 1] * 0x100 + raw@[pos as int],
{
    let low: u32 = three_byte(raw, pos);
    let high: u32 = raw[pos - 3] as u32;
    assert(low | (high << 24) == high * 0x100_0000 + low) by (bit_vector)
        requires
            low < 0x100_0000,
            high < 0x100,
    ;
    low | (high << 24)
}

fn five_byte(raw: &[u8], pos: usize) -> (r: u64)
    requires
        4 <= pos < raw@.len(),
    ensures
        r == raw@[pos - 4] * 0x1_0000_0000 + raw@[pos - 3] * 0x100_0000 + raw@[pos - 2] * 0x1_0000 + raw@[pos - 1]
            * 0x100 + raw@[pos as int],
{
    let low: u64 = four_byte(raw, pos) as u64;
    let high: u64 = raw[pos - 4] as u64;
    assert(low | (high << 32) == high * 0x1_0000_0000 + low) by (bit_vector)
        requires
            low < 0x1_0000_0000,
            high < 0x100,
    ;
    low | (high << 32)
}

/// The whole bytes `start .. start + n` of a buffer, read as one big-endian
/// number, for up to 5 bytes.
spec fn window_value(buf: Seq<u8>, start: int, n: int) -> int {
    if n == 1 {
        buf[start] as int
    } else if n == 2 {
        buf[start] * 0x100 + buf[start + 1]
    } else if n == 3 {
        buf[start] * 0x1_0000 + buf[start + 1] * 0x100 + buf[start + 2]
    } else if n == 4 {
        buf[start] * 0x100_0000 + buf[start + 1] * 0x1_0000 + buf[start + 2] * 0x100 + buf[start + 3]
    } else {
        buf[start] * 0x1_0000_0000 + buf[start + 1] * 0x100_0000 + buf[start + 2] * 0x1_0000 + buf[start + 3]
            * 0x100 + buf[start + 4]
    }
}

/// Up to 5 whole bytes are worth what they spell as a big-endian number.
proof fn lemma_window_value(buf: Seq<u8>, start: int, n: int)
    requires
        0 <= start,
        1 <= n <= 5,
    ensures
        bits_value(buf, 8 * start, (8 * n) as nat) == window_value(buf, start, n),
{
    lemma_byte_window(buf, start, 1);
    assert(bits_value(buf, 8 * start, 0) == 0);
    if n >= 2 {
        lemma_byte_window(buf, start, 2);
    }
    if n >= 3 {
        lemma_byte_window(buf, start, 3);
    }
    if n >= 4 {
        lemma_byte_window(buf, start, 4);
    }
    if n >= 5 {
        lemma_byte_window(buf, start, 5);
    }
}

/// Shifting the window right and masking it gives the field.
proof fn lemma_shift_and_mask(buf: Seq<u8>, offset: int, length: nat, window: u64, shift: u64)
    requires
        0 <= offset,
        1 <= length <= 32,
        shift == 8 * bytes_spanned(offset + length) - (offset + length),
        window == bits_value(buf, 8 * (offset / 8), (8 * (bytes_spanned(offset + length) - offset / 8)) as nat),
    ensures
        shift < 8,
        1u64 << (length as u64) == pow2(length),
        1 < pow2(length) <= 0x1_0000_0000,
        (window >> shift) & (((1u64 << (length as u64)) - 1) as u64) == bits_value(buf, offset, length),
        bits_value(buf, offset, length) < pow2(length),
{
    lemma2_to64();
    lemma_pow2_strictly_increases(length, 33);
    lemma_pow2_strictly_increases(0, length);
    lemma_field_in_window(buf, offset, length);
    lemma_bits_value_bound(buf, offset, length);
    lemma_u64_shr_is_div(window, shift);
    lemma_u64_shl_is_mul(1u64, length as u64);
    let mask: u64 = ((1u64 << (length as u64)) - 1) as u64;
    assert(mask == low_bits_mask(length));
    lemma_u64_low_bits_mask_is_mod(window >> shift, length);
}

/// Reads the field of `length` bits that starts at bit `offset` of `raw`.
pub fn extract_bits(raw: &[u8], offset: u16, length: u16) -> (r: Result<u32, DecodeError>)
    ensures
        r == extract_result(raw@, offset as int, length as int),
        r matches Ok(value) ==> value == bits_value(raw@, offset as int, length as nat) && value < pow2(
            length as nat,
        ),
{
    let total: u32 = offset as u32 + length as u32;
    let start_byte: usize = (offset / 8) as usize;
    let end_byte: usize = ((total + 7) / 8) as usize;
    if raw.len() < end_byte {
        return Err(DecodeError::OutOfRange);
    }
    if length < 1 || length > 32 {
        return Err(DecodeError::UnsupportedFieldWidth);
    }
    let shift: u32 = (8 - total % 8) % 8;
    let num_bytes: usize = end_byte - start_byte;
    let pos: usize = end_byte - 1;
    let window: u64 = match num_bytes {
        1 => one_byte(raw, pos) as u64,
        2 => two_byte(raw, pos) as u64,
        3 => three_byte(raw, pos) as u64,
        4 => four_byte(raw, pos) as u64,
        _ => five_byte(raw, pos),
    };
    proof {
        assert(window == window_value(raw@, start_byte as int, num_bytes as int));
        lemma_window_value(raw@, start_byte as int, num_bytes as int);
        lemma_shift_and_mask(raw@, offset as int, length as nat, window, shift as u64);
    }
    let mask: u64 = (1u64 << length) - 1;
    let value: u64 = (window >> shift) & mask;
    Ok(value as u32)
}

/// Reads the field of `length` bits at the cursor `counter` and moves the
/// cursor behind it. On an error the cursor stays where it was.
pub fn incremental_extract(raw: &[u8], length: u16, counter: &mut u16) -> (r: Result<u32, DecodeError>)
    ensures
        r == incremental_result(raw@, *old(counter) as int, length as int),
        r is Ok ==> *final(counter) == *old(counter) + length,
        r is Err ==> *final(counter) == *old(counter),
        r matches Ok(value) ==> value == bits_value(raw@, *old(counter) as int, length as nat) && value < pow2(
            length as nat,
        ),
{
    let value: u32 = extract_bits(raw, *counter, length)?;
    if length > u16::MAX - *counter {
        return Err(DecodeError::OutOfRange);
    }
    *counter += length;
    Ok(value)
}

/// Extraction has no hidden state: on two buffers that hold the same bytes,
/// at the same offset and for the same width, it gives the same result.
pub proof fn lemma_extract_repeatable(first: Seq<u8>, second: Seq<u8>, offset: int, length: int)
    requires
        first.len() == second.len(),
        forall|i: int| 0 <= i < first.len() ==> first[i] == second[i],
    ensures
        extract_result(first, offset, length) == extract_result(second, offset, length),
        incremental_result(first, offset, length) == incremental_result(second, offset, length),
{
    assert(first =~= second);
}

} // verus!
