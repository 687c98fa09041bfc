//! Little-endian integers in byte sequences.
use vstd::prelude::*;
use vstd::slice::slice_subrange;
use crate::error::{ErrorModel, MPQParserError, MPQResult};

verus! {

/// The unsigned 16-bit integer whose little-endian bytes start at `at`.
pub open spec fn u16_le_at(b: Seq<u8>, at: int) -> u16 {
    (b[at] as int + 0x100 * b[at + 1] as int) as u16
}

/// The unsigned 32-bit integer whose little-endian bytes start at `at`.
pub open spec fn u32_le_at(b: Seq<u8>, at: int) -> u32 {
    (b[at] as int + 0x100 * b[at + 1] as int + 0x1_0000 * b[at + 2] as int + 0x100_0000 * b[at
        + 3] as int) as u32
}

/// The unsigned 64-bit integer whose little-endian bytes start at `at`.
pub open spec fn u64_le_at(b: Seq<u8>, at: int) -> u64 {
    (u32_le_at(b, at) as int + 0x1_0000_0000 * u32_le_at(b, at + 4) as int) as u64
}

/// The signed 16-bit integer, in two's complement, whose little-endian bytes
/// start at `at`.
pub open spec fn i16_le_at(b: Seq<u8>, at: int) -> i16 {
    let u = u16_le_at(b, at) as int;
    if u < 0x8000 {
        u as i16
    } else {
        (u - 0x1_0000) as i16
    }
}

/// The signed 64-bit integer, in two's complement, whose little-endian bytes
/// start at `at`.
pub open spec fn i64_le_at(b: Seq<u8>, at: int) -> i64 {
    let u = u64_le_at(b, at) as int;
    if u < 0x8000_0000_0000_0000 {
        u as i64
    } else {
        (u - 0x1_0000_0000_0000_0000) as i64
    }
}

/// Reads the little-endian `u16` at `at`.
pub fn get_u16_le(b: &[u8], at: usize) -> (r: u16)
    requires
        at + 2 <= b@.len(),
    ensures
        r == u16_le_at(b@, at as int),
{
    let lo: u16 = b[at] as u16;
    let hi: u16 = b[at + 1] as u16;
    lo + 0x100 * hi
}

/// Reads the little-endian `u32` at `at`.
pub fn get_u32_le(b: &[u8], at: usize) -> (r: u32)
    requires
        at + 4 <= b@.len(),
    ensures
        r == u32_le_at(b@, at as int),
{
    let b0: u32 = b[at] as u32;
    let b1: u32 = b[at + 1] as u32;
    let b2: u32 = b[at + 2] as u32;
    let b3: u32 = b[at + 3] as u32;
    b0 + 0x100 * b1 + 0x1_0000 * b2 + 0x100_0000 * b3
}

/// Reads the little-endian `u64` at `at`.
pub fn get_u64_le(b: &[u8], at: usize) -> (r: u64)
    requires
        at + 8 <= b@.len(),
    ensures
        r == u64_le_at(b@, at as int),
{
    let n: usize = b.len();
    assert(at + 8 <= n);
    let lo: u64 = get_u32_le(b, at) as u64;
    let hi: u64 = get_u32_le(b, at + 4) as u64;
    lo + 0x1_0000_0000 * hi
}

/// A step that takes a fixed-width field of `width` bytes off the front of
/// `input`: it yields the field's value `expected` and the rest of the input,
/// or fails with `IncompleteData` where the input is shorter than the field.
pub open spec fn took_field<T>(input: Seq<u8>, width: int, expected: T, r: MPQResult<&[u8], T>) -> bool {
    match r {
        Ok((tail, v)) => input.len() >= width && tail@ == input.skip(width) && v == expected,
        Err(e) => input.len() < width && e@ == ErrorModel::IncompleteData,
    }
}

/// Takes a little-endian `u16` off the front of `input`.
pub fn read_u16_le(input: &[u8]) -> (r: MPQResult<&[u8], u16>)
    ensures
        took_field(input@, 2, u16_le_at(input@, 0), r),
{
    if input.len() < 2 {
        return Err(MPQParserError::IncompleteData);
    }
    let v: u16 = get_u16_le(input, 0);
    Ok((slice_subrange(input, 2, input.len()), v))
}

/// Takes a little-endian `u32` off the front of `input`.
pub fn read_u32_le(input: &[u8]) -> (r: MPQResult<&[u8], u32>)
    ensures
        took_field(input@, 4, u32_le_at(input@, 0), r),
{
    if input.len() < 4 {
        return Err(MPQParserError::IncompleteData);
    }
    let v: u32 = get_u32_le(input, 0);
    Ok((slice_subrange(input, 4, input.len()), v))
}

/// Takes a little-endian two's-complement `i16` off the front of `input`.
pub fn read_i16_le(input: &[u8]) -> (r: MPQResult<&[u8], i16>)
    ensures
        took_field(input@, 2, i16_le_at(input@, 0), r),
{
    if input.len() < 2 {
        return Err(MPQParserError::IncompleteData);
    }
    let u: u16 = get_u16_le(input, 0);
    let v: i16 = if u < 0x8000 {
        u as i16
    } else {
        ((u - 0x8000) as i16) - 0x4000 - 0x4000
    };
    Ok((slice_subrange(input, 2, input.len()), v))
}

/// Takes a little-endian two's-complement `i64` off the front of `input`.
pub fn read_i64_le(input: &[u8]) -> (r: MPQResult<&[u8], i64>)
    ensures
        took_field(input@, 8, i64_le_at(input@, 0), r),
{
    if input.len() < 8 {
        return Err(MPQParserError::IncompleteData);
    }
    let u: u64 = get_u64_le(input, 0);
    let v: i64 = if u < 0x8000_0000_0000_0000 {
        u as i64
    } else {
        ((u - 0x8000_0000_0000_0000) as i64) - 0x4000_0000_0000_0000 - 0x4000_0000_0000_0000
    };
    Ok((slice_subrange(input, 8, input.len()), v))
}

} // verus!
