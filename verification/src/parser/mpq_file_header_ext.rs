//! The tail that the archive header has from format version 1 on.
use vstd::prelude::*;
use crate::bytes::{i16_le_at, i64_le_at, read_i16_le, read_i64_le, took_field};
use crate::error::MPQResult;

verus! {

/// The extended fields of an archive header, 12 bytes in the archive.
#[derive(Debug, PartialEq, Eq, Default, Clone, Copy)]
pub struct MPQFileHeaderExt {
    /// Where the extended block table starts, relative to the archive header.
    pub extended_block_table_offset: i64,
    /// The high 16 bits of the hash table's offset, for large archives.
    pub hash_table_offset_high: i16,
    /// The high 16 bits of the block table's offset, for large archives.
    pub block_table_offset_high: i16,
}

impl MPQFileHeaderExt {
    /// The extended fields whose 12 bytes start at `at` in `b`.
    pub open spec fn spec_at(b: Seq<u8>, at: int) -> MPQFileHeaderExt {
        MPQFileHeaderExt {
            extended_block_table_offset: i64_le_at(b, at),
            hash_table_offset_high: i16_le_at(b, at + 8),
            block_table_offset_high: i16_le_at(b, at + 10),
        }
    }

    /// Reads the three fields, in order, off the front of `input`.
    pub fn parse(input: &[u8]) -> (r: MPQResult<&[u8], MPQFileHeaderExt>)
        ensures
            took_field(input@, 12, Self::spec_at(input@, 0), r),
    {
        let (tail, extended_block_table_offset) = Self::parse_extended_block_table_offset(input)?;
        let (tail, hash_table_offset_high) = Self::parse_hash_table_offset_high(tail)?;
        let (tail, block_table_offset_high) = Self::parse_block_table_offset_high(tail)?;
        assert(tail@ == input@.skip(12));
        Ok(
            (
                tail,
                MPQFileHeaderExt {
                    extended_block_table_offset,
                    hash_table_offset_high,
                    block_table_offset_high,
                },
            ),
        )
    }

    /// Offset 0x20 of the header: where the extended block table starts.
    pub fn parse_extended_block_table_offset(input: &[u8]) -> (r: MPQResult<&[u8], i64>)
        ensures
            took_field(input@, 8, i64_le_at(input@, 0), r),
    {
        read_i64_le(input)
    }

    /// Offset 0x28 of the header: the high bits of the hash table's offset.
    pub fn parse_hash_table_offset_high(input: &[u8]) -> (r: MPQResult<&[u8], i16>)
        ensures
            took_field(input@, 2, i16_le_at(input@, 0), r),
    {
        read_i16_le(input)
    }

    /// Offset 0x2a of the header: the high bits of the block table's offset.
    pub fn parse_block_table_offset_high(input: &[u8]) -> (r: MPQResult<&[u8], i16>)
        ensures
            took_field(input@, 2, i16_le_at(input@, 0), r),
    {
        read_i16_le(input)
    }
}

} // verus!
