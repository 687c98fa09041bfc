//! The hash table.
//!
//! An archive stores no file names. It holds a table, a power of two long, of
//! the hashes of its files' names. A name is looked up from its home slot
//! onward, slot by slot, until an entry with both its hashes is found, a slot
//! that was never used is met, or the whole table has been walked. The table
//! is stored encrypted under the hash of `(hash table)`.
use vstd::prelude::*;
use crate::bytes::{read_u16_le, read_u32_le, took_field, u16_le_at, u32_le_at};
use crate::error::MPQResult;

verus! {

/// One slot of the hash table, 16 bytes in the archive.
#[derive(Debug, PartialEq, Eq, Default, Clone, Copy)]
pub struct MPQHashTableEntry {
    /// The hash of the file's name in domain A.
    pub hash_a: u32,
    /// The hash of the file's name in domain B.
    pub hash_b: u32,
    /// The language of the file; 0 is neutral.
    pub locale: u16,
    /// The platform the file is meant for; 0 is the default.
    pub platform: u16,
    /// The file's index in the block table, or one of the two marks
    /// `0xFFFFFFFF` (never used) and `0xFFFFFFFE` (deleted).
    pub block_table_index: u32,
}

impl MPQHashTableEntry {
    /// The entry whose 16 bytes start at `at` in `b`.
    pub open spec fn spec_at(b: Seq<u8>, at: int) -> MPQHashTableEntry {
        MPQHashTableEntry {
            hash_a: u32_le_at(b, at),
            hash_b: u32_le_at(b, at + 4),
            locale: u16_le_at(b, at + 8),
            platform: u16_le_at(b, at + 10),
            block_table_index: u32_le_at(b, at + 12),
        }
    }

    /// An entry from its five fields.
    pub fn new(
        hash_a: u32,
        hash_b: u32,
        locale: u16,
        platform: u16,
        block_table_index: u32,
    ) -> (r: Self)
        ensures
            r == (MPQHashTableEntry { hash_a, hash_b, locale, platform, block_table_index }),
    {
        Self { hash_a, hash_b, locale, platform, block_table_index }
    }

    /// Reads one entry off the front of `input`: its five fields in order.
    pub fn parse(input: &[u8]) -> (r: MPQResult<&[u8], Self>)
        ensures
            took_field(input@, 16, Self::spec_at(input@, 0), r),
    {
        let (tail, hash_a) = Self::parse_hash_a(input)?;
        let (tail, hash_b) = Self::parse_hash_b(tail)?;
        let (tail, locale) = Self::parse_locale(tail)?;
        let (tail, platform) = Self::parse_platform(tail)?;
        let (tail, block_table_index) = Self::parse_block_table_index(tail)?;
        assert(tail@ == input@.skip(16));
        Ok((tail, MPQHashTableEntry { hash_a, hash_b, locale, platform, block_table_index }))
    }

    /// Offset 0x00: the hash of the file's name in domain A.
    pub fn parse_hash_a(input: &[u8]) -> (r: MPQResult<&[u8], u32>)
        ensures
            took_field(input@, 4, u32_le_at(input@, 0), r),
    {
        read_u32_le(input)
    }

    /// Offset 0x04: the hash of the file's name in domain B.
    pub fn parse_hash_b(input: &[u8]) -> (r: MPQResult<&[u8], u32>)
        ensures
            took_field(input@, 4, u32_le_at(input@, 0), r),
    {
        read_u32_le(input)
    }

    /// Offset 0x08: the language of the file.
    pub fn parse_locale(input: &[u8]) -> (r: MPQResult<&[u8], u16>)
        ensures
            took_field(input@, 2, u16_le_at(input@, 0), r),
    {
        read_u16_le(input)
    }

    /// Offset 0x0a: the platform of the file.
    pub fn parse_platform(input: &[u8]) -> (r: MPQResult<&[u8], u16>)
        ensures
            took_field(input@, 2, u16_le_at(input@, 0), r),
    {
        read_u16_le(input)
    }

    /// Offset 0x0c: the index into the block table, or one of the two marks.
    pub fn parse_block_table_index(input: &[u8]) -> (r: MPQResult<&[u8], u32>)
        ensures
            took_field(input@, 4, u32_le_at(input@, 0), r),
    {
        read_u32_le(input)
    }
}

} // verus!
