//! The block table.
//!
//! Each entry describes one region of the archive: a file, free space left by
//! a deleted file, or nothing at all. The table is stored encrypted under the
//! hash of `(block table)`.
use vstd::prelude::*;
use crate::bytes::{read_u32_le, took_field, u32_le_at};
use crate::error::MPQResult;

verus! {

/// One entry of the block table, 16 bytes in the archive.
#[derive(Debug, PartialEq, Eq, Default, Clone, Copy)]
pub struct MPQBlockTableEntry {
    /// Where the block starts, counted from the start of the archive header.
    pub offset: u32,
    /// The number of bytes the block takes in the archive.
    pub archived_size: u32,
    /// The number of bytes of the file once it is unpacked.
    pub size: u32,
    /// The block's flags, a mask of the `MPQ_FILE_*` bits.
    pub flags: u32,
}

impl MPQBlockTableEntry {
    /// The entry whose 16 bytes start at `at` in `b`.
    pub open spec fn spec_at(b: Seq<u8>, at: int) -> MPQBlockTableEntry {
        MPQBlockTableEntry {
            offset: u32_le_at(b, at),
            archived_size: u32_le_at(b, at + 4),
            size: u32_le_at(b, at + 8),
            flags: u32_le_at(b, at + 12),
        }
    }

    /// An entry from its four fields.
    pub fn new(offset: u32, archived_size: u32, size: u32, flags: u32) -> (r: Self)
        ensures
            r == (MPQBlockTableEntry { offset, archived_size, size, flags }),
    {
        Self { offset, archived_size, size, flags }
    }

    /// Reads one entry off the front of `input`: its four fields in order.
    pub fn parse(input: &[u8]) -> (r: MPQResult<&[u8], Self>)
        ensures
            took_field(input@, 16, Self::spec_at(input@, 0), r),
    {
        let (tail, offset) = Self::parse_offset(input)?;
        let (tail, archived_size) = Self::parse_archived_size(tail)?;
        let (tail, size) = Self::parse_size(tail)?;
        let (tail, flags) = Self::parse_flags(tail)?;
        assert(tail@ == input@.skip(16));
        Ok((tail, MPQBlockTableEntry { offset, archived_size, size, flags }))
    }

    /// Offset 0x00: where the block starts, relative to the archive header.
    pub fn parse_offset(input: &[u8]) -> (r: MPQResult<&[u8], u32>)
        ensures
            took_field(input@, 4, u32_le_at(input@, 0), r),
    {
        read_u32_le(input)
    }

    /// Offset 0x04: the size of the block in the archive.
    pub fn parse_archived_size(input: &[u8]) -> (r: MPQResult<&[u8], u32>)
        ensures
            took_field(input@, 4, u32_le_at(input@, 0), r),
    {
        read_u32_le(input)
    }

    /// Offset 0x08: the size of the unpacked file; meaningful only where the
    /// block is a file.
    pub fn parse_size(input: &[u8]) -> (r: MPQResult<&[u8], u32>)
        ensures
            took_field(input@, 4, u32_le_at(input@, 0), r),
    {
        read_u32_le(input)
    }

    /// Offset 0x0c: the flags.
    ///
    /// - `0x80000000` the block is a file;
    /// - `0x04000000` the file has a checksum entry after its sectors;
    /// - `0x02000000` the file is a deletion marker;
    /// - `0x01000000` the file is stored as a single unit;
    /// - `0x00020000` the file's key is adjusted by offset and size;
    /// - `0x00010000` the file is encrypted;
    /// - `0x00000200` the file is compressed;
    /// - `0x00000100` the file is imploded.
    pub fn parse_flags(input: &[u8]) -> (r: MPQResult<&[u8], u32>)
        ensures
            took_field(input@, 4, u32_le_at(input@, 0), r),
    {
        read_u32_le(input)
    }
}

} // verus!
