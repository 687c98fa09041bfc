//! The archive header.
use vstd::prelude::*;
use crate::bytes::{read_u16_le, read_u32_le, took_field, u16_le_at, u32_le_at};
use crate::error::MPQResult;
use crate::parser::mpq_file_header_ext::MPQFileHeaderExt;

verus! {

/// The archive header: the record that every offset in the archive is
/// counted from.
#[derive(Debug, Default, PartialEq, Eq, Clone, Copy)]
pub struct MPQFileHeader {
    /// The size of the header itself.
    pub header_size: u32,
    /// The size of the whole archive, the header included.
    pub archive_size: u32,
    /// 0 for the first format, 1 for the one with the extended fields.
    pub format_version: u16,
    /// A logical sector holds `512 << sector_size_shift` bytes.
    pub sector_size_shift: u16,
    /// Where the hash table starts, relative to the header.
    pub hash_table_offset: u32,
    /// Where the block table starts, relative to the header.
    pub block_table_offset: u32,
    /// The number of entries of the hash table.
    pub hash_table_entries: u32,
    /// The number of entries of the block table.
    pub block_table_entries: u32,
    /// The extended fields, present in format version 1.
    pub extended_file_header: Option<MPQFileHeaderExt>,
    /// Where the header itself was found in the input.
    pub offset: usize,
}

impl MPQFileHeader {
    /// The format version that carries the extended fields.
    pub open spec fn has_extension(format_version: u16) -> bool {
        format_version == 1
    }

    /// The number of bytes that the header's fields take after the magic:
    /// 28, and 12 more for the extended fields.
    pub open spec fn spec_len(b: Seq<u8>) -> int {
        if b.len() >= 28 && Self::has_extension(u16_le_at(b, 8)) {
            40
        } else {
            28
        }
    }

    /// The header that the bytes after the magic hold, found at `offset`.
    pub open spec fn spec_parse(b: Seq<u8>, offset: usize) -> MPQFileHeader {
        MPQFileHeader {
            header_size: u32_le_at(b, 0),
            archive_size: u32_le_at(b, 4),
            format_version: u16_le_at(b, 8),
            sector_size_shift: u16_le_at(b, 10),
            hash_table_offset: u32_le_at(b, 12),
            block_table_offset: u32_le_at(b, 16),
            hash_table_entries: u32_le_at(b, 20),
            block_table_entries: u32_le_at(b, 24),
            extended_file_header: if Self::has_extension(u16_le_at(b, 8)) {
                Some(MPQFileHeaderExt::spec_at(b, 28))
            } else {
                None
            },
            offset,
        }
    }

    /// Reads the header's fields off the front of `input`, which starts right
    /// after the magic. `offset` is where the header was found.
    pub fn parse(input: &[u8], offset: usize) -> (r: MPQResult<&[u8], Self>)
        ensures
            took_field(input@, Self::spec_len(input@), Self::spec_parse(input@, offset), r),
    {
        let (tail, header_size) = Self::parse_header_size(input)?;
        let (tail, archive_size) = Self::parse_archive_size(tail)?;
        let (tail, format_version) = Self::parse_format_version(tail)?;
        let (tail, sector_size_shift) = Self::parse_sector_size_shift(tail)?;
        let (tail, hash_table_offset) = Self::parse_hash_table_offset(tail)?;
        let (tail, block_table_offset) = Self::parse_block_table_offset(tail)?;
        let (tail, hash_table_entries) = Self::parse_hash_table_entries(tail)?;
        let (tail, block_table_entries) = Self::parse_block_table_entries(tail)?;
        assert(tail@ == input@.skip(28));
        let (tail, extended_file_header) = Self::parse_extended_header_if_needed(
            tail,
            format_version,
        )?;
        assert(tail@ == input@.skip(Self::spec_len(input@)));
        Ok(
            (
                tail,
                MPQFileHeader {
                    header_size,
                    archive_size,
                    format_version,
                    sector_size_shift,
                    hash_table_offset,
                    block_table_offset,
                    hash_table_entries,
                    block_table_entries,
                    extended_file_header,
                    offset,
                },
            ),
        )
    }

    /// Offset 0x04: the size of the archive header.
    pub fn parse_header_size(input: &[u8]) -> (r: MPQResult<&[u8], u32>)
        ensures
            took_field(input@, 4, u32_le_at(input@, 0), r),
    {
        read_u32_le(input)
    }

    /// Offset 0x08: the size of the whole archive, the header included.
    /// From format version 1 on the field is no longer relied upon.
    pub fn parse_archive_size(input: &[u8]) -> (r: MPQResult<&[u8], u32>)
        ensures
            took_field(input@, 4, u32_le_at(input@, 0), r),
    {
        read_u32_le(input)
    }

    /// Offset 0x0c: the format version.
    pub fn parse_format_version(input: &[u8]) -> (r: MPQResult<&[u8], u16>)
        ensures
            took_field(input@, 2, u16_le_at(input@, 0), r),
    {
        read_u16_le(input)
    }

    /// Offset 0x0e: the power of two by which 512 is multiplied to give the
    /// size of a logical sector.
    pub fn parse_sector_size_shift(input: &[u8]) -> (r: MPQResult<&[u8], u16>)
        ensures
            took_field(input@, 2, u16_le_at(input@, 0), r),
    {
        read_u16_le(input)
    }

    /// Offset 0x10: where the hash table starts, relative to the header.
    pub fn parse_hash_table_offset(input: &[u8]) -> (r: MPQResult<&[u8], u32>)
        ensures
            took_field(input@, 4, u32_le_at(input@, 0), r),
    {
        read_u32_le(input)
    }

    /// Offset 0x14: where the block table starts, relative to the header.
    pub fn parse_block_table_offset(input: &[u8]) -> (r: MPQResult<&[u8], u32>)
        ensures
            took_field(input@, 4, u32_le_at(input@, 0), r),
    {
        read_u32_le(input)
    }

    /// Offset 0x18: the number of entries of the hash table.
    pub fn parse_hash_table_entries(input: &[u8]) -> (r: MPQResult<&[u8], u32>)
        ensures
            took_field(input@, 4, u32_le_at(input@, 0), r),
    {
        read_u32_le(input)
    }

    /// Offset 0x1c: the number of entries of the block table.
    pub fn parse_block_table_entries(input: &[u8]) -> (r: MPQResult<&[u8], u32>)
        ensures
            took_field(input@, 4, u32_le_at(input@, 0), r),
    {
        read_u32_le(input)
    }

    /// Offset 0x20: the extended fields, read only where `format_version`
    /// calls for them; otherwise nothing is taken from `input`.
    pub fn parse_extended_header_if_needed(input: &[u8], format_version: u16) -> (r: MPQResult<
        &[u8],
        Option<MPQFileHeaderExt>,
    >)
        ensures
            Self::has_extension(format_version) ==> took_field(
                input@,
                12,
                Some(MPQFileHeaderExt::spec_at(input@, 0)),
                r,
            ),
            !Self::has_extension(format_version) ==> took_field(
                input@,
                0,
                None::<MPQFileHeaderExt>,
                r,
            ),
    {
        if format_version != 1u16 {
            assert(input@.skip(0) == input@);
            return Ok((input, None));
        }
        let (tail, extended_file_header) = MPQFileHeaderExt::parse(input)?;
        Ok((tail, Some(extended_file_header)))
    }
}

/// A header has its extended fields in format version 1, and in no other.
pub proof fn lemma_extension_by_version(b: Seq<u8>, offset: usize)
    ensures
        MPQFileHeader::spec_parse(b, offset).extended_file_header is Some
            <==> MPQFileHeader::spec_parse(b, offset).format_version == 1,
        MPQFileHeader::spec_parse(b, offset).offset == offset,
{
}

} // verus!
