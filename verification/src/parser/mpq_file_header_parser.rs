//! The archive header, read field by field.
//!
//! The parsers here take one field at a time and remember what they have
//! read; a header is built from them once every field is there. They read
//! the same layout as [`MPQFileHeader::parse`], which reads a header in one
//! go.
use vstd::prelude::*;
use crate::bytes::{
    i16_le_at, i64_le_at, read_i16_le, read_i64_le, read_u16_le, read_u32_le, took_field,
    u16_le_at, u32_le_at,
};
use crate::error::MPQResult;
use crate::parser::mpq_file_header::MPQFileHeader;
use crate::parser::mpq_file_header_ext::MPQFileHeaderExt;

verus! {

/// The extended fields of an archive header, as far as they have been read.
#[derive(Debug, PartialEq, Eq, Default, Clone, Copy)]
pub struct MPQFileHeaderExtParser {
    pub extended_block_table_offset: Option<i64>,
    pub hash_table_offset_high: Option<i16>,
    pub block_table_offset_high: Option<i16>,
}

impl MPQFileHeaderExtParser {
    /// The parser that has read all three fields from the 12 bytes that
    /// start at `at` in `b`.
    pub open spec fn spec_read(b: Seq<u8>, at: int) -> MPQFileHeaderExtParser {
        MPQFileHeaderExtParser {
            extended_block_table_offset: Some(i64_le_at(b, at)),
            hash_table_offset_high: Some(i16_le_at(b, at + 8)),
            block_table_offset_high: Some(i16_le_at(b, at + 10)),
        }
    }

    /// What `build` makes of the parser: the extended fields, or the
    /// message that names the first field that has not been read.
    pub open spec fn spec_build(self) -> Result<MPQFileHeaderExt, Seq<char>> {
        if self.extended_block_table_offset is None {
            Err("Missing extended_block_table_offset"@)
        } else if self.hash_table_offset_high is None {
            Err("Missing hash_table_offset_high"@)
        } else if self.block_table_offset_high is None {
            Err("Missing block_table_offset_high"@)
        } else {
            Ok(
                MPQFileHeaderExt {
                    extended_block_table_offset: self.extended_block_table_offset->0,
                    hash_table_offset_high: self.hash_table_offset_high->0,
                    block_table_offset_high: self.block_table_offset_high->0,
                },
            )
        }
    }

    /// A parser that has read nothing yet.
    pub fn new() -> (r: Self)
        ensures
            r == (MPQFileHeaderExtParser {
                extended_block_table_offset: None,
                hash_table_offset_high: None,
                block_table_offset_high: None,
            }),
    {
        MPQFileHeaderExtParser {
            extended_block_table_offset: None,
            hash_table_offset_high: None,
            block_table_offset_high: None,
        }
    }

    /// Reads the three fields, in the order of the archive, off the front of
    /// `input`.
    pub fn parse(self, input: &[u8]) -> (r: MPQResult<&[u8], Self>)
        ensures
            took_field(input@, 12, Self::spec_read(input@, 0), r),
    {
        let (tail, res) = self.parse_extended_block_table_offset(input)?;
        let (tail, res) = res.parse_hash_table_offset_high(tail)?;
        let (tail, res) = res.parse_block_table_offset_high(tail)?;
        assert(tail@ == input@.skip(12));
        Ok((tail, res))
    }

    /// Offset 0x20 of the header: where the extended block table starts.
    pub fn parse_extended_block_table_offset(self, input: &[u8]) -> (r: MPQResult<&[u8], Self>)
        ensures
            took_field(
                input@,
                8,
                MPQFileHeaderExtParser {
                    extended_block_table_offset: Some(i64_le_at(input@, 0)),
                    ..self
                },
                r,
            ),
    {
        let (tail, extended_block_table_offset) = read_i64_le(input)?;
        Ok(
            (
                tail,
                MPQFileHeaderExtParser {
                    extended_block_table_offset: Some(extended_block_table_offset),
                    hash_table_offset_high: self.hash_table_offset_high,
                    block_table_offset_high: self.block_table_offset_high,
                },
            ),
        )
    }

    /// Offset 0x28 of the header: the high bits of the hash table's offset.
    pub fn parse_hash_table_offset_high(self, input: &[u8]) -> (r: MPQResult<&[u8], Self>)
        ensures
            took_field(
                input@,
                2,
                MPQFileHeaderExtParser {
                    hash_table_offset_high: Some(i16_le_at(input@, 0)),
                    ..self
                },
                r,
            ),
    {
        let (tail, hash_table_offset_high) = read_i16_le(input)?;
        Ok(
            (
                tail,
                MPQFileHeaderExtParser {
                    extended_block_table_offset: self.extended_block_table_offset,
                    hash_table_offset_high: Some(hash_table_offset_high),
                    block_table_offset_high: self.block_table_offset_high,
                },
            ),
        )
    }

    /// Offset 0x2a of the header: the high bits of the block table's offset.
    pub fn parse_block_table_offset_high(self, input: &[u8]) -> (r: MPQResult<&[u8], Self>)
        ensures
            took_field(
                input@,
                2,
                MPQFileHeaderExtParser {
                    block_table_offset_high: Some(i16_le_at(input@, 0)),
                    ..self
                },
                r,
            ),
    {
        let (tail, block_table_offset_high) = read_i16_le(input)?;
        Ok(
            (
                tail,
                MPQFileHeaderExtParser {
                    extended_block_table_offset: self.extended_block_table_offset,
                    hash_table_offset_high: self.hash_table_offset_high,
                    block_table_offset_high: Some(block_table_offset_high),
                },
            ),
        )
    }

    /// The extended fields, once all three have been read. Otherwise the
    /// message names the first that is missing.
    pub fn build(self) -> (r: Result<MPQFileHeaderExt, String>)
        ensures
            match r {
                Ok(extension) => self.spec_build() == Ok::<MPQFileHeaderExt, Seq<char>>(extension),
                Err(message) => self.spec_build() == Err::<MPQFileHeaderExt, Seq<char>>(message@),
            },
    {
        let extended_block_table_offset: i64 = match self.extended_block_table_offset {
            Some(value) => value,
            None => {
                return Err("Missing extended_block_table_offset".to_owned());
            },
        };
        let hash_table_offset_high: i16 = match self.hash_table_offset_high {
            Some(value) => value,
            None => {
                return Err("Missing hash_table_offset_high".to_owned());
            },
        };
        let block_table_offset_high: i16 = match self.block_table_offset_high {
            Some(value) => value,
            None => {
                return Err("Missing block_table_offset_high".to_owned());
            },
        };
        Ok(
            MPQFileHeaderExt {
                extended_block_table_offset,
                hash_table_offset_high,
                block_table_offset_high,
            },
        )
    }
}

/// The archive header, as far as it has been read.
#[derive(Debug, PartialEq, Eq, Default, Clone, Copy)]
pub struct MPQFileHeaderParser {
    pub header_size: Option<u32>,
    pub archive_size: Option<u32>,
    pub format_version: Option<u16>,
    pub sector_size_shift: Option<u16>,
    pub hash_table_offset: Option<u32>,
    pub block_table_offset: Option<u32>,
    pub hash_table_entries: Option<u32>,
    pub block_table_entries: Option<u32>,
    pub extended_file_header: Option<MPQFileHeaderExtParser>,
}

impl MPQFileHeaderParser {
    /// The parser after it has read every field from the bytes `b` that
    /// follow the magic. Where the format version calls for no extended
    /// fields, it keeps those that it had.
    pub open spec fn spec_read(self, b: Seq<u8>) -> MPQFileHeaderParser {
        MPQFileHeaderParser {
            header_size: Some(u32_le_at(b, 0)),
            archive_size: Some(u32_le_at(b, 4)),
            format_version: Some(u16_le_at(b, 8)),
            sector_size_shift: Some(u16_le_at(b, 10)),
            hash_table_offset: Some(u32_le_at(b, 12)),
            block_table_offset: Some(u32_le_at(b, 16)),
            hash_table_entries: Some(u32_le_at(b, 20)),
            block_table_entries: Some(u32_le_at(b, 24)),
            extended_file_header: if MPQFileHeader::has_extension(u16_le_at(b, 8)) {
                Some(MPQFileHeaderExtParser::spec_read(b, 28))
            } else {
                self.extended_file_header
            },
        }
    }

    /// The extended fields that `build` gives the header: none where none
    /// were read.
    pub open spec fn spec_build_extension(self) -> Result<Option<MPQFileHeaderExt>, Seq<char>> {
        match self.extended_file_header {
            None => Ok(None),
            Some(parser) => match parser.spec_build() {
                Ok(extension) => Ok(Some(extension)),
                Err(message) => Err(message),
            },
        }
    }

    /// What `build` makes of the parser: the header, or the message that
    /// names the first field that has not been read.
    pub open spec fn spec_build(self) -> Result<MPQFileHeader, Seq<char>> {
        if self.header_size is None {
            Err("Missing header_size"@)
        } else if self.archive_size is None {
            Err("Missing archive_size"@)
        } else if self.format_version is None {
            Err("Missing format_version"@)
        } else if self.sector_size_shift is None {
            Err("Missing sector_size_shift"@)
        } else if self.hash_table_offset is None {
            Err("Missing hash_table_offset"@)
        } else if self.block_table_offset is None {
            Err("Missing block_table_offset"@)
        } else if self.hash_table_entries is None {
            Err("Missing hash_table_entries"@)
        } else if self.block_table_entries is None {
            Err("Missing block_table_entries"@)
        } else {
            match self.spec_build_extension() {
                Err(message) => Err(message),
                Ok(extended_file_header) => Ok(
                    MPQFileHeader {
                        header_size: self.header_size->0,
                        archive_size: self.archive_size->0,
                        format_version: self.format_version->0,
                        sector_size_shift: self.sector_size_shift->0,
                        hash_table_offset: self.hash_table_offset->0,
                        block_table_offset: self.block_table_offset->0,
                        hash_table_entries: self.hash_table_entries->0,
                        block_table_entries: self.block_table_entries->0,
                        extended_file_header,
                        offset: 0,
                    },
                ),
            }
        }
    }

    /// The parser that has read nothing yet.
    pub open spec fn new_spec() -> MPQFileHeaderParser {
        MPQFileHeaderParser {
            header_size: None,
            archive_size: None,
            format_version: None,
            sector_size_shift: None,
            hash_table_offset: None,
            block_table_offset: None,
            hash_table_entries: None,
            block_table_entries: None,
            extended_file_header: None,
        }
    }

    /// A parser that has read nothing yet.
    pub fn new() -> (r: Self)
        ensures
            r == Self::new_spec(),
    {
        MPQFileHeaderParser {
            header_size: None,
            archive_size: None,
            format_version: None,
            sector_size_shift: None,
            hash_table_offset: None,
            block_table_offset: None,
            hash_table_entries: None,
            block_table_entries: None,
            extended_file_header: None,
        }
    }

    /// Reads every field of the header, in the order of the archive, off
    /// the front of `input`, which starts right after the magic.
    pub fn parse(self, input: &[u8]) -> (r: MPQResult<&[u8], Self>)
        ensures
            took_field(input@, MPQFileHeader::spec_len(input@), self.spec_read(input@), r),
    {
        let (tail, res) = self.parse_header_size(input)?;
        let (tail, res) = res.parse_archive_size(tail)?;
        let (tail, res) = res.parse_format_version(tail)?;
        let (tail, res) = res.parse_sector_size_shift(tail)?;
        let (tail, res) = res.parse_hash_table_offset(tail)?;
        let (tail, res) = res.parse_block_table_offset(tail)?;
        let (tail, res) = res.parse_hash_table_entries(tail)?;
        let (tail, res) = res.parse_block_table_entries(tail)?;
        assert(tail@ == input@.skip(28));
        let (tail, res) = res.parse_extended_header_if_needed(tail)?;
        assert(tail@ == input@.skip(MPQFileHeader::spec_len(input@)));
        Ok((tail, res))
    }

    /// Offset 0x04: the size of the archive header.
    pub fn parse_header_size(self, input: &[u8]) -> (r: MPQResult<&[u8], Self>)
        ensures
            took_field(
                input@,
                4,
                MPQFileHeaderParser { header_size: Some(u32_le_at(input@, 0)), ..self },
                r,
            ),
    {
        let (tail, header_size) = read_u32_le(input)?;
        Ok((tail, MPQFileHeaderParser { header_size: Some(header_size), ..self }))
    }

    /// Offset 0x08: the size of the whole archive, the header included.
    pub fn parse_archive_size(self, input: &[u8]) -> (r: MPQResult<&[u8], Self>)
        ensures
            took_field(
                input@,
                4,
                MPQFileHeaderParser { archive_size: Some(u32_le_at(input@, 0)), ..self },
                r,
            ),
    {
        let (tail, archive_size) = read_u32_le(input)?;
        Ok((tail, MPQFileHeaderParser { archive_size: Some(archive_size), ..self }))
    }

    /// Offset 0x0c: the format version.
    pub fn parse_format_version(self, input: &[u8]) -> (r: MPQResult<&[u8], Self>)
        ensures
            took_field(
                input@,
                2,
                MPQFileHeaderParser { format_version: Some(u16_le_at(input@, 0)), ..self },
                r,
            ),
    {
        let (tail, format_version) = read_u16_le(input)?;
        Ok((tail, MPQFileHeaderParser { format_version: Some(format_version), ..self }))
    }

    /// Offset 0x0e: the power of two by which 512 is multiplied to give the
    /// size of a logical sector.
    pub fn parse_sector_size_shift(self, input: &[u8]) -> (r: MPQResult<&[u8], Self>)
        ensures
            took_field(
                input@,
                2,
                MPQFileHeaderParser { sector_size_shift: Some(u16_le_at(input@, 0)), ..self },
                r,
            ),
    {
        let (tail, sector_size_shift) = read_u16_le(input)?;
        Ok((tail, MPQFileHeaderParser { sector_size_shift: Some(sector_size_shift), ..self }))
    }

    /// Offset 0x10: where the hash table starts, relative to the header.
    pub fn parse_hash_table_offset(self, input: &[u8]) -> (r: MPQResult<&[u8], Self>)
        ensures
            took_field(
                input@,
                4,
                MPQFileHeaderParser { hash_table_offset: Some(u32_le_at(input@, 0)), ..self },
                r,
            ),
    {
        let (tail, hash_table_offset) = read_u32_le(input)?;
        Ok((tail, MPQFileHeaderParser { hash_table_offset: Some(hash_table_offset), ..self }))
    }

    /// Offset 0x14: where the block table starts, relative to the header.
    pub fn parse_block_table_offset(self, input: &[u8]) -> (r: MPQResult<&[u8], Self>)
        ensures
            took_field(
                input@,
                4,
                MPQFileHeaderParser { block_table_offset: Some(u32_le_at(input@, 0)), ..self },
                r,
            ),
    {
        let (tail, block_table_offset) = read_u32_le(input)?;
        Ok((tail, MPQFileHeaderParser { block_table_offset: Some(block_table_offset), ..self }))
    }

    /// Offset 0x18: the number of entries of the hash table.
    pub fn parse_hash_table_entries(self, input: &[u8]) -> (r: MPQResult<&[u8], Self>)
        ensures
            took_field(
                input@,
                4,
                MPQFileHeaderParser { hash_table_entries: Some(u32_le_at(input@, 0)), ..self },
                r,
            ),
    {
        let (tail, hash_table_entries) = read_u32_le(input)?;
        Ok((tail, MPQFileHeaderParser { hash_table_entries: Some(hash_table_entries), ..self }))
    }

    /// Offset 0x1c: the number of entries of the block table.
    pub fn parse_block_table_entries(self, input: &[u8]) -> (r: MPQResult<&[u8], Self>)
        ensures
            took_field(
                input@,
                4,
                MPQFileHeaderParser { block_table_entries: Some(u32_le_at(input@, 0)), ..self },
                r,
            ),
    {
        let (tail, block_table_entries) = read_u32_le(input)?;
        Ok((tail, MPQFileHeaderParser { block_table_entries: Some(block_table_entries), ..self }))
    }

    /// Offset 0x20: the extended fields, read only where the format version
    /// that was read calls for them; otherwise nothing is taken from
    /// `input` and the parser stays as it is.
    pub fn parse_extended_header_if_needed(self, input: &[u8]) -> (r: MPQResult<&[u8], Self>)
        ensures
            self.format_version == Some(1u16) ==> took_field(
                input@,
                12,
                MPQFileHeaderParser {
                    extended_file_header: Some(MPQFileHeaderExtParser::spec_read(input@, 0)),
                    ..self
                },
                r,
            ),
            self.format_version != Some(1u16) ==> took_field(input@, 0, self, r),
    {
        let needed: bool = match self.format_version {
            Some(version) => version == 1,
            None => false,
        };
        if !needed {
            assert(input@.skip(0) == input@);
            return Ok((input, self));
        }
        let (tail, extended_file_header) = MPQFileHeaderExtParser::new().parse(input)?;
        Ok(
            (
                tail,
                MPQFileHeaderParser { extended_file_header: Some(extended_file_header), ..self },
            ),
        )
    }

    /// The header, once every field has been read; it is taken to stand at
    /// the start of the input. Otherwise the message names the first field
    /// that is missing.
    pub fn build(self) -> (r: Result<MPQFileHeader, String>)
        ensures
            match r {
                Ok(header) => self.spec_build() == Ok::<MPQFileHeader, Seq<char>>(header),
                Err(message) => self.spec_build() == Err::<MPQFileHeader, Seq<char>>(message@),
            },
    {
        let header_size: u32 = match self.header_size {
            Some(value) => value,
            None => {
                return Err("Missing header_size".to_owned());
            },
        };
        let archive_size: u32 = match self.archive_size {
            Some(value) => value,
            None => {
                return Err("Missing archive_size".to_owned());
            },
        };
        let format_version: u16 = match self.format_version {
            Some(value) => value,
            None => {
                return Err("Missing format_version".to_owned());
            },
        };
        let sector_size_shift: u16 = match self.sector_size_shift {
            Some(value) => value,
            None => {
                return Err("Missing sector_size_shift".to_owned());
            },
        };
        let hash_table_offset: u32 = match self.hash_table_offset {
            Some(value) => value,
            None => {
                return Err("Missing hash_table_offset".to_owned());
            },
        };
        let block_table_offset: u32 = match self.block_table_offset {
            Some(value) => value,
            None => {
                return Err("Missing block_table_offset".to_owned());
            },
        };
        let hash_table_entries: u32 = match self.hash_table_entries {
            Some(value) => value,
            None => {
                return Err("Missing hash_table_entries".to_owned());
            },
        };
        let block_table_entries: u32 = match self.block_table_entries {
            Some(value) => value,
            None => {
                return Err("Missing block_table_entries".to_owned());
            },
        };
        let extended_file_header: Option<MPQFileHeaderExt> = match self.extended_file_header {
            Some(parser) => Some(parser.build()?),
            None => None,
        };
        Ok(
            MPQFileHeader {
                header_size,
                archive_size,
                format_version,
                sector_size_shift,
                hash_table_offset,
                block_table_offset,
                hash_table_entries,
                block_table_entries,
                extended_file_header,
                offset: 0,
            },
        )
    }
}

/// A header that is read field by field, by a parser that started with
/// nothing, and then built is the header that is read in one go at the
/// start of the input.
pub proof fn lemma_field_by_field_is_in_one_go(parser: MPQFileHeaderParser, b: Seq<u8>)
    requires
        parser.extended_file_header is None,
    ensures
        parser.spec_read(b).spec_build() == Ok::<MPQFileHeader, Seq<char>>(
            MPQFileHeader::spec_parse(b, 0),
        ),
{
}

} // verus!
