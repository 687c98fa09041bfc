//! The user data section, read field by field.
//!
//! The parser takes one part of the section at a time and remembers what it
//! has read; the section is built from it once every part is there. It
//! reads the same layout as [`MPQUserData::parse`], which reads a section in
//! one go.
use vstd::prelude::*;
use crate::bytes::{read_u32_le, took_field, u32_le_at};
use crate::error::{ErrorModel, MPQParserError, MPQResult};
use crate::parser::mpq_user_data::{MPQUserData, MPQUserDataView};

verus! {

/// The user data section, as far as it has been read.
#[derive(Debug, PartialEq, Eq, Default)]
pub struct MPQUserDataParser {
    /// The room set aside in the archive for user data.
    pub user_data_size: Option<u32>,
    /// Where the archive header starts, counted from the start of the input.
    pub archive_header_offset: Option<u32>,
    /// The number of bytes of the user data.
    pub user_data_header_size: Option<u32>,
    /// The user data itself; empty until it is read.
    pub user_data: Vec<u8>,
}

impl MPQUserDataParser {
    /// What reading the user data makes of the bytes `b`, which start at the
    /// size of the content, where the archive header starts at
    /// `archive_header_offset`: the number of bytes taken, padding included,
    /// the size of the content, and the content.
    pub open spec fn spec_user_data(b: Seq<u8>, archive_header_offset: u32) -> Result<
        (int, u32, Seq<u8>),
        ErrorModel,
    > {
        let user_data_header_size = u32_le_at(b, 0);
        if b.len() < 4 + user_data_header_size {
            Err(ErrorModel::IncompleteData)
        } else if archive_header_offset < MPQUserData::spec_read_so_far(user_data_header_size) {
            Err(ErrorModel::MissingArchiveHeader)
        } else if b.len() < archive_header_offset - 12 {
            Err(ErrorModel::IncompleteData)
        } else {
            Ok(
                (
                    archive_header_offset - 12,
                    user_data_header_size,
                    b.subrange(4, 4 + user_data_header_size),
                ),
            )
        }
    }

    /// The section that the parser stands for once every part has been
    /// read.
    pub open spec fn spec_section(self) -> MPQUserDataView {
        MPQUserDataView {
            user_data_size: self.user_data_size->0,
            archive_header_offset: self.archive_header_offset->0,
            user_data_header_size: self.user_data_header_size->0,
            content: self.user_data@,
        }
    }

    /// Whether every part of the section has been read.
    pub open spec fn spec_complete(self) -> bool {
        self.user_data_size is Some && self.archive_header_offset is Some
            && self.user_data_header_size is Some
    }

    /// A parser that has read nothing yet.
    pub fn new() -> (r: Self)
        ensures
            r.user_data_size is None,
            r.archive_header_offset is None,
            r.user_data_header_size is None,
            r.user_data@.len() == 0,
    {
        MPQUserDataParser {
            user_data_size: None,
            archive_header_offset: None,
            user_data_header_size: None,
            user_data: Vec::new(),
        }
    }

    /// Reads the whole section off the front of `input`, which starts right
    /// after the magic: what is left starts at the archive header.
    pub fn parse(self, input: &[u8]) -> (r: MPQResult<&[u8], Self>)
        ensures
            match r {
                Ok((tail, parser)) => parser.spec_complete() && MPQUserData::spec_parse(input@)
                    == Ok::<(int, MPQUserDataView), ErrorModel>(
                    (input@.len() - tail@.len(), parser.spec_section()),
                ) && tail@ == input@.skip(input@.len() - tail@.len()),
                Err(e) => MPQUserData::spec_parse(input@) == Err::<
                    (int, MPQUserDataView),
                    ErrorModel,
                >(e@),
            },
    {
        let (tail, res) = self.parse_user_data_size(input)?;
        let (tail, res) = res.parse_archive_header_offset(tail)?;
        assert(tail@ == input@.skip(8));
        let (tail, res) = res.parse_user_data(tail)?;
        assert(res.user_data@ == input@.subrange(12, 12 + res.user_data_header_size->0));
        Ok((tail, res))
    }

    /// Offset 0x04: the room set aside in the archive for user data.
    pub fn parse_user_data_size(self, input: &[u8]) -> (r: MPQResult<&[u8], Self>)
        ensures
            took_field(
                input@,
                4,
                MPQUserDataParser { user_data_size: Some(u32_le_at(input@, 0)), ..self },
                r,
            ),
    {
        let (tail, user_data_size) = read_u32_le(input)?;
        Ok(
            (
                tail,
                MPQUserDataParser {
                    user_data_size: Some(user_data_size),
                    archive_header_offset: self.archive_header_offset,
                    user_data_header_size: self.user_data_header_size,
                    user_data: self.user_data,
                },
            ),
        )
    }

    /// Offset 0x08: where in the input the archive header starts.
    pub fn parse_archive_header_offset(self, input: &[u8]) -> (r: MPQResult<&[u8], Self>)
        ensures
            took_field(
                input@,
                4,
                MPQUserDataParser { archive_header_offset: Some(u32_le_at(input@, 0)), ..self },
                r,
            ),
    {
        let (tail, archive_header_offset) = read_u32_le(input)?;
        Ok(
            (
                tail,
                MPQUserDataParser {
                    user_data_size: self.user_data_size,
                    archive_header_offset: Some(archive_header_offset),
                    user_data_header_size: self.user_data_header_size,
                    user_data: self.user_data,
                },
            ),
        )
    }

    /// Offset 0x0c: the user data. Reads its size and the data, and skips
    /// the padding that fills the section up to the archive header.
    ///
    /// The offset of the archive header has to be read before: without it
    /// the user data cannot be told from the padding, and reading fails with
    /// `BuilderMissingField`.
    pub fn parse_user_data(self, input: &[u8]) -> (r: MPQResult<&[u8], Self>)
        ensures
            match self.archive_header_offset {
                None => match r {
                    Ok(_) => false,
                    Err(e) => e@ == ErrorModel::BuilderMissingField(
                        "MPQUserData.archive_header_offset"@,
                    ),
                },
                Some(archive_header_offset) => match r {
                    Ok((tail, parser)) => {
                        &&& Self::spec_user_data(input@, archive_header_offset) == Ok::<
                            (int, u32, Seq<u8>),
                            ErrorModel,
                        >(
                            (
                                input@.len() - tail@.len(),
                                parser.user_data_header_size->0,
                                parser.user_data@,
                            ),
                        )
                        &&& tail@ == input@.skip(input@.len() - tail@.len())
                        &&& parser.user_data_header_size is Some
                        &&& parser.user_data_size == self.user_data_size
                        &&& parser.archive_header_offset == self.archive_header_offset
                    },
                    Err(e) => Self::spec_user_data(input@, archive_header_offset) == Err::<
                        (int, u32, Seq<u8>),
                        ErrorModel,
                    >(e@),
                },
            },
    {
        let archive_header_offset: u32 = match self.archive_header_offset {
            Some(value) => value,
            None => {
                return Err(
                    MPQParserError::BuilderMissingField(
                        "MPQUserData.archive_header_offset".to_owned(),
                    ),
                );
            },
        };
        let (tail, user_data_header_size) = MPQUserData::parse_user_data_header_size(input)?;
        let (tail, user_data) = MPQUserData::parse_content(tail, user_data_header_size)?;
        assert(user_data@ == input@.subrange(4, 4 + user_data_header_size));
        assert(tail@ == input@.skip(4 + user_data_header_size));
        let (tail, _) = MPQUserData::consume_until_header_offset(
            tail,
            user_data_header_size,
            archive_header_offset,
        )?;
        assert(tail@ == input@.skip(archive_header_offset - 12));
        Ok(
            (
                tail,
                MPQUserDataParser {
                    user_data_size: self.user_data_size,
                    archive_header_offset: self.archive_header_offset,
                    user_data_header_size: Some(user_data_header_size),
                    user_data,
                },
            ),
        )
    }

    /// The section, once every part of it has been read. Otherwise the
    /// error names the first part that is missing.
    pub fn build(self) -> (r: Result<MPQUserData, MPQParserError>)
        ensures
            match r {
                Ok(user_data) => self.spec_complete() && user_data@ == self.spec_section(),
                Err(e) => if self.user_data_size is None {
                    e@ == ErrorModel::BuilderMissingField("MPQUserData.user_data_size"@)
                } else if self.archive_header_offset is None {
                    e@ == ErrorModel::BuilderMissingField("MPQUserData.archive_header_offset"@)
                } else {
                    self.user_data_header_size is None && e@ == ErrorModel::BuilderMissingField(
                        "MPQUserData.user_data_header_size"@,
                    )
                },
            },
    {
        let user_data_size: u32 = match self.user_data_size {
            Some(value) => value,
            None => {
                return Err(
                    MPQParserError::BuilderMissingField("MPQUserData.user_data_size".to_owned()),
                );
            },
        };
        let archive_header_offset: u32 = match self.archive_header_offset {
            Some(value) => value,
            None => {
                return Err(
                    MPQParserError::BuilderMissingField(
                        "MPQUserData.archive_header_offset".to_owned(),
                    ),
                );
            },
        };
        let user_data_header_size: u32 = match self.user_data_header_size {
            Some(value) => value,
            None => {
                return Err(
                    MPQParserError::BuilderMissingField(
                        "MPQUserData.user_data_header_size".to_owned(),
                    ),
                );
            },
        };
        Ok(
            MPQUserData {
                user_data_size,
                archive_header_offset,
                user_data_header_size,
                content: self.user_data,
            },
        )
    }
}

} // verus!
