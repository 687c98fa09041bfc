//! The sections at the front of an archive, read one at a time into the
//! builder or parser of their kind.
use vstd::prelude::*;
use vstd::slice::{slice_subrange, slice_to_vec};
use crate::error::{ErrorModel, MPQParserError, MPQResult};
use crate::parser::mpq_file_header::MPQFileHeader;
use crate::parser::mpq_file_header_parser::MPQFileHeaderParser;
use crate::parser::mpq_user_data::{MPQUserData, MPQUserDataView};
use crate::parser::mpq_user_data_parser::MPQUserDataParser;
use crate::parser::{spec_header_type, MPQ_ARCHIVE_HEADER_TYPE, MPQ_USER_DATA_HEADER_TYPE};

verus! {

/// A user data section in the making.
#[derive(Debug, PartialEq, Eq)]
pub struct MPQUserDataBuilder {
    /// The room set aside in the archive for user data.
    pub size: Option<u32>,
    /// Where the archive header starts, counted from the start of the input.
    pub archive_header_offset: Option<u32>,
    /// The user data itself.
    pub user_data: Vec<u8>,
}

impl MPQUserDataBuilder {
    /// What `build` makes of the builder: the section, or the message that
    /// says what is missing. The section says of its content the size that
    /// the user data has, which has to fit in 32 bits.
    pub open spec fn spec_build(self) -> Result<MPQUserDataView, Seq<char>> {
        if self.size is None {
            Err("Missing size"@)
        } else if self.archive_header_offset is None {
            Err("Missing archive_header_offset"@)
        } else if self.user_data@.len() > u32::MAX {
            Err("User data too long"@)
        } else {
            Ok(
                MPQUserDataView {
                    user_data_size: self.size->0,
                    archive_header_offset: self.archive_header_offset->0,
                    user_data_header_size: self.user_data@.len() as u32,
                    content: self.user_data@,
                },
            )
        }
    }

    /// A builder with nothing set.
    pub fn new() -> (r: Self)
        ensures
            r.size is None,
            r.archive_header_offset is None,
            r.user_data@.len() == 0,
    {
        Self { size: None, archive_header_offset: None, user_data: Vec::new() }
    }

    /// Sets the room set aside in the archive for user data.
    pub fn with_size(self, size: u32) -> (r: Self)
        ensures
            r.size == Some(size),
            r.archive_header_offset == self.archive_header_offset,
            r.user_data == self.user_data,
    {
        Self {
            size: Some(size),
            archive_header_offset: self.archive_header_offset,
            user_data: self.user_data,
        }
    }

    /// Sets the offset of the archive header.
    pub fn with_archive_header_offset(self, archive_header_offset: u32) -> (r: Self)
        ensures
            r.size == self.size,
            r.archive_header_offset == Some(archive_header_offset),
            r.user_data == self.user_data,
    {
        Self {
            size: self.size,
            archive_header_offset: Some(archive_header_offset),
            user_data: self.user_data,
        }
    }

    /// Sets the user data: a copy of `user_data`.
    pub fn with_user_data(self, user_data: &[u8]) -> (r: Self)
        ensures
            r.size == self.size,
            r.archive_header_offset == self.archive_header_offset,
            r.user_data@ == user_data@,
    {
        Self {
            size: self.size,
            archive_header_offset: self.archive_header_offset,
            user_data: slice_to_vec(user_data),
        }
    }

    /// The section, once its size and the offset of the archive header are
    /// set. Otherwise the message says what is missing.
    pub fn build(self) -> (r: Result<MPQUserData, String>)
        ensures
            match r {
                Ok(user_data) => self.spec_build() == Ok::<MPQUserDataView, Seq<char>>(user_data@),
                Err(message) => self.spec_build() == Err::<MPQUserDataView, Seq<char>>(message@),
            },
    {
        let size: u32 = match self.size {
            Some(size) => size,
            None => {
                return Err("Missing size".to_owned());
            },
        };
        let archive_header_offset: u32 = match self.archive_header_offset {
            Some(archive_header_offset) => archive_header_offset,
            None => {
                return Err("Missing archive_header_offset".to_owned());
            },
        };
        if self.user_data.len() > 0xFFFF_FFFF {
            return Err("User data too long".to_owned());
        }
        let user_data_header_size: u32 = self.user_data.len() as u32;
        Ok(
            MPQUserData {
                user_data_size: size,
                archive_header_offset,
                user_data_header_size,
                content: self.user_data,
            },
        )
    }
}

/// The kinds of section that an archive starts with, each with what reads
/// or builds a section of its kind.
#[derive(Debug, PartialEq, Eq)]
pub enum MPQSectionType {
    /// A user data section.
    UserData(MPQUserDataBuilder),
    /// The archive header.
    Header(MPQFileHeaderParser),
    /// Neither of the two.
    Unknown,
}

impl MPQSectionType {
    /// What `build_user_data` makes of the section.
    pub open spec fn spec_build_user_data(self) -> Result<MPQUserDataView, Seq<char>> {
        match self {
            MPQSectionType::UserData(user_data) => user_data.spec_build(),
            _ => Err("Wrong section type"@),
        }
    }

    /// What `build_archive_header` makes of the section.
    pub open spec fn spec_build_archive_header(self) -> Result<MPQFileHeader, Seq<char>> {
        match self {
            MPQSectionType::Header(archive_header) => archive_header.spec_build(),
            _ => Err("Wrong section type"@),
        }
    }

    /// Whether the section is of the kind that the tag `tag` announces,
    /// with nothing read or set yet.
    pub open spec fn spec_fresh(self, tag: u8) -> bool {
        match self {
            MPQSectionType::Header(parser) => tag == MPQ_ARCHIVE_HEADER_TYPE && parser
                == MPQFileHeaderParser::new_spec(),
            MPQSectionType::UserData(builder) => tag == MPQ_USER_DATA_HEADER_TYPE
                && builder.size is None && builder.archive_header_offset is None
                && builder.user_data@.len() == 0,
            MPQSectionType::Unknown => tag != MPQ_ARCHIVE_HEADER_TYPE && tag
                != MPQ_USER_DATA_HEADER_TYPE,
        }
    }

    /// The user data section, where this is one and it is complete.
    pub fn build_user_data(self) -> (r: Result<MPQUserData, String>)
        ensures
            match r {
                Ok(user_data) => self.spec_build_user_data() == Ok::<MPQUserDataView, Seq<char>>(
                    user_data@,
                ),
                Err(message) => self.spec_build_user_data() == Err::<MPQUserDataView, Seq<char>>(
                    message@,
                ),
            },
    {
        match self {
            MPQSectionType::UserData(user_data) => user_data.build(),
            _ => Err("Wrong section type".to_owned()),
        }
    }

    /// The archive header, where this is one and it is complete.
    pub fn build_archive_header(self) -> (r: Result<MPQFileHeader, String>)
        ensures
            match r {
                Ok(header) => self.spec_build_archive_header() == Ok::<MPQFileHeader, Seq<char>>(
                    header,
                ),
                Err(message) => self.spec_build_archive_header() == Err::<
                    MPQFileHeader,
                    Seq<char>,
                >(message@),
            },
    {
        match self {
            MPQSectionType::Header(archive_header) => archive_header.build(),
            _ => Err("Wrong section type".to_owned()),
        }
    }
}

/// Reads the magic off the front of `input` and gives the kind of section
/// that it announces, with a builder or a parser that has nothing yet. An
/// input that does not start with `MPQ` and one more byte fails with
/// `UnexpectedSection`.
pub fn get_mpq_type(input: &[u8]) -> (r: MPQResult<&[u8], MPQSectionType>)
    ensures
        match r {
            Ok((tail, section)) => spec_header_type(input@) is Ok && tail@ == input@.skip(4)
                && section.spec_fresh(input@[3]),
            Err(e) => spec_header_type(input@) is Err && e@ == ErrorModel::UnexpectedSection,
        },
{
    if input.len() < 4 || input[0] != 0x4D || input[1] != 0x50 || input[2] != 0x51 {
        return Err(MPQParserError::UnexpectedSection);
    }
    let tag: u8 = input[3];
    let section: MPQSectionType = if tag == MPQ_ARCHIVE_HEADER_TYPE {
        MPQSectionType::Header(MPQFileHeaderParser::new())
    } else if tag == MPQ_USER_DATA_HEADER_TYPE {
        MPQSectionType::UserData(MPQUserDataBuilder::new())
    } else {
        MPQSectionType::Unknown
    };
    Ok((slice_subrange(input, 4, input.len()), section))
}

/// Reads the fields of an archive header off the front of `input`, which
/// starts right after the magic.
pub fn read_mpq_header(input: &[u8]) -> (r: MPQResult<&[u8], MPQSectionType>)
    ensures
        match r {
            Ok((tail, section)) => input@.len() >= MPQFileHeader::spec_len(input@) && tail@
                == input@.skip(MPQFileHeader::spec_len(input@)) && section
                == MPQSectionType::Header(MPQFileHeaderParser::new_spec().spec_read(input@)),
            Err(e) => input@.len() < MPQFileHeader::spec_len(input@) && e@
                == ErrorModel::IncompleteData,
        },
{
    let (tail, header) = MPQFileHeaderParser::new().parse(input)?;
    Ok((tail, MPQSectionType::Header(header)))
}

/// Reads the section of the kind `mpq_type` off the front of `input`, which
/// starts right after the magic.
///
/// A user data section goes into the builder that `mpq_type` holds: its
/// size, the offset of the archive header, and its content; what is left of
/// the input starts at the archive header. An archive header goes into a
/// parser of its own. A section of neither kind fails with
/// `UnexpectedSection`.
pub fn read_section_data(input: &[u8], mpq_type: MPQSectionType) -> (r: MPQResult<
    &[u8],
    MPQSectionType,
>)
    ensures
        match mpq_type {
            MPQSectionType::Unknown => match r {
                Ok(_) => false,
                Err(e) => e@ == ErrorModel::UnexpectedSection,
            },
            MPQSectionType::Header(_) => match r {
                Ok((tail, section)) => input@.len() >= MPQFileHeader::spec_len(input@) && tail@
                    == input@.skip(MPQFileHeader::spec_len(input@)) && section
                    == MPQSectionType::Header(
                    MPQFileHeaderParser::new_spec().spec_read(input@),
                ),
                Err(e) => input@.len() < MPQFileHeader::spec_len(input@) && e@
                    == ErrorModel::IncompleteData,
            },
            MPQSectionType::UserData(_) => match r {
                Ok((tail, MPQSectionType::UserData(builder))) => {
                    &&& MPQUserData::spec_parse(input@) matches Ok((taken, user_data))
                    &&& tail@ == input@.skip(taken)
                    &&& builder.size == Some(user_data.user_data_size)
                    &&& builder.archive_header_offset == Some(user_data.archive_header_offset)
                    &&& builder.user_data@ == user_data.content
                },
                Ok(_) => false,
                Err(e) => MPQUserData::spec_parse(input@) == Err::<
                    (int, MPQUserDataView),
                    ErrorModel,
                >(e@),
            },
        },
{
    match mpq_type {
        MPQSectionType::UserData(user_data_builder) => {
            let (tail, read) = MPQUserDataParser::new().parse(input)?;
            let user_data_size: u32 = match read.user_data_size {
                Some(value) => value,
                None => vstd::pervasive::unreached(),
            };
            let archive_header_offset: u32 = match read.archive_header_offset {
                Some(value) => value,
                None => vstd::pervasive::unreached(),
            };
            Ok(
                (
                    tail,
                    MPQSectionType::UserData(
                        user_data_builder.with_size(user_data_size).with_archive_header_offset(
                            archive_header_offset,
                        ).with_user_data(read.user_data.as_slice()),
                    ),
                ),
            )
        },
        MPQSectionType::Header(_) => read_mpq_header(input),
        MPQSectionType::Unknown => Err(MPQParserError::UnexpectedSection),
    }
}

} // verus!
