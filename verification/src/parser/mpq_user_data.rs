//! The user data section that may stand before the archive header.
//!
//! Its header has three numbers after the magic: the room set aside for user
//! data, the offset of the archive header in the input, and the size of the
//! content that follows.
use vstd::prelude::*;
use vstd::slice::{slice_subrange, slice_to_vec};
use crate::bytes::{read_u32_le, took_field, u32_le_at};
use crate::error::{ErrorModel, MPQParserError, MPQResult};

verus! {

/// The user data section.
#[derive(Debug, Default)]
pub struct MPQUserData {
    /// The room set aside in the archive for user data; advisory.
    pub user_data_size: u32,
    /// Where the archive header starts, counted from the start of the input.
    pub archive_header_offset: u32,
    /// The number of bytes of `content`.
    pub user_data_header_size: u32,
    /// The user data itself.
    pub content: Vec<u8>,
}

/// The mathematical value of a user data section.
pub struct MPQUserDataView {
    pub user_data_size: u32,
    pub archive_header_offset: u32,
    pub user_data_header_size: u32,
    pub content: Seq<u8>,
}

impl View for MPQUserData {
    type V = MPQUserDataView;

    open spec fn view(&self) -> MPQUserDataView {
        MPQUserDataView {
            user_data_size: self.user_data_size,
            archive_header_offset: self.archive_header_offset,
            user_data_header_size: self.user_data_header_size,
            content: self.content@,
        }
    }
}

impl MPQUserData {
    /// The number of bytes that stand before the padding: the magic, the
    /// three numbers and the content.
    pub open spec fn spec_read_so_far(user_data_header_size: u32) -> int {
        16 + user_data_header_size
    }

    /// What `parse` makes of the bytes `b` that follow the magic: the number
    /// of bytes taken and the section, or the error.
    pub open spec fn spec_parse(b: Seq<u8>) -> Result<(int, MPQUserDataView), ErrorModel> {
        let archive_header_offset = u32_le_at(b, 4);
        let user_data_header_size = u32_le_at(b, 8);
        if b.len() < 12 + user_data_header_size {
            Err(ErrorModel::IncompleteData)
        } else if archive_header_offset < Self::spec_read_so_far(user_data_header_size) {
            Err(ErrorModel::MissingArchiveHeader)
        } else if b.len() < archive_header_offset - 4 {
            Err(ErrorModel::IncompleteData)
        } else {
            Ok(
                (
                    archive_header_offset - 4,
                    MPQUserDataView {
                        user_data_size: u32_le_at(b, 0),
                        archive_header_offset,
                        user_data_header_size,
                        content: b.subrange(12, 12 + user_data_header_size),
                    },
                ),
            )
        }
    }

    /// Reads the section off the front of `input`, which starts right after
    /// the magic, and skips the padding, so that what is left starts at the
    /// archive header.
    pub fn parse(input: &[u8]) -> (r: MPQResult<&[u8], Self>)
        ensures
            match r {
                Ok((tail, user_data)) => Self::spec_parse(input@) == Ok::<_, ErrorModel>(
                    (input@.len() - tail@.len(), user_data@),
                ) && tail@ == input@.skip(input@.len() - tail@.len()),
                Err(e) => Self::spec_parse(input@) == Err::<(int, MPQUserDataView), _>(e@),
            },
    {
        let (tail, user_data_size) = Self::parse_user_data_size(input)?;
        let (tail, archive_header_offset) = Self::parse_archive_header_offset(tail)?;
        let (tail, user_data_header_size) = Self::parse_user_data_header_size(tail)?;
        assert(tail@ == input@.skip(12));
        let (tail, content) = Self::parse_content(tail, user_data_header_size)?;
        assert(tail@ == input@.skip(12 + user_data_header_size));
        assert(content@ == input@.subrange(12, 12 + user_data_header_size));
        let (tail, _) = Self::consume_until_header_offset(
            tail,
            user_data_header_size,
            archive_header_offset,
        )?;
        assert(tail@ == input@.skip(archive_header_offset - 4));
        Ok(
            (
                tail,
                MPQUserData {
                    user_data_size,
                    archive_header_offset,
                    user_data_header_size,
                    content,
                },
            ),
        )
    }

    /// Offset 0x04: the room set aside in the archive for user data. It need
    /// not be the size of the data, only the most that may be stored.
    pub fn parse_user_data_size(input: &[u8]) -> (r: MPQResult<&[u8], u32>)
        ensures
            took_field(input@, 4, u32_le_at(input@, 0), r),
    {
        read_u32_le(input)
    }

    /// Offset 0x08: where in the input the archive header starts.
    pub fn parse_archive_header_offset(input: &[u8]) -> (r: MPQResult<&[u8], u32>)
        ensures
            took_field(input@, 4, u32_le_at(input@, 0), r),
    {
        read_u32_le(input)
    }

    /// Offset 0x0c: the size of the content.
    pub fn parse_user_data_header_size(input: &[u8]) -> (r: MPQResult<&[u8], u32>)
        ensures
            took_field(input@, 4, u32_le_at(input@, 0), r),
    {
        read_u32_le(input)
    }

    /// Offset 0x10: the content, `user_data_header_size` bytes.
    pub fn parse_content(input: &[u8], user_data_header_size: u32) -> (r: MPQResult<
        &[u8],
        Vec<u8>,
    >)
        ensures
            match r {
                Ok((tail, content)) => input@.len() >= user_data_header_size && tail@
                    == input@.skip(user_data_header_size as int) && content@ == input@.take(
                    user_data_header_size as int,
                ),
                Err(e) => input@.len() < user_data_header_size && e@ == ErrorModel::IncompleteData,
            },
    {
        let n: usize = user_data_header_size as usize;
        if input.len() < n {
            return Err(MPQParserError::IncompleteData);
        }
        let content: Vec<u8> = slice_to_vec(slice_subrange(input, 0, n));
        Ok((slice_subrange(input, n, input.len()), content))
    }

    /// The padding between the content and the archive header: takes
    /// `archive_header_offset - (16 + user_data_header_size)` bytes off the
    /// front of `input`. An archive header offset that points into the user
    /// data section itself leaves no place for an archive header.
    pub fn consume_until_header_offset(
        input: &[u8],
        user_data_header_size: u32,
        archive_header_offset: u32,
    ) -> (r: MPQResult<&[u8], ()>)
        ensures
            match r {
                Ok((tail, _)) => {
                    let padding = archive_header_offset - Self::spec_read_so_far(
                        user_data_header_size,
                    );
                    0 <= padding <= input@.len() && tail@ == input@.skip(padding)
                },
                Err(e) => if archive_header_offset < Self::spec_read_so_far(
                    user_data_header_size,
                ) {
                    e@ == ErrorModel::MissingArchiveHeader
                } else {
                    e@ == ErrorModel::IncompleteData && input@.len() < archive_header_offset
                        - Self::spec_read_so_far(user_data_header_size)
                },
            },
    {
        let read_so_far: u64 = user_data_header_size as u64 + 16;
        if (archive_header_offset as u64) < read_so_far {
            return Err(MPQParserError::MissingArchiveHeader);
        }
        let padding: usize = (archive_header_offset as u64 - read_so_far) as usize;
        if input.len() < padding {
            return Err(MPQParserError::IncompleteData);
        }
        Ok((slice_subrange(input, padding, input.len()), ()))
    }
}

/// In a user data section that was read, the archive header starts after
/// the content, and the content is as long as the section says.
pub proof fn lemma_user_data_layout(b: Seq<u8>)
    ensures
        match MPQUserData::spec_parse(b) {
            Ok((taken, user_data)) => {
                &&& user_data.archive_header_offset >= 16 + user_data.user_data_header_size
                &&& user_data.content.len() == user_data.user_data_header_size
                &&& taken == user_data.archive_header_offset - 4
                &&& taken <= b.len()
            },
            Err(_) => true,
        },
{
}

} // verus!
