//! Reading the sections of an archive.
//!
//! All numbers in the format are little-endian; signed ones are in two's
//! complement.
use vstd::prelude::*;
use vstd::slice::slice_subrange;
use vstd::std_specs::convert::{FromSpecImpl, TryFromSpecImpl};
use crate::builder::MPQBuilder;
use crate::cipher::{
    decrypt_bytes, encryption_table_model, hash_of_chars, lemma_ascii_name_hashable,
    lemma_table_decrypts,
};
use crate::error::{ErrorModel, MPQParserError, MPQResult};
use crate::text::{lemma_ascii_bytes_are_text, text_of_codes, uppercase, utf8_text};
use crate::{user_data_view, MPQView, MPQ};

pub mod mpq_block_table_entry;
pub mod mpq_file_header;
pub mod mpq_file_header_ext;
pub mod mpq_file_header_parser;
pub mod mpq_hash_table_entry;
pub mod mpq_user_data;
pub mod mpq_user_data_parser;
pub mod section_data;

pub use mpq_block_table_entry::MPQBlockTableEntry;
pub use mpq_file_header::MPQFileHeader;
pub use mpq_file_header_ext::MPQFileHeaderExt;
pub use mpq_file_header_parser::{MPQFileHeaderExtParser, MPQFileHeaderParser};
pub use mpq_hash_table_entry::MPQHashTableEntry;
pub use mpq_user_data::{MPQUserData, MPQUserDataView};
pub use mpq_user_data_parser::MPQUserDataParser;

verus! {

/// Last byte of the magic of an archive header.
pub const MPQ_ARCHIVE_HEADER_TYPE: u8 = 0x1a;

/// Last byte of the magic of a user data section.
pub const MPQ_USER_DATA_HEADER_TYPE: u8 = 0x1b;

/// The four domains of the string hash. Each selects its own band of 256
/// entries of the encryption table, so that one name has four independent
/// hashes.
#[derive(Debug, PartialEq, Eq, Copy, Clone)]
pub enum MPQHashType {
    /// The hash that gives a name's home slot in the hash table.
    TableOffset,
    /// The first of the two hashes by which a name is recognised.
    HashA,
    /// The second of the two hashes by which a name is recognised.
    HashB,
    /// The hash that gives the key of an encrypted table.
    Table,
}

impl MPQHashType {
    /// The number of the domain.
    pub open spec fn spec_index(self) -> u32 {
        match self {
            MPQHashType::TableOffset => 0,
            MPQHashType::HashA => 1,
            MPQHashType::HashB => 2,
            MPQHashType::Table => 3,
        }
    }
}

impl TryFrom<u32> for MPQHashType {
    type Error = MPQParserError;

    fn try_from(value: u32) -> (r: Result<Self, Self::Error>) {
        match value {
            0 => Ok(Self::TableOffset),
            1 => Ok(Self::HashA),
            2 => Ok(Self::HashB),
            3 => Ok(Self::Table),
            _ => Err(MPQParserError::InvalidHashType(value)),
        }
    }
}

impl TryFromSpecImpl<u32> for MPQHashType {
    open spec fn obeys_try_from_spec() -> bool {
        true
    }

    /// The domain with the number `value`; numbers from 4 on name none.
    open spec fn try_from_spec(value: u32) -> Result<Self, MPQParserError> {
        if value == 0 {
            Ok(MPQHashType::TableOffset)
        } else if value == 1 {
            Ok(MPQHashType::HashA)
        } else if value == 2 {
            Ok(MPQHashType::HashB)
        } else if value == 3 {
            Ok(MPQHashType::Table)
        } else {
            Err(MPQParserError::InvalidHashType(value))
        }
    }
}

impl TryFrom<MPQHashType> for u32 {
    type Error = MPQParserError;

    fn try_from(value: MPQHashType) -> (r: Result<Self, Self::Error>) {
        match value {
            MPQHashType::TableOffset => Ok(0),
            MPQHashType::HashA => Ok(1),
            MPQHashType::HashB => Ok(2),
            MPQHashType::Table => Ok(3),
        }
    }
}

impl TryFromSpecImpl<MPQHashType> for u32 {
    open spec fn obeys_try_from_spec() -> bool {
        true
    }

    /// The number of the domain `value`: every domain has one.
    open spec fn try_from_spec(value: MPQHashType) -> Result<Self, MPQParserError> {
        Ok(value.spec_index())
    }
}

/// The kinds of section that an archive starts with.
#[derive(Debug, PartialEq, Eq, Copy, Clone)]
pub enum MPQSectionType {
    /// A user data section.
    UserData,
    /// The archive header.
    Header,
    /// Neither of the two.
    Unknown,
}

impl MPQSectionType {
    /// The kind of section that the byte after `MPQ` announces, given as a
    /// sequence of exactly that one byte.
    pub open spec fn spec_of(tag: Seq<u8>) -> MPQSectionType {
        if tag.len() != 1 {
            MPQSectionType::Unknown
        } else if tag[0] == MPQ_ARCHIVE_HEADER_TYPE {
            MPQSectionType::Header
        } else if tag[0] == MPQ_USER_DATA_HEADER_TYPE {
            MPQSectionType::UserData
        } else {
            MPQSectionType::Unknown
        }
    }
}

impl From<&[u8]> for MPQSectionType {
    fn from(input: &[u8]) -> (r: Self) {
        if input.len() != 1 {
            Self::Unknown
        } else {
            let tag: u8 = input[0];
            if tag == MPQ_ARCHIVE_HEADER_TYPE {
                Self::Header
            } else if tag == MPQ_USER_DATA_HEADER_TYPE {
                Self::UserData
            } else {
                Self::Unknown
            }
        }
    }
}

impl FromSpecImpl<&[u8]> for MPQSectionType {
    open spec fn obeys_from_spec() -> bool {
        true
    }

    open spec fn from_spec(input: &[u8]) -> MPQSectionType {
        Self::spec_of(input@)
    }
}

/// The ASCII code of the hexadecimal digit for `nibble`, in lower case.
pub open spec fn hex_digit_code(nibble: int) -> u8 {
    if nibble < 10 {
        (0x30 + nibble) as u8
    } else {
        (0x61 + nibble - 10) as u8
    }
}

/// The column of hexadecimal digits for the bytes `shown`: two digits for
/// each byte, and a space after every second byte.
pub open spec fn hex_column(shown: Seq<u8>) -> Seq<u8>
    decreases shown.len(),
{
    if shown.len() == 0 {
        Seq::empty()
    } else {
        let byte = shown.last();
        let digits = hex_column(shown.drop_last()).push(hex_digit_code(byte as int / 16)).push(
            hex_digit_code(byte as int % 16),
        );
        if shown.len() % 2 == 0 {
            digits.push(0x20)
        } else {
            digits
        }
    }
}

/// The code under which the byte `byte` is shown as text: its own where it
/// is a printable ASCII character, that of a dot otherwise.
pub open spec fn shown_code(byte: u8) -> u8 {
    if 32 <= byte <= 126 {
        byte
    } else {
        0x2E
    }
}

/// The column of text for the bytes `shown`.
pub open spec fn text_column(shown: Seq<u8>) -> Seq<u8> {
    Seq::new(shown.len(), |i: int| shown_code(shown[i]))
}

/// The ASCII codes of what `peek_hex` shows of `data`: nothing for no data;
/// otherwise, for the first eight bytes at most and between square
/// brackets, the column of digits, three spaces for each byte that is
/// missing to eight, a space, and the column of text.
pub open spec fn peek_hex_codes(data: Seq<u8>) -> Seq<u8> {
    let shown = if data.len() < 8 {
        data
    } else {
        data.take(8)
    };
    if shown.len() == 0 {
        Seq::empty()
    } else {
        seq![0x5Bu8] + hex_column(shown) + Seq::new(
            (3 * (8 - shown.len())) as nat,
            |i: int| 0x20u8,
        ) + seq![0x20u8] + text_column(shown) + seq![0x5Du8]
    }
}

/// What `peek_hex` shows of `data`.
pub open spec fn spec_peek_hex(data: Seq<u8>) -> Seq<char> {
    text_of_codes(peek_hex_codes(data))
}

/// The ASCII code of the hexadecimal digit for `nibble`.
fn hex_digit(nibble: u8) -> (code: u8)
    requires
        nibble < 16,
    ensures
        code == hex_digit_code(nibble as int),
        code < 0x80,
{
    if nibble < 10 {
        0x30 + nibble
    } else {
        0x61 + (nibble - 10)
    }
}

/// Shows the first eight bytes of `data`, at most, in the manner of a hex
/// dump: in hexadecimal, then as text.
pub fn peek_hex(data: &[u8]) -> (r: String)
    ensures
        r@ == spec_peek_hex(data@),
{
    let mut max_length: usize = 8;
    if data.len() < max_length {
        max_length = data.len();
    }
    if max_length == 0 {
        assert(spec_peek_hex(data@) == Seq::<char>::empty());
        return String::new();
    }
    let shown: &[u8] = slice_subrange(data, 0, max_length);
    let mut v: Vec<u8> = Vec::new();
    v.push(0x5B);
    let mut even_space: bool = false;
    let mut i: usize = 0;
    while i < max_length
        invariant
            i <= max_length,
            max_length == shown@.len(),
            even_space == (i % 2 == 1),
            v@ == seq![0x5Bu8] + hex_column(shown@.take(i as int)),
            forall|k: int| 0 <= k < v@.len() ==> v@[k] < 0x80,
        decreases max_length - i,
    {
        let byte: u8 = shown[i];
        let ghost before = shown@.take(i as int);
        let ghost after = shown@.take(i + 1);
        proof {
            assert(after.drop_last() == before);
            assert(after.last() == byte);
        }
        v.push(hex_digit(byte / 16));
        v.push(hex_digit(byte % 16));
        if even_space {
            v.push(0x20);
        }
        even_space = !even_space;
        i += 1;
    }
    proof {
        assert(shown@.take(max_length as int) == shown@);
    }
    let ghost digits = v@;
    let missing: usize = 8 - max_length;
    let mut j: usize = 0;
    while j < missing
        invariant
            j <= missing,
            v@ == digits + Seq::new((3 * j) as nat, |i: int| 0x20u8),
            forall|k: int| 0 <= k < v@.len() ==> v@[k] < 0x80,
            forall|k: int| 0 <= k < digits.len() ==> digits[k] < 0x80,
        decreases missing - j,
    {
        v.push(0x20);
        v.push(0x20);
        v.push(0x20);
        j += 1;
    }
    v.push(0x20);
    let ghost margin = v@;
    let mut k: usize = 0;
    while k < max_length
        invariant
            k <= max_length,
            max_length == shown@.len(),
            v@ == margin + text_column(shown@).take(k as int),
            forall|n: int| 0 <= n < v@.len() ==> v@[n] < 0x80,
            forall|n: int| 0 <= n < margin.len() ==> margin[n] < 0x80,
        decreases max_length - k,
    {
        let byte: u8 = shown[k];
        if 32 <= byte && byte <= 126 {
            v.push(byte);
        } else {
            v.push(0x2E);
        }
        k += 1;
    }
    v.push(0x5D);
    proof {
        assert(text_column(shown@).take(max_length as int) == text_column(shown@));
        let picked = if data@.len() < 8 {
            data@
        } else {
            data@.take(8)
        };
        assert(shown@ == picked);
        assert(digits == seq![0x5Bu8] + hex_column(shown@));
        assert(margin == digits + Seq::new((3 * (8 - shown@.len())) as nat, |i: int| 0x20u8)
            + seq![0x20u8]);
        assert(v@ == margin + text_column(shown@) + seq![0x5Du8]);
        assert(v@ == peek_hex_codes(data@));
        lemma_ascii_bytes_are_text(v@);
    }
    match utf8_text(v.as_slice()) {
        Some(text) => text.to_owned(),
        None => vstd::pervasive::unreached(),
    }
}

/// The kind of section that `input` starts with: its first three bytes are
/// `MPQ`, and the fourth tells the kind.
pub open spec fn spec_header_type(input: Seq<u8>) -> Result<MPQSectionType, ErrorModel> {
    if input.len() >= 4 && input[0] == 0x4D && input[1] == 0x50 && input[2] == 0x51 {
        Ok(MPQSectionType::spec_of(input.subrange(3, 4)))
    } else {
        Err(ErrorModel::UnexpectedSection)
    }
}

/// Reads the magic off the front of `input` and tells the kind of section
/// that it announces. An input that does not start with `MPQ` and one more
/// byte fails with `UnexpectedSection`.
pub fn get_header_type(input: &[u8]) -> (r: MPQResult<&[u8], MPQSectionType>)
    ensures
        match r {
            Ok((tail, section)) => tail@ == input@.skip(4) && spec_header_type(input@) == Ok::<
                MPQSectionType,
                ErrorModel,
            >(section),
            Err(e) => spec_header_type(input@) == Err::<MPQSectionType, ErrorModel>(e@),
        },
{
    if input.len() < 4 || input[0] != 0x4D || input[1] != 0x50 || input[2] != 0x51 {
        return Err(MPQParserError::UnexpectedSection);
    }
    let mpq_type: MPQSectionType = MPQSectionType::from(slice_subrange(input, 3, 4));
    Ok((slice_subrange(input, 4, input.len()), mpq_type))
}

/// The archive header that stands at the front of `input`, found at
/// `offset`: the number of bytes that it takes, the magic included, and the
/// header.
pub open spec fn spec_archive_header(input: Seq<u8>, offset: usize) -> Result<
    (int, MPQFileHeader),
    ErrorModel,
> {
    let fields = input.skip(4);
    if fields.len() < MPQFileHeader::spec_len(fields) {
        Err(ErrorModel::IncompleteData)
    } else {
        Ok((4 + MPQFileHeader::spec_len(fields), MPQFileHeader::spec_parse(fields, offset)))
    }
}

/// The archive header that has to follow a user data section: `rest` is the
/// input from the offset on that the section gives, which is `offset`.
pub open spec fn spec_header_after_user_data(rest: Seq<u8>, offset: usize) -> Result<
    (int, MPQFileHeader),
    ErrorModel,
> {
    if spec_header_type(rest) == Ok::<MPQSectionType, ErrorModel>(MPQSectionType::Header) {
        spec_archive_header(rest, offset)
    } else {
        Err(ErrorModel::MissingArchiveHeader)
    }
}

/// The headers of an input that starts with a user data section: the number
/// of bytes that they take, the archive header and the section.
pub open spec fn spec_headers_with_user_data(input: Seq<u8>) -> Result<
    (int, MPQFileHeader, Option<MPQUserDataView>),
    ErrorModel,
> {
    match MPQUserData::spec_parse(input.skip(4)) {
        Err(e) => Err(e),
        Ok((taken, user_data)) => match spec_header_after_user_data(
            input.skip(4 + taken),
            user_data.archive_header_offset as usize,
        ) {
            Err(e) => Err(e),
            Ok((more, header)) => Ok((4 + taken + more, header, Some(user_data))),
        },
    }
}

/// The headers that `input` starts with: the number of bytes that they take,
/// the archive header, and the user data section where there is one.
///
/// An input that starts with a user data section must hold the archive
/// header at the offset that the section gives.
pub open spec fn spec_headers(input: Seq<u8>) -> Result<
    (int, MPQFileHeader, Option<MPQUserDataView>),
    ErrorModel,
> {
    match spec_header_type(input) {
        Err(e) => Err(e),
        Ok(MPQSectionType::Unknown) => Err(ErrorModel::UnexpectedSection),
        Ok(MPQSectionType::Header) => match spec_archive_header(input, 0) {
            Err(e) => Err(e),
            Ok((taken, header)) => Ok((taken, header, None)),
        },
        Ok(MPQSectionType::UserData) => spec_headers_with_user_data(input),
    }
}

/// Reads the fields of the archive header, found at `offset`, off the
/// front of `fields`: what is left of `input` after the magic.
fn read_archive_header<'a>(input: &[u8], fields: &'a [u8], offset: usize) -> (r: MPQResult<
    &'a [u8],
    MPQFileHeader,
>)
    requires
        input@.len() >= 4,
        fields@ == input@.skip(4),
    ensures
        match r {
            Ok((tail, header)) => spec_archive_header(input@, offset) == Ok::<
                (int, MPQFileHeader),
                ErrorModel,
            >((input@.len() - tail@.len(), header)) && tail@ == input@.skip(
                input@.len() - tail@.len(),
            ),
            Err(e) => spec_archive_header(input@, offset) == Err::<
                (int, MPQFileHeader),
                ErrorModel,
            >(e@),
        },
{
    let (tail, archive_header) = MPQFileHeader::parse(fields, offset)?;
    assert(tail@ == input@.skip(4 + MPQFileHeader::spec_len(fields@)));
    Ok((tail, archive_header))
}

/// Reads the archive header that has to follow a user data section off the
/// front of `rest`.
fn read_header_after_user_data(rest: &[u8], offset: usize) -> (r: MPQResult<&[u8], MPQFileHeader>)
    ensures
        match r {
            Ok((tail, header)) => spec_header_after_user_data(rest@, offset) == Ok::<
                (int, MPQFileHeader),
                ErrorModel,
            >((rest@.len() - tail@.len(), header)) && tail@ == rest@.skip(
                rest@.len() - tail@.len(),
            ),
            Err(e) => spec_header_after_user_data(rest@, offset) == Err::<
                (int, MPQFileHeader),
                ErrorModel,
            >(e@),
        },
{
    let fields: &[u8] = match get_header_type(rest) {
        Ok((fields, MPQSectionType::Header)) => fields,
        _ => {
            return Err(MPQParserError::MissingArchiveHeader);
        },
    };
    read_archive_header(rest, fields, offset)
}

/// Reads the user data section and the archive header after it off the
/// front of `after_magic`: what is left of `input` after the magic.
fn read_headers_with_user_data<'a>(input: &[u8], after_magic: &'a [u8]) -> (r: MPQResult<
    &'a [u8],
    (MPQFileHeader, Option<MPQUserData>),
>)
    requires
        input@.len() >= 4,
        after_magic@ == input@.skip(4),
    ensures
        match r {
            Ok((tail, (header, user_data))) => spec_headers_with_user_data(input@) == Ok::<
                (int, MPQFileHeader, Option<MPQUserDataView>),
                ErrorModel,
            >((input@.len() - tail@.len(), header, user_data_view(user_data))) && tail@
                == input@.skip(input@.len() - tail@.len()),
            Err(e) => spec_headers_with_user_data(input@) == Err::<
                (int, MPQFileHeader, Option<MPQUserDataView>),
                ErrorModel,
            >(e@),
        },
{
    let (rest, parsed_user_data) = MPQUserData::parse(after_magic)?;
    let header_offset: usize = parsed_user_data.archive_header_offset as usize;
    let ghost taken = after_magic@.len() - rest@.len();
    assert(rest@ == input@.skip(4 + taken));
    let (tail, archive_header) = read_header_after_user_data(rest, header_offset)?;
    assert(tail@ == input@.skip(4 + taken + (rest@.len() - tail@.len())));
    Ok((tail, (archive_header, Some(parsed_user_data))))
}

/// Reads the headers off the front of `input`: the archive header, and
/// before it the user data section where the input starts with one.
pub fn read_headers(input: &[u8]) -> (r: MPQResult<&[u8], (MPQFileHeader, Option<MPQUserData>)>)
    ensures
        match r {
            Ok((tail, (header, user_data))) => spec_headers(input@) == Ok::<
                (int, MPQFileHeader, Option<MPQUserDataView>),
                ErrorModel,
            >((input@.len() - tail@.len(), header, user_data_view(user_data))) && tail@
                == input@.skip(input@.len() - tail@.len()),
            Err(e) => spec_headers(input@) == Err::<
                (int, MPQFileHeader, Option<MPQUserDataView>),
                ErrorModel,
            >(e@),
        },
{
    let (after_magic, mpq_type) = get_header_type(input)?;
    match mpq_type {
        MPQSectionType::UserData => read_headers_with_user_data(input, after_magic),
        MPQSectionType::Header => {
            let (tail, archive_header) = read_archive_header(input, after_magic, 0)?;
            Ok((tail, (archive_header, None)))
        },
        MPQSectionType::Unknown => Err(MPQParserError::UnexpectedSection),
    }
}

/// The key under which the hash table is stored: the hash of
/// `(hash table)` in the domain of table keys.
pub open spec fn hash_table_key() -> u32 {
    hash_of_chars(encryption_table_model(), 3, uppercase("(hash table)"@))
}

/// The key under which the block table is stored: the hash of
/// `(block table)` in the domain of table keys.
pub open spec fn block_table_key() -> u32 {
    hash_of_chars(encryption_table_model(), 3, uppercase("(block table)"@))
}

/// The stored bytes of a table of `entries` entries of 16 bytes that starts
/// `offset` bytes after the archive header, which stands at `base`; nothing
/// where the table runs past the end of the input.
pub open spec fn table_bytes(input: Seq<u8>, base: usize, offset: u32, entries: u32) -> Option<
    Seq<u8>,
> {
    let start = base + offset;
    let end = start + 16 * entries;
    if end <= input.len() {
        Some(input.subrange(start, end))
    } else {
        None
    }
}

/// The first `n` entries of the hash table whose plain bytes are `plain`.
pub open spec fn hash_entries_of(plain: Seq<u8>, n: int) -> Seq<MPQHashTableEntry> {
    Seq::new(n as nat, |i: int| MPQHashTableEntry::spec_at(plain, 16 * i))
}

/// The first `n` entries of the block table whose plain bytes are `plain`.
pub open spec fn block_entries_of(plain: Seq<u8>, n: int) -> Seq<MPQBlockTableEntry> {
    Seq::new(n as nat, |i: int| MPQBlockTableEntry::spec_at(plain, 16 * i))
}

/// The hash table of the archive in `input` whose header is `header`;
/// nothing where the table runs past the end of the input.
pub open spec fn spec_hash_table(input: Seq<u8>, header: MPQFileHeader) -> Option<
    Seq<MPQHashTableEntry>,
> {
    match table_bytes(input, header.offset, header.hash_table_offset, header.hash_table_entries) {
        Some(stored) => Some(
            hash_entries_of(
                decrypt_bytes(encryption_table_model(), hash_table_key(), stored),
                header.hash_table_entries as int,
            ),
        ),
        None => None,
    }
}

/// The block table of the archive in `input` whose header is `header`;
/// nothing where the table runs past the end of the input.
pub open spec fn spec_block_table(input: Seq<u8>, header: MPQFileHeader) -> Option<
    Seq<MPQBlockTableEntry>,
> {
    match table_bytes(input, header.offset, header.block_table_offset, header.block_table_entries) {
        Some(stored) => Some(
            block_entries_of(
                decrypt_bytes(encryption_table_model(), block_table_key(), stored),
                header.block_table_entries as int,
            ),
        ),
        None => None,
    }
}

/// The archive that `input` holds, and the number of bytes that its headers
/// take at the front of `input`.
///
/// The two tables are found from the archive header, each is decrypted as a
/// whole under its own key, and the plain bytes are cut into entries.
pub open spec fn spec_parse(input: Seq<u8>) -> Result<(int, MPQView), ErrorModel> {
    match spec_headers(input) {
        Err(e) => Err(e),
        Ok((taken, header, user_data)) => match (
            spec_hash_table(input, header),
            spec_block_table(input, header),
        ) {
            (Some(hash_table_entries), Some(block_table_entries)) => Ok(
                (
                    taken,
                    MPQView {
                        archive_header: header,
                        user_data,
                        hash_table_entries,
                        block_table_entries,
                        encryption_table: encryption_table_model(),
                    },
                ),
            ),
            _ => Err(ErrorModel::IncompleteData),
        },
    }
}

/// An archive that was opened has the encryption table, and tables of as
/// many entries as its header says, each within the input.
pub proof fn lemma_opened_archive(input: Seq<u8>)
    ensures
        match spec_parse(input) {
            Ok((taken, mpq)) => {
                &&& 0 <= taken <= input.len()
                &&& mpq.encryption_table == encryption_table_model()
                &&& mpq.hash_table_entries.len() == mpq.archive_header.hash_table_entries
                &&& mpq.block_table_entries.len() == mpq.archive_header.block_table_entries
                &&& mpq.archive_header.offset + mpq.archive_header.hash_table_offset + 16
                    * mpq.archive_header.hash_table_entries <= input.len()
                &&& mpq.archive_header.offset + mpq.archive_header.block_table_offset + 16
                    * mpq.archive_header.block_table_entries <= input.len()
                &&& mpq.user_data is Some ==> mpq.archive_header.offset
                    == mpq.user_data->0.archive_header_offset
                &&& mpq.user_data is None ==> mpq.archive_header.offset == 0
            },
            Err(_) => true,
        },
{
}

/// The stored bytes of a table, cut out of `input`.
fn take_table<'a>(input: &'a [u8], base: usize, offset: u32, entries: u32) -> (r: Result<
    &'a [u8],
    MPQParserError,
>)
    ensures
        match r {
            Ok(table) => table_bytes(input@, base, offset, entries) == Some(table@),
            Err(e) => table_bytes(input@, base, offset, entries) is None && e@
                == ErrorModel::IncompleteData,
        },
{
    let len: usize = input.len();
    if base > len || offset as usize > len - base {
        return Err(MPQParserError::IncompleteData);
    }
    let start: usize = base + offset as usize;
    if entries as usize > (len - start) / 16 {
        return Err(MPQParserError::IncompleteData);
    }
    Ok(slice_subrange(input, start, start + 16 * entries as usize))
}

/// Cuts the plain bytes of the hash table into `count` entries.
fn parse_hash_table(plain: &[u8], count: usize) -> (r: Result<
    Vec<MPQHashTableEntry>,
    MPQParserError,
>)
    ensures
        match r {
            Ok(entries) => plain@.len() >= 16 * count && entries@ == hash_entries_of(
                plain@,
                count as int,
            ),
            Err(e) => plain@.len() < 16 * count && e@ == ErrorModel::IncompleteData,
        },
{
    let mut entries: Vec<MPQHashTableEntry> = Vec::new();
    let mut rest: &[u8] = plain;
    let mut i: usize = 0;
    while i < count
        invariant
            i <= count,
            16 * i <= plain@.len(),
            rest@ == plain@.skip(16 * i),
            entries@ == hash_entries_of(plain@, i as int),
        decreases count - i,
    {
        let (tail, entry) = MPQHashTableEntry::parse(rest)?;
        assert(tail@ == plain@.skip(16 * (i + 1)));
        assert(entry == MPQHashTableEntry::spec_at(plain@, 16 * i));
        entries.push(entry);
        assert(entries@ == hash_entries_of(plain@, i + 1));
        rest = tail;
        i += 1;
    }
    Ok(entries)
}

/// Cuts the plain bytes of the block table into `count` entries.
fn parse_block_table(plain: &[u8], count: usize) -> (r: Result<
    Vec<MPQBlockTableEntry>,
    MPQParserError,
>)
    ensures
        match r {
            Ok(entries) => plain@.len() >= 16 * count && entries@ == block_entries_of(
                plain@,
                count as int,
            ),
            Err(e) => plain@.len() < 16 * count && e@ == ErrorModel::IncompleteData,
        },
{
    let mut entries: Vec<MPQBlockTableEntry> = Vec::new();
    let mut rest: &[u8] = plain;
    let mut i: usize = 0;
    while i < count
        invariant
            i <= count,
            16 * i <= plain@.len(),
            rest@ == plain@.skip(16 * i),
            entries@ == block_entries_of(plain@, i as int),
        decreases count - i,
    {
        let (tail, entry) = MPQBlockTableEntry::parse(rest)?;
        assert(tail@ == plain@.skip(16 * (i + 1)));
        assert(entry == MPQBlockTableEntry::spec_at(plain@, 16 * i));
        entries.push(entry);
        assert(entries@ == block_entries_of(plain@, i + 1));
        rest = tail;
        i += 1;
    }
    Ok(entries)
}

/// The keys of the two tables: the hashes of `(hash table)` and of
/// `(block table)`.
fn table_keys(builder: &MPQBuilder) -> (keys: (u32, u32))
    requires
        builder.encryption_table@ == encryption_table_model(),
    ensures
        keys.0 == hash_table_key(),
        keys.1 == block_table_key(),
{
    proof {
        reveal_strlit("(hash table)");
        reveal_strlit("(block table)");
        lemma_ascii_name_hashable("(hash table)"@, 3);
        lemma_ascii_name_hashable("(block table)"@, 3);
    }
    let hash_table_key: u32 = match builder.mpq_string_hash("(hash table)", MPQHashType::Table) {
        Ok(key) => key,
        Err(_) => vstd::pervasive::unreached(),
    };
    let block_table_key: u32 = match builder.mpq_string_hash(
        "(block table)",
        MPQHashType::Table,
    ) {
        Ok(key) => key,
        Err(_) => vstd::pervasive::unreached(),
    };
    (hash_table_key, block_table_key)
}

/// Finds, decrypts and reads the hash table.
fn read_hash_table(builder: &MPQBuilder, orig_input: &[u8], header: &MPQFileHeader, key: u32) -> (r:
    Result<Vec<MPQHashTableEntry>, MPQParserError>)
    requires
        builder.encryption_table@ == encryption_table_model(),
        key == hash_table_key(),
    ensures
        match r {
            Ok(entries) => spec_hash_table(orig_input@, *header) == Some(entries@),
            Err(e) => spec_hash_table(orig_input@, *header) is None && e@
                == ErrorModel::IncompleteData,
        },
{
    let encrypted_hash_table_data: &[u8] = take_table(
        orig_input,
        header.offset,
        header.hash_table_offset,
        header.hash_table_entries,
    )?;
    proof {
        lemma_table_decrypts(key, encrypted_hash_table_data@);
    }
    let decrypted_hash_table_data: Vec<u8> = match builder.mpq_data_decrypt(
        encrypted_hash_table_data,
        key,
    ) {
        Ok((_, plain)) => plain,
        Err(_) => vstd::pervasive::unreached(),
    };
    parse_hash_table(decrypted_hash_table_data.as_slice(), header.hash_table_entries as usize)
}

/// Finds, decrypts and reads the block table.
fn read_block_table(builder: &MPQBuilder, orig_input: &[u8], header: &MPQFileHeader, key: u32) -> (r:
    Result<Vec<MPQBlockTableEntry>, MPQParserError>)
    requires
        builder.encryption_table@ == encryption_table_model(),
        key == block_table_key(),
    ensures
        match r {
            Ok(entries) => spec_block_table(orig_input@, *header) == Some(entries@),
            Err(e) => spec_block_table(orig_input@, *header) is None && e@
                == ErrorModel::IncompleteData,
        },
{
    let encrypted_block_table_data: &[u8] = take_table(
        orig_input,
        header.offset,
        header.block_table_offset,
        header.block_table_entries,
    )?;
    proof {
        lemma_table_decrypts(key, encrypted_block_table_data@);
    }
    let decrypted_block_table_data: Vec<u8> = match builder.mpq_data_decrypt(
        encrypted_block_table_data,
        key,
    ) {
        Ok((_, plain)) => plain,
        Err(_) => vstd::pervasive::unreached(),
    };
    parse_block_table(decrypted_block_table_data.as_slice(), header.block_table_entries as usize)
}

/// Opens the archive that `orig_input` holds: reads its headers, and
/// decrypts and reads its hash table and its block table. What is left of
/// the input after the headers is handed back beside the archive.
///
/// A table that runs past the end of the input fails with `IncompleteData`.
pub fn parse(orig_input: &[u8]) -> (r: MPQResult<&[u8], MPQ>)
    ensures
        match r {
            Ok((tail, mpq)) => spec_parse(orig_input@) == Ok::<(int, MPQView), ErrorModel>(
                (orig_input@.len() - tail@.len(), mpq@),
            ) && tail@ == orig_input@.skip(orig_input@.len() - tail@.len()),
            Err(e) => spec_parse(orig_input@) == Err::<(int, MPQView), ErrorModel>(e@),
        },
{
    let builder: MPQBuilder = MPQBuilder::new();
    let (hash_table_key, block_table_key) = table_keys(&builder);
    let (tail, (archive_header, user_data)) = read_headers(orig_input)?;
    let hash_table_entries: Vec<MPQHashTableEntry> = read_hash_table(
        &builder,
        orig_input,
        &archive_header,
        hash_table_key,
    )?;
    let block_table_entries: Vec<MPQBlockTableEntry> = read_block_table(
        &builder,
        orig_input,
        &archive_header,
        block_table_key,
    )?;
    let built: Result<MPQ, String> = builder.with_archive_header(archive_header).with_user_data(
        user_data,
    ).with_hash_table(hash_table_entries).with_block_table(block_table_entries).build(orig_input);
    let mpq: MPQ = built.unwrap();
    Ok((tail, mpq))
}

} // verus!
