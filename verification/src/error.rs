//! The errors of archive reading.
use vstd::prelude::*;

verus! {

/// What can go wrong while an archive is opened or a file is extracted.
#[derive(Debug, PartialEq, Eq)]
pub enum MPQParserError {
    /// The input ended after the user data: no archive header follows it.
    MissingArchiveHeader,
    /// The magic bytes are absent, or the section tag after them is unknown.
    UnexpectedSection,
    /// A field, a table or a block runs past the end of the input.
    IncompleteData,
    /// A number that names no hash domain.
    InvalidHashType(u32),
    /// A character of the name has no entry in the encryption table for
    /// the hash domain asked for.
    UnhashableCharacter,
    /// The hash table holds no entry for this file name.
    HashTableEntryNotFound(String),
    /// The encryption table lacks an entry that decryption with this key needs.
    DecryptionFailed(u32),
    /// The compression tag is none of the supported ones.
    UnsupportedCompression(u8),
    /// The block is flagged as encrypted.
    UnsupportedEncryptedFile,
    /// The zlib or bzip2 decoder rejected its input; the decoder's message.
    Codec(String),
    /// The list of file names is not valid UTF-8.
    InvalidUtf8,
    /// A section was to be built before this field of it had been read.
    BuilderMissingField(String),
}

/// The mathematical value of an error: strings as sequences of characters.
pub enum ErrorModel {
    MissingArchiveHeader,
    UnexpectedSection,
    IncompleteData,
    InvalidHashType(u32),
    UnhashableCharacter,
    HashTableEntryNotFound(Seq<char>),
    DecryptionFailed(u32),
    UnsupportedCompression(u8),
    UnsupportedEncryptedFile,
    Codec(Seq<char>),
    InvalidUtf8,
    BuilderMissingField(Seq<char>),
}

impl View for MPQParserError {
    type V = ErrorModel;

    open spec fn view(&self) -> ErrorModel {
        match *self {
            MPQParserError::MissingArchiveHeader => ErrorModel::MissingArchiveHeader,
            MPQParserError::UnexpectedSection => ErrorModel::UnexpectedSection,
            MPQParserError::IncompleteData => ErrorModel::IncompleteData,
            MPQParserError::InvalidHashType(n) => ErrorModel::InvalidHashType(n),
            MPQParserError::UnhashableCharacter => ErrorModel::UnhashableCharacter,
            MPQParserError::HashTableEntryNotFound(name) => ErrorModel::HashTableEntryNotFound(
                name@,
            ),
            MPQParserError::DecryptionFailed(key) => ErrorModel::DecryptionFailed(key),
            MPQParserError::UnsupportedCompression(tag) => ErrorModel::UnsupportedCompression(tag),
            MPQParserError::UnsupportedEncryptedFile => ErrorModel::UnsupportedEncryptedFile,
            MPQParserError::Codec(message) => ErrorModel::Codec(message@),
            MPQParserError::InvalidUtf8 => ErrorModel::InvalidUtf8,
            MPQParserError::BuilderMissingField(field) => ErrorModel::BuilderMissingField(field@),
        }
    }
}

/// What a parsing step returns: the input that is left and the value read.
pub type MPQResult<I, O> = Result<(I, O), MPQParserError>;

} // verus!
