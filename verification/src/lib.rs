//! A reader for MoPaQ (MPQ) archives held in memory.
//!
//! An archive is opened from a complete buffer of bytes with
//! [`parser::parse`]: its headers are read, and its hash table and its block
//! table are decrypted and read. The files of an opened [`MPQ`] are listed
//! with [`MPQ::get_files`] and extracted with [`MPQ::read_mpq_file_sector`],
//! both from the same buffer. The headers can also be read field by field
//! ([`parser::MPQFileHeaderParser`], [`parser::MPQUserDataParser`]) or one
//! section at a time ([`parser::section_data`]).
//!
//! Every function of the library is verified against a contract that says
//! what it returns for every input. The contracts are stated over the
//! mathematical descriptions in [`cipher`] (the encryption table, the
//! string hash, the stream cipher), [`lookup`] (the search of the hash
//! table), [`sector`] (the unpacking of a block) and [`parser`] (the layout
//! of the headers and tables).
//!
//! Three things are taken on trust, and named where they enter: the zlib
//! and bzip2 decoders in [`codec`], and std's upper-casing and UTF-8
//! validation in [`text`].
use vstd::prelude::*;
use vstd::slice::{slice_subrange, slice_to_vec};
use vstd::utf8::{decode_utf8, valid_utf8};
use std::collections::HashMap;
use crate::bytes::get_u32_le;
use crate::cipher::{
    bytes_of_words, cipher_index, cipher_seed1, cipher_state, decrypt_result, decrypt_word,
    decrypt_words_upto, decryptable, encryption_table_entry, encryption_table_model,
    generator_seed, hash_char, hash_index, hash_state, hashable, lemma_bytes_of_words_push,
    lemma_decrypt_one_more, lemma_decrypt_state, lemma_low_byte, lemma_table_entry_bits,
    string_hash, words_of_bytes,
};
use crate::codec::{bzip2_decode, zlib_inflate};
use crate::lookup::{entry_of_name, probe, probed_slot, HASH_ENTRY_DELETED, HASH_ENTRY_EMPTY};
use crate::parser::MPQHashType;
use crate::sector::{
    bytes_left, count_sectors, decompressed, file_read, lemma_sectors_error_stays, position,
    sectors_unpacked,
};
use crate::text::{lines_of, split_lines, texts_of, uppercase, utf8_text};

pub mod builder;
pub mod bytes;
pub mod cipher;
pub mod codec;
pub mod error;
pub mod lookup;
pub mod parser;
pub mod sector;
pub mod text;

pub use builder::MPQBuilder;
pub use error::{ErrorModel, MPQParserError, MPQResult};
pub use parser::MPQBlockTableEntry;
pub use parser::MPQFileHeader;
pub use parser::MPQHashTableEntry;
pub use parser::MPQUserData;
pub use parser::MPQUserDataView;

verus! {

/// The block is imploded. Such blocks are not unpacked by this library.
pub const MPQ_FILE_IMPLODE: u32 = 0x00000100;

/// The block is compressed.
pub const MPQ_FILE_COMPRESS: u32 = 0x00000200;

/// The block is encrypted.
pub const MPQ_FILE_ENCRYPTED: u32 = 0x00010000;

/// The key of the encrypted block is adjusted by its offset and size.
pub const MPQ_FILE_FIX_KEY: u32 = 0x00020000;

/// The block is stored as a single unit, not split into sectors.
pub const MPQ_FILE_SINGLE_UNIT: u32 = 0x01000000;

/// The block marks a file as deleted.
pub const MPQ_FILE_DELETE_MARKER: u32 = 0x02000000;

/// The block carries a checksum entry after its sectors.
pub const MPQ_FILE_SECTOR_CRC: u32 = 0x04000000;

/// The block is a file (as opposed to free or unused space).
pub const MPQ_FILE_EXISTS: u32 = 0x80000000;

/// Compression tag: the payload is stored as it is.
pub const COMPRESSION_PLAINTEXT: u8 = 0;

/// Compression tag: the payload is a zlib stream.
pub const COMPRESSION_ZLIB: u8 = 2;

/// Compression tag: the payload is a bzip2 stream.
pub const COMPRESSION_BZ2: u8 = 16;

/// The mathematical value of an opened archive.
pub struct MPQView {
    pub archive_header: MPQFileHeader,
    pub user_data: Option<MPQUserDataView>,
    pub hash_table_entries: Seq<MPQHashTableEntry>,
    pub block_table_entries: Seq<MPQBlockTableEntry>,
    pub encryption_table: Map<u32, u32>,
}

/// The mathematical value of a user data section that may be absent.
pub open spec fn user_data_view(user_data: Option<MPQUserData>) -> Option<MPQUserDataView> {
    match user_data {
        Some(user_data) => Some(user_data@),
        None => None,
    }
}

impl View for MPQ {
    type V = MPQView;

    open spec fn view(&self) -> MPQView {
        MPQView {
            archive_header: self.archive_header,
            user_data: user_data_view(self.user_data),
            hash_table_entries: self.hash_table_entries@,
            block_table_entries: self.block_table_entries@,
            encryption_table: self.encryption_table@,
        }
    }
}

/// An archive that has been opened: its headers and its two tables.
#[derive(Debug, Default)]
pub struct MPQ {
    /// The archive header.
    pub archive_header: MPQFileHeader,
    /// The user data section, where the input starts with one.
    pub user_data: Option<MPQUserData>,
    /// The hash table, decrypted.
    pub hash_table_entries: Vec<MPQHashTableEntry>,
    /// The block table, decrypted.
    pub block_table_entries: Vec<MPQBlockTableEntry>,
    /// The encryption table.
    pub encryption_table: HashMap<u32, u32>,
}

impl MPQ {
    /// Builds the encryption table.
    pub fn prepare_encryption_table() -> (table: HashMap<u32, u32>)
        ensures
            table@ == encryption_table_model(),
            table@.dom().finite(),
            table@.len() == 1280,
    {
        broadcast use vstd::std_specs::hash::group_hash_axioms;

        let mut seed: u32 = 0x00100001;
        let mut res: HashMap<u32, u32> = HashMap::new();
        let mut i: u32 = 0;
        while i < 256
            invariant
                i <= 256,
                seed == generator_seed((10 * i) as nat),
                0 <= seed < 0x2A_AAAB,
                res@.dom().finite(),
                res@.len() == 5 * i,
                forall|k: u32| res@.contains_key(k) <==> k < 1280 && k % 0x100 < i,
                forall|k: u32| res@.contains_key(k) ==> res@[k] == encryption_table_entry(k as int),
            decreases 256 - i,
        {
            let mut idx: u32 = i;
            let mut j: u32 = 0;
            while j < 5
                invariant
                    i < 256,
                    j <= 5,
                    idx == i + 0x100 * j,
                    seed == generator_seed((10 * i + 2 * j) as nat),
                    0 <= seed < 0x2A_AAAB,
                    res@.dom().finite(),
                    res@.len() == 5 * i + j,
                    forall|k: u32|
                        res@.contains_key(k) <==> k < 1280 && (k % 0x100 < i || (k % 0x100 == i
                            && k / 0x100 < j)),
                    forall|k: u32|
                        res@.contains_key(k) ==> res@[k] == encryption_table_entry(k as int),
                decreases 5 - j,
            {
                seed = (seed * 125 + 3) % 0x2AAAAB;
                let first: u32 = seed;
                let temp1: u32 = (seed & 0xFFFF) << 0x10;
                seed = (seed * 125 + 3) % 0x2AAAAB;
                let temp2: u32 = seed & 0xFFFF;
                proof {
                    lemma_table_entry_bits(first, seed);
                    let pair = 5 * i + j;
                    assert(idx % 0x100 == i && idx / 0x100 == j);
                    assert(first == generator_seed((2 * pair + 1) as nat));
                    assert(seed == generator_seed((2 * pair + 2) as nat));
                    assert((temp1 | temp2) == encryption_table_entry(idx as int));
                    assert(!res@.contains_key(idx));
                }
                res.insert(idx, temp1 | temp2);
                idx += 0x100;
                j += 1;
            }
            i += 1;
        }
        assert(res@ =~= encryption_table_model());
        res
    }

    /// Hashes the name `location` in the domain `hash_type`.
    ///
    /// The name is put in upper case first. The hash fails with
    /// `UnhashableCharacter` where the table has no entry for one of the
    /// characters in that domain.
    pub fn mpq_string_hash(
        encryption_table: &HashMap<u32, u32>,
        location: &str,
        hash_type: MPQHashType,
    ) -> (r: Result<u32, MPQParserError>)
        ensures
            match r {
                Ok(hash) => string_hash(encryption_table@, location@, hash_type.spec_index())
                    == Ok::<u32, ErrorModel>(hash),
                Err(e) => string_hash(encryption_table@, location@, hash_type.spec_index())
                    == Err::<u32, ErrorModel>(e@),
            },
    {
        broadcast use vstd::std_specs::hash::group_hash_axioms;
        broadcast use vstd::string::group_string_axioms;

        let hash_type_idx: u32 = match u32::try_from(hash_type) {
            Ok(index) => index,
            Err(e) => {
                return Err(e);
            },
        };
        let upper: String = location.to_uppercase();
        let mut state: (u32, u32) = (0x7FED7FEDu32, 0xEEEEEEEEu32);
        for ch in it: upper.as_str().chars()
            invariant
                it.seq() == upper@,
                upper@ == uppercase(location@),
                hash_type_idx == hash_type.spec_index(),
                hash_type_idx <= 3,
                hashable(encryption_table@, hash_type_idx, upper@.take(it.index() as int)),
                state == hash_state(
                    encryption_table@,
                    hash_type_idx,
                    upper@.take(it.index() as int),
                ),
        {
            let ghost done = upper@.take(it.index() as int);
            let ghost next = upper@.take(it.index() + 1);
            proof {
                vstd::utf8::char_is_scalar(ch);
            }
            let ch_ord: u32 = ch as u32;
            proof {
                assert(next.drop_last() == done);
                assert(next.last() == ch);
                assert(hash_type_idx << 8 == hash_type_idx * 0x100) by (bit_vector)
                    requires
                        hash_type_idx <= 3,
                ;
            }
            let value: u32 = match encryption_table.get(&((hash_type_idx << 8) + ch_ord)) {
                Some(val) => *val,
                None => {
                    proof {
                        assert(upper@[it.index() as int] == ch);
                        assert(!encryption_table@.contains_key(
                            hash_index(hash_type_idx, upper@[it.index() as int]) as u32,
                        ));
                    }
                    return Err(MPQParserError::UnhashableCharacter);
                },
            };
            proof {
                assert forall|i: int| 0 <= i < next.len() implies encryption_table@.contains_key(
                    #[trigger] hash_index(hash_type_idx, next[i]) as u32,
                ) by {
                    if i < done.len() {
                        assert(next[i] == done[i]);
                    }
                }
            }
            state = hash_char(value, state, ch_ord);
        }
        proof {
            assert(upper@.take(upper@.len() as int) == upper@);
        }
        Ok(state.0)
    }

    /// Decrypts `data` under `key`, word by word; `data` itself is handed
    /// back beside the plain bytes.
    ///
    /// Up to three bytes at the end of `data` that fill no 32-bit word are
    /// ignored. Decryption fails with `DecryptionFailed` where the table has
    /// no entry for one of the indices that the key leads to.
    pub fn mpq_data_decrypt<'a>(
        encryption_table: &HashMap<u32, u32>,
        data: &'a [u8],
        key: u32,
    ) -> (r: MPQResult<&'a [u8], Vec<u8>>)
        ensures
            match r {
                Ok((tail, plain)) => tail@ == data@ && decrypt_result(
                    encryption_table@,
                    key,
                    data@,
                ) == Ok::<Seq<u8>, ErrorModel>(plain@),
                Err(e) => decrypt_result(encryption_table@, key, data@) == Err::<
                    Seq<u8>,
                    ErrorModel,
                >(e@),
            },
    {
        broadcast use vstd::std_specs::hash::group_hash_axioms;

        let mut state: (u32, u32) = (key, 0xEEEEEEEEu32);
        let mut res: Vec<u8> = Vec::new();
        let words: usize = data.len() / 4;
        let ghost cipher = words_of_bytes(data@);
        let mut i: usize = 0;
        while i < words
            invariant
                i <= words,
                words == data@.len() / 4,
                data@.len() <= usize::MAX,
                cipher == words_of_bytes(data@),
                state == cipher_state(
                    encryption_table@,
                    key,
                    decrypt_words_upto(encryption_table@, key, cipher, i as int),
                ),
                res@ == bytes_of_words(
                    decrypt_words_upto(encryption_table@, key, cipher, i as int),
                ),
                decryptable(encryption_table@, key, i as int),
            decreases words - i,
        {
            let ghost before = decrypt_words_upto(encryption_table@, key, cipher, i as int);
            proof {
                lemma_low_byte(state.0);
                lemma_decrypt_state(encryption_table@, key, cipher, i as int);
            }
            let entry: u32 = match encryption_table.get(&(0x400 + (state.0 & 0xFF))) {
                Some(val) => *val,
                None => {
                    proof {
                        assert(!encryption_table@.contains_key(
                            cipher_index(cipher_seed1(key, i as int)),
                        ));
                    }
                    return Err(MPQParserError::DecryptionFailed(key));
                },
            };
            let value: u32 = get_u32_le(data, i * 4);
            let (plain, next) = decrypt_word(entry, state, value);
            proof {
                assert(cipher[i as int] == value);
                lemma_decrypt_one_more(encryption_table@, key, cipher, i as int);
                lemma_bytes_of_words_push(before, plain);
                assert forall|k: int| 0 <= k < i + 1 implies encryption_table@.contains_key(
                    cipher_index(#[trigger] cipher_seed1(key, k)),
                ) by {}
            }
            state = next;
            res.push((plain % 0x100) as u8);
            res.push((plain / 0x100 % 0x100) as u8);
            res.push((plain / 0x1_0000 % 0x100) as u8);
            res.push((plain / 0x100_0000 % 0x100) as u8);
            i += 1;
        }
        Ok((data, res))
    }

    /// The entry of the file named `name` in this archive's hash table.
    pub open spec fn spec_entry(&self, name: Seq<char>) -> Result<MPQHashTableEntry, ErrorModel> {
        entry_of_name(self.encryption_table@, self.hash_table_entries@, name)
    }

    /// Finds the hash table entry of the file named `filename`.
    ///
    /// The search starts at the name's home slot and goes on slot by slot,
    /// round the end of the table, to the first entry in use that has both
    /// hashes of the name. It fails with `HashTableEntryNotFound` at a slot
    /// that was never used and when every slot has been looked at, and with
    /// `UnhashableCharacter` where the name cannot be hashed.
    pub fn get_hash_table_entry(&self, filename: &str) -> (r: Result<
        MPQHashTableEntry,
        MPQParserError,
    >)
        ensures
            match r {
                Ok(entry) => self.spec_entry(filename@) == Ok::<MPQHashTableEntry, ErrorModel>(
                    entry,
                ),
                Err(e) => self.spec_entry(filename@) == Err::<MPQHashTableEntry, ErrorModel>(e@),
            },
    {
        let hash_a: u32 = Self::mpq_string_hash(
            &self.encryption_table,
            filename,
            MPQHashType::HashA,
        )?;
        let hash_b: u32 = Self::mpq_string_hash(
            &self.encryption_table,
            filename,
            MPQHashType::HashB,
        )?;
        let offset: u32 = Self::mpq_string_hash(
            &self.encryption_table,
            filename,
            MPQHashType::TableOffset,
        )?;
        let len: usize = self.hash_table_entries.len();
        if len == 0 {
            return Err(MPQParserError::HashTableEntryNotFound(filename.to_owned()));
        }
        let home: usize = offset as usize % len;
        let mut k: usize = 0;
        while k < len
            invariant
                k <= len,
                home < len,
                home == offset as int % len as int,
                len == self.hash_table_entries@.len(),
                string_hash(self.encryption_table@, filename@, 1) == Ok::<u32, ErrorModel>(hash_a),
                string_hash(self.encryption_table@, filename@, 2) == Ok::<u32, ErrorModel>(hash_b),
                string_hash(self.encryption_table@, filename@, 0) == Ok::<u32, ErrorModel>(offset),
                probe(self.hash_table_entries@, hash_a, hash_b, home as int, 0) == probe(
                    self.hash_table_entries@,
                    hash_a,
                    hash_b,
                    home as int,
                    k as int,
                ),
            decreases len - k,
        {
            let slot: usize = if k < len - home {
                home + k
            } else {
                k - (len - home)
            };
            assert(slot == probed_slot(len as int, home as int, k as int)) by {
                if k < len - home {
                    vstd::arithmetic::div_mod::lemma_small_mod((home + k) as nat, len as nat);
                } else {
                    vstd::arithmetic::div_mod::lemma_mod_add_multiples_vanish(
                        home + k - len,
                        len as int,
                    );
                    vstd::arithmetic::div_mod::lemma_small_mod((home + k - len) as nat, len as nat);
                }
            }
            let entry: MPQHashTableEntry = self.hash_table_entries[slot];
            if entry.block_table_index == HASH_ENTRY_EMPTY {
                return Err(MPQParserError::HashTableEntryNotFound(filename.to_owned()));
            }
            if entry.block_table_index != HASH_ENTRY_DELETED && entry.hash_a == hash_a
                && entry.hash_b == hash_b {
                return Ok(entry);
            }
            k += 1;
        }
        Err(MPQParserError::HashTableEntryNotFound(filename.to_owned()))
    }

    /// What a decoder's outcome means to the library: its bytes, or the
    /// error `Codec` with its message.
    pub fn codec_outcome(decoded: Result<Vec<u8>, String>) -> (r: Result<Vec<u8>, MPQParserError>)
        ensures
            match (decoded, r) {
                (Ok(data), Ok(same)) => same == data,
                (Err(message), Err(e)) => e@ == ErrorModel::Codec(message@),
                _ => false,
            },
    {
        match decoded {
            Ok(data) => Ok(data),
            Err(message) => Err(MPQParserError::Codec(message)),
        }
    }

    /// Unpacks a compressed payload: reads the compression tag, its first
    /// byte, and hands the rest to the decoder that the tag names. The rest
    /// is handed back beside the unpacked bytes.
    pub fn decompress(input: &[u8]) -> (r: MPQResult<&[u8], Vec<u8>>)
        ensures
            match r {
                Ok((tail, data)) => tail@ == input@.skip(1) && decompressed(input@) == Ok::<
                    Seq<u8>,
                    ErrorModel,
                >(data@),
                Err(e) => decompressed(input@) == Err::<Seq<u8>, ErrorModel>(e@),
            },
    {
        if input.len() == 0 {
            return Err(MPQParserError::IncompleteData);
        }
        let compression_type: u8 = input[0];
        let tail: &[u8] = slice_subrange(input, 1, input.len());
        let data: Vec<u8> = if compression_type == COMPRESSION_PLAINTEXT {
            slice_to_vec(tail)
        } else if compression_type == COMPRESSION_ZLIB {
            Self::codec_outcome(zlib_inflate(tail))?
        } else if compression_type == COMPRESSION_BZ2 {
            Self::codec_outcome(bzip2_decode(tail))?
        } else {
            return Err(MPQParserError::UnsupportedCompression(compression_type));
        };
        Ok((tail, data))
    }

    /// Unpacks the first `sectors` sectors of `block`, one after the other.
    ///
    /// Each sector lies between two entries of the position table at the
    /// start of the block. A sector is unpacked where the block is flagged
    /// as compressed and `force_decompress` is set, or where it is shorter
    /// than the part of the file that is still owed; otherwise it is copied.
    /// What is still owed goes down by the stored length of each sector. A
    /// sector that does not lie within the block fails with `IncompleteData`.
    fn read_sectors(
        block: &[u8],
        block_entry: &MPQBlockTableEntry,
        sectors: usize,
        force_decompress: bool,
    ) -> (r: Result<Vec<u8>, MPQParserError>)
        requires
            4 * (sectors + 1) <= block@.len(),
        ensures
            match r {
                Ok(data) => sectors_unpacked(
                    block@,
                    *block_entry,
                    force_decompress,
                    sectors as int,
                ) == Ok::<Seq<u8>, ErrorModel>(data@),
                Err(e) => sectors_unpacked(block@, *block_entry, force_decompress, sectors as int)
                    == Err::<Seq<u8>, ErrorModel>(e@),
            },
    {
        let mut res: Vec<u8> = Vec::new();
        let mut sector_bytes_left: usize = block_entry.size as usize;
        let block_len: usize = block.len();
        let mut i: usize = 0;
        while i < sectors
            invariant
                i <= sectors,
                4 * (sectors + 1) <= block@.len(),
                block_len == block@.len(),
                sector_bytes_left == bytes_left(block@, block_entry.size, i as int),
                sectors_unpacked(block@, *block_entry, force_decompress, i as int) == Ok::<
                    Seq<u8>,
                    ErrorModel,
                >(res@),
            decreases sectors - i,
        {
            let start: usize = get_u32_le(block, 4 * i) as usize;
            let end: usize = get_u32_le(block, 4 * (i + 1)) as usize;
            assert(start == position(block@, i as int));
            assert(end == position(block@, i + 1));
            if start > end || end > block_len {
                proof {
                    lemma_sectors_error_stays(
                        block@,
                        *block_entry,
                        force_decompress,
                        i + 1,
                        sectors as int,
                    );
                }
                return Err(MPQParserError::IncompleteData);
            }
            let sector: &[u8] = slice_subrange(block, start, end);
            if block_entry.flags & MPQ_FILE_COMPRESS != 0 && force_decompress || sector_bytes_left
                > sector.len() {
                let mut piece: Vec<u8> = match Self::decompress(sector) {
                    Ok((_, piece)) => piece,
                    Err(e) => {
                        proof {
                            lemma_sectors_error_stays(
                                block@,
                                *block_entry,
                                force_decompress,
                                i + 1,
                                sectors as int,
                            );
                        }
                        return Err(e);
                    },
                };
                res.append(&mut piece);
            } else {
                let mut piece: Vec<u8> = slice_to_vec(sector);
                res.append(&mut piece);
            }
            sector_bytes_left =
            if sector_bytes_left >= sector.len() {
                sector_bytes_left - sector.len()
            } else {
                0
            };
            i += 1;
        }
        Ok(res)
    }

    /// Reads the file that the block table entry `block_entry` describes
    /// out of `orig_input`, the input that the archive was opened from. The
    /// input that follows the block is handed back beside the file's bytes.
    ///
    /// A block that is no file, or that takes no bytes, yields no bytes and
    /// all of the input. A block that runs past the end of the input fails
    /// with `IncompleteData`, an encrypted one with
    /// `UnsupportedEncryptedFile`.
    pub fn read_block<'a>(
        &self,
        block_entry: &MPQBlockTableEntry,
        force_decompress: bool,
        orig_input: &'a [u8],
    ) -> (r: MPQResult<&'a [u8], Vec<u8>>)
        ensures
            match r {
                Ok((tail, data)) => file_read(
                    orig_input@,
                    self.archive_header.offset,
                    self.archive_header.sector_size_shift,
                    *block_entry,
                    force_decompress,
                ) == Ok::<(Seq<u8>, Seq<u8>), ErrorModel>((tail@, data@)),
                Err(e) => file_read(
                    orig_input@,
                    self.archive_header.offset,
                    self.archive_header.sector_size_shift,
                    *block_entry,
                    force_decompress,
                ) == Err::<(Seq<u8>, Seq<u8>), ErrorModel>(e@),
            },
    {
        if block_entry.flags & MPQ_FILE_EXISTS == 0 {
            return Ok((orig_input, Vec::new()));
        }
        if block_entry.archived_size == 0 {
            return Ok((orig_input, Vec::new()));
        }
        let base: usize = self.archive_header.offset;
        let len: usize = orig_input.len();
        if base > len || block_entry.offset as usize > len - base
            || block_entry.archived_size as usize > len - base - block_entry.offset as usize {
            return Err(MPQParserError::IncompleteData);
        }
        let start: usize = base + block_entry.offset as usize;
        let end: usize = start + block_entry.archived_size as usize;
        let file_data: &[u8] = slice_subrange(orig_input, start, end);
        let tail: &[u8] = slice_subrange(orig_input, end, len);
        if block_entry.flags & MPQ_FILE_ENCRYPTED != 0 {
            return Err(MPQParserError::UnsupportedEncryptedFile);
        }
        if block_entry.flags & MPQ_FILE_SINGLE_UNIT != 0 {
            if block_entry.flags & MPQ_FILE_COMPRESS != 0 && force_decompress || block_entry.size
                > block_entry.archived_size {
                let (_, data) = Self::decompress(file_data)?;
                Ok((tail, data))
            } else {
                Ok((tail, slice_to_vec(file_data)))
            }
        } else {
            let sectors: usize = count_sectors(
                block_entry.size,
                self.archive_header.sector_size_shift,
            );
            let positions: usize = if block_entry.flags & MPQ_FILE_SECTOR_CRC != 0 {
                sectors + 2
            } else {
                sectors + 1
            };
            if file_data.len() < 4 * positions {
                return Err(MPQParserError::IncompleteData);
            }
            let data: Vec<u8> = Self::read_sectors(
                file_data,
                block_entry,
                sectors,
                force_decompress,
            )?;
            Ok((tail, data))
        }
    }

    /// What `read_mpq_file_sector` yields for the file named `name`: what
    /// reading its block yields, and no bytes where the archive has no such
    /// file.
    pub open spec fn spec_read(&self, name: Seq<char>, force_decompress: bool, input: Seq<u8>)
        -> Result<(Seq<u8>, Seq<u8>), ErrorModel> {
        match self.spec_entry(name) {
            Err(_) => Ok((input, Seq::empty())),
            Ok(entry) => if entry.block_table_index >= self.block_table_entries@.len() {
                Ok((input, Seq::empty()))
            } else {
                file_read(
                    input,
                    self.archive_header.offset,
                    self.archive_header.sector_size_shift,
                    self.block_table_entries@[entry.block_table_index as int],
                    force_decompress,
                )
            },
        }
    }

    /// Reads the file named `filename` out of `orig_input`, the input that
    /// the archive was opened from.
    ///
    /// A name that the hash table does not hold, or whose entry points
    /// outside the block table, yields no bytes and all of the input: no
    /// error tells a missing file from an empty one.
    pub fn read_mpq_file_sector<'a>(
        &self,
        filename: &str,
        force_decompress: bool,
        orig_input: &'a [u8],
    ) -> (r: MPQResult<&'a [u8], Vec<u8>>)
        ensures
            match r {
                Ok((tail, data)) => self.spec_read(filename@, force_decompress, orig_input@)
                    == Ok::<(Seq<u8>, Seq<u8>), ErrorModel>((tail@, data@)),
                Err(e) => self.spec_read(filename@, force_decompress, orig_input@) == Err::<
                    (Seq<u8>, Seq<u8>),
                    ErrorModel,
                >(e@),
            },
    {
        let hash_entry: MPQHashTableEntry = match self.get_hash_table_entry(filename) {
            Ok(entry) => entry,
            Err(_) => {
                return Ok((orig_input, Vec::new()));
            },
        };
        let index: usize = hash_entry.block_table_index as usize;
        if index >= self.block_table_entries.len() {
            return Ok((orig_input, Vec::new()));
        }
        let block_entry: MPQBlockTableEntry = self.block_table_entries[index];
        self.read_block(&block_entry, force_decompress, orig_input)
    }

    /// The size, once unpacked, of the file named `name`; nothing where the
    /// archive has no such file.
    pub open spec fn spec_size(&self, name: Seq<char>) -> Option<usize> {
        match self.spec_entry(name) {
            Ok(entry) => if entry.block_table_index < self.block_table_entries@.len() {
                Some(self.block_table_entries@[entry.block_table_index as int].size as usize)
            } else {
                None
            },
            Err(_) => None,
        }
    }

    /// The files among `names` that the archive holds, in the order of
    /// `names`, each with its size.
    pub open spec fn spec_listing(&self, names: Seq<Seq<char>>) -> Seq<(Seq<char>, usize)>
        decreases names.len(),
    {
        if names.len() == 0 {
            Seq::empty()
        } else {
            let before = self.spec_listing(names.drop_last());
            match self.spec_size(names.last()) {
                Some(size) => before.push((names.last(), size)),
                None => before,
            }
        }
    }

    /// The files that the archive lists: the lines of its file `(listfile)`,
    /// each with its size, without the lines that name no file of the
    /// archive.
    pub open spec fn spec_files(&self, input: Seq<u8>) -> Result<
        Seq<(Seq<char>, usize)>,
        ErrorModel,
    > {
        match self.spec_read("(listfile)"@, false, input) {
            Err(e) => Err(e),
            Ok((_, list)) => if valid_utf8(list) {
                Ok(self.spec_listing(lines_of(decode_utf8(list))))
            } else {
                Err(ErrorModel::InvalidUtf8)
            },
        }
    }

    /// Looks up each of `names` and gives those that the archive holds, in
    /// the same order, each with the size of its file once unpacked.
    pub fn list_files(&self, names: &Vec<String>) -> (files: Vec<(String, usize)>)
        ensures
            listing_view(files@) == self.spec_listing(texts_of(names@)),
    {
        let mut res: Vec<(String, usize)> = Vec::new();
        let mut i: usize = 0;
        while i < names.len()
            invariant
                i <= names@.len(),
                listing_view(res@) == self.spec_listing(texts_of(names@).take(i as int)),
            decreases names@.len() - i,
        {
            let ghost next = texts_of(names@).take(i + 1);
            proof {
                assert(next.drop_last() == texts_of(names@).take(i as int));
                assert(next.last() == names@[i as int]@);
            }
            let filename: String = names[i].clone();
            match self.get_hash_table_entry(filename.as_str()) {
                Ok(hash_entry) => {
                    let index: usize = hash_entry.block_table_index as usize;
                    if index < self.block_table_entries.len() {
                        let size: usize = self.block_table_entries[index].size as usize;
                        proof {
                            assert(listing_view(res@.push((filename, size))) == listing_view(
                                res@,
                            ).push((filename@, size)));
                        }
                        res.push((filename, size));
                    }
                },
                Err(_) => {},
            }
            i += 1;
        }
        proof {
            assert(texts_of(names@).take(names@.len() as int) == texts_of(names@));
        }
        res
    }

    /// Lists the files of the archive with their sizes: reads the file
    /// `(listfile)` out of `orig_input`, the input that the archive was
    /// opened from, and looks up each of its lines.
    ///
    /// A line that names no file of the archive is left out. A list that is
    /// not valid UTF-8 fails with `InvalidUtf8`.
    pub fn get_files(&self, orig_input: &[u8]) -> (r: Result<Vec<(String, usize)>, MPQParserError>)
        ensures
            match r {
                Ok(files) => self.spec_files(orig_input@) == Ok::<
                    Seq<(Seq<char>, usize)>,
                    ErrorModel,
                >(listing_view(files@)),
                Err(e) => self.spec_files(orig_input@) == Err::<
                    Seq<(Seq<char>, usize)>,
                    ErrorModel,
                >(e@),
            },
    {
        let (_, file_buffer) = self.read_mpq_file_sector("(listfile)", false, orig_input)?;
        let files: Vec<String> = match utf8_text(file_buffer.as_slice()) {
            Some(text) => split_lines(text),
            None => {
                return Err(MPQParserError::InvalidUtf8);
            },
        };
        Ok(self.list_files(&files))
    }
}

/// The mathematical value of a list of files with their sizes.
pub open spec fn listing_view(files: Seq<(String, usize)>) -> Seq<(Seq<char>, usize)> {
    Seq::new(files.len(), |i: int| (files[i].0@, files[i].1))
}

} // verus!
