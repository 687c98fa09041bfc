//! Putting an archive together piece by piece, as its sections are read.
use vstd::prelude::*;
use std::collections::HashMap;
use crate::cipher::{decrypt_result, encryption_table_model, string_hash};
use crate::error::{ErrorModel, MPQParserError, MPQResult};
use crate::parser::{
    MPQBlockTableEntry, MPQFileHeader, MPQHashTableEntry, MPQHashType, MPQUserData,
};
use crate::MPQ;

verus! {

/// An archive in the making. It holds the encryption table from the start,
/// so that names can be hashed and tables decrypted before the archive is
/// complete.
#[derive(Debug)]
pub struct MPQBuilder {
    /// The archive header. Every archive has one: without it `build` fails.
    pub archive_header: Option<MPQFileHeader>,
    /// The user data section; not every archive has one.
    pub user_data: Option<MPQUserData>,
    /// The hash table.
    pub hash_table_entries: Vec<MPQHashTableEntry>,
    /// The block table.
    pub block_table_entries: Vec<MPQBlockTableEntry>,
    /// The encryption table, which the finished archive takes over.
    pub encryption_table: HashMap<u32, u32>,
}

impl MPQBuilder {
    /// A builder with no section yet, and with the encryption table.
    pub fn new() -> (r: Self)
        ensures
            r.archive_header is None,
            r.user_data is None,
            r.hash_table_entries@.len() == 0,
            r.block_table_entries@.len() == 0,
            r.encryption_table@ == encryption_table_model(),
    {
        Self {
            archive_header: None,
            user_data: None,
            hash_table_entries: Vec::new(),
            block_table_entries: Vec::new(),
            encryption_table: MPQ::prepare_encryption_table(),
        }
    }

    /// Sets the archive header.
    pub fn with_archive_header(self, archive_header: MPQFileHeader) -> (r: Self)
        ensures
            r.archive_header == Some(archive_header),
            r.user_data == self.user_data,
            r.hash_table_entries == self.hash_table_entries,
            r.block_table_entries == self.block_table_entries,
            r.encryption_table == self.encryption_table,
    {
        Self {
            archive_header: Some(archive_header),
            user_data: self.user_data,
            hash_table_entries: self.hash_table_entries,
            block_table_entries: self.block_table_entries,
            encryption_table: self.encryption_table,
        }
    }

    /// Sets the user data section, or takes it away.
    pub fn with_user_data(self, user_data: Option<MPQUserData>) -> (r: Self)
        ensures
            r.archive_header == self.archive_header,
            r.user_data == user_data,
            r.hash_table_entries == self.hash_table_entries,
            r.block_table_entries == self.block_table_entries,
            r.encryption_table == self.encryption_table,
    {
        Self {
            archive_header: self.archive_header,
            user_data,
            hash_table_entries: self.hash_table_entries,
            block_table_entries: self.block_table_entries,
            encryption_table: self.encryption_table,
        }
    }

    /// Sets the hash table.
    pub fn with_hash_table(self, entries: Vec<MPQHashTableEntry>) -> (r: Self)
        ensures
            r.archive_header == self.archive_header,
            r.user_data == self.user_data,
            r.hash_table_entries == entries,
            r.block_table_entries == self.block_table_entries,
            r.encryption_table == self.encryption_table,
    {
        Self {
            archive_header: self.archive_header,
            user_data: self.user_data,
            hash_table_entries: entries,
            block_table_entries: self.block_table_entries,
            encryption_table: self.encryption_table,
        }
    }

    /// Sets the block table.
    pub fn with_block_table(self, entries: Vec<MPQBlockTableEntry>) -> (r: Self)
        ensures
            r.archive_header == self.archive_header,
            r.user_data == self.user_data,
            r.hash_table_entries == self.hash_table_entries,
            r.block_table_entries == entries,
            r.encryption_table == self.encryption_table,
    {
        Self {
            archive_header: self.archive_header,
            user_data: self.user_data,
            hash_table_entries: self.hash_table_entries,
            block_table_entries: entries,
            encryption_table: self.encryption_table,
        }
    }

    /// Hashes the name `location` in the domain `hash_type`, with the
    /// builder's encryption table.
    pub fn mpq_string_hash(&self, location: &str, hash_type: MPQHashType) -> (r: Result<
        u32,
        MPQParserError,
    >)
        ensures
            match r {
                Ok(hash) => string_hash(self.encryption_table@, location@, hash_type.spec_index())
                    == Ok::<u32, ErrorModel>(hash),
                Err(e) => string_hash(self.encryption_table@, location@, hash_type.spec_index())
                    == Err::<u32, ErrorModel>(e@),
            },
    {
        MPQ::mpq_string_hash(&self.encryption_table, location, hash_type)
    }

    /// Decrypts `data` under `key`, with the builder's encryption table;
    /// `data` itself is handed back beside the plain bytes.
    pub fn mpq_data_decrypt<'a>(&self, data: &'a [u8], key: u32) -> (r: MPQResult<
        &'a [u8],
        Vec<u8>,
    >)
        ensures
            match r {
                Ok((tail, plain)) => tail@ == data@ && decrypt_result(
                    self.encryption_table@,
                    key,
                    data@,
                ) == Ok::<Seq<u8>, ErrorModel>(plain@),
                Err(e) => decrypt_result(self.encryption_table@, key, data@) == Err::<
                    Seq<u8>,
                    ErrorModel,
                >(e@),
            },
    {
        MPQ::mpq_data_decrypt(&self.encryption_table, data, key)
    }

    /// Turns the builder into the archive. It fails, with a message, where
    /// no archive header was set.
    pub fn build(self, _orig_input: &[u8]) -> (r: Result<MPQ, String>)
        ensures
            match r {
                Ok(mpq) => self.archive_header == Some(mpq.archive_header) && mpq.user_data
                    == self.user_data && mpq.hash_table_entries == self.hash_table_entries
                    && mpq.block_table_entries == self.block_table_entries && mpq.encryption_table
                    == self.encryption_table,
                Err(message) => self.archive_header is None && message@
                    == "Missing archive header"@,
            },
    {
        let archive_header: MPQFileHeader = match self.archive_header {
            Some(archive_header) => archive_header,
            None => {
                return Err("Missing archive header".to_owned());
            },
        };
        Ok(
            MPQ {
                archive_header,
                user_data: self.user_data,
                hash_table_entries: self.hash_table_entries,
                block_table_entries: self.block_table_entries,
                encryption_table: self.encryption_table,
            },
        )
    }
}

} // verus!
