//! Finding a file's entry in the hash table, as mathematics.
use vstd::prelude::*;
use crate::cipher::string_hash;
use crate::error::ErrorModel;
use crate::parser::MPQHashTableEntry;

verus! {

/// The block index of a slot that was never used. It ends a search.
pub const HASH_ENTRY_EMPTY: u32 = 0xFFFF_FFFF;

/// The block index of a slot whose file was deleted. A search passes it.
pub const HASH_ENTRY_DELETED: u32 = 0xFFFF_FFFE;

/// The slot that is looked at `k` steps after the home slot `home`: the
/// search wraps round at the end of the table.
pub open spec fn probed_slot(len: int, home: int, k: int) -> int {
    (home + k) % len
}

/// The outcome of the search from its `k`-th step on: the first entry, in
/// the order of the search, that is in use and has both hashes. The search
/// ends without an entry at a slot that was never used, and when it has
/// looked at every slot.
pub open spec fn probe(
    entries: Seq<MPQHashTableEntry>,
    hash_a: u32,
    hash_b: u32,
    home: int,
    k: int,
) -> Option<MPQHashTableEntry>
    decreases entries.len() - k,
{
    if k < 0 || k >= entries.len() {
        None
    } else {
        let entry = entries[probed_slot(entries.len() as int, home, k)];
        if entry.block_table_index == HASH_ENTRY_EMPTY {
            None
        } else if entry.block_table_index != HASH_ENTRY_DELETED && entry.hash_a == hash_a
            && entry.hash_b == hash_b {
            Some(entry)
        } else {
            probe(entries, hash_a, hash_b, home, k + 1)
        }
    }
}

/// The entry of the file named `name`: the outcome of the search that starts
/// at the name's home slot, which is its hash in domain 0 modulo the length
/// of the table, for the name's hashes in the domains 1 and 2.
pub open spec fn entry_of_name(
    table: Map<u32, u32>,
    entries: Seq<MPQHashTableEntry>,
    name: Seq<char>,
) -> Result<MPQHashTableEntry, ErrorModel> {
    match (string_hash(table, name, 1), string_hash(table, name, 2), string_hash(table, name, 0)) {
        (Ok(hash_a), Ok(hash_b), Ok(offset)) => {
            if entries.len() == 0 {
                Err(ErrorModel::HashTableEntryNotFound(name))
            } else {
                match probe(entries, hash_a, hash_b, offset as int % entries.len() as int, 0) {
                    Some(entry) => Ok(entry),
                    None => Err(ErrorModel::HashTableEntryNotFound(name)),
                }
            }
        },
        _ => Err(ErrorModel::UnhashableCharacter),
    }
}

/// What the search finds is an entry of the table that is in use and has
/// both hashes.
pub proof fn lemma_probe_finds_a_match(
    entries: Seq<MPQHashTableEntry>,
    hash_a: u32,
    hash_b: u32,
    home: int,
    k: int,
)
    requires
        0 <= home,
        0 <= k,
    ensures
        match probe(entries, hash_a, hash_b, home, k) {
            Some(entry) => {
                &&& entries.contains(entry)
                &&& entry.hash_a == hash_a
                &&& entry.hash_b == hash_b
                &&& entry.block_table_index != HASH_ENTRY_EMPTY
                &&& entry.block_table_index != HASH_ENTRY_DELETED
            },
            None => true,
        },
    decreases entries.len() - k,
{
    if k < entries.len() {
        let slot = probed_slot(entries.len() as int, home, k);
        assert(0 <= slot < entries.len());
        let entry = entries[slot];
        if entry.block_table_index == HASH_ENTRY_EMPTY {
        } else if entry.block_table_index != HASH_ENTRY_DELETED && entry.hash_a == hash_a
            && entry.hash_b == hash_b {
        } else {
            lemma_probe_finds_a_match(entries, hash_a, hash_b, home, k + 1);
        }
    }
}

/// A name whose home slot holds an entry in use with both its hashes is
/// found there.
pub proof fn lemma_found_at_home(
    entries: Seq<MPQHashTableEntry>,
    hash_a: u32,
    hash_b: u32,
    home: int,
)
    requires
        0 <= home < entries.len(),
        entries[home].hash_a == hash_a,
        entries[home].hash_b == hash_b,
        entries[home].block_table_index != HASH_ENTRY_EMPTY,
        entries[home].block_table_index != HASH_ENTRY_DELETED,
    ensures
        probe(entries, hash_a, hash_b, home, 0) == Some(entries[home]),
{
    vstd::arithmetic::div_mod::lemma_small_mod(home as nat, entries.len());
}

} // verus!
