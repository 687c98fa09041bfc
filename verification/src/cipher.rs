//! The encryption table, the string hash and the stream cipher, as
//! mathematics.
//!
//! All three work on unsigned 32-bit values. Sums are taken in the integers
//! and reduced modulo 2^32, which is what masking a wider sum to 32 bits
//! computes.
use vstd::prelude::*;
use crate::error::ErrorModel;
use crate::text::{
    ascii_lowercase, ascii_uppercase, ascii_uppercase_char, lemma_uppercase_absorbs_case, uppercase,
};
use vstd::utf8::is_ascii_chars;

verus! {

/// 2^32, the modulus of all sums.
pub open spec fn word_modulus() -> int {
    0x1_0000_0000
}

/// The `n`-th value of the generator that fills the encryption table:
/// it starts at `0x00100001`, and each value is 125 times the one before,
/// plus 3, modulo `0x2AAAAB`.
pub open spec fn generator_seed(n: nat) -> int
    decreases n,
{
    if n == 0 {
        0x0010_0001
    } else {
        (generator_seed((n - 1) as nat) * 125 + 3) % 0x2A_AAAB
    }
}

/// The entry of the encryption table at `index`, for `0 <= index < 1280`.
///
/// The table is filled in the order 0, 256, 512, 768, 1024, 1, 257, ...;
/// each entry takes two values of the generator, the low 16 bits of the
/// first as its high half and the low 16 bits of the second as its low half.
pub open spec fn encryption_table_entry(index: int) -> u32 {
    let pair = 5 * (index % 0x100) + index / 0x100;
    ((generator_seed((2 * pair + 1) as nat) % 0x1_0000) * 0x1_0000 + generator_seed(
        (2 * pair + 2) as nat,
    ) % 0x1_0000) as u32
}

/// The encryption table: 1280 entries, at the indices 0 to 1279.
pub open spec fn encryption_table_model() -> Map<u32, u32> {
    Map::new(|k: u32| k < 1280, |k: u32| encryption_table_entry(k as int))
}

/// The index in the encryption table that the hash in domain `domain` looks
/// up for the character `c`.
pub open spec fn hash_index(domain: u32, c: char) -> int {
    domain * 0x100 + c as u32
}

/// Whether the table has an entry for every character of `chars` in the
/// domain `domain`.
pub open spec fn hashable(table: Map<u32, u32>, domain: u32, chars: Seq<char>) -> bool {
    forall|i: int|
        0 <= i < chars.len() ==> table.contains_key(#[trigger] hash_index(domain, chars[i]) as u32)
}

/// One step of the string hash: the two accumulators after a character with
/// the code `code`, for which the table holds `entry`.
pub open spec fn hash_mix(entry: u32, state: (u32, u32), code: u32) -> (u32, u32) {
    let (seed1, seed2) = state;
    let next1 = entry ^ (((seed1 + seed2) % word_modulus()) as u32);
    let next2 = ((code + next1 + seed2 + seed2 * 32 + 3) % word_modulus()) as u32;
    (next1, next2)
}

/// One step of the string hash: the two accumulators after the character `c`.
pub open spec fn hash_step(table: Map<u32, u32>, domain: u32, state: (u32, u32), c: char) -> (
    u32,
    u32,
) {
    hash_mix(table[hash_index(domain, c) as u32], state, c as u32)
}

/// The two accumulators of the string hash after all of `chars`.
pub open spec fn hash_state(table: Map<u32, u32>, domain: u32, chars: Seq<char>) -> (u32, u32)
    decreases chars.len(),
{
    if chars.len() == 0 {
        (0x7FED_7FED, 0xEEEE_EEEE)
    } else {
        hash_step(table, domain, hash_state(table, domain, chars.drop_last()), chars.last())
    }
}

/// The hash of `chars`, which are taken as they are, in the domain `domain`.
pub open spec fn hash_of_chars(table: Map<u32, u32>, domain: u32, chars: Seq<char>) -> u32 {
    hash_state(table, domain, chars).0
}

/// The hash of the name `name` in the domain `domain`: the hash of the
/// characters of its upper-case form, or `UnhashableCharacter` where the
/// table lacks an entry for one of them.
pub open spec fn string_hash(table: Map<u32, u32>, name: Seq<char>, domain: u32) -> Result<
    u32,
    ErrorModel,
> {
    if hashable(table, domain, uppercase(name)) {
        Ok(hash_of_chars(table, domain, uppercase(name)))
    } else {
        Err(ErrorModel::UnhashableCharacter)
    }
}

/// The index in the encryption table that the cipher looks up while its
/// first state word is `seed1`.
pub open spec fn cipher_index(seed1: u32) -> u32 {
    (0x400 + (seed1 & 0xFF)) as u32
}

/// The first state word of the cipher after one more word.
pub open spec fn cipher_next_seed1(seed1: u32) -> u32 {
    ((((!seed1) << 21) + 0x1111_1111) % word_modulus()) as u32 | (seed1 >> 11)
}

/// The second state word while a word is handled: the one before, plus the
/// table's entry `entry` for the first state word.
pub open spec fn cipher_mixed_seed2(entry: u32, seed2: u32) -> u32 {
    ((seed2 + entry) % word_modulus()) as u32
}

/// The word that is combined by exclusive or with a word of the text, where
/// the table holds `entry` for the first state word.
pub open spec fn cipher_mix(entry: u32, state: (u32, u32)) -> u32 {
    ((state.0 + cipher_mixed_seed2(entry, state.1)) % word_modulus()) as u32
}

/// The state of the cipher after a word whose plain value is `plain`, where
/// the table holds `entry` for the first state word.
pub open spec fn cipher_advance(entry: u32, state: (u32, u32), plain: u32) -> (u32, u32) {
    let mixed = cipher_mixed_seed2(entry, state.1);
    (cipher_next_seed1(state.0), ((plain + mixed + mixed * 32 + 3) % word_modulus()) as u32)
}

/// The word that is combined by exclusive or with a word of the text.
pub open spec fn cipher_mask(table: Map<u32, u32>, state: (u32, u32)) -> u32 {
    cipher_mix(table[cipher_index(state.0)], state)
}

/// The state of the cipher after a word whose plain value is `plain`.
pub open spec fn cipher_next_state(table: Map<u32, u32>, state: (u32, u32), plain: u32) -> (
    u32,
    u32,
) {
    cipher_advance(table[cipher_index(state.0)], state, plain)
}

/// The state of the cipher that starts from `key`, after the words whose
/// plain values are `plain`.
pub open spec fn cipher_state(table: Map<u32, u32>, key: u32, plain: Seq<u32>) -> (u32, u32)
    decreases plain.len(),
{
    if plain.len() == 0 {
        (key, 0xEEEE_EEEE)
    } else {
        cipher_next_state(table, cipher_state(table, key, plain.drop_last()), plain.last())
    }
}

/// The plain words of the encrypted words `cipher` under `key`, up to the
/// `n`-th.
pub open spec fn decrypt_words_upto(table: Map<u32, u32>, key: u32, cipher: Seq<u32>, n: int) -> Seq<
    u32,
>
    decreases n,
{
    if n <= 0 {
        Seq::empty()
    } else {
        let before = decrypt_words_upto(table, key, cipher, n - 1);
        before.push(cipher[n - 1] ^ cipher_mask(table, cipher_state(table, key, before)))
    }
}

/// The plain words of the encrypted words `cipher` under `key`.
pub open spec fn decrypt_words(table: Map<u32, u32>, key: u32, cipher: Seq<u32>) -> Seq<u32> {
    decrypt_words_upto(table, key, cipher, cipher.len() as int)
}

/// The encrypted words of the plain words `plain` under `key`.
pub open spec fn encrypt_words(table: Map<u32, u32>, key: u32, plain: Seq<u32>) -> Seq<u32> {
    Seq::new(
        plain.len(),
        |i: int| plain[i] ^ cipher_mask(table, cipher_state(table, key, plain.take(i))),
    )
}

/// Whether the table has every entry that the cipher looks up from `key` on
/// for `words` words. Which entries these are depends on the key alone.
pub open spec fn decryptable(table: Map<u32, u32>, key: u32, words: int) -> bool {
    forall|i: int|
        0 <= i < words ==> table.contains_key(cipher_index(#[trigger] cipher_seed1(key, i)))
}

/// The first state word of the cipher that starts from `key`, after `i`
/// words.
pub open spec fn cipher_seed1(key: u32, i: int) -> u32
    decreases i,
{
    if i <= 0 {
        key
    } else {
        cipher_next_seed1(cipher_seed1(key, i - 1))
    }
}

/// The 32-bit words that the bytes `data` hold, little-endian, four bytes
/// each; up to three bytes at the end belong to no word.
pub open spec fn words_of_bytes(data: Seq<u8>) -> Seq<u32> {
    Seq::new((data.len() / 4) as nat, |i: int| crate::bytes::u32_le_at(data, 4 * i))
}

/// The byte of `word` at place `k`, counted from the low end.
pub open spec fn byte_of_word(word: u32, k: int) -> u8 {
    if k == 0 {
        (word % 0x100) as u8
    } else if k == 1 {
        (word / 0x100 % 0x100) as u8
    } else if k == 2 {
        (word / 0x1_0000 % 0x100) as u8
    } else {
        (word / 0x100_0000 % 0x100) as u8
    }
}

/// The bytes of `words`, little-endian, four for each.
pub open spec fn bytes_of_words(words: Seq<u32>) -> Seq<u8> {
    Seq::new(4 * words.len(), |i: int| byte_of_word(words[i / 4], i % 4))
}

/// The plain bytes of the encrypted bytes `data` under `key`: the words of
/// `data` decrypted. Bytes at the end of `data` that fill no word are left
/// out.
pub open spec fn decrypt_bytes(table: Map<u32, u32>, key: u32, data: Seq<u8>) -> Seq<u8> {
    bytes_of_words(decrypt_words(table, key, words_of_bytes(data)))
}

/// What decryption of `data` under `key` gives: the plain bytes, or
/// `DecryptionFailed` where the table lacks an entry that the cipher needs.
pub open spec fn decrypt_result(table: Map<u32, u32>, key: u32, data: Seq<u8>) -> Result<
    Seq<u8>,
    ErrorModel,
> {
    if decryptable(table, key, data.len() as int / 4) {
        Ok(decrypt_bytes(table, key, data))
    } else {
        Err(ErrorModel::DecryptionFailed(key))
    }
}

/// The encrypted bytes of the plain bytes `data` under `key`.
pub open spec fn encrypt_bytes(table: Map<u32, u32>, key: u32, data: Seq<u8>) -> Seq<u8> {
    bytes_of_words(encrypt_words(table, key, words_of_bytes(data)))
}

/// The low 16 bits of one generator value over the low 16 bits of the next
/// give a table entry.
pub(crate) proof fn lemma_table_entry_bits(first: u32, second: u32)
    ensures
        ((first & 0xFFFF) << 16) | (second & 0xFFFF) == (first % 0x1_0000) * 0x1_0000 + second
            % 0x1_0000,
{
    assert(((first & 0xFFFF) << 16) | (second & 0xFFFF) == (first % 0x1_0000) * 0x1_0000 + second
        % 0x1_0000) by (bit_vector);
}

/// One step of the string hash, in 64-bit sums that are masked to 32 bits.
pub(crate) fn hash_char(entry: u32, state: (u32, u32), code: u32) -> (next: (u32, u32))
    ensures
        next == hash_mix(entry, state, code),
{
    let seed1: u64 = state.0 as u64;
    let seed2: u64 = state.1 as u64;
    let sum: u64 = seed1 + seed2;
    let next1: u64 = (entry as u64 ^ sum) & 0xFFFFFFFFu64;
    assert(next1 == (entry ^ ((sum % 0x1_0000_0000) as u32)) as u64) by (bit_vector)
        requires
            next1 == (entry as u64 ^ sum) & 0xFFFFFFFFu64,
    ;
    let shifted: u64 = seed2 << 5;
    assert(shifted == seed2 * 32) by (bit_vector)
        requires
            shifted == seed2 << 5,
            seed2 < 0x1_0000_0000,
    ;
    let total: u64 = code as u64 + next1 + seed2 + shifted + 3;
    let next2: u64 = total & 0xFFFFFFFFu64;
    assert(next2 == total % 0x1_0000_0000) by (bit_vector)
        requires
            next2 == total & 0xFFFFFFFFu64,
    ;
    (next1 as u32, next2 as u32)
}

/// One step of the cipher, in 64-bit sums that are masked to 32 bits: the
/// plain word of `value`, and the state after it.
pub(crate) fn decrypt_word(entry: u32, state: (u32, u32), value: u32) -> (r: (u32, (u32, u32)))
    ensures
        r.0 == value ^ cipher_mix(entry, state),
        r.1 == cipher_advance(entry, state, r.0),
{
    let seed1: u64 = state.0 as u64;
    let entered: u64 = state.1 as u64 + entry as u64;
    let seed2: u64 = entered & 0xFFFFFFFFu64;
    assert(seed2 == entered % 0x1_0000_0000) by (bit_vector)
        requires
            seed2 == entered & 0xFFFFFFFFu64,
    ;
    let sum: u64 = seed1 + seed2;
    let plain: u64 = (value as u64 ^ sum) & 0xFFFFFFFFu64;
    assert(plain == (value ^ ((sum % 0x1_0000_0000) as u32)) as u64) by (bit_vector)
        requires
            plain == (value as u64 ^ sum) & 0xFFFFFFFFu64,
    ;
    let next1: u32 = ((!state.0) << 0x15).wrapping_add(0x11111111) | (state.0 >> 0x0B);
    let shifted: u64 = seed2 << 5;
    assert(shifted == seed2 * 32) by (bit_vector)
        requires
            shifted == seed2 << 5,
            seed2 < 0x1_0000_0000,
    ;
    let total: u64 = plain + seed2 + shifted + 3;
    let next2: u64 = total & 0xFFFFFFFFu64;
    assert(next2 == total % 0x1_0000_0000) by (bit_vector)
        requires
            next2 == total & 0xFFFFFFFFu64,
    ;
    (plain as u32, (next1, next2 as u32))
}

/// The low byte of a word selects one of 256 entries of the table.
pub(crate) proof fn lemma_low_byte(seed1: u32)
    ensures
        seed1 & 0xFF <= 0xFF,
{
    assert(seed1 & 0xFF <= 0xFF) by (bit_vector);
}

/// The encryption table has an entry for every ASCII character in each of
/// the four domains: a name of ASCII characters alone can be hashed.
pub proof fn lemma_ascii_name_hashable(name: Seq<char>, domain: u32)
    requires
        is_ascii_chars(name),
        domain <= 3,
    ensures
        hashable(encryption_table_model(), domain, uppercase(name)),
        string_hash(encryption_table_model(), name, domain) == Ok::<u32, ErrorModel>(
            hash_of_chars(encryption_table_model(), domain, uppercase(name)),
        ),
{
    let upper = uppercase(name);
    assert forall|i: int| 0 <= i < upper.len() implies encryption_table_model().contains_key(
        #[trigger] hash_index(domain, upper[i]) as u32,
    ) by {
        let c = name[i];
        assert(upper[i] == ascii_uppercase_char(c));
        assert('\0' <= c <= '\u{7f}');
        assert(upper[i] as u32 <= 0x7F);
    }
}

/// The encryption table has every entry that the cipher can look up, so
/// that decryption with it never fails. The plain bytes are as many as the
/// bytes of the words of the input.
pub proof fn lemma_table_decrypts(key: u32, data: Seq<u8>)
    ensures
        decrypt_result(encryption_table_model(), key, data) == Ok::<Seq<u8>, ErrorModel>(
            decrypt_bytes(encryption_table_model(), key, data),
        ),
        decrypt_bytes(encryption_table_model(), key, data).len() == 4 * (data.len() / 4),
{
    let table = encryption_table_model();
    assert forall|i: int| 0 <= i < data.len() as int / 4 implies table.contains_key(
        cipher_index(#[trigger] cipher_seed1(key, i)),
    ) by {
        lemma_low_byte(cipher_seed1(key, i));
    }
    lemma_decrypt_state(table, key, words_of_bytes(data), data.len() as int / 4);
}

/// The bytes of a row of words with one more word are the bytes of the row
/// and then the four bytes of that word.
pub proof fn lemma_bytes_of_words_push(words: Seq<u32>, word: u32)
    ensures
        bytes_of_words(words.push(word)) == bytes_of_words(words).push(byte_of_word(word, 0)).push(
            byte_of_word(word, 1),
        ).push(byte_of_word(word, 2)).push(byte_of_word(word, 3)),
{
    let longer = bytes_of_words(words.push(word));
    let pushed = bytes_of_words(words).push(byte_of_word(word, 0)).push(
        byte_of_word(word, 1),
    ).push(byte_of_word(word, 2)).push(byte_of_word(word, 3));
    assert(longer.len() == pushed.len());
    assert forall|i: int| 0 <= i < longer.len() implies longer[i] == pushed[i] by {
        if i < 4 * words.len() {
            assert(i / 4 < words.len());
            assert(words.push(word)[i / 4] == words[i / 4]);
        } else {
            assert(i / 4 == words.len());
            assert(i % 4 == i - 4 * words.len());
        }
    }
    assert(longer =~= pushed);
}

/// Decrypting one word more: the plain words so far, and then the next
/// encrypted word combined with the mask of the state that the plain words
/// so far lead to. The state after it follows from that state and the new
/// plain word.
pub proof fn lemma_decrypt_one_more(table: Map<u32, u32>, key: u32, cipher: Seq<u32>, n: int)
    requires
        0 <= n,
    ensures
        ({
            let before = decrypt_words_upto(table, key, cipher, n);
            let state = cipher_state(table, key, before);
            let plain = cipher[n] ^ cipher_mask(table, state);
            &&& decrypt_words_upto(table, key, cipher, n + 1) == before.push(plain)
            &&& cipher_state(table, key, before.push(plain)) == cipher_next_state(
                table,
                state,
                plain,
            )
        }),
{
    let before = decrypt_words_upto(table, key, cipher, n);
    let state = cipher_state(table, key, before);
    let plain = cipher[n] ^ cipher_mask(table, state);
    assert(before.push(plain).drop_last() == before);
    assert(before.push(plain).last() == plain);
}

/// After `n` words the plain words so far are `n` in number, and the first
/// state word is the one that the key alone leads to.
pub proof fn lemma_decrypt_state(table: Map<u32, u32>, key: u32, cipher: Seq<u32>, n: int)
    requires
        0 <= n,
    ensures
        decrypt_words_upto(table, key, cipher, n).len() == n,
        cipher_state(table, key, decrypt_words_upto(table, key, cipher, n)).0 == cipher_seed1(
            key,
            n,
        ),
    decreases n,
{
    if n > 0 {
        lemma_decrypt_state(table, key, cipher, n - 1);
        lemma_decrypt_one_more(table, key, cipher, n - 1);
    }
}

/// The hash does not tell upper case from lower case: a name of ASCII
/// characters, its lower-case form and its upper-case form have the same
/// hash in every domain, whatever the table.
pub proof fn lemma_hash_ignores_case(table: Map<u32, u32>, name: Seq<char>, domain: u32)
    requires
        is_ascii_chars(name),
    ensures
        string_hash(table, ascii_lowercase(name), domain) == string_hash(
            table,
            ascii_uppercase(name),
            domain,
        ),
        string_hash(table, ascii_lowercase(name), domain) == string_hash(table, name, domain),
{
    lemma_uppercase_absorbs_case(name);
}

/// The four bytes of a word, read as a little-endian word, are the word.
proof fn lemma_word_of_its_bytes(word: u32)
    ensures
        byte_of_word(word, 0) + 0x100 * byte_of_word(word, 1) + 0x1_0000 * byte_of_word(word, 2)
            + 0x100_0000 * byte_of_word(word, 3) == word,
{
    let b0 = word % 0x100;
    let b1 = word / 0x100 % 0x100;
    let b2 = word / 0x1_0000 % 0x100;
    let b3 = word / 0x100_0000 % 0x100;
    assert(b0 + 0x100 * b1 + 0x1_0000 * b2 + 0x100_0000 * b3 == word) by (bit_vector)
        requires
            b0 == word % 0x100,
            b1 == word / 0x100 % 0x100,
            b2 == word / 0x1_0000 % 0x100,
            b3 == word / 0x100_0000 % 0x100,
    ;
}

/// The bytes of the little-endian word of four bytes are the four bytes.
proof fn lemma_bytes_of_their_word(b0: u8, b1: u8, b2: u8, b3: u8)
    ensures
        ({
            let word = (b0 as int + 0x100 * b1 as int + 0x1_0000 * b2 as int + 0x100_0000
                * b3 as int) as u32;
            &&& byte_of_word(word, 0) == b0
            &&& byte_of_word(word, 1) == b1
            &&& byte_of_word(word, 2) == b2
            &&& byte_of_word(word, 3) == b3
        }),
{
    let sum = b0 as int + 0x100 * b1 as int + 0x1_0000 * b2 as int + 0x100_0000 * b3 as int;
    assert(0 <= sum < 0x1_0000_0000);
    let word = sum as u32;
    assert(word % 0x100 == b0);
    assert(word / 0x100 == b1 as int + 0x100 * b2 as int + 0x1_0000 * b3 as int);
    assert(word / 0x1_0000 == b2 as int + 0x100 * b3 as int);
    assert(word / 0x100_0000 == b3 as int);
}

/// A row of words written as bytes and read back is the same row.
pub proof fn lemma_words_of_their_bytes(words: Seq<u32>)
    ensures
        words_of_bytes(bytes_of_words(words)) == words,
{
    let bytes = bytes_of_words(words);
    assert(bytes.len() == 4 * words.len());
    assert(words_of_bytes(bytes).len() == words.len());
    assert forall|i: int| 0 <= i < words.len() implies words_of_bytes(bytes)[i] == words[i] by {
        let word = words[i];
        lemma_word_of_its_bytes(word);
        assert(bytes[4 * i] == byte_of_word(words[(4 * i) / 4], (4 * i) % 4));
        assert(bytes[4 * i + 1] == byte_of_word(words[(4 * i + 1) / 4], (4 * i + 1) % 4));
        assert(bytes[4 * i + 2] == byte_of_word(words[(4 * i + 2) / 4], (4 * i + 2) % 4));
        assert(bytes[4 * i + 3] == byte_of_word(words[(4 * i + 3) / 4], (4 * i + 3) % 4));
    }
    assert(words_of_bytes(bytes) =~= words);
}

/// Bytes that fill whole words, read as words and written back, are the
/// same bytes.
pub proof fn lemma_bytes_of_their_words(data: Seq<u8>)
    requires
        data.len() % 4 == 0,
    ensures
        bytes_of_words(words_of_bytes(data)) == data,
{
    let words = words_of_bytes(data);
    let back = bytes_of_words(words);
    assert(back.len() == data.len());
    assert forall|i: int| 0 <= i < data.len() implies back[i] == data[i] by {
        let j = i / 4;
        let k = i % 4;
        assert(i == 4 * j + k);
        lemma_bytes_of_their_word(data[4 * j], data[4 * j + 1], data[4 * j + 2], data[4 * j + 3]);
        assert(words[j] == crate::bytes::u32_le_at(data, 4 * j));
        assert(back[i] == byte_of_word(words[j], k));
    }
    assert(back =~= data);
}

/// Taking the exclusive or with the same mask twice gives the word back.
proof fn lemma_xor_twice(word: u32, mask: u32)
    ensures
        (word ^ mask) ^ mask == word,
{
    assert((word ^ mask) ^ mask == word) by (bit_vector);
}

/// Decrypting the first `n` words of what encryption made of `plain` gives
/// the first `n` words of `plain`.
proof fn lemma_decrypt_encrypted_upto(table: Map<u32, u32>, key: u32, plain: Seq<u32>, n: int)
    requires
        0 <= n <= plain.len(),
    ensures
        decrypt_words_upto(table, key, encrypt_words(table, key, plain), n) == plain.take(n),
    decreases n,
{
    let cipher = encrypt_words(table, key, plain);
    if n > 0 {
        lemma_decrypt_encrypted_upto(table, key, plain, n - 1);
        lemma_decrypt_one_more(table, key, cipher, n - 1);
        let before = plain.take(n - 1);
        let mask = cipher_mask(table, cipher_state(table, key, before));
        lemma_xor_twice(plain[n - 1], mask);
        assert(before.push(plain[n - 1]) =~= plain.take(n));
    } else {
        assert(plain.take(0) =~= Seq::<u32>::empty());
    }
}

/// Decryption undoes encryption under the same key, word for word,
/// whatever the table.
pub proof fn lemma_decrypt_words_inverts_encrypt(table: Map<u32, u32>, key: u32, plain: Seq<u32>)
    ensures
        decrypt_words(table, key, encrypt_words(table, key, plain)) == plain,
{
    lemma_decrypt_encrypted_upto(table, key, plain, plain.len() as int);
    assert(plain.take(plain.len() as int) =~= plain);
}

/// Decryption undoes encryption under the same key: for bytes that fill
/// whole 32-bit words, and so for every table of 16-byte entries, decrypting
/// what encryption made of them gives the bytes back. With the encryption
/// table, decryption does not fail.
pub proof fn lemma_decrypt_inverts_encrypt(table: Map<u32, u32>, key: u32, data: Seq<u8>)
    requires
        data.len() % 4 == 0,
    ensures
        decrypt_bytes(table, key, encrypt_bytes(table, key, data)) == data,
        decrypt_result(
            encryption_table_model(),
            key,
            encrypt_bytes(encryption_table_model(), key, data),
        ) == Ok::<Seq<u8>, ErrorModel>(data),
{
    let plain = words_of_bytes(data);
    lemma_bytes_of_their_words(data);
    lemma_words_of_their_bytes(encrypt_words(table, key, plain));
    lemma_decrypt_words_inverts_encrypt(table, key, plain);
    let model = encryption_table_model();
    lemma_words_of_their_bytes(encrypt_words(model, key, plain));
    lemma_decrypt_words_inverts_encrypt(model, key, plain);
    lemma_table_decrypts(key, encrypt_bytes(model, key, data));
}

} // verus!
