//! What extracting a file from its block yields, as mathematics.
//!
//! A block is either one unit or a row of sectors. A row of sectors starts
//! with a table of positions, one more than there are sectors: sector `i`
//! lies between position `i` and position `i + 1`, both counted from the
//! start of the block.
use vstd::prelude::*;
use vstd::arithmetic::power2::pow2;
use crate::bytes::u32_le_at;
use crate::codec::{bzip2_decoded, zlib_inflated};
use crate::error::ErrorModel;
use crate::parser::MPQBlockTableEntry;
use crate::{
    COMPRESSION_BZ2, COMPRESSION_PLAINTEXT, COMPRESSION_ZLIB, MPQ_FILE_COMPRESS,
    MPQ_FILE_ENCRYPTED, MPQ_FILE_EXISTS, MPQ_FILE_SECTOR_CRC, MPQ_FILE_SINGLE_UNIT,
};

verus! {

/// Whether `flag` is set in `flags`.
pub open spec fn has_flag(flags: u32, flag: u32) -> bool {
    flags & flag != 0
}

/// What a decoder's outcome means to the library: the bytes, or the error
/// `Codec` with the decoder's message.
pub open spec fn codec_result(decoded: Result<Seq<u8>, Seq<char>>) -> Result<
    Seq<u8>,
    ErrorModel,
> {
    match decoded {
        Ok(data) => Ok(data),
        Err(message) => Err(ErrorModel::Codec(message)),
    }
}

/// The bytes that a compressed payload stands for. Its first byte is the
/// compression tag: 0 for bytes stored as they are, 2 for zlib, 16 for bzip2.
pub open spec fn decompressed(input: Seq<u8>) -> Result<Seq<u8>, ErrorModel> {
    if input.len() == 0 {
        Err(ErrorModel::IncompleteData)
    } else if input[0] == COMPRESSION_PLAINTEXT {
        Ok(input.skip(1))
    } else if input[0] == COMPRESSION_ZLIB {
        codec_result(zlib_inflated(input.skip(1)))
    } else if input[0] == COMPRESSION_BZ2 {
        codec_result(bzip2_decoded(input.skip(1)))
    } else {
        Err(ErrorModel::UnsupportedCompression(input[0]))
    }
}

/// The number of bytes of a logical sector: 512 times 2 to the power of the
/// header's shift.
pub open spec fn sector_size(sector_size_shift: u16) -> int {
    512 * (pow2(sector_size_shift as nat) as int)
}

/// The number of sectors of a file of `size` bytes: one for each full
/// sector, and one more.
pub open spec fn sector_count(size: u32, sector_size_shift: u16) -> int {
    size as int / sector_size(sector_size_shift) + 1
}

/// The number of entries of the position table: one more than there are
/// sectors, and one more again where the block carries checksums.
pub open spec fn position_count(entry: MPQBlockTableEntry, sector_size_shift: u16) -> int {
    sector_count(entry.size, sector_size_shift) + 1 + if has_flag(
        entry.flags,
        MPQ_FILE_SECTOR_CRC,
    ) {
        1int
    } else {
        0int
    }
}

/// The `i`-th entry of the position table of `block`.
pub open spec fn position(block: Seq<u8>, i: int) -> int {
    u32_le_at(block, 4 * i) as int
}

/// Whether sector `i` lies within the block.
pub open spec fn sector_in_block(block: Seq<u8>, i: int) -> bool {
    position(block, i) <= position(block, i + 1) <= block.len()
}

/// The bytes of sector `i` as they stand in the block.
pub open spec fn sector_bytes(block: Seq<u8>, i: int) -> Seq<u8> {
    block.subrange(position(block, i), position(block, i + 1))
}

/// The number of bytes of the file that are still owed when sector `i` is
/// reached: the file's size, less the stored length of each sector before
/// `i`, and never below zero.
pub open spec fn bytes_left(block: Seq<u8>, size: u32, i: int) -> int
    decreases i,
{
    if i <= 0 {
        size as int
    } else {
        let before = bytes_left(block, size, i - 1);
        let stored = position(block, i) - position(block, i - 1);
        if before >= stored {
            before - stored
        } else {
            0
        }
    }
}

/// Whether a stored piece of `stored` bytes is unpacked rather than copied:
/// where the block is flagged as compressed and the caller insists, or where
/// the piece is shorter than what it has to yield.
pub open spec fn needs_unpacking(flags: u32, force_decompress: bool, owed: int, stored: int) -> bool {
    (has_flag(flags, MPQ_FILE_COMPRESS) && force_decompress) || owed > stored
}

/// The bytes that sector `i` yields.
pub open spec fn sector_unpacked(
    block: Seq<u8>,
    entry: MPQBlockTableEntry,
    force_decompress: bool,
    i: int,
) -> Result<Seq<u8>, ErrorModel> {
    if !sector_in_block(block, i) {
        Err(ErrorModel::IncompleteData)
    } else if needs_unpacking(
        entry.flags,
        force_decompress,
        bytes_left(block, entry.size, i),
        sector_bytes(block, i).len() as int,
    ) {
        decompressed(sector_bytes(block, i))
    } else {
        Ok(sector_bytes(block, i))
    }
}

/// The bytes that the first `n` sectors yield, one after the other; the
/// error of the first sector that fails.
pub open spec fn sectors_unpacked(
    block: Seq<u8>,
    entry: MPQBlockTableEntry,
    force_decompress: bool,
    n: int,
) -> Result<Seq<u8>, ErrorModel>
    decreases n,
{
    if n <= 0 {
        Ok(Seq::empty())
    } else {
        match sectors_unpacked(block, entry, force_decompress, n - 1) {
            Err(e) => Err(e),
            Ok(before) => match sector_unpacked(block, entry, force_decompress, n - 1) {
                Err(e) => Err(e),
                Ok(piece) => Ok(before + piece),
            },
        }
    }
}

/// The bytes of the file whose stored form is `block`.
pub open spec fn block_unpacked(
    block: Seq<u8>,
    entry: MPQBlockTableEntry,
    sector_size_shift: u16,
    force_decompress: bool,
) -> Result<Seq<u8>, ErrorModel> {
    if has_flag(entry.flags, MPQ_FILE_SINGLE_UNIT) {
        if needs_unpacking(
            entry.flags,
            force_decompress,
            entry.size as int,
            entry.archived_size as int,
        ) {
            decompressed(block)
        } else {
            Ok(block)
        }
    } else if block.len() < 4 * position_count(entry, sector_size_shift) {
        Err(ErrorModel::IncompleteData)
    } else {
        sectors_unpacked(
            block,
            entry,
            force_decompress,
            sector_count(entry.size, sector_size_shift),
        )
    }
}

/// What reading the file of the block table entry `entry` out of `input`
/// yields: the input that follows the block, and the file's bytes. A block
/// that is no file, or that is empty, yields no bytes and leaves the input
/// as it is. `base` is where the archive header stands in `input`.
pub open spec fn file_read(
    input: Seq<u8>,
    base: usize,
    sector_size_shift: u16,
    entry: MPQBlockTableEntry,
    force_decompress: bool,
) -> Result<(Seq<u8>, Seq<u8>), ErrorModel> {
    let start = base + entry.offset;
    let end = start + entry.archived_size;
    if !has_flag(entry.flags, MPQ_FILE_EXISTS) || entry.archived_size == 0 {
        Ok((input, Seq::empty()))
    } else if end > input.len() {
        Err(ErrorModel::IncompleteData)
    } else if has_flag(entry.flags, MPQ_FILE_ENCRYPTED) {
        Err(ErrorModel::UnsupportedEncryptedFile)
    } else {
        match block_unpacked(input.subrange(start, end), entry, sector_size_shift, force_decompress) {
            Ok(data) => Ok((input.skip(end), data)),
            Err(e) => Err(e),
        }
    }
}

/// The number of sectors of a file of `size` bytes.
pub(crate) fn count_sectors(size: u32, sector_size_shift: u16) -> (n: usize)
    ensures
        n == sector_count(size, sector_size_shift),
        n <= 0x80_0001,
{
    proof {
        vstd::arithmetic::power2::lemma2_to64();
    }
    if sector_size_shift >= 23 {
        proof {
            if sector_size_shift > 23 {
                vstd::arithmetic::power2::lemma_pow2_strictly_increases(
                    23,
                    sector_size_shift as nat,
                );
            }
            vstd::arithmetic::div_mod::lemma_basic_div(
                size as int,
                sector_size(sector_size_shift),
            );
        }
        1
    } else {
        let shift: u32 = sector_size_shift as u32;
        proof {
            if sector_size_shift < 22 {
                vstd::arithmetic::power2::lemma_pow2_strictly_increases(
                    sector_size_shift as nat,
                    22,
                );
            }
            vstd::arithmetic::power2::lemma_pow2_pos(sector_size_shift as nat);
            vstd::bits::lemma_u32_shl_is_mul(512, shift);
        }
        let sector: u32 = 512u32 << shift;
        assert(sector == sector_size(sector_size_shift));
        proof {
            vstd::arithmetic::div_mod::lemma_div_is_ordered_by_denominator(
                size as int,
                512,
                sector as int,
            );
        }
        (size / sector) as usize + 1
    }
}

/// Once a sector has failed, the sectors after it change nothing.
pub proof fn lemma_sectors_error_stays(
    block: Seq<u8>,
    entry: MPQBlockTableEntry,
    force_decompress: bool,
    failed: int,
    n: int,
)
    requires
        0 <= failed <= n,
        sectors_unpacked(block, entry, force_decompress, failed) is Err,
    ensures
        sectors_unpacked(block, entry, force_decompress, n) == sectors_unpacked(
            block,
            entry,
            force_decompress,
            failed,
        ),
    decreases n - failed,
{
    if failed < n {
        lemma_sectors_error_stays(block, entry, force_decompress, failed, n - 1);
    }
}

/// A block that is no file, and a block that takes no bytes in the
/// archive, yield no bytes, whatever else the entry and the input hold.
pub proof fn lemma_absent_file_reads_empty(
    input: Seq<u8>,
    base: usize,
    sector_size_shift: u16,
    entry: MPQBlockTableEntry,
    force_decompress: bool,
)
    requires
        !has_flag(entry.flags, MPQ_FILE_EXISTS) || entry.archived_size == 0,
    ensures
        file_read(input, base, sector_size_shift, entry, force_decompress) == Ok::<
            (Seq<u8>, Seq<u8>),
            ErrorModel,
        >((input, Seq::empty())),
{
}

} // verus!
