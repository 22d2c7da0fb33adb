//! The fixed geometry of the archive format: block size, field widths and
//! the offsets that follow from them.

use vstd::prelude::*;

verus! {

/// The size of every block of an archive, in bytes.
pub const BLOCK_SIZE: usize = 512;

pub const NAME_LEN: usize = 100;

pub const MODE_LEN: usize = 8;

pub const UID_LEN: usize = 8;

pub const GID_LEN: usize = 8;

pub const SIZE_LEN: usize = 12;

pub const MTIME_LEN: usize = 12;

pub const CHECKSUM_LEN: usize = 8;

pub const TYPEFLAG_LEN: usize = 1;

pub const LINKNAME_LEN: usize = 100;

pub const MAGIC_LEN: usize = 6;

/// Where the size field starts: after name, mode, uid and gid.
pub const SIZE_OFFSET: usize = NAME_LEN + MODE_LEN + UID_LEN + GID_LEN;

/// Where the checksum field starts: after the size and mtime fields.
pub const CHECKSUM_OFFSET: usize = SIZE_OFFSET + SIZE_LEN + MTIME_LEN;

/// Where the magic field starts: after checksum, typeflag and linkname.
pub const MAGIC_OFFSET: usize = CHECKSUM_OFFSET + CHECKSUM_LEN + TYPEFLAG_LEN + LINKNAME_LEN;

/// The number of size-field bytes that hold digits; the last byte of the
/// field is a terminator.
pub const SIZE_DIGITS: usize = SIZE_LEN - 1;

/// The number of whole blocks needed to hold `n` bytes.
pub open spec fn blocks_for(n: nat) -> nat {
    ((n + 511) / 512) as nat
}

/// The number of data blocks that follow the header of an entry whose
/// contents are `entry_size` bytes long: `entry_size / 512`, rounded up.
pub fn num_data_blocks(entry_size: u64) -> (blocks: u64)
    ensures
        blocks == blocks_for(entry_size as nat),
{
    let whole: u64 = entry_size / 512;
    if entry_size % 512 == 0 {
        whole
    } else {
        whole + 1
    }
}

/// `blocks_for(n)` is the ceiling of `n / 512`: `k` blocks hold `n` bytes
/// exactly when `k` is at least `blocks_for(n)`, so `blocks_for(n)` is the
/// least number of blocks that do.
pub proof fn lemma_blocks_for_is_ceiling(n: nat, k: nat)
    ensures
        512 * k >= n <==> k >= blocks_for(n),
{
}

} // verus!
