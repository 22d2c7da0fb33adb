//! The header of an entry: one block, read as a record of fixed-width fields.

use vstd::prelude::*;
use vstd::slice::{slice_subrange, slice_to_vec};
use vstd::utf8::{decode_utf8, valid_utf8};
use crate::error::TarError;
use crate::layout::{
    CHECKSUM_OFFSET, MAGIC_LEN, MAGIC_OFFSET, NAME_LEN, SIZE_DIGITS, SIZE_LEN, SIZE_OFFSET,
};
use crate::octal::{
    all_octal, decode_octal, lemma_decode_octal_ok, lemma_octal_value_bound, parse_octal, pow8,
};

verus! {

/// The number of bytes of `bytes` that come before its first zero byte: all
/// of them if none is zero.
pub open spec fn len_before_zero(bytes: Seq<u8>) -> nat
    decreases bytes.len(),
{
    if bytes.len() == 0 || bytes[0] == 0 {
        0
    } else {
        1 + len_before_zero(bytes.drop_first())
    }
}

/// The signature that the magic field of a ustar header holds: the ASCII
/// letters `ustar` and a zero byte.
pub const USTAR_MAGIC: [u8; 6] = [117, 115, 116, 97, 114, 0];

/// The bytes of the name field of a header block that make up the name: those
/// before the first zero byte of the field, or the whole field.
pub open spec fn name_bytes(block: Seq<u8>) -> Seq<u8> {
    block.take(len_before_zero(block.take(NAME_LEN as int)) as int)
}

/// The digits of the size field of a header block: the field without its
/// last byte, which is a terminator.
pub open spec fn size_digits(block: Seq<u8>) -> Seq<u8> {
    block.subrange(SIZE_OFFSET as int, SIZE_OFFSET + SIZE_DIGITS)
}

/// The size that a header block declares, or the reason why its size field
/// cannot be decoded.
pub open spec fn declared_size(block: Seq<u8>) -> Result<nat, TarError> {
    decode_octal(size_digits(block))
}

/// Whether a header block is taken for the terminator of the archive: the
/// first byte of its checksum field is zero.
pub open spec fn is_null_block(block: Seq<u8>) -> bool {
    block[CHECKSUM_OFFSET as int] == 0
}

/// A size field has eleven digits, so the size that a header declares is
/// below `8^11`, which is `2^33`.
pub proof fn lemma_declared_size_bound(block: Seq<u8>)
    requires
        block.len() == 512,
    ensures
        declared_size(block) matches Ok(size) ==> size < 0x2_0000_0000,
{
    let digits = size_digits(block);
    lemma_decode_octal_ok(digits);
    if all_octal(digits) {
        lemma_octal_value_bound(digits);
        assert(pow8(11) == 0x2_0000_0000) by {
            reveal_with_fuel(pow8, 12);
        }
    }
}

/// `len_before_zero(bytes)` is the position of the first zero byte of
/// `bytes`, or the length of `bytes` if it has none.
pub proof fn lemma_len_before_zero(bytes: Seq<u8>)
    ensures
        len_before_zero(bytes) <= bytes.len(),
        forall|j: int| 0 <= j < len_before_zero(bytes) ==> bytes[j] != 0,
        len_before_zero(bytes) < bytes.len() ==> bytes[len_before_zero(bytes) as int] == 0,
    decreases bytes.len(),
{
    if bytes.len() > 0 && bytes[0] != 0 {
        let rest = bytes.drop_first();
        lemma_len_before_zero(rest);
        assert forall|j: int| 0 <= j < len_before_zero(bytes) implies bytes[j] != 0 by {
            if j > 0 {
                assert(bytes[j] == rest[j - 1]);
            }
        }
    }
}

/// A position `i` whose byte is zero, with no zero byte before it, is
/// `len_before_zero(bytes)`; and if no byte is zero, that is the length.
pub proof fn lemma_len_before_zero_unique(bytes: Seq<u8>, i: int)
    requires
        0 <= i <= bytes.len(),
        forall|j: int| 0 <= j < i ==> bytes[j] != 0,
        i < bytes.len() ==> bytes[i] == 0,
    ensures
        len_before_zero(bytes) == i,
{
    lemma_len_before_zero(bytes);
    let n = len_before_zero(bytes) as int;
    if n < i {
        assert(bytes[n] == 0);
    } else if n > i {
        assert(bytes[i] != 0);
    }
}

/// Finds the first zero byte among the first `maxlen` bytes of a block.
pub fn find_zero(buf: &[u8; 512], maxlen: usize) -> (r: Option<usize>)
    ensures
        ({
            let scanned = buf@.take(if maxlen < 512 { maxlen as int } else { 512 });
            let n = len_before_zero(scanned);
            r == if n < scanned.len() { Some(n as usize) } else { None }
        }),
{
    let limit: usize = if maxlen < 512 { maxlen } else { 512 };
    let mut i: usize = 0;
    while i < limit
        invariant
            i <= limit <= 512,
            limit == if maxlen < 512 { maxlen } else { 512 },
            forall|j: int| 0 <= j < i ==> buf@[j] != 0,
        decreases limit - i,
    {
        if buf[i] == 0 {
            proof {
                lemma_len_before_zero_unique(buf@.take(limit as int), i as int);
            }
            return Some(i);
        }
        i += 1;
    }
    proof {
        lemma_len_before_zero_unique(buf@.take(limit as int), limit as int);
    }
    None
}

/// One block, read as the header of an entry.
#[derive(Debug, Clone, Copy)]
pub struct Header {
    pub block: [u8; 512],
}

impl View for Header {
    type V = Seq<u8>;

    /// The 512 bytes of the block.
    open spec fn view(&self) -> Seq<u8> {
        self.block@
    }
}

impl Header {
    /// Reads `block` as a header.
    pub fn from_block(block: [u8; 512]) -> (header: Header)
        ensures
            header == (Header { block }),
    {
        Header { block }
    }

    /// Whether the magic field holds exactly the six bytes `ustar\0`.
    pub fn has_magic(&self) -> (b: bool)
        ensures
            b == (self@.subrange(MAGIC_OFFSET as int, MAGIC_OFFSET + MAGIC_LEN) == USTAR_MAGIC@),
    {
        let field = self.magic_field();
        let mut i: usize = 0;
        while i < MAGIC_LEN
            invariant
                i <= MAGIC_LEN,
                field@ == self@.subrange(MAGIC_OFFSET as int, MAGIC_OFFSET + MAGIC_LEN),
                field@.take(i as int) == USTAR_MAGIC@.take(i as int),
            decreases MAGIC_LEN - i,
        {
            if field[i] != USTAR_MAGIC[i] {
                return false;
            }
            assert(field@.take(i + 1) =~= field@.take(i as int).push(field@[i as int]));
            assert(USTAR_MAGIC@.take(i + 1) =~= USTAR_MAGIC@.take(i as int).push(
                USTAR_MAGIC@[i as int],
            ));
            i += 1;
        }
        assert(field@.take(MAGIC_LEN as int) =~= field@);
        assert(USTAR_MAGIC@.take(MAGIC_LEN as int) =~= USTAR_MAGIC@);
        true
    }

    /// Whether this is the header that ends the archive, which is decided by
    /// the first byte of the checksum field alone.
    pub fn is_null(&self) -> (b: bool)
        ensures
            b == is_null_block(self@),
    {
        self.block[CHECKSUM_OFFSET] == 0
    }

    /// The name of the entry: the bytes of the name field up to its first
    /// zero byte, or the whole field if it has none, decoded as UTF-8.
    pub fn name(&self) -> (r: Result<String, TarError>)
        ensures
            match r {
                Ok(name) => valid_utf8(name_bytes(self@)) && name@ == decode_utf8(
                    name_bytes(self@),
                ),
                Err(e) => !valid_utf8(name_bytes(self@)) && e == TarError::InvalidText,
            },
    {
        let len: usize = match find_zero(&self.block, NAME_LEN) {
            Some(i) => i,
            None => NAME_LEN,
        };
        proof {
            lemma_len_before_zero(self.block@.take(NAME_LEN as int));
        }
        let bytes = slice_to_vec(slice_subrange(self.block.as_slice(), 0, len));
        assert(bytes@ =~= name_bytes(self@));
        match String::from_utf8(bytes) {
            Ok(name) => Ok(name),
            Err(_) => Err(TarError::InvalidText),
        }
    }

    /// The size of the entry's contents in bytes, which the first eleven bytes
    /// of the size field give as octal digits.
    pub fn size(&self) -> (r: Result<u64, TarError>)
        ensures
            match declared_size(self@) {
                Ok(size) => size <= u64::MAX && r == Ok::<u64, TarError>(size as u64),
                Err(e) => r == Err::<u64, TarError>(e),
            },
    {
        let field = self.size_field();
        let digits = slice_subrange(field, 0, SIZE_DIGITS);
        assert(digits@ =~= size_digits(self@));
        parse_octal(digits)
    }

    /// The six bytes of the magic field.
    pub fn magic_field(&self) -> (field: &[u8])
        ensures
            field@ == self@.subrange(MAGIC_OFFSET as int, MAGIC_OFFSET + MAGIC_LEN),
    {
        slice_subrange(self.block.as_slice(), MAGIC_OFFSET, MAGIC_OFFSET + MAGIC_LEN)
    }

    /// The twelve bytes of the size field, terminator included.
    pub fn size_field(&self) -> (field: &[u8])
        ensures
            field@ == self@.subrange(SIZE_OFFSET as int, SIZE_OFFSET + SIZE_LEN),
    {
        slice_subrange(self.block.as_slice(), SIZE_OFFSET, SIZE_OFFSET + SIZE_LEN)
    }
}

} // verus!
