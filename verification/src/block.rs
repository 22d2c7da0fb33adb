//! The block reader: a stream cut into blocks of 512 bytes.

use vstd::prelude::*;
use crate::error::TarError;
use crate::stream::ByteStream;

verus! {

/// What one attempt to read a block's worth of bytes from a stream reported.
#[derive(Debug, Clone, Copy, PartialEq, Eq, Structural)]
pub enum ReadOutcome {
    /// The read put this many bytes into the buffer; 0 at the end of the
    /// stream.
    Count(usize),
    /// The stream failed.
    Failed,
}

/// What a read means to the block reader: a block, the end of the sequence
/// (`None`), or an error.
///
/// A read that filled the buffer yields the buffer as it is. A read of no
/// bytes ends the sequence. Any other count is a short block, and a failure
/// of the stream is a stream error.
pub open spec fn read_verdict(buf: [u8; 512], outcome: ReadOutcome) -> Option<
    Result<[u8; 512], TarError>,
> {
    match outcome {
        ReadOutcome::Failed => Some(Err(TarError::Stream)),
        ReadOutcome::Count(n) => if n == 512 {
            Some(Ok(buf))
        } else if n == 0 {
            None
        } else {
            Some(Err(TarError::ShortBlock { got: n }))
        },
    }
}

/// Decides what a read means, given the buffer that was read into and what
/// the read reported.
pub fn block_from_read(buf: [u8; 512], outcome: ReadOutcome) -> (r: Option<
    Result<[u8; 512], TarError>,
>)
    ensures
        r == read_verdict(buf, outcome),
{
    match outcome {
        ReadOutcome::Count(512) => Some(Ok(buf)),
        ReadOutcome::Count(0) => None,
        ReadOutcome::Count(n) => Some(Err(TarError::ShortBlock { got: n })),
        ReadOutcome::Failed => Some(Err(TarError::Stream)),
    }
}

/// The bytes of what the block reader yielded, in place of the block itself.
pub open spec fn pulled_bytes(pulled: Option<Result<[u8; 512], TarError>>) -> Option<
    Result<Seq<u8>, TarError>,
> {
    match pulled {
        None => None,
        Some(Err(e)) => Some(Err(e)),
        Some(Ok(block)) => Some(Ok(block@)),
    }
}

/// What the block reader yields from a stream that still holds `stream`: its
/// first 512 bytes, nothing if it is empty, and a short-block error if it
/// holds fewer than 512 bytes.
pub open spec fn first_block(stream: Seq<u8>) -> Option<Result<Seq<u8>, TarError>> {
    if stream.len() == 0 {
        None
    } else if stream.len() < 512 {
        Some(Err(TarError::ShortBlock { got: stream.len() as usize }))
    } else {
        Some(Ok(stream.take(512)))
    }
}

/// The number of bytes that the block reader takes from a stream that still
/// holds `stream`: a whole block, or whatever is left.
pub open spec fn first_block_len(stream: Seq<u8>) -> int {
    if stream.len() < 512 {
        stream.len() as int
    } else {
        512
    }
}

/// The sequence of the blocks of a stream.
pub struct BlockIterator {
    stream: ByteStream,
}

impl View for BlockIterator {
    type V = Seq<u8>;

    /// The bytes of the stream that have not been read yet.
    closed spec fn view(&self) -> Seq<u8> {
        self.stream@
    }
}

impl BlockIterator {
    /// A block reader that owns `stream` and starts where the stream stands.
    pub fn from_stream(stream: ByteStream) -> (blocks: BlockIterator)
        ensures
            blocks@ == stream@,
    {
        BlockIterator { stream }
    }

    /// Reads the next block.
    ///
    /// Yields the next 512 bytes of the stream unchanged; `None` at the end
    /// of the stream; and a short-block error, having taken what was left, if
    /// fewer than 512 bytes were left.
    pub fn next(&mut self) -> (r: Option<Result<[u8; 512], TarError>>)
        ensures
            pulled_bytes(r) == first_block(old(self)@),
            final(self)@ == old(self)@.skip(first_block_len(old(self)@)),
    {
        let mut block: [u8; 512] = [0; 512];
        let n = self.stream.read(&mut block);
        block_from_read(block, ReadOutcome::Count(n))
    }
}

} // verus!
