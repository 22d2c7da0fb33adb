//! The entry iterator: headers in stream order, each followed by the data
//! blocks it owns, up to the header that ends the archive.

use vstd::prelude::*;
use vstd::pervasive::unreached;
use crate::block::{first_block, BlockIterator};
use crate::error::TarError;
use crate::header::{declared_size, is_null_block, lemma_declared_size_bound, Header};
use crate::layout::{blocks_for, num_data_blocks};
use crate::stream::ByteStream;

verus! {

/// One member of an archive. The data blocks that follow its header are
/// passed over when the entry is produced and are not kept.
#[derive(Debug, Clone, Copy)]
pub struct Entry {
    pub header: Header,
}

/// Where the reading of entries stands between two blocks.
#[derive(Debug, Clone, Copy)]
pub enum Phase {
    /// The next block is a header.
    Reading,
    /// The next `remaining` blocks are data of the entry with this header.
    Skipping { header: Header, remaining: u64 },
    /// The header that ends the archive has been seen, or the archive has
    /// failed: nothing more is read.
    Exhausted,
}

/// What follows from handing one more block to the reading of entries.
#[derive(Debug, Clone, Copy)]
pub enum Step {
    /// Nothing to report yet: another block is needed.
    More,
    /// An entry is complete.
    Yield(Entry),
    /// An entry could not be produced.
    Fail(TarError),
    /// The sequence of entries is over.
    End,
}

impl Step {
    /// Whether another block has to be handed in before anything is reported.
    pub fn needs_block(&self) -> (b: bool)
        ensures
            b == (*self is More),
    {
        match self {
            Step::More => true,
            _ => false,
        }
    }
}

impl Phase {
    /// Whether nothing more is to be read.
    pub fn is_exhausted(&self) -> (b: bool)
        ensures
            b == (*self is Exhausted),
    {
        match self {
            Phase::Exhausted => true,
            _ => false,
        }
    }

    /// The phase that follows `self` once `pulled`, the next thing that the
    /// block reader yielded, has been taken in, and what there is to report.
    ///
    /// While reading, a block is a header. The header that ends the archive
    /// is yielded and exhausts the reading. Any other header is yielded at
    /// once if it declares no data, and else once its data blocks have gone
    /// by; a header whose size cannot be decoded is reported and the reading
    /// goes on with the next block. The end of the stream ends the sequence
    /// where a header was due, and truncates the archive where data was due.
    /// An error of the block reader is passed on and exhausts the reading.
    pub open spec fn after(self, pulled: Option<Result<[u8; 512], TarError>>) -> (Phase, Step) {
        match self {
            Phase::Exhausted => (Phase::Exhausted, Step::End),
            Phase::Reading => match pulled {
                None => (Phase::Reading, Step::End),
                Some(Err(e)) => (Phase::Exhausted, Step::Fail(e)),
                Some(Ok(block)) => {
                    let header = Header { block };
                    if is_null_block(block@) {
                        (Phase::Exhausted, Step::Yield(Entry { header }))
                    } else {
                        match declared_size(block@) {
                            Err(e) => (Phase::Reading, Step::Fail(e)),
                            Ok(size) => if blocks_for(size) == 0 {
                                (Phase::Reading, Step::Yield(Entry { header }))
                            } else {
                                (
                                    Phase::Skipping { header, remaining: blocks_for(size) as u64 },
                                    Step::More,
                                )
                            },
                        }
                    }
                },
            },
            Phase::Skipping { header, remaining } => match pulled {
                None => (Phase::Exhausted, Step::Fail(TarError::TruncatedArchive)),
                Some(Err(e)) => (Phase::Exhausted, Step::Fail(e)),
                Some(Ok(_)) => if remaining <= 1 {
                    (Phase::Reading, Step::Yield(Entry { header }))
                } else {
                    (Phase::Skipping { header, remaining: (remaining - 1) as u64 }, Step::More)
                },
            },
        }
    }

    /// Takes in `pulled`, the next thing that the block reader yielded, and
    /// returns the phase that follows and what there is to report.
    ///
    /// In the phase `Exhausted` nothing should be pulled from the block
    /// reader any more; what is handed in then is ignored.
    pub fn advance(self, pulled: Option<Result<[u8; 512], TarError>>) -> (r: (Phase, Step))
        ensures
            r == self.after(pulled),
    {
        match self {
            Phase::Exhausted => (Phase::Exhausted, Step::End),
            Phase::Reading => match pulled {
                None => (Phase::Reading, Step::End),
                Some(Err(e)) => (Phase::Exhausted, Step::Fail(e)),
                Some(Ok(block)) => {
                    let header = Header::from_block(block);
                    if header.is_null() {
                        (Phase::Exhausted, Step::Yield(Entry { header }))
                    } else {
                        match header.size() {
                            Err(e) => (Phase::Reading, Step::Fail(e)),
                            Ok(size) => {
                                let remaining = num_data_blocks(size);
                                if remaining == 0 {
                                    (Phase::Reading, Step::Yield(Entry { header }))
                                } else {
                                    (Phase::Skipping { header, remaining }, Step::More)
                                }
                            },
                        }
                    }
                },
            },
            Phase::Skipping { header, remaining } => match pulled {
                None => (Phase::Exhausted, Step::Fail(TarError::TruncatedArchive)),
                Some(Err(e)) => (Phase::Exhausted, Step::Fail(e)),
                Some(Ok(_)) => if remaining <= 1 {
                    (Phase::Reading, Step::Yield(Entry { header }))
                } else {
                    (Phase::Skipping { header, remaining: remaining - 1 }, Step::More)
                },
            },
        }
    }
}

/// What one pull of the entry iterator comes to, over the bytes of the stream.
pub struct Pull {
    /// What is yielded, an entry being given by the bytes of its header;
    /// `None` where the sequence ends.
    pub yielded: Option<Result<Seq<u8>, TarError>>,
    /// The number of bytes taken from the stream.
    pub consumed: nat,
    /// Whether the pull exhausts the iterator.
    pub exhausted: bool,
}

/// What becomes of a header whose block is `block`, read from a stream that
/// goes on with `rest`.
///
/// The header that ends the archive is yielded, takes nothing from `rest`
/// and exhausts the iterator. A header whose size cannot be decoded is
/// reported and takes nothing either. Any other header owns
/// `blocks_for(size)` data blocks: if `rest` holds them, they are taken and
/// the header is yielded; if not, all of `rest` is taken and the iterator is
/// exhausted, with a truncated archive where `rest` ends on a block boundary
/// and a short block where it ends within a block.
pub open spec fn entry_from(block: Seq<u8>, rest: Seq<u8>) -> Pull {
    if is_null_block(block) {
        Pull { yielded: Some(Ok(block)), consumed: 0, exhausted: true }
    } else {
        match declared_size(block) {
            Err(e) => Pull { yielded: Some(Err(e)), consumed: 0, exhausted: false },
            Ok(size) => if rest.len() >= 512 * blocks_for(size) {
                Pull { yielded: Some(Ok(block)), consumed: 512 * blocks_for(size), exhausted: false }
            } else if rest.len() % 512 == 0 {
                Pull {
                    yielded: Some(Err(TarError::TruncatedArchive)),
                    consumed: rest.len(),
                    exhausted: true,
                }
            } else {
                Pull {
                    yielded: Some(Err(TarError::ShortBlock { got: (rest.len() % 512) as usize })),
                    consumed: rest.len(),
                    exhausted: true,
                }
            },
        }
    }
}

/// What the next pull of an iterator that is not exhausted comes to, over a
/// stream that still holds `stream`.
///
/// At the end of the stream the sequence ends. A stream that does not hold a
/// whole block is passed over and fails with a short block. Else the first
/// block is a header, and `entry_from` says what becomes of it.
pub open spec fn next_entry(stream: Seq<u8>) -> Pull {
    match first_block(stream) {
        None => Pull { yielded: None, consumed: 0, exhausted: false },
        Some(Err(e)) => Pull { yielded: Some(Err(e)), consumed: stream.len(), exhausted: true },
        Some(Ok(block)) => {
            let made = entry_from(block, stream.skip(512));
            Pull { yielded: made.yielded, consumed: 512 + made.consumed, exhausted: made.exhausted }
        },
    }
}

/// A pull takes no more than the stream holds, takes at least one block
/// whenever it yields an entry, and at least one byte whenever it yields
/// anything: what has been yielded is never read again.
pub proof fn lemma_pull_advances(stream: Seq<u8>)
    ensures
        next_entry(stream).consumed <= stream.len(),
        next_entry(stream).yielded is Some ==> next_entry(stream).consumed > 0,
        next_entry(stream).yielded matches Some(Ok(_)) ==> next_entry(stream).consumed >= 512,
        next_entry(stream).yielded matches Some(Ok(block)) ==> block == stream.take(512),
{
}

/// What a pull yields decides whether the iterator goes on: it is exhausted
/// by the header that ends the archive and by a structural error, and by
/// nothing else. An error in the size field of one header, and the end of a
/// stream that has no terminator, leave it reading.
pub proof fn lemma_exhausted_by(stream: Seq<u8>)
    ensures
        match next_entry(stream).yielded {
            None => !next_entry(stream).exhausted,
            Some(Ok(block)) => next_entry(stream).exhausted == is_null_block(block),
            Some(Err(e)) => next_entry(stream).exhausted == e.is_structural(),
        },
{
}

/// The bytes of the header of what the entry iterator yielded, in place of
/// the entry itself.
pub open spec fn yielded_bytes(yielded: Option<Result<Entry, TarError>>) -> Option<
    Result<Seq<u8>, TarError>,
> {
    match yielded {
        None => None,
        Some(Err(e)) => Some(Err(e)),
        Some(Ok(entry)) => Some(Ok(entry.header@)),
    }
}

/// The sequence of the entries of an archive held in a stream.
pub struct EntryIterator {
    iter: BlockIterator,
    done: bool,
}

impl EntryIterator {
    /// The bytes of the stream that have not been read yet.
    pub closed spec fn remaining(&self) -> Seq<u8> {
        self.iter@
    }

    /// Whether the iterator is exhausted: it then yields nothing more and
    /// reads nothing more.
    pub closed spec fn exhausted(&self) -> bool {
        self.done
    }

    /// An iterator over the entries of the archive in `stream`, which it
    /// owns from now on.
    pub fn from_stream(stream: ByteStream) -> (entries: EntryIterator)
        ensures
            entries.remaining() == stream@,
            !entries.exhausted(),
    {
        EntryIterator { iter: BlockIterator::from_stream(stream), done: false }
    }

    /// Whether the iterator is exhausted.
    pub fn is_exhausted(&self) -> (b: bool)
        ensures
            b == self.exhausted(),
    {
        self.done
    }

    /// Makes the entry whose header is `block`, a block that has just been
    /// read from the stream: passes over the data blocks that the header
    /// owns, and exhausts the iterator if the header ends the archive or the
    /// archive breaks off.
    pub fn _make_entry(&mut self, block: [u8; 512]) -> (r: Result<Entry, TarError>)
        ensures
            ({
                let made = entry_from(block@, old(self).remaining());
                &&& yielded_bytes(Some(r)) == made.yielded
                &&& final(self).remaining() == old(self).remaining().skip(made.consumed as int)
                &&& final(self).exhausted() == (old(self).exhausted() || made.exhausted)
            }),
    {
        let ghost rest = self.remaining();
        let ghost blocks = match declared_size(block@) {
            Ok(size) => blocks_for(size),
            Err(_) => 0,
        };
        let (mut phase, mut step) = Phase::Reading.advance(Some(Ok(block)));
        proof {
            lemma_declared_size_bound(block@);
            assert(self.iter@ =~= rest.skip(0));
        }
        while step.needs_block()
            invariant
                self.done == old(self).done,
                rest == old(self).remaining(),
                blocks == match declared_size(block@) {
                    Ok(size) => blocks_for(size),
                    Err(_) => 0,
                },
                step is More ==> {
                    &&& !is_null_block(block@)
                    &&& declared_size(block@) is Ok
                    &&& phase matches Phase::Skipping { header, remaining }
                    &&& header.block == block
                    &&& 1 <= remaining <= blocks
                    &&& 512 * (blocks - remaining) <= rest.len()
                    &&& self.iter@ == rest.skip(512 * (blocks - remaining))
                },
                !(step is More) ==> {
                    let made = entry_from(block@, rest);
                    &&& match step {
                        Step::Yield(entry) => made.yielded == Some(
                            Ok::<Seq<u8>, TarError>(entry.header@),
                        ),
                        Step::Fail(e) => made.yielded == Some(Err::<Seq<u8>, TarError>(e)),
                        _ => false,
                    }
                    &&& self.iter@ == rest.skip(made.consumed as int)
                    &&& (phase is Exhausted) == made.exhausted
                },
            decreases
                    (if step is More {
                        self.iter@.len() + 1
                    } else {
                        0
                    }),
        {
            let ghost before = self.iter@;
            let ghost left = phase->remaining;
            let pulled = self.iter.next();
            let (next_phase, next_step) = phase.advance(pulled);
            proof {
                let gone = 512 * (blocks - left);
                assert(before.len() == rest.len() - gone);
                if before.len() >= 512 {
                    assert(before.skip(512) =~= rest.skip(gone + 512));
                } else {
                    assert(before.skip(before.len() as int) =~= rest.skip(rest.len() as int));
                    assert(rest.len() % 512 == before.len()) by (nonlinear_arith)
                        requires
                            rest.len() == before.len() + 512 * (blocks - left),
                            0 <= before.len() < 512,
                            blocks - left >= 0,
                    ;
                }
            }
            phase = next_phase;
            step = next_step;
        }
        if phase.is_exhausted() {
            self.done = true;
        }
        match step {
            Step::Yield(entry) => Ok(entry),
            Step::Fail(e) => Err(e),
            _ => unreached(),
        }
    }

    /// Produces the next entry.
    ///
    /// An exhausted iterator yields `None` and leaves the stream alone. Else
    /// `next_entry` says, from the bytes that the stream still holds, what is
    /// yielded, how much of the stream is taken, and whether the iterator is
    /// exhausted afterwards.
    pub fn next(&mut self) -> (r: Option<Result<Entry, TarError>>)
        ensures
            old(self).exhausted() ==> {
                &&& r is None
                &&& final(self).exhausted()
                &&& final(self).remaining() == old(self).remaining()
            },
            !old(self).exhausted() ==> {
                let pull = next_entry(old(self).remaining());
                &&& yielded_bytes(r) == pull.yielded
                &&& final(self).remaining() == old(self).remaining().skip(pull.consumed as int)
                &&& final(self).exhausted() == pull.exhausted
            },
    {
        if self.done {
            return None;
        }
        let ghost stream = self.remaining();
        match self.iter.next() {
            None => {
                assert(stream.skip(0) =~= stream);
                None
            },
            Some(Err(e)) => {
                self.done = true;
                Some(Err(e))
            },
            Some(Ok(block)) => {
                let r = self._make_entry(block);
                proof {
                    let made = entry_from(block@, stream.skip(512));
                    assert(stream.skip(512).skip(made.consumed as int) =~= stream.skip(
                        (512 + made.consumed) as int,
                    ));
                }
                Some(r)
            },
        }
    }
}

} // verus!
