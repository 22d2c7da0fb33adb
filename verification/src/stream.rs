//! A byte stream held in memory: the bytes of an archive and a cursor.

use vstd::prelude::*;

verus! {

/// A stream over bytes held in memory. Reading moves a cursor forward; what
/// has been read is never seen again.
pub struct ByteStream {
    bytes: Vec<u8>,
    pos: usize,
}

impl View for ByteStream {
    type V = Seq<u8>;

    /// The bytes that have not been read yet.
    closed spec fn view(&self) -> Seq<u8> {
        self.bytes@.skip(self.pos as int)
    }
}

impl ByteStream {
    #[verifier::type_invariant]
    spec fn cursor_in_bounds(self) -> bool {
        self.pos <= self.bytes@.len()
    }

    /// A stream that will yield `bytes` from the first to the last.
    pub fn new(bytes: Vec<u8>) -> (stream: ByteStream)
        ensures
            stream@ == bytes@,
    {
        ByteStream { bytes, pos: 0 }
    }

    /// Reads as many bytes as the stream still has, up to 512, into the front
    /// of `buf`, and returns their number. The rest of `buf` is left as it
    /// was. A result of 0 means that the stream is at its end.
    pub fn read(&mut self, buf: &mut [u8; 512]) -> (n: usize)
        ensures
            n == if old(self)@.len() < 512 { old(self)@.len() } else { 512 },
            final(self)@ == old(self)@.skip(n as int),
            final(buf)@ == old(self)@.take(n as int) + old(buf)@.skip(n as int),
    {
        proof {
            use_type_invariant(&*self);
        }
        let avail: usize = self.bytes.len() - self.pos;
        let n: usize = if avail < 512 { avail } else { 512 };
        let mut i: usize = 0;
        while i < n
            invariant
                i <= n <= 512,
                self.pos + n <= self.bytes.len(),
                self.pos == old(self).pos,
                self.bytes == old(self).bytes,
                buf@ == old(self)@.take(i as int) + old(buf)@.skip(i as int),
            decreases n - i,
        {
            buf[i] = self.bytes[self.pos + i];
            i += 1;
        }
        self.pos += n;
        n
    }
}

} // verus!
