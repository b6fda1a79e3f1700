use vstd::prelude::*;

use crate::error::Error;

verus! {

/// A cursor over a stream of secure random bytes. Every draw takes the next
/// bytes of the stream; a byte is never handed out twice.
pub struct Randomness {
    bytes: Vec<u8>,
    pos: usize,
}

impl Randomness {
    /// The bytes that have not been drawn yet.
    pub closed spec fn remaining(&self) -> Seq<u8> {
        self.bytes@.subrange(self.pos as int, self.bytes@.len() as int)
    }

    pub closed spec fn wf(&self) -> bool {
        self.pos <= self.bytes@.len()
    }

    /// Wraps a byte stream; nothing of it has been drawn.
    pub fn new(bytes: Vec<u8>) -> (r: Randomness)
        ensures
            r.wf(),
            r.remaining() == bytes@,
    {
        let r = Randomness { bytes, pos: 0 };
        assert(r.remaining() =~= r.bytes@);
        r
    }

    /// Number of bytes that can still be drawn.
    pub fn available(&self) -> (r: usize)
        requires
            self.wf(),
        ensures
            r == self.remaining().len(),
    {
        self.bytes.len() - self.pos
    }

    /// Draws the next `n` bytes. Fails, drawing nothing, if fewer are left.
    pub fn bytes(&mut self, n: usize) -> (r: Result<Vec<u8>, Error>)
        requires
            old(self).wf(),
        ensures
            final(self).wf(),
            n <= old(self).remaining().len() ==> r is Ok && r->Ok_0@ == old(self).remaining().take(
                n as int,
            ) && final(self).remaining() == old(self).remaining().skip(n as int),
            n > old(self).remaining().len() ==> r == Err::<Vec<u8>, Error>(Error::EntropyExhausted)
                && final(self).remaining() == old(self).remaining(),
    {
        if n > self.bytes.len() - self.pos {
            return Err(Error::EntropyExhausted);
        }
        let mut out: Vec<u8> = Vec::new();
        let start = self.pos;
        let len = self.bytes.len();
        let mut i: usize = 0;
        while i < n
            invariant
                len == self.bytes@.len(),
                start + n <= len,
                i <= n,
                out@ == self.bytes@.subrange(start as int, start + i),
            decreases n - i,
        {
            out.push(self.bytes[start + i]);
            i = i + 1;
            assert(out@ =~= self.bytes@.subrange(start as int, start + i));
        }
        self.pos = start + n;
        assert(out@ =~= old(self).remaining().take(n as int));
        assert(self.remaining() =~= old(self).remaining().skip(n as int));
        Ok(out)
    }

    /// Draws one byte and returns its lowest bit.
    pub fn bit(&mut self) -> (r: Result<bool, Error>)
        requires
            old(self).wf(),
        ensures
            final(self).wf(),
            old(self).remaining().len() > 0 ==> r == Ok::<bool, Error>(
                old(self).remaining()[0] % 2 == 1,
            ) && final(self).remaining() == old(self).remaining().skip(1),
            old(self).remaining().len() == 0 ==> r == Err::<bool, Error>(Error::EntropyExhausted)
                && final(self).remaining() == old(self).remaining(),
    {
        if self.pos >= self.bytes.len() {
            return Err(Error::EntropyExhausted);
        }
        let b = self.bytes[self.pos];
        self.pos = self.pos + 1;
        assert(self.remaining() =~= old(self).remaining().skip(1));
        Ok(b % 2 == 1)
    }
}

} // verus!
