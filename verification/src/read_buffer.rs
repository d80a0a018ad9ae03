//! The bytes that were pulled from the source and not yet consumed.

use crate::error::ZipError;
use vstd::prelude::*;
use vstd::slice::slice_subrange;
use vstd::slice::slice_to_vec;

verus! {

/// `total`, or `usize::MAX` where `total` is beyond it.
pub open spec fn capped(total: nat) -> nat {
    if total > usize::MAX {
        usize::MAX as nat
    } else {
        total
    }
}

/// Accumulates chunks and hands out exact-size reads. The view is the bytes
/// received and not yet taken, in stream order.
pub struct ReadBuffer {
    data: Vec<u8>,
    start: usize,
    consumed: usize,
    ended: bool,
}

impl View for ReadBuffer {
    type V = Seq<u8>;

    closed spec fn view(&self) -> Seq<u8> {
        self.data@.skip(self.start as int)
    }
}

impl ReadBuffer {
    /// The representation invariant.
    pub closed spec fn wf(&self) -> bool {
        self.start <= self.data@.len()
    }

    /// How many bytes were taken so far; it stops counting at `usize::MAX`.
    pub closed spec fn spec_consumed(&self) -> nat {
        self.consumed as nat
    }

    /// Whether the source has signalled its end.
    pub closed spec fn spec_ended(&self) -> bool {
        self.ended
    }

    /// An empty buffer on a source that has not ended.
    pub fn new() -> (buffer: Self)
        ensures
            buffer.wf(),
            buffer@ == Seq::<u8>::empty(),
            buffer.spec_consumed() == 0,
            !buffer.spec_ended(),
    {
        ReadBuffer { data: Vec::new(), start: 0, consumed: 0, ended: false }
    }

    /// The number of bytes that can be taken now.
    pub fn available(&self) -> (n: usize)
        requires
            self.wf(),
        ensures
            n == self@.len(),
    {
        self.data.len() - self.start
    }

    /// How many bytes were taken so far.
    pub fn consumed(&self) -> (n: usize)
        ensures
            n == self.spec_consumed(),
    {
        self.consumed
    }

    /// Whether the source has signalled its end.
    pub fn is_ended(&self) -> (ended: bool)
        ensures
            ended == self.spec_ended(),
    {
        self.ended
    }

    /// Takes in what one pull from the source returned. An empty chunk is the
    /// source's way of saying that it has ended.
    pub fn supply(&mut self, chunk: &[u8])
        requires
            old(self).wf(),
        ensures
            final(self).wf(),
            final(self)@ == old(self)@ + chunk@,
            final(self).spec_consumed() == old(self).spec_consumed(),
            final(self).spec_ended() == (old(self).spec_ended() || chunk@.len() == 0),
    {
        if chunk.len() == 0 {
            self.ended = true;
            assert(self@ =~= old(self)@ + chunk@);
            return ;
        }
        if self.start > 0 {
            let mut rest = self.data.split_off(self.start);
            std::mem::swap(&mut self.data, &mut rest);
            self.start = 0;
        }
        assert(self@ =~= old(self)@);
        self.data.extend_from_slice(chunk);
        assert(self@ =~= old(self)@ + chunk@);
    }

    /// Whether `n` bytes can be taken now. `Ok(false)` asks for another pull
    /// from the source; once the source has ended, a read that cannot be
    /// satisfied is an error.
    pub fn require(&self, n: usize) -> (ready: Result<bool, ZipError>)
        requires
            self.wf(),
        ensures
            n <= self@.len() ==> ready == Ok::<bool, ZipError>(true),
            n > self@.len() && !self.spec_ended() ==> ready == Ok::<bool, ZipError>(false),
            n > self@.len() && self.spec_ended() ==> ready == Err::<bool, ZipError>(
                ZipError::UnexpectedEof,
            ),
    {
        if n <= self.data.len() - self.start {
            Ok(true)
        } else if self.ended {
            Err(ZipError::UnexpectedEof)
        } else {
            Ok(false)
        }
    }

    /// Removes the next `n` bytes from the buffer and returns them.
    pub fn take(&mut self, n: usize) -> (bytes: Vec<u8>)
        requires
            old(self).wf(),
            n <= old(self)@.len(),
        ensures
            final(self).wf(),
            bytes@ == old(self)@.take(n as int),
            final(self)@ == old(self)@.skip(n as int),
            final(self).spec_consumed() == capped(old(self).spec_consumed() + n as nat),
            final(self).spec_ended() == old(self).spec_ended(),
    {
        assert(self@.len() == self.data.len() - self.start);
        let bytes = slice_to_vec(slice_subrange(self.data.as_slice(), self.start, self.start + n));
        self.start = self.start + n;
        self.consumed = self.consumed.saturating_add(n);
        assert(bytes@ =~= old(self)@.take(n as int));
        assert(self@ =~= old(self)@.skip(n as int));
        if self.start == self.data.len() {
            // Nothing is left: let go of the memory that held what was taken.
            self.data = Vec::new();
            self.start = 0;
            assert(self@ =~= old(self)@.skip(n as int));
        }
        bytes
    }

    /// Removes the next byte from the buffer and returns it.
    pub fn take_byte(&mut self) -> (byte: u8)
        requires
            old(self).wf(),
            old(self)@.len() > 0,
        ensures
            final(self).wf(),
            byte == old(self)@[0],
            final(self)@ == old(self)@.skip(1),
            final(self).spec_consumed() == capped(old(self).spec_consumed() + 1nat),
            final(self).spec_ended() == old(self).spec_ended(),
    {
        assert(self@.len() == self.data.len() - self.start);
        let byte = self.data[self.start];
        self.start = self.start + 1;
        self.consumed = self.consumed.saturating_add(1);
        assert(self@ =~= old(self)@.skip(1));
        byte
    }
}

} // verus!
