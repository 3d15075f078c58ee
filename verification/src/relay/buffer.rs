//! Byte accumulation for a stream socket.
//!
//! Holds received bytes until a complete message is known and then drops what was
//! consumed. Compaction is amortised so a steady feed does not move the whole buffer
//! on every frame.

use vstd::prelude::*;
use vstd::slice::slice_to_vec;

verus! {

/// The consumed prefix is compacted away once it reaches this many bytes and at least
/// half the buffer.
pub const COMPACT_AT: usize = 65536;

/// A grow-and-drain byte buffer for framed stream reads.
#[derive(Debug, Default)]
pub struct ReceiveBuffer {
    data: Vec<u8>,
    start: usize,
}

impl View for ReceiveBuffer {
    type V = Seq<u8>;

    /// The bytes not yet consumed.
    closed spec fn view(&self) -> Seq<u8> {
        self.data@.subrange(self.start as int, self.data@.len() as int)
    }
}

impl ReceiveBuffer {
    /// The consumed prefix lies inside the buffer, and is either short or under half of it.
    pub closed spec fn wf(&self) -> bool {
        &&& self.start <= self.data@.len()
        &&& (self.start < COMPACT_AT || 2 * self.start < self.data@.len())
    }

    /// How many bytes the buffer is holding, consumed or not.
    pub closed spec fn footprint(&self) -> nat {
        self.data@.len()
    }

    /// The memory held never exceeds twice what is unread plus the compaction threshold.
    pub proof fn lemma_footprint_bounded(&self)
        requires
            self.wf(),
        ensures
            self.footprint() <= 2 * self@.len() + COMPACT_AT,
    {
    }

    pub fn new() -> (buffer: Self)
        ensures
            buffer.wf(),
            buffer@ == Seq::<u8>::empty(),
    {
        let buffer = ReceiveBuffer { data: Vec::new(), start: 0 };
        proof {
            assert(buffer@ =~= Seq::<u8>::empty());
        }
        buffer
    }

    /// Appends freshly read bytes.
    pub fn extend(&mut self, bytes: &[u8])
        requires
            old(self).wf(),
        ensures
            final(self).wf(),
            final(self)@ == old(self)@ + bytes@,
    {
        if self.start > 0 && self.start == self.data.len() {
            self.data.clear();
            self.start = 0;
        }
        let ghost before = self.data@;
        self.data.extend_from_slice(bytes);
        proof {
            assert(forall|i: int|
                0 <= i < bytes@.len() ==> #[trigger] self.data@[before.len() + i] == bytes@[i]) by {
                assert forall|i: int| 0 <= i < bytes@.len() implies #[trigger] self.data@[before.len()
                    + i] == bytes@[i] by {
                    assert(self.data@[before.len() + i] == bytes@[(before.len() + i) - before.len()]);
                }
            }
            assert(self@ =~= old(self)@ + bytes@);
        }
    }

    /// The bytes not yet consumed.
    pub fn readable(&self) -> (bytes: &[u8])
        requires
            self.wf(),
        ensures
            bytes@ == self@,
    {
        &self.data.as_slice()[self.start..self.data.len()]
    }

    pub fn len(&self) -> (n: usize)
        requires
            self.wf(),
        ensures
            n == self@.len(),
    {
        self.data.len() - self.start
    }

    pub fn is_empty(&self) -> (empty: bool)
        requires
            self.wf(),
        ensures
            empty == (self@.len() == 0),
    {
        self.len() == 0
    }

    /// Drops `count` bytes from the front; asking for more than there is drops all.
    pub fn consume(&mut self, count: usize)
        requires
            old(self).wf(),
        ensures
            final(self).wf(),
            final(self)@ == old(self)@.skip(
                if count <= old(self)@.len() {
                    count as int
                } else {
                    old(self)@.len() as int
                },
            ),
    {
        let length = self.data.len();
        let next = if count >= length - self.start {
            length
        } else {
            self.start + count
        };
        if next == length {
            self.data.clear();
            self.start = 0;
        } else if next >= COMPACT_AT && next >= length - next {
            let rest = slice_to_vec(&self.data.as_slice()[next..length]);
            self.data = rest;
            self.start = 0;
        } else {
            self.start = next;
        }
        proof {
            assert(final(self)@ =~= old(self)@.skip(
                if count <= old(self)@.len() {
                    count as int
                } else {
                    old(self)@.len() as int
                },
            ));
        }
    }

    /// Drops everything, keeping the allocation for the next join.
    pub fn reset(&mut self)
        ensures
            final(self).wf(),
            final(self)@ == Seq::<u8>::empty(),
    {
        self.data.clear();
        self.start = 0;
        proof {
            assert(self@ =~= Seq::<u8>::empty());
        }
    }
}

} // verus!
