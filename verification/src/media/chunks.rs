//! Reassembling `0x00/0x27` chunks, and the cursor arithmetic for paging.

use vstd::prelude::*;

use crate::camera::duml::DumlFrame;
use crate::media::model::VIDEO_HANDLE_BASE;

verus! {

pub const PAGE_SIZE: usize = 45;

pub const NEWEST_SD: u32 = 0x0000_0001;

pub const NEWEST_INTERNAL: u32 = 0x4000_0001;

pub const SD_COUNTER: u8 = 1;

pub const INTERNAL_COUNTER: u8 = 2;

/// How many counters a chunk can carry: one byte's worth.
pub const COUNTERS: usize = 256;

/// Collects one page's chunks, keyed by the counter the camera echoes.
///
/// One bucket per possible counter, in counter order; a counter that never arrived is
/// an empty bucket, which is exactly what reading it back gives.
#[derive(Debug, Clone)]
pub struct ChunkAssembler {
    buckets: Vec<Vec<u8>>,
    chunk_count: usize,
    saw_end: bool,
}

/// The concatenation of the first `n` buckets.
pub open spec fn merged_upto(buckets: Seq<Seq<u8>>, n: int) -> Seq<u8>
    decreases n,
{
    if n <= 0 {
        Seq::empty()
    } else {
        merged_upto(buckets, n - 1) + buckets[n - 1]
    }
}

/// What a chunk payload contributes: the end marker, or a counter and its bytes.
pub enum ChunkKind {
    NotAChunk,
    End,
    Body { counter: u8, bytes: Seq<u8> },
}

/// `[4A][subtype][..][..][counter][..×5][body…]`: subtype `03` ends the page, `01` with
/// a non-empty body is a chunk for its counter, anything else is not ours.
pub open spec fn chunk_kind(payload: Seq<u8>) -> ChunkKind {
    if payload.len() < 10 || payload[0] != 0x4A {
        ChunkKind::NotAChunk
    } else if payload[1] == 0x03 {
        ChunkKind::End
    } else if payload[1] != 0x01 || payload.len() <= 10 {
        ChunkKind::NotAChunk
    } else {
        ChunkKind::Body { counter: payload[4], bytes: payload.subrange(10, payload.len() as int) }
    }
}

impl ChunkAssembler {
    /// One bucket per counter.
    pub open spec fn wf(&self) -> bool {
        self.buckets().len() == COUNTERS
    }

    /// The bytes collected for each counter, in counter order.
    pub closed spec fn buckets(&self) -> Seq<Seq<u8>> {
        self.buckets@.map_values(|bucket: Vec<u8>| bucket@)
    }

    pub closed spec fn spec_chunk_count(&self) -> nat {
        self.chunk_count as nat
    }

    pub closed spec fn spec_saw_end(&self) -> bool {
        self.saw_end
    }

    pub fn new() -> (assembler: Self)
        ensures
            assembler.wf(),
            assembler.buckets() == Seq::new(COUNTERS as nat, |i: int| Seq::<u8>::empty()),
            assembler.spec_chunk_count() == 0,
            !assembler.spec_saw_end(),
    {
        let mut buckets: Vec<Vec<u8>> = Vec::new();
        let mut i: usize = 0;
        while i < COUNTERS
            invariant
                i <= COUNTERS,
                buckets@.len() == i,
                forall|k: int| 0 <= k < i ==> #[trigger] buckets@[k]@ == Seq::<u8>::empty(),
            decreases COUNTERS - i,
        {
            buckets.push(Vec::new());
            i = i + 1;
        }
        let assembler = ChunkAssembler { buckets, chunk_count: 0, saw_end: false };
        proof {
            assert(assembler.buckets() =~= Seq::new(COUNTERS as nat, |i: int| Seq::<u8>::empty()));
        }
        assembler
    }

    pub fn reset(&mut self)
        ensures
            final(self).wf(),
            final(self).buckets() == Seq::new(COUNTERS as nat, |i: int| Seq::<u8>::empty()),
            final(self).spec_chunk_count() == 0,
            !final(self).spec_saw_end(),
    {
        *self = Self::new();
    }

    /// Accepts a frame. Only `0x00/0x27` contributes; true when it did.
    pub fn ingest(&mut self, frame: &DumlFrame) -> (took: bool)
        requires
            old(self).wf(),
            old(self).spec_chunk_count() < usize::MAX,
        ensures
            final(self).wf(),
            !(frame.cmd_set == 0x00 && frame.cmd_id == 0x27) ==> !took && *final(self) == *old(self),
            frame.cmd_set == 0x00 && frame.cmd_id == 0x27 ==> Self::ingested(
                *old(self),
                *final(self),
                frame.payload@,
                took,
            ),
    {
        if !(frame.cmd_set == 0x00 && frame.cmd_id == 0x27) {
            return false;
        }
        self.ingest_payload(frame.payload.as_slice())
    }

    /// What taking one payload does: an end marker notes the end, a chunk appends its
    /// bytes to its counter's bucket and counts, anything else leaves all alone.
    pub open spec fn ingested(before: Self, after: Self, payload: Seq<u8>, took: bool) -> bool {
        match chunk_kind(payload) {
            ChunkKind::NotAChunk => !took && after == before,
            ChunkKind::End => took && after.buckets() == before.buckets()
                && after.spec_chunk_count() == before.spec_chunk_count() && after.spec_saw_end(),
            ChunkKind::Body { counter, bytes } => took && after.buckets() == before.buckets().update(
                counter as int,
                before.buckets()[counter as int] + bytes,
            ) && after.spec_chunk_count() == before.spec_chunk_count() + 1
                && after.spec_saw_end() == before.spec_saw_end(),
        }
    }

    pub fn ingest_payload(&mut self, payload: &[u8]) -> (took: bool)
        requires
            old(self).wf(),
            old(self).spec_chunk_count() < usize::MAX,
        ensures
            final(self).wf(),
            Self::ingested(*old(self), *final(self), payload@, took),
    {
        if payload.len() < 10 || payload[0] != 0x4A {
            return false;
        }
        let subtype = payload[1];
        if subtype == 0x03 {
            self.saw_end = true;
            return true;
        }
        if subtype != 0x01 || payload.len() <= 10 {
            return false;
        }
        let counter = payload[4];
        let body = &payload[10..payload.len()];
        let mut bucket: Vec<u8> = Vec::new();
        std::mem::swap(&mut bucket, &mut self.buckets[counter as usize]);
        let ghost old_bucket = bucket@;
        bucket.extend_from_slice(body);
        proof {
            assert(bucket@ =~= old_bucket + body@) by {
                assert forall|i: int| 0 <= i < bucket@.len() implies #[trigger] bucket@[i] == (
                old_bucket + body@)[i] by {
                    if i >= old_bucket.len() {
                        assert(bucket@[i] == body@[i - old_bucket.len()]);
                    }
                }
            }
        }
        self.buckets.set(counter as usize, bucket);
        self.chunk_count = self.chunk_count + 1;
        proof {
            assert(self.buckets() =~= old(self).buckets().update(
                counter as int,
                old(self).buckets()[counter as int] + body@,
            ));
        }
        true
    }

    /// The bytes collected for one counter.
    pub fn assembled(&self, counter: u8) -> (bytes: &[u8])
        requires
            self.wf(),
        ensures
            bytes@ == self.buckets()[counter as int],
    {
        self.buckets[counter as usize].as_slice()
    }

    /// Every chunk, in counter order.
    pub fn assembled_merged(&self) -> (bytes: Vec<u8>)
        requires
            self.wf(),
        ensures
            bytes@ == merged_upto(self.buckets(), COUNTERS as int),
    {
        let mut out: Vec<u8> = Vec::new();
        let mut i: usize = 0;
        while i < COUNTERS
            invariant
                self.wf(),
                i <= COUNTERS,
                out@ == merged_upto(self.buckets(), i as int),
            decreases COUNTERS - i,
        {
            let ghost before = out@;
            out.extend_from_slice(self.buckets[i].as_slice());
            proof {
                let bucket = self.buckets()[i as int];
                assert(out@ =~= before + bucket) by {
                    assert forall|k: int| 0 <= k < out@.len() implies #[trigger] out@[k] == (before
                        + bucket)[k] by {
                        if k >= before.len() {
                            assert(out@[k] == self.buckets@[i as int]@[k - before.len()]);
                        }
                    }
                }
            }
            i = i + 1;
        }
        out
    }

    pub fn is_empty(&self) -> (empty: bool)
        ensures
            empty == (self.spec_chunk_count() == 0),
    {
        self.chunk_count == 0
    }

    pub fn chunk_count(&self) -> (count: usize)
        ensures
            count == self.spec_chunk_count(),
    {
        self.chunk_count
    }

    pub fn saw_end(&self) -> (ended: bool)
        ensures
            ended == self.spec_saw_end(),
    {
        self.saw_end
    }
}

/// Reading a counter back after a chunk was taken gives what it held before with the
/// chunk's body appended; every other counter reads back as it did.
pub proof fn lemma_chunk_reads_back(
    before: ChunkAssembler,
    after: ChunkAssembler,
    payload: Seq<u8>,
    took: bool,
    other: u8,
)
    requires
        before.wf(),
        ChunkAssembler::ingested(before, after, payload, took),
    ensures
        after.wf(),
        chunk_kind(payload) matches ChunkKind::Body { counter, bytes } ==> after.buckets()[counter
            as int] == before.buckets()[counter as int] + bytes && (other != counter
            ==> after.buckets()[other as int] == before.buckets()[other as int]),
        !(chunk_kind(payload) is Body) ==> after.buckets()[other as int] == before.buckets()[other as int],
{
}

/// A video handle below `bound`.
pub open spec fn video_below(handle: u32, bound: int) -> bool {
    handle >= VIDEO_HANDLE_BASE && handle < bound
}

/// The smallest video handle below `bound`, or `None` when there is none.
pub open spec fn is_least_video_below(handles: Seq<u32>, bound: int, res: Option<u32>) -> bool {
    match res {
        Some(h) => handles.contains(h) && video_below(h, bound) && forall|i: int|
            0 <= i < handles.len() && video_below(#[trigger] handles[i], bound) ==> h <= handles[i],
        None => forall|i: int| 0 <= i < handles.len() ==> !video_below(#[trigger] handles[i], bound),
    }
}

fn least_video_below(handles: &[u32], bound: u64) -> (res: Option<u32>)
    ensures
        is_least_video_below(handles@, bound as int, res),
{
    let mut best: Option<u32> = None;
    let mut i: usize = 0;
    while i < handles.len()
        invariant
            i <= handles@.len(),
            is_least_video_below(handles@.subrange(0, i as int), bound as int, best),
        decreases handles@.len() - i,
    {
        let handle = handles[i];
        let ghost prefix = handles@.subrange(0, i as int);
        let ghost next = handles@.subrange(0, i + 1);
        proof {
            assert(next == prefix.push(handle));
        }
        if handle >= VIDEO_HANDLE_BASE && (handle as u64) < bound {
            match best {
                Some(current) if current <= handle => {
                    proof {
                        assert(next.contains(current)) by {
                            let j = choose|j: int| 0 <= j < prefix.len() && prefix[j] == current;
                            assert(next[j] == current);
                        }
                    }
                },
                _ => {
                    best = Some(handle);
                    proof {
                        assert(next[i as int] == handle);
                    }
                },
            }
        }
        proof {
            assert forall|k: int| 0 <= k < next.len() && video_below(#[trigger] next[k], bound as int)
                implies (best matches Some(h) && h <= next[k]) by {
                if k < i {
                    assert(next[k] == prefix[k]);
                }
            }
            if best is Some {
                let h = best->0;
                if !prefix.contains(h) || h == handle {
                    assert(next[i as int] == handle);
                } else {
                    let j = choose|j: int| 0 <= j < prefix.len() && prefix[j] == h;
                    assert(next[j] == h);
                }
            } else {
                assert forall|k: int| 0 <= k < next.len() implies !video_below(
                    #[trigger] next[k],
                    bound as int,
                ) by {
                    if k < i {
                        assert(next[k] == prefix[k]);
                    }
                }
            }
        }
        i = i + 1;
    }
    proof {
        assert(handles@.subrange(0, i as int) =~= handles@);
    }
    best
}

/// Oldest video handle on a page, which seeds the cursor after the newest page.
pub fn oldest_video_handle(handles: &[u32]) -> (res: Option<u32>)
    ensures
        is_least_video_below(handles@, 0x1_0000_0000, res),
{
    least_video_below(handles, 0x1_0000_0000)
}

/// The cursor for the page after the one listed with `current`: from a newest marker,
/// the page's oldest video handle; from a handle, the oldest video handle strictly
/// older than it. `None` at the end of the library.
pub fn next_cursor(handles: &[u32], current: u32) -> (res: Option<u32>)
    ensures
        current == NEWEST_SD || current == NEWEST_INTERNAL ==> is_least_video_below(
            handles@,
            0x1_0000_0000,
            res,
        ),
        !(current == NEWEST_SD || current == NEWEST_INTERNAL) ==> is_least_video_below(
            handles@,
            current as int,
            res,
        ),
{
    if current == NEWEST_SD || current == NEWEST_INTERNAL {
        return oldest_video_handle(handles);
    }
    least_video_below(handles, current as u64)
}

/// Another page is worth asking for when the cursor moved and this page was full.
pub fn has_older_page(record_count: usize, cursor: Option<u32>) -> (older: bool)
    ensures
        older == (cursor matches Some(c) && c > 0 && record_count >= PAGE_SIZE),
{
    match cursor {
        Some(c) => c > 0 && record_count >= PAGE_SIZE,
        None => false,
    }
}

} // verus!
