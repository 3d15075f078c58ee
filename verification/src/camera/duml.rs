//! Unpacking the length-prefixed blobs the facade returns, and lifting a DUML frame
//! out of a datagram.
//!
//! A single call can answer with several frames, so they come back as
//! `[u16le count]([u16le length][bytes])…`.

use vstd::prelude::*;
use vstd::slice::slice_to_vec;

verus! {

/// A little-endian 16-bit value from two bytes.
pub open spec fn le16(lo: u8, hi: u8) -> int {
    lo as int + 256 * (hi as int)
}

/// One DUML frame lifted out of a datagram.
#[derive(Debug, Clone, PartialEq, Eq)]
pub struct DumlFrame {
    pub sender: u8,
    pub receiver: u8,
    pub seq: u16,
    pub flags: u8,
    pub cmd_set: u8,
    pub cmd_id: u8,
    pub payload: Vec<u8>,
}

/// What a frame of at least seven bytes reads as: the header fields and the rest.
pub open spec fn frame_matches(frame: DumlFrame, bytes: Seq<u8>) -> bool {
    &&& bytes.len() >= 7
    &&& frame.sender == bytes[0]
    &&& frame.receiver == bytes[1]
    &&& frame.seq as int == le16(bytes[2], bytes[3])
    &&& frame.flags == bytes[4]
    &&& frame.cmd_set == bytes[5]
    &&& frame.cmd_id == bytes[6]
    &&& frame.payload@ == bytes.subrange(7, bytes.len() as int)
}

/// A frame is a reply when the top bit of its flags is set.
pub open spec fn spec_is_reply(flags: u8) -> bool {
    flags >= 0x80
}

impl DumlFrame {
    /// `[sender][receiver][seq lo][seq hi][flags][set][id][payload…]`.
    pub fn parse(bytes: &[u8]) -> (res: Option<Self>)
        ensures
            bytes@.len() < 7 <==> res is None,
            res matches Some(frame) ==> frame_matches(frame, bytes@),
    {
        if bytes.len() < 7 {
            return None;
        }
        let seq: u16 = bytes[2] as u16 + (bytes[3] as u16) * 256;
        let rest = &bytes[7..bytes.len()];
        Some(DumlFrame {
            sender: bytes[0],
            receiver: bytes[1],
            seq,
            flags: bytes[4],
            cmd_set: bytes[5],
            cmd_id: bytes[6],
            payload: slice_to_vec(rest),
        })
    }

    /// True when this frame is a reply rather than a request.
    pub fn is_reply(&self) -> (res: bool)
        ensures
            res == spec_is_reply(self.flags),
    {
        let flags: u8 = self.flags;
        let masked: u8 = flags & 0x80;
        assert(masked != 0 <==> flags >= 0x80) by (bit_vector)
            requires
                masked == flags & 0x80,
        ;
        masked != 0
    }
}

/// The records a blob holds from offset `at`, reading at most `count` of them and
/// stopping at the first one that runs past the end.
pub open spec fn records_from(blob: Seq<u8>, count: nat, at: int) -> Seq<Seq<u8>>
    decreases count,
{
    if count == 0 || at < 0 || at + 2 > blob.len() {
        Seq::empty()
    } else {
        let length = le16(blob[at], blob[at + 1]);
        if at + 2 + length > blob.len() {
            Seq::empty()
        } else {
            seq![blob.subrange(at + 2, at + 2 + length)] + records_from(
                blob,
                (count - 1) as nat,
                at + 2 + length,
            )
        }
    }
}

/// Every record of `[u16le count]([u16le length][bytes])…`, in order.
pub open spec fn records(blob: Seq<u8>) -> Seq<Seq<u8>> {
    if blob.len() < 2 {
        Seq::empty()
    } else {
        records_from(blob, le16(blob[0], blob[1]) as nat, 2)
    }
}

/// The bytes each slice covers.
pub open spec fn views(parts: Seq<&[u8]>) -> Seq<Seq<u8>> {
    parts.map_values(|part: &[u8]| part@)
}

/// Splits `[u16le count]([u16le length][bytes])…` into its parts.
///
/// A blob that runs out mid-record yields what it could read rather than failing.
pub fn split(blob: &[u8]) -> (out: Vec<&[u8]>)
    ensures
        views(out@) == records(blob@),
{
    if blob.len() < 2 {
        return Vec::new();
    }
    let count: usize = blob[0] as usize + (blob[1] as usize) * 256;
    let mut out: Vec<&[u8]> = Vec::new();
    let mut at: usize = 2;
    let ghost total = records(blob@);
    let mut short = false;
    while !short && out.len() < count && at <= blob.len() && blob.len() - at >= 2
        invariant
            2 <= at <= blob@.len(),
            out@.len() <= count,
            count == le16(blob@[0], blob@[1]),
            total == records(blob@),
            short ==> records_from(blob@, (count - out@.len()) as nat, at as int) =~= Seq::empty(),
            total == views(out@) + records_from(blob@, (count - out@.len()) as nat, at as int),
        decreases count - out@.len(), if short { 0int } else { 1int },
    {
        let length: usize = blob[at] as usize + (blob[at + 1] as usize) * 256;
        let start = at + 2;
        if length > blob.len() - start {
            short = true;
        } else {
        let part = &blob[start..start + length];
        proof {
            let rest = records_from(blob@, (count - out@.len() - 1) as nat, (start + length) as int);
            assert(records_from(blob@, (count - out@.len()) as nat, at as int) == seq![part@] + rest);
            assert(views(out@.push(part)) =~= views(out@).push(part@));
            assert(views(out@) + (seq![part@] + rest) =~= views(out@).push(part@) + rest);
        }
        out.push(part);
        at = start + length;
        }
    }
    proof {
        let left = records_from(blob@, (count - out@.len()) as nat, at as int);
        if out@.len() >= count || !(at <= blob.len() && blob.len() - at >= 2) {
            assert(left =~= Seq::empty());
        }
        assert(views(out@) + Seq::<Seq<u8>>::empty() =~= views(out@));
    }
    out
}

/// The low byte of a 16-bit count or length.
pub open spec fn lo_byte(n: nat) -> u8 {
    (n % 256) as u8
}

/// The high byte of a 16-bit count or length.
pub open spec fn hi_byte(n: nat) -> u8 {
    (n / 256) as u8
}

/// Each record as `[u16le length][bytes]`, one after another.
pub open spec fn packed_body(records: Seq<Seq<u8>>) -> Seq<u8>
    decreases records.len(),
{
    if records.len() == 0 {
        Seq::empty()
    } else {
        seq![lo_byte(records[0].len()), hi_byte(records[0].len())] + records[0] + packed_body(
            records.drop_first(),
        )
    }
}

/// `[u16le count]([u16le length][bytes])…`: the blob the facade packs records into.
pub open spec fn packed(records: Seq<Seq<u8>>) -> Seq<u8> {
    seq![lo_byte(records.len()), hi_byte(records.len())] + packed_body(records)
}

/// Every record fits a 16-bit length.
pub open spec fn lengths_fit(records: Seq<Seq<u8>>) -> bool {
    forall|i: int| 0 <= i < records.len() ==> #[trigger] records[i].len() <= 0xFFFF
}

proof fn lemma_le16_bytes(n: nat)
    requires
        n <= 0xFFFF,
    ensures
        le16(lo_byte(n), hi_byte(n)) == n,
{
}

proof fn lemma_body_reads_back(blob: Seq<u8>, records: Seq<Seq<u8>>, at: int)
    requires
        0 <= at,
        at + packed_body(records).len() <= blob.len(),
        blob.subrange(at, at + packed_body(records).len()) == packed_body(records),
        lengths_fit(records),
    ensures
        records_from(blob, records.len(), at) == records,
    decreases records.len(),
{
    if records.len() > 0 {
        let first = records[0];
        let rest = records.drop_first();
        let body = packed_body(records);
        let l = first.len() as int;
        assert(lengths_fit(rest)) by {
            assert forall|i: int| 0 <= i < rest.len() implies #[trigger] rest[i].len() <= 0xFFFF by {
                assert(rest[i] == records[i + 1]);
            }
        }
        assert(first.len() <= 0xFFFF);
        assert(body == seq![lo_byte(first.len()), hi_byte(first.len())] + first + packed_body(rest));
        assert(body.len() == 2 + l + packed_body(rest).len());
        assert(blob[at] == body[0]);
        assert(blob[at + 1] == body[1]);
        lemma_le16_bytes(first.len());
        assert(le16(blob[at], blob[at + 1]) == l);
        assert(blob.subrange(at + 2, at + 2 + l) =~= first) by {
            assert forall|k: int| 0 <= k < l implies blob.subrange(at + 2, at + 2 + l)[k] == first[k] by {
                assert(blob[at + 2 + k] == body[2 + k]);
            }
        }
        let next = at + 2 + l;
        assert(blob.subrange(next, next + packed_body(rest).len()) =~= packed_body(rest)) by {
            assert forall|k: int| 0 <= k < packed_body(rest).len() implies blob.subrange(
                next,
                next + packed_body(rest).len(),
            )[k] == packed_body(rest)[k] by {
                assert(blob[next + k] == body[2 + l + k]);
            }
        }
        lemma_body_reads_back(blob, rest, next);
        assert(records_from(blob, records.len(), at) == seq![first] + records_from(
            blob,
            rest.len(),
            next,
        ));
        assert(seq![first] + rest =~= records);
    }
}

/// Splitting a packed blob gives back the records it was packed from, in order, whatever
/// bytes trail it.
pub proof fn lemma_split_round_trip(parts: Seq<Seq<u8>>, trailing: Seq<u8>)
    requires
        parts.len() <= 0xFFFF,
        lengths_fit(parts),
    ensures
        records(packed(parts) + trailing) == parts,
{
    let blob = packed(parts) + trailing;
    let body = packed_body(parts);
    assert(blob[0] == lo_byte(parts.len()));
    assert(blob[1] == hi_byte(parts.len()));
    lemma_le16_bytes(parts.len());
    assert(blob.subrange(2, 2int + body.len()) =~= body) by {
        assert forall|k: int| 0 <= k < body.len() implies blob.subrange(2, 2int + body.len())[k]
            == body[k] by {
            assert(blob[2 + k] == packed(parts)[2 + k]);
        }
    }
    lemma_body_reads_back(blob, parts, 2);
}

/// The records of a blob long enough to be frames, in order.
pub open spec fn frame_records(blob: Seq<u8>) -> Seq<Seq<u8>> {
    records(blob).filter(|record: Seq<u8>| record.len() >= 7)
}

/// Every whole frame a packed blob carries, in order. Records too short to hold a
/// header are skipped.
pub fn frames_of(blob: &[u8]) -> (frames: Vec<DumlFrame>)
    ensures
        frames@.len() == frame_records(blob@).len(),
        forall|i: int|
            0 <= i < frames@.len() ==> frame_matches(#[trigger] frames@[i], frame_records(blob@)[i]),
{
    let parts = split(blob);
    let ghost all = views(parts@);
    let ghost long = |record: Seq<u8>| record.len() >= 7;
    let mut frames: Vec<DumlFrame> = Vec::new();
    let mut i: usize = 0;
    while i < parts.len()
        invariant
            i <= parts@.len(),
            all == views(parts@),
            all == records(blob@),
            long == (|record: Seq<u8>| record.len() >= 7),
            frames@.len() == all.subrange(0, i as int).filter(long).len(),
            forall|k: int|
                0 <= k < frames@.len() ==> frame_matches(
                    #[trigger] frames@[k],
                    all.subrange(0, i as int).filter(long)[k],
                ),
        decreases parts@.len() - i,
    {
        let part = parts[i];
        proof {
            reveal(Seq::filter);
            assert(all.subrange(0, i + 1).drop_last() =~= all.subrange(0, i as int));
            assert(all.subrange(0, i + 1).last() == part@);
        }
        match DumlFrame::parse(part) {
            Some(frame) => {
                frames.push(frame);
            },
            None => {},
        }
        i = i + 1;
    }
    proof {
        assert(all.subrange(0, i as int) =~= all);
    }
    frames
}

} // verus!
