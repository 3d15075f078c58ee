//! Splitting a recorded elementary stream back into access units.
//!
//! The live path delivers one whole access unit per frame message; this exists so a
//! dumped stream can be replayed through the decoder.

use vstd::prelude::*;

verus! {

/// The length of the start code at `at` (3 for `00 00 01`, 4 for `00 00 00 01`), or 0.
pub open spec fn code_len(s: Seq<u8>, at: int) -> int {
    if 0 <= at && at + 3 <= s.len() && s[at] == 0 && s[at + 1] == 0 && s[at + 2] == 1 {
        3
    } else if 0 <= at && at + 4 <= s.len() && s[at] == 0 && s[at + 1] == 0 && s[at + 2] == 0
        && s[at + 3] == 1 {
        4
    } else {
        0
    }
}

/// Where the start codes are, scanning from `at`: a code found is stepped over whole,
/// anything else one byte at a time.
pub open spec fn starts_from(s: Seq<u8>, at: int) -> Seq<int>
    decreases s.len() - at,
{
    if at < 0 || at >= s.len() {
        Seq::empty()
    } else if code_len(s, at) > 0 {
        seq![at] + starts_from(s, at + code_len(s, at))
    } else {
        starts_from(s, at + 1)
    }
}

/// A NAL unit: where its start code began, where its header is, where it ends.
#[derive(Debug, Clone, Copy, PartialEq, Eq)]
pub struct Nal {
    pub start: usize,
    pub payload: usize,
    pub end: usize,
}

/// The `i`th NAL of a stream whose start codes are at `ps`: it runs to the next code.
pub open spec fn nal_at(s: Seq<u8>, ps: Seq<int>, i: int) -> Nal {
    Nal {
        start: ps[i] as usize,
        payload: (ps[i] + code_len(s, ps[i])) as usize,
        end: (if i + 1 < ps.len() {
            ps[i + 1]
        } else {
            s.len() as int
        }) as usize,
    }
}

/// Every NAL of the stream, in order.
pub open spec fn spec_nals(s: Seq<u8>) -> Seq<Nal> {
    let ps = starts_from(s, 0);
    Seq::new(ps.len(), |i: int| nal_at(s, ps, i))
}

proof fn lemma_starts_bounds(s: Seq<u8>, at: int)
    requires
        0 <= at,
    ensures
        forall|i: int|
            0 <= i < starts_from(s, at).len() ==> at <= #[trigger] starts_from(s, at)[i] < s.len()
                && code_len(s, starts_from(s, at)[i]) > 0,
        forall|i: int, j: int|
            0 <= i < j < starts_from(s, at).len() ==> #[trigger] starts_from(s, at)[i]
                + code_len(s, starts_from(s, at)[i]) <= #[trigger] starts_from(s, at)[j],
    decreases s.len() - at,
{
    if at >= s.len() {
    } else if code_len(s, at) > 0 {
        let next = at + code_len(s, at);
        lemma_starts_bounds(s, next);
        let rest = starts_from(s, next);
        let all = starts_from(s, at);
        assert(all == seq![at] + rest);
        assert forall|i: int| 0 <= i < all.len() implies at <= #[trigger] all[i] < s.len()
            && code_len(s, all[i]) > 0 by {
            if i > 0 {
                assert(all[i] == rest[i - 1]);
            }
        }
        assert forall|i: int, j: int|
            0 <= i < j < all.len() implies #[trigger] all[i] + code_len(s, all[i])
            <= #[trigger] all[j] by {
            assert(all[j] == rest[j - 1]);
            if i > 0 {
                assert(all[i] == rest[i - 1]);
            }
        }
    } else {
        lemma_starts_bounds(s, at + 1);
        assert(starts_from(s, at) == starts_from(s, at + 1));
    }
}

/// The start code at `at`, if there is one.
pub fn start_code_len(stream: &[u8], at: usize) -> (res: Option<usize>)
    requires
        at <= stream@.len(),
    ensures
        code_len(stream@, at as int) == 0 <==> res is None,
        res matches Some(n) ==> n == code_len(stream@, at as int),
{
    let n = stream.len();
    if n - at >= 3 && stream[at] == 0 && stream[at + 1] == 0 && stream[at + 2] == 1 {
        Some(3)
    } else if n - at >= 4 && stream[at] == 0 && stream[at + 1] == 0 && stream[at + 2] == 0
        && stream[at + 3] == 1 {
        Some(4)
    } else {
        None
    }
}

/// The NAL units of a stream, each running from its start code to the next one.
pub fn nals(stream: &[u8]) -> (found: Vec<Nal>)
    ensures
        found@ == spec_nals(stream@),
{
    let mut found: Vec<Nal> = Vec::new();
    let mut cursor: usize = 0;
    let mut open: Option<(usize, usize)> = None;
    let ghost all = starts_from(stream@, 0);
    let ghost mut seen: Seq<int> = Seq::empty();
    proof {
        lemma_starts_bounds(stream@, 0);
    }
    while cursor < stream.len()
        invariant
            cursor <= stream@.len(),
            all == starts_from(stream@, 0),
            all == seen + starts_from(stream@, cursor as int),
            forall|i: int|
                0 <= i < all.len() ==> 0 <= #[trigger] all[i] < stream@.len() && code_len(
                    stream@,
                    all[i],
                ) > 0,
            forall|i: int, j: int|
                0 <= i < j < all.len() ==> #[trigger] all[i] + code_len(stream@, all[i])
                    <= #[trigger] all[j],
            seen.len() == 0 ==> open is None && found@.len() == 0,
            seen.len() > 0 ==> found@.len() == seen.len() - 1 && open == Some(
                (
                    seen.last() as usize,
                    (seen.last() + code_len(stream@, seen.last())) as usize,
                ),
            ) && seen.last() + code_len(stream@, seen.last()) <= cursor,
            forall|i: int| 0 <= i < found@.len() ==> found@[i] == nal_at(stream@, all, i),
        decreases stream@.len() - cursor,
    {
        match start_code_len(stream, cursor) {
            Some(length) => {
                proof {
                    assert(starts_from(stream@, cursor as int) == seq![cursor as int]
                        + starts_from(stream@, cursor + length));
                    assert(all == seen.push(cursor as int) + starts_from(stream@, cursor + length));
                    assert(all[seen.len() as int] == cursor as int);
                }
                if let Some((start, payload)) = open {
                    proof {
                        assert(all[seen.len() - 1] == seen.last());
                        assert(nal_at(stream@, all, seen.len() - 1) == Nal {
                            start,
                            payload,
                            end: cursor,
                        });
                    }
                    found.push(Nal { start, payload, end: cursor });
                }
                open = Some((cursor, cursor + length));
                proof {
                    seen = seen.push(cursor as int);
                }
                cursor = cursor + length;
            },
            None => {
                proof {
                    assert(starts_from(stream@, cursor as int) == starts_from(
                        stream@,
                        cursor + 1,
                    ));
                }
                cursor = cursor + 1;
            },
        }
    }
    proof {
        assert(starts_from(stream@, cursor as int) =~= Seq::empty());
        assert(all =~= seen);
    }
    if let Some((start, payload)) = open {
        proof {
            assert(nal_at(stream@, all, seen.len() - 1) == Nal {
                start,
                payload,
                end: stream.len(),
            });
        }
        found.push(Nal { start, payload, end: stream.len() });
    }
    proof {
        assert(found@ =~= spec_nals(stream@));
    }
    found
}

/// The NAL unit type carried in a header byte.
pub open spec fn header_kind(header: u8) -> int {
    (header as int / 2) % 64
}

/// HEVC NAL kinds that lead an access unit: VPS, SPS, PPS, AUD, and prefix SEI.
pub open spec fn spec_leads_access_unit(kind: int) -> bool {
    (32 <= kind <= 35) || kind == 39 || kind == 40
}

/// Coded slice segments.
pub open spec fn spec_is_slice(kind: int) -> bool {
    0 <= kind <= 31
}

/// `first_slice_segment_in_pic_flag`: the top bit of the byte after the NAL header.
pub open spec fn first_slice_flag(s: Seq<u8>, nal: Nal) -> bool {
    nal.payload + 2 < nal.end && s[nal.payload + 2] >= 0x80
}

/// Folds the first `n` NALs into the start offsets of the access units seen so far and
/// whether the newest unit already holds a coded slice. A NAL with no header byte is
/// skipped.
pub open spec fn unit_scan(s: Seq<u8>, ns: Seq<Nal>, n: nat) -> (Seq<int>, bool)
    decreases n,
{
    if n == 0 {
        (Seq::empty(), false)
    } else {
        let (units, holds) = unit_scan(s, ns, (n - 1) as nat);
        let nal = ns[n - 1];
        if nal.payload >= nal.end {
            (units, holds)
        } else {
            let kind = header_kind(s[nal.payload as int]);
            let boundary = if spec_is_slice(kind) {
                holds && first_slice_flag(s, nal)
            } else {
                holds && spec_leads_access_unit(kind)
            };
            if boundary {
                (units.push(nal.start as int), spec_is_slice(kind))
            } else if units.len() == 0 {
                (seq![nal.start as int], holds || spec_is_slice(kind))
            } else {
                (units, holds || spec_is_slice(kind))
            }
        }
    }
}

/// Where each access unit of the stream begins.
pub open spec fn unit_starts(s: Seq<u8>) -> Seq<int> {
    unit_scan(s, spec_nals(s), spec_nals(s).len()).0
}

/// The `k`th unit runs from its start to the next unit's, the last one to the end.
pub open spec fn unit_bytes(s: Seq<u8>, us: Seq<int>, k: int) -> Seq<u8> {
    s.subrange(us[k], if k + 1 < us.len() { us[k + 1] } else { s.len() as int })
}

fn leads_access_unit(kind: u8) -> (res: bool)
    ensures
        res == spec_leads_access_unit(kind as int),
{
    (32 <= kind && kind <= 35) || kind == 39 || kind == 40
}

fn is_slice(kind: u8) -> (res: bool)
    ensures
        res == spec_is_slice(kind as int),
{
    kind <= 31
}

proof fn lemma_nal_shape(s: Seq<u8>)
    requires
        s.len() <= usize::MAX,
    ensures
        forall|i: int|
            0 <= i < spec_nals(s).len() ==> #[trigger] spec_nals(s)[i].start
                < spec_nals(s)[i].payload <= spec_nals(s)[i].end <= s.len(),
        forall|i: int, j: int|
            0 <= i < j < spec_nals(s).len() ==> #[trigger] spec_nals(s)[i].start
                < #[trigger] spec_nals(s)[j].start,
{
    lemma_starts_bounds(s, 0);
    let ps = starts_from(s, 0);
    assert forall|i: int| 0 <= i < spec_nals(s).len() implies #[trigger] spec_nals(s)[i].start
        < spec_nals(s)[i].payload <= spec_nals(s)[i].end <= s.len() by {
        assert(ps[i] < s.len());
        assert(code_len(s, ps[i]) > 0);
        assert(ps[i] + code_len(s, ps[i]) <= s.len());
        if i + 1 < ps.len() {
            assert(ps[i] + code_len(s, ps[i]) <= ps[i + 1]);
            assert(ps[i + 1] < s.len());
        }
    }
    assert forall|i: int, j: int| 0 <= i < j < spec_nals(s).len() implies #[trigger] spec_nals(
        s,
    )[i].start < #[trigger] spec_nals(s)[j].start by {
        assert(ps[i] + code_len(s, ps[i]) <= ps[j]);
        assert(ps[j] < s.len());
    }
}

/// Splits a recorded HEVC elementary stream into access units.
///
/// Parameter sets belong to the picture they precede, not the one they follow, so a
/// coded slice only opens a new unit once the current one already holds a slice.
pub fn access_units(stream: &[u8]) -> (out: Vec<&[u8]>)
    ensures
        out@.len() == unit_starts(stream@).len(),
        forall|k: int|
            0 <= k < out@.len() ==> #[trigger] out@[k]@ == unit_bytes(
                stream@,
                unit_starts(stream@),
                k,
            ),
        forall|k: int| 0 <= k < out@.len() ==> #[trigger] out@[k]@.len() > 0,
{
    let mut out: Vec<&[u8]> = Vec::new();
    let mut current: Option<usize> = None;
    let mut current_holds_slice = false;
    let found = nals(stream);
    let ghost ns = spec_nals(stream@);
    let ghost mut units: Seq<int> = Seq::empty();
    let ghost mut last: int = 0;
    let total = stream.len();
    proof {
        lemma_nal_shape(stream@);
    }
    let mut index: usize = 0;
    while index < found.len()
        invariant
            found@ == ns,
            ns == spec_nals(stream@),
            index <= ns.len(),
            (units, current_holds_slice) == unit_scan(stream@, ns, index as nat),
            forall|i: int|
                0 <= i < ns.len() ==> #[trigger] ns[i].start < ns[i].payload <= ns[i].end
                    <= stream@.len(),
            forall|i: int, j: int| 0 <= i < j < ns.len() ==> #[trigger] ns[i].start < #[trigger] ns[j].start,
            units.len() == 0 ==> current is None && out@.len() == 0 && !current_holds_slice,
            units.len() > 0 ==> current == Some(units.last() as usize) && out@.len() == units.len()
                - 1 && 0 <= last < index && units.last() == ns[last].start as int,
            forall|k: int| 0 <= k < units.len() ==> 0 <= #[trigger] units[k] < stream@.len(),
            forall|k: int| 0 <= k < units.len() - 1 ==> #[trigger] units[k] < units[k + 1],
            forall|k: int|
                0 <= k < out@.len() ==> #[trigger] out@[k]@ == stream@.subrange(
                    units[k],
                    units[k + 1],
                ),
        decreases ns.len() - index,
    {
        let nal = found[index];
        proof {
            assert(ns[index as int] == nal);
            assert(ns[index as int].start < ns[index as int].payload);
        }
        if nal.payload < nal.end {
            let header: u8 = stream[nal.payload];
            let kind: u8 = (header >> 1) & 0x3F;
            assert(kind as int == (header as int / 2) % 64) by (bit_vector)
                requires
                    kind == (header >> 1) & 0x3F,
            ;
            let boundary = if is_slice(kind) {
                current_holds_slice && nal.end - nal.payload > 2 && stream[nal.payload + 2]
                    >= 0x80
            } else {
                current_holds_slice && leads_access_unit(kind)
            };
            if boundary {
                proof {
                    assert(units.last() < nal.start);
                }
                if let Some(start) = current {
                    let unit = &stream[start..nal.start];
                    proof {
                        let old_units = units;
                        assert(old_units.push(nal.start as int)[old_units.len() - 1] == start);
                    }
                    out.push(unit);
                }
                current = Some(nal.start);
                current_holds_slice = false;
                proof {
                    units = units.push(nal.start as int);
                    last = index as int;
                }
            } else if current.is_none() {
                current = Some(nal.start);
                proof {
                    units = seq![nal.start as int];
                    last = index as int;
                }
            }
            current_holds_slice = current_holds_slice || is_slice(kind);
        }
        index = index + 1;
    }
    if let Some(start) = current {
        let unit = &stream[start..stream.len()];
        out.push(unit);
    }
    proof {
        assert(units == unit_starts(stream@));
        assert forall|k: int| 0 <= k < out@.len() implies #[trigger] out@[k]@ == unit_bytes(
            stream@,
            units,
            k,
        ) && out@[k]@.len() > 0 by {
            if k + 1 < units.len() {
                assert(units[k] < units[k + 1]);
            }
        }
    }
    out
}

} // verus!
