//! What an access unit is: which codec wrote it, and whether it decodes on its own.
//!
//! Both answers come from the bytes. Most Pockets send HEVC, but some live streams are
//! AVC, so the decoder follows the first NAL headers rather than a model assumption.

use vstd::prelude::*;

use crate::decode::annexb::code_len;

verus! {

/// The two codecs a camera's live stream arrives in.
#[derive(Debug, Clone, Copy, PartialEq, Eq, Structural)]
pub enum Codec {
    H264,
    Hevc,
}

/// An AVC header byte that only AVC writes at the head of a stream: IDR, SPS or PPS.
pub open spec fn is_avc_marker(first: u8) -> bool {
    let t = first & 0x1F;
    t == 5 || t == 7 || t == 8
}

/// The HEVC NAL type carried in a header's first byte.
pub open spec fn hevc_type(first: u8) -> u8 {
    (first >> 1u8) & 0x3F
}

/// An HEVC parameter set: VPS, SPS or PPS (types 32 to 34).
pub open spec fn is_hevc_parameter_set(first: u8) -> bool {
    32 <= hevc_type(first) <= 34
}

/// The codec declared by the first telling NAL header at or after `at`. Start codes are
/// only looked for while more than four bytes remain; a code is stepped over whole,
/// anything else one byte at a time.
pub open spec fn codec_from(s: Seq<u8>, at: int) -> Option<Codec>
    decreases s.len() - at,
{
    if at < 0 || at + 4 >= s.len() {
        None
    } else if code_len(s, at) == 0 {
        codec_from(s, at + 1)
    } else {
        let first = s[at + code_len(s, at)];
        if is_avc_marker(first) {
            Some(Codec::H264)
        } else if is_hevc_parameter_set(first) {
            Some(Codec::Hevc)
        } else {
            codec_from(s, at + code_len(s, at))
        }
    }
}

/// Whether the first coded slice at or after `at` refreshes the picture. For AVC a coded
/// slice has type 1 to 5 and refreshes when it is an IDR slice (type 5); for HEVC a coded
/// slice has type 0 to 31 and refreshes when its type is 16 to 23 (BLA through RASL).
/// Parameter sets and other headers ahead of the slice are stepped over.
pub open spec fn keyframe_from(s: Seq<u8>, at: int, avc: bool) -> bool
    decreases s.len() - at,
{
    if at < 0 || at + 4 >= s.len() {
        false
    } else if code_len(s, at) == 0 {
        keyframe_from(s, at + 1, avc)
    } else {
        let first = s[at + code_len(s, at)];
        if avc && 1 <= first & 0x1F <= 5 {
            first & 0x1F == 5
        } else if !avc && hevc_type(first) <= 31 {
            16 <= hevc_type(first) <= 23
        } else {
            keyframe_from(s, at + code_len(s, at), avc)
        }
    }
}

/// A start code of `n` bytes at `at`: `00 00 01`, or `00 00 00 01`.
pub open spec fn start_code_at(s: Seq<u8>, at: int, n: int) -> bool {
    ||| n == 3 && s[at] == 0 && s[at + 1] == 0 && s[at + 2] == 1
    ||| n == 4 && s[at] == 0 && s[at + 1] == 0 && s[at + 2] == 0 && s[at + 3] == 1
}

/// In HEVC the first coded slice decides: at a start code whose NAL header `h` carries
/// a slice type `t = (h >> 1) & 0x3F` of at most 31, the unit from there is a keyframe
/// exactly when `16 <= t <= 23` (BLA, IDR_W_RADL, IDR_N_LP, CRA and the reserved
/// refresh types); a VPS, SPS or PPS there (types 32 to 34) decides nothing and is
/// stepped over.
pub proof fn lemma_hevc_first_slice_decides(s: Seq<u8>, at: int, n: int)
    requires
        0 <= at,
        at + 4 < s.len(),
        start_code_at(s, at, n),
    ensures
        (s[at + n] >> 1u8) & 0x3F <= 31 ==> (keyframe_from(s, at, false) <==> (16 <= (s[at + n]
            >> 1u8) & 0x3F && (s[at + n] >> 1u8) & 0x3F <= 23)),
        32 <= (s[at + n] >> 1u8) & 0x3F <= 34 ==> keyframe_from(s, at, false) == keyframe_from(
            s,
            at + n,
            false,
        ),
{
    assert(code_len(s, at) == n);
}

/// In AVC likewise: at a start code whose NAL header `h` carries a slice type
/// `t = h & 0x1F` from 1 to 5, the unit from there is a keyframe exactly when `t` is 5,
/// an IDR slice; an SPS or PPS there (types 7 and 8) is stepped over.
pub proof fn lemma_avc_first_slice_decides(s: Seq<u8>, at: int, n: int)
    requires
        0 <= at,
        at + 4 < s.len(),
        start_code_at(s, at, n),
    ensures
        1 <= s[at + n] & 0x1F <= 5 ==> (keyframe_from(s, at, true) <==> s[at + n] & 0x1F == 5),
        (s[at + n] & 0x1F == 7 || s[at + n] & 0x1F == 8) ==> keyframe_from(s, at, true)
            == keyframe_from(s, at + n, true),
{
    assert(code_len(s, at) == n);
}

/// The codec the stream declares in its first telling NAL header.
pub fn codec_of(access_unit: &[u8]) -> (codec: Option<Codec>)
    ensures
        codec == codec_from(access_unit@, 0),
{
    let n = access_unit.len();
    let mut index: usize = 0;
    while index < n && n - index > 4
        invariant
            n == access_unit@.len(),
            codec_from(access_unit@, 0) == codec_from(access_unit@, index as int),
        decreases n - index,
    {
        let start: usize = if access_unit[index] == 0 && access_unit[index + 1] == 0
            && access_unit[index + 2] == 1 {
            3
        } else if access_unit[index] == 0 && access_unit[index + 1] == 0 && access_unit[index
            + 2] == 0 && access_unit[index + 3] == 1 {
            4
        } else {
            index = index + 1;
            continue ;
        };
        assert(start as int == code_len(access_unit@, index as int));
        let first = access_unit[index + start];
        if (first & 0x1F) == 5 || (first & 0x1F) == 7 || (first & 0x1F) == 8 {
            return Some(Codec::H264);
        }
        let kind = (first >> 1u8) & 0x3F;
        if 32 <= kind && kind <= 34 {
            return Some(Codec::Hevc);
        }
        index = index + start;
    }
    None
}

/// Whether this access unit can be decoded on its own. Only the first coded slice is
/// read: that NAL's type is the picture's type, and the parameter sets ahead of it say
/// nothing about whether it is a refresh.
pub fn is_keyframe(access_unit: &[u8]) -> (keyframe: bool)
    ensures
        keyframe == keyframe_from(
            access_unit@,
            0,
            codec_from(access_unit@, 0) == Some(Codec::H264),
        ),
{
    let avc = match codec_of(access_unit) {
        Some(Codec::H264) => true,
        _ => false,
    };
    let n = access_unit.len();
    let mut index: usize = 0;
    while index < n && n - index > 4
        invariant
            n == access_unit@.len(),
            avc == (codec_from(access_unit@, 0) == Some(Codec::H264)),
            keyframe_from(access_unit@, 0, avc) == keyframe_from(access_unit@, index as int, avc),
        decreases n - index,
    {
        let start: usize = if access_unit[index] == 0 && access_unit[index + 1] == 0
            && access_unit[index + 2] == 1 {
            3
        } else if access_unit[index] == 0 && access_unit[index + 1] == 0 && access_unit[index
            + 2] == 0 && access_unit[index + 3] == 1 {
            4
        } else {
            index = index + 1;
            continue ;
        };
        assert(start as int == code_len(access_unit@, index as int));
        let first = access_unit[index + start];
        let avc_type = first & 0x1F;
        if avc && 1 <= avc_type && avc_type <= 5 {
            return avc_type == 5;
        }
        let kind = (first >> 1u8) & 0x3F;
        if !avc && kind <= 31 {
            return 16 <= kind && kind <= 23;
        }
        index = index + start;
    }
    false
}

/// More access units than this waiting for the decoder is a backlog.
pub const BACKLOG_LIMIT: usize = 30;

/// Where a backlog is cut, for a queue whose units are keyframes where `keyframes` says
/// so: at the last keyframe, when more units than the limit wait and one of them is a
/// keyframe. Everything before the cut is dropped and the decoder flushed, so the
/// picture catches up instead of playing the past.
pub fn backlog_cut(keyframes: &[bool], limit: usize) -> (cut: Option<usize>)
    ensures
        keyframes@.len() > limit && (exists|i: int| 0 <= i < keyframes@.len() && keyframes@[i])
            <==> cut is Some,
        cut matches Some(at) ==> {
            &&& at < keyframes@.len()
            &&& keyframes@[at as int]
            &&& forall|j: int| at < j < keyframes@.len() ==> !keyframes@[j]
        },
{
    if keyframes.len() <= limit {
        return None;
    }
    let mut i: usize = keyframes.len();
    while i > 0
        invariant
            i <= keyframes@.len(),
            keyframes@.len() > limit,
            forall|j: int| i <= j < keyframes@.len() ==> !keyframes@[j],
        decreases i,
    {
        if keyframes[i - 1] {
            assert(keyframes@[i - 1]);
            return Some(i - 1);
        }
        i = i - 1;
    }
    None
}

} // verus!
