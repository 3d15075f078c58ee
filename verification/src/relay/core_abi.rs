//! The records the core's C interface fills in, as plain values.

use vstd::prelude::*;

use crate::relay::records::{
    check, message_from_header, spec_check, ControlToken, Hello, JoinDenied, Message,
    RelayError, State, OPC_RELAY_NEED_MORE,
};

verus! {

/// Where a framed message sits in the buffer the core was handed.
#[derive(Clone, Copy, Debug, Default, PartialEq, Eq)]
pub struct OpcRelayMessageHeader {
    pub kind: u8,
    pub reserved: [u8; 3],
    pub payload_offset: u32,
    pub payload_len: u32,
    pub consumed: u32,
}

/// Where the metadata and the HEVC access unit sit inside one frame blob.
#[derive(Clone, Copy, Debug, Default, PartialEq, Eq)]
pub struct OpcRelayBlobSplit {
    pub meta_offset: u32,
    pub meta_len: u32,
    pub hevc_offset: u32,
    pub hevc_len: u32,
}

/// A tap-to-focus point in the relay's coordinates.
#[derive(Clone, Copy, Debug, Default, PartialEq, Eq)]
pub struct OpcRelayFocusPoint {
    pub x: i32,
    pub y: i32,
}

/// The three window cursors an acknowledgement carries.
#[derive(Clone, Copy, Debug, Default, PartialEq, Eq)]
pub struct OpcAckWindows {
    pub video: u32,
    pub acked_data: u32,
    pub extra: u32,
    pub has_acked_data: i32,
    pub has_extra: i32,
}

/// The per-join policy the core owns; only ever handled by reference.
#[derive(Debug)]
pub struct OpcRelayWatcherPolicy {
    private: [u8; 0],
}

/// What the framing decoder's answer means for a buffer of `buffer_len` bytes: more
/// bytes needed, a refusal, or the message the header locates, checked against the
/// buffer.
pub fn decode_outcome(status: i32, header: &OpcRelayMessageHeader, buffer_len: usize) -> (res:
    Result<Option<Message>, RelayError>)
    ensures
        status == OPC_RELAY_NEED_MORE ==> res == Ok::<Option<Message>, RelayError>(None),
        status != OPC_RELAY_NEED_MORE && spec_check(status) is Err ==> res == Err::<
            Option<Message>,
            RelayError,
        >(spec_check(status)->Err_0),
        status != OPC_RELAY_NEED_MORE && spec_check(status) is Ok ==> {
            let end = header.payload_offset as int + header.payload_len as int;
            if end > buffer_len || header.consumed as int > buffer_len {
                res == Err::<Option<Message>, RelayError>(RelayError::Malformed)
            } else {
                res == Ok::<Option<Message>, RelayError>(
                    Some(
                        Message {
                            kind: header.kind,
                            payload_start: header.payload_offset as usize,
                            payload_end: end as usize,
                            consumed: header.consumed as usize,
                        },
                    ),
                )
            }
        },
{
    if status == OPC_RELAY_NEED_MORE {
        return Ok(None);
    }
    match check(status) {
        Err(error) => Err(error),
        Ok(()) => match message_from_header(
            header.kind,
            header.payload_offset,
            header.payload_len,
            header.consumed,
            buffer_len,
        ) {
            Ok(message) => Ok(Some(message)),
            Err(error) => Err(error),
        },
    }
}

/// Where a frame blob's metadata and access unit lie, as offsets into the payload.
#[derive(Clone, Copy, Debug, PartialEq, Eq, Structural)]
pub struct BlobRanges {
    pub meta_start: usize,
    pub meta_end: usize,
    pub unit_start: usize,
    pub unit_end: usize,
}

/// What the blob decoder's answer means for a payload of `payload_len` bytes: a refusal,
/// or the two ranges the split locates, each checked to lie inside the payload.
pub fn blob_ranges(status: i32, split: &OpcRelayBlobSplit, payload_len: usize) -> (res: Result<
    BlobRanges,
    RelayError,
>)
    ensures
        spec_check(status) is Err ==> res == Err::<BlobRanges, RelayError>(
            spec_check(status)->Err_0,
        ),
        spec_check(status) is Ok ==> {
            let meta_end = split.meta_offset as int + split.meta_len as int;
            let unit_end = split.hevc_offset as int + split.hevc_len as int;
            if meta_end > payload_len || unit_end > payload_len {
                res == Err::<BlobRanges, RelayError>(RelayError::Malformed)
            } else {
                res == Ok::<BlobRanges, RelayError>(
                    BlobRanges {
                        meta_start: split.meta_offset as usize,
                        meta_end: meta_end as usize,
                        unit_start: split.hevc_offset as usize,
                        unit_end: unit_end as usize,
                    },
                )
            }
        },
{
    match check(status) {
        Err(error) => Err(error),
        Ok(()) => {
            let meta_end: u64 = split.meta_offset as u64 + split.meta_len as u64;
            let unit_end: u64 = split.hevc_offset as u64 + split.hevc_len as u64;
            if meta_end > payload_len as u64 || unit_end > payload_len as u64 {
                return Err(RelayError::Malformed);
            }
            Ok(
                BlobRanges {
                    meta_start: split.meta_offset as usize,
                    meta_end: meta_end as usize,
                    unit_start: split.hevc_offset as usize,
                    unit_end: unit_end as usize,
                },
            )
        },
    }
}

/// How many bytes a short text field holds.
pub const OPC_RELAY_TEXT_CAP: usize = 64;

/// How many bytes a refusal's reason holds.
pub const OPC_RELAY_REASON_CAP: usize = 256;

/// How many values an option list holds.
pub const OPC_RELAY_OPTIONS_CAP: usize = 64;

/// Host telemetry as the core's decoder fills it in. Text fields are NUL-terminated
/// bytes; option lists hold `*_count` values.
#[derive(Clone, Copy, Debug, PartialEq, Eq)]
pub struct OpcRelayState {
    pub is_recording: i32,
    pub battery_percent: i32,
    pub allows_control_requests: i32,
    pub is_nano: i32,
    pub has_control_options: i32,
    pub iso_count: i32,
    pub shutter_count: i32,
    pub zoom_count: i32,
    pub iso_indices: [i32; 64],
    pub shutter_denominators: [i32; 64],
    pub zoom_hundredths: [i32; 64],
    pub format: [u8; 64],
    pub color: [u8; 64],
    pub zoom: [u8; 64],
    pub live_fps: [u8; 64],
    pub camera_name: [u8; 64],
    pub iso: [u8; 64],
    pub shutter: [u8; 64],
    pub camera_model: [u8; 64],
}

/// A host's refusal as the core's decoder fills it in.
#[derive(Clone, Copy, Debug, PartialEq, Eq)]
pub struct OpcRelayJoinDenied {
    pub passcode_required: i32,
    pub reason: [u8; 256],
}

/// The control holder as the core's decoder fills it in.
#[derive(Clone, Copy, Debug, PartialEq, Eq)]
pub struct OpcRelayControlToken {
    pub holder_is_recipient: i32,
    pub holder_name: [u8; 64],
}

/// A host's acceptance as the core's decoder fills it in.
#[derive(Clone, Copy, Debug, PartialEq, Eq)]
pub struct OpcRelayHello {
    pub version: i32,
    pub host_name: [u8; 64],
    pub camera_name: [u8; 64],
}

/// What `String::from_utf8_lossy` makes of some bytes: their text, with each invalid
/// sequence replaced.
pub uninterp spec fn lossy_utf8(bytes: Seq<u8>) -> Seq<char>;

/// Bytes that are all ASCII, each read as the character of the same code.
pub open spec fn ascii_chars(bytes: Seq<u8>) -> Seq<char> {
    bytes.map_values(|b: u8| b as char)
}

/// Bytes as text. A thin wrapper over `String::from_utf8_lossy`, which returns valid
/// UTF-8 unchanged, so ASCII bytes come back as the same characters.
#[verifier::external_body]
fn lossy_text(bytes: &[u8]) -> (text: String)
    ensures
        text@ == lossy_utf8(bytes@),
        (forall|i: int| 0 <= i < bytes@.len() ==> bytes@[i] < 0x80) ==> text@ == ascii_chars(
            bytes@,
        ),
{
    String::from_utf8_lossy(bytes).into_owned()
}

/// The bytes of a field before its first NUL, or all of them when there is none.
pub open spec fn before_nul(field: Seq<u8>) -> Seq<u8>
    decreases field.len(),
{
    if field.len() == 0 {
        field
    } else if field[0] == 0 {
        Seq::empty()
    } else {
        seq![field[0]] + before_nul(field.drop_first())
    }
}

/// The text a NUL-terminated field holds.
pub open spec fn field_text(field: Seq<u8>) -> Seq<char> {
    lossy_utf8(before_nul(field))
}

/// Reads a NUL-terminated string out of one of the fixed character fields.
pub fn read_text(field: &[u8]) -> (text: String)
    ensures
        text@ == field_text(field@),
        (forall|i: int| 0 <= i < field@.len() ==> field@[i] < 0x80) ==> text@ == ascii_chars(
            before_nul(field@),
        ),
{
    let mut n: usize = 0;
    proof {
        assert(field@.skip(0) =~= field@);
        assert(field@.subrange(0, 0) + before_nul(field@) =~= before_nul(field@));
    }
    while n < field.len() && field[n] != 0
        invariant
            n <= field@.len(),
            forall|k: int| 0 <= k < n ==> field@[k] != 0,
            before_nul(field@) == field@.subrange(0, n as int) + before_nul(field@.skip(n as int)),
        decreases field@.len() - n,
    {
        proof {
            let rest = field@.skip(n as int);
            assert(rest.drop_first() =~= field@.skip(n + 1));
            assert(field@.subrange(0, n as int) + seq![rest[0]] =~= field@.subrange(0, n + 1));
            assert(field@.subrange(0, n as int) + (seq![rest[0]] + before_nul(rest.drop_first()))
                =~= field@.subrange(0, n + 1) + before_nul(field@.skip(n + 1)));
        }
        n = n + 1;
    }
    proof {
        let rest = field@.skip(n as int);
        assert(before_nul(rest) =~= Seq::<u8>::empty());
        assert(field@.subrange(0, n as int) + Seq::<u8>::empty() =~= field@.subrange(0, n as int));
    }
    lossy_text(&field[0..n])
}

/// The first `count` values of a list, `count` held between none and all of them.
pub open spec fn counted_values(values: Seq<i32>, count: i32) -> Seq<i32> {
    if count <= 0 {
        Seq::empty()
    } else if count >= values.len() {
        values
    } else {
        values.take(count as int)
    }
}

fn counted(values: &[i32], count: i32) -> (out: Vec<i32>)
    ensures
        out@ == counted_values(values@, count),
{
    let n: usize = if count <= 0 {
        0
    } else if count as u64 >= values.len() as u64 {
        values.len()
    } else {
        count as usize
    };
    let mut out: Vec<i32> = Vec::new();
    let mut i: usize = 0;
    while i < n
        invariant
            n <= values@.len(),
            i <= n,
            out@ == values@.take(i as int),
        decreases n - i,
    {
        out.push(values[i]);
        i = i + 1;
        proof {
            assert(out@ =~= values@.take(i as int));
        }
    }
    proof {
        assert(counted_values(values@, count) =~= values@.take(n as int));
    }
    out
}

/// The nano flag: 0 no, 1 yes, anything else not stated.
pub open spec fn nano_of(code: i32) -> Option<bool> {
    if code == 0 {
        Some(false)
    } else if code == 1 {
        Some(true)
    } else {
        None
    }
}

/// The telemetry a decoded record holds, once the decoder's status is checked.
pub fn state_from(status: i32, raw: &OpcRelayState) -> (res: Result<State, RelayError>)
    ensures
        spec_check(status) is Err ==> res == Err::<State, RelayError>(spec_check(status)->Err_0),
        spec_check(status) is Ok ==> (res matches Ok(state) && {
            &&& state.is_recording == (raw.is_recording != 0)
            &&& state.battery_percent == raw.battery_percent
            &&& state.allows_control_requests == (raw.allows_control_requests != 0)
            &&& state.is_nano == nano_of(raw.is_nano)
            &&& state.format@ == field_text(raw.format@)
            &&& state.color@ == field_text(raw.color@)
            &&& state.zoom@ == field_text(raw.zoom@)
            &&& state.live_fps@ == field_text(raw.live_fps@)
            &&& state.camera_name@ == field_text(raw.camera_name@)
            &&& state.iso@ == field_text(raw.iso@)
            &&& state.shutter@ == field_text(raw.shutter@)
            &&& state.camera_model@ == field_text(raw.camera_model@)
            &&& state.iso_indices@ == counted_values(raw.iso_indices@, raw.iso_count)
            &&& state.shutter_denominators@ == counted_values(
                raw.shutter_denominators@,
                raw.shutter_count,
            )
            &&& state.zoom_hundredths@ == counted_values(raw.zoom_hundredths@, raw.zoom_count)
        }),
{
    match check(status) {
        Err(error) => Err(error),
        Ok(()) => Ok(
            State {
                is_recording: raw.is_recording != 0,
                battery_percent: raw.battery_percent,
                allows_control_requests: raw.allows_control_requests != 0,
                is_nano: if raw.is_nano == 0 {
                    Some(false)
                } else if raw.is_nano == 1 {
                    Some(true)
                } else {
                    None
                },
                format: read_text(&raw.format),
                color: read_text(&raw.color),
                zoom: read_text(&raw.zoom),
                live_fps: read_text(&raw.live_fps),
                camera_name: read_text(&raw.camera_name),
                iso: read_text(&raw.iso),
                shutter: read_text(&raw.shutter),
                camera_model: read_text(&raw.camera_model),
                iso_indices: counted(&raw.iso_indices, raw.iso_count),
                shutter_denominators: counted(&raw.shutter_denominators, raw.shutter_count),
                zoom_hundredths: counted(&raw.zoom_hundredths, raw.zoom_count),
            },
        ),
    }
}

/// A refusal as a decoded record says it, once the decoder's status is checked.
pub fn join_denied_from(status: i32, raw: &OpcRelayJoinDenied) -> (res: Result<
    JoinDenied,
    RelayError,
>)
    ensures
        spec_check(status) is Err ==> res == Err::<JoinDenied, RelayError>(
            spec_check(status)->Err_0,
        ),
        spec_check(status) is Ok ==> (res matches Ok(denied) && denied.reason@ == field_text(
            raw.reason@,
        ) && denied.passcode_required == (raw.passcode_required != 0)),
{
    match check(status) {
        Err(error) => Err(error),
        Ok(()) => Ok(
            JoinDenied {
                reason: read_text(&raw.reason),
                passcode_required: raw.passcode_required != 0,
            },
        ),
    }
}

/// The control holder as a decoded record says it, once the decoder's status is checked.
pub fn control_token_from(status: i32, raw: &OpcRelayControlToken) -> (res: Result<
    ControlToken,
    RelayError,
>)
    ensures
        spec_check(status) is Err ==> res == Err::<ControlToken, RelayError>(
            spec_check(status)->Err_0,
        ),
        spec_check(status) is Ok ==> (res matches Ok(token) && token.holder_name@ == field_text(
            raw.holder_name@,
        ) && token.holder_is_recipient == (raw.holder_is_recipient != 0)),
{
    match check(status) {
        Err(error) => Err(error),
        Ok(()) => Ok(
            ControlToken {
                holder_name: read_text(&raw.holder_name),
                holder_is_recipient: raw.holder_is_recipient != 0,
            },
        ),
    }
}

/// A host's acceptance as a decoded record says it, once the decoder's status is checked.
pub fn hello_from(status: i32, raw: &OpcRelayHello) -> (res: Result<Hello, RelayError>)
    ensures
        spec_check(status) is Err ==> res == Err::<Hello, RelayError>(spec_check(status)->Err_0),
        spec_check(status) is Ok ==> (res matches Ok(hello) && hello.version == raw.version
            && hello.host_name@ == field_text(raw.host_name@) && hello.camera_name@ == field_text(
            raw.camera_name@,
        )),
{
    match check(status) {
        Err(error) => Err(error),
        Ok(()) => Ok(
            Hello {
                version: raw.version,
                host_name: read_text(&raw.host_name),
                camera_name: read_text(&raw.camera_name),
            },
        ),
    }
}

} // verus!
