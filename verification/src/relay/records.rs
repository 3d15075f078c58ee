//! The relay's records: status codes the core answers with, the messages it frames,
//! what a host says about itself, and the commands a watcher may send.
//!
//! The core reads and writes the wire format; what comes back through its C records is
//! checked and named here.

use vstd::prelude::*;

use crate::text::{owned, push_str};

verus! {

pub const OPC_RELAY_OK: i32 = 1;

pub const OPC_RELAY_NEED_MORE: i32 = 0;

pub const OPC_RELAY_ERR_NULL: i32 = -1;

pub const OPC_RELAY_ERR_MALFORMED: i32 = -2;

pub const OPC_RELAY_ERR_PAYLOAD_TOO_LARGE: i32 = -3;

pub const OPC_RELAY_ERR_UNKNOWN_KIND: i32 = -4;

pub const OPC_RELAY_ERR_OUT_OF_RANGE: i32 = -5;

pub const OPC_RELAY_ACTION_NONE: i32 = 0;

pub const OPC_RELAY_ACTION_RECONNECT: i32 = 1;

pub const OPC_RELAY_ACTION_EXHAUSTED: i32 = 2;

pub const OPC_RELAY_COMMAND_TOGGLE_RECORDING: i32 = 0;

pub const OPC_RELAY_COMMAND_TAP_FOCUS: i32 = 1;

pub const OPC_RELAY_COMMAND_SET_ISO: i32 = 2;

pub const OPC_RELAY_COMMAND_SET_SHUTTER_DENOM: i32 = 3;

pub const OPC_RELAY_COMMAND_SET_WHITE_BALANCE: i32 = 4;

pub const OPC_RELAY_COMMAND_SET_COLOR: i32 = 5;

pub const OPC_RELAY_COMMAND_SET_ZOOM: i32 = 6;

/// Why a core call refused the bytes it was given.
#[derive(Debug, Clone, PartialEq, Eq, Structural)]
pub enum RelayError {
    /// A pointer the core requires was null, or a length was negative.
    Null,
    /// The payload did not match the shape the core expects.
    Malformed,
    /// A declared length exceeded the relay's payload ceiling.
    PayloadTooLarge,
    /// The host sent a message kind this build does not know.
    UnknownKind,
    /// An index or coordinate fell outside the accepted range.
    OutOfRange,
    /// A string handed to the core contained an interior NUL.
    InvalidText,
    /// The core returned a status this build does not recognise.
    Unknown(i32),
}

/// What a core status means: success, one of the named refusals, or an unknown code.
pub open spec fn spec_check(code: i32) -> Result<(), RelayError> {
    if code == OPC_RELAY_OK {
        Ok(())
    } else if code == OPC_RELAY_ERR_NULL {
        Err(RelayError::Null)
    } else if code == OPC_RELAY_ERR_MALFORMED {
        Err(RelayError::Malformed)
    } else if code == OPC_RELAY_ERR_PAYLOAD_TOO_LARGE {
        Err(RelayError::PayloadTooLarge)
    } else if code == OPC_RELAY_ERR_UNKNOWN_KIND {
        Err(RelayError::UnknownKind)
    } else if code == OPC_RELAY_ERR_OUT_OF_RANGE {
        Err(RelayError::OutOfRange)
    } else {
        Err(RelayError::Unknown(code))
    }
}

/// Reads a core status.
pub fn check(code: i32) -> (res: Result<(), RelayError>)
    ensures
        res == spec_check(code),
{
    if code == OPC_RELAY_OK {
        Ok(())
    } else if code == OPC_RELAY_ERR_NULL {
        Err(RelayError::Null)
    } else if code == OPC_RELAY_ERR_MALFORMED {
        Err(RelayError::Malformed)
    } else if code == OPC_RELAY_ERR_PAYLOAD_TOO_LARGE {
        Err(RelayError::PayloadTooLarge)
    } else if code == OPC_RELAY_ERR_UNKNOWN_KIND {
        Err(RelayError::UnknownKind)
    } else if code == OPC_RELAY_ERR_OUT_OF_RANGE {
        Err(RelayError::OutOfRange)
    } else {
        Err(RelayError::Unknown(code))
    }
}

/// Relay constants owned by the core. The shell must not hardcode these.
#[derive(Debug, Clone)]
pub struct ProtocolInfo {
    pub version: i32,
    pub hevc_codec: i32,
    pub max_payload_bytes: usize,
    pub framing_header_bytes: usize,
    pub max_retries: i32,
    pub join_timeout_ms: u64,
    pub silence_timeout_ms: u64,
    pub service_type: String,
    pub txt_camera: String,
    pub txt_watchable: String,
}

impl ProtocolInfo {
    /// The Bonjour type in the form `mdns-sd` expects: the service type, then `.local.`.
    pub fn mdns_service_type(&self) -> (name: String)
        ensures
            name@ == self.service_type@ + ".local."@,
    {
        let mut name = owned(self.service_type.as_str());
        push_str(&mut name, ".local.");
        name
    }
}

/// One framed message located inside the caller's buffer.
#[derive(Debug, Clone, PartialEq, Eq)]
pub struct Message {
    pub kind: u8,
    pub payload_start: usize,
    pub payload_end: usize,
    pub consumed: usize,
}

/// Places a message the core found in a buffer of `buffer_len` bytes: its payload must
/// lie inside the buffer, and so must what it consumed.
pub fn message_from_header(
    kind: u8,
    payload_offset: u32,
    payload_len: u32,
    consumed: u32,
    buffer_len: usize,
) -> (res: Result<Message, RelayError>)
    ensures
        payload_offset as int + payload_len as int > buffer_len || consumed as int > buffer_len
            <==> res == Err::<Message, RelayError>(RelayError::Malformed),
        res is Ok || res == Err::<Message, RelayError>(RelayError::Malformed),
        res matches Ok(message) ==> message == (Message {
            kind,
            payload_start: payload_offset as usize,
            payload_end: (payload_offset + payload_len) as usize,
            consumed: consumed as usize,
        }),
{
    let start = payload_offset as u64;
    let end = start + payload_len as u64;
    if end > buffer_len as u64 || consumed as u64 > buffer_len as u64 {
        return Err(RelayError::Malformed);
    }
    Ok(Message {
        kind,
        payload_start: start as usize,
        payload_end: end as usize,
        consumed: consumed as usize,
    })
}

/// `WatcherRelayFrameMetadata`, flattened.
#[derive(Debug, Clone, PartialEq)]
pub struct FrameMeta {
    pub codec: i32,
    pub is_keyframe: bool,
    pub is_recording: bool,
    pub extra_mirrored: bool,
    pub parameter_set_count: i32,
}

/// Host telemetry mirrored onto the watcher's HUD.
#[derive(Debug, Clone, Default)]
pub struct State {
    pub is_recording: bool,
    pub battery_percent: i32,
    pub allows_control_requests: bool,
    pub is_nano: Option<bool>,
    pub format: String,
    pub color: String,
    pub zoom: String,
    pub live_fps: String,
    pub camera_name: String,
    pub iso: String,
    pub shutter: String,
    pub camera_model: String,
    pub iso_indices: Vec<i32>,
    pub shutter_denominators: Vec<i32>,
    pub zoom_hundredths: Vec<i32>,
}

/// Why a host turned a join away. Only a passcode prompt is recoverable.
#[derive(Debug, Clone)]
pub struct JoinDenied {
    pub reason: String,
    pub passcode_required: bool,
}

/// Who currently holds camera control.
#[derive(Debug, Clone)]
pub struct ControlToken {
    pub holder_name: String,
    pub holder_is_recipient: bool,
}

impl Default for ControlToken {
    /// Before any token arrives, the host holds control.
    fn default() -> (token: Self)
        ensures
            token.holder_name@ == "Host"@,
            !token.holder_is_recipient,
    {
        ControlToken { holder_name: owned("Host"), holder_is_recipient: false }
    }
}

/// The host's acceptance reply.
#[derive(Debug, Clone)]
pub struct Hello {
    pub version: i32,
    pub host_name: String,
    pub camera_name: String,
}

impl Hello {
    /// The title the watcher shows for this feed: the host, then the camera if named.
    pub fn title(&self) -> (title: String)
        ensures
            self.camera_name@.len() == 0 ==> title@ == self.host_name@,
            self.camera_name@.len() > 0 ==> title@ == self.host_name@ + " · "@
                + self.camera_name@,
    {
        let camera = crate::text::chars_of(self.camera_name.as_str());
        if camera.len() == 0 {
            owned(self.host_name.as_str())
        } else {
            let mut title = owned(self.host_name.as_str());
            push_str(&mut title, " · ");
            push_str(&mut title, self.camera_name.as_str());
            title
        }
    }
}

/// Camera writes a watcher may send once the host grants control.
#[derive(Debug, Clone, Copy, PartialEq, Eq, Structural)]
pub enum Command {
    ToggleRecording,
    TapFocus { camera_x: i32, camera_y: i32, coordinate_width: i32, coordinate_height: i32 },
    SetIso(i32),
    SetShutterDenominator(i32),
    SetWhiteBalance { mode: i32, kelvin: i32, tint: i32 },
    SetColor(i32),
    SetZoom(i32),
}

/// The core's command kind and its four integer arguments, unused ones zero.
pub open spec fn spec_arguments(command: Command) -> (i32, [i32; 4]) {
    match command {
        Command::ToggleRecording => (OPC_RELAY_COMMAND_TOGGLE_RECORDING, [0, 0, 0, 0]),
        Command::TapFocus { camera_x, camera_y, coordinate_width, coordinate_height } => (
            OPC_RELAY_COMMAND_TAP_FOCUS,
            [camera_x, camera_y, coordinate_width, coordinate_height],
        ),
        Command::SetIso(value) => (OPC_RELAY_COMMAND_SET_ISO, [value, 0, 0, 0]),
        Command::SetShutterDenominator(value) => (
            OPC_RELAY_COMMAND_SET_SHUTTER_DENOM,
            [value, 0, 0, 0],
        ),
        Command::SetWhiteBalance { mode, kelvin, tint } => (
            OPC_RELAY_COMMAND_SET_WHITE_BALANCE,
            [mode, kelvin, tint, 0],
        ),
        Command::SetColor(value) => (OPC_RELAY_COMMAND_SET_COLOR, [value, 0, 0, 0]),
        Command::SetZoom(value) => (OPC_RELAY_COMMAND_SET_ZOOM, [value, 0, 0, 0]),
    }
}

impl Command {
    /// What the core's encoder is handed for this command.
    pub fn arguments(self) -> (args: (i32, [i32; 4]))
        ensures
            args == spec_arguments(self),
    {
        match self {
            Command::ToggleRecording => (OPC_RELAY_COMMAND_TOGGLE_RECORDING, [0, 0, 0, 0]),
            Command::TapFocus { camera_x, camera_y, coordinate_width, coordinate_height } => (
                OPC_RELAY_COMMAND_TAP_FOCUS,
                [camera_x, camera_y, coordinate_width, coordinate_height],
            ),
            Command::SetIso(value) => (OPC_RELAY_COMMAND_SET_ISO, [value, 0, 0, 0]),
            Command::SetShutterDenominator(value) => (
                OPC_RELAY_COMMAND_SET_SHUTTER_DENOM,
                [value, 0, 0, 0],
            ),
            Command::SetWhiteBalance { mode, kelvin, tint } => (
                OPC_RELAY_COMMAND_SET_WHITE_BALANCE,
                [mode, kelvin, tint, 0],
            ),
            Command::SetColor(value) => (OPC_RELAY_COMMAND_SET_COLOR, [value, 0, 0, 0]),
            Command::SetZoom(value) => (OPC_RELAY_COMMAND_SET_ZOOM, [value, 0, 0, 0]),
        }
    }
}

/// What the core says to do after a deadline passed.
#[derive(Debug, Clone, Copy, PartialEq, Eq, Structural)]
pub enum RecoveryAction {
    Idle,
    Reconnect,
    Exhausted,
}

/// Reads the core's recovery code; anything unknown means do nothing.
pub fn action(code: i32) -> (res: RecoveryAction)
    ensures
        res == (if code == OPC_RELAY_ACTION_RECONNECT {
            RecoveryAction::Reconnect
        } else if code == OPC_RELAY_ACTION_EXHAUSTED {
            RecoveryAction::Exhausted
        } else {
            RecoveryAction::Idle
        }),
{
    if code == OPC_RELAY_ACTION_RECONNECT {
        RecoveryAction::Reconnect
    } else if code == OPC_RELAY_ACTION_EXHAUSTED {
        RecoveryAction::Exhausted
    } else {
        RecoveryAction::Idle
    }
}

} // verus!
