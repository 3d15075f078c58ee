//! The operator commands the shell puts on the wire. What bytes each becomes is the
//! camera facade's business; these are the requests themselves.

use vstd::prelude::*;

verus! {

/// One request to the camera.
#[derive(Debug, Clone, Copy, PartialEq, Eq, Structural)]
pub enum Command {
    RecordStart,
    RecordStop,
    ShootPhoto,
    LiveViewEnable,
    AppPresence,
    GimbalInit,
    ZoomStop,
    TrackClear,
    TrackPoll,
    GimbalRecenter,
    GimbalFlip,
    GimbalFollow,
    GimbalFpv,
    GimbalTiltLock(u8),
    GimbalStick { axis0: u16, axis1: u16 },
    GimbalTimedStop,
    GimbalParamsGet,
    GimbalSpeed(u8),
    SetShutter(i32),
    SetVideoFormat { resolution: u8, frame_rate: u8 },
    SetIsoIndex(u8),
    SetIsoLimit(u8),
    SetFocusMode(u8),
    SetExpoMode(u8),
    SetEv(i32),
    SetWhiteBalanceAuto { tint: i32 },
    SetWhiteBalanceCustom { kelvin: i32, tint: i32 },
    SetColorMode { mode: u8, model_id: i32 },
    SetShootingMode(u8),
    SetAudioChannel(u8),
    SetVocalBoost(u8),
    SetFov(u8),
    EnterPlayback,
    PlaybackSpecial(u8),
    MediaList { counter: u8, cursor: u32 },
    MediaListTrigger,
    MediaFavorite { handle: u32, counter: u32, on: bool },
    MediaDelete { handle: u32, counter: u32 },
}

} // verus!
