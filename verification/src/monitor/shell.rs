//! What the viewfinder decides about presses and taps, with nothing that can only
//! happen in a window.

use vstd::prelude::*;

use std::collections::VecDeque;

use crate::camera::command::Command;
use crate::media::model::{spec_kind, MediaFile, MediaKind};
use crate::media::pathset::PathMap;
use crate::media::query::{spec_next_sort, tab_position, LibraryTab};
use crate::monitor::library::{
    cell_views, delete_tap, index_selected, is_first_at, layout, none_with_path, path_list,
    star_toggled, CellModel, Library, LibraryView, MediaAction, Player,
};
use crate::monitor::sheets::{build, sheet_rows, Context, Pick, PickModel, Prefs, Readings, SheetKind};
use crate::text::{owned, push_str};

verus! {

/// What the window is asked to do.
#[derive(Debug, Clone, PartialEq)]
pub enum Intent {
    /// Put this on the wire.
    Send(Command),
    /// Write the picture on screen to a file.
    Still,
    /// Close.
    Quit,
    /// Toggle the window between fullscreen and windowed.
    ToggleFullscreen,
    /// Something for the media browser: a fetch, a screen change, the player.
    Media(MediaAction),
}

/// The gimbal's live mode, as commanded. The body's GET cannot tell FPV from Tilt
/// locked, so the shell keeps what it last asked for.
#[derive(Debug, Clone, Copy, PartialEq, Eq, Structural)]
pub enum GimbalMode {
    Follow,
    TiltLocked,
    Fpv,
}

/// The SET frames for a mode, in the order the mobile shells send them.
pub open spec fn mode_commands(mode: GimbalMode) -> Seq<Command> {
    match mode {
        GimbalMode::Follow => seq![Command::GimbalFollow, Command::GimbalTiltLock(0)],
        GimbalMode::TiltLocked => seq![Command::GimbalFollow, Command::GimbalTiltLock(1)],
        GimbalMode::Fpv => seq![Command::GimbalFpv],
    }
}

/// Follow, Tilt locked, FPV, and round again.
pub open spec fn spec_next_mode(mode: GimbalMode) -> GimbalMode {
    match mode {
        GimbalMode::Follow => GimbalMode::TiltLocked,
        GimbalMode::TiltLocked => GimbalMode::Fpv,
        GimbalMode::Fpv => GimbalMode::Follow,
    }
}

impl GimbalMode {
    /// The SET frames for a mode, in the order the mobile shells send them.
    pub fn commands(self) -> (commands: Vec<Command>)
        ensures
            commands@ == mode_commands(self),
    {
        let mut commands: Vec<Command> = Vec::new();
        match self {
            GimbalMode::Follow => {
                commands.push(Command::GimbalFollow);
                commands.push(Command::GimbalTiltLock(0));
            },
            GimbalMode::TiltLocked => {
                commands.push(Command::GimbalFollow);
                commands.push(Command::GimbalTiltLock(1));
            },
            GimbalMode::Fpv => {
                commands.push(Command::GimbalFpv);
            },
        }
        proof {
            assert(commands@ =~= mode_commands(self));
        }
        commands
    }

    /// Mimo's order when the FOLLOW button cycles.
    pub fn next(self) -> (next: Self)
        ensures
            next == spec_next_mode(self),
    {
        match self {
            GimbalMode::Follow => GimbalMode::TiltLocked,
            GimbalMode::TiltLocked => GimbalMode::Fpv,
            GimbalMode::Fpv => GimbalMode::Follow,
        }
    }
}

/// Three presses of FOLLOW come back to where they started.
pub proof fn lemma_follow_cycle(mode: GimbalMode)
    ensures
        spec_next_mode(spec_next_mode(spec_next_mode(mode))) == mode,
        spec_next_mode(mode) != mode,
{
}

/// The shooting-mode code behind each mode-strip position; `None` for a mode the strip
/// shows but this shell cannot select (Pano, Livestream).
pub open spec fn spec_mode_code(index: int) -> Option<u8> {
    if index == 0 {
        Some(0x02u8)
    } else if index == 1 {
        Some(0x00u8)
    } else if index == 2 {
        Some(0x28u8)
    } else if index == 3 {
        Some(0x01u8)
    } else if index == 4 {
        Some(0x17u8)
    } else {
        None
    }
}

/// The code to send when the strip position `index` is tapped.
pub fn mode_code(index: usize) -> (code: Option<u8>)
    ensures
        code == spec_mode_code(index as int),
{
    if index == 0 {
        Some(0x02)
    } else if index == 1 {
        Some(0x00)
    } else if index == 2 {
        Some(0x28)
    } else if index == 3 {
        Some(0x01)
    } else if index == 4 {
        Some(0x17)
    } else {
        None
    }
}

/// The strip position for a shooting-mode code the body reported. Unknown codes read as
/// VIDEO rather than moving the highlight somewhere the operator did not tap.
pub open spec fn spec_mode_index(code: Option<i32>) -> usize {
    match code {
        Some(c) => if c == 0x02 {
            0
        } else if c == 0x00 {
            1
        } else if c == 0x28 {
            2
        } else if c == 0x17 || c == 0x05 {
            4
        } else {
            3
        },
        None => 3,
    }
}

pub fn mode_index(code: Option<i32>) -> (index: usize)
    ensures
        index == spec_mode_index(code),
{
    match code {
        Some(c) => if c == 0x02 {
            0
        } else if c == 0x00 {
            1
        } else if c == 0x28 {
            2
        } else if c == 0x17 || c == 0x05 {
            4
        } else {
            3
        },
        None => 3,
    }
}

/// Tapping a selectable strip position and reading the code back lands on it again.
pub proof fn lemma_mode_round_trip(index: int)
    requires
        0 <= index <= 4,
    ensures
        spec_mode_code(index) matches Some(code) && spec_mode_index(Some(code as i32)) == index,
{
}

/// The strip and the camera agree on every mode it can select: when the body reports
/// TIMELAPSE (`0x02`), SLOWMOTION (`0x00`), LOW-LIGHT (`0x28`), VIDEO (`0x01`) or PHOTO
/// (`0x17`), tapping the position the highlight moves to sends that same code back; no
/// two positions send the same code; and PANO and LIVESTREAM, like anything past the
/// strip, send nothing.
pub proof fn lemma_strip_sends_what_it_shows(code: u8, index: int, other: int)
    ensures
        (code == 0x02 || code == 0x00 || code == 0x28 || code == 0x01 || code == 0x17)
            ==> spec_mode_code(spec_mode_index(Some(code as i32)) as int) == Some(code),
        index != other && spec_mode_code(index) is Some && spec_mode_code(other) is Some
            ==> spec_mode_code(index) != spec_mode_code(other),
        index >= 5 || index < 0 ==> spec_mode_code(index) is None,
{
}

/// What a finger did, so the rule about which finger owns a drag can be checked without
/// a touchscreen.
#[derive(Debug, Clone, Copy, PartialEq, Eq, Structural)]
pub enum TouchPhase {
    Started,
    Moved,
    Ended,
    /// The system took the gesture, or a palm landed.
    Cancelled,
}

/// Where a finger's event goes. A new touch is tried on the controls first and on the
/// picture second; after that a finger's events go where it landed.
#[derive(Debug, Clone, Copy, PartialEq, Eq, Structural)]
pub enum TouchRoute {
    /// Nobody holds the screen: try the controls, then start a box.
    Start,
    ControlMoved,
    ControlEnded,
    ControlCancelled,
    PictureMoved,
    PictureEnded,
    PictureCancelled,
    /// A finger nobody is tracking, or a second finger while one is down.
    Ignored,
}

/// Assists the operator has switched on.
#[derive(Debug, Clone, Copy, Default, PartialEq, Eq, Structural)]
pub struct Toggles {
    pub zebra: bool,
    pub peaking: bool,
    pub grade: bool,
    pub mirror: bool,
}

/// The short names of the assists that are on, in the HUD's order.
pub open spec fn assist_names(toggles: Toggles) -> Seq<Seq<char>> {
    (if toggles.grade {
        seq!["LUT"@]
    } else {
        Seq::empty()
    }) + (if toggles.zebra {
        seq!["ZEB"@]
    } else {
        Seq::empty()
    }) + (if toggles.peaking {
        seq!["PEAK"@]
    } else {
        Seq::empty()
    }) + (if toggles.mirror {
        seq!["MIR"@]
    } else {
        Seq::empty()
    })
}

pub open spec fn label_views(labels: Seq<&'static str>) -> Seq<Seq<char>> {
    labels.map_values(|label: &'static str| label@)
}

impl Toggles {
    /// The short names of the assists that are on.
    pub fn names(self) -> (names: Vec<&'static str>)
        ensures
            label_views(names@) == assist_names(self),
    {
        let mut names: Vec<&'static str> = Vec::new();
        if self.grade {
            names.push("LUT");
        }
        let ghost after_grade = names@;
        if self.zebra {
            names.push("ZEB");
        }
        let ghost after_zebra = names@;
        if self.peaking {
            names.push("PEAK");
        }
        let ghost after_peaking = names@;
        if self.mirror {
            names.push("MIR");
        }
        proof {
            assert(label_views(after_grade) =~= (if self.grade {
                seq!["LUT"@]
            } else {
                Seq::empty()
            }));
            assert(label_views(after_zebra) =~= label_views(after_grade) + (if self.zebra {
                seq!["ZEB"@]
            } else {
                Seq::empty()
            }));
            assert(label_views(after_peaking) =~= label_views(after_zebra) + (if self.peaking {
                seq!["PEAK"@]
            } else {
                Seq::empty()
            }));
            assert(label_views(names@) =~= label_views(after_peaking) + (if self.mirror {
                seq!["MIR"@]
            } else {
                Seq::empty()
            }));
        }
        names
    }
}

/// The screen the window shows.
#[derive(Debug, Clone, Copy, PartialEq, Eq, Structural)]
pub enum Screen {
    Viewfinder,
    Library,
    Player,
    Photo,
}

/// The keys the screens read themselves; every other key goes on to the stick and the
/// controls.
#[derive(Debug, Clone, Copy, PartialEq, Eq, Structural)]
pub enum Key {
    Escape,
    Space,
    Char(char),
}

/// What a chrome control fired, with the pointer geometry already turned into values:
/// the pad's stick axes, and a seek as a position in milliseconds.
#[derive(Debug, Clone, PartialEq)]
pub enum ChromeIntent {
    RecordToggle,
    TakeStill,
    GimbalFlip,
    GimbalRecenter,
    GimbalMoved { axis0: u16, axis1: u16 },
    GimbalReleased,
    FollowToggle,
    FollowCycle,
    ModeSelected(usize),
    OpenFormat,
    OpenExposure,
    OpenMenu,
    SheetClose,
    SheetTab(usize),
    /// A chip tapped on the open sheet: its row, and its place in the row.
    SheetPick { row: usize, option: usize },
    Exit,
    OpenGallery,
    LibraryBack,
    LibraryTab(usize),
    LibrarySortNext,
    LibraryRefresh,
    LibrarySelect(usize),
    LibraryPlay,
    LibraryDownload,
    LibraryFavorite,
    LibraryDelete,
    PlayerBack,
    PlayerToggle,
    PlayerSeek(i64),
    FullscreenToggle,
    OrientationToggle,
}

/// An assist the operator can switch.
#[derive(Debug, Clone, Copy, PartialEq, Eq, Structural)]
pub enum Assist {
    Zebra,
    Peaking,
    Grade,
    Mirror,
}

/// The toggles with one assist flipped.
pub open spec fn flipped(toggles: Toggles, which: Assist) -> Toggles {
    match which {
        Assist::Zebra => Toggles { zebra: !toggles.zebra, ..toggles },
        Assist::Peaking => Toggles { peaking: !toggles.peaking, ..toggles },
        Assist::Grade => Toggles { grade: !toggles.grade, ..toggles },
        Assist::Mirror => Toggles { mirror: !toggles.mirror, ..toggles },
    }
}

/// Pictures older than this, in milliseconds, stop counting towards the rate shown.
pub const FPS_WINDOW_MS: u64 = 1000;

/// The presentation times left once those more than a window older than `now` are
/// dropped from the front. An older time behind a newer one is kept: only the front is
/// trimmed.
pub open spec fn trimmed(times: Seq<u64>, now: u64) -> Seq<u64>
    decreases times.len(),
{
    if times.len() > 0 && now - times[0] > FPS_WINDOW_MS {
        trimmed(times.drop_first(), now)
    } else {
        times
    }
}

/// A picture reached the screen at `now`: the times of the last window, the rate they
/// make, and a redraw when the rate changed.
pub open spec fn presented_at(m: ShellModel, now: u64) -> ShellModel {
    let times = trimmed(m.presented.push(now), now);
    let rate = times.len() as u32;
    ShellModel {
        presented: times,
        fps: rate,
        chrome_stale: if rate != m.fps { true } else { m.chrome_stale },
        ..m
    }
}

/// Which finger an event belongs to, and who holds the screen after it.
pub open spec fn touch_routed(m: ShellModel, id: u64, phase: TouchPhase) -> (ShellModel, TouchRoute) {
    let mine = m.finger == Some(id);
    let control_mine = m.control_finger == Some(id);
    match phase {
        TouchPhase::Started if m.finger is None && m.control_finger is None => (m, TouchRoute::Start),
        TouchPhase::Moved if control_mine => (m, TouchRoute::ControlMoved),
        TouchPhase::Ended if control_mine => (
            ShellModel { control_finger: None, ..m },
            TouchRoute::ControlEnded,
        ),
        TouchPhase::Cancelled if control_mine => (
            ShellModel { control_finger: None, ..m },
            TouchRoute::ControlCancelled,
        ),
        TouchPhase::Moved if mine => (m, TouchRoute::PictureMoved),
        TouchPhase::Ended if mine => (ShellModel { finger: None, ..m }, TouchRoute::PictureEnded),
        TouchPhase::Cancelled if mine => (
            ShellModel { finger: None, ..m },
            TouchRoute::PictureCancelled,
        ),
        _ => (m, TouchRoute::Ignored),
    }
}

/// While one finger draws a box or holds a control, another finger changes nothing and
/// is sent nowhere.
pub proof fn lemma_second_finger_ignored(m: ShellModel, id: u64, phase: TouchPhase)
    requires
        m.finger is Some || m.control_finger is Some,
        m.finger != Some(id),
        m.control_finger != Some(id),
    ensures
        touch_routed(m, id, phase) == (m, TouchRoute::Ignored),
{
}

/// A finger that lifts, or whose gesture the system takes, leaves the screen free.
pub proof fn lemma_lifted_finger_frees_the_screen(m: ShellModel, id: u64, phase: TouchPhase)
    requires
        m.finger == Some(id) || m.control_finger == Some(id),
        m.finger is None || m.control_finger is None,
        phase == TouchPhase::Ended || phase == TouchPhase::Cancelled,
    ensures
        touch_routed(m, id, phase).0.finger is None,
        touch_routed(m, id, phase).0.control_finger is None,
{
}

/// What a control asked the viewfinder to do.
#[derive(Debug, Clone, Copy, PartialEq, Eq, Structural)]
pub enum Action {
    /// Put this on the wire.
    Send(Command),
    /// Write the picture on screen to a file.
    Still,
    Quit,
    ToggleZebra,
    TogglePeaking,
    ToggleMirror,
    ToggleGrade,
    /// Show or hide the chrome.
    ToggleChrome,
    ToggleSettings,
    ToggleExposure,
    /// Stop following whatever the camera tracks.
    ClearTracking,
}

/// A control's action carried out: what the shell becomes and what the window is asked.
pub open spec fn acted(m: ShellModel, action: Action) -> (ShellModel, Seq<Intent>) {
    let m = staled(m);
    match action {
        Action::Send(command) => (m, seq![Intent::Send(command)]),
        Action::Still => (m, seq![Intent::Still]),
        Action::Quit => (m, seq![Intent::Quit]),
        Action::ToggleZebra => (assist_switched(m, Assist::Zebra), Seq::empty()),
        Action::TogglePeaking => (assist_switched(m, Assist::Peaking), Seq::empty()),
        Action::ToggleMirror => (assist_switched(m, Assist::Mirror), Seq::empty()),
        Action::ToggleGrade => (assist_switched(m, Assist::Grade), Seq::empty()),
        Action::ToggleChrome => (ShellModel { chrome_visible: !m.chrome_visible, ..m }, Seq::empty()),
        Action::ToggleSettings => (sheet_toggled(m, SheetKind::Settings), Seq::empty()),
        Action::ToggleExposure => (sheet_toggled(m, SheetKind::Exposure), Seq::empty()),
        Action::ClearTracking => (m, seq![Intent::Send(Command::TrackClear)]),
    }
}

/// The viewfinder's decisions about screens, sheets, assists, the gimbal mode and the
/// library: everything a tap or a key on those decides.
#[derive(Debug)]
pub struct Shell {
    toggles: Toggles,
    assists: Vec<&'static str>,
    recording: bool,
    lut_pending: Option<bool>,
    chrome_visible: bool,
    chrome_stale: bool,
    gimbal_mode: GimbalMode,
    pad_held: bool,
    sheet: Option<SheetKind>,
    sheet_tab: usize,
    prefs: Prefs,
    model_id: i32,
    screen: Screen,
    library: Library,
    player: Option<Player>,
    media_counter: u32,
    /// When each picture of the last second reached the screen, in milliseconds.
    presented: VecDeque<u64>,
    /// The rate shown in the chrome.
    fps: u32,
    /// The finger drawing the box, if one is.
    finger: Option<u64>,
    /// A finger that landed in a control. It cannot become a tracking drag.
    control_finger: Option<u64>,
    /// What the body last reported of the values the sheets list.
    readings: Readings,
}

/// Every field of the shell as values.
pub struct ShellModel {
    pub toggles: Toggles,
    pub assists: Seq<Seq<char>>,
    pub recording: bool,
    pub lut_pending: Option<bool>,
    pub chrome_visible: bool,
    pub chrome_stale: bool,
    pub gimbal_mode: GimbalMode,
    pub pad_held: bool,
    pub sheet: Option<SheetKind>,
    pub sheet_tab: usize,
    pub prefs: Prefs,
    pub model_id: i32,
    pub screen: Screen,
    pub library: Library,
    pub player: Option<Player>,
    pub media_counter: u32,
    pub presented: Seq<u64>,
    pub fps: u32,
    pub finger: Option<u64>,
    pub control_finger: Option<u64>,
    pub readings: Readings,
}

pub open spec fn staled(m: ShellModel) -> ShellModel {
    ShellModel { chrome_stale: true, ..m }
}

pub open spec fn sheet_toggled(m: ShellModel, kind: SheetKind) -> ShellModel {
    ShellModel {
        sheet: if m.sheet == Some(kind) {
            None
        } else {
            Some(kind)
        },
        chrome_stale: true,
        ..m
    }
}

pub open spec fn sheet_closed(m: ShellModel) -> ShellModel {
    if m.sheet is Some {
        ShellModel { sheet: None, chrome_stale: true, ..m }
    } else {
        m
    }
}

/// An assist switched: the HUD's names follow, and a LUT change waits for the window.
pub open spec fn assist_switched(m: ShellModel, which: Assist) -> ShellModel {
    let toggles = flipped(m.toggles, which);
    ShellModel {
        toggles,
        assists: assist_names(toggles),
        lut_pending: if which == Assist::Grade {
            Some(toggles.grade)
        } else {
            m.lut_pending
        },
        chrome_stale: true,
        ..m
    }
}

pub open spec fn sends(commands: Seq<Command>) -> Seq<Intent> {
    commands.map_values(|command: Command| Intent::Send(command))
}

/// A chip tap carried out.
pub open spec fn pick_applied(m: ShellModel, pick: PickModel) -> (ShellModel, Seq<Intent>) {
    let m = staled(m);
    match pick {
        PickModel::Send(commands) => (m, sends(commands)),
        PickModel::Zebra => (assist_switched(m, Assist::Zebra), Seq::empty()),
        PickModel::Peaking => (assist_switched(m, Assist::Peaking), Seq::empty()),
        PickModel::Grade => (assist_switched(m, Assist::Grade), Seq::empty()),
        PickModel::Mirror => (assist_switched(m, Assist::Mirror), Seq::empty()),
        PickModel::Grid(on) => (ShellModel { prefs: Prefs { grid: on, ..m.prefs }, ..m }, Seq::empty()),
        PickModel::Timecode(on) => (
            ShellModel { prefs: Prefs { timecode: on, ..m.prefs }, ..m },
            Seq::empty(),
        ),
        PickModel::GimbalMode(mode) => (ShellModel { gimbal_mode: mode, ..m }, sends(mode_commands(mode))),
        PickModel::AudioChannel(channel) => (
            ShellModel { prefs: Prefs { audio_channel: channel, ..m.prefs }, ..m },
            seq![Intent::Send(Command::SetAudioChannel(channel))],
        ),
        PickModel::VocalBoost(boost) => (
            ShellModel { prefs: Prefs { vocal_boost: boost, ..m.prefs }, ..m },
            seq![Intent::Send(Command::SetVocalBoost(boost))],
        ),
        PickModel::Fov(fov) => (
            ShellModel { prefs: Prefs { fov, ..m.prefs }, ..m },
            seq![Intent::Send(Command::SetFov(fov))],
        ),
        PickModel::GimbalSpeed(speed) => (
            ShellModel { prefs: Prefs { gimbal_speed: speed, ..m.prefs }, ..m },
            seq![Intent::Send(Command::GimbalSpeed(speed))],
        ),
        PickModel::Nothing => (m, Seq::empty()),
    }
}

/// A chip for a camera setting (audio channel, vocal boost, field of view, gimbal speed)
/// keeps the value it carries in the preferences, changes no other preference, and
/// sends the camera exactly one command, which sets that same value: what the sheet
/// lights next and what the camera was told agree.
pub proof fn lemma_setting_chip_sends_its_value(m: ShellModel, pick: PickModel)
    ensures
        pick matches PickModel::Fov(f) ==> pick_applied(m, pick).0.prefs == (Prefs { fov: f, ..m.prefs })
            && pick_applied(m, pick).1 == seq![
            Intent::Send(Command::SetFov(pick_applied(m, pick).0.prefs.fov)),
        ],
        pick matches PickModel::AudioChannel(c) ==> pick_applied(m, pick).0.prefs == (Prefs {
            audio_channel: c,
            ..m.prefs
        }) && pick_applied(m, pick).1 == seq![
            Intent::Send(Command::SetAudioChannel(pick_applied(m, pick).0.prefs.audio_channel)),
        ],
        pick matches PickModel::VocalBoost(b) ==> pick_applied(m, pick).0.prefs == (Prefs {
            vocal_boost: b,
            ..m.prefs
        }) && pick_applied(m, pick).1 == seq![
            Intent::Send(Command::SetVocalBoost(pick_applied(m, pick).0.prefs.vocal_boost)),
        ],
        pick matches PickModel::GimbalSpeed(g) ==> pick_applied(m, pick).0.prefs == (Prefs {
            gimbal_speed: g,
            ..m.prefs
        }) && pick_applied(m, pick).1 == seq![
            Intent::Send(Command::GimbalSpeed(pick_applied(m, pick).0.prefs.gimbal_speed)),
        ],
{
}

/// The library came up: the sheet closes, the player goes, and the card is listed again.
pub open spec fn library_opened(before: ShellModel, after: ShellModel, out: Seq<Intent>) -> bool {
    if before.screen == Screen::Library {
        after == before && out == Seq::<Intent>::empty()
    } else {
        let m = sheet_closed(before);
        &&& after == (ShellModel {
            screen: Screen::Library,
            player: None,
            library: after.library,
            chrome_stale: true,
            ..m
        })
        &&& after.library == (Library { listing: true, status: after.library.status, ..m.library })
        &&& after.library.status@.len() == 0
        &&& out == seq![Intent::Media(MediaAction::OpenLibrary)]
    }
}

pub open spec fn library_closed(m: ShellModel) -> (ShellModel, Seq<Intent>) {
    if m.screen == Screen::Viewfinder {
        (m, Seq::empty())
    } else {
        (
            ShellModel {
                screen: Screen::Viewfinder,
                player: None,
                library: Library { delete_armed: None, ..m.library },
                chrome_stale: true,
                ..m
            },
            seq![Intent::Media(MediaAction::CloseLibrary)],
        )
    }
}

pub open spec fn player_closed(m: ShellModel) -> (ShellModel, Seq<Intent>) {
    (
        ShellModel { player: None, screen: Screen::Library, chrome_stale: true, ..m },
        seq![Intent::Media(MediaAction::ClosePlayer)],
    )
}

pub open spec fn player_toggled(m: ShellModel) -> (ShellModel, Seq<Intent>) {
    match m.player {
        Some(player) => (
            ShellModel {
                player: Some(Player { playing: !player.playing, ..player }),
                chrome_stale: true,
                ..m
            },
            seq![Intent::Media(MediaAction::PlayerToggle)],
        ),
        None => (m, Seq::empty()),
    }
}

/// The selected file opened: a clip in the player, a still in the viewer.
pub open spec fn selection_opened(m: ShellModel) -> (ShellModel, Seq<Intent>) {
    match m.library.selected {
        None => (m, Seq::empty()),
        Some(path) => if none_with_path(m.library.files@, path@) {
            (m, Seq::empty())
        } else {
            let i = choose|i: int| is_first_at(m.library.files@, path@, i);
            let file = m.library.files@[i];
            (
                staled(m),
                if spec_kind(file.path@) == MediaKind::Video {
                    seq![Intent::Media(MediaAction::Play(file))]
                } else {
                    seq![Intent::Media(MediaAction::Photo(file))]
                },
            )
        },
    }
}

/// `R` on the library: list the card again.
pub open spec fn refreshed(before: ShellModel, after: ShellModel, out: Seq<Intent>) -> bool {
    &&& after == (ShellModel { library: after.library, chrome_stale: true, ..before })
    &&& after.library == (Library { listing: true, status: after.library.status, ..before.library })
    &&& after.library.status@.len() == 0
    &&& out == seq![Intent::Media(MediaAction::Refresh)]
}

pub open spec fn is_char(key: Key, lower: char, upper: char) -> bool {
    key == Key::Char(lower) || key == Key::Char(upper)
}

/// A key on a screen other than the viewfinder.
pub open spec fn screen_key(before: ShellModel, after: ShellModel, key: Key, out: Seq<Intent>) -> bool {
    if before.screen == Screen::Library && key == Key::Escape {
        (after, out) == library_closed(before)
    } else if before.screen == Screen::Library && is_char(key, 'r', 'R') {
        refreshed(before, after, out)
    } else if (before.screen == Screen::Player || before.screen == Screen::Photo) && key
        == Key::Escape {
        (after, out) == player_closed(before)
    } else if before.screen == Screen::Player && key == Key::Space {
        (after, out) == player_toggled(before)
    } else if is_char(key, 'h', 'H') {
        after == (ShellModel { chrome_visible: !before.chrome_visible, chrome_stale: true, ..before })
            && out == Seq::<Intent>::empty()
    } else if is_char(key, 'z', 'Z') {
        after == assist_switched(staled(before), Assist::Zebra) && out == Seq::<Intent>::empty()
    } else if is_char(key, 'p', 'P') {
        after == assist_switched(staled(before), Assist::Peaking) && out == Seq::<Intent>::empty()
    } else if is_char(key, 'l', 'L') {
        after == assist_switched(staled(before), Assist::Grade) && out == Seq::<Intent>::empty()
    } else if is_char(key, 'm', 'M') {
        after == assist_switched(staled(before), Assist::Mirror) && out == Seq::<Intent>::empty()
    } else {
        after == before && out == Seq::<Intent>::empty()
    }
}

pub open spec fn next_counter(counter: u32) -> u32 {
    if counter == u32::MAX {
        0
    } else {
        (counter + 1) as u32
    }
}

pub open spec fn gimbal_switched(m: ShellModel, mode: GimbalMode) -> (ShellModel, Seq<Intent>) {
    (ShellModel { gimbal_mode: mode, chrome_stale: true, ..m }, sends(mode_commands(mode)))
}

/// What one chrome control does.
#[verifier::opaque]
pub open spec fn intent_handled(
    before: ShellModel,
    after: ShellModel,
    intent: ChromeIntent,
    out: Seq<Intent>,
) -> bool {
    match intent {
        ChromeIntent::RecordToggle => after == before && out == seq![
            Intent::Send(
                if before.recording {
                    Command::RecordStop
                } else {
                    Command::RecordStart
                },
            ),
        ],
        ChromeIntent::TakeStill => after == before && out == seq![Intent::Send(Command::ShootPhoto)],
        ChromeIntent::GimbalFlip => after == before && out == seq![Intent::Send(Command::GimbalFlip)],
        ChromeIntent::GimbalRecenter => after == before && out == seq![
            Intent::Send(Command::GimbalRecenter),
        ],
        ChromeIntent::GimbalMoved { axis0, axis1 } => after == (ShellModel {
            pad_held: true,
            ..before
        }) && out == seq![Intent::Send(Command::GimbalStick { axis0, axis1 })],
        ChromeIntent::GimbalReleased => after == (ShellModel { pad_held: false, ..before })
            && out == seq![Intent::Send(Command::GimbalStick { axis0: 1024, axis1: 1024 })],
        ChromeIntent::FollowToggle => (after, out) == gimbal_switched(
            before,
            if before.gimbal_mode == GimbalMode::Follow {
                GimbalMode::TiltLocked
            } else {
                GimbalMode::Follow
            },
        ),
        ChromeIntent::FollowCycle => (after, out) == gimbal_switched(
            before,
            spec_next_mode(before.gimbal_mode),
        ),
        ChromeIntent::ModeSelected(index) => after == before && out == match spec_mode_code(
            index as int,
        ) {
            Some(code) => seq![Intent::Send(Command::SetShootingMode(code))],
            None => Seq::empty(),
        },
        ChromeIntent::OpenFormat => after == sheet_toggled(before, SheetKind::Format) && out
            == Seq::<Intent>::empty(),
        ChromeIntent::OpenExposure => after == sheet_toggled(before, SheetKind::Exposure) && out
            == Seq::<Intent>::empty(),
        ChromeIntent::OpenMenu => after == sheet_toggled(before, SheetKind::Settings) && out
            == Seq::<Intent>::empty(),
        ChromeIntent::SheetClose => after == sheet_closed(before) && out == Seq::<Intent>::empty(),
        ChromeIntent::SheetTab(tab) => after == (ShellModel {
            sheet_tab: tab,
            chrome_stale: true,
            ..before
        }) && out == Seq::<Intent>::empty(),
        ChromeIntent::SheetPick { row, option } => match before.sheet {
            Some(kind) => {
                let rows = open_sheet_rows(before, kind);
                if row < rows.len() && option < rows[row as int].picks.len() {
                    (after, out) == pick_applied(before, rows[row as int].picks[option as int])
                } else {
                    after == before && out == Seq::<Intent>::empty()
                }
            },
            None => after == before && out == Seq::<Intent>::empty(),
        },
        ChromeIntent::Exit => after == before && out == seq![Intent::Quit],
        ChromeIntent::OpenGallery => library_opened(before, after, out),
        ChromeIntent::LibraryBack => (after, out) == library_closed(before),
        ChromeIntent::LibraryTab(index) => out == Seq::<Intent>::empty() && if index < 4 {
            after.library == (Library { tab: after.library.tab, ..before.library })
                && tab_position(after.library.tab) == index && after == (ShellModel {
                library: after.library,
                chrome_stale: true,
                ..before
            })
        } else {
            after == before
        },
        ChromeIntent::LibrarySortNext => out == Seq::<Intent>::empty() && after == (ShellModel {
            library: Library { sort: spec_next_sort(before.library.sort), ..before.library },
            chrome_stale: true,
            ..before
        }),
        ChromeIntent::LibraryRefresh => screen_key(before, after, Key::Char('r'), out),
        ChromeIntent::LibrarySelect(index) => out == Seq::<Intent>::empty() && index_selected(
            before.library,
            after.library,
            index,
        ) && after == (ShellModel { library: after.library, chrome_stale: true, ..before }),
        ChromeIntent::LibraryPlay => (after, out) == selection_opened(before),
        ChromeIntent::LibraryDownload => match before.library.selected {
            None => after == before && out == Seq::<Intent>::empty(),
            Some(path) => if none_with_path(before.library.files@, path@) {
                after == before && out == Seq::<Intent>::empty()
            } else {
                let i = choose|i: int| is_first_at(before.library.files@, path@, i);
                let file = before.library.files@[i];
                &&& after.library == (Library { progress: after.library.progress, ..before.library })
                &&& after.library.progress.wf()
                &&& after.library.progress@ == before.library.progress@.insert(
                    file.path@,
                    (0u64, None::<u64>),
                )
                &&& after == (ShellModel { library: after.library, chrome_stale: true, ..before })
                &&& out == seq![Intent::Media(MediaAction::Download(file))]
            },
        },
        ChromeIntent::LibraryFavorite => {
            let counter = next_counter(before.media_counter);
            exists|command: Option<Command>|
                star_toggled(before.library, after.library, counter, command) && after == (
                ShellModel {
                    library: after.library,
                    media_counter: counter,
                    chrome_stale: true,
                    ..before
                }) && out == match command {
                    Some(c) => seq![Intent::Send(c)],
                    None => Seq::empty(),
                }
        },
        ChromeIntent::LibraryDelete => {
            let counter = next_counter(before.media_counter);
            exists|command: Option<Command>|
                delete_tap(before.library, after.library, counter, command) && after == (
                ShellModel {
                    library: after.library,
                    media_counter: counter,
                    chrome_stale: true,
                    ..before
                }) && out == match command {
                    Some(c) => seq![Intent::Send(c)],
                    None => Seq::empty(),
                }
        },
        ChromeIntent::PlayerBack => (after, out) == player_closed(before),
        ChromeIntent::PlayerToggle => (after, out) == player_toggled(before),
        ChromeIntent::PlayerSeek(position) => match before.player {
            Some(player) => after == (ShellModel {
                player: Some(Player { position_ms: position, ..player }),
                chrome_stale: true,
                ..before
            }) && out == seq![Intent::Media(MediaAction::PlayerSeek(position))],
            None => after == before && out == Seq::<Intent>::empty(),
        },
        ChromeIntent::FullscreenToggle => after == before && out == seq![Intent::ToggleFullscreen],
        ChromeIntent::OrientationToggle => after == before && out == Seq::<Intent>::empty(),
    }
}

/// The chrome's intents handled in turn, each from the state the last one left.
pub open spec fn intents_handled(
    before: ShellModel,
    after: ShellModel,
    intents: Seq<ChromeIntent>,
    out: Seq<Intent>,
) -> bool {
    exists|models: Seq<ShellModel>, outs: Seq<Seq<Intent>>|
        {
            &&& models.len() == intents.len() + 1
            &&& outs.len() == intents.len()
            &&& models[0] == before
            &&& models[intents.len() as int] == after
            &&& forall|i: int|
                0 <= i < intents.len() ==> intent_handled(
                    #[trigger] models[i],
                    models[i + 1],
                    intents[i],
                    outs[i],
                )
            &&& out == outs.flatten()
        }
}

/// The body has reported nothing yet: no lists, no values.
pub open spec fn reads_nothing(r: Readings) -> bool {
    &&& r.available_formats@.len() == 0
    &&& r.video_resolution is None
    &&& r.video_frame_rate is None
    &&& r.expo_mode is None
    &&& r.available_iso@.len() == 0
    &&& r.iso_index is None
    &&& r.iso_limit is None
    &&& r.available_shutter@.len() == 0
    &&& r.shutter_denominator is None
    &&& r.ev_thirds is None
    &&& r.focus_mode is None
    &&& r.white_balance_kelvin is None
    &&& r.available_colors@.len() == 0
    &&& r.color_mode is None
    &&& r.resolution_names@.len() == 0
    &&& r.frame_rate_names@.len() == 0
}

/// The rows of the sheet `kind` as the shell would build it now.
pub open spec fn open_sheet_rows(m: ShellModel, kind: SheetKind) -> Seq<crate::monitor::sheets::RowModel> {
    sheet_rows(
        kind,
        m.sheet_tab,
        Context {
            readings: &m.readings,
            prefs: m.prefs,
            toggles: m.toggles,
            gimbal_mode: m.gimbal_mode,
            model_id: m.model_id,
        },
    )
}

pub open spec fn initial_shell(library: Library, readings: Readings) -> ShellModel {
    ShellModel {
        toggles: Toggles { zebra: false, peaking: false, grade: false, mirror: false },
        assists: Seq::empty(),
        recording: false,
        lut_pending: None,
        chrome_visible: true,
        chrome_stale: true,
        gimbal_mode: GimbalMode::Follow,
        pad_held: false,
        sheet: None,
        sheet_tab: 0,
        prefs: Prefs {
            audio_channel: 0x02,
            vocal_boost: 0x00,
            fov: 0x01,
            gimbal_speed: 0x01,
            grid: false,
            timecode: false,
        },
        model_id: -1i32,
        screen: Screen::Viewfinder,
        library,
        player: None,
        media_counter: 0,
        presented: Seq::empty(),
        fps: 0,
        finger: None,
        control_finger: None,
        readings,
    }
}

/// The listed files with a page appended: a path already listed is not listed twice.
pub open spec fn listed_into(known: Seq<MediaFile>, incoming: Seq<MediaFile>) -> Seq<MediaFile>
    decreases incoming.len(),
{
    if incoming.len() == 0 {
        known
    } else {
        let listed = listed_into(known, incoming.drop_last());
        let file = incoming.last();
        if exists|i: int| 0 <= i < listed.len() && listed[i].path@ == file.path@ {
            listed
        } else {
            listed.push(file)
        }
    }
}

/// The whole seconds of a clock in milliseconds, rounded toward zero.
pub open spec fn whole_seconds(ms: i64) -> int {
    if ms >= 0 {
        ms / 1000
    } else {
        -((-ms) / 1000)
    }
}

fn seconds_of(ms: i64) -> (seconds: i64)
    ensures
        seconds == whole_seconds(ms),
{
    if ms >= 0 {
        ((ms as u64) / 1000) as i64
    } else {
        let magnitude: u64 = (0i128 - (ms as i128)) as u64;
        0 - ((magnitude / 1000) as i64)
    }
}

impl Shell {
    pub closed spec fn model(&self) -> ShellModel {
        ShellModel {
            toggles: self.toggles,
            assists: label_views(self.assists@),
            recording: self.recording,
            lut_pending: self.lut_pending,
            chrome_visible: self.chrome_visible,
            chrome_stale: self.chrome_stale,
            gimbal_mode: self.gimbal_mode,
            pad_held: self.pad_held,
            sheet: self.sheet,
            sheet_tab: self.sheet_tab,
            prefs: self.prefs,
            model_id: self.model_id,
            screen: self.screen,
            library: self.library,
            player: self.player,
            media_counter: self.media_counter,
            presented: self.presented@,
            fps: self.fps,
            finger: self.finger,
            control_finger: self.control_finger,
            readings: self.readings,
        }
    }

    /// The library's sets and maps hold each path once.
    pub closed spec fn wf(&self) -> bool {
        self.library.wf()
    }

    pub fn new() -> (shell: Self)
        ensures
            shell.wf(),
            shell.model() == initial_shell(shell.model().library, shell.model().readings),
            reads_nothing(shell.model().readings),
            shell.model().library.files@.len() == 0,
            shell.model().library.selected is None,
            shell.model().library.favorites@.is_empty(),
            shell.model().library.visible@.len() == 0,
            !shell.model().library.listing,
    {
        let assists: Vec<&'static str> = Vec::new();
        proof {
            assert(label_views(assists@) =~= Seq::<Seq<char>>::empty());
        }
        Shell {
            toggles: Toggles { zebra: false, peaking: false, grade: false, mirror: false },
            assists,
            recording: false,
            lut_pending: None,
            chrome_visible: true,
            chrome_stale: true,
            gimbal_mode: GimbalMode::Follow,
            pad_held: false,
            sheet: None,
            sheet_tab: 0,
            prefs: Prefs::default(),
            model_id: -1,
            screen: Screen::Viewfinder,
            library: Library::default(),
            player: None,
            media_counter: 0,
            presented: VecDeque::new(),
            fps: 0,
            finger: None,
            control_finger: None,
            readings: Readings {
                available_formats: Vec::new(),
                video_resolution: None,
                video_frame_rate: None,
                expo_mode: None,
                available_iso: Vec::new(),
                iso_index: None,
                iso_limit: None,
                available_shutter: Vec::new(),
                shutter_denominator: None,
                ev_thirds: None,
                focus_mode: None,
                white_balance_kelvin: None,
                available_colors: Vec::new(),
                color_mode: None,
                resolution_names: Vec::new(),
                frame_rate_names: Vec::new(),
            },
        }
    }

    /// Starts with the cube already on.
    pub fn with_grade(self, graded: bool) -> (shell: Self)
        ensures
            shell.wf() == self.wf(),
            shell.model() == (ShellModel {
                toggles: Toggles { grade: graded, ..self.model().toggles },
                ..self.model()
            }),
    {
        let mut shell = self;
        shell.toggles.grade = graded;
        shell
    }

    /// The body's model id, when the link knows it; -1 otherwise.
    pub fn set_model(&mut self, model_id: Option<i32>)
        ensures
            final(self).wf() == old(self).wf(),
            final(self).model() == (ShellModel {
                model_id: match model_id {
                    Some(id) => id,
                    None => -1i32,
                },
                ..old(self).model()
            }),
    {
        self.model_id = match model_id {
            Some(id) => id,
            None => -1,
        };
    }

    pub fn with_model(self, model_id: Option<i32>) -> (shell: Self)
        ensures
            shell.wf() == self.wf(),
            shell.model() == (ShellModel {
                model_id: match model_id {
                    Some(id) => id,
                    None => -1i32,
                },
                ..self.model()
            }),
    {
        let mut shell = self;
        shell.set_model(model_id);
        shell
    }

    /// Whether the body is recording, as it last reported.
    /// Takes the body's word for the values and lists the sheets show.
    pub fn set_readings(&mut self, readings: Readings)
        ensures
            final(self).wf() == old(self).wf(),
            final(self).model() == (ShellModel {
                readings,
                chrome_stale: true,
                ..old(self).model()
            }),
    {
        self.readings = readings;
        self.chrome_stale = true;
    }

    pub fn set_recording(&mut self, recording: bool)
        ensures
            final(self).wf() == old(self).wf(),
            final(self).model() == (ShellModel {
                recording,
                chrome_stale: true,
                ..old(self).model()
            }),
    {
        self.recording = recording;
        self.chrome_stale = true;
    }

    pub fn toggles(&self) -> (toggles: Toggles)
        ensures
            toggles == self.model().toggles,
    {
        self.toggles
    }

    /// Whether the cube should be loaded or dropped, once.
    pub fn take_lut_change(&mut self) -> (change: Option<bool>)
        ensures
            final(self).wf() == old(self).wf(),
            change == old(self).model().lut_pending,
            final(self).model() == (ShellModel { lut_pending: None, ..old(self).model() }),
    {
        let change = self.lut_pending;
        self.lut_pending = None;
        change
    }

    pub fn sheet(&self) -> (sheet: Option<SheetKind>)
        ensures
            sheet == self.model().sheet,
    {
        self.sheet
    }

    pub fn sheet_tab(&self) -> (tab: usize)
        ensures
            tab == self.model().sheet_tab,
    {
        self.sheet_tab
    }

    pub fn prefs(&self) -> (prefs: Prefs)
        ensures
            prefs == self.model().prefs,
    {
        self.prefs
    }

    pub fn gimbal_mode(&self) -> (mode: GimbalMode)
        ensures
            mode == self.model().gimbal_mode,
    {
        self.gimbal_mode
    }

    pub fn model_id(&self) -> (id: i32)
        ensures
            id == self.model().model_id,
    {
        self.model_id
    }

    pub fn screen(&self) -> (screen: Screen)
        ensures
            screen == self.model().screen,
    {
        self.screen
    }

    pub fn library(&self) -> (library: &Library)
        ensures
            *library == self.model().library,
    {
        &self.library
    }

    pub fn player(&self) -> (player: &Option<Player>)
        ensures
            *player == self.model().player,
    {
        &self.player
    }

    pub fn chrome_visible(&self) -> (visible: bool)
        ensures
            visible == self.model().chrome_visible,
    {
        self.chrome_visible
    }

    /// Whether something the chrome draws changed since it was last drawn; asking clears
    /// it.
    pub fn take_chrome_stale(&mut self) -> (stale: bool)
        ensures
            final(self).wf() == old(self).wf(),
            stale == old(self).model().chrome_stale,
            final(self).model() == (ShellModel { chrome_stale: false, ..old(self).model() }),
    {
        let stale = self.chrome_stale;
        self.chrome_stale = false;
        stale
    }

    /// Opens a sheet, or closes it when it is the one already open.
    pub fn toggle_sheet(&mut self, kind: SheetKind)
        ensures
            final(self).wf() == old(self).wf(),
            final(self).model() == sheet_toggled(old(self).model(), kind),
    {
        self.sheet = if self.sheet == Some(kind) {
            None
        } else {
            Some(kind)
        };
        self.chrome_stale = true;
    }

    pub fn close_sheet(&mut self)
        ensures
            final(self).wf() == old(self).wf(),
            final(self).model() == sheet_closed(old(self).model()),
    {
        if self.sheet.is_some() {
            self.sheet = None;
            self.chrome_stale = true;
        }
    }

    fn switch_assist(&mut self, which: Assist)
        ensures
            final(self).wf() == old(self).wf(),
            final(self).model() == assist_switched(old(self).model(), which),
    {
        match which {
            Assist::Zebra => self.toggles.zebra = !self.toggles.zebra,
            Assist::Peaking => self.toggles.peaking = !self.toggles.peaking,
            Assist::Grade => {
                self.toggles.grade = !self.toggles.grade;
                self.lut_pending = Some(self.toggles.grade);
            },
            Assist::Mirror => self.toggles.mirror = !self.toggles.mirror,
        }
        self.assists = self.toggles.names();
        self.chrome_stale = true;
    }

    /// An assist switched from a key or a chip.
    pub fn toggle_assist(&mut self, which: Assist)
        ensures
            final(self).wf() == old(self).wf(),
            final(self).model() == assist_switched(staled(old(self).model()), which),
    {
        self.chrome_stale = true;
        self.switch_assist(which);
    }

    /// A picture reached the screen at `now` milliseconds. Drives the rate shown in the
    /// chrome.
    pub fn note_presented(&mut self, now: u64)
        ensures
            final(self).wf() == old(self).wf(),
            final(self).model() == presented_at(old(self).model(), now),
    {
        let mut times: VecDeque<u64> = VecDeque::new();
        std::mem::swap(&mut times, &mut self.presented);
        times.push_back(now);
        let ghost pushed = times@;
        while times.len() > 0 && times[0] < now && now - times[0] > FPS_WINDOW_MS
            invariant
                trimmed(pushed, now) == trimmed(times@, now),
            decreases times@.len(),
        {
            times.pop_front();
        }
        self.presented = times;
        let rate = #[verifier::truncate] (self.presented.len() as u32);
        if self.fps != rate {
            self.fps = rate;
            self.chrome_stale = true;
        }
    }

    /// The rate shown in the chrome: pictures presented in the last second.
    pub fn fps(&self) -> (fps: u32)
        ensures
            fps == self.model().fps,
    {
        self.fps
    }

    /// Routes one touch event by the finger it comes from. A touchscreen does not
    /// synthesise mouse clicks, so this is the only way a finger reaches the picture.
    pub fn touch_route(&mut self, id: u64, phase: TouchPhase) -> (route: TouchRoute)
        ensures
            final(self).wf() == old(self).wf(),
            (final(self).model(), route) == touch_routed(old(self).model(), id, phase),
    {
        let mine = self.finger == Some(id);
        let control_mine = self.control_finger == Some(id);
        match phase {
            TouchPhase::Started => {
                if self.finger.is_none() && self.control_finger.is_none() {
                    TouchRoute::Start
                } else {
                    TouchRoute::Ignored
                }
            },
            TouchPhase::Moved => {
                if control_mine {
                    TouchRoute::ControlMoved
                } else if mine {
                    TouchRoute::PictureMoved
                } else {
                    TouchRoute::Ignored
                }
            },
            TouchPhase::Ended => {
                if control_mine {
                    self.control_finger = None;
                    TouchRoute::ControlEnded
                } else if mine {
                    self.finger = None;
                    TouchRoute::PictureEnded
                } else {
                    TouchRoute::Ignored
                }
            },
            TouchPhase::Cancelled => {
                if control_mine {
                    self.control_finger = None;
                    TouchRoute::ControlCancelled
                } else if mine {
                    self.finger = None;
                    TouchRoute::PictureCancelled
                } else {
                    TouchRoute::Ignored
                }
            },
        }
    }

    /// A new touch was tried: it landed on a control, or started a box, or neither. Only
    /// a touch that actually started a box claims the picture, so a finger that landed
    /// on a letterbox bar does not lock out the next one.
    pub fn claim_touch(&mut self, id: u64, on_control: bool, box_started: bool)
        ensures
            final(self).wf() == old(self).wf(),
            final(self).model() == (if on_control {
                ShellModel { control_finger: Some(id), ..old(self).model() }
            } else if box_started {
                ShellModel { finger: Some(id), ..old(self).model() }
            } else {
                old(self).model()
            }),
    {
        if on_control {
            self.control_finger = Some(id);
        } else if box_started {
            self.finger = Some(id);
        }
    }

    /// Carries out what a control asked for. Every action redraws the chrome.
    #[verifier::rlimit(50)]
    pub fn act(&mut self, action: Action) -> (intents: Vec<Intent>)
        ensures
            final(self).wf() == old(self).wf(),
            final(self).model() == acted(old(self).model(), action).0,
            intents@ == acted(old(self).model(), action).1,
    {
        self.chrome_stale = true;
        match action {
            Action::Send(command) => vec![Intent::Send(command)],
            Action::Still => vec![Intent::Still],
            Action::Quit => vec![Intent::Quit],
            Action::ToggleZebra => {
                self.switch_assist(Assist::Zebra);
                Vec::new()
            },
            Action::TogglePeaking => {
                self.switch_assist(Assist::Peaking);
                Vec::new()
            },
            Action::ToggleMirror => {
                self.switch_assist(Assist::Mirror);
                Vec::new()
            },
            Action::ToggleGrade => {
                self.switch_assist(Assist::Grade);
                Vec::new()
            },
            Action::ToggleChrome => {
                self.chrome_visible = !self.chrome_visible;
                Vec::new()
            },
            Action::ToggleSettings => {
                self.toggle_sheet(SheetKind::Settings);
                Vec::new()
            },
            Action::ToggleExposure => {
                self.toggle_sheet(SheetKind::Exposure);
                Vec::new()
            },
            Action::ClearTracking => vec![Intent::Send(Command::TrackClear)],
        }
    }

    fn send_all(commands: Vec<Command>) -> (intents: Vec<Intent>)
        ensures
            intents@ == sends(commands@),
    {
        let mut intents: Vec<Intent> = Vec::new();
        let mut i: usize = 0;
        while i < commands.len()
            invariant
                i <= commands@.len(),
                intents@ == sends(commands@.subrange(0, i as int)),
            decreases commands@.len() - i,
        {
            intents.push(Intent::Send(commands[i]));
            i = i + 1;
            proof {
                assert(intents@ =~= sends(commands@.subrange(0, i as int)));
            }
        }
        proof {
            assert(commands@.subrange(0, i as int) =~= commands@);
        }
        intents
    }

    /// A chip that changes a setting the body does not report back.
    fn apply_setting(&mut self, pick: Pick) -> (intents: Vec<Intent>)
        requires
            old(self).model().chrome_stale,
            pick is Grid || pick is Timecode || pick is AudioChannel || pick is VocalBoost
                || pick is Fov || pick is GimbalSpeed,
        ensures
            final(self).wf() == old(self).wf(),
            (final(self).model(), intents@) == pick_applied(old(self).model(), pick@),
    {
        match pick {
            Pick::Grid(on) => {
                self.prefs.grid = on;
                Vec::new()
            },
            Pick::Timecode(on) => {
                self.prefs.timecode = on;
                Vec::new()
            },
            Pick::AudioChannel(channel) => {
                self.prefs.audio_channel = channel;
                Self::single(Intent::Send(Command::SetAudioChannel(channel)))
            },
            Pick::VocalBoost(boost) => {
                self.prefs.vocal_boost = boost;
                Self::single(Intent::Send(Command::SetVocalBoost(boost)))
            },
            Pick::Fov(fov) => {
                self.prefs.fov = fov;
                Self::single(Intent::Send(Command::SetFov(fov)))
            },
            Pick::GimbalSpeed(speed) => {
                self.prefs.gimbal_speed = speed;
                Self::single(Intent::Send(Command::GimbalSpeed(speed)))
            },
            _ => Vec::new(),
        }
    }

    /// Carries out a chip tap on the open sheet.
    fn apply_pick(&mut self, pick: Pick) -> (intents: Vec<Intent>)
        ensures
            final(self).wf() == old(self).wf(),
            (final(self).model(), intents@) == pick_applied(old(self).model(), pick@),
    {
        self.chrome_stale = true;
        match pick {
            Pick::Send(commands) => Self::send_all(commands),
            Pick::Zebra => {
                self.switch_assist(Assist::Zebra);
                Vec::new()
            },
            Pick::Peaking => {
                self.switch_assist(Assist::Peaking);
                Vec::new()
            },
            Pick::Grade => {
                self.switch_assist(Assist::Grade);
                Vec::new()
            },
            Pick::Mirror => {
                self.switch_assist(Assist::Mirror);
                Vec::new()
            },
            Pick::GimbalMode(mode) => {
                self.gimbal_mode = mode;
                Self::send_all(mode.commands())
            },
            Pick::Nothing => Vec::new(),
            _ => self.apply_setting(pick),
        }
    }

    fn next_media_counter(&mut self) -> (counter: u32)
        ensures
            final(self).wf() == old(self).wf(),
            counter == next_counter(old(self).model().media_counter),
            final(self).model() == (ShellModel { media_counter: counter, ..old(self).model() }),
    {
        self.media_counter = if self.media_counter == u32::MAX {
            0
        } else {
            self.media_counter + 1
        };
        self.media_counter
    }

    /// The gallery button, or `G`: the library comes up over the picture.
    pub fn open_library(&mut self) -> (intents: Vec<Intent>)
        requires
            old(self).wf(),
        ensures
            final(self).wf(),
            library_opened(old(self).model(), final(self).model(), intents@),
    {
        if self.screen == Screen::Library {
            return Vec::new();
        }
        self.close_sheet();
        self.screen = Screen::Library;
        self.player = None;
        self.library.listing = true;
        self.library.status = String::new();
        self.chrome_stale = true;
        let mut out: Vec<Intent> = Vec::new();
        out.push(Intent::Media(MediaAction::OpenLibrary));
        out
    }

    pub fn close_library(&mut self) -> (intents: Vec<Intent>)
        requires
            old(self).wf(),
        ensures
            final(self).wf(),
            (final(self).model(), intents@) == library_closed(old(self).model()),
    {
        if self.screen == Screen::Viewfinder {
            return Vec::new();
        }
        self.screen = Screen::Viewfinder;
        self.player = None;
        self.library.delete_armed = None;
        self.chrome_stale = true;
        let mut out: Vec<Intent> = Vec::new();
        out.push(Intent::Media(MediaAction::CloseLibrary));
        out
    }

    /// The window listed a page: what is new is appended, in order.
    pub fn library_listed(&mut self, files: Vec<MediaFile>, done: bool)
        requires
            old(self).wf(),
        ensures
            final(self).wf(),
            final(self).model().library == (Library {
                files: final(self).model().library.files,
                listing: !done,
                ..old(self).model().library
            }),
            final(self).model().library.files@ == listed_into(old(self).model().library.files@, files@),
            final(self).model() == (ShellModel {
                library: final(self).model().library,
                chrome_stale: true,
                ..old(self).model()
            }),
    {
        let mut i: usize = 0;
        let ghost start = self.library.files@;
        while i < files.len()
            invariant
                i <= files@.len(),
                self.wf(),
                self.model() == (ShellModel { library: self.model().library, ..old(self).model() }),
                self.library == (Library { files: self.library.files, ..old(self).library }),
                self.library.files@ == listed_into(start, files@.subrange(0, i as int)),
                start == old(self).library.files@,
            decreases files@.len() - i,
        {
            let file = &files[i];
            let known = match self.library.file(file.path.as_str()) {
                Some(_) => true,
                None => false,
            };
            let ghost before = self.library.files@;
            proof {
                assert(files@.subrange(0, i + 1).drop_last() =~= files@.subrange(0, i as int));
                assert(files@.subrange(0, i + 1).last() == *file);
            }
            if !known {
                self.library.files.push(file.clone());
            }
            proof {
                if known {
                    let w = choose|w: int| 0 <= w < before.len() && before[w].path@ == file.path@
                        && forall|k: int| 0 <= k < w ==> #[trigger] before[k].path@ != file.path@;
                    assert(before[w].path@ == file.path@);
                }
            }
            i = i + 1;
        }
        proof {
            assert(files@.subrange(0, i as int) =~= files@);
        }
        self.library.listing = !done;
        self.chrome_stale = true;
    }

    /// A word for the status line; listing is over.
    pub fn library_status(&mut self, status: String)
        requires
            old(self).wf(),
        ensures
            final(self).wf(),
            final(self).model() == (ShellModel {
                library: Library { status, listing: false, ..old(self).model().library },
                chrome_stale: true,
                ..old(self).model()
            }),
    {
        self.library.status = status;
        self.library.listing = false;
        self.chrome_stale = true;
    }

    /// A transfer moved on.
    pub fn library_progress(&mut self, path: &str, done: u64, total: Option<u64>)
        requires
            old(self).wf(),
        ensures
            final(self).wf(),
            final(self).model().library.progress@ == old(self).model().library.progress@.insert(
                path@,
                (done, total),
            ),
            final(self).model() == (ShellModel {
                library: Library {
                    progress: final(self).model().library.progress,
                    ..old(self).model().library
                },
                chrome_stale: true,
                ..old(self).model()
            }),
    {
        self.library.progress.insert(owned(path), (done, total));
        self.chrome_stale = true;
    }

    /// A file landed on disk: a proxy joins the proxies, an original the cache with a
    /// note saying where it went.
    #[verifier::rlimit(60)]
    pub fn library_file_ready(&mut self, path: &str, proxy: bool)
        requires
            old(self).wf(),
        ensures
            final(self).wf(),
            ({
                let before = old(self).model().library;
                let after = final(self).model().library;
                &&& after.progress@ == before.progress@.remove(path@)
                &&& proxy ==> after == (Library {
                    progress: after.progress,
                    proxies: after.proxies,
                    ..before
                }) && after.proxies@ == before.proxies@.insert(path@)
                &&& !proxy ==> after == (Library {
                    progress: after.progress,
                    cached: after.cached,
                    notes: after.notes,
                    ..before
                }) && after.cached@ == before.cached@.insert(path@) && after.notes@.dom()
                    == before.notes@.dom().insert(path@) && after.notes@[path@]@
                    == "Saved to the library folder"@ && forall|p: Seq<char>|
                    #[trigger] before.notes@.contains_key(p) && p != path@ ==> after.notes@[p]
                        == before.notes@[p]
            }),
            final(self).model() == (ShellModel {
                library: final(self).model().library,
                chrome_stale: true,
                ..old(self).model()
            }),
    {
        self.library.progress.remove(path);
        if proxy {
            self.library.proxies.insert(owned(path));
        } else {
            self.library.cached.insert(owned(path));
            let note = owned("Saved to the library folder");
            let ghost before_notes = self.library.notes@;
            self.library.notes.insert(owned(path), note);
            proof {
                assert(self.library.notes@ == before_notes.insert(path@, note));
                assert(self.library.notes@.dom() =~= before_notes.dom().insert(path@));
            }
        }
        self.chrome_stale = true;
    }

    /// A fetch failed: the note says why.
    pub fn library_failed(&mut self, path: &str, reason: &str)
        requires
            old(self).wf(),
        ensures
            final(self).wf(),
            ({
                let before = old(self).model().library;
                let after = final(self).model().library;
                &&& after == (Library { progress: after.progress, notes: after.notes, ..before })
                &&& after.progress@ == before.progress@.remove(path@)
                &&& after.notes@.dom() == before.notes@.dom().insert(path@)
                &&& after.notes@[path@]@ == "Could not fetch: "@ + reason@
                &&& forall|p: Seq<char>|
                    #[trigger] before.notes@.contains_key(p) && p != path@ ==> after.notes@[p]
                        == before.notes@[p]
            }),
            final(self).model() == (ShellModel {
                library: final(self).model().library,
                chrome_stale: true,
                ..old(self).model()
            }),
    {
        self.library.progress.remove(path);
        let mut note = owned("Could not fetch: ");
        push_str(&mut note, reason);
        self.library.notes.insert(owned(path), note);
        self.chrome_stale = true;
    }

    /// The window opened a clip in the player, or a still in the viewer.
    pub fn open_player(&mut self, file: MediaFile, duration_ms: i64, proxy: bool, is_photo: bool)
        ensures
            final(self).wf() == old(self).wf(),
            final(self).model() == (ShellModel {
                screen: if is_photo {
                    Screen::Photo
                } else {
                    Screen::Player
                },
                player: Some(
                    Player {
                        file,
                        playing: !is_photo,
                        position_ms: 0,
                        duration_ms,
                        proxy,
                        is_photo,
                        show_info: false,
                    },
                ),
                chrome_stale: true,
                ..old(self).model()
            }),
    {
        self.screen = if is_photo {
            Screen::Photo
        } else {
            Screen::Player
        };
        self.player = Some(
            Player {
                file,
                playing: !is_photo,
                position_ms: 0,
                duration_ms,
                proxy,
                is_photo,
                show_info: false,
            },
        );
        self.chrome_stale = true;
    }

    /// Where the clip is; the chrome redraws when the second shown changes.
    pub fn player_position(&mut self, position_ms: i64)
        ensures
            final(self).wf() == old(self).wf(),
            match old(self).model().player {
                Some(player) => final(self).model() == (ShellModel {
                    player: Some(Player { position_ms, ..player }),
                    chrome_stale: old(self).model().chrome_stale || whole_seconds(
                        player.position_ms,
                    ) != whole_seconds(position_ms),
                    ..old(self).model()
                }),
                None => final(self).model() == old(self).model(),
            },
    {
        match &mut self.player {
            Some(player) => {
                if seconds_of(player.position_ms) != seconds_of(position_ms) {
                    self.chrome_stale = true;
                }
                player.position_ms = position_ms;
            },
            None => {},
        }
    }

    /// The clip ran out: the transport shows the end, paused.
    pub fn player_ended(&mut self)
        ensures
            final(self).wf() == old(self).wf(),
            match old(self).model().player {
                Some(player) => final(self).model() == (ShellModel {
                    player: Some(Player { playing: false, position_ms: player.duration_ms, ..player }),
                    chrome_stale: true,
                    ..old(self).model()
                }),
                None => final(self).model() == old(self).model(),
            },
    {
        match &mut self.player {
            Some(player) => {
                player.playing = false;
                player.position_ms = player.duration_ms;
                self.chrome_stale = true;
            },
            None => {},
        }
    }

    fn close_player(&mut self) -> (intents: Vec<Intent>)
        ensures
            final(self).wf() == old(self).wf(),
            (final(self).model(), intents@) == player_closed(old(self).model()),
    {
        self.player = None;
        self.screen = Screen::Library;
        self.chrome_stale = true;
        let mut out: Vec<Intent> = Vec::new();
        out.push(Intent::Media(MediaAction::ClosePlayer));
        out
    }

    fn player_toggle(&mut self) -> (intents: Vec<Intent>)
        ensures
            final(self).wf() == old(self).wf(),
            (final(self).model(), intents@) == player_toggled(old(self).model()),
    {
        match &mut self.player {
            Some(player) => {
                player.playing = !player.playing;
                self.chrome_stale = true;
                let mut out: Vec<Intent> = Vec::new();
                out.push(Intent::Media(MediaAction::PlayerToggle));
                out
            },
            None => Vec::new(),
        }
    }

    fn library_open_selected(&mut self) -> (intents: Vec<Intent>)
        ensures
            final(self).wf() == old(self).wf(),
            (final(self).model(), intents@) == selection_opened(old(self).model()),
    {
        let file = match self.library.selected_file() {
            Some(file) => file.clone(),
            None => {
                proof {
                    if self.library.selected is Some {
                        let path = self.library.selected->0;
                        assert(none_with_path(self.library.files@, path@));
                    }
                }
                return Vec::new();
            },
        };
        proof {
            let path = self.library.selected->0;
            let w = choose|w: int|
                0 <= w < self.library.files@.len() && self.library.files@[w] == file
                    && file.path@ == path@ && forall|k: int|
                    0 <= k < w ==> #[trigger] self.library.files@[k].path@ != path@;
            assert(is_first_at(self.library.files@, path@, w));
            assert(!none_with_path(self.library.files@, path@));
            let i = choose|i: int| is_first_at(self.library.files@, path@, i);
            crate::monitor::library::lemma_first_unique(self.library.files@, path@, i, w);
        }
        self.chrome_stale = true;
        let mut out: Vec<Intent> = Vec::new();
        if file.is_video() {
            out.push(Intent::Media(MediaAction::Play(file)));
        } else {
            out.push(Intent::Media(MediaAction::Photo(file)));
        }
        out
    }

    /// A key on a screen other than the viewfinder.
    fn press_on_screen(&mut self, key: Key) -> (intents: Vec<Intent>)
        requires
            old(self).wf(),
        ensures
            final(self).wf(),
            screen_key(old(self).model(), final(self).model(), key, intents@),
    {
        if self.screen == Screen::Library && key == Key::Escape {
            self.close_library()
        } else if self.screen == Screen::Library && (key == Key::Char('r') || key == Key::Char('R')) {
            self.library.listing = true;
            self.library.status = String::new();
            self.chrome_stale = true;
            let mut out: Vec<Intent> = Vec::new();
            out.push(Intent::Media(MediaAction::Refresh));
            out
        } else if (self.screen == Screen::Player || self.screen == Screen::Photo) && key
            == Key::Escape {
            self.close_player()
        } else if self.screen == Screen::Player && key == Key::Space {
            self.player_toggle()
        } else if key == Key::Char('h') || key == Key::Char('H') {
            self.chrome_visible = !self.chrome_visible;
            self.chrome_stale = true;
            Vec::new()
        } else if key == Key::Char('z') || key == Key::Char('Z') {
            self.toggle_assist(Assist::Zebra);
            Vec::new()
        } else if key == Key::Char('p') || key == Key::Char('P') {
            self.toggle_assist(Assist::Peaking);
            Vec::new()
        } else if key == Key::Char('l') || key == Key::Char('L') {
            self.toggle_assist(Assist::Grade);
            Vec::new()
        } else if key == Key::Char('m') || key == Key::Char('M') {
            self.toggle_assist(Assist::Mirror);
            Vec::new()
        } else {
            Vec::new()
        }
    }

    /// The keys the screens take before the stick and the controls see them: Escape
    /// closes an open sheet, every key on the library, player or viewer belongs to that
    /// screen, and `G` opens the library. `None` hands the key on.
    pub fn press_screen_key(&mut self, key: Key) -> (intents: Option<Vec<Intent>>)
        requires
            old(self).wf(),
        ensures
            final(self).wf(),
            ({
                let m = old(self).model();
                if key == Key::Escape && m.sheet is Some {
                    intents matches Some(out) && out@.len() == 0 && final(self).model() == sheet_closed(m)
                } else if m.screen != Screen::Viewfinder {
                    intents matches Some(out) && screen_key(m, final(self).model(), key, out@)
                } else if is_char(key, 'g', 'G') {
                    intents matches Some(out) && library_opened(m, final(self).model(), out@)
                } else {
                    intents is None && final(self).model() == m
                }
            }),
    {
        if key == Key::Escape && self.sheet.is_some() {
            self.close_sheet();
            return Some(Vec::new());
        }
        if self.screen != Screen::Viewfinder {
            return Some(self.press_on_screen(key));
        }
        if key == Key::Char('g') || key == Key::Char('G') {
            return Some(self.open_library());
        }
        None
    }

    fn single(intent: Intent) -> (out: Vec<Intent>)
        ensures
            out@ == seq![intent],
    {
        let mut out: Vec<Intent> = Vec::new();
        out.push(intent);
        proof {
            assert(out@ =~= seq![intent]);
        }
        out
    }

    /// The camera and gimbal controls.
    fn camera_intent(&mut self, intent: ChromeIntent) -> (out: Vec<Intent>)
        requires
            old(self).wf(),
            intent is RecordToggle || intent is TakeStill || intent is GimbalFlip
                || intent is GimbalRecenter || intent is GimbalMoved || intent is GimbalReleased
                || intent is FollowToggle || intent is FollowCycle || intent is ModeSelected
                || intent is Exit || intent is FullscreenToggle || intent is OrientationToggle,
        ensures
            final(self).wf(),
            intent_handled(old(self).model(), final(self).model(), intent, out@),
    {
        proof {
            reveal(intent_handled);
        }
        match intent {
            ChromeIntent::RecordToggle => Self::single(
                Intent::Send(
                    if self.recording {
                        Command::RecordStop
                    } else {
                        Command::RecordStart
                    },
                ),
            ),
            ChromeIntent::TakeStill => Self::single(Intent::Send(Command::ShootPhoto)),
            ChromeIntent::GimbalFlip => Self::single(Intent::Send(Command::GimbalFlip)),
            ChromeIntent::GimbalRecenter => Self::single(Intent::Send(Command::GimbalRecenter)),
            ChromeIntent::GimbalMoved { axis0, axis1 } => {
                self.pad_held = true;
                Self::single(Intent::Send(Command::GimbalStick { axis0, axis1 }))
            },
            ChromeIntent::GimbalReleased => {
                self.pad_held = false;
                Self::single(Intent::Send(Command::GimbalStick { axis0: 1024, axis1: 1024 }))
            },
            ChromeIntent::FollowToggle => {
                // ON is Follow; OFF is the tilt-locked follow the body offers.
                self.gimbal_mode = if self.gimbal_mode == GimbalMode::Follow {
                    GimbalMode::TiltLocked
                } else {
                    GimbalMode::Follow
                };
                self.chrome_stale = true;
                Self::send_all(self.gimbal_mode.commands())
            },
            ChromeIntent::FollowCycle => {
                self.gimbal_mode = self.gimbal_mode.next();
                self.chrome_stale = true;
                Self::send_all(self.gimbal_mode.commands())
            },
            ChromeIntent::ModeSelected(index) => match mode_code(index) {
                Some(code) => Self::single(Intent::Send(Command::SetShootingMode(code))),
                None => Vec::new(),
            },
            ChromeIntent::Exit => Self::single(Intent::Quit),
            ChromeIntent::FullscreenToggle => Self::single(Intent::ToggleFullscreen),
            _ => Vec::new(),
        }
    }

    /// The sheet controls.
    fn sheet_intent(&mut self, intent: ChromeIntent) -> (out: Vec<Intent>)
        requires
            old(self).wf(),
            intent is OpenFormat || intent is OpenExposure || intent is OpenMenu
                || intent is SheetClose || intent is SheetTab || intent is SheetPick,
        ensures
            final(self).wf(),
            intent_handled(old(self).model(), final(self).model(), intent, out@),
    {
        proof {
            reveal(intent_handled);
        }
        match intent {
            ChromeIntent::OpenFormat => {
                self.toggle_sheet(SheetKind::Format);
                Vec::new()
            },
            ChromeIntent::OpenExposure => {
                self.toggle_sheet(SheetKind::Exposure);
                Vec::new()
            },
            ChromeIntent::OpenMenu => {
                self.toggle_sheet(SheetKind::Settings);
                Vec::new()
            },
            ChromeIntent::SheetClose => {
                self.close_sheet();
                Vec::new()
            },
            ChromeIntent::SheetTab(tab) => {
                self.sheet_tab = tab;
                self.chrome_stale = true;
                Vec::new()
            },
            ChromeIntent::SheetPick { row, option } => {
                let picked = match self.sheet {
                    Some(kind) => {
                        let built = build(
                            kind,
                            self.sheet_tab,
                            Context {
                                readings: &self.readings,
                                prefs: self.prefs,
                                toggles: self.toggles,
                                gimbal_mode: self.gimbal_mode,
                                model_id: self.model_id,
                            },
                        );
                        match built.pick(row, option) {
                            Some(pick) => Some(pick.clone()),
                            None => None,
                        }
                    },
                    None => None,
                };
                match picked {
                    Some(pick) => self.apply_pick(pick),
                    None => Vec::new(),
                }
            },
            _ => Vec::new(),
        }
    }

    /// The library's controls.
    #[verifier::rlimit(60)]
    fn library_intent(&mut self, intent: ChromeIntent) -> (out: Vec<Intent>)
        requires
            old(self).wf(),
            intent is OpenGallery || intent is LibraryBack || intent is LibraryTab
                || intent is LibrarySortNext || intent is LibraryRefresh || intent is LibrarySelect
                || intent is LibraryPlay || intent is LibraryDownload,
        ensures
            final(self).wf(),
            intent_handled(old(self).model(), final(self).model(), intent, out@),
    {
        proof {
            reveal(intent_handled);
        }
        match intent {
            ChromeIntent::OpenGallery => self.open_library(),
            ChromeIntent::LibraryBack => self.close_library(),
            ChromeIntent::LibraryTab(index) => {
                match LibraryTab::at(index) {
                    Some(tab) => {
                        self.library.tab = tab;
                        self.chrome_stale = true;
                    },
                    None => {},
                }
                Vec::new()
            },
            ChromeIntent::LibrarySortNext => {
                self.library.sort = self.library.sort.next();
                self.chrome_stale = true;
                Vec::new()
            },
            ChromeIntent::LibraryRefresh => self.press_on_screen(Key::Char('r')),
            ChromeIntent::LibrarySelect(index) => {
                self.library.select_index(index);
                self.chrome_stale = true;
                Vec::new()
            },
            ChromeIntent::LibraryPlay => self.library_open_selected(),
            ChromeIntent::LibraryDownload => {
                let file = match self.library.selected_file() {
                    Some(file) => file.clone(),
                    None => {
                        proof {
                            if self.library.selected is Some {
                                let path = self.library.selected->0;
                                assert(none_with_path(self.library.files@, path@));
                            }
                        }
                        return Vec::new();
                    },
                };
                proof {
                    let path = self.library.selected->0;
                    let w = choose|w: int|
                        0 <= w < self.library.files@.len() && self.library.files@[w] == file
                            && file.path@ == path@ && forall|k: int|
                            0 <= k < w ==> #[trigger] self.library.files@[k].path@ != path@;
                    assert(is_first_at(self.library.files@, path@, w));
                    assert(!none_with_path(self.library.files@, path@));
                    let i = choose|i: int| is_first_at(self.library.files@, path@, i);
                    crate::monitor::library::lemma_first_unique(self.library.files@, path@, i, w);
                }
                self.library.progress.insert(owned(file.path.as_str()), (0, None));
                self.chrome_stale = true;
                Self::single(Intent::Media(MediaAction::Download(file)))
            },
            _ => Vec::new(),
        }
    }

    /// Favourite, delete and the player's controls.
    fn media_intent(&mut self, intent: ChromeIntent) -> (out: Vec<Intent>)
        requires
            old(self).wf(),
            intent is LibraryFavorite || intent is LibraryDelete || intent is PlayerBack
                || intent is PlayerToggle || intent is PlayerSeek,
        ensures
            final(self).wf(),
            intent_handled(old(self).model(), final(self).model(), intent, out@),
    {
        proof {
            reveal(intent_handled);
        }
        match intent {
            ChromeIntent::LibraryFavorite => {
                let counter = self.next_media_counter();
                let command = self.library.toggle_favorite(counter);
                self.chrome_stale = true;
                match command {
                    Some(c) => Self::single(Intent::Send(c)),
                    None => Vec::new(),
                }
            },
            ChromeIntent::LibraryDelete => {
                let counter = self.next_media_counter();
                let command = self.library.delete_tapped(counter);
                self.chrome_stale = true;
                match command {
                    Some(c) => Self::single(Intent::Send(c)),
                    None => Vec::new(),
                }
            },
            ChromeIntent::PlayerBack => self.close_player(),
            ChromeIntent::PlayerToggle => self.player_toggle(),
            ChromeIntent::PlayerSeek(position) => match &mut self.player {
                Some(player) => {
                    player.position_ms = position;
                    self.chrome_stale = true;
                    Self::single(Intent::Media(MediaAction::PlayerSeek(position)))
                },
                None => Vec::new(),
            },
            _ => Vec::new(),
        }
    }

    /// What one chrome control does.
    pub fn chrome_intent(&mut self, intent: ChromeIntent) -> (out: Vec<Intent>)
        requires
            old(self).wf(),
        ensures
            final(self).wf(),
            intent_handled(old(self).model(), final(self).model(), intent, out@),
    {
        match intent {
            ChromeIntent::OpenFormat | ChromeIntent::OpenExposure | ChromeIntent::OpenMenu
            | ChromeIntent::SheetClose | ChromeIntent::SheetTab(_) | ChromeIntent::SheetPick {
                ..
            } => self.sheet_intent(intent),
            ChromeIntent::OpenGallery | ChromeIntent::LibraryBack | ChromeIntent::LibraryTab(_)
            | ChromeIntent::LibrarySortNext | ChromeIntent::LibraryRefresh
            | ChromeIntent::LibrarySelect(_) | ChromeIntent::LibraryPlay
            | ChromeIntent::LibraryDownload => self.library_intent(intent),
            ChromeIntent::LibraryFavorite | ChromeIntent::LibraryDelete | ChromeIntent::PlayerBack
            | ChromeIntent::PlayerToggle | ChromeIntent::PlayerSeek(_) => self.media_intent(intent),
            _ => self.camera_intent(intent),
        }
    }

    /// Maps what the chrome's controls fired, in order, onto intents for the window.
    pub fn take_chrome_intents(&mut self, intents: Vec<ChromeIntent>) -> (fired: Vec<Intent>)
        requires
            old(self).wf(),
        ensures
            final(self).wf(),
            intents_handled(old(self).model(), final(self).model(), intents@, fired@),
    {
        let mut fired: Vec<Intent> = Vec::new();
        let ghost mut models: Seq<ShellModel> = seq![self.model()];
        let ghost mut outs: Seq<Seq<Intent>> = Seq::empty();
        let n = intents.len();
        let mut rest = intents;
        let ghost all = rest@;
        let mut i: usize = 0;
        while i < n
            invariant
                n == all.len(),
                i <= n,
                rest@ == all.subrange(i as int, n as int),
                self.wf(),
                models.len() == i + 1,
                outs.len() == i,
                models[0] == old(self).model(),
                models[i as int] == self.model(),
                forall|k: int|
                    0 <= k < i ==> intent_handled(
                        #[trigger] models[k],
                        models[k + 1],
                        all[k],
                        outs[k],
                    ),
                fired@ == outs.flatten(),
            decreases n - i,
        {
            let intent = rest.remove(0);
            proof {
                assert(intent == all[i as int]);
            }
            let ghost before_model = self.model();
            let mut out = self.chrome_intent(intent);
            let ghost produced = out@;
            proof {
                outs.lemma_flatten_push(produced);
                models = models.push(self.model());
                outs = outs.push(produced);
                assert(models[i as int] == before_model);
                assert(models[i + 1] == self.model());
                assert forall|k: int| 0 <= k < i + 1 implies intent_handled(
                    #[trigger] models[k],
                    models[k + 1],
                    all[k],
                    outs[k],
                ) by {
                    if k < i {
                        assert(models[k] == models.drop_last()[k]);
                    }
                }
            }
            fired.append(&mut out);
            i = i + 1;
            proof {
                assert(rest@ =~= all.subrange(i as int, n as int));
            }
        }
        proof {
            assert(all == intents@);
        }
        fired
    }

    /// What the chrome draws for the library, which also records the grid order taps
    /// are read against.
    pub fn library_state(&mut self, columns: usize, today: &str) -> (view: LibraryView)
        requires
            old(self).wf(),
        ensures
            final(self).wf(),
            final(self).model() == (ShellModel {
                library: Library { visible: final(self).model().library.visible, ..old(self).model().library },
                ..old(self).model()
            }),
            ({
                let width = if columns == 0 {
                    1nat
                } else {
                    columns as nat
                };
                let (at, cells) = layout(old(self).model().library, today@, width, old(self).model().library.shown());
                &&& cell_views(view.cells@) == cells
                &&& path_list(final(self).model().library.visible@) == cells.map_values(
                    |cell: CellModel| cell.path,
                )
            }),
    {
        self.library.state(columns, today)
    }
}

} // verus!
