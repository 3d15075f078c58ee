//! The sheets: what each one lists, and what a pick on it means.
//!
//! A sheet is built fresh from the body's readings every time the chrome redraws, so a
//! chip lights up when the camera confirms the value, not when the operator taps it.
//! Alongside each row of chips is the pick each chip stands for, so a tap is a lookup
//! rather than a second interpretation of the same list.

use vstd::arithmetic::power2::{lemma2_to64, pow2};
use vstd::prelude::*;

use crate::camera::command::Command;
use crate::monitor::shell::{GimbalMode, Toggles};
use crate::text::{decimal, owned, push_decimal, push_signed, push_str, signed_decimal};

verus! {

/// Which sheet is open.
#[derive(Debug, Clone, Copy, PartialEq, Eq, Structural)]
pub enum SheetKind {
    Format,
    Exposure,
    Settings,
}

/// Settings the body does not report back, kept as last commanded, plus the desktop's
/// own overlays.
#[derive(Debug, Clone, Copy, PartialEq, Eq, Structural)]
pub struct Prefs {
    /// `0x01` mono, `0x02` stereo, `0x03` spatial.
    pub audio_channel: u8,
    pub vocal_boost: u8,
    /// `0x01` wide, `0x05` natural.
    pub fov: u8,
    /// `0x02` slow, `0x01` default, `0x00` fast.
    pub gimbal_speed: u8,
    pub grid: bool,
    pub timecode: bool,
}

impl Default for Prefs {
    fn default() -> (prefs: Self)
        ensures
            prefs == (Prefs {
                audio_channel: 0x02,
                vocal_boost: 0x00,
                fov: 0x01,
                gimbal_speed: 0x01,
                grid: false,
                timecode: false,
            }),
    {
        Prefs {
            audio_channel: 0x02,
            vocal_boost: 0x00,
            fov: 0x01,
            gimbal_speed: 0x01,
            grid: false,
            timecode: false,
        }
    }
}

/// What a chip does when tapped.
#[derive(Debug, PartialEq)]
pub enum Pick {
    /// Put these on the wire, in order.
    Send(Vec<Command>),
    /// Desktop-side assists, handled by the shell's own toggles.
    Zebra,
    Peaking,
    Grade,
    Mirror,
    Grid(bool),
    Timecode(bool),
    GimbalMode(GimbalMode),
    AudioChannel(u8),
    VocalBoost(u8),
    Fov(u8),
    GimbalSpeed(u8),
    /// A chip that is shown but does nothing here yet.
    Nothing,
}

/// A pick as a value, its commands as a sequence.
pub enum PickModel {
    Send(Seq<Command>),
    Zebra,
    Peaking,
    Grade,
    Mirror,
    Grid(bool),
    Timecode(bool),
    GimbalMode(GimbalMode),
    AudioChannel(u8),
    VocalBoost(u8),
    Fov(u8),
    GimbalSpeed(u8),
    Nothing,
}

impl View for Pick {
    type V = PickModel;

    open spec fn view(&self) -> PickModel {
        match self {
            Pick::Send(commands) => PickModel::Send(commands@),
            Pick::Zebra => PickModel::Zebra,
            Pick::Peaking => PickModel::Peaking,
            Pick::Grade => PickModel::Grade,
            Pick::Mirror => PickModel::Mirror,
            Pick::Grid(on) => PickModel::Grid(*on),
            Pick::Timecode(on) => PickModel::Timecode(*on),
            Pick::GimbalMode(mode) => PickModel::GimbalMode(*mode),
            Pick::AudioChannel(c) => PickModel::AudioChannel(*c),
            Pick::VocalBoost(b) => PickModel::VocalBoost(*b),
            Pick::Fov(f) => PickModel::Fov(*f),
            Pick::GimbalSpeed(s) => PickModel::GimbalSpeed(*s),
            Pick::Nothing => PickModel::Nothing,
        }
    }
}

fn copy_commands(commands: &Vec<Command>) -> (copy: Vec<Command>)
    ensures
        copy@ == commands@,
{
    let mut copy: Vec<Command> = Vec::new();
    let mut i: usize = 0;
    while i < commands.len()
        invariant
            i <= commands@.len(),
            copy@ == commands@.subrange(0, i as int),
        decreases commands@.len() - i,
    {
        copy.push(commands[i]);
        i = i + 1;
        proof {
            assert(copy@ =~= commands@.subrange(0, i as int));
        }
    }
    proof {
        assert(commands@.subrange(0, i as int) =~= commands@);
    }
    copy
}

impl Clone for Pick {
    fn clone(&self) -> (copy: Self)
        ensures
            copy@ == self@,
    {
        match self {
            Pick::Send(commands) => Pick::Send(copy_commands(commands)),
            Pick::Zebra => Pick::Zebra,
            Pick::Peaking => Pick::Peaking,
            Pick::Grade => Pick::Grade,
            Pick::Mirror => Pick::Mirror,
            Pick::Grid(on) => Pick::Grid(*on),
            Pick::Timecode(on) => Pick::Timecode(*on),
            Pick::GimbalMode(mode) => Pick::GimbalMode(*mode),
            Pick::AudioChannel(c) => Pick::AudioChannel(*c),
            Pick::VocalBoost(b) => Pick::VocalBoost(*b),
            Pick::Fov(f) => Pick::Fov(*f),
            Pick::GimbalSpeed(speed) => Pick::GimbalSpeed(*speed),
            Pick::Nothing => Pick::Nothing,
        }
    }
}

/// One row of chips as the chrome draws it.
#[derive(Debug, Clone, PartialEq, Eq)]
pub struct SheetRowState {
    pub title: String,
    pub options: Vec<String>,
    pub selected: Option<usize>,
    pub enabled: bool,
}

/// A sheet as the chrome draws it.
#[derive(Debug, Clone, PartialEq, Eq)]
pub struct SheetState {
    pub title: String,
    pub tabs: Vec<String>,
    pub tab: usize,
    pub rows: Vec<SheetRowState>,
}

/// A built sheet: what to draw, and what each chip means.
#[derive(Debug, Clone)]
pub struct Built {
    pub sheet: SheetState,
    pub picks: Vec<Vec<Pick>>,
}

impl Built {
    /// The pick behind a chip, if the row and option exist.
    pub fn pick(&self, row: usize, option: usize) -> (pick: Option<&Pick>)
        ensures
            row < self.picks@.len() && option < self.picks@[row as int]@.len() ==> pick == Some(
                &self.picks@[row as int]@[option as int],
            ),
            !(row < self.picks@.len() && option < self.picks@[row as int]@.len()) ==> pick is None,
    {
        if row < self.picks.len() && option < self.picks[row].len() {
            Some(&self.picks[row][option])
        } else {
            None
        }
    }
}

/// A row as values: its title, chip labels, lit chip, whether it takes taps, and the
/// pick behind each chip.
pub struct RowModel {
    pub title: Seq<char>,
    pub options: Seq<Seq<char>>,
    pub selected: Option<nat>,
    pub enabled: bool,
    pub picks: Seq<PickModel>,
}

pub open spec fn new_row(title: Seq<char>) -> RowModel {
    RowModel { title, options: Seq::empty(), selected: None, enabled: true, picks: Seq::empty() }
}

/// A chip added at the end of a row; lit when `selected`.
pub open spec fn with_option(row: RowModel, label: Seq<char>, selected: bool, pick: PickModel) -> RowModel {
    RowModel {
        selected: if selected {
            Some(row.options.len())
        } else {
            row.selected
        },
        options: row.options.push(label),
        picks: row.picks.push(pick),
        ..row
    }
}

pub open spec fn with_enabled(row: RowModel, enabled: bool) -> RowModel {
    RowModel { enabled, ..row }
}

/// A row with one greyed chip that explains why there is nothing to pick.
pub open spec fn placeholder_row(title: Seq<char>, note: Seq<char>) -> RowModel {
    with_enabled(with_option(new_row(title), note, false, PickModel::Nothing), false)
}

struct RowBuilder {
    row: SheetRowState,
    picks: Vec<Pick>,
}

pub open spec fn label_list(labels: Seq<String>) -> Seq<Seq<char>> {
    labels.map_values(|label: String| label@)
}

pub open spec fn pick_list(picks: Seq<Pick>) -> Seq<PickModel> {
    picks.map_values(|pick: Pick| pick@)
}

impl RowBuilder {
    spec fn model(&self) -> RowModel {
        RowModel {
            title: self.row.title@,
            options: label_list(self.row.options@),
            selected: match self.row.selected {
                Some(i) => Some(i as nat),
                None => None,
            },
            enabled: self.row.enabled,
            picks: pick_list(self.picks@),
        }
    }

    spec fn wf(&self) -> bool {
        self.row.options@.len() == self.picks@.len()
    }

    fn new(title: &str) -> (row: Self)
        ensures
            row.wf(),
            row.picks@.len() == 0,
            row.model() == new_row(title@),
    {
        let row = RowBuilder {
            row: SheetRowState {
                title: owned(title),
                options: Vec::new(),
                selected: None,
                enabled: true,
            },
            picks: Vec::new(),
        };
        proof {
            assert(label_list(row.row.options@) =~= Seq::<Seq<char>>::empty());
            assert(pick_list(row.picks@) =~= Seq::<PickModel>::empty());
        }
        row
    }

    fn option(self, label: String, selected: bool, pick: Pick) -> (row: Self)
        requires
            self.wf(),
            self.picks@.len() < usize::MAX,
        ensures
            row.wf(),
            row.picks@.len() == self.picks@.len() + 1,
            row.model() == with_option(self.model(), label@, selected, pick@),
    {
        let mut row = self;
        if selected {
            row.row.selected = Some(row.row.options.len());
        }
        let ghost before = row;
        row.row.options.push(label);
        row.picks.push(pick);
        proof {
            assert(label_list(row.row.options@) =~= label_list(before.row.options@).push(label@));
            assert(pick_list(row.picks@) =~= pick_list(before.picks@).push(pick@));
        }
        row
    }

    fn enabled(self, enabled: bool) -> (row: Self)
        requires
            self.wf(),
        ensures
            row.wf(),
            row.picks@.len() == self.picks@.len(),
            row.model() == with_enabled(self.model(), enabled),
    {
        let mut row = self;
        row.row.enabled = enabled;
        row
    }

    fn placeholder(title: &str, note: &str) -> (row: Self)
        ensures
            row.wf(),
            row.model() == placeholder_row(title@, note@),
    {
        Self::new(title).option(owned(note), false, Pick::Nothing).enabled(false)
    }
}

pub open spec fn row_models(rows: Seq<SheetRowState>, picks: Seq<Vec<Pick>>) -> Seq<RowModel> {
    Seq::new(
        rows.len(),
        |i: int|
            RowModel {
                title: rows[i].title@,
                options: label_list(rows[i].options@),
                selected: match rows[i].selected {
                    Some(s) => Some(s as nat),
                    None => None,
                },
                enabled: rows[i].enabled,
                picks: pick_list(picks[i]@),
            },
    )
}

impl Built {
    /// The rows as values.
    pub open spec fn rows(&self) -> Seq<RowModel> {
        row_models(self.sheet.rows@, self.picks@)
    }
}

fn assemble(title: &str, tabs: Vec<String>, tab: usize, rows: Vec<RowBuilder>) -> (built: Built)
    requires
        forall|i: int| 0 <= i < rows@.len() ==> #[trigger] rows@[i].wf(),
    ensures
        built.sheet.title@ == title@,
        built.sheet.tabs == tabs,
        built.sheet.tab == tab,
        built.picks@.len() == built.sheet.rows@.len(),
        built.rows() == rows@.map_values(|row: RowBuilder| row.model()),
        forall|i: int|
            0 <= i < built.picks@.len() ==> #[trigger] built.picks@[i]@.len()
                == built.sheet.rows@[i].options@.len(),
{
    let mut sheet = SheetState { title: owned(title), tabs, tab, rows: Vec::new() };
    let mut picks: Vec<Vec<Pick>> = Vec::new();
    let ghost all = rows@;
    let n: usize = rows.len();
    let mut rest = rows;
    let mut i: usize = 0;
    proof {
        assert(rest@ =~= all.subrange(0, all.len() as int));
    }
    while i < n
        invariant
            n == all.len(),
            i <= all.len(),
            rest@ == all.subrange(i as int, all.len() as int),
            forall|k: int| 0 <= k < all.len() ==> #[trigger] all[k].wf(),
            sheet.rows@.len() == i,
            picks@.len() == i,
            row_models(sheet.rows@, picks@) == all.subrange(0, i as int).map_values(
                |row: RowBuilder| row.model(),
            ),
            forall|k: int|
                0 <= k < picks@.len() ==> #[trigger] picks@[k]@.len() == sheet.rows@[k].options@.len(),
            sheet.title@ == title@,
            sheet.tabs == tabs,
            sheet.tab == tab,
        decreases all.len() - i,
    {
        let row = rest.remove(0);
        let ghost before_rows = sheet.rows@;
        let ghost before_picks = picks@;
        proof {
            assert(row == all[i as int]);
            assert(row.wf());
        }
        sheet.rows.push(row.row);
        picks.push(row.picks);
        i = i + 1;
        proof {
            assert(rest@ =~= all.subrange(i as int, all.len() as int));
            let models = |row: RowBuilder| row.model();
            assert forall|k: int| 0 <= k < i implies #[trigger] row_models(sheet.rows@, picks@)[k]
                == all.subrange(0, i as int).map_values(models)[k] by {
                if k < i - 1 {
                    assert(sheet.rows@[k] == before_rows[k]);
                    assert(picks@[k] == before_picks[k]);
                    assert(row_models(before_rows, before_picks)[k] == all.subrange(
                        0,
                        i - 1,
                    ).map_values(models)[k]);
                }
            }
            assert(row_models(sheet.rows@, picks@) =~= all.subrange(0, i as int).map_values(
                models,
            ));
        }
    }
    proof {
        assert(all.subrange(0, i as int) =~= all);
    }
    Built { sheet, picks }
}

/// What the sheets read of the body's state: the lists it offers and the values it
/// reports.
#[derive(Debug, Clone, Default, PartialEq, Eq)]
pub struct Readings {
    /// `(resolution, frame rate)` codes the body lists.
    pub available_formats: Vec<(u8, u8)>,
    pub video_resolution: Option<u8>,
    pub video_frame_rate: Option<u8>,
    pub expo_mode: Option<u8>,
    pub available_iso: Vec<u8>,
    pub iso_index: Option<u8>,
    pub iso_limit: Option<u8>,
    pub available_shutter: Vec<i32>,
    pub shutter_denominator: Option<i32>,
    pub ev_thirds: Option<i32>,
    pub focus_mode: Option<u8>,
    pub white_balance_kelvin: Option<i32>,
    pub available_colors: Vec<u8>,
    pub color_mode: Option<u8>,
    /// The names the camera facade gives resolution codes; an empty name is none.
    pub resolution_names: Vec<(u8, String)>,
    /// The frame rates the camera facade gives rate codes, as text.
    pub frame_rate_names: Vec<(u8, String)>,
}

/// Everything a sheet reads to draw itself.
#[derive(Debug, Clone, Copy)]
pub struct Context<'a> {
    pub readings: &'a Readings,
    pub prefs: Prefs,
    pub toggles: Toggles,
    pub gimbal_mode: GimbalMode,
    /// The body's model id for commands that encode per model, or -1.
    pub model_id: i32,
}

pub open spec fn send_one(command: Command) -> PickModel {
    PickModel::Send(seq![command])
}

fn send_one_exec(command: Command) -> (pick: Pick)
    ensures
        pick@ == send_one(command),
{
    let mut commands: Vec<Command> = Vec::new();
    commands.push(command);
    proof {
        assert(commands@ =~= seq![command]);
    }
    Pick::Send(commands)
}

fn chip(row: RowBuilder, label: &str, selected: bool, pick: Pick) -> (next: RowBuilder)
    requires
        row.wf(),
        row.picks@.len() < usize::MAX,
    ensures
        next.wf(),
        next.picks@.len() == row.picks@.len() + 1,
        next.model() == with_option(row.model(), label@, selected, pick@),
{
    row.option(owned(label), selected, pick)
}

// ── Audio ────────────────────────────────────────────────────────────────

pub open spec fn audio_rows_spec(prefs: Prefs) -> Seq<RowModel> {
    seq![
        with_option(
            with_option(
                with_option(
                    new_row("Channel"@),
                    "Stereo"@,
                    prefs.audio_channel == 0x02,
                    PickModel::AudioChannel(0x02),
                ),
                "Mono"@,
                prefs.audio_channel == 0x01,
                PickModel::AudioChannel(0x01),
            ),
            "Spatial"@,
            prefs.audio_channel == 0x03,
            PickModel::AudioChannel(0x03),
        ),
        with_option(
            with_option(
                new_row("Vocal boost"@),
                "Off"@,
                prefs.vocal_boost == 0x00,
                PickModel::VocalBoost(0x00),
            ),
            "On"@,
            prefs.vocal_boost == 0x01,
            PickModel::VocalBoost(0x01),
        ),
        with_enabled(
            with_option(
                with_option(new_row("Wind noise reduction"@), "Off"@, false, PickModel::Nothing),
                "On"@,
                false,
                PickModel::Nothing,
            ),
            false,
        ),
        with_enabled(
            with_option(
                with_option(
                    with_option(new_row("Directional audio"@), "All"@, false, PickModel::Nothing),
                    "Front"@,
                    false,
                    PickModel::Nothing,
                ),
                "Front + back"@,
                false,
                PickModel::Nothing,
            ),
            false,
        )
    ]
}

fn audio_rows(prefs: Prefs) -> (rows: Vec<RowBuilder>)
    ensures
        forall|i: int| 0 <= i < rows@.len() ==> #[trigger] rows@[i].wf(),
        rows@.map_values(|row: RowBuilder| row.model()) == audio_rows_spec(prefs),
{
    let channel = chip(
        chip(
            chip(
                RowBuilder::new("Channel"),
                "Stereo",
                prefs.audio_channel == 0x02,
                Pick::AudioChannel(0x02),
            ),
            "Mono",
            prefs.audio_channel == 0x01,
            Pick::AudioChannel(0x01),
        ),
        "Spatial",
        prefs.audio_channel == 0x03,
        Pick::AudioChannel(0x03),
    );
    let vocal = chip(
        chip(RowBuilder::new("Vocal boost"), "Off", prefs.vocal_boost == 0x00, Pick::VocalBoost(0x00)),
        "On",
        prefs.vocal_boost == 0x01,
        Pick::VocalBoost(0x01),
    );
    // Wind and directional audio share one DSP blob the body must be read for first; the
    // desktop cannot read it yet, so these are shown for parity and greyed.
    let wind = chip(
        chip(RowBuilder::new("Wind noise reduction"), "Off", false, Pick::Nothing),
        "On",
        false,
        Pick::Nothing,
    ).enabled(false);
    let directional = chip(
        chip(chip(RowBuilder::new("Directional audio"), "All", false, Pick::Nothing), "Front", false, Pick::Nothing),
        "Front + back",
        false,
        Pick::Nothing,
    ).enabled(false);
    let mut rows: Vec<RowBuilder> = Vec::new();
    rows.push(channel);
    rows.push(vocal);
    rows.push(wind);
    rows.push(directional);
    proof {
        assert(rows@.map_values(|row: RowBuilder| row.model()) =~= audio_rows_spec(prefs));
    }
    rows
}

// ── Assists ──────────────────────────────────────────────────────────────

/// An assist is a toggle, so the chip that is not lit is the one that acts.
pub open spec fn toggle_row(title: Seq<char>, on: bool, pick: PickModel) -> RowModel {
    with_option(
        with_option(new_row(title), "Off"@, !on, if on { pick } else { PickModel::Nothing }),
        "On"@,
        on,
        if on { PickModel::Nothing } else { pick },
    )
}

pub open spec fn assist_rows_spec(prefs: Prefs, toggles: Toggles) -> Seq<RowModel> {
    seq![
        with_option(
            with_option(new_row("Grid"@), "Off"@, !prefs.grid, PickModel::Grid(false)),
            "Thirds"@,
            prefs.grid,
            PickModel::Grid(true),
        ),
        toggle_row("Overexposure alert"@, toggles.zebra, PickModel::Zebra),
        toggle_row("Focus peaking"@, toggles.peaking, PickModel::Peaking),
        toggle_row("LUT"@, toggles.grade, PickModel::Grade),
        toggle_row("Mirror"@, toggles.mirror, PickModel::Mirror),
        with_option(
            with_option(new_row("Timecode"@), "Off"@, !prefs.timecode, PickModel::Timecode(false)),
            "On"@,
            prefs.timecode,
            PickModel::Timecode(true),
        )
    ]
}

fn toggle(title: &str, on: bool, pick: Pick) -> (row: RowBuilder)
    ensures
        row.wf(),
        row.picks@.len() == 2,
        row.model() == toggle_row(title@, on, pick@),
{
    let off_pick = if on {
        pick.clone()
    } else {
        Pick::Nothing
    };
    let on_pick = if on {
        Pick::Nothing
    } else {
        pick
    };
    chip(chip(RowBuilder::new(title), "Off", !on, off_pick), "On", on, on_pick)
}

fn assist_rows(prefs: Prefs, toggles: Toggles) -> (rows: Vec<RowBuilder>)
    ensures
        forall|i: int| 0 <= i < rows@.len() ==> #[trigger] rows@[i].wf(),
        rows@.map_values(|row: RowBuilder| row.model()) == assist_rows_spec(prefs, toggles),
{
    let grid = chip(
        chip(RowBuilder::new("Grid"), "Off", !prefs.grid, Pick::Grid(false)),
        "Thirds",
        prefs.grid,
        Pick::Grid(true),
    );
    let timecode = chip(
        chip(RowBuilder::new("Timecode"), "Off", !prefs.timecode, Pick::Timecode(false)),
        "On",
        prefs.timecode,
        Pick::Timecode(true),
    );
    let mut rows: Vec<RowBuilder> = Vec::new();
    rows.push(grid);
    rows.push(toggle("Overexposure alert", toggles.zebra, Pick::Zebra));
    rows.push(toggle("Focus peaking", toggles.peaking, Pick::Peaking));
    rows.push(toggle("LUT", toggles.grade, Pick::Grade));
    rows.push(toggle("Mirror", toggles.mirror, Pick::Mirror));
    rows.push(timecode);
    proof {
        assert(rows@.map_values(|row: RowBuilder| row.model()) =~= assist_rows_spec(
            prefs,
            toggles,
        ));
    }
    rows
}

// ── Camera ───────────────────────────────────────────────────────────────

/// The white-balance presets: `0` is auto.
pub open spec fn wb_preset(i: int) -> (i32, Seq<char>) {
    if i == 0 {
        (0i32, "Auto"@)
    } else if i == 1 {
        (2800i32, "2800K"@)
    } else if i == 2 {
        (3200i32, "3200K"@)
    } else if i == 3 {
        (4000i32, "4000K"@)
    } else if i == 4 {
        (4500i32, "4500K"@)
    } else if i == 5 {
        (5000i32, "5000K"@)
    } else if i == 6 {
        (5600i32, "5600K"@)
    } else if i == 7 {
        (6500i32, "6500K"@)
    } else {
        (7500i32, "7500K"@)
    }
}

fn wb_preset_exec(i: usize) -> (preset: (i32, &'static str))
    requires
        i < 9,
    ensures
        preset.0 == wb_preset(i as int).0,
        preset.1@ == wb_preset(i as int).1,
{
    if i == 0 {
        (0, "Auto")
    } else if i == 1 {
        (2800, "2800K")
    } else if i == 2 {
        (3200, "3200K")
    } else if i == 3 {
        (4000, "4000K")
    } else if i == 4 {
        (4500, "4500K")
    } else if i == 5 {
        (5000, "5000K")
    } else if i == 6 {
        (5600, "5600K")
    } else if i == 7 {
        (6500, "6500K")
    } else {
        (7500, "7500K")
    }
}

/// The body reports the kelvin it settled on; the nearest preset lights up, and auto
/// when it reports none.
pub open spec fn wb_lit(kelvin_now: i32, kelvin: i32) -> bool {
    if kelvin == 0 {
        kelvin_now <= 0
    } else {
        kelvin_now > 0 && -250 < kelvin_now - kelvin < 250
    }
}

pub open spec fn wb_command(kelvin: i32) -> Command {
    if kelvin == 0 {
        Command::SetWhiteBalanceAuto { tint: 0 }
    } else {
        Command::SetWhiteBalanceCustom { kelvin, tint: 0 }
    }
}

pub open spec fn wb_row(kelvin_now: i32, n: int) -> RowModel
    decreases n,
{
    if n <= 0 {
        new_row("White balance"@)
    } else {
        let (kelvin, label) = wb_preset(n - 1);
        with_option(wb_row(kelvin_now, n - 1), label, wb_lit(kelvin_now, kelvin), send_one(wb_command(kelvin)))
    }
}

/// The colour modes in the order the row offers them.
pub open spec fn color_mode_entry(i: int) -> (u8, Seq<char>) {
    if i == 0 {
        (0x3Fu8, "Normal"@)
    } else if i == 1 {
        (0x3Cu8, "HDR"@)
    } else if i == 2 {
        (0x17u8, "D-Log"@)
    } else if i == 3 {
        (0x41u8, "D-Log2"@)
    } else if i == 4 {
        (0x3Du8, "Normal 10-bit"@)
    } else {
        (0x00u8, "D-Log M"@)
    }
}

fn color_mode_exec(i: usize) -> (entry: (u8, &'static str))
    requires
        i < 6,
    ensures
        entry.0 == color_mode_entry(i as int).0,
        entry.1@ == color_mode_entry(i as int).1,
{
    if i == 0 {
        (0x3F, "Normal")
    } else if i == 1 {
        (0x3C, "HDR")
    } else if i == 2 {
        (0x17, "D-Log")
    } else if i == 3 {
        (0x41, "D-Log2")
    } else if i == 4 {
        (0x3D, "Normal 10-bit")
    } else {
        (0x00, "D-Log M")
    }
}

/// The colour modes offered: what the body lists, or Normal and the two logs.
pub open spec fn offered_colors(readings: Readings) -> Seq<u8> {
    if readings.available_colors@.len() == 0 {
        seq![0x3Fu8, 0x17u8, 0x41u8]
    } else {
        readings.available_colors@
    }
}

pub open spec fn color_row(readings: Readings, model_id: i32, n: int) -> RowModel
    decreases n,
{
    if n <= 0 {
        new_row("Color"@)
    } else {
        let (code, label) = color_mode_entry(n - 1);
        let earlier = color_row(readings, model_id, n - 1);
        if offered_colors(readings).contains(code) {
            with_option(
                earlier,
                label,
                readings.color_mode == Some(code),
                send_one(Command::SetColorMode { mode: code, model_id }),
            )
        } else {
            earlier
        }
    }
}

pub open spec fn focus_now(readings: Readings) -> Option<u8> {
    match readings.focus_mode {
        Some(code) => Some(code & 0x0F),
        None => None,
    }
}

pub open spec fn camera_rows_spec(context: Context) -> Seq<RowModel> {
    let readings = *context.readings;
    let prefs = context.prefs;
    seq![
        with_option(
            with_option(
                new_row("Focus"@),
                "Single"@,
                focus_now(readings) == Some(0x01u8),
                send_one(Command::SetFocusMode(0x01)),
            ),
            "Continuous"@,
            focus_now(readings) == Some(0x02u8),
            send_one(Command::SetFocusMode(0x02)),
        ),
        wb_row(
            match readings.white_balance_kelvin {
                Some(k) => k,
                None => 0,
            },
            9,
        ),
        color_row(readings, context.model_id, 6),
        with_option(
            with_option(new_row("Field of view"@), "Wide"@, prefs.fov == 0x01, PickModel::Fov(0x01)),
            "Natural"@,
            prefs.fov == 0x05,
            PickModel::Fov(0x05),
        ),
        with_option(
            with_option(
                with_option(
                    new_row("Gimbal mode"@),
                    "Follow"@,
                    context.gimbal_mode == GimbalMode::Follow,
                    PickModel::GimbalMode(GimbalMode::Follow),
                ),
                "Tilt locked"@,
                context.gimbal_mode == GimbalMode::TiltLocked,
                PickModel::GimbalMode(GimbalMode::TiltLocked),
            ),
            "FPV"@,
            context.gimbal_mode == GimbalMode::Fpv,
            PickModel::GimbalMode(GimbalMode::Fpv),
        ),
        with_option(
            with_option(
                with_option(
                    new_row("Gimbal speed"@),
                    "Slow"@,
                    prefs.gimbal_speed == 0x02,
                    PickModel::GimbalSpeed(0x02),
                ),
                "Default"@,
                prefs.gimbal_speed == 0x01,
                PickModel::GimbalSpeed(0x01),
            ),
            "Fast"@,
            prefs.gimbal_speed == 0x00,
            PickModel::GimbalSpeed(0x00),
        )
    ]
}

fn contains_u8(items: &Vec<u8>, wanted: u8) -> (found: bool)
    ensures
        found == items@.contains(wanted),
{
    let mut i: usize = 0;
    while i < items.len()
        invariant
            i <= items@.len(),
            forall|k: int| 0 <= k < i ==> items@[k] != wanted,
        decreases items@.len() - i,
    {
        if items[i] == wanted {
            return true;
        }
        i = i + 1;
    }
    false
}

fn camera_rows(context: Context) -> (rows: Vec<RowBuilder>)
    ensures
        forall|i: int| 0 <= i < rows@.len() ==> #[trigger] rows@[i].wf(),
        rows@.map_values(|row: RowBuilder| row.model()) == camera_rows_spec(context),
{
    let readings = context.readings;
    let prefs = context.prefs;
    // `0xB1` and `0xB2` are the same modes with the tracking bit set.
    let focus_now: Option<u8> = match readings.focus_mode {
        Some(code) => Some(code & 0x0F),
        None => None,
    };
    let focus = chip(
        chip(
            RowBuilder::new("Focus"),
            "Single",
            focus_now == Some(0x01u8),
            send_one_exec(Command::SetFocusMode(0x01)),
        ),
        "Continuous",
        focus_now == Some(0x02u8),
        send_one_exec(Command::SetFocusMode(0x02)),
    );
    let kelvin_now: i32 = match readings.white_balance_kelvin {
        Some(k) => k,
        None => 0,
    };
    let mut white_balance = RowBuilder::new("White balance");
    let mut i: usize = 0;
    while i < 9
        invariant
            i <= 9,
            white_balance.wf(),
            white_balance.picks@.len() <= i,
            white_balance.model() == wb_row(kelvin_now, i as int),
        decreases 9 - i,
    {
        let (kelvin, label) = wb_preset_exec(i);
        let command = if kelvin == 0 {
            Command::SetWhiteBalanceAuto { tint: 0 }
        } else {
            Command::SetWhiteBalanceCustom { kelvin, tint: 0 }
        };
        let lit = if kelvin == 0 {
            kelvin_now <= 0
        } else {
            let gap: i64 = kelvin_now as i64 - kelvin as i64;
            kelvin_now > 0 && -250 < gap && gap < 250
        };
        white_balance = chip(white_balance, label, lit, send_one_exec(command));
        i = i + 1;
    }
    let offered: Vec<u8> = if readings.available_colors.len() == 0 {
        let mut defaults: Vec<u8> = Vec::new();
        defaults.push(0x3F);
        defaults.push(0x17);
        defaults.push(0x41);
        proof {
            assert(defaults@ =~= seq![0x3Fu8, 0x17u8, 0x41u8]);
        }
        defaults
    } else {
        let mut listed: Vec<u8> = Vec::new();
        let mut k: usize = 0;
        while k < readings.available_colors.len()
            invariant
                k <= readings.available_colors@.len(),
                listed@ == readings.available_colors@.subrange(0, k as int),
            decreases readings.available_colors@.len() - k,
        {
            listed.push(readings.available_colors[k]);
            k = k + 1;
            proof {
                assert(listed@ =~= readings.available_colors@.subrange(0, k as int));
            }
        }
        proof {
            assert(listed@ =~= readings.available_colors@);
        }
        listed
    };
    let mut color = RowBuilder::new("Color");
    let mut j: usize = 0;
    while j < 6
        invariant
            j <= 6,
            color.wf(),
            color.picks@.len() <= j,
            offered@ == offered_colors(*readings),
            color.model() == color_row(*readings, context.model_id, j as int),
        decreases 6 - j,
    {
        let (code, label) = color_mode_exec(j);
        if contains_u8(&offered, code) {
            color = chip(
                color,
                label,
                readings.color_mode == Some(code),
                send_one_exec(Command::SetColorMode { mode: code, model_id: context.model_id }),
            );
        }
        j = j + 1;
    }
    let fov = chip(
        chip(RowBuilder::new("Field of view"), "Wide", prefs.fov == 0x01, Pick::Fov(0x01)),
        "Natural",
        prefs.fov == 0x05,
        Pick::Fov(0x05),
    );
    let follow = chip(
        chip(
            chip(
                RowBuilder::new("Gimbal mode"),
                "Follow",
                context.gimbal_mode == GimbalMode::Follow,
                Pick::GimbalMode(GimbalMode::Follow),
            ),
            "Tilt locked",
            context.gimbal_mode == GimbalMode::TiltLocked,
            Pick::GimbalMode(GimbalMode::TiltLocked),
        ),
        "FPV",
        context.gimbal_mode == GimbalMode::Fpv,
        Pick::GimbalMode(GimbalMode::Fpv),
    );
    let speed = chip(
        chip(
            chip(RowBuilder::new("Gimbal speed"), "Slow", prefs.gimbal_speed == 0x02, Pick::GimbalSpeed(0x02)),
            "Default",
            prefs.gimbal_speed == 0x01,
            Pick::GimbalSpeed(0x01),
        ),
        "Fast",
        prefs.gimbal_speed == 0x00,
        Pick::GimbalSpeed(0x00),
    );
    let mut rows: Vec<RowBuilder> = Vec::new();
    rows.push(focus);
    rows.push(white_balance);
    rows.push(color);
    rows.push(fov);
    rows.push(follow);
    rows.push(speed);
    proof {
        assert(rows@.map_values(|row: RowBuilder| row.model()) =~= camera_rows_spec(context));
    }
    rows
}

// ── Exposure ─────────────────────────────────────────────────────────────

/// ISO index on the wire and the value it means; `0x00` is auto.
pub open spec fn iso_entry(i: int) -> (u8, Seq<char>) {
    if i == 0 {
        (0x00u8, "Auto"@)
    } else if i == 1 {
        (0x03u8, "100"@)
    } else if i == 2 {
        (0x04u8, "200"@)
    } else if i == 3 {
        (0x05u8, "400"@)
    } else if i == 4 {
        (0x06u8, "800"@)
    } else if i == 5 {
        (0x07u8, "1600"@)
    } else if i == 6 {
        (0x08u8, "3200"@)
    } else if i == 7 {
        (0x09u8, "6400"@)
    } else if i == 8 {
        (0x0Au8, "12800"@)
    } else {
        (0x0Bu8, "25600"@)
    }
}

fn iso_entry_exec(i: usize) -> (entry: (u8, &'static str))
    requires
        i < 10,
    ensures
        entry.0 == iso_entry(i as int).0,
        entry.1@ == iso_entry(i as int).1,
{
    if i == 0 {
        (0x00, "Auto")
    } else if i == 1 {
        (0x03, "100")
    } else if i == 2 {
        (0x04, "200")
    } else if i == 3 {
        (0x05, "400")
    } else if i == 4 {
        (0x06, "800")
    } else if i == 5 {
        (0x07, "1600")
    } else if i == 6 {
        (0x08, "3200")
    } else if i == 7 {
        (0x09, "6400")
    } else if i == 8 {
        (0x0A, "12800")
    } else {
        (0x0B, "25600")
    }
}

/// The ISO chips follow the wire table: past Auto, at index `0x00`, entry `i` sends
/// index `i + 2` and is labelled ISO 100 × 2^(i − 1), from 100 at `0x03` up to 25600 at
/// `0x0B`; so the labels double from chip to chip and no two chips send the same index.
pub proof fn lemma_iso_table(i: int, j: int)
    requires
        0 <= i < 10,
        0 <= j < 10,
    ensures
        i == 0 ==> iso_entry(i).0 == 0x00 && iso_entry(i).1 == "Auto"@,
        i > 0 ==> iso_entry(i).0 == i + 2 && iso_entry(i).1 == decimal(
            100 * pow2((i - 1) as nat),
        ),
        i != j ==> iso_entry(i).0 != iso_entry(j).0,
{
    lemma2_to64();
    reveal_with_fuel(decimal, 6);
    reveal_strlit("100");
    reveal_strlit("200");
    reveal_strlit("400");
    reveal_strlit("800");
    reveal_strlit("1600");
    reveal_strlit("3200");
    reveal_strlit("6400");
    reveal_strlit("12800");
    reveal_strlit("25600");
    assert(decimal(100) =~= "100"@);
    assert(decimal(200) =~= "200"@);
    assert(decimal(400) =~= "400"@);
    assert(decimal(800) =~= "800"@);
    assert(decimal(1600) =~= "1600"@);
    assert(decimal(3200) =~= "3200"@);
    assert(decimal(6400) =~= "6400"@);
    assert(decimal(12800) =~= "12800"@);
    assert(decimal(25600) =~= "25600"@);
}

/// The ISO indexes offered: what the body lists, or every index of the table.
pub open spec fn offered_iso(readings: Readings, index: u8) -> bool {
    if readings.available_iso@.len() == 0 {
        exists|i: int| 0 <= i < 10 && iso_entry(i).0 == index
    } else {
        readings.available_iso@.contains(index)
    }
}

pub open spec fn iso_row(readings: Readings, manual: bool, n: int) -> RowModel
    decreases n,
{
    if n <= 0 {
        with_enabled(new_row("ISO"@), manual)
    } else {
        let (index, label) = iso_entry(n - 1);
        let earlier = iso_row(readings, manual, n - 1);
        if index != 0x00 && offered_iso(readings, index) {
            with_option(
                earlier,
                label,
                readings.iso_index == Some(index),
                send_one(Command::SetIsoIndex(index)),
            )
        } else {
            earlier
        }
    }
}

/// The auto-ISO ceiling a limit code stands for: `100 << (limit - 1)`.
pub open spec fn iso_ceiling(limit: int) -> nat {
    if limit == 2 {
        200
    } else if limit == 3 {
        400
    } else if limit == 4 {
        800
    } else if limit == 5 {
        1600
    } else if limit == 6 {
        3200
    } else if limit == 7 {
        6400
    } else if limit == 8 {
        12800
    } else {
        25600
    }
}

pub open spec fn iso_max_row(readings: Readings, manual: bool, n: int) -> RowModel
    decreases n,
{
    if n <= 0 {
        with_enabled(new_row("ISO max"@), !manual)
    } else {
        let limit = n + 1;
        with_option(
            iso_max_row(readings, manual, n - 1),
            "100–"@ + decimal(iso_ceiling(limit)),
            readings.iso_limit == Some(limit as u8),
            send_one(Command::SetIsoLimit(limit as u8)),
        )
    }
}

/// Shutter denominators offered when the body has not sent its own list.
pub open spec fn default_shutters() -> Seq<i32> {
    seq![8000i32, 4000, 2000, 1000, 500, 250, 200, 120, 100, 60, 50, 30, 25]
}

pub open spec fn offered_shutters(readings: Readings) -> Seq<i32> {
    if readings.available_shutter@.len() == 0 {
        default_shutters()
    } else {
        readings.available_shutter@
    }
}

pub open spec fn shutter_row(readings: Readings, manual: bool, n: int) -> RowModel
    decreases n,
{
    if n <= 0 {
        with_enabled(new_row("Shutter"@), manual)
    } else {
        let denominator = offered_shutters(readings)[n - 1];
        with_option(
            shutter_row(readings, manual, n - 1),
            "1/"@ + signed_decimal(denominator as int),
            readings.shutter_denominator == Some(denominator),
            send_one(Command::SetShutter(denominator)),
        )
    }
}

/// An EV step of `thirds` thirds written to one decimal with its sign: `+0.3`, `-2.7`.
pub open spec fn ev_label(thirds: int) -> Seq<char> {
    let magnitude: nat = if thirds < 0 {
        (-thirds) as nat
    } else {
        thirds as nat
    };
    let tenths = (magnitude * 10 + 1) / 3;
    (if thirds < 0 {
        "-"@
    } else {
        "+"@
    }) + decimal(tenths / 10) + "."@ + decimal(tenths % 10)
}

pub open spec fn ev_row(readings: Readings, manual: bool, n: int) -> RowModel
    decreases n,
{
    if n <= 0 {
        with_enabled(new_row("EV"@), !manual)
    } else {
        let thirds = n - 10;
        with_option(
            ev_row(readings, manual, n - 1),
            ev_label(thirds),
            readings.ev_thirds == Some(thirds as i32),
            send_one(Command::SetEv(thirds as i32)),
        )
    }
}

pub open spec fn exposure_rows_spec(readings: Readings) -> Seq<RowModel> {
    let manual = readings.expo_mode == Some(0x04u8);
    seq![
        with_option(
            with_option(new_row("Mode"@), "Auto"@, !manual, send_one(Command::SetExpoMode(0x01))),
            "Manual"@,
            manual,
            send_one(Command::SetExpoMode(0x04)),
        ),
        iso_row(readings, manual, 10),
        iso_max_row(readings, manual, 8),
        shutter_row(readings, manual, offered_shutters(readings).len() as int),
        ev_row(readings, manual, 19)
    ]
}

fn ev_text(thirds: i32) -> (label: String)
    requires
        -9 <= thirds <= 9,
    ensures
        label@ == ev_label(thirds as int),
{
    let magnitude: u64 = if thirds < 0 {
        (0 - thirds) as u64
    } else {
        thirds as u64
    };
    let tenths = (magnitude * 10 + 1) / 3;
    let mut label = String::new();
    if thirds < 0 {
        push_str(&mut label, "-");
    } else {
        push_str(&mut label, "+");
    }
    push_decimal(&mut label, tenths / 10);
    push_str(&mut label, ".");
    push_decimal(&mut label, tenths % 10);
    proof {
        reveal_strlit("-");
        reveal_strlit("+");
        reveal_strlit(".");
        assert(label@ =~= ev_label(thirds as int));
    }
    label
}

fn exposure_rows(readings: &Readings) -> (rows: Vec<RowBuilder>)
    ensures
        forall|i: int| 0 <= i < rows@.len() ==> #[trigger] rows@[i].wf(),
        rows@.map_values(|row: RowBuilder| row.model()) == exposure_rows_spec(*readings),
{
    let manual = readings.expo_mode == Some(0x04u8);
    let mode = chip(
        chip(RowBuilder::new("Mode"), "Auto", !manual, send_one_exec(Command::SetExpoMode(0x01))),
        "Manual",
        manual,
        send_one_exec(Command::SetExpoMode(0x04)),
    );
    let mut iso = RowBuilder::new("ISO").enabled(manual);
    let mut i: usize = 0;
    while i < 10
        invariant
            i <= 10,
            iso.wf(),
            iso.picks@.len() <= i,
            iso.model() == iso_row(*readings, manual, i as int),
        decreases 10 - i,
    {
        let (index, label) = iso_entry_exec(i);
        let offered = if readings.available_iso.len() == 0 {
            proof {
                assert(iso_entry(i as int).0 == index);
            }
            true
        } else {
            contains_u8(&readings.available_iso, index)
        };
        proof {
            if readings.available_iso@.len() == 0 {
                assert(offered_iso(*readings, index));
            }
        }
        if index != 0x00 && offered {
            iso = chip(
                iso,
                label,
                readings.iso_index == Some(index),
                send_one_exec(Command::SetIsoIndex(index)),
            );
        }
        i = i + 1;
    }
    let mut iso_max = RowBuilder::new("ISO max").enabled(!manual);
    let mut limit: u8 = 2;
    let mut ceiling: u64 = 200;
    while limit <= 9
        invariant
            2 <= limit <= 10,
            limit <= 9 ==> ceiling == iso_ceiling(limit as int),
            iso_max.wf(),
            iso_max.picks@.len() <= limit,
            iso_max.model() == iso_max_row(*readings, manual, limit - 2),
        decreases 10 - limit,
    {
        let mut label = owned("100–");
        push_decimal(&mut label, ceiling);
        iso_max = iso_max.option(
            label,
            readings.iso_limit == Some(limit),
            send_one_exec(Command::SetIsoLimit(limit)),
        );
        limit = limit + 1;
        ceiling = ceiling * 2;
    }
    let mut shutters: Vec<i32> = Vec::new();
    if readings.available_shutter.len() == 0 {
        shutters.push(8000);
        shutters.push(4000);
        shutters.push(2000);
        shutters.push(1000);
        shutters.push(500);
        shutters.push(250);
        shutters.push(200);
        shutters.push(120);
        shutters.push(100);
        shutters.push(60);
        shutters.push(50);
        shutters.push(30);
        shutters.push(25);
        proof {
            assert(shutters@ =~= default_shutters());
        }
    } else {
        let mut k: usize = 0;
        while k < readings.available_shutter.len()
            invariant
                k <= readings.available_shutter@.len(),
                shutters@ == readings.available_shutter@.subrange(0, k as int),
            decreases readings.available_shutter@.len() - k,
        {
            shutters.push(readings.available_shutter[k]);
            k = k + 1;
            proof {
                assert(shutters@ =~= readings.available_shutter@.subrange(0, k as int));
            }
        }
        proof {
            assert(shutters@ =~= readings.available_shutter@);
        }
    }
    let mut shutter = RowBuilder::new("Shutter").enabled(manual);
    let mut s: usize = 0;
    while s < shutters.len()
        invariant
            s <= shutters@.len(),
            shutters@ == offered_shutters(*readings),
            shutter.wf(),
            shutter.picks@.len() <= s,
            shutter.model() == shutter_row(*readings, manual, s as int),
        decreases shutters@.len() - s,
    {
        let denominator = shutters[s];
        let mut label = owned("1/");
        push_signed(&mut label, denominator as i64);
        shutter = shutter.option(
            label,
            readings.shutter_denominator == Some(denominator),
            send_one_exec(Command::SetShutter(denominator)),
        );
        s = s + 1;
    }
    let mut ev = RowBuilder::new("EV").enabled(!manual);
    let mut thirds: i32 = -9;
    while thirds <= 9
        invariant
            -9 <= thirds <= 10,
            ev.wf(),
            ev.picks@.len() <= thirds + 9,
            ev.model() == ev_row(*readings, manual, thirds + 9),
        decreases 10 - thirds,
    {
        ev = ev.option(
            ev_text(thirds),
            readings.ev_thirds == Some(thirds),
            send_one_exec(Command::SetEv(thirds)),
        );
        thirds = thirds + 1;
    }
    let mut rows: Vec<RowBuilder> = Vec::new();
    rows.push(mode);
    rows.push(iso);
    rows.push(iso_max);
    rows.push(shutter);
    rows.push(ev);
    proof {
        assert(rows@.map_values(|row: RowBuilder| row.model()) =~= exposure_rows_spec(*readings));
    }
    rows
}

/// The exposure sheet: mode, then the rows that mode uses lit for taps and the rest
/// greyed.
pub fn exposure(readings: &Readings) -> (built: Built)
    ensures
        built.sheet.title@ == "EXPOSURE"@,
        built.sheet.tabs@.len() == 0,
        built.sheet.tab == 0,
        built.rows() == exposure_rows_spec(*readings),
        built.picks@.len() == built.sheet.rows@.len(),
{
    let rows = exposure_rows(readings);
    assemble("EXPOSURE", Vec::new(), 0, rows)
}

// ── Settings ─────────────────────────────────────────────────────────────

/// The settings tabs, in order.
pub open spec fn settings_tabs() -> Seq<Seq<char>> {
    seq!["CAMERA"@, "AUDIO"@, "ASSIST"@]
}

pub open spec fn settings_rows_spec(tab: nat, context: Context) -> Seq<RowModel> {
    if tab == 0 {
        camera_rows_spec(context)
    } else if tab == 1 {
        audio_rows_spec(context.prefs)
    } else {
        assist_rows_spec(context.prefs, context.toggles)
    }
}

/// The settings sheet on tab `tab`, the last tab for anything past it.
pub fn settings(tab: usize, context: Context) -> (built: Built)
    ensures
        ({
            let shown: nat = if tab > 2 {
                2
            } else {
                tab as nat
            };
            &&& built.sheet.title@ == "SETTINGS"@
            &&& label_list(built.sheet.tabs@) == settings_tabs()
            &&& built.sheet.tab == shown
            &&& built.rows() == settings_rows_spec(shown, context)
            &&& built.picks@.len() == built.sheet.rows@.len()
        }),
{
    let tab = if tab > 2 {
        2
    } else {
        tab
    };
    let rows = if tab == 0 {
        camera_rows(context)
    } else if tab == 1 {
        audio_rows(context.prefs)
    } else {
        assist_rows(context.prefs, context.toggles)
    };
    let mut tabs: Vec<String> = Vec::new();
    tabs.push(owned("CAMERA"));
    tabs.push(owned("AUDIO"));
    tabs.push(owned("ASSIST"));
    proof {
        assert(label_list(tabs@) =~= settings_tabs());
    }
    assemble("SETTINGS", tabs, tab, rows)
}

// ── Format ───────────────────────────────────────────────────────────────

/// The name a table gives `code`: its first entry for the code, if any.
pub open spec fn name_for(names: Seq<(u8, String)>, code: u8) -> Option<Seq<char>>
    decreases names.len(),
{
    if names.len() == 0 {
        None
    } else if names[0].0 == code {
        Some(names[0].1@)
    } else {
        name_for(names.drop_first(), code)
    }
}

/// An upper-case hexadecimal digit.
pub open spec fn hex_digit(d: nat) -> char {
    if d < 10 {
        (48 + d) as char
    } else {
        (55 + d) as char
    }
}

/// A code the facade has no name for, as `0x` and two upper-case hex digits.
pub open spec fn hex_code(code: u8) -> Seq<char> {
    "0x"@ + seq![hex_digit((code / 16) as nat), hex_digit((code % 16) as nat)]
}

/// A chip's label for `code`: its name when the facade has a non-empty one, else hex.
pub open spec fn code_label(names: Seq<(u8, String)>, code: u8) -> Seq<char> {
    match name_for(names, code) {
        Some(name) if name.len() > 0 => name,
        _ => hex_code(code),
    }
}

/// The resolution codes the body lists, each once, in the order first listed.
pub open spec fn resolution_codes(formats: Seq<(u8, u8)>) -> Seq<u8>
    decreases formats.len(),
{
    if formats.len() == 0 {
        Seq::empty()
    } else {
        let earlier = resolution_codes(formats.drop_last());
        if earlier.contains(formats.last().0) {
            earlier
        } else {
            earlier.push(formats.last().0)
        }
    }
}

/// The frame rates the body lists for `code`, in order.
pub open spec fn rates_of(formats: Seq<(u8, u8)>, code: u8) -> Seq<u8>
    decreases formats.len(),
{
    if formats.len() == 0 {
        Seq::empty()
    } else {
        let earlier = rates_of(formats.drop_last(), code);
        if formats.last().0 == code {
            earlier.push(formats.last().1)
        } else {
            earlier
        }
    }
}

/// The format the body reports, when it reports both halves.
pub open spec fn current_format(readings: Readings) -> Option<(u8, u8)> {
    match (readings.video_resolution, readings.video_frame_rate) {
        (Some(resolution), Some(rate)) => Some((resolution, rate)),
        _ => None,
    }
}

/// The resolution the sheet lights: the current one, else the first listed.
pub open spec fn shown_resolution(readings: Readings) -> u8 {
    match current_format(readings) {
        Some((resolution, _)) => resolution,
        None => readings.available_formats@[0].0,
    }
}

/// The rate a resolution chip asks for: the current rate when that resolution offers it,
/// else its first rate.
pub open spec fn rate_kept(readings: Readings, code: u8) -> u8 {
    let rates = rates_of(readings.available_formats@, code);
    match current_format(readings) {
        Some((_, rate)) if rates.contains(rate) => rate,
        _ => if rates.len() > 0 {
            rates[0]
        } else {
            0
        },
    }
}

pub open spec fn format_pick(resolution: u8, rate: u8) -> PickModel {
    send_one(Command::SetVideoFormat { resolution, frame_rate: rate })
}

/// The first `n` resolution chips.
pub open spec fn resolution_row(readings: Readings, n: int) -> RowModel
    decreases n,
{
    if n <= 0 {
        new_row("Resolution"@)
    } else {
        let code = resolution_codes(readings.available_formats@)[n - 1];
        with_option(
            resolution_row(readings, n - 1),
            code_label(readings.resolution_names@, code),
            code == shown_resolution(readings),
            format_pick(code, rate_kept(readings, code)),
        )
    }
}

/// The first `n` frame-rate chips of the shown resolution.
pub open spec fn rate_row(readings: Readings, n: int) -> RowModel
    decreases n,
{
    if n <= 0 {
        new_row("Frame rate"@)
    } else {
        let resolution = shown_resolution(readings);
        let rate = rates_of(readings.available_formats@, resolution)[n - 1];
        with_option(
            rate_row(readings, n - 1),
            code_label(readings.frame_rate_names@, rate),
            current_format(readings) matches Some((_, now)) && now == rate,
            format_pick(resolution, rate),
        )
    }
}

pub open spec fn waiting_note() -> Seq<char> {
    "Waiting for the camera's list"@
}

/// The FORMAT sheet's rows: only what the body lists, or two greyed notes while it has
/// listed nothing.
pub open spec fn format_rows_spec(readings: Readings) -> Seq<RowModel> {
    let formats = readings.available_formats@;
    if formats.len() == 0 {
        seq![
            placeholder_row("Resolution"@, waiting_note()),
            placeholder_row("Frame rate"@, waiting_note()),
        ]
    } else {
        seq![
            resolution_row(readings, resolution_codes(formats).len() as int),
            rate_row(readings, rates_of(formats, shown_resolution(readings)).len() as int),
        ]
    }
}

proof fn lemma_rates_listed(formats: Seq<(u8, u8)>, code: u8, i: int)
    requires
        0 <= i < rates_of(formats, code).len(),
    ensures
        formats.contains((code, rates_of(formats, code)[i])),
    decreases formats.len(),
{
    let earlier = rates_of(formats.drop_last(), code);
    if i < earlier.len() {
        lemma_rates_listed(formats.drop_last(), code, i);
        let k = choose|k: int|
            0 <= k < formats.drop_last().len() && formats.drop_last()[k] == (code, earlier[i]);
        assert(formats[k] == (code, earlier[i]));
    } else {
        assert(formats[formats.len() - 1] == (code, rates_of(formats, code)[i]));
    }
}

proof fn lemma_listed_code_has_rates(formats: Seq<(u8, u8)>, code: u8)
    requires
        resolution_codes(formats).contains(code),
    ensures
        rates_of(formats, code).len() > 0,
    decreases formats.len(),
{
    if formats.last().0 != code {
        lemma_listed_code_has_rates(formats.drop_last(), code);
    } else {
        assert(rates_of(formats, code).len() == rates_of(formats.drop_last(), code).len() + 1);
    }
}

proof fn lemma_row_lengths(readings: Readings, n: int)
    requires
        0 <= n,
    ensures
        resolution_row(readings, n).picks.len() == n,
        rate_row(readings, n).picks.len() == n,
    decreases n,
{
    if n > 0 {
        lemma_row_lengths(readings, n - 1);
    }
}

proof fn lemma_resolution_row_shape(readings: Readings, n: int, k: int)
    requires
        0 <= k < n,
    ensures
        resolution_row(readings, n).picks.len() == n,
        resolution_row(readings, n).picks[k] == format_pick(
            resolution_codes(readings.available_formats@)[k],
            rate_kept(readings, resolution_codes(readings.available_formats@)[k]),
        ),
    decreases n,
{
    if k < n - 1 {
        lemma_resolution_row_shape(readings, n - 1, k);
    } else if n - 1 > 0 {
        lemma_resolution_row_shape(readings, n - 1, 0);
    }
}

proof fn lemma_rate_row_shape(readings: Readings, n: int, k: int)
    requires
        0 <= k < n,
    ensures
        rate_row(readings, n).picks.len() == n,
        rate_row(readings, n).picks[k] == format_pick(
            shown_resolution(readings),
            rates_of(readings.available_formats@, shown_resolution(readings))[k],
        ),
    decreases n,
{
    if k < n - 1 {
        lemma_rate_row_shape(readings, n - 1, k);
    } else if n - 1 > 0 {
        lemma_rate_row_shape(readings, n - 1, 0);
    }
}

/// Every chip on the FORMAT sheet asks for a format the body listed: a resolution chip
/// keeps the current rate when that resolution offers it and takes the resolution's
/// first rate otherwise, and a rate chip pairs the shown resolution with a rate listed
/// for it.
pub proof fn lemma_format_offers_only_listed(readings: Readings, row: int, option: int)
    requires
        readings.available_formats@.len() > 0,
        0 <= row < format_rows_spec(readings).len(),
        0 <= option < format_rows_spec(readings)[row].picks.len(),
    ensures
        exists|resolution: u8, rate: u8|
            format_rows_spec(readings)[row].picks[option] == format_pick(resolution, rate)
                && readings.available_formats@.contains((resolution, rate)),
        row == 0 ==> format_rows_spec(readings)[row].picks[option] == format_pick(
            resolution_codes(readings.available_formats@)[option],
            rate_kept(readings, resolution_codes(readings.available_formats@)[option]),
        ),
{
    let formats = readings.available_formats@;
    let codes = resolution_codes(formats);
    lemma_row_lengths(readings, codes.len() as int);
    lemma_row_lengths(readings, rates_of(formats, shown_resolution(readings)).len() as int);
    if row == 0 {
        lemma_resolution_row_shape(readings, codes.len() as int, option);
        let code = codes[option];
        assert(codes.contains(code));
        lemma_listed_code_has_rates(formats, code);
        let rates = rates_of(formats, code);
        let rate = rate_kept(readings, code);
        if rates.contains(rate) {
            let i = choose|i: int| 0 <= i < rates.len() && rates[i] == rate;
            lemma_rates_listed(formats, code, i);
        } else {
            lemma_rates_listed(formats, code, 0);
        }
        assert(format_rows_spec(readings)[row].picks[option] == format_pick(code, rate));
    } else {
        let shown = shown_resolution(readings);
        let rates = rates_of(formats, shown);
        lemma_rate_row_shape(readings, rates.len() as int, option);
        lemma_rates_listed(formats, shown, option);
        assert(format_rows_spec(readings)[row].picks[option] == format_pick(shown, rates[option]));
    }
}

fn hex_digit_exec(d: u8) -> (c: char)
    requires
        d < 16,
    ensures
        c == hex_digit(d as nat),
{
    if d < 10 {
        (48 + d) as char
    } else {
        (55 + d) as char
    }
}

fn code_label_exec(names: &Vec<(u8, String)>, code: u8) -> (label: String)
    ensures
        label@ == code_label(names@, code),
{
    let mut i: usize = 0;
    proof {
        assert(names@.skip(0) =~= names@);
    }
    while i < names.len() && names[i].0 != code
        invariant
            i <= names@.len(),
            name_for(names@, code) == name_for(names@.skip(i as int), code),
        decreases names@.len() - i,
    {
        proof {
            assert(names@.skip(i as int).drop_first() =~= names@.skip(i + 1));
        }
        i = i + 1;
    }
    if i < names.len() {
        proof {
            assert(names@.skip(i as int)[0] == names@[i as int]);
        }
        let name = &names[i].1;
        if !name.as_str().is_empty() {
            return name.clone();
        }
    } else {
        proof {
            assert(names@.skip(i as int).len() == 0);
        }
    }
    let mut label = owned("0x");
    crate::text::push_char(&mut label, hex_digit_exec(code / 16));
    crate::text::push_char(&mut label, hex_digit_exec(code % 16));
    proof {
        reveal_strlit("0x");
        assert(label@ =~= hex_code(code));
    }
    label
}

fn kept_rate(readings: &Readings, code: u8) -> (rate: u8)
    ensures
        rate == rate_kept(*readings, code),
{
    let rates = rates_exec(&readings.available_formats, code);
    match (readings.video_resolution, readings.video_frame_rate) {
        (Some(_), Some(now)) => {
            if contains_u8(&rates, now) {
                return now;
            }
        },
        _ => {},
    }
    if rates.len() > 0 {
        rates[0]
    } else {
        0
    }
}

fn resolution_codes_exec(formats: &Vec<(u8, u8)>) -> (codes: Vec<u8>)
    ensures
        codes@ == resolution_codes(formats@),
{
    let mut codes: Vec<u8> = Vec::new();
    let mut i: usize = 0;
    while i < formats.len()
        invariant
            i <= formats@.len(),
            codes@ == resolution_codes(formats@.take(i as int)),
        decreases formats@.len() - i,
    {
        proof {
            assert(formats@.take(i + 1).drop_last() =~= formats@.take(i as int));
        }
        let code = formats[i].0;
        if !contains_u8(&codes, code) {
            codes.push(code);
        }
        i = i + 1;
    }
    proof {
        assert(formats@.take(i as int) =~= formats@);
    }
    codes
}

fn rates_exec(formats: &Vec<(u8, u8)>, code: u8) -> (rates: Vec<u8>)
    ensures
        rates@ == rates_of(formats@, code),
{
    let mut rates: Vec<u8> = Vec::new();
    let mut i: usize = 0;
    while i < formats.len()
        invariant
            i <= formats@.len(),
            rates@ == rates_of(formats@.take(i as int), code),
        decreases formats@.len() - i,
    {
        proof {
            assert(formats@.take(i + 1).drop_last() =~= formats@.take(i as int));
        }
        if formats[i].0 == code {
            rates.push(formats[i].1);
        }
        i = i + 1;
    }
    proof {
        assert(formats@.take(i as int) =~= formats@);
    }
    rates
}

fn format_pick_exec(resolution: u8, rate: u8) -> (pick: Pick)
    ensures
        pick@ == format_pick(resolution, rate),
{
    send_one_exec(Command::SetVideoFormat { resolution, frame_rate: rate })
}

fn format_rows(readings: &Readings) -> (rows: Vec<RowBuilder>)
    ensures
        forall|i: int| 0 <= i < rows@.len() ==> #[trigger] rows@[i].wf(),
        rows@.map_values(|row: RowBuilder| row.model()) == format_rows_spec(*readings),
{
    let formats = &readings.available_formats;
    let mut rows: Vec<RowBuilder> = Vec::new();
    if formats.len() == 0 {
        rows.push(RowBuilder::placeholder("Resolution", "Waiting for the camera's list"));
        rows.push(RowBuilder::placeholder("Frame rate", "Waiting for the camera's list"));
        proof {
            reveal_strlit("Waiting for the camera's list");
            assert(rows@.map_values(|row: RowBuilder| row.model()) =~= format_rows_spec(*readings));
        }
        return rows;
    }
    let current = match (readings.video_resolution, readings.video_frame_rate) {
        (Some(resolution), Some(rate)) => Some((resolution, rate)),
        _ => None,
    };
    let shown = match current {
        Some((resolution, _)) => resolution,
        None => formats[0].0,
    };
    let codes = resolution_codes_exec(formats);
    let mut resolution = RowBuilder::new("Resolution");
    let mut i: usize = 0;
    while i < codes.len()
        invariant
            i <= codes@.len(),
            codes@ == resolution_codes(readings.available_formats@),
            current == current_format(*readings),
            shown == shown_resolution(*readings),
            resolution.wf(),
            resolution.picks@.len() == i,
            resolution.model() == resolution_row(*readings, i as int),
        decreases codes@.len() - i,
    {
        let code = codes[i];
        let rate = kept_rate(readings, code);
        let label = code_label_exec(&readings.resolution_names, code);
        resolution = resolution.option(label, code == shown, format_pick_exec(code, rate));
        i = i + 1;
    }
    let rates = rates_exec(formats, shown);
    let mut rate_chips = RowBuilder::new("Frame rate");
    let mut j: usize = 0;
    while j < rates.len()
        invariant
            j <= rates@.len(),
            rates@ == rates_of(readings.available_formats@, shown_resolution(*readings)),
            current == current_format(*readings),
            shown == shown_resolution(*readings),
            rate_chips.wf(),
            rate_chips.picks@.len() == j,
            rate_chips.model() == rate_row(*readings, j as int),
        decreases rates@.len() - j,
    {
        let rate = rates[j];
        let label = code_label_exec(&readings.frame_rate_names, rate);
        let lit = match current {
            Some((_, now)) => now == rate,
            None => false,
        };
        rate_chips = rate_chips.option(label, lit, format_pick_exec(shown, rate));
        j = j + 1;
    }
    rows.push(resolution);
    rows.push(rate_chips);
    proof {
        assert(rows@.map_values(|row: RowBuilder| row.model()) =~= format_rows_spec(*readings));
    }
    rows
}

/// The FORMAT sheet: the resolutions the body lists, then the rates it lists for the
/// shown one; two greyed notes while it has listed nothing, never an invented list.
pub fn format(readings: &Readings) -> (built: Built)
    ensures
        built.sheet.title@ == "FORMAT"@,
        built.sheet.tabs@.len() == 0,
        built.sheet.tab == 0,
        built.rows() == format_rows_spec(*readings),
        built.picks@.len() == built.sheet.rows@.len(),
{
    let rows = format_rows(readings);
    assemble("FORMAT", Vec::new(), 0, rows)
}

/// The tab a settings sheet shows: the last one for anything past it.
pub open spec fn shown_tab(tab: usize) -> nat {
    if tab > 2 {
        2
    } else {
        tab as nat
    }
}

/// The rows of the sheet `kind` on tab `tab`.
pub open spec fn sheet_rows(kind: SheetKind, tab: usize, context: Context) -> Seq<RowModel> {
    match kind {
        SheetKind::Format => format_rows_spec(*context.readings),
        SheetKind::Exposure => exposure_rows_spec(*context.readings),
        SheetKind::Settings => settings_rows_spec(shown_tab(tab), context),
    }
}

/// Builds the sheet the shell has open.
pub fn build(kind: SheetKind, tab: usize, context: Context) -> (built: Built)
    ensures
        built.rows() == sheet_rows(kind, tab, context),
        built.picks@.len() == built.sheet.rows@.len(),
        built.sheet.title@ == match kind {
            SheetKind::Format => "FORMAT"@,
            SheetKind::Exposure => "EXPOSURE"@,
            SheetKind::Settings => "SETTINGS"@,
        },
{
    match kind {
        SheetKind::Format => format(context.readings),
        SheetKind::Exposure => exposure(context.readings),
        SheetKind::Settings => settings(tab, context),
    }
}

} // verus!
