use opc_desktop::camera::command::Command;
use opc_desktop::media::model::MediaFile;
use opc_desktop::media::query::{LibrarySort, LibraryTab};
use opc_desktop::monitor::library::{
    civil_from_days, clock_label, day_key, today_key, GridCell, Library, LibraryView, MediaAction,
    Player,
};
use opc_desktop::monitor::luts::{display_name, is_safe_file_name, stored, LutChoice};
use opc_desktop::monitor::sheets::{
    build, exposure, settings, Context, Pick, Prefs, Readings, SheetKind,
};
use opc_desktop::monitor::shell::{
    mode_code, mode_index, Action, Assist, ChromeIntent, GimbalMode, Intent, Key, Screen, Shell,
    Toggles, TouchPhase, TouchRoute,
};

// The grid's metrics, in pixels.
const CELL_W: f32 = 220.0;
const CELL_H: f32 = 124.0;
const GAP: f32 = 10.0;
const INSET: f32 = 24.0;
const HEADER_H: f32 = 44.0;

/// How many tiles a grid `width` pixels wide holds.
fn columns(width: f32) -> usize {
    ((width - 2.0 * INSET + GAP) / (CELL_W + GAP)).floor() as usize
}

fn x(cell: &GridCell) -> f32 {
    cell.column as f32 * (CELL_W + GAP)
}

fn y(cell: &GridCell) -> f32 {
    cell.bands as f32 * (HEADER_H + GAP) + cell.rows as f32 * (CELL_H + GAP)
}

fn content_height(view: &LibraryView) -> f32 {
    match view.content {
        Some((bands, rows)) => {
            bands as f32 * (HEADER_H + GAP) + rows as f32 * (CELL_H + GAP) + CELL_H + GAP
        }
        None => 0.0,
    }
}

fn state(library: &mut Library, width: f32) -> LibraryView {
    library.state(columns(width), &today_key())
}

fn clip(n: u32, video: bool) -> MediaFile {
    MediaFile {
        path: format!(
            "DCIM/DJI_001/DJI_202608141252{n:02}_00{n:02}_D.{}",
            if video { "MP4" } else { "JPG" }
        ),
        handle: 0x4010_4400 + n,
        duration_seconds: if video { 10 + i64::from(n) } else { 0 },
        ..MediaFile::default()
    }
}

#[test]
fn the_grid_follows_the_tab_and_a_tap_finds_its_file() {
    let mut library = Library {
        files: vec![clip(1, true), clip(2, false), clip(3, true)],
        ..Library::default()
    };
    library.tab = LibraryTab::Photos;
    let view = state(&mut library, 1280.0);
    assert_eq!(view.cells.len(), 2, "a day header and the tile");
    assert!(view.cells[0].header);
    assert_eq!(view.cells[1].meta, "JPG");
    library.select_index(1);
    assert!(library
        .selected_file()
        .unwrap()
        .path
        .ends_with("0002_D.JPG"));
    library.tab = LibraryTab::All;
    let view = state(&mut library, 1280.0);
    assert_eq!(view.cells.len(), 4);
    assert_eq!(view.cells[1].meta, "0:13", "newest first");
    assert_eq!(view.cells[0].title, "2026-08-14");
    // Same day: tiles share the row, laid out left to right.
    assert_eq!(x(&view.cells[1]), 0.0);
    assert_eq!(x(&view.cells[2]), CELL_W + GAP);
    assert_eq!(y(&view.cells[1]), y(&view.cells[2]));
    assert!(content_height(&view) > y(&view.cells[3]));
}

#[test]
fn delete_arms_first_and_sends_only_a_vouched_handle() {
    let mut library = Library {
        files: vec![clip(1, true)],
        ..Library::default()
    };
    state(&mut library, 1280.0);
    library.select_index(1);
    assert_eq!(library.delete_tapped(1), None);
    assert!(state(&mut library, 1280.0).selection.unwrap().delete_armed);
    assert_eq!(
        library.delete_tapped(1),
        Some(Command::MediaDelete {
            handle: 0x4010_4401,
            counter: 1
        })
    );
    assert!(library.files.is_empty());

    let mut shared = Library {
        files: vec![MediaFile {
            handle_shared: true,
            ..clip(2, true)
        }],
        ..Library::default()
    };
    state(&mut shared, 1280.0);
    shared.select_index(1);
    shared.delete_tapped(1);
    assert_eq!(
        shared.delete_tapped(2),
        None,
        "a shared handle never goes out"
    );
    assert_eq!(shared.files.len(), 1);
}

#[test]
fn a_star_flips_locally_and_tells_the_camera() {
    let mut library = Library {
        files: vec![clip(1, true)],
        ..Library::default()
    };
    state(&mut library, 1280.0);
    library.select_index(1);
    assert_eq!(
        library.toggle_favorite(3),
        Some(Command::MediaFavorite {
            handle: 0x4010_4401,
            counter: 3,
            on: true
        })
    );
    assert!(state(&mut library, 1280.0).cells[1].starred);
    assert_eq!(
        library.toggle_favorite(4),
        Some(Command::MediaFavorite {
            handle: 0x4010_4401,
            counter: 4,
            on: false
        })
    );
}

#[test]
fn local_shows_only_what_is_on_this_machine() {
    let mut library = Library {
        files: vec![clip(1, true), clip(2, true)],
        ..Library::default()
    };
    library.local = true;
    assert!(library.visible_files().is_empty());
    library.proxies.insert(clip(2, true).path);
    assert_eq!(library.visible_files().len(), 1);
}

#[test]
fn thumbnails_are_asked_for_once() {
    let mut library = Library {
        files: vec![clip(1, true), clip(2, true)],
        ..Library::default()
    };
    assert_eq!(library.thumbs_wanted().len(), 2);
    assert!(library.thumbs_wanted().is_empty());
}

#[test]
fn the_player_reads_its_clock_as_the_phones_do() {
    let library = Library {
        files: vec![clip(1, true)],
        ..Library::default()
    };
    let player = Player {
        file: clip(1, true),
        playing: true,
        position_ms: 9_400,
        duration_ms: 26_000,
        proxy: true,
        is_photo: false,
        show_info: false,
    };
    let view = player.state(&library, Toggles::default());
    assert_eq!(view.position_label, "00:09");
    assert_eq!(view.duration_label, "00:26");
    assert_eq!(view.tag, "Low-Res");
    let progress = player.position_ms as f64 / player.duration_ms as f64;
    assert!((progress - 0.3615).abs() < 0.01);
    assert!(view.deletable && !view.starred);
    assert_eq!(civil_from_days(0), (1970, 1, 1));
    assert_eq!(civil_from_days(20_679), (2026, 8, 14));
}

#[test]
fn a_grid_wraps_at_its_width_and_opens_a_band_per_day() {
    let other_day = MediaFile {
        path: "DCIM/DJI_001/DJI_20260701120000_0099_D.JPG".to_string(),
        ..MediaFile::default()
    };
    let mut library = Library {
        files: vec![clip(1, true), clip(2, true), clip(3, true), other_day],
        ..Library::default()
    };
    let view = library.state(2, "20260814");
    let titles: Vec<&str> = view.cells.iter().map(|cell| cell.title.as_str()).collect();
    assert_eq!(titles[0], "Today");
    assert_eq!(titles[4], "2026-07-01");
    let places: Vec<(bool, usize, usize, usize)> = view
        .cells
        .iter()
        .map(|cell| (cell.header, cell.column, cell.bands, cell.rows))
        .collect();
    assert_eq!(
        places,
        [
            (true, 0, 0, 0),
            (false, 0, 1, 0),
            (false, 1, 1, 0),
            (false, 0, 1, 1),
            (true, 0, 1, 2),
            (false, 0, 2, 2),
        ]
    );
    assert_eq!(view.content, Some((2, 2)));
    assert_eq!(library.visible[0], "");
    assert_eq!(library.visible.len(), 6);
    assert_eq!(view.status, "4 files");
    assert_eq!(view.sort_label, "Newest");
}

#[test]
fn the_status_line_says_what_the_listing_is_doing() {
    let mut library = Library::default();
    assert_eq!(
        library.state(1, "x").status,
        "Nothing listed. Refresh to ask the camera again."
    );
    library.listing = true;
    assert_eq!(library.state(1, "x").status, "Listing the card…");
    library.files.push(clip(1, true));
    assert_eq!(library.state(1, "x").status, "1 files · listing more…");
    library.listing = false;
    library.status = "Deleted x".to_string();
    assert_eq!(library.state(1, "x").status, "Deleted x");
}

#[test]
fn the_detail_line_joins_what_the_record_knows() {
    let library = Library::default();
    let file = MediaFile {
        resolution: Some("3840x2160".to_string()),
        fps: Some(30),
        size_bytes: 2_500_000_000,
        ..clip(1, true)
    };
    assert_eq!(library.meta(&file), "0:11 · 3840x2160 · 30 fps · 2.5 GB");
    assert_eq!(library.meta(&clip(2, false)), "");
}

#[test]
fn the_clock_and_the_day_stamp_read_as_the_camera_writes_them() {
    assert_eq!(clock_label(3_725_000), "1:02:05");
    assert_eq!(clock_label(-5), "00:00");
    assert_eq!(day_key(0), "19700101");
    assert_eq!(day_key(20_679 * 86_400 + 3_600), "20260814");
    assert_eq!(civil_from_days(-1), (1969, 12, 31));
    assert_eq!(civil_from_days(11_016), (2000, 2, 29));
    assert_eq!(today_key().len(), 8);
}

// ── LUTs ───────────────────────────────────────────────────────────────────

#[test]
fn only_safe_cubes_are_listed_in_case_insensitive_order() {
    let names = [
        "Zebra.CUBE",
        "alpha.cube",
        "notes.txt",
        "../escape.cube",
        "sub/dir.cube",
        "Beta.cube",
    ]
    .map(String::from);
    assert_eq!(stored(names.to_vec()), ["alpha.cube", "Beta.cube", "Zebra.CUBE"]);
    assert_eq!(display_name("Beta.cube"), "Beta");
    assert_eq!(display_name("Zebra.CUBE"), "Zebra");
    assert_eq!(display_name("plain"), "plain");
    assert!(!is_safe_file_name("C:evil.cube"));
}

#[test]
fn names_that_fold_alike_keep_their_order() {
    let names = ["b.cube", "B.cube", "a.cube", "..", "."].map(String::from);
    assert_eq!(stored(names.to_vec()), ["a.cube", "b.cube", "B.cube"]);
    assert!(!is_safe_file_name(""));
    assert!(!is_safe_file_name("a\\b.cube"));
    assert_eq!(LutChoice::default(), LutChoice::Off);
}

// ── Sheets ─────────────────────────────────────────────────────────────────

fn context(readings: &Readings) -> Context<'_> {
    Context {
        readings,
        prefs: Prefs::default(),
        toggles: Toggles::default(),
        gimbal_mode: GimbalMode::Follow,
        model_id: -1,
    }
}

#[test]
fn the_exposure_sheet_greys_the_rows_the_mode_does_not_use() {
    let readings = Readings {
        expo_mode: Some(0x04),
        iso_index: Some(0x05),
        shutter_denominator: Some(60),
        ..Readings::default()
    };
    let built = exposure(&readings);
    let titles: Vec<&str> = built.sheet.rows.iter().map(|r| r.title.as_str()).collect();
    assert_eq!(titles, ["Mode", "ISO", "ISO max", "Shutter", "EV"]);
    assert!(built.sheet.rows[1].enabled && built.sheet.rows[3].enabled);
    assert!(!built.sheet.rows[2].enabled && !built.sheet.rows[4].enabled);
    assert_eq!(
        built.sheet.rows[1].options[built.sheet.rows[1].selected.unwrap()],
        "400"
    );
    assert_eq!(
        built.sheet.rows[3].options[built.sheet.rows[3].selected.unwrap()],
        "1/60"
    );
    assert_eq!(
        built.pick(0, 0),
        Some(&Pick::Send(vec![Command::SetExpoMode(0x01)]))
    );
}

#[test]
fn a_toggle_row_acts_only_on_the_chip_that_is_not_lit() {
    let readings = Readings::default();
    let built = settings(2, context(&readings));
    let zebra = built
        .sheet
        .rows
        .iter()
        .position(|row| row.title == "Overexposure alert")
        .unwrap();
    assert_eq!(built.sheet.rows[zebra].selected, Some(0));
    assert_eq!(built.pick(zebra, 0), Some(&Pick::Nothing));
    assert_eq!(built.pick(zebra, 1), Some(&Pick::Zebra));
}

#[test]
fn the_exposure_chips_read_the_way_the_phones_print_them() {
    let built = exposure(&Readings::default());
    assert_eq!(built.sheet.title, "EXPOSURE");
    let ev = &built.sheet.rows[4].options;
    assert_eq!(ev.len(), 19);
    assert_eq!(ev[0], "-3.0");
    assert_eq!(ev[1], "-2.7");
    assert_eq!(ev[2], "-2.3");
    assert_eq!(ev[9], "+0.0");
    assert_eq!(ev[10], "+0.3");
    assert_eq!(ev[11], "+0.7");
    let iso_max = &built.sheet.rows[2].options;
    assert_eq!(iso_max[0], "100–200");
    assert_eq!(iso_max[7], "100–25600");
    assert_eq!(built.sheet.rows[1].options.len(), 9, "every index but auto");
    assert_eq!(built.sheet.rows[3].options[0], "1/8000");
    assert_eq!(built.pick(9, 0), None);
}

#[test]
fn the_settings_tabs_clamp_and_list_the_camera_first() {
    let readings = Readings {
        white_balance_kelvin: Some(5550),
        available_colors: vec![0x17, 0x3F],
        color_mode: Some(0x17),
        ..Readings::default()
    };
    let camera = settings(0, context(&readings));
    assert_eq!(camera.sheet.tabs, ["CAMERA", "AUDIO", "ASSIST"]);
    let titles: Vec<&str> = camera.sheet.rows.iter().map(|r| r.title.as_str()).collect();
    assert_eq!(
        titles,
        ["Focus", "White balance", "Color", "Field of view", "Gimbal mode", "Gimbal speed"]
    );
    let white = &camera.sheet.rows[1];
    assert_eq!(white.options[white.selected.unwrap()], "5600K");
    let color = &camera.sheet.rows[2];
    assert_eq!(color.options, ["Normal", "D-Log"]);
    assert_eq!(color.selected, Some(1));
    assert_eq!(
        camera.pick(2, 1),
        Some(&Pick::Send(vec![Command::SetColorMode {
            mode: 0x17,
            model_id: -1
        }]))
    );
    let far = settings(9, context(&readings));
    assert_eq!(far.sheet.tab, 2);
    assert_eq!(far.sheet.rows[0].title, "Grid");
    let audio = settings(1, context(&readings));
    assert_eq!(audio.sheet.rows[0].options, ["Stereo", "Mono", "Spatial"]);
    assert_eq!(audio.sheet.rows[0].selected, Some(0));
    assert!(!audio.sheet.rows[2].enabled);
}

// ── The shell's screens and controls ───────────────────────────────────────

fn sent(intents: &[Intent]) -> Vec<Command> {
    intents
        .iter()
        .filter_map(|intent| match intent {
            Intent::Send(command) => Some(*command),
            _ => None,
        })
        .collect()
}

#[test]
fn the_gimbal_modes_send_their_frames_in_order() {
    assert_eq!(
        GimbalMode::Follow.commands(),
        [Command::GimbalFollow, Command::GimbalTiltLock(0)]
    );
    assert_eq!(
        GimbalMode::TiltLocked.commands(),
        [Command::GimbalFollow, Command::GimbalTiltLock(1)]
    );
    assert_eq!(GimbalMode::Fpv.commands(), [Command::GimbalFpv]);
    assert_eq!(GimbalMode::Fpv.next(), GimbalMode::Follow);
    assert_eq!(mode_code(2), Some(0x28));
    assert_eq!(mode_code(5), None);
    assert_eq!(mode_index(Some(0x05)), 4);
    assert_eq!(mode_index(Some(0x77)), 3);
    assert_eq!(mode_index(None), 3);
}

#[test]
fn the_assist_names_follow_the_toggles() {
    let toggles = Toggles {
        zebra: true,
        peaking: false,
        grade: true,
        mirror: true,
    };
    assert_eq!(toggles.names(), ["LUT", "ZEB", "MIR"]);
    assert!(Toggles::default().names().is_empty());
}

#[test]
fn the_gallery_opens_the_library_and_back_returns_to_live_view() {
    let mut shell = Shell::new();
    shell.toggle_sheet(SheetKind::Settings);
    assert_eq!(
        shell.chrome_intent(ChromeIntent::OpenGallery),
        [Intent::Media(MediaAction::OpenLibrary)]
    );
    assert_eq!(shell.screen(), Screen::Library);
    assert_eq!(shell.sheet(), None, "the sheet closes under the library");
    assert!(shell.library().listing);
    assert!(shell.chrome_intent(ChromeIntent::OpenGallery).is_empty());
    assert_eq!(
        shell.press_screen_key(Key::Escape),
        Some(vec![Intent::Media(MediaAction::CloseLibrary)])
    );
    assert_eq!(shell.screen(), Screen::Viewfinder);
    assert_eq!(shell.press_screen_key(Key::Char('x')), None);
    assert_eq!(
        shell.press_screen_key(Key::Char('G')),
        Some(vec![Intent::Media(MediaAction::OpenLibrary)])
    );
}

#[test]
fn follow_toggles_between_follow_and_tilt_locked() {
    let mut shell = Shell::new();
    assert_eq!(
        sent(&shell.chrome_intent(ChromeIntent::FollowToggle)),
        [Command::GimbalFollow, Command::GimbalTiltLock(1)]
    );
    assert_eq!(shell.gimbal_mode(), GimbalMode::TiltLocked);
    assert_eq!(
        sent(&shell.chrome_intent(ChromeIntent::FollowToggle)),
        [Command::GimbalFollow, Command::GimbalTiltLock(0)]
    );
    assert_eq!(
        sent(&shell.chrome_intent(ChromeIntent::FollowCycle)),
        [Command::GimbalFollow, Command::GimbalTiltLock(1)]
    );
    assert_eq!(
        sent(&shell.chrome_intent(ChromeIntent::GimbalReleased)),
        [Command::GimbalStick {
            axis0: 1024,
            axis1: 1024
        }]
    );
}

#[test]
fn the_record_button_follows_what_the_body_says() {
    let mut shell = Shell::new();
    assert_eq!(
        sent(&shell.chrome_intent(ChromeIntent::RecordToggle)),
        [Command::RecordStart]
    );
    shell.set_recording(true);
    assert_eq!(
        sent(&shell.take_chrome_intents(vec![ChromeIntent::RecordToggle, ChromeIntent::TakeStill])),
        [Command::RecordStop, Command::ShootPhoto]
    );
    assert_eq!(
        sent(&shell.chrome_intent(ChromeIntent::ModeSelected(0))),
        [Command::SetShootingMode(0x02)]
    );
    assert!(shell.chrome_intent(ChromeIntent::ModeSelected(6)).is_empty());
}

#[test]
fn a_pick_only_lands_on_an_open_sheet() {
    let mut shell = Shell::new();
    // The AUDIO tab's first row is the channel; its second chip is Mono.
    let mono = ChromeIntent::SheetPick { row: 0, option: 1 };
    assert!(shell.chrome_intent(mono.clone()).is_empty());
    assert_eq!(shell.prefs().audio_channel, 0x02);
    shell.chrome_intent(ChromeIntent::OpenMenu);
    assert_eq!(shell.sheet(), Some(SheetKind::Settings));
    shell.chrome_intent(ChromeIntent::SheetTab(1));
    assert_eq!(sent(&shell.chrome_intent(mono)), [Command::SetAudioChannel(0x01)]);
    assert_eq!(shell.prefs().audio_channel, 0x01);
    // A chip past the row's end is nothing.
    assert!(shell.chrome_intent(ChromeIntent::SheetPick { row: 0, option: 9 }).is_empty());
    // The ASSIST tab's LUT row: with the cube off, the On chip switches it on.
    shell.chrome_intent(ChromeIntent::SheetTab(2));
    shell.chrome_intent(ChromeIntent::SheetPick { row: 3, option: 1 });
    assert!(shell.toggles().grade);
    assert_eq!(shell.take_lut_change(), Some(true));
    assert_eq!(shell.take_lut_change(), None, "already applied");
    shell.chrome_intent(ChromeIntent::OpenMenu);
    assert_eq!(shell.sheet(), None);
}

#[test]
fn the_assist_keys_on_the_library_switch_assists_and_send_nothing() {
    let mut shell = Shell::new();
    shell.open_library();
    for key in ['z', 'p', 'l', 'm', 'h'] {
        let intents = shell.press_screen_key(Key::Char(key)).expect("the library's key");
        assert!(sent(&intents).is_empty());
    }
    let toggles = shell.toggles();
    assert!(toggles.zebra && toggles.peaking && toggles.grade && toggles.mirror);
    assert!(!shell.chrome_visible());
    shell.toggle_assist(Assist::Zebra);
    assert!(!shell.toggles().zebra);
}

#[test]
fn the_library_controls_select_star_and_delete() {
    let mut shell = Shell::new();
    shell.open_library();
    shell.library_listed(vec![clip(1, true), clip(2, false)], false);
    shell.library_listed(vec![clip(1, true), clip(3, true)], true);
    assert_eq!(shell.library().files.len(), 3, "a known path is not listed twice");
    assert!(!shell.library().listing);
    // The window draws before a tap lands, which records the grid order.
    let view = shell.library_state(4, "x");
    assert_eq!(view.cells.len(), 4, "one day header and three tiles");
    shell.chrome_intent(ChromeIntent::LibrarySelect(1));
    let selected = shell.library().selected.clone().unwrap();
    assert!(selected.ends_with("0003_D.MP4"), "newest first");
    assert_eq!(
        shell.chrome_intent(ChromeIntent::LibraryPlay),
        [Intent::Media(MediaAction::Play(clip(3, true)))]
    );
    assert_eq!(
        shell.chrome_intent(ChromeIntent::LibraryFavorite),
        [Intent::Send(Command::MediaFavorite {
            handle: 0x4010_4403,
            counter: 1,
            on: true
        })]
    );
    assert!(shell.chrome_intent(ChromeIntent::LibraryDelete).is_empty(), "armed");
    assert_eq!(
        shell.chrome_intent(ChromeIntent::LibraryDelete),
        [Intent::Send(Command::MediaDelete {
            handle: 0x4010_4403,
            counter: 3
        })]
    );
    assert_eq!(shell.library().files.len(), 2);
    assert_eq!(
        shell.chrome_intent(ChromeIntent::LibraryRefresh),
        [Intent::Media(MediaAction::Refresh)]
    );
    assert!(shell.library().listing);
    shell.chrome_intent(ChromeIntent::LibraryTab(1));
    assert_eq!(shell.library().tab, LibraryTab::Videos);
    shell.chrome_intent(ChromeIntent::LibrarySortNext);
    assert_eq!(shell.library().sort, LibrarySort::Oldest);
}

#[test]
fn the_player_opens_seeks_and_closes() {
    let mut shell = Shell::new();
    shell.open_library();
    shell.open_player(clip(1, true), 26_000, true, false);
    assert_eq!(shell.screen(), Screen::Player);
    assert_eq!(
        shell.chrome_intent(ChromeIntent::PlayerSeek(13_000)),
        [Intent::Media(MediaAction::PlayerSeek(13_000))]
    );
    assert_eq!(shell.player().as_ref().unwrap().position_ms, 13_000);
    assert_eq!(
        shell.press_screen_key(Key::Space),
        Some(vec![Intent::Media(MediaAction::PlayerToggle)])
    );
    assert!(!shell.player().as_ref().unwrap().playing);
    shell.player_ended();
    assert_eq!(shell.player().as_ref().unwrap().position_ms, 26_000);
    assert_eq!(
        shell.chrome_intent(ChromeIntent::PlayerBack),
        [Intent::Media(MediaAction::ClosePlayer)]
    );
    assert_eq!(shell.screen(), Screen::Library);
    assert!(shell.player().is_none());
}

#[test]
fn transfers_leave_a_note_on_the_file() {
    let mut shell = Shell::new();
    shell.library_progress("a", 10, Some(100));
    assert_eq!(shell.library().progress.get("a"), Some(&(10, Some(100))));
    shell.library_file_ready("a", false);
    assert_eq!(shell.library().progress.get("a"), None);
    assert!(shell.library().cached.contains("a"));
    assert_eq!(
        shell.library().notes.get("a").map(String::as_str),
        Some("Saved to the library folder")
    );
    shell.library_failed("b", "timeout");
    assert_eq!(
        shell.library().notes.get("b").map(String::as_str),
        Some("Could not fetch: timeout")
    );
    shell.library_file_ready("c", true);
    assert!(shell.library().proxies.contains("c"));
}

#[test]
fn an_action_becomes_its_intent_or_its_toggle() {
    let mut shell = Shell::new();
    assert_eq!(shell.act(Action::Still), vec![Intent::Still]);
    assert_eq!(shell.act(Action::Quit), vec![Intent::Quit]);
    assert_eq!(
        shell.act(Action::Send(Command::RecordStart)),
        vec![Intent::Send(Command::RecordStart)]
    );
    assert_eq!(
        shell.act(Action::ClearTracking),
        vec![Intent::Send(Command::TrackClear)]
    );
    assert!(shell.act(Action::ToggleZebra).is_empty());
    assert!(shell.toggles().zebra);
    assert!(shell.act(Action::ToggleGrade).is_empty());
    assert_eq!(shell.take_lut_change(), Some(true));
    assert!(shell.act(Action::ToggleSettings).is_empty());
    assert_eq!(shell.sheet(), Some(SheetKind::Settings));
    assert!(shell.act(Action::ToggleExposure).is_empty());
    assert_eq!(shell.sheet(), Some(SheetKind::Exposure));
    assert!(shell.act(Action::ToggleExposure).is_empty());
    assert_eq!(shell.sheet(), None);
    assert!(shell.act(Action::ToggleChrome).is_empty());
    assert!(!shell.chrome_visible());
}

#[test]
fn the_rate_counts_the_last_second() {
    let mut shell = Shell::new();
    assert_eq!(shell.fps(), 0);
    shell.note_presented(1_000);
    shell.note_presented(1_500);
    shell.note_presented(2_000);
    assert_eq!(shell.fps(), 3);
    // 1000 drops out as 2001 comes in, so the rate stays where it was.
    shell.take_chrome_stale();
    shell.note_presented(2_001);
    assert_eq!(shell.fps(), 3);
    assert!(!shell.take_chrome_stale());
    shell.note_presented(3_600);
    assert_eq!(shell.fps(), 1);
    assert!(shell.take_chrome_stale());
}

#[test]
fn a_second_finger_cannot_take_over_a_box() {
    let mut shell = Shell::new();
    assert_eq!(shell.touch_route(1, TouchPhase::Started), TouchRoute::Start);
    shell.claim_touch(1, false, true);
    assert_eq!(shell.touch_route(2, TouchPhase::Started), TouchRoute::Ignored);
    assert_eq!(shell.touch_route(2, TouchPhase::Moved), TouchRoute::Ignored);
    assert_eq!(shell.touch_route(2, TouchPhase::Ended), TouchRoute::Ignored);
    assert_eq!(shell.touch_route(1, TouchPhase::Moved), TouchRoute::PictureMoved);
    assert_eq!(shell.touch_route(1, TouchPhase::Ended), TouchRoute::PictureEnded);
    // Released: the next finger may start.
    assert_eq!(shell.touch_route(2, TouchPhase::Started), TouchRoute::Start);
}

#[test]
fn a_finger_off_the_picture_does_not_lock_out_the_next() {
    let mut shell = Shell::new();
    assert_eq!(shell.touch_route(7, TouchPhase::Started), TouchRoute::Start);
    shell.claim_touch(7, false, false);
    assert_eq!(shell.touch_route(7, TouchPhase::Ended), TouchRoute::Ignored);
    assert_eq!(shell.touch_route(8, TouchPhase::Started), TouchRoute::Start);
    shell.claim_touch(8, true, false);
    assert_eq!(shell.touch_route(8, TouchPhase::Moved), TouchRoute::ControlMoved);
    assert_eq!(shell.touch_route(9, TouchPhase::Started), TouchRoute::Ignored);
    assert_eq!(shell.touch_route(8, TouchPhase::Cancelled), TouchRoute::ControlCancelled);
    assert_eq!(shell.touch_route(9, TouchPhase::Started), TouchRoute::Start);
}

fn format_readings() -> Readings {
    Readings {
        available_formats: vec![(0x0A, 0x03), (0x0A, 0x06), (0x10, 0x03)],
        video_resolution: Some(0x0A),
        video_frame_rate: Some(0x06),
        resolution_names: vec![(0x0A, "1080P".to_string()), (0x10, "4K".to_string())],
        frame_rate_names: vec![(0x03, "30".to_string()), (0x06, "60".to_string())],
        ..Readings::default()
    }
}

#[test]
fn the_format_sheet_offers_only_what_the_body_listed() {
    let readings = format_readings();
    let built = build(SheetKind::Format, 0, context(&readings));
    assert_eq!(built.sheet.rows[0].options, ["1080P", "4K"]);
    assert_eq!(built.sheet.rows[0].selected, Some(0));
    assert_eq!(built.sheet.rows[1].options, ["30", "60"]);
    assert_eq!(built.sheet.rows[1].selected, Some(1));
    // 4K has no 60, so picking it takes the first rate 4K offers.
    assert_eq!(
        built.pick(0, 1),
        Some(&Pick::Send(vec![Command::SetVideoFormat {
            resolution: 0x10,
            frame_rate: 0x03
        }]))
    );
}

#[test]
fn an_empty_format_list_is_a_greyed_note_not_an_invented_list() {
    let readings = Readings::default();
    let built = build(SheetKind::Format, 0, context(&readings));
    assert!(built.sheet.rows.iter().all(|row| !row.enabled));
    assert_eq!(built.pick(0, 0), Some(&Pick::Nothing));
}

#[test]
fn a_code_without_a_name_reads_as_hex() {
    let readings = Readings {
        available_formats: vec![(0x2B, 0x0C)],
        ..Readings::default()
    };
    let built = opc_desktop::monitor::sheets::format(&readings);
    assert_eq!(built.sheet.title, "FORMAT");
    assert_eq!(built.sheet.rows[0].options, ["0x2B"]);
    assert_eq!(built.sheet.rows[0].selected, Some(0));
    assert_eq!(built.sheet.rows[1].options, ["0x0C"]);
    assert_eq!(built.sheet.rows[1].selected, None);
}

#[test]
fn a_format_chip_on_the_open_sheet_sends_that_format() {
    let mut shell = Shell::new();
    shell.set_readings(format_readings());
    shell.chrome_intent(ChromeIntent::OpenFormat);
    assert_eq!(
        sent(&shell.chrome_intent(ChromeIntent::SheetPick { row: 1, option: 0 })),
        [Command::SetVideoFormat { resolution: 0x0A, frame_rate: 0x03 }]
    );
}
