use opc_desktop::camera::command::Command;
use opc_desktop::camera::duml::DumlFrame;
use opc_desktop::media::browse::{Browse, BrowseConfig, BrowseEvent, BrowseStep, ENTER_ATTEMPTS};
use opc_desktop::media::cache::{flatten, playback_cache_file_name, safe_component, MediaCache};
use opc_desktop::media::catalog::{decode_page, CatalogError};
use opc_desktop::media::chunks::{
    has_older_page, next_cursor, oldest_video_handle, ChunkAssembler, INTERNAL_COUNTER,
    NEWEST_INTERNAL, NEWEST_SD, SD_COUNTER,
};
use opc_desktop::media::http::{path_url, transfer_check, HttpError, StorageMemo, StoreAttempts};
use opc_desktop::media::model::{MediaFile, MediaKind};
use opc_desktop::media::pathset::{PathMap, PathSet};
use opc_desktop::media::query::{filtered, sorted, LibrarySort, LibraryTab};
use opc_desktop::media::resume::{BrowsePolicy, ResumeAction, ResumePolicy};
use opc_desktop::media::thumbs::{decode_jpeg, fit, Rgba};

// ── Cache layout ───────────────────────────────────────────────────────────

#[test]
fn the_layout_matches_the_phones() {
    let cache = MediaCache::at("/tmp/opc-test".to_string());
    let file = MediaFile {
        path: "DCIM/DJI_001/DJI_20260814125250_0034_D.MP4".to_string(),
        ..MediaFile::default()
    };
    assert_eq!(
        cache.thumb_path(&file),
        "/tmp/opc-test/thumbs/DCIM_DJI_001_DJI_20260814125250_0034_D.MP4.jpg"
    );
    assert_eq!(
        cache.original_path(&file),
        "/tmp/opc-test/files/DCIM_DJI_001_DJI_20260814125250_0034_D.MP4"
    );
    assert_eq!(
        cache.play_path("DCIM/DJI_001/DJI_20260814125250_0034_D.LRF"),
        "/tmp/opc-test/play/DCIM_DJI_001_DJI_20260814125250_0034_D.mp4"
    );
    assert_eq!(safe_component("Osmo Pocket 3/abc"), "Osmo_Pocket_3_abc");
}

#[test]
fn a_camera_library_lives_under_the_app_folder() {
    let cache = MediaCache::under("/home/me/.cache", "Osmo Pocket 3");
    assert_eq!(cache.root(), "/home/me/.cache/OpenPocketCine/media/Osmo_Pocket_3");
    let trailing = MediaCache::under("/home/me/.cache/", "");
    assert_eq!(trailing.root(), "/home/me/.cache/OpenPocketCine/media/camera");
}

#[test]
fn a_proxy_name_replaces_only_the_file_extension() {
    assert_eq!(playback_cache_file_name("DCIM/A.B/clip"), "DCIM_A.B_clip.mp4");
    assert_eq!(playback_cache_file_name("clip.lrf"), "clip.mp4");
    assert_eq!(flatten("a/b/c"), "a_b_c");
}

// ── Catalogue ──────────────────────────────────────────────────────────────

#[test]
fn nothing_collected_is_an_empty_page_not_a_core_call() {
    assert_eq!(decode_page(&[], &[], &[]).unwrap(), Vec::<MediaFile>::new());
}

#[test]
fn a_page_without_the_core_beside_the_build_is_refused_by_the_core() {
    assert_eq!(decode_page(b"x", &[], &[]), Err(CatalogError::Core(-1)));
}

// ── Chunks ─────────────────────────────────────────────────────────────────

fn frame(payload: &[u8]) -> DumlFrame {
    DumlFrame {
        sender: 0x01,
        receiver: 0x02,
        seq: 1,
        flags: 0xC0,
        cmd_set: 0x00,
        cmd_id: 0x27,
        payload: payload.to_vec(),
    }
}

#[test]
fn chunks_are_keyed_by_counter_and_the_end_is_noted() {
    let mut assembler = ChunkAssembler::new();
    let mut first = vec![0x4A, 0x01, 0, 0, 1, 0, 0, 0, 0, 0];
    first.extend_from_slice(b"abc");
    let mut second = vec![0x4A, 0x01, 0, 0, 2, 0, 1, 0, 0, 0];
    second.extend_from_slice(b"xyz");
    assert!(assembler.ingest(&frame(&first)));
    assert!(assembler.ingest(&frame(&second)));
    assert!(assembler.ingest(&frame(&[0x4A, 0x03, 0, 0, 1, 0, 0, 0, 0, 0])));
    assert!(!assembler.ingest(&frame(&[0x4A, 0x04, 0, 0, 1, 0, 0, 0, 0, 0])));
    assert_eq!(assembler.assembled(SD_COUNTER), b"abc");
    assert_eq!(assembler.assembled(INTERNAL_COUNTER), b"xyz");
    assert_eq!(assembler.assembled_merged(), b"abcxyz");
    assert!(assembler.saw_end());
    assert_eq!(assembler.chunk_count(), 2);
}

#[test]
fn only_the_media_reply_contributes() {
    let mut assembler = ChunkAssembler::new();
    let mut status = frame(&[0x4A, 0x01, 0, 0, 1, 0, 0, 0, 0, 0, 1]);
    status.cmd_id = 0x99;
    assert!(
        !assembler.ingest(&status),
        "4A 01 also prefixes parameter pushes"
    );
    assert!(assembler.is_empty());
}

#[test]
fn paging_walks_video_handles_down() {
    let handles = [0x4010_4480, 0x0004_0010, 0x4010_4400, 0x4010_44C0];
    assert_eq!(next_cursor(&handles, NEWEST_INTERNAL), Some(0x4010_4400));
    assert_eq!(next_cursor(&handles, NEWEST_SD), Some(0x4010_4400));
    assert_eq!(next_cursor(&handles, 0x4010_4480), Some(0x4010_4400));
    assert_eq!(next_cursor(&handles, 0x4010_4400), None);
    assert_eq!(oldest_video_handle(&[0x0004_0010]), None);
    assert!(has_older_page(45, Some(0x4010_4400)));
    assert!(!has_older_page(44, Some(0x4010_4400)));
    assert!(!has_older_page(45, None));
}

#[test]
fn a_reset_drops_what_was_collected() {
    let mut assembler = ChunkAssembler::new();
    assert!(assembler.ingest_payload(&[0x4A, 0x01, 0, 0, 7, 0, 0, 0, 0, 0, 9]));
    assert!(!assembler.ingest_payload(&[0x4A, 0x01, 0, 0, 7, 0, 0, 0, 0, 0]));
    assert_eq!(assembler.assembled(7), [9]);
    assembler.reset();
    assert!(assembler.is_empty() && !assembler.saw_end());
    assert!(assembler.assembled(7).is_empty());
}

// ── Storage memo ───────────────────────────────────────────────────────────

fn clip(storage: i64) -> MediaFile {
    MediaFile {
        path: "DCIM/DJI_001/DJI_20260814125250_0034_D.MP4".to_string(),
        handle: 0x4010_4480,
        storage,
        ..MediaFile::default()
    }
}

#[test]
fn the_memo_orders_stores_by_winner_then_stamp() {
    let mut memo = StorageMemo::new(false);
    assert_eq!(memo.order(&clip(1), "a"), [1, 0]);
    memo.remember("a", 0);
    assert_eq!(memo.order(&clip(1), "a"), [0, 1]);
    assert_eq!(memo.order(&clip(0), "b"), [0, 1]);
}

#[test]
fn a_single_card_body_is_asked_only_for_store_zero() {
    let mut memo = StorageMemo::new(true);
    memo.remember("a", 1);
    assert_eq!(memo.order(&clip(1), "a"), [0]);
}

#[test]
fn the_last_store_to_answer_is_the_one_remembered() {
    let mut memo = StorageMemo::new(false);
    assert_eq!(memo.winner("a"), None);
    memo.remember("a", 1);
    memo.remember("a", 0);
    memo.remember("b", 1);
    assert_eq!(memo.winner("a"), Some(0));
    assert_eq!(memo.winner("b"), Some(1));
}

// ── Path sets and maps ─────────────────────────────────────────────────────

#[test]
fn a_path_set_holds_each_path_once() {
    let mut set = PathSet::new();
    assert!(set.insert("a".to_string()));
    assert!(!set.insert("a".to_string()));
    assert!(set.insert("b".to_string()));
    assert_eq!(set.len(), 2);
    set.remove("a");
    assert!(!set.contains("a") && set.contains("b"));
    assert_eq!(set.len(), 1);
}

#[test]
fn a_path_map_keeps_the_latest_value() {
    let mut map: PathMap<u32> = PathMap::new();
    map.insert("a".to_string(), 1);
    map.insert("a".to_string(), 2);
    assert_eq!(map.get("a"), Some(&2));
    map.remove("a");
    assert_eq!(map.get("a"), None);
    assert!(!map.contains_key("a"));
}

// ── Records ────────────────────────────────────────────────────────────────

#[test]
fn a_record_reads_its_name_kind_and_day() {
    let file = MediaFile {
        path: "DCIM/DJI_001/DJI_20260814125250_0034_D.MP4".to_string(),
        duration_seconds: 3725,
        size_bytes: 123_456_789,
        ..MediaFile::default()
    };
    assert_eq!(file.filename(), "DJI_20260814125250_0034_D.MP4");
    assert_eq!(file.extension(), "MP4");
    assert_eq!(file.kind(), MediaKind::Video);
    assert_eq!(file.filename_timestamp(), Some("20260814125250"));
    assert_eq!(file.date_key(), "20260814");
    assert_eq!(file.duration_label(), "1:02:05");
    assert_eq!(file.size_label(), "123.4 MB");
    let still = MediaFile {
        path: "IMG.jpg".to_string(),
        duration_seconds: 12,
        ..MediaFile::default()
    };
    assert_eq!(still.kind(), MediaKind::Photo);
    assert_eq!(still.date_key(), "");
    assert_eq!(still.duration_label(), "0:12");
    assert_eq!(still.size_label(), "");
}

// ── Filtering and sorting ──────────────────────────────────────────────────

fn file(name: &str, starred: bool) -> MediaFile {
    MediaFile {
        path: format!("DCIM/DJI_001/{name}"),
        is_starred: starred,
        ..MediaFile::default()
    }
}

#[test]
fn tabs_split_kinds_and_favourites_including_local_ones() {
    let files = vec![
        file("DJI_20260814125250_0034_D.MP4", false),
        file("DJI_20260814125300_0035_D.JPG", true),
        file("DJI_20260814125310_0036_D.MP4", false),
    ];
    let mut local = PathSet::new();
    local.insert("DCIM/DJI_001/DJI_20260814125310_0036_D.MP4".to_string());
    assert_eq!(filtered(&files, LibraryTab::All, &local).len(), 3);
    assert_eq!(filtered(&files, LibraryTab::Videos, &local).len(), 2);
    assert_eq!(filtered(&files, LibraryTab::Photos, &local).len(), 1);
    assert_eq!(filtered(&files, LibraryTab::Favorites, &local).len(), 2);
}

#[test]
fn sorts_read_the_filename_stamp() {
    let files = vec![
        file("DJI_20260814125250_0034_D.MP4", false),
        file("DJI_20260814125310_0036_D.MP4", true),
        file("DJI_20260814125300_0035_D.JPG", false),
    ];
    let all = filtered(&files, LibraryTab::All, &PathSet::new());
    let newest = sorted(all.clone(), LibrarySort::Newest);
    assert_eq!(newest[0].filename(), "DJI_20260814125310_0036_D.MP4");
    let oldest = sorted(all.clone(), LibrarySort::Oldest);
    assert_eq!(oldest[0].filename(), "DJI_20260814125250_0034_D.MP4");
    let rating = sorted(all, LibrarySort::Rating);
    assert!(rating[0].is_starred);
    assert_eq!(LibrarySort::Rating.next(), LibrarySort::Newest);
}

#[test]
fn equal_ranked_files_keep_the_order_they_came_in() {
    let files = vec![file("b.JPG", false), file("a.JPG", false), file("c.JPG", false)];
    let all = filtered(&files, LibraryTab::All, &PathSet::new());
    let newest: Vec<&str> = sorted(all.clone(), LibrarySort::Newest)
        .iter()
        .map(|f| f.filename())
        .collect();
    assert_eq!(newest, ["b.JPG", "a.JPG", "c.JPG"], "no stamps: all tie");
    let by_name: Vec<&str> = sorted(all, LibrarySort::Name)
        .iter()
        .map(|f| f.filename())
        .collect();
    assert_eq!(by_name, ["a.JPG", "b.JPG", "c.JPG"]);
}

#[test]
fn the_sort_button_cycles_through_all_four() {
    let mut order = LibrarySort::Newest;
    let mut labels = Vec::new();
    for _ in 0..4 {
        labels.push(order.label());
        order = order.next();
    }
    assert_eq!(labels, ["Newest", "Oldest", "Name", "Rating"]);
    assert_eq!(order, LibrarySort::Newest);
    assert_eq!(LibraryTab::Favorites.label(), "FAVORITES");
    assert_eq!(LibraryTab::at(2), Some(LibraryTab::Photos));
    assert_eq!(LibraryTab::at(4), None);
    assert_eq!(LibraryTab::Photos.position(), 2);
}

// ── Resume ─────────────────────────────────────────────────────────────────

#[test]
fn resume_exits_until_the_bit_clears_then_enables() {
    assert_eq!(
        ResumePolicy::action(0, true, false, false),
        ResumeAction::ExitPlayback
    );
    assert_eq!(
        ResumePolicy::action(1, false, false, false),
        ResumeAction::ExitPlayback
    );
    assert_eq!(
        ResumePolicy::action(1, false, true, false),
        ResumeAction::EnableLiveView
    );
    assert_eq!(
        ResumePolicy::action(1, false, true, true),
        ResumeAction::Done
    );
    assert_eq!(
        ResumePolicy::action(9, false, true, false),
        ResumeAction::EnableLiveView
    );
}

#[test]
fn a_stray_playback_is_exited_only_off_the_browser() {
    assert_eq!(
        ResumePolicy::stray_playback_action(false, true),
        Some(ResumeAction::ExitPlayback)
    );
    assert_eq!(ResumePolicy::stray_playback_action(true, true), None);
    assert_eq!(ResumePolicy::stray_playback_action(false, false), None);
}

#[test]
fn a_refused_entry_still_lists_the_newest_page_only() {
    let policy = BrowsePolicy::after_enter_playback(false);
    assert!(policy.list_newest_page && !policy.list_older_pages && policy.keep_browsing);
    assert!(BrowsePolicy::after_enter_playback(true).list_older_pages);
}

#[test]
fn a_failed_entry_still_lists_the_newest_page() {
    let policy = BrowsePolicy::after_enter_playback(false);
    assert!(policy.list_newest_page && !policy.list_older_pages && policy.keep_browsing);
    // Times in milliseconds.
    assert!(ResumePolicy::is_picture_fresh(Some(5_000), 4_000));
    assert!(!ResumePolicy::is_picture_fresh(Some(3_000), 4_000));
    assert!(!ResumePolicy::is_picture_fresh(None, 4_000));
    assert!(ResumePolicy::is_picture_fresh(Some(4_000), 4_000));
}

// ── Thumbnails ─────────────────────────────────────────────────────────────

#[test]
fn fitting_halves_until_narrow_enough() {
    let picture = Rgba {
        width: 8,
        height: 4,
        pixels: vec![200; 8 * 4 * 4],
    };
    let small = fit(picture, 3);
    assert_eq!((small.width, small.height), (2, 1));
    assert!(small.pixels.iter().all(|p| *p == 200));
}

#[test]
fn halving_averages_each_two_by_two_block() {
    // A 2×2 picture of four different greys becomes their average.
    let picture = Rgba {
        width: 2,
        height: 2,
        pixels: vec![
            0, 10, 20, 255, 4, 14, 24, 255, //
            8, 18, 28, 255, 12, 22, 33, 255,
        ],
    };
    let one = fit(picture.clone(), 1);
    assert_eq!((one.width, one.height), (1, 1));
    assert_eq!(one.pixels, [6, 16, 26, 255]);
    assert_eq!(fit(picture.clone(), 2), picture, "already narrow enough");
}

/// An 8×8 baseline greyscale JPEG of one flat mid-grey block.
fn grey_jpeg() -> Vec<u8> {
    let mut bytes = vec![0xFF, 0xD8];
    bytes.extend_from_slice(&[0xFF, 0xDB, 0x00, 0x43, 0x00]);
    bytes.extend_from_slice(&[1u8; 64]);
    bytes.extend_from_slice(&[
        0xFF, 0xC0, 0x00, 0x0B, 0x08, 0x00, 0x08, 0x00, 0x08, 0x01, 0x01, 0x11, 0x00,
    ]);
    for class in [0x00u8, 0x10] {
        bytes.extend_from_slice(&[0xFF, 0xC4, 0x00, 0x14, class, 0x01]);
        bytes.extend_from_slice(&[0u8; 15]);
        bytes.push(0x00);
    }
    bytes.extend_from_slice(&[0xFF, 0xDA, 0x00, 0x08, 0x01, 0x01, 0x00, 0x00, 0x3F, 0x00]);
    bytes.push(0x3F);
    bytes.extend_from_slice(&[0xFF, 0xD9]);
    bytes
}

#[test]
fn a_jpeg_decodes_to_packed_rgba() {
    let picture = decode_jpeg(&grey_jpeg()).expect("a valid JPEG");
    assert_eq!((picture.width, picture.height), (8, 8));
    assert_eq!(picture.pixels.len(), 8 * 8 * 4);
    assert!(picture
        .pixels
        .chunks(4)
        .all(|px| px[0] == px[1] && px[1] == px[2] && px[3] == 255 && px[0].abs_diff(128) <= 2));
}

#[test]
fn bytes_that_are_not_a_jpeg_are_an_error() {
    let error = decode_jpeg(b"not a jpeg").unwrap_err();
    assert!(!error.is_empty());
}

// ── Browsing, with the clock in milliseconds ───────────────────────────────

/// Every command except the presence beat, which rides along every second.
fn sends(steps: &[BrowseStep]) -> Vec<Command> {
    steps
        .iter()
        .filter_map(|step| match step {
            BrowseStep::Send(Command::AppPresence) => None,
            BrowseStep::Send(command) => Some(*command),
            _ => None,
        })
        .collect()
}

fn page(steps: &[BrowseStep]) -> Option<&BrowseStep> {
    steps
        .iter()
        .find(|step| matches!(step, BrowseStep::PageReady { .. }))
}

fn reply_0c(code: u8) -> DumlFrame {
    DumlFrame {
        sender: 0x01,
        receiver: 0x02,
        seq: 1,
        flags: 0xC0,
        cmd_set: 0x02,
        cmd_id: 0x0C,
        payload: vec![code],
    }
}

fn chunk(counter: u8, body: &[u8]) -> DumlFrame {
    let mut payload = vec![0x4A, 0x01, 0, 0, counter, 0, 0, 0, 0, 0];
    payload.extend_from_slice(body);
    frame(&payload)
}

#[test]
fn a_body_that_enters_playback_settles_then_lists_the_three_frames() {
    let mut browse = Browse::start(BrowseConfig::default(), 0);
    assert_eq!(sends(&browse.tick(0)), [Command::EnterPlayback]);
    browse.event(BrowseEvent::Frame(reply_0c(0)));
    browse.event(BrowseEvent::InPlayback(true));
    assert!(sends(&browse.tick(300)).is_empty(), "settling, not querying yet");
    assert!(sends(&browse.tick(1500)).is_empty());
    let first = sends(&browse.tick(2100));
    assert!(first.contains(&Command::MediaList {
        counter: 2,
        cursor: NEWEST_INTERNAL
    }));
    assert_eq!(sends(&browse.tick(2500)), []);
    assert_eq!(sends(&browse.tick(2950)), [Command::MediaListTrigger]);
    assert_eq!(
        sends(&browse.tick(3400)),
        [Command::MediaList {
            counter: 1,
            cursor: NEWEST_SD
        }]
    );
    browse.event(BrowseEvent::Frame(chunk(1, b"page")));
    browse.note_chunk(3500);
    assert!(page(&browse.tick(3900)).is_none(), "still collecting");
    let steps = browse.tick(4400);
    match page(&steps).expect("a page") {
        BrowseStep::PageReady { sd, cursor, .. } => {
            assert_eq!(sd, b"page");
            assert_eq!(*cursor, NEWEST_INTERNAL);
        }
        other => panic!("expected a page, got {other:?}"),
    }
    browse.page_decoded(3, &[0x4010_4480], 4400);
    assert!(browse.is_done());
}

#[test]
fn a_pocket_3_refusal_falls_through_to_the_special_entry() {
    let mut browse = Browse::start(
        BrowseConfig {
            single_sd: true,
            special_entry: true,
        },
        0,
    );
    browse.tick(0);
    browse.event(BrowseEvent::Frame(reply_0c(0xE0)));
    let mut sent = Vec::new();
    let mut t = 50;
    while t < 700 {
        sent.extend(sends(&browse.tick(t)));
        t += 50;
    }
    let specials: Vec<u8> = sent
        .iter()
        .filter_map(|c| match c {
            Command::PlaybackSpecial(step) => Some(*step),
            _ => None,
        })
        .collect();
    assert_eq!(&specials[..6], &[1, 1, 1, 1, 1, 1]);
    assert!(specials[6..].iter().all(|step| *step == 2));
    assert!(
        !sent.contains(&Command::EnterPlayback),
        "never re-sent 0x02/0x0c"
    );
    browse.event(BrowseEvent::InPlayback(true));
    assert!(browse.entered_playback());
    assert!(browse.policy().list_older_pages);
}

#[test]
fn a_body_that_never_enters_still_lists_the_newest_page() {
    let mut browse = Browse::start(
        BrowseConfig {
            single_sd: false,
            special_entry: false,
        },
        0,
    );
    let mut all = Vec::new();
    let mut t = 0;
    while t <= 4500 {
        all.extend(sends(&browse.tick(t)));
        t += 100;
    }
    let entries = all.iter().filter(|c| **c == Command::EnterPlayback).count();
    assert_eq!(entries, ENTER_ATTEMPTS as usize);
    assert!(all.iter().any(|c| matches!(c, Command::MediaList { .. })));
    assert!(!browse.policy().list_older_pages);
    let steps = browse.tick(14000);
    assert!(page(&steps).is_some());
    browse.page_decoded(45, &[0x4010_4400], 14000);
    assert!(
        browse.is_done(),
        "older pages need playback the body refused"
    );
}

#[test]
fn older_pages_walk_the_cursor_down_while_playback_holds() {
    let mut browse = Browse::start(BrowseConfig::default(), 0);
    browse.tick(0);
    browse.event(BrowseEvent::InPlayback(true));
    browse.tick(100);
    browse.tick(1900);
    browse.tick(2800);
    browse.tick(3200);
    let steps = browse.tick(12000);
    assert!(page(&steps).is_some());
    browse.page_decoded(45, &[0x4010_4480, 0x4010_4400], 12000);
    assert!(!browse.is_done());
    let next = sends(&browse.tick(12000));
    assert!(next.contains(&Command::MediaList {
        counter: 2,
        cursor: 0x4010_4400
    }));
}

#[test]
fn presence_is_announced_every_second_while_browsing() {
    let mut browse = Browse::start(BrowseConfig::default(), 0);
    browse.tick(0);
    let beats = |steps: &[BrowseStep]| {
        steps
            .iter()
            .filter(|s| **s == BrowseStep::Send(Command::AppPresence))
            .count()
    };
    assert_eq!(beats(&browse.tick(500)), 0);
    assert_eq!(beats(&browse.tick(1050)), 1);
}

#[test]
fn a_finished_listing_only_says_it_is_done() {
    let mut browse = Browse::start(BrowseConfig::default(), 0);
    browse.tick(0);
    browse.event(BrowseEvent::InPlayback(true));
    browse.tick(100);
    browse.tick(1900);
    browse.tick(2800);
    browse.tick(3200);
    let steps = browse.tick(12000);
    assert!(page(&steps).is_some());
    browse.page_decoded(3, &[], 12000);
    assert!(browse.is_done());
    assert_eq!(browse.tick(20000), [BrowseStep::Done]);
    assert_eq!(browse.tick(30000), [BrowseStep::Done]);
}

#[test]
fn a_cut_transfer_is_never_taken_for_a_whole_file() {
    assert_eq!(transfer_check(10, Some(10)), Ok(()));
    assert_eq!(transfer_check(5, None), Ok(()));
    assert_eq!(
        transfer_check(5, Some(1024)),
        Err(HttpError("transfer cut at 5 of 1024 bytes".to_string()))
    );
    assert_eq!(
        transfer_check(0, Some(7)),
        Err(HttpError("transfer cut at 0 of 7 bytes".to_string()))
    );
}

#[test]
fn a_file_is_fetched_from_one_endpoint_per_store() {
    assert_eq!(
        path_url("192.168.2.1", 1, "DCIM/DJI_001/DJI_1_D.MP4"),
        "http://192.168.2.1/v2?storage=1&path=DCIM/DJI_001/DJI_1_D.MP4"
    );
    assert_eq!(path_url("h", -1, "p"), "http://h/v2?storage=-1&path=p");
}

#[test]
fn the_player_tries_the_listed_proxy_before_the_original() {
    let mut file = MediaFile {
        path: "DCIM/DJI_001/DJI_1_D.MP4".to_string(),
        ..MediaFile::default()
    };
    assert_eq!(file.preview_paths(), vec!["DCIM/DJI_001/DJI_1_D.MP4".to_string()]);
    file.proxy_path = Some("DCIM/DJI_001/DJI_1_D.LRF".to_string());
    assert_eq!(
        file.preview_paths(),
        vec!["DCIM/DJI_001/DJI_1_D.LRF".to_string(), "DCIM/DJI_001/DJI_1_D.MP4".to_string()]
    );
}

#[test]
fn a_default_memo_asks_both_stores_and_remembers_nothing() {
    let memo = StorageMemo::default();
    assert!(!memo.single_sd);
    assert_eq!(memo.winner("a"), None);
    assert_eq!(memo.order(&clip(1), "a"), [1, 0]);
}

#[test]
fn a_fetch_asks_each_store_once_in_the_memos_order() {
    let mut memo = StorageMemo::new(false);
    memo.remember("a", 1);
    let mut attempts = StoreAttempts::start(&memo, &clip(0), "a");
    assert_eq!(attempts.next_store(), Some(1));
    attempts.store_failed(HttpError("refused".to_string()));
    assert_eq!(attempts.next_store(), Some(0));
    attempts.store_failed(HttpError("timed out".to_string()));
    assert_eq!(attempts.next_store(), None);
    assert_eq!(attempts.error(), HttpError("timed out".to_string()));
}

#[test]
fn a_single_card_fetch_asks_only_store_zero() {
    let memo = StorageMemo::new(true);
    let mut attempts = StoreAttempts::start(&memo, &clip(1), "a");
    assert_eq!(attempts.next_store(), Some(0));
    attempts.store_failed(HttpError("gone".to_string()));
    assert_eq!(attempts.next_store(), None);
}

#[test]
fn a_fetch_that_asked_nobody_says_so() {
    let memo = StorageMemo::new(false);
    let attempts = StoreAttempts::start(&memo, &clip(0), "a");
    assert_eq!(attempts.error(), HttpError("no store answered".to_string()));
}

#[test]
fn a_failure_after_every_store_failed_only_replaces_the_error() {
    let memo = StorageMemo::new(true);
    let mut attempts = StoreAttempts::start(&memo, &clip(1), "a");
    attempts.store_failed(HttpError("gone".to_string()));
    attempts.store_failed(HttpError("still gone".to_string()));
    assert_eq!(attempts.next_store(), None);
    assert_eq!(attempts.error(), HttpError("still gone".to_string()));
}

#[test]
fn a_chunk_appends_to_its_counter_on_a_used_assembler() {
    let mut chunks = ChunkAssembler::new();
    let mut first = vec![0x4A, 0x01, 0, 0, 7, 0, 0, 0, 0, 0];
    first.extend_from_slice(b"ab");
    let mut second = vec![0x4A, 0x01, 0, 0, 7, 0, 0, 0, 0, 0];
    second.extend_from_slice(b"cd");
    let mut other = vec![0x4A, 0x01, 0, 0, 9, 0, 0, 0, 0, 0];
    other.extend_from_slice(b"z");
    assert!(chunks.ingest_payload(&first));
    assert!(chunks.ingest_payload(&other));
    assert!(chunks.ingest_payload(&second));
    assert_eq!(chunks.assembled(7), b"abcd");
    assert_eq!(chunks.assembled(9), b"z");
    assert_eq!(chunks.chunk_count(), 3);
    assert!(!chunks.saw_end());
}
