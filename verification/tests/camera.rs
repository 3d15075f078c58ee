use opc_desktop::camera::duml::{frames_of, split, DumlFrame};
use opc_desktop::camera::session::{fresh_session, subscribe_keys_from, SequenceCounters};
use opc_desktop::camera::types::{Advert, Discovered, GattMap};
use opc_desktop::text::split_fields;
use opc_desktop::camera::wifi::{
    command_line, disconnect_command, profile_xml, JoinPolicy, JoinStep, JoinTiming, Platform,
};

fn blob(records: &[&[u8]]) -> Vec<u8> {
    let mut out = vec![records.len() as u8, 0];
    for record in records {
        out.push(record.len() as u8);
        out.push(0);
        out.extend_from_slice(record);
    }
    out
}

#[test]
fn records_come_back_in_order() {
    let packed = blob(&[&[1, 2, 3], &[4], &[5, 6]]);
    let split = split(&packed);
    assert_eq!(split, vec![&[1u8, 2, 3][..], &[4][..], &[5, 6][..]]);
}

#[test]
fn an_empty_blob_yields_nothing() {
    assert!(split(&[0, 0]).is_empty());
    assert!(split(&[]).is_empty());
    assert!(split(&[7]).is_empty());
}

#[test]
fn a_truncated_record_stops_rather_than_panicking() {
    let mut packed = blob(&[&[1, 2, 3], &[4, 5, 6]]);
    packed.truncate(packed.len() - 2);
    assert_eq!(split(&packed), vec![&[1u8, 2, 3][..]]);
}

#[test]
fn a_frame_parses_its_header_and_payload() {
    let frame = DumlFrame::parse(&[0x0A, 0x02, 0x34, 0x12, 0x80, 0x02, 0xA5, 0x00, 0x01])
        .expect("a full frame");
    assert_eq!(frame.sender, 0x0A);
    assert_eq!(frame.receiver, 0x02);
    assert_eq!(frame.seq, 0x1234);
    assert_eq!(frame.cmd_set, 0x02);
    assert_eq!(frame.cmd_id, 0xA5);
    assert_eq!(frame.payload, vec![0x00, 0x01]);
    assert!(frame.is_reply());
}

#[test]
fn a_frame_with_no_payload_is_still_a_frame() {
    let frame = DumlFrame::parse(&[1, 2, 0, 0, 0x40, 3, 4]).expect("a header-only frame");
    assert!(frame.payload.is_empty());
    assert!(!frame.is_reply());
}

#[test]
fn a_short_frame_is_refused() {
    assert!(DumlFrame::parse(&[1, 2, 3]).is_none());
}

#[test]
fn a_record_count_larger_than_the_blob_reads_what_is_there() {
    // The count says five, but only two records follow.
    let mut packed = blob(&[&[9], &[8, 7]]);
    packed[0] = 5;
    assert_eq!(split(&packed), vec![&[9u8][..], &[8, 7][..]]);
}

#[test]
fn a_two_byte_count_and_length_are_little_endian() {
    let record = vec![0xAB; 300];
    let mut packed = vec![1, 0, (300 & 0xFF) as u8, (300 >> 8) as u8];
    packed.extend_from_slice(&record);
    let parts = split(&packed);
    assert_eq!(parts.len(), 1);
    assert_eq!(parts[0].len(), 300);
}

#[test]
fn each_platform_gets_its_own_tool() {
    let windows = command_line(Platform::Windows, "Osmo", "secret", None);
    assert_eq!(
        windows.len(),
        2,
        "Windows installs a profile, then connects"
    );
    assert!(windows.iter().all(|line| line.program == "netsh"));

    let linux = command_line(Platform::Linux, "Osmo", "secret", None);
    assert_eq!(linux[0].program, "nmcli");
    assert!(linux[0].arguments.contains(&"secret".to_string()));

    let macos = command_line(Platform::MacOs, "Osmo", "secret", None);
    assert_eq!(macos[0].program, "networksetup");
    assert_eq!(macos[0].arguments[1], "en0");
}

#[test]
fn a_named_interface_is_passed_through() {
    let linux = command_line(Platform::Linux, "Osmo", "secret", Some("wlan1"));
    assert!(linux[0]
        .arguments
        .windows(2)
        .any(|pair| pair == ["ifname".to_string(), "wlan1".to_string()]));

    let windows = command_line(Platform::Windows, "Osmo", "secret", Some("Wi-Fi 2"));
    assert!(windows[1]
        .arguments
        .iter()
        .any(|argument| argument == "interface=Wi-Fi 2"));
}

#[test]
fn a_windows_profile_carries_the_network_in_both_forms() {
    let xml = profile_xml("Osmo", "secret");
    assert!(xml.contains("<name>Osmo</name>"));
    assert!(xml.contains("<hex>4F736D6F</hex>"));
    assert!(xml.contains("<keyMaterial>secret</keyMaterial>"));
    assert!(xml.contains("WPA2PSK"));
    assert!(xml.contains("<connectionMode>manual</connectionMode>"));
}

#[test]
fn a_profile_escapes_names_that_would_break_the_document() {
    let xml = profile_xml("A&B <cam>", "pass\"word");
    assert!(xml.contains("A&amp;B &lt;cam&gt;"));
    assert!(xml.contains("pass&quot;word"));
    assert!(!xml.contains("<cam>"));
}

#[test]
fn leaving_a_network_is_per_platform_too() {
    assert_eq!(
        disconnect_command(Platform::Linux, "Studio").arguments[2],
        "Studio"
    );
    assert_eq!(
        disconnect_command(Platform::Windows, "Studio").arguments[1],
        "disconnect"
    );
}

#[test]
fn the_full_windows_connect_line_is_exact() {
    let windows = command_line(Platform::Windows, "Osmo", "secret", Some("Wi-Fi 2"));
    assert_eq!(
        windows[1].arguments,
        ["wlan", "connect", "name=Osmo", "ssid=Osmo", "interface=Wi-Fi 2"]
    );
    assert_eq!(
        windows[0].arguments,
        ["wlan", "add", "profile", "filename=%PROFILE%"]
    );
    let mac = command_line(Platform::MacOs, "Osmo", "secret", Some("en1"));
    assert_eq!(mac[0].arguments, ["-setairportnetwork", "en1", "Osmo", "secret"]);
    assert_eq!(
        disconnect_command(Platform::MacOs, "Studio").arguments,
        ["-setairportpower", "en0", "off"]
    );
}

#[test]
fn a_profile_hexes_the_utf8_bytes_and_escapes_apostrophes() {
    let xml = profile_xml("é'", "k");
    assert!(xml.contains("<hex>C3A927</hex>"));
    assert!(xml.contains("<name>é&apos;</name>"));
    assert!(xml.starts_with("<?xml version=\"1.0\"?>\n<WLANProfile"));
    assert!(xml.ends_with("</WLANProfile>\n"));
}

#[test]
fn a_packed_blob_yields_its_whole_frames() {
    let packed = blob(&[
        &[0x0A, 0x02, 0x34, 0x12, 0x80, 0x02, 0xA5, 0x00, 0x01],
        &[1, 2, 3],
        &[1, 2, 0, 0, 0x40, 3, 4],
    ]);
    let frames = frames_of(&packed);
    assert_eq!(frames.len(), 2);
    assert_eq!(frames[0].seq, 0x1234);
    assert_eq!(frames[0].payload, vec![0x00, 0x01]);
    assert!(frames[0].is_reply());
    assert_eq!(frames[1].cmd_set, 3);
    assert!(frames[1].payload.is_empty());
    assert!(frames_of(&[0, 0]).is_empty());
}

#[test]
fn text_splits_at_every_newline() {
    assert_eq!(split_fields("a\nbc\n\nd"), vec!["a", "bc", "", "d"]);
    assert_eq!(split_fields(""), vec![""]);
    assert_eq!(split_fields("x\n"), vec!["x", ""]);
}

#[test]
fn a_gatt_map_reads_four_lines_in_order() {
    let map = GattMap::from_text("fff0\nfff4\nfff5\n2902").expect("four lines");
    assert_eq!(map.service, "fff0");
    assert_eq!(map.notify, "fff4");
    assert_eq!(map.write, "fff5");
    assert_eq!(map.configuration, "2902");
    let extra = GattMap::from_text("a\nb\nc\nd\ne").expect("more than four lines");
    assert_eq!(extra.configuration, "d");
    assert!(GattMap::from_text("a\nb\nc").is_none());
}

#[test]
fn an_advert_keeps_only_what_it_carries() {
    assert_eq!(Advert::from_decoded(0, 5, 1, 7), None);
    assert_eq!(
        Advert::from_decoded(1, 5, 1, -1),
        Some(Advert { model_id: Some(5), new_format: true, raw_product_type: None })
    );
    assert_eq!(
        Advert::from_decoded(1, -1, 0, 9),
        Some(Advert { model_id: None, new_format: false, raw_product_type: Some(9) })
    );
}

#[test]
fn each_command_advances_the_three_counters() {
    let mut counters = SequenceCounters::new(0xFFF0);
    let first = counters.next_command();
    assert_eq!((first.duml_seq, first.counter, first.udp_seq), (0, 1, 0xFFF0));
    let second = counters.next_command();
    assert_eq!((second.duml_seq, second.counter, second.udp_seq), (1, 2, 0xFFF8));
    let third = counters.next_command();
    // The transport sequence wraps at sixteen bits.
    assert_eq!((third.duml_seq, third.counter, third.udp_seq), (2, 3, 0x0000));
    assert_eq!(counters.udp_seq, 8);
    counters.reset();
    assert_eq!(counters, SequenceCounters::new(0xFFF0));
}

#[test]
fn the_command_counter_wraps_at_a_byte() {
    let mut counters = SequenceCounters::new(8);
    for _ in 0..255 {
        counters.next_command();
    }
    assert_eq!(counters.command_counter, 255);
    let stamp = counters.next_command();
    assert_eq!(stamp.counter, 0);
    assert_eq!(stamp.duml_seq, 255);
    assert_eq!(counters.duml_seq, 256);
}

#[test]
fn a_fresh_session_is_odd_and_eight_aligned() {
    assert_eq!(fresh_session(0), (1, 0));
    assert_eq!(fresh_session(0x0012_3456), (0x3457, 0x1230));
    let (id, base) = fresh_session(0xFFFF_FFFF);
    assert_eq!(id, 0xFFFF);
    assert_eq!(base, 0xFFF8);
}

#[test]
fn subscription_names_skip_empty_lines() {
    assert_eq!(subscribe_keys_from("battery\n\ntimecode\n"), vec!["battery", "timecode"]);
    assert!(subscribe_keys_from("").is_empty());
}

// The core's deadlines, in milliseconds: ninety seconds in all, ten between attempts.
fn timing() -> JoinTiming {
    JoinTiming {
        deadline: 90_000,
        retry_pause: 10_000,
    }
}

#[test]
fn being_on_the_camera_network_with_an_address_is_settled() {
    let mut policy = JoinPolicy::new("OsmoPocket4-ABC", 0, timing());
    assert_eq!(
        policy.tick(1_000, Some("OsmoPocket4-ABC"), true),
        JoinStep::Settled
    );
}

#[test]
fn the_right_network_without_an_address_is_not_settled_yet() {
    let mut policy = JoinPolicy::new("OsmoPocket4-ABC", 0, timing());
    // Associated but no DHCP lease on the camera's subnet: still joining.
    assert_ne!(
        policy.tick(1_000, Some("OsmoPocket4-ABC"), false),
        JoinStep::Settled
    );
}

#[test]
fn a_hidden_network_name_counts_as_being_on_target() {
    let mut policy = JoinPolicy::new("OsmoPocket4-ABC", 0, timing());
    // Some platforms will not say which network they are on. Refusing to proceed
    // would strand an operator who is in fact connected.
    assert_eq!(policy.tick(1_000, None, true), JoinStep::Settled);
    assert_eq!(policy.tick(1_000, Some(""), true), JoinStep::Settled);
}

#[test]
fn another_network_is_left_before_the_first_attempt() {
    let mut policy = JoinPolicy::new("OsmoPocket4-ABC", 0, timing());
    assert_eq!(
        policy.tick(1_000, Some("Studio 5GHz"), false),
        JoinStep::Kick("Studio 5GHz".to_string())
    );
    // Only once.
    assert_eq!(policy.tick(1_100, Some("Studio 5GHz"), false), JoinStep::Join);
}

#[test]
fn attempts_are_spaced_by_the_cores_pause() {
    let mut policy = JoinPolicy::new("OsmoPocket4-ABC", 0, timing());
    assert_eq!(policy.tick(0, None, false), JoinStep::Join);
    assert_eq!(policy.tick(3_000, None, false), JoinStep::Wait);
    assert_eq!(policy.tick(9_900, None, false), JoinStep::Wait);
    assert_eq!(policy.tick(10_000, None, false), JoinStep::Join);
}

#[test]
fn an_attempt_that_cannot_finish_in_time_is_not_started() {
    let mut policy = JoinPolicy::new("OsmoPocket4-ABC", 0, timing());
    policy.tick(0, None, false);
    // Five seconds left is less than the pause: waiting, not another doomed attempt.
    assert_eq!(policy.tick(85_000, None, false), JoinStep::Wait);
}

#[test]
fn the_join_is_given_up_on_at_the_deadline() {
    let mut policy = JoinPolicy::new("OsmoPocket4-ABC", 0, timing());
    policy.tick(0, None, false);
    assert!(matches!(
        policy.tick(90_000, None, false),
        JoinStep::GaveUp(_)
    ));
    assert_eq!(policy.time_left(90_000), 0);
}

#[test]
fn giving_up_names_the_network() {
    let mut policy = JoinPolicy::new("Osmo", 5_000, timing());
    assert_eq!(
        policy.tick(96_000, Some("Studio"), false),
        JoinStep::GaveUp("Could not join Osmo. Check the camera is awake and close by.".to_string())
    );
    assert_eq!(policy.target(), "Osmo");
    assert_eq!(policy.time_left(4_000), 91_000);
}

#[test]
fn a_scan_keeps_cameras_by_service_or_by_name() {
    let by_name = Discovered::from_scan("OsmoPocket3-1A2B", "AA:BB", false, Some(5)).expect("an Osmo");
    assert_eq!(by_name.name, "OsmoPocket3-1A2B");
    assert_eq!(by_name.address, "AA:BB");
    assert_eq!(
        by_name.advert,
        Some(Advert { model_id: Some(5), new_format: false, raw_product_type: None })
    );
    assert!(Discovered::from_scan("DJI POCKET 4", "x", false, None).is_some());
    assert!(Discovered::from_scan("Headphones", "x", false, None).is_none());
    let unnamed = Discovered::from_scan("", "11:22", true, None).expect("offers the service");
    assert_eq!(unnamed.name, "Osmo Pocket (11:22)");
}
