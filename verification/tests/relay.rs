use opc_desktop::relay::buffer::ReceiveBuffer;
use opc_desktop::relay::core_abi::{
    blob_ranges, control_token_from, decode_outcome, hello_from, join_denied_from, read_text,
    state_from, BlobRanges, OpcRelayBlobSplit, OpcRelayControlToken, OpcRelayHello,
    OpcRelayJoinDenied, OpcRelayMessageHeader, OpcRelayState,
};
use opc_desktop::relay::records::{
    action, check, message_from_header, Command, ControlToken, Hello, Message, ProtocolInfo,
    RecoveryAction, RelayError, OPC_RELAY_NEED_MORE, OPC_RELAY_OK,
};
use opc_desktop::relay::transport::{take_message, TransportError};
use opc_desktop::relay::discovery::{
    instance_name, is_watchable, DiscoveredHost, HostEvent, HostTable,
};

#[test]
fn consuming_everything_reuses_the_allocation() {
    let mut buffer = ReceiveBuffer::new();
    buffer.extend(&[1, 2, 3, 4]);
    assert_eq!(buffer.readable(), &[1, 2, 3, 4]);
    buffer.consume(4);
    assert!(buffer.is_empty());
    assert_eq!(buffer.readable(), &[] as &[u8]);
}

#[test]
fn partial_consumption_keeps_the_remainder_in_order() {
    let mut buffer = ReceiveBuffer::new();
    buffer.extend(&[1, 2, 3]);
    buffer.consume(1);
    buffer.extend(&[4, 5]);
    assert_eq!(buffer.readable(), &[2, 3, 4, 5]);
    assert_eq!(buffer.len(), 4);
    buffer.consume(2);
    assert_eq!(buffer.readable(), &[4, 5]);
}

#[test]
fn over_consuming_clamps_instead_of_panicking() {
    let mut buffer = ReceiveBuffer::new();
    buffer.extend(&[1, 2]);
    buffer.consume(99);
    assert!(buffer.is_empty());
}

#[test]
fn a_long_stream_does_not_grow_without_bound() {
    let mut buffer = ReceiveBuffer::new();
    let chunk = vec![7u8; 8 * 1024];
    for _ in 0..256 {
        buffer.extend(&chunk);
        buffer.consume(chunk.len());
    }
    assert!(buffer.is_empty());
    assert!(buffer.readable().is_empty());
}

#[test]
fn reset_drops_a_partial_message() {
    let mut buffer = ReceiveBuffer::new();
    buffer.extend(&[1, 2, 3]);
    buffer.reset();
    assert!(buffer.is_empty());
}

#[test]
fn a_large_consumed_prefix_is_compacted_without_losing_the_rest() {
    let mut buffer = ReceiveBuffer::new();
    let chunk: Vec<u8> = (0..100_000u32).map(|i| (i % 251) as u8).collect();
    buffer.extend(&chunk);
    buffer.consume(70_000);
    assert_eq!(buffer.readable(), &chunk[70_000..]);
    buffer.extend(&[1, 2]);
    assert_eq!(buffer.len(), 30_002);
    assert_eq!(&buffer.readable()[30_000..], &[1, 2]);
}

#[test]
fn only_an_explicit_zero_hides_a_host() {
    assert!(is_watchable(None));
    assert!(is_watchable(Some("1")));
    assert!(is_watchable(Some("")));
    assert!(!is_watchable(Some("0")));
}

#[test]
fn the_service_type_is_stripped_from_the_instance_name() {
    assert_eq!(
        instance_name("Studio iPhone._opc-mon._tcp.local.", "_opc-mon._tcp.local."),
        "Studio iPhone"
    );
}

#[test]
fn an_unexpected_fullname_is_left_alone() {
    assert_eq!(
        instance_name("something-else", "_opc-mon._tcp.local."),
        "something-else"
    );
}

#[test]
fn an_instance_name_may_contain_dots() {
    assert_eq!(
        instance_name("A.B iPhone._opc-mon._tcp.local.", "_opc-mon._tcp.local."),
        "A.B iPhone"
    );
}

#[test]
fn a_name_that_is_only_the_suffix_without_its_dot_is_left_alone() {
    assert_eq!(
        instance_name("_opc-mon._tcp.local.", "_opc-mon._tcp.local."),
        "_opc-mon._tcp.local."
    );
    assert_eq!(instance_name("._x", "_x"), "");
}

// ── Core statuses and records ──────────────────────────────────────────────

#[test]
fn every_core_status_has_its_own_error() {
    assert_eq!(check(OPC_RELAY_OK), Ok(()));
    assert_eq!(check(-1), Err(RelayError::Null));
    assert_eq!(check(-2), Err(RelayError::Malformed));
    assert_eq!(check(-3), Err(RelayError::PayloadTooLarge));
    assert_eq!(check(-4), Err(RelayError::UnknownKind));
    assert_eq!(check(-5), Err(RelayError::OutOfRange));
    assert_eq!(check(-77), Err(RelayError::Unknown(-77)));
    assert_eq!(action(1), RecoveryAction::Reconnect);
    assert_eq!(action(2), RecoveryAction::Exhausted);
    assert_eq!(action(0), RecoveryAction::Idle);
}

#[test]
fn a_header_must_stay_inside_the_buffer() {
    assert_eq!(
        message_from_header(3, 4, 6, 10, 10),
        Ok(Message {
            kind: 3,
            payload_start: 4,
            payload_end: 10,
            consumed: 10
        })
    );
    assert_eq!(message_from_header(3, 4, 7, 10, 10), Err(RelayError::Malformed));
    assert_eq!(message_from_header(3, 4, 6, 11, 10), Err(RelayError::Malformed));
    assert_eq!(
        message_from_header(3, u32::MAX, u32::MAX, 0, 10),
        Err(RelayError::Malformed)
    );
}

fn header(kind: u8, payload_offset: u32, payload_len: u32, consumed: u32) -> OpcRelayMessageHeader {
    OpcRelayMessageHeader {
        kind,
        reserved: [0; 3],
        payload_offset,
        payload_len,
        consumed,
    }
}

#[test]
fn the_decoders_answer_reads_as_more_a_refusal_or_a_message() {
    let h = header(2, 4, 3, 7);
    assert_eq!(decode_outcome(OPC_RELAY_NEED_MORE, &h, 7), Ok(None));
    assert_eq!(decode_outcome(-4, &h, 7), Err(RelayError::UnknownKind));
    assert_eq!(
        decode_outcome(OPC_RELAY_OK, &h, 7),
        Ok(Some(Message {
            kind: 2,
            payload_start: 4,
            payload_end: 7,
            consumed: 7
        }))
    );
    assert_eq!(decode_outcome(OPC_RELAY_OK, &h, 6), Err(RelayError::Malformed));
}

#[test]
fn a_located_message_is_copied_out_and_consumed() {
    let mut buffer = ReceiveBuffer::new();
    buffer.extend(&[9, 9, 9, 9, b'a', b'b', b'c', 1, 2]);
    let message = take_message(&mut buffer, OPC_RELAY_OK, &header(5, 4, 3, 7))
        .expect("a message")
        .expect("a whole one");
    assert_eq!(message.kind, 5);
    assert_eq!(message.payload, b"abc");
    assert_eq!(buffer.readable(), [1, 2]);
    assert!(take_message(&mut buffer, OPC_RELAY_NEED_MORE, &header(0, 0, 0, 0))
        .unwrap()
        .is_none());
    assert_eq!(buffer.readable(), [1, 2]);
    match take_message(&mut buffer, OPC_RELAY_OK, &header(5, 0, 9, 9)) {
        Err(TransportError::Relay(RelayError::Malformed)) => {}
        other => panic!("expected a malformed header, got {other:?}"),
    }
    assert_eq!(buffer.readable(), [1, 2], "a refused header consumes nothing");
}

#[test]
fn the_relays_small_records_read_as_the_host_wrote_them() {
    let info = ProtocolInfo {
        version: 1,
        hevc_codec: 1,
        max_payload_bytes: 1,
        framing_header_bytes: 1,
        max_retries: 3,
        join_timeout_ms: 1,
        silence_timeout_ms: 1,
        service_type: "_opcrelay._tcp".to_string(),
        txt_camera: String::new(),
        txt_watchable: String::new(),
    };
    assert_eq!(info.mdns_service_type(), "_opcrelay._tcp.local.");
    let hello = Hello {
        version: 1,
        host_name: "Desk".to_string(),
        camera_name: "Pocket 3".to_string(),
    };
    assert_eq!(hello.title(), "Desk · Pocket 3");
    let bare = Hello {
        camera_name: String::new(),
        ..hello
    };
    assert_eq!(bare.title(), "Desk");
    let token = ControlToken::default();
    assert_eq!(token.holder_name, "Host");
    assert!(!token.holder_is_recipient);
    assert_eq!(Command::SetZoom(250).arguments(), (6, [250, 0, 0, 0]));
    assert_eq!(
        Command::SetWhiteBalance {
            mode: 1,
            kelvin: 5600,
            tint: -3
        }
        .arguments(),
        (4, [1, 5600, -3, 0])
    );
}

#[test]
fn a_frame_blob_split_is_checked_against_the_payload() {
    let split = OpcRelayBlobSplit { meta_offset: 4, meta_len: 10, hevc_offset: 14, hevc_len: 6 };
    assert_eq!(
        blob_ranges(1, &split, 20),
        Ok(BlobRanges { meta_start: 4, meta_end: 14, unit_start: 14, unit_end: 20 })
    );
    assert_eq!(blob_ranges(1, &split, 19), Err(RelayError::Malformed));
    assert_eq!(blob_ranges(-2, &split, 20), Err(RelayError::Malformed));
    assert_eq!(blob_ranges(-5, &split, 20), Err(RelayError::OutOfRange));
}

const SERVICE: &str = "_opc-mon._tcp.local.";

fn v4(a: u8, b: u8, c: u8, d: u8) -> (u8, [u8; 16]) {
    let mut octets = [0u8; 16];
    octets[..4].copy_from_slice(&[a, b, c, d]);
    (4, octets)
}

fn resolved(name: &str, watchable: Option<&str>, addresses: Vec<(u8, [u8; 16])>) -> HostEvent {
    HostEvent::Resolved {
        fullname: format!("{name}.{SERVICE}"),
        watchable: watchable.map(str::to_string),
        camera: Some("Osmo Pocket 3".to_string()),
        addresses,
        port: 7070,
    }
}

#[test]
fn resolved_hosts_are_kept_in_name_order_with_sorted_addresses() {
    let mut table = HostTable::new(SERVICE.to_string());
    table.apply(resolved("Studio iPhone", None, vec![v4(10, 0, 0, 9), v4(10, 0, 0, 2)]));
    table.apply(resolved("A.B iPhone", Some("1"), vec![(6, [0xFE; 16]), v4(192, 168, 1, 4)]));
    let hosts = table.hosts();
    let names: Vec<&str> = hosts.iter().map(|host| host.name.as_str()).collect();
    assert_eq!(names, vec!["A.B iPhone", "Studio iPhone"]);
    assert_eq!(hosts[0].addresses, vec![v4(192, 168, 1, 4), (6, [0xFE; 16])]);
    assert_eq!(hosts[1].addresses, vec![v4(10, 0, 0, 2), v4(10, 0, 0, 9)]);
    assert_eq!(hosts[1].camera, "Osmo Pocket 3");
    assert_eq!(hosts[1].port, 7070);
}

#[test]
fn a_host_that_stops_offering_a_picture_is_taken_off() {
    let mut table = HostTable::new(SERVICE.to_string());
    table.apply(resolved("Studio iPhone", None, vec![v4(10, 0, 0, 2)]));
    table.apply(resolved("Studio iPhone", Some("0"), vec![v4(10, 0, 0, 2)]));
    assert!(table.hosts().is_empty());
}

#[test]
fn a_removed_host_goes_and_a_resolved_one_is_replaced() {
    let mut table = HostTable::new(SERVICE.to_string());
    table.apply(resolved("One", None, vec![v4(10, 0, 0, 1)]));
    table.apply(resolved("Two", None, vec![v4(10, 0, 0, 2)]));
    table.apply(HostEvent::Resolved {
        fullname: format!("One.{SERVICE}"),
        watchable: None,
        camera: None,
        addresses: vec![v4(10, 0, 0, 3)],
        port: 80,
    });
    table.apply(HostEvent::Other);
    let hosts = table.hosts();
    assert_eq!(hosts.len(), 2);
    assert_eq!(
        hosts[0],
        DiscoveredHost {
            name: "One".to_string(),
            camera: String::new(),
            addresses: vec![v4(10, 0, 0, 3)],
            port: 80,
        }
    );
    table.apply(HostEvent::Removed { fullname: format!("Two.{SERVICE}") });
    table.apply(HostEvent::Removed { fullname: format!("Nobody.{SERVICE}") });
    let names: Vec<String> = table.hosts().into_iter().map(|host| host.name).collect();
    assert_eq!(names, vec!["One".to_string()]);
}

fn field<const N: usize>(text: &str) -> [u8; N] {
    let mut out = [0u8; N];
    out[..text.len()].copy_from_slice(text.as_bytes());
    out
}

#[test]
fn text_fields_stop_at_the_terminator() {
    let mut text = [0u8; 64];
    for (slot, byte) in text.iter_mut().zip(b"Pocket 4 Pro") {
        *slot = *byte;
    }
    assert_eq!(read_text(&text), "Pocket 4 Pro");
    assert_eq!(read_text(&field::<8>("abc")), "abc");
    assert_eq!(read_text(&[b'x', b'y']), "xy");
    assert_eq!(read_text(&[0, b'x']), "");
    assert_eq!(read_text(&[0xE2, 0x82, 0xAC, 0]), "\u{20ac}");
}

#[test]
fn host_state_is_read_out_of_its_record() {
    let mut iso = [0i32; 64];
    iso[..3].copy_from_slice(&[1, 2, 3]);
    let raw = OpcRelayState {
        is_recording: 1,
        battery_percent: 77,
        allows_control_requests: 0,
        is_nano: 2,
        has_control_options: 1,
        iso_count: 3,
        shutter_count: -4,
        zoom_count: 99,
        iso_indices: iso,
        shutter_denominators: [50; 64],
        zoom_hundredths: [100; 64],
        format: field("4K 30"),
        color: field("Normal"),
        zoom: field("1.0x"),
        live_fps: field("30"),
        camera_name: field("Osmo"),
        iso: field("ISO 100"),
        shutter: field("1/60"),
        camera_model: field("Pocket 3"),
    };
    let state = state_from(1, &raw).expect("a decoded record");
    assert!(state.is_recording);
    assert_eq!(state.battery_percent, 77);
    assert!(!state.allows_control_requests);
    assert_eq!(state.is_nano, None);
    assert_eq!(state.format, "4K 30");
    assert_eq!(state.camera_model, "Pocket 3");
    assert_eq!(state.iso_indices, vec![1, 2, 3]);
    assert!(state.shutter_denominators.is_empty());
    assert_eq!(state.zoom_hundredths.len(), 64);
    let nano = OpcRelayState { is_nano: 1, ..raw };
    assert_eq!(state_from(1, &nano).unwrap().is_nano, Some(true));
    assert!(matches!(state_from(-2, &raw), Err(RelayError::Malformed)));
}

#[test]
fn the_small_records_read_their_text_and_flags() {
    let denied = OpcRelayJoinDenied { passcode_required: 1, reason: field("Wrong passcode") };
    let read = join_denied_from(1, &denied).unwrap();
    assert_eq!(read.reason, "Wrong passcode");
    assert!(read.passcode_required);
    let token = OpcRelayControlToken { holder_is_recipient: 0, holder_name: field("Studio") };
    let read = control_token_from(1, &token).unwrap();
    assert_eq!(read.holder_name, "Studio");
    assert!(!read.holder_is_recipient);
    let hello = OpcRelayHello { version: 2, host_name: field("iPhone"), camera_name: field("") };
    let read = hello_from(1, &hello).unwrap();
    assert_eq!(read.version, 2);
    assert_eq!(read.title(), "iPhone");
    assert!(matches!(hello_from(-5, &hello), Err(RelayError::OutOfRange)));
}
