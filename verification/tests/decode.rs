use opc_desktop::decode::annexb::access_units;
use opc_desktop::decode::codec::{backlog_cut, codec_of, is_keyframe, Codec, BACKLOG_LIMIT};

fn nal(kind: u8, first_slice: bool) -> Vec<u8> {
    vec![
        0,
        0,
        0,
        1,
        kind << 1,
        0x01,
        if first_slice { 0x80 } else { 0x00 },
    ]
}

#[test]
fn parameter_sets_lead_the_picture_they_belong_to() {
    let mut stream = Vec::new();
    stream.extend(nal(32, false));
    stream.extend(nal(33, false));
    stream.extend(nal(34, false));
    stream.extend(nal(19, true));
    stream.extend(nal(1, true));
    let units = access_units(&stream);
    assert_eq!(units.len(), 2);
    assert_eq!(units[0].len(), 7 * 4);
    assert_eq!(units[1].len(), 7);
}

#[test]
fn a_continuation_slice_stays_in_its_picture() {
    let mut stream = Vec::new();
    stream.extend(nal(1, true));
    stream.extend(nal(1, false));
    stream.extend(nal(1, true));
    let units = access_units(&stream);
    assert_eq!(units.len(), 2);
    assert_eq!(units[0].len(), 14);
}

#[test]
fn three_byte_start_codes_are_understood() {
    let mut stream = vec![0, 0, 1, 19 << 1, 0x01, 0x80];
    stream.extend([0, 0, 1, 1 << 1, 0x01, 0x80]);
    assert_eq!(access_units(&stream).len(), 2);
}

#[test]
fn an_empty_stream_yields_nothing() {
    assert!(access_units(&[]).is_empty());
}

#[test]
fn parameter_sets_with_no_picture_stay_one_unit() {
    let mut stream = Vec::new();
    stream.extend(nal(32, false));
    stream.extend(nal(33, false));
    assert_eq!(access_units(&stream).len(), 1);
}

#[test]
fn a_new_picture_opens_at_its_leading_parameter_sets() {
    let mut stream = Vec::new();
    stream.extend(nal(1, true));
    stream.extend(nal(32, false));
    stream.extend(nal(19, true));
    let units = access_units(&stream);
    assert_eq!(units.len(), 2);
    assert_eq!(units[0].len(), 7);
    assert_eq!(units[1].len(), 14);
}

#[test]
fn bytes_before_the_first_start_code_are_not_a_unit() {
    let mut stream = vec![9, 9, 9];
    stream.extend(nal(19, true));
    let units = access_units(&stream);
    assert_eq!(units.len(), 1);
    assert_eq!(units[0], &stream[3..]);
}

#[test]
fn the_units_cover_the_stream_in_order() {
    let mut stream = Vec::new();
    for _ in 0..3 {
        stream.extend(nal(32, false));
        stream.extend(nal(19, true));
        stream.extend(nal(1, false));
    }
    let units = access_units(&stream);
    assert_eq!(units.len(), 3);
    let joined: Vec<u8> = units.iter().flat_map(|unit| unit.iter().copied()).collect();
    assert_eq!(joined, stream);
}

#[test]
fn an_avc_stream_is_read_as_avc() {
    let unit = [0, 0, 0, 1, 0x67, 0x42, 0x00, 0, 0, 0, 1, 0x65, 0x88, 0x84, 0x00];
    assert_eq!(codec_of(&unit), Some(Codec::H264));
    assert!(is_keyframe(&unit));
}

#[test]
fn an_avc_ordinary_slice_is_not_a_keyframe() {
    let unit = [0, 0, 0, 1, 0x67, 0x42, 0x00, 0, 0, 0, 1, 0x41, 0x9A, 0x00, 0x10];
    assert_eq!(codec_of(&unit), Some(Codec::H264));
    assert!(!is_keyframe(&unit));
}

#[test]
fn an_hevc_stream_is_read_as_hevc() {
    let mut unit = Vec::new();
    unit.extend(nal(32, false));
    unit.extend(nal(33, false));
    unit.extend(nal(34, false));
    unit.extend(nal(19, true));
    unit.extend([0x11, 0x22]);
    assert_eq!(codec_of(&unit), Some(Codec::Hevc));
    assert!(is_keyframe(&unit));
}

#[test]
fn an_hevc_trailing_picture_is_not_a_keyframe() {
    let mut unit = nal(1, true);
    unit.extend([0x11, 0x22]);
    assert_eq!(codec_of(&unit), None);
    assert!(!is_keyframe(&unit));
}

#[test]
fn a_unit_without_start_codes_says_nothing() {
    assert_eq!(codec_of(&[1, 2, 3, 4, 5, 6]), None);
    assert!(!is_keyframe(&[1, 2, 3, 4, 5, 6]));
    assert_eq!(codec_of(&[0, 0, 1, 0x65]), None);
}

#[test]
fn a_backlog_is_cut_at_its_last_keyframe() {
    let mut queue = vec![false; 40];
    queue[3] = true;
    queue[25] = true;
    assert_eq!(backlog_cut(&queue, BACKLOG_LIMIT), Some(25));
    // At the limit it is not a backlog yet.
    assert_eq!(backlog_cut(&queue[..30], BACKLOG_LIMIT), None);
    // A backlog with nothing to restart from is left alone.
    assert_eq!(backlog_cut(&[false; 31], BACKLOG_LIMIT), None);
}
