//! Modes, commands, records and frames of the replay engine.
use hedge::replay::command::{
    base64_encode, AiSourceWire, RecordKindWire, ReplayRecordWire, REPLAY_COMMAND_LIST,
    REPLAY_COMMAND_OPEN, REPLAY_COMMAND_PLAY, REPLAY_COMMAND_PREFIX, REPLAY_COMMAND_SCRUB,
    REPLAY_COMMAND_STATUS, REPLAY_COMMAND_STEP,
};
use hedge::replay::mode::ReplayMode;
use hedge::replay::record::{
    read_framed, write_framed, AISource, FrameError, FrameSource, RecordKind, ReplayRecord,
};
use hedge::replay::segments::SegmentReader;

#[test]
fn subject_constants_are_exact() {
    assert_eq!(REPLAY_COMMAND_PREFIX, "replay.command");
    assert_eq!(REPLAY_COMMAND_LIST, "replay.command.list");
    assert_eq!(REPLAY_COMMAND_OPEN, "replay.command.open");
    assert_eq!(REPLAY_COMMAND_SCRUB, "replay.command.scrub");
    assert_eq!(REPLAY_COMMAND_STEP, "replay.command.step");
    assert_eq!(REPLAY_COMMAND_PLAY, "replay.command.play");
    assert_eq!(REPLAY_COMMAND_STATUS, "replay.command.status");
}

#[test]
fn record_wire_conversion_preserves_fields() {
    let r = ReplayRecord {
        session_id: 42,
        sequence_no: 7,
        monotonic_ns: 1_234_000,
        wallclock_utc: 1_700_000_000_000_000_000,
        kind: RecordKind::Fill,
        payload: vec![0x01, 0x02, 0x03],
    };
    let w: ReplayRecordWire = (&r).into();
    assert_eq!(w.session_id, 42);
    assert_eq!(w.sequence_no, 7);
    assert_eq!(w.monotonic_ns, 1_234_000);
    assert_eq!(w.wallclock_utc, 1_700_000_000_000_000_000);
    assert_eq!(w.payload_b64, "AQID");
    assert_eq!(w.kind, RecordKindWire::Fill);
}

#[test]
fn record_kinds_keep_their_source_on_the_wire() {
    let w: RecordKindWire = RecordKind::AIDecision(AISource::Psychology).into();
    assert_eq!(w, RecordKindWire::AiDecision { source: AiSourceWire::Psychology });
    let w: RecordKindWire = RecordKind::MarketConditionSnapshot.into();
    assert_eq!(w, RecordKindWire::MarketConditionSnapshot);
}

#[test]
fn base64_encode_handles_padding_branches() {
    assert_eq!(base64_encode(&[]), "");
    assert_eq!(base64_encode(&[0x66]), "Zg==");
    assert_eq!(base64_encode(&[0x66, 0x6f]), "Zm8=");
    assert_eq!(base64_encode(&[0x66, 0x6f, 0x6f]), "Zm9v");
    assert_eq!(base64_encode(&[0x66, 0x6f, 0x6f, 0x62]), "Zm9vYg==");
}

#[test]
fn base64_encode_uses_the_last_two_letters_of_the_alphabet() {
    assert_eq!(base64_encode(&[0xfb, 0xff, 0xbf]), "+/+/");
}

#[test]
fn default_is_off() {
    assert_eq!(ReplayMode::default(), ReplayMode::Off);
    assert!(!ReplayMode::default().is_replay());
}

#[test]
fn on_is_replay() {
    assert!(ReplayMode::On.is_replay());
    assert!(!ReplayMode::Off.is_replay());
}

#[test]
fn as_str_round_trip() {
    assert_eq!(ReplayMode::Off.as_str(), "off");
    assert_eq!(ReplayMode::On.as_str(), "on");
}

#[test]
fn display_uses_snake_case_token() {
    assert_eq!(ReplayMode::Off.to_text(), "off");
    assert_eq!(ReplayMode::On.to_text(), "on");
}

#[test]
fn framed_round_trip_three_records() {
    let mut buf: Vec<u8> = Vec::new();
    for seq in 0..3u64 {
        let archive =
            rkyv::to_bytes::<(u64, u64, u64, Vec<u8>), 256>(&(
                20251130u64,
                seq,
                1_000_000 + seq * 250_000,
                vec![0xAAu8, 0xBB, 0xCC, 0xDD],
            ))
            .unwrap();
        write_framed(&mut buf, archive.as_slice());
    }
    let mut cursor = FrameSource::new(buf);
    let mut got: Vec<u64> = Vec::new();
    while let Some(frame) = read_framed(&mut cursor).unwrap() {
        let mut aligned = rkyv::AlignedVec::new();
        aligned.extend_from_slice(&frame);
        let view = rkyv::check_archived_root::<(u64, u64, u64, Vec<u8>)>(&aligned).unwrap();
        got.push(view.1);
    }
    assert_eq!(got, vec![0, 1, 2]);
}

#[test]
fn framed_clean_eof_at_start() {
    let mut empty = FrameSource::new(Vec::<u8>::new());
    let frame = read_framed(&mut empty).unwrap();
    assert!(frame.is_none());
}

#[test]
fn framed_truncated_length_prefix_errors() {
    let mut cursor = FrameSource::new(vec![0x00u8, 0x00]);
    let err = read_framed(&mut cursor).unwrap_err();
    assert_eq!(err, FrameError::TruncatedPrefix);
}

#[test]
fn framed_truncated_archive_errors() {
    let mut cursor = FrameSource::new(vec![0u8, 0, 0, 3, 0xaa, 0xbb]);
    let err = read_framed(&mut cursor).unwrap_err();
    assert_eq!(err, FrameError::TruncatedBody);
}

#[test]
fn frames_carry_a_big_endian_length() {
    let mut buf: Vec<u8> = Vec::new();
    write_framed(&mut buf, &[9u8; 258]);
    assert_eq!(&buf[..5], &[0u8, 0, 1, 2, 9]);
    write_framed(&mut buf, &[]);
    let all = SegmentReader::new(vec![buf]).read_all().unwrap();
    assert_eq!(all, vec![vec![9u8; 258], Vec::new()]);
}
