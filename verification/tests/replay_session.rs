//! Recording a session, its segments, playing it back, and the replay tools.
use hedge::base::schema::Tick;
use hedge::base::types::SessionId;
use hedge::market_data::tick_wire::tick_to_raw_bytes;
use hedge::replay::canonical::{
    canonical_record, kind_discriminant, kind_for_index, payload_for, ANCHOR_MONOTONIC_NS,
    ANCHOR_WALLCLOCK_NS, TICK_GAP_NS,
};
use hedge::replay::cli::{
    parse_args, parse_canonical_args, parse_regression_args, Args, Flags, DEFAULT_DIR,
    DEFAULT_RECORD_COUNT, DEFAULT_SEED, DEFAULT_SESSION_ID,
};
use hedge::replay::error::ReplayError;
use hedge::replay::playback::{
    empty_session_text, fmt_kind, publications, raw_subject, symbol_in, Publication,
};
use hedge::replay::player::{Player, ReplaySpeed};
use hedge::replay::record::{write_framed, AISource, FrameError, RecordKind, ReplayRecord};
use hedge::replay::recorder::{RecordOutcome, Recorder, RecorderConfig};
use hedge::replay::regression::{
    diff_streams, kind_label, label_index, play_once, Divergence, PlayResult, LABELS,
    RNG_COMPARE_SAMPLES,
};
use hedge::replay::report::{
    count_report, dump_line, info_report, list_report, timing_report,
};
use hedge::replay::segments::{
    frame_size, list_sessions, segment_name, select_segments, AppendOutcome, Rotation,
    SegmentReader, SegmentWriter, DEFAULT_MAX_SEGMENT_BYTES,
};
use rand::RngCore;
use std::collections::BTreeMap;
use std::time::Duration;

fn rec_at(seq: u64, ns: u64) -> ReplayRecord {
    ReplayRecord {
        session_id: 1,
        sequence_no: seq,
        monotonic_ns: ns,
        wallclock_utc: 0,
        kind: RecordKind::Tick,
        payload: vec![seq as u8],
    }
}

fn records(n: u64) -> Vec<ReplayRecord> {
    (0..n).map(|i| rec_at(i, i * 1_000_000)).collect()
}

#[test]
fn step_returns_records_in_sequence_order() {
    let mut p = Player::from_records(SessionId::new(1), records(3), ReplaySpeed::Max, 0).unwrap();
    assert_eq!(p.step().unwrap().sequence_no, 0);
    assert_eq!(p.step().unwrap().sequence_no, 1);
    assert_eq!(p.step().unwrap().sequence_no, 2);
    assert!(p.step().is_none());
    assert!(p.at_end());
}

#[test]
fn seek_moves_cursor_to_sequence_no() {
    let mut p = Player::from_records(SessionId::new(1), records(5), ReplaySpeed::Max, 0).unwrap();
    p.seek(3).unwrap();
    assert_eq!(p.step().unwrap().sequence_no, 3);
}

#[test]
fn seek_to_end_parks_cursor() {
    let mut p = Player::from_records(SessionId::new(1), records(3), ReplaySpeed::Max, 0).unwrap();
    p.seek(3).unwrap();
    assert!(p.at_end());
}

#[test]
fn seek_out_of_range_errors() {
    let mut p = Player::from_records(SessionId::new(1), records(2), ReplaySpeed::Max, 0).unwrap();
    let err = p.seek(99).unwrap_err();
    match err {
        ReplayError::SeekNotFound { target: 99 } => {}
        other => panic!("wrong error: {other:?}"),
    }
}

#[test]
fn rewind_resets_cursor() {
    let mut p = Player::from_records(SessionId::new(1), records(3), ReplaySpeed::Max, 0).unwrap();
    p.step();
    p.step();
    assert_eq!(p.cursor(), 2);
    p.rewind();
    assert_eq!(p.cursor(), 0);
}

#[test]
fn open_rejects_non_monotonic_records() {
    let bad = vec![rec_at(0, 0), rec_at(2, 0)];
    let res = Player::from_records(SessionId::new(1), bad, ReplaySpeed::Max, 0);
    match res {
        Err(ReplayError::SequenceInvariant {
            expected: 1,
            got: 2,
            ..
        }) => {}
        Err(other) => panic!("wrong error: {other:?}"),
        Ok(_) => panic!("expected error, got Ok"),
    }
}

#[test]
fn play_stream_drains_all_records_under_max() {
    let mut p = Player::from_records(SessionId::new(1), records(4), ReplaySpeed::Max, 0).unwrap();
    let stream = p.play(ReplaySpeed::Max);
    let mut seqs: Vec<u64> = vec![];
    while let Some((r, wait_ns)) = stream.release(&mut p) {
        assert_eq!(wait_ns, 0);
        seqs.push(r.sequence_no);
    }
    assert_eq!(seqs, vec![0, 1, 2, 3]);
}

#[test]
fn play_stream_x1_paces_by_monotonic_delta() {
    let recs: Vec<_> = (0..4u64).map(|i| rec_at(i, i * 1_000_000)).collect();
    let mut p = Player::from_records(SessionId::new(1), recs, ReplaySpeed::X1, 0).unwrap();

    let mut elapsed = Duration::from_millis(0);
    let stream = p.play(ReplaySpeed::X1);
    let mut count = 0;
    while let Some((_r, wait_ns)) = stream.release(&mut p) {
        elapsed += Duration::from_nanos(wait_ns);
        count += 1;
    }
    assert_eq!(count, 4);
    assert!(
        elapsed >= Duration::from_millis(3),
        "elapsed = {:?}",
        elapsed
    );
}

#[test]
fn rng_seed_is_deterministic_across_runs() {
    let mut p1 =
        Player::from_records(SessionId::new(1), records(0), ReplaySpeed::Max, 0xCAFE).unwrap();
    let mut p2 =
        Player::from_records(SessionId::new(1), records(0), ReplaySpeed::Max, 0xCAFE).unwrap();
    for _ in 0..32 {
        assert_eq!(p1.rng_mut().next_u64(), p2.rng_mut().next_u64());
    }
}

#[test]
fn rng_with_different_seeds_diverges() {
    let mut p1 = Player::from_records(SessionId::new(1), records(0), ReplaySpeed::Max, 1).unwrap();
    let mut p2 = Player::from_records(SessionId::new(1), records(0), ReplaySpeed::Max, 2).unwrap();
    let differs = (0..16).any(|_| p1.rng_mut().next_u64() != p2.rng_mut().next_u64());
    assert!(differs, "RNG streams should diverge across seeds");
}

#[test]
fn each_gap_is_waited_before_the_record_behind_it() {
    let recs = vec![rec_at(0, 100), rec_at(1, 107), rec_at(2, 107), rec_at(3, 50), rec_at(4, 60)];
    let mut p = Player::from_records(SessionId::new(1), recs, ReplaySpeed::X1, 0).unwrap();
    let pace = p.play(ReplaySpeed::X1);
    let mut waits: Vec<u64> = vec![];
    while let Some((_r, wait_ns)) = pace.release(&mut p) {
        waits.push(wait_ns);
    }
    assert_eq!(waits, vec![7, 0, 0, 10, 0]);
}

#[test]
fn an_encoded_record_is_as_large_as_its_archive() {
    let archive = archive_of(&rec(1, 0, 3));
    assert_eq!(ReplayRecord::payload_bytes(&archive), 19);
}

#[test]
fn ten_times_the_speed_waits_a_tenth() {
    let mut p = Player::from_records(SessionId::new(1), records(3), ReplaySpeed::X10, 0).unwrap();
    let stream = p.play_default();
    let mut waits: Vec<u64> = vec![];
    while let Some((_r, wait_ns)) = stream.release(&mut p) {
        waits.push(wait_ns);
    }
    assert_eq!(waits.iter().sum::<u64>(), 200_000);
    assert_eq!(ReplaySpeed::X1.divisor(), Some(1));
    assert_eq!(ReplaySpeed::X10.divisor(), Some(10));
    assert_eq!(ReplaySpeed::Max.divisor(), None);
}

#[test]
fn players_know_their_session() {
    let p = Player::from_records(SessionId::new(31), records(3), ReplaySpeed::X1, 0).unwrap();
    assert_eq!(p.session_id(), SessionId::new(31));
    assert_eq!(p.total_records(), 3);
}

// An archive stands for a record by its session, number and payload.
fn archive_of(r: &ReplayRecord) -> Vec<u8> {
    let mut out = r.session_id.to_le_bytes().to_vec();
    out.extend_from_slice(&r.sequence_no.to_le_bytes());
    out.extend_from_slice(&r.payload);
    out
}

fn number_in(bytes: &[u8]) -> u64 {
    let mut eight = [0u8; 8];
    eight.copy_from_slice(&bytes[..8]);
    u64::from_le_bytes(eight)
}

// Directories and files, by name.
struct Disk {
    files: BTreeMap<(String, String), Vec<u8>>,
}

impl Disk {
    fn new() -> Disk {
        Disk {
            files: BTreeMap::new(),
        }
    }

    fn append(&mut self, w: &mut SegmentWriter, session: u64, archive: &[u8]) -> (String, String) {
        let frame = frame_size(archive.len());
        let plan = w.append(session, frame);
        let key = (plan.directory, plan.file);
        let file = self.files.entry(key.clone()).or_default();
        write_framed(file, archive);
        w.settle(session, frame, AppendOutcome::Written);
        key
    }

    fn directories(&self) -> Vec<String> {
        let mut names: Vec<String> = self.files.keys().map(|k| k.0.clone()).collect();
        names.dedup();
        names
    }

    fn names(&self, session: u64) -> Vec<String> {
        let dir = session.to_string();
        self.files
            .keys()
            .filter(|k| k.0 == dir)
            .map(|k| k.1.clone())
            .collect()
    }

    fn reader(&self, session: u64) -> SegmentReader {
        let dir = session.to_string();
        let segments = select_segments(self.names(session));
        SegmentReader::new(
            segments
                .into_iter()
                .map(|name| self.files[&(dir.clone(), name)].clone())
                .collect(),
        )
    }
}

fn rec(session: u64, seq: u64, payload_len: usize) -> ReplayRecord {
    ReplayRecord {
        session_id: session,
        sequence_no: seq,
        monotonic_ns: seq * 1_000_000,
        wallclock_utc: 1_700_000_000_000_000_000 + seq as i64,
        kind: RecordKind::Tick,
        payload: vec![0xAB; payload_len],
    }
}

#[test]
fn writer_creates_session_dir_lazily() {
    let disk = Disk::new();
    let w = SegmentWriter::new(DEFAULT_MAX_SEGMENT_BYTES);
    assert!(w.active_segment_path().is_none());
    assert_eq!(w.active_session(), None);
    assert!(
        disk.directories().is_empty(),
        "writer should not create dirs eagerly"
    );
}

#[test]
fn append_creates_seg_0001_and_writes_record() {
    let mut disk = Disk::new();
    let mut w = SegmentWriter::new(DEFAULT_MAX_SEGMENT_BYTES);
    let path = disk.append(&mut w, 42, &archive_of(&rec(42, 0, 8)));
    assert_eq!(path.1, "seg-0001.rkyv");
    assert_eq!(disk.directories(), vec!["42".to_string()]);
    assert_eq!(disk.names(42), vec!["seg-0001.rkyv".to_string()]);
    assert_eq!(w.active_segment_path(), Some(path));
    assert_eq!(w.active_segment_idx(), 1);
}

#[test]
fn rotates_at_size_threshold() {
    let mut disk = Disk::new();
    let mut w = SegmentWriter::new(32);
    for i in 0..3u64 {
        let path = disk.append(&mut w, 7, &archive_of(&rec(7, i, 16)));
        assert_eq!(path.1, format!("seg-{:04}.rkyv", i + 1));
    }
    let mut names = disk.names(7);
    names.sort();
    assert_eq!(
        names,
        vec![
            "seg-0001.rkyv".to_string(),
            "seg-0002.rkyv".to_string(),
            "seg-0003.rkyv".to_string()
        ]
    );
}

#[test]
fn session_change_starts_fresh_dir_and_segment() {
    let mut disk = Disk::new();
    let mut w = SegmentWriter::new(DEFAULT_MAX_SEGMENT_BYTES);
    let p1 = disk.append(&mut w, 100, &archive_of(&rec(100, 0, 4)));
    let p2 = disk.append(&mut w, 101, &archive_of(&rec(101, 0, 4)));
    assert_ne!(p1.0, p2.0);
    assert_eq!(p1.1, "seg-0001.rkyv");
    assert_eq!(p2.1, "seg-0001.rkyv");
    assert_eq!(disk.directories(), vec!["100".to_string(), "101".to_string()]);
}

#[test]
fn reader_returns_records_in_order_across_segments() {
    let mut disk = Disk::new();
    let mut w = SegmentWriter::new(16);
    for i in 0..5u64 {
        disk.append(&mut w, 9, &archive_of(&rec(9, i, 4)));
    }
    let r = disk.reader(9);
    assert_eq!(r.segment_count(), 5);
    let all = r.read_all().unwrap();
    let seqs: Vec<u64> = all.iter().map(|a| number_in(&a[8..])).collect();
    assert_eq!(seqs, vec![0, 1, 2, 3, 4]);
}

#[test]
fn reader_for_missing_session_yields_no_records() {
    let r = Disk::new().reader(555);
    assert_eq!(r.segment_count(), 0);
    let all = r.read_all().unwrap();
    assert!(all.is_empty());
}

#[test]
fn list_sessions_returns_sorted_session_ids() {
    let mut disk = Disk::new();
    let mut w = SegmentWriter::new(DEFAULT_MAX_SEGMENT_BYTES);
    for s in [200u64, 100, 300] {
        disk.append(&mut w, s, &archive_of(&rec(s, 0, 4)));
    }
    let sessions = list_sessions(disk.directories());
    assert_eq!(sessions, vec![100, 200, 300]);
}

#[test]
fn list_sessions_empty_when_dir_missing() {
    let s = list_sessions(vec![]);
    assert!(s.is_empty());
}

#[test]
fn names_that_are_no_number_are_no_session() {
    let names = ["9", "10", "x", "", "-1", "18446744073709551616", "+3"];
    let s = list_sessions(names.iter().map(|n| n.to_string()).collect());
    assert_eq!(s, vec![3, 9, 10]);
}

#[test]
fn only_segment_files_are_read_in_the_order_of_their_names() {
    let names = ["seg-0010.rkyv", "notes.txt", "seg-0002.rkyv", "seg-0001.tmp"];
    let picked = select_segments(names.iter().map(|n| n.to_string()).collect());
    assert_eq!(picked, vec!["seg-0002.rkyv", "seg-0010.rkyv"]);
    assert_eq!(segment_name(12_345), "seg-12345.rkyv");
}

#[test]
fn a_failed_open_reopens_the_first_segment() {
    let mut w = SegmentWriter::new(32);
    assert_eq!(w.append(1, 20).rotation, Rotation::NewSession);
    w.settle(1, 20, AppendOutcome::OpenFailed);
    let plan = w.append(1, 20);
    assert_eq!(plan.rotation, Rotation::Reopen);
    assert!(plan.open);
    assert!(!plan.close);
    assert_eq!(plan.file, "seg-0001.rkyv");
    w.settle(1, 20, AppendOutcome::Written);
    assert_eq!(w.append(1, 12).rotation, Rotation::Stay);
    assert_eq!(w.append(1, 13).rotation, Rotation::NextSegment);
}

#[test]
fn a_cut_off_segment_is_an_error() {
    let mut bytes: Vec<u8> = vec![];
    write_framed(&mut bytes, &[1, 2, 3]);
    bytes.pop();
    match SegmentReader::new(vec![bytes]).read_all() {
        Err(FrameError::TruncatedBody) => {}
        other => panic!("wrong result: {other:?}"),
    }
}

fn record(r: &mut Recorder, kind: RecordKind, payload: Vec<u8>) -> u64 {
    let made = r.record(kind, payload, 5, 6);
    let n = r.record_raw(&made).unwrap();
    let frame = frame_size(archive_of(&made).len());
    r.settle(frame, RecordOutcome::Recorded);
    n
}

#[test]
fn record_assigns_sequence_starting_at_zero() {
    let mut rec = Recorder::new(SessionId::new(20251130));
    let s0 = record(&mut rec, RecordKind::Tick, vec![1u8, 2, 3]);
    let s1 = record(&mut rec, RecordKind::Tick, vec![4u8, 5, 6]);
    let s2 = record(&mut rec, RecordKind::SignalEmitted, vec![7u8]);
    assert_eq!((s0, s1, s2), (0, 1, 2));
    assert_eq!(rec.records_appended(), 3);
    assert_eq!(rec.next_sequence_no(), 3);
    assert!(rec.bytes_written() > 0);
}

#[test]
fn record_raw_rejects_out_of_order_sequence() {
    let session = SessionId::new(99);
    let rec = Recorder::new(session);
    let bad = ReplayRecord {
        session_id: 99,
        sequence_no: 5,
        monotonic_ns: 0,
        wallclock_utc: 0,
        kind: RecordKind::Tick,
        payload: vec![],
    };
    let err = rec.record_raw(&bad).unwrap_err();
    match err {
        ReplayError::SequenceInvariant {
            session: 99,
            expected: 0,
            got: 5,
        } => {}
        other => panic!("wrong error: {other:?}"),
    }
    assert_eq!(rec.records_appended(), 0);
}

#[test]
fn record_raw_rejects_session_id_mismatch() {
    let rec = Recorder::new(SessionId::new(7));
    let bad = ReplayRecord {
        session_id: 8,
        sequence_no: 0,
        monotonic_ns: 0,
        wallclock_utc: 0,
        kind: RecordKind::Tick,
        payload: vec![],
    };
    let err = rec.record_raw(&bad).unwrap_err();
    match err {
        ReplayError::Config(_) => {}
        other => panic!("wrong error: {other:?}"),
    }
    assert_eq!(
        err.to_text(),
        "replay configuration error: record.session_id (8) does not match recorder.session_id (7)"
    );
}

#[test]
fn no_redis_sink_by_default() {
    let rec = Recorder::new(SessionId::new(1));
    assert!(!rec.has_redis_sink());
    assert!(Recorder::with_redis(SessionId::new(1)).has_redis_sink());
    let mut rec = Recorder::new(SessionId::new(1));
    rec.attach_redis();
    assert!(rec.has_redis_sink());
}

#[test]
fn round_trip_via_segment_reader_yields_same_records() {
    let session = SessionId::new(42);
    let mut rec = Recorder::new(session);
    let mut disk = Disk::new();
    let mut w = SegmentWriter::new(DEFAULT_MAX_SEGMENT_BYTES);
    let payloads: Vec<Vec<u8>> = (0..5).map(|i| vec![i as u8; 4]).collect();
    for p in &payloads {
        let made = rec.record(RecordKind::Tick, p.clone(), 0, 0);
        disk.append(&mut w, 42, &archive_of(&made));
        record(&mut rec, RecordKind::Tick, p.clone());
    }
    let all = disk.reader(42).read_all().unwrap();
    assert_eq!(all.len(), 5);
    for (i, a) in all.iter().enumerate() {
        assert_eq!(number_in(&a[8..]), i as u64);
        assert_eq!(number_in(a), 42);
        assert_eq!(&a[16..], &payloads[i][..]);
    }
}

#[test]
fn rotation_at_size_threshold_preserves_sequence() {
    let mut rec = Recorder::new(SessionId::new(1));
    let mut disk = Disk::new();
    let mut w = SegmentWriter::new(32);
    for i in 0..6u8 {
        let made = rec.record(RecordKind::Tick, vec![i; 8], 0, 0);
        disk.append(&mut w, 1, &archive_of(&made));
        record(&mut rec, RecordKind::Tick, vec![i; 8]);
    }
    let reader = disk.reader(1);
    assert!(reader.segment_count() >= 2);
    let all = reader.read_all().unwrap();
    let seqs: Vec<u64> = all.iter().map(|a| number_in(&a[8..])).collect();
    assert_eq!(seqs, vec![0, 1, 2, 3, 4, 5]);
}

#[test]
fn a_number_is_taken_once_the_record_is_on_disk() {
    let mut rec = Recorder::with_redis(SessionId::new(1));
    rec.settle(10, RecordOutcome::DiskFailed);
    assert_eq!((rec.next_sequence_no(), rec.bytes_written()), (0, 0));
    rec.settle(10, RecordOutcome::StreamFailed);
    assert_eq!((rec.next_sequence_no(), rec.bytes_written()), (1, 10));
    rec.settle(10, RecordOutcome::Recorded);
    assert_eq!((rec.next_sequence_no(), rec.bytes_written()), (2, 20));
    assert_eq!(rec.records_appended(), 2);
    let cfg = RecorderConfig::default();
    assert_eq!(cfg.segment_dir, "./replay");
    assert_eq!(cfg.max_segment_bytes, 1_073_741_824);
}

#[test]
fn segment_io_carries_path_and_source() {
    let e = ReplayError::segment_io("\"/tmp/seg-0001.rkyv\"".to_string(), "denied".to_string());
    let s = e.to_text();
    assert!(s.contains("seg-0001.rkyv"));
    assert!(s.contains("denied"));
}

#[test]
fn sequence_invariant_renders_three_pieces() {
    let e = ReplayError::SequenceInvariant {
        session: 20251130,
        expected: 7,
        got: 9,
    };
    let s = e.to_text();
    assert!(s.contains("20251130"));
    assert!(s.contains("expected sequence_no = 7"));
    assert!(s.contains("got 9"));
}

#[test]
fn seek_not_found_carries_target() {
    let e = ReplayError::SeekNotFound { target: 42 };
    assert!(e.to_text().contains("42"));
}

#[test]
fn every_error_has_its_words() {
    let m = || "why".to_string();
    assert_eq!(ReplayError::Decode(m()).to_text(), "replay rkyv decode failed: why");
    assert_eq!(ReplayError::Bus(m()).to_text(), "replay Redis stream error: why");
    assert_eq!(ReplayError::BadCommand(m()).to_text(), "replay command malformed: why");
    assert_eq!(ReplayError::Config(m()).to_text(), "replay configuration error: why");
}

#[test]
fn canonical_records_are_reproducible() {
    assert_eq!(ANCHOR_MONOTONIC_NS, 5_000_000);
    let r = canonical_record(20251130, 3);
    assert_eq!(r.sequence_no, 3);
    assert_eq!(r.kind, RecordKind::RiskDecision);
    assert_eq!(r.monotonic_ns, 5_000_000 + 3 * TICK_GAP_NS);
    assert_eq!(r.wallclock_utc, ANCHOR_WALLCLOCK_NS + 3_000_000);
    assert_eq!(r.payload, payload_for(3, 5));
    assert_eq!(&r.payload[..12], &[0, 0, 0, 0, 0, 0, 0, 3, 5, 5, 5, 5]);
    let x: u64 = 3u64.wrapping_mul(0x9E37_79B9_7F4A_7C15) ^ 5;
    let y: u64 = (x ^ (x >> 27)).wrapping_mul(0x94D0_49BB_1331_11EB);
    assert_eq!(&r.payload[12..], &(y as u32).to_be_bytes());
    assert_eq!(kind_for_index(18), RecordKind::AIDecision(AISource::Ranking));
    assert_eq!(kind_discriminant(&kind_for_index(19)), 12);
}

fn canonical_player(seed: u64) -> Player {
    let session: Vec<ReplayRecord> = (0..20).map(|i| canonical_record(7, i)).collect();
    Player::from_records(SessionId::new(7), session, ReplaySpeed::Max, seed).unwrap()
}

fn run(seed: u64) -> PlayResult {
    play_once(&mut canonical_player(seed), 16)
}

#[test]
fn two_runs_of_a_session_agree() {
    let a = run(DEFAULT_SEED);
    let b = run(DEFAULT_SEED);
    assert_eq!(diff_streams(&a, &b), Ok(20));
    assert_eq!(a.rng_samples.len(), 16);
    assert_eq!(a.histogram.len(), LABELS);
    assert_eq!(a.histogram[label_index(&RecordKind::Tick)], 4);
    assert_eq!(a.histogram[label_index(&RecordKind::Fill)], 2);
    assert_eq!(a.histogram[label_index(&RecordKind::OrderBook)], 0);
    assert_eq!(RNG_COMPARE_SAMPLES, 1024);
}

#[test]
fn every_difference_is_named() {
    let a = run(1);
    let mut b = run(1);
    b.records.pop();
    assert_eq!(
        diff_streams(&a, &b),
        Err(Divergence::RecordCount { run1: 20, run2: 19 })
    );
    let mut b = run(1);
    b.histogram[0] += 1;
    assert_eq!(diff_streams(&a, &b), Err(Divergence::Histogram));
    let mut b = run(1);
    b.rng_samples[3] ^= 1;
    assert_eq!(
        diff_streams(&a, &b),
        Err(Divergence::RngStream {
            at: Some(3),
            run1: a.rng_samples[3],
            run2: b.rng_samples[3],
        })
    );
    let mut b = run(1);
    b.records[11].payload[0] ^= 1;
    assert_eq!(diff_streams(&a, &b), Err(Divergence::Record { at: 11 }));
}

#[test]
fn kinds_have_labels() {
    assert_eq!(kind_label(&RecordKind::Tick), "Tick");
    assert_eq!(
        kind_label(&RecordKind::AIDecision(AISource::Ranking)),
        "AIDecision/Ranking"
    );
}

fn tick_record() -> ReplayRecord {
    let tick = Tick {
        correlation_id: [0u8; 16],
        symbol: 9,
        exchange: 1,
        ltp_paise: -250,
        bid_paise: 240,
        ask_paise: 260,
        ltq: 1,
        total_buy_qty: 2,
        total_sell_qty: 3,
        ts_exchange_ns: 4,
        ts_recv_ns: 5,
    };
    ReplayRecord {
        session_id: 1,
        sequence_no: 0,
        monotonic_ns: 0,
        wallclock_utc: 0,
        kind: RecordKind::Tick,
        payload: tick_to_raw_bytes(&tick).to_vec(),
    }
}

#[test]
fn binary_ticks_go_out_twice() {
    let r = tick_record();
    let payload = r.payload.clone();
    assert_eq!(symbol_in(&r), Some(9));
    assert_eq!(fmt_kind(&r), "Tick");
    assert_eq!(
        publications(r, Some("SBIN".to_string())),
        vec![
            Publication::Raw {
                subject: "md.tick.bin.SBIN".to_string(),
                payload,
            },
            Publication::TickView {
                subject: "md.tick.SBIN".to_string(),
                symbol: "SBIN".to_string(),
                ltp_paise: -250,
                bid_paise: 240,
                ask_paise: 260,
                ts_recv_ns: 5,
            },
        ]
    );
}

#[test]
fn other_payloads_go_out_under_their_kind() {
    let mut r = tick_record();
    r.payload.pop();
    assert_eq!(symbol_in(&r), None);
    let payload = r.payload.clone();
    assert_eq!(
        publications(r, None),
        vec![Publication::Raw {
            subject: "md.tick.1".to_string(),
            payload,
        }]
    );
    assert_eq!(raw_subject(RecordKind::Fill), "exec.fill.0");
    assert_eq!(raw_subject(RecordKind::AIDecision(AISource::Regime)), "ai.replay");
}

#[test]
fn unknown_symbols_have_a_name_too() {
    match &publications(tick_record(), None)[0] {
        Publication::Raw { subject, .. } => assert_eq!(subject, "md.tick.bin.UNKNOWN"),
        other => panic!("wrong message: {other:?}"),
    }
}

#[test]
fn empty_sessions_are_answered_with_the_others() {
    assert_eq!(
        empty_session_text(5, Some(vec![1, 22])),
        "Session 5 has 0 records. Available sessions: 1, 22"
    );
    assert_eq!(
        empty_session_text(5, Some(vec![])),
        "Session 5 has 0 records. Available sessions: (no sessions found)"
    );
    assert_eq!(
        empty_session_text(5, None),
        "Session 5 has 0 records. Available sessions: (failed to list sessions)"
    );
}

fn words(line: &str) -> Vec<String> {
    line.split_whitespace().map(|w| w.to_string()).collect()
}

#[test]
fn command_lines_are_read() {
    assert_eq!(parse_args(&words("list")), Ok(Args::List { dir: None }));
    assert_eq!(
        parse_args(&words("info --dir a 7")),
        Ok(Args::Info {
            dir: Some("a".to_string()),
            session_id: 7,
        })
    );
    assert_eq!(
        parse_args(&words("--dir a --dir b dump 8")),
        Ok(Args::Dump {
            dir: Some("b".to_string()),
            session_id: 8,
        })
    );
    for (word, speed) in [("x10", ReplaySpeed::X10), ("max", ReplaySpeed::Max), ("?", ReplaySpeed::X1)]
    {
        assert_eq!(
            parse_args(&words(&format!("play 9 {word}"))),
            Ok(Args::Play {
                dir: None,
                session_id: 9,
                speed,
            })
        );
    }
    assert_eq!(parse_args(&words("nonsense -h")), Ok(Args::Help));
}

#[test]
fn bad_command_lines_are_answered() {
    let complaint = |line: &str| parse_args(&words(line)).unwrap_err();
    assert_eq!(complaint(""), "missing command (try `hedge-replay --help`)");
    assert_eq!(complaint("list --dir"), "--dir requires a value");
    assert_eq!(complaint("info"), "info requires <session_id>");
    assert_eq!(complaint("stop"), "unknown command: stop");
    assert_eq!(
        complaint("dump x"),
        "invalid session_id: invalid digit found in string"
    );
    assert_eq!(
        complaint("dump 18446744073709551616"),
        "invalid session_id: number too large to fit in target type"
    );
    let empty = vec!["play".to_string(), String::new()];
    assert_eq!(
        parse_args(&empty).unwrap_err(),
        "invalid session_id: cannot parse integer from empty string"
    );
}

#[test]
fn flags_are_read() {
    assert_eq!(
        parse_canonical_args(&words("")),
        Ok(Some(Flags {
            path: DEFAULT_DIR.to_string(),
            session_id: DEFAULT_SESSION_ID,
            number: DEFAULT_RECORD_COUNT,
        }))
    );
    assert_eq!(
        parse_canonical_args(&words("--records 5 --out d --session-id 6")),
        Ok(Some(Flags {
            path: "d".to_string(),
            session_id: 6,
            number: 5,
        }))
    );
    assert_eq!(
        parse_regression_args(&words("--dir d --seed 4")),
        Ok(Some(Flags {
            path: "d".to_string(),
            session_id: DEFAULT_SESSION_ID,
            number: 4,
        }))
    );
    assert_eq!(parse_regression_args(&words("--help")), Ok(None));
    let complaint = |line: &str| parse_regression_args(&words(line)).unwrap_err();
    assert_eq!(complaint("--seed"), "--seed requires a value");
    assert_eq!(complaint("--dir"), "--dir requires a value");
    assert_eq!(
        complaint("--seed z"),
        "invalid --seed: invalid digit found in string"
    );
    assert_eq!(complaint("--out d"), "unknown argument: --out");
}

#[test]
fn sessions_are_listed_one_to_a_line() {
    assert_eq!(list_report(&vec![7, 20], "d"), vec!["7", "20"]);
    assert_eq!(
        list_report(&vec![], "d"),
        vec!["(no sessions recorded under d)"]
    );
}

#[test]
fn sessions_are_described() {
    assert_eq!(
        info_report(9, 2, &records(3)),
        vec![
            "session_id    : 9",
            "segments      : 2",
            "records       : 3",
            "first_seq     : 0",
            "first_mono_ns : 0",
            "last_seq      : 2",
            "last_mono_ns  : 2000000",
        ]
    );
    assert_eq!(
        info_report(9, 0, &records(0)),
        vec!["session_id    : 9", "segments      : 0", "records       : 0"]
    );
}

#[test]
fn records_are_described_in_columns() {
    let r = rec_at(12, 3_000_000);
    let shown = format!("{:>8} {:>20} {} (payload: {} bytes)", 12, 3_000_000, "Tick", 1);
    assert_eq!(dump_line(&r), shown);
    let wide = rec_at(u64::MAX, u64::MAX);
    let shown = format!("{} {} Tick (payload: 1 bytes)", u64::MAX, u64::MAX);
    assert_eq!(dump_line(&wide), shown);
}

#[test]
fn records_are_read_one_by_one_over_all_segments() {
    let mut first: Vec<u8> = vec![];
    write_framed(&mut first, &[1]);
    write_framed(&mut first, &[2, 2]);
    let mut third: Vec<u8> = vec![];
    write_framed(&mut third, &[3]);
    let mut reader = SegmentReader::new(vec![first, Vec::new(), third]);
    assert_eq!(reader.segment_count(), 3);
    assert_eq!(reader.next_record(), Ok(Some(vec![1])));
    assert_eq!(reader.next_record(), Ok(Some(vec![2, 2])));
    assert_eq!(reader.next_record(), Ok(Some(vec![3])));
    assert_eq!(reader.next_record(), Ok(None));
    assert_eq!(reader.next_record(), Ok(None));
    assert_eq!(reader.segment_count(), 3);
}

#[test]
fn a_fault_uses_its_segment_up() {
    let mut next: Vec<u8> = vec![];
    write_framed(&mut next, &[7]);
    let mut reader = SegmentReader::new(vec![vec![0, 0], next]);
    assert_eq!(reader.next_record(), Err(FrameError::TruncatedPrefix));
    assert_eq!(reader.next_record(), Ok(Some(vec![7])));
    assert_eq!(reader.read_all(), Ok(vec![]));
}

#[test]
fn timing_is_shown_for_the_first_records() {
    let short = vec![rec_at(0, 5), rec_at(1, 12)];
    assert_eq!(
        timing_report(&short),
        vec![
            "Total records: 2",
            "Record 0: sequence_no=0, monotonic_ns=5",
            "Record 1: sequence_no=1, monotonic_ns=12",
            "  Delta: 7",
            "No more records.",
        ]
    );
    let long: Vec<ReplayRecord> = (0..12).map(|i| rec_at(i, i * 10)).collect();
    let lines = timing_report(&long);
    assert_eq!(lines.len(), 20);
    assert_eq!(lines[0], "Total records: 12");
    assert_eq!(lines[19], "  Delta: 10");
    assert_eq!(timing_report(&vec![]), vec!["Total records: 0", "No more records."]);
}

#[test]
fn records_are_counted_by_kind() {
    let mut records = vec![rec_at(0, 0), rec_at(1, 0), rec_at(2, 0), rec_at(3, 0)];
    records[1].kind = RecordKind::AIDecision(AISource::Regime);
    records[3].kind = RecordKind::AIDecision(AISource::Other);
    let lines = count_report(&records);
    assert_eq!(lines, vec!["Tick: 2", "AIDecision(Regime): 1", "AIDecision(Other): 1"]);
    assert_eq!(
        format!("AIDecision(Regime): {}", 1),
        format!("{:?}: {}", records[1].kind, 1)
    );
    assert!(count_report(&vec![]).is_empty());
}
