//! What is kept of a session and how it is played, in terms of its records.
use crate::base::text::{decimal, number_in, NumberFault};
use crate::base::wire::{be_bytes, be_value, lemma_be_len, lemma_be_round_trip, lemma_spans};
use crate::replay::canonical::{
    canonical_model, canonical_payload, cyclic_kind, kind_number,
};
use crate::replay::playback::kind_name;
use crate::replay::player::{gap_ns, rng_draw, wait_after, PlayerModel, ReplaySpeed};
use crate::replay::record::{
    frame, next_frame, AISource, FrameError, FrameStep, RecordKind, RecordModel,
};
use crate::replay::recorder::{foreign_session, RecordOutcome, RecorderModel};
use crate::replay::regression::{
    agrees, count_at, draws, first_differs, label_of, label_place, rng_after,
};
use crate::replay::report::source_name;
use crate::replay::segments::{
    is_segment_name, next_archive, segment_file_name, session_ids, AppendOutcome, SegmentState,
};
use rand_chacha::ChaCha20Rng;
use vstd::prelude::*;

verus! {

/// At single speed the wait is the time between two records, tenfold it is a tenth,
/// rounded down, and at full speed there is none. Times that run back give none.
pub proof fn law_waits_follow_the_speed(from: u64, to: u64)
    ensures
        to >= from ==> gap_ns(ReplaySpeed::X1, from, to) == to - from,
        to >= from ==> 10 * gap_ns(ReplaySpeed::X10, from, to) <= to - from < 10 * gap_ns(
            ReplaySpeed::X10,
            from,
            to,
        ) + 10,
        to < from ==> gap_ns(ReplaySpeed::X1, from, to) == 0,
        to < from ==> gap_ns(ReplaySpeed::X10, from, to) == 0,
        gap_ns(ReplaySpeed::Max, from, to) == 0,
{
}

/// The wait after a record is up to the one that follows it; after the last there is
/// none.
pub proof fn law_waits_lie_between_records(r: RecordModel, next: RecordModel)
    ensures
        next.monotonic_ns >= r.monotonic_ns ==> wait_after(ReplaySpeed::X1, r, Some(next))
            == next.monotonic_ns - r.monotonic_ns,
        wait_after(ReplaySpeed::Max, r, Some(next)) == 0,
        wait_after(ReplaySpeed::X1, r, None) == 0,
        wait_after(ReplaySpeed::X10, r, None) == 0,
{
}

/// A step hands out the record at the cursor and goes to the next; at the end there
/// is nothing to hand out, and the cursor stays.
pub proof fn law_steps_hand_out_the_next(m: PlayerModel)
    requires
        0 <= m.cursor <= m.records.len(),
    ensures
        m.cursor < m.records.len() ==> m.upcoming() == Some(m.records[m.cursor]),
        m.cursor < m.records.len() ==> m.after_step().cursor == m.cursor + 1,
        m.cursor == m.records.len() ==> m.upcoming() is None && m.after_step() == m,
        m.after_step().records == m.records,
        m.after_step().rng == m.rng,
        m.after_step().session == m.session,
        m.after_step().default_speed == m.default_speed,
{
}

/// A session is sound where every record stands at the place of its number.
pub proof fn law_places_are_numbers(m: PlayerModel)
    requires
        0 <= m.cursor <= m.records.len(),
    ensures
        m.sound() <==> forall|i: int|
            0 <= i < m.records.len() ==> (#[trigger] m.records[i]).sequence_no == i,
{
}

/// Two rows that agree as far as both go differ in their length alone; any others differ
/// at some first place.
pub proof fn law_rows_agree_or_differ<T>(a: Seq<T>, b: Seq<T>, at: int)
    ensures
        first_differs(a, b, at) <==> 0 <= at < a.len() && at < b.len() && a[at] != b[at] && a.take(
            at,
        ) == b.take(at),
        agrees(a, b) && a.len() == b.len() ==> a == b,
        agrees(a, b) && a.len() < b.len() ==> a == b.take(a.len() as int),
        agrees(a, b) ==> !first_differs(a, b, at),
{
    if 0 <= at < a.len() && at < b.len() {
        if first_differs(a, b, at) {
            assert(a.take(at) =~= b.take(at));
        }
        if a.take(at) == b.take(at) {
            assert forall|i: int| 0 <= i < at implies #[trigger] a[i] == b[i] by {
                assert(a.take(at)[i] == b.take(at)[i]);
            }
        }
    }
    if agrees(a, b) && a.len() == b.len() {
        assert(a =~= b);
    }
    if agrees(a, b) && a.len() < b.len() {
        assert(a =~= b.take(a.len() as int));
    }
}

/// What reaches the disk counts: one record, its bytes, and the next number. What
/// does not leaves all as it was.
pub proof fn law_records_on_disk_count(m: RecorderModel, frame: u64)
    ensures
        m.after(frame, RecordOutcome::DiskFailed) == m,
        m.after(frame, RecordOutcome::StreamFailed) == m.after(frame, RecordOutcome::Recorded),
        ({
            let now = m.after(frame, RecordOutcome::Recorded);
            &&& m.bytes_written + frame <= u64::MAX ==> now.bytes_written == m.bytes_written
                + frame
            &&& m.bytes_written + frame > u64::MAX ==> now.bytes_written == u64::MAX
            &&& m.next_seq < u64::MAX ==> now.next_seq == m.next_seq + 1
            &&& m.next_seq == u64::MAX ==> now.next_seq == u64::MAX
            &&& m.records_appended < u64::MAX ==> now.records_appended == m.records_appended + 1
            &&& m.records_appended == u64::MAX ==> now.records_appended == u64::MAX
            &&& now.session == m.session
            &&& now.streaming == m.streaming
        }),
{
}

/// The complaint about a record of another session names that one first.
pub proof fn law_foreign_sessions_are_named(record: u64, recorder: u64)
    ensures
        foreign_session(record, recorder) == "record.session_id ("@ + decimal(record as nat)
            + ") does not match recorder.session_id ("@ + decimal(recorder as nat) + ")"@,
{
}

/// A writer starts with nothing.
pub proof fn law_writers_start_idle()
    ensures
        SegmentState::initial().active_session is None,
        SegmentState::initial().active_segment_idx == 0,
        !SegmentState::initial().file_open,
        SegmentState::initial().active_bytes == 0,
{
}

/// A frame goes to the open file of its session where it fits under the limit, and
/// else to the next one. Another session, or one without an open file, starts with
/// its first file.
pub proof fn law_frames_go_where_they_fit(s: SegmentState, session_id: u64, frame: u64, max: u64)
    requires
        s.active_segment_idx < u32::MAX,
        s.active_bytes + frame <= u64::MAX,
    ensures
        ({
            let next = s.after(session_id, frame, max, AppendOutcome::Written);
            let same = s.active_session == Some(session_id);
            &&& next.active_session == Some(session_id)
            &&& next.file_open
            &&& same && s.file_open && s.active_bytes + frame <= max ==> next.active_segment_idx
                == s.active_segment_idx && next.active_bytes == s.active_bytes + frame
            &&& same && s.file_open && s.active_bytes + frame > max ==> next.active_segment_idx
                == s.active_segment_idx + 1 && next.active_bytes == frame
            &&& !same || !s.file_open ==> next.active_segment_idx == 1 && next.active_bytes
                == frame
        }),
{
}

/// A file that could not be closed is given up, with its session and number. One that
/// could not be opened leaves none open, under the session and number it was to have.
/// A frame that could not be written adds no bytes.
pub proof fn law_failures_add_no_bytes(s: SegmentState, session_id: u64, frame: u64, max: u64)
    requires
        s.active_bytes + frame <= u64::MAX,
    ensures
        ({
            let written = s.after(session_id, frame, max, AppendOutcome::Written);
            let closed = s.after(session_id, frame, max, AppendOutcome::CloseFailed);
            let opened = s.after(session_id, frame, max, AppendOutcome::OpenFailed);
            let failed = s.after(session_id, frame, max, AppendOutcome::WriteFailed);
            &&& !closed.file_open
            &&& closed.active_session == s.active_session
            &&& closed.active_segment_idx == s.active_segment_idx
            &&& closed.active_bytes == s.active_bytes
            &&& !opened.file_open
            &&& failed.active_session == written.active_session
            &&& failed.active_segment_idx == written.active_segment_idx
            &&& failed.active_bytes + frame == written.active_bytes
            &&& failed.file_open
            &&& s.active_session != Some(session_id) || !s.file_open || s.active_bytes + frame > max
                ==> opened.active_session == Some(session_id) && opened.active_segment_idx
                == written.active_segment_idx
            &&& s.active_session == Some(session_id) && !s.file_open ==> opened.active_bytes
                == s.active_bytes
            &&& s.active_session != Some(session_id) ==> opened.active_bytes == 0
        }),
{
}

/// The file of a segment has its number in the name, with four digits at least, and
/// is found again as a segment.
pub proof fn law_segment_files_are_numbered(idx: nat)
    ensures
        ({
            let name = segment_file_name(idx);
            &&& name.len() >= 13
            &&& name.take(4) == seq!['s', 'e', 'g', '-']
            &&& name.skip(name.len() - 5) == seq!['.', 'r', 'k', 'y', 'v']
            &&& name.subrange(4, name.len() - 5) == crate::base::text::padded(idx, 4)
            &&& is_segment_name(name)
        }),
{
    reveal_strlit("seg-");
    reveal_strlit(".rkyv");
    let name = segment_file_name(idx);
    assert(name.take(4) =~= seq!['s', 'e', 'g', '-']);
    assert(name.take(4) =~= "seg-"@);
    assert(name.skip(name.len() - 5) =~= seq!['.', 'r', 'k', 'y', 'v']);
    assert(name.skip(name.len() - 5) =~= ".rkyv"@);
    assert(name.subrange(4, name.len() - 5) =~= crate::base::text::padded(idx, 4));
}

/// A segment is told by how its name begins and ends.
pub proof fn law_segments_are_told_by_name(name: Seq<char>)
    ensures
        is_segment_name(name) <==> {
            let n = name.len();
            &&& n >= 5
            &&& name[0] == 's' && name[1] == 'e' && name[2] == 'g' && name[3] == '-'
            &&& name[n - 5] == '.' && name[n - 4] == 'r' && name[n - 3] == 'k' && name[n - 2] == 'y'
                && name[n - 1] == 'v'
        },
{
    reveal_strlit("seg-");
    reveal_strlit(".rkyv");
    if name.len() >= 5 {
        let head = name.take(4);
        let tail = name.skip(name.len() - 5);
        assert(head[0] == name[0] && head[1] == name[1] && head[2] == name[2] && head[3]
            == name[3]);
        assert(tail[0] == name[name.len() - 5] && tail[1] == name[name.len() - 4] && tail[2]
            == name[name.len() - 3] && tail[3] == name[name.len() - 2] && tail[4]
            == name[name.len() - 1]);
        if name[0] == 's' && name[1] == 'e' && name[2] == 'g' && name[3] == '-' {
            assert(head =~= "seg-"@);
        }
        if tail[0] == '.' && tail[1] == 'r' && tail[2] == 'k' && tail[3] == 'y' && tail[4] == 'v' {
            assert(tail =~= ".rkyv"@);
        }
    }
}

/// A directory whose name is a number is a session, and any other is none.
pub proof fn law_sessions_have_numbers_for_names(names: Seq<Seq<char>>, name: Seq<char>)
    ensures
        session_ids(Seq::<Seq<char>>::empty()).len() == 0,
        forall|n: int|
            #[trigger] number_in(name) == Ok::<int, NumberFault>(n) ==> session_ids(names.push(name))
                == session_ids(names).push(n as u64),
        number_in(name) is Err ==> session_ids(names.push(name)) == session_ids(names),
{
    reveal(Seq::filter_map);
    assert(names.push(name).drop_last() =~= names);
}

/// A frame is four bytes that say how long the archive is, the highest first, and the
/// archive.
pub proof fn law_frames_begin_with_the_length(archive: Seq<u8>)
    requires
        archive.len() < 0x1_0000_0000,
    ensures
        ({
            let f = frame(archive);
            &&& f.len() == archive.len() + 4
            &&& archive.len() == 0x100_0000 * f[0] + 0x1_0000 * f[1] + 0x100 * f[2] + f[3]
            &&& f.skip(4) == archive
        }),
{
    let f = frame(archive);
    lemma_be_len(archive.len(), 4);
    lemma_spans();
    lemma_be_round_trip(archive.len(), 4);
    assert(f.subrange(0, 4) =~= be_bytes(archive.len(), 4));
    assert(f.skip(4) =~= archive);
    crate::base::wire::law_bytes_count_by_place(f, 0);
}

/// Input is cut at the lengths it gives. It ends where nothing is left, and is broken
/// where it ends inside a length or inside an archive.
pub proof fn law_input_is_cut_at_its_lengths(input: Seq<u8>)
    ensures
        input.len() == 0 <==> next_frame(input) is End,
        0 < input.len() < 4 <==> next_frame(input) == FrameStep::Broken(
            FrameError::TruncatedPrefix,
        ),
        input.len() >= 4 ==> {
            let n = 0x100_0000 * input[0] + 0x1_0000 * input[1] + 0x100 * input[2] + input[3];
            &&& input.len() < 4 + n ==> next_frame(input) == FrameStep::Broken(
                FrameError::TruncatedBody,
            )
            &&& input.len() >= 4 + n ==> next_frame(input) == (FrameStep::Archive {
                archive: input.subrange(4, 4 + n),
                rest: input.skip(4 + n),
            })
        },
{
    if input.len() >= 4 {
        assert(input.take(4) =~= input.subrange(0, 4));
        crate::base::wire::law_bytes_count_by_place(input, 0);
    }
}

/// The next archive is the first of the first segment that has one left; a broken
/// segment is reported, and what was left of it is given up.
pub proof fn law_segments_are_read_in_turn(first: Seq<u8>, more: Seq<Seq<u8>>)
    ensures
        next_archive(Seq::<Seq<u8>>::empty()).0 == Ok::<Option<Seq<u8>>, FrameError>(None),
        first.len() == 0 ==> next_archive(seq![first] + more) == next_archive(more),
        next_frame(first) matches FrameStep::Archive { archive, rest } ==> next_archive(
            seq![first] + more,
        ) == (Ok::<Option<Seq<u8>>, FrameError>(Some(archive)), seq![rest] + more),
        next_frame(first) matches FrameStep::Broken(e) ==> next_archive(seq![first] + more) == (
            Err::<Option<Seq<u8>>, FrameError>(e),
            seq![Seq::<u8>::empty()] + more,
        ),
{
    let all = seq![first] + more;
    assert(all.skip(1) =~= more);
    assert(all[0] == first);
    match next_frame(first) {
        FrameStep::Archive { archive, rest } => {
            assert(all.update(0, rest) =~= seq![rest] + more);
        },
        FrameStep::Broken(_) => {
            assert(all.update(0, Seq::empty()) =~= seq![Seq::<u8>::empty()] + more);
        },
        _ => {},
    }
}

/// Kinds have one name each, the same in labels as in lists; a decision's label goes
/// on with its source.
pub proof fn law_labels_are_names(kind: RecordKind, source: AISource)
    ensures
        !(kind is AIDecision) ==> label_of(kind) == kind_name(kind),
        label_of(RecordKind::AIDecision(source)) == kind_name(RecordKind::AIDecision(source))
            + seq!['/'] + source_name(source),
{
    reveal_strlit("AIDecision");
    reveal_strlit("AIDecision/Ranking");
    reveal_strlit("AIDecision/Regime");
    reveal_strlit("AIDecision/News");
    reveal_strlit("AIDecision/Psychology");
    reveal_strlit("AIDecision/Priority");
    reveal_strlit("AIDecision/Journal");
    reveal_strlit("AIDecision/Governance");
    reveal_strlit("AIDecision/Other");
    reveal_strlit("Ranking");
    reveal_strlit("Regime");
    reveal_strlit("News");
    reveal_strlit("Psychology");
    reveal_strlit("Priority");
    reveal_strlit("Journal");
    reveal_strlit("Governance");
    reveal_strlit("Other");
    assert(label_of(RecordKind::AIDecision(source)) =~= kind_name(RecordKind::AIDecision(source))
        + seq!['/'] + source_name(source));
}

/// What each kind is called.
pub proof fn law_kinds_are_called_as_they_are()
    ensures
        kind_name(RecordKind::Tick) == "Tick"@,
        kind_name(RecordKind::OrderBook) == "OrderBook"@,
        kind_name(RecordKind::OpenInterest) == "OpenInterest"@,
        kind_name(RecordKind::NewsEvent) == "NewsEvent"@,
        kind_name(RecordKind::SignalEmitted) == "SignalEmitted"@,
        kind_name(RecordKind::RiskDecision) == "RiskDecision"@,
        kind_name(RecordKind::OrderSubmitted) == "OrderSubmitted"@,
        kind_name(RecordKind::OrderModified) == "OrderModified"@,
        kind_name(RecordKind::OrderCancelled) == "OrderCancelled"@,
        kind_name(RecordKind::Fill) == "Fill"@,
        kind_name(RecordKind::TraderAction) == "TraderAction"@,
        kind_name(RecordKind::MarketConditionSnapshot) == "MarketConditionSnapshot"@,
        forall|source: AISource|
            #[trigger] kind_name(RecordKind::AIDecision(source)) == "AIDecision"@,
        source_name(AISource::Ranking) == "Ranking"@,
        source_name(AISource::Regime) == "Regime"@,
        source_name(AISource::News) == "News"@,
        source_name(AISource::Psychology) == "Psychology"@,
        source_name(AISource::Priority) == "Priority"@,
        source_name(AISource::Journal) == "Journal"@,
        source_name(AISource::Governance) == "Governance"@,
        source_name(AISource::Other) == "Other"@,
{
}

/// Every kind has a place of its own among the labels, and all decisions have one
/// number among the kinds.
pub proof fn law_kinds_have_their_own_places(a: RecordKind, b: RecordKind)
    ensures
        0 <= label_place(a) < 20,
        label_place(a) == label_place(b) <==> a == b,
        0 <= kind_number(a) < 13,
        kind_number(a) == kind_number(b) <==> a == b || (a is AIDecision && b is AIDecision),
        kind_number(a) < kind_number(b) ==> label_place(a) < label_place(b),
{
}

/// A label is counted once for each record that bears it.
pub proof fn law_labels_are_counted(records: Seq<RecordModel>, kind: RecordKind)
    ensures
        count_at(records, label_place(kind)) == records.filter(|r: RecordModel| r.kind == kind).len(),
    decreases records.len(),
{
    reveal(Seq::filter);
    if records.len() > 0 {
        law_labels_are_counted(records.drop_last(), kind);
        law_kinds_have_their_own_places(records.last().kind, kind);
    }
}

/// Draws come one after the other, each from the generator that the last one left.
pub proof fn law_draws_follow_each_other(rng: ChaCha20Rng, n: nat)
    ensures
        draws(rng, n).len() == n,
        draws(rng, n + 1)[0] == rng_draw(rng).0,
        draws(rng, n + 1).skip(1) == draws(rng_draw(rng).1, n),
        rng_after(rng, n + 1) == rng_after(rng_draw(rng).1, n),
    decreases n,
{
    let next = rng_draw(rng).1;
    assert(rng_after(rng, 0) == rng);
    assert forall|i: nat| i <= n implies #[trigger] rng_after(next, i) == rng_after(rng, i + 1) by {
        lemma_draw_later(rng, i);
    }
    assert(draws(rng, n + 1).skip(1) =~= draws(next, n)) by {
        assert forall|i: int| 0 <= i < n implies draws(rng, n + 1).skip(1)[i] == draws(next, n)[i] by {
            assert(rng_after(next, i as nat) == rng_after(rng, (i + 1) as nat));
        }
    }
}

proof fn lemma_draw_later(rng: ChaCha20Rng, n: nat)
    ensures
        rng_after(rng, n + 1) == rng_after(rng_draw(rng).1, n),
    decreases n,
{
    if n > 0 {
        lemma_draw_later(rng, (n - 1) as nat);
    } else {
        assert(rng_after(rng, 0) == rng);
        assert(rng_after(rng_draw(rng).1, 0) == rng_draw(rng).1);
    }
}

/// The kinds of the canonical session come round every ten records: two ticks, then a
/// signal, its check, an order, a change of it, a fill, a cancellation, a ranking and
/// a snapshot.
pub proof fn law_canonical_kinds_come_round(i: int)
    requires
        i >= 0,
    ensures
        cyclic_kind(i + 10) == cyclic_kind(i),
        cyclic_kind(10 * i) is Tick,
        cyclic_kind(10 * i + 1) is Tick,
        cyclic_kind(10 * i + 2) is SignalEmitted,
        cyclic_kind(10 * i + 3) is RiskDecision,
        cyclic_kind(10 * i + 4) is OrderSubmitted,
        cyclic_kind(10 * i + 5) is OrderModified,
        cyclic_kind(10 * i + 6) is Fill,
        cyclic_kind(10 * i + 7) is OrderCancelled,
        cyclic_kind(10 * i + 8) == RecordKind::AIDecision(AISource::Ranking),
        cyclic_kind(10 * i + 9) is MarketConditionSnapshot,
{
}

/// The canonical records are numbered from zero and lie a millisecond apart, the first
/// five milliseconds after the start. A payload has sixteen bytes: the number of the
/// record, the number of its kind four times, and the low four bytes of
/// a number that varies with both.
pub proof fn law_canonical_records_are_laid_out(session_id: u64, i: u64)
    requires
        1_764_493_200_000_000_000 + i * 1_000_000 <= i64::MAX,
    ensures
        ({
            let r = canonical_model(session_id, i);
            &&& r.session_id == session_id
            &&& r.sequence_no == i
            &&& r.monotonic_ns == 5_000_000 + i * 1_000_000
            &&& r.wallclock_utc == 1_764_493_200_000_000_000 + i * 1_000_000
            &&& r.kind == cyclic_kind(i as int)
            &&& r.payload.len() == 16
            &&& be_value(r.payload.take(8)) == i
            &&& forall|k: int| 8 <= k < 12 ==> #[trigger] r.payload[k] == kind_number(r.kind)
            &&& ({
                let x = i.wrapping_mul(0x9E37_79B9_7F4A_7C15) ^ (kind_number(r.kind) as u64);
                r.payload.skip(12) == be_bytes(
                    (x ^ (x >> 27)).wrapping_mul(0x94D0_49BB_1331_11EB) as nat,
                    4,
                )
            })
        }),
{
    let r = canonical_model(session_id, i);
    let kind = kind_number(cyclic_kind(i as int));
    assert(r.payload == canonical_payload(i, kind));
    lemma_be_len(i as nat, 8);
    lemma_be_len(crate::replay::canonical::mixed(i, kind) as nat, 4);
    lemma_spans();
    lemma_be_round_trip(i as nat, 8);
    assert(r.payload.take(8) =~= be_bytes(i as nat, 8));
    assert(r.payload.skip(12) =~= be_bytes(
        crate::replay::canonical::mixed(i, kind) as nat,
        4,
    ));
}

} // verus!
