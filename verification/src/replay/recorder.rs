//! The recorder: numbers the records of one session and keeps count of what was
//! written.
//!
//! Records go to the segment files first and then, where one is attached, to a
//! stream. The caller performs both and reports how far it came.
use crate::base::arith::cap_u64;
use crate::base::text::{decimal, decimal_text};
use crate::base::types::SessionId;
use crate::replay::error::ReplayError;
use crate::replay::player::in_sequence;
use crate::replay::record::{RecordKind, RecordModel, ReplayRecord};
use crate::replay::segments::DEFAULT_MAX_SEGMENT_BYTES;
use vstd::prelude::*;
use vstd::string::StringExecFns;

verus! {

/// Where segments go and how large they get.
#[derive(Clone, Debug, PartialEq, Eq)]
pub struct RecorderConfig {
    pub segment_dir: String,
    pub max_segment_bytes: u64,
}

impl Default for RecorderConfig {
    fn default() -> (cfg: RecorderConfig)
        ensures
            cfg.segment_dir@ == "./replay"@,
            cfg.max_segment_bytes == DEFAULT_MAX_SEGMENT_BYTES,
    {
        RecorderConfig {
            segment_dir: String::from_str("./replay"),
            max_segment_bytes: DEFAULT_MAX_SEGMENT_BYTES,
        }
    }
}

/// How far the writing of a record came.
#[derive(Clone, Copy, Debug, PartialEq, Eq, Structural)]
pub enum RecordOutcome {
    /// It did not reach the segment file.
    DiskFailed,
    /// It reached the segment file but not the stream.
    StreamFailed,
    /// It reached both, or there is no stream.
    Recorded,
}

/// What a recorder holds.
pub struct RecorderModel {
    pub session: u64,
    /// Number of the next record.
    pub next_seq: u64,
    pub bytes_written: u64,
    pub records_appended: u64,
    /// Whether a stream is attached.
    pub streaming: bool,
}

impl RecorderModel {
    /// The model after an attempt to write a frame. A record counts once it is on
    /// disk, whether it reached the stream or not.
    pub open spec fn after(self, frame: u64, outcome: RecordOutcome) -> RecorderModel {
        match outcome {
            RecordOutcome::DiskFailed => self,
            RecordOutcome::StreamFailed | RecordOutcome::Recorded => RecorderModel {
                bytes_written: cap_u64(self.bytes_written + frame) as u64,
                next_seq: cap_u64(self.next_seq + 1) as u64,
                records_appended: cap_u64(self.records_appended + 1) as u64,
                ..self
            },
        }
    }
}

/// The words for a record of another session.
pub open spec fn foreign_session(record: u64, recorder: u64) -> Seq<char> {
    "record.session_id ("@ + decimal(record as nat)
        + ") does not match recorder.session_id ("@ + decimal(recorder as nat) + ")"@
}

/// Numbers the records of one session.
#[derive(Debug)]
pub struct Recorder {
    session_id: SessionId,
    streaming: bool,
    next_seq: u64,
    bytes_written: u64,
    records_appended: u64,
}

impl View for Recorder {
    type V = RecorderModel;

    closed spec fn view(&self) -> RecorderModel {
        RecorderModel {
            session: self.session_id.0,
            next_seq: self.next_seq,
            bytes_written: self.bytes_written,
            records_appended: self.records_appended,
            streaming: self.streaming,
        }
    }
}

impl Recorder {
    /// A recorder that writes to segments only.
    pub fn new(session_id: SessionId) -> (r: Recorder)
        ensures
            r@ == (RecorderModel {
                session: session_id.0,
                next_seq: 0,
                bytes_written: 0,
                records_appended: 0,
                streaming: false,
            }),
    {
        Recorder {
            session_id,
            streaming: false,
            next_seq: 0,
            bytes_written: 0,
            records_appended: 0,
        }
    }

    /// A recorder that also writes to a stream.
    pub fn with_redis(session_id: SessionId) -> (r: Recorder)
        ensures
            r@ == (RecorderModel {
                session: session_id.0,
                next_seq: 0,
                bytes_written: 0,
                records_appended: 0,
                streaming: true,
            }),
    {
        let mut r = Recorder::new(session_id);
        r.attach_redis();
        r
    }

    /// Start writing to a stream as well.
    pub fn attach_redis(&mut self)
        ensures
            final(self)@ == (RecorderModel { streaming: true, ..old(self)@ }),
    {
        self.streaming = true;
    }

    pub fn session_id(&self) -> (id: SessionId)
        ensures
            id.0 == self@.session,
    {
        self.session_id
    }

    /// Number of the next record.
    pub fn next_sequence_no(&self) -> (n: u64)
        ensures
            n == self@.next_seq,
    {
        self.next_seq
    }

    pub fn bytes_written(&self) -> (n: u64)
        ensures
            n == self@.bytes_written,
    {
        self.bytes_written
    }

    pub fn records_appended(&self) -> (n: u64)
        ensures
            n == self@.records_appended,
    {
        self.records_appended
    }

    pub fn has_redis_sink(&self) -> (yes: bool)
        ensures
            yes == self@.streaming,
    {
        self.streaming
    }

    /// The next record, made of an event and the times of its recording.
    pub fn record(
        &self,
        kind: RecordKind,
        payload: Vec<u8>,
        monotonic_ns: u64,
        wallclock_utc: i64,
    ) -> (r: ReplayRecord)
        ensures
            r@ == (RecordModel {
                session_id: self@.session,
                sequence_no: self@.next_seq,
                monotonic_ns,
                wallclock_utc,
                kind,
                payload: payload@,
            }),
    {
        ReplayRecord {
            session_id: self.session_id.0,
            sequence_no: self.next_seq,
            monotonic_ns,
            wallclock_utc,
            kind,
            payload,
        }
    }

    /// Whether a record may be written: it has the next number and is of this
    /// session.
    pub fn record_raw(&self, record: &ReplayRecord) -> (admitted: Result<u64, ReplayError>)
        ensures
            match admitted {
                Ok(n) => record.sequence_no == self@.next_seq && record.session_id
                    == self@.session && n == record.sequence_no,
                Err(ReplayError::SequenceInvariant { session, expected, got }) => {
                    &&& record.sequence_no != self@.next_seq
                    &&& session == self@.session
                    &&& expected == self@.next_seq
                    &&& got == record.sequence_no
                },
                Err(ReplayError::Config(m)) => {
                    &&& record.sequence_no == self@.next_seq
                    &&& record.session_id != self@.session
                    &&& m@ == foreign_session(record.session_id, self@.session)
                },
                Err(_) => false,
            },
    {
        if record.sequence_no != self.next_seq {
            return Err(
                ReplayError::SequenceInvariant {
                    session: self.session_id.0,
                    expected: self.next_seq,
                    got: record.sequence_no,
                },
            );
        }
        if record.session_id != self.session_id.0 {
            let mut m = String::from_str("record.session_id (");
            m.append(decimal_text(record.session_id).as_str());
            m.append(") does not match recorder.session_id (");
            m.append(decimal_text(self.session_id.0).as_str());
            m.append(")");
            return Err(ReplayError::Config(m));
        }
        Ok(self.next_seq)
    }

    /// Take note of how far the writing of a record came; `frame` is its size on
    /// disk.
    pub fn settle(&mut self, frame: u64, outcome: RecordOutcome)
        ensures
            final(self)@ == old(self)@.after(frame, outcome),
    {
        match outcome {
            RecordOutcome::DiskFailed => {},
            RecordOutcome::StreamFailed | RecordOutcome::Recorded => {
                self.bytes_written = self.bytes_written.saturating_add(frame);
                self.next_seq = self.next_seq.saturating_add(1);
                self.records_appended = self.records_appended.saturating_add(1);
            },
        }
    }
}

/// An attempt to write a record, with its size on disk and how far it came.
pub struct Attempt {
    pub record: RecordModel,
    pub frame: u64,
    pub outcome: RecordOutcome,
}

/// The model after a run of attempts.
pub open spec fn after_all(m: RecorderModel, attempts: Seq<Attempt>) -> RecorderModel
    decreases attempts.len(),
{
    if attempts.len() == 0 {
        m
    } else {
        after_all(m, attempts.drop_last()).after(attempts.last().frame, attempts.last().outcome)
    }
}

/// Whether every record of a run was admitted when its turn came.
pub open spec fn all_admitted(m: RecorderModel, attempts: Seq<Attempt>) -> bool
    decreases attempts.len(),
{
    attempts.len() > 0 ==> {
        let now = after_all(m, attempts.drop_last());
        &&& all_admitted(m, attempts.drop_last())
        &&& attempts.last().record.sequence_no == now.next_seq
        &&& attempts.last().record.session_id == now.session
    }
}

/// The records of a run that reached the disk, in order.
pub open spec fn on_disk(attempts: Seq<Attempt>) -> Seq<RecordModel>
    decreases attempts.len(),
{
    if attempts.len() == 0 {
        Seq::empty()
    } else if attempts.last().outcome == RecordOutcome::DiskFailed {
        on_disk(attempts.drop_last())
    } else {
        on_disk(attempts.drop_last()).push(attempts.last().record)
    }
}

/// The next number is always the count of the records on disk.
pub proof fn law_numbers_count_records(m: RecorderModel, attempts: Seq<Attempt>)
    requires
        m.next_seq == m.records_appended,
    ensures
        after_all(m, attempts).next_seq == after_all(m, attempts).records_appended,
    decreases attempts.len(),
{
    if attempts.len() > 0 {
        law_numbers_count_records(m, attempts.drop_last());
    }
}

/// Numbers have no gaps: a record on disk takes the next one, and one that is not
/// leaves it for the next attempt.
pub proof fn law_numbers_have_no_gaps(m: RecorderModel, frame: u64, outcome: RecordOutcome)
    requires
        m.next_seq < u64::MAX,
    ensures
        m.after(frame, outcome).next_seq == if outcome == RecordOutcome::DiskFailed {
            m.next_seq as int
        } else {
            m.next_seq + 1
        },
        m.after(frame, outcome).session == m.session,
{
}

/// What a recorder leaves on disk can be played: however the attempts go, its
/// records are of the session and numbered by their places.
pub proof fn law_recorded_session_is_in_sequence(m: RecorderModel, attempts: Seq<Attempt>)
    requires
        m.next_seq == 0,
        attempts.len() < u64::MAX,
        all_admitted(m, attempts),
    ensures
        in_sequence(on_disk(attempts), on_disk(attempts).len() as int),
        forall|i: int|
            0 <= i < on_disk(attempts).len() ==> (#[trigger] on_disk(attempts)[i]).session_id
                == m.session,
        after_all(m, attempts).next_seq == on_disk(attempts).len(),
        after_all(m, attempts).session == m.session,
        on_disk(attempts).len() <= attempts.len(),
    decreases attempts.len(),
{
    if attempts.len() > 0 {
        law_recorded_session_is_in_sequence(m, attempts.drop_last());
    }
}

} // verus!
