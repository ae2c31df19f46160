//! How long a stage took, and who is told.
use crate::base::bounded::BoundedQueue;
use crate::base::schema::{LatencyRecord, Stage};
use crate::base::types::{correlation_bytes, CorrelationId};
use crate::base::wire::be_bytes;
use crate::obs::correlation::{hex, hex_text};
use crate::obs::metrics::{histogram_for, histogram_of, Metric};
use vstd::prelude::*;
use vstd::string::StringExecFns;

verus! {

/// Whether a latency breaks a budget. Without a budget none does.
pub open spec fn breaks(elapsed_ns: u64, budget_ns: u64) -> bool {
    budget_ns > 0 && elapsed_ns > budget_ns
}

/// Whether a record says how long a stage took.
pub open spec fn records(
    record: LatencyRecord,
    stage: Stage,
    correlation_id: CorrelationId,
    elapsed_ns: u64,
    budget_ns: u64,
) -> bool {
    &&& record.correlation_id@ == be_bytes(correlation_id.0 as nat, 16)
    &&& record.stage == stage.number()
    &&& record.nanos == elapsed_ns
    &&& record.budget_nanos == budget_ns
    &&& record.breach == breaks(elapsed_ns, budget_ns)
}

/// The record of how long a stage took.
pub fn latency_record(
    stage: Stage,
    correlation_id: CorrelationId,
    elapsed_ns: u64,
    budget_ns: u64,
) -> (record: LatencyRecord)
    ensures
        records(record, stage, correlation_id, elapsed_ns, budget_ns),
{
    LatencyRecord {
        correlation_id: correlation_bytes(correlation_id),
        stage: stage.as_u8(),
        nanos: elapsed_ns,
        budget_nanos: budget_ns,
        breach: budget_ns > 0 && elapsed_ns > budget_ns,
    }
}

/// Who is told of latencies. Each emitter says itself what it does with a record.
pub trait LatencyEmitter: Sized {
    /// What the emitter may be after it was told of a record.
    spec fn takes_record(
        before: Self,
        after: Self,
        stage: Stage,
        record: LatencyRecord,
    ) -> bool;

    /// What the emitter may be after it was told of a broken budget.
    spec fn takes_breach(
        before: Self,
        after: Self,
        stage: Stage,
        record: LatencyRecord,
    ) -> bool;

    fn emit_record(&mut self, stage: Stage, record: &LatencyRecord)
        ensures
            Self::takes_record(*old(self), *final(self), stage, *record),
    ;

    fn emit_breach(&mut self, stage: Stage, record: &LatencyRecord)
        ensures
            Self::takes_breach(*old(self), *final(self), stage, *record),
    ;
}

/// Tells nobody.
#[derive(Clone, Copy, Debug)]
pub struct NoopEmitter;

impl LatencyEmitter for NoopEmitter {
    open spec fn takes_record(
        before: Self,
        after: Self,
        stage: Stage,
        record: LatencyRecord,
    ) -> bool {
        after == before
    }

    open spec fn takes_breach(
        before: Self,
        after: Self,
        stage: Stage,
        record: LatencyRecord,
    ) -> bool {
        after == before
    }

    fn emit_record(&mut self, stage: Stage, record: &LatencyRecord) {
    }

    fn emit_breach(&mut self, stage: Stage, record: &LatencyRecord) {
    }
}

/// Keeps what it is told, as far as there is room.
#[derive(Clone, Debug)]
pub struct RecorderEmitter {
    pub records: BoundedQueue<(Stage, LatencyRecord)>,
    pub breaches: BoundedQueue<(Stage, LatencyRecord)>,
}

/// Whether a queue took one more item, or was full and is as it was.
pub open spec fn queued(
    before: BoundedQueue<(Stage, LatencyRecord)>,
    after: BoundedQueue<(Stage, LatencyRecord)>,
    stage: Stage,
    record: LatencyRecord,
) -> bool {
    &&& after.bound() == before.bound()
    &&& after@ == if before@.len() < before.bound() {
        before@.push((stage, record))
    } else {
        before@
    }
}

impl RecorderEmitter {
    pub fn with_capacity(capacity: usize) -> (e: RecorderEmitter)
        ensures
            e.records@ == Seq::<(Stage, LatencyRecord)>::empty(),
            e.breaches@ == Seq::<(Stage, LatencyRecord)>::empty(),
            e.records.bound() == capacity,
            e.breaches.bound() == capacity,
    {
        RecorderEmitter {
            records: BoundedQueue::with_capacity(capacity),
            breaches: BoundedQueue::with_capacity(capacity),
        }
    }
}

impl Default for RecorderEmitter {
    fn default() -> (e: RecorderEmitter)
        ensures
            e.records@ == Seq::<(Stage, LatencyRecord)>::empty(),
            e.breaches@ == Seq::<(Stage, LatencyRecord)>::empty(),
            e.records.bound() == 1024,
            e.breaches.bound() == 1024,
    {
        RecorderEmitter::with_capacity(1024)
    }
}

impl LatencyEmitter for RecorderEmitter {
    open spec fn takes_record(
        before: Self,
        after: Self,
        stage: Stage,
        record: LatencyRecord,
    ) -> bool {
        queued(before.records, after.records, stage, record) && after.breaches == before.breaches
    }

    open spec fn takes_breach(
        before: Self,
        after: Self,
        stage: Stage,
        record: LatencyRecord,
    ) -> bool {
        queued(before.breaches, after.breaches, stage, record) && after.records == before.records
    }

    fn emit_record(&mut self, stage: Stage, record: &LatencyRecord) {
        let _ = self.records.push((stage, *record));
    }

    fn emit_breach(&mut self, stage: Stage, record: &LatencyRecord) {
        let _ = self.breaches.push((stage, *record));
    }
}

/// Whether an emitter was told of a record once, and then of the broken budget
/// where the record shows one.
pub open spec fn told<E: LatencyEmitter>(
    before: E,
    after: E,
    stage: Stage,
    record: LatencyRecord,
) -> bool {
    if record.breach {
        exists|between: E|
            #![trigger E::takes_record(before, between, stage, record)]
            E::takes_record(before, between, stage, record) && E::takes_breach(
                between,
                after,
                stage,
                record,
            )
    } else {
        E::takes_record(before, after, stage, record)
    }
}

/// Tell an emitter of a record.
pub fn tell<E: LatencyEmitter>(sink: &mut E, stage: Stage, record: &LatencyRecord)
    ensures
        told(*old(sink), *final(sink), stage, *record),
{
    sink.emit_record(stage, record);
    if record.breach {
        sink.emit_breach(stage, record);
    }
}

/// What the measuring of a stage came to.
#[derive(Clone, Copy, Debug, PartialEq, Eq)]
pub struct LatencyReport {
    pub record: LatencyRecord,
    /// The histogram that the latency goes to.
    pub histogram: Option<Metric>,
}

/// Measures one stage. Times are in nanoseconds of a clock that never goes back.
#[derive(Debug)]
pub struct LatencyTracer {
    stage: Stage,
    correlation_id: CorrelationId,
    budget_ns: u64,
    started_ns: u64,
    armed: bool,
}

/// What a tracer measures. One that is not armed was given up.
pub struct TracerModel {
    pub stage: Stage,
    pub correlation_id: CorrelationId,
    pub budget_ns: u64,
    pub started_ns: u64,
    pub armed: bool,
}

impl TracerModel {
    /// The time since the start.
    pub open spec fn elapsed(self, now_ns: u64) -> u64 {
        if now_ns > self.started_ns {
            (now_ns - self.started_ns) as u64
        } else {
            0
        }
    }
}

impl View for LatencyTracer {
    type V = TracerModel;

    closed spec fn view(&self) -> TracerModel {
        TracerModel {
            stage: self.stage,
            correlation_id: self.correlation_id,
            budget_ns: self.budget_ns,
            started_ns: self.started_ns,
            armed: self.armed,
        }
    }
}

impl LatencyTracer {
    /// Start to measure a stage. A budget of zero is none.
    pub fn start(
        stage: Stage,
        correlation_id: CorrelationId,
        budget_ns: u64,
        now_ns: u64,
    ) -> (t: LatencyTracer)
        ensures
            t@ == (TracerModel {
                stage,
                correlation_id,
                budget_ns,
                started_ns: now_ns,
                armed: true,
            }),
    {
        LatencyTracer { stage, correlation_id, budget_ns, started_ns: now_ns, armed: true }
    }

    /// Give the measuring up.
    pub fn cancel(self) -> (t: LatencyTracer)
        ensures
            t@ == (TracerModel { armed: false, ..self@ }),
    {
        LatencyTracer { armed: false, ..self }
    }

    pub fn stage(&self) -> (s: Stage)
        ensures
            s == self@.stage,
    {
        self.stage
    }

    /// The time since the start.
    pub fn elapsed_ns(&self, now_ns: u64) -> (ns: u64)
        ensures
            ns == self@.elapsed(now_ns),
    {
        if now_ns > self.started_ns {
            now_ns - self.started_ns
        } else {
            0
        }
    }

    /// End the measuring: the emitter is told once. Where it was given up, nobody is
    /// told.
    pub fn finish<E: LatencyEmitter>(self, now_ns: u64, sink: &mut E) -> (report: Option<
        LatencyReport,
    >)
        ensures
            match report {
                Some(report) => {
                    &&& self@.armed
                    &&& records(
                        report.record,
                        self@.stage,
                        self@.correlation_id,
                        self@.elapsed(now_ns),
                        self@.budget_ns,
                    )
                    &&& report.histogram == histogram_of(self@.stage)
                    &&& told(*old(sink), *final(sink), self@.stage, report.record)
                },
                None => !self@.armed && *final(sink) == *old(sink),
            },
    {
        if !self.armed {
            return None;
        }
        let elapsed: u64 = self.elapsed_ns(now_ns);
        let record = latency_record(self.stage, self.correlation_id, elapsed, self.budget_ns);
        tell(sink, self.stage, &record);
        Some(LatencyReport { record, histogram: histogram_for(self.stage) })
    }
}

/// A latency record as it is published.
#[derive(Clone, Debug, PartialEq, Eq)]
pub struct LatencyRecordJson {
    pub correlation_id_hex: String,
    pub stage: String,
    pub nanos: u64,
    pub budget_nanos: u64,
    pub breach: bool,
}

impl LatencyRecordJson {
    /// The published form of a record.
    pub fn from_fb(record: &LatencyRecord, stage: Stage) -> (j: LatencyRecordJson)
        ensures
            j.correlation_id_hex@ == hex(record.correlation_id@),
            j.stage@ == stage.name(),
            j.nanos == record.nanos,
            j.budget_nanos == record.budget_nanos,
            j.breach == record.breach,
    {
        LatencyRecordJson {
            correlation_id_hex: hex_text(record.correlation_id.as_slice()),
            stage: String::from_str(stage.as_str()),
            nanos: record.nanos,
            budget_nanos: record.budget_nanos,
            breach: record.breach,
        }
    }
}

/// Each measured stage leaves one record with a recorder that has room, and one
/// breach where the budget was broken.
pub proof fn law_one_record_per_stage(
    before: RecorderEmitter,
    after: RecorderEmitter,
    stage: Stage,
    record: LatencyRecord,
)
    requires
        told(before, after, stage, record),
        before.records@.len() < before.records.bound(),
        before.breaches@.len() < before.breaches.bound(),
    ensures
        after.records@ == before.records@.push((stage, record)),
        after.breaches@ == if record.breach {
            before.breaches@.push((stage, record))
        } else {
            before.breaches@
        },
{
}

/// Without a budget, no latency is a breach.
pub proof fn law_no_budget_no_breach(elapsed_ns: u64)
    ensures
        !breaks(elapsed_ns, 0),
{
}

} // verus!
