//! What the inspection tool prints.
use crate::base::order::texts;
use crate::base::text::{decimal, decimal_text, join};
use crate::replay::playback::{fmt_kind, kind_name};
use crate::replay::player::record_models;
use crate::replay::record::{AISource, RecordKind, RecordModel, ReplayRecord};
use vstd::prelude::*;
use vstd::string::StringExecFns;

verus! {

/// The lines of a list of sessions.
pub open spec fn list_lines(sessions: Seq<u64>, dir: Seq<char>) -> Seq<Seq<char>> {
    if sessions.len() == 0 {
        seq!["(no sessions recorded under "@ + dir + ")"@]
    } else {
        sessions.map_values(|id: u64| decimal(id as nat))
    }
}

/// List the sessions found under a directory, one to a line.
pub fn list_report(sessions: &Vec<u64>, dir: &str) -> (lines: Vec<String>)
    ensures
        texts(lines@) == list_lines(sessions@, dir@),
{
    let mut lines: Vec<String> = Vec::new();
    if sessions.len() == 0 {
        lines.push(join(join("(no sessions recorded under ", dir).as_str(), ")"));
        assert(texts(lines@) =~= list_lines(sessions@, dir@));
        return lines;
    }
    let mut i: usize = 0;
    while i < sessions.len()
        invariant
            i <= sessions@.len(),
            lines@.len() == i,
            forall|k: int|
                0 <= k < i ==> (#[trigger] lines@[k])@ == decimal(sessions@[k] as nat),
        decreases sessions@.len() - i,
    {
        lines.push(decimal_text(sessions[i]));
        i = i + 1;
    }
    assert(texts(lines@) =~= list_lines(sessions@, dir@));
    lines
}

/// The first and the last record of a session, where it has any.
pub open spec fn ends_lines(records: Seq<RecordModel>) -> Seq<Seq<char>> {
    if records.len() == 0 {
        Seq::empty()
    } else {
        seq![
            "first_seq     : "@ + decimal(records[0].sequence_no as nat),
            "first_mono_ns : "@ + decimal(records[0].monotonic_ns as nat),
            "last_seq      : "@ + decimal(records.last().sequence_no as nat),
            "last_mono_ns  : "@ + decimal(records.last().monotonic_ns as nat),
        ]
    }
}

/// The lines about a session.
pub open spec fn info_lines(session_id: u64, segments: nat, records: Seq<RecordModel>) -> Seq<
    Seq<char>,
> {
    seq![
        "session_id    : "@ + decimal(session_id as nat),
        "segments      : "@ + decimal(segments),
        "records       : "@ + decimal(records.len()),
    ] + ends_lines(records)
}

/// Describe a session: how many segments and records it has, and where they begin
/// and end.
pub fn info_report(session_id: u64, segments: usize, records: &Vec<ReplayRecord>) -> (lines: Vec<
    String,
>)
    ensures
        texts(lines@) == info_lines(session_id, segments as nat, record_models(records@)),
{
    let ghost models = record_models(records@);
    let mut lines: Vec<String> = Vec::new();
    lines.push(join("session_id    : ", decimal_text(session_id).as_str()));
    lines.push(join("segments      : ", decimal_text(segments as u64).as_str()));
    lines.push(join("records       : ", decimal_text(records.len() as u64).as_str()));
    let n: usize = records.len();
    if n > 0 {
        let first = &records[0];
        let last = &records[n - 1];
        assert(models[0] == first@ && models.last() == last@);
        lines.push(join("first_seq     : ", decimal_text(first.sequence_no).as_str()));
        lines.push(join("first_mono_ns : ", decimal_text(first.monotonic_ns).as_str()));
        lines.push(join("last_seq      : ", decimal_text(last.sequence_no).as_str()));
        lines.push(join("last_mono_ns  : ", decimal_text(last.monotonic_ns).as_str()));
    }
    assert(texts(lines@) =~= info_lines(session_id, segments as nat, models));
    lines
}

/// A text set to the right of a column.
pub open spec fn right_aligned(text: Seq<char>, width: nat) -> Seq<char> {
    if text.len() >= width {
        text
    } else {
        Seq::new((width - text.len()) as nat, |i: int| ' ') + text
    }
}

/// Set a text to the right of a column.
fn align_right(text: &str, width: usize) -> (out: String)
    ensures
        out@ == right_aligned(text@, width as nat),
{
    let len: usize = text.unicode_len();
    let mut out = String::new();
    let mut i: usize = len;
    while i < width
        invariant
            len == text@.len(),
            len <= i,
            i <= width || i == len,
            out@ == Seq::new((i - len) as nat, |k: int| ' '),
        decreases width - i,
    {
        out.push(' ');
        i = i + 1;
        assert(out@ =~= Seq::new((i - len) as nat, |k: int| ' '));
    }
    out.append(text);
    assert(out@ =~= right_aligned(text@, width as nat));
    out
}

/// The line of a record.
pub open spec fn record_line(r: RecordModel) -> Seq<char> {
    right_aligned(decimal(r.sequence_no as nat), 8) + " "@ + right_aligned(
        decimal(r.monotonic_ns as nat),
        20,
    ) + " "@ + kind_name(r.kind) + " (payload: "@ + decimal(r.payload.len()) + " bytes)"@
}

/// Describe a record: its number, its time, its kind and the size of its payload.
pub fn dump_line(r: &ReplayRecord) -> (line: String)
    ensures
        line@ == record_line(r@),
{
    let mut line = align_right(decimal_text(r.sequence_no).as_str(), 8);
    line.append(" ");
    line.append(align_right(decimal_text(r.monotonic_ns).as_str(), 20).as_str());
    line.append(" ");
    line.append(fmt_kind(r));
    line.append(" (payload: ");
    line.append(decimal_text(r.payload.len() as u64).as_str());
    line.append(" bytes)");
    line
}

/// How many records the timing report shows.
pub const TIMED_RECORDS: usize = 10;

/// The line of a record in the timing report, and the time since the one before.
pub open spec fn timed_lines(records: Seq<RecordModel>, i: int) -> Seq<Seq<char>> {
    let line = "Record "@ + decimal(i as nat) + ": sequence_no="@ + decimal(
        records[i].sequence_no as nat,
    ) + ", monotonic_ns="@ + decimal(records[i].monotonic_ns as nat);
    if i == 0 {
        seq![line]
    } else {
        seq![
            line,
            "  Delta: "@ + decimal((records[i].monotonic_ns - records[i - 1].monotonic_ns) as nat),
        ]
    }
}

/// The lines of the first `n` records.
pub open spec fn first_timed_lines(records: Seq<RecordModel>, n: nat) -> Seq<Seq<char>>
    decreases n,
{
    if n == 0 {
        Seq::empty()
    } else {
        first_timed_lines(records, (n - 1) as nat) + timed_lines(records, n - 1)
    }
}

/// The lines about the timing of a session.
pub open spec fn timing_lines(records: Seq<RecordModel>) -> Seq<Seq<char>> {
    let total = seq!["Total records: "@ + decimal(records.len())];
    if records.len() < TIMED_RECORDS {
        total + first_timed_lines(records, records.len()) + seq!["No more records."@]
    } else {
        total + first_timed_lines(records, TIMED_RECORDS as nat)
    }
}

/// Describe the timing of a session by its first records. Their times must not run
/// back.
pub fn timing_report(records: &Vec<ReplayRecord>) -> (lines: Vec<String>)
    requires
        forall|i: int|
            0 < i < records@.len() && i < TIMED_RECORDS ==> (#[trigger] records@[i]).monotonic_ns
                >= records@[i - 1].monotonic_ns,
    ensures
        texts(lines@) == timing_lines(record_models(records@)),
{
    let ghost models = record_models(records@);
    let mut lines: Vec<String> = Vec::new();
    lines.push(join("Total records: ", decimal_text(records.len() as u64).as_str()));
    let ghost total = texts(lines@);
    assert(total =~= seq!["Total records: "@ + decimal(models.len())]);
    assert(total + first_timed_lines(models, 0) =~= total);
    let mut i: usize = 0;
    while i < TIMED_RECORDS && i < records.len()
        invariant
            i <= TIMED_RECORDS,
            i <= records@.len(),
            models == record_models(records@),
            forall|k: int|
                0 < k < records@.len() && k < TIMED_RECORDS ==> (
                #[trigger] records@[k]).monotonic_ns >= records@[k - 1].monotonic_ns,
            texts(lines@) == total + first_timed_lines(models, i as nat),
        decreases TIMED_RECORDS - i,
    {
        let r = &records[i];
        let ghost before = texts(lines@);
        assert(models[i as int] == r@);
        let mut line = join("Record ", decimal_text(i as u64).as_str());
        line.append(": sequence_no=");
        line.append(decimal_text(r.sequence_no).as_str());
        line.append(", monotonic_ns=");
        line.append(decimal_text(r.monotonic_ns).as_str());
        lines.push(line);
        if i > 0 {
            let p = &records[i - 1];
            assert(models[i - 1] == p@);
            let delta: u64 = r.monotonic_ns - p.monotonic_ns;
            lines.push(join("  Delta: ", decimal_text(delta).as_str()));
        }
        assert(texts(lines@) =~= before + timed_lines(models, i as int));
        assert(before + timed_lines(models, i as int) =~= total + (first_timed_lines(
            models,
            i as nat,
        ) + timed_lines(models, i as int)));
        i = i + 1;
    }
    if i < TIMED_RECORDS {
        let ghost before = texts(lines@);
        lines.push(String::from_str("No more records."));
        assert(texts(lines@) =~= before + seq!["No more records."@]);
    }
    lines
}

/// The name of a source.
pub open spec fn source_name(source: AISource) -> Seq<char> {
    match source {
        AISource::Ranking => "Ranking"@,
        AISource::Regime => "Regime"@,
        AISource::News => "News"@,
        AISource::Psychology => "Psychology"@,
        AISource::Priority => "Priority"@,
        AISource::Journal => "Journal"@,
        AISource::Governance => "Governance"@,
        AISource::Other => "Other"@,
    }
}

/// The name of a kind, with the source of an AI decision in brackets.
pub open spec fn full_name(kind: RecordKind) -> Seq<char> {
    match kind {
        RecordKind::AIDecision(source) => "AIDecision("@ + source_name(source) + ")"@,
        _ => kind_name(kind),
    }
}

/// The name of a record's kind, with the source of an AI decision in brackets.
fn full_kind(r: &ReplayRecord) -> (name: String)
    ensures
        name@ == full_name(r@.kind),
{
    match r.kind {
        RecordKind::AIDecision(source) => {
            let name = match source {
                AISource::Ranking => "Ranking",
                AISource::Regime => "Regime",
                AISource::News => "News",
                AISource::Psychology => "Psychology",
                AISource::Priority => "Priority",
                AISource::Journal => "Journal",
                AISource::Governance => "Governance",
                AISource::Other => "Other",
            };
            join(join("AIDecision(", name).as_str(), ")")
        },
        _ => String::from_str(fmt_kind(r)),
    }
}

/// How many records are of a kind.
pub open spec fn count_of(records: Seq<RecordModel>, kind: RecordKind) -> nat
    decreases records.len(),
{
    if records.len() == 0 {
        0
    } else {
        count_of(records.drop_last(), kind) + if records.last().kind == kind {
            1nat
        } else {
            0
        }
    }
}

/// The lines of the kinds that come up first in the first `n` records, in that order,
/// with how often they come up in all.
pub open spec fn kind_lines(records: Seq<RecordModel>, n: nat) -> Seq<Seq<char>>
    decreases n,
{
    if n == 0 {
        Seq::empty()
    } else {
        let kind = records[n - 1].kind;
        kind_lines(records, (n - 1) as nat) + if count_of(records.take(n - 1), kind) == 0 {
            seq![full_name(kind) + ": "@ + decimal(count_of(records, kind))]
        } else {
            Seq::empty()
        }
    }
}

/// How many of the first `n` records are of a kind.
fn count_kind(records: &Vec<ReplayRecord>, n: usize, kind: RecordKind) -> (count: usize)
    requires
        n <= records@.len(),
    ensures
        count == count_of(record_models(records@).take(n as int), kind),
{
    let ghost models = record_models(records@);
    let mut count: usize = 0;
    let mut i: usize = 0;
    while i < n
        invariant
            i <= n <= records@.len(),
            models == record_models(records@),
            count <= i,
            count == count_of(models.take(i as int), kind),
        decreases n - i,
    {
        assert(models.take(i + 1).drop_last() =~= models.take(i as int));
        assert(models.take(i + 1).last() == records@[i as int]@);
        if records[i].kind == kind {
            count = count + 1;
        }
        i = i + 1;
    }
    count
}

/// Count the records of a session by kind, in the order in which the kinds come up.
pub fn count_report(records: &Vec<ReplayRecord>) -> (lines: Vec<String>)
    ensures
        texts(lines@) == kind_lines(record_models(records@), records@.len()),
{
    let ghost models = record_models(records@);
    let mut lines: Vec<String> = Vec::new();
    assert(texts(lines@) =~= kind_lines(models, 0));
    let mut i: usize = 0;
    while i < records.len()
        invariant
            i <= records@.len(),
            models == record_models(records@),
            texts(lines@) == kind_lines(models, i as nat),
        decreases records@.len() - i,
    {
        let kind: RecordKind = records[i].kind;
        let ghost before = texts(lines@);
        assert(models[i as int] == records@[i as int]@);
        if count_kind(records, i, kind) == 0 {
            let all: usize = count_kind(records, records.len(), kind);
            assert(models.take(models.len() as int) =~= models);
            let mut line = full_kind(&records[i]);
            line.append(": ");
            line.append(decimal_text(all as u64).as_str());
            lines.push(line);
            assert(texts(lines@) =~= before + seq![
                full_name(kind) + ": "@ + decimal(count_of(models, kind)),
            ]);
        } else {
            assert(before + Seq::<Seq<char>>::empty() =~= before);
        }
        i = i + 1;
    }
    lines
}

} // verus!
