//! Recorded events and the framing of their archives.
use crate::base::wire::{
    be_bytes, be_value, get_u32_be, lemma_be_len, lemma_be_round_trip, lemma_spans, put_be,
};
use vstd::prelude::*;

verus! {

/// Which pipeline an AI decision came from.
#[derive(Clone, Copy, Debug, PartialEq, Eq, Hash, Structural)]
pub enum AISource {
    Ranking,
    Regime,
    News,
    Psychology,
    Priority,
    Journal,
    Governance,
    Other,
}

/// What kind of event a record holds.
#[derive(Clone, Copy, Debug, PartialEq, Eq, Hash, Structural)]
pub enum RecordKind {
    Tick,
    OrderBook,
    OpenInterest,
    NewsEvent,
    SignalEmitted,
    RiskDecision,
    OrderSubmitted,
    OrderModified,
    OrderCancelled,
    Fill,
    TraderAction,
    AIDecision(AISource),
    MarketConditionSnapshot,
}

/// One recorded event. The payload is kept as it came.
#[derive(Clone, Debug, PartialEq, Eq)]
pub struct ReplayRecord {
    pub session_id: u64,
    /// Place in the session, from zero without gaps.
    pub sequence_no: u64,
    /// Monotonic time of the recording; paces the replay.
    pub monotonic_ns: u64,
    /// Wall clock of the recording; for people only.
    pub wallclock_utc: i64,
    pub kind: RecordKind,
    pub payload: Vec<u8>,
}

/// What a record holds.
pub struct RecordModel {
    pub session_id: u64,
    pub sequence_no: u64,
    pub monotonic_ns: u64,
    pub wallclock_utc: i64,
    pub kind: RecordKind,
    pub payload: Seq<u8>,
}

impl View for ReplayRecord {
    type V = RecordModel;

    open spec fn view(&self) -> RecordModel {
        RecordModel {
            session_id: self.session_id,
            sequence_no: self.sequence_no,
            monotonic_ns: self.monotonic_ns,
            wallclock_utc: self.wallclock_utc,
            kind: self.kind,
            payload: self.payload@,
        }
    }
}

/// A copy of a byte string.
pub fn copy_bytes(bytes: &[u8]) -> (out: Vec<u8>)
    ensures
        out@ == bytes@,
{
    let mut out: Vec<u8> = Vec::new();
    append_bytes(&mut out, bytes);
    assert(out@ =~= bytes@);
    out
}

/// Append a byte string.
pub fn append_bytes(out: &mut Vec<u8>, bytes: &[u8])
    ensures
        final(out)@ == old(out)@ + bytes@,
{
    let mut i: usize = 0;
    while i < bytes.len()
        invariant
            i <= bytes@.len(),
            out@ == old(out)@ + bytes@.take(i as int),
        decreases bytes@.len() - i,
    {
        out.push(bytes[i]);
        i = i + 1;
        assert(bytes@.take(i as int) =~= bytes@.take(i - 1).push(bytes@[i - 1]));
    }
    assert(bytes@.take(bytes@.len() as int) =~= bytes@);
}

impl ReplayRecord {
    /// Size of a record in its encoded form, padding included: that of the archive.
    pub fn payload_bytes(archive: &[u8]) -> (n: usize)
        ensures
            n == archive@.len(),
    {
        archive.len()
    }

    /// A second record that holds the same.
    pub fn duplicate(&self) -> (r: ReplayRecord)
        ensures
            r@ == self@,
    {
        ReplayRecord {
            session_id: self.session_id,
            sequence_no: self.sequence_no,
            monotonic_ns: self.monotonic_ns,
            wallclock_utc: self.wallclock_utc,
            kind: self.kind,
            payload: copy_bytes(self.payload.as_slice()),
        }
    }

    /// Whether two records hold the same.
    pub fn same_as(&self, other: &ReplayRecord) -> (same: bool)
        ensures
            same == (self@ == other@),
    {
        let heads = self.session_id == other.session_id && self.sequence_no == other.sequence_no
            && self.monotonic_ns == other.monotonic_ns && self.wallclock_utc
            == other.wallclock_utc && self.kind == other.kind;
        if !heads || self.payload.len() != other.payload.len() {
            return false;
        }
        let mut i: usize = 0;
        while i < self.payload.len()
            invariant
                i <= self.payload@.len(),
                self.payload@.len() == other.payload@.len(),
                forall|k: int| 0 <= k < i ==> #[trigger] self.payload@[k] == other.payload@[k],
            decreases self.payload@.len() - i,
        {
            if self.payload[i] != other.payload[i] {
                return false;
            }
            i = i + 1;
        }
        assert(self.payload@ =~= other.payload@);
        true
    }
}

/// An archive in its frame: four bytes of length, most significant first, then
/// the archive.
pub open spec fn frame(archive: Seq<u8>) -> Seq<u8> {
    be_bytes(archive.len(), 4) + archive
}

/// Archives in their frames, one after the other.
pub open spec fn frames(archives: Seq<Seq<u8>>) -> Seq<u8>
    decreases archives.len(),
{
    if archives.len() == 0 {
        Seq::empty()
    } else {
        frame(archives[0]) + frames(archives.skip(1))
    }
}

/// Why no frame could be read.
#[derive(Clone, Copy, Debug, PartialEq, Eq, Structural)]
pub enum FrameError {
    /// The input ends inside a length.
    TruncatedPrefix,
    /// The input ends inside an archive.
    TruncatedBody,
}

/// What stands at the start of an input.
pub enum FrameStep {
    /// Nothing: the input is used up.
    End,
    /// An archive, and the input behind it.
    Archive { archive: Seq<u8>, rest: Seq<u8> },
    /// Part of a frame.
    Broken(FrameError),
}

/// Read the start of an input.
pub open spec fn next_frame(input: Seq<u8>) -> FrameStep {
    if input.len() == 0 {
        FrameStep::End
    } else if input.len() < 4 {
        FrameStep::Broken(FrameError::TruncatedPrefix)
    } else {
        let len = be_value(input.take(4)) as int;
        if input.len() - 4 < len {
            FrameStep::Broken(FrameError::TruncatedBody)
        } else {
            FrameStep::Archive {
                archive: input.subrange(4, 4 + len),
                rest: input.skip(4 + len),
            }
        }
    }
}

/// An input that is read frame by frame.
#[derive(Debug)]
pub struct FrameSource {
    bytes: Vec<u8>,
    at: usize,
}

impl View for FrameSource {
    type V = Seq<u8>;

    /// What has not been read yet.
    closed spec fn view(&self) -> Seq<u8> {
        self.bytes@.skip(self.at as int)
    }
}

impl FrameSource {
    pub closed spec fn wf(self) -> bool {
        self.at <= self.bytes@.len()
    }

    pub fn new(bytes: Vec<u8>) -> (s: FrameSource)
        ensures
            s.wf(),
            s@ == bytes@,
    {
        let s = FrameSource { bytes, at: 0 };
        assert(s@ =~= bytes@);
        s
    }
}

/// Append an archive in its frame.
pub fn write_framed(out: &mut Vec<u8>, archive: &[u8])
    ensures
        final(out)@ == old(out)@ + frame(archive@),
{
    put_be(out, archive.len() as u128, 4);
    append_bytes(out, archive);
    assert(out@ =~= old(out)@ + frame(archive@));
}

/// Read one archive. An input that is used up gives none; a part of a frame is an
/// error, and the input is then used up.
pub fn read_framed(inp: &mut FrameSource) -> (archive: Result<Option<Vec<u8>>, FrameError>)
    requires
        old(inp).wf(),
    ensures
        final(inp).wf(),
        match next_frame(old(inp)@) {
            FrameStep::End => archive matches Ok(None) && final(inp)@ == old(inp)@,
            FrameStep::Archive { archive: a, rest } => archive matches Ok(Some(v)) && v@ == a
                && final(inp)@ == rest,
            FrameStep::Broken(e) => {
                &&& archive matches Err(fault) && fault == e
                &&& final(inp)@.len() == 0
            },
        },
{
    let ghost input = inp@;
    let end: usize = inp.bytes.len();
    let left: usize = end - inp.at;
    if left == 0 {
        return Ok(None);
    }
    if left < 4 {
        inp.at = end;
        return Err(FrameError::TruncatedPrefix);
    }
    let at: usize = inp.at;
    assert(inp.bytes@.subrange(at as int, at + 4) =~= input.take(4));
    let len: u32 = get_u32_be(inp.bytes.as_slice(), at);
    if ((left - 4) as u64) < len as u64 {
        inp.at = end;
        return Err(FrameError::TruncatedBody);
    }
    let n: usize = len as usize;
    let mut body: Vec<u8> = Vec::new();
    let mut i: usize = 0;
    while i < n
        invariant
            i <= n,
            at + 4 + n <= inp.bytes@.len(),
            inp.bytes@.len() == end,
            inp.at == at,
            input == inp.bytes@.skip(at as int),
            inp.bytes == old(inp).bytes,
            body@ == input.subrange(4, 4 + i),
        decreases n - i,
    {
        body.push(inp.bytes[at + 4 + i]);
        i = i + 1;
        assert(input.subrange(4, 4 + i) =~= input.subrange(4, 4 + i - 1).push(
            input[4 + i - 1],
        ));
    }
    inp.at = at + 4 + n;
    assert(inp@ =~= input.skip(4 + n));
    Ok(Some(body))
}

/// All archives of an input, or the fault that stops the reading.
pub open spec fn all_frames(input: Seq<u8>) -> Result<Seq<Seq<u8>>, FrameError>
    decreases input.len(),
{
    match next_frame(input) {
        FrameStep::End => Ok(Seq::empty()),
        FrameStep::Broken(e) => Err(e),
        FrameStep::Archive { archive, rest } => if rest.len() < input.len() {
            match all_frames(rest) {
                Ok(more) => Ok(seq![archive] + more),
                Err(e) => Err(e),
            }
        } else {
            Ok(Seq::empty())
        },
    }
}

/// A frame that was written is read back: the archive comes out, and what stood
/// behind it is left. A length beyond 32 bits does not fit its prefix.
pub proof fn law_read_after_write(archive: Seq<u8>, rest: Seq<u8>)
    requires
        archive.len() < 0x1_0000_0000,
    ensures
        next_frame(frame(archive) + rest) == (FrameStep::Archive { archive, rest }),
{
    lemma_be_len(archive.len(), 4);
    lemma_spans();
    lemma_be_round_trip(archive.len(), 4);
    let input = frame(archive) + rest;
    assert(input.take(4) =~= be_bytes(archive.len(), 4));
    assert(input.subrange(4, 4 + archive.len() as int) =~= archive);
    assert(input.skip(4 + archive.len() as int) =~= rest);
}

/// A file of frames is read back whole and in order.
pub proof fn law_read_all_after_write_all(archives: Seq<Seq<u8>>)
    requires
        forall|i: int| 0 <= i < archives.len() ==> (#[trigger] archives[i]).len() < 0x1_0000_0000,
    ensures
        all_frames(frames(archives)) == Ok::<Seq<Seq<u8>>, FrameError>(archives),
    decreases archives.len(),
{
    if archives.len() > 0 {
        let first = archives[0];
        let more = archives.skip(1);
        assert forall|i: int| 0 <= i < more.len() implies (#[trigger] more[i]).len()
            < 0x1_0000_0000 by {
            assert(more[i] == archives[i + 1]);
        }
        law_read_all_after_write_all(more);
        law_read_after_write(first, frames(more));
        lemma_be_len(first.len(), 4);
        assert(seq![first] + more =~= archives);
    } else {
        assert(archives =~= Seq::<Seq<u8>>::empty());
    }
}

} // verus!
