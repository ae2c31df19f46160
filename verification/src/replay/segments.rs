//! Segment files: their names, when to start the next one, and which of them make
//! up a session.
//!
//! A session is a directory named after its number; in it the segments are
//! numbered from one. A segment is a string of framed archives.
use crate::base::order::{by_alphabet, sort_texts, texts};
use crate::base::sort::{ascending, sort_ascending};
use crate::base::text::{
    begins_with, decimal, decimal_text, ends_with, finishes_with, number_in, padded, padded_text,
    parse_u64, starts_with, NumberFault,
};
use crate::replay::record::{
    all_frames, copy_bytes, frames, law_read_all_after_write_all, next_frame, read_framed,
    FrameError, FrameSource, FrameStep,
};
use vstd::prelude::*;
use vstd::string::StringExecFns;

verus! {

/// Size from which a segment is full where none is given: one gibibyte.
pub const DEFAULT_MAX_SEGMENT_BYTES: u64 = 1_073_741_824;

/// The file name of a segment.
pub open spec fn segment_file_name(idx: nat) -> Seq<char> {
    "seg-"@ + padded(idx, 4) + ".rkyv"@
}

/// The file name of a segment.
pub fn segment_name(idx: u32) -> (name: String)
    ensures
        name@ == segment_file_name(idx as nat),
{
    let mut s = String::from_str("seg-");
    s.append(padded_text(idx as u64, 4).as_str());
    s.append(".rkyv");
    s
}

/// The directory name of a session.
pub fn session_name(session_id: u64) -> (name: String)
    ensures
        name@ == decimal(session_id as nat),
{
    decimal_text(session_id)
}

/// Size of an archive in its frame: four bytes of length before it.
pub fn frame_size(archive_len: usize) -> (size: u64)
    requires
        archive_len + 4 <= u64::MAX,
    ensures
        size == archive_len + 4,
{
    4 + archive_len as u64
}

/// Where the writer stands.
#[derive(Clone, Copy, Debug, PartialEq, Eq, Structural)]
pub struct SegmentState {
    pub active_session: Option<u64>,
    /// Number of the active segment, zero before the first.
    pub active_segment_idx: u32,
    /// Whether a segment file is open.
    pub file_open: bool,
    /// Bytes in the active segment.
    pub active_bytes: u64,
}

/// What an append has to do before it writes.
#[derive(Clone, Copy, Debug, PartialEq, Eq, Structural)]
pub enum Rotation {
    /// Write to the open file.
    Stay,
    /// Close the file, if one is open, and open the first segment of a session.
    NewSession,
    /// Close the file and open the next segment of the session.
    NextSegment,
    /// Open the first segment again: no file is open.
    Reopen,
}

/// How far an append came.
#[derive(Clone, Copy, Debug, PartialEq, Eq, Structural)]
pub enum AppendOutcome {
    /// The open file could not be closed.
    CloseFailed,
    /// The new file could not be opened.
    OpenFailed,
    /// The frame could not be written.
    WriteFailed,
    /// The frame was written.
    Written,
}

/// The sum of two sizes, held at the largest.
pub open spec fn grown(bytes: u64, more: u64) -> int {
    crate::base::arith::cap_u64(bytes + more)
}

impl SegmentState {
    /// Before the first append.
    pub open spec fn initial() -> SegmentState {
        SegmentState {
            active_session: None,
            active_segment_idx: 0,
            file_open: false,
            active_bytes: 0,
        }
    }

    /// What an append of a frame has to do first: another session starts its own
    /// directory, and a frame that would overfill the segment starts the next.
    pub open spec fn rotation(self, session_id: u64, frame: u64, max: u64) -> Rotation {
        if self.active_session != Some(session_id) {
            Rotation::NewSession
        } else if self.file_open && grown(self.active_bytes, frame) > max {
            Rotation::NextSegment
        } else if !self.file_open {
            Rotation::Reopen
        } else {
            Rotation::Stay
        }
    }

    /// Number of the segment that an append writes to.
    pub open spec fn target_idx(self, session_id: u64, frame: u64, max: u64) -> int {
        match self.rotation(session_id, frame, max) {
            Rotation::Stay => self.active_segment_idx as int,
            Rotation::NextSegment => if self.active_segment_idx < u32::MAX {
                self.active_segment_idx + 1
            } else {
                u32::MAX as int
            },
            Rotation::NewSession | Rotation::Reopen => 1,
        }
    }

    /// The state after an append.
    pub open spec fn after(
        self,
        session_id: u64,
        frame: u64,
        max: u64,
        outcome: AppendOutcome,
    ) -> SegmentState {
        let rotation = self.rotation(session_id, frame, max);
        let started = SegmentState {
            active_session: Some(session_id),
            active_segment_idx: self.target_idx(session_id, frame, max) as u32,
            file_open: outcome != AppendOutcome::OpenFailed,
            active_bytes: 0,
        };
        let ready = if rotation == Rotation::Stay {
            self
        } else {
            started
        };
        match outcome {
            AppendOutcome::CloseFailed => SegmentState { file_open: false, ..self },
            AppendOutcome::OpenFailed => SegmentState {
                active_bytes: if rotation == Rotation::Reopen {
                    self.active_bytes
                } else {
                    0
                },
                ..started
            },
            AppendOutcome::WriteFailed => ready,
            AppendOutcome::Written => SegmentState {
                active_bytes: grown(ready.active_bytes, frame) as u64,
                ..ready
            },
        }
    }
}

/// What the caller of an append has to do, in this order.
#[derive(Debug)]
pub struct AppendPlan {
    pub rotation: Rotation,
    /// Whether to close the open file.
    pub close: bool,
    /// Whether to create and open the file of the plan.
    pub open: bool,
    /// The directory of the session.
    pub directory: String,
    /// The file that the frame goes to.
    pub file: String,
}

/// Decides where frames go. The caller performs each plan and reports how far it
/// came.
#[derive(Debug)]
pub struct SegmentWriter {
    max_segment_bytes: u64,
    state: SegmentState,
}

impl SegmentWriter {
    /// Where the writer stands.
    pub closed spec fn at(self) -> SegmentState {
        self.state
    }

    /// The size from which a segment is full.
    pub closed spec fn max(self) -> u64 {
        self.max_segment_bytes
    }

    pub fn new(max_segment_bytes: u64) -> (w: SegmentWriter)
        ensures
            w.at() == SegmentState::initial(),
            w.max() == max_segment_bytes,
    {
        SegmentWriter {
            max_segment_bytes,
            state: SegmentState {
                active_session: None,
                active_segment_idx: 0,
                file_open: false,
                active_bytes: 0,
            },
        }
    }

    pub fn active_session(&self) -> (session: Option<u64>)
        ensures
            session == self.at().active_session,
    {
        self.state.active_session
    }

    pub fn active_segment_idx(&self) -> (idx: u32)
        ensures
            idx == self.at().active_segment_idx,
    {
        self.state.active_segment_idx
    }

    /// What an append of a frame has to do first.
    fn decide(&self, session_id: u64, frame: u64) -> (rotation: Rotation)
        ensures
            rotation == self.at().rotation(session_id, frame, self.max()),
    {
        let same_session = match self.state.active_session {
            Some(active) => active == session_id,
            None => false,
        };
        if !same_session {
            Rotation::NewSession
        } else if self.state.file_open && self.state.active_bytes.saturating_add(frame)
            > self.max_segment_bytes {
            Rotation::NextSegment
        } else if !self.state.file_open {
            Rotation::Reopen
        } else {
            Rotation::Stay
        }
    }

    /// Number of the segment that an append writes to.
    fn target(&self, rotation: Rotation) -> (idx: u32)
        ensures
            forall|session_id: u64, frame: u64|
                #![trigger self.at().target_idx(session_id, frame, self.max())]
                self.at().rotation(session_id, frame, self.max()) == rotation ==> idx
                    == self.at().target_idx(session_id, frame, self.max()),
    {
        match rotation {
            Rotation::Stay => self.state.active_segment_idx,
            Rotation::NextSegment => self.state.active_segment_idx.saturating_add(1),
            Rotation::NewSession => 1,
            Rotation::Reopen => 1,
        }
    }

    /// Plan the append of a frame.
    pub fn append(&self, session_id: u64, frame: u64) -> (plan: AppendPlan)
        ensures
            plan.rotation == self.at().rotation(session_id, frame, self.max()),
            plan.close == (self.at().file_open && plan.rotation != Rotation::Stay),
            plan.open == (plan.rotation != Rotation::Stay),
            plan.directory@ == decimal(session_id as nat),
            plan.file@ == segment_file_name(
                self.at().target_idx(session_id, frame, self.max()) as nat,
            ),
    {
        let rotation = self.decide(session_id, frame);
        let stays = match rotation {
            Rotation::Stay => true,
            _ => false,
        };
        AppendPlan {
            rotation,
            close: self.state.file_open && !stays,
            open: !stays,
            directory: session_name(session_id),
            file: segment_name(self.target(rotation)),
        }
    }

    /// Take note of how far the append of a frame came.
    pub fn settle(&mut self, session_id: u64, frame: u64, outcome: AppendOutcome)
        ensures
            final(self).max() == old(self).max(),
            final(self).at() == old(self).at().after(
                session_id,
                frame,
                old(self).max(),
                outcome,
            ),
    {
        let rotation = self.decide(session_id, frame);
        let idx: u32 = self.target(rotation);
        match outcome {
            AppendOutcome::CloseFailed => {
                self.state.file_open = false;
                return;
            },
            AppendOutcome::OpenFailed => {
                let active_bytes: u64 = match rotation {
                    Rotation::Reopen => self.state.active_bytes,
                    _ => 0,
                };
                self.state = SegmentState {
                    active_session: Some(session_id),
                    active_segment_idx: idx,
                    file_open: false,
                    active_bytes,
                };
                return;
            },
            _ => {},
        }
        match rotation {
            Rotation::Stay => {},
            _ => {
                self.state = SegmentState {
                    active_session: Some(session_id),
                    active_segment_idx: idx,
                    file_open: true,
                    active_bytes: 0,
                };
            },
        }
        match outcome {
            AppendOutcome::Written => {
                self.state.active_bytes = self.state.active_bytes.saturating_add(frame);
            },
            _ => {},
        }
    }

    /// Where the last append went: directory and file. Nothing before the first.
    pub fn active_segment_path(&self) -> (path: Option<(String, String)>)
        ensures
            match path {
                Some((directory, file)) => {
                    &&& self.at().active_segment_idx != 0
                    &&& self.at().active_session matches Some(session) && directory@ == decimal(
                        session as nat,
                    )
                    &&& file@ == segment_file_name(self.at().active_segment_idx as nat)
                },
                None => self.at().active_segment_idx == 0 || self.at().active_session is None,
            },
    {
        if self.state.active_segment_idx == 0 {
            return None;
        }
        match self.state.active_session {
            Some(session) => Some(
                (session_name(session), segment_name(self.state.active_segment_idx)),
            ),
            None => None,
        }
    }
}

/// A segment outgrows its limit only where a single frame is larger than it.
pub proof fn law_segments_stay_within_limit(
    s: SegmentState,
    session_id: u64,
    frame: u64,
    max: u64,
)
    ensures
        ({
            let next = s.after(session_id, frame, max, AppendOutcome::Written);
            next.active_bytes <= max || next.active_bytes == frame && s.rotation(
                session_id,
                frame,
                max,
            ) != Rotation::Stay
        }),
{
}

/// Writing on in one session fills its segments in order: the number stays or
/// grows by one, and the first is one.
pub proof fn law_segment_numbers_are_consecutive(
    s: SegmentState,
    session_id: u64,
    frame: u64,
    max: u64,
)
    requires
        s.active_segment_idx < u32::MAX,
        s.active_session == Some(session_id) ==> s.file_open,
    ensures
        ({
            let next = s.after(session_id, frame, max, AppendOutcome::Written);
            &&& next.active_session == Some(session_id)
            &&& next.file_open
            &&& s.active_session == Some(session_id) ==> next.active_segment_idx
                == s.active_segment_idx || next.active_segment_idx == s.active_segment_idx + 1
            &&& s.active_session != Some(session_id) ==> next.active_segment_idx == 1
        }),
{
}

/// Whether a file name is that of a segment.
pub open spec fn is_segment_name(name: Seq<char>) -> bool {
    begins_with(name, "seg-"@) && finishes_with(name, ".rkyv"@)
}

/// The files of a directory that are segments, in alphabetical order.
pub fn select_segments(names: Vec<String>) -> (segments: Vec<String>)
    ensures
        texts(segments@) == texts(names@).filter(|n: Seq<char>| is_segment_name(n)).sort_by(
            by_alphabet(),
        ),
{
    let ghost keep = |n: Seq<char>| is_segment_name(n);
    let ghost all = texts(names@);
    let mut kept: Vec<String> = Vec::new();
    let mut i: usize = 0;
    proof {
        reveal(Seq::filter);
        assert(all.take(0).filter(keep) =~= texts(kept@));
    }
    while i < names.len()
        invariant
            i <= names@.len(),
            all == texts(names@),
            keep == (|n: Seq<char>| is_segment_name(n)),
            texts(kept@) == all.take(i as int).filter(keep),
        decreases names@.len() - i,
    {
        let name: &String = &names[i];
        proof {
            reveal(Seq::filter);
            assert(all.take(i + 1).drop_last() =~= all.take(i as int));
            assert(all.take(i + 1).last() == name@);
        }
        let ghost before = texts(kept@);
        if starts_with(name.as_str(), "seg-") && ends_with(name.as_str(), ".rkyv") {
            kept.push(name.clone());
            assert(texts(kept@) =~= before.push(name@));
        }
        i = i + 1;
    }
    assert(all.take(all.len() as int) =~= all);
    sort_texts(kept)
}

/// The numbers of the sessions among directory names, in order as they come.
pub open spec fn session_ids(names: Seq<Seq<char>>) -> Seq<u64> {
    names.filter_map(
        |n: Seq<char>|
            match number_in(n) {
                Ok(id) => Some(id as u64),
                Err(_) => None::<u64>,
            },
    )
}

/// The recorded sessions among the names of directories, in ascending order.
pub fn list_sessions(names: Vec<String>) -> (sessions: Vec<u64>)
    ensures
        sessions@ == ascending(session_ids(texts(names@))),
{
    let ghost all = texts(names@);
    let ghost read = |n: Seq<char>|
        match number_in(n) {
            Ok(id) => Some(id as u64),
            Err(_) => None::<u64>,
        };
    let mut out: Vec<u64> = Vec::new();
    let mut i: usize = 0;
    assert(all.take(0).filter_map(read) =~= out@);
    while i < names.len()
        invariant
            i <= names@.len(),
            all == texts(names@),
            read == (|n: Seq<char>|
                match number_in(n) {
                    Ok(id) => Some(id as u64),
                    Err(_) => None::<u64>,
                }),
            out@ == all.take(i as int).filter_map(read),
        decreases names@.len() - i,
    {
        assert(all.take(i + 1).drop_last() =~= all.take(i as int));
        assert(all.take(i + 1).last() == names@[i as int]@);
        let ghost before = out@;
        match parse_u64(names[i].as_str()) {
            Ok(id) => {
                out.push(id);
                assert(out@ =~= before + seq![id]);
            },
            Err(_) => {},
        }
        i = i + 1;
    }
    assert(all.take(all.len() as int) =~= all);
    sort_ascending(out.as_slice())
}

/// Every session that was recorded under its own name is found again.
pub proof fn law_sessions_are_found(session_id: u64)
    ensures
        number_in(decimal(session_id as nat)) == Ok::<int, NumberFault>(session_id as int),
{
    crate::base::text::law_numbers_read_back(session_id as nat);
}

/// All archives of a session, segment after segment, or the first fault.
pub open spec fn session_archives(segments: Seq<Seq<u8>>) -> Result<Seq<Seq<u8>>, FrameError>
    decreases segments.len(),
{
    if segments.len() == 0 {
        Ok(Seq::empty())
    } else {
        match session_archives(segments.drop_last()) {
            Ok(before) => match all_frames(segments.last()) {
                Ok(more) => Ok(before + more),
                Err(e) => Err(e),
            },
            Err(e) => Err(e),
        }
    }
}

/// What lists of bytes hold.
pub open spec fn byte_strings(list: Seq<Vec<u8>>) -> Seq<Seq<u8>> {
    list.map_values(|v: Vec<u8>| v@)
}

/// The first archive in what is left of a session, or the first fault, and what is
/// left then. A segment that is used up is passed over; a fault uses its segment up.
pub open spec fn next_archive(left: Seq<Seq<u8>>) -> (
    Result<Option<Seq<u8>>, FrameError>,
    Seq<Seq<u8>>,
)
    decreases left.len(),
{
    if left.len() == 0 {
        (Ok(None), left)
    } else {
        match next_frame(left[0]) {
            FrameStep::End => next_archive(left.skip(1)),
            FrameStep::Archive { archive, rest } => (Ok(Some(archive)), left.update(0, rest)),
            FrameStep::Broken(e) => (Err(e), left.update(0, Seq::empty())),
        }
    }
}

/// What a reader has before it.
pub struct ReaderModel {
    /// Number of segments in all.
    pub segments: nat,
    /// What is left to read, segment after segment.
    pub left: Seq<Seq<u8>>,
}

/// Reads the segments of a session, given what they hold, in order.
#[derive(Debug)]
pub struct SegmentReader {
    segments: Vec<FrameSource>,
    active_idx: usize,
}

impl View for SegmentReader {
    type V = ReaderModel;

    closed spec fn view(&self) -> ReaderModel {
        ReaderModel {
            segments: self.segments@.len(),
            left: sources_left(self.segments@).skip(self.active_idx as int),
        }
    }
}

/// What is left of each source.
spec fn sources_left(sources: Seq<FrameSource>) -> Seq<Seq<u8>> {
    sources.map_values(|s: FrameSource| s@)
}

impl SegmentReader {
    pub closed spec fn wf(self) -> bool {
        &&& self.active_idx <= self.segments@.len()
        &&& forall|i: int| 0 <= i < self.segments@.len() ==> (#[trigger] self.segments@[i]).wf()
    }

    pub fn new(segments: Vec<Vec<u8>>) -> (r: SegmentReader)
        ensures
            r.wf(),
            r@ == (ReaderModel {
                segments: segments@.len(),
                left: byte_strings(segments@),
            }),
    {
        let mut sources: Vec<FrameSource> = Vec::new();
        let mut i: usize = 0;
        while i < segments.len()
            invariant
                i <= segments@.len(),
                sources@.len() == i,
                forall|k: int|
                    0 <= k < i ==> (#[trigger] sources@[k]).wf() && sources@[k]@
                        == segments@[k]@,
            decreases segments@.len() - i,
        {
            sources.push(FrameSource::new(copy_bytes(segments[i].as_slice())));
            i = i + 1;
        }
        let r = SegmentReader { segments: sources, active_idx: 0 };
        assert(r@.left =~= byte_strings(segments@));
        r
    }

    pub fn segment_count(&self) -> (n: usize)
        ensures
            n == self@.segments,
    {
        self.segments.len()
    }

    /// Read the next archive. None is left once every segment is used up.
    pub fn next_record(&mut self) -> (archive: Result<Option<Vec<u8>>, FrameError>)
        requires
            old(self).wf(),
        ensures
            final(self).wf(),
            final(self)@ == (ReaderModel { left: next_archive(old(self)@.left).1, ..old(self)@ }),
            match archive {
                Ok(Some(a)) => next_archive(old(self)@.left).0 == Ok::<
                    Option<Seq<u8>>,
                    FrameError,
                >(Some(a@)),
                Ok(None) => next_archive(old(self)@.left).0 == Ok::<Option<Seq<u8>>, FrameError>(
                    None,
                ),
                Err(e) => next_archive(old(self)@.left).0 == Err::<Option<Seq<u8>>, FrameError>(e),
            },
    {
        let ghost before = self@.left;
        while self.active_idx < self.segments.len()
            invariant
                self.wf(),
                self@.segments == old(self)@.segments,
                next_archive(self@.left) == next_archive(before),
                before == old(self)@.left,
            decreases self.segments@.len() - self.active_idx,
        {
            let at: usize = self.active_idx;
            let ghost sources = self.segments@;
            let ghost left = self@.left;
            assert(left[0] == sources[at as int]@);
            let read = read_framed(&mut self.segments[at]);
            proof {
                assert forall|i: int| 0 <= i < self.segments@.len() implies (
                #[trigger] self.segments@[i]).wf() by {
                    if i != at {
                        assert(self.segments@[i] == sources[i]);
                    }
                }
                assert(self@.left =~= left.update(0, self.segments@[at as int]@));
            }
            match read {
                Ok(Some(archive)) => {
                    return Ok(Some(archive));
                },
                Ok(None) => {
                    self.active_idx = at + 1;
                    assert(self@.left =~= left.skip(1));
                },
                Err(e) => {
                    assert(self.segments@[at as int]@ =~= Seq::empty());
                    return Err(e);
                },
            }
        }
        assert(self@.left =~= Seq::empty());
        Ok(None)
    }

    /// Read every archive that is left of the session.
    pub fn read_all(self) -> (archives: Result<Vec<Vec<u8>>, FrameError>)
        requires
            self.wf(),
        ensures
            match archives {
                Ok(list) => session_archives(self@.left) == Ok::<Seq<Seq<u8>>, FrameError>(
                    byte_strings(list@),
                ),
                Err(e) => session_archives(self@.left) == Err::<Seq<Seq<u8>>, FrameError>(e),
            },
    {
        let ghost whole = self@.left;
        let mut reader = self;
        let mut out: Vec<Vec<u8>> = Vec::new();
        let ghost mut done: Seq<Seq<u8>> = Seq::empty();
        proof {
            assert(byte_strings(out@) =~= done);
            match session_archives(whole) {
                Ok(more) => assert(done + more =~= more),
                Err(_) => {},
            }
        }
        loop
            invariant
                reader.wf(),
                done == byte_strings(out@),
                session_archives(whole) == match session_archives(reader@.left) {
                    Ok(more) => Ok::<Seq<Seq<u8>>, FrameError>(done + more),
                    Err(e) => Err(e),
                },
                whole == self@.left,
            decreases unread(reader@.left),
        {
            let ghost left = reader@.left;
            proof {
                lemma_next_archive(left);
            }
            match reader.next_record()? {
                Some(archive) => {
                    let ghost a = archive@;
                    out.push(archive);
                    proof {
                        let old_done = done;
                        done = old_done.push(a);
                        assert(byte_strings(out@) =~= done);
                        match session_archives(reader@.left) {
                            Ok(more) => assert(old_done + (seq![a] + more) =~= done + more),
                            Err(_) => {},
                        }
                    }
                },
                None => {
                    assert(done + Seq::<Seq<u8>>::empty() =~= done);
                    return Ok(out);
                },
            }
        }
    }
}

/// How many bytes are left to read.
pub open spec fn unread(left: Seq<Seq<u8>>) -> nat
    decreases left.len(),
{
    if left.len() == 0 {
        0
    } else {
        left[0].len() + unread(left.skip(1))
    }
}

/// The archives of a session are those of its first segment and then of the rest.
proof fn lemma_first_segment(left: Seq<Seq<u8>>)
    requires
        left.len() > 0,
    ensures
        session_archives(left) == match all_frames(left[0]) {
            Ok(first) => match session_archives(left.skip(1)) {
                Ok(more) => Ok::<Seq<Seq<u8>>, FrameError>(first + more),
                Err(e) => Err(e),
            },
            Err(e) => Err(e),
        },
    decreases left.len(),
{
    let before = left.drop_last();
    if left.len() == 1 {
        assert(before =~= Seq::empty());
        assert(left.skip(1) =~= Seq::empty());
        match all_frames(left[0]) {
            Ok(first) => {
                assert(Seq::<Seq<u8>>::empty() + first =~= first);
                assert(first + Seq::<Seq<u8>>::empty() =~= first);
            },
            Err(_) => {},
        }
    } else {
        lemma_first_segment(before);
        assert(before.skip(1) =~= left.skip(1).drop_last());
        assert(left.skip(1).last() == left.last());
        match (all_frames(left[0]), session_archives(before.skip(1)), all_frames(left.last())) {
            (Ok(first), Ok(middle), Ok(end)) => {
                assert((first + middle) + end =~= first + (middle + end));
            },
            _ => {},
        }
    }
}

/// The archives of a session are its first archive and then those of what is left.
proof fn lemma_next_archive(left: Seq<Seq<u8>>)
    ensures
        match next_archive(left).0 {
            Ok(Some(a)) => {
                &&& session_archives(left) == match session_archives(next_archive(left).1) {
                    Ok(more) => Ok::<Seq<Seq<u8>>, FrameError>(seq![a] + more),
                    Err(e) => Err(e),
                }
                &&& unread(next_archive(left).1) < unread(left)
            },
            Ok(None) => session_archives(left) == Ok::<Seq<Seq<u8>>, FrameError>(Seq::empty()),
            Err(e) => session_archives(left) == Err::<Seq<Seq<u8>>, FrameError>(e),
        },
    decreases left.len(),
{
    if left.len() > 0 {
        lemma_first_segment(left);
        match next_frame(left[0]) {
            FrameStep::End => {
                lemma_next_archive(left.skip(1));
                match session_archives(left.skip(1)) {
                    Ok(more) => assert(Seq::<Seq<u8>>::empty() + more =~= more),
                    Err(_) => {},
                }
            },
            FrameStep::Archive { archive, rest } => {
                let after = left.update(0, rest);
                lemma_first_segment(after);
                assert(after.skip(1) =~= left.skip(1));
                assert(after[0] == rest);
                match (all_frames(rest), session_archives(left.skip(1))) {
                    (Ok(first), Ok(more)) => {
                        assert((seq![archive] + first) + more =~= seq![archive] + (first + more));
                    },
                    _ => {},
                }
            },
            FrameStep::Broken(_) => {},
        }
    }
}

/// All items of lists, one list after the other.
pub open spec fn joined(lists: Seq<Seq<Seq<u8>>>) -> Seq<Seq<u8>>
    decreases lists.len(),
{
    if lists.len() == 0 {
        Seq::empty()
    } else {
        joined(lists.drop_last()) + lists.last()
    }
}

/// A session is read back whole and in order, wherever its segments were cut.
pub proof fn law_session_reads_back(lists: Seq<Seq<Seq<u8>>>)
    requires
        forall|i: int, j: int|
            0 <= i < lists.len() && 0 <= j < lists[i].len() ==> (#[trigger] lists[i][j]).len()
                < 0x1_0000_0000,
    ensures
        session_archives(lists.map_values(|l: Seq<Seq<u8>>| frames(l))) == Ok::<
            Seq<Seq<u8>>,
            FrameError,
        >(joined(lists)),
    decreases lists.len(),
{
    let files = lists.map_values(|l: Seq<Seq<u8>>| frames(l));
    if lists.len() > 0 {
        let rest = lists.drop_last();
        assert forall|i: int, j: int|
            0 <= i < rest.len() && 0 <= j < rest[i].len() implies (#[trigger] rest[i][j]).len()
            < 0x1_0000_0000 by {
            assert(rest[i][j] == lists[i][j]);
        }
        law_session_reads_back(rest);
        assert(files.drop_last() =~= rest.map_values(|l: Seq<Seq<u8>>| frames(l)));
        let last = lists.last();
        assert forall|j: int| 0 <= j < last.len() implies (#[trigger] last[j]).len()
            < 0x1_0000_0000 by {
            assert(last[j] == lists[lists.len() - 1][j]);
        }
        law_read_all_after_write_all(last);
    }
}

} // verus!
