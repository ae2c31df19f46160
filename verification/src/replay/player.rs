//! The player: releases the records of one session in order, at a pace.
use crate::base::types::SessionId;
use crate::replay::error::ReplayError;
use crate::replay::record::{RecordModel, ReplayRecord};
use rand_chacha::rand_core::{RngCore, SeedableRng};
use rand_chacha::ChaCha20Rng;
use vstd::prelude::*;
use vstd::string::StringExecFns;

verus! {

#[verifier::external_type_specification]
#[verifier::external_body]
pub struct ExChaCha20Rng(rand_chacha::ChaCha20Rng);

/// The generator that a seed gives.
pub uninterp spec fn seeded_rng(seed: u64) -> ChaCha20Rng;

/// What the next draw of a generator gives: the number and the generator after it.
pub uninterp spec fn rng_draw(rng: ChaCha20Rng) -> (u64, ChaCha20Rng);

/// Calls `ChaCha20Rng::seed_from_u64`: the generator is a function of the seed.
#[verifier::external_body]
fn seed_rng(seed: u64) -> (rng: ChaCha20Rng)
    ensures
        rng == seeded_rng(seed),
{
    ChaCha20Rng::seed_from_u64(seed)
}

/// Calls `ChaCha20Rng::next_u64`: the number and the generator after it are a
/// function of the generator before.
#[verifier::external_body]
pub(crate) fn draw_u64(rng: &mut ChaCha20Rng) -> (n: u64)
    ensures
        n == rng_draw(*old(rng)).0,
        *final(rng) == rng_draw(*old(rng)).1,
{
    rng.next_u64()
}

/// How fast a session is played.
#[derive(Clone, Copy, Debug, PartialEq, Eq, Structural)]
pub enum ReplaySpeed {
    /// As recorded.
    X1,
    /// Ten times as fast.
    X10,
    /// Without waiting.
    Max,
}

impl ReplaySpeed {
    /// What recorded gaps are divided by; nothing where there is no waiting.
    pub open spec fn factor(self) -> Option<u32> {
        match self {
            ReplaySpeed::X1 => Some(1),
            ReplaySpeed::X10 => Some(10),
            ReplaySpeed::Max => None,
        }
    }

    pub fn divisor(self) -> (div: Option<u32>)
        ensures
            div == self.factor(),
    {
        match self {
            ReplaySpeed::X1 => Some(1),
            ReplaySpeed::X10 => Some(10),
            ReplaySpeed::Max => None,
        }
    }
}

/// Where a session lies and how it is played.
#[derive(Clone, Debug, PartialEq, Eq)]
pub struct PlayerConfig {
    pub segment_dir: String,
    pub default_speed: ReplaySpeed,
    pub rng_seed: u64,
}

impl Default for PlayerConfig {
    fn default() -> (cfg: PlayerConfig)
        ensures
            cfg.segment_dir@ == "./replay"@,
            cfg.default_speed == ReplaySpeed::X1,
            cfg.rng_seed == 0,
    {
        PlayerConfig {
            segment_dir: String::from_str("./replay"),
            default_speed: ReplaySpeed::X1,
            rng_seed: 0,
        }
    }
}

/// What records hold.
pub open spec fn record_models(records: Seq<ReplayRecord>) -> Seq<RecordModel> {
    records.map_values(|r: ReplayRecord| r@)
}

/// Whether each record has its place as number, up to `n`.
pub open spec fn in_sequence(records: Seq<RecordModel>, n: int) -> bool {
    forall|i: int| 0 <= i < n ==> (#[trigger] records[i]).sequence_no == i
}

/// What a player holds.
pub struct PlayerModel {
    pub session: u64,
    pub records: Seq<RecordModel>,
    /// Place of the next record.
    pub cursor: int,
    pub default_speed: ReplaySpeed,
    pub rng: ChaCha20Rng,
}

impl PlayerModel {
    /// The records are numbered by their places and the cursor is among them or
    /// at the end.
    pub open spec fn sound(self) -> bool {
        in_sequence(self.records, self.records.len() as int) && 0 <= self.cursor
            <= self.records.len()
    }

    /// The record that is released next.
    pub open spec fn upcoming(self) -> Option<RecordModel> {
        if self.cursor < self.records.len() {
            Some(self.records[self.cursor])
        } else {
            None
        }
    }

    /// The model after a release.
    pub open spec fn after_step(self) -> PlayerModel {
        if self.cursor < self.records.len() {
            PlayerModel { cursor: self.cursor + 1, ..self }
        } else {
            self
        }
    }
}

/// Plays one session.
pub struct Player {
    session_id: SessionId,
    records: Vec<ReplayRecord>,
    cursor: usize,
    default_speed: ReplaySpeed,
    rng: ChaCha20Rng,
}

impl View for Player {
    type V = PlayerModel;

    closed spec fn view(&self) -> PlayerModel {
        PlayerModel {
            session: self.session_id.0,
            records: record_models(self.records@),
            cursor: self.cursor as int,
            default_speed: self.default_speed,
            rng: self.rng,
        }
    }
}

impl Player {
    pub open spec fn wf(self) -> bool {
        self@.sound()
    }

    /// A player over the records of a session. They must be numbered by their
    /// places; the first that is not is an error.
    pub fn from_records(
        session_id: SessionId,
        records: Vec<ReplayRecord>,
        default_speed: ReplaySpeed,
        rng_seed: u64,
    ) -> (player: Result<Player, ReplayError>)
        ensures
            match player {
                Ok(p) => {
                    &&& p.wf()
                    &&& p@ == (PlayerModel {
                        session: session_id.0,
                        records: record_models(records@),
                        cursor: 0,
                        default_speed,
                        rng: seeded_rng(rng_seed),
                    })
                },
                Err(ReplayError::SequenceInvariant { session, expected, got }) => {
                    &&& session == session_id.0
                    &&& expected < records@.len()
                    &&& in_sequence(record_models(records@), expected as int)
                    &&& got == records@[expected as int].sequence_no
                    &&& got != expected
                },
                Err(_) => false,
            },
    {
        let ghost models = record_models(records@);
        let mut i: usize = 0;
        while i < records.len()
            invariant
                i <= records@.len(),
                models == record_models(records@),
                in_sequence(models, i as int),
            decreases records@.len() - i,
        {
            assert(models[i as int].sequence_no == records@[i as int].sequence_no);
            if records[i].sequence_no != i as u64 {
                return Err(
                    ReplayError::SequenceInvariant {
                        session: session_id.0,
                        expected: i as u64,
                        got: records[i].sequence_no,
                    },
                );
            }
            i = i + 1;
        }
        Ok(Player { session_id, records, cursor: 0, default_speed, rng: seed_rng(rng_seed) })
    }

    pub fn session_id(&self) -> (id: SessionId)
        ensures
            id.0 == self@.session,
    {
        self.session_id
    }

    pub fn total_records(&self) -> (n: usize)
        ensures
            n == self@.records.len(),
    {
        self.records.len()
    }

    /// Place of the next record.
    pub fn cursor(&self) -> (at: usize)
        ensures
            at == self@.cursor,
    {
        self.cursor
    }

    pub fn at_end(&self) -> (end: bool)
        ensures
            end == (self@.upcoming() is None),
    {
        self.cursor >= self.records.len()
    }

    /// The generator for whatever needs reproducible chance.
    pub fn rng_mut(&mut self) -> (rng: &mut ChaCha20Rng)
        ensures
            *rng == old(self)@.rng,
            final(self)@ == (PlayerModel { rng: *final(rng), ..old(self)@ }),
    {
        &mut self.rng
    }

    /// Release the next record.
    pub fn step(&mut self) -> (record: Option<ReplayRecord>)
        requires
            old(self).wf(),
        ensures
            final(self).wf(),
            final(self)@ == old(self)@.after_step(),
            match record {
                Some(r) => old(self)@.upcoming() == Some(r@),
                None => old(self)@.upcoming() is None,
            },
    {
        if self.cursor >= self.records.len() {
            return None;
        }
        let r = self.records[self.cursor].duplicate();
        self.cursor = self.cursor + 1;
        Some(r)
    }

    /// The time of the record that is released next.
    fn upcoming_ns(&self) -> (ns: Option<u64>)
        requires
            self.wf(),
        ensures
            match ns {
                Some(ns) => self@.upcoming() matches Some(r) && r.monotonic_ns == ns,
                None => self@.upcoming() is None,
            },
    {
        if self.cursor < self.records.len() {
            Some(self.records[self.cursor].monotonic_ns)
        } else {
            None
        }
    }

    /// Move to the record with the given number, or to the end for the number
    /// behind the last. Any other number is an error and moves nothing.
    pub fn seek(&mut self, target: u64) -> (moved: Result<(), ReplayError>)
        requires
            old(self).wf(),
        ensures
            final(self).wf(),
            match moved {
                Ok(_) => target <= old(self)@.records.len() && final(self)@ == (PlayerModel {
                    cursor: target as int,
                    ..old(self)@
                }),
                Err(e) => target > old(self)@.records.len() && e == (ReplayError::SeekNotFound {
                    target,
                }) && final(self)@ == old(self)@,
            },
    {
        if target > self.records.len() as u64 {
            return Err(ReplayError::SeekNotFound { target });
        }
        self.cursor = target as usize;
        Ok(())
    }

    /// Move to the first record.
    pub fn rewind(&mut self)
        requires
            old(self).wf(),
        ensures
            final(self).wf(),
            final(self)@ == (PlayerModel { cursor: 0, ..old(self)@ }),
    {
        self.cursor = 0;
    }

    /// Start playing at a speed.
    pub fn play(&self, speed: ReplaySpeed) -> (pace: PacedReplay)
        ensures
            pace == (PacedReplay { speed }),
    {
        PacedReplay { speed }
    }

    /// Start playing at the default speed.
    pub fn play_default(&self) -> (pace: PacedReplay)
        ensures
            pace == (PacedReplay { speed: self@.default_speed }),
    {
        self.play(self.default_speed)
    }
}

/// How long to wait between two records, from their times.
pub open spec fn gap_ns(speed: ReplaySpeed, from: u64, to: u64) -> int {
    match speed.factor() {
        Some(div) => if to > from {
            (to - from) / (div as int)
        } else {
            0
        },
        None => 0,
    }
}

/// How long to wait after a record, before the one that comes next; nothing after
/// the last.
pub open spec fn wait_after(speed: ReplaySpeed, r: RecordModel, next: Option<RecordModel>) -> int {
    match next {
        Some(n) => gap_ns(speed, r.monotonic_ns, n.monotonic_ns),
        None => 0,
    }
}

/// A replay under way, at its speed.
#[derive(Clone, Copy, Debug, PartialEq, Eq, Structural)]
pub struct PacedReplay {
    pub speed: ReplaySpeed,
}

impl PacedReplay {
    /// Release the next record, and say how long to wait before the one after it:
    /// the time that lay between the two when they were recorded, divided by the
    /// speed. The first record is released at once.
    pub fn release(&self, player: &mut Player) -> (released: Option<(ReplayRecord, u64)>)
        requires
            old(player).wf(),
        ensures
            final(player).wf(),
            final(player)@ == old(player)@.after_step(),
            match released {
                Some((r, wait_ns)) => {
                    &&& old(player)@.upcoming() == Some(r@)
                    &&& wait_ns == wait_after(self.speed, r@, final(player)@.upcoming())
                },
                None => old(player)@.upcoming() is None,
            },
    {
        let r = match player.step() {
            Some(r) => r,
            None => {
                return None;
            },
        };
        let wait_ns: u64 = match player.upcoming_ns() {
            None => 0,
            Some(next) => match self.speed.divisor() {
                None => 0,
                Some(div) => if next > r.monotonic_ns {
                    (next - r.monotonic_ns) / (div as u64)
                } else {
                    0
                },
            },
        };
        Some((r, wait_ns))
    }
}

/// The model after `n` releases.
pub open spec fn after_steps(m: PlayerModel, n: nat) -> PlayerModel
    decreases n,
{
    if n == 0 {
        m
    } else {
        after_steps(m, (n - 1) as nat).after_step()
    }
}

/// The i-th record released from the start is the record numbered i.
pub proof fn law_records_come_in_order(m: PlayerModel, i: nat)
    requires
        m.sound(),
        m.cursor == 0,
        i < m.records.len(),
    ensures
        after_steps(m, i).upcoming() == Some(m.records[i as int]),
        after_steps(m, i).upcoming()->0.sequence_no == i,
{
    lemma_cursor_after(m, i);
}

proof fn lemma_cursor_after(m: PlayerModel, n: nat)
    requires
        m.sound(),
        m.cursor + n <= m.records.len(),
    ensures
        after_steps(m, n) == (PlayerModel { cursor: m.cursor + n, ..m }),
    decreases n,
{
    if n > 0 {
        lemma_cursor_after(m, (n - 1) as nat);
    }
}

/// Seeking to a number and stepping gives the record with that number.
pub proof fn law_seek_then_step(m: PlayerModel, target: u64)
    requires
        m.sound(),
        target < m.records.len(),
    ensures
        (PlayerModel { cursor: target as int, ..m }).upcoming() == Some(m.records[target as int]),
        m.records[target as int].sequence_no == target,
{
}

/// At full speed nothing is waited for, and ten times as fast waits a tenth.
pub proof fn law_pace_scales(from: u64, to: u64)
    ensures
        gap_ns(ReplaySpeed::Max, from, to) == 0,
        gap_ns(ReplaySpeed::X10, from, to) == gap_ns(ReplaySpeed::X1, from, to) / 10,
{
}

/// What was waited for when the record at place `i` comes out, from the release of
/// the first on.
pub open spec fn waited(m: PlayerModel, speed: ReplaySpeed, i: nat) -> int
    decreases i,
{
    if i == 0 {
        0
    } else {
        let r = after_steps(m, (i - 1) as nat).upcoming()->0;
        waited(m, speed, (i - 1) as nat) + wait_after(speed, r, after_steps(m, i).upcoming())
    }
}

/// At the speed of the recording, records come out as far apart as they were
/// recorded.
pub proof fn law_recorded_pace_is_kept(m: PlayerModel, i: nat)
    requires
        m.sound(),
        m.cursor == 0,
        i < m.records.len(),
        forall|j: int, k: int|
            0 <= j <= k < m.records.len() ==> (#[trigger] m.records[j]).monotonic_ns <= (
            #[trigger] m.records[k]).monotonic_ns,
    ensures
        waited(m, ReplaySpeed::X1, i) == m.records[i as int].monotonic_ns
            - m.records[0].monotonic_ns,
    decreases i,
{
    if i > 0 {
        law_recorded_pace_is_kept(m, (i - 1) as nat);
        law_records_come_in_order(m, (i - 1) as nat);
        law_records_come_in_order(m, i);
        assert(m.records[i - 1].monotonic_ns <= m.records[i as int].monotonic_ns);
    }
}

} // verus!
