//! Playing a session twice and comparing the runs.
use crate::replay::player::{
    draw_u64, record_models, rng_draw, Player, PlayerModel,
};
use crate::replay::record::{AISource, RecordKind, RecordModel, ReplayRecord};
use rand_chacha::ChaCha20Rng;
use vstd::prelude::*;

verus! {

/// How many draws of the generator are compared.
pub const RNG_COMPARE_SAMPLES: usize = 1024;

/// Number of labels.
pub const LABELS: usize = 20;

/// The place of a kind among the labels.
pub open spec fn label_place(kind: RecordKind) -> int {
    match kind {
        RecordKind::Tick => 0,
        RecordKind::OrderBook => 1,
        RecordKind::OpenInterest => 2,
        RecordKind::NewsEvent => 3,
        RecordKind::SignalEmitted => 4,
        RecordKind::RiskDecision => 5,
        RecordKind::OrderSubmitted => 6,
        RecordKind::OrderModified => 7,
        RecordKind::OrderCancelled => 8,
        RecordKind::Fill => 9,
        RecordKind::TraderAction => 10,
        RecordKind::AIDecision(AISource::Ranking) => 11,
        RecordKind::AIDecision(AISource::Regime) => 12,
        RecordKind::AIDecision(AISource::News) => 13,
        RecordKind::AIDecision(AISource::Psychology) => 14,
        RecordKind::AIDecision(AISource::Priority) => 15,
        RecordKind::AIDecision(AISource::Journal) => 16,
        RecordKind::AIDecision(AISource::Governance) => 17,
        RecordKind::AIDecision(AISource::Other) => 18,
        RecordKind::MarketConditionSnapshot => 19,
    }
}

/// The place of a kind among the labels.
pub fn label_index(kind: &RecordKind) -> (i: usize)
    ensures
        i == label_place(*kind),
        i < LABELS,
{
    match kind {
        RecordKind::Tick => 0,
        RecordKind::OrderBook => 1,
        RecordKind::OpenInterest => 2,
        RecordKind::NewsEvent => 3,
        RecordKind::SignalEmitted => 4,
        RecordKind::RiskDecision => 5,
        RecordKind::OrderSubmitted => 6,
        RecordKind::OrderModified => 7,
        RecordKind::OrderCancelled => 8,
        RecordKind::Fill => 9,
        RecordKind::TraderAction => 10,
        RecordKind::AIDecision(source) => match source {
            AISource::Ranking => 11,
            AISource::Regime => 12,
            AISource::News => 13,
            AISource::Psychology => 14,
            AISource::Priority => 15,
            AISource::Journal => 16,
            AISource::Governance => 17,
            AISource::Other => 18,
        },
        RecordKind::MarketConditionSnapshot => 19,
    }
}

/// The label of a kind.
pub open spec fn label_of(kind: RecordKind) -> Seq<char> {
    match kind {
        RecordKind::Tick => "Tick"@,
        RecordKind::OrderBook => "OrderBook"@,
        RecordKind::OpenInterest => "OpenInterest"@,
        RecordKind::NewsEvent => "NewsEvent"@,
        RecordKind::SignalEmitted => "SignalEmitted"@,
        RecordKind::RiskDecision => "RiskDecision"@,
        RecordKind::OrderSubmitted => "OrderSubmitted"@,
        RecordKind::OrderModified => "OrderModified"@,
        RecordKind::OrderCancelled => "OrderCancelled"@,
        RecordKind::Fill => "Fill"@,
        RecordKind::TraderAction => "TraderAction"@,
        RecordKind::AIDecision(AISource::Ranking) => "AIDecision/Ranking"@,
        RecordKind::AIDecision(AISource::Regime) => "AIDecision/Regime"@,
        RecordKind::AIDecision(AISource::News) => "AIDecision/News"@,
        RecordKind::AIDecision(AISource::Psychology) => "AIDecision/Psychology"@,
        RecordKind::AIDecision(AISource::Priority) => "AIDecision/Priority"@,
        RecordKind::AIDecision(AISource::Journal) => "AIDecision/Journal"@,
        RecordKind::AIDecision(AISource::Governance) => "AIDecision/Governance"@,
        RecordKind::AIDecision(AISource::Other) => "AIDecision/Other"@,
        RecordKind::MarketConditionSnapshot => "MarketConditionSnapshot"@,
    }
}

/// The label of a kind.
pub fn kind_label(kind: &RecordKind) -> (label: &'static str)
    ensures
        label@ == label_of(*kind),
{
    match kind {
        RecordKind::Tick => "Tick",
        RecordKind::OrderBook => "OrderBook",
        RecordKind::OpenInterest => "OpenInterest",
        RecordKind::NewsEvent => "NewsEvent",
        RecordKind::SignalEmitted => "SignalEmitted",
        RecordKind::RiskDecision => "RiskDecision",
        RecordKind::OrderSubmitted => "OrderSubmitted",
        RecordKind::OrderModified => "OrderModified",
        RecordKind::OrderCancelled => "OrderCancelled",
        RecordKind::Fill => "Fill",
        RecordKind::TraderAction => "TraderAction",
        RecordKind::AIDecision(source) => match source {
            AISource::Ranking => "AIDecision/Ranking",
            AISource::Regime => "AIDecision/Regime",
            AISource::News => "AIDecision/News",
            AISource::Psychology => "AIDecision/Psychology",
            AISource::Priority => "AIDecision/Priority",
            AISource::Journal => "AIDecision/Journal",
            AISource::Governance => "AIDecision/Governance",
            AISource::Other => "AIDecision/Other",
        },
        RecordKind::MarketConditionSnapshot => "MarketConditionSnapshot",
    }
}

/// How many records bear the label at a place.
pub open spec fn count_at(records: Seq<RecordModel>, place: int) -> int
    decreases records.len(),
{
    if records.len() == 0 {
        0
    } else {
        count_at(records.drop_last(), place) + if label_place(records.last().kind) == place {
            1int
        } else {
            0
        }
    }
}

/// Whether a histogram counts the records of each label.
pub open spec fn counts(histogram: Seq<u64>, records: Seq<RecordModel>) -> bool {
    histogram.len() == LABELS && forall|p: int|
        0 <= p < LABELS ==> #[trigger] histogram[p] == count_at(records, p)
}

/// The generator after `n` draws.
pub open spec fn rng_after(rng: ChaCha20Rng, n: nat) -> ChaCha20Rng
    decreases n,
{
    if n == 0 {
        rng
    } else {
        rng_draw(rng_after(rng, (n - 1) as nat)).1
    }
}

/// The first `n` draws of a generator.
pub open spec fn draws(rng: ChaCha20Rng, n: nat) -> Seq<u64> {
    Seq::new(n, |i: int| rng_draw(rng_after(rng, i as nat)).0)
}

/// What came of playing a session.
pub struct PlayResult {
    pub records: Vec<ReplayRecord>,
    /// Number of records for each label.
    pub histogram: Vec<u64>,
    /// Draws of the generator afterwards.
    pub rng_samples: Vec<u64>,
}

/// What a result holds.
pub struct PlayModel {
    pub records: Seq<RecordModel>,
    pub histogram: Seq<u64>,
    pub rng_samples: Seq<u64>,
}

impl View for PlayResult {
    type V = PlayModel;

    open spec fn view(&self) -> PlayModel {
        PlayModel {
            records: record_models(self.records@),
            histogram: self.histogram@,
            rng_samples: self.rng_samples@,
        }
    }
}

/// Whether a result is what playing a session to its end gives.
pub open spec fn played(m: PlayerModel, samples: nat, result: PlayModel) -> bool {
    &&& result.records == m.records.skip(m.cursor)
    &&& counts(result.histogram, result.records)
    &&& result.rng_samples == draws(m.rng, samples)
}

/// Play a session to its end, count its records, and draw from its generator.
pub fn play_once(player: &mut Player, samples: usize) -> (result: PlayResult)
    requires
        old(player).wf(),
    ensures
        final(player).wf(),
        played(old(player)@, samples as nat, result@),
        final(player)@ == (PlayerModel {
            cursor: old(player)@.records.len() as int,
            rng: rng_after(old(player)@.rng, samples as nat),
            ..old(player)@
        }),
{
    let ghost m = player@;
    let mut records: Vec<ReplayRecord> = Vec::new();
    let mut histogram: Vec<u64> = Vec::new();
    let mut p: usize = 0;
    while p < LABELS
        invariant
            p <= LABELS,
            histogram@.len() == p,
            forall|q: int| 0 <= q < p ==> #[trigger] histogram@[q] == 0,
        decreases LABELS - p,
    {
        histogram.push(0);
        p = p + 1;
    }
    proof {
        assert(record_models(records@) =~= m.records.subrange(m.cursor, m.cursor));
    }
    loop
        invariant
            player.wf(),
            m.sound(),
            m == old(player)@,
            m.cursor <= player@.cursor <= m.records.len(),
            player@ == (PlayerModel { cursor: player@.cursor, ..m }),
            record_models(records@) == m.records.subrange(m.cursor, player@.cursor),
            histogram@.len() == LABELS,
            forall|q: int|
                0 <= q < LABELS ==> #[trigger] histogram@[q] == count_at(
                    record_models(records@),
                    q,
                ),
        ensures
            player.wf(),
            player@ == (PlayerModel { cursor: m.records.len() as int, ..m }),
            record_models(records@) == m.records.skip(m.cursor),
            counts(histogram@, record_models(records@)),
        decreases m.records.len() - player@.cursor,
    {
        let ghost at = player@.cursor;
        match player.step() {
            Some(r) => {
                let ghost before = record_models(records@);
                let i: usize = label_index(&r.kind);
                let ghost shown = histogram@;
                records.push(r);
                let ghost now = record_models(records@);
                proof {
                    assert(now =~= before.push(r@));
                    assert(now.drop_last() =~= before);
                    lemma_count_bound(now, i as int);
                    assert(now.len() == records.len());
                }
                histogram.set(i, histogram[i] + 1);
                proof {
                    assert(now =~= m.records.subrange(m.cursor, at + 1));
                    assert forall|q: int| 0 <= q < LABELS implies #[trigger] histogram@[q]
                        == count_at(now, q) by {
                        assert(shown[q] == count_at(before, q));
                    }
                }
            },
            None => {
                assert(m.records.subrange(m.cursor, m.records.len() as int) =~= m.records.skip(
                    m.cursor,
                ));
                break;
            },
        }
    }
    let mut rng_samples: Vec<u64> = Vec::new();
    let mut k: usize = 0;
    assert(rng_samples@ =~= draws(m.rng, 0));
    while k < samples
        invariant
            k <= samples,
            player.wf(),
            player@ == (PlayerModel {
                cursor: m.records.len() as int,
                rng: rng_after(m.rng, k as nat),
                ..m
            }),
            rng_samples@ == draws(m.rng, k as nat),
        decreases samples - k,
    {
        let n: u64 = draw_u64(player.rng_mut());
        rng_samples.push(n);
        k = k + 1;
        assert(rng_samples@ =~= draws(m.rng, k as nat));
    }
    PlayResult { records, histogram, rng_samples }
}

/// No label is counted more often than there are records.
proof fn lemma_count_bound(records: Seq<RecordModel>, place: int)
    ensures
        0 <= count_at(records, place) <= records.len(),
    decreases records.len(),
{
    if records.len() > 0 {
        lemma_count_bound(records.drop_last(), place);
    }
}

/// How two runs differ.
#[derive(Clone, Copy, Debug, PartialEq, Eq, Structural)]
pub enum Divergence {
    /// They have different numbers of records.
    RecordCount { run1: usize, run2: usize },
    /// Their histograms differ.
    Histogram,
    /// Their draws differ, first at this place; there is none where one run only
    /// drew more.
    RngStream { at: Option<usize>, run1: u64, run2: u64 },
    /// They differ at this record first.
    Record { at: usize },
}

/// Whether two sequences agree up to a place and differ there.
pub open spec fn first_differs<T>(a: Seq<T>, b: Seq<T>, at: int) -> bool {
    &&& 0 <= at < a.len()
    &&& at < b.len()
    &&& a[at] != b[at]
    &&& forall|i: int| 0 <= i < at ==> #[trigger] a[i] == b[i]
}

/// Whether two sequences agree as far as both go.
pub open spec fn agrees<T>(a: Seq<T>, b: Seq<T>) -> bool {
    forall|i: int| 0 <= i < a.len() && i < b.len() ==> #[trigger] a[i] == b[i]
}

/// Whether two number lists are the same.
fn same_numbers(a: &Vec<u64>, b: &Vec<u64>) -> (same: bool)
    ensures
        same == (a@ == b@),
{
    if a.len() != b.len() {
        return false;
    }
    match first_difference(a, b) {
        Some(_) => false,
        None => {
            assert(a@ =~= b@);
            true
        },
    }
}

/// The first place where two number lists differ, as far as both go.
fn first_difference(a: &Vec<u64>, b: &Vec<u64>) -> (at: Option<usize>)
    ensures
        match at {
            Some(i) => first_differs(a@, b@, i as int),
            None => agrees(a@, b@),
        },
{
    let mut i: usize = 0;
    while i < a.len() && i < b.len()
        invariant
            i <= a@.len(),
            i <= b@.len(),
            forall|k: int| 0 <= k < i ==> #[trigger] a@[k] == b@[k],
        decreases a@.len() - i,
    {
        if a[i] != b[i] {
            return Some(i);
        }
        i = i + 1;
    }
    None
}

/// Compare two runs: their counts, histograms, draws and records, in this order.
/// Returns the number of records, or the first difference.
pub fn diff_streams(a: &PlayResult, b: &PlayResult) -> (n: Result<usize, Divergence>)
    ensures
        match n {
            Ok(n) => a@ == b@ && n == a@.records.len(),
            Err(Divergence::RecordCount { run1, run2 }) => {
                &&& run1 == a@.records.len()
                &&& run2 == b@.records.len()
                &&& run1 != run2
            },
            Err(Divergence::Histogram) => {
                &&& a@.records.len() == b@.records.len()
                &&& a@.histogram != b@.histogram
            },
            Err(Divergence::RngStream { at, run1, run2 }) => {
                &&& a@.records.len() == b@.records.len()
                &&& a@.histogram == b@.histogram
                &&& a@.rng_samples != b@.rng_samples
                &&& match at {
                    Some(i) => first_differs(a@.rng_samples, b@.rng_samples, i as int) && run1
                        == a@.rng_samples[i as int] && run2 == b@.rng_samples[i as int],
                    None => agrees(a@.rng_samples, b@.rng_samples) && run1 == 0 && run2 == 0,
                }
            },
            Err(Divergence::Record { at }) => {
                &&& a@.records.len() == b@.records.len()
                &&& a@.histogram == b@.histogram
                &&& a@.rng_samples == b@.rng_samples
                &&& first_differs(a@.records, b@.records, at as int)
            },
        },
{
    if a.records.len() != b.records.len() {
        return Err(
            Divergence::RecordCount { run1: a.records.len(), run2: b.records.len() },
        );
    }
    if !same_numbers(&a.histogram, &b.histogram) {
        return Err(Divergence::Histogram);
    }
    if !same_numbers(&a.rng_samples, &b.rng_samples) {
        let at = first_difference(&a.rng_samples, &b.rng_samples);
        return match at {
            Some(i) => Err(
                Divergence::RngStream { at, run1: a.rng_samples[i], run2: b.rng_samples[i] },
            ),
            None => Err(Divergence::RngStream { at, run1: 0, run2: 0 }),
        };
    }
    let mut i: usize = 0;
    while i < a.records.len()
        invariant
            i <= a.records@.len(),
            a.records@.len() == b.records@.len(),
            a@.histogram == b@.histogram,
            a@.rng_samples == b@.rng_samples,
            forall|k: int| 0 <= k < i ==> #[trigger] a@.records[k] == b@.records[k],
        decreases a.records@.len() - i,
    {
        assert(a@.records[i as int] == a.records@[i as int]@);
        assert(b@.records[i as int] == b.records@[i as int]@);
        if !a.records[i].same_as(&b.records[i]) {
            return Err(Divergence::Record { at: i });
        }
        i = i + 1;
    }
    assert(a@.records =~= b@.records);
    Ok(a.records.len())
}

/// Replay is deterministic: two players over the same records with the same seed,
/// played to the end, give the same result.
pub proof fn law_replay_is_deterministic(
    m1: PlayerModel,
    m2: PlayerModel,
    samples: nat,
    a: PlayModel,
    b: PlayModel,
)
    requires
        m1.records == m2.records,
        m1.cursor == m2.cursor,
        m1.rng == m2.rng,
        played(m1, samples, a),
        played(m2, samples, b),
    ensures
        a == b,
{
    assert(a.histogram =~= b.histogram) by {
        assert forall|p: int| 0 <= p < LABELS implies a.histogram[p] == b.histogram[p] by {
            assert(a.histogram[p] == count_at(a.records, p));
            assert(b.histogram[p] == count_at(b.records, p));
        }
    }
}

} // verus!
