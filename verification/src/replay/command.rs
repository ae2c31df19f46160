//! The control commands of a replay and their wire forms.
use crate::replay::record::{AISource, RecordKind, ReplayRecord};
use vstd::prelude::*;

verus! {

pub const REPLAY_COMMAND_PREFIX: &'static str = "replay.command";

pub const REPLAY_COMMAND_LIST: &'static str = "replay.command.list";

pub const REPLAY_COMMAND_OPEN: &'static str = "replay.command.open";

pub const REPLAY_COMMAND_SCRUB: &'static str = "replay.command.scrub";

pub const REPLAY_COMMAND_STEP: &'static str = "replay.command.step";

pub const REPLAY_COMMAND_PLAY: &'static str = "replay.command.play";

pub const REPLAY_COMMAND_STATUS: &'static str = "replay.command.status";

/// Asks for the recorded sessions.
#[derive(Clone, Debug, PartialEq, Eq)]
pub struct ListSessionsRequest {}

/// The recorded sessions, ascending.
#[derive(Clone, Debug, PartialEq, Eq)]
pub struct ListSessionsResponse {
    pub sessions: Vec<u64>,
}

/// Asks to open a session, at a speed where one is given.
#[derive(Clone, Debug, PartialEq, Eq)]
pub struct OpenSessionRequest {
    pub session_id: u64,
    pub speed: Option<String>,
}

/// Whether a session was opened, and how many records it has.
#[derive(Clone, Debug, PartialEq, Eq)]
pub struct OpenSessionResponse {
    pub ok: bool,
    pub total: u64,
}

/// Asks to move to a record.
#[derive(Clone, Debug, PartialEq, Eq)]
pub struct ScrubRequest {
    pub sequence_no: u64,
}

/// Where the cursor is now, with the record it just passed where it stepped.
#[derive(Clone, Debug)]
pub struct CursorResponse {
    pub ok: bool,
    pub cursor: u64,
    pub record: Option<ReplayRecordWire>,
}

/// Asks to play at a speed: `x1`, `x10` or `max`.
#[derive(Clone, Debug, PartialEq, Eq)]
pub struct PlayRequest {
    pub speed: String,
}

/// Whether a command was accepted.
#[derive(Clone, Debug, PartialEq, Eq)]
pub struct AckResponse {
    pub ok: bool,
    pub detail: Option<String>,
}

/// What the player is doing.
#[derive(Clone, Debug, PartialEq, Eq)]
pub struct StatusResponse {
    pub session_id: Option<u64>,
    pub cursor: u64,
    pub total: u64,
    pub speed: String,
}

/// A record as the control commands send it, with the payload in base64.
#[derive(Clone, Debug)]
pub struct ReplayRecordWire {
    pub session_id: u64,
    pub sequence_no: u64,
    pub monotonic_ns: u64,
    pub wallclock_utc: i64,
    pub kind: RecordKindWire,
    pub payload_b64: String,
}

/// The kind of a record as it is sent.
#[derive(Clone, Copy, Debug, PartialEq, Eq, Structural)]
pub enum RecordKindWire {
    Tick,
    OrderBook,
    OpenInterest,
    NewsEvent,
    SignalEmitted,
    RiskDecision,
    OrderSubmitted,
    OrderModified,
    OrderCancelled,
    Fill,
    TraderAction,
    AiDecision { source: AiSourceWire },
    MarketConditionSnapshot,
}

/// The source of an AI decision as it is sent.
#[derive(Clone, Copy, Debug, PartialEq, Eq, Structural)]
pub enum AiSourceWire {
    Ranking,
    Regime,
    News,
    Psychology,
    Priority,
    Journal,
    Governance,
    Other,
}

/// The wire form of a source.
pub open spec fn source_wire(s: AISource) -> AiSourceWire {
    match s {
        AISource::Ranking => AiSourceWire::Ranking,
        AISource::Regime => AiSourceWire::Regime,
        AISource::News => AiSourceWire::News,
        AISource::Psychology => AiSourceWire::Psychology,
        AISource::Priority => AiSourceWire::Priority,
        AISource::Journal => AiSourceWire::Journal,
        AISource::Governance => AiSourceWire::Governance,
        AISource::Other => AiSourceWire::Other,
    }
}

/// The wire form of a kind.
pub open spec fn kind_wire(k: RecordKind) -> RecordKindWire {
    match k {
        RecordKind::Tick => RecordKindWire::Tick,
        RecordKind::OrderBook => RecordKindWire::OrderBook,
        RecordKind::OpenInterest => RecordKindWire::OpenInterest,
        RecordKind::NewsEvent => RecordKindWire::NewsEvent,
        RecordKind::SignalEmitted => RecordKindWire::SignalEmitted,
        RecordKind::RiskDecision => RecordKindWire::RiskDecision,
        RecordKind::OrderSubmitted => RecordKindWire::OrderSubmitted,
        RecordKind::OrderModified => RecordKindWire::OrderModified,
        RecordKind::OrderCancelled => RecordKindWire::OrderCancelled,
        RecordKind::Fill => RecordKindWire::Fill,
        RecordKind::TraderAction => RecordKindWire::TraderAction,
        RecordKind::AIDecision(s) => RecordKindWire::AiDecision { source: source_wire(s) },
        RecordKind::MarketConditionSnapshot => RecordKindWire::MarketConditionSnapshot,
    }
}

impl From<AISource> for AiSourceWire {
    fn from(s: AISource) -> (w: AiSourceWire) {
        match s {
            AISource::Ranking => AiSourceWire::Ranking,
            AISource::Regime => AiSourceWire::Regime,
            AISource::News => AiSourceWire::News,
            AISource::Psychology => AiSourceWire::Psychology,
            AISource::Priority => AiSourceWire::Priority,
            AISource::Journal => AiSourceWire::Journal,
            AISource::Governance => AiSourceWire::Governance,
            AISource::Other => AiSourceWire::Other,
        }
    }
}

impl vstd::std_specs::convert::FromSpecImpl<AISource> for AiSourceWire {
    open spec fn obeys_from_spec() -> bool {
        true
    }

    open spec fn from_spec(s: AISource) -> AiSourceWire {
        source_wire(s)
    }
}

impl From<RecordKind> for RecordKindWire {
    fn from(k: RecordKind) -> (w: RecordKindWire) {
        match k {
            RecordKind::Tick => RecordKindWire::Tick,
            RecordKind::OrderBook => RecordKindWire::OrderBook,
            RecordKind::OpenInterest => RecordKindWire::OpenInterest,
            RecordKind::NewsEvent => RecordKindWire::NewsEvent,
            RecordKind::SignalEmitted => RecordKindWire::SignalEmitted,
            RecordKind::RiskDecision => RecordKindWire::RiskDecision,
            RecordKind::OrderSubmitted => RecordKindWire::OrderSubmitted,
            RecordKind::OrderModified => RecordKindWire::OrderModified,
            RecordKind::OrderCancelled => RecordKindWire::OrderCancelled,
            RecordKind::Fill => RecordKindWire::Fill,
            RecordKind::TraderAction => RecordKindWire::TraderAction,
            RecordKind::AIDecision(s) => RecordKindWire::AiDecision {
                source: AiSourceWire::from(s),
            },
            RecordKind::MarketConditionSnapshot => RecordKindWire::MarketConditionSnapshot,
        }
    }
}

impl vstd::std_specs::convert::FromSpecImpl<RecordKind> for RecordKindWire {
    open spec fn obeys_from_spec() -> bool {
        true
    }

    open spec fn from_spec(k: RecordKind) -> RecordKindWire {
        kind_wire(k)
    }
}

impl<'a> From<&'a ReplayRecord> for ReplayRecordWire {
    /// The wire form of a record.
    fn from(r: &'a ReplayRecord) -> (w: ReplayRecordWire)
        ensures
            w.session_id == r.session_id,
            w.sequence_no == r.sequence_no,
            w.monotonic_ns == r.monotonic_ns,
            w.wallclock_utc == r.wallclock_utc,
            w.kind == kind_wire(r.kind),
            w.payload_b64@ == base64(r@.payload),
    {
        ReplayRecordWire {
            session_id: r.session_id,
            sequence_no: r.sequence_no,
            monotonic_ns: r.monotonic_ns,
            wallclock_utc: r.wallclock_utc,
            kind: RecordKindWire::from(r.kind),
            payload_b64: base64_encode(r.payload.as_slice()),
        }
    }
}

impl<'a> vstd::std_specs::convert::FromSpecImpl<&'a ReplayRecord> for ReplayRecordWire {
    open spec fn obeys_from_spec() -> bool {
        false
    }

    open spec fn from_spec(r: &'a ReplayRecord) -> ReplayRecordWire {
        arbitrary()
    }
}

/// The character of a six-bit number: upper case, lower case, digits, plus, slash.
pub open spec fn sextet_char(v: int) -> char {
    if v < 26 {
        (65 + v) as char
    } else if v < 52 {
        (71 + v) as char
    } else if v < 62 {
        (v - 4) as char
    } else if v == 62 {
        '+'
    } else {
        '/'
    }
}

/// The four characters of a 24-bit number.
pub open spec fn quad(n: int) -> Seq<char> {
    seq![
        sextet_char(n / 262144),
        sextet_char((n / 4096) % 64),
        sextet_char((n / 64) % 64),
        sextet_char(n % 64),
    ]
}

/// Base64 with padding: three bytes make four characters, and what is missing of
/// the last three is marked with equal signs.
pub open spec fn base64(bytes: Seq<u8>) -> Seq<char>
    decreases bytes.len(),
{
    if bytes.len() == 0 {
        Seq::empty()
    } else if bytes.len() == 1 {
        quad(bytes[0] * 65536).take(2) + seq!['=', '=']
    } else if bytes.len() == 2 {
        quad(bytes[0] * 65536 + bytes[1] * 256).take(3) + seq!['=']
    } else {
        quad(bytes[0] * 65536 + bytes[1] * 256 + bytes[2]) + base64(bytes.skip(3))
    }
}

/// The character of a six-bit number.
fn sextet(v: u32) -> (c: char)
    requires
        v < 64,
    ensures
        c == sextet_char(v as int),
{
    if v < 26 {
        (65 + v as u8) as char
    } else if v < 52 {
        (71 + v as u8) as char
    } else if v < 62 {
        (v as u8 - 4) as char
    } else if v == 62 {
        '+'
    } else {
        '/'
    }
}

/// Encode bytes in base64.
pub fn base64_encode(input: &[u8]) -> (text: String)
    ensures
        text@ == base64(input@),
{
    let mut out: String = String::new();
    let mut i: usize = 0;
    assert(input@.skip(0) =~= input@);
    assert(out@ + base64(input@) =~= base64(input@));
    while input.len() - i >= 3
        invariant
            i <= input@.len(),
            out@ + base64(input@.skip(i as int)) == base64(input@),
        decreases input@.len() - i,
    {
        let n: u32 = input[i] as u32 * 65536 + input[i + 1] as u32 * 256 + input[i + 2] as u32;
        let ghost before = out@;
        let ghost rest = input@.skip(i as int);
        out.push(sextet(n / 262144));
        out.push(sextet((n / 4096) % 64));
        out.push(sextet((n / 64) % 64));
        out.push(sextet(n % 64));
        assert(out@ =~= before + quad(n as int));
        assert(rest.skip(3) =~= input@.skip(i + 3));
        assert(out@ + base64(rest.skip(3)) =~= before + (quad(n as int) + base64(rest.skip(3))));
        i = i + 3;
    }
    let rem: usize = input.len() - i;
    let ghost before = out@;
    let ghost rest = input@.skip(i as int);
    if rem == 1 {
        let n: u32 = input[i] as u32 * 65536;
        out.push(sextet(n / 262144));
        out.push(sextet((n / 4096) % 64));
        out.push('=');
        out.push('=');
    } else if rem == 2 {
        let n: u32 = input[i] as u32 * 65536 + input[i + 1] as u32 * 256;
        out.push(sextet(n / 262144));
        out.push(sextet((n / 4096) % 64));
        out.push(sextet((n / 64) % 64));
        out.push('=');
    }
    assert(out@ =~= before + base64(rest));
    out
}

proof fn lemma_sextets_differ(v: int, w: int)
    requires
        0 <= v < 64,
        0 <= w < 64,
        sextet_char(v) == sextet_char(w),
    ensures
        v == w,
        sextet_char(v) != '=',
{
}

proof fn lemma_sextet_is_no_mark(v: int)
    requires
        0 <= v < 64,
    ensures
        sextet_char(v) != '=',
{
}

/// A 24-bit number from its four sextets.
proof fn lemma_recompose(n: int)
    requires
        0 <= n < 0x100_0000,
    ensures
        n == 262144 * (n / 262144) + 4096 * ((n / 4096) % 64) + 64 * ((n / 64) % 64) + n % 64,
        0 <= n / 262144 < 64,
{
}

/// The first four characters of a text, from the first 24 bits of its bytes.
proof fn lemma_first_quad(a: Seq<u8>)
    requires
        a.len() > 0,
    ensures
        0 <= head(a) < 0x100_0000,
        base64(a).len() >= 4,
        base64(a)[0] == sextet_char(head(a) / 262144),
        base64(a)[1] == sextet_char((head(a) / 4096) % 64),
        a.len() == 1 ==> base64(a).len() == 4 && base64(a)[2] == '=' && base64(a)[3] == '=',
        a.len() >= 2 ==> base64(a)[2] == sextet_char((head(a) / 64) % 64) && base64(a)[2] != '=',
        a.len() == 2 ==> base64(a).len() == 4 && base64(a)[3] == '=',
        a.len() >= 3 ==> base64(a)[3] == sextet_char(head(a) % 64) && base64(a)[3] != '='
            && base64(a).skip(4) == base64(a.skip(3)),
{
    let n = head(a);
    lemma_sextet_is_no_mark((n / 64) % 64);
    lemma_sextet_is_no_mark(n % 64);
    if a.len() >= 3 {
        assert(base64(a).skip(4) =~= base64(a.skip(3)));
    }
}

/// Bytes from their first 24 bits.
proof fn lemma_bytes_of_head(a: Seq<u8>, b: Seq<u8>)
    requires
        a.len() > 0,
        b.len() > 0,
        a.len() == b.len() || (a.len() >= 3 && b.len() >= 3),
        head(a) == head(b),
    ensures
        a[0] == b[0],
        a.len() >= 2 ==> a[1] == b[1],
        a.len() >= 3 ==> a[2] == b[2],
{
}

/// Base64 loses nothing: byte strings with one text are one.
pub proof fn law_base64_is_lossless(a: Seq<u8>, b: Seq<u8>)
    requires
        base64(a) == base64(b),
    ensures
        a == b,
    decreases a.len(),
{
    if a.len() == 0 || b.len() == 0 {
        if a.len() > 0 {
            lemma_first_quad(a);
        }
        if b.len() > 0 {
            lemma_first_quad(b);
        }
        assert(a =~= b);
    } else {
        lemma_first_quad(a);
        lemma_first_quad(b);
        let na = head(a);
        let nb = head(b);
        lemma_recompose(na);
        lemma_recompose(nb);
        lemma_sextets_differ(na / 262144, nb / 262144);
        lemma_sextets_differ((na / 4096) % 64, (nb / 4096) % 64);
        if a.len() >= 3 {
            lemma_sextets_differ((na / 64) % 64, (nb / 64) % 64);
            lemma_sextets_differ(na % 64, nb % 64);
            law_base64_is_lossless(a.skip(3), b.skip(3));
            lemma_bytes_of_head(a, b);
            assert(a =~= seq![a[0], a[1], a[2]] + a.skip(3));
            assert(b =~= seq![b[0], b[1], b[2]] + b.skip(3));
        } else if a.len() == 2 {
            lemma_sextets_differ((na / 64) % 64, (nb / 64) % 64);
            assert(na % 64 == 0 && nb % 64 == 0);
            lemma_bytes_of_head(a, b);
            assert(a =~= b);
        } else {
            assert(na % 4096 == 0 && nb % 4096 == 0);
            lemma_bytes_of_head(a, b);
            assert(a =~= b);
        }
    }
}

/// The first 24 bits of a byte string, zeros where it ends.
spec fn head(bytes: Seq<u8>) -> int {
    bytes[0] * 65536 + (if bytes.len() >= 2 {
        bytes[1] * 256
    } else {
        0
    }) + (if bytes.len() >= 3 {
        bytes[2] as int
    } else {
        0
    })
}

} // verus!
