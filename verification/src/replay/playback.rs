//! What playing a session sends, and where.
use crate::base::schema::Tick;
use crate::base::text::{decimal, decimal_text, join};
use crate::base::wire::{from_pattern, get_u32_le, get_u64_le, le_value, unpattern};
use crate::market_data::tick_wire::{law_decode_after_encode, tick_bytes, TICK_WIRE_SIZE};
use crate::replay::record::{RecordKind, RecordModel, ReplayRecord};
use vstd::prelude::*;

verus! {

/// One message to the bus.
#[derive(Clone, Debug, PartialEq, Eq)]
pub enum Publication {
    /// The payload as it was recorded.
    Raw { subject: String, payload: Vec<u8> },
    /// A view of a tick, to be sent as JSON.
    TickView {
        subject: String,
        symbol: String,
        ltp_paise: i64,
        bid_paise: i64,
        ask_paise: i64,
        ts_recv_ns: i64,
    },
}

/// What a message says.
pub enum PublicationModel {
    Raw { subject: Seq<char>, payload: Seq<u8> },
    TickView {
        subject: Seq<char>,
        symbol: Seq<char>,
        ltp_paise: int,
        bid_paise: int,
        ask_paise: int,
        ts_recv_ns: int,
    },
}

impl View for Publication {
    type V = PublicationModel;

    open spec fn view(&self) -> PublicationModel {
        match self {
            Publication::Raw { subject, payload } => PublicationModel::Raw {
                subject: subject@,
                payload: payload@,
            },
            Publication::TickView { subject, symbol, ltp_paise, bid_paise, ask_paise, ts_recv_ns } =>
                PublicationModel::TickView {
                subject: subject@,
                symbol: symbol@,
                ltp_paise: *ltp_paise as int,
                bid_paise: *bid_paise as int,
                ask_paise: *ask_paise as int,
                ts_recv_ns: *ts_recv_ns as int,
            },
        }
    }
}

/// What messages say.
pub open spec fn messages(list: Seq<Publication>) -> Seq<PublicationModel> {
    list.map_values(|p: Publication| p@)
}

/// Whether a record is a tick in its binary form.
pub open spec fn is_binary_tick(r: RecordModel) -> bool {
    r.kind is Tick && r.payload.len() == TICK_WIRE_SIZE
}

/// The name that stands in subjects for a symbol.
pub open spec fn name_of(symbol: Option<Seq<char>>) -> Seq<char> {
    match symbol {
        Some(name) => name,
        None => "UNKNOWN"@,
    }
}

/// The subject of a payload that is sent as it was recorded.
pub open spec fn subject_for(kind: RecordKind) -> Seq<char> {
    match kind {
        RecordKind::Tick => "md.tick.1"@,
        RecordKind::OrderBook => "md.book.1"@,
        RecordKind::OpenInterest => "md.oi.1"@,
        RecordKind::NewsEvent => "news.replay"@,
        RecordKind::SignalEmitted => "sig.emitted"@,
        RecordKind::RiskDecision => "risk.decision.approved"@,
        RecordKind::OrderSubmitted => "exec.order.submitted"@,
        RecordKind::OrderModified => "exec.order.modified"@,
        RecordKind::OrderCancelled => "exec.order.cancelled"@,
        RecordKind::Fill => "exec.fill.0"@,
        RecordKind::TraderAction => "trader.replay"@,
        RecordKind::AIDecision(_) => "ai.replay"@,
        RecordKind::MarketConditionSnapshot => "md.replay"@,
    }
}

/// What a record sends. A binary tick goes out twice, under the name of its
/// symbol: as it was recorded, and as a view. Everything else goes out as it was
/// recorded, under the subject of its kind.
pub open spec fn sent_for(r: RecordModel, symbol: Option<Seq<char>>) -> Seq<PublicationModel> {
    if is_binary_tick(r) {
        seq![
            PublicationModel::Raw {
                subject: "md.tick.bin."@ + name_of(symbol),
                payload: r.payload,
            },
            PublicationModel::TickView {
                subject: "md.tick."@ + name_of(symbol),
                symbol: name_of(symbol),
                ltp_paise: unpattern(le_value(r.payload.subrange(21, 29))),
                bid_paise: unpattern(le_value(r.payload.subrange(29, 37))),
                ask_paise: unpattern(le_value(r.payload.subrange(37, 45))),
                ts_recv_ns: unpattern(le_value(r.payload.subrange(77, 85))),
            },
        ]
    } else {
        seq![PublicationModel::Raw { subject: subject_for(r.kind), payload: r.payload }]
    }
}

/// The number of the symbol of a binary tick.
pub fn symbol_in(record: &ReplayRecord) -> (id: Option<u32>)
    ensures
        match id {
            Some(id) => is_binary_tick(record@) && id == le_value(record@.payload.subrange(16, 20)),
            None => !is_binary_tick(record@),
        },
{
    match record.kind {
        RecordKind::Tick => if record.payload.len() == TICK_WIRE_SIZE {
            Some(get_u32_le(record.payload.as_slice(), 16))
        } else {
            None
        },
        _ => None,
    }
}

/// The subject of a payload that is sent as it was recorded.
pub fn raw_subject(kind: RecordKind) -> (subject: &'static str)
    ensures
        subject@ == subject_for(kind),
{
    match kind {
        RecordKind::Tick => "md.tick.1",
        RecordKind::OrderBook => "md.book.1",
        RecordKind::OpenInterest => "md.oi.1",
        RecordKind::NewsEvent => "news.replay",
        RecordKind::SignalEmitted => "sig.emitted",
        RecordKind::RiskDecision => "risk.decision.approved",
        RecordKind::OrderSubmitted => "exec.order.submitted",
        RecordKind::OrderModified => "exec.order.modified",
        RecordKind::OrderCancelled => "exec.order.cancelled",
        RecordKind::Fill => "exec.fill.0",
        RecordKind::TraderAction => "trader.replay",
        RecordKind::AIDecision(_) => "ai.replay",
        RecordKind::MarketConditionSnapshot => "md.replay",
    }
}

/// What a record sends, given the name of its symbol where there is one.
pub fn publications(record: ReplayRecord, symbol: Option<String>) -> (sent: Vec<Publication>)
    ensures
        messages(sent@) == sent_for(
            record@,
            match symbol {
                Some(name) => Some(name@),
                None => None,
            },
        ),
{
    let ghost r = record@;
    let mut sent: Vec<Publication> = Vec::new();
    if symbol_in(&record).is_some() {
        let name = match symbol {
            Some(name) => name,
            None => String::from_str("UNKNOWN"),
        };
        let bytes = record.payload.as_slice();
        let ltp_paise: i64 = from_pattern(get_u64_le(bytes, 21));
        let bid_paise: i64 = from_pattern(get_u64_le(bytes, 29));
        let ask_paise: i64 = from_pattern(get_u64_le(bytes, 37));
        let ts_recv_ns: i64 = from_pattern(get_u64_le(bytes, 77));
        sent.push(
            Publication::Raw {
                subject: join("md.tick.bin.", name.as_str()),
                payload: record.payload,
            },
        );
        sent.push(
            Publication::TickView {
                subject: join("md.tick.", name.as_str()),
                symbol: name,
                ltp_paise,
                bid_paise,
                ask_paise,
                ts_recv_ns,
            },
        );
        assert(messages(sent@) =~= sent_for(r, Some(name@)));
    } else {
        sent.push(
            Publication::Raw {
                subject: String::from_str(raw_subject(record.kind)),
                payload: record.payload,
            },
        );
        assert(messages(sent@) =~= seq![sent@[0]@]);
    }
    sent
}

/// The name of a record's kind.
pub open spec fn kind_name(kind: RecordKind) -> Seq<char> {
    match kind {
        RecordKind::Tick => "Tick"@,
        RecordKind::OrderBook => "OrderBook"@,
        RecordKind::OpenInterest => "OpenInterest"@,
        RecordKind::NewsEvent => "NewsEvent"@,
        RecordKind::SignalEmitted => "SignalEmitted"@,
        RecordKind::RiskDecision => "RiskDecision"@,
        RecordKind::OrderSubmitted => "OrderSubmitted"@,
        RecordKind::OrderModified => "OrderModified"@,
        RecordKind::OrderCancelled => "OrderCancelled"@,
        RecordKind::Fill => "Fill"@,
        RecordKind::TraderAction => "TraderAction"@,
        RecordKind::AIDecision(_) => "AIDecision"@,
        RecordKind::MarketConditionSnapshot => "MarketConditionSnapshot"@,
    }
}

/// The name of a record's kind.
pub fn fmt_kind(r: &ReplayRecord) -> (name: &'static str)
    ensures
        name@ == kind_name(r@.kind),
{
    match r.kind {
        RecordKind::Tick => "Tick",
        RecordKind::OrderBook => "OrderBook",
        RecordKind::OpenInterest => "OpenInterest",
        RecordKind::NewsEvent => "NewsEvent",
        RecordKind::SignalEmitted => "SignalEmitted",
        RecordKind::RiskDecision => "RiskDecision",
        RecordKind::OrderSubmitted => "OrderSubmitted",
        RecordKind::OrderModified => "OrderModified",
        RecordKind::OrderCancelled => "OrderCancelled",
        RecordKind::Fill => "Fill",
        RecordKind::TraderAction => "TraderAction",
        RecordKind::AIDecision(_) => "AIDecision",
        RecordKind::MarketConditionSnapshot => "MarketConditionSnapshot",
    }
}

/// Numbers in a row, with commas between them.
pub open spec fn listed(ids: Seq<u64>) -> Seq<char>
    decreases ids.len(),
{
    if ids.len() == 0 {
        Seq::empty()
    } else if ids.len() == 1 {
        decimal(ids[0] as nat)
    } else {
        listed(ids.drop_last()) + ", "@ + decimal(ids.last() as nat)
    }
}

/// What to play in place of an empty session, in words. `sessions` is `None` where
/// they could not be listed.
pub open spec fn alternatives(sessions: Option<Seq<u64>>) -> Seq<char> {
    match sessions {
        None => "(failed to list sessions)"@,
        Some(ids) => if ids.len() == 0 {
            "(no sessions found)"@
        } else {
            listed(ids)
        },
    }
}

/// Numbers in a row, with commas between them.
fn list_text(ids: &[u64]) -> (text: String)
    ensures
        text@ == listed(ids@),
{
    let mut text = String::new();
    let mut i: usize = 0;
    assert(ids@.take(0) =~= Seq::empty());
    while i < ids.len()
        invariant
            i <= ids@.len(),
            text@ == listed(ids@.take(i as int)),
        decreases ids@.len() - i,
    {
        assert(ids@.take(i + 1).drop_last() =~= ids@.take(i as int));
        if i > 0 {
            text.append(", ");
        }
        text.append(decimal_text(ids[i]).as_str());
        i = i + 1;
    }
    assert(ids@.take(i as int) =~= ids@);
    text
}

/// The complaint about a session without records.
pub fn empty_session_text(session_id: u64, sessions: Option<Vec<u64>>) -> (text: String)
    ensures
        text@ == "Session "@ + decimal(session_id as nat)
            + " has 0 records. Available sessions: "@ + alternatives(
            match sessions {
                Some(ids) => Some(ids@),
                None => None,
            },
        ),
{
    let available = match sessions {
        None => String::from_str("(failed to list sessions)"),
        Some(ids) => if ids.len() == 0 {
            String::from_str("(no sessions found)")
        } else {
            list_text(ids.as_slice())
        },
    };
    let mut text = String::from_str("Session ");
    text.append(decimal_text(session_id).as_str());
    text.append(" has 0 records. Available sessions: ");
    text.append(available.as_str());
    text
}

/// Every record is sent: its payload goes out unchanged, in the first message.
pub proof fn law_playback_loses_no_payload(r: RecordModel, symbol: Option<Seq<char>>)
    ensures
        sent_for(r, symbol).len() >= 1,
        sent_for(r, symbol)[0] matches PublicationModel::Raw { payload, .. } && payload
            == r.payload,
{
}

/// The view of a recorded tick shows the prices of that tick.
pub proof fn law_view_shows_the_tick(r: RecordModel, t: Tick, symbol: Option<Seq<char>>)
    requires
        r.kind is Tick,
        r.payload == tick_bytes(t),
    ensures
        sent_for(r, symbol).len() == 2,
        sent_for(r, symbol)[1] == (PublicationModel::TickView {
            subject: "md.tick."@ + name_of(symbol),
            symbol: name_of(symbol),
            ltp_paise: t.ltp_paise as int,
            bid_paise: t.bid_paise as int,
            ask_paise: t.ask_paise as int,
            ts_recv_ns: unpattern(t.ts_recv_ns as nat),
        }),
{
    law_decode_after_encode(t);
}

/// Words with a dot between them.
pub open spec fn dotted(words: Seq<Seq<char>>) -> Seq<char>
    decreases words.len(),
{
    if words.len() == 0 {
        Seq::empty()
    } else if words.len() == 1 {
        words[0]
    } else {
        dotted(words.drop_last()).push('.') + words.last()
    }
}

proof fn lemma_dotted(a: Seq<char>, b: Seq<char>, c: Seq<char>)
    ensures
        dotted(seq![a, b]) == a.push('.') + b,
        dotted(seq![a, b, c]) == (a.push('.') + b).push('.') + c,
{
    assert(dotted(seq![a]) == a);
    assert(seq![a, b].drop_last() =~= seq![a]);
    assert(dotted(seq![a, b]) == dotted(seq![a]).push('.') + b);
    assert(seq![a, b, c].drop_last() =~= seq![a, b]);
    assert(dotted(seq![a, b, c]) == dotted(seq![a, b]).push('.') + c);
}

/// Orders go out under `exec.order` and what became of them, fills under `exec.fill`,
/// signals and decisions under their own subjects, market data under `md`, and the
/// rest under the name of its service.
pub proof fn law_subjects_say_what_happened(kind: RecordKind)
    ensures
        kind is OrderSubmitted ==> subject_for(kind) == dotted(
            seq!["exec"@, "order"@, "submitted"@],
        ),
        kind is OrderModified ==> subject_for(kind) == dotted(
            seq!["exec"@, "order"@, "modified"@],
        ),
        kind is OrderCancelled ==> subject_for(kind) == dotted(
            seq!["exec"@, "order"@, "cancelled"@],
        ),
        kind is Fill ==> subject_for(kind) == dotted(seq!["exec"@, "fill"@, "0"@]),
        kind is SignalEmitted ==> subject_for(kind) == dotted(seq!["sig"@, "emitted"@]),
        kind is RiskDecision ==> subject_for(kind) == dotted(
            seq!["risk"@, "decision"@, "approved"@],
        ),
        kind is Tick ==> subject_for(kind) == dotted(seq!["md"@, "tick"@, "1"@]),
        kind is OrderBook ==> subject_for(kind) == dotted(seq!["md"@, "book"@, "1"@]),
        kind is OpenInterest ==> subject_for(kind) == dotted(seq!["md"@, "oi"@, "1"@]),
        kind is MarketConditionSnapshot ==> subject_for(kind) == dotted(seq!["md"@, "replay"@]),
        kind is NewsEvent ==> subject_for(kind) == dotted(seq!["news"@, "replay"@]),
        kind is TraderAction ==> subject_for(kind) == dotted(seq!["trader"@, "replay"@]),
        kind is AIDecision ==> subject_for(kind) == dotted(seq!["ai"@, "replay"@]),
{
    reveal_strlit("exec");
    reveal_strlit("order");
    reveal_strlit("submitted");
    reveal_strlit("modified");
    reveal_strlit("cancelled");
    reveal_strlit("fill");
    reveal_strlit("0");
    reveal_strlit("sig");
    reveal_strlit("emitted");
    reveal_strlit("risk");
    reveal_strlit("decision");
    reveal_strlit("approved");
    reveal_strlit("md");
    reveal_strlit("tick");
    reveal_strlit("1");
    reveal_strlit("book");
    reveal_strlit("oi");
    reveal_strlit("replay");
    reveal_strlit("news");
    reveal_strlit("trader");
    reveal_strlit("ai");
    lemma_subjects();
    lemma_dotted("exec"@, "order"@, "submitted"@);
    lemma_dotted("exec"@, "order"@, "modified"@);
    lemma_dotted("exec"@, "order"@, "cancelled"@);
    lemma_dotted("exec"@, "fill"@, "0"@);
    lemma_dotted("sig"@, "emitted"@, "0"@);
    lemma_dotted("risk"@, "decision"@, "approved"@);
    lemma_dotted("md"@, "tick"@, "1"@);
    lemma_dotted("md"@, "book"@, "1"@);
    lemma_dotted("md"@, "oi"@, "1"@);
    lemma_dotted("md"@, "replay"@, "1"@);
    lemma_dotted("news"@, "replay"@, "1"@);
    lemma_dotted("trader"@, "replay"@, "1"@);
    lemma_dotted("ai"@, "replay"@, "1"@);
    match kind {
        RecordKind::Tick => assert("md.tick.1"@ =~= dotted(seq!["md"@, "tick"@, "1"@])),
        RecordKind::OrderBook => assert("md.book.1"@ =~= dotted(seq!["md"@, "book"@, "1"@])),
        RecordKind::OpenInterest => assert("md.oi.1"@ =~= dotted(seq!["md"@, "oi"@, "1"@])),
        RecordKind::NewsEvent => assert("news.replay"@ =~= dotted(seq!["news"@, "replay"@])),
        RecordKind::SignalEmitted => assert("sig.emitted"@ =~= dotted(
            seq!["sig"@, "emitted"@],
        )),
        RecordKind::RiskDecision => assert("risk.decision.approved"@ =~= dotted(
            seq!["risk"@, "decision"@, "approved"@],
        )),
        RecordKind::OrderSubmitted => assert("exec.order.submitted"@ =~= dotted(
            seq!["exec"@, "order"@, "submitted"@],
        )),
        RecordKind::OrderModified => assert("exec.order.modified"@ =~= dotted(
            seq!["exec"@, "order"@, "modified"@],
        )),
        RecordKind::OrderCancelled => assert("exec.order.cancelled"@ =~= dotted(
            seq!["exec"@, "order"@, "cancelled"@],
        )),
        RecordKind::Fill => assert("exec.fill.0"@ =~= dotted(seq!["exec"@, "fill"@, "0"@])),
        RecordKind::TraderAction => assert("trader.replay"@ =~= dotted(
            seq!["trader"@, "replay"@],
        )),
        RecordKind::AIDecision(_) => assert("ai.replay"@ =~= dotted(seq!["ai"@, "replay"@])),
        RecordKind::MarketConditionSnapshot => assert("md.replay"@ =~= dotted(
            seq!["md"@, "replay"@],
        )),
    }
}

proof fn lemma_subjects()
    ensures
        "md.tick.1"@ =~= seq!['m', 'd', '.', 't', 'i', 'c', 'k', '.', '1'],
        "md.book.1"@ =~= seq!['m', 'd', '.', 'b', 'o', 'o', 'k', '.', '1'],
        "md.oi.1"@ =~= seq!['m', 'd', '.', 'o', 'i', '.', '1'],
        "news.replay"@ =~= seq!['n', 'e', 'w', 's', '.', 'r', 'e', 'p', 'l', 'a', 'y'],
        "sig.emitted"@ =~= seq!['s', 'i', 'g', '.', 'e', 'm', 'i', 't', 't', 'e', 'd'],
        "trader.replay"@ =~= seq![
            't', 'r', 'a', 'd', 'e', 'r', '.', 'r', 'e', 'p', 'l', 'a', 'y',
        ],
        "ai.replay"@ =~= seq!['a', 'i', '.', 'r', 'e', 'p', 'l', 'a', 'y'],
        "md.replay"@ =~= seq!['m', 'd', '.', 'r', 'e', 'p', 'l', 'a', 'y'],
        "exec.fill.0"@ =~= seq!['e', 'x', 'e', 'c', '.', 'f', 'i', 'l', 'l', '.', '0'],
        "risk.decision.approved"@ =~= seq![
            'r', 'i', 's', 'k', '.', 'd', 'e', 'c', 'i', 's', 'i', 'o', 'n', '.', 'a', 'p', 'p',
            'r', 'o', 'v', 'e', 'd',
        ],
        "exec.order.submitted"@ =~= seq![
            'e', 'x', 'e', 'c', '.', 'o', 'r', 'd', 'e', 'r', '.', 's', 'u', 'b', 'm', 'i', 't',
            't', 'e', 'd',
        ],
        "exec.order.modified"@ =~= seq![
            'e', 'x', 'e', 'c', '.', 'o', 'r', 'd', 'e', 'r', '.', 'm', 'o', 'd', 'i', 'f', 'i',
            'e', 'd',
        ],
        "exec.order.cancelled"@ =~= seq![
            'e', 'x', 'e', 'c', '.', 'o', 'r', 'd', 'e', 'r', '.', 'c', 'a', 'n', 'c', 'e', 'l',
            'l', 'e', 'd',
        ],
{
    reveal_strlit("md.tick.1");
    reveal_strlit("md.book.1");
    reveal_strlit("md.oi.1");
    reveal_strlit("news.replay");
    reveal_strlit("sig.emitted");
    reveal_strlit("trader.replay");
    reveal_strlit("ai.replay");
    reveal_strlit("md.replay");
    reveal_strlit("exec.fill.0");
    reveal_strlit("risk.decision.approved");
    reveal_strlit("exec.order.submitted");
    reveal_strlit("exec.order.modified");
    reveal_strlit("exec.order.cancelled");
}

/// Records of two different kinds never go out under one subject; all decisions of
/// AI pipelines count as one kind.
pub proof fn law_kinds_have_their_own_subjects(a: RecordKind, b: RecordKind)
    requires
        subject_for(a) == subject_for(b),
    ensures
        a == b || (a is AIDecision && b is AIDecision),
{
    lemma_subjects();
    let s = subject_for(a);
    let t = subject_for(b);
    assert(s.len() == t.len());
    assert(s[0] == t[0] && s[3] == t[3]);
    if s.len() > 11 {
        assert(s[11] == t[11]);
    }
}

/// A record that is no binary tick goes out once, under the subject of its kind. A
/// tick of eighty-five bytes goes out under the name of its symbol: as it was
/// recorded, and then as a view.
pub proof fn law_records_go_out_whole(r: RecordModel, symbol: Option<Seq<char>>)
    ensures
        !(r.kind is Tick && r.payload.len() == 85) ==> sent_for(r, symbol) == seq![
            PublicationModel::Raw { subject: subject_for(r.kind), payload: r.payload },
        ],
        r.kind is Tick && r.payload.len() == 85 ==> {
            let name = if symbol is Some {
                symbol->0
            } else {
                "UNKNOWN"@
            };
            &&& sent_for(r, symbol).len() == 2
            &&& sent_for(r, symbol)[0] == (PublicationModel::Raw {
                subject: "md.tick.bin."@ + name,
                payload: r.payload,
            })
            &&& sent_for(r, symbol)[1] matches PublicationModel::TickView {
                subject,
                symbol: shown,
                ..
            } && subject == "md.tick."@ + name && shown == name
        },
{
}

/// The symbol under which a recorded tick is looked up is that of the tick.
pub proof fn law_ticks_keep_their_symbol(t: Tick)
    ensures
        le_value(tick_bytes(t).subrange(16, 20)) == t.symbol,
{
    law_decode_after_encode(t);
}

/// No two kinds have one name, but for the decisions of AI pipelines.
pub proof fn law_kind_names_are_distinct(a: RecordKind, b: RecordKind)
    requires
        kind_name(a) == kind_name(b),
    ensures
        a == b || (a is AIDecision && b is AIDecision),
{
    reveal_strlit("Tick");
    reveal_strlit("OrderBook");
    reveal_strlit("OpenInterest");
    reveal_strlit("NewsEvent");
    reveal_strlit("SignalEmitted");
    reveal_strlit("RiskDecision");
    reveal_strlit("OrderSubmitted");
    reveal_strlit("OrderModified");
    reveal_strlit("OrderCancelled");
    reveal_strlit("Fill");
    reveal_strlit("TraderAction");
    reveal_strlit("AIDecision");
    reveal_strlit("MarketConditionSnapshot");
    let s = kind_name(a);
    let t = kind_name(b);
    assert(s.len() == t.len());
    assert(s[0] == t[0] && s[1] == t[1]);
    if s.len() > 5 {
        assert(s[5] == t[5]);
    }
}

/// Numbers in a row stand in their order, each after a comma but the first.
pub proof fn law_numbers_are_listed_in_order(ids: Seq<u64>, next: u64)
    ensures
        listed(seq![next]) == decimal(next as nat),
        ids.len() > 0 ==> listed(ids.push(next)) == listed(ids) + seq![',', ' '] + decimal(
            next as nat,
        ),
{
    reveal_strlit(", ");
    assert(", "@ =~= seq![',', ' ']);
    assert(ids.push(next).drop_last() =~= ids);
}

/// Where a session is missing, the others are listed; it is said where there are none
/// and where they could not be listed.
pub proof fn law_other_sessions_are_offered(ids: Seq<u64>)
    ensures
        ids.len() > 0 ==> alternatives(Some(ids)) == listed(ids),
        ids.len() == 0 ==> alternatives(Some(ids)) == "(no sessions found)"@,
        alternatives(None) == "(failed to list sessions)"@,
{
}

} // verus!
