//! The bridge from a broker's quotes to the bus: what the replies hold, what is
//! published, and how failures are met.
use crate::base::arith::{narrow_i64, wrap_i64};
use crate::base::json::{
    as_list, as_members, duplicate, json_document, lists_members, member, models, parse_json,
    text_at, u64_at, value_model, JsonModel,
};
use crate::base::order::{alphabetical, by_alphabet, lemma_alphabet_is_total, text_le, texts};
use crate::base::schema::Tick;
use crate::base::sort::{lemma_ranking, rank, ranking, reordered};
use crate::base::split::{
    after_first, replace_char, replaced, squeeze, squeezed, tail_after, white_space,
};
use crate::base::text::{join, number_in, parse_u64, same_text};
use crate::base::wire::{le_bytes, pattern, to_pattern};
use crate::market_data::tick_wire::{
    law_decode_after_encode, spells, tick_bytes, tick_to_raw_bytes, TICK_WIRE_SIZE,
};
use serde_json::Value;
use vstd::prelude::*;
use vstd::string::StringExecFns;

verus! {

/// The name of the feed.
pub const SOURCE: &'static str = "upstox";

/// How many strikes an open-interest ladder shows.
pub const LADDER_STRIKES: usize = 11;

/// After more failures than this in a row, the pollers pause.
pub const PATIENCE: u32 = 5;

/// Whether a number is a power of two.
pub open spec fn power_of_two(n: nat) -> bool
    decreases n,
{
    n == 1 || (n > 1 && n % 2 == 0 && power_of_two(n / 2))
}

/// Whether a number is a power of two.
fn is_power_of_two(n: u32) -> (yes: bool)
    ensures
        yes == power_of_two(n as nat),
{
    let mut m: u32 = n;
    while m > 1 && m % 2 == 0
        invariant
            power_of_two(n as nat) == power_of_two(m as nat),
        decreases m,
    {
        m = m / 2;
    }
    m == 1
}

/// Failures in a row.
#[derive(Clone, Copy, Debug, PartialEq, Eq, Structural)]
pub struct FailureStreak {
    pub failures: u32,
}

/// What to do about a failure.
#[derive(Clone, Copy, Debug, PartialEq, Eq, Structural)]
pub struct FailureStep {
    /// Failures in a row so far.
    pub failures: u32,
    /// Whether to say so.
    pub report: bool,
    /// Whether to pause before the next attempt.
    pub pause: bool,
}

impl FailureStreak {
    pub fn new() -> (s: FailureStreak)
        ensures
            s.failures == 0,
    {
        FailureStreak { failures: 0 }
    }

    /// The streak after one more failure, held at the largest `u32`.
    pub open spec fn longer(self) -> FailureStreak {
        FailureStreak {
            failures: if self.failures == u32::MAX {
                u32::MAX
            } else {
                (self.failures + 1) as u32
            },
        }
    }

    /// Take in a failure. The first is reported, and then every one whose number is
    /// a power of two.
    pub fn on_failure(&mut self) -> (step: FailureStep)
        ensures
            *final(self) == old(self).longer(),
            step.failures == final(self).failures,
            step.report == power_of_two(final(self).failures as nat),
            step.pause == (final(self).failures > PATIENCE),
    {
        self.failures = if self.failures == u32::MAX {
            u32::MAX
        } else {
            self.failures + 1
        };
        FailureStep {
            failures: self.failures,
            report: self.failures == 1 || is_power_of_two(self.failures),
            pause: self.failures > PATIENCE,
        }
    }

    /// Take in a success. Returns how many failures it ends.
    pub fn on_success(&mut self) -> (ended: u32)
        ensures
            final(self).failures == 0,
            ended == old(self).failures,
    {
        let ended: u32 = self.failures;
        self.failures = 0;
        ended
    }

    /// Whether to pause before the next round.
    pub fn needs_pause(&self) -> (yes: bool)
        ensures
            yes == (self.failures > PATIENCE),
    {
        self.failures > PATIENCE
    }
}

/// The interval that a setting asks for, where it is a number.
pub fn interval_ms(setting: Option<&str>, otherwise: u64) -> (ms: u64)
    ensures
        ms == match setting {
            Some(text) => match number_in(text@) {
                Ok(n) => n,
                Err(_) => otherwise as int,
            },
            None => otherwise as int,
        },
{
    match setting {
        Some(text) => match parse_u64(text) {
            Ok(n) => n,
            Err(_) => otherwise,
        },
        None => otherwise,
    }
}

/// What is wrong with a reply.
pub open spec fn fault_of(
    what: Seq<char>,
    status: u16,
    status_words: Seq<char>,
    body: Seq<char>,
) -> Option<Seq<char>> {
    if 200 <= status <= 299 {
        None
    } else {
        Some(what + " http "@ + status_words + ": "@ + body)
    }
}

/// What is wrong with a reply, by its status.
pub fn http_fault(what: &str, status: u16, status_words: &str, body: &str) -> (fault: Option<
    String,
>)
    ensures
        match fault {
            Some(f) => fault_of(what@, status, status_words@, body@) == Some(f@),
            None => fault_of(what@, status, status_words@, body@) is None,
        },
{
    if 200 <= status && status <= 299 {
        None
    } else {
        let mut f = join(what, " http ");
        f.append(status_words);
        f.append(": ");
        f.append(body);
        Some(f)
    }
}

/// What is wrong with the reply to the first request.
pub open spec fn probe_fault_of(
    status: u16,
    status_words: Seq<char>,
    body: Seq<char>,
) -> Option<Seq<char>> {
    if 200 <= status <= 299 {
        None
    } else if status == 401 {
        Some(
            "Upstox returned 401 Unauthorized. Access token is expired or invalid. body="@ + body,
        )
    } else {
        Some("Upstox probe returned HTTP "@ + status_words + ": "@ + body)
    }
}

/// What is wrong with the reply to the first request, by its status.
pub fn probe_fault(status: u16, status_words: &str, body: &str) -> (fault: Option<String>)
    ensures
        match fault {
            Some(f) => probe_fault_of(status, status_words@, body@) == Some(f@),
            None => probe_fault_of(status, status_words@, body@) is None,
        },
{
    if 200 <= status && status <= 299 {
        None
    } else if status == 401 {
        Some(
            join(
                "Upstox returned 401 Unauthorized. Access token is expired or invalid. body=",
                body,
            ),
        )
    } else {
        let mut f = join("Upstox probe returned HTTP ", status_words);
        f.append(": ");
        f.append(body);
        Some(f)
    }
}

/// Why a reply is of no use.
#[derive(Clone, Copy, Debug, PartialEq, Eq, Structural)]
pub enum ReplyFault {
    /// It has no data.
    MissingData,
    /// All expiries lie in the past.
    NoFutureExpiry,
}

impl ReplyFault {
    /// The words of a fault in the reply to a request for a list.
    pub open spec fn words(self, what: Seq<char>) -> Seq<char> {
        match self {
            ReplyFault::MissingData => what + ": missing data array"@,
            ReplyFault::NoFutureExpiry => "no future expiry found for underlying"@,
        }
    }

    /// The fault in the reply to a request for a list, in words.
    pub fn to_text(self, what: &str) -> (text: String)
        ensures
            text@ == self.words(what@),
    {
        match self {
            ReplyFault::MissingData => join(what, ": missing data array"),
            ReplyFault::NoFutureExpiry => String::from_str("no future expiry found for underlying"),
        }
    }
}

/// Why a body is of no use.
#[derive(Debug, PartialEq, Eq)]
pub enum BodyFault {
    /// It is no JSON document; what the parser said.
    NotJson(String),
    /// The document is no reply to the request.
    Reply(ReplyFault),
}

impl BodyFault {
    /// The words of a fault in the body that answers a request for a list.
    pub open spec fn words(self, what: Seq<char>) -> Seq<char> {
        match self {
            BodyFault::NotJson(said) => what + " json: "@ + said@,
            BodyFault::Reply(fault) => fault.words(what),
        }
    }

    /// The fault in the body that answers a request for a list, in words.
    pub fn to_text(&self, what: &str) -> (text: String)
        ensures
            text@ == self.words(what@),
    {
        match self {
            BodyFault::NotJson(said) => join(
                join(what, " json: ").as_str(),
                said.as_str(),
            ),
            BodyFault::Reply(fault) => fault.to_text(what),
        }
    }
}

/// Whether the body that answers the probe is a JSON document; what the parser said
/// where it is none.
pub fn read_probe(body: &[u8]) -> (read: Result<(), BodyFault>)
    ensures
        match read {
            Ok(_) => json_document(body@) is Some,
            Err(fault) => fault is NotJson && json_document(body@) is None,
        },
{
    match parse_json(body) {
        Ok(_) => Ok(()),
        Err(said) => Err(BodyFault::NotJson(said)),
    }
}

/// The elements of the list in a body.
pub fn read_chain(body: &[u8]) -> (rows: Result<Vec<Value>, BodyFault>)
    ensures
        match rows {
            Ok(rows) => json_document(body@) matches Some(doc) && data_list(doc) == Some(
                models(rows@),
            ),
            Err(BodyFault::NotJson(_)) => json_document(body@) is None,
            Err(BodyFault::Reply(fault)) => {
                &&& fault is MissingData
                &&& json_document(body@) matches Some(doc)
                &&& data_list(doc) is None
            },
        },
{
    let doc = match parse_json(body) {
        Ok(doc) => doc,
        Err(said) => return Err(BodyFault::NotJson(said)),
    };
    let list = match data_rows(&doc) {
        Ok(list) => list,
        Err(fault) => return Err(BodyFault::Reply(fault)),
    };
    let mut rows: Vec<Value> = Vec::new();
    let mut i: usize = 0;
    while i < list.len()
        invariant
            i <= list@.len(),
            rows@.len() == i,
            forall|k: int|
                0 <= k < i ==> value_model(#[trigger] rows@[k]) == value_model(list@[k]),
        decreases list@.len() - i,
    {
        rows.push(duplicate(&list[i]));
        i = i + 1;
    }
    assert(models(rows@) =~= models(list@));
    Ok(rows)
}

/// The nearest expiry in a body that lists contracts.
pub fn read_nearest_expiry(body: &[u8], today: &str) -> (expiry: Result<String, BodyFault>)
    ensures
        match expiry {
            Ok(e) => {
                &&& json_document(body@) matches Some(doc)
                &&& data_list(doc) matches Some(items)
                &&& nearest(items, today@, e@)
            },
            Err(BodyFault::NotJson(_)) => json_document(body@) is None,
            Err(BodyFault::Reply(ReplyFault::MissingData)) => {
                &&& json_document(body@) matches Some(doc)
                &&& data_list(doc) is None
            },
            Err(BodyFault::Reply(ReplyFault::NoFutureExpiry)) => {
                &&& json_document(body@) matches Some(doc)
                &&& data_list(doc) matches Some(items)
                &&& forall|e: Seq<char>| !#[trigger] offered(items, today@, e)
            },
        },
{
    match parse_json(body) {
        Ok(doc) => match nearest_expiry(&doc, today) {
            Ok(expiry) => Ok(expiry),
            Err(fault) => Err(BodyFault::Reply(fault)),
        },
        Err(said) => Err(BodyFault::NotJson(said)),
    }
}

/// Whether an element offers an expiry that is not past.
pub open spec fn offers(item: JsonModel, today: Seq<char>, expiry: Seq<char>) -> bool {
    item.text_at("expiry"@) == Some(expiry) && alphabetical(today, expiry)
}

/// Whether any element offers an expiry.
pub open spec fn offered(items: Seq<JsonModel>, today: Seq<char>, expiry: Seq<char>) -> bool {
    exists|i: int| 0 <= i < items.len() && offers(#[trigger] items[i], today, expiry)
}

/// Whether an expiry is the nearest that is offered.
pub open spec fn nearest(items: Seq<JsonModel>, today: Seq<char>, expiry: Seq<char>) -> bool {
    &&& offered(items, today, expiry)
    &&& forall|other: Seq<char>| #[trigger]
        offered(items, today, other) ==> alphabetical(expiry, other)
}

/// The elements under `data` in a reply.
pub open spec fn data_list(body: JsonModel) -> Option<Seq<JsonModel>> {
    match body.member("data"@) {
        Some(JsonModel::List(items)) => Some(items),
        _ => None,
    }
}

/// The elements under `data` in a reply: contracts, or the strikes of a chain.
pub fn data_rows<'a>(body: &'a Value) -> (rows: Result<&'a Vec<Value>, ReplyFault>)
    ensures
        match rows {
            Ok(list) => data_list(value_model(*body)) == Some(models(list@)),
            Err(fault) => fault is MissingData && data_list(value_model(*body)) is None,
        },
{
    match member(body, "data") {
        Some(data) => match as_list(data) {
            Some(list) => Ok(list),
            None => Err(ReplyFault::MissingData),
        },
        None => Err(ReplyFault::MissingData),
    }
}

/// The nearest expiry in a list of contracts that is not past. Dates are written
/// year first, so that they are in alphabetical order.
pub fn nearest_expiry(body: &Value, today: &str) -> (expiry: Result<String, ReplyFault>)
    ensures
        match expiry {
            Ok(e) => data_list(value_model(*body)) matches Some(items) && nearest(
                items,
                today@,
                e@,
            ),
            Err(ReplyFault::MissingData) => data_list(value_model(*body)) is None,
            Err(ReplyFault::NoFutureExpiry) => data_list(value_model(*body)) matches Some(items)
                && forall|e: Seq<char>| !#[trigger] offered(items, today@, e),
        },
{
    let list = match data_rows(body) {
        Ok(list) => list,
        Err(fault) => return Err(fault),
    };
    let ghost items = models(list@);
    let mut best: Option<String> = None;
    let mut i: usize = 0;
    while i < list.len()
        invariant
            i <= list@.len(),
            items == models(list@),
            match best {
                Some(b) => nearest(items.take(i as int), today@, b@),
                None => forall|e: Seq<char>|
                    !#[trigger] offered(items.take(i as int), today@, e),
            },
        decreases list@.len() - i,
    {
        let ghost seen = items.take(i as int);
        let ghost now = items.take(i + 1);
        let ghost held = best;
        proof {
            assert(now =~= seen.push(items[i as int]));
            assert(items[i as int] == value_model(list@[i as int]));
            lemma_offers(seen, items[i as int], today@);
        }
        match text_at(&list[i], "expiry") {
            Some(e) => {
                if text_le(today, e) {
                    assert(offers(items[i as int], today@, e@));
                    let closer = match &best {
                        Some(b) => !text_le(b.as_str(), e),
                        None => true,
                    };
                    proof {
                        lemma_nearer(seen, items[i as int], today@, held, e@, closer);
                    }
                    if closer {
                        best = Some(String::from_str(e));
                    }
                }
            },
            None => {},
        }
        i = i + 1;
    }
    assert(items.take(i as int) =~= items);
    match best {
        Some(b) => Ok(b),
        None => Err(ReplyFault::NoFutureExpiry),
    }
}

/// What one more element offers.
proof fn lemma_offers(seen: Seq<JsonModel>, item: JsonModel, today: Seq<char>)
    ensures
        forall|e: Seq<char>| #[trigger]
            offered(seen.push(item), today, e) == (offered(seen, today, e) || offers(
                item,
                today,
                e,
            )),
{
    assert forall|e: Seq<char>| #[trigger]
        offered(seen.push(item), today, e) == (offered(seen, today, e) || offers(
            item,
            today,
            e,
        )) by {
        let now = seen.push(item);
        if offered(now, today, e) {
            let i = choose|i: int| 0 <= i < now.len() && offers(#[trigger] now[i], today, e);
            if i < seen.len() {
                assert(seen[i] == now[i]);
            }
        }
        if offered(seen, today, e) {
            let i = choose|i: int| 0 <= i < seen.len() && offers(#[trigger] seen[i], today, e);
            assert(now[i] == seen[i]);
        }
        if offers(item, today, e) {
            assert(now[seen.len() as int] == item);
        }
    }
}

/// The nearer of the best so far and a new expiry is the nearest.
proof fn lemma_nearer(
    seen: Seq<JsonModel>,
    item: JsonModel,
    today: Seq<char>,
    best: Option<String>,
    e: Seq<char>,
    closer: bool,
)
    requires
        offers(item, today, e),
        match best {
            Some(b) => nearest(seen, today, b@) && closer == !alphabetical(b@, e),
            None => closer && forall|x: Seq<char>| !#[trigger] offered(seen, today, x),
        },
    ensures
        nearest(
            seen.push(item),
            today,
            if closer {
                e
            } else {
                best->0@
            },
        ),
{
    lemma_offers(seen, item, today);
    lemma_alphabet_is_total();
    let leq = by_alphabet();
    let pick = if closer {
        e
    } else {
        best->0@
    };
    assert(offered(seen.push(item), today, pick));
    assert forall|other: Seq<char>| #[trigger]
        offered(seen.push(item), today, other) implies alphabetical(pick, other) by {
        if offers(item, today, other) {
            assert(other == e);
            assert(leq(e, e));
        } else {
            assert(offered(seen, today, other));
            let b = best->0@;
            assert(leq(b, other));
            if closer {
                assert(!leq(b, e));
                assert(leq(e, b) || leq(b, e));
                assert(leq(e, other));
            }
        }
    }
}

/// Whether an expiry that was found before can still be used.
pub fn still_valid(cached: &str, today: &str) -> (valid: bool)
    ensures
        valid == alphabetical(today@, cached@),
{
    text_le(today, cached)
}

/// The expiries found so far, by the place of the underlying.
#[derive(Clone, Debug)]
pub struct ExpiryCache {
    found: Vec<Option<String>>,
}

impl View for ExpiryCache {
    type V = Seq<Option<Seq<char>>>;

    closed spec fn view(&self) -> Seq<Option<Seq<char>>> {
        self.found@.map_values(
            |e: Option<String>|
                match e {
                    Some(t) => Some(t@),
                    None => None,
                },
        )
    }
}

impl ExpiryCache {
    /// Nothing is found yet for so many underlyings.
    pub fn new(underlyings: usize) -> (c: ExpiryCache)
        ensures
            c@ == Seq::new(underlyings as nat, |i: int| None::<Seq<char>>),
    {
        let mut found: Vec<Option<String>> = Vec::new();
        let mut i: usize = 0;
        while i < underlyings
            invariant
                i <= underlyings,
                found@.len() == i,
                forall|k: int| 0 <= k < i ==> #[trigger] found@[k] is None,
            decreases underlyings - i,
        {
            found.push(None);
            i = i + 1;
        }
        let c = ExpiryCache { found };
        assert(c@ =~= Seq::new(underlyings as nat, |i: int| None::<Seq<char>>));
        c
    }

    /// The expiry of an underlying, where one is found and not past.
    pub fn get(&self, at: usize, today: &str) -> (expiry: Option<String>)
        requires
            at < self@.len(),
        ensures
            match expiry {
                Some(e) => self@[at as int] == Some(e@) && alphabetical(today@, e@),
                None => match self@[at as int] {
                    Some(e) => !alphabetical(today@, e),
                    None => true,
                },
            },
    {
        match &self.found[at] {
            Some(e) => if still_valid(e.as_str(), today) {
                Some(String::from_str(e.as_str()))
            } else {
                None
            },
            None => None,
        }
    }

    /// Keep an expiry.
    pub fn put(&mut self, at: usize, expiry: &str)
        requires
            at < old(self)@.len(),
        ensures
            final(self)@ == old(self)@.update(at as int, Some(expiry@)),
    {
        let ghost before = self@;
        self.found.set(at, Some(String::from_str(expiry)));
        assert(self@ =~= before.update(at as int, Some(expiry@)));
    }

    /// Forget an expiry, so that it is looked up again.
    pub fn forget(&mut self, at: usize)
        requires
            at < old(self)@.len(),
        ensures
            final(self)@ == old(self)@.update(at as int, None),
    {
        let ghost before = self@;
        self.found.set(at, None);
        assert(self@ =~= before.update(at as int, None));
    }
}

/// The state of the open-interest poller.
#[derive(Clone, Debug)]
pub struct OiPoller {
    pub streak: FailureStreak,
    pub cache: ExpiryCache,
}

impl OiPoller {
    pub fn new(underlyings: usize) -> (p: OiPoller)
        ensures
            p.streak.failures == 0,
            p.cache@ == Seq::new(underlyings as nat, |i: int| None::<Seq<char>>),
    {
        OiPoller { streak: FailureStreak::new(), cache: ExpiryCache::new(underlyings) }
    }

    /// Take in whether the expiry of an underlying was found. It is kept; where none
    /// was found, that is one more failure.
    pub fn on_expiry(&mut self, at: usize, found: Option<&str>) -> (step: Option<FailureStep>)
        requires
            at < old(self).cache@.len(),
        ensures
            match found {
                Some(e) => {
                    &&& step is None
                    &&& final(self).streak == old(self).streak
                    &&& final(self).cache@ == old(self).cache@.update(at as int, Some(e@))
                },
                None => {
                    &&& step matches Some(s) && s.failures == final(self).streak.failures
                        && s.report == power_of_two(s.failures as nat)
                    &&& final(self).streak == old(self).streak.longer()
                    &&& final(self).cache@ == old(self).cache@
                },
            },
    {
        match found {
            Some(e) => {
                self.cache.put(at, e);
                None
            },
            None => Some(self.streak.on_failure()),
        }
    }

    /// Take in whether the chain of an underlying was fetched. That ends the
    /// failures; where it was not, the expiry may be stale and is forgotten.
    pub fn on_chain(&mut self, at: usize, fetched: bool) -> (step: Option<FailureStep>)
        requires
            at < old(self).cache@.len(),
        ensures
            if fetched {
                &&& step is None
                &&& final(self).streak.failures == 0
                &&& final(self).cache@ == old(self).cache@
            } else {
                &&& step matches Some(s) && s.failures == final(self).streak.failures
                    && s.report == power_of_two(s.failures as nat)
                &&& final(self).streak == old(self).streak.longer()
                &&& final(self).cache@ == old(self).cache@.update(at as int, None)
            },
    {
        if fetched {
            let _ = self.streak.on_success();
            None
        } else {
            self.cache.forget(at);
            Some(self.streak.on_failure())
        }
    }
}

/// One instrument of a reply, with the key under which it stood.
#[derive(Debug)]
pub struct DataItem {
    pub instrument: String,
    pub data_key: String,
    pub value: Value,
}

/// The members under `data` in a reply.
pub open spec fn data_record(body: JsonModel) -> Option<Map<Seq<char>, JsonModel>> {
    match body.member("data"@) {
        Some(JsonModel::Record(fields)) => Some(fields),
        _ => None,
    }
}

/// Whether the member under a key names an instrument as its token.
pub open spec fn named_by(
    fields: Map<Seq<char>, JsonModel>,
    key: Seq<char>,
    instrument: Seq<char>,
) -> bool {
    fields.contains_key(key) && fields[key].text_at("instrument_token"@) == Some(instrument)
}

/// Whether any member names an instrument as its token.
pub open spec fn named(fields: Map<Seq<char>, JsonModel>, instrument: Seq<char>) -> bool {
    exists|key: Seq<char>| named_by(fields, key, instrument)
}

/// The key of an instrument with a colon in place of the bar.
pub open spec fn colon_key(instrument: Seq<char>) -> Seq<char> {
    replaced(instrument, '|', ':')
}

/// Whether a reply has an instrument.
pub open spec fn has_instrument(
    fields: Map<Seq<char>, JsonModel>,
    instrument: Seq<char>,
) -> bool {
    named(fields, instrument) || fields.contains_key(colon_key(instrument))
}

/// Whether a key is the last in alphabetical order of those whose members name an
/// instrument as their token.
pub open spec fn last_named(
    fields: Map<Seq<char>, JsonModel>,
    key: Seq<char>,
    instrument: Seq<char>,
) -> bool {
    &&& named_by(fields, key, instrument)
    &&& forall|other: Seq<char>| #[trigger]
        named_by(fields, other, instrument) ==> alphabetical(other, key)
}

/// Whether an item is what a reply has of its instrument: the last member that names
/// it as its token, or, where none does, the one under its key with a colon.
pub open spec fn holds(fields: Map<Seq<char>, JsonModel>, item: DataItem) -> bool {
    &&& fields.contains_key(item.data_key@)
    &&& value_model(item.value) == fields[item.data_key@]
    &&& if named(fields, item.instrument@) {
        last_named(fields, item.data_key@, item.instrument@)
    } else {
        item.data_key@ == colon_key(item.instrument@)
    }
}

/// Whether a list has an item for an instrument.
pub open spec fn listed(items: Seq<DataItem>, instrument: Seq<char>) -> bool {
    exists|i: int| 0 <= i < items.len() && #[trigger] items[i].instrument@ == instrument
}

/// Whether a list has the items of a reply for the first instruments, each once.
pub open spec fn extracts(
    items: Seq<DataItem>,
    fields: Map<Seq<char>, JsonModel>,
    instruments: Seq<Seq<char>>,
) -> bool {
    &&& forall|i: int|
        #![trigger items[i]]
        0 <= i < items.len() ==> holds(fields, items[i]) && instruments.contains(
            items[i].instrument@,
        )
    &&& forall|i: int, j: int|
        #![trigger items[i], items[j]]
        0 <= i < items.len() && 0 <= j < items.len() && items[i].instrument@
            == items[j].instrument@ ==> i == j
    &&& forall|k: int|
        #![trigger instruments[k]]
        0 <= k < instruments.len() && has_instrument(fields, instruments[k]) ==> listed(
            items,
            instruments[k],
        )
}

/// Whether a list has an item for an instrument.
fn is_listed(items: &Vec<DataItem>, instrument: &str) -> (yes: bool)
    ensures
        yes == listed(items@, instrument@),
{
    let mut i: usize = 0;
    while i < items.len()
        invariant
            i <= items@.len(),
            forall|k: int| 0 <= k < i ==> #[trigger] items@[k].instrument@ != instrument@,
        decreases items@.len() - i,
    {
        if same_text(items[i].instrument.as_str(), instrument) {
            return true;
        }
        i = i + 1;
    }
    false
}

/// What a reply has of an instrument.
fn find_item(
    entries: &Vec<(String, Value)>,
    Ghost(fields): Ghost<Map<Seq<char>, JsonModel>>,
    instrument: &str,
) -> (item: Option<DataItem>)
    requires
        lists_members(entries@, fields),
    ensures
        match item {
            Some(it) => holds(fields, it) && it.instrument@ == instrument@,
            None => !has_instrument(fields, instrument@),
        },
{
    let mut best: Option<usize> = None;
    let mut i: usize = 0;
    while i < entries.len()
        invariant
            i <= entries@.len(),
            lists_members(entries@, fields),
            match best {
                Some(b) => {
                    &&& b < i
                    &&& named_by(fields, entries@[b as int].0@, instrument@)
                    &&& forall|k: int|
                        0 <= k < i && named_by(fields, #[trigger] entries@[k].0@, instrument@)
                            ==> alphabetical(entries@[k].0@, entries@[b as int].0@)
                },
                None => forall|k: int|
                    0 <= k < i ==> !named_by(fields, #[trigger] entries@[k].0@, instrument@),
            },
        decreases entries@.len() - i,
    {
        let names_it = match text_at(&entries[i].1, "instrument_token") {
            Some(token) => same_text(token, instrument),
            None => false,
        };
        assert(fields.contains_key(entries@[i as int].0@));
        assert(names_it == named_by(fields, entries@[i as int].0@, instrument@));
        if names_it {
            let later = match best {
                Some(b) => text_le(entries[b].0.as_str(), entries[i].0.as_str()),
                None => true,
            };
            proof {
                lemma_alphabet_is_total();
                let leq = by_alphabet();
                let key = entries@[i as int].0@;
                assert(leq(key, key));
                if let Some(b) = best {
                    let held = entries@[b as int].0@;
                    assert(leq(held, key) || leq(key, held));
                    assert forall|k: int|
                        0 <= k < i && later && named_by(
                            fields,
                            #[trigger] entries@[k].0@,
                            instrument@,
                        ) implies alphabetical(entries@[k].0@, key) by {
                        assert(leq(entries@[k].0@, held) && leq(held, key));
                    }
                }
            }
            if later {
                best = Some(i);
            }
        }
        i = i + 1;
    }
    if let Some(b) = best {
        proof {
            let key = entries@[b as int].0@;
            assert forall|other: Seq<char>| #[trigger]
                named_by(fields, other, instrument@) implies alphabetical(other, key) by {
                assert(fields.contains_key(other));
                let k = choose|k: int|
                    0 <= k < entries@.len() && (#[trigger] entries@[k]).0@ == other;
                assert(named_by(fields, entries@[k].0@, instrument@));
            }
            assert(last_named(fields, key, instrument@));
        }
        return Some(
            DataItem {
                instrument: String::from_str(instrument),
                data_key: String::from_str(entries[b].0.as_str()),
                value: duplicate(&entries[b].1),
            },
        );
    }
    proof {
        if named(fields, instrument@) {
            let key = choose|key: Seq<char>| named_by(fields, key, instrument@);
            assert(fields.contains_key(key));
            let k = choose|k: int| 0 <= k < entries@.len() && (#[trigger] entries@[k]).0@ == key;
            assert(!named_by(fields, entries@[k].0@, instrument@));
        }
    }
    let colon_form = replace_char(instrument, '|', ':');
    let mut j: usize = 0;
    while j < entries.len()
        invariant
            j <= entries@.len(),
            lists_members(entries@, fields),
            !named(fields, instrument@),
            colon_form@ == colon_key(instrument@),
            forall|k: int| 0 <= k < j ==> (#[trigger] entries@[k]).0@ != colon_form@,
        decreases entries@.len() - j,
    {
        if same_text(entries[j].0.as_str(), colon_form.as_str()) {
            assert(fields.contains_key(entries@[j as int].0@));
            return Some(
                DataItem {
                    instrument: String::from_str(instrument),
                    data_key: colon_form,
                    value: duplicate(&entries[j].1),
                },
            );
        }
        j = j + 1;
    }
    None
}

/// What a reply has of the instruments that were asked for.
pub fn extract_data_map(body: &Value, instruments: &Vec<String>) -> (items: Result<
    Vec<DataItem>,
    ReplyFault,
>)
    ensures
        match items {
            Ok(items) => data_record(value_model(*body)) matches Some(fields) && extracts(
                items@,
                fields,
                texts(instruments@),
            ),
            Err(fault) => fault == ReplyFault::MissingData && data_record(
                value_model(*body),
            ) is None,
        },
{
    let entries = match member(body, "data") {
        Some(data) => match as_members(data) {
            Some(entries) => entries,
            None => return Err(ReplyFault::MissingData),
        },
        None => return Err(ReplyFault::MissingData),
    };
    let ghost fields = data_record(value_model(*body))->0;
    let ghost asked = texts(instruments@);
    let mut items: Vec<DataItem> = Vec::new();
    let mut i: usize = 0;
    while i < instruments.len()
        invariant
            i <= instruments@.len(),
            asked == texts(instruments@),
            lists_members(entries@, fields),
            extracts(items@, fields, asked.take(i as int)),
        decreases instruments@.len() - i,
    {
        let instrument = instruments[i].as_str();
        let ghost before = items@;
        let ghost old_asked = asked.take(i as int);
        let ghost new_asked = asked.take(i + 1);
        assert(new_asked =~= old_asked.push(instrument@));
        if !is_listed(&items, instrument) {
            match find_item(&entries, Ghost(fields), instrument) {
                Some(item) => {
                    assert(has_instrument(fields, instrument@));
                    items.push(item);
                    assert(items@.drop_last() =~= before);
                },
                None => {},
            }
        }
        proof {
            lemma_extracted(before, items@, fields, old_asked, instrument@);
        }
        i = i + 1;
    }
    assert(asked.take(i as int) =~= asked);
    Ok(items)
}

/// What a body has of the instruments that were asked for.
pub fn read_items(body: &[u8], instruments: &Vec<String>) -> (items: Result<
    Vec<DataItem>,
    BodyFault,
>)
    ensures
        match items {
            Ok(items) => {
                &&& json_document(body@) matches Some(doc)
                &&& data_record(doc) matches Some(fields)
                &&& extracts(items@, fields, texts(instruments@))
            },
            Err(BodyFault::NotJson(_)) => json_document(body@) is None,
            Err(BodyFault::Reply(fault)) => {
                &&& fault is MissingData
                &&& json_document(body@) matches Some(doc)
                &&& data_record(doc) is None
            },
        },
{
    match parse_json(body) {
        Ok(doc) => match extract_data_map(&doc, instruments) {
            Ok(items) => Ok(items),
            Err(fault) => Err(BodyFault::Reply(fault)),
        },
        Err(said) => Err(BodyFault::NotJson(said)),
    }
}

/// One more instrument keeps a list the items of a reply.
proof fn lemma_extracted(
    before: Seq<DataItem>,
    after: Seq<DataItem>,
    fields: Map<Seq<char>, JsonModel>,
    asked: Seq<Seq<char>>,
    instrument: Seq<char>,
)
    requires
        extracts(before, fields, asked),
        if listed(before, instrument) || !has_instrument(fields, instrument) {
            after == before
        } else {
            after.len() == before.len() + 1 && after.drop_last() == before && holds(
                fields,
                after.last(),
            ) && after.last().instrument@ == instrument
        },
    ensures
        extracts(after, fields, asked.push(instrument)),
{
    let all = asked.push(instrument);
    let n = before.len() as int;
    assert(all[asked.len() as int] == instrument);
    assert forall|i: int| #![trigger after[i]] 0 <= i < n implies after[i] == before[i] by {
        assert(after.drop_last()[i] == after[i] || after.len() == n);
    }
    assert forall|i: int| #![trigger after[i]] 0 <= i < after.len() implies holds(fields, after[i])
        && all.contains(after[i].instrument@) by {
        if i < n {
            assert(after[i] == before[i]);
            let k = choose|k: int| 0 <= k < asked.len() && asked[k] == before[i].instrument@;
            assert(all[k] == asked[k]);
        }
    }
    assert forall|i: int, j: int|
        #![trigger after[i], after[j]]
        0 <= i < after.len() && 0 <= j < after.len() && after[i].instrument@
            == after[j].instrument@ implies i == j by {
        if i < n && j < n {
            assert(before[i].instrument@ == before[j].instrument@);
        } else if i < n {
            assert(before[i].instrument@ == instrument);
            assert(listed(before, instrument));
        } else if j < n {
            assert(before[j].instrument@ == instrument);
            assert(listed(before, instrument));
        }
    }
    assert forall|k: int| #![trigger all[k]] 0 <= k < all.len() && has_instrument(fields, all[k])
        implies listed(after, all[k]) by {
        if k < asked.len() {
            assert(asked[k] == all[k]);
            assert(listed(before, asked[k]));
        }
        if k < asked.len() || after.len() == n {
            assert(listed(before, all[k]));
            let i = choose|i: int|
                0 <= i < before.len() && #[trigger] before[i].instrument@ == all[k];
            assert(after[i].instrument@ == all[k]);
        } else {
            assert(after[n].instrument@ == instrument);
        }
    }
}

/// The trading symbol of an item: what it says itself, or the part of its key after
/// the colon.
pub open spec fn trading_symbol(value: JsonModel, data_key: Seq<char>) -> Seq<char> {
    match value.text_at("symbol"@) {
        Some(s) => s,
        None => match value.text_at("trading_symbol"@) {
            Some(s) => s,
            None => match after_first(data_key, ':') {
                Some(s) => if value is Record {
                    s
                } else {
                    "UNKNOWN"@
                },
                None => "UNKNOWN"@,
            },
        },
    }
}

/// The trading symbol of an item.
pub fn extract_trading_symbol(item: &DataItem) -> (symbol: String)
    ensures
        symbol@ == trading_symbol(value_model(item.value), item.data_key@),
{
    match text_at(&item.value, "symbol") {
        Some(s) => return String::from_str(s),
        None => {},
    }
    match text_at(&item.value, "trading_symbol") {
        Some(s) => return String::from_str(s),
        None => {},
    }
    match tail_after(item.data_key.as_str(), ':') {
        Some(s) => if as_members(&item.value).is_some() {
            s
        } else {
            String::from_str("UNKNOWN")
        },
        None => String::from_str("UNKNOWN"),
    }
}

/// The name of an underlying: the part of its key after the bar, or all of it.
pub open spec fn display_name(instrument_key: Seq<char>) -> Seq<char> {
    match after_first(instrument_key, '|') {
        Some(name) => name,
        None => instrument_key,
    }
}

/// The name of an underlying.
pub fn underlying_display(instrument_key: &str) -> (name: String)
    ensures
        name@ == display_name(instrument_key@),
{
    match tail_after(instrument_key, '|') {
        Some(name) => name,
        None => String::from_str(instrument_key),
    }
}

/// A name as it stands in subjects, which have no white space.
pub fn subject_token(display: &str) -> (token: String)
    ensures
        token@ == squeezed(display@),
{
    squeeze(display)
}

/// What a chain says of one strike.
#[derive(Clone, Copy, Debug, PartialEq, Eq, Structural)]
pub struct StrikeQuote {
    pub strike_paise: i64,
    pub call_oi: u64,
    pub call_prev_oi: u64,
    pub put_oi: u64,
    pub put_prev_oi: u64,
}

/// One row of an open-interest ladder.
#[derive(Clone, Copy, Debug, PartialEq, Eq, Structural)]
pub struct OiStrike {
    pub strike_paise: i64,
    pub call_oi: u64,
    pub put_oi: u64,
    pub call_chg_oi: i64,
    pub put_chg_oi: i64,
}

/// The row of a strike. The changes wrap around at the ends of `i64`.
pub open spec fn row_of(q: StrikeQuote) -> OiStrike {
    OiStrike {
        strike_paise: q.strike_paise,
        call_oi: q.call_oi,
        put_oi: q.put_oi,
        call_chg_oi: wrap_i64(q.call_oi - q.call_prev_oi) as i64,
        put_chg_oi: wrap_i64(q.put_oi - q.put_prev_oi) as i64,
    }
}

/// The strikes of a chain.
pub open spec fn strike_keys(quotes: Seq<StrikeQuote>) -> Seq<i128> {
    quotes.map_values(|q: StrikeQuote| q.strike_paise as i128)
}

/// The distances of the strikes from a price.
pub open spec fn distance_keys(quotes: Seq<StrikeQuote>, spot_paise: i64) -> Seq<i128> {
    quotes.map_values(
        |q: StrikeQuote|
            if q.strike_paise >= spot_paise {
                (q.strike_paise - spot_paise) as i128
            } else {
                (spot_paise - q.strike_paise) as i128
            },
    )
}

/// A chain in the order of its strikes.
pub open spec fn by_strike(quotes: Seq<StrikeQuote>) -> Seq<StrikeQuote> {
    reordered(quotes, strike_keys(quotes))
}

/// A chain in the order of distance from a price.
pub open spec fn by_distance(quotes: Seq<StrikeQuote>, spot_paise: i64) -> Seq<StrikeQuote> {
    reordered(quotes, distance_keys(quotes, spot_paise))
}

/// The strikes that are shown, in order. Where the price is known and there are too
/// many, those nearest to it.
pub open spec fn shown(quotes: Seq<StrikeQuote>, spot_paise: i64) -> Seq<StrikeQuote> {
    let all = by_strike(quotes);
    if spot_paise > 0 && all.len() > LADDER_STRIKES {
        by_strike(by_distance(all, spot_paise).take(LADDER_STRIKES as int))
    } else {
        all
    }
}

/// A chain in the order of its keys.
fn reorder(quotes: &Vec<StrikeQuote>, keys: &Vec<i128>) -> (out: Vec<StrikeQuote>)
    requires
        quotes@.len() == keys@.len(),
    ensures
        out@ == reordered(quotes@, keys@),
        out@.len() == quotes@.len(),
{
    let order = rank(keys.as_slice());
    let ghost places = ranking(keys@);
    let mut out: Vec<StrikeQuote> = Vec::new();
    let mut i: usize = 0;
    while i < order.len()
        invariant
            i <= order@.len(),
            order@.len() == quotes@.len(),
            order@.map_values(|i: usize| i as int) == places,
            places == ranking(keys@),
            forall|k: int| 0 <= k < order@.len() ==> #[trigger] order@[k] < quotes@.len(),
            out@.len() == i,
            forall|k: int| 0 <= k < i ==> #[trigger] out@[k] == quotes@[places[k]],
        decreases order@.len() - i,
    {
        assert(order@.map_values(|i: usize| i as int)[i as int] == order@[i as int] as int);
        out.push(quotes[order[i]]);
        i = i + 1;
    }
    assert(out@ =~= reordered(quotes@, keys@));
    out
}

/// A chain in the order of its strikes.
fn sort_by_strike(quotes: &Vec<StrikeQuote>) -> (out: Vec<StrikeQuote>)
    ensures
        out@ == by_strike(quotes@),
        out@.len() == quotes@.len(),
{
    let mut keys: Vec<i128> = Vec::new();
    let mut i: usize = 0;
    while i < quotes.len()
        invariant
            i <= quotes@.len(),
            keys@ == strike_keys(quotes@).take(i as int),
        decreases quotes@.len() - i,
    {
        keys.push(quotes[i].strike_paise as i128);
        assert(strike_keys(quotes@).take(i + 1) =~= strike_keys(quotes@).take(i as int).push(
            strike_keys(quotes@)[i as int],
        ));
        i = i + 1;
    }
    assert(strike_keys(quotes@).take(i as int) =~= strike_keys(quotes@));
    reorder(quotes, &keys)
}

/// A chain in the order of distance from a price.
fn sort_by_distance(quotes: &Vec<StrikeQuote>, spot_paise: i64) -> (out: Vec<StrikeQuote>)
    ensures
        out@ == by_distance(quotes@, spot_paise),
        out@.len() == quotes@.len(),
{
    let mut keys: Vec<i128> = Vec::new();
    let mut i: usize = 0;
    while i < quotes.len()
        invariant
            i <= quotes@.len(),
            keys@ == distance_keys(quotes@, spot_paise).take(i as int),
        decreases quotes@.len() - i,
    {
        let p: i128 = quotes[i].strike_paise as i128;
        let s: i128 = spot_paise as i128;
        keys.push(
            if p >= s {
                p - s
            } else {
                s - p
            },
        );
        assert(distance_keys(quotes@, spot_paise).take(i + 1) =~= distance_keys(
            quotes@,
            spot_paise,
        ).take(i as int).push(distance_keys(quotes@, spot_paise)[i as int]));
        i = i + 1;
    }
    assert(distance_keys(quotes@, spot_paise).take(i as int) =~= distance_keys(
        quotes@,
        spot_paise,
    ));
    reorder(quotes, &keys)
}

/// The open-interest ladder of a chain. A price of zero is not known.
pub fn build_ladder(quotes: &Vec<StrikeQuote>, spot_paise: i64) -> (rows: Vec<OiStrike>)
    ensures
        rows@ == shown(quotes@, spot_paise).map_values(|q: StrikeQuote| row_of(q)),
{
    let all = sort_by_strike(quotes);
    let chosen = if spot_paise > 0 && all.len() > LADDER_STRIKES {
        let mut near = sort_by_distance(&all, spot_paise);
        near.truncate(LADDER_STRIKES);
        assert(near@ =~= by_distance(all@, spot_paise).take(LADDER_STRIKES as int));
        sort_by_strike(&near)
    } else {
        all
    };
    let mut rows: Vec<OiStrike> = Vec::new();
    let ghost want = shown(quotes@, spot_paise).map_values(|q: StrikeQuote| row_of(q));
    let mut i: usize = 0;
    while i < chosen.len()
        invariant
            i <= chosen@.len(),
            chosen@ == shown(quotes@, spot_paise),
            want == shown(quotes@, spot_paise).map_values(|q: StrikeQuote| row_of(q)),
            rows@ == want.take(i as int),
        decreases chosen@.len() - i,
    {
        let q = chosen[i];
        rows.push(
            OiStrike {
                strike_paise: q.strike_paise,
                call_oi: q.call_oi,
                put_oi: q.put_oi,
                call_chg_oi: narrow_i64(q.call_oi as i128 - q.call_prev_oi as i128),
                put_chg_oi: narrow_i64(q.put_oi as i128 - q.put_prev_oi as i128),
            },
        );
        assert(want.take(i + 1) =~= want.take(i as int).push(want[i as int]));
        i = i + 1;
    }
    assert(want.take(i as int) =~= want);
    rows
}

/// The rows of a ladder are in ascending order of strike, and no more than fit.
pub proof fn law_ladder_is_ascending(quotes: Seq<StrikeQuote>, spot_paise: i64)
    ensures
        forall|a: int, b: int|
            0 <= a < b < shown(quotes, spot_paise).len() ==> (#[trigger] shown(
                quotes,
                spot_paise,
            )[a]).strike_paise <= (#[trigger] shown(quotes, spot_paise)[b]).strike_paise,
        spot_paise > 0 ==> shown(quotes, spot_paise).len() == if quotes.len()
            > LADDER_STRIKES {
            LADDER_STRIKES as nat
        } else {
            quotes.len()
        },
{
    lemma_ranking(strike_keys(quotes));
    let all = by_strike(quotes);
    lemma_ranking(distance_keys(all, spot_paise));
    let near = by_distance(all, spot_paise).take(LADDER_STRIKES as int);
    lemma_ranking(strike_keys(near));
}

/// No strike that is left out is nearer to the price than one that is shown.
pub proof fn law_ladder_keeps_the_nearest(quotes: Seq<StrikeQuote>, spot_paise: i64, a: int, b: int)
    requires
        0 <= a < LADDER_STRIKES <= b < quotes.len(),
    ensures
        distance_keys(by_distance(by_strike(quotes), spot_paise), spot_paise)[a] <= distance_keys(
            by_distance(by_strike(quotes), spot_paise),
            spot_paise,
        )[b],
{
    lemma_ranking(strike_keys(quotes));
    let all = by_strike(quotes);
    let keys = distance_keys(all, spot_paise);
    lemma_ranking(keys);
    let r = ranking(keys);
    assert(keys[r[a]] <= keys[r[b]]);
    assert(by_distance(all, spot_paise)[a] == all[r[a]]);
    assert(by_distance(all, spot_paise)[b] == all[r[b]]);
}

/// The bytes of a tick that is known by its price alone.
pub open spec fn bare_tick_bytes(
    symbol_id: u32,
    ltp_paise: i64,
    bid_paise: i64,
    ask_paise: i64,
    ts_ns: i64,
) -> Seq<u8> {
    Seq::new(16, |i: int| 0u8) + le_bytes(symbol_id as nat, 4) + seq![0u8] + le_bytes(
        pattern(ltp_paise),
        8,
    ) + le_bytes(pattern(bid_paise), 8) + le_bytes(pattern(ask_paise), 8) + le_bytes(0, 8)
        + le_bytes(0, 8) + le_bytes(0, 8) + le_bytes(pattern(ts_ns), 8) + le_bytes(
        pattern(ts_ns),
        8,
    )
}

/// Encode a tick that is known by its prices and the time alone. A symbol without a
/// number has no binary form.
pub fn encode_tick_v1(
    symbol_id: u32,
    ltp_paise: i64,
    bid_paise: i64,
    ask_paise: i64,
    ts_ns: i64,
) -> (bytes: Option<Vec<u8>>)
    ensures
        match bytes {
            Some(b) => symbol_id != 0 && b@ == bare_tick_bytes(
                symbol_id,
                ltp_paise,
                bid_paise,
                ask_paise,
                ts_ns,
            ) && b@.len() == TICK_WIRE_SIZE,
            None => symbol_id == 0,
        },
{
    if symbol_id == 0 {
        return None;
    }
    let tick = Tick {
        correlation_id: [0u8;16],
        symbol: symbol_id,
        exchange: 0,
        ltp_paise,
        bid_paise,
        ask_paise,
        ltq: 0,
        total_buy_qty: 0,
        total_sell_qty: 0,
        ts_exchange_ns: to_pattern(ts_ns),
        ts_recv_ns: to_pattern(ts_ns),
    };
    assert(tick.correlation_id@ =~= Seq::new(16, |i: int| 0u8));
    Some(tick_to_raw_bytes(&tick))
}

/// The consumers of binary ticks read back what was encoded.
pub proof fn law_bare_tick_reads_back(
    symbol_id: u32,
    ltp_paise: i64,
    bid_paise: i64,
    ask_paise: i64,
    ts_ns: i64,
    tick: Tick,
)
    requires
        tick.correlation_id@ == Seq::new(16, |i: int| 0u8),
        tick.symbol == symbol_id,
        tick.exchange == 0,
        tick.ltp_paise == ltp_paise,
        tick.bid_paise == bid_paise,
        tick.ask_paise == ask_paise,
        tick.ltq == 0,
        tick.total_buy_qty == 0,
        tick.total_sell_qty == 0,
        tick.ts_exchange_ns == pattern(ts_ns),
        tick.ts_recv_ns == pattern(ts_ns),
    ensures
        spells(bare_tick_bytes(symbol_id, ltp_paise, bid_paise, ask_paise, ts_ns), tick),
{
    law_decode_after_encode(tick);
    assert(tick_bytes(tick) == bare_tick_bytes(symbol_id, ltp_paise, bid_paise, ask_paise, ts_ns));
}

/// A message of the feed.
#[derive(Clone, Debug, PartialEq, Eq)]
pub enum FeedMessage {
    /// The price of a symbol, to be sent as JSON.
    Tick {
        subject: String,
        symbol: String,
        ltp_paise: i64,
        bid_paise: i64,
        ask_paise: i64,
        ts_recv_ns: i64,
    },
    /// The best levels of a book, to be sent as JSON.
    Book {
        subject: String,
        symbol: String,
        bid_paise: i64,
        bid_qty: u64,
        ask_paise: i64,
        ask_qty: u64,
        ts_ns: i64,
    },
    /// A tick in its binary form.
    Binary { subject: String, payload: Vec<u8> },
}

/// Whether a message shows a price under a subject. It stands for both sides, since
/// the reply has no quotes.
pub open spec fn shows_price(
    message: FeedMessage,
    subject_: Seq<char>,
    symbol_: Seq<char>,
    price: i64,
    at: i64,
) -> bool {
    message matches FeedMessage::Tick {
        subject,
        symbol,
        ltp_paise,
        bid_paise,
        ask_paise,
        ts_recv_ns,
    } && subject@ == subject_ && symbol@ == symbol_ && ltp_paise == price && bid_paise == price
        && ask_paise == price && ts_recv_ns == at
}

/// What a price sends: a view under the symbol, one under the key with a dot for the
/// bar, and the binary form where the symbol has a number.
pub fn tick_messages(
    instrument_key: &str,
    symbol: &str,
    symbol_id: u32,
    ltp_paise: i64,
    ts_ns: i64,
) -> (messages: Vec<FeedMessage>)
    ensures
        messages@.len() == if symbol_id == 0 {
            2int
        } else {
            3
        },
        shows_price(messages@[0], "md.tick."@ + symbol@, symbol@, ltp_paise, ts_ns),
        shows_price(
            messages@[1],
            "md.tick."@ + replaced(instrument_key@, '|', '.'),
            symbol@,
            ltp_paise,
            ts_ns,
        ),
        symbol_id != 0 ==> (messages@[2] matches FeedMessage::Binary { subject, payload }
            && subject@ == "md.tick.bin."@ + symbol@ && payload@ == bare_tick_bytes(
            symbol_id,
            ltp_paise,
            ltp_paise,
            ltp_paise,
            ts_ns,
        )),
{
    let mut messages: Vec<FeedMessage> = Vec::new();
    messages.push(
        FeedMessage::Tick {
            subject: join("md.tick.", symbol),
            symbol: String::from_str(symbol),
            ltp_paise,
            bid_paise: ltp_paise,
            ask_paise: ltp_paise,
            ts_recv_ns: ts_ns,
        },
    );
    messages.push(
        FeedMessage::Tick {
            subject: join("md.tick.", replace_char(instrument_key, '|', '.').as_str()),
            symbol: String::from_str(symbol),
            ltp_paise,
            bid_paise: ltp_paise,
            ask_paise: ltp_paise,
            ts_recv_ns: ts_ns,
        },
    );
    match encode_tick_v1(symbol_id, ltp_paise, ltp_paise, ltp_paise, ts_ns) {
        Some(payload) => {
            messages.push(
                FeedMessage::Binary { subject: join("md.tick.bin.", symbol), payload },
            );
        },
        None => {},
    }
    messages
}

/// The last price in an item: `last_price`, or `ltp` where that is missing.
pub open spec fn price_in(item: JsonModel) -> Option<JsonModel> {
    match item.member("last_price"@) {
        Some(price) => Some(price),
        None => item.member("ltp"@),
    }
}

/// The last price in an item, as the reply has it.
pub fn last_price<'a>(item: &'a Value) -> (price: Option<&'a Value>)
    ensures
        match price {
            Some(p) => price_in(value_model(*item)) == Some(value_model(*p)),
            None => price_in(value_model(*item)) is None,
        },
{
    match member(item, "last_price") {
        Some(price) => Some(price),
        None => member(item, "ltp"),
    }
}

/// The market data of one side of a strike.
pub open spec fn side_data(strike: JsonModel, side: Seq<char>) -> Option<JsonModel> {
    match strike.member(side) {
        Some(options) => options.member("market_data"@),
        None => None,
    }
}

/// The market data of one side, `call_options` or `put_options`, of a strike.
pub fn strike_side<'a>(strike: &'a Value, side: &str) -> (data: Option<&'a Value>)
    ensures
        match data {
            Some(d) => side_data(value_model(*strike), side@) == Some(value_model(*d)),
            None => side_data(value_model(*strike), side@) is None,
        },
{
    match member(strike, side) {
        Some(options) => member(options, "market_data"),
        None => None,
    }
}

/// The best level of one side of a quote's depth, as the reply has it.
pub open spec fn depth_top(quote: JsonModel, side: Seq<char>) -> Option<JsonModel> {
    match quote.member("depth"@) {
        Some(depth) => match depth.member(side) {
            Some(JsonModel::List(levels)) => if levels.len() > 0 {
                Some(levels[0])
            } else {
                None
            },
            _ => None,
        },
        None => None,
    }
}

/// The best level of one side, `buy` or `sell`, of a quote's depth.
pub fn first_level<'a>(quote: &'a Value, side: &str) -> (level: Option<&'a Value>)
    ensures
        match level {
            Some(l) => depth_top(value_model(*quote), side@) == Some(value_model(*l)),
            None => depth_top(value_model(*quote), side@) is None,
        },
{
    match member(quote, "depth") {
        Some(depth) => match member(depth, side) {
            Some(levels) => match as_list(levels) {
                Some(list) => if list.len() > 0 {
                    assert(models(list@)[0] == value_model(list@[0]));
                    Some(&list[0])
                } else {
                    None
                },
                None => None,
            },
            None => None,
        },
        None => None,
    }
}

/// The quantity at a level, zero where it has none.
pub fn level_qty(level: &Value) -> (qty: u64)
    ensures
        qty == value_model(*level).integer_at("quantity"@, 0, u64::MAX as int, 0),
{
    u64_at(level, "quantity", 0)
}

/// The best level of one side; zeros where there is none.
#[derive(Clone, Copy, Debug, PartialEq, Eq, Structural)]
pub struct BestLevel {
    pub paise: i64,
    pub qty: u64,
}

/// Whether a message shows the best levels of a book under a subject.
pub open spec fn shows_book(
    message: FeedMessage,
    subject_: Seq<char>,
    symbol_: Seq<char>,
    bid: BestLevel,
    ask: BestLevel,
    at: i64,
) -> bool {
    message matches FeedMessage::Book {
        subject,
        symbol,
        bid_paise,
        bid_qty,
        ask_paise,
        ask_qty,
        ts_ns,
    } && subject@ == subject_ && symbol@ == symbol_ && bid_paise == bid.paise && bid_qty == bid.qty
        && ask_paise == ask.paise && ask_qty == ask.qty && ts_ns == at
}

/// What a book sends: one message under the symbol, and one under the key with a dot
/// for the bar.
pub fn book_messages(
    instrument_key: &str,
    symbol: &str,
    bid: BestLevel,
    ask: BestLevel,
    ts_ns: i64,
) -> (messages: Vec<FeedMessage>)
    ensures
        messages@.len() == 2,
        shows_book(messages@[0], "md.book."@ + symbol@, symbol@, bid, ask, ts_ns),
        shows_book(
            messages@[1],
            "md.book."@ + replaced(instrument_key@, '|', '.'),
            symbol@,
            bid,
            ask,
            ts_ns,
        ),
{
    let mut messages: Vec<FeedMessage> = Vec::new();
    messages.push(
        FeedMessage::Book {
            subject: join("md.book.", symbol),
            symbol: String::from_str(symbol),
            bid_paise: bid.paise,
            bid_qty: bid.qty,
            ask_paise: ask.paise,
            ask_qty: ask.qty,
            ts_ns,
        },
    );
    messages.push(
        FeedMessage::Book {
            subject: join("md.book.", replace_char(instrument_key, '|', '.').as_str()),
            symbol: String::from_str(symbol),
            bid_paise: bid.paise,
            bid_qty: bid.qty,
            ask_paise: ask.paise,
            ask_qty: ask.qty,
            ts_ns,
        },
    );
    messages
}

/// The subject of an underlying's ladder.
pub fn oi_subject(underlying: &str) -> (subject: String)
    ensures
        subject@ == "md.oi."@ + squeezed(display_name(underlying@)),
{
    join("md.oi.", subject_token(underlying_display(underlying).as_str()).as_str())
}

/// How a failure is shown: the feed is down after many, and degraded before.
pub fn outage_status(attempt: u32) -> (status: &'static str)
    ensures
        status@ == if attempt > PATIENCE {
            "down"@
        } else {
            "degraded"@
        },
{
    if attempt > PATIENCE {
        "down"
    } else {
        "degraded"
    }
}

/// A subject has no white space in the part that names an underlying.
pub proof fn law_tokens_have_no_white_space(display: Seq<char>, i: int)
    requires
        0 <= i < squeezed(display).len(),
    ensures
        !white_space(squeezed(display)[i]),
        display.contains(squeezed(display)[i]),
{
    let keep = |c: char| !white_space(c);
    display.lemma_filter_pred(keep, i);
    assert(squeezed(display).contains(squeezed(display)[i]));
    display.lemma_filter_contains_rev(keep, squeezed(display)[i]);
}

/// A failure streak is reported at its first failure, and a success ends it.
pub proof fn law_first_failure_is_reported(s: FailureStreak)
    requires
        s.failures == 0,
    ensures
        power_of_two(s.longer().failures as nat),
        s.longer().failures <= PATIENCE,
{
}

} // verus!
