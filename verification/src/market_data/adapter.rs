//! The life of one connection to a feed.
use crate::market_data::error::MarketDataError;
use crate::market_data::protocol::{MarketDataProtocol, RawTick};
use std::time::Duration;
use vstd::prelude::*;
use vstd::string::StringExecFns;

verus! {

/// The longest wait between two attempts, in milliseconds.
pub const RECONNECT_CAP_MS: u64 = 30_000;

/// The length of time that a number of milliseconds makes.
pub uninterp spec fn millis(ms: u64) -> Duration;

/// `Duration::from_millis` makes the length of time of its argument.
pub assume_specification[ Duration::from_millis ](ms: u64) -> (d: Duration)
    ensures
        d == millis(ms),
;

/// The wait before an attempt, counted from zero: it doubles from 100 ms on, and
/// from the tenth attempt on it is the cap.
pub open spec fn backoff_ms(attempt: nat) -> nat
    decreases attempt,
{
    if attempt >= 9 {
        RECONNECT_CAP_MS as nat
    } else if attempt == 0 {
        100
    } else {
        2 * backoff_ms((attempt - 1) as nat)
    }
}

/// The wait before an attempt, in milliseconds.
pub fn reconnect_delay_ms(attempt: u32) -> (ms: u64)
    ensures
        ms == backoff_ms(attempt as nat),
{
    proof {
        reveal_with_fuel(backoff_ms, 10);
    }
    match attempt {
        0 => 100,
        1 => 200,
        2 => 400,
        3 => 800,
        4 => 1_600,
        5 => 3_200,
        6 => 6_400,
        7 => 12_800,
        8 => 25_600,
        _ => RECONNECT_CAP_MS,
    }
}

/// The wait before an attempt, counted from zero.
pub fn reconnect_delay_for(attempt: u32) -> (delay: Duration)
    ensures
        delay == millis(backoff_ms(attempt as nat) as u64),
{
    Duration::from_millis(reconnect_delay_ms(attempt))
}

/// What became of a connection.
#[derive(Clone, Copy, Debug, PartialEq, Eq, Structural)]
pub enum ConnectionStatus {
    Disconnected,
    Reconnected,
}

/// The notice that is published about a connection.
#[derive(Clone, Debug, PartialEq, Eq)]
pub struct ConnectionEvent {
    pub source: String,
    pub status: ConnectionStatus,
    /// Why it was lost; nothing where it came back.
    pub reason: Option<String>,
    /// The attempt that the notice is about, counted from zero.
    pub attempt: u32,
    /// The time of the notice, as RFC 3339 writes it.
    pub at: String,
}

/// What a notice says.
pub struct EventModel {
    pub source: Seq<char>,
    pub status: ConnectionStatus,
    pub reason: Option<Seq<char>>,
    pub attempt: u32,
    pub at: Seq<char>,
}

impl View for ConnectionEvent {
    type V = EventModel;

    open spec fn view(&self) -> EventModel {
        EventModel {
            source: self.source@,
            status: self.status,
            reason: match self.reason {
                Some(r) => Some(r@),
                None => None,
            },
            attempt: self.attempt,
            at: self.at@,
        }
    }
}

/// The notice of a lost connection, at a given time.
pub fn build_disconnected_event(
    source: &str,
    attempt: u32,
    reason: &str,
    at: String,
) -> (e: ConnectionEvent)
    ensures
        e@ == (EventModel {
            source: source@,
            status: ConnectionStatus::Disconnected,
            reason: Some(reason@),
            attempt,
            at: at@,
        }),
{
    ConnectionEvent {
        source: String::from_str(source),
        status: ConnectionStatus::Disconnected,
        reason: Some(String::from_str(reason)),
        attempt,
        at,
    }
}

/// The notice of a connection that came back, at a given time.
pub fn build_reconnected_event(source: &str, attempt: u32, at: String) -> (e: ConnectionEvent)
    ensures
        e@ == (EventModel {
            source: source@,
            status: ConnectionStatus::Reconnected,
            reason: None,
            attempt,
            at: at@,
        }),
{
    ConnectionEvent {
        source: String::from_str(source),
        status: ConnectionStatus::Reconnected,
        reason: None,
        attempt,
        at,
    }
}

/// What a connection yields next.
#[derive(Debug, PartialEq, Eq)]
pub enum WsEvent<D> {
    /// A text or binary frame, as the protocol takes it.
    Payload(D),
    Ping(Vec<u8>),
    /// A pong, or a frame that carries no message.
    Idle,
    /// The other side closes, with a code and a reason or without.
    Close(Option<(u16, String)>),
    /// The transport failed.
    Failed(String),
    /// The stream is over.
    Ended,
}

/// What to do about it.
#[derive(Debug, PartialEq, Eq)]
pub enum WsAction {
    /// Hand this to the caller.
    Return(Result<RawTick, MarketDataError>),
    /// Answer with this pong, and go on.
    Pong(Vec<u8>),
    /// Go on.
    Skip,
}

/// Whether an event is a control frame, which yields nothing to the caller.
pub open spec fn is_control<D>(event: WsEvent<D>) -> bool {
    event is Ping || event is Idle || event is Close
}

/// Whether an action is the failure of a source, with the given words.
pub open spec fn gives_up(action: WsAction, source: Seq<char>, words: Seq<char>) -> bool {
    action matches WsAction::Return(Err(e)) && e.is_websocket(source, words)
}

/// The state of a connection. `connected` is false from the loss of the stream to
/// the next one.
pub struct AdapterModel {
    pub source: Seq<char>,
    pub url: Seq<char>,
    pub connected: bool,
    pub attempts: u32,
}

/// The connection to one feed: the stream itself is elsewhere.
#[derive(Clone, Debug)]
pub struct LiveWsAdapter<P: MarketDataProtocol> {
    source: String,
    url: String,
    protocol: P,
    connected: bool,
    attempts: u32,
}

impl<P: MarketDataProtocol> View for LiveWsAdapter<P> {
    type V = AdapterModel;

    closed spec fn view(&self) -> AdapterModel {
        AdapterModel {
            source: self.source@,
            url: self.url@,
            connected: self.connected,
            attempts: self.attempts,
        }
    }
}

impl<P: MarketDataProtocol> LiveWsAdapter<P> {
    /// The protocol of the feed.
    pub closed spec fn protocol(self) -> P {
        self.protocol
    }

    /// A connection that was just opened.
    pub fn from_stream(source: &str, url: &str, protocol: P) -> (adapter: Self)
        ensures
            adapter@ == (AdapterModel {
                source: source@,
                url: url@,
                connected: true,
                attempts: 0,
            }),
            adapter.protocol() == protocol,
    {
        LiveWsAdapter {
            source: String::from_str(source),
            url: String::from_str(url),
            protocol,
            connected: true,
            attempts: 0,
        }
    }

    pub fn source(&self) -> (source: &str)
        ensures
            source@ == self@.source,
    {
        self.source.as_str()
    }

    pub fn url(&self) -> (url: &str)
        ensures
            url@ == self@.url,
    {
        self.url.as_str()
    }

    /// Attempts since the connection was last open.
    pub fn attempt_count(&self) -> (n: u32)
        ensures
            n == self@.attempts,
    {
        self.attempts
    }

    /// Whether there is a stream to read from.
    pub fn stream_ready(&self) -> (ready: Result<(), MarketDataError>)
        ensures
            match ready {
                Ok(()) => self@.connected,
                Err(e) => !self@.connected && e.is_websocket(self@.source, "stream is None"@),
            },
    {
        if self.connected {
            Ok(())
        } else {
            Err(MarketDataError::websocket(self.source.as_str(), "stream is None"))
        }
    }

    /// What to do about what the stream yields. Payloads are read by the protocol,
    /// pings are answered, other control frames are skipped, and all else is a
    /// failure of the source: after a close frame, the end of the stream.
    pub fn next_message(&self, event: WsEvent<P::Payload>) -> (action: WsAction)
        ensures
            match event {
                WsEvent::Payload(payload) => action matches WsAction::Return(parsed)
                    && self.protocol().reads(payload, parsed),
                WsEvent::Ping(payload) => action matches WsAction::Pong(reply) && reply@
                    == payload@,
                WsEvent::Idle => action is Skip,
                WsEvent::Close(_) => action is Skip,
                WsEvent::Failed(message) => gives_up(action, self@.source, message@),
                WsEvent::Ended => gives_up(action, self@.source, "stream ended"@),
            },
            is_control(event) == !(action is Return),
    {
        let source = self.source.as_str();
        match event {
            WsEvent::Payload(payload) => WsAction::Return(self.protocol.parse(payload)),
            WsEvent::Ping(payload) => WsAction::Pong(payload),
            WsEvent::Idle => WsAction::Skip,
            WsEvent::Close(_) => WsAction::Skip,
            WsEvent::Failed(message) => WsAction::Return(
                Err(MarketDataError::websocket(source, message.as_str())),
            ),
            WsEvent::Ended => WsAction::Return(
                Err(MarketDataError::websocket(source, "stream ended")),
            ),
        }
    }

    /// Give the stream up: returns the notice to publish and how many milliseconds
    /// to wait before the next dial.
    pub fn begin_reconnect(&mut self, at: String) -> (start: (ConnectionEvent, u64))
        ensures
            final(self)@ == old(self)@.dropped(),
            final(self).protocol() == old(self).protocol(),
            start.0@ == old(self)@.drop_notice(at@),
            start.1 == backoff_ms(old(self)@.attempts as nat),
    {
        let notice = build_disconnected_event(
            self.source.as_str(),
            self.attempts,
            "transport drop",
            at,
        );
        let delay: u64 = reconnect_delay_ms(self.attempts);
        self.connected = false;
        self.attempts = if self.attempts == u32::MAX {
            u32::MAX
        } else {
            self.attempts + 1
        };
        (notice, delay)
    }

    /// Take in how a dial went, given the number of its attempt: the notice to
    /// publish where it succeeded, and the failure where not.
    pub fn finish_reconnect(
        &mut self,
        attempt: u32,
        dialed: Result<(), String>,
        at: String,
    ) -> (notice: Result<ConnectionEvent, MarketDataError>)
        ensures
            final(self)@ == old(self)@.dialed(dialed is Ok),
            final(self).protocol() == old(self).protocol(),
            match (dialed, notice) {
                (Ok(()), Ok(e)) => e@ == old(self)@.return_notice(attempt, at@),
                (Err(fault), Err(e)) => e.is_websocket(old(self)@.source, fault@),
                _ => false,
            },
    {
        match dialed {
            Ok(()) => {
                self.connected = true;
                self.attempts = 0;
                Ok(build_reconnected_event(self.source.as_str(), attempt, at))
            },
            Err(fault) => Err(MarketDataError::websocket(self.source.as_str(), fault.as_str())),
        }
    }
}

impl AdapterModel {
    /// The state after the stream is given up.
    pub open spec fn dropped(self) -> AdapterModel {
        AdapterModel {
            connected: false,
            attempts: if self.attempts == u32::MAX {
                u32::MAX
            } else {
                (self.attempts + 1) as u32
            },
            ..self
        }
    }

    /// The state after a dial.
    pub open spec fn dialed(self, succeeded: bool) -> AdapterModel {
        if succeeded {
            AdapterModel { connected: true, attempts: 0, ..self }
        } else {
            self
        }
    }

    /// The notice of a stream that is given up.
    pub open spec fn drop_notice(self, at: Seq<char>) -> EventModel {
        EventModel {
            source: self.source,
            status: ConnectionStatus::Disconnected,
            reason: Some("transport drop"@),
            attempt: self.attempts,
            at,
        }
    }

    /// The notice of a stream that came back.
    pub open spec fn return_notice(self, attempt: u32, at: Seq<char>) -> EventModel {
        EventModel {
            source: self.source,
            status: ConnectionStatus::Reconnected,
            reason: None,
            attempt,
            at,
        }
    }

    /// The state after a number of failed attempts.
    pub open spec fn after_failures(self, n: nat) -> AdapterModel
        decreases n,
    {
        if n == 0 {
            self
        } else {
            self.after_failures((n - 1) as nat).dropped().dialed(false)
        }
    }
}

/// The waits double from one attempt to the next until the cap, which none exceeds.
pub proof fn law_backoff_doubles_then_caps(attempt: nat)
    ensures
        attempt < 8 ==> backoff_ms(attempt + 1) == 2 * backoff_ms(attempt),
        attempt >= 9 ==> backoff_ms(attempt) == RECONNECT_CAP_MS,
        100 <= backoff_ms(attempt) <= RECONNECT_CAP_MS,
        backoff_ms(attempt) <= backoff_ms(attempt + 1),
{
    reveal_with_fuel(backoff_ms, 10);
}

/// While dials fail, each attempt waits as long as its place in the row says.
pub proof fn law_failures_walk_the_schedule(m: AdapterModel, n: nat)
    requires
        m.attempts == 0,
        n <= u32::MAX,
    ensures
        m.after_failures(n).attempts == n,
        n > 0 ==> !m.after_failures(n).connected,
        m.after_failures(n).source == m.source,
    decreases n,
{
    if n > 0 {
        law_failures_walk_the_schedule(m, (n - 1) as nat);
    }
}

/// A dial that succeeds opens the connection and starts the schedule afresh.
pub proof fn law_success_resets_the_schedule(m: AdapterModel)
    ensures
        m.dropped().dialed(true).connected,
        backoff_ms(m.dropped().dialed(true).attempts as nat) == 100,
{
}

} // verus!
