//! Which log records are sent, kept or dropped.
use crate::base::bounded::latest;
use crate::base::text::{is_blank, same_text};
use crate::obs::degraded::BoundedRingLogBuffer;
use tokio::sync::mpsc::error::TrySendError;
use tokio::sync::mpsc::Sender;
use vstd::prelude::*;
use vstd::string::StringExecFns;

verus! {

/// How many records are kept while the log store is down.
pub const LOKI_BACKLOG_CAPACITY: usize = 256;

/// The level of a record.
#[derive(Clone, Copy, Debug, PartialEq, Eq, Structural)]
pub enum Level {
    Trace,
    Debug,
    Info,
    Warn,
    Error,
}

/// How much a record matters.
#[derive(Clone, Copy, Debug, PartialEq, Eq, Hash, Structural)]
pub enum Severity {
    Low,
    High,
}

impl Severity {
    /// Warnings and errors matter much.
    pub open spec fn of(level: Level) -> Severity {
        match level {
            Level::Warn | Level::Error => Severity::High,
            _ => Severity::Low,
        }
    }

    /// The severity of a level.
    pub fn from_level(level: &Level) -> (s: Severity)
        ensures
            s == Severity::of(*level),
    {
        match level {
            Level::Warn => Severity::High,
            Level::Error => Severity::High,
            _ => Severity::Low,
        }
    }
}

/// A log record on its way to the store.
#[derive(Clone, Debug, PartialEq, Eq)]
pub struct LogEnvelope {
    /// Nanoseconds since the Unix epoch.
    pub timestamp_ns: u128,
    pub level: String,
    pub target: String,
    pub message: String,
    pub severity: Severity,
}

/// What a layer does while the store is down.
#[derive(Clone, Copy, Debug, PartialEq, Eq, Structural)]
pub struct LokiLayerConfig {
    /// Drop records that matter little.
    pub drop_low_severity_on_unavailable: bool,
}

/// The message of a record after one more field. The field `message` is the
/// message; any other is added to a message that there is already.
pub open spec fn with_field(message: Seq<char>, name: Seq<char>, value: Seq<char>) -> Seq<char> {
    if name == "message"@ {
        value
    } else if message.len() > 0 {
        message + " "@ + name + "="@ + value
    } else {
        message
    }
}

/// Take one more field into the message of a record.
pub fn record_field(message: String, name: &str, value: &str) -> (after: String)
    ensures
        after@ == with_field(message@, name@, value@),
{
    if same_text(name, "message") {
        String::from_str(value)
    } else if !is_blank(message.as_str()) {
        let mut after = message;
        after.append(" ");
        after.append(name);
        after.append("=");
        after.append(value);
        after
    } else {
        message
    }
}

#[verifier::external_type_specification]
#[verifier::external_body]
#[verifier::reject_recursive_types(T)]
pub struct ExLogSender<T>(tokio::sync::mpsc::Sender<T>);

/// The records that a channel took from a sender, in order.
pub uninterp spec fn records_taken(sender: Sender<LogEnvelope>) -> Seq<LogEnvelope>;

/// Calls `Sender::try_send`: the channel takes the record, or the record comes back
/// where the channel is full or closed. Which of the two happens is left open: it
/// depends on the receiving side.
#[verifier::external_body]
fn try_send(sender: &mut Sender<LogEnvelope>, env: LogEnvelope) -> (sent: Result<(), LogEnvelope>)
    ensures
        match sent {
            Ok(()) => records_taken(*final(sender)) == records_taken(*old(sender)).push(env),
            Err(back) => back == env && records_taken(*final(sender)) == records_taken(
                *old(sender),
            ),
        },
{
    match sender.try_send(env) {
        Ok(()) => Ok(()),
        Err(TrySendError::Full(back)) => Err(back),
        Err(TrySendError::Closed(back)) => Err(back),
    }
}

/// Where a record goes.
#[derive(Clone, Copy, Debug, PartialEq, Eq, Structural)]
pub enum Route {
    /// To the shipper, and to the backlog where the shipper cannot take it.
    Channel,
    /// To the backlog.
    Backlog,
    /// Nowhere.
    Dropped,
}

/// Where a record goes. While the store is down, records that matter are kept, and
/// the others dropped where the policy says so. While it is up, all are sent, or
/// kept where there is no shipper.
pub open spec fn route_of(
    severity: Severity,
    loki_unavailable: bool,
    config: LokiLayerConfig,
    has_channel: bool,
) -> Route {
    if loki_unavailable {
        if severity == Severity::Low && config.drop_low_severity_on_unavailable {
            Route::Dropped
        } else {
            Route::Backlog
        }
    } else if has_channel {
        Route::Channel
    } else {
        Route::Backlog
    }
}

/// Where a record goes.
pub fn route(
    severity: Severity,
    loki_unavailable: bool,
    config: LokiLayerConfig,
    has_channel: bool,
) -> (r: Route)
    ensures
        r == route_of(severity, loki_unavailable, config, has_channel),
{
    if loki_unavailable {
        match severity {
            Severity::High => Route::Backlog,
            Severity::Low => if config.drop_low_severity_on_unavailable {
                Route::Dropped
            } else {
                Route::Backlog
            },
        }
    } else if has_channel {
        Route::Channel
    } else {
        Route::Backlog
    }
}

/// The backlog after a record is kept.
pub open spec fn kept(backlog: Seq<LogEnvelope>, env: LogEnvelope) -> Seq<LogEnvelope> {
    latest(backlog.push(env), LOKI_BACKLOG_CAPACITY as nat)
}

/// Whether a record went its way: what the shipper got, and what is kept, before and
/// after. One that the shipper cannot take is kept.
pub open spec fn went(
    route: Route,
    env: LogEnvelope,
    handed: Seq<LogEnvelope>,
    held: Seq<LogEnvelope>,
    handed_after: Seq<LogEnvelope>,
    held_after: Seq<LogEnvelope>,
) -> bool {
    let is_handed = handed_after == handed.push(env) && held_after == held;
    let is_kept = handed_after == handed && held_after == kept(held, env);
    match route {
        Route::Dropped => handed_after == handed && held_after == held,
        Route::Backlog => is_kept,
        Route::Channel => is_handed || is_kept,
    }
}

/// Keep a record that the shipper gave back. Where it took the record, nothing is
/// kept.
pub fn keep_returned(
    backlog: &mut BoundedRingLogBuffer<LOKI_BACKLOG_CAPACITY, LogEnvelope>,
    sent: Result<(), LogEnvelope>,
)
    requires
        old(backlog).wf(),
    ensures
        final(backlog).wf(),
        final(backlog)@ == match sent {
            Ok(()) => old(backlog)@,
            Err(back) => kept(old(backlog)@, back),
        },
{
    match sent {
        Ok(()) => {},
        Err(back) => {
            let _ = backlog.push(back);
        },
    }
}

/// Hands log records to the shipper, or keeps them.
#[derive(Debug)]
pub struct LokiLayer {
    sender: Option<Sender<LogEnvelope>>,
    backlog: BoundedRingLogBuffer<LOKI_BACKLOG_CAPACITY, LogEnvelope>,
    config: LokiLayerConfig,
}

impl LokiLayer {
    pub closed spec fn wf(self) -> bool {
        self.backlog.wf()
    }

    /// Whether there is a shipper.
    pub closed spec fn has_channel(self) -> bool {
        self.sender is Some
    }

    /// The records that are kept, oldest first.
    pub closed spec fn held(self) -> Seq<LogEnvelope> {
        self.backlog@
    }

    /// The records that the shipper got, in order.
    pub closed spec fn handed(self) -> Seq<LogEnvelope> {
        match self.sender {
            Some(sender) => records_taken(sender),
            None => Seq::empty(),
        }
    }

    /// The policy.
    pub closed spec fn policy(self) -> LokiLayerConfig {
        self.config
    }

    /// A layer with a shipper.
    pub fn new(
        sender: Sender<LogEnvelope>,
        backlog: BoundedRingLogBuffer<LOKI_BACKLOG_CAPACITY, LogEnvelope>,
        config: LokiLayerConfig,
    ) -> (layer: LokiLayer)
        requires
            backlog.wf(),
        ensures
            layer.wf(),
            layer.has_channel(),
            layer.handed() == records_taken(sender),
            layer.held() == backlog@,
            layer.policy() == config,
    {
        LokiLayer { sender: Some(sender), backlog, config }
    }

    /// A layer without a shipper.
    pub fn buffered_only(
        backlog: BoundedRingLogBuffer<LOKI_BACKLOG_CAPACITY, LogEnvelope>,
        config: LokiLayerConfig,
    ) -> (layer: LokiLayer)
        requires
            backlog.wf(),
        ensures
            layer.wf(),
            !layer.has_channel(),
            layer.handed() == Seq::<LogEnvelope>::empty(),
            layer.held() == backlog@,
            layer.policy() == config,
    {
        LokiLayer { sender: None, backlog, config }
    }

    pub fn backlog(&self) -> (b: &BoundedRingLogBuffer<LOKI_BACKLOG_CAPACITY, LogEnvelope>)
        requires
            self.wf(),
        ensures
            b.wf(),
            b@ == self.held(),
    {
        &self.backlog
    }

    /// The backlog, to be drained.
    pub fn backlog_mut(&mut self) -> (b: &mut BoundedRingLogBuffer<
        LOKI_BACKLOG_CAPACITY,
        LogEnvelope,
    >)
        requires
            old(self).wf(),
        ensures
            b.wf(),
            b@ == old(self).held(),
            final(b).wf() ==> final(self).wf(),
            final(self).held() == final(b)@,
            final(self).handed() == old(self).handed(),
            final(self).policy() == old(self).policy(),
            final(self).has_channel() == old(self).has_channel(),
    {
        &mut self.backlog
    }

    /// Send, keep or drop a record. One that the shipper should get is kept where
    /// the shipper cannot take it.
    pub fn handle_envelope(&mut self, env: LogEnvelope, loki_unavailable: bool)
        requires
            old(self).wf(),
        ensures
            final(self).wf(),
            final(self).policy() == old(self).policy(),
            final(self).has_channel() == old(self).has_channel(),
            went(
                route_of(
                    env.severity,
                    loki_unavailable,
                    old(self).policy(),
                    old(self).has_channel(),
                ),
                env,
                old(self).handed(),
                old(self).held(),
                final(self).handed(),
                final(self).held(),
            ),
    {
        let r = route(env.severity, loki_unavailable, self.config, self.sender.is_some());
        match r {
            Route::Dropped => {},
            Route::Backlog => {
                let _ = self.backlog.push(env);
            },
            Route::Channel => match &mut self.sender {
                Some(sender) => {
                    let sent = try_send(sender, env);
                    keep_returned(&mut self.backlog, sent);
                },
                None => {},
            },
        }
    }
}

/// A record that matters is never dropped: the shipper gets it, or it is the latest
/// that is kept.
pub proof fn law_high_severity_is_never_dropped(
    env: LogEnvelope,
    loki_unavailable: bool,
    config: LokiLayerConfig,
    has_channel: bool,
    handed: Seq<LogEnvelope>,
    held: Seq<LogEnvelope>,
    handed_after: Seq<LogEnvelope>,
    held_after: Seq<LogEnvelope>,
)
    requires
        env.severity == Severity::High,
        went(
            route_of(env.severity, loki_unavailable, config, has_channel),
            env,
            handed,
            held,
            handed_after,
            held_after,
        ),
    ensures
        route_of(env.severity, loki_unavailable, config, has_channel) != Route::Dropped,
        handed_after == handed.push(env) || (held_after.len() > 0 && held_after.last() == env),
{
}

} // verus!
