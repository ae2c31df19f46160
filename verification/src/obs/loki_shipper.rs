//! Sending log records to the store: retries, and the drain after an outage.
use crate::base::bounded::latest;
use crate::obs::degraded::{
    after_pushes, law_ring_keeps_the_latest, BoundedRingLogBuffer, DegradedModel, DegradedState,
};
use crate::obs::logging::{LogEnvelope, LOKI_BACKLOG_CAPACITY};
use vstd::prelude::*;

verus! {

/// The first wait after a failure, in milliseconds.
pub const FIRST_BACKOFF_MS: u64 = 100;

/// The longest wait after a failure, in milliseconds.
pub const MAX_BACKOFF_MS: u64 = 30_000;

/// What happened.
#[derive(Debug, PartialEq, Eq)]
pub enum ShipperEvent {
    /// A record came in.
    Received(LogEnvelope),
    /// The record at hand was delivered.
    Pushed,
    /// It was not.
    PushFailed,
}

/// What to do next.
#[derive(Clone, Copy, Debug, PartialEq, Eq, Structural)]
pub enum ShipperAction {
    /// Wait for a record.
    Receive,
    /// Send the record at hand.
    Send,
    /// Wait so many milliseconds, then send the record at hand.
    WaitAndSend(u64),
}

/// What the shipper is at.
pub enum Phase {
    /// Waiting for a record.
    Idle,
    /// Sending a record until it is delivered.
    Sending(LogEnvelope),
    /// Sending what was kept during an outage, in order.
    Draining(Seq<LogEnvelope>),
}

/// The state of a shipper with what it shares: the flags and the backlog.
pub struct ShipperModel {
    pub phase: Phase,
    pub backoff_ms: u64,
    pub degraded: DegradedModel,
    pub backlog: Seq<LogEnvelope>,
}

impl ShipperModel {
    /// Whether the waits are in bounds, and something is left to drain.
    pub open spec fn sound(self) -> bool {
        &&& FIRST_BACKOFF_MS <= self.backoff_ms <= MAX_BACKOFF_MS
        &&& self.phase matches Phase::Draining(rest) ==> rest.len() > 0
        &&& self.backlog.len() <= LOKI_BACKLOG_CAPACITY
    }

    /// Whether an event can happen now.
    pub open spec fn expects(self, event: ShipperEvent) -> bool {
        (self.phase is Idle) == (event is Received)
    }

    /// The record at hand.
    pub open spec fn at_hand(self) -> Option<LogEnvelope> {
        match self.phase {
            Phase::Idle => None,
            Phase::Sending(env) => Some(env),
            Phase::Draining(rest) => Some(rest[0]),
        }
    }

    /// Back to waiting for a record, with short waits.
    pub open spec fn idle(self) -> ShipperModel {
        ShipperModel { phase: Phase::Idle, backoff_ms: FIRST_BACKOFF_MS, ..self }
    }

    /// The state with the flag of the store set.
    pub open spec fn flagged(self, loki_unavailable: bool) -> ShipperModel {
        ShipperModel {
            degraded: DegradedModel { loki_unavailable, ..self.degraded },
            ..self
        }
    }

    /// The state after an event.
    ///
    /// A failure marks the store as down, and the record is tried again after a
    /// wait, which doubles each time. The first delivery after an outage marks the
    /// store as up, and what was kept is sent in order. Where that fails, the store
    /// is down again, and what is left goes back into the backlog.
    pub open spec fn after(self, event: ShipperEvent) -> ShipperModel {
        match (self.phase, event) {
            (Phase::Idle, ShipperEvent::Received(env)) => ShipperModel {
                phase: Phase::Sending(env),
                ..self
            },
            (Phase::Sending(env), ShipperEvent::Pushed) => if self.degraded.loki_unavailable
                && self.backlog.len() > 0 {
                ShipperModel {
                    phase: Phase::Draining(self.backlog),
                    backlog: Seq::empty(),
                    ..self.flagged(false)
                }
            } else {
                self.flagged(false).idle()
            },
            (Phase::Sending(env), ShipperEvent::PushFailed) => ShipperModel {
                backoff_ms: if 2 * self.backoff_ms <= MAX_BACKOFF_MS {
                    (2 * self.backoff_ms) as u64
                } else {
                    MAX_BACKOFF_MS
                },
                ..self.flagged(true)
            },
            (Phase::Draining(rest), ShipperEvent::Pushed) => if rest.len() > 1 {
                ShipperModel { phase: Phase::Draining(rest.skip(1)), ..self }
            } else {
                self.idle()
            },
            (Phase::Draining(rest), ShipperEvent::PushFailed) => ShipperModel {
                backlog: latest(self.backlog + rest, LOKI_BACKLOG_CAPACITY as nat),
                ..self.flagged(true).idle()
            },
            _ => self,
        }
    }

    /// What to do after an event.
    pub open spec fn next_action(self, event: ShipperEvent) -> ShipperAction {
        match (self.phase, event) {
            (Phase::Sending(_), ShipperEvent::PushFailed) => ShipperAction::WaitAndSend(
                self.backoff_ms,
            ),
            _ => match self.after(event).phase {
                Phase::Idle => ShipperAction::Receive,
                _ => ShipperAction::Send,
            },
        }
    }
}

/// What the shipper is at.
#[derive(Debug)]
enum ShipperPhase {
    Idle,
    Sending(LogEnvelope),
    Draining(Vec<LogEnvelope>),
}

/// Sends records one by one.
#[derive(Debug)]
pub struct LokiShipper {
    /// What is left to drain stands in reverse, the next record last.
    phase: ShipperPhase,
    backoff_ms: u64,
}

/// The items of a list in reverse.
fn reversed(items: Vec<LogEnvelope>) -> (out: Vec<LogEnvelope>)
    ensures
        out@ == items@.reverse(),
{
    let mut left = items;
    let mut out: Vec<LogEnvelope> = Vec::new();
    let ghost all = left@;
    while left.len() > 0
        invariant
            left@.len() <= all.len(),
            left@ == all.take(left@.len() as int),
            out@ == all.skip(left@.len() as int).reverse(),
        decreases left@.len(),
    {
        let ghost n = left@.len() as int;
        match left.pop() {
            Some(env) => {
                out.push(env);
                assert(all.skip(n - 1).reverse() =~= all.skip(n).reverse().push(env));
            },
            None => {},
        }
    }
    assert(all.skip(0) =~= all);
    out
}

impl LokiShipper {
    closed spec fn phase_model(self) -> Phase {
        match self.phase {
            ShipperPhase::Idle => Phase::Idle,
            ShipperPhase::Sending(env) => Phase::Sending(env),
            ShipperPhase::Draining(left) => Phase::Draining(left@.reverse()),
        }
    }

    /// The state of the shipper with the flags and the backlog given.
    pub closed spec fn model(
        self,
        degraded: DegradedState,
        backlog: BoundedRingLogBuffer<LOKI_BACKLOG_CAPACITY, LogEnvelope>,
    ) -> ShipperModel {
        ShipperModel {
            phase: self.phase_model(),
            backoff_ms: self.backoff_ms,
            degraded: degraded@,
            backlog: backlog@,
        }
    }

    /// A shipper that waits for its first record.
    pub fn new() -> (s: LokiShipper)
        ensures
            forall|
                degraded: DegradedState,
                backlog: BoundedRingLogBuffer<LOKI_BACKLOG_CAPACITY, LogEnvelope>,
            |
                #[trigger] s.model(degraded, backlog) == (ShipperModel {
                    phase: Phase::Idle,
                    backoff_ms: FIRST_BACKOFF_MS,
                    degraded: degraded@,
                    backlog: backlog@,
                }),
    {
        LokiShipper { phase: ShipperPhase::Idle, backoff_ms: FIRST_BACKOFF_MS }
    }

    /// The record at hand, to be sent next.
    pub fn at_hand(
        &self,
        degraded: &DegradedState,
        backlog: &BoundedRingLogBuffer<LOKI_BACKLOG_CAPACITY, LogEnvelope>,
    ) -> (env: Option<&LogEnvelope>)
        requires
            self.model(*degraded, *backlog).sound(),
        ensures
            match env {
                Some(e) => self.model(*degraded, *backlog).at_hand() == Some(*e),
                None => self.model(*degraded, *backlog).at_hand() is None,
            },
    {
        match &self.phase {
            ShipperPhase::Idle => None,
            ShipperPhase::Sending(env) => Some(env),
            ShipperPhase::Draining(left) => {
                assert(left@.reverse()[0] == left@[left@.len() - 1]);
                Some(&left[left.len() - 1])
            },
        }
    }

    /// Take in what happened. Returns what to do next.
    pub fn step(
        &mut self,
        event: ShipperEvent,
        degraded: &mut DegradedState,
        backlog: &mut BoundedRingLogBuffer<LOKI_BACKLOG_CAPACITY, LogEnvelope>,
    ) -> (action: ShipperAction)
        requires
            old(backlog).wf(),
            old(self).model(*old(degraded), *old(backlog)).sound(),
            old(self).model(*old(degraded), *old(backlog)).expects(event),
        ensures
            final(backlog).wf(),
            final(self).model(*final(degraded), *final(backlog)).sound(),
            final(self).model(*final(degraded), *final(backlog)) == old(self).model(
                *old(degraded),
                *old(backlog),
            ).after(event),
            action == old(self).model(*old(degraded), *old(backlog)).next_action(event),
    {
        let ghost m = self.model(*degraded, *backlog);
        let mut phase = ShipperPhase::Idle;
        std::mem::swap(&mut phase, &mut self.phase);
        match (phase, event) {
            (ShipperPhase::Idle, ShipperEvent::Received(env)) => {
                self.phase = ShipperPhase::Sending(env);
                ShipperAction::Send
            },
            (ShipperPhase::Sending(_), ShipperEvent::Pushed) => {
                let was_down = degraded.loki_unavailable();
                degraded.set_loki_unavailable(false);
                if was_down && !backlog.is_empty() {
                    let kept = backlog.drain();
                    let ghost order = kept@;
                    let left = reversed(kept);
                    assert(left@.reverse() =~= order);
                    self.phase = ShipperPhase::Draining(left);
                    ShipperAction::Send
                } else {
                    self.backoff_ms = FIRST_BACKOFF_MS;
                    ShipperAction::Receive
                }
            },
            (ShipperPhase::Sending(env), ShipperEvent::PushFailed) => {
                degraded.set_loki_unavailable(true);
                let wait: u64 = self.backoff_ms;
                self.backoff_ms = if 2 * wait <= MAX_BACKOFF_MS {
                    2 * wait
                } else {
                    MAX_BACKOFF_MS
                };
                self.phase = ShipperPhase::Sending(env);
                ShipperAction::WaitAndSend(wait)
            },
            (ShipperPhase::Draining(left), ShipperEvent::Pushed) => {
                let mut left = left;
                let ghost before = left@;
                let _ = left.pop();
                assert(left@.reverse() =~= before.reverse().skip(1));
                if left.len() > 0 {
                    self.phase = ShipperPhase::Draining(left);
                    ShipperAction::Send
                } else {
                    self.backoff_ms = FIRST_BACKOFF_MS;
                    ShipperAction::Receive
                }
            },
            (ShipperPhase::Draining(left), ShipperEvent::PushFailed) => {
                degraded.set_loki_unavailable(true);
                put_back(backlog, left);
                self.backoff_ms = FIRST_BACKOFF_MS;
                ShipperAction::Receive
            },
            _ => ShipperAction::Receive,
        }
    }
}

/// Put what is left to drain back into the backlog. It stands in reverse.
fn put_back(
    backlog: &mut BoundedRingLogBuffer<LOKI_BACKLOG_CAPACITY, LogEnvelope>,
    left: Vec<LogEnvelope>,
)
    requires
        old(backlog).wf(),
    ensures
        final(backlog).wf(),
        final(backlog)@ == latest(
            old(backlog)@ + left@.reverse(),
            LOKI_BACKLOG_CAPACITY as nat,
        ),
        final(backlog)@.len() <= LOKI_BACKLOG_CAPACITY,
{
    let mut left = left;
    let ghost order = left@.reverse();
    let ghost held = backlog@;
    let ghost cap = LOKI_BACKLOG_CAPACITY as nat;
    proof {
        backlog.lemma_within();
    }
    assert(after_pushes(held, order.take(0), cap) == held);
    while left.len() > 0
        invariant
            backlog.wf(),
            cap == LOKI_BACKLOG_CAPACITY,
            left@.len() <= order.len(),
            left@.reverse() == order.skip(order.len() - left@.len()),
            backlog@ == after_pushes(held, order.take(order.len() - left@.len()), cap),
        decreases left@.len(),
    {
        let ghost before = left@;
        let ghost k = order.len() - left@.len();
        match left.pop() {
            Some(env) => {
                let _ = backlog.push(env);
                proof {
                    assert(before.reverse()[0] == env);
                    assert(order[k] == env);
                    assert(order.take(k + 1).drop_last() =~= order.take(k));
                    assert(order.take(k + 1).last() == env);
                    assert forall|j: int| 0 <= j < left@.len() implies #[trigger] left@.reverse()[j]
                        == order[k + 1 + j] by {
                        assert(before.reverse()[j + 1] == order.skip(k)[j + 1]);
                    }
                    assert(left@.reverse() =~= order.skip(k + 1));
                }
            },
            None => {},
        }
    }
    proof {
        assert(order.take(order.len() as int) =~= order);
        law_ring_keeps_the_latest(held, order, cap);
    }
}

/// A drain that fails loses nothing that fits: what is left follows what is
/// already in the backlog, in order.
pub proof fn law_failed_drain_keeps_the_rest(m: ShipperModel)
    requires
        m.phase matches Phase::Draining(rest) && m.backlog.len() + rest.len()
            <= LOKI_BACKLOG_CAPACITY,
    ensures
        m.after(ShipperEvent::PushFailed).backlog == m.backlog + m.phase->Draining_0,
        m.after(ShipperEvent::PushFailed).degraded.loki_unavailable,
{
}

/// A record is kept at hand until it is delivered.
pub proof fn law_record_is_retried(m: ShipperModel)
    requires
        m.phase is Sending,
    ensures
        m.after(ShipperEvent::PushFailed).at_hand() == m.at_hand(),
        m.after(ShipperEvent::PushFailed).degraded.loki_unavailable,
        m.next_action(ShipperEvent::PushFailed) is WaitAndSend,
{
}

/// What was kept during an outage is sent next, oldest first, once a record is
/// delivered.
pub proof fn law_recovery_drains_in_order(m: ShipperModel)
    requires
        m.phase is Sending,
        m.degraded.loki_unavailable,
        m.backlog.len() > 0,
    ensures
        m.after(ShipperEvent::Pushed).phase == Phase::Draining(m.backlog),
        m.after(ShipperEvent::Pushed).at_hand() == Some(m.backlog[0]),
        !m.after(ShipperEvent::Pushed).degraded.loki_unavailable,
{
}

} // verus!
