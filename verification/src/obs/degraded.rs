//! Degraded telemetry: which sinks are down, and what is kept until they are back.
use crate::base::bounded::latest;
use vstd::prelude::*;

verus! {

/// Which sinks are down.
#[derive(Clone, Copy, Debug, PartialEq, Eq, Structural)]
pub struct DegradedState {
    loki_unavailable: bool,
    jaeger_overloaded: bool,
}

/// The two flags.
pub struct DegradedModel {
    pub loki_unavailable: bool,
    pub jaeger_overloaded: bool,
}

impl View for DegradedState {
    type V = DegradedModel;

    closed spec fn view(&self) -> DegradedModel {
        DegradedModel {
            loki_unavailable: self.loki_unavailable,
            jaeger_overloaded: self.jaeger_overloaded,
        }
    }
}

impl DegradedState {
    /// All is well.
    pub fn new() -> (s: DegradedState)
        ensures
            s@ == (DegradedModel { loki_unavailable: false, jaeger_overloaded: false }),
    {
        DegradedState { loki_unavailable: false, jaeger_overloaded: false }
    }

    /// Whether the log store cannot be reached.
    pub fn loki_unavailable(&self) -> (yes: bool)
        ensures
            yes == self@.loki_unavailable,
    {
        self.loki_unavailable
    }

    pub fn set_loki_unavailable(&mut self, value: bool)
        ensures
            final(self)@ == (DegradedModel { loki_unavailable: value, ..old(self)@ }),
    {
        self.loki_unavailable = value;
    }

    /// Whether the trace store gets more than it can take.
    pub fn jaeger_overloaded(&self) -> (yes: bool)
        ensures
            yes == self@.jaeger_overloaded,
    {
        self.jaeger_overloaded
    }

    pub fn set_jaeger_overloaded(&mut self, value: bool)
        ensures
            final(self)@ == (DegradedModel { jaeger_overloaded: value, ..old(self)@ }),
    {
        self.jaeger_overloaded = value;
    }
}

/// The place of the item at `i`, in a ring that starts at `head`.
spec fn place(head: int, i: int, cap: int) -> int {
    if head + i < cap {
        head + i
    } else {
        head + i - cap
    }
}

/// The place of the item at `i`, in a ring that starts at `head`.
fn slot(head: usize, i: usize, cap: usize) -> (at: usize)
    requires
        head < cap,
        i <= cap,
    ensures
        at == place(head as int, i as int, cap as int),
        i < cap ==> at < cap,
{
    if i < cap - head {
        head + i
    } else {
        i - (cap - head)
    }
}

/// A first-in-first-out buffer of `N` places that drops its oldest item when it is
/// full.
#[derive(Debug)]
pub struct BoundedRingLogBuffer<const N: usize, T> {
    buf: Vec<Option<T>>,
    /// The place of the oldest item.
    head: usize,
    len: usize,
}

impl<const N: usize, T> View for BoundedRingLogBuffer<N, T> {
    type V = Seq<T>;

    /// The items, oldest first.
    closed spec fn view(&self) -> Seq<T> {
        Seq::new(
            self.len as nat,
            |i: int| self.buf@[place(self.head as int, i, N as int)]->0,
        )
    }
}

impl<const N: usize, T> BoundedRingLogBuffer<N, T> {
    pub closed spec fn wf(self) -> bool {
        &&& self.buf@.len() == N
        &&& self.head < N
        &&& self.len <= N
        &&& forall|i: int|
            0 <= i < self.len ==> (#[trigger] self.buf@[place(
                self.head as int,
                i,
                N as int,
            )]) is Some
    }

    /// An empty buffer.
    pub fn new() -> (b: Self)
        requires
            N > 0,
        ensures
            b.wf(),
            b@ == Seq::<T>::empty(),
    {
        let mut buf: Vec<Option<T>> = Vec::new();
        let mut i: usize = 0;
        while i < N
            invariant
                i <= N,
                buf@.len() == i,
            decreases N - i,
        {
            buf.push(None);
            i = i + 1;
        }
        let b = BoundedRingLogBuffer { buf, head: 0, len: 0 };
        assert(b@ =~= Seq::<T>::empty());
        b
    }

    pub fn capacity(&self) -> (n: usize)
        ensures
            n == N,
    {
        N
    }

    pub fn len(&self) -> (n: usize)
        ensures
            n == self@.len(),
    {
        self.len
    }

    pub fn is_empty(&self) -> (empty: bool)
        ensures
            empty == (self@.len() == 0),
    {
        self.len == 0
    }

    pub fn is_full(&self) -> (full: bool)
        ensures
            full == (self@.len() == N),
    {
        self.len == N
    }

    /// No more items are held than there are places.
    pub proof fn lemma_within(&self)
        requires
            self.wf(),
        ensures
            self@.len() <= N,
            N > 0,
    {
    }

    /// Append an item. Returns the oldest one where it had to go.
    pub fn push(&mut self, value: T) -> (evicted: Option<T>)
        requires
            old(self).wf(),
        ensures
            final(self).wf(),
            final(self)@ == latest(old(self)@.push(value), N as nat),
            evicted == if old(self)@.len() == N {
                Some(old(self)@[0])
            } else {
                None
            },
    {
        let ghost before = *self;
        let ghost items = self@;
        if self.len == N {
            let at: usize = self.head;
            assert(place(before.head as int, 0, N as int) == at);
            let evicted = self.buf[at].take();
            self.buf[at] = Some(value);
            self.head = if at + 1 == N {
                0
            } else {
                at + 1
            };
            proof {
                assert forall|i: int| 0 <= i < N implies (#[trigger] self.buf@[place(
                    self.head as int,
                    i,
                    N as int,
                )]) is Some && self.buf@[place(self.head as int, i, N as int)]->0 == items.push(
                    value,
                )[i + 1] by {
                    if i < N - 1 {
                        assert(place(self.head as int, i, N as int) == place(
                            before.head as int,
                            i + 1,
                            N as int,
                        ));
                        assert(before.buf@[place(before.head as int, i + 1, N as int)] is Some);
                    } else {
                        assert(place(self.head as int, i, N as int) == at);
                    }
                }
                assert(items.push(value).skip(1) =~= self@);
            }
            evicted
        } else {
            let at: usize = slot(self.head, self.len, N);
            self.buf[at] = Some(value);
            self.len = self.len + 1;
            proof {
                assert forall|i: int| 0 <= i < self.len implies (#[trigger] self.buf@[place(
                    self.head as int,
                    i,
                    N as int,
                )]) is Some && self.buf@[place(self.head as int, i, N as int)]->0 == items.push(
                    value,
                )[i] by {
                    if i < before.len {
                        assert(place(before.head as int, i, N as int) != at);
                        assert(before.buf@[place(before.head as int, i, N as int)] is Some);
                    }
                }
                assert(items.push(value) =~= self@);
            }
            None
        }
    }

    /// Take out all items, oldest first.
    pub fn drain(&mut self) -> (items: Vec<T>)
        requires
            old(self).wf(),
        ensures
            final(self).wf(),
            final(self)@ == Seq::<T>::empty(),
            items@ == old(self)@,
    {
        let ghost before = *self;
        let ghost all = self@;
        let len: usize = self.len;
        let head: usize = self.head;
        let mut out: Vec<T> = Vec::new();
        let mut i: usize = 0;
        while i < len
            invariant
                i <= len,
                len <= N,
                head < N,
                self.buf@.len() == N,
                before.wf(),
                before.head == head,
                before.len == len,
                all == before@,
                out@ == all.take(i as int),
                forall|k: int|
                    i <= k < len ==> self.buf@[#[trigger] place(head as int, k, N as int)]
                        == before.buf@[place(head as int, k, N as int)],
            decreases len - i,
        {
            let at: usize = slot(head, i, N);
            assert(before.buf@[place(head as int, i as int, N as int)] is Some);
            match self.buf[at].take() {
                Some(v) => {
                    out.push(v);
                    assert(all.take(i + 1) =~= all.take(i as int).push(v));
                },
                None => {
                    assert(false);
                },
            }
            i = i + 1;
        }
        self.head = 0;
        self.len = 0;
        assert(all.take(i as int) =~= all);
        assert(self@ =~= Seq::<T>::empty());
        out
    }
}

/// A buffer after a row of items is pushed.
pub open spec fn after_pushes<T>(items: Seq<T>, more: Seq<T>, cap: nat) -> Seq<T>
    decreases more.len(),
{
    if more.len() == 0 {
        items
    } else {
        latest(after_pushes(items, more.drop_last(), cap).push(more.last()), cap)
    }
}

/// However many items are pushed, the buffer holds the latest, in the order in
/// which they came, and never more than fit.
pub proof fn law_ring_keeps_the_latest<T>(items: Seq<T>, more: Seq<T>, cap: nat)
    requires
        items.len() <= cap,
    ensures
        after_pushes(items, more, cap) == latest(items + more, cap),
        after_pushes(items, more, cap).len() <= cap,
    decreases more.len(),
{
    if more.len() == 0 {
        assert(items + more =~= items);
    } else {
        let rest = more.drop_last();
        law_ring_keeps_the_latest(items, rest, cap);
        assert(items + more =~= (items + rest).push(more.last()));
        assert(latest(latest(items + rest, cap).push(more.last()), cap) =~= latest(
            (items + rest).push(more.last()),
            cap,
        ));
    }
}

/// The two flags do not affect each other.
pub proof fn law_flags_are_independent(m: DegradedModel, value: bool)
    ensures
        (DegradedModel { loki_unavailable: value, ..m }).jaeger_overloaded == m.jaeger_overloaded,
        (DegradedModel { jaeger_overloaded: value, ..m }).loki_unavailable == m.loki_unavailable,
{
}

} // verus!
