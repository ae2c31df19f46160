//! Buffers of fixed capacity: two refuse what does not fit, one drops its oldest
//! item.
use std::collections::VecDeque;
use vstd::prelude::*;

verus! {

/// The first `cap` items of a sequence, or all of it where it is shorter.
pub open spec fn capped<T>(items: Seq<T>, cap: nat) -> Seq<T> {
    if items.len() <= cap {
        items
    } else {
        items.take(cap as int)
    }
}

/// The last `cap` items of a sequence, or all of it where it is shorter.
pub open spec fn latest<T>(items: Seq<T>, cap: nat) -> Seq<T> {
    if items.len() <= cap {
        items
    } else {
        items.skip(items.len() - cap)
    }
}

/// A list of at most `N` items that refuses more.
#[derive(Debug)]
pub struct BoundedEvents<T, const N: usize> {
    items: Vec<T>,
}

impl<T, const N: usize> View for BoundedEvents<T, N> {
    type V = Seq<T>;

    closed spec fn view(&self) -> Seq<T> {
        self.items@
    }
}

impl<T, const N: usize> BoundedEvents<T, N> {
    pub open spec fn wf(self) -> bool {
        self@.len() <= N
    }

    pub fn new() -> (b: Self)
        ensures
            b.wf(),
            b@ == Seq::<T>::empty(),
    {
        BoundedEvents { items: Vec::new() }
    }

    /// Append an item, or hand it back when the list is full.
    pub fn try_push(&mut self, item: T) -> (pushed: Result<(), T>)
        requires
            old(self).wf(),
        ensures
            final(self).wf(),
            final(self)@ == capped(old(self)@.push(item), N as nat),
            match pushed {
                Ok(_) => old(self)@.len() < N,
                Err(back) => old(self)@.len() == N && back == item,
            },
    {
        if self.items.len() < N {
            self.items.push(item);
            Ok(())
        } else {
            assert(self@.push(item).take(N as int) =~= self@);
            Err(item)
        }
    }

    pub fn as_slice(&self) -> (items: &[T])
        ensures
            items@ == self@,
    {
        self.items.as_slice()
    }

    pub fn len(&self) -> (n: usize)
        ensures
            n == self@.len(),
    {
        self.items.len()
    }

    pub fn is_empty(&self) -> (empty: bool)
        ensures
            empty == (self@.len() == 0),
    {
        self.items.len() == 0
    }
}

/// A window over the last `N` items pushed.
#[derive(Debug)]
pub struct RingWindow<T, const N: usize> {
    items: VecDeque<T>,
}

impl<T, const N: usize> View for RingWindow<T, N> {
    type V = Seq<T>;

    closed spec fn view(&self) -> Seq<T> {
        self.items@
    }
}

impl<T, const N: usize> RingWindow<T, N> {
    pub open spec fn wf(self) -> bool {
        N > 0 && self@.len() <= N
    }

    pub fn new() -> (w: Self)
        requires
            N > 0,
        ensures
            w.wf(),
            w@ == Seq::<T>::empty(),
    {
        RingWindow { items: VecDeque::new() }
    }

    /// Append an item, dropping the oldest when the window is full.
    pub fn push(&mut self, item: T)
        requires
            old(self).wf(),
        ensures
            final(self).wf(),
            final(self)@ == latest(old(self)@.push(item), N as nat),
    {
        let ghost before = self@;
        if self.items.len() == N {
            self.items.pop_front();
        }
        self.items.push_back(item);
        proof {
            if before.len() == N {
                assert(self@ =~= before.push(item).skip(1));
            } else {
                assert(self@ =~= before.push(item));
            }
        }
    }

    /// The item at an index, oldest first.
    pub fn get(&self, i: usize) -> (item: &T)
        requires
            i < self@.len(),
        ensures
            *item == self@[i as int],
    {
        &self.items[i]
    }

    pub fn len(&self) -> (n: usize)
        ensures
            n == self@.len(),
    {
        self.items.len()
    }

    pub fn is_empty(&self) -> (empty: bool)
        ensures
            empty == (self@.len() == 0),
    {
        self.items.len() == 0
    }
}

/// A first-in-first-out queue of bounded length that refuses what does not fit.
#[derive(Clone, Debug)]
pub struct BoundedQueue<T> {
    items: VecDeque<T>,
    capacity: usize,
}

impl<T> View for BoundedQueue<T> {
    type V = Seq<T>;

    closed spec fn view(&self) -> Seq<T> {
        self.items@
    }
}

impl<T> BoundedQueue<T> {
    /// How many items fit.
    pub closed spec fn bound(self) -> nat {
        self.capacity as nat
    }

    pub fn with_capacity(capacity: usize) -> (q: Self)
        ensures
            q@ == Seq::<T>::empty(),
            q.bound() == capacity,
    {
        BoundedQueue { items: VecDeque::new(), capacity }
    }

    /// Append an item. It comes back where the queue is full.
    pub fn push(&mut self, item: T) -> (pushed: Result<(), T>)
        ensures
            final(self).bound() == old(self).bound(),
            if old(self)@.len() < old(self).bound() {
                pushed is Ok && final(self)@ == old(self)@.push(item)
            } else {
                pushed == Err::<(), T>(item) && final(self)@ == old(self)@
            },
    {
        if self.items.len() < self.capacity {
            self.items.push_back(item);
            Ok(())
        } else {
            Err(item)
        }
    }

    /// Take out the oldest item.
    pub fn pop(&mut self) -> (item: Option<T>)
        ensures
            final(self).bound() == old(self).bound(),
            if old(self)@.len() > 0 {
                item == Some(old(self)@[0]) && final(self)@ == old(self)@.skip(1)
            } else {
                item is None && final(self)@ == old(self)@
            },
    {
        let ghost before = self.items@;
        let item = self.items.pop_front();
        proof {
            if before.len() > 0 {
                assert(self.items@ =~= before.skip(1));
            }
        }
        item
    }
}

/// Capping after each append is capping once at the end.
pub proof fn lemma_capped_push<T>(before: Seq<T>, more: Seq<T>, item: T, cap: nat)
    ensures
        capped(capped(before + more, cap).push(item), cap) == capped(before + more.push(item), cap),
{
    let all = before + more.push(item);
    assert(all =~= (before + more).push(item));
    assert(capped(capped(before + more, cap).push(item), cap) =~= capped(all, cap));
}

/// Of a list that is too long, one end is kept: the first items where it is capped, the
/// last ones where the latest are kept. One that fits is kept whole.
pub proof fn law_one_end_is_kept<T>(items: Seq<T>, cap: nat, i: int)
    ensures
        items.len() <= cap ==> capped(items, cap) == items && latest(items, cap) == items,
        items.len() > cap ==> capped(items, cap).len() == cap && latest(items, cap).len() == cap,
        items.len() > cap && 0 <= i < cap ==> capped(items, cap)[i] == items[i],
        items.len() > cap && 0 <= i < cap ==> latest(items, cap)[cap - 1 - i]
            == items[items.len() - 1 - i],
{
}

} // verus!
