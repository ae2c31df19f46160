//! Handing ticks to everyone who follows their symbol.
use crate::base::schema::Tick;
use crate::base::types::SymbolId;
use dashmap::DashMap;
use tokio::sync::broadcast;
use tokio::sync::broadcast::{Receiver, Sender};
use vstd::prelude::*;

verus! {

/// How many ticks a channel keeps for a slow follower.
pub const CHANNEL_CAPACITY: usize = 1024;

#[verifier::external_type_specification]
#[verifier::external_body]
#[verifier::reject_recursive_types(T)]
pub struct ExSender<T>(tokio::sync::broadcast::Sender<T>);

#[verifier::external_type_specification]
#[verifier::external_body]
#[verifier::reject_recursive_types(T)]
pub struct ExReceiver<T>(tokio::sync::broadcast::Receiver<T>);

/// What is known of a channel.
pub struct ChannelModel {
    /// Which channel it is.
    pub id: int,
    /// Whether it ever had a follower.
    pub followed: bool,
    /// The ticks that it took for its followers, in order.
    pub taken: Seq<Tick>,
}

/// The channels that a map holds, by symbol number.
pub uninterp spec fn channels_held(channels: DashMap<u32, Sender<Tick>>) -> Map<u32, ChannelModel>;

/// Which channel a receiver is on: the same for two receivers where `same_channel`
/// says so.
pub uninterp spec fn channel_of(receiver: Receiver<Tick>) -> int;

/// Whether a map of channels is another with a channel for the symbol: its old one
/// where it had one, else a new one, which nobody follows.
pub open spec fn opens(
    before: Map<u32, ChannelModel>,
    after: Map<u32, ChannelModel>,
    symbol: u32,
) -> bool {
    &&& after.dom() == before.dom().insert(symbol)
    &&& forall|k: u32| #[trigger] before.contains_key(k) ==> after[k] == before[k]
    &&& !before.contains_key(symbol) ==> {
        &&& !after[symbol].followed
        &&& after[symbol].taken == Seq::<Tick>::empty()
        &&& forall|k: u32| #[trigger] before.contains_key(k) ==> before[k].id != after[symbol].id
    }
}

/// A map of channels after someone came to follow the symbol.
pub open spec fn with_follower(channels: Map<u32, ChannelModel>, symbol: u32) -> Map<
    u32,
    ChannelModel,
> {
    channels.insert(symbol, ChannelModel { followed: true, ..channels[symbol] })
}

/// A map of channels after the channel of a symbol took a tick.
pub open spec fn with_tick(channels: Map<u32, ChannelModel>, symbol: u32, tick: Tick) -> Map<
    u32,
    ChannelModel,
> {
    channels.insert(
        symbol,
        ChannelModel { taken: channels[symbol].taken.push(tick), ..channels[symbol] },
    )
}

/// Whether a symbol has a channel that ever had a follower.
pub open spec fn has_followers(channels: Map<u32, ChannelModel>, symbol: u32) -> bool {
    channels.contains_key(symbol) && channels[symbol].followed
}

/// Calls `DashMap::new`: no symbol has a channel.
#[verifier::external_body]
fn new_channels() -> (channels: DashMap<u32, Sender<Tick>>)
    ensures
        channels_held(channels).dom() == Set::<u32>::empty(),
{
    DashMap::new()
}

/// Calls `DashMap::len`: the number of symbols.
#[verifier::external_body]
fn count_channels(channels: &DashMap<u32, Sender<Tick>>) -> (n: usize)
    ensures
        n == channels_held(*channels).dom().len(),
{
    channels.len()
}

/// Calls `DashMap::entry` and `or_insert_with`, with `broadcast::channel` for the
/// new value: afterwards the symbol has a channel, its old one where it had one. A
/// new channel is none of the others; its first receiver is dropped, so that nobody
/// follows it, and it has taken nothing. `broadcast::channel` panics on other
/// capacities.
#[verifier::external_body]
fn open_channel(channels: &mut DashMap<u32, Sender<Tick>>, symbol: u32, capacity: usize)
    requires
        0 < capacity <= usize::MAX / 2,
    ensures
        opens(channels_held(*old(channels)), channels_held(*final(channels)), symbol),
{
    channels.entry(symbol).or_insert_with(|| broadcast::channel::<Tick>(capacity).0);
}

/// Calls `DashMap::get` and `Sender::subscribe`: a receiver on the symbol's
/// channel, which then has a follower; nothing where the symbol has no channel.
/// What the receiver will yield is left open: it depends on what is sent later.
#[verifier::external_body]
fn follow(channels: &mut DashMap<u32, Sender<Tick>>, symbol: u32) -> (receiver: Option<
    Receiver<Tick>,
>)
    ensures
        match receiver {
            Some(r) => {
                &&& channels_held(*old(channels)).contains_key(symbol)
                &&& channel_of(r) == channels_held(*old(channels))[symbol].id
                &&& channels_held(*final(channels)) == with_follower(
                    channels_held(*old(channels)),
                    symbol,
                )
            },
            None => {
                &&& !channels_held(*old(channels)).contains_key(symbol)
                &&& channels_held(*final(channels)) == channels_held(*old(channels))
            },
        },
{
    channels.get(&symbol).map(|sender| sender.value().subscribe())
}

/// Calls `DashMap::get` and `Sender::send`: whether a receiver was there to take the
/// tick. Where one was, the symbol's channel took that tick; else nothing changed.
/// There is none where the symbol has no channel, or one that nobody ever followed.
/// Where it was followed the outcome is left open: it depends on whether a receiver
/// is still alive.
#[verifier::external_body]
fn send(channels: &mut DashMap<u32, Sender<Tick>>, symbol: u32, tick: Tick) -> (reached: bool)
    ensures
        reached ==> has_followers(channels_held(*old(channels)), symbol),
        channels_held(*final(channels)) == if reached {
            with_tick(channels_held(*old(channels)), symbol, tick)
        } else {
            channels_held(*old(channels))
        },
{
    channels.get(&symbol).map(|sender| sender.value().send(tick).is_ok()).unwrap_or(false)
}

/// The channels and the size that new ones get.
pub struct DistributorModel {
    pub channels: Map<u32, ChannelModel>,
    pub capacity: usize,
}

impl DistributorModel {
    /// Whether channels of this size can be made.
    pub open spec fn can_open(self) -> bool {
        0 < self.capacity <= usize::MAX / 2
    }

    /// Whether this is another state in which the symbol was given a channel.
    pub open spec fn opened_from(self, before: DistributorModel, symbol: u32) -> bool {
        self.capacity == before.capacity && opens(before.channels, self.channels, symbol)
    }

    /// The state after someone came to follow a symbol that has a channel.
    pub open spec fn followed(self, symbol: u32) -> DistributorModel {
        DistributorModel { channels: with_follower(self.channels, symbol), ..self }
    }

    /// The state after the channel of a tick's symbol took the tick.
    pub open spec fn took(self, tick: Tick) -> DistributorModel {
        DistributorModel { channels: with_tick(self.channels, tick.symbol, tick), ..self }
    }

    /// Whether no two symbols share a channel.
    pub open spec fn channels_distinct(self) -> bool {
        forall|a: u32, b: u32| #[trigger]
            self.channels.contains_key(a) && #[trigger] self.channels.contains_key(b) && a != b
                ==> self.channels[a].id != self.channels[b].id
    }
}

/// One broadcast channel for each symbol that anyone follows. A follower that falls
/// behind loses the oldest ticks.
#[derive(Debug)]
pub struct Distributor {
    channels: DashMap<u32, Sender<Tick>>,
    capacity: usize,
}

impl View for Distributor {
    type V = DistributorModel;

    closed spec fn view(&self) -> DistributorModel {
        DistributorModel { channels: channels_held(self.channels), capacity: self.capacity }
    }
}

impl Distributor {
    pub fn new() -> (d: Distributor)
        ensures
            d@.channels.dom() == Set::<u32>::empty(),
            d@.capacity == CHANNEL_CAPACITY,
    {
        Self::with_capacity(CHANNEL_CAPACITY)
    }

    pub fn with_capacity(capacity: usize) -> (d: Distributor)
        ensures
            d@.channels.dom() == Set::<u32>::empty(),
            d@.capacity == capacity,
    {
        Distributor { channels: new_channels(), capacity }
    }

    /// Number of symbols with a channel.
    pub fn channel_count(&self) -> (n: usize)
        ensures
            n == self@.channels.dom().len(),
    {
        count_channels(&self.channels)
    }

    /// Follow a symbol: a receiver on its channel. The first follower makes the
    /// channel.
    pub fn subscribe(&mut self, sym: SymbolId) -> (receiver: Receiver<Tick>)
        requires
            old(self)@.can_open(),
        ensures
            subscribes(old(self)@, final(self)@, sym.0),
            channel_of(receiver) == final(self)@.channels[sym.0].id,
    {
        open_channel(&mut self.channels, sym.0, self.capacity);
        assert(self@.opened_from(old(self)@, sym.0));
        follow(&mut self.channels, sym.0).unwrap()
    }

    /// Send a tick to the followers of its symbol. Returns whether it reached one:
    /// then the symbol's channel took the tick, else nothing changed. It reaches none
    /// where nobody ever followed the symbol.
    pub fn broadcast(&mut self, tick: &Tick) -> (reached: bool)
        ensures
            reached ==> has_followers(old(self)@.channels, tick.symbol),
            final(self)@ == if reached {
                old(self)@.took(*tick)
            } else {
                old(self)@
            },
    {
        send(&mut self.channels, tick.symbol, *tick)
    }

    /// Make the channel of a symbol ahead of its first follower.
    pub fn ensure_channel(&mut self, sym: SymbolId)
        requires
            old(self)@.can_open(),
        ensures
            final(self)@.opened_from(old(self)@, sym.0),
    {
        open_channel(&mut self.channels, sym.0, self.capacity);
    }
}

/// Whether a state is another after someone came to follow a symbol: the symbol was
/// given a channel, and that has a follower.
pub open spec fn subscribes(
    before: DistributorModel,
    after: DistributorModel,
    symbol: u32,
) -> bool {
    exists|opened: DistributorModel| #[trigger]
        opened.opened_from(before, symbol) && after == opened.followed(symbol)
}

/// All followers of a symbol share one channel, whoever made it: a symbol that has
/// one keeps it, and one channel is made at most.
pub proof fn law_one_channel_per_symbol(
    before: DistributorModel,
    after: DistributorModel,
    symbol: u32,
)
    requires
        before.channels.dom().finite(),
        subscribes(before, after, symbol),
    ensures
        before.channels.contains_key(symbol) ==> after.channels[symbol].id
            == before.channels[symbol].id,
        after.channels.dom().len() == before.channels.dom().len()
            + if before.channels.contains_key(symbol) {
            0nat
        } else {
            1nat
        },
{
    let opened = choose|opened: DistributorModel| #[trigger]
        opened.opened_from(before, symbol) && after == opened.followed(symbol);
    assert(after.channels.dom() =~= before.channels.dom().insert(symbol));
}

/// No tick reaches the followers of another symbol: no two symbols ever share a
/// channel, and a tick that is taken is taken by the channel of its own symbol alone.
pub proof fn law_symbols_keep_apart(
    before: DistributorModel,
    after: DistributorModel,
    symbol: u32,
    tick: Tick,
    other: u32,
)
    requires
        before.channels_distinct(),
    ensures
        after.opened_from(before, symbol) ==> after.channels_distinct(),
        subscribes(before, after, symbol) ==> after.channels_distinct(),
        before.channels.contains_key(tick.symbol) ==> before.took(tick).channels_distinct(),
        other != tick.symbol ==> before.took(tick).channels[other] == before.channels[other],
{
    if subscribes(before, after, symbol) {
        let opened = choose|opened: DistributorModel| #[trigger]
            opened.opened_from(before, symbol) && after == opened.followed(symbol);
        assert(opened.channels_distinct()) by {
            lemma_opening_keeps_apart(before, opened, symbol);
        }
        assert forall|a: u32, b: u32| #[trigger]
            after.channels.contains_key(a) && #[trigger] after.channels.contains_key(b) && a
                != b implies after.channels[a].id != after.channels[b].id by {
            assert(opened.channels.contains_key(a) && opened.channels.contains_key(b));
        }
    }
    if after.opened_from(before, symbol) {
        lemma_opening_keeps_apart(before, after, symbol);
    }
    if before.channels.contains_key(tick.symbol) {
        let took = before.took(tick);
        assert forall|a: u32, b: u32| #[trigger]
            took.channels.contains_key(a) && #[trigger] took.channels.contains_key(b) && a
                != b implies took.channels[a].id != took.channels[b].id by {
            assert(before.channels.contains_key(a) && before.channels.contains_key(b));
        }
    }
}

/// A new channel is none of the others.
proof fn lemma_opening_keeps_apart(
    before: DistributorModel,
    after: DistributorModel,
    symbol: u32,
)
    requires
        before.channels_distinct(),
        after.opened_from(before, symbol),
    ensures
        after.channels_distinct(),
{
    assert forall|a: u32, b: u32| #[trigger]
        after.channels.contains_key(a) && #[trigger] after.channels.contains_key(b) && a
            != b implies after.channels[a].id != after.channels[b].id by {
        assert(after.channels.dom().contains(a) && after.channels.dom().contains(b));
        assert(a == symbol || before.channels.contains_key(a));
        assert(b == symbol || before.channels.contains_key(b));
    }
}

} // verus!
