//! Numbers for symbols.
use crate::base::types::SymbolId;
use dashmap::DashMap;
use vstd::prelude::*;
use vstd::string::StringExecFns;

verus! {

/// The numbers that a map holds, by the characters of the symbol.
pub uninterp spec fn numbers_held(map: DashMap<String, u32>) -> Map<Seq<char>, u32>;

/// Calls `DashMap::new`: the map holds nothing.
#[verifier::external_body]
fn new_numbers() -> (map: DashMap<String, u32>)
    ensures
        numbers_held(map).dom() == Set::<Seq<char>>::empty(),
{
    DashMap::new()
}

/// Calls `DashMap::get`: the number of the symbol, or nothing where the map has no
/// such key.
#[verifier::external_body]
fn number_of(map: &DashMap<String, u32>, symbol: &str) -> (number: Option<u32>)
    ensures
        match number {
            Some(n) => numbers_held(*map).contains_key(symbol@) && n == numbers_held(
                *map,
            )[symbol@],
            None => !numbers_held(*map).contains_key(symbol@),
        },
{
    map.get(symbol).map(|entry| *entry.value())
}

/// Calls `DashMap::entry` and `or_insert`: a symbol that the map has keeps its
/// number, another gets the one given. Returns the number that the symbol then
/// has.
#[verifier::external_body]
fn number_or_insert(map: &mut DashMap<String, u32>, symbol: String, candidate: u32) -> (number:
    u32)
    ensures
        numbers_held(*final(map)) == if numbers_held(*old(map)).contains_key(symbol@) {
            numbers_held(*old(map))
        } else {
            numbers_held(*old(map)).insert(symbol@, candidate)
        },
        number == numbers_held(*final(map))[symbol@],
{
    *map.entry(symbol).or_insert(candidate)
}

/// Calls `DashMap::len`: the number of keys.
#[verifier::external_body]
fn count_numbers(map: &DashMap<String, u32>) -> (n: usize)
    ensures
        n == numbers_held(*map).dom().len(),
{
    map.len()
}

/// The symbols with their numbers, and the number that comes next.
pub struct InternerModel {
    pub ids: Map<Seq<char>, u32>,
    pub next: u32,
}

impl InternerModel {
    /// The state before any symbol is known. Zero is no symbol's number.
    pub open spec fn fresh() -> InternerModel {
        InternerModel { ids: Map::empty(), next: 1 }
    }

    /// The state after a symbol is asked for. A new one gets the next number; after
    /// the largest number comes zero again.
    pub open spec fn after(self, symbol: Seq<char>) -> InternerModel {
        if self.ids.contains_key(symbol) {
            self
        } else {
            InternerModel {
                ids: self.ids.insert(symbol, self.next),
                next: if self.next == u32::MAX {
                    0
                } else {
                    (self.next + 1) as u32
                },
            }
        }
    }

    /// Whether the numbers up to the next one are given out, each to one symbol.
    pub open spec fn numbered(self) -> bool {
        &&& self.next >= 1
        &&& self.ids.dom().finite()
        &&& self.ids.dom().len() == self.next - 1
        &&& forall|s: Seq<char>|
            #![trigger self.ids[s]]
            self.ids.contains_key(s) ==> 1 <= self.ids[s] < self.next
        &&& forall|s: Seq<char>, t: Seq<char>|
            #![trigger self.ids[s], self.ids[t]]
            self.ids.contains_key(s) && self.ids.contains_key(t) && self.ids[s] == self.ids[t]
                ==> s == t
    }
}

/// Gives each symbol a number, the same one whenever it is asked.
#[derive(Debug)]
pub struct SymbolInterner {
    map: DashMap<String, u32>,
    next: u32,
}

impl View for SymbolInterner {
    type V = InternerModel;

    closed spec fn view(&self) -> InternerModel {
        InternerModel { ids: numbers_held(self.map), next: self.next }
    }
}

impl SymbolInterner {
    pub fn new() -> (i: SymbolInterner)
        ensures
            i@ == InternerModel::fresh(),
    {
        let map = new_numbers();
        assert(numbers_held(map) =~= Map::empty());
        SymbolInterner { map, next: 1 }
    }

    /// The number of a symbol. A new symbol gets the next one.
    pub fn intern(&mut self, sym: &str) -> (id: SymbolId)
        ensures
            final(self)@ == old(self)@.after(sym@),
            final(self)@.ids.contains_key(sym@),
            id.0 == final(self)@.ids[sym@],
    {
        match number_of(&self.map, sym) {
            Some(n) => SymbolId(n),
            None => {
                let candidate: u32 = self.next;
                self.next = if candidate == u32::MAX {
                    0
                } else {
                    candidate + 1
                };
                SymbolId(number_or_insert(&mut self.map, String::from_str(sym), candidate))
            },
        }
    }

    /// The number of a symbol that is known.
    pub fn get(&self, sym: &str) -> (id: Option<SymbolId>)
        ensures
            match id {
                Some(id) => self@.ids.contains_key(sym@) && id.0 == self@.ids[sym@],
                None => !self@.ids.contains_key(sym@),
            },
    {
        match number_of(&self.map, sym) {
            Some(n) => Some(SymbolId(n)),
            None => None,
        }
    }

    /// How many symbols are known.
    pub fn len(&self) -> (n: usize)
        ensures
            n == self@.ids.dom().len(),
    {
        count_numbers(&self.map)
    }

    pub fn is_empty(&self) -> (empty: bool)
        ensures
            empty == (self@.ids.dom().len() == 0),
    {
        count_numbers(&self.map) == 0
    }
}

impl Default for SymbolInterner {
    fn default() -> (i: SymbolInterner)
        ensures
            i@ == InternerModel::fresh(),
    {
        SymbolInterner::new()
    }
}

/// Asking for a symbol twice gives one number, and the second time changes nothing.
pub proof fn law_intern_is_idempotent(m: InternerModel, symbol: Seq<char>)
    ensures
        m.after(symbol).after(symbol) == m.after(symbol),
{
}

/// A number once given stays.
pub proof fn law_numbers_are_stable(m: InternerModel, known: Seq<char>, symbol: Seq<char>)
    requires
        m.ids.contains_key(known),
    ensures
        m.after(symbol).ids.contains_key(known),
        m.after(symbol).ids[known] == m.ids[known],
{
}

/// Until the numbers run out, different symbols have different numbers, and none
/// has zero.
pub proof fn law_numbers_are_distinct(m: InternerModel, symbol: Seq<char>)
    requires
        m.numbered(),
        m.next < u32::MAX,
    ensures
        InternerModel::fresh().numbered(),
        m.after(symbol).numbered(),
{
    let after = m.after(symbol);
    if !m.ids.contains_key(symbol) {
        assert(after.ids.dom() =~= m.ids.dom().insert(symbol));
        assert forall|s: Seq<char>|
            #![trigger after.ids[s]]
            after.ids.contains_key(s) implies 1 <= after.ids[s] < after.next by {
            if s != symbol {
                assert(m.ids[s] == after.ids[s]);
            }
        }
        assert forall|s: Seq<char>, t: Seq<char>|
            #![trigger after.ids[s], after.ids[t]]
            after.ids.contains_key(s) && after.ids.contains_key(t) && after.ids[s]
                == after.ids[t] implies s == t by {
            if s != symbol {
                assert(m.ids[s] == after.ids[s]);
            }
            if t != symbol {
                assert(m.ids[t] == after.ids[t]);
            }
        }
    }
}

} // verus!
