//! The map from symbol number to position.
use crate::position::position::{Position, PositionModel};
use crate::position::risk_state::{models, total};
use dashmap::DashMap;
use vstd::prelude::*;

verus! {

/// The positions that a registry holds, by symbol number.
pub uninterp spec fn positions_held(registry: DashMap<u32, Position>) -> Map<u32, PositionModel>;

/// Whether `keys` runs through the keys of a map, each once.
pub open spec fn walks(keys: Seq<u32>, held: Map<u32, PositionModel>) -> bool {
    keys.no_duplicates() && keys.to_set() == held.dom()
}

/// The positions at the given keys, in order.
pub open spec fn picked(keys: Seq<u32>, held: Map<u32, PositionModel>) -> Seq<PositionModel> {
    keys.map_values(|k: u32| held[k])
}

/// Whether a list is all of a map's positions, each once, in some order.
pub open spec fn hands_out(
    list: Seq<PositionModel>,
    held: Map<u32, PositionModel>,
) -> bool {
    exists|keys: Seq<u32>| #[trigger] walks(keys, held) && list == picked(keys, held)
}

/// Calls `DashMap::new`: the map holds nothing.
#[verifier::external_body]
pub(crate) fn new_registry() -> (registry: DashMap<u32, Position>)
    ensures
        positions_held(registry).dom() == Set::<u32>::empty(),
{
    DashMap::new()
}

/// Calls `DashMap::get`: the value at the key, copied out, or nothing where the
/// map has no such key.
#[verifier::external_body]
pub(crate) fn lookup(registry: &DashMap<u32, Position>, key: u32) -> (found: Option<Position>)
    ensures
        match found {
            Some(p) => positions_held(*registry).contains_key(key) && p@ == positions_held(
                *registry,
            )[key],
            None => !positions_held(*registry).contains_key(key),
        },
{
    registry.get(&key).map(|entry| entry.value().duplicate())
}

/// Calls `DashMap::insert`: the key now maps to the value, all else is as before.
#[verifier::external_body]
pub(crate) fn store(registry: &mut DashMap<u32, Position>, key: u32, position: Position)
    ensures
        positions_held(*final(registry)) == positions_held(*old(registry)).insert(key, position@),
{
    registry.insert(key, position);
}

/// Calls `DashMap::len`: the number of keys.
#[verifier::external_body]
pub(crate) fn count(registry: &DashMap<u32, Position>) -> (n: usize)
    ensures
        n == positions_held(*registry).dom().len(),
{
    registry.len()
}

/// Calls `DashMap::iter`: every value once, copied out, in an order that is not
/// specified.
#[verifier::external_body]
pub(crate) fn all_positions(registry: &DashMap<u32, Position>) -> (all: Vec<Position>)
    ensures
        hands_out(models(all@), positions_held(*registry)),
{
    registry.iter().map(|entry| entry.value().duplicate()).collect()
}

/// The sum of a figure over all positions of a map.
pub open spec fn sum_over(
    held: Map<u32, PositionModel>,
    figure: spec_fn(PositionModel) -> int,
) -> int
    decreases held.dom().len(),
{
    if held.dom().finite() && held.dom().len() > 0 {
        let k = held.dom().choose();
        figure(held[k]) + sum_over(held.remove(k), figure)
    } else {
        0
    }
}

/// Any one position can be taken out of the sum first.
pub proof fn lemma_sum_without(
    held: Map<u32, PositionModel>,
    figure: spec_fn(PositionModel) -> int,
    k: u32,
)
    requires
        held.dom().finite(),
        held.contains_key(k),
    ensures
        sum_over(held, figure) == figure(held[k]) + sum_over(held.remove(k), figure),
    decreases held.dom().len(),
{
    let c = held.dom().choose();
    assert(held.dom().contains(k));
    assert(held.dom().len() > 0) by {
        if held.dom().len() == 0 {
            assert(held.dom() =~= Set::<u32>::empty());
        }
    }
    assert(held.remove(c).dom() =~= held.dom().remove(c));
    assert(held.remove(k).dom() =~= held.dom().remove(k));
    if c != k {
        lemma_sum_without(held.remove(c), figure, k);
        lemma_sum_without(held.remove(k), figure, c);
        assert(held.remove(c).remove(k) =~= held.remove(k).remove(c));
    }
}

/// Walking the map in any order gives the sum.
pub proof fn lemma_sum_by_walk(
    held: Map<u32, PositionModel>,
    figure: spec_fn(PositionModel) -> int,
    keys: Seq<u32>,
)
    requires
        walks(keys, held),
    ensures
        held.dom().finite(),
        total(picked(keys, held).map_values(figure)) == sum_over(held, figure),
    decreases keys.len(),
{
    vstd::seq_lib::seq_to_set_is_finite(keys);
    if keys.len() == 0 {
        assert(held.dom() =~= Set::<u32>::empty()) by {
            assert forall|k: u32| !held.dom().contains(k) by {
                if held.dom().contains(k) {
                    assert(keys.to_set().contains(k));
                    assert(keys.contains(k));
                }
            }
        }
        assert(picked(keys, held).map_values(figure).len() == 0);
    } else {
        let k = keys.last();
        let rest = keys.drop_last();
        let smaller = held.remove(k);
        assert(keys.contains(k));
        assert(keys.to_set().contains(k));
        assert(walks(rest, smaller)) by {
            assert(rest.to_set() =~= smaller.dom()) by {
                assert forall|j: u32| rest.to_set().contains(j) <==> smaller.dom().contains(
                    j,
                ) by {
                    if rest.to_set().contains(j) {
                        let i = choose|i: int| 0 <= i < rest.len() && rest[i] == j;
                        assert(keys[i] == j);
                        assert(keys.contains(j));
                        assert(keys.to_set().contains(j));
                    }
                    if smaller.dom().contains(j) {
                        assert(keys.to_set().contains(j));
                        let i = choose|i: int| 0 <= i < keys.len() && keys[i] == j;
                        assert(rest[i] == j);
                        assert(rest.contains(j));
                    }
                }
            }
        }
        lemma_sum_by_walk(smaller, figure, rest);
        lemma_sum_without(held, figure, k);
        let whole = picked(keys, held).map_values(figure);
        assert(whole.drop_last() =~= picked(rest, smaller).map_values(figure)) by {
            assert forall|i: int| 0 <= i < rest.len() implies whole[i] == #[trigger] picked(
                rest,
                smaller,
            ).map_values(figure)[i] by {
                assert(keys[i] != k);
                assert(rest.to_set().contains(rest[i]));
            }
        }
    }
}

/// A map keyed by 32-bit numbers has at most as many keys as there are such
/// numbers.
pub proof fn lemma_walk_is_short(keys: Seq<u32>)
    requires
        keys.no_duplicates(),
    ensures
        keys.len() <= 0x1_0000_0000,
{
    let wide = keys.map_values(|k: u32| k as int);
    assert(wide.no_duplicates());
    wide.unique_seq_to_set();
    let all = vstd::set_lib::set_int_range(0, 0x1_0000_0000);
    vstd::set_lib::lemma_int_range(0, 0x1_0000_0000);
    assert(wide.to_set().subset_of(all)) by {
        assert forall|x: int| wide.to_set().contains(x) implies all.contains(x) by {
            let i = choose|i: int| 0 <= i < wide.len() && wide[i] == x;
            assert(x == keys[i] as int);
        }
    }
    vstd::set_lib::lemma_len_subset(wide.to_set(), all);
}

} // verus!
