//! Per-strategy shares of a position.
use smallvec::SmallVec;
use vstd::prelude::*;

verus! {

/// The share of one strategy in a position.
#[derive(Clone, Copy, Debug, PartialEq, Eq, Structural)]
pub struct StrategyAllocation {
    pub strategy_id: u8,
    /// Signed quantity attributed to the strategy.
    pub quantity: i64,
    /// Capital allocated to the strategy, in whole rupees.
    pub allocated_capital_inr: i64,
}

/// The allocations of one position, kept inline up to four of them.
#[verifier::external_body]
#[derive(Debug)]
pub struct AllocationList {
    inner: SmallVec<[StrategyAllocation; 4]>,
}

/// The items of an allocation list, in order.
pub uninterp spec fn allocations(list: AllocationList) -> Seq<StrategyAllocation>;

impl View for AllocationList {
    type V = Seq<StrategyAllocation>;

    open spec fn view(&self) -> Seq<StrategyAllocation> {
        allocations(*self)
    }
}

/// Calls `SmallVec::new`: the list holds nothing.
#[verifier::external_body]
pub(crate) fn empty_list() -> (list: AllocationList)
    ensures
        allocations(list) == Seq::<StrategyAllocation>::empty(),
{
    AllocationList { inner: SmallVec::new() }
}

/// Calls `SmallVec::from_slice`: the list holds the items of the slice, in order.
#[verifier::external_body]
pub(crate) fn list_from_slice(items: &[StrategyAllocation]) -> (list: AllocationList)
    ensures
        allocations(list) == items@,
{
    AllocationList { inner: SmallVec::from_slice(items) }
}

/// Calls `SmallVec::as_slice`: the slice holds the items of the list, in order.
#[verifier::external_body]
pub(crate) fn list_as_slice(list: &AllocationList) -> (items: &[StrategyAllocation])
    ensures
        items@ == allocations(*list),
{
    list.inner.as_slice()
}

} // verus!
