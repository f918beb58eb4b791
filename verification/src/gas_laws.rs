//! What holds of counting gas.
use crate::frames_model::code_deposit;
use crate::gas::GasView;
use vstd::prelude::*;

verus! {

/// What is left and what is spent is the limit; at first nothing is spent, and nothing is to be
/// refunded.
pub proof fn gas_adds_up(limit: nat, gas: GasView)
    requires
        gas.spent <= gas.limit,
    ensures
        gas.remaining() + gas.spent == gas.limit,
        GasView::fresh(limit).limit == limit,
        GasView::fresh(limit).spent == 0,
        GasView::fresh(limit).refunded == 0,
{
}

/// A cost is charged if and only if that much is left; and then just that much is spent more.
pub proof fn cost_is_charged(gas: GasView, cost: nat)
    requires
        gas.spent <= gas.limit,
    ensures
        gas.affords(cost) <==> cost <= gas.limit - gas.spent,
        gas.charged(cost).limit == gas.limit,
        gas.charged(cost).refunded == gas.refunded,
        cost <= gas.limit - gas.spent ==> gas.charged(cost).spent == gas.spent + cost,
        cost > gas.limit - gas.spent ==> gas.charged(cost).spent == gas.spent,
{
}

/// What comes back is no longer spent; what was charged and comes back leaves the gas as it was.
pub proof fn cost_comes_back(gas: GasView, cost: nat)
    requires
        gas.spent <= gas.limit,
    ensures
        gas.erased(cost).limit == gas.limit,
        gas.erased(cost).refunded == gas.refunded,
        cost <= gas.spent ==> gas.erased(cost).spent + cost == gas.spent,
        cost > gas.spent ==> gas.erased(cost).spent == 0,
        gas.affords(cost) ==> gas.charged(cost).erased(cost) == gas,
{
}

/// Each byte of deposited code costs 200, as far as the machine can count.
pub proof fn deposit_is_per_byte(len: nat)
    ensures
        200 * len <= u64::MAX ==> code_deposit(len) == 200 * len,
        200 * len > u64::MAX ==> code_deposit(len) == u64::MAX,
{
}

} // verus!
