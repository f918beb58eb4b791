//! What a transaction is charged and refused for before it runs, and what is settled after it.
use crate::data::DataView;
use crate::db::Database;
use crate::gas::GasView;
use crate::journal_effect_laws::only_account_changed;
use crate::models::{Env, Return};
use crate::primitives::{u256_max, H160, U256};
use crate::spec_id::SpecId;
use crate::state::AccountFieldsView;
use crate::transact_model::{
    coinbase_gas_price, gas_after_run, gas_refund, intrinsic_gas, listed_slots, sold_gas,
    zero_bytes,
};
use crate::world_laws::load_account_brings;
use vstd::prelude::*;

verus! {

/// What is refunded is what was earned, or the most that may be where that is less: a fifth of the
/// gas that was spent since London, a half before. A negative refund, as the unsigned number with
/// its bits, is always above that.
pub proof fn refund_is_what_was_earned(gas: GasView, spec_id: SpecId)
    requires
        gas.wf(),
    ensures
        ({
            let most = if spec_id.includes(SpecId::LONDON) {
                gas.spent / 5
            } else {
                gas.spent / 2
            };
            let refund = gas_refund(gas, spec_id);
            &&& refund <= most
            &&& gas.refunded >= 0 ==> refund <= gas.refunded
            &&& 0 <= gas.refunded <= most ==> refund == gas.refunded
            &&& gas.refunded > most ==> refund == most
            &&& gas.refunded < 0 ==> refund == most
        }),
{
}

/// What the caller pays for a unit of gas: the price that it offers; or, where it offers a priority
/// fee, no more than that and the base fee.
pub proof fn price_is_what_is_offered(env: Env)
    ensures
        ({
            let price = env.spec_effective_gas_price();
            let offer = env.tx.gas_price@;
            &&& price <= offer
            &&& env.tx.gas_priority_fee is None ==> price == offer
            &&& env.tx.gas_priority_fee matches Some(fee) ==> {
                &&& price <= env.block.basefee@ + fee@
                &&& price == offer || price == env.block.basefee@ + fee@
            }
        }),
{
}

/// The beneficiary gets the price that the caller pays; since London without the base fee, and
/// nothing where that is above the price.
pub proof fn beneficiary_gets_the_rest_of_the_price(env: Env, spec_id: SpecId)
    ensures
        ({
            let price = env.spec_effective_gas_price();
            let fee = env.block.basefee@;
            let share = coinbase_gas_price(env, spec_id);
            &&& !spec_id.includes(SpecId::LONDON) ==> share == price
            &&& spec_id.includes(SpecId::LONDON) && fee <= price ==> share + fee == price
            &&& spec_id.includes(SpecId::LONDON) && fee > price ==> share == 0
        }),
{
}

/// A transaction without data and access list costs 21000 before anything is run; one that creates
/// costs 53000 since Homestead.
pub proof fn bare_transaction_costs(env: Env, spec_id: SpecId)
    requires
        env.tx.data@.len() == 0,
        env.tx.access_list@.len() == 0,
    ensures
        env.tx.transact_to is Call ==> intrinsic_gas(env, spec_id) == 21000,
        env.tx.transact_to is Create && spec_id.includes(SpecId::HOMESTEAD) ==> intrinsic_gas(
            env,
            spec_id,
        ) == 53000,
        env.tx.transact_to is Create && !spec_id.includes(SpecId::HOMESTEAD) ==> intrinsic_gas(
            env,
            spec_id,
        ) == 21000,
{
}

proof fn lemma_no_more_zeros_than_bytes(data: Seq<u8>)
    ensures
        zero_bytes(data) <= data.len(),
    decreases data.len(),
{
    if data.len() > 0 {
        lemma_no_more_zeros_than_bytes(data.drop_last());
    }
}

/// One more byte of data costs 4 where it is zero; else 16 since Istanbul, and 68 before.
pub proof fn one_more_byte_costs(env: Env, longer: Env, byte: u8, spec_id: SpecId)
    requires
        longer.tx.data@ == env.tx.data@.push(byte),
        longer.tx.access_list@ == env.tx.access_list@,
        longer.tx.transact_to is Create == env.tx.transact_to is Create,
    ensures
        intrinsic_gas(longer, spec_id) == intrinsic_gas(env, spec_id) + if byte == 0 {
            4
        } else if spec_id.includes(SpecId::ISTANBUL) {
            16
        } else {
            68int
        },
{
    lemma_no_more_zeros_than_bytes(env.tx.data@);
    assert(longer.tx.data@.drop_last() =~= env.tx.data@);
}

/// One more entry of the access list costs 2400 and 1900 for each of its slots, since Berlin;
/// before, the access list costs nothing.
pub proof fn one_more_listed_account_costs(
    env: Env,
    longer: Env,
    entry: (H160, Vec<U256>),
    spec_id: SpecId,
)
    requires
        longer.tx.access_list@ == env.tx.access_list@.push(entry),
        longer.tx.data@ == env.tx.data@,
        longer.tx.transact_to is Create == env.tx.transact_to is Create,
    ensures
        intrinsic_gas(longer, spec_id) == intrinsic_gas(env, spec_id) + if spec_id.includes(
            SpecId::BERLIN,
        ) {
            2400 + 1900 * entry.1@.len()
        } else {
            0
        },
{
    if spec_id.includes(SpecId::BERLIN) {
        let (list, more) = (env.tx.access_list@, longer.tx.access_list@);
        assert(more.drop_last() =~= list);
        assert(listed_slots(more) == listed_slots(list) + entry.1@.len());
    }
}

/// What a transaction is charged before anything is run is what it costs, as far as the machine can
/// count.
pub proof fn first_cost_is_charged<DB: Database>(d: DataView<DB>, spec_id: SpecId)
    ensures
        intrinsic_gas(d.env, spec_id) <= u64::MAX ==> d.initialize(spec_id).1 == intrinsic_gas(
            d.env,
            spec_id,
        ),
        intrinsic_gas(d.env, spec_id) > u64::MAX ==> d.initialize(spec_id).1 == u64::MAX,
        d.initialize(spec_id).0.env == d.env,
        d.initialize(spec_id).0.error == d.error,
        !spec_id.includes(SpecId::BERLIN) ==> d.initialize(spec_id).0 == d,
{
}

/// What a transaction is refused for before it runs, in this order: since London a priority fee
/// above the price and a price below the base fee; a gas limit above that of the block, or below
/// the first cost; a caller that cannot be loaded; a payment for gas that does not fit a word, or
/// that the caller does not have; and a value that it then does not have left, with what it offered
/// and is not charged. By then it has paid for all its gas, at its price. What the gas limit is
/// above the first cost is left for the run.
pub proof fn transaction_is_let_in<DB: Database>(d: DataView<DB>, spec_id: SpecId)
    ensures
        ({
            let (after, r) = d.prepare(spec_id);
            let (warm, cost) = d.initialize(spec_id);
            let (world, found) = warm.world().load_account(d.env.tx.caller@);
            let tx = d.env.tx;
            let caller = tx.caller@;
            let price = d.env.spec_effective_gas_price();
            let is_london = spec_id.includes(SpecId::LONDON);
            let found_caller = DataView { journal: world.journal, db: world.db, ..warm };
            let has = world.journal.accounts[caller].fields.balance;
            let pays = tx.gas_limit * price;
            let tip_too_high = is_london && tx.gas_priority_fee is Some
                && tx.gas_priority_fee->0@ > tx.gas_price@;
            let price_too_low = is_london && price < d.env.block.basefee@;
            let limit_too_high = tx.gas_limit > d.env.block.gas_limit@;
            let limit_too_low = cost > tx.gas_limit;
            &&& if tip_too_high {
                r == Err::<nat, Return>(Return::GasMaxFeeGreaterThanPriorityFee) && after == d
            } else if price_too_low {
                r == Err::<nat, Return>(Return::GasPriceLessThenBasefee) && after == d
            } else if limit_too_high {
                r == Err::<nat, Return>(Return::CallerGasLimitMoreThenBlock) && after == d
            } else if limit_too_low {
                r == Err::<nat, Return>(Return::OutOfGas) && after == warm
            } else if found is Err {
                r == Err::<nat, Return>(Return::FatalExternalError) && after == found_caller
            } else if pays > u256_max() {
                r == Err::<nat, Return>(Return::OverflowPayment) && after == found_caller
            } else if pays > has {
                r == Err::<nat, Return>(Return::LackOfFundForGasLimit) && after == found_caller
            } else {
                let left = after.journal.accounts[caller];
                &&& if tx.gas_price@ - price + tx.value@ > has - pays {
                    r == Err::<nat, Return>(Return::OutOfFund)
                } else {
                    &&& r matches Ok(gas)
                    &&& gas + cost == tx.gas_limit
                }
                &&& after.journal.accounts.contains_key(caller)
                &&& left.fields.balance + pays == has
                &&& left.fields == (AccountFieldsView {
                    balance: left.fields.balance,
                    ..world.journal.accounts[caller].fields
                })
                &&& left.code == world.journal.accounts[caller].code
                &&& left.storage == world.journal.accounts[caller].storage
                &&& only_account_changed(world.journal, after.journal, caller)
                &&& after.env == d.env
                &&& after.error == d.error
                &&& after.db == world.db
            }
        }),
{
    let (warm, cost) = d.initialize(spec_id);
    load_account_brings(warm.world(), d.env.tx.caller@);
}

/// The gas of a transaction when what it ran came back: all of it was sold, and what the run left
/// comes back where it succeeded or was reverted, up to what was sold; only a success earns its
/// refund.
pub proof fn gas_comes_back(limit: nat, reason: Return, ran: GasView)
    requires
        ran.spent <= ran.limit,
    ensures
        ({
            let gas = gas_after_run(sold_gas(limit), reason, ran);
            let is_ok = reason is Continue || reason is Stop || reason is Return
                || reason is SelfDestruct;
            let is_revert = reason is Revert || reason is CallTooDeep || reason is OutOfFund;
            let left = ran.limit - ran.spent;
            &&& gas.limit == limit
            &&& (is_ok || is_revert) && left <= limit ==> gas.spent == limit - left
            &&& (is_ok || is_revert) && left > limit ==> gas.spent == 0
            &&& !is_ok && !is_revert ==> gas.spent == limit
            &&& is_ok ==> gas.refunded == ran.refunded
            &&& !is_ok ==> gas.refunded == 0
        }),
{
}

/// Up to the largest word.
pub open spec fn at_most_a_word(value: nat) -> nat {
    if value <= u256_max() {
        value
    } else {
        u256_max()
    }
}

/// When the gas of a transaction is settled, the caller gets its price for what is left and what is
/// refunded, and the beneficiary its share for the rest of what was spent; the beneficiary is
/// loaded and touched, and gets nothing where it cannot be loaded. Balances go up to the largest
/// word. Nothing else changes.
pub proof fn gas_is_settled<DB: Database>(
    d: DataView<DB>,
    caller: Seq<u8>,
    gas: GasView,
    spec_id: SpecId,
)
    requires
        gas.wf(),
        d.journal.accounts.contains_key(caller),
    ensures
        ({
            let coinbase = d.env.block.coinbase@;
            let (world, found) = d.world().load_account(coinbase);
            let after = d.settle_gas(caller, gas, spec_id);
            let refund = gas_refund(gas, spec_id);
            let price = d.env.spec_effective_gas_price();
            let back = at_most_a_word(price * ((gas.limit - gas.spent) as nat + refund));
            let share = at_most_a_word(
                coinbase_gas_price(d.env, spec_id) * (gas.spent - refund) as nat,
            );
            let had = d.journal.accounts[caller];
            let has = after.journal.accounts[caller];
            let repaid = at_most_a_word(had.fields.balance + back);
            &&& refund <= gas.spent
            &&& after.env == d.env
            &&& after.error == d.error
            &&& after.db == world.db
            &&& after.journal.logs == d.journal.logs
            &&& after.journal.depth == d.journal.depth
            &&& after.journal.accounts.contains_key(caller)
            &&& has.code == had.code
            &&& has.storage == had.storage
            &&& has.fields == (AccountFieldsView {
                balance: has.fields.balance,
                is_touched: had.fields.is_touched || caller == coinbase,
                ..had.fields
            })
            &&& caller != coinbase ==> has.fields.balance == repaid
            &&& caller == coinbase ==> has.fields.balance == at_most_a_word(repaid + share)
            &&& after.journal.accounts.contains_key(coinbase) <==> found is Ok
            &&& caller != coinbase && found is Ok ==> {
                let was = world.journal.accounts[coinbase];
                let is = after.journal.accounts[coinbase];
                &&& is.fields.balance == at_most_a_word(was.fields.balance + share)
                &&& is.fields == (AccountFieldsView {
                    balance: is.fields.balance,
                    is_touched: true,
                    ..was.fields
                })
                &&& is.code == was.code
                &&& is.storage == was.storage
            }
            &&& forall|a: Seq<u8>|
                a != caller && a != coinbase ==> {
                    &&& #[trigger] after.journal.accounts.contains_key(a)
                        == d.journal.accounts.contains_key(a)
                    &&& d.journal.accounts.contains_key(a) ==> after.journal.accounts[a]
                        == d.journal.accounts[a]
                }
        }),
{
    let coinbase = d.env.block.coinbase@;
    refund_is_what_was_earned(gas, spec_id);
    load_account_brings(d.world(), coinbase);
    let price = d.env.spec_effective_gas_price();
    let refund = gas_refund(gas, spec_id);
    let repaid = d.with(d.journal.credit(caller, price * (gas.remaining() + refund)));
    load_account_brings(repaid.world(), coinbase);
}

} // verus!
