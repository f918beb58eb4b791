//! What holds of every transaction: what is paid for gas, and what is left behind.
use crate::data::DataView;
use crate::db::{is_sound, Database};
use crate::effect_laws::successful_call_touches;
use crate::evm_impl::EVMImpl;
use crate::frames_model::{address_view, End};
use crate::gas::GasView;
use crate::inspector::Event;
use crate::interpreter::Interpreter;
use crate::journal_laws::{
    extends_in_steps, extends_itself, load_account_extends, loaded_stays_loaded, sload_extends,
};
use crate::journal_model::{JournalView, World};
use crate::models::{CallInputs, CreateInputs, Env, ExecutionResult, Return, TransactTo};
use crate::primitives::{u256_max, H160, U256};
use crate::run_laws::{call_gas_is_under_its_limit, create_gas_is_under_its_limit};
use crate::run_model::{calls, creates, frames_left, makes_call, makes_create, Rules};
use crate::spec_id::{Spec, SpecId};
use crate::state::{lists, touched_accounts, AccountView};
use crate::transact_model::{
    add_known_balances, bill, coinbase_gas_price, gas_after_run, gas_refund, intrinsic_gas, is_call_of,
    is_create_of, outcome, sold_gas, Outcome,
};
use vstd::prelude::*;

verus! {

/// Since London at most a fifth of what was spent is refunded, before London at most a half.
pub proof fn refund_is_capped(gas: GasView, spec_id: SpecId)
    requires
        gas.wf(),
    ensures
        spec_id.includes(SpecId::LONDON) ==> 5 * gas_refund(gas, spec_id) <= gas.spent,
        2 * gas_refund(gas, spec_id) <= gas.spent,
{
}

/// What is used, what is refunded and what is left of the gas is all of it.
pub proof fn bill_accounts_for_all_gas(gas: GasView, spec_id: SpecId)
    requires
        gas.wf(),
    ensures
        bill(gas, spec_id).used + bill(gas, spec_id).refunded + gas.remaining() == gas.limit,
{
    refund_is_capped(gas, spec_id);
}

/// The caller buys all the gas of a transaction, and gets back the price of what is left or
/// refunded: in the end it has paid for the gas that was used.
pub proof fn caller_pays_for_used_gas(gas: GasView, spec_id: SpecId, price: nat)
    requires
        gas.wf(),
    ensures
        price * gas.limit - price * (gas.remaining() + gas_refund(gas, spec_id)) == price * bill(
            gas,
            spec_id,
        ).used,
{
    refund_is_capped(gas, spec_id);
    let back = gas.remaining() + gas_refund(gas, spec_id);
    let used = bill(gas, spec_id).used;
    assert(gas.limit == back + used);
    assert(price * (back + used) == price * back + price * used) by (nonlinear_arith);
}

/// Whether the price that the caller pays covers the base fee, where there is one: since London.
pub open spec fn covers_base_fee(env: Env, spec_id: SpecId) -> bool {
    spec_id.includes(SpecId::LONDON) ==> env.block.basefee@ <= env.spec_effective_gas_price()
}

/// A transaction that is let in covers the base fee.
pub proof fn base_fee_is_covered<DB: Database>(d: DataView<DB>, spec_id: SpecId)
    requires
        d.precheck(spec_id) is None,
    ensures
        covers_base_fee(d.env, spec_id),
{
}

/// Since London the price that the caller pays is the beneficiary's part and the base fee.
pub proof fn base_fee_is_burnt(env: Env, spec_id: SpecId)
    requires
        spec_id.includes(SpecId::LONDON),
        covers_base_fee(env, spec_id),
    ensures
        coinbase_gas_price(env, spec_id) + env.block.basefee@ == env.spec_effective_gas_price(),
{
}

/// What the caller of a transaction gets back in the end.
pub open spec fn paid_back(env: Env, gas: GasView, spec_id: SpecId) -> nat {
    env.spec_effective_gas_price() * (gas.remaining() + gas_refund(gas, spec_id))
}

/// What the beneficiary of the block gets for a transaction.
pub open spec fn paid_to_coinbase(env: Env, gas: GasView, spec_id: SpecId) -> nat {
    coinbase_gas_price(env, spec_id) * bill(gas, spec_id).used
}

/// What nobody gets: since London the base fee of the gas that was used.
pub open spec fn burnt(env: Env, gas: GasView, spec_id: SpecId) -> nat {
    if spec_id.includes(SpecId::LONDON) {
        env.block.basefee@ * bill(gas, spec_id).used
    } else {
        0
    }
}

/// What was paid for all the gas of a transaction is split without loss: what the caller gets back,
/// what the beneficiary gets and what is burnt come to the price of all the gas.
pub proof fn prepaid_gas_is_split(env: Env, gas: GasView, spec_id: SpecId)
    requires
        gas.wf(),
        covers_base_fee(env, spec_id),
    ensures
        paid_back(env, gas, spec_id) + paid_to_coinbase(env, gas, spec_id) + burnt(
            env,
            gas,
            spec_id,
        ) == env.spec_effective_gas_price() * gas.limit,
{
    refund_is_capped(gas, spec_id);
    let price = env.spec_effective_gas_price();
    let share = coinbase_gas_price(env, spec_id);
    let used = bill(gas, spec_id).used;
    let back = gas.remaining() + gas_refund(gas, spec_id);
    assert(gas.limit == back + used);
    assert(price * (back + used) == price * back + price * used) by (nonlinear_arith);
    if spec_id.includes(SpecId::LONDON) {
        let fee = env.block.basefee@;
        assert(price == share + fee);
        assert((share + fee) * used == share * used + fee * used) by (nonlinear_arith);
    }
}

/// When the gas of a transaction is settled, the caller has the price of the gas that is left or
/// refunded back, the beneficiary has its part of the price of the gas that was used, and nobody
/// else has more or less than before. The caller may be the beneficiary. Where the base fee is
/// covered, what the two gain and what is burnt come to the price of all the gas.
pub proof fn settlement_pays<DB: Database>(
    d: DataView<DB>,
    caller: Seq<u8>,
    gas: GasView,
    spec_id: SpecId,
)
    requires
        gas.wf(),
        d.journal.has(caller),
        d.world().load_account(d.env.block.coinbase@).1 is Ok,
        d.journal.balance(caller) + paid_back(d.env, gas, spec_id) + paid_to_coinbase(
            d.env,
            gas,
            spec_id,
        ) <= u256_max(),
        d.world().load_account(d.env.block.coinbase@).0.journal.balance(d.env.block.coinbase@)
            + paid_to_coinbase(d.env, gas, spec_id) <= u256_max(),
    ensures
        ({
            let coinbase = d.env.block.coinbase@;
            let loaded = d.world().load_account(coinbase).0.journal;
            let settled = d.settle_gas(caller, gas, spec_id).journal;
            &&& settled.has(caller)
            &&& settled.touched(coinbase)
            &&& settled.accounts[caller].fields.is_touched == (
            d.journal.accounts[caller].fields.is_touched || caller == coinbase)
            &&& if caller == coinbase {
                settled.balance(caller) == d.journal.balance(caller) + paid_back(
                    d.env,
                    gas,
                    spec_id,
                ) + paid_to_coinbase(d.env, gas, spec_id)
            } else {
                &&& settled.balance(caller) == d.journal.balance(caller) + paid_back(
                    d.env,
                    gas,
                    spec_id,
                )
                &&& settled.balance(coinbase) == loaded.balance(coinbase) + paid_to_coinbase(
                    d.env,
                    gas,
                    spec_id,
                )
                &&& covers_base_fee(d.env, spec_id) ==> (settled.balance(caller)
                    - d.journal.balance(caller)) + (settled.balance(coinbase) - loaded.balance(
                    coinbase,
                )) + burnt(d.env, gas, spec_id) == d.env.spec_effective_gas_price() * gas.limit
            }
            &&& forall|address: Seq<u8>|
                address != caller && address != coinbase ==> (#[trigger] settled.has(address)
                    <==> d.journal.has(address)) && settled.accounts[address]
                    == d.journal.accounts[address]
        }),
{
    refund_is_capped(gas, spec_id);
    assert(paid_back(d.env, gas, spec_id) <= u256_max());
    assert(paid_to_coinbase(d.env, gas, spec_id) <= u256_max());
    if covers_base_fee(d.env, spec_id) {
        prepaid_gas_is_split(d.env, gas, spec_id);
    }
}

proof fn lemma_known_balances_leave_others<DB: Database>(
    db: DB,
    accounts: Map<Seq<u8>, AccountView>,
    addresses: Seq<H160>,
    address: Seq<u8>,
)
    requires
        forall|i: int| 0 <= i < addresses.len() ==> (#[trigger] addresses[i])@ != address,
    ensures
        add_known_balances(db, accounts, addresses).1.contains_key(address)
            <==> accounts.contains_key(address),
        add_known_balances(db, accounts, addresses).1[address] == accounts[address],
    decreases addresses.len(),
{
    if addresses.len() > 0 {
        lemma_known_balances_leave_others(db, accounts, addresses.drop_last(), address);
    }
}

proof fn lemma_settled_account_is_handed_over<DB: Database>(
    d: DataView<DB>,
    caller: Seq<u8>,
    gas: GasView,
    spec_id: SpecId,
    precompiles: Set<Seq<u8>>,
    after: DataView<DB>,
    outcome: Outcome,
    address: Seq<u8>,
)
    requires
        d.finalizes(caller, gas, spec_id, precompiles, after, outcome),
        d.env.cfg.perf_all_precompiles_have_balance ==> !precompiles.contains(address),
        d.settle_gas(caller, gas, spec_id).journal.touched(address),
    ensures
        outcome.state.contains_key(address),
        outcome.state[address] == d.settle_gas(caller, gas, spec_id).journal.accounts[address],
{
    let settled = d.settle_gas(caller, gas, spec_id);
    let touched = touched_accounts(settled.journal.accounts);
    if d.env.cfg.perf_all_precompiles_have_balance {
        let order = choose|order: Seq<H160>| #[trigger]
            lists(order, precompiles) && (after, outcome.state) == ({
                let (db, state) = add_known_balances(settled.db, touched, order);
                (DataView { db, ..settled.emptied() }, state)
            });
        lemma_known_balances_leave_others(settled.db, touched, order, address);
    }
}

/// The fees of a transaction are in what it hands over: the caller, which was touched when its
/// nonce was raised, has the price of the gas that is left or refunded back, and the beneficiary
/// its part of the price of the gas that was used. With what is burnt that is what was paid for all
/// the gas.
pub proof fn fees_are_handed_over<DB: Database>(
    d: DataView<DB>,
    caller: Seq<u8>,
    gas: GasView,
    spec_id: SpecId,
    precompiles: Set<Seq<u8>>,
    after: DataView<DB>,
    outcome: Outcome,
)
    requires
        d.finalizes(caller, gas, spec_id, precompiles, after, outcome),
        gas.wf(),
        covers_base_fee(d.env, spec_id),
        d.journal.touched(caller),
        d.world().load_account(d.env.block.coinbase@).1 is Ok,
        d.journal.balance(caller) + paid_back(d.env, gas, spec_id) + paid_to_coinbase(
            d.env,
            gas,
            spec_id,
        ) <= u256_max(),
        d.world().load_account(d.env.block.coinbase@).0.journal.balance(d.env.block.coinbase@)
            + paid_to_coinbase(d.env, gas, spec_id) <= u256_max(),
        d.env.cfg.perf_all_precompiles_have_balance ==> !precompiles.contains(caller)
            && !precompiles.contains(d.env.block.coinbase@),
    ensures
        ({
            let coinbase = d.env.block.coinbase@;
            let had = d.journal.balance(caller);
            let coinbase_had = d.world().load_account(coinbase).0.journal.balance(coinbase);
            let has = outcome.state[caller].fields.balance;
            let coinbase_has = outcome.state[coinbase].fields.balance;
            let paid = d.env.spec_effective_gas_price() * gas.limit;
            &&& outcome.state.contains_key(caller)
            &&& outcome.state.contains_key(coinbase)
            &&& if caller == coinbase {
                has - had + burnt(d.env, gas, spec_id) == paid
            } else {
                &&& has == had + paid_back(d.env, gas, spec_id)
                &&& coinbase_has == coinbase_had + paid_to_coinbase(d.env, gas, spec_id)
                &&& (has - had) + (coinbase_has - coinbase_had) + burnt(d.env, gas, spec_id)
                    == paid
            }
        }),
{
    let coinbase = d.env.block.coinbase@;
    settlement_pays(d, caller, gas, spec_id);
    prepaid_gas_is_split(d.env, gas, spec_id);
    lemma_settled_account_is_handed_over(
        d,
        caller,
        gas,
        spec_id,
        precompiles,
        after,
        outcome,
        caller,
    );
    lemma_settled_account_is_handed_over(
        d,
        caller,
        gas,
        spec_id,
        precompiles,
        after,
        outcome,
        coinbase,
    );
}

/// The caller of a transaction that is let in has paid the price of all its gas, and still has the
/// value that it sends.
pub proof fn prepared_caller_has_paid<DB: Database>(d: DataView<DB>, spec_id: SpecId)
    requires
        d.prepare(spec_id).1 is Ok,
    ensures
        ({
            let caller = d.env.tx.caller@;
            let warm = d.initialize(spec_id).0;
            let loaded = warm.world().load_account(caller).0.journal;
            let prepared = d.prepare(spec_id).0;
            &&& prepared.journal.has(caller)
            &&& loaded.has(caller)
            &&& prepared.journal.balance(caller) + d.env.tx.gas_limit
                * d.env.spec_effective_gas_price() == loaded.balance(caller)
            &&& d.env.tx.value@ <= prepared.journal.balance(caller)
        }),
{
    let warm = d.initialize(spec_id).0;
    load_account_extends(warm.world(), d.env.tx.caller@);
}

/// A transaction that is refused for its prices or its gas limit leaves everything as it was.
pub proof fn refusal_before_loading_changes_nothing<DB: Database>(d: DataView<DB>, spec_id: SpecId)
    requires
        d.precheck(spec_id) is Some,
    ensures
        d.prepare(spec_id) == (d, Err::<nat, Return>(d.precheck(spec_id)->0)),
{
}

/// The gas that a transaction spends is never less than what it costs before anything is run, and
/// never more than its limit. Where what it runs neither succeeds nor is reverted, it is all of it;
/// only where it succeeds is anything refunded.
pub proof fn spent_gas_is_bounded(
    limit: nat,
    cost: nat,
    reason: Return,
    ran: GasView,
    spec_id: SpecId,
)
    requires
        cost <= limit <= u64::MAX,
        ran.wf(),
        ran.limit == limit - cost,
    ensures
        ({
            let gas = gas_after_run(sold_gas(limit), reason, ran);
            &&& gas.wf()
            &&& cost <= gas.spent <= gas.limit
            &&& gas.limit == limit
            &&& !reason.spec_is_ok() && !reason.spec_is_revert() ==> gas.spent == limit
            &&& !reason.spec_is_ok() ==> gas_refund(gas, spec_id) == 0
        }),
{
}

/// After a transaction that ran, the journal is empty.
pub proof fn finalized_journal_is_empty<DB: Database>(
    d: DataView<DB>,
    caller: Seq<u8>,
    gas: GasView,
    spec_id: SpecId,
    precompiles: Set<Seq<u8>>,
    after: DataView<DB>,
    outcome: Outcome,
)
    requires
        d.finalizes(caller, gas, spec_id, precompiles, after, outcome),
    ensures
        after.journal == JournalView::empty(
            after.journal.is_before_spurious_dragon,
            after.journal.num_of_precompiles,
        ),
{
}

proof fn lemma_known_balances_keep_touched<DB: Database>(
    db: DB,
    accounts: Map<Seq<u8>, AccountView>,
    addresses: Seq<H160>,
    address: Seq<u8>,
)
    requires
        forall|a: Seq<u8>|
            accounts.contains_key(a) ==> (#[trigger] accounts[a]).fields.is_touched,
    ensures
        add_known_balances(db, accounts, addresses).1.contains_key(address)
            <==> accounts.contains_key(address),
        accounts.contains_key(address) ==> add_known_balances(
            db,
            accounts,
            addresses,
        ).1[address].fields.is_touched,
    decreases addresses.len(),
{
    if addresses.len() > 0 {
        lemma_known_balances_keep_touched(db, accounts, addresses.drop_last(), address);
    }
}

/// The accounts that a transaction hands over are touched, and those that are touched in the end
/// are handed over.
pub proof fn touched_accounts_are_handed_over<DB: Database>(
    d: DataView<DB>,
    caller: Seq<u8>,
    gas: GasView,
    spec_id: SpecId,
    precompiles: Set<Seq<u8>>,
    after: DataView<DB>,
    outcome: Outcome,
    address: Seq<u8>,
)
    requires
        d.finalizes(caller, gas, spec_id, precompiles, after, outcome),
    ensures
        ({
            let settled = d.settle_gas(caller, gas, spec_id).journal;
            outcome.state.contains_key(address) <==> settled.has(address)
                && settled.accounts[address].fields.is_touched
        }),
        outcome.state.contains_key(address) ==> outcome.state[address].fields.is_touched,
{
    let settled = d.settle_gas(caller, gas, spec_id);
    let touched = touched_accounts(settled.journal.accounts);
    if d.env.cfg.perf_all_precompiles_have_balance {
        let order = choose|order: Seq<H160>| #[trigger]
            lists(order, precompiles) && (after, outcome.state) == ({
                let (db, state) = add_known_balances(settled.db, touched, order);
                (DataView { db, ..settled.emptied() }, state)
            });
        lemma_known_balances_keep_touched(settled.db, touched, order, address);
    }
}

/// What is touched when a transaction has run is touched when its gas is settled.
proof fn lemma_settlement_keeps_touched<DB: Database>(
    d: DataView<DB>,
    caller: Seq<u8>,
    gas: GasView,
    spec_id: SpecId,
    address: Seq<u8>,
)
    requires
        d.journal.touched(address),
    ensures
        d.settle_gas(caller, gas, spec_id).journal.touched(address),
{
}

/// An account that is touched when a transaction has run is handed over.
pub proof fn touched_account_is_handed_over<DB: Database>(
    d: DataView<DB>,
    caller: Seq<u8>,
    gas: GasView,
    spec_id: SpecId,
    precompiles: Set<Seq<u8>>,
    after: DataView<DB>,
    outcome: Outcome,
    address: Seq<u8>,
)
    requires
        d.finalizes(caller, gas, spec_id, precompiles, after, outcome),
        d.journal.touched(address),
    ensures
        outcome.state.contains_key(address),
{
    lemma_settlement_keeps_touched(d, caller, gas, spec_id, address);
    touched_accounts_are_handed_over(
        d,
        caller,
        gas,
        spec_id,
        precompiles,
        after,
        outcome,
        address,
    );
}

/// A call by transaction that succeeds hands over its caller and the account that it is for, also
/// where it moves no value and the account is empty.
pub proof fn called_account_is_handed_over<'a, GSPEC: Spec, DB: Database, I: Interpreter>(
    precompiles: Map<Seq<u8>, revm_precompiles::Precompile>,
    before: DataView<DB>,
    told: Seq<Event<DB, I>>,
    after: DataView<DB>,
    result: ExecutionResult,
    state: Map<Seq<u8>, AccountView>,
    address: H160,
)
    requires
        EVMImpl::<'a, GSPEC, DB, I, false>::transacts(
            precompiles,
            before,
            told,
            after,
            result,
            state,
        ),
        before.env.tx.transact_to == TransactTo::Call(address),
        result.exit_reason.spec_is_ok(),
        result.out is Call,
    ensures
        state.contains_key(before.env.tx.caller@),
        state.contains_key(address@),
{
    let (prepared, left) = before.prepare(GSPEC::id());
    let left = left->Ok_0;
    let tx = prepared.env.tx;
    let rules = Rules { watched: false, precompiles, spec_id: GSPEC::id() };
    let begun = prepared.with(prepared.journal.inc_nonce(tx.caller@).0);
    let (inputs, ran, end) = choose|inputs: CallInputs, ran: DataView<DB>, end: End|
        is_call_of(tx, left, address, inputs) && #[trigger] makes_call::<DB, I>(
            rules,
            frames_left(begun.journal.depth),
            GSPEC::IS_STATIC_CALL,
            begun,
            inputs,
            told,
            ran,
            end,
        ) && result.exit_reason == end.reason && ran.finalizes(
            tx.caller@,
            gas_after_run(sold_gas(tx.gas_limit as nat), end.reason, end.gas),
            GSPEC::id(),
            precompiles.dom(),
            after,
            outcome(result, state),
        );
    assert(calls::<DB, I>(
        rules,
        frames_left(begun.journal.depth),
        GSPEC::IS_STATIC_CALL,
        begun,
        inputs,
        told,
        ran,
        end,
    )) by {
        reveal(makes_call);
        reveal(calls);
    }
    successful_call_touches::<DB, I>(
        rules,
        frames_left(begun.journal.depth),
        GSPEC::IS_STATIC_CALL,
        begun,
        inputs,
        told,
        ran,
        end,
    );
    let gas = gas_after_run(sold_gas(tx.gas_limit as nat), end.reason, end.gas);
    touched_account_is_handed_over(
        ran,
        tx.caller@,
        gas,
        GSPEC::id(),
        precompiles.dom(),
        after,
        outcome(result, state),
        tx.caller@,
    );
    touched_account_is_handed_over(
        ran,
        tx.caller@,
        gas,
        GSPEC::id(),
        precompiles.dom(),
        after,
        outcome(result, state),
        address@,
    );
}

proof fn lemma_warm_slots_extends<DB: Database>(
    w: World<DB>,
    address: Seq<u8>,
    slots: Seq<U256>,
)
    requires
        w.journal.has(address),
    ensures
        w.warm_slots(address, slots).journal.extends(w.journal),
        is_sound(w.db) ==> is_sound(w.warm_slots(address, slots).db),
    decreases slots.len(),
{
    extends_itself(w.journal);
    if slots.len() > 0 {
        let before = w.warm_slots(address, slots.drop_last());
        lemma_warm_slots_extends(w, address, slots.drop_last());
        loaded_stays_loaded(before.journal, w.journal, address);
        sload_extends(before, address, slots.last()@);
        extends_in_steps(
            w.warm_slots(address, slots).journal,
            before.journal,
            w.journal,
        );
    }
}

proof fn lemma_warm_list_extends<DB: Database>(w: World<DB>, list: Seq<(H160, Vec<U256>)>)
    ensures
        w.warm_list(list).journal.extends(w.journal),
        is_sound(w.db) ==> is_sound(w.warm_list(list).db),
    decreases list.len(),
{
    extends_itself(w.journal);
    if list.len() > 0 {
        let before = w.warm_list(list.drop_last());
        let (address, slots) = list.last();
        let (loaded, r) = before.load_account(address@);
        lemma_warm_list_extends(w, list.drop_last());
        load_account_extends(before, address@);
        extends_in_steps(loaded.journal, before.journal, w.journal);
        if r is Ok {
            lemma_warm_slots_extends(loaded, address@, slots@);
            extends_in_steps(
                loaded.warm_slots(address@, slots@).journal,
                loaded.journal,
                w.journal,
            );
        }
    }
}

/// Whether the database answers for an account of an access list when it comes to it.
pub open spec fn loads_listed_account<DB: Database>(
    w: World<DB>,
    list: Seq<(H160, Vec<U256>)>,
    i: int,
) -> bool {
    w.warm_list(list.take(i)).load_account(list[i].0@).1 is Ok
}

/// Whether the database answers for a slot of an access list when it comes to it.
pub open spec fn loads_listed_slot<DB: Database>(
    w: World<DB>,
    list: Seq<(H160, Vec<U256>)>,
    i: int,
    k: int,
) -> bool {
    let (address, slots) = list[i];
    let loaded = w.warm_list(list.take(i)).load_account(address@).0;
    loaded.warm_slots(address@, slots@.take(k)).sload(address@, slots@[k]@).1 is Ok
}

/// A database that does not fail answers for everything in an access list.
pub proof fn sound_database_loads_the_list<DB: Database>(
    w: World<DB>,
    list: Seq<(H160, Vec<U256>)>,
    i: int,
    k: int,
)
    requires
        is_sound(w.db),
        0 <= i < list.len(),
    ensures
        loads_listed_account(w, list, i),
        0 <= k < list[i].1@.len() ==> loads_listed_slot(w, list, i, k),
{
    let (address, slots) = list[i];
    let before = w.warm_list(list.take(i));
    let loaded = before.load_account(address@).0;
    lemma_warm_list_extends(w, list.take(i));
    load_account_extends(before, address@);
    if 0 <= k < slots@.len() {
        let warm = loaded.warm_slots(address@, slots@.take(k));
        lemma_warm_slots_extends(loaded, address@, slots@.take(k));
        loaded_stays_loaded(warm.journal, loaded.journal, address@);
        sload_extends(warm, address@, slots@[k]@);
    }
}

/// An account of the access list is warm when the transaction begins to run, where the database
/// answered for it.
pub proof fn listed_account_is_warm<DB: Database>(
    w: World<DB>,
    list: Seq<(H160, Vec<U256>)>,
    i: int,
)
    requires
        0 <= i < list.len(),
        loads_listed_account(w, list, i),
    ensures
        w.warm_list(list).journal.has(list[i].0@),
        w.warm_list(list).load_account(list[i].0@) == (
            w.warm_list(list),
            Ok::<bool, DB::Error>(false),
        ),
    decreases list.len(),
{
    let shorter = list.drop_last();
    let before = w.warm_list(shorter);
    let (address, slots) = list.last();
    let (loaded, r) = before.load_account(address@);
    load_account_extends(before, address@);
    if r is Ok {
        lemma_warm_slots_extends(loaded, address@, slots@);
    }
    if i < list.len() - 1 {
        assert(shorter.take(i) =~= list.take(i));
        listed_account_is_warm(w, shorter, i);
        loaded_stays_loaded(loaded.journal, before.journal, list[i].0@);
    } else {
        assert(list.take(i) =~= shorter);
    }
    if r is Ok {
        loaded_stays_loaded(w.warm_list(list).journal, loaded.journal, list[i].0@);
    }
}

/// Whether a slot of an account is loaded.
pub open spec fn has_slot(journal: JournalView, address: Seq<u8>, index: nat) -> bool {
    journal.has(address) && journal.accounts[address].storage.contains_key(index)
}

proof fn lemma_warm_slots_keep_slot<DB: Database>(
    w: World<DB>,
    address: Seq<u8>,
    slots: Seq<U256>,
    other: Seq<u8>,
    index: nat,
)
    requires
        w.journal.has(address),
        has_slot(w.journal, other, index),
    ensures
        has_slot(w.warm_slots(address, slots).journal, other, index),
    decreases slots.len(),
{
    if slots.len() > 0 {
        lemma_warm_slots_keep_slot(w, address, slots.drop_last(), other, index);
        lemma_warm_slots_extends(w, address, slots.drop_last());
        let before = w.warm_slots(address, slots.drop_last());
        loaded_stays_loaded(before.journal, w.journal, address);
    }
}

proof fn lemma_warm_slots_load<DB: Database>(
    w: World<DB>,
    address: Seq<u8>,
    slots: Seq<U256>,
    k: int,
)
    requires
        w.journal.has(address),
        0 <= k < slots.len(),
        w.warm_slots(address, slots.take(k)).sload(address, slots[k]@).1 is Ok,
    ensures
        has_slot(w.warm_slots(address, slots).journal, address, slots[k]@),
    decreases slots.len(),
{
    let shorter = slots.drop_last();
    let before = w.warm_slots(address, shorter);
    lemma_warm_slots_extends(w, address, shorter);
    loaded_stays_loaded(before.journal, w.journal, address);
    sload_extends(before, address, slots.last()@);
    if k < slots.len() - 1 {
        assert(shorter.take(k) =~= slots.take(k));
        lemma_warm_slots_load(w, address, shorter, k);
    } else {
        assert(slots.take(k) =~= shorter);
    }
}

/// A slot of the access list is warm when the transaction begins to run, where the database
/// answered for its account and for it.
pub proof fn listed_slot_is_warm<DB: Database>(
    w: World<DB>,
    list: Seq<(H160, Vec<U256>)>,
    i: int,
    k: int,
)
    requires
        0 <= i < list.len(),
        0 <= k < list[i].1@.len(),
        loads_listed_account(w, list, i),
        loads_listed_slot(w, list, i, k),
    ensures
        has_slot(w.warm_list(list).journal, list[i].0@, list[i].1@[k]@),
        w.warm_list(list).sload(list[i].0@, list[i].1@[k]@).0 == w.warm_list(list),
        w.warm_list(list).sload(list[i].0@, list[i].1@[k]@).1 matches Ok((_, is_cold))
            && !is_cold,
    decreases list.len(),
{
    let shorter = list.drop_last();
    let before = w.warm_list(shorter);
    let (address, slots) = list.last();
    let (loaded, r) = before.load_account(address@);
    load_account_extends(before, address@);
    if i < list.len() - 1 {
        assert(shorter.take(i) =~= list.take(i));
        listed_slot_is_warm(w, shorter, i, k);
        assert(has_slot(loaded.journal, list[i].0@, list[i].1@[k]@));
        if r is Ok {
            lemma_warm_slots_keep_slot(loaded, address@, slots@, list[i].0@, list[i].1@[k]@);
        }
    } else {
        assert(list.take(i) =~= shorter);
        lemma_warm_slots_load(loaded, address@, slots@, k);
    }
}

/// When the access list of a transaction has been gone through, since Berlin, its accounts and
/// slots are warm to a host that asks for them, as far as the database answered for them.
pub proof fn access_list_is_warm<DB: Database>(d: DataView<DB>, spec_id: SpecId, i: int, k: int)
    requires
        spec_id.includes(SpecId::BERLIN),
        0 <= i < d.env.tx.access_list@.len(),
        loads_listed_account(d.world(), d.env.tx.access_list@, i),
    ensures
        ({
            let list = d.env.tx.access_list@;
            let (address, slots) = list[i];
            let warm = d.initialize(spec_id).0;
            let balance = warm.journal.balance(address@);
            &&& warm.balance(address@) == (warm, Some((balance, false)))
            &&& 0 <= k < slots@.len() && loads_listed_slot(d.world(), list, i, k) ==> {
                let (after, slot) = warm.sload(address@, slots@[k]@);
                &&& after == warm
                &&& slot matches Some((value, is_cold))
                &&& value
                    == warm.journal.accounts[address@].storage[slots@[k]@].present_value
                &&& !is_cold
            }
        }),
{
    let list = d.env.tx.access_list@;
    listed_account_is_warm(d.world(), list, i);
    if 0 <= k < list[i].1@.len() && loads_listed_slot(d.world(), list, i, k) {
        listed_slot_is_warm(d.world(), list, i, k);
    }
}

/// When a transaction that is let in begins to run, the accounts and slots of its access list are
/// loaded since Berlin, as far as the database answered for them.
pub proof fn access_list_is_loaded<DB: Database>(d: DataView<DB>, spec_id: SpecId, i: int, k: int)
    requires
        spec_id.includes(SpecId::BERLIN),
        d.prepare(spec_id).1 is Ok,
        0 <= i < d.env.tx.access_list@.len(),
        loads_listed_account(d.world(), d.env.tx.access_list@, i),
    ensures
        ({
            let prepared = d.prepare(spec_id).0.journal;
            let list = d.env.tx.access_list@;
            let (address, slots) = list[i];
            &&& prepared.has(address@)
            &&& 0 <= k < slots@.len() && loads_listed_slot(d.world(), list, i, k) ==> has_slot(
                prepared,
                address@,
                slots@[k]@,
            )
        }),
{
    let list = d.env.tx.access_list@;
    let warm = d.initialize(spec_id).0;
    listed_account_is_warm(d.world(), list, i);
    load_account_extends(warm.world(), d.env.tx.caller@);
    if 0 <= k < list[i].1@.len() && loads_listed_slot(d.world(), list, i, k) {
        listed_slot_is_warm(d.world(), list, i, k);
    }
}

/// Before anything is run, no more is done than can be undone.
pub proof fn initialize_extends<DB: Database>(d: DataView<DB>, spec_id: SpecId)
    ensures
        d.initialize(spec_id).0.journal.extends(d.journal),
{
    extends_itself(d.journal);
    lemma_warm_list_extends(d.world(), d.env.tx.access_list@);
}

/// Since Istanbul data costs no more than before: with nothing else changed, a transaction that
/// could be paid for before still can.
pub proof fn istanbul_is_no_dearer(env: Env)
    ensures
        intrinsic_gas(env, SpecId::ISTANBUL) <= intrinsic_gas(env, SpecId::PETERSBURG),
{
}

/// A transaction that ran without an inspector uses and refunds no more gas than its limit, and no
/// less than it costs before anything is run.
pub proof fn transaction_gas_is_bounded<'a, GSPEC: Spec, DB: Database, I: Interpreter>(
    d: DataView<DB>,
    precompiles: Map<Seq<u8>, revm_precompiles::Precompile>,
    left: nat,
    told: Seq<Event<DB, I>>,
    after: DataView<DB>,
    result: ExecutionResult,
    state: Map<Seq<u8>, AccountView>,
)
    requires
        d.prepare(GSPEC::id()).1 == Ok::<nat, Return>(left),
        EVMImpl::<'a, GSPEC, DB, I, false>::carries_out(
            precompiles,
            d.prepare(GSPEC::id()).0,
            left,
            told,
            after,
            result,
            state,
        ),
        !(result.out is Nothing),
    ensures
        d.initialize(GSPEC::id()).1 <= result.gas_used + result.gas_refunded
            <= d.env.tx.gas_limit,
{
    let prepared = d.prepare(GSPEC::id()).0;
    let tx = d.env.tx;
    let cost = d.initialize(GSPEC::id()).1;
    let rules = Rules { watched: false, precompiles, spec_id: GSPEC::id() };
    let begun = prepared.with(prepared.journal.inc_nonce(tx.caller@).0);
    match tx.transact_to {
        TransactTo::Call(address) => {
            let (inputs, ran, end) = choose|inputs: CallInputs, ran: DataView<DB>, end: End|
                is_call_of(tx, left, address, inputs) && #[trigger] makes_call::<DB, I>(
                    rules,
                    frames_left(begun.journal.depth),
                    GSPEC::IS_STATIC_CALL,
                    begun,
                    inputs,
                    told,
                    ran,
                    end,
                ) && ran.finalizes(
                    tx.caller@,
                    gas_after_run(sold_gas(tx.gas_limit as nat), end.reason, end.gas),
                    GSPEC::id(),
                    precompiles.dom(),
                    after,
                    outcome(result, state),
                );
            assert(calls::<DB, I>(
                rules,
                frames_left(begun.journal.depth),
                GSPEC::IS_STATIC_CALL,
                begun,
                inputs,
                told,
                ran,
                end,
            )) by {
                reveal(makes_call);
                reveal(calls);
            }
            call_gas_is_under_its_limit::<DB, I>(
                rules,
                frames_left(begun.journal.depth),
                GSPEC::IS_STATIC_CALL,
                begun,
                inputs,
                told,
                ran,
                end,
            );
            lemma_bill_is_bounded(tx.gas_limit as nat, cost, end.reason, end.gas, GSPEC::id());
        },
        TransactTo::Create(scheme) => {
            let (inputs, ran, created, end) = choose|
                inputs: CreateInputs,
                ran: DataView<DB>,
                created: Option<H160>,
                end: End,
            |
                is_create_of(tx, left, scheme, inputs) && #[trigger] makes_create::<DB, I>(
                    rules,
                    frames_left(prepared.journal.depth),
                    GSPEC::IS_STATIC_CALL,
                    prepared,
                    inputs,
                    told,
                    ran,
                    created,
                    end,
                ) && ran.finalizes(
                    tx.caller@,
                    gas_after_run(sold_gas(tx.gas_limit as nat), end.reason, end.gas),
                    GSPEC::id(),
                    precompiles.dom(),
                    after,
                    outcome(result, state),
                );
            assert(creates::<DB, I>(
                rules,
                frames_left(prepared.journal.depth),
                GSPEC::IS_STATIC_CALL,
                prepared,
                inputs,
                told,
                ran,
                true,
                address_view(created),
                end,
            ) || creates::<DB, I>(
                rules,
                frames_left(prepared.journal.depth),
                GSPEC::IS_STATIC_CALL,
                prepared,
                inputs,
                told,
                ran,
                false,
                address_view(created),
                end,
            )) by {
                reveal(makes_create);
                reveal(creates);
            }
            let announced = choose|announced: bool| #[trigger]
                creates::<DB, I>(
                    rules,
                    frames_left(prepared.journal.depth),
                    GSPEC::IS_STATIC_CALL,
                    prepared,
                    inputs,
                    told,
                    ran,
                    announced,
                    address_view(created),
                    end,
                );
            create_gas_is_under_its_limit::<DB, I>(
                rules,
                frames_left(prepared.journal.depth),
                GSPEC::IS_STATIC_CALL,
                prepared,
                inputs,
                told,
                ran,
                announced,
                address_view(created),
                end,
            );
            lemma_bill_is_bounded(tx.gas_limit as nat, cost, end.reason, end.gas, GSPEC::id());
        },
    }
}

proof fn lemma_bill_is_bounded(
    limit: nat,
    cost: nat,
    reason: Return,
    ran: GasView,
    spec_id: SpecId,
)
    requires
        cost <= limit <= u64::MAX,
        ran.wf(),
        ran.limit == limit - cost,
    ensures
        ({
            let all = bill(gas_after_run(sold_gas(limit), reason, ran), spec_id);
            cost <= all.used + all.refunded <= limit
        }),
{
    let gas = gas_after_run(sold_gas(limit), reason, ran);
    spent_gas_is_bounded(limit, cost, reason, ran, spec_id);
    refund_is_capped(gas, spec_id);
}

} // verus!
