//! What a transaction runs, and what it hands over in the end.
use crate::answer_laws::{unwatched_call_is_made, unwatched_create_is_made};
use crate::call_laws::call_runs_its_code;
use crate::charge_laws::{at_most_a_word, refund_is_what_was_earned};
use crate::create_laws::create_runs_its_init_code;
use crate::data::DataView;
use crate::db::Database;
use crate::evm_impl::EVMImpl;
use crate::frames_model::End;
use crate::gas::GasView;
use crate::inspector::Event;
use crate::interpreter::{ContractView, Interpreter};
use crate::journal_effect_laws::{inc_nonce_raises, only_account_changed};
use crate::journal_laws::load_account_extends;
use crate::journal_model::World;
use crate::models::{
    log_views, CallInputs, CallScheme, CreateInputs, CreateScheme, ExecutionResult,
    Return, TransactOut, TransactTo,
};
use crate::primitives::{H160, U256};
use crate::run_model::{frames_left, makes_call, makes_create, Rules};
use crate::spec_id::{Spec, SpecId};
use crate::state::{lists, touched_accounts, AccountFieldsView, AccountView, StorageSlotView};
use crate::transact_model::{
    add_known_balances, gas_after_run, gas_refund, is_call_of, is_create_of, outcome, sold_gas,
};
use crate::world_laws::{is_answered, known_as, load_account_brings};
use vstd::prelude::*;

verus! {

/// A transaction that is refused hands over nothing: no output, no gas used or refunded, no logs
/// and no accounts; and the inspector does not hear of it.
pub proof fn refused_transaction_hands_over_nothing<
    'a,
    GSPEC: Spec,
    DB: Database,
    I: Interpreter,
    const INSPECT: bool,
>(
    precompiles: Map<Seq<u8>, revm_precompiles::Precompile>,
    before: DataView<DB>,
    told: Seq<Event<DB, I>>,
    after: DataView<DB>,
    result: ExecutionResult,
    state: Map<Seq<u8>, AccountView>,
)
    requires
        EVMImpl::<'a, GSPEC, DB, I, INSPECT>::transacts(
            precompiles,
            before,
            told,
            after,
            result,
            state,
        ),
        before.prepare(GSPEC::id()).1 is Err,
    ensures
        before.prepare(GSPEC::id()).1 == Err::<nat, Return>(result.exit_reason),
        after == before.prepare(GSPEC::id()).0,
        result.out is Nothing,
        result.gas_used == 0,
        result.gas_refunded == 0,
        result.logs@.len() == 0,
        told.len() == 0,
        forall|address: Seq<u8>| !#[trigger] state.contains_key(address),
{
}

/// What the gas of a transaction comes to, and what it hands over: the result says how much was
/// used and refunded and has the logs of the run, in order; and with the settlement done, the
/// accounts that are touched are handed over as they are, the others not. The journal is empty
/// then.
pub open spec fn is_handed_over<DB: Database>(
    ran: DataView<DB>,
    caller: Seq<u8>,
    gas: GasView,
    spec_id: SpecId,
    precompiles: Set<Seq<u8>>,
    after: DataView<DB>,
    result: ExecutionResult,
    state: Map<Seq<u8>, AccountView>,
) -> bool {
    let settled = ran.settle_gas(caller, gas, spec_id);
    let refund = gas_refund(gas, spec_id);
    &&& result.gas_refunded == refund
    &&& result.gas_used + refund == gas.spent
    &&& result.logs@.len() == ran.journal.logs.len()
    &&& forall|i: int|
        0 <= i < ran.journal.logs.len() ==> (#[trigger] result.logs@[i])@ == ran.journal.logs[i]
    &&& forall|a: Seq<u8>|
        {
            &&& #[trigger] state.contains_key(a) <==> settled.journal.accounts.contains_key(a)
                && settled.journal.accounts[a].fields.is_touched
            &&& state.contains_key(a) ==> {
                let account = settled.journal.accounts[a];
                if ran.env.cfg.perf_all_precompiles_have_balance && precompiles.contains(a) {
                    &&& state[a].code == account.code
                    &&& state[a].storage == account.storage
                    &&& state[a].fields == (AccountFieldsView {
                        balance: state[a].fields.balance,
                        ..account.fields
                    })
                    &&& exists|db: DB|
                        state[a].fields.balance == at_most_a_word(
                            account.fields.balance + match (#[trigger] db.answer_basic(a)).0 {
                                Ok(Some(info)) => info.balance,
                                _ => 0,
                            },
                        )
                } else {
                    state[a] == account
                }
            }
        }
    &&& after.env == ran.env
    &&& after.error == settled.error
    &&& forall|a: Seq<u8>| !#[trigger] after.journal.accounts.contains_key(a)
    &&& after.journal.logs.len() == 0
    &&& after.journal.depth == 0
    &&& after.journal.history.len() == 0
    &&& after.journal.is_before_spurious_dragon == ran.journal.is_before_spurious_dragon
    &&& after.journal.num_of_precompiles == ran.journal.num_of_precompiles
    &&& !ran.env.cfg.perf_all_precompiles_have_balance ==> after.db == settled.db
}

proof fn lemma_known_balances_are_added<DB: Database>(
    db: DB,
    accounts: Map<Seq<u8>, AccountView>,
    addresses: Seq<H160>,
    a: Seq<u8>,
)
    requires
        forall|i: int, j: int| 0 <= i < j < addresses.len() ==> addresses[i]@ != addresses[j]@,
    ensures
        ({
            let state = add_known_balances(db, accounts, addresses).1;
            let is_in = exists|i: int| 0 <= i < addresses.len() && addresses[i]@ == a;
            &&& state.contains_key(a) == accounts.contains_key(a)
            &&& accounts.contains_key(a) && !is_in ==> state[a] == accounts[a]
            &&& accounts.contains_key(a) && is_in ==> {
                &&& state[a].code == accounts[a].code
                &&& state[a].storage == accounts[a].storage
                &&& state[a].fields == (AccountFieldsView {
                    balance: state[a].fields.balance,
                    ..accounts[a].fields
                })
                &&& exists|other: DB|
                    state[a].fields.balance == at_most_a_word(
                        accounts[a].fields.balance + match (#[trigger] other.answer_basic(a)).0 {
                            Ok(Some(info)) => info.balance,
                            _ => 0,
                        },
                    )
            }
        }),
    decreases addresses.len(),
{
    if addresses.len() > 0 {
        let shorter = addresses.drop_last();
        lemma_known_balances_are_added(db, accounts, shorter, a);
        let last = addresses.last()@;
        let between = add_known_balances(db, accounts, shorter);
        let state = add_known_balances(db, accounts, addresses).1;
        let was_in = exists|i: int| 0 <= i < shorter.len() && shorter[i]@ == a;
        let is_in = exists|i: int| 0 <= i < addresses.len() && addresses[i]@ == a;
        if was_in {
            let i = choose|i: int| 0 <= i < shorter.len() && shorter[i]@ == a;
            assert(addresses[i]@ == a);
            assert(last != a) by {
                assert(addresses[i]@ != addresses[addresses.len() - 1]@);
            }
            assert(is_in);
        } else if last == a {
            assert(addresses[addresses.len() - 1]@ == a);
            assert(is_in);
            if accounts.contains_key(a) {
                let other = between.0;
                let answer = other.answer_basic(a).0;
                assert(state[a].fields.balance == at_most_a_word(
                    accounts[a].fields.balance + match answer {
                        Ok(Some(info)) => info.balance,
                        _ => 0,
                    },
                ));
            }
        } else if is_in {
            let i = choose|i: int| 0 <= i < addresses.len() && addresses[i]@ == a;
            assert(shorter[i]@ == a);
            assert(false);
        }
    }
}

/// The database is asked for the balances of the precompiles one after the other, each time as the
/// question before left it, and only for accounts that are handed over.
pub proof fn balances_are_asked_in_turn<DB: Database>(
    db: DB,
    accounts: Map<Seq<u8>, AccountView>,
    addresses: Seq<H160>,
    next: H160,
)
    requires
        forall|i: int| 0 <= i < addresses.len() ==> (#[trigger] addresses[i])@ != next@,
        forall|i: int, j: int| 0 <= i < j < addresses.len() ==> addresses[i]@ != addresses[j]@,
    ensures
        add_known_balances(db, accounts, Seq::empty()) == (db, accounts),
        ({
            let between = add_known_balances(db, accounts, addresses).0;
            let (last, state) = add_known_balances(db, accounts, addresses.push(next));
            if accounts.contains_key(next@) {
                let (answer, asked) = between.answer_basic(next@);
                &&& last == asked
                &&& state[next@].fields.balance == at_most_a_word(
                    accounts[next@].fields.balance + match answer {
                        Ok(Some(info)) => info.balance,
                        _ => 0,
                    },
                )
            } else {
                last == between
            }
        }),
{
    lemma_known_balances_are_added(db, accounts, addresses, next@);
    assert(addresses.push(next).drop_last() =~= addresses);
}

/// The end of a transaction hands over what it should.
pub proof fn outcome_is_handed_over<DB: Database>(
    ran: DataView<DB>,
    caller: Seq<u8>,
    gas: GasView,
    spec_id: SpecId,
    precompiles: Set<Seq<u8>>,
    after: DataView<DB>,
    result: ExecutionResult,
    state: Map<Seq<u8>, AccountView>,
)
    requires
        gas.wf(),
        ran.finalizes(caller, gas, spec_id, precompiles, after, outcome(result, state)),
    ensures
        is_handed_over(ran, caller, gas, spec_id, precompiles, after, result, state),
{
    refund_is_what_was_earned(gas, spec_id);
    let settled = ran.settle_gas(caller, gas, spec_id);
    let touched = touched_accounts(settled.journal.accounts);
    lemma_settlement_keeps_logs(ran, caller, gas, spec_id);
    assert(log_views(result.logs@) == ran.journal.logs);
    assert forall|i: int| 0 <= i < ran.journal.logs.len() implies (#[trigger] result.logs@[i])@
        == ran.journal.logs[i] by {
        assert(log_views(result.logs@)[i] == result.logs@[i]@);
    }
    if ran.env.cfg.perf_all_precompiles_have_balance {
        let order = choose|order: Seq<H160>| #[trigger]
            lists(order, precompiles) && (after, state) == ({
                let (db, state) = add_known_balances(settled.db, touched, order);
                (DataView { db, ..settled.emptied() }, state)
            });
        assert forall|a: Seq<u8>|
            {
                &&& #[trigger] state.contains_key(a) <==> settled.journal.accounts.contains_key(a)
                    && settled.journal.accounts[a].fields.is_touched
                &&& state.contains_key(a) ==> {
                    let account = settled.journal.accounts[a];
                    if precompiles.contains(a) {
                        &&& state[a].code == account.code
                        &&& state[a].storage == account.storage
                        &&& state[a].fields == (AccountFieldsView {
                            balance: state[a].fields.balance,
                            ..account.fields
                        })
                        &&& exists|db: DB|
                            state[a].fields.balance == at_most_a_word(
                                account.fields.balance + match (#[trigger] db.answer_basic(a)).0 {
                                    Ok(Some(info)) => info.balance,
                                    _ => 0,
                                },
                            )
                    } else {
                        state[a] == account
                    }
                }
            } by {
            lemma_known_balances_are_added(settled.db, touched, order, a);
        }
    }
}

proof fn lemma_settlement_keeps_logs<DB: Database>(
    d: DataView<DB>,
    caller: Seq<u8>,
    gas: GasView,
    spec_id: SpecId,
)
    ensures
        d.settle_gas(caller, gas, spec_id).journal.logs == d.journal.logs,
        d.settle_gas(caller, gas, spec_id).env == d.env,
        d.settle_gas(caller, gas, spec_id).journal.is_before_spurious_dragon
            == d.journal.is_before_spurious_dragon,
        d.settle_gas(caller, gas, spec_id).journal.num_of_precompiles
            == d.journal.num_of_precompiles,
{
}

/// A transaction that is let in and asks for a call. It is refused where its caller has the highest
/// nonce. Else the nonce of the caller goes up by one, and the call is made that it asks for: from
/// its caller to the address, with its value and its data, and with the gas that is left, under the
/// rules of its fork. What the call comes back with is what the transaction returns, and its gas is
/// settled for what the run left. Returns the call, where it begins, where it ends and how, and the
/// gas.
pub proof fn transaction_makes_its_call<
    'a,
    GSPEC: Spec,
    DB: Database,
    I: Interpreter,
    const INSPECT: bool,
>(
    precompiles: Map<Seq<u8>, revm_precompiles::Precompile>,
    before: DataView<DB>,
    told: Seq<Event<DB, I>>,
    after: DataView<DB>,
    result: ExecutionResult,
    state: Map<Seq<u8>, AccountView>,
    left: nat,
    address: H160,
) -> (r: (CallInputs, DataView<DB>, DataView<DB>, End, GasView))
    requires
        EVMImpl::<'a, GSPEC, DB, I, INSPECT>::transacts(
            precompiles,
            before,
            told,
            after,
            result,
            state,
        ),
        before.prepare(GSPEC::id()).1 == Ok::<nat, Return>(left),
        before.env.tx.transact_to == TransactTo::Call(address),
    ensures
        ({
            let (inputs, begun, ran, end, gas) = r;
            let prepared = before.prepare(GSPEC::id()).0;
            let tx = before.env.tx;
            let caller = tx.caller@;
            let nonce = prepared.journal.accounts[caller].fields.nonce;
            &&& prepared.journal.accounts.contains_key(caller)
            &&& if nonce == u64::MAX {
                &&& result.exit_reason == Return::NonceOverflow
                &&& result.out is Nothing
                &&& result.gas_used == 0
                &&& result.gas_refunded == 0
                &&& result.logs@.len() == 0
                &&& told.len() == 0
                &&& after == prepared
                &&& forall|a: Seq<u8>| !#[trigger] state.contains_key(a)
            } else {
                &&& begun.env == prepared.env
                &&& begun.db == prepared.db
                &&& begun.error == prepared.error
                &&& only_account_changed(prepared.journal, begun.journal, caller)
                &&& begun.journal.accounts.contains_key(caller)
                &&& begun.journal.accounts[caller].fields == (AccountFieldsView {
                    nonce: (nonce + 1) as u64,
                    is_touched: true,
                    ..prepared.journal.accounts[caller].fields
                })
                &&& inputs.contract@ == address@
                &&& inputs.transfer.source@ == caller
                &&& inputs.transfer.target@ == address@
                &&& inputs.transfer.value@ == tx.value@
                &&& inputs.input@ == tx.data@
                &&& inputs.gas_limit == left
                &&& inputs.context.caller@ == caller
                &&& inputs.context.address@ == address@
                &&& inputs.context.code_address@ == address@
                &&& inputs.context.apparent_value@ == tx.value@
                &&& inputs.context.scheme == CallScheme::Call
                &&& makes_call::<DB, I>(
                    Rules { watched: INSPECT, precompiles, spec_id: GSPEC::id() },
                    frames_left(begun.journal.depth),
                    GSPEC::IS_STATIC_CALL,
                    begun,
                    inputs,
                    told,
                    ran,
                    end,
                )
                &&& ran.keeps(INSPECT, begun)
                &&& result.exit_reason == end.reason
                &&& result.out matches TransactOut::Call(bytes)
                &&& bytes@ == end.output
                &&& gas == gas_after_run(sold_gas(tx.gas_limit as nat), end.reason, end.gas)
                &&& gas.wf() ==> is_handed_over(
                    ran,
                    caller,
                    gas,
                    GSPEC::id(),
                    precompiles.dom(),
                    after,
                    result,
                    state,
                )
            }
        }),
{
    let prepared = before.prepare(GSPEC::id()).0;
    let tx = prepared.env.tx;
    let caller = tx.caller@;
    let rules = Rules { watched: INSPECT, precompiles, spec_id: GSPEC::id() };
    lemma_prepared(before, GSPEC::id());
    inc_nonce_raises(prepared.journal, caller);
    let (raised, nonce) = prepared.journal.inc_nonce(caller);
    let begun = prepared.with(raised);
    if nonce is None {
        (arbitrary(), begun, begun, arbitrary(), arbitrary())
    } else {
        let (inputs, ran, end) = choose|inputs: CallInputs, ran: DataView<DB>, end: End|
            {
                &&& is_call_of(tx, left, address, inputs)
                &&& #[trigger] makes_call::<DB, I>(
                    rules,
                    frames_left(raised.depth),
                    GSPEC::IS_STATIC_CALL,
                    begun,
                    inputs,
                    told,
                    ran,
                    end,
                )
                &&& ran.keeps(INSPECT, begun)
                &&& result.exit_reason == end.reason
                &&& result.out matches TransactOut::Call(bytes)
                &&& bytes@ == end.output
                &&& ran.finalizes(
                    tx.caller@,
                    gas_after_run(sold_gas(tx.gas_limit as nat), end.reason, end.gas),
                    GSPEC::id(),
                    precompiles.dom(),
                    after,
                    outcome(result, state),
                )
            };
        let gas = gas_after_run(sold_gas(tx.gas_limit as nat), end.reason, end.gas);
        if gas.wf() {
            outcome_is_handed_over(
                ran,
                caller,
                gas,
                GSPEC::id(),
                precompiles.dom(),
                after,
                result,
                state,
            );
        }
        (inputs, begun, ran, end, gas)
    }
}

/// The data of a transaction is the input of the code that it calls: where nobody watches and the
/// call of an address without precompile is let in, the code of that account runs with the data,
/// for the account, by the caller and with the value of the transaction, under the rules of its
/// fork, with the gas that is left. Returns what the machine was made for, and the machine.
pub proof fn transaction_data_reaches_the_code<'a, GSPEC: Spec, DB: Database, I: Interpreter>(
    precompiles: Map<Seq<u8>, revm_precompiles::Precompile>,
    before: DataView<DB>,
    told: Seq<Event<DB, I>>,
    after: DataView<DB>,
    result: ExecutionResult,
    state: Map<Seq<u8>, AccountView>,
    left: nat,
    address: H160,
) -> (r: (CallInputs, DataView<DB>, ContractView, I))
    requires
        EVMImpl::<'a, GSPEC, DB, I, false>::transacts(
            precompiles,
            before,
            told,
            after,
            result,
            state,
        ),
        before.prepare(GSPEC::id()).1 == Ok::<nat, Return>(left),
        before.env.tx.transact_to == TransactTo::Call(address),
        before.prepare(GSPEC::id()).0.journal.accounts[before.env.tx.caller@].fields.nonce
            < u64::MAX,
        !precompiles.contains_key(address@),
    ensures
        ({
            let (inputs, begun, contract, made) = r;
            let tx = before.env.tx;
            let coded = begun.code(address@).0.journal;
            begun.start_call(inputs).1 is Entered ==> {
                &&& contract.input == tx.data@
                &&& contract.address == address@
                &&& contract.caller == tx.caller@
                &&& contract.value == tx.value@
                &&& coded.accounts[address@].code == Some(contract.bytecode)
                &&& inputs.gas_limit == left
                &&& made.starts(
                    contract,
                    inputs.gas_limit,
                    GSPEC::id(),
                    GSPEC::IS_STATIC_CALL,
                )
            }
        }),
{
    let (inputs, begun, ran, end, gas) = transaction_makes_its_call::<GSPEC, DB, I, false>(
        precompiles,
        before,
        told,
        after,
        result,
        state,
        left,
        address,
    );
    let rules = Rules { watched: false, precompiles, spec_id: GSPEC::id() };
    let n = frames_left(begun.journal.depth);
    unwatched_call_is_made::<DB, I>(
        rules,
        n,
        GSPEC::IS_STATIC_CALL,
        begun,
        inputs,
        told,
        ran,
        end,
    );
    if begun.start_call(inputs).1 is Entered {
        let (contract, made, _, _) = call_runs_its_code::<DB, I>(
            rules,
            n,
            GSPEC::IS_STATIC_CALL,
            begun,
            inputs,
            told,
            ran,
            end,
        );
        (inputs, begun, contract, made)
    } else {
        (inputs, begun, arbitrary(), arbitrary())
    }
}

/// The data of a transaction is the init code of the contract that it creates: where nobody
/// watches and the create is let in, the data runs, with no input, for the new account, by the
/// caller and with the value of the transaction, under the rules of its fork, with the gas that is
/// left; and the new account is what the transaction hands over. Returns what the machine was made
/// for, and the machine.
pub proof fn transaction_data_is_the_init_code<'a, GSPEC: Spec, DB: Database, I: Interpreter>(
    precompiles: Map<Seq<u8>, revm_precompiles::Precompile>,
    before: DataView<DB>,
    told: Seq<Event<DB, I>>,
    after: DataView<DB>,
    result: ExecutionResult,
    state: Map<Seq<u8>, AccountView>,
    left: nat,
    scheme: CreateScheme,
) -> (r: (CreateInputs, ContractView, I))
    requires
        EVMImpl::<'a, GSPEC, DB, I, false>::transacts(
            precompiles,
            before,
            told,
            after,
            result,
            state,
        ),
        before.prepare(GSPEC::id()).1 == Ok::<nat, Return>(left),
        before.env.tx.transact_to == TransactTo::Create(scheme),
    ensures
        ({
            let (inputs, contract, made) = r;
            let tx = before.env.tx;
            let prepared = before.prepare(GSPEC::id()).0;
            let start = prepared.start_create(inputs, GSPEC::id(), precompiles.dom()).1;
            &&& inputs.scheme == scheme
            &&& start is Entered ==> {
                &&& contract.bytecode.bytes == tx.data@
                &&& contract.input.len() == 0
                &&& contract.address == start->created
                &&& contract.caller == tx.caller@
                &&& contract.value == tx.value@
                &&& inputs.gas_limit == left
                &&& made.starts(
                    contract,
                    inputs.gas_limit,
                    GSPEC::id(),
                    GSPEC::IS_STATIC_CALL,
                )
                &&& result.out matches TransactOut::Create(_, Some(address))
                &&& address@ == start->created
            }
        }),
{
    let prepared = before.prepare(GSPEC::id()).0;
    let (inputs, ran, created, end, gas) = transaction_makes_its_create::<GSPEC, DB, I, false>(
        precompiles,
        before,
        told,
        after,
        result,
        state,
        left,
        scheme,
    );
    let rules = Rules { watched: false, precompiles, spec_id: GSPEC::id() };
    let n = frames_left(prepared.journal.depth);
    let address = match created {
        Some(address) => Some(address@),
        None => None,
    };
    let announced = unwatched_create_is_made::<DB, I>(
        rules,
        n,
        GSPEC::IS_STATIC_CALL,
        prepared,
        inputs,
        told,
        ran,
        created,
        end,
    );
    if prepared.start_create(inputs, GSPEC::id(), precompiles.dom()).1 is Entered {
        let (contract, made, _, _, _) = create_runs_its_init_code::<DB, I>(
            rules,
            n,
            GSPEC::IS_STATIC_CALL,
            prepared,
            inputs,
            told,
            ran,
            announced,
            address,
            end,
        );
        (inputs, contract, made)
    } else {
        (inputs, arbitrary(), arbitrary())
    }
}

proof fn lemma_prepared<DB: Database>(before: DataView<DB>, spec_id: SpecId)
    requires
        before.prepare(spec_id).1 is Ok,
    ensures
        before.prepare(spec_id).0.env == before.env,
        before.prepare(spec_id).0.journal.accounts.contains_key(before.env.tx.caller@),
{
    let warm = before.initialize(spec_id).0;
    load_account_extends(warm.world(), before.env.tx.caller@);
}

/// A transaction that is let in and asks for a create: the create is made that it asks for, by its
/// caller, with its value, its data for init code, and the gas that is left, under the rules of its
/// fork. What the create comes back with, and the address, is what the transaction returns, and its
/// gas is settled for what the run left. Returns the create, where it ends, the address, how it
/// ends, and the gas.
pub proof fn transaction_makes_its_create<
    'a,
    GSPEC: Spec,
    DB: Database,
    I: Interpreter,
    const INSPECT: bool,
>(
    precompiles: Map<Seq<u8>, revm_precompiles::Precompile>,
    before: DataView<DB>,
    told: Seq<Event<DB, I>>,
    after: DataView<DB>,
    result: ExecutionResult,
    state: Map<Seq<u8>, AccountView>,
    left: nat,
    scheme: CreateScheme,
) -> (r: (CreateInputs, DataView<DB>, Option<H160>, End, GasView))
    requires
        EVMImpl::<'a, GSPEC, DB, I, INSPECT>::transacts(
            precompiles,
            before,
            told,
            after,
            result,
            state,
        ),
        before.prepare(GSPEC::id()).1 == Ok::<nat, Return>(left),
        before.env.tx.transact_to == TransactTo::Create(scheme),
    ensures
        ({
            let (inputs, ran, created, end, gas) = r;
            let prepared = before.prepare(GSPEC::id()).0;
            let tx = before.env.tx;
            &&& inputs.caller@ == tx.caller@
            &&& inputs.scheme == scheme
            &&& inputs.value@ == tx.value@
            &&& inputs.init_code@ == tx.data@
            &&& inputs.gas_limit == left
            &&& makes_create::<DB, I>(
                Rules { watched: INSPECT, precompiles, spec_id: GSPEC::id() },
                frames_left(prepared.journal.depth),
                GSPEC::IS_STATIC_CALL,
                prepared,
                inputs,
                told,
                ran,
                created,
                end,
            )
            &&& ran.keeps(INSPECT, prepared)
            &&& result.exit_reason == end.reason
            &&& result.out matches TransactOut::Create(bytes, address)
            &&& bytes@ == end.output
            &&& address == created
            &&& gas == gas_after_run(sold_gas(tx.gas_limit as nat), end.reason, end.gas)
            &&& gas.wf() ==> is_handed_over(
                ran,
                tx.caller@,
                gas,
                GSPEC::id(),
                precompiles.dom(),
                after,
                result,
                state,
            )
        }),
{
    let prepared = before.prepare(GSPEC::id()).0;
    let tx = prepared.env.tx;
    let rules = Rules { watched: INSPECT, precompiles, spec_id: GSPEC::id() };
    lemma_prepared(before, GSPEC::id());
    let (inputs, ran, created, end) = choose|
        inputs: CreateInputs,
        ran: DataView<DB>,
        created: Option<H160>,
        end: End,
    |
        {
            &&& is_create_of(tx, left, scheme, inputs)
            &&& #[trigger] makes_create::<DB, I>(
                rules,
                frames_left(prepared.journal.depth),
                GSPEC::IS_STATIC_CALL,
                prepared,
                inputs,
                told,
                ran,
                created,
                end,
            )
            &&& ran.keeps(INSPECT, prepared)
            &&& result.exit_reason == end.reason
            &&& result.out matches TransactOut::Create(bytes, address)
            &&& bytes@ == end.output
            &&& address == created
            &&& ran.finalizes(
                tx.caller@,
                gas_after_run(sold_gas(tx.gas_limit as nat), end.reason, end.gas),
                GSPEC::id(),
                precompiles.dom(),
                after,
                outcome(result, state),
            )
        };
    let gas = gas_after_run(sold_gas(tx.gas_limit as nat), end.reason, end.gas);
    if gas.wf() {
        outcome_is_handed_over(
            ran,
            tx.caller@,
            gas,
            GSPEC::id(),
            precompiles.dom(),
            after,
            result,
            state,
        );
    }
    (inputs, ran, created, end, gas)
}

/// A slot that was brought from the database: the same before the transaction and now, zero for a
/// new contract.
pub open spec fn slot_is_new_here<DB: Database>(
    address: Seq<u8>,
    fields: AccountFieldsView,
    index: nat,
    slot: StorageSlotView,
) -> bool {
    &&& slot.original_value == slot.present_value
    &&& if fields.storage_cleared {
        slot.present_value == 0
    } else {
        exists|db: DB|
            (#[trigger] db.answer_storage(address, index)).0 == Ok::<nat, DB::Error>(
                slot.present_value,
            )
    }
}

/// The account is as it was, but that slots may have been brought.
pub open spec fn slots_brought<DB: Database>(
    address: Seq<u8>,
    had: AccountView,
    has: AccountView,
) -> bool {
    &&& has.fields == had.fields
    &&& has.code == had.code
    &&& forall|index: nat|
        #![trigger has.storage.contains_key(index)]
        #![trigger had.storage.contains_key(index)]
        {
            &&& had.storage.contains_key(index) ==> has.storage.contains_key(index)
                && has.storage[index] == had.storage[index]
            &&& has.storage.contains_key(index) && !had.storage.contains_key(index)
                ==> slot_is_new_here::<DB>(address, had.fields, index, has.storage[index])
        }
}

proof fn lemma_slots_in_steps<DB: Database>(
    address: Seq<u8>,
    a: AccountView,
    b: AccountView,
    c: AccountView,
)
    requires
        slots_brought::<DB>(address, a, b),
        slots_brought::<DB>(address, b, c),
    ensures
        slots_brought::<DB>(address, a, c),
{
    assert forall|index: nat|
        #![trigger c.storage.contains_key(index)]
        #![trigger a.storage.contains_key(index)]
        {
            &&& a.storage.contains_key(index) ==> c.storage.contains_key(index) && c.storage[index]
                == a.storage[index]
            &&& c.storage.contains_key(index) && !a.storage.contains_key(index)
                ==> slot_is_new_here::<DB>(address, a.fields, index, c.storage[index])
        } by {
        assert(b.storage.contains_key(index) || !b.storage.contains_key(index));
    }
}

proof fn lemma_warm_slots_bring<DB: Database>(w: World<DB>, address: Seq<u8>, slots: Seq<U256>)
    requires
        w.journal.accounts.contains_key(address),
    ensures
        ({
            let after = w.warm_slots(address, slots).journal;
            &&& only_account_changed(w.journal, after, address)
            &&& after.accounts.contains_key(address)
            &&& slots_brought::<DB>(
                address,
                w.journal.accounts[address],
                after.accounts[address],
            )
        }),
    decreases slots.len(),
{
    if slots.len() > 0 {
        let before = w.warm_slots(address, slots.drop_last());
        lemma_warm_slots_bring(w, address, slots.drop_last());
        let after = before.sload(address, slots.last()@).0;
        let had = before.journal.accounts[address];
        let has = after.journal.accounts[address];
        assert(slots_brought::<DB>(address, had, has));
        assert(only_account_changed(before.journal, after.journal, address));
        lemma_slots_in_steps::<DB>(address, w.journal.accounts[address], had, has);
    }
}

/// Going through an access list brings accounts and slots from the database, of those in the list,
/// and does nothing else: what was loaded before is as it was, and so are the logs and the depth.
pub proof fn access_list_only_brings<DB: Database>(
    w: World<DB>,
    list: Seq<(H160, Vec<U256>)>,
    a: Seq<u8>,
)
    ensures
        ({
            let after = w.warm_list(list).journal;
            &&& after.logs == w.journal.logs
            &&& after.depth == w.journal.depth
            &&& after.is_before_spurious_dragon == w.journal.is_before_spurious_dragon
            &&& after.num_of_precompiles == w.journal.num_of_precompiles
            &&& w.journal.accounts.contains_key(a) ==> after.accounts.contains_key(a)
                && slots_brought::<DB>(a, w.journal.accounts[a], after.accounts[a])
            &&& after.accounts.contains_key(a) && !w.journal.accounts.contains_key(a) ==> {
                &&& exists|i: int| 0 <= i < list.len() && (#[trigger] list[i]).0@ == a
                &&& exists|first: AccountView| #[trigger]
                    is_answered::<DB>(a, first) && slots_brought::<DB>(
                        a,
                        first,
                        after.accounts[a],
                    )
            }
        }),
    decreases list.len(),
{
    if list.len() > 0 {
        let shorter = list.drop_last();
        let before = w.warm_list(shorter);
        let (address, slots) = list.last();
        let (loaded, r) = before.load_account(address@);
        access_list_only_brings(w, shorter, a);
        load_account_brings(before, address@);
        let after = w.warm_list(list).journal;
        if r is Ok {
            lemma_warm_slots_bring(loaded, address@, slots@);
            if loaded.journal.accounts.contains_key(a) && a != address@ {
                assert(after.accounts.contains_key(a));
                assert(after.accounts[a] == loaded.journal.accounts[a]);
            }
        }
        if before.journal.accounts.contains_key(a) {
            assert(loaded.journal.accounts.contains_key(a));
            assert(loaded.journal.accounts[a] == before.journal.accounts[a]);
            let (x, y) = (before.journal.accounts[a], after.accounts[a]);
            assert(slots_brought::<DB>(a, x, y));
            if w.journal.accounts.contains_key(a) {
                lemma_slots_in_steps::<DB>(a, w.journal.accounts[a], x, y);
            } else {
                let i = choose|i: int| 0 <= i < shorter.len() && (#[trigger] shorter[i]).0@ == a;
                assert(list[i].0@ == a);
                let first = choose|first: AccountView| #[trigger]
                    is_answered::<DB>(a, first) && slots_brought::<DB>(a, first, x);
                lemma_slots_in_steps::<DB>(a, first, x, y);
            }
        } else if after.accounts.contains_key(a) {
            assert(loaded.journal.accounts.contains_key(a));
            assert(a == address@);
            assert(list[list.len() - 1].0@ == a);
            let first = loaded.journal.accounts[a];
            assert(is_answered::<DB>(a, first)) by {
                let info = before.db.answer_basic(a).0->Ok_0;
                assert(known_as(info, first));
            }
        }
    }
}

} // verus!
