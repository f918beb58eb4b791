//! Transactions.
use crate::data::DataView;
use crate::db::Database;
use crate::evm_impl::{EVMImpl, Transact};
use crate::frames_model::End;
use crate::gas::{Gas, ACCESS_LIST_ADDRESS, ACCESS_LIST_STORAGE_KEY, TRANSACTION_ZERO_DATA, USE_GAS};
use crate::inspector::{never_steps_in, tells, tells_nothing, Event};
use crate::interpreter::Interpreter;
use crate::journal_laws::{load_account_extends, loaded_stays_loaded, sload_extends};
use crate::models::{
    copy_bytes, log_views, CallContext, CallInputs, CallScheme, CreateInputs, ExecutionResult, Log,
    Return, TransactOut, TransactTo, Transfer,
};
use crate::precompiles::precompiles_addresses;
use crate::primitives::{
    u256_bounded, u256_checked_add, u256_checked_mul, u256_checked_sub, u256_lt,
    u256_saturating_sub, H160, U256,
};
use crate::run_model::{frames_left, makes_call, makes_create, Rules};
use crate::spec_id::{Spec, SpecId};
use crate::state::{lists, AccountView, State};
use crate::transact_model::{
    add_known_balances, bill, clamp_gas, gas_after_run, is_call_of, is_create_of, listed_slots,
    outcome, sold_gas, zero_bytes, Outcome,
};
use crate::watch_laws::{quiet_inspector_stays_quiet, quiet_transaction_is_unwatched};
use vstd::prelude::*;

verus! {

/// How many zero bytes there are.
fn count_zero_bytes(data: &Vec<u8>) -> (r: usize)
    ensures
        r == zero_bytes(data@),
        r <= data@.len(),
{
    let mut zeros: usize = 0;
    let mut i: usize = 0;
    while i < data.len()
        invariant
            i <= data@.len(),
            zeros <= i,
            zeros == zero_bytes(data@.take(i as int)),
        decreases data@.len() - i,
    {
        assert(data@.take(i + 1).drop_last() =~= data@.take(i as int));
        if data[i] == 0 {
            zeros += 1;
        }
        i += 1;
    }
    assert(data@.take(i as int) =~= data@);
    zeros
}

impl<'a, GSPEC: Spec, DB: Database, I: Interpreter, const INSPECT: bool> EVMImpl<
    'a,
    GSPEC,
    DB,
    I,
    INSPECT,
> {
    /// Loads the slots of an entry of the access list.
    fn warm_slots(&mut self, address: H160, i: usize)
        requires
            i < old(self)@.data.env.tx.access_list@.len(),
            old(self)@.data.journal.has(address@),
        ensures
            final(self)@.data == old(self)@.data.put(
                old(self)@.data.world().warm_slots(
                    address@,
                    old(self)@.data.env.tx.access_list@[i as int].1@,
                ),
            ),
            final(self)@.precompiles == old(self)@.precompiles,
            final(self)@.inspector == old(self)@.inspector,
    {
        let ghost before = self@;
        let ghost slots = before.data.env.tx.access_list@[i as int].1@;
        let mut n: usize = 0;
        while n < self.data.env.tx.access_list[i].1.len()
            invariant
                before == old(self)@,
                slots == before.data.env.tx.access_list@[i as int].1@,
                i < before.data.env.tx.access_list@.len(),
                n <= slots.len(),
                self@.data == before.data.put(
                    before.data.world().warm_slots(address@, slots.take(n as int)),
                ),
                self@.data.journal.has(address@),
                self@.precompiles == before.precompiles,
                self@.inspector == before.inspector,
            decreases slots.len() - n,
        {
            let slot = self.data.env.tx.access_list[i].1[n];
            let ghost here = self@.data;
            proof {
                sload_extends(here.world(), address@, slot@);
                loaded_stays_loaded(
                    here.world().sload(address@, slot@).0.journal,
                    here.journal,
                    address@,
                );
                assert(slots.take(n + 1).drop_last() =~= slots.take(n as int));
            }
            let _ = self.data.journaled_state.sload(address, slot, self.data.db);
            n += 1;
        }
        assert(slots.take(n as int) =~= slots);
    }

    /// Loads the accounts and slots of the access list, and returns how many slots there are.
    fn warm_list(&mut self) -> (r: u64)
        ensures
            final(self)@.data == old(self)@.data.put(
                old(self)@.data.world().warm_list(old(self)@.data.env.tx.access_list@),
            ),
            final(self)@.precompiles == old(self)@.precompiles,
            final(self)@.inspector == old(self)@.inspector,
            r == clamp_gas(listed_slots(old(self)@.data.env.tx.access_list@)),
    {
        let ghost before = self@;
        let ghost list = before.data.env.tx.access_list@;
        let mut slots: u64 = 0;
        let mut i: usize = 0;
        while i < self.data.env.tx.access_list.len()
            invariant
                before == old(self)@,
                list == before.data.env.tx.access_list@,
                i <= list.len(),
                self@.data == before.data.put(before.data.world().warm_list(list.take(i as int))),
                self@.precompiles == before.precompiles,
                self@.inspector == before.inspector,
                slots == clamp_gas(listed_slots(list.take(i as int))),
            decreases list.len() - i,
        {
            let address = self.data.env.tx.access_list[i].0;
            let ghost here = self@.data;
            proof {
                load_account_extends(here.world(), address@);
                assert(list.take(i + 1).drop_last() =~= list.take(i as int));
            }
            slots = slots.saturating_add(self.data.env.tx.access_list[i].1.len() as u64);
            if self.data.journaled_state.load_account(address, self.data.db).is_ok() {
                self.warm_slots(address, i);
            }
            i += 1;
        }
        assert(list.take(i as int) =~= list);
        slots
    }

    /// What the transaction costs before anything is run.
    fn initialization<SPEC: Spec>(&mut self) -> (r: u64)
        ensures
            (final(self)@.data, r as nat) == old(self)@.data.initialize(SPEC::id()),
            final(self)@.precompiles == old(self)@.precompiles,
            final(self)@.inspector == old(self)@.inspector,
    {
        let is_create = matches!(self.data.env.tx.transact_to, TransactTo::Create(_));
        if USE_GAS {
            let ghost env = self@.data.env;
            let data_len: usize = self.data.env.tx.data.len();
            let zero_data_len: usize = count_zero_bytes(&self.data.env.tx.data);
            let non_zero_data_len: usize = data_len - zero_data_len;
            let (accessed_accounts, accessed_slots): (usize, u64) = if SPEC::enabled(
                SpecId::BERLIN,
            ) {
                let slots = self.warm_list();
                (self.data.env.tx.access_list.len(), slots)
            } else {
                (0, 0)
            };
            let transact: u128 = if is_create && SPEC::enabled(SpecId::HOMESTEAD) {
                // EIP-2: Homestead Hard-fork Changes
                53000
            } else {
                21000
            };
            // EIP-2028: Transaction data gas cost reduction
            let gas_transaction_non_zero_data: u128 = if SPEC::enabled(SpecId::ISTANBUL) {
                16
            } else {
                68
            };
            let cost: u128 = transact + zero_data_len as u128 * TRANSACTION_ZERO_DATA as u128
                + non_zero_data_len as u128 * gas_transaction_non_zero_data
                + accessed_accounts as u128 * ACCESS_LIST_ADDRESS as u128 + accessed_slots as u128
                * ACCESS_LIST_STORAGE_KEY as u128;
            if cost <= u64::MAX as u128 {
                cost as u64
            } else {
                u64::MAX
            }
        } else {
            0
        }
    }

    /// Loads the caller, and has it pay for the gas of the transaction.
    fn buy_gas(&mut self) -> (r: Result<(), Return>)
        ensures
            (final(self)@.data, r) == old(self)@.data.buy_gas(),
            final(self)@.precompiles == old(self)@.precompiles,
            final(self)@.inspector == old(self)@.inspector,
            r is Ok ==> final(self)@.data.journal.has(old(self)@.data.env.tx.caller@),
    {
        let caller = self.data.env.tx.caller;
        let price = self.data.env.effective_gas_price();
        proof {
            load_account_extends(self.data@.world(), caller@);
        }
        // load acc
        if self.data.journaled_state.load_account(caller, self.data.db).is_err() {
            return Err(Return::FatalExternalError);
        }
        let mut balance = U256::zero();
        if let Some(account) = self.data.journaled_state.account(&caller) {
            balance = account.info.balance;
        }
        // substract gas_limit*gas_price from current account.
        match u256_checked_mul(U256::from_u64(self.data.env.tx.gas_limit), price) {
            Some(payment_value) => match u256_checked_sub(balance, payment_value) {
                Some(left) => {
                    balance = left;
                    self.data.journaled_state.set_balance(caller, left);
                },
                None => return Err(Return::LackOfFundForGasLimit),
            },
            None => return Err(Return::OverflowPayment),
        }
        // check if we have enought balance for value transfer.
        let difference = u256_saturating_sub(self.data.env.tx.gas_price, price);
        match u256_checked_add(difference, self.data.env.tx.value) {
            Some(sum) if !u256_lt(&balance, &sum) => Ok(()),
            _ => {
                proof {
                    u256_bounded(balance);
                }
                Err(Return::OutOfFund)
            },
        }
    }

    /// All that is checked and paid before anything is run; returns the gas that is left for it.
    fn prepare(&mut self) -> (r: Result<u64, Return>)
        ensures
            final(self)@.data == old(self)@.data.prepare(GSPEC::id()).0,
            match r {
                Ok(left) => old(self)@.data.prepare(GSPEC::id()).1 == Ok::<nat, Return>(
                    left as nat,
                ),
                Err(reason) => old(self)@.data.prepare(GSPEC::id()).1 == Err::<nat, Return>(reason),
            },
            final(self)@.precompiles == old(self)@.precompiles,
            final(self)@.inspector == old(self)@.inspector,
            r is Ok ==> final(self)@.data.journal.has(old(self)@.data.env.tx.caller@),
    {
        let gas_limit = self.data.env.tx.gas_limit;
        if GSPEC::enabled(SpecId::LONDON) {
            if let Some(priority_fee) = self.data.env.tx.gas_priority_fee {
                if u256_lt(&self.data.env.tx.gas_price, &priority_fee) {
                    // or gas_max_fee for eip1559
                    return Err(Return::GasMaxFeeGreaterThanPriorityFee);
                }
            }
            // check minimal cost against basefee
            if u256_lt(&self.data.env.effective_gas_price(), &self.data.env.block.basefee) {
                return Err(Return::GasPriceLessThenBasefee);
            }
        }
        // unusual to be found here, but check if gas_limit is more then block_gas_limit
        if u256_lt(&self.data.env.block.gas_limit, &U256::from_u64(gas_limit)) {
            return Err(Return::CallerGasLimitMoreThenBlock);
        }
        let mut gas = Gas::new(gas_limit);
        // record initial gas cost. if not using gas metering init will return 0
        if !gas.record_cost(self.initialization::<GSPEC>()) {
            return Err(Return::OutOfGas);
        }
        match self.buy_gas() {
            Ok(_) => Ok(gas.remaining()),
            Err(reason) => Err(reason),
        }
    }

    /// Settles the gas of a transaction, and returns how much was used and how much refunded.
    fn settle_gas<SPEC: Spec>(&mut self, caller: H160, gas: &Gas) -> (r: (u64, u64))
        ensures
            final(self)@.data == old(self)@.data.settle_gas(caller@, gas@, SPEC::id()),
            final(self)@.precompiles == old(self)@.precompiles,
            final(self)@.inspector == old(self)@.inspector,
            r.0 == bill(gas@, SPEC::id()).used,
            r.1 == bill(gas@, SPEC::id()).refunded,
    {
        let coinbase = self.data.env.block.coinbase;
        if USE_GAS {
            let effective_gas_price = self.data.env.effective_gas_price();
            let basefee = self.data.env.block.basefee;
            // EIP-3529: Reduction in refunds
            let max_refund_quotient: u64 = if SPEC::enabled(SpecId::LONDON) {
                5
            } else {
                2
            };
            let earned: i64 = gas.refunded();
            assert(earned as u64 == if earned >= 0 {
                earned as int
            } else {
                earned + 0x1_0000_0000_0000_0000
            }) by (bit_vector);
            let earned: u64 = earned as u64;
            let most: u64 = gas.spend() / max_refund_quotient;
            let gas_refunded: u64 = if earned <= most {
                earned
            } else {
                most
            };
            self.credit(
                caller,
                effective_gas_price.saturating_mul(
                    U256::from_u64(gas.remaining() + gas_refunded),
                ),
            );
            // EIP-1559
            let coinbase_gas_price = if SPEC::enabled(SpecId::LONDON) {
                u256_saturating_sub(effective_gas_price, basefee)
            } else {
                effective_gas_price
            };
            let _ = self.data.journaled_state.load_account(coinbase, self.data.db);
            self.data.journaled_state.touch(&coinbase);
            self.credit(
                coinbase,
                coinbase_gas_price.saturating_mul(U256::from_u64(gas.spend() - gas_refunded)),
            );
            (gas.spend() - gas_refunded, gas_refunded)
        } else {
            // touch coinbase
            let _ = self.data.journaled_state.load_account(coinbase, self.data.db);
            self.data.journaled_state.touch(&coinbase);
            (0, 0)
        }
    }

    /// Adds to the balance of an account, where it is loaded.
    fn credit(&mut self, address: H160, amount: U256)
        ensures
            final(self)@.data == old(self)@.data.with(
                old(self)@.data.journal.credit(address@, amount@),
            ),
            final(self)@.precompiles == old(self)@.precompiles,
            final(self)@.inspector == old(self)@.inspector,
    {
        proof {
            u256_bounded(amount);
        }
        if let Some(account) = self.data.journaled_state.account(&address) {
            let balance = account.info.balance.saturating_add(amount);
            self.data.journaled_state.set_balance(address, balance);
        }
    }

    /// The end of a transaction: gas is settled, and the touched accounts and the logs are handed
    /// over.
    fn finalize<SPEC: Spec>(&mut self, caller: H160, gas: &Gas) -> (r: (State, Vec<Log>, u64, u64))
        ensures
            old(self)@.data.finalizes(
                caller@,
                gas@,
                SPEC::id(),
                old(self)@.precompiles.dom(),
                final(self)@.data,
                Outcome {
                    state: r.0@,
                    logs: log_views(r.1@),
                    gas_used: r.2 as nat,
                    gas_refunded: r.3 as nat,
                },
            ),
            final(self)@.precompiles == old(self)@.precompiles,
            final(self)@.inspector == old(self)@.inspector,
    {
        let (gas_used, gas_refunded) = self.settle_gas::<SPEC>(caller, gas);
        let ghost settled = self@;
        let (mut new_state, logs) = self.data.journaled_state.finalize();
        // precompiles are special case. If there is precompiles in finalized Map that means some
        // balance is added to it, we need now to load precompile address from db and add this
        // amount to it so that we will have sum.
        if self.data.env.cfg.perf_all_precompiles_have_balance {
            let addresses = precompiles_addresses(&self.precompiles);
            let ghost order = addresses@;
            let ghost touched = new_state@;
            assert(lists(order, settled.precompiles.dom()));
            let mut i: usize = 0;
            while i < addresses.len()
                invariant
                    i <= order.len(),
                    order == addresses@,
                    self@.precompiles == settled.precompiles,
                    self@.inspector == settled.inspector,
                    (self@.data, new_state@) == ({
                        let (db, state) = add_known_balances(
                            settled.data.db,
                            touched,
                            order.take(i as int),
                        );
                        (DataView { db, ..settled.data.emptied() }, state)
                    }),
                decreases order.len() - i,
            {
                let address = addresses[i];
                assert(order.take(i + 1).drop_last() =~= order.take(i as int));
                if let Some(precompile) = new_state.get_mut(&address) {
                    // we found it.
                    let known = match self.data.db.basic(address) {
                        Ok(Some(info)) => info.balance,
                        _ => U256::zero(),
                    };
                    precompile.info.balance = precompile.info.balance.saturating_add(known);
                }
                i += 1;
            }
            assert(order.take(i as int) =~= order);
        }
        (new_state, logs, gas_used, gas_refunded)
    }
}

impl<'a, GSPEC: Spec, DB: Database, I: Interpreter, const INSPECT: bool> EVMImpl<
    'a,
    GSPEC,
    DB,
    I,
    INSPECT,
> {
    /// What the calls and creates of a transaction go by.
    pub open spec fn transaction_rules(
        precompiles: Map<Seq<u8>, revm_precompiles::Precompile>,
    ) -> Rules {
        Rules { watched: INSPECT, precompiles, spec_id: GSPEC::id() }
    }

    /// A transaction that was let in and paid for, with `left` of its gas left: the call or create
    /// is made, and the transaction ends as it did. A call whose caller has the highest nonce is
    /// refused. The inspector is told `told`.
    pub open spec fn carries_out(
        precompiles: Map<Seq<u8>, revm_precompiles::Precompile>,
        prepared: DataView<DB>,
        left: nat,
        told: Seq<Event<DB, I>>,
        after: DataView<DB>,
        result: ExecutionResult,
        state: Map<Seq<u8>, AccountView>,
    ) -> bool {
        let tx = prepared.env.tx;
        let (raised, nonce) = prepared.journal.inc_nonce(tx.caller@);
        match tx.transact_to {
            TransactTo::Call(address) => if nonce is None {
                &&& result.is_refusal(Return::NonceOverflow)
                &&& state == Map::<Seq<u8>, AccountView>::empty()
                &&& told == Seq::<Event<DB, I>>::empty()
                &&& after == prepared
            } else {
                exists|inputs: CallInputs, ran: DataView<DB>, end: End|
                    {
                        &&& is_call_of(tx, left, address, inputs)
                        &&& #[trigger] makes_call::<DB, I>(
                            Self::transaction_rules(precompiles),
                            frames_left(raised.depth),
                            GSPEC::IS_STATIC_CALL,
                            prepared.with(raised),
                            inputs,
                            told,
                            ran,
                            end,
                        )
                        &&& ran.keeps(INSPECT, prepared.with(raised))
                        &&& result.exit_reason == end.reason
                        &&& result.out matches TransactOut::Call(bytes)
                        &&& bytes@ == end.output
                        &&& ran.finalizes(
                            tx.caller@,
                            gas_after_run(sold_gas(tx.gas_limit as nat), end.reason, end.gas),
                            GSPEC::id(),
                            precompiles.dom(),
                            after,
                            outcome(result, state),
                        )
                    }
            },
            TransactTo::Create(scheme) => exists|
                inputs: CreateInputs,
                ran: DataView<DB>,
                created: Option<H160>,
                end: End,
            |
                {
                    &&& is_create_of(tx, left, scheme, inputs)
                    &&& #[trigger] makes_create::<DB, I>(
                        Self::transaction_rules(precompiles),
                        frames_left(prepared.journal.depth),
                        GSPEC::IS_STATIC_CALL,
                        prepared,
                        inputs,
                        told,
                        ran,
                        created,
                        end,
                    )
                    &&& ran.keeps(INSPECT, prepared)
                    &&& result.exit_reason == end.reason
                    &&& result.out matches TransactOut::Create(bytes, address)
                    &&& bytes@ == end.output
                    &&& address == created
                    &&& ran.finalizes(
                        tx.caller@,
                        gas_after_run(sold_gas(tx.gas_limit as nat), end.reason, end.gas),
                        GSPEC::id(),
                        precompiles.dom(),
                        after,
                        outcome(result, state),
                    )
                },
        }
    }

    /// A transaction as a whole: it is let in and paid for, and then carried out; or it is refused,
    /// with nothing to hand over and without the inspector hearing of it.
    pub open spec fn transacts(
        precompiles: Map<Seq<u8>, revm_precompiles::Precompile>,
        before: DataView<DB>,
        told: Seq<Event<DB, I>>,
        after: DataView<DB>,
        result: ExecutionResult,
        state: Map<Seq<u8>, AccountView>,
    ) -> bool {
        let (prepared, left) = before.prepare(GSPEC::id());
        match left {
            Err(reason) => {
                &&& result.is_refusal(reason)
                &&& state == Map::<Seq<u8>, AccountView>::empty()
                &&& told == Seq::<Event<DB, I>>::empty()
                &&& after == prepared
            },
            Ok(left) => Self::carries_out(precompiles, prepared, left, told, after, result, state),
        }
    }
}

impl<'a, GSPEC: Spec, DB: Database, I: Interpreter, const INSPECT: bool> Transact for EVMImpl<
    'a,
    GSPEC,
    DB,
    I,
    INSPECT,
> {
    fn transact(&mut self) -> (r: (ExecutionResult, State))
        ensures
            exists|told: Seq<Event<DB, I>>| #[trigger]
                tells(old(self)@.inspector, told, final(self)@.inspector) && Self::transacts(
                    old(self)@.precompiles,
                    old(self)@.data,
                    told,
                    final(self)@.data,
                    r.0,
                    r.1@,
                ),
            !INSPECT ==> final(self)@.inspector == old(self)@.inspector,
            INSPECT && never_steps_in(old(self)@.inspector) ==> {
                &&& never_steps_in(final(self)@.inspector)
                &&& EVMImpl::<'a, GSPEC, DB, I, false>::transacts(
                    old(self)@.precompiles,
                    old(self)@.data,
                    Seq::empty(),
                    final(self)@.data,
                    r.0,
                    r.1@,
                )
            },
            final(self)@.precompiles == old(self)@.precompiles,
    {
        let caller = self.data.env.tx.caller;
        let value = self.data.env.tx.value;
        let data = copy_bytes(&self.data.env.tx.data);
        let mut gas = Gas::new(self.data.env.tx.gas_limit);
        let ghost tx = self@.data.env.tx;
        let gas_limit: u64 = match self.prepare() {
            Ok(left) => left,
            Err(reason) => {
                proof {
                    tells_nothing(self@.inspector);
                }
                return (ExecutionResult::new_with_reason(reason), State::new());
            },
        };
        let ghost prepared = self@;
        assert(prepared.data.env.tx == tx);
        // record all as cost;
        if USE_GAS {
            let all: u64 = gas.remaining();
            gas.record_cost(all);
        }
        assert(gas@ == sold_gas(tx.gas_limit as nat));
        // call inner handling of call/create
        let (exit_reason, ret_gas, out, told) = match self.data.env.tx.transact_to {
            TransactTo::Call(address) => {
                if self.data.journaled_state.inc_nonce(caller).is_none() {
                    // overflow
                    proof {
                        tells_nothing(self@.inspector);
                    }
                    return (ExecutionResult::new_with_reason(Return::NonceOverflow), State::new());
                }
                let context = CallContext {
                    caller,
                    address,
                    code_address: address,
                    apparent_value: value,
                    scheme: CallScheme::Call,
                };
                let mut call_input = CallInputs {
                    contract: address,
                    transfer: Transfer { source: caller, target: address, value },
                    input: data,
                    gas_limit,
                    context,
                };
                let (exit, gas, bytes, told) = self.call_inner::<GSPEC>(
                    &mut call_input,
                    GSPEC::IS_STATIC_CALL,
                );
                (exit, gas, TransactOut::Call(bytes), told)
            },
            TransactTo::Create(scheme) => {
                let mut create_input = CreateInputs {
                    caller,
                    scheme,
                    value,
                    init_code: data,
                    gas_limit,
                };
                let (exit, address, ret_gas, bytes, told) = self.create_inner::<GSPEC>(
                    &mut create_input,
                    GSPEC::IS_STATIC_CALL,
                );
                (exit, ret_gas, TransactOut::Create(bytes, address), told)
            },
        };
        if USE_GAS {
            if exit_reason.is_ok() {
                gas.erase_cost(ret_gas.remaining());
                gas.record_refund(ret_gas.refunded());
            } else if exit_reason.is_revert() {
                gas.erase_cost(ret_gas.remaining());
            }
        }
        assert(gas@ == gas_after_run(sold_gas(tx.gas_limit as nat), exit_reason, ret_gas@));
        let (state, logs, gas_used, gas_refunded) = self.finalize::<GSPEC>(caller, &gas);
        let result = ExecutionResult { exit_reason, out, gas_used, gas_refunded, logs };
        proof {
            assert(tells(old(self)@.inspector, told@, self@.inspector));
            if INSPECT && never_steps_in(old(self)@.inspector) {
                quiet_inspector_stays_quiet(old(self)@.inspector, told@, self@.inspector);
                quiet_transaction_is_unwatched::<GSPEC, DB, I>(
                    old(self)@.precompiles,
                    old(self)@.data,
                    told@,
                    self@.data,
                    result,
                    state@,
                );
            }
        }
        (result, state)
    }
}

} // verus!
