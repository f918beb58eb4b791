//! A transaction as a mathematical object: what is checked and paid before it, and what is settled
//! after it.
use crate::data::DataView;
use crate::db::Database;
use crate::gas::{
    GasView, ACCESS_LIST_ADDRESS, ACCESS_LIST_STORAGE_KEY, TRANSACTION_ZERO_DATA, USE_GAS,
};
use crate::journal_model::{JournalView, World};
use crate::models::{
    log_views, AccountInfoView, CallContext, CallInputs, CallScheme, CreateInputs, CreateScheme, Env,
    ExecutionResult, LogView, Return, Transfer, TxEnv,
};
use crate::primitives::{u256_clamp, u256_max, H160, U256};
use crate::spec_id::SpecId;
use crate::state::{lists, touched_accounts, AccountFieldsView, AccountView};
use vstd::prelude::*;

verus! {

/// How many zero bytes there are.
pub open spec fn zero_bytes(data: Seq<u8>) -> nat
    decreases data.len(),
{
    if data.len() == 0 {
        0
    } else {
        zero_bytes(data.drop_last()) + if data.last() == 0 {
            1nat
        } else {
            0nat
        }
    }
}

/// How many slots an access list has.
pub open spec fn listed_slots(list: Seq<(H160, Vec<U256>)>) -> nat
    decreases list.len(),
{
    if list.len() == 0 {
        0
    } else {
        listed_slots(list.drop_last()) + list.last().1@.len()
    }
}

/// What a transaction costs before anything is run.
pub open spec fn intrinsic_gas(env: Env, spec_id: SpecId) -> nat {
    let base: nat = if env.tx.transact_to is Create && spec_id.includes(SpecId::HOMESTEAD) {
        53000
    } else {
        21000
    };
    let zeros = zero_bytes(env.tx.data@);
    let non_zero_price: nat = if spec_id.includes(SpecId::ISTANBUL) {
        16
    } else {
        68
    };
    let list = if spec_id.includes(SpecId::BERLIN) {
        env.tx.access_list@
    } else {
        Seq::empty()
    };
    base + zeros * TRANSACTION_ZERO_DATA as nat + (env.tx.data@.len() - zeros) as nat
        * non_zero_price + list.len() * ACCESS_LIST_ADDRESS as nat + listed_slots(list)
        * ACCESS_LIST_STORAGE_KEY as nat
}

/// A cost as the machine counts it.
pub open spec fn clamp_gas(cost: nat) -> nat {
    if cost <= u64::MAX {
        cost
    } else {
        u64::MAX as nat
    }
}

impl<DB: Database> World<DB> {
    /// Loads slots of an account that is loaded; a failure is passed over.
    pub open spec fn warm_slots(self, address: Seq<u8>, slots: Seq<U256>) -> World<DB>
        decreases slots.len(),
    {
        if slots.len() == 0 {
            self
        } else {
            self.warm_slots(address, slots.drop_last()).sload(address, slots.last()@).0
        }
    }

    /// Loads the accounts and slots of an access list; a failure is passed over, and so are the
    /// slots of an account that could not be loaded.
    pub open spec fn warm_list(self, list: Seq<(H160, Vec<U256>)>) -> World<DB>
        decreases list.len(),
    {
        if list.len() == 0 {
            self
        } else {
            let (address, slots) = list.last();
            let (world, r) = self.warm_list(list.drop_last()).load_account(address@);
            if r is Ok {
                world.warm_slots(address@, slots@)
            } else {
                world
            }
        }
    }
}

/// How much is refunded: what was earned, but no more than a part of what was spent. A negative
/// refund counts as the unsigned number with its bits.
pub open spec fn gas_refund(gas: GasView, spec_id: SpecId) -> nat {
    let earned = if gas.refunded >= 0 {
        gas.refunded
    } else {
        gas.refunded + 0x1_0000_0000_0000_0000
    };
    let most = if spec_id.includes(SpecId::LONDON) {
        gas.spent / 5
    } else {
        gas.spent / 2
    };
    if earned <= most {
        earned as nat
    } else {
        most
    }
}

/// What the block's beneficiary gets for a unit of gas: since London the base fee is not theirs.
pub open spec fn coinbase_gas_price(env: Env, spec_id: SpecId) -> nat {
    let price = env.spec_effective_gas_price();
    if !spec_id.includes(SpecId::LONDON) {
        price
    } else if price >= env.block.basefee@ {
        (price - env.block.basefee@) as nat
    } else {
        0
    }
}

impl JournalView {
    /// With more on the balance of an account, where it is loaded.
    pub open spec fn credit(self, address: Seq<u8>, amount: nat) -> JournalView {
        if self.has(address) {
            self.set_balance(address, u256_clamp(self.balance(address) + u256_clamp(amount)))
        } else {
            self
        }
    }
}

/// What a transaction's gas comes to in the end.
pub struct Bill {
    pub used: nat,
    pub refunded: nat,
}

impl<DB: Database> DataView<DB> {
    /// Why a transaction is refused before it costs anything. Since London the priority fee must
    /// not be above the price, and the price not below the base fee; and the gas limit must not be
    /// above that of the block.
    pub open spec fn precheck(self, spec_id: SpecId) -> Option<Return> {
        let tx = self.env.tx;
        if spec_id.includes(SpecId::LONDON) && tx.gas_priority_fee is Some
            && tx.gas_priority_fee->0@ > tx.gas_price@ {
            Some(Return::GasMaxFeeGreaterThanPriorityFee)
        } else if spec_id.includes(SpecId::LONDON) && self.env.spec_effective_gas_price()
            < self.env.block.basefee@ {
            Some(Return::GasPriceLessThenBasefee)
        } else if tx.gas_limit > self.env.block.gas_limit@ {
            Some(Return::CallerGasLimitMoreThenBlock)
        } else {
            None
        }
    }

    /// What a transaction costs before anything is run, with the access list loaded.
    pub open spec fn initialize(self, spec_id: SpecId) -> (DataView<DB>, nat) {
        if USE_GAS {
            (
                if spec_id.includes(SpecId::BERLIN) {
                    self.put(self.world().warm_list(self.env.tx.access_list@))
                } else {
                    self
                },
                clamp_gas(intrinsic_gas(self.env, spec_id)),
            )
        } else {
            (self, 0)
        }
    }

    /// The caller, loaded, pays for all the gas of the transaction and must have its value left.
    pub open spec fn buy_gas(self) -> (DataView<DB>, Result<(), Return>) {
        let tx = self.env.tx;
        let price = self.env.spec_effective_gas_price();
        let (world, r) = self.world().load_account(tx.caller@);
        let loaded = self.put(world);
        let balance = loaded.journal.balance(tx.caller@);
        let payment = tx.gas_limit as nat * price;
        if r is Err {
            (loaded, Err(Return::FatalExternalError))
        } else if payment > u256_max() {
            (loaded, Err(Return::OverflowPayment))
        } else if payment > balance {
            (loaded, Err(Return::LackOfFundForGasLimit))
        } else {
            let paid = loaded.with(
                loaded.journal.set_balance(tx.caller@, (balance - payment) as nat),
            );
            if tx.gas_price@ - price + tx.value@ > balance - payment {
                (paid, Err(Return::OutOfFund))
            } else {
                (paid, Ok(()))
            }
        }
    }

    /// All that is checked and paid before anything is run, and the gas that is left for it.
    pub open spec fn prepare(self, spec_id: SpecId) -> (DataView<DB>, Result<nat, Return>) {
        let (warm, cost) = self.initialize(spec_id);
        let (bought, r) = warm.buy_gas();
        if self.precheck(spec_id) is Some {
            (self, Err(self.precheck(spec_id)->0))
        } else if cost > self.env.tx.gas_limit {
            (warm, Err(Return::OutOfGas))
        } else {
            match r {
                Ok(_) => (bought, Ok((self.env.tx.gas_limit - cost) as nat)),
                Err(reason) => (bought, Err(reason)),
            }
        }
    }

    /// After a transaction: the caller gets back what it paid for gas that is left or refunded, the
    /// beneficiary gets its part of the rest. A beneficiary that cannot be loaded gets nothing.
    pub open spec fn settle_gas(
        self,
        caller: Seq<u8>,
        gas: GasView,
        spec_id: SpecId,
    ) -> DataView<DB> {
        let coinbase = self.env.block.coinbase@;
        let refund = gas_refund(gas, spec_id);
        let repaid = if USE_GAS {
            self.with(
                self.journal.credit(
                    caller,
                    self.env.spec_effective_gas_price() * (gas.remaining() + refund),
                ),
            )
        } else {
            self
        };
        let loaded = repaid.put(repaid.world().load_account(coinbase).0);
        let touched = loaded.with(loaded.journal.touch(coinbase));
        if USE_GAS {
            touched.with(
                touched.journal.credit(
                    coinbase,
                    coinbase_gas_price(self.env, spec_id) * (gas.spent - refund) as nat,
                ),
            )
        } else {
            touched
        }
    }

    /// After a transaction: the journal is empty.
    pub open spec fn emptied(self) -> DataView<DB> {
        self.with(
            JournalView::empty(
                self.journal.is_before_spurious_dragon,
                self.journal.num_of_precompiles,
            ),
        )
    }
}

/// What a transaction's gas comes to.
pub open spec fn bill(gas: GasView, spec_id: SpecId) -> Bill {
    if USE_GAS {
        Bill {
            used: (gas.spent - gas_refund(gas, spec_id)) as nat,
            refunded: gas_refund(gas, spec_id),
        }
    } else {
        Bill { used: 0, refunded: 0 }
    }
}

/// The gas of a transaction after what it ran came back: all of it is spent but what the run left,
/// where it succeeded or was reverted; only a run that succeeded earns a refund.
pub open spec fn gas_after_run(gas: GasView, reason: Return, ran: GasView) -> GasView {
    if !USE_GAS {
        gas
    } else if reason.spec_is_ok() {
        GasView { refunded: ran.refunded, ..gas.erased(ran.remaining()) }
    } else if reason.spec_is_revert() {
        gas.erased(ran.remaining())
    } else {
        gas
    }
}

/// The gas of a transaction when all of it is paid for.
pub open spec fn sold_gas(limit: nat) -> GasView {
    GasView {
        limit,
        spent: if USE_GAS {
            limit
        } else {
            0
        },
        refunded: 0,
    }
}

/// The call that a transaction asks for.
pub open spec fn is_call_of(tx: TxEnv, gas_limit: nat, address: H160, inputs: CallInputs) -> bool {
    &&& inputs.contract == address
    &&& inputs.transfer == Transfer { source: tx.caller, target: address, value: tx.value }
    &&& inputs.input@ == tx.data@
    &&& inputs.gas_limit == gas_limit
    &&& inputs.context == CallContext {
        caller: tx.caller,
        address,
        code_address: address,
        apparent_value: tx.value,
        scheme: CallScheme::Call,
    }
}

/// The create that a transaction asks for.
pub open spec fn is_create_of(
    tx: TxEnv,
    gas_limit: nat,
    scheme: CreateScheme,
    inputs: CreateInputs,
) -> bool {
    &&& inputs.caller == tx.caller
    &&& inputs.scheme == scheme
    &&& inputs.value == tx.value
    &&& inputs.init_code@ == tx.data@
    &&& inputs.gas_limit == gas_limit
}

/// The balance that the database knows of.
pub open spec fn known_balance<E>(answer: Result<Option<AccountInfoView>, E>) -> nat {
    match answer {
        Ok(Some(info)) => info.balance,
        _ => 0,
    }
}

/// The database and the accounts after the balances that the database knows of are added to those
/// of the accounts, one after the other in the order of `addresses`.
pub open spec fn add_known_balances<DB: Database>(
    db: DB,
    accounts: Map<Seq<u8>, AccountView>,
    addresses: Seq<H160>,
) -> (DB, Map<Seq<u8>, AccountView>)
    decreases addresses.len(),
{
    if addresses.len() == 0 {
        (db, accounts)
    } else {
        let (db, accounts) = add_known_balances(db, accounts, addresses.drop_last());
        let address = addresses.last()@;
        if accounts.contains_key(address) {
            let (answer, db) = db.answer_basic(address);
            let account = accounts[address];
            (
                db,
                accounts.insert(
                    address,
                    AccountView {
                        fields: AccountFieldsView {
                            balance: u256_clamp(account.fields.balance + known_balance(answer)),
                            ..account.fields
                        },
                        ..account
                    },
                ),
            )
        } else {
            (db, accounts)
        }
    }
}

/// What a transaction hands over in the end.
pub struct Outcome {
    pub state: Map<Seq<u8>, AccountView>,
    pub logs: Seq<LogView>,
    pub gas_used: nat,
    pub gas_refunded: nat,
}

/// What a transaction hands over in the end.
pub open spec fn outcome(result: ExecutionResult, state: Map<Seq<u8>, AccountView>) -> Outcome {
    Outcome {
        state,
        logs: log_views(result.logs@),
        gas_used: result.gas_used as nat,
        gas_refunded: result.gas_refunded as nat,
    }
}

impl<DB: Database> DataView<DB> {
    /// The end of a transaction: gas is settled, the touched accounts and the logs are handed over,
    /// and the journal is empty. Where the precompiles are taken to have balances, what the
    /// database knows of those is added, in an order that is not given.
    pub open spec fn finalizes(
        self,
        caller: Seq<u8>,
        gas: GasView,
        spec_id: SpecId,
        precompiles: Set<Seq<u8>>,
        after: DataView<DB>,
        outcome: Outcome,
    ) -> bool {
        let settled = self.settle_gas(caller, gas, spec_id);
        let touched = touched_accounts(settled.journal.accounts);
        &&& outcome.logs == settled.journal.logs
        &&& outcome.gas_used == bill(gas, spec_id).used
        &&& outcome.gas_refunded == bill(gas, spec_id).refunded
        &&& if self.env.cfg.perf_all_precompiles_have_balance {
            exists|order: Seq<H160>| #[trigger]
                lists(order, precompiles) && (after, outcome.state) == ({
                    let (db, state) = add_known_balances(settled.db, touched, order);
                    (DataView { db, ..settled.emptied() }, state)
                })
        } else {
            (after, outcome.state) == (settled.emptied(), touched)
        }
    }
}

} // verus!
