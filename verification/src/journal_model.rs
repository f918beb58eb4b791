//! The journal as a mathematical object: accounts, logs, and a history that every change can be
//! undone from.
use crate::db::Database;
use crate::models::{raw_code, AccountInfoView, BytecodeView, LogView, Return, SelfDestructResult, KECCAK_EMPTY};
use crate::primitives::{u256_clamp, u256_max};
use crate::state::{lookup, with_entry, AccountFieldsView, AccountView, StorageSlotView};
use vstd::prelude::*;

verus! {

/// A change of an account, with what it takes to undo it.
pub enum EntryView {
    /// The account was loaded.
    Loaded { address: Seq<u8> },
    /// Something besides code and storage was changed.
    Changed { address: Seq<u8>, had_fields: AccountFieldsView },
    /// The code was changed.
    CodeChanged { address: Seq<u8>, had_code: Option<BytecodeView> },
    /// A slot was changed.
    SlotChanged { address: Seq<u8>, index: nat, had_slot: Option<StorageSlotView> },
}

impl EntryView {
    /// The account that was changed.
    pub open spec fn account(self) -> Seq<u8> {
        match self {
            EntryView::Loaded { address } => address,
            EntryView::Changed { address, .. } => address,
            EntryView::CodeChanged { address, .. } => address,
            EntryView::SlotChanged { address, .. } => address,
        }
    }
}

/// The accounts before the change `entry`.
pub open spec fn undo(accounts: Map<Seq<u8>, AccountView>, entry: EntryView) -> Map<
    Seq<u8>,
    AccountView,
> {
    if !accounts.contains_key(entry.account()) {
        accounts
    } else {
        let account = accounts[entry.account()];
        match entry {
            EntryView::Loaded { address } => accounts.remove(address),
            EntryView::Changed { address, had_fields } => accounts.insert(
                address,
                AccountView { fields: had_fields, ..account },
            ),
            EntryView::CodeChanged { address, had_code } => accounts.insert(
                address,
                AccountView { code: had_code, ..account },
            ),
            EntryView::SlotChanged { address, index, had_slot } => accounts.insert(
                address,
                AccountView { storage: with_entry(account.storage, index, had_slot), ..account },
            ),
        }
    }
}

/// The accounts when the history had `n` changes.
pub open spec fn rollback(
    accounts: Map<Seq<u8>, AccountView>,
    history: Seq<EntryView>,
    n: nat,
) -> Map<Seq<u8>, AccountView>
    decreases history.len(),
{
    if history.len() <= n {
        accounts
    } else {
        rollback(undo(accounts, history.last()), history.drop_last(), n)
    }
}

/// Where a call or create began.
pub struct CheckpointView {
    pub log_i: nat,
    pub journal_i: nat,
}

/// The value of a journaled state.
pub struct JournalView {
    /// The accounts that are loaded.
    pub accounts: Map<Seq<u8>, AccountView>,
    pub logs: Seq<LogView>,
    /// How many calls and creates are under way.
    pub depth: nat,
    /// The changes of the accounts, the latest last.
    pub history: Seq<EntryView>,
    /// Whether an empty account can exist.
    pub is_before_spurious_dragon: bool,
    /// The precompiles have the addresses from one to this.
    pub num_of_precompiles: nat,
}

/// The first `n` elements, or all of them where there are fewer.
pub open spec fn at_most<A>(s: Seq<A>, n: nat) -> Seq<A> {
    if n <= s.len() {
        s.take(n as int)
    } else {
        s
    }
}

/// Whether the address is that of one of the first `n` precompiles.
pub open spec fn is_precompile_address(address: Seq<u8>, n: nat) -> bool {
    &&& forall|i: int| 0 <= i < 18 ==> address[i] == 0
    &&& 1 <= address[18] * 256 + address[19] <= n
}

impl JournalView {
    /// No accounts, no logs, no history.
    pub open spec fn empty(is_before_spurious_dragon: bool, num_of_precompiles: nat) -> JournalView {
        JournalView {
            accounts: Map::empty(),
            logs: Seq::empty(),
            depth: 0,
            history: Seq::empty(),
            is_before_spurious_dragon,
            num_of_precompiles,
        }
    }

    /// Whether the account is loaded.
    pub open spec fn has(self, address: Seq<u8>) -> bool {
        self.accounts.contains_key(address)
    }

    /// Whether the account is loaded and touched.
    pub open spec fn touched(self, address: Seq<u8>) -> bool {
        self.has(address) && self.accounts[address].fields.is_touched
    }

    /// The balance of a loaded account.
    pub open spec fn balance(self, address: Seq<u8>) -> nat {
        self.accounts[address].fields.balance
    }

    /// With one more log.
    pub open spec fn log(self, log: LogView) -> JournalView {
        JournalView { logs: self.logs.push(log), ..self }
    }

    /// With more logs.
    pub open spec fn log_all(self, logs: Seq<LogView>) -> JournalView {
        JournalView { logs: self.logs + logs, ..self }
    }

    /// With the account changed, and the change in the history.
    pub open spec fn edit(self, account: AccountView, entry: EntryView) -> JournalView {
        JournalView {
            accounts: self.accounts.insert(entry.account(), account),
            history: self.history.push(entry),
            ..self
        }
    }

    /// With the account that the database's answer stands for.
    pub open spec fn load(self, address: Seq<u8>, answer: Option<AccountInfoView>) -> JournalView {
        self.edit(AccountView::from_answer(answer), EntryView::Loaded { address })
    }

    /// With something besides code and storage of a loaded account changed.
    pub open spec fn set_fields(self, address: Seq<u8>, fields: AccountFieldsView) -> JournalView {
        let account = self.accounts[address];
        self.edit(
            AccountView { fields, ..account },
            EntryView::Changed { address, had_fields: account.fields },
        )
    }

    /// With the balance of a loaded account changed.
    pub open spec fn set_balance(self, address: Seq<u8>, balance: nat) -> JournalView {
        self.set_fields(address, AccountFieldsView { balance, ..self.accounts[address].fields })
    }

    /// With the account touched, where it is loaded.
    pub open spec fn touch(self, address: Seq<u8>) -> JournalView {
        if self.has(address) && !self.accounts[address].fields.is_touched {
            self.set_fields(
                address,
                AccountFieldsView { is_touched: true, ..self.accounts[address].fields },
            )
        } else {
            self
        }
    }

    /// With the code of a loaded account at hand.
    pub open spec fn cache_code(self, address: Seq<u8>, code: BytecodeView) -> JournalView {
        let account = self.accounts[address];
        self.edit(
            AccountView { code: Some(code), ..account },
            EntryView::CodeChanged { address, had_code: account.code },
        )
    }

    /// With new code for the account, where it is loaded.
    pub open spec fn set_code(self, address: Seq<u8>, code: BytecodeView) -> JournalView {
        if self.has(address) {
            let coded = self.touch(address).cache_code(address, code);
            coded.set_fields(
                address,
                AccountFieldsView { code_hash: code.hash, ..coded.accounts[address].fields },
            )
        } else {
            self
        }
    }

    /// With a slot of a loaded account changed.
    pub open spec fn set_slot(
        self,
        address: Seq<u8>,
        index: nat,
        slot: StorageSlotView,
    ) -> JournalView {
        let account = self.accounts[address];
        self.edit(
            AccountView { storage: account.storage.insert(index, slot), ..account },
            EntryView::SlotChanged { address, index, had_slot: lookup(account.storage, index) },
        )
    }

    /// With the nonce of a loaded account one higher, and that nonce; as it was, and `None`, where
    /// the nonce is the highest.
    pub open spec fn inc_nonce(self, address: Seq<u8>) -> (JournalView, Option<u64>) {
        let nonce = self.accounts[address].fields.nonce;
        if nonce == u64::MAX {
            (self, None)
        } else {
            let touched = self.touch(address);
            (
                touched.set_fields(
                    address,
                    AccountFieldsView {
                        nonce: (nonce + 1) as u64,
                        ..touched.accounts[address].fields
                    },
                ),
                Some((nonce + 1) as u64),
            )
        }
    }

    /// At the beginning of a call or create.
    pub open spec fn checkpoint(self) -> (JournalView, CheckpointView) {
        (
            JournalView { depth: self.depth + 1, ..self },
            CheckpointView { log_i: self.logs.len(), journal_i: self.history.len() },
        )
    }

    /// At the end of a call or create that succeeded.
    pub open spec fn commit(self) -> JournalView {
        JournalView {
            depth: if self.depth > 0 {
                (self.depth - 1) as nat
            } else {
                0
            },
            ..self
        }
    }

    /// At the end of a call or create that failed: everything since the checkpoint is undone.
    pub open spec fn revert(self, checkpoint: CheckpointView) -> JournalView {
        JournalView {
            accounts: rollback(self.accounts, self.history, checkpoint.journal_i),
            logs: at_most(self.logs, checkpoint.log_i),
            history: at_most(self.history, checkpoint.journal_i),
            ..self.commit()
        }
    }

    /// This journal comes from `base` by changes that can be undone: the history and the logs of
    /// `base` are still there, and undoing what came after them gives the accounts of `base`. What
    /// was touched is touched, and no fewer calls and creates are under way.
    pub open spec fn extends(self, base: JournalView) -> bool {
        &&& self.depth >= base.depth
        &&& self.is_before_spurious_dragon == base.is_before_spurious_dragon
        &&& self.num_of_precompiles == base.num_of_precompiles
        &&& base.history.len() <= self.history.len()
        &&& self.history.take(base.history.len() as int) == base.history
        &&& rollback(self.accounts, self.history, base.history.len()) == base.accounts
        &&& base.logs.len() <= self.logs.len()
        &&& self.logs.take(base.logs.len() as int) == base.logs
        &&& forall|address: Seq<u8>| base.touched(address) ==> #[trigger] self.touched(address)
    }
}

/// A journal, and the database behind it.
pub struct World<DB> {
    pub journal: JournalView,
    pub db: DB,
}

impl<DB: Database> World<DB> {
    /// With another journal.
    pub open spec fn with(self, journal: JournalView) -> World<DB> {
        World { journal, db: self.db }
    }

    /// Loads an account, and says whether it was cold: neither loaded before nor a precompile.
    pub open spec fn load_account(self, address: Seq<u8>) -> (World<DB>, Result<bool, DB::Error>) {
        if self.journal.has(address) {
            (self, Ok(false))
        } else {
            let (answer, db) = self.db.answer_basic(address);
            match answer {
                Ok(info) => (
                    World { journal: self.journal.load(address, info), db },
                    Ok(!is_precompile_address(address, self.journal.num_of_precompiles)),
                ),
                Err(e) => (World { journal: self.journal, db }, Err(e)),
            }
        }
    }

    /// Loads an account and its code, and says whether the account was cold.
    pub open spec fn load_code(self, address: Seq<u8>) -> (World<DB>, Result<bool, DB::Error>) {
        let (loaded, r) = self.load_account(address);
        let account = loaded.journal.accounts[address];
        if r is Err || account.code is Some {
            (loaded, r)
        } else if account.fields.code_hash == KECCAK_EMPTY@ {
            (loaded.with(loaded.journal.cache_code(address, raw_code(Seq::empty()))), r)
        } else {
            let (answer, db) = loaded.db.answer_code(account.fields.code_hash);
            match answer {
                Ok(code) => (World { journal: loaded.journal.cache_code(address, code), db }, r),
                Err(e) => (World { journal: loaded.journal, db }, Err(e)),
            }
        }
    }

    /// Loads an account and its code, and says whether the account was cold, and whether it
    /// is new. Before Spurious Dragon an account is new where the database does not know it and it
    /// was not touched, since then where it is empty.
    pub open spec fn load_account_exist(self, address: Seq<u8>) -> (
        World<DB>,
        Result<(bool, bool), DB::Error>,
    ) {
        let (loaded, r) = self.load_code(address);
        let account = loaded.journal.accounts[address];
        match r {
            Ok(is_cold) => (
                loaded,
                Ok(
                    (
                        is_cold,
                        if loaded.journal.is_before_spurious_dragon {
                            account.fields.is_not_existing && !account.fields.is_touched
                        } else {
                            account.is_empty()
                        },
                    ),
                ),
            ),
            Err(e) => (loaded, Err(e)),
        }
    }

    /// Loads two accounts, touches them, and moves `value` from the first to the second.
    pub open spec fn transfer(self, from: Seq<u8>, to: Seq<u8>, value: nat) -> (
        World<DB>,
        Result<(), Return>,
    ) {
        let (w1, r1) = self.load_account(from);
        let (w2, r2) = w1.load_account(to);
        if r1 is Err {
            (w1, Err(Return::FatalExternalError))
        } else if r2 is Err {
            (w2, Err(Return::FatalExternalError))
        } else {
            let (journal, r) = w2.journal.move_value(from, to, value);
            (w2.with(journal), r)
        }
    }

    /// Makes room for a new contract: loads the account, and clears its storage. `false` where
    /// something is there already: code, a nonce or a precompile.
    pub open spec fn create_account(self, address: Seq<u8>, is_precompile: bool) -> (
        World<DB>,
        Result<bool, DB::Error>,
    ) {
        let (loaded, r) = self.load_code(address);
        let account = loaded.journal.accounts[address];
        match r {
            Ok(_) => if account.code->0.bytes.len() > 0 || account.fields.nonce != 0
                || is_precompile {
                (loaded, Ok(false))
            } else {
                (
                    loaded.with(
                        loaded.journal.set_fields(
                            address,
                            AccountFieldsView { storage_cleared: true, ..account.fields },
                        ),
                    ),
                    Ok(true),
                )
            },
            Err(e) => (loaded, Err(e)),
        }
    }

    /// Loads a slot of a loaded account, and says its value and whether it was cold. A new account
    /// has zeros.
    pub open spec fn sload(self, address: Seq<u8>, index: nat) -> (
        World<DB>,
        Result<(nat, bool), DB::Error>,
    ) {
        let account = self.journal.accounts[address];
        if account.storage.contains_key(index) {
            (self, Ok((account.storage[index].present_value, false)))
        } else {
            let (answer, db) = if account.fields.storage_cleared {
                (Ok(0), self.db)
            } else {
                self.db.answer_storage(address, index)
            };
            match answer {
                Ok(value) => (
                    World {
                        journal: self.journal.set_slot(
                            address,
                            index,
                            StorageSlotView { original_value: value, present_value: value },
                        ),
                        db,
                    },
                    Ok((value, true)),
                ),
                Err(e) => (World { journal: self.journal, db }, Err(e)),
            }
        }
    }

    /// Writes a slot of a loaded account, and says its value before the transaction, its value
    /// before the write, the value written, and whether the slot was cold.
    pub open spec fn sstore(self, address: Seq<u8>, index: nat, value: nat) -> (
        World<DB>,
        Result<(nat, nat, nat, bool), DB::Error>,
    ) {
        let (loaded, r) = self.sload(address, index);
        let slot = loaded.journal.accounts[address].storage[index];
        match r {
            Ok((present, is_cold)) => (
                if present == value {
                    loaded
                } else {
                    loaded.with(
                        loaded.journal.set_slot(
                            address,
                            index,
                            StorageSlotView { present_value: value, ..slot },
                        ),
                    )
                },
                Ok((slot.original_value, present, value, is_cold)),
            ),
            Err(e) => (loaded, Err(e)),
        }
    }

    /// Destroys a loaded account, and moves its balance to `target`; where the two are the same
    /// the balance is gone.
    pub open spec fn selfdestruct(self, address: Seq<u8>, target: Seq<u8>) -> (
        World<DB>,
        Result<SelfDestructResult, DB::Error>,
    ) {
        let (loaded, r) = self.load_account_exist(target);
        let fields = loaded.journal.accounts[address].fields;
        match r {
            Ok((is_cold, is_new)) => (
                loaded.with(loaded.journal.destroy(address, target)),
                Ok(
                    SelfDestructResult {
                        had_value: fields.balance != 0,
                        exists: !is_new,
                        is_cold,
                        previously_destroyed: fields.is_destroyed,
                    },
                ),
            ),
            Err(e) => (loaded, Err(e)),
        }
    }
}

impl JournalView {
    /// Touches two loaded accounts, and moves `value` from the first to the second. What is done
    /// before it fails stays, to be undone by a revert.
    pub open spec fn move_value(self, from: Seq<u8>, to: Seq<u8>, value: nat) -> (
        JournalView,
        Result<(), Return>,
    ) {
        let source = self.touch(from);
        if source.balance(from) < value {
            (source, Err(Return::OutOfFund))
        } else {
            let debited = source.set_balance(from, (source.balance(from) - value) as nat);
            let target = debited.touch(to);
            if target.balance(to) + value > u256_max() {
                (target, Err(Return::OverflowPayment))
            } else {
                (target.set_balance(to, target.balance(to) + value), Ok(()))
            }
        }
    }

    /// Destroys a loaded account, and moves its balance to another.
    pub open spec fn destroy(self, address: Seq<u8>, target: Seq<u8>) -> JournalView {
        let balance = self.balance(address);
        let credited = if address == target {
            self
        } else {
            let touched = self.touch(target);
            touched.set_balance(target, u256_clamp(touched.balance(target) + balance))
        };
        credited.set_fields(
            address,
            AccountFieldsView {
                balance: 0,
                is_destroyed: true,
                ..credited.accounts[address].fields
            },
        )
    }
}

} // verus!
