//! The accounts of a transaction with a journal of their changes.
use crate::db::Database;
use crate::journal_laws::{load_account_extends, load_code_extends, loaded_stays_loaded, sload_extends};
use crate::journal_model::{
    at_most, is_precompile_address, rollback, undo, CheckpointView, EntryView, JournalView, World,
};
use crate::models::{
    code_view, log_views, Bytecode, Log, Return, SelfDestructResult, KECCAK_EMPTY,
};
use crate::primitives::{
    same_address, same_hash, u256_checked_add, u256_checked_sub, H160, U256,
};
use crate::state::{
    slot_view, touched_accounts, Account, AccountFields, State, StorageSlot,
};
use vstd::prelude::*;

verus! {

/// A change of an account, with what it takes to undo it.
#[derive(Debug)]
pub enum JournalEntry {
    /// The account was loaded.
    Loaded { address: H160 },
    /// Something besides code and storage was changed.
    Changed { address: H160, had_fields: AccountFields },
    /// The code was changed.
    CodeChanged { address: H160, had_code: Option<Bytecode> },
    /// A slot was changed.
    SlotChanged { address: H160, index: U256, had_slot: Option<StorageSlot> },
}

impl View for JournalEntry {
    type V = EntryView;

    open spec fn view(&self) -> EntryView {
        match *self {
            JournalEntry::Loaded { address } => EntryView::Loaded { address: address@ },
            JournalEntry::Changed { address, had_fields } => EntryView::Changed {
                address: address@,
                had_fields: had_fields@,
            },
            JournalEntry::CodeChanged { address, had_code } => EntryView::CodeChanged {
                address: address@,
                had_code: code_view(had_code),
            },
            JournalEntry::SlotChanged { address, index, had_slot } => EntryView::SlotChanged {
                address: address@,
                index: index@,
                had_slot: slot_view(had_slot),
            },
        }
    }
}

/// The values of the elements.
pub open spec fn entry_views(entries: Seq<JournalEntry>) -> Seq<EntryView> {
    entries.map_values(|entry: JournalEntry| entry@)
}

/// Where a call or create began.
#[derive(Clone, Copy, Debug)]
pub struct JournalCheckpoint {
    log_i: usize,
    journal_i: usize,
}

impl View for JournalCheckpoint {
    type V = CheckpointView;

    closed spec fn view(&self) -> CheckpointView {
        CheckpointView { log_i: self.log_i as nat, journal_i: self.journal_i as nat }
    }
}

/// The accounts of a transaction, with a journal of their changes.
#[derive(Debug)]
pub struct JournaledState {
    /// The accounts that are loaded.
    pub state: State,
    pub logs: Vec<Log>,
    /// How many calls and creates are under way.
    pub depth: usize,
    /// The changes of the accounts, the latest last.
    pub journal: Vec<JournalEntry>,
    /// Whether an empty account can exist.
    pub is_before_spurious_dragon: bool,
    /// The precompiles have the addresses from one to this.
    pub num_of_precompiles: usize,
}

impl View for JournaledState {
    type V = JournalView;

    open spec fn view(&self) -> JournalView {
        JournalView {
            accounts: self.state@,
            logs: log_views(self.logs@),
            depth: self.depth as nat,
            history: entry_views(self.journal@),
            is_before_spurious_dragon: self.is_before_spurious_dragon,
            num_of_precompiles: self.num_of_precompiles as nat,
        }
    }
}

/// Whether the address is that of one of the first `n` precompiles.
fn is_precompile(address: &H160, n: usize) -> (r: bool)
    ensures
        r == is_precompile_address(address@, n as nat),
{
    let mut i: usize = 0;
    while i < 18
        invariant
            0 <= i <= 18,
            forall|j: int| 0 <= j < i ==> address[j] == 0,
        decreases 18 - i,
    {
        if address[i] != 0 {
            return false;
        }
        i += 1;
    }
    let number: usize = address[18] as usize * 256 + address[19] as usize;
    1 <= number && number <= n
}

impl JournaledState {
    /// No accounts yet, since Spurious Dragon.
    pub fn new(num_of_precompiles: usize) -> (r: Self)
        ensures
            r@ == JournalView::empty(false, num_of_precompiles as nat),
    {
        let r = JournaledState {
            state: State::new(),
            logs: Vec::new(),
            depth: 0,
            journal: Vec::new(),
            is_before_spurious_dragon: false,
            num_of_precompiles,
        };
        assert(log_views(r.logs@) =~= Seq::empty());
        assert(entry_views(r.journal@) =~= Seq::empty());
        r
    }

    /// No accounts yet, before Spurious Dragon.
    pub fn new_legacy(num_of_precompiles: usize) -> (r: Self)
        ensures
            r@ == JournalView::empty(true, num_of_precompiles as nat),
    {
        let mut r = JournaledState::new(num_of_precompiles);
        r.is_before_spurious_dragon = true;
        r
    }

    /// How many calls and creates are under way.
    pub fn depth(&self) -> (r: u64)
        ensures
            r == self@.depth,
    {
        self.depth as u64
    }

    /// An account, where it is loaded.
    pub fn account(&self, address: &H160) -> (r: Option<&Account>)
        ensures
            match r {
                Some(account) => self@.has(address@) && account@ == self@.accounts[address@],
                None => !self@.has(address@),
            },
    {
        self.state.get(address)
    }

    /// Whether an account is loaded.
    pub fn is_loaded(&self, address: &H160) -> (r: bool)
        ensures
            r == self@.has(address@),
    {
        self.state.get(address).is_some()
    }

    /// Keeps a log.
    pub fn log(&mut self, log: Log)
        ensures
            final(self)@ == old(self)@.log(log@),
    {
        let ghost before = self@;
        self.logs.push(log);
        assert(self@.logs =~= before.logs.push(log@));
    }

    /// Keeps logs.
    pub fn log_all(&mut self, logs: Vec<Log>)
        ensures
            final(self)@ == old(self)@.log_all(log_views(logs@)),
    {
        let ghost before = self@;
        let mut logs = logs;
        let ghost added = log_views(logs@);
        self.logs.append(&mut logs);
        assert(self@.logs =~= before.logs + added);
    }

    fn record(&mut self, entry: JournalEntry)
        ensures
            final(self)@ == (JournalView {
                history: old(self)@.history.push(entry@),
                ..old(self)@
            }),
    {
        let ghost before = self@;
        self.journal.push(entry);
        assert(self@.history =~= before.history.push(entry@));
    }

    /// Changes something besides the code and storage of a loaded account.
    pub fn set_fields(&mut self, address: H160, fields: AccountFields)
        requires
            old(self)@.has(address@),
        ensures
            final(self)@ == old(self)@.set_fields(address@, fields@),
    {
        if let Some(account) = self.state.get_mut(&address) {
            let had_fields = account.fields();
            account.set_fields(fields);
            self.record(JournalEntry::Changed { address, had_fields });
        }
    }

    /// Changes the balance of a loaded account.
    pub fn set_balance(&mut self, address: H160, balance: U256)
        requires
            old(self)@.has(address@),
        ensures
            final(self)@ == old(self)@.set_balance(address@, balance@),
    {
        if let Some(account) = self.state.get(&address) {
            let mut fields = account.fields();
            fields.balance = balance;
            self.set_fields(address, fields);
        }
    }

    /// Touches an account, where it is loaded.
    pub fn touch(&mut self, address: &H160)
        ensures
            final(self)@ == old(self)@.touch(address@),
    {
        if let Some(account) = self.state.get(address) {
            let mut fields = account.fields();
            if !fields.is_touched {
                fields.is_touched = true;
                self.set_fields(*address, fields);
            }
        }
    }

    fn cache_code(&mut self, address: H160, code: Bytecode)
        requires
            old(self)@.has(address@),
        ensures
            final(self)@ == old(self)@.cache_code(address@, code@),
    {
        if let Some(account) = self.state.get_mut(&address) {
            let had_code = account.replace_code(Some(code));
            self.record(JournalEntry::CodeChanged { address, had_code });
        }
    }

    /// Gives an account new code, where it is loaded.
    pub fn set_code(&mut self, address: H160, code: Bytecode)
        ensures
            final(self)@ == old(self)@.set_code(address@, code@),
    {
        if self.is_loaded(&address) {
            let hash = code.hash;
            self.touch(&address);
            self.cache_code(address, code);
            if let Some(account) = self.state.get(&address) {
                let mut fields = account.fields();
                fields.code_hash = hash;
                self.set_fields(address, fields);
            }
        }
    }

    fn set_slot(&mut self, address: H160, index: U256, slot: StorageSlot)
        requires
            old(self)@.has(address@),
        ensures
            final(self)@ == old(self)@.set_slot(address@, index@, slot@),
    {
        if let Some(account) = self.state.get_mut(&address) {
            let had_slot = account.storage.get(&index);
            account.set_slot(index, Some(slot));
            self.record(JournalEntry::SlotChanged { address, index, had_slot });
        }
    }

    /// Raises the nonce of a loaded account, and returns it; `None` where it is the highest.
    pub fn inc_nonce(&mut self, address: H160) -> (r: Option<u64>)
        requires
            old(self)@.has(address@),
        ensures
            (final(self)@, r) == old(self)@.inc_nonce(address@),
    {
        if let Some(account) = self.state.get(&address) {
            if account.info.nonce == u64::MAX {
                return None;
            }
        }
        self.touch(&address);
        let mut nonce: u64 = 0;
        if let Some(account) = self.state.get(&address) {
            let mut fields = account.fields();
            fields.nonce = fields.nonce + 1;
            nonce = fields.nonce;
            self.set_fields(address, fields);
        }
        Some(nonce)
    }

    /// Begins a call or create.
    pub fn checkpoint(&mut self) -> (r: JournalCheckpoint)
        requires
            old(self)@.depth < usize::MAX,
        ensures
            (final(self)@, r@) == old(self)@.checkpoint(),
    {
        self.depth = self.depth + 1;
        JournalCheckpoint { log_i: self.logs.len(), journal_i: self.journal.len() }
    }

    /// Ends a call or create that succeeded.
    pub fn checkpoint_commit(&mut self)
        ensures
            final(self)@ == old(self)@.commit(),
    {
        if self.depth > 0 {
            self.depth = self.depth - 1;
        }
    }

    /// Ends a call or create that failed: undoes everything since the checkpoint.
    pub fn checkpoint_revert(&mut self, checkpoint: JournalCheckpoint)
        ensures
            final(self)@ == old(self)@.revert(checkpoint@),
    {
        let ghost before = self@;
        self.checkpoint_commit();
        while self.journal.len() > checkpoint.journal_i
            invariant
                self@.logs == before.logs,
                self@.depth == before.commit().depth,
                self@.is_before_spurious_dragon == before.is_before_spurious_dragon,
                self@.num_of_precompiles == before.num_of_precompiles,
                at_most(self@.history, checkpoint@.journal_i) == at_most(
                    before.history,
                    checkpoint@.journal_i,
                ),
                rollback(self@.accounts, self@.history, checkpoint@.journal_i) == rollback(
                    before.accounts,
                    before.history,
                    checkpoint@.journal_i,
                ),
            decreases self.journal.len(),
        {
            let ghost here = self@;
            let ghost entries = self.journal@;
            if let Some(entry) = self.journal.pop() {
                assert(entry_views(self.journal@) =~= here.history.drop_last());
                assert(here.history.last() == entry@);
                self.undo(entry);
                assert(at_most(self@.history, checkpoint@.journal_i) =~= at_most(
                    here.history,
                    checkpoint@.journal_i,
                ));
            }
        }
        let ghost here = self@;
        self.logs.truncate(checkpoint.log_i);
        assert(self@.logs =~= at_most(before.logs, checkpoint@.log_i));
        assert(self@.history =~= at_most(before.history, checkpoint@.journal_i));
        assert(self@ == before.revert(checkpoint@));
    }

    fn undo(&mut self, entry: JournalEntry)
        ensures
            final(self)@ == (JournalView {
                accounts: undo(old(self)@.accounts, entry@),
                ..old(self)@
            }),
    {
        let ghost before = self@;
        match entry {
            JournalEntry::Loaded { address } => {
                self.state.remove(&address);
                assert(self@.accounts =~= undo(before.accounts, entry@));
            },
            JournalEntry::Changed { address, had_fields } => {
                if let Some(account) = self.state.get_mut(&address) {
                    account.set_fields(had_fields);
                }
            },
            JournalEntry::CodeChanged { address, had_code } => {
                if let Some(account) = self.state.get_mut(&address) {
                    account.replace_code(had_code);
                }
            },
            JournalEntry::SlotChanged { address, index, had_slot } => {
                if let Some(account) = self.state.get_mut(&address) {
                    account.set_slot(index, had_slot);
                }
            },
        }
    }

    /// Hands over the touched accounts and the logs, and begins anew.
    pub fn finalize(&mut self) -> (r: (State, Vec<Log>))
        ensures
            r.0@ == touched_accounts(old(self)@.accounts),
            log_views(r.1@) == old(self)@.logs,
            final(self)@ == JournalView::empty(
                old(self)@.is_before_spurious_dragon,
                old(self)@.num_of_precompiles,
            ),
    {
        let mut state = State::new();
        std::mem::swap(&mut state, &mut self.state);
        state.retain_touched();
        let mut logs: Vec<Log> = Vec::new();
        std::mem::swap(&mut logs, &mut self.logs);
        self.journal = Vec::new();
        self.depth = 0;
        assert(self@.logs =~= Seq::empty());
        assert(self@.history =~= Seq::empty());
        (state, logs)
    }

    /// Loads an account, and says whether it was cold: neither loaded before nor a precompile.
    pub fn load_account<DB: Database>(&mut self, address: H160, db: &mut DB) -> (r: Result<
        bool,
        DB::Error,
    >)
        ensures
            (World { journal: final(self)@, db: *final(db) }, r) == (World {
                journal: old(self)@,
                db: *old(db),
            }).load_account(address@),
    {
        if self.is_loaded(&address) {
            return Ok(false);
        }
        match db.basic(address) {
            Ok(info) => {
                self.state.insert(address, Account::from_answer(info));
                self.record(JournalEntry::Loaded { address });
                Ok(!is_precompile(&address, self.num_of_precompiles))
            },
            Err(e) => Err(e),
        }
    }

    /// Loads an account and its code, and says whether the account was cold.
    pub fn load_code<DB: Database>(&mut self, address: H160, db: &mut DB) -> (r: Result<
        bool,
        DB::Error,
    >)
        ensures
            (World { journal: final(self)@, db: *final(db) }, r) == (World {
                journal: old(self)@,
                db: *old(db),
            }).load_code(address@),
    {
        proof {
            load_account_extends(World { journal: self@, db: *db }, address@);
        }
        let is_cold = match self.load_account(address, db) {
            Ok(is_cold) => is_cold,
            Err(e) => return Err(e),
        };
        if let Some(account) = self.state.get(&address) {
            if account.info.code.is_none() {
                let hash = account.info.code_hash;
                if same_hash(&hash, &KECCAK_EMPTY) {
                    let code = Bytecode::new_raw(Vec::new());
                    assert(code@.bytes =~= Seq::empty());
                    self.cache_code(address, code);
                } else {
                    match db.code_by_hash(hash) {
                        Ok(code) => self.cache_code(address, code),
                        Err(e) => return Err(e),
                    }
                }
            }
        }
        Ok(is_cold)
    }

    /// Loads an account and its code, and says whether the account was cold, and whether it is
    /// new.
    pub fn load_account_exist<DB: Database>(&mut self, address: H160, db: &mut DB) -> (r: Result<
        (bool, bool),
        DB::Error,
    >)
        ensures
            (World { journal: final(self)@, db: *final(db) }, r) == (World {
                journal: old(self)@,
                db: *old(db),
            }).load_account_exist(address@),
    {
        proof {
            load_code_extends(World { journal: self@, db: *db }, address@);
        }
        let is_cold = match self.load_code(address, db) {
            Ok(is_cold) => is_cold,
            Err(e) => return Err(e),
        };
        let is_new = match self.state.get(&address) {
            Some(account) => if self.is_before_spurious_dragon {
                account.is_not_existing && !account.is_touched
            } else {
                account.is_empty()
            },
            None => false,
        };
        Ok((is_cold, is_new))
    }

    fn move_value(&mut self, from: &H160, to: &H160, value: U256) -> (r: Result<(), Return>)
        requires
            old(self)@.has(from@),
            old(self)@.has(to@),
        ensures
            (final(self)@, r) == old(self)@.move_value(from@, to@, value@),
    {
        self.touch(from);
        let source = match self.state.get(from) {
            Some(account) => account.info.balance,
            None => U256::zero(),
        };
        match u256_checked_sub(source, value) {
            Some(left) => self.set_balance(*from, left),
            None => return Err(Return::OutOfFund),
        }
        self.touch(to);
        let target = match self.state.get(to) {
            Some(account) => account.info.balance,
            None => U256::zero(),
        };
        match u256_checked_add(target, value) {
            Some(sum) => {
                self.set_balance(*to, sum);
                Ok(())
            },
            None => Err(Return::OverflowPayment),
        }
    }

    /// Loads two accounts, touches them, and moves `value` from the first to the second.
    pub fn transfer<DB: Database>(&mut self, from: &H160, to: &H160, value: U256, db: &mut DB) -> (r:
        Result<(), Return>)
        ensures
            (World { journal: final(self)@, db: *final(db) }, r) == (World {
                journal: old(self)@,
                db: *old(db),
            }).transfer(from@, to@, value@),
    {
        let ghost w = World { journal: self@, db: *db };
        proof {
            load_account_extends(w, from@);
        }
        if self.load_account(*from, db).is_err() {
            return Err(Return::FatalExternalError);
        }
        let ghost w1 = World { journal: self@, db: *db };
        proof {
            load_account_extends(w1, to@);
        }
        if self.load_account(*to, db).is_err() {
            return Err(Return::FatalExternalError);
        }
        proof {
            loaded_stays_loaded(self@, w1.journal, from@);
        }
        self.move_value(from, to, value)
    }

    /// Makes room for a new contract. `false` where something is there already: code, a nonce or a
    /// precompile.
    pub fn create_account<DB: Database>(
        &mut self,
        address: H160,
        is_precompile: bool,
        db: &mut DB,
    ) -> (r: Result<bool, DB::Error>)
        ensures
            (World { journal: final(self)@, db: *final(db) }, r) == (World {
                journal: old(self)@,
                db: *old(db),
            }).create_account(address@, is_precompile),
    {
        proof {
            load_code_extends(World { journal: self@, db: *db }, address@);
        }
        match self.load_code(address, db) {
            Ok(_) => {},
            Err(e) => return Err(e),
        }
        if let Some(account) = self.state.get(&address) {
            let has_code = match &account.info.code {
                Some(code) => code.bytes.len() > 0,
                None => false,
            };
            if has_code || account.info.nonce != 0 || is_precompile {
                return Ok(false);
            }
            let mut fields = account.fields();
            fields.storage_cleared = true;
            self.set_fields(address, fields);
        }
        Ok(true)
    }

    /// Loads a slot of a loaded account, and returns its value and whether it was cold.
    pub fn sload<DB: Database>(&mut self, address: H160, index: U256, db: &mut DB) -> (r: Result<
        (U256, bool),
        DB::Error,
    >)
        requires
            old(self)@.has(address@),
        ensures
            (World { journal: final(self)@, db: *final(db) }, slot_read_view(r)) == (World {
                journal: old(self)@,
                db: *old(db),
            }).sload(address@, index@),
    {
        let mut is_new = false;
        if let Some(account) = self.state.get(&address) {
            if let Some(slot) = account.storage.get(&index) {
                return Ok((slot.present_value, false));
            }
            is_new = account.storage_cleared;
        }
        let value = if is_new {
            U256::zero()
        } else {
            match db.storage(address, index) {
                Ok(value) => value,
                Err(e) => return Err(e),
            }
        };
        self.set_slot(
            address,
            index,
            StorageSlot { original_value: value, present_value: value },
        );
        Ok((value, true))
    }

    /// Writes a slot of a loaded account, and returns its value before the transaction, its value
    /// before the write, the value written, and whether the slot was cold.
    pub fn sstore<DB: Database>(
        &mut self,
        address: H160,
        index: U256,
        value: U256,
        db: &mut DB,
    ) -> (r: Result<(U256, U256, U256, bool), DB::Error>)
        requires
            old(self)@.has(address@),
        ensures
            (World { journal: final(self)@, db: *final(db) }, slot_write_view(r)) == (World {
                journal: old(self)@,
                db: *old(db),
            }).sstore(address@, index@, value@),
    {
        proof {
            sload_extends(World { journal: self@, db: *db }, address@, index@);
        }
        let (present, is_cold) = match self.sload(address, index, db) {
            Ok(read) => read,
            Err(e) => return Err(e),
        };
        let mut original = U256::zero();
        if let Some(account) = self.state.get(&address) {
            if let Some(slot) = account.storage.get(&index) {
                original = slot.original_value;
            }
        }
        if !present.equals(&value) {
            self.set_slot(
                address,
                index,
                StorageSlot { original_value: original, present_value: value },
            );
        }
        Ok((original, present, value, is_cold))
    }

    fn destroy(&mut self, address: &H160, target: &H160)
        requires
            old(self)@.has(address@),
            old(self)@.has(target@),
        ensures
            final(self)@ == old(self)@.destroy(address@, target@),
    {
        let balance = match self.state.get(address) {
            Some(account) => account.info.balance,
            None => U256::zero(),
        };
        if !same_address(address, target) {
            self.touch(target);
            let had = match self.state.get(target) {
                Some(account) => account.info.balance,
                None => U256::zero(),
            };
            self.set_balance(*target, had.saturating_add(balance));
        }
        if let Some(account) = self.state.get(address) {
            let mut fields = account.fields();
            fields.balance = U256::zero();
            fields.is_destroyed = true;
            self.set_fields(*address, fields);
        }
    }

    /// Destroys a loaded account, and moves its balance to `target`.
    pub fn selfdestruct<DB: Database>(&mut self, address: H160, target: H160, db: &mut DB) -> (r:
        Result<SelfDestructResult, DB::Error>)
        requires
            old(self)@.has(address@),
        ensures
            (World { journal: final(self)@, db: *final(db) }, r) == (World {
                journal: old(self)@,
                db: *old(db),
            }).selfdestruct(address@, target@),
    {
        let ghost before = self@;
        proof {
            load_code_extends(World { journal: self@, db: *db }, target@);
        }
        let (is_cold, is_new) = match self.load_account_exist(target, db) {
            Ok(found) => found,
            Err(e) => return Err(e),
        };
        proof {
            loaded_stays_loaded(self@, before, address@);
        }
        let mut had_value = false;
        let mut previously_destroyed = false;
        if let Some(account) = self.state.get(&address) {
            had_value = !account.info.balance.is_zero();
            previously_destroyed = account.is_destroyed;
        }
        self.destroy(&address, &target);
        Ok(SelfDestructResult { had_value, exists: !is_new, is_cold, previously_destroyed })
    }
}

/// The value of the result of [`JournaledState::sload`].
pub open spec fn slot_read_view<E>(r: Result<(U256, bool), E>) -> Result<(nat, bool), E> {
    match r {
        Ok((value, is_cold)) => Ok((value@, is_cold)),
        Err(e) => Err(e),
    }
}

/// The value of the result of [`JournaledState::sstore`].
pub open spec fn slot_write_view<E>(r: Result<(U256, U256, U256, bool), E>) -> Result<
    (nat, nat, nat, bool),
    E,
> {
    match r {
        Ok((original, present, new, is_cold)) => Ok((original@, present@, new@, is_cold)),
        Err(e) => Err(e),
    }
}

} // verus!
