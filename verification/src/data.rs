//! What a transaction works on, and what its host answers from it.
use crate::db::{is_sound, Database};
use crate::journal_model::{JournalView, World};
use crate::journaled_state::JournaledState;
use crate::models::{Bytecode, BytecodeView, Env, SelfDestructResult, KECCAK_EMPTY};
use crate::primitives::{H256, U256};
use vstd::prelude::*;

verus! {

/// What a transaction works on.
pub struct EVMData<'a, DB: Database> {
    pub env: &'a mut Env,
    pub journaled_state: JournaledState,
    pub db: &'a mut DB,
    /// The last failure of the database that the host met.
    pub error: Option<DB::Error>,
}

/// The value of [`EVMData`].
pub struct DataView<DB: Database> {
    pub env: Env,
    pub journal: JournalView,
    pub db: DB,
    pub error: Option<DB::Error>,
}

impl<'a, DB: Database> View for EVMData<'a, DB> {
    type V = DataView<DB>;

    open spec fn view(&self) -> DataView<DB> {
        DataView {
            env: *self.env,
            journal: self.journaled_state@,
            db: *self.db,
            error: self.error,
        }
    }
}

/// The hash of all zeros.
pub open spec fn zero_hash() -> Seq<u8> {
    Seq::new(32, |i: int| 0u8)
}

impl<DB: Database> DataView<DB> {
    /// The journal and the database.
    pub open spec fn world(self) -> World<DB> {
        World { journal: self.journal, db: self.db }
    }

    /// With another journal and database.
    pub open spec fn put(self, world: World<DB>) -> DataView<DB> {
        DataView { journal: world.journal, db: world.db, ..self }
    }

    /// With another journal.
    pub open spec fn with(self, journal: JournalView) -> DataView<DB> {
        DataView { journal, ..self }
    }

    /// After an attempt of which `r` came back: a failure is kept, and `None` is answered.
    pub open spec fn settle<A>(self, r: Result<A, DB::Error>) -> (DataView<DB>, Option<A>) {
        match r {
            Ok(answer) => (self, Some(answer)),
            Err(e) => (DataView { error: Some(e), ..self }, None),
        }
    }

    /// The hash of a block.
    pub open spec fn block_hash(self, number: nat) -> (DataView<DB>, Option<Seq<u8>>) {
        let (answer, db) = self.db.answer_block_hash(number);
        DataView { db, ..self }.settle(answer)
    }

    /// Loads an account, and says whether it was cold and whether it is new.
    pub open spec fn load_account(self, address: Seq<u8>) -> (DataView<DB>, Option<(bool, bool)>) {
        let (world, r) = self.world().load_account_exist(address);
        self.put(world).settle(r)
    }

    /// The balance of an account, and whether it was cold.
    pub open spec fn balance(self, address: Seq<u8>) -> (DataView<DB>, Option<(nat, bool)>) {
        let (world, r) = self.world().load_account(address);
        let (data, answer) = self.put(world).settle(r);
        match answer {
            Some(is_cold) => (data, Some((world.journal.balance(address), is_cold))),
            None => (data, None),
        }
    }

    /// The code of an account, and whether it was cold.
    pub open spec fn code(self, address: Seq<u8>) -> (DataView<DB>, Option<(BytecodeView, bool)>) {
        let (world, r) = self.world().load_code(address);
        let (data, answer) = self.put(world).settle(r);
        match answer {
            Some(is_cold) => (data, Some((world.journal.accounts[address].code->0, is_cold))),
            None => (data, None),
        }
    }

    /// The hash of the code of an account, and whether it was cold. An empty account has the zero
    /// hash; a precompile that is taken to have a balance has the hash of empty code.
    pub open spec fn code_hash(self, address: Seq<u8>, is_precompile: bool) -> (
        DataView<DB>,
        Option<(Seq<u8>, bool)>,
    ) {
        let (world, r) = self.world().load_code(address);
        let (data, answer) = self.put(world).settle(r);
        let account = world.journal.accounts[address];
        match answer {
            Some(is_cold) => (
                data,
                Some(
                    (
                        if is_precompile && self.env.cfg.perf_all_precompiles_have_balance {
                            KECCAK_EMPTY@
                        } else if account.is_empty() {
                            zero_hash()
                        } else {
                            account.fields.code_hash
                        },
                        is_cold,
                    ),
                ),
            ),
            None => (data, None),
        }
    }

    /// A slot of an account, and whether it was cold; nothing where the account is not loaded.
    pub open spec fn sload(self, address: Seq<u8>, index: nat) -> (
        DataView<DB>,
        Option<(nat, bool)>,
    ) {
        if self.journal.has(address) {
            let (world, r) = self.world().sload(address, index);
            self.put(world).settle(r)
        } else {
            (self, None)
        }
    }

    /// Writes a slot of an account; nothing where the account is not loaded.
    pub open spec fn sstore(self, address: Seq<u8>, index: nat, value: nat) -> (
        DataView<DB>,
        Option<(nat, nat, nat, bool)>,
    ) {
        if self.journal.has(address) {
            let (world, r) = self.world().sstore(address, index, value);
            self.put(world).settle(r)
        } else {
            (self, None)
        }
    }

    /// Destroys an account; nothing where it is not loaded.
    pub open spec fn selfdestruct(self, address: Seq<u8>, target: Seq<u8>) -> (
        DataView<DB>,
        Option<SelfDestructResult>,
    ) {
        if self.journal.has(address) {
            let (world, r) = self.world().selfdestruct(address, target);
            self.put(world).settle(r)
        } else {
            (self, None)
        }
    }

    /// This comes from `base` by steps that keep the journal: it can be undone to that of `base`,
    /// the environment is the same, and the depth is the same too unless the database failed. A
    /// failure of the database is not forgotten; one that does not fail leaves no new one.
    pub open spec fn follows(self, base: DataView<DB>) -> bool {
        &&& self.journal.extends(base.journal)
        &&& self.env == base.env
        &&& base.error is Some ==> self.error is Some
        &&& self.error is None ==> self.journal.depth == base.journal.depth
        &&& is_sound(base.db) ==> {
            &&& is_sound(self.db)
            &&& self.error == base.error
            &&& self.journal.depth == base.journal.depth
        }
    }
}

/// The value of an answer with a word in it.
pub open spec fn word_answer(r: Option<(U256, bool)>) -> Option<(nat, bool)> {
    match r {
        Some((word, is_cold)) => Some((word@, is_cold)),
        None => None,
    }
}

/// The value of an answer with three words in it.
pub open spec fn words_answer(r: Option<(U256, U256, U256, bool)>) -> Option<
    (nat, nat, nat, bool),
> {
    match r {
        Some((a, b, c, is_cold)) => Some((a@, b@, c@, is_cold)),
        None => None,
    }
}

/// The value of an answer with code in it.
pub open spec fn code_answer(r: Option<(Bytecode, bool)>) -> Option<(BytecodeView, bool)> {
    match r {
        Some((code, is_cold)) => Some((code@, is_cold)),
        None => None,
    }
}

/// The value of an answer with a hash in it.
pub open spec fn hash_answer(r: Option<(H256, bool)>) -> Option<(Seq<u8>, bool)> {
    match r {
        Some((hash, is_cold)) => Some((hash@, is_cold)),
        None => None,
    }
}

/// The value of an answer that is a hash.
pub open spec fn plain_hash_answer(r: Option<H256>) -> Option<Seq<u8>> {
    match r {
        Some(hash) => Some(hash@),
        None => None,
    }
}

} // verus!
