//! What is brought from the database, and what a host answers from it.
use crate::data::DataView;
use crate::db::Database;
use crate::journal_effect_laws::only_account_changed;
use crate::journal_model::{JournalView, World};
use crate::models::{AccountInfoView, BytecodeView, Return, SelfDestructResult, KECCAK_EMPTY};
use crate::primitives::u256_max;
use crate::state::{AccountView, StorageSlotView};
use vstd::prelude::*;

verus! {

/// An account that was just loaded, from what the database knows of it.
pub open spec fn known_as(info: Option<AccountInfoView>, account: AccountView) -> bool {
    &&& account.storage == Map::<nat, StorageSlotView>::empty()
    &&& !account.fields.storage_cleared
    &&& !account.fields.is_destroyed
    &&& !account.fields.is_touched
    &&& match info {
        Some(info) => {
            &&& account.fields.balance == info.balance
            &&& account.fields.nonce == info.nonce
            &&& account.fields.code_hash == info.code_hash
            &&& account.code == info.code
            &&& !account.fields.is_not_existing
        },
        None => {
            &&& account.fields.balance == 0
            &&& account.fields.nonce == 0
            &&& account.fields.code_hash == KECCAK_EMPTY@
            &&& account.code is None
            &&& account.fields.is_not_existing
        },
    }
}

/// Code that has been brought for a hash: empty code for the hash of empty code, else what the
/// database answered.
pub open spec fn code_is_known<DB: Database>(hash: Seq<u8>, code: BytecodeView) -> bool {
    if hash == KECCAK_EMPTY@ {
        &&& code.bytes.len() == 0
        &&& code.hash == KECCAK_EMPTY@
        &&& code.analysis is Raw
        &&& code.table.len() == 0
    } else {
        exists|db: DB| (#[trigger] db.answer_code(hash)).0 == Ok::<BytecodeView, DB::Error>(code)
    }
}

/// The account is as it was, but that its code may have been brought.
pub open spec fn brought<DB: Database>(had: AccountView, has: AccountView) -> bool {
    &&& has.fields == had.fields
    &&& has.storage == had.storage
    &&& had.code is Some ==> has.code == had.code
    &&& had.code is None && has.code is Some ==> code_is_known::<DB>(
        had.fields.code_hash,
        has.code->0,
    )
}

/// The account is as the database knows it.
pub open spec fn is_answered<DB: Database>(address: Seq<u8>, account: AccountView) -> bool {
    exists|db: DB, info: Option<AccountInfoView>|
        (#[trigger] db.answer_basic(address)).0 == Ok::<Option<AccountInfoView>, DB::Error>(info)
            && #[trigger] known_as(info, account)
}

/// The account was not loaded, and now is as the database knows it, perhaps with its code.
pub open spec fn is_new_here<DB: Database>(address: Seq<u8>, account: AccountView) -> bool {
    exists|first: AccountView| #[trigger]
        is_answered::<DB>(address, first) && brought::<DB>(first, account)
}

/// Nothing happened but that accounts and code were brought from the database.
pub open spec fn only_loads<DB: Database>(before: JournalView, after: JournalView) -> bool {
    &&& after.logs == before.logs
    &&& after.depth == before.depth
    &&& after.is_before_spurious_dragon == before.is_before_spurious_dragon
    &&& after.num_of_precompiles == before.num_of_precompiles
    &&& forall|a: Seq<u8>|
        #![trigger after.accounts.contains_key(a)]
        #![trigger before.accounts.contains_key(a)]
        {
            &&& before.accounts.contains_key(a) ==> after.accounts.contains_key(a) && brought::<DB>(
                before.accounts[a],
                after.accounts[a],
            )
            &&& after.accounts.contains_key(a) && !before.accounts.contains_key(a) ==> is_new_here::<
                DB,
            >(a, after.accounts[a])
        }
}

/// What was brought in two steps was brought.
pub proof fn only_loads_in_steps<DB: Database>(a: JournalView, b: JournalView, c: JournalView)
    requires
        only_loads::<DB>(a, b),
        only_loads::<DB>(b, c),
    ensures
        only_loads::<DB>(a, c),
{
    assert forall|x: Seq<u8>| #![trigger c.accounts.contains_key(x)] #![trigger a.accounts.contains_key(x)]
    {
        &&& a.accounts.contains_key(x) ==> c.accounts.contains_key(x) && brought::<DB>(
            a.accounts[x],
            c.accounts[x],
        )
        &&& c.accounts.contains_key(x) && !a.accounts.contains_key(x) ==> is_new_here::<DB>(
            x,
            c.accounts[x],
        )
    } by {
        assert(b.accounts.contains_key(x) || !b.accounts.contains_key(x));
        if !a.accounts.contains_key(x) && b.accounts.contains_key(x) {
            let first = choose|first: AccountView| #[trigger]
                is_answered::<DB>(x, first) && brought::<DB>(first, b.accounts[x]);
            assert(brought::<DB>(first, c.accounts[x]));
        }
    }
}

/// Loading an account that is loaded does nothing, and it is warm. One that is not is asked for,
/// once: it is then as the database knows it, and cold unless it has the address of a precompile. A
/// failure comes back, and loads nothing.
pub proof fn load_account_brings<DB: Database>(w: World<DB>, address: Seq<u8>)
    ensures
        ({
            let (after, r) = w.load_account(address);
            let asked = w.db.answer_basic(address);
            &&& only_loads::<DB>(w.journal, after.journal)
            &&& only_account_changed(w.journal, after.journal, address)
            &&& if w.journal.accounts.contains_key(address) {
                &&& after == w
                &&& r == Ok::<bool, DB::Error>(false)
            } else {
                &&& after.db == asked.1
                &&& match asked.0 {
                    Ok(info) => {
                        &&& after.journal.accounts.contains_key(address)
                        &&& known_as(info, after.journal.accounts[address])
                        &&& r matches Ok(is_cold)
                        &&& is_cold <==> !(forall|i: int| 0 <= i < 18 ==> address[i] == 0)
                            || address[18] * 256 + address[19] == 0 || address[18] * 256
                            + address[19] > w.journal.num_of_precompiles
                    },
                    Err(e) => {
                        &&& after.journal == w.journal
                        &&& r == Err::<bool, DB::Error>(e)
                    },
                }
            }
        }),
{
    let (after, r) = w.load_account(address);
    if !w.journal.accounts.contains_key(address) {
        match w.db.answer_basic(address).0 {
            Ok(info) => {
                let account = after.journal.accounts[address];
                assert(known_as(info, account));
                assert(is_answered::<DB>(address, account));
                assert(brought::<DB>(account, account));
            },
            Err(_) => {},
        }
    }
}

/// Loading code loads the account, and brings its code where it is not at hand: none is asked for
/// where the account has the hash of empty code. A failure comes back.
pub proof fn load_code_brings<DB: Database>(w: World<DB>, address: Seq<u8>)
    ensures
        ({
            let (loaded, first) = w.load_account(address);
            let (after, r) = w.load_code(address);
            let hash = loaded.journal.accounts[address].fields.code_hash;
            let asked = loaded.db.answer_code(hash);
            &&& only_loads::<DB>(w.journal, after.journal)
            &&& only_account_changed(w.journal, after.journal, address)
            &&& first is Err ==> (after, r) == (loaded, first)
            &&& first is Ok && loaded.journal.accounts[address].code is Some ==> (after, r) == (
                loaded,
                first,
            )
            &&& first is Ok && loaded.journal.accounts[address].code is None ==> {
                if hash == KECCAK_EMPTY@ {
                    &&& r == first
                    &&& after.db == loaded.db
                    &&& after.journal.accounts[address].code is Some
                } else {
                    &&& after.db == asked.1
                    &&& match asked.0 {
                        Ok(code) => {
                            &&& r == first
                            &&& after.journal.accounts[address].code == Some(code)
                        },
                        Err(e) => {
                            &&& r == Err::<bool, DB::Error>(e)
                            &&& after.journal == loaded.journal
                        },
                    }
                }
            }
            &&& r is Ok ==> {
                &&& after.journal.accounts.contains_key(address)
                &&& brought::<DB>(
                    loaded.journal.accounts[address],
                    after.journal.accounts[address],
                )
                &&& after.journal.accounts[address].code is Some
            }
        }),
{
    load_account_brings(w, address);
    let (loaded, first) = w.load_account(address);
    let (after, r) = w.load_code(address);
    if first is Ok {
        let had = loaded.journal.accounts[address];
        let has = after.journal.accounts[address];
        if had.code is None && has.code is Some && had.fields.code_hash != KECCAK_EMPTY@ {
            let asked = loaded.db.answer_code(had.fields.code_hash);
            assert(asked.0 == Ok::<BytecodeView, DB::Error>(has.code->0));
        }
        assert(brought::<DB>(had, has));
        assert(only_loads::<DB>(loaded.journal, after.journal));
        only_loads_in_steps::<DB>(w.journal, loaded.journal, after.journal);
    }
}

/// A host that loads an account says whether it was cold, and whether it is new: since Spurious
/// Dragon where it has no balance, no nonce and no code, before it where the database does not know
/// it and nothing touched it. A failure is kept on record, and nothing is said.
pub proof fn host_loads_account<DB: Database>(d: DataView<DB>, address: Seq<u8>)
    ensures
        ({
            let (after, r) = d.load_account(address);
            let (world, loaded) = d.world().load_code(address);
            let account = after.journal.accounts[address];
            &&& after.env == d.env
            &&& after.journal == world.journal
            &&& after.db == world.db
            &&& only_loads::<DB>(d.journal, after.journal)
            &&& match loaded {
                Ok(cold) => {
                    &&& after.error == d.error
                    &&& r matches Some((is_cold, is_new))
                    &&& is_cold == cold
                    &&& d.journal.is_before_spurious_dragon ==> is_new == (
                    account.fields.is_not_existing && !account.fields.is_touched)
                    &&& !d.journal.is_before_spurious_dragon ==> is_new == (account.fields.balance
                        == 0 && account.fields.nonce == 0 && account.fields.code_hash
                        == KECCAK_EMPTY@)
                },
                Err(e) => {
                    &&& after.error == Some(e)
                    &&& r is None
                },
            }
        }),
{
    load_code_brings(d.world(), address);
}

/// A host answers the balance of the account that it was asked for, and whether that was cold.
pub proof fn host_answers_balance<DB: Database>(d: DataView<DB>, address: Seq<u8>)
    ensures
        ({
            let (after, r) = d.balance(address);
            let (world, loaded) = d.world().load_account(address);
            &&& after.env == d.env
            &&& after.journal == world.journal
            &&& after.db == world.db
            &&& only_loads::<DB>(d.journal, after.journal)
            &&& match loaded {
                Ok(cold) => {
                    &&& after.error == d.error
                    &&& r == Some((after.journal.accounts[address].fields.balance, cold))
                },
                Err(e) => {
                    &&& after.error == Some(e)
                    &&& r is None
                },
            }
        }),
{
    load_account_brings(d.world(), address);
}

/// A host answers the code of the account that it was asked for, and whether that was cold.
pub proof fn host_answers_code<DB: Database>(d: DataView<DB>, address: Seq<u8>)
    ensures
        ({
            let (after, r) = d.code(address);
            let (world, loaded) = d.world().load_code(address);
            &&& after.env == d.env
            &&& after.journal == world.journal
            &&& after.db == world.db
            &&& only_loads::<DB>(d.journal, after.journal)
            &&& match loaded {
                Ok(cold) => {
                    &&& after.error == d.error
                    &&& r matches Some((code, is_cold))
                    &&& after.journal.accounts[address].code == Some(code)
                    &&& is_cold == cold
                },
                Err(e) => {
                    &&& after.error == Some(e)
                    &&& r is None
                },
            }
        }),
{
    load_code_brings(d.world(), address);
}

/// A host answers the hash of the code of the account that it was asked for: zeros for an account
/// without balance, nonce and code; the hash of empty code for a precompile that is taken to have a
/// balance.
pub proof fn host_answers_code_hash<DB: Database>(
    d: DataView<DB>,
    address: Seq<u8>,
    is_precompile: bool,
)
    ensures
        ({
            let (after, r) = d.code_hash(address, is_precompile);
            let (world, loaded) = d.world().load_code(address);
            let fields = after.journal.accounts[address].fields;
            &&& after.env == d.env
            &&& after.journal == world.journal
            &&& after.db == world.db
            &&& match loaded {
                Ok(cold) => {
                    &&& after.error == d.error
                    &&& r matches Some((hash, is_cold))
                    &&& is_cold == cold
                    &&& if is_precompile && d.env.cfg.perf_all_precompiles_have_balance {
                        hash == KECCAK_EMPTY@
                    } else if fields.balance == 0 && fields.nonce == 0 && fields.code_hash
                        == KECCAK_EMPTY@ {
                        hash.len() == 32 && forall|i: int| 0 <= i < 32 ==> hash[i] == 0
                    } else {
                        hash == fields.code_hash
                    }
                },
                Err(e) => {
                    &&& after.error == Some(e)
                    &&& r is None
                },
            }
        }),
{
    load_code_brings(d.world(), address);
}

/// A host answers the hash of a block from the database; a failure is kept on record.
pub proof fn host_answers_block_hash<DB: Database>(d: DataView<DB>, number: nat)
    ensures
        ({
            let (after, r) = d.block_hash(number);
            let asked = d.db.answer_block_hash(number);
            &&& after.env == d.env
            &&& after.journal == d.journal
            &&& after.db == asked.1
            &&& match asked.0 {
                Ok(hash) => r == Some(hash) && after.error == d.error,
                Err(e) => r is None && after.error == Some(e),
            }
        }),
{
}

/// What a slot of a loaded account holds when it is asked for: what it was last given; else, where
/// it was not seen yet, zero for a new contract, and what the database says for another account.
pub proof fn host_answers_slot<DB: Database>(d: DataView<DB>, address: Seq<u8>, index: nat)
    requires
        d.journal.accounts.contains_key(address),
    ensures
        ({
            let (after, r) = d.sload(address, index);
            let had = d.journal.accounts[address];
            let has = after.journal.accounts[address];
            let asked = d.db.answer_storage(address, index);
            &&& after.env == d.env
            &&& only_account_changed(d.journal, after.journal, address)
            &&& after.journal.accounts.contains_key(address)
            &&& has.fields == had.fields
            &&& has.code == had.code
            &&& forall|other: nat|
                other != index ==> {
                    &&& #[trigger] has.storage.contains_key(other) == had.storage.contains_key(other)
                    &&& had.storage.contains_key(other) ==> has.storage[other]
                        == had.storage[other]
                }
            &&& if had.storage.contains_key(index) {
                &&& after == d
                &&& r == Some((had.storage[index].present_value, false))
            } else if !had.fields.storage_cleared && asked.0 is Err {
                &&& after.db == asked.1
                &&& after.journal == d.journal
                &&& after.error == Some(asked.0->Err_0)
                &&& r is None
            } else {
                let value = if had.fields.storage_cleared {
                    0
                } else {
                    asked.0->Ok_0
                };
                &&& after.error == d.error
                &&& after.db == if had.fields.storage_cleared {
                    d.db
                } else {
                    asked.1
                }
                &&& has.storage.contains_key(index)
                &&& has.storage[index].original_value == value
                &&& has.storage[index].present_value == value
                &&& r == Some((value, true))
            }
        }),
{
}

/// A write to a slot of a loaded account leaves the value there, and says what the slot held before
/// the transaction, what it held just now, what it holds, and whether it was cold. Nothing else is
/// changed.
pub proof fn host_writes_slot<DB: Database>(d: DataView<DB>, address: Seq<u8>, index: nat, value: nat)
    requires
        d.journal.accounts.contains_key(address),
    ensures
        ({
            let (read, found) = d.sload(address, index);
            let (after, r) = d.sstore(address, index, value);
            let had = d.journal.accounts[address];
            let seen = read.journal.accounts[address];
            let has = after.journal.accounts[address];
            &&& after.env == d.env
            &&& after.db == read.db
            &&& after.error == read.error
            &&& only_account_changed(d.journal, after.journal, address)
            &&& has.fields == had.fields
            &&& has.code == had.code
            &&& forall|other: nat|
                other != index ==> {
                    &&& #[trigger] has.storage.contains_key(other) == had.storage.contains_key(other)
                    &&& had.storage.contains_key(other) ==> has.storage[other]
                        == had.storage[other]
                }
            &&& match found {
                None => r is None && after == read,
                Some((present, is_cold)) => {
                    &&& r == Some((seen.storage[index].original_value, present, value, is_cold))
                    &&& has.storage.contains_key(index)
                    &&& has.storage[index].present_value == value
                    &&& has.storage[index].original_value == seen.storage[index].original_value
                },
            }
        }),
{
}

/// Nothing is read, written or destroyed of an account that is not loaded.
pub proof fn host_needs_a_loaded_account<DB: Database>(
    d: DataView<DB>,
    address: Seq<u8>,
    index: nat,
    value: nat,
    target: Seq<u8>,
)
    requires
        !d.journal.accounts.contains_key(address),
    ensures
        d.sload(address, index) == (d, None::<(nat, bool)>),
        d.sstore(address, index, value) == (d, None::<(nat, nat, nat, bool)>),
        d.selfdestruct(address, target) == (d, None::<SelfDestructResult>),
{
}

/// A loaded account that destroys itself is marked and left without balance, and the balance goes
/// to the target, which is loaded and touched. It is said whether there was a balance, whether the
/// target was there, whether it was cold, and whether the account was marked already. A failure to
/// load the target is kept on record, and destroys nothing.
pub proof fn host_destroys<DB: Database>(d: DataView<DB>, address: Seq<u8>, target: Seq<u8>)
    requires
        d.journal.accounts.contains_key(address),
    ensures
        ({
            let (after, r) = d.selfdestruct(address, target);
            let (loaded, found) = d.load_account(target);
            let had = d.journal.accounts[address].fields;
            let has = after.journal.accounts[address].fields;
            let other = loaded.journal.accounts[target].fields.balance;
            &&& after.env == d.env
            &&& after.db == loaded.db
            &&& after.error == loaded.error
            &&& match found {
                None => r is None && after.journal == loaded.journal,
                Some((is_cold, is_new)) => {
                    &&& r matches Some(result)
                    &&& result.had_value == (had.balance != 0)
                    &&& result.exists == !is_new
                    &&& result.is_cold == is_cold
                    &&& result.previously_destroyed == had.is_destroyed
                    &&& after.journal.accounts.contains_key(address)
                    &&& has.is_destroyed
                    &&& has.balance == 0
                    &&& has.nonce == had.nonce
                    &&& has.code_hash == had.code_hash
                    &&& address != target ==> {
                        let gets = after.journal.accounts[target].fields;
                        &&& after.journal.accounts.contains_key(target)
                        &&& gets.is_touched
                        &&& had.balance + other <= u256_max() ==> gets.balance == had.balance
                            + other
                        &&& had.balance + other > u256_max() ==> gets.balance == u256_max()
                    }
                    &&& after.journal.logs == d.journal.logs
                    &&& after.journal.depth == d.journal.depth
                    &&& forall|a: Seq<u8>|
                        a != address && a != target ==> {
                            &&& #[trigger] after.journal.accounts.contains_key(a)
                                == d.journal.accounts.contains_key(a)
                            &&& d.journal.accounts.contains_key(a) ==> after.journal.accounts[a]
                                == d.journal.accounts[a]
                        }
                },
            }
        }),
{
    load_code_brings(d.world(), target);
    let loaded = d.load_account(target).0;
    assert(loaded.journal.accounts.contains_key(address));
    assert(brought::<DB>(d.journal.accounts[address], loaded.journal.accounts[address]));
}

/// A transfer loads both accounts and moves the value; it fails for a failure of the database, for
/// too small a balance and for too large a sum, and for nothing else.
pub proof fn transfer_transfers<DB: Database>(w: World<DB>, from: Seq<u8>, to: Seq<u8>, value: nat)
    ensures
        ({
            let (first, r1) = w.load_account(from);
            let (loaded, r2) = first.load_account(to);
            let (after, r) = w.transfer(from, to, value);
            &&& r1 is Err ==> after == first && r == Err::<(), Return>(
                Return::FatalExternalError,
            )
            &&& r1 is Ok && r2 is Err ==> after == loaded && r == Err::<(), Return>(
                Return::FatalExternalError,
            )
            &&& r1 is Ok && r2 is Ok ==> {
                &&& after.db == loaded.db
                &&& loaded.journal.accounts.contains_key(from)
                &&& loaded.journal.accounts.contains_key(to)
                &&& (after.journal, r) == loaded.journal.move_value(from, to, value)
            }
            &&& only_loads::<DB>(w.journal, loaded.journal)
        }),
{
    let first = w.load_account(from).0;
    load_account_brings(w, from);
    load_account_brings(first, to);
    only_loads_in_steps::<DB>(w.journal, first.journal, first.load_account(to).0.journal);
}

/// Room is made for a contract where the account has no code and no nonce and is no precompile: it
/// is then loaded, marked to have no storage in the database, and otherwise as it was.
pub proof fn room_is_made<DB: Database>(w: World<DB>, address: Seq<u8>, is_precompile: bool)
    ensures
        ({
            let (loaded, found) = w.load_code(address);
            let (after, r) = w.create_account(address, is_precompile);
            let had = loaded.journal.accounts[address];
            let has = after.journal.accounts[address];
            &&& after.db == loaded.db
            &&& only_account_changed(w.journal, after.journal, address)
            &&& match found {
                Err(e) => r == Err::<bool, DB::Error>(e) && after.journal == loaded.journal,
                Ok(_) => {
                    &&& after.journal.accounts.contains_key(address)
                    &&& r matches Ok(free)
                    &&& free <==> had.code->0.bytes.len() == 0 && had.fields.nonce == 0
                        && !is_precompile
                    &&& !free ==> after.journal == loaded.journal
                    &&& free ==> {
                        &&& has.fields.storage_cleared
                        &&& has.fields.balance == had.fields.balance
                        &&& has.fields.nonce == 0
                        &&& has.fields.code_hash == had.fields.code_hash
                        &&& has.fields.is_touched == had.fields.is_touched
                        &&& has.fields.is_destroyed == had.fields.is_destroyed
                        &&& has.fields.is_not_existing == had.fields.is_not_existing
                        &&& has.code == had.code
                        &&& has.storage == had.storage
                    }
                },
            }
        }),
{
    load_code_brings(w, address);
}

} // verus!
