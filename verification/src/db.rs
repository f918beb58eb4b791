//! The database that accounts, code, storage and block hashes come from.
use crate::hash::{keccak256, keccak256_digest};
use crate::models::{raw_code, AccountInfo, AccountInfoView, Bytecode, BytecodeView};
use crate::primitives::{big_endian, u256_to_big_endian, H160, H256, U256};
use vstd::prelude::*;

verus! {

/// A source of accounts, code, storage and block hashes.
///
/// A question may change the database, and it may fail. What a database in a given state answers
/// to a question, and the state that the question leaves it in, are named by the `answer_*`
/// functions; they are the implementation's own, and nothing is asked of them here. What lies
/// behind a database, such as a disk or a server, belongs to that state: two databases are the same
/// only if they would answer the same. So a database that asks a server holds a handle to it that
/// is not looked into, and that stands for the server as it is.
pub trait Database: Sized {
    /// What a failed question comes back with.
    type Error;

    /// The answer to [`Database::basic`], and the database after it.
    closed spec fn answer_basic(&self, address: Seq<u8>) -> (
        Result<Option<AccountInfoView>, Self::Error>,
        Self,
    ) {
        arbitrary()
    }

    /// The answer to [`Database::code_by_hash`], and the database after it.
    closed spec fn answer_code(&self, hash: Seq<u8>) -> (Result<BytecodeView, Self::Error>, Self) {
        arbitrary()
    }

    /// The answer to [`Database::storage`], and the database after it.
    closed spec fn answer_storage(&self, address: Seq<u8>, index: nat) -> (Result<nat, Self::Error>, Self) {
        arbitrary()
    }

    /// The answer to [`Database::block_hash`], and the database after it.
    closed spec fn answer_block_hash(&self, number: nat) -> (Result<Seq<u8>, Self::Error>, Self) {
        arbitrary()
    }

    /// What is known of the account, `None` where there is no such account.
    fn basic(&mut self, address: H160) -> (r: Result<Option<AccountInfo>, Self::Error>)
        ensures
            (basic_view(r), *final(self)) == old(self).answer_basic(address@),
    ;

    /// The code with the hash.
    fn code_by_hash(&mut self, hash: H256) -> (r: Result<Bytecode, Self::Error>)
        ensures
            (code_answer_view(r), *final(self)) == old(self).answer_code(hash@),
    ;

    /// The value of a slot of an account.
    fn storage(&mut self, address: H160, index: U256) -> (r: Result<U256, Self::Error>)
        ensures
            (word_view(r), *final(self)) == old(self).answer_storage(address@, index@),
    ;

    /// The hash of the block with the number.
    fn block_hash(&mut self, number: U256) -> (r: Result<H256, Self::Error>)
        ensures
            (hash_view(r), *final(self)) == old(self).answer_block_hash(number@),
    ;
}

/// The value of the result of [`Database::basic`].
pub open spec fn basic_view<E>(r: Result<Option<AccountInfo>, E>) -> Result<
    Option<AccountInfoView>,
    E,
> {
    match r {
        Ok(Some(info)) => Ok(Some(info@)),
        Ok(None) => Ok(None),
        Err(e) => Err(e),
    }
}

/// The value of the result of [`Database::code_by_hash`].
pub open spec fn code_answer_view<E>(r: Result<Bytecode, E>) -> Result<BytecodeView, E> {
    match r {
        Ok(code) => Ok(code@),
        Err(e) => Err(e),
    }
}

/// The value of the result of [`Database::storage`].
pub open spec fn word_view<E>(r: Result<U256, E>) -> Result<nat, E> {
    match r {
        Ok(word) => Ok(word@),
        Err(e) => Err(e),
    }
}

/// The value of the result of [`Database::block_hash`].
pub open spec fn hash_view<E>(r: Result<H256, E>) -> Result<Seq<u8>, E> {
    match r {
        Ok(hash) => Ok(hash@),
        Err(e) => Err(e),
    }
}

/// The databases are closed under questions, and none of them fails.
pub open spec fn never_fail<DB: Database>(states: Set<DB>) -> bool {
    &&& forall|db: DB, address: Seq<u8>|
        states.contains(db) ==> (#[trigger] db.answer_basic(address)).0 is Ok && states.contains(
            db.answer_basic(address).1,
        )
    &&& forall|db: DB, hash: Seq<u8>|
        states.contains(db) ==> (#[trigger] db.answer_code(hash)).0 is Ok && states.contains(
            db.answer_code(hash).1,
        )
    &&& forall|db: DB, address: Seq<u8>, index: nat|
        states.contains(db) ==> (#[trigger] db.answer_storage(address, index)).0 is Ok
            && states.contains(db.answer_storage(address, index).1)
    &&& forall|db: DB, number: nat|
        states.contains(db) ==> (#[trigger] db.answer_block_hash(number)).0 is Ok
            && states.contains(db.answer_block_hash(number).1)
}

/// The database does not fail, whatever it is asked from now on.
pub open spec fn is_sound<DB: Database>(db: DB) -> bool {
    exists|states: Set<DB>| #[trigger] never_fail(states) && states.contains(db)
}

/// A sound database answers, and stays sound.
pub proof fn sound_answers<DB: Database>(db: DB)
    requires
        is_sound(db),
    ensures
        forall|address: Seq<u8>|
            (#[trigger] db.answer_basic(address)).0 is Ok && is_sound(db.answer_basic(address).1),
        forall|hash: Seq<u8>|
            (#[trigger] db.answer_code(hash)).0 is Ok && is_sound(db.answer_code(hash).1),
        forall|address: Seq<u8>, index: nat|
            (#[trigger] db.answer_storage(address, index)).0 is Ok && is_sound(
                db.answer_storage(address, index).1,
            ),
        forall|number: nat|
            (#[trigger] db.answer_block_hash(number)).0 is Ok && is_sound(
                db.answer_block_hash(number).1,
            ),
{
    let states = choose|states: Set<DB>| #[trigger] never_fail(states) && states.contains(db);
    assert(never_fail(states));
}

/// A database without accounts never fails.
pub proof fn empty_db_is_sound(db: EmptyDB)
    ensures
        is_sound(db),
{
    assert(never_fail(Set::<EmptyDB>::full()));
}

/// A database without accounts. The hash of a block is the hash of its number.
#[derive(Clone, Copy, Debug)]
pub struct EmptyDB;

impl Database for EmptyDB {
    type Error = ();

    open spec fn answer_basic(&self, address: Seq<u8>) -> (
        Result<Option<AccountInfoView>, ()>,
        Self,
    ) {
        (Ok(None), *self)
    }

    open spec fn answer_code(&self, hash: Seq<u8>) -> (Result<BytecodeView, ()>, Self) {
        (Ok(raw_code(Seq::empty())), *self)
    }

    open spec fn answer_storage(&self, address: Seq<u8>, index: nat) -> (Result<nat, ()>, Self) {
        (Ok(0), *self)
    }

    open spec fn answer_block_hash(&self, number: nat) -> (Result<Seq<u8>, ()>, Self) {
        (Ok(keccak256_digest(big_endian(number, 32))), *self)
    }

    fn basic(&mut self, address: H160) -> (r: Result<Option<AccountInfo>, ()>) {
        Ok(None)
    }

    fn code_by_hash(&mut self, hash: H256) -> (r: Result<Bytecode, ()>) {
        Ok(Bytecode::new_raw(Vec::new()))
    }

    fn storage(&mut self, address: H160, index: U256) -> (r: Result<U256, ()>) {
        Ok(U256::zero())
    }

    fn block_hash(&mut self, number: U256) -> (r: Result<H256, ()>) {
        Ok(keccak256(&u256_to_big_endian(&number)))
    }
}

} // verus!
