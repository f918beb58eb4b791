//! What an interpreter needs of its surroundings.
use crate::db::Database;
use crate::gas::Gas;
use crate::interpreter::Interpreter;
use crate::models::{Bytecode, CallInputs, CreateInputs, Env, Return, SelfDestructResult};
use crate::primitives::{H160, H256, U256};
use crate::spec_id::Spec;
use vstd::prelude::*;

verus! {

/// EVM context host.
pub trait Host {
    const INSPECT: bool;

    type DB: Database;

    type Machine: Interpreter;

    fn step(&mut self, interp: &mut Self::Machine, is_static: bool) -> Return;

    fn step_end(&mut self, interp: &mut Self::Machine, is_static: bool, ret: Return) -> Return;

    fn env(&mut self) -> &mut Env;

    /// load account. Returns (is_cold,is_new_account)
    fn load_account(&mut self, address: H160) -> Option<(bool, bool)>;

    /// Get environmental block hash.
    fn block_hash(&mut self, number: U256) -> Option<H256>;

    /// Get balance of address.
    fn balance(&mut self, address: H160) -> Option<(U256, bool)>;

    /// Get code of address.
    fn code(&mut self, address: H160) -> Option<(Bytecode, bool)>;

    /// Get code hash of address.
    fn code_hash(&mut self, address: H160) -> Option<(H256, bool)>;

    /// Get storage value of address at index.
    fn sload(&mut self, address: H160, index: U256) -> Option<(U256, bool)>;

    /// Set storage value of address at index. Return if slot is cold/hot access.
    fn sstore(&mut self, address: H160, index: U256, value: U256) -> Option<
        (U256, U256, U256, bool),
    >;

    /// Create a log owned by address with given topics and data.
    fn log(&mut self, address: H160, topics: Vec<H256>, data: Vec<u8>);

    /// Mark an address to be deleted, with funds transferred to target.
    fn selfdestruct(&mut self, address: H160, target: H160) -> Option<SelfDestructResult>;

    /// Invoke a create operation.
    fn create<SPEC: Spec>(&mut self, inputs: &mut CreateInputs) -> (
        Return,
        Option<H160>,
        Gas,
        Vec<u8>,
    );

    /// Invoke a call operation.
    fn call<SPEC: Spec>(&mut self, input: &mut CallInputs) -> (Return, Gas, Vec<u8>);
}

} // verus!
