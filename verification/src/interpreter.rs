//! The interpreter as its host sees it: it asks, and goes on with the answer.
use crate::gas::Gas;
use crate::models::{
    Bytecode, BytecodeView, CallContext, CallInputs, CreateInputs, Env, Return, SelfDestructResult,
};
use crate::primitives::{H160, H256, U256};
use crate::spec_id::SpecId;
use vstd::prelude::*;

verus! {

/// How deep calls and creates may be nested.
pub const CALL_STACK_LIMIT: u64 = 1024;

/// Code to be run, and what it is run with.
#[derive(Debug)]
pub struct Contract {
    pub input: Vec<u8>,
    pub bytecode: Bytecode,
    pub address: H160,
    pub caller: H160,
    pub value: U256,
}

impl Contract {
    /// The code of `bytecode`, run for `address`.
    pub fn new(
        input: Vec<u8>,
        bytecode: Bytecode,
        address: H160,
        caller: H160,
        value: U256,
    ) -> (r: Self)
        ensures
            r == (Contract { input, bytecode, address, caller, value }),
    {
        Contract { input, bytecode, address, caller, value }
    }

    /// The code of `bytecode`, run as a call says.
    pub fn new_with_context(input: Vec<u8>, bytecode: Bytecode, context: &CallContext) -> (r: Self)
        ensures
            r == (Contract {
                input,
                bytecode,
                address: context.address,
                caller: context.caller,
                value: context.apparent_value,
            }),
    {
        Contract::new(input, bytecode, context.address, context.caller, context.apparent_value)
    }
}

/// How a run ended.
#[derive(Debug)]
pub struct Exit {
    pub reason: Return,
    /// The gas that the run spent.
    pub spent: u64,
    /// The gas to be refunded.
    pub refunded: i64,
    pub output: Vec<u8>,
}

/// What an interpreter asks its host for.
#[derive(Debug)]
pub enum Request {
    /// To be told whether to go on, before an instruction.
    Step,
    /// To be told whether to go on, after an instruction that ended so.
    StepEnd { ret: Return },
    LoadAccount { address: H160 },
    BlockHash { number: U256 },
    Balance { address: H160 },
    Code { address: H160 },
    CodeHash { address: H160 },
    Sload { address: H160, index: U256 },
    Sstore { address: H160, index: U256, value: U256 },
    Log { address: H160, topics: Vec<H256>, data: Vec<u8> },
    SelfDestruct { address: H160, target: H160 },
    Create { create: CreateInputs },
    Call { call: CallInputs, is_static: bool },
    /// Nothing: the run is over.
    Exit { exit: Exit },
}

/// What the host answers.
#[derive(Debug)]
pub enum Reply {
    /// The run begins, or something that has no answer is done.
    Ready,
    Step { ret: Return },
    LoadAccount { account: Option<(bool, bool)> },
    BlockHash { hash: Option<H256> },
    Balance { balance: Option<(U256, bool)> },
    Code { code: Option<(Bytecode, bool)> },
    CodeHash { code_hash: Option<(H256, bool)> },
    Sload { slot: Option<(U256, bool)> },
    Sstore { written: Option<(U256, U256, U256, bool)> },
    SelfDestruct { destroyed: Option<SelfDestructResult> },
    Create { ret: Return, address: Option<H160>, gas: Gas, output: Vec<u8> },
    Call { ret: Return, gas: Gas, output: Vec<u8> },
}

/// The value of a [`Contract`].
#[verifier::ext_equal]
pub struct ContractView {
    pub input: Seq<u8>,
    pub bytecode: BytecodeView,
    pub address: Seq<u8>,
    pub caller: Seq<u8>,
    pub value: nat,
}

impl View for Contract {
    type V = ContractView;

    open spec fn view(&self) -> ContractView {
        ContractView {
            input: self.input@,
            bytecode: self.bytecode@,
            address: self.address@,
            caller: self.caller@,
            value: self.value@,
        }
    }
}

/// A machine that runs the code of a contract. It has no access to accounts: what it needs of them
/// it asks for, and its host answers.
///
/// What a machine does is said by the two relations `starts` and `resumes`, and what it prepares of
/// code by the functions `checked` and `analysed`; they are the implementation's own. One that does
/// not say anything else promises nothing.
pub trait Interpreter: Sized {
    /// What [`Interpreter::check`] returns.
    closed spec fn checked(bytes: Seq<u8>) -> Seq<u8> {
        arbitrary()
    }

    /// What [`Interpreter::analyse`] returns.
    closed spec fn analysed(bytes: Seq<u8>, spec_id: SpecId) -> Seq<u8> {
        arbitrary()
    }

    /// What [`Interpreter::new`] may return.
    open spec fn starts(
        self,
        contract: ContractView,
        gas_limit: u64,
        spec_id: SpecId,
        is_static: bool,
    ) -> bool {
        true
    }

    /// Where [`Interpreter::resume`] may leave the machine, and what it may ask.
    open spec fn resumes(self, env: Env, reply: Reply, next: Self, request: Request) -> bool {
        true
    }

    /// What is prepared of code that is to be checked only, in a form of the machine's own.
    fn check(bytes: &Vec<u8>) -> (r: Vec<u8>)
        ensures
            r@ == Self::checked(bytes@),
    ;

    /// What is prepared of code that is to be analysed for the rules of a fork, in a form of the
    /// machine's own.
    fn analyse(bytes: &Vec<u8>, spec_id: SpecId) -> (r: Vec<u8>)
        ensures
            r@ == Self::analysed(bytes@, spec_id),
    ;

    /// A machine that is to run `contract`, under the rules of a fork.
    fn new(contract: Contract, gas_limit: u64, spec_id: SpecId, is_static: bool) -> (r: Self)
        ensures
            r.starts(contract@, gas_limit, spec_id, is_static),
    ;

    /// Goes on with the answer to what was asked last, as far as the next question.
    fn resume(&mut self, env: &Env, reply: Reply) -> (r: Request)
        ensures
            old(self).resumes(*env, reply, *final(self), r),
    ;
}

/// A machine that runs no code: every run stops at once, as that of an account without code does.
#[derive(Clone, Copy, Debug)]
pub struct NoOpInterpreter;

impl Interpreter for NoOpInterpreter {
    open spec fn checked(bytes: Seq<u8>) -> Seq<u8> {
        Seq::empty()
    }

    open spec fn analysed(bytes: Seq<u8>, spec_id: SpecId) -> Seq<u8> {
        Seq::empty()
    }

    open spec fn resumes(self, env: Env, reply: Reply, next: Self, request: Request) -> bool {
        request matches Request::Exit { exit } && exit.reason == Return::Stop && exit.spent == 0
            && exit.refunded == 0 && exit.output@.len() == 0
    }

    fn check(bytes: &Vec<u8>) -> (r: Vec<u8>) {
        let r: Vec<u8> = Vec::new();
        assert(r@ =~= Seq::empty());
        r
    }

    fn analyse(bytes: &Vec<u8>, spec_id: SpecId) -> (r: Vec<u8>) {
        let r: Vec<u8> = Vec::new();
        assert(r@ =~= Seq::empty());
        r
    }

    fn new(contract: Contract, gas_limit: u64, spec_id: SpecId, is_static: bool) -> (r: Self) {
        NoOpInterpreter
    }

    fn resume(&mut self, env: &Env, reply: Reply) -> (r: Request) {
        Request::Exit {
            exit: Exit { reason: Return::Stop, spent: 0, refunded: 0, output: Vec::new() },
        }
    }
}

} // verus!
