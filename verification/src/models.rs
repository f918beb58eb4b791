//! What goes into a transaction, a call or a create, and what comes out.
use crate::hash::{keccak256, keccak256_digest};
use crate::interpreter::Interpreter;
use crate::primitives::{u256_checked_add, H160, H256, U256};
use crate::spec_id::{Spec, SpecId};
use vstd::prelude::*;

verus! {

/// How a call, a create or a transaction ended.
#[derive(Clone, Copy, Debug, PartialEq, Eq, Structural)]
pub enum Return {
    // success
    Continue,
    Stop,
    Return,
    SelfDestruct,
    // revert
    Revert,
    CallTooDeep,
    OutOfFund,
    // error
    OutOfGas,
    OpcodeNotFound,
    CallNotAllowedInsideStatic,
    InvalidOpcode,
    InvalidJump,
    InvalidMemoryRange,
    NotActivated,
    StackUnderflow,
    StackOverflow,
    OutOfOffset,
    FatalExternalError,
    GasMaxFeeGreaterThanPriorityFee,
    GasPriceLessThenBasefee,
    CallerGasLimitMoreThenBlock,
    RejectCallerWithCode,
    LackOfFundForGasLimit,
    CreateCollision,
    OverflowPayment,
    PrecompileError,
    NonceOverflow,
    CreateContractLimit,
    CreateContractWithEF,
}

impl Return {
    /// The execution succeeded: what it changed stays.
    pub open spec fn spec_is_ok(self) -> bool {
        self is Continue || self is Stop || self is Return || self is SelfDestruct
    }

    /// The execution was reverted: what it changed is undone, the gas that is left comes back.
    pub open spec fn spec_is_revert(self) -> bool {
        self is Revert || self is CallTooDeep || self is OutOfFund
    }

    /// Whether the execution succeeded: what it changed stays.
    pub fn is_ok(self) -> (r: bool)
        ensures
            r == self.spec_is_ok(),
    {
        matches!(self, Return::Continue | Return::Stop | Return::Return | Return::SelfDestruct)
    }

    /// Whether the execution was reverted: what it changed is undone, the gas that is left comes
    /// back.
    pub fn is_revert(self) -> (r: bool)
        ensures
            r == self.spec_is_revert(),
    {
        matches!(self, Return::Revert | Return::CallTooDeep | Return::OutOfFund)
    }
}

/// How far the bytecode of a new contract is prepared for the interpreter. The interpreter prepares
/// it itself, by [`Interpreter::check`] and [`Interpreter::analyse`].
#[derive(Clone, Copy, Debug, PartialEq, Eq, Structural)]
pub enum AnalysisKind {
    /// Not at all.
    Raw,
    /// As far as can be without knowing the fork.
    Check,
    /// For the rules of a fork.
    Analyse,
}

/// The hash of empty code.
pub const KECCAK_EMPTY: H256 = [
    0xc5, 0xd2, 0x46, 0x01, 0x86, 0xf7, 0x23, 0x3c, 0x92, 0x7e, 0x7d, 0xb2, 0xdc, 0xc7, 0x03, 0xc0,
    0xe5, 0x00, 0xb6, 0x53, 0xca, 0x82, 0x27, 0x3b, 0x7b, 0xfa, 0xd8, 0x04, 0x5d, 0x85, 0xa4, 0x70,
];

/// The code of a contract.
#[derive(Debug)]
pub struct Bytecode {
    pub bytes: Vec<u8>,
    pub hash: H256,
    /// How far the code is prepared.
    pub analysis: AnalysisKind,
    /// What the interpreter prepared of the code, in a form of its own. Raw code has nothing here.
    pub table: Vec<u8>,
}

/// The value of a [`Bytecode`].
#[verifier::ext_equal]
pub struct BytecodeView {
    pub bytes: Seq<u8>,
    pub hash: Seq<u8>,
    pub analysis: AnalysisKind,
    pub table: Seq<u8>,
}

impl View for Bytecode {
    type V = BytecodeView;

    open spec fn view(&self) -> BytecodeView {
        BytecodeView {
            bytes: self.bytes@,
            hash: self.hash@,
            analysis: self.analysis,
            table: self.table@,
        }
    }
}

/// The value of an optional [`Bytecode`].
pub open spec fn code_view(code: Option<Bytecode>) -> Option<BytecodeView> {
    match code {
        Some(code) => Some(code@),
        None => None,
    }
}

/// The hash that code is known by.
pub open spec fn code_hash_of(bytes: Seq<u8>) -> Seq<u8> {
    if bytes.len() == 0 {
        KECCAK_EMPTY@
    } else {
        keccak256_digest(bytes)
    }
}

/// Raw code.
pub open spec fn raw_code(bytes: Seq<u8>) -> BytecodeView {
    BytecodeView {
        bytes,
        hash: code_hash_of(bytes),
        analysis: AnalysisKind::Raw,
        table: Seq::empty(),
    }
}

/// Code that the interpreter `I` prepared, as far as `kind` says and for the rules of a fork.
pub open spec fn prepared_code<I: Interpreter>(
    bytes: Seq<u8>,
    kind: AnalysisKind,
    spec_id: SpecId,
) -> BytecodeView {
    BytecodeView {
        analysis: kind,
        table: match kind {
            AnalysisKind::Raw => Seq::empty(),
            AnalysisKind::Check => I::checked(bytes),
            AnalysisKind::Analyse => I::analysed(bytes, spec_id),
        },
        ..raw_code(bytes)
    }
}

impl Bytecode {
    /// Code that is not prepared in any way.
    pub fn new_raw(bytes: Vec<u8>) -> (r: Self)
        ensures
            r@ == raw_code(bytes@),
    {
        let hash = if bytes.len() == 0 {
            KECCAK_EMPTY
        } else {
            keccak256(bytes.as_slice())
        };
        let table: Vec<u8> = Vec::new();
        assert(table@ =~= Seq::empty());
        Bytecode { bytes, hash, analysis: AnalysisKind::Raw, table }
    }

    /// The same code, checked by the interpreter `I`.
    pub fn to_checked<I: Interpreter>(self) -> (r: Self)
        ensures
            r@ == (BytecodeView {
                analysis: AnalysisKind::Check,
                table: I::checked(self@.bytes),
                ..self@
            }),
    {
        let table = I::check(&self.bytes);
        Bytecode { bytes: self.bytes, hash: self.hash, analysis: AnalysisKind::Check, table }
    }

    /// The same code, analysed by the interpreter `I` for the rules of the fork `SPEC`.
    pub fn to_analysed<I: Interpreter, SPEC: Spec>(self) -> (r: Self)
        ensures
            r@ == (BytecodeView {
                analysis: AnalysisKind::Analyse,
                table: I::analysed(self@.bytes, SPEC::id()),
                ..self@
            }),
    {
        let table = I::analyse(&self.bytes, SPEC::spec_id());
        Bytecode { bytes: self.bytes, hash: self.hash, analysis: AnalysisKind::Analyse, table }
    }

    /// A copy.
    pub fn copy(&self) -> (r: Self)
        ensures
            r@ == self@,
    {
        Bytecode {
            bytes: copy_bytes(&self.bytes),
            hash: self.hash,
            analysis: self.analysis,
            table: copy_bytes(&self.table),
        }
    }
}

/// A copy of a byte string.
pub fn copy_bytes(bytes: &Vec<u8>) -> (r: Vec<u8>)
    ensures
        r@ == bytes@,
{
    let r = bytes.clone();
    assert(r@ =~= bytes@);
    r
}

/// What is known of an account besides its storage.
#[derive(Debug)]
pub struct AccountInfo {
    pub balance: U256,
    pub nonce: u64,
    pub code_hash: H256,
    /// The code, where it has been loaded.
    pub code: Option<Bytecode>,
}

/// The value of an [`AccountInfo`].
#[verifier::ext_equal]
pub struct AccountInfoView {
    pub balance: nat,
    pub nonce: u64,
    pub code_hash: Seq<u8>,
    pub code: Option<BytecodeView>,
}

impl View for AccountInfo {
    type V = AccountInfoView;

    open spec fn view(&self) -> AccountInfoView {
        AccountInfoView {
            balance: self.balance@,
            nonce: self.nonce,
            code_hash: self.code_hash@,
            code: code_view(self.code),
        }
    }
}

/// A record that a contract leaves.
#[derive(Debug)]
pub struct Log {
    pub address: H160,
    pub topics: Vec<H256>,
    pub data: Vec<u8>,
}

/// The value of a [`Log`].
#[verifier::ext_equal]
pub struct LogView {
    pub address: Seq<u8>,
    pub topics: Seq<H256>,
    pub data: Seq<u8>,
}

impl View for Log {
    type V = LogView;

    open spec fn view(&self) -> LogView {
        LogView { address: self.address@, topics: self.topics@, data: self.data@ }
    }
}

/// The values of the elements.
pub open spec fn log_views(logs: Seq<Log>) -> Seq<LogView> {
    logs.map_values(|log: Log| log@)
}

/// How a call came about.
#[derive(Clone, Copy, Debug, PartialEq, Eq, Structural)]
pub enum CallScheme {
    Call,
    CallCode,
    DelegateCall,
    StaticCall,
}

/// Where the code of a call runs, and for whom.
#[derive(Clone, Copy, Debug)]
pub struct CallContext {
    /// The account that the code runs for.
    pub address: H160,
    pub caller: H160,
    /// The account that the code comes from.
    pub code_address: H160,
    /// The value that the code sees.
    pub apparent_value: U256,
    pub scheme: CallScheme,
}

/// A transfer of value.
#[derive(Clone, Copy, Debug)]
pub struct Transfer {
    pub source: H160,
    pub target: H160,
    pub value: U256,
}

/// What a call is made with.
#[derive(Debug)]
pub struct CallInputs {
    /// The account whose code is called.
    pub contract: H160,
    pub transfer: Transfer,
    pub input: Vec<u8>,
    pub gas_limit: u64,
    pub context: CallContext,
}

/// How the address of a new contract is found.
#[derive(Clone, Copy, Debug)]
pub enum CreateScheme {
    /// From the caller and its nonce.
    Create,
    /// From the caller, the init code and a salt.
    Create2 { salt: U256 },
}

/// What a create is made with.
#[derive(Debug)]
pub struct CreateInputs {
    pub caller: H160,
    pub scheme: CreateScheme,
    pub value: U256,
    pub init_code: Vec<u8>,
    pub gas_limit: u64,
}

/// What a transaction asks for.
#[derive(Clone, Copy, Debug)]
pub enum TransactTo {
    Call(H160),
    Create(CreateScheme),
}

/// What a transaction hands back.
#[derive(Debug)]
pub enum TransactOut {
    Nothing,
    Call(Vec<u8>),
    Create(Vec<u8>, Option<H160>),
}

/// The outcome of a transaction.
#[derive(Debug)]
pub struct ExecutionResult {
    pub exit_reason: Return,
    pub out: TransactOut,
    pub gas_used: u64,
    pub gas_refunded: u64,
    pub logs: Vec<Log>,
}

impl ExecutionResult {
    /// The outcome of a transaction that was refused for `reason`: nothing used, nothing done.
    pub open spec fn is_refusal(self, reason: Return) -> bool {
        &&& self.exit_reason == reason
        &&& self.out is Nothing
        &&& self.gas_used == 0
        &&& self.gas_refunded == 0
        &&& self.logs@.len() == 0
    }

    /// The outcome of a transaction that was refused for `reason`.
    pub fn new_with_reason(reason: Return) -> (r: Self)
        ensures
            r.is_refusal(reason),
    {
        ExecutionResult {
            exit_reason: reason,
            out: TransactOut::Nothing,
            gas_used: 0,
            gas_refunded: 0,
            logs: Vec::new(),
        }
    }
}

/// What a self-destruct found.
#[derive(Clone, Copy, Debug, PartialEq, Eq, Structural)]
pub struct SelfDestructResult {
    pub had_value: bool,
    pub exists: bool,
    pub is_cold: bool,
    pub previously_destroyed: bool,
}

/// The settings of the machine.
#[derive(Debug)]
pub struct CfgEnv {
    pub chain_id: U256,
    /// Take it that every precompile has a balance, and do not ask the database for it before the
    /// end of the transaction.
    pub perf_all_precompiles_have_balance: bool,
    /// How far the code of a new contract is prepared.
    pub perf_analyse_created_bytecodes: AnalysisKind,
    /// The largest code a contract may have, `0x6000` bytes where it is not given.
    pub limit_contract_code_size: Option<usize>,
}

/// The block that the transaction is in.
#[derive(Debug)]
pub struct BlockEnv {
    pub gas_limit: U256,
    pub number: U256,
    pub coinbase: H160,
    pub timestamp: U256,
    pub difficulty: U256,
    pub basefee: U256,
}

/// The transaction.
#[derive(Debug)]
pub struct TxEnv {
    pub caller: H160,
    pub gas_limit: u64,
    /// The price of gas, or the most that the caller pays for it where there is a priority fee.
    pub gas_price: U256,
    pub gas_priority_fee: Option<U256>,
    pub transact_to: TransactTo,
    pub value: U256,
    pub data: Vec<u8>,
    /// The accounts and slots that the transaction announces.
    pub access_list: Vec<(H160, Vec<U256>)>,
}

/// Everything around a transaction.
#[derive(Debug)]
pub struct Env {
    pub cfg: CfgEnv,
    pub block: BlockEnv,
    pub tx: TxEnv,
}

impl Env {
    /// What the caller pays for a unit of gas: the price of the transaction, or the base fee and
    /// the priority fee where that is less.
    pub open spec fn spec_effective_gas_price(self) -> nat {
        match self.tx.gas_priority_fee {
            Some(fee) => if self.block.basefee@ + fee@ < self.tx.gas_price@ {
                self.block.basefee@ + fee@
            } else {
                self.tx.gas_price@
            },
            None => self.tx.gas_price@,
        }
    }

    /// What the caller pays for a unit of gas.
    pub fn effective_gas_price(&self) -> (r: U256)
        ensures
            r@ == self.spec_effective_gas_price(),
            r@ <= self.tx.gas_price@,
    {
        match self.tx.gas_priority_fee {
            Some(fee) => match u256_checked_add(self.block.basefee, fee) {
                Some(price) => self.tx.gas_price.min(price),
                None => self.tx.gas_price,
            },
            None => self.tx.gas_price,
        }
    }
}

} // verus!
