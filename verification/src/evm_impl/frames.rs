//! Before and after the code of a call or create runs.
use crate::address::{create2_address, create_address};
use crate::data::EVMData;
use crate::db::Database;
use crate::evm_impl::EVMImpl;
use crate::frames_laws::{
    balance_follows, load_account_follows, start_call_keeps, start_create_keeps,
};
use crate::frames_model::{address_view, code_deposit, CallStart, CreateStart, End};
use crate::gas::{Gas, CODEDEPOSIT, USE_GAS};
use crate::hash::keccak256;
use crate::host::Host;
use crate::interpreter::{Interpreter, CALL_STACK_LIMIT};
use crate::journal_laws::{create_account_extends, transfer_extends};
use crate::journaled_state::JournalCheckpoint;
use crate::models::{
    AnalysisKind, Bytecode, CallInputs, CreateInputs, CreateScheme, Return,
};
use crate::precompiles::{
    precompile_view, precompiles_contains, PrecompileFailure, PrecompileOutput,
};
use crate::primitives::{u256_lt, H160};
use crate::spec_id::{Spec, SpecId};
use vstd::prelude::*;

verus! {

/// How a call begins.
pub enum CallEntry {
    Failed,
    Refused { reason: Return },
    Entered { bytecode: Bytecode, checkpoint: JournalCheckpoint },
}

impl View for CallEntry {
    type V = CallStart;

    open spec fn view(&self) -> CallStart {
        match *self {
            CallEntry::Failed => CallStart::Failed,
            CallEntry::Refused { reason } => CallStart::Refused { reason },
            CallEntry::Entered { bytecode, checkpoint } => CallStart::Entered {
                bytecode: bytecode@,
                checkpoint: checkpoint@,
            },
        }
    }
}

/// How a create begins.
pub enum CreateEntry {
    Refused { reason: Return, address: Option<H160> },
    Entered { created: H160, checkpoint: JournalCheckpoint },
}

impl View for CreateEntry {
    type V = CreateStart;

    open spec fn view(&self) -> CreateStart {
        match *self {
            CreateEntry::Refused { reason, address } => CreateStart::Refused {
                reason,
                address: address_view(address),
            },
            CreateEntry::Entered { created, checkpoint } => CreateStart::Entered {
                created: created@,
                checkpoint: checkpoint@,
            },
        }
    }
}

impl<'a, DB: Database> EVMData<'a, DB> {
    /// The end of a run: what it changed stays if it succeeded, and is undone if not.
    pub fn finish_run(&mut self, reason: Return, checkpoint: JournalCheckpoint)
        ensures
            final(self)@ == old(self)@.finish_run(reason, checkpoint@),
    {
        if reason.is_ok() {
            self.journaled_state.checkpoint_commit();
        } else {
            self.journaled_state.checkpoint_revert(checkpoint);
        }
    }

    /// The end of a call of a precompile, given what the precompile returned: its cost is charged,
    /// and its logs are kept.
    pub fn finish_precompile(
        &mut self,
        answer: Result<PrecompileOutput, PrecompileFailure>,
        gas: Gas,
        checkpoint: JournalCheckpoint,
    ) -> (r: (Return, Gas, Vec<u8>))
        ensures
            (final(self)@, (End { reason: r.0, gas: r.1@, output: r.2@ })) == old(
                self,
            )@.finish_precompile(precompile_view(answer), gas@, checkpoint@),
    {
        let mut gas = gas;
        match answer {
            Ok(out) => {
                if !USE_GAS || gas.record_cost(out.cost) {
                    self.journaled_state.log_all(out.logs);
                    self.journaled_state.checkpoint_commit();
                    (Return::Continue, gas, out.output)
                } else {
                    self.journaled_state.checkpoint_revert(checkpoint);
                    (Return::OutOfGas, gas, Vec::new())
                }
            },
            Err(failure) => {
                let reason = if let PrecompileFailure::OutOfGas = failure {
                    Return::OutOfGas
                } else {
                    Return::PrecompileError
                };
                self.journaled_state.checkpoint_revert(checkpoint);
                (reason, gas, Vec::new())
            },
        }
    }

    /// The end of a create, given how the init code ended: what it returned is deposited. Also
    /// returns whether an inspector hears of the end.
    pub fn finish_create<SPEC: Spec, I: Interpreter>(
        &mut self,
        reason: Return,
        gas: Gas,
        output: Vec<u8>,
        created: H160,
        checkpoint: JournalCheckpoint,
    ) -> (r: (bool, Return, Gas, Vec<u8>))
        ensures
            (final(self)@, r.0, (End { reason: r.1, gas: r.2@, output: r.3@ })) == old(
                self,
            )@.finish_create::<I>(reason, gas@, output@, SPEC::id(), created@, checkpoint@),
    {
        let mut gas = gas;
        let mut bytes = output;
        if !reason.is_ok() {
            self.journaled_state.checkpoint_revert(checkpoint);
            return (true, reason, gas, bytes);
        }
        // EIP-3541: Reject new contract code starting with the 0xEF byte
        if SPEC::enabled(SpecId::LONDON) && bytes.len() > 0 && bytes[0] == 0xEF {
            self.journaled_state.checkpoint_revert(checkpoint);
            return (false, Return::CreateContractWithEF, gas, Vec::new());
        }
        // EIP-170: Contract code size limit
        // By default limit is 0x6000 (~25kb)
        let limit: usize = match self.env.cfg.limit_contract_code_size {
            Some(limit) => limit,
            None => 0x6000,
        };
        if SPEC::enabled(SpecId::SPURIOUS_DRAGON) && bytes.len() > limit {
            self.journaled_state.checkpoint_revert(checkpoint);
            return (false, Return::CreateContractLimit, gas, Vec::new());
        }
        if USE_GAS {
            let length: u128 = bytes.len() as u128;
            let price: u128 = length * CODEDEPOSIT as u128;
            let gas_for_code: u64 = if price <= u64::MAX as u128 {
                price as u64
            } else {
                u64::MAX
            };
            assert(gas_for_code == code_deposit(bytes@.len()));
            if !gas.record_cost(gas_for_code) {
                // record code deposit gas cost and check if we are out of gas.
                // EIP-2 point 3: If contract creation does not have enough gas to pay for the
                // final gas fee for adding the contract code to the state, the contract
                //  creation fails (i.e. goes out-of-gas) rather than leaving an empty contract.
                if SPEC::enabled(SpecId::HOMESTEAD) {
                    self.journaled_state.checkpoint_revert(checkpoint);
                    return (false, Return::OutOfGas, gas, Vec::new());
                } else {
                    bytes = Vec::new();
                    assert(bytes@ =~= Seq::empty());
                }
            }
        }
        // if we have enough gas
        self.journaled_state.checkpoint_commit();
        // Do analysis of bytecode straight away.
        let bytecode = match self.env.cfg.perf_analyse_created_bytecodes {
            AnalysisKind::Raw => Bytecode::new_raw(bytes),
            AnalysisKind::Check => Bytecode::new_raw(bytes).to_checked::<I>(),
            AnalysisKind::Analyse => Bytecode::new_raw(bytes).to_analysed::<I, SPEC>(),
        };
        self.journaled_state.set_code(created, bytecode);
        (true, Return::Continue, gas, Vec::new())
    }
}

impl<'a, GSPEC: Spec, DB: Database, I: Interpreter, const INSPECT: bool> EVMImpl<
    'a,
    GSPEC,
    DB,
    I,
    INSPECT,
> {
    /// The beginning of a call.
    pub(super) fn start_call(&mut self, inputs: &CallInputs) -> (r: CallEntry)
        ensures
            (final(self)@.data, r@) == old(self)@.data.start_call(*inputs),
            final(self)@.precompiles == old(self)@.precompiles,
            final(self)@.inspector == old(self)@.inspector,
    {
        proof {
            start_call_keeps(self.data@, *inputs);
        }
        // Load account and get code. Account is now hot.
        let bytecode = match self.code(inputs.contract) {
            Some((bytecode, _)) => bytecode,
            None => return CallEntry::Failed,
        };
        // Check depth
        if self.data.journaled_state.depth() > CALL_STACK_LIMIT {
            return CallEntry::Refused { reason: Return::CallTooDeep };
        }
        // Create subroutine checkpoint
        let checkpoint = self.data.journaled_state.checkpoint();
        // Touch address. For "EIP-158 State Clear", this will erase empty accounts.
        if inputs.transfer.value.is_zero() {
            self.load_account(inputs.context.address);
            self.data.journaled_state.touch(&inputs.context.address);
        }
        // Transfer value from caller to called account
        match self.data.journaled_state.transfer(
            &inputs.transfer.source,
            &inputs.transfer.target,
            inputs.transfer.value,
            self.data.db,
        ) {
            Ok(_) => CallEntry::Entered { bytecode, checkpoint },
            Err(reason) => {
                self.data.journaled_state.checkpoint_revert(checkpoint);
                CallEntry::Refused { reason }
            },
        }
    }

    /// The beginning of a create.
    pub(super) fn start_create<SPEC: Spec>(&mut self, inputs: &CreateInputs) -> (r: CreateEntry)
        ensures
            (final(self)@.data, r@) == old(self)@.data.start_create(
                *inputs,
                SPEC::id(),
                old(self)@.precompiles.dom(),
            ),
            final(self)@.precompiles == old(self)@.precompiles,
            final(self)@.inspector == old(self)@.inspector,
    {
        let ghost d = self.data@;
        proof {
            load_account_follows(d, inputs.caller@);
            balance_follows(d.load_account(inputs.caller@).0, inputs.caller@);
        }
        self.load_account(inputs.caller);
        // Check depth of calls
        if self.data.journaled_state.depth() > CALL_STACK_LIMIT {
            return CreateEntry::Refused { reason: Return::CallTooDeep, address: None };
        }
        // Check balance of caller and value. Do this before increasing nonce
        match self.balance(inputs.caller) {
            Some((balance, _)) => {
                if u256_lt(&balance, &inputs.value) {
                    return CreateEntry::Refused { reason: Return::OutOfFund, address: None };
                }
            },
            None => {
                return CreateEntry::Refused { reason: Return::FatalExternalError, address: None };
            },
        }
        // Increase nonce of caller and check if it overflows
        let old_nonce: u64 = match self.data.journaled_state.inc_nonce(inputs.caller) {
            Some(nonce) => nonce - 1,
            None => return CreateEntry::Refused { reason: Return::Return, address: None },
        };
        // Create address
        let created = match inputs.scheme {
            CreateScheme::Create => create_address(inputs.caller, old_nonce),
            CreateScheme::Create2 { salt } => create2_address(
                inputs.caller,
                keccak256(inputs.init_code.as_slice()),
                salt,
            ),
        };
        assert(created@ == d.create_target(*inputs));
        // Load account so that it will be hot
        self.load_account(created);
        assert(self.data@ == d.warm_create(*inputs));
        proof {
            start_create_keeps(d, *inputs, SPEC::id(), self@.precompiles.dom());
            load_account_follows(
                d.load_account(inputs.caller@).0.balance(inputs.caller@).0.with(
                    d.load_account(inputs.caller@).0.balance(
                        inputs.caller@,
                    ).0.journal.inc_nonce(inputs.caller@).0,
                ),
                created@,
            );
        }
        // Enter subroutine
        let checkpoint = self.data.journaled_state.checkpoint();
        // Create contract account and check for collision
        let is_precompile = precompiles_contains(&self.precompiles, &created);
        proof {
            create_account_extends(self.data@.world(), created@, is_precompile);
        }
        match self.data.journaled_state.create_account(created, is_precompile, self.data.db) {
            Ok(free) => {
                if !free {
                    self.data.journaled_state.checkpoint_revert(checkpoint);
                    return CreateEntry::Refused {
                        reason: Return::CreateCollision,
                        address: Some(created),
                    };
                }
            },
            Err(e) => {
                self.data.error = Some(e);
                return CreateEntry::Refused {
                    reason: Return::FatalExternalError,
                    address: Some(created),
                };
            },
        }
        self.fund_create::<SPEC>(inputs, created, checkpoint)
    }

    /// The end of the beginning of a create.
    fn fund_create<SPEC: Spec>(
        &mut self,
        inputs: &CreateInputs,
        created: H160,
        checkpoint: JournalCheckpoint,
    ) -> (r: CreateEntry)
        ensures
            (final(self)@.data, r@) == old(self)@.data.fund_create(
                *inputs,
                SPEC::id(),
                created@,
                checkpoint@,
            ),
            final(self)@.precompiles == old(self)@.precompiles,
            final(self)@.inspector == old(self)@.inspector,
    {
        proof {
            transfer_extends(
                self.data@.world(),
                inputs.caller@,
                created@,
                inputs.value@,
            );
        }
        // Transfer value to contract address
        if let Err(reason) = self.data.journaled_state.transfer(
            &inputs.caller,
            &created,
            inputs.value,
            self.data.db,
        ) {
            self.data.journaled_state.checkpoint_revert(checkpoint);
            return CreateEntry::Refused { reason, address: Some(created) };
        }
        // EIP-161: State trie clearing (invariant-preserving alternative)
        if SPEC::enabled(SpecId::SPURIOUS_DRAGON) {
            if self.data.journaled_state.inc_nonce(created).is_none() {
                // overflow
                self.data.journaled_state.checkpoint_revert(checkpoint);
                return CreateEntry::Refused { reason: Return::Return, address: None };
            }
        }
        CreateEntry::Entered { created, checkpoint }
    }
}

} // verus!
