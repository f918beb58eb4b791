//! Calls and creates as mathematical objects: what happens before code runs, and what happens
//! after it.
use crate::address::{address_of_digest, create2_preimage, create_preimage};
use crate::data::DataView;
use crate::db::Database;
use crate::gas::{GasView, CODEDEPOSIT, USE_GAS};
use crate::hash::keccak256_digest;
use crate::interpreter::{Interpreter, CALL_STACK_LIMIT};
use crate::journal_model::CheckpointView;
use crate::models::{
    prepared_code, BytecodeView, CallInputs, CreateInputs, CreateScheme, Return,
};
use crate::precompiles::{precompile_failure_reason, PrecompileFailure, PrecompileOutputView};
use crate::primitives::H160;
use crate::spec_id::SpecId;
use vstd::prelude::*;

verus! {

/// How a call begins.
pub enum CallStart {
    /// The database failed.
    Failed,
    /// It is not let in.
    Refused { reason: Return },
    /// Its code is to be run, or the precompile under its address.
    Entered { bytecode: BytecodeView, checkpoint: CheckpointView },
}

/// How a create begins.
pub enum CreateStart {
    /// It is not let in.
    Refused { reason: Return, address: Option<Seq<u8>> },
    /// Its init code is to be run.
    Entered { created: Seq<u8>, checkpoint: CheckpointView },
}

/// How a call or create ends.
pub struct End {
    pub reason: Return,
    pub gas: GasView,
    pub output: Seq<u8>,
}

/// The value of an optional address.
pub open spec fn address_view(address: Option<H160>) -> Option<Seq<u8>> {
    match address {
        Some(address) => Some(address@),
        None => None,
    }
}

/// The address of a contract that `caller` creates, with the nonce that the caller had before.
pub open spec fn created_address(inputs: CreateInputs, nonce: nat) -> Seq<u8> {
    address_of_digest(
        keccak256_digest(
            match inputs.scheme {
                CreateScheme::Create => create_preimage(inputs.caller@, nonce),
                CreateScheme::Create2 { salt } => create2_preimage(
                    inputs.caller@,
                    keccak256_digest(inputs.init_code@),
                    salt@,
                ),
            },
        ),
    )
}

/// What it costs to deposit `len` bytes of code.
pub open spec fn code_deposit(len: nat) -> nat {
    if len * CODEDEPOSIT <= u64::MAX {
        len * CODEDEPOSIT as nat
    } else {
        u64::MAX as nat
    }
}

impl<DB: Database> DataView<DB> {
    /// The beginning of a call: the code is loaded, the depth is held to its limit, the account
    /// that the call is for is touched, and the value is transferred.
    pub open spec fn start_call(self, inputs: CallInputs) -> (DataView<DB>, CallStart) {
        let (coded, code) = self.code(inputs.contract@);
        match code {
            None => (coded, CallStart::Failed),
            Some((bytecode, _)) => if coded.journal.depth > CALL_STACK_LIMIT {
                (coded, CallStart::Refused { reason: Return::CallTooDeep })
            } else {
                let (journal, checkpoint) = coded.journal.checkpoint();
                let begun = coded.with(journal);
                let touched = if inputs.transfer.value@ == 0 {
                    let loaded = begun.load_account(inputs.context.address@).0;
                    loaded.with(loaded.journal.touch(inputs.context.address@))
                } else {
                    begun
                };
                let (world, r) = touched.world().transfer(
                    inputs.transfer.source@,
                    inputs.transfer.target@,
                    inputs.transfer.value@,
                );
                let moved = touched.put(world);
                match r {
                    Ok(_) => (moved, CallStart::Entered { bytecode, checkpoint }),
                    Err(reason) => (
                        moved.with(moved.journal.revert(checkpoint)),
                        CallStart::Refused { reason },
                    ),
                }
            },
        }
    }

    /// After code ran: what it changed stays if it succeeded, and is undone if not.
    pub open spec fn finish_run(
        self,
        reason: Return,
        checkpoint: CheckpointView,
    ) -> DataView<DB> {
        if reason.spec_is_ok() {
            self.with(self.journal.commit())
        } else {
            self.with(self.journal.revert(checkpoint))
        }
    }

    /// After a precompile ran: its cost is charged, and its logs are kept.
    pub open spec fn finish_precompile(
        self,
        answer: Result<PrecompileOutputView, PrecompileFailure>,
        gas: GasView,
        checkpoint: CheckpointView,
    ) -> (DataView<DB>, End) {
        match answer {
            Ok(out) => if !USE_GAS || gas.affords(out.cost as nat) {
                (
                    self.with(self.journal.log_all(out.logs).commit()),
                    End {
                        reason: Return::Continue,
                        gas: if USE_GAS {
                            gas.charged(out.cost as nat)
                        } else {
                            gas
                        },
                        output: out.output,
                    },
                )
            } else {
                (
                    self.with(self.journal.revert(checkpoint)),
                    End { reason: Return::OutOfGas, gas, output: Seq::empty() },
                )
            },
            Err(failure) => (
                self.with(self.journal.revert(checkpoint)),
                End { reason: precompile_failure_reason(failure), gas, output: Seq::empty() },
            ),
        }
    }

    /// The address of the contract that a create makes.
    pub open spec fn create_target(self, inputs: CreateInputs) -> Seq<u8> {
        let loaded = self.load_account(inputs.caller@).0;
        let funded = loaded.balance(inputs.caller@).0;
        created_address(inputs, funded.journal.accounts[inputs.caller@].fields.nonce as nat)
    }

    /// Where a create begins: the nonce of its caller is raised, and the address of the contract is
    /// loaded.
    pub open spec fn warm_create(self, inputs: CreateInputs) -> DataView<DB> {
        let loaded = self.load_account(inputs.caller@).0;
        let funded = loaded.balance(inputs.caller@).0;
        let raised = funded.journal.inc_nonce(inputs.caller@).0;
        funded.with(raised).load_account(self.create_target(inputs)).0
    }

    /// The beginning of a create: the depth is held to its limit, the caller has to have the value,
    /// its nonce is raised, the address of the contract is found and must be free, and the value is
    /// transferred. Where the database fails on the new account, the create stays begun.
    pub open spec fn start_create(
        self,
        inputs: CreateInputs,
        spec_id: SpecId,
        precompiles: Set<Seq<u8>>,
    ) -> (DataView<DB>, CreateStart) {
        let loaded = self.load_account(inputs.caller@).0;
        let (funded, balance) = loaded.balance(inputs.caller@);
        let (raised, nonce) = funded.journal.inc_nonce(inputs.caller@);
        if loaded.journal.depth > CALL_STACK_LIMIT {
            (loaded, CreateStart::Refused { reason: Return::CallTooDeep, address: None })
        } else if balance is None {
            (funded, CreateStart::Refused { reason: Return::FatalExternalError, address: None })
        } else if (balance->0).0 < inputs.value@ {
            (funded, CreateStart::Refused { reason: Return::OutOfFund, address: None })
        } else if nonce is None {
            (
                funded.with(raised),
                CreateStart::Refused { reason: Return::Return, address: None },
            )
        } else {
            let address = self.create_target(inputs);
            let warm = self.warm_create(inputs);
            let (journal, checkpoint) = warm.journal.checkpoint();
            let begun = warm.with(journal);
            let (world, free) = begun.world().create_account(
                address,
                precompiles.contains(address),
            );
            let (made, free) = begun.put(world).settle(free);
            match free {
                None => (
                    made,
                    CreateStart::Refused {
                        reason: Return::FatalExternalError,
                        address: Some(address),
                    },
                ),
                Some(false) => (
                    made.with(made.journal.revert(checkpoint)),
                    CreateStart::Refused {
                        reason: Return::CreateCollision,
                        address: Some(address),
                    },
                ),
                Some(true) => made.fund_create(inputs, spec_id, address, checkpoint),
            }
        }
    }

    /// The end of the beginning of a create: the value is transferred, and since Spurious Dragon
    /// the nonce of the new account is raised.
    pub open spec fn fund_create(
        self,
        inputs: CreateInputs,
        spec_id: SpecId,
        address: Seq<u8>,
        checkpoint: CheckpointView,
    ) -> (DataView<DB>, CreateStart) {
        let (world, r) = self.world().transfer(inputs.caller@, address, inputs.value@);
        let moved = self.put(world);
        let (raised, nonce) = moved.journal.inc_nonce(address);
        match r {
            Err(reason) => (
                moved.with(moved.journal.revert(checkpoint)),
                CreateStart::Refused { reason, address: Some(address) },
            ),
            Ok(_) => if !spec_id.includes(SpecId::SPURIOUS_DRAGON) {
                (moved, CreateStart::Entered { created: address, checkpoint })
            } else if nonce is None {
                (
                    moved.with(raised.revert(checkpoint)),
                    CreateStart::Refused { reason: Return::Return, address: None },
                )
            } else {
                (moved.with(raised), CreateStart::Entered { created: address, checkpoint })
            },
        }
    }

    /// The most code that a contract may have.
    pub open spec fn code_size_limit(self) -> nat {
        match self.env.cfg.limit_contract_code_size {
            Some(limit) => limit as nat,
            None => 0x6000,
        }
    }

    /// Why what init code returned cannot be deposited: since London code must not begin with
    /// `0xEF`, since Spurious Dragon it must not be too long, since Homestead its deposit has to
    /// be paid.
    pub open spec fn deposit_refusal(
        self,
        gas: GasView,
        output: Seq<u8>,
        spec_id: SpecId,
    ) -> Option<Return> {
        if spec_id.includes(SpecId::LONDON) && output.len() > 0 && output[0] == 0xEF {
            Some(Return::CreateContractWithEF)
        } else if spec_id.includes(SpecId::SPURIOUS_DRAGON) && output.len()
            > self.code_size_limit() {
            Some(Return::CreateContractLimit)
        } else if USE_GAS && spec_id.includes(SpecId::HOMESTEAD) && !gas.affords(
            code_deposit(output.len()),
        ) {
            Some(Return::OutOfGas)
        } else {
            None
        }
    }

    /// After init code ran: what it returned is the code of the contract, for a deposit, prepared
    /// by the interpreter as far as the settings say. Before Homestead a contract whose deposit is
    /// not paid is left without code. A refused deposit is not reported to an inspector; the second
    /// component says whether the end is.
    pub open spec fn finish_create<I: Interpreter>(
        self,
        reason: Return,
        gas: GasView,
        output: Seq<u8>,
        spec_id: SpecId,
        address: Seq<u8>,
        checkpoint: CheckpointView,
    ) -> (DataView<DB>, bool, End) {
        let refusal = self.deposit_refusal(gas, output, spec_id);
        let cost = code_deposit(output.len());
        if !reason.spec_is_ok() {
            (
                self.with(self.journal.revert(checkpoint)),
                true,
                End { reason, gas, output },
            )
        } else if refusal is Some {
            (
                self.with(self.journal.revert(checkpoint)),
                false,
                End { reason: refusal->0, gas, output: Seq::empty() },
            )
        } else {
            let code = if USE_GAS && !gas.affords(cost) {
                Seq::empty()
            } else {
                output
            };
            let bytecode = prepared_code::<I>(
                code,
                self.env.cfg.perf_analyse_created_bytecodes,
                spec_id,
            );
            (
                self.with(self.journal.commit().set_code(address, bytecode)),
                true,
                End {
                    reason: Return::Continue,
                    gas: if USE_GAS {
                        gas.charged(cost)
                    } else {
                        gas
                    },
                    output: Seq::empty(),
                },
            )
        }
    }
}

} // verus!
