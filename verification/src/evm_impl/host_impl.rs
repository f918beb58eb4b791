//! The machine as a host.
use crate::data::{
    code_answer, hash_answer, plain_hash_answer, word_answer, words_answer, zero_hash, DataView,
};
use crate::db::Database;
use crate::evm_impl::{EVMImpl, EvmView};
use crate::frames_model::End;
use crate::gas::Gas;
use crate::host::Host;
use crate::inspector::{never_steps_in, tells, Event};
use crate::interpreter::Interpreter;
use crate::journal_laws::{extends_in_steps, load_account_extends, load_code_extends, log_extends};
use crate::models::{
    Bytecode, CallInputs, CreateInputs, Env, Log, LogView, Return, SelfDestructResult, KECCAK_EMPTY,
};
use crate::precompiles::precompiles_contains;
use crate::primitives::{H160, H256, U256};
use crate::run_model::{frames_left, logged, makes_call, makes_create};
use crate::spec_id::Spec;
use crate::watch_laws::{
    quiet_call_is_unwatched, quiet_create_is_unwatched, quiet_inspector_stays_quiet, unwatched,
};
use vstd::prelude::*;

verus! {

impl<'a, GSPEC: Spec, DB: Database, I: Interpreter, const INSPECT: bool> Host for EVMImpl<
    'a,
    GSPEC,
    DB,
    I,
    INSPECT,
> {
    const INSPECT: bool = INSPECT;

    type DB = DB;

    type Machine = I;

    fn step(&mut self, interp: &mut I, is_static: bool) -> (r: Return)
        ensures
            tells(
                old(self)@.inspector,
                seq![
                    Event::Step {
                        machine: *old(interp),
                        data: old(self)@.data,
                        is_static,
                        ret: r,
                        new_machine: *final(interp),
                        new_data: final(self)@.data,
                    },
                ],
                final(self)@.inspector,
            ),
            final(self)@.data.journal.extends(old(self)@.data.journal),
            final(self)@.precompiles == old(self)@.precompiles,
    {
        self.inspector.by.step(interp, &mut self.data, is_static)
    }

    fn step_end(&mut self, interp: &mut I, is_static: bool, ret: Return) -> (r: Return)
        ensures
            tells(
                old(self)@.inspector,
                seq![
                    Event::StepEnd {
                        machine: *old(interp),
                        data: old(self)@.data,
                        is_static,
                        ended: ret,
                        ret: r,
                        new_machine: *final(interp),
                        new_data: final(self)@.data,
                    },
                ],
                final(self)@.inspector,
            ),
            final(self)@.data.journal.extends(old(self)@.data.journal),
            final(self)@.precompiles == old(self)@.precompiles,
    {
        self.inspector.by.step_end(interp, &mut self.data, is_static, ret)
    }

    fn env(&mut self) -> (r: &mut Env)
        ensures
            *r == old(self)@.data.env,
            final(self)@ == (EvmView {
                data: DataView { env: *final(r), ..old(self)@.data },
                ..old(self)@
            }),
    {
        &mut *self.data.env
    }

    fn block_hash(&mut self, number: U256) -> (r: Option<H256>)
        ensures
            (final(self)@.data, plain_hash_answer(r)) == old(self)@.data.block_hash(number@),
            final(self)@.precompiles == old(self)@.precompiles,
            final(self)@.inspector == old(self)@.inspector,
    {
        match self.data.db.block_hash(number) {
            Ok(hash) => Some(hash),
            Err(e) => {
                self.data.error = Some(e);
                None
            },
        }
    }

    fn load_account(&mut self, address: H160) -> (r: Option<(bool, bool)>)
        ensures
            (final(self)@.data, r) == old(self)@.data.load_account(address@),
            final(self)@.precompiles == old(self)@.precompiles,
            final(self)@.inspector == old(self)@.inspector,
    {
        match self.data.journaled_state.load_account_exist(address, self.data.db) {
            Ok(found) => Some(found),
            Err(e) => {
                self.data.error = Some(e);
                None
            },
        }
    }

    fn balance(&mut self, address: H160) -> (r: Option<(U256, bool)>)
        ensures
            (final(self)@.data, word_answer(r)) == old(self)@.data.balance(address@),
            final(self)@.precompiles == old(self)@.precompiles,
            final(self)@.inspector == old(self)@.inspector,
    {
        proof {
            load_account_extends(self.data@.world(), address@);
        }
        match self.data.journaled_state.load_account(address, self.data.db) {
            Ok(is_cold) => match self.data.journaled_state.account(&address) {
                Some(account) => Some((account.info.balance, is_cold)),
                None => None,
            },
            Err(e) => {
                self.data.error = Some(e);
                None
            },
        }
    }

    fn code(&mut self, address: H160) -> (r: Option<(Bytecode, bool)>)
        ensures
            (final(self)@.data, code_answer(r)) == old(self)@.data.code(address@),
            final(self)@.precompiles == old(self)@.precompiles,
            final(self)@.inspector == old(self)@.inspector,
    {
        proof {
            load_code_extends(self.data@.world(), address@);
        }
        match self.data.journaled_state.load_code(address, self.data.db) {
            Ok(is_cold) => match self.data.journaled_state.account(&address) {
                Some(account) => match &account.info.code {
                    Some(code) => Some((code.copy(), is_cold)),
                    None => None,
                },
                None => None,
            },
            Err(e) => {
                self.data.error = Some(e);
                None
            },
        }
    }

    /// Get code hash of address.
    fn code_hash(&mut self, address: H160) -> (r: Option<(H256, bool)>)
        ensures
            (final(self)@.data, hash_answer(r)) == old(self)@.data.code_hash(
                address@,
                old(self)@.precompiles.contains_key(address@),
            ),
            final(self)@.precompiles == old(self)@.precompiles,
            final(self)@.inspector == old(self)@.inspector,
    {
        proof {
            load_code_extends(self.data@.world(), address@);
        }
        match self.data.journaled_state.load_code(address, self.data.db) {
            Ok(is_cold) => {
                // take it that every precompile has some balance
                let is_precompile = precompiles_contains(&self.precompiles, &address);
                if is_precompile && self.data.env.cfg.perf_all_precompiles_have_balance {
                    return Some((KECCAK_EMPTY, is_cold));
                }
                match self.data.journaled_state.account(&address) {
                    Some(account) => {
                        if account.is_empty() {
                            let zero: H256 = [0; 32];
                            assert(zero@ =~= zero_hash());
                            return Some((zero, is_cold));
                        }
                        Some((account.info.code_hash, is_cold))
                    },
                    None => None,
                }
            },
            Err(e) => {
                self.data.error = Some(e);
                None
            },
        }
    }

    fn sload(&mut self, address: H160, index: U256) -> (r: Option<(U256, bool)>)
        ensures
            (final(self)@.data, word_answer(r)) == old(self)@.data.sload(address@, index@),
            final(self)@.precompiles == old(self)@.precompiles,
            final(self)@.inspector == old(self)@.inspector,
    {
        if !self.data.journaled_state.is_loaded(&address) {
            return None;
        }
        match self.data.journaled_state.sload(address, index, self.data.db) {
            Ok(found) => Some(found),
            Err(e) => {
                self.data.error = Some(e);
                None
            },
        }
    }

    fn sstore(&mut self, address: H160, index: U256, value: U256) -> (r: Option<
        (U256, U256, U256, bool),
    >)
        ensures
            (final(self)@.data, words_answer(r)) == old(self)@.data.sstore(
                address@,
                index@,
                value@,
            ),
            final(self)@.precompiles == old(self)@.precompiles,
            final(self)@.inspector == old(self)@.inspector,
    {
        if !self.data.journaled_state.is_loaded(&address) {
            return None;
        }
        match self.data.journaled_state.sstore(address, index, value, self.data.db) {
            Ok(found) => Some(found),
            Err(e) => {
                self.data.error = Some(e);
                None
            },
        }
    }

    fn log(&mut self, address: H160, topics: Vec<H256>, data: Vec<u8>)
        ensures
            ({
                let log = LogView { address: address@, topics: topics@, data: data@ };
                if INSPECT {
                    exists|met: DataView<DB>|
                        final(self)@.data == #[trigger] logged(met, log) && tells(
                            old(self)@.inspector,
                            seq![Event::Log { data: old(self)@.data, log, new_data: met }],
                            final(self)@.inspector,
                        )
                } else {
                    &&& final(self)@.data == logged(old(self)@.data, log)
                    &&& final(self)@.inspector == old(self)@.inspector
                }
            }),
            final(self)@.data.journal.extends(old(self)@.data.journal),
            final(self)@.precompiles == old(self)@.precompiles,
    {
        let ghost before = self.data@;
        if INSPECT {
            self.inspector.by.log(&mut self.data, &address, &topics, &data);
        }
        let ghost met = self.data@;
        let log = Log { address, topics, data };
        let ghost kept = log@;
        self.data.journaled_state.log(log);
        proof {
            log_extends(met.journal, kept);
            if INSPECT {
                extends_in_steps(self.data@.journal, met.journal, before.journal);
                assert(self@.data == logged(met, kept));
            }
        }
    }

    fn selfdestruct(&mut self, address: H160, target: H160) -> (r: Option<SelfDestructResult>)
        ensures
            (final(self)@.data, r) == old(self)@.data.selfdestruct(address@, target@),
            final(self)@.precompiles == old(self)@.precompiles,
            INSPECT ==> tells(
                old(self)@.inspector,
                seq![Event::<DB, I>::SelfDestruct],
                final(self)@.inspector,
            ),
            !INSPECT ==> final(self)@.inspector == old(self)@.inspector,
    {
        if INSPECT {
            self.inspector.by.selfdestruct();
        }
        if !self.data.journaled_state.is_loaded(&address) {
            return None;
        }
        match self.data.journaled_state.selfdestruct(address, target, self.data.db) {
            Ok(found) => Some(found),
            Err(e) => {
                self.data.error = Some(e);
                None
            },
        }
    }

    fn create<SPEC: Spec>(&mut self, inputs: &mut CreateInputs) -> (r: (
        Return,
        Option<H160>,
        Gas,
        Vec<u8>,
    ))
        ensures
            final(self)@.data.keeps(INSPECT, old(self)@.data),
            final(self)@.precompiles == old(self)@.precompiles,
            exists|told: Seq<Event<DB, I>>| #[trigger]
                tells(old(self)@.inspector, told, final(self)@.inspector) && makes_create(
                    old(self).rules(SPEC::id()),
                    frames_left(old(self)@.data.journal.depth),
                    SPEC::IS_STATIC_CALL,
                    old(self)@.data,
                    *old(inputs),
                    told,
                    final(self)@.data,
                    r.1,
                    End { reason: r.0, gas: r.2@, output: r.3@ },
                ),
            !INSPECT ==> final(self)@.inspector == old(self)@.inspector,
            INSPECT && never_steps_in(old(self)@.inspector) ==> {
                &&& never_steps_in(final(self)@.inspector)
                &&& makes_create::<DB, I>(
                    unwatched(old(self).rules(SPEC::id())),
                    frames_left(old(self)@.data.journal.depth),
                    SPEC::IS_STATIC_CALL,
                    old(self)@.data,
                    *old(inputs),
                    Seq::empty(),
                    final(self)@.data,
                    r.1,
                    End { reason: r.0, gas: r.2@, output: r.3@ },
                )
            },
            !INSPECT ==> *final(inputs) == *old(inputs),
            !INSPECT && !r.0.spec_is_ok() && r.1 is Some && r.0 != Return::FatalExternalError
                ==> final(self)@.data.restores(old(self)@.data.warm_create(*old(inputs))),
    {
        let ghost asked = *inputs;
        let (ret, address, gas, out, told) = self.create_inner::<SPEC>(
            inputs,
            SPEC::IS_STATIC_CALL,
        );
        proof {
            if INSPECT && never_steps_in(old(self)@.inspector) {
                quiet_inspector_stays_quiet(old(self)@.inspector, told@, self@.inspector);
                quiet_create_is_unwatched::<DB, I>(
                    old(self).rules(SPEC::id()),
                    frames_left(old(self)@.data.journal.depth),
                    SPEC::IS_STATIC_CALL,
                    old(self)@.data,
                    asked,
                    told@,
                    self@.data,
                    address,
                    End { reason: ret, gas: gas@, output: out@ },
                );
            }
        }
        (ret, address, gas, out)
    }

    fn call<SPEC: Spec>(&mut self, input: &mut CallInputs) -> (r: (
        Return,
        Gas,
        Vec<u8>,
    ))
        ensures
            final(self)@.data.keeps(INSPECT, old(self)@.data),
            final(self)@.precompiles == old(self)@.precompiles,
            exists|told: Seq<Event<DB, I>>| #[trigger]
                tells(old(self)@.inspector, told, final(self)@.inspector) && makes_call(
                    old(self).rules(SPEC::id()),
                    frames_left(old(self)@.data.journal.depth),
                    SPEC::IS_STATIC_CALL,
                    old(self)@.data,
                    *old(input),
                    told,
                    final(self)@.data,
                    End { reason: r.0, gas: r.1@, output: r.2@ },
                ),
            !INSPECT ==> final(self)@.inspector == old(self)@.inspector,
            INSPECT && never_steps_in(old(self)@.inspector) ==> {
                &&& never_steps_in(final(self)@.inspector)
                &&& makes_call::<DB, I>(
                    unwatched(old(self).rules(SPEC::id())),
                    frames_left(old(self)@.data.journal.depth),
                    SPEC::IS_STATIC_CALL,
                    old(self)@.data,
                    *old(input),
                    Seq::empty(),
                    final(self)@.data,
                    End { reason: r.0, gas: r.1@, output: r.2@ },
                )
            },
            !INSPECT ==> *final(input) == *old(input),
            !INSPECT && !r.0.spec_is_ok() ==> final(self)@.data.restores(
                old(self)@.data.code(old(input).contract@).0,
            ),
    {
        let ghost asked = *input;
        let (ret, gas, out, told) = self.call_inner::<SPEC>(input, SPEC::IS_STATIC_CALL);
        proof {
            if INSPECT && never_steps_in(old(self)@.inspector) {
                quiet_inspector_stays_quiet(old(self)@.inspector, told@, self@.inspector);
                quiet_call_is_unwatched::<DB, I>(
                    old(self).rules(SPEC::id()),
                    frames_left(old(self)@.data.journal.depth),
                    SPEC::IS_STATIC_CALL,
                    old(self)@.data,
                    asked,
                    told@,
                    self@.data,
                    End { reason: ret, gas: gas@, output: out@ },
                );
            }
        }
        (ret, gas, out)
    }
}

} // verus!
