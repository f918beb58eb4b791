//! Calls and creates, and the code that they run.
use crate::data::DataView;
use crate::db::Database;
use crate::evm_impl::frames::{CallEntry, CreateEntry};
use crate::evm_impl::EVMImpl;
use crate::frames_laws::{
    balance_follows, block_hash_follows, code_follows, code_hash_follows, finish_create_keeps,
    finish_precompile_keeps, finish_run_keeps, follows_in_steps, follows_itself,
    host_selfdestruct_follows, host_sload_follows, host_sstore_follows, load_account_follows,
    start_call_keeps, start_create_keeps,
};
use crate::frames_model::{address_view, End};
use crate::gas::Gas;
use crate::host::Host;
use crate::inspector::{tells, tells_in_parts, tells_nothing, Event};
use crate::interpreter::{Contract, Interpreter, Reply, Request};
use crate::journal_laws::{extends_in_steps, log_extends};
use crate::models::{copy_bytes, Bytecode, CallInputs, CreateInputs, LogView, Return};
use crate::precompiles::{precompile_run, precompile_view, precompiles_get};
use crate::primitives::H160;
use crate::run_laws::{
    call_answers, call_is_watched, create_answers, create_is_watched, run_executes,
    run_is_exhausted, run_is_over, trace_goes_on,
};
use crate::run_model::{
    answers, called_contract, calls, creates, exhausted_end, exit_end, frames_left, init_contract,
    is_begun, logged, makes_call, makes_create, runs, trace, watched_call, watched_create, Moment,
};
use crate::spec_id::Spec;
use vstd::prelude::*;

verus! {

impl<'a, GSPEC: Spec, DB: Database, I: Interpreter, const INSPECT: bool> EVMImpl<
    'a,
    GSPEC,
    DB,
    I,
    INSPECT,
> {
    /// Answers a question of the interpreter. Also returns what the inspector was told.
    fn answer<SPEC: Spec>(
        &mut self,
        interp: &mut I,
        request: Request,
        is_static: bool,
        Ghost(n): Ghost<nat>,
    ) -> (r: (Reply, Ghost<Seq<Event<DB, I>>>))
        requires
            !(request is Exit),
            n > frames_left(old(self)@.data.journal.depth),
        ensures
            final(self)@.data.keeps(INSPECT, old(self)@.data),
            final(self)@.precompiles == old(self)@.precompiles,
            tells(old(self)@.inspector, r.1@, final(self)@.inspector),
            !INSPECT ==> final(self)@.inspector == old(self)@.inspector,
            forall|next: Moment<DB, I>|
                next.data == final(self)@.data && next.machine == *final(interp) && next.reply
                    == r.0 ==> #[trigger] answers(
                    old(self).rules(SPEC::id()),
                    n,
                    is_static,
                    old(self)@.data,
                    *old(interp),
                    request,
                    r.1@,
                    next,
                ),
        decreases frames_left(old(self)@.data.journal.depth), 3int,
    {
        let ghost before = self@.data;
        let ghost rules = self.rules(SPEC::id());
        let ghost machine = *interp;
        let ghost mut told = Seq::<Event<DB, I>>::empty();
        proof {
            follows_itself(before);
            tells_nothing(self@.inspector);
        }
        let reply = match request {
            Request::Step => {
                let ret = if INSPECT {
                    self.step(interp, is_static)
                } else {
                    Return::Continue
                };
                proof {
                    if INSPECT {
                        told = seq![
                            Event::Step {
                                machine,
                                data: before,
                                is_static,
                                ret,
                                new_machine: *interp,
                                new_data: self@.data,
                            },
                        ];
                    }
                }
                Reply::Step { ret }
            },
            Request::StepEnd { ret: ended } => {
                let ret = if INSPECT {
                    self.step_end(interp, is_static, ended)
                } else {
                    Return::Continue
                };
                proof {
                    if INSPECT {
                        told = seq![
                            Event::StepEnd {
                                machine,
                                data: before,
                                is_static,
                                ended,
                                ret,
                                new_machine: *interp,
                                new_data: self@.data,
                            },
                        ];
                    }
                }
                Reply::Step { ret }
            },
            Request::LoadAccount { address } => {
                proof {
                    load_account_follows(before, address@);
                }
                Reply::LoadAccount { account: self.load_account(address) }
            },
            Request::BlockHash { number } => {
                proof {
                    block_hash_follows(before, number@);
                }
                Reply::BlockHash { hash: self.block_hash(number) }
            },
            Request::Balance { address } => {
                proof {
                    balance_follows(before, address@);
                }
                Reply::Balance { balance: self.balance(address) }
            },
            Request::Code { address } => {
                proof {
                    code_follows(before, address@);
                }
                Reply::Code { code: self.code(address) }
            },
            Request::CodeHash { address } => {
                proof {
                    code_hash_follows(
                        before,
                        address@,
                        self@.precompiles.contains_key(address@),
                    );
                }
                Reply::CodeHash { code_hash: self.code_hash(address) }
            },
            Request::Sload { address, index } => {
                proof {
                    host_sload_follows(before, address@, index@);
                }
                Reply::Sload { slot: self.sload(address, index) }
            },
            Request::Sstore { address, index, value } => {
                proof {
                    host_sstore_follows(before, address@, index@, value@);
                }
                Reply::Sstore { written: self.sstore(address, index, value) }
            },
            Request::Log { address, topics, data } => {
                let ghost log = LogView { address: address@, topics: topics@, data: data@ };
                let ghost stories = self@.inspector;
                self.log(address, topics, data);
                proof {
                    if INSPECT {
                        let met = choose|met: DataView<DB>|
                            self@.data == #[trigger] logged(met, log) && tells(
                                stories,
                                seq![Event::Log { data: before, log, new_data: met }],
                                self@.inspector,
                            );
                        told = seq![Event::Log { data: before, log, new_data: met }];
                    } else {
                        log_extends(before.journal, log);
                    }
                }
                Reply::Ready
            },
            Request::SelfDestruct { address, target } => {
                proof {
                    host_selfdestruct_follows(before, address@, target@);
                    if INSPECT {
                        told = seq![Event::<DB, I>::SelfDestruct];
                    }
                }
                Reply::SelfDestruct { destroyed: self.selfdestruct(address, target) }
            },
            Request::Create { create } => {
                let mut inputs = create;
                let (ret, address, gas, output, heard) = self.create_inner::<SPEC>(
                    &mut inputs,
                    is_static,
                );
                proof {
                    told = heard@;
                }
                Reply::Create { ret, address, gas, output }
            },
            Request::Call { call, is_static: call_is_static } => {
                let mut inputs = call;
                let (ret, gas, output, heard) = self.call_inner::<SPEC>(
                    &mut inputs,
                    call_is_static,
                );
                proof {
                    told = heard@;
                }
                Reply::Call { ret, gas, output }
            },
            Request::Exit { exit } => Reply::Ready,
        };
        proof {
            let m = frames_left(before.journal.depth);
            assert forall|next: Moment<DB, I>|
                next.data == self@.data && next.machine == *interp && next.reply
                    == reply implies #[trigger] answers(
                rules,
                n,
                is_static,
                before,
                machine,
                request,
                told,
                next,
            ) by {
                match request {
                    Request::Create { create } => {
                        create_answers(
                            rules,
                            n,
                            m,
                            is_static,
                            before,
                            machine,
                            create,
                            told,
                            next,
                        );
                    },
                    Request::Call { call, is_static: call_is_static } => {
                        call_answers(
                            rules,
                            n,
                            m,
                            is_static,
                            before,
                            machine,
                            call,
                            call_is_static,
                            told,
                            next,
                        );
                    },
                    _ => {},
                }
            }
        }
        (reply, Ghost(told))
    }

    /// Runs code: answers the questions of the interpreter until its run is over. A run that asks
    /// more often than a 64-bit count of gas allows is out of gas. The inspector, which admitted
    /// `stories`, was told `opening` when the run began; also returns all that it was told.
    #[verifier::rlimit(30)]
    fn run<SPEC: Spec>(
        &mut self,
        interp: &mut I,
        gas_limit: u64,
        is_static: bool,
        Ghost(stories): Ghost<Set<Seq<Event<DB, I>>>>,
        Ghost(opening): Ghost<Seq<Event<DB, I>>>,
    ) -> (r: (Return, Gas, Vec<u8>, Ghost<Seq<Event<DB, I>>>))
        requires
            tells(stories, opening, old(self)@.inspector),
        ensures
            final(self)@.data.keeps(INSPECT, old(self)@.data),
            final(self)@.precompiles == old(self)@.precompiles,
            tells(stories, r.3@, final(self)@.inspector),
            !INSPECT ==> final(self)@.inspector == old(self)@.inspector,
            r.1@.wf(),
            r.1@.limit == gas_limit,
            runs(
                old(self).rules(SPEC::id()),
                frames_left(old(self)@.data.journal.depth) + 1,
                is_static,
                gas_limit,
                Moment {
                    data: old(self)@.data,
                    machine: *old(interp),
                    reply: Reply::Ready,
                    told: opening,
                },
                r.3@,
                final(self)@.data,
                End { reason: r.0, gas: r.1@, output: r.2@ },
            ),
        decreases frames_left(old(self)@.data.journal.depth), 4int,
    {
        let ghost before = self@;
        let ghost rules = self.rules(SPEC::id());
        let ghost n = frames_left(before.data.journal.depth) + 1;
        let mut reply = Reply::Ready;
        let ghost mut told = opening;
        let ghost mut moments = seq![
            Moment { data: self@.data, machine: *interp, reply, told: opening },
        ];
        let ghost mut asked = Seq::<(I, Request)>::empty();
        let mut count: u64 = 0;
        proof {
            follows_itself(before.data);
        }
        while count < u64::MAX
            invariant
                before == old(self)@,
                rules == old(self).rules(SPEC::id()),
                n == frames_left(before.data.journal.depth) + 1,
                self@.data.keeps(INSPECT, before.data),
                self@.precompiles == before.precompiles,
                tells(stories, told, self@.inspector),
                !INSPECT ==> self@.inspector == before.inspector,
                asked.len() == count,
                moments[0] == (Moment {
                    data: old(self)@.data,
                    machine: *old(interp),
                    reply: Reply::Ready,
                    told: opening,
                }),
                moments.last() == (Moment { data: self@.data, machine: *interp, reply, told }),
                trace(rules, n, is_static, moments, asked),
            decreases u64::MAX - count,
        {
            let ghost here = self@;
            let ghost now = moments.last();
            let request = interp.resume(&*self.data.env, reply);
            assert(now.machine.resumes(now.data.env, now.reply, *interp, request));
            if let Request::Exit { exit } = request {
                let gas = Gas::after(gas_limit, exit.spent, exit.refunded);
                proof {
                    run_is_over(rules, n, is_static, gas_limit, moments, asked, *interp, exit);
                    assert(exit_end(gas_limit, exit) == (End {
                        reason: exit.reason,
                        gas: gas@,
                        output: exit.output@,
                    }));
                }
                return (exit.reason, gas, exit.output, Ghost(told));
            }
            let ghost question = (*interp, request);
            let (answered, heard) = self.answer::<SPEC>(interp, request, is_static, Ghost(n));
            reply = answered;
            count = count + 1;
            proof {
                if INSPECT {
                    extends_in_steps(self@.data.journal, here.data.journal, before.data.journal);
                } else {
                    follows_in_steps(self@.data, here.data, before.data);
                }
                tells_in_parts(stories, told, here.inspector, heard@, self@.inspector);
                told = told + heard@;
                let next = Moment { data: self@.data, machine: *interp, reply, told };
                trace_goes_on(rules, n, is_static, moments, asked, question, heard@, next);
                moments = moments.push(next);
                asked = asked.push(question);
            }
        }
        proof {
            run_is_exhausted(rules, n, is_static, gas_limit, moments, asked);
        }
        let output: Vec<u8> = Vec::new();
        assert(output@ =~= Seq::empty());
        let gas = Gas::after(gas_limit, gas_limit, 0);
        assert(exhausted_end(gas_limit) == (End {
            reason: Return::OutOfGas,
            gas: gas@,
            output: output@,
        }));
        (Return::OutOfGas, gas, output, Ghost(told))
    }

    /// A call, but for the inspector's part in its beginning and end. Also returns whether the
    /// inspector hears of the end, and what it was told meanwhile.
    fn call_frame<SPEC: Spec>(&mut self, inputs: &CallInputs, is_static: bool) -> (r: (
        bool,
        Return,
        Gas,
        Vec<u8>,
        Ghost<Seq<Event<DB, I>>>,
    ))
        ensures
            final(self)@.data.keeps(INSPECT, old(self)@.data),
            final(self)@.precompiles == old(self)@.precompiles,
            tells(old(self)@.inspector, r.4@, final(self)@.inspector),
            !INSPECT ==> final(self)@.inspector == old(self)@.inspector,
            r.0 == !(old(self)@.data.start_call(*inputs).1 is Failed),
            calls::<DB, I>(
                old(self).rules(SPEC::id()),
                frames_left(old(self)@.data.journal.depth),
                is_static,
                old(self)@.data,
                *inputs,
                r.4@,
                final(self)@.data,
                End { reason: r.1, gas: r.2@, output: r.3@ },
            ),
            !r.1.spec_is_ok() ==> final(self)@.data.restores(
                old(self)@.data.code(inputs.contract@).0,
            ),
        decreases frames_left(old(self)@.data.journal.depth), 1int,
    {
        let ghost d = self@.data;
        let ghost coded = d.code(inputs.contract@).0;
        proof {
            reveal(calls);
            tells_nothing(self@.inspector);
            start_call_keeps(d, *inputs);
            code_follows(d, inputs.contract@);
        }
        let gas = Gas::new(inputs.gas_limit);
        let (bytecode, checkpoint) = match self.start_call(inputs) {
            CallEntry::Failed => {
                let out: Vec<u8> = Vec::new();
                assert(out@ =~= Seq::empty());
                return (false, Return::FatalExternalError, gas, out, Ghost(Seq::empty()));
            },
            CallEntry::Refused { reason } => {
                let out: Vec<u8> = Vec::new();
                assert(out@ =~= Seq::empty());
                return (true, reason, gas, out, Ghost(Seq::empty()));
            },
            CallEntry::Entered { bytecode, checkpoint } => (bytecode, checkpoint),
        };
        let ghost started = self@.data;
        let ghost bytecode_view = bytecode@;
        // Call precompiles
        match precompiles_get(&self.precompiles, &inputs.contract) {
            Some(precompile) => {
                let answer = precompile_run(&precompile, inputs.input.as_slice(), inputs.gas_limit);
                proof {
                    finish_precompile_keeps(coded, started, precompile_view(answer), gas@);
                }
                let (reason, gas, output) = self.data.finish_precompile(answer, gas, checkpoint);
                proof {
                    extends_in_steps(self@.data.journal, coded.journal, d.journal);
                }
                (true, reason, gas, output, Ghost(Seq::empty()))
            },
            None => {
                // Create interpreter and execute subcall
                let contract = Contract::new_with_context(
                    copy_bytes(&inputs.input),
                    bytecode,
                    &inputs.context,
                );
                let ghost runnable = contract@;
                let mut interp = I::new(contract, gas.limit(), SPEC::spec_id(), is_static);
                let ghost made = interp;
                let ghost stories = self@.inspector;
                if INSPECT {
                    // A call is announced as no static one.
                    self.inspector.by.initialize_interp(&mut interp, &mut self.data, false);
                }
                let ghost begun = self@.data;
                let ghost opening = if INSPECT {
                    seq![
                        Event::Initialize {
                            machine: made,
                            data: started,
                            is_static: false,
                            new_machine: interp,
                            new_data: begun,
                        },
                    ]
                } else {
                    Seq::empty()
                };
                let ghost first = Moment {
                    data: begun,
                    machine: interp,
                    reply: Reply::Ready,
                    told: opening,
                };
                proof {
                    follows_itself(started);
                    assert(tells(stories, opening, self@.inspector));
                }
                let (reason, gas, output, told) = self.run::<SPEC>(
                    &mut interp,
                    inputs.gas_limit,
                    is_static,
                    Ghost(stories),
                    Ghost(opening),
                );
                let ghost ran = self@.data;
                proof {
                    if INSPECT {
                        extends_in_steps(ran.journal, begun.journal, started.journal);
                    }
                    assert(ran.keeps(INSPECT, started));
                    assert(runnable =~= called_contract(*inputs, bytecode_view));
                    assert(is_begun(INSPECT, false, started, made, first));
                    run_executes(
                        old(self).rules(SPEC::id()),
                        frames_left(d.journal.depth),
                        frames_left(begun.journal.depth) + 1,
                        is_static,
                        false,
                        runnable,
                        inputs.gas_limit,
                        started,
                        made,
                        first,
                        told@,
                        ran,
                        End { reason, gas: gas@, output: output@ },
                    );
                    extends_in_steps(
                        ran.journal,
                        started.journal,
                        coded.journal.checkpoint().0,
                    );
                    finish_run_keeps(coded, ran, reason);
                }
                self.data.finish_run(reason, checkpoint);
                proof {
                    extends_in_steps(self@.data.journal, coded.journal, d.journal);
                }
                (true, reason, gas, output, told)
            },
        }
    }

    /// A call. Also returns what the inspector was told.
    pub(super) fn call_inner<SPEC: Spec>(&mut self, inputs: &mut CallInputs, is_static: bool) -> (r: (
        Return,
        Gas,
        Vec<u8>,
        Ghost<Seq<Event<DB, I>>>,
    ))
        ensures
            final(self)@.data.keeps(INSPECT, old(self)@.data),
            final(self)@.precompiles == old(self)@.precompiles,
            tells(old(self)@.inspector, r.3@, final(self)@.inspector),
            makes_call(
                old(self).rules(SPEC::id()),
                frames_left(old(self)@.data.journal.depth),
                is_static,
                old(self)@.data,
                *old(inputs),
                r.3@,
                final(self)@.data,
                End { reason: r.0, gas: r.1@, output: r.2@ },
            ),
            !INSPECT ==> final(self)@.inspector == old(self)@.inspector,
            !INSPECT ==> *final(inputs) == *old(inputs),
            !INSPECT && !r.0.spec_is_ok() ==> final(self)@.data.restores(
                old(self)@.data.code(old(inputs).contract@).0,
            ),
        decreases frames_left(old(self)@.data.journal.depth), 2int,
    {
        let ghost rules = self.rules(SPEC::id());
        let ghost before = self@;
        let ghost n = frames_left(before.data.journal.depth);
        let ghost asked = *inputs;
        let ghost mut hook = Event::<DB, I>::SelfDestruct;
        proof {
            follows_itself(before.data);
        }
        // Call the inspector
        if INSPECT {
            let (ret, gas, out) = self.inspector.by.call(&mut self.data, inputs, is_static);
            let ghost met = self@;
            let ghost answer = End { reason: ret, gas: gas@, output: out@ };
            proof {
                hook =
                Event::Call {
                    data: before.data,
                    call: asked,
                    is_static,
                    end: answer,
                    new_call: *inputs,
                    new_data: met.data,
                };
                assert(tells(before.inspector, seq![hook], met.inspector));
            }
            if ret != Return::Continue {
                let r = self.inspector.by.call_end(
                    &mut self.data,
                    inputs,
                    gas,
                    ret,
                    out,
                    is_static,
                );
                let ghost end = End { reason: r.0, gas: r.1@, output: r.2@ };
                let ghost last = Event::CallEnd {
                    data: met.data,
                    call: *inputs,
                    end: answer,
                    is_static,
                    new_end: end,
                    new_data: self@.data,
                };
                let ghost told = seq![hook] + seq![last];
                proof {
                    extends_in_steps(
                        self@.data.journal,
                        met.data.journal,
                        before.data.journal,
                    );
                    assert(tells(met.inspector, seq![last], self@.inspector));
                    tells_in_parts(
                        before.inspector,
                        seq![hook],
                        met.inspector,
                        seq![last],
                        self@.inspector,
                    );
                    assert(told =~= (seq![hook] + Seq::<Event<DB, I>>::empty()).push(last));
                    reveal(makes_call);
                    reveal(watched_call);
                    assert(told[0] == hook);
                }
                return (r.0, r.1, r.2, Ghost(told));
            }
        }
        let ghost met = self@;
        let (announced, ret, gas, out, during) = self.call_frame::<SPEC>(inputs, is_static);
        let ghost after = self@;
        let ghost end = End { reason: ret, gas: gas@, output: out@ };
        let r = if INSPECT && announced {
            self.inspector.by.call_end(&mut self.data, inputs, gas, ret, out, is_static)
        } else {
            (ret, gas, out)
        };
        let ghost reported = End { reason: r.0, gas: r.1@, output: r.2@ };
        let ghost mut told = during@;
        proof {
            reveal(makes_call);
            if INSPECT {
                extends_in_steps(after.data.journal, met.data.journal, before.data.journal);
                tells_in_parts(
                    before.inspector,
                    seq![hook],
                    met.inspector,
                    during@,
                    after.inspector,
                );
                told = seq![hook] + during@;
                if announced {
                    extends_in_steps(
                        self@.data.journal,
                        after.data.journal,
                        before.data.journal,
                    );
                    let last = Event::CallEnd {
                        data: after.data,
                        call: *inputs,
                        end,
                        is_static,
                        new_end: reported,
                        new_data: self@.data,
                    };
                    assert(tells(after.inspector, seq![last], self@.inspector));
                    tells_in_parts(
                        before.inspector,
                        told,
                        after.inspector,
                        seq![last],
                        self@.inspector,
                    );
                    assert(told + seq![last] =~= told.push(last));
                    told = told.push(last);
                }
                call_is_watched(
                    rules,
                    n,
                    frames_left(met.data.journal.depth),
                    is_static,
                    hook,
                    during@,
                    after.data,
                    end,
                    told,
                    self@.data,
                    reported,
                );
                reveal(watched_call);
            } else {
                reveal(calls);
            }
        }
        (r.0, r.1, r.2, Ghost(told))
    }

    /// A create, but for the inspector's part in its beginning and end. Also returns whether the
    /// inspector hears of the end, and what it was told meanwhile.
    fn create_frame<SPEC: Spec>(&mut self, inputs: &CreateInputs, is_static: bool) -> (r: (
        bool,
        Return,
        Option<H160>,
        Gas,
        Vec<u8>,
        Ghost<Seq<Event<DB, I>>>,
    ))
        ensures
            final(self)@.data.keeps(INSPECT, old(self)@.data),
            final(self)@.precompiles == old(self)@.precompiles,
            tells(old(self)@.inspector, r.5@, final(self)@.inspector),
            !INSPECT ==> final(self)@.inspector == old(self)@.inspector,
            creates::<DB, I>(
                old(self).rules(SPEC::id()),
                frames_left(old(self)@.data.journal.depth),
                is_static,
                old(self)@.data,
                *inputs,
                r.5@,
                final(self)@.data,
                r.0,
                address_view(r.2),
                End { reason: r.1, gas: r.3@, output: r.4@ },
            ),
            !r.1.spec_is_ok() && r.2 is Some && r.1 != Return::FatalExternalError
                ==> final(self)@.data.restores(old(self)@.data.warm_create(*inputs)),
        decreases frames_left(old(self)@.data.journal.depth), 1int,
    {
        let ghost d = self@.data;
        let ghost warm = d.warm_create(*inputs);
        proof {
            reveal(creates);
            tells_nothing(self@.inspector);
            start_create_keeps(d, *inputs, SPEC::id(), self@.precompiles.dom());
        }
        let gas = Gas::new(inputs.gas_limit);
        let (created, checkpoint) = match self.start_create::<SPEC>(inputs) {
            CreateEntry::Refused { reason, address } => {
                let out: Vec<u8> = Vec::new();
                assert(out@ =~= Seq::empty());
                return (false, reason, address, gas, out, Ghost(Seq::empty()));
            },
            CreateEntry::Entered { created, checkpoint } => (created, checkpoint),
        };
        let ghost started = self@.data;
        // Create new interpreter and execute initcode
        let contract = Contract::new(
            Vec::new(),
            Bytecode::new_raw(copy_bytes(&inputs.init_code)),
            created,
            inputs.caller,
            inputs.value,
        );
        let ghost runnable = contract@;
        let mut interp = I::new(contract, gas.limit(), SPEC::spec_id(), is_static);
        let ghost made = interp;
        let ghost stories = self@.inspector;
        if INSPECT {
            self.inspector.by.initialize_interp(&mut interp, &mut self.data, is_static);
        }
        let ghost begun = self@.data;
        let ghost opening = if INSPECT {
            seq![
                Event::Initialize {
                    machine: made,
                    data: started,
                    is_static,
                    new_machine: interp,
                    new_data: begun,
                },
            ]
        } else {
            Seq::empty()
        };
        let ghost first = Moment {
            data: begun,
            machine: interp,
            reply: Reply::Ready,
            told: opening,
        };
        proof {
            follows_itself(started);
            assert(tells(stories, opening, self@.inspector));
        }
        let (exit_reason, exit_gas, output, told) = self.run::<SPEC>(
            &mut interp,
            inputs.gas_limit,
            is_static,
            Ghost(stories),
            Ghost(opening),
        );
        let ghost ran = self@.data;
        let ghost exit = End { reason: exit_reason, gas: exit_gas@, output: output@ };
        proof {
            if INSPECT {
                extends_in_steps(ran.journal, begun.journal, started.journal);
            }
            assert(ran.keeps(INSPECT, started));
            assert(runnable =~= init_contract(*inputs, created@));
            assert(is_begun(INSPECT, is_static, started, made, first));
            run_executes(
                old(self).rules(SPEC::id()),
                frames_left(d.journal.depth),
                frames_left(begun.journal.depth) + 1,
                is_static,
                is_static,
                runnable,
                inputs.gas_limit,
                started,
                made,
                first,
                told@,
                ran,
                exit,
            );
            extends_in_steps(ran.journal, started.journal, warm.journal.checkpoint().0);
            finish_create_keeps::<DB, I>(
                warm,
                ran,
                exit.reason,
                exit.gas,
                exit.output,
                SPEC::id(),
                created@,
            );
        }
        let (announced, reason, gas, output) = self.data.finish_create::<SPEC, I>(
            exit_reason,
            exit_gas,
            output,
            created,
            checkpoint,
        );
        proof {
            extends_in_steps(self@.data.journal, warm.journal, d.journal);
            assert((
                self@.data,
                announced,
                (End { reason, gas: gas@, output: output@ }),
            ) == ran.finish_create::<I>(
                exit.reason,
                exit.gas,
                exit.output,
                SPEC::id(),
                created@,
                checkpoint@,
            ));
        }
        (announced, reason, Some(created), gas, output, told)
    }

    /// A create. Also returns what the inspector was told.
    pub(super) fn create_inner<SPEC: Spec>(
        &mut self,
        inputs: &mut CreateInputs,
        is_static: bool,
    ) -> (r: (Return, Option<H160>, Gas, Vec<u8>, Ghost<Seq<Event<DB, I>>>))
        ensures
            final(self)@.data.keeps(INSPECT, old(self)@.data),
            final(self)@.precompiles == old(self)@.precompiles,
            tells(old(self)@.inspector, r.4@, final(self)@.inspector),
            makes_create(
                old(self).rules(SPEC::id()),
                frames_left(old(self)@.data.journal.depth),
                is_static,
                old(self)@.data,
                *old(inputs),
                r.4@,
                final(self)@.data,
                r.1,
                End { reason: r.0, gas: r.2@, output: r.3@ },
            ),
            !INSPECT ==> final(self)@.inspector == old(self)@.inspector,
            !INSPECT ==> *final(inputs) == *old(inputs),
            !INSPECT && !r.0.spec_is_ok() && r.1 is Some && r.0 != Return::FatalExternalError
                ==> final(self)@.data.restores(old(self)@.data.warm_create(*old(inputs))),
        decreases frames_left(old(self)@.data.journal.depth), 2int,
    {
        let ghost rules = self.rules(SPEC::id());
        let ghost before = self@;
        let ghost n = frames_left(before.data.journal.depth);
        let ghost asked = *inputs;
        let ghost mut hook = Event::<DB, I>::SelfDestruct;
        proof {
            follows_itself(before.data);
        }
        // Call inspector
        if INSPECT {
            let (ret, address, gas, out) = self.inspector.by.create(&mut self.data, inputs);
            let ghost met = self@;
            let ghost answer = End { reason: ret, gas: gas@, output: out@ };
            proof {
                hook =
                Event::Create {
                    data: before.data,
                    create: asked,
                    address,
                    end: answer,
                    new_create: *inputs,
                    new_data: met.data,
                };
                assert(tells(before.inspector, seq![hook], met.inspector));
            }
            if ret != Return::Continue {
                let r = self.inspector.by.create_end(
                    &mut self.data,
                    inputs,
                    ret,
                    address,
                    gas,
                    out,
                );
                let ghost end = End { reason: r.0, gas: r.2@, output: r.3@ };
                let ghost last = Event::CreateEnd {
                    data: met.data,
                    create: *inputs,
                    address,
                    end: answer,
                    new_address: r.1,
                    new_end: end,
                    new_data: self@.data,
                };
                let ghost told = seq![hook] + seq![last];
                proof {
                    extends_in_steps(
                        self@.data.journal,
                        met.data.journal,
                        before.data.journal,
                    );
                    assert(tells(met.inspector, seq![last], self@.inspector));
                    tells_in_parts(
                        before.inspector,
                        seq![hook],
                        met.inspector,
                        seq![last],
                        self@.inspector,
                    );
                    assert(told =~= (seq![hook] + Seq::<Event<DB, I>>::empty()).push(last));
                    reveal(makes_create);
                    reveal(watched_create);
                    assert(told[0] == hook);
                }
                return (r.0, r.1, r.2, r.3, Ghost(told));
            }
        }
        let ghost met = self@;
        let (announced, ret, address, gas, out, during) = self.create_frame::<SPEC>(
            inputs,
            is_static,
        );
        let ghost after = self@;
        let ghost end = End { reason: ret, gas: gas@, output: out@ };
        let r = if INSPECT && announced {
            self.inspector.by.create_end(&mut self.data, inputs, ret, address, gas, out)
        } else {
            (ret, address, gas, out)
        };
        let ghost reported = End { reason: r.0, gas: r.2@, output: r.3@ };
        let ghost mut told = during@;
        proof {
            reveal(makes_create);
            if INSPECT {
                extends_in_steps(after.data.journal, met.data.journal, before.data.journal);
                tells_in_parts(
                    before.inspector,
                    seq![hook],
                    met.inspector,
                    during@,
                    after.inspector,
                );
                told = seq![hook] + during@;
                if announced {
                    extends_in_steps(
                        self@.data.journal,
                        after.data.journal,
                        before.data.journal,
                    );
                    let last = Event::CreateEnd {
                        data: after.data,
                        create: *inputs,
                        address,
                        end,
                        new_address: r.1,
                        new_end: reported,
                        new_data: self@.data,
                    };
                    assert(tells(after.inspector, seq![last], self@.inspector));
                    tells_in_parts(
                        before.inspector,
                        told,
                        after.inspector,
                        seq![last],
                        self@.inspector,
                    );
                    assert(told + seq![last] =~= told.push(last));
                    told = told.push(last);
                }
                create_is_watched(
                    rules,
                    n,
                    frames_left(met.data.journal.depth),
                    is_static,
                    hook,
                    during@,
                    after.data,
                    announced,
                    address,
                    end,
                    told,
                    self@.data,
                    r.1,
                    reported,
                );
                reveal(watched_create);
            } else {
                reveal(creates);
            }
        }
        (r.0, r.1, r.2, r.3, Ghost(told))
    }
}

} // verus!
