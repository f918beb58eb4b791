//! Calls and creates from beginning to end: what happens while code runs.
use crate::data::{
    code_answer, hash_answer, plain_hash_answer, word_answer, words_answer, DataView,
};
use crate::db::Database;
use crate::frames_model::{address_view, CallStart, CreateStart, End};
use crate::gas::GasView;
use crate::inspector::Event;
use crate::interpreter::{ContractView, Exit, Interpreter, Reply, Request, CALL_STACK_LIMIT};
use crate::models::{raw_code, BytecodeView, CallInputs, CreateInputs, LogView, Return};
use crate::precompiles::precompile_answer;
use crate::primitives::H160;
use crate::spec_id::SpecId;
use crate::state::lookup;
use vstd::prelude::*;

verus! {

/// How many frames can still be nested at a depth.
pub open spec fn frames_left(depth: nat) -> nat {
    if depth <= CALL_STACK_LIMIT + 1 {
        (CALL_STACK_LIMIT + 2 - depth) as nat
    } else {
        0
    }
}

impl<DB: Database> DataView<DB> {
    /// This comes from `base` with the journal kept; where an inspector watched, only that is
    /// known.
    pub open spec fn keeps(self, watched: bool, base: DataView<DB>) -> bool {
        if watched {
            self.journal.extends(base.journal)
        } else {
            self.follows(base)
        }
    }

    /// The accounts, the logs and the history are those of `base`.
    pub open spec fn restores(self, base: DataView<DB>) -> bool {
        &&& self.journal.accounts == base.journal.accounts
        &&& self.journal.logs == base.journal.logs
        &&& self.journal.history == base.journal.history
    }
}

/// Fewer frames.
pub open spec fn fewer(m: nat, n: nat) -> bool {
    m < n
}

/// No more frames.
pub open spec fn within(m: nat, n: nat) -> bool {
    m <= n
}

/// What calls and creates go by.
pub struct Rules {
    /// Whether an inspector watches.
    pub watched: bool,
    pub precompiles: Map<Seq<u8>, revm_precompiles::Precompile>,
    pub spec_id: SpecId,
}

/// A point in a run: the machine is about to go on with `reply`, and the inspector has been told
/// `told` since the run began.
pub struct Moment<DB: Database, I: Interpreter> {
    pub data: DataView<DB>,
    pub machine: I,
    pub reply: Reply,
    pub told: Seq<Event<DB, I>>,
}

/// What a call runs.
pub open spec fn called_contract(inputs: CallInputs, bytecode: BytecodeView) -> ContractView {
    ContractView {
        input: inputs.input@,
        bytecode,
        address: inputs.context.address@,
        caller: inputs.context.caller@,
        value: inputs.context.apparent_value@,
    }
}

/// What a create runs.
pub open spec fn init_contract(inputs: CreateInputs, created: Seq<u8>) -> ContractView {
    ContractView {
        input: Seq::empty(),
        bytecode: raw_code(inputs.init_code@),
        address: created,
        caller: inputs.caller@,
        value: inputs.value@,
    }
}

/// How a run under `gas_limit` ends when the machine says so.
pub open spec fn exit_end(gas_limit: u64, exit: Exit) -> End {
    End {
        reason: exit.reason,
        gas: GasView {
            limit: gas_limit as nat,
            spent: if exit.spent <= gas_limit {
                exit.spent as nat
            } else {
                gas_limit as nat
            },
            refunded: exit.refunded as int,
        },
        output: exit.output@,
    }
}

/// How a run under `gas_limit` ends that asks too often.
pub open spec fn exhausted_end(gas_limit: u64) -> End {
    End {
        reason: Return::OutOfGas,
        gas: GasView { limit: gas_limit as nat, spent: gas_limit as nat, refunded: 0 },
        output: Seq::empty(),
    }
}

/// With one more log.
pub open spec fn logged<DB: Database>(data: DataView<DB>, log: LogView) -> DataView<DB> {
    data.with(data.journal.log(log))
}

/// A machine asked `request` at `data`, and `next` is where the answer has it go on. Calls and
/// creates that it asks for are themselves within fewer than `n` frames. Where an inspector
/// watches, it is told `told` meanwhile; it has a say in steps, logs, calls and creates, and the
/// journal is kept.
pub open spec fn answers<DB: Database, I: Interpreter>(
    rules: Rules,
    n: nat,
    is_static: bool,
    data: DataView<DB>,
    machine: I,
    request: Request,
    told: Seq<Event<DB, I>>,
    next: Moment<DB, I>,
) -> bool
    decreases n, 0nat,
{
    match request {
        Request::Step => if rules.watched {
            &&& next.data.journal.extends(data.journal)
            &&& next.reply matches Reply::Step { ret }
            &&& told == seq![
                Event::Step {
                    machine,
                    data,
                    is_static,
                    ret,
                    new_machine: next.machine,
                    new_data: next.data,
                },
            ]
        } else {
            &&& next.data == data
            &&& next.machine == machine
            &&& next.reply == Reply::Step { ret: Return::Continue }
            &&& told.len() == 0
        },
        Request::StepEnd { ret: ended } => if rules.watched {
            &&& next.data.journal.extends(data.journal)
            &&& next.reply matches Reply::Step { ret }
            &&& told == seq![
                Event::StepEnd {
                    machine,
                    data,
                    is_static,
                    ended,
                    ret,
                    new_machine: next.machine,
                    new_data: next.data,
                },
            ]
        } else {
            &&& next.data == data
            &&& next.machine == machine
            &&& next.reply == Reply::Step { ret: Return::Continue }
            &&& told.len() == 0
        },
        Request::LoadAccount { address } => {
            &&& told.len() == 0
            &&& next.machine == machine
            &&& next.reply matches Reply::LoadAccount { account }
            &&& (next.data, account) == data.load_account(address@)
        },
        Request::BlockHash { number } => {
            &&& told.len() == 0
            &&& next.machine == machine
            &&& next.reply matches Reply::BlockHash { hash }
            &&& (next.data, plain_hash_answer(hash)) == data.block_hash(number@)
        },
        Request::Balance { address } => {
            &&& told.len() == 0
            &&& next.machine == machine
            &&& next.reply matches Reply::Balance { balance }
            &&& (next.data, word_answer(balance)) == data.balance(address@)
        },
        Request::Code { address } => {
            &&& told.len() == 0
            &&& next.machine == machine
            &&& next.reply matches Reply::Code { code }
            &&& (next.data, code_answer(code)) == data.code(address@)
        },
        Request::CodeHash { address } => {
            &&& told.len() == 0
            &&& next.machine == machine
            &&& next.reply matches Reply::CodeHash { code_hash }
            &&& (next.data, hash_answer(code_hash)) == data.code_hash(
                address@,
                rules.precompiles.contains_key(address@),
            )
        },
        Request::Sload { address, index } => {
            &&& told.len() == 0
            &&& next.machine == machine
            &&& next.reply matches Reply::Sload { slot }
            &&& (next.data, word_answer(slot)) == data.sload(address@, index@)
        },
        Request::Sstore { address, index, value } => {
            &&& told.len() == 0
            &&& next.machine == machine
            &&& next.reply matches Reply::Sstore { written }
            &&& (next.data, words_answer(written)) == data.sstore(address@, index@, value@)
        },
        Request::Log { address, topics, data: bytes } => {
            let log = LogView { address: address@, topics: topics@, data: bytes@ };
            &&& next.machine == machine
            &&& next.reply is Ready
            &&& if rules.watched {
                &&& next.data.journal.extends(data.journal)
                &&& told.len() == 1
                &&& told[0] matches Event::Log { data: shown, log: kept, new_data }
                &&& shown == data
                &&& kept == log
                &&& next.data == logged(new_data, log)
            } else {
                &&& told.len() == 0
                &&& next.data == logged(data, log)
            }
        },
        Request::SelfDestruct { address, target } => {
            &&& told == if rules.watched {
                seq![Event::<DB, I>::SelfDestruct]
            } else {
                Seq::empty()
            }
            &&& next.machine == machine
            &&& next.reply matches Reply::SelfDestruct { destroyed }
            &&& (next.data, destroyed) == data.selfdestruct(address@, target@)
        },
        Request::Create { create } => {
            &&& next.machine == machine
            &&& next.reply matches Reply::Create { ret, address, gas, output }
            &&& exists|m: nat| #[trigger]
                fewer(m, n) && makes_create::<DB, I>(
                    rules,
                    m,
                    is_static,
                    data,
                    create,
                    told,
                    next.data,
                    address,
                    End { reason: ret, gas: gas@, output: output@ },
                )
        },
        Request::Call { call, is_static } => {
            &&& next.machine == machine
            &&& next.reply matches Reply::Call { ret, gas, output }
            &&& exists|m: nat| #[trigger]
                fewer(m, n) && makes_call::<DB, I>(
                    rules,
                    m,
                    is_static,
                    data,
                    call,
                    told,
                    next.data,
                    End { reason: ret, gas: gas@, output: output@ },
                )
        },
        Request::Exit { exit } => false,
    }
}

/// The machine goes on at `now`, asks what `asked` says, and `next` is where the answer has it
/// go on.
pub open spec fn moves<DB: Database, I: Interpreter>(
    rules: Rules,
    n: nat,
    is_static: bool,
    now: Moment<DB, I>,
    asked: (I, Request),
    next: Moment<DB, I>,
) -> bool
    decreases n, 1nat,
{
    &&& now.machine.resumes(now.data.env, now.reply, asked.0, asked.1)
    &&& now.told.is_prefix_of(next.told)
    &&& answers(
        rules,
        n,
        is_static,
        now.data,
        asked.0,
        asked.1,
        next.told.skip(now.told.len() as int),
        next,
    )
}

/// The moments of a run, with what the machine asked between them.
pub open spec fn trace<DB: Database, I: Interpreter>(
    rules: Rules,
    n: nat,
    is_static: bool,
    moments: Seq<Moment<DB, I>>,
    asked: Seq<(I, Request)>,
) -> bool
    decreases n, 2nat,
{
    &&& moments.len() == asked.len() + 1
    &&& forall|i: int|
        0 <= i < asked.len() ==> moves(
            rules,
            n,
            is_static,
            moments[i],
            #[trigger] asked[i],
            moments[i + 1],
        )
}

/// A run from `begun` to `ran`, under a gas limit, with the inspector told `told` in the end: the
/// machine asks and is answered until it says that the run is over, or until it has asked as often
/// as a 64-bit number can count.
pub open spec fn runs<DB: Database, I: Interpreter>(
    rules: Rules,
    n: nat,
    is_static: bool,
    gas_limit: u64,
    begun: Moment<DB, I>,
    told: Seq<Event<DB, I>>,
    ran: DataView<DB>,
    end: End,
) -> bool
    decreases n, 3nat,
{
    exists|moments: Seq<Moment<DB, I>>, asked: Seq<(I, Request)>|
        {
            &&& trace(rules, n, is_static, moments, asked)
            &&& moments[0] == begun
            &&& (#[trigger] moments.last()).data == ran
            &&& moments.last().told == told
            &&& if (#[trigger] asked.len()) < u64::MAX {
                exists|machine: I, exit: Exit| #[trigger]
                    moments.last().machine.resumes(
                        ran.env,
                        moments.last().reply,
                        machine,
                        Request::Exit { exit },
                    ) && end == exit_end(gas_limit, exit)
            } else {
                asked.len() == u64::MAX && end == exhausted_end(gas_limit)
            }
        }
}

/// A machine is made for a contract, and runs from `started` to `ran`, with the inspector told
/// `told`. An inspector that watches may do something before the machine begins; it is told whether
/// the run is static.
pub open spec fn executes<DB: Database, I: Interpreter>(
    rules: Rules,
    n: nat,
    is_static: bool,
    told_static: bool,
    contract: ContractView,
    gas_limit: u64,
    started: DataView<DB>,
    told: Seq<Event<DB, I>>,
    ran: DataView<DB>,
    end: End,
) -> bool
    decreases n, 4nat,
{
    &&& ran.keeps(rules.watched, started)
    &&& end.gas.wf()
    &&& end.gas.limit == gas_limit
    &&& exists|made: I, begun: Moment<DB, I>, m: nat|
        {
            &&& #[trigger] within(m, n)
            &&& made.starts(contract, gas_limit, rules.spec_id, is_static)
            &&& #[trigger] is_begun(rules.watched, told_static, started, made, begun)
            &&& runs(rules, m, is_static, gas_limit, begun, told, ran, end)
        }
}

/// Where the run of a machine begins.
pub open spec fn is_begun<DB: Database, I: Interpreter>(
    watched: bool,
    told_static: bool,
    started: DataView<DB>,
    made: I,
    begun: Moment<DB, I>,
) -> bool {
    &&& begun.reply == Reply::Ready
    &&& if watched {
        &&& begun.data.journal.extends(started.journal)
        &&& begun.told == seq![
            Event::Initialize {
                machine: made,
                data: started,
                is_static: told_static,
                new_machine: begun.machine,
                new_data: begun.data,
            },
        ]
    } else {
        &&& begun.data == started
        &&& begun.machine == made
        &&& begun.told.len() == 0
    }
}

/// A call from `before` to `after`, within `n` frames, with the inspector told `told` meanwhile;
/// but for the inspector's part in its beginning and end.
#[verifier::opaque]
pub open spec fn calls<DB: Database, I: Interpreter>(
    rules: Rules,
    n: nat,
    is_static: bool,
    before: DataView<DB>,
    inputs: CallInputs,
    told: Seq<Event<DB, I>>,
    after: DataView<DB>,
    end: End,
) -> bool
    decreases n, 5nat,
{
    let (started, start) = before.start_call(inputs);
    let fresh = GasView::fresh(inputs.gas_limit as nat);
    match start {
        CallStart::Failed => {
            &&& told.len() == 0
            &&& after == started
            &&& end == End {
                reason: Return::FatalExternalError,
                gas: fresh,
                output: Seq::empty(),
            }
        },
        CallStart::Refused { reason } => {
            &&& told.len() == 0
            &&& after == started
            &&& end == End { reason, gas: fresh, output: Seq::empty() }
        },
        CallStart::Entered { bytecode, checkpoint } => match lookup(
            rules.precompiles,
            inputs.contract@,
        ) {
            Some(precompile) => {
                &&& told.len() == 0
                &&& (after, end) == started.finish_precompile(
                    precompile_answer(precompile, inputs.input@, inputs.gas_limit),
                    fresh,
                    checkpoint,
                )
            },
            None => exists|ran: DataView<DB>|
                {
                    &&& executes::<DB, I>(
                        rules,
                        n,
                        is_static,
                        false,
                        called_contract(inputs, bytecode),
                        inputs.gas_limit,
                        started,
                        told,
                        ran,
                        end,
                    )
                    &&& after == #[trigger] ran.finish_run(end.reason, checkpoint)
                },
        },
    }
}

/// A create from `before` to `after`, within `n` frames, with the inspector told `told` meanwhile;
/// but for the inspector's part in its beginning and end. `announced` says whether the inspector
/// hears of the end.
#[verifier::opaque]
pub open spec fn creates<DB: Database, I: Interpreter>(
    rules: Rules,
    n: nat,
    is_static: bool,
    before: DataView<DB>,
    inputs: CreateInputs,
    told: Seq<Event<DB, I>>,
    after: DataView<DB>,
    announced: bool,
    address: Option<Seq<u8>>,
    end: End,
) -> bool
    decreases n, 5nat,
{
    let (started, start) = before.start_create(inputs, rules.spec_id, rules.precompiles.dom());
    match start {
        CreateStart::Refused { reason, address: refused } => {
            &&& told.len() == 0
            &&& after == started
            &&& !announced
            &&& address == refused
            &&& end == End {
                reason,
                gas: GasView::fresh(inputs.gas_limit as nat),
                output: Seq::empty(),
            }
        },
        CreateStart::Entered { created, checkpoint } => {
            &&& address == Some(created)
            &&& exists|ran: DataView<DB>, exit: End|
                {
                    &&& executes::<DB, I>(
                        rules,
                        n,
                        is_static,
                        is_static,
                        init_contract(inputs, created),
                        inputs.gas_limit,
                        started,
                        told,
                        ran,
                        exit,
                    )
                    &&& (after, announced, end) == #[trigger] ran.finish_create::<I>(
                        exit.reason,
                        exit.gas,
                        exit.output,
                        rules.spec_id,
                        created,
                        checkpoint,
                    )
                }
        },
    }
}

/// What an inspector is told of a call that it watches: `hook` before, `during` while it is made,
/// and how it ended, unless the database failed. The inspector has the last word on what the call
/// returns.
pub open spec fn tells_of_call<DB: Database, I: Interpreter>(
    failed: bool,
    call: CallInputs,
    is_static: bool,
    hook: Event<DB, I>,
    during: Seq<Event<DB, I>>,
    after: DataView<DB>,
    end: End,
    told: Seq<Event<DB, I>>,
    last: DataView<DB>,
    r: End,
) -> bool {
    if failed {
        &&& told == seq![hook] + during
        &&& (r, last) == (end, after)
    } else {
        told == (seq![hook] + during).push(
            Event::CallEnd { data: after, call, end, is_static, new_end: r, new_data: last },
        )
    }
}

/// What an inspector is told of a create that it watches: `hook` before, `during` while it is made,
/// and how it ended, where that is announced. The inspector then has the last word on what the
/// create returns.
pub open spec fn tells_of_create<DB: Database, I: Interpreter>(
    announced: bool,
    create: CreateInputs,
    hook: Event<DB, I>,
    during: Seq<Event<DB, I>>,
    after: DataView<DB>,
    address: Option<H160>,
    end: End,
    told: Seq<Event<DB, I>>,
    last: DataView<DB>,
    new_address: Option<H160>,
    r: End,
) -> bool {
    if announced {
        told == (seq![hook] + during).push(
            Event::CreateEnd {
                data: after,
                create,
                address,
                end,
                new_address,
                new_end: r,
                new_data: last,
            },
        )
    } else {
        &&& told == seq![hook] + during
        &&& (new_address, r, last) == (address, end, after)
    }
}

/// A call that is watched, from `before` to `last`, with the inspector told `told`. What the
/// inspector answers first decides: anything but `Continue` ends the call before it begins. The
/// inspector may change what the call is made with.
#[verifier::opaque]
pub open spec fn watched_call<DB: Database, I: Interpreter>(
    rules: Rules,
    n: nat,
    is_static: bool,
    before: DataView<DB>,
    inputs: CallInputs,
    told: Seq<Event<DB, I>>,
    last: DataView<DB>,
    r: End,
) -> bool
    decreases n, 6nat,
{
    &&& told.len() > 0
    &&& told[0] matches Event::Call { data, call, is_static: flag, end: answer, new_call, new_data }
    &&& data == before
    &&& call == inputs
    &&& flag == is_static
    &&& if answer.reason != Return::Continue {
        tells_of_call(
            false,
            new_call,
            is_static,
            told[0],
            Seq::empty(),
            new_data,
            answer,
            told,
            last,
            r,
        )
    } else {
        exists|m: nat, during: Seq<Event<DB, I>>, after: DataView<DB>, end: End|
            {
                &&& #[trigger] within(m, n)
                &&& calls::<DB, I>(rules, m, is_static, new_data, new_call, during, after, end)
                &&& #[trigger] tells_of_call(
                    new_data.start_call(new_call).1 is Failed,
                    new_call,
                    is_static,
                    told[0],
                    during,
                    after,
                    end,
                    told,
                    last,
                    r,
                )
            }
    }
}

/// A create that is watched, from `before` to `last`, with the inspector told `told`. What the
/// inspector answers first decides: anything but `Continue` ends the create before it begins. The
/// inspector may change what the create is made with.
#[verifier::opaque]
pub open spec fn watched_create<DB: Database, I: Interpreter>(
    rules: Rules,
    n: nat,
    is_static: bool,
    before: DataView<DB>,
    inputs: CreateInputs,
    told: Seq<Event<DB, I>>,
    last: DataView<DB>,
    address: Option<H160>,
    r: End,
) -> bool
    decreases n, 6nat,
{
    &&& told.len() > 0
    &&& told[0] matches Event::Create {
        data,
        create,
        address: given,
        end: answer,
        new_create,
        new_data,
    }
    &&& data == before
    &&& create == inputs
    &&& if answer.reason != Return::Continue {
        tells_of_create(
            true,
            new_create,
            told[0],
            Seq::empty(),
            new_data,
            given,
            answer,
            told,
            last,
            address,
            r,
        )
    } else {
        exists|
            m: nat,
            during: Seq<Event<DB, I>>,
            after: DataView<DB>,
            announced: bool,
            made: Option<H160>,
            end: End,
        |
            {
                &&& #[trigger] within(m, n)
                &&& creates::<DB, I>(
                    rules,
                    m,
                    is_static,
                    new_data,
                    new_create,
                    during,
                    after,
                    announced,
                    address_view(made),
                    end,
                )
                &&& #[trigger] tells_of_create(
                    announced,
                    new_create,
                    told[0],
                    during,
                    after,
                    made,
                    end,
                    told,
                    last,
                    address,
                    r,
                )
            }
    }
}

/// A call from `before` to `after`, watched or not, with the inspector told `told`.
#[verifier::opaque]
pub open spec fn makes_call<DB: Database, I: Interpreter>(
    rules: Rules,
    n: nat,
    is_static: bool,
    before: DataView<DB>,
    inputs: CallInputs,
    told: Seq<Event<DB, I>>,
    after: DataView<DB>,
    end: End,
) -> bool
    decreases n, 7nat,
{
    if rules.watched {
        watched_call::<DB, I>(rules, n, is_static, before, inputs, told, after, end)
    } else {
        calls::<DB, I>(rules, n, is_static, before, inputs, told, after, end)
    }
}

/// A create from `before` to `after`, watched or not, with the inspector told `told`.
#[verifier::opaque]
pub open spec fn makes_create<DB: Database, I: Interpreter>(
    rules: Rules,
    n: nat,
    is_static: bool,
    before: DataView<DB>,
    inputs: CreateInputs,
    told: Seq<Event<DB, I>>,
    after: DataView<DB>,
    address: Option<H160>,
    end: End,
) -> bool
    decreases n, 7nat,
{
    if rules.watched {
        watched_create::<DB, I>(rules, n, is_static, before, inputs, told, after, address, end)
    } else {
        ||| creates::<DB, I>(
            rules,
            n,
            is_static,
            before,
            inputs,
            told,
            after,
            true,
            address_view(address),
            end,
        )
        ||| creates::<DB, I>(
            rules,
            n,
            is_static,
            before,
            inputs,
            told,
            after,
            false,
            address_view(address),
            end,
        )
    }
}

} // verus!
