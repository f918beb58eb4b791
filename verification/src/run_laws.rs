//! What holds of every run.
use crate::data::DataView;
use crate::db::{is_sound, Database};
use crate::evm_impl::EVMImpl;
use crate::frames_laws::{
    code_follows, finish_create_keeps, finish_precompile_keeps, finish_run_keeps, follows_in_steps,
    start_call_keeps, start_create_keeps,
};
use crate::frames_model::{address_view, CallStart, CreateStart, End};
use crate::gas::GasView;
use crate::inspector::Event;
use crate::interpreter::{
    ContractView, Exit, Interpreter, NoOpInterpreter, Reply, Request, CALL_STACK_LIMIT,
};
use crate::journal_laws::{extends_in_steps, load_account_extends};
use crate::models::{CallInputs, CreateInputs, Return};
use crate::precompiles::precompile_answer;
use crate::primitives::H160;
use crate::run_model::{
    answers, called_contract, calls, creates, executes, exhausted_end, exit_end, fewer, init_contract,
    is_begun, makes_call, makes_create, moves, runs, tells_of_call, tells_of_create, trace,
    watched_call, watched_create, within, Moment, Rules,
};
use crate::spec_id::{Spec, SpecId};
use crate::state::lookup;
use vstd::prelude::*;

verus! {

/// A call within fewer frames answers a machine that asked for it.
pub proof fn call_answers<DB: Database, I: Interpreter>(
    rules: Rules,
    n: nat,
    m: nat,
    is_static: bool,
    data: DataView<DB>,
    machine: I,
    call: CallInputs,
    call_is_static: bool,
    told: Seq<Event<DB, I>>,
    next: Moment<DB, I>,
)
    requires
        m < n,
        next.machine == machine,
        next.reply matches Reply::Call { ret, gas, output } && makes_call::<DB, I>(
            rules,
            m,
            call_is_static,
            data,
            call,
            told,
            next.data,
            End { reason: ret, gas: gas@, output: output@ },
        ),
    ensures
        answers(
            rules,
            n,
            is_static,
            data,
            machine,
            Request::Call { call, is_static: call_is_static },
            told,
            next,
        ),
{
    reveal(makes_call);
    assert(fewer(m, n));
}

/// A create within fewer frames answers a machine that asked for it.
pub proof fn create_answers<DB: Database, I: Interpreter>(
    rules: Rules,
    n: nat,
    m: nat,
    is_static: bool,
    data: DataView<DB>,
    machine: I,
    create: CreateInputs,
    told: Seq<Event<DB, I>>,
    next: Moment<DB, I>,
)
    requires
        m < n,
        next.machine == machine,
        next.reply matches Reply::Create { ret, address, gas, output } && makes_create::<DB, I>(
            rules,
            m,
            is_static,
            data,
            create,
            told,
            next.data,
            address,
            End { reason: ret, gas: gas@, output: output@ },
        ),
    ensures
        answers(rules, n, is_static, data, machine, Request::Create { create }, told, next),
{
    reveal(makes_create);
    assert(fewer(m, n));
}

/// A call that its inspector let in, and what the inspector was told of it, make a watched call.
pub proof fn call_is_watched<DB: Database, I: Interpreter>(
    rules: Rules,
    n: nat,
    m: nat,
    is_static: bool,
    hook: Event<DB, I>,
    during: Seq<Event<DB, I>>,
    after: DataView<DB>,
    end: End,
    told: Seq<Event<DB, I>>,
    last: DataView<DB>,
    r: End,
)
    requires
        m <= n,
        hook matches Event::Call { data, call, is_static: flag, end: answer, new_call, new_data } && {
            &&& flag == is_static
            &&& answer.reason == Return::Continue
            &&& calls::<DB, I>(rules, m, is_static, new_data, new_call, during, after, end)
            &&& tells_of_call(
                new_data.start_call(new_call).1 is Failed,
                new_call,
                is_static,
                hook,
                during,
                after,
                end,
                told,
                last,
                r,
            )
        },
    ensures
        watched_call::<DB, I>(rules, n, is_static, hook->Call_data, hook->Call_call, told, last, r),
{
    reveal(calls);
    reveal(watched_call);
    assert(within(m, n));
    assert(told[0] == hook);
}

/// A create that its inspector let in, and what the inspector was told of it, make a watched
/// create.
pub proof fn create_is_watched<DB: Database, I: Interpreter>(
    rules: Rules,
    n: nat,
    m: nat,
    is_static: bool,
    hook: Event<DB, I>,
    during: Seq<Event<DB, I>>,
    after: DataView<DB>,
    announced: bool,
    made: Option<H160>,
    end: End,
    told: Seq<Event<DB, I>>,
    last: DataView<DB>,
    address: Option<H160>,
    r: End,
)
    requires
        m <= n,
        hook matches Event::Create {
            data,
            create,
            address: given,
            end: answer,
            new_create,
            new_data,
        } && {
            &&& answer.reason == Return::Continue
            &&& creates::<DB, I>(
                rules,
                m,
                is_static,
                new_data,
                new_create,
                during,
                after,
                announced,
                address_view(made),
                end,
            )
            &&& tells_of_create(
                announced,
                new_create,
                hook,
                during,
                after,
                made,
                end,
                told,
                last,
                address,
                r,
            )
        },
    ensures
        watched_create::<DB, I>(
            rules,
            n,
            is_static,
            hook->Create_data,
            hook->Create_create,
            told,
            last,
            address,
            r,
        ),
{
    reveal(creates);
    reveal(watched_create);
    assert(within(m, n));
    assert(told[0] == hook);
}

/// A trace goes on with one more question and answer, about which the inspector is told `heard`.
pub proof fn trace_goes_on<DB: Database, I: Interpreter>(
    rules: Rules,
    n: nat,
    is_static: bool,
    moments: Seq<Moment<DB, I>>,
    asked: Seq<(I, Request)>,
    question: (I, Request),
    heard: Seq<Event<DB, I>>,
    next: Moment<DB, I>,
)
    requires
        trace(rules, n, is_static, moments, asked),
        moments.last().machine.resumes(
            moments.last().data.env,
            moments.last().reply,
            question.0,
            question.1,
        ),
        next.told == moments.last().told + heard,
        answers(
            rules,
            n,
            is_static,
            moments.last().data,
            question.0,
            question.1,
            heard,
            next,
        ),
    ensures
        trace(rules, n, is_static, moments.push(next), asked.push(question)),
{
    let longer = moments.push(next);
    let all = asked.push(question);
    assert(next.told.skip(moments.last().told.len() as int) =~= heard);
    assert(moves(rules, n, is_static, moments.last(), question, next));
    assert forall|i: int| 0 <= i < all.len() implies moves(
        rules,
        n,
        is_static,
        longer[i],
        #[trigger] all[i],
        longer[i + 1],
    ) by {
        if i < asked.len() {
            assert(all[i] == asked[i]);
            assert(moves(rules, n, is_static, moments[i], asked[i], moments[i + 1]));
        }
    }
}

/// A trace whose machine says that the run is over is a run.
pub proof fn run_is_over<DB: Database, I: Interpreter>(
    rules: Rules,
    n: nat,
    is_static: bool,
    gas_limit: u64,
    moments: Seq<Moment<DB, I>>,
    asked: Seq<(I, Request)>,
    machine: I,
    exit: Exit,
)
    requires
        trace(rules, n, is_static, moments, asked),
        asked.len() < u64::MAX,
        moments.last().machine.resumes(
            moments.last().data.env,
            moments.last().reply,
            machine,
            Request::Exit { exit },
        ),
    ensures
        runs(
            rules,
            n,
            is_static,
            gas_limit,
            moments[0],
            moments.last().told,
            moments.last().data,
            exit_end(gas_limit, exit),
        ),
{
}

/// A trace that is as long as can be is a run.
pub proof fn run_is_exhausted<DB: Database, I: Interpreter>(
    rules: Rules,
    n: nat,
    is_static: bool,
    gas_limit: u64,
    moments: Seq<Moment<DB, I>>,
    asked: Seq<(I, Request)>,
)
    requires
        trace(rules, n, is_static, moments, asked),
        asked.len() == u64::MAX,
    ensures
        runs(
            rules,
            n,
            is_static,
            gas_limit,
            moments[0],
            moments.last().told,
            moments.last().data,
            exhausted_end(gas_limit),
        ),
{
}

/// A machine that is made for a contract and runs executes the contract.
pub proof fn run_executes<DB: Database, I: Interpreter>(
    rules: Rules,
    n: nat,
    m: nat,
    is_static: bool,
    told_static: bool,
    contract: ContractView,
    gas_limit: u64,
    started: DataView<DB>,
    made: I,
    begun: Moment<DB, I>,
    told: Seq<Event<DB, I>>,
    ran: DataView<DB>,
    end: End,
)
    requires
        ran.keeps(rules.watched, started),
        end.gas.wf(),
        end.gas.limit == gas_limit,
        m <= n,
        made.starts(contract, gas_limit, rules.spec_id, is_static),
        is_begun(rules.watched, told_static, started, made, begun),
        runs(rules, m, is_static, gas_limit, begun, told, ran, end),
    ensures
        executes::<DB, I>(
            rules,
            n,
            is_static,
            told_static,
            contract,
            gas_limit,
            started,
            told,
            ran,
            end,
        ),
{
    assert(within(m, n));
}

/// A failed call leaves nothing behind: the accounts, the logs and the history are as they were
/// when the code of the account was loaded, whatever its code did and whoever watched.
pub proof fn failed_call_restores<DB: Database, I: Interpreter>(
    rules: Rules,
    n: nat,
    is_static: bool,
    before: DataView<DB>,
    inputs: CallInputs,
    told: Seq<Event<DB, I>>,
    after: DataView<DB>,
    end: End,
)
    requires
        calls::<DB, I>(rules, n, is_static, before, inputs, told, after, end),
        !end.reason.spec_is_ok(),
    ensures
        after.restores(before.code(inputs.contract@).0),
{
    lemma_call::<DB, I>(rules, n, is_static, before, inputs, told, after, end);
}

/// Whatever a call does can be undone by the call around it.
pub proof fn call_extends<DB: Database, I: Interpreter>(
    rules: Rules,
    n: nat,
    is_static: bool,
    before: DataView<DB>,
    inputs: CallInputs,
    told: Seq<Event<DB, I>>,
    after: DataView<DB>,
    end: End,
)
    requires
        calls::<DB, I>(rules, n, is_static, before, inputs, told, after, end),
    ensures
        after.journal.extends(before.journal),
{
    lemma_call::<DB, I>(rules, n, is_static, before, inputs, told, after, end);
}

proof fn lemma_call<DB: Database, I: Interpreter>(
    rules: Rules,
    n: nat,
    is_static: bool,
    before: DataView<DB>,
    inputs: CallInputs,
    told: Seq<Event<DB, I>>,
    after: DataView<DB>,
    end: End,
)
    requires
        calls::<DB, I>(rules, n, is_static, before, inputs, told, after, end),
    ensures
        after.journal.extends(before.journal),
        !end.reason.spec_is_ok() ==> after.restores(before.code(inputs.contract@).0),
{
    reveal(calls);
    let coded = before.code(inputs.contract@).0;
    let (started, start) = before.start_call(inputs);
    start_call_keeps(before, inputs);
    code_follows(before, inputs.contract@);
    if let CallStart::Entered { bytecode, checkpoint } = start {
        match lookup(rules.precompiles, inputs.contract@) {
            Some(precompile) => {
                finish_precompile_keeps(
                    coded,
                    started,
                    precompile_answer(precompile, inputs.input@, inputs.gas_limit),
                    GasView::fresh(inputs.gas_limit as nat),
                );
            },
            None => {
                let ran = choose|ran: DataView<DB>|
                    executes::<DB, I>(
                        rules,
                        n,
                        is_static,
                        false,
                        called_contract(inputs, bytecode),
                        inputs.gas_limit,
                        started,
                        told,
                        ran,
                        end,
                    ) && after == #[trigger] ran.finish_run(end.reason, checkpoint);
                extends_in_steps(ran.journal, started.journal, coded.journal.checkpoint().0);
                finish_run_keeps(coded, ran, end.reason);
            },
        }
        extends_in_steps(after.journal, coded.journal, before.journal);
    }
}

/// A call that nobody watches keeps the environment and the failure on record; and where the
/// database does not fail, as many calls and creates are under way after it as before.
pub proof fn unwatched_call_follows<DB: Database, I: Interpreter>(
    rules: Rules,
    n: nat,
    is_static: bool,
    before: DataView<DB>,
    inputs: CallInputs,
    told: Seq<Event<DB, I>>,
    after: DataView<DB>,
    end: End,
)
    requires
        !rules.watched,
        calls::<DB, I>(rules, n, is_static, before, inputs, told, after, end),
    ensures
        after.follows(before),
        is_sound(before.db) ==> after.journal.depth == before.journal.depth && after.error
            == before.error,
{
    reveal(calls);
    let coded = before.code(inputs.contract@).0;
    let (started, start) = before.start_call(inputs);
    start_call_keeps(before, inputs);
    code_follows(before, inputs.contract@);
    if let CallStart::Entered { bytecode, checkpoint } = start {
        match lookup(rules.precompiles, inputs.contract@) {
            Some(precompile) => {
                finish_precompile_keeps(
                    coded,
                    started,
                    precompile_answer(precompile, inputs.input@, inputs.gas_limit),
                    GasView::fresh(inputs.gas_limit as nat),
                );
            },
            None => {
                let ran = choose|ran: DataView<DB>|
                    executes::<DB, I>(
                        rules,
                        n,
                        is_static,
                        false,
                        called_contract(inputs, bytecode),
                        inputs.gas_limit,
                        started,
                        told,
                        ran,
                        end,
                    ) && after == #[trigger] ran.finish_run(end.reason, checkpoint);
                follows_in_steps(ran, started, coded.with(coded.journal.checkpoint().0));
                finish_run_keeps(coded, ran, end.reason);
            },
        }
        assert(after.follows(coded));
        follows_in_steps(after, coded, before);
    }
}

/// A create that nobody watches keeps the environment and the failure on record; and where the
/// database does not fail, as many calls and creates are under way after it as before.
pub proof fn unwatched_create_follows<DB: Database, I: Interpreter>(
    rules: Rules,
    n: nat,
    is_static: bool,
    before: DataView<DB>,
    inputs: CreateInputs,
    told: Seq<Event<DB, I>>,
    after: DataView<DB>,
    announced: bool,
    address: Option<Seq<u8>>,
    end: End,
)
    requires
        !rules.watched,
        creates::<DB, I>(
            rules,
            n,
            is_static,
            before,
            inputs,
            told,
            after,
            announced,
            address,
            end,
        ),
    ensures
        after.follows(before),
        is_sound(before.db) ==> after.journal.depth == before.journal.depth && after.error
            == before.error,
{
    reveal(creates);
    let (started, start) = before.start_create(inputs, rules.spec_id, rules.precompiles.dom());
    let warm = before.warm_create(inputs);
    start_create_keeps(before, inputs, rules.spec_id, rules.precompiles.dom());
    if let CreateStart::Entered { created, checkpoint } = start {
        let (ran, exit) = choose|ran: DataView<DB>, exit: End|
            executes::<DB, I>(
                rules,
                n,
                is_static,
                is_static,
                init_contract(inputs, created),
                inputs.gas_limit,
                started,
                told,
                ran,
                exit,
            ) && (after, announced, end) == #[trigger] ran.finish_create::<I>(
                exit.reason,
                exit.gas,
                exit.output,
                rules.spec_id,
                created,
                checkpoint,
            );
        follows_in_steps(ran, started, warm.with(warm.journal.checkpoint().0));
        finish_create_keeps::<DB, I>(
            warm,
            ran,
            exit.reason,
            exit.gas,
            exit.output,
            rules.spec_id,
            created,
        );
        assert(after.follows(warm));
        follows_in_steps(after, warm, before);
    }
}

/// A failed create leaves nothing behind but the raised nonce of its caller and the accounts that
/// it loaded: the accounts, the logs and the history are as they were when the address of the
/// contract was loaded. The one exception is a database that failed on the new account.
pub proof fn failed_create_restores<DB: Database, I: Interpreter>(
    rules: Rules,
    n: nat,
    is_static: bool,
    before: DataView<DB>,
    inputs: CreateInputs,
    told: Seq<Event<DB, I>>,
    after: DataView<DB>,
    announced: bool,
    address: Option<Seq<u8>>,
    end: End,
)
    requires
        creates::<DB, I>(
            rules,
            n,
            is_static,
            before,
            inputs,
            told,
            after,
            announced,
            address,
            end,
        ),
        !end.reason.spec_is_ok(),
        is_sound(before.db) || end.reason != Return::FatalExternalError,
        address is Some,
    ensures
        after.restores(before.warm_create(inputs)),
        address == Some(before.create_target(inputs)),
{
    reveal(creates);
    let (started, start) = before.start_create(inputs, rules.spec_id, rules.precompiles.dom());
    let warm = before.warm_create(inputs);
    start_create_keeps(before, inputs, rules.spec_id, rules.precompiles.dom());
    if let CreateStart::Entered { created, checkpoint } = start {
        let (ran, exit) = choose|ran: DataView<DB>, exit: End|
            executes::<DB, I>(
                rules,
                n,
                is_static,
                is_static,
                init_contract(inputs, created),
                inputs.gas_limit,
                started,
                told,
                ran,
                exit,
            ) && (after, announced, end) == #[trigger] ran.finish_create::<I>(
                exit.reason,
                exit.gas,
                exit.output,
                rules.spec_id,
                created,
                checkpoint,
            );
        extends_in_steps(ran.journal, started.journal, warm.journal.checkpoint().0);
        finish_create_keeps::<DB, I>(
            warm,
            ran,
            exit.reason,
            exit.gas,
            exit.output,
            rules.spec_id,
            created,
        );
    }
}

/// What a call comes back with is gas under the limit that it was given.
pub proof fn call_gas_is_under_its_limit<DB: Database, I: Interpreter>(
    rules: Rules,
    n: nat,
    is_static: bool,
    before: DataView<DB>,
    inputs: CallInputs,
    told: Seq<Event<DB, I>>,
    after: DataView<DB>,
    end: End,
)
    requires
        calls::<DB, I>(rules, n, is_static, before, inputs, told, after, end),
    ensures
        end.gas.wf(),
        end.gas.limit == inputs.gas_limit,
{
    reveal(calls);
}

/// What a create comes back with is gas under the limit that it was given.
pub proof fn create_gas_is_under_its_limit<DB: Database, I: Interpreter>(
    rules: Rules,
    n: nat,
    is_static: bool,
    before: DataView<DB>,
    inputs: CreateInputs,
    told: Seq<Event<DB, I>>,
    after: DataView<DB>,
    announced: bool,
    address: Option<Seq<u8>>,
    end: End,
)
    requires
        creates::<DB, I>(
            rules,
            n,
            is_static,
            before,
            inputs,
            told,
            after,
            announced,
            address,
            end,
        ),
    ensures
        end.gas.wf(),
        end.gas.limit == inputs.gas_limit,
{
    reveal(creates);
}

/// A create that comes as far as the address of its contract raises the nonce of its caller, and
/// that stays also where it fails later.
pub proof fn create_raises_nonce<DB: Database>(before: DataView<DB>, inputs: CreateInputs)
    requires
        before.load_account(inputs.caller@).0.balance(inputs.caller@).1 is Some,
        before.load_account(inputs.caller@).0.balance(
            inputs.caller@,
        ).0.journal.accounts[inputs.caller@].fields.nonce < u64::MAX,
    ensures
        ({
            let caller = inputs.caller@;
            let funded = before.load_account(caller).0.balance(caller).0;
            let warm = before.warm_create(inputs);
            &&& warm.journal.has(caller)
            &&& warm.journal.accounts[caller].fields.nonce
                == funded.journal.accounts[caller].fields.nonce + 1
        }),
{
    let caller = inputs.caller@;
    let loaded = before.load_account(caller).0;
    load_account_extends(loaded.world(), caller);
    let funded = loaded.balance(caller).0;
    let raised = funded.journal.inc_nonce(caller).0;
    assert(raised.has(caller));
}

/// Code is never run deeper than the limit allows: where a call is let in, no more than
/// [`CALL_STACK_LIMIT`] calls and creates were under way before it.
pub proof fn calls_are_not_too_deep<DB: Database>(before: DataView<DB>, inputs: CallInputs)
    ensures
        before.start_call(inputs).1 is Entered ==> before.start_call(inputs).0.journal.depth
            <= CALL_STACK_LIMIT + 1,
        before.code(inputs.contract@).1 is Some && before.code(inputs.contract@).0.journal.depth
            > CALL_STACK_LIMIT ==> before.start_call(inputs).1 == (CallStart::Refused {
            reason: Return::CallTooDeep,
        }),
{
    start_call_keeps(before, inputs);
}

/// A machine that runs no code changes nothing: its run ends where it began, with `Stop`, no gas
/// spent and no output.
pub proof fn no_op_run_changes_nothing<DB: Database>(
    rules: Rules,
    n: nat,
    is_static: bool,
    gas_limit: u64,
    begun: Moment<DB, NoOpInterpreter>,
    told: Seq<Event<DB, NoOpInterpreter>>,
    ran: DataView<DB>,
    end: End,
)
    requires
        runs(rules, n, is_static, gas_limit, begun, told, ran, end),
    ensures
        ran == begun.data,
        told == begun.told,
        end.reason == Return::Stop,
        end.gas == GasView::fresh(gas_limit as nat),
        end.output == Seq::<u8>::empty(),
{
    let (moments, asked) = choose|
        moments: Seq<Moment<DB, NoOpInterpreter>>,
        asked: Seq<(NoOpInterpreter, Request)>,
    |
        {
            &&& trace(rules, n, is_static, moments, asked)
            &&& moments[0] == begun
            &&& (#[trigger] moments.last()).data == ran
            &&& moments.last().told == told
            &&& if (#[trigger] asked.len()) < u64::MAX {
                exists|machine: NoOpInterpreter, exit: Exit| #[trigger]
                    moments.last().machine.resumes(
                        ran.env,
                        moments.last().reply,
                        machine,
                        Request::Exit { exit },
                    ) && end == exit_end(gas_limit, exit)
            } else {
                asked.len() == u64::MAX && end == exhausted_end(gas_limit)
            }
        };
    if asked.len() > 0 {
        assert(moves(rules, n, is_static, moments[0], asked[0], moments[1]));
        assert(asked[0].1 is Exit);
        assert(false);
    }
    assert(end.output =~= Seq::<u8>::empty());
}

/// Calls and creates go by the fork that they are asked for under, not by that of the machine: two
/// machines for different forks that are otherwise the same go by the same rules, and a call or
/// create may have the same outcomes on both, with the same told to the inspector.
pub proof fn rules_go_by_the_asked_fork<
    'a,
    GSPEC: Spec,
    OTHER: Spec,
    DB: Database,
    I: Interpreter,
    const INSPECT: bool,
>(
    machine: EVMImpl<'a, GSPEC, DB, I, INSPECT>,
    other: EVMImpl<'a, OTHER, DB, I, INSPECT>,
    spec_id: SpecId,
)
    requires
        machine@ == other@,
    ensures
        machine.rules(spec_id) == other.rules(spec_id),
        machine.rules(spec_id).spec_id == spec_id,
        machine.rules(spec_id).watched == INSPECT,
        machine.rules(spec_id).precompiles == machine@.precompiles,
        forall|
            n: nat,
            is_static: bool,
            inputs: CallInputs,
            told: Seq<Event<DB, I>>,
            after: DataView<DB>,
            end: End,
        | #[trigger]
            makes_call(
                machine.rules(spec_id),
                n,
                is_static,
                machine@.data,
                inputs,
                told,
                after,
                end,
            ) <==> makes_call(
                other.rules(spec_id),
                n,
                is_static,
                other@.data,
                inputs,
                told,
                after,
                end,
            ),
        forall|
            n: nat,
            is_static: bool,
            inputs: CreateInputs,
            told: Seq<Event<DB, I>>,
            after: DataView<DB>,
            address: Option<H160>,
            end: End,
        | #[trigger]
            makes_create(
                machine.rules(spec_id),
                n,
                is_static,
                machine@.data,
                inputs,
                told,
                after,
                address,
                end,
            ) <==> makes_create(
                other.rules(spec_id),
                n,
                is_static,
                other@.data,
                inputs,
                told,
                after,
                address,
                end,
            ),
{
}

} // verus!
