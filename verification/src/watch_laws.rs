//! What holds of every watched run: an inspector that never steps in changes nothing.
use crate::data::DataView;
use crate::db::Database;
use crate::evm_impl::EVMImpl;
use crate::frames_laws::{
    balance_follows, block_hash_follows, code_follows, code_hash_follows, follows_in_steps,
    follows_itself, host_selfdestruct_follows, host_sload_follows, host_sstore_follows,
    load_account_follows,
};
use crate::frames_model::{address_view, CallStart, CreateStart, End};
use crate::inspector::{all_quiet, never_steps_in, tells, Event};
use crate::interpreter::{ContractView, Exit, Interpreter, Reply, Request};
use crate::journal_laws::log_extends;
use crate::models::{
    CallInputs, CreateInputs, CreateScheme, ExecutionResult, LogView, Return, TransactOut, TransactTo,
};
use crate::primitives::H160;
use crate::run_laws::{
    call_answers, create_answers, run_executes, run_is_exhausted, run_is_over,
    unwatched_call_follows, unwatched_create_follows,
};
use crate::run_model::{
    answers, called_contract, calls, creates, executes, exhausted_end, exit_end, fewer, frames_left,
    init_contract, is_begun, logged, makes_call, makes_create, moves, runs, tells_of_call,
    tells_of_create, trace, watched_call, watched_create, within, Moment, Rules,
};
use crate::spec_id::Spec;
use crate::state::{lookup, AccountView};
use crate::transact_model::{gas_after_run, is_call_of, is_create_of, outcome, sold_gas};
use vstd::prelude::*;

verus! {

/// An inspector that never steps in is told a story in which it does not, and goes on so.
pub proof fn quiet_inspector_stays_quiet<DB: Database, I: Interpreter>(
    before: Set<Seq<Event<DB, I>>>,
    told: Seq<Event<DB, I>>,
    after: Set<Seq<Event<DB, I>>>,
)
    requires
        never_steps_in(before),
        tells(before, told, after),
    ensures
        all_quiet(told),
        never_steps_in(after),
{
    assert forall|story: Seq<Event<DB, I>>| #[trigger] after.contains(story) implies all_quiet(
        story,
    ) by {
        assert(before.contains(told + story));
        assert forall|i: int| 0 <= i < story.len() implies (#[trigger] story[i]).is_quiet() by {
            assert((told + story)[told.len() + i] == story[i]);
        }
    }
}

/// The same with nobody watching.
pub open spec fn unwatched(rules: Rules) -> Rules {
    Rules { watched: false, ..rules }
}

/// The same with nothing told.
pub open spec fn untold<DB: Database, I: Interpreter>(moment: Moment<DB, I>) -> Moment<DB, I> {
    Moment { told: Seq::empty(), ..moment }
}

proof fn lemma_quiet_answers<DB: Database, I: Interpreter>(
    rules: Rules,
    n: nat,
    is_static: bool,
    data: DataView<DB>,
    machine: I,
    request: Request,
    told: Seq<Event<DB, I>>,
    next: Moment<DB, I>,
)
    requires
        rules.watched,
        answers(rules, n, is_static, data, machine, request, told, next),
        all_quiet(told),
    ensures
        answers(
            unwatched(rules),
            n,
            is_static,
            data,
            machine,
            request,
            Seq::empty(),
            untold(next),
        ),
        next.data.follows(data),
    decreases n, 0nat, 0nat,
{
    follows_itself(data);
    match request {
        Request::Step => {
            assert(told[0].is_quiet());
        },
        Request::StepEnd { .. } => {
            assert(told[0].is_quiet());
        },
        Request::LoadAccount { address } => {
            load_account_follows(data, address@);
        },
        Request::BlockHash { number } => {
            block_hash_follows(data, number@);
        },
        Request::Balance { address } => {
            balance_follows(data, address@);
        },
        Request::Code { address } => {
            code_follows(data, address@);
        },
        Request::CodeHash { address } => {
            code_hash_follows(data, address@, rules.precompiles.contains_key(address@));
        },
        Request::Sload { address, index } => {
            host_sload_follows(data, address@, index@);
        },
        Request::Sstore { address, index, value } => {
            host_sstore_follows(data, address@, index@, value@);
        },
        Request::Log { address, topics, data: bytes } => {
            assert(told[0].is_quiet());
            let log = LogView { address: address@, topics: topics@, data: bytes@ };
            log_extends(data.journal, log);
            assert(next.data == logged(data, log));
        },
        Request::SelfDestruct { address, target } => {
            host_selfdestruct_follows(data, address@, target@);
        },
        Request::Create { create } => {
            if let Reply::Create { ret, address, gas, output } = next.reply {
                reveal(makes_create);
                let end = End { reason: ret, gas: gas@, output: output@ };
                let m = choose|m: nat| #[trigger]
                    fewer(m, n) && makes_create::<DB, I>(
                        rules,
                        m,
                        is_static,
                        data,
                        create,
                        told,
                        next.data,
                        address,
                        end,
                    );
                quiet_create_is_unwatched::<DB, I>(
                    rules,
                    m,
                    is_static,
                    data,
                    create,
                    told,
                    next.data,
                    address,
                    end,
                );
                create_answers(
                    unwatched(rules),
                    n,
                    m,
                    is_static,
                    data,
                    machine,
                    create,
                    Seq::empty(),
                    untold(next),
                );
            }
        },
        Request::Call { call, is_static: call_is_static } => {
            if let Reply::Call { ret, gas, output } = next.reply {
                reveal(makes_call);
                let end = End { reason: ret, gas: gas@, output: output@ };
                let m = choose|m: nat| #[trigger]
                    fewer(m, n) && makes_call::<DB, I>(
                        rules,
                        m,
                        call_is_static,
                        data,
                        call,
                        told,
                        next.data,
                        end,
                    );
                quiet_call_is_unwatched::<DB, I>(
                    rules,
                    m,
                    call_is_static,
                    data,
                    call,
                    told,
                    next.data,
                    end,
                );
                call_answers(
                    unwatched(rules),
                    n,
                    m,
                    is_static,
                    data,
                    machine,
                    call,
                    call_is_static,
                    Seq::empty(),
                    untold(next),
                );
            }
        },
        Request::Exit { .. } => {},
    }
}

proof fn lemma_quiet_moves<DB: Database, I: Interpreter>(
    rules: Rules,
    n: nat,
    is_static: bool,
    now: Moment<DB, I>,
    asked: (I, Request),
    next: Moment<DB, I>,
)
    requires
        rules.watched,
        moves(rules, n, is_static, now, asked, next),
        all_quiet(next.told),
    ensures
        moves(unwatched(rules), n, is_static, untold(now), asked, untold(next)),
        next.data.follows(now.data),
    decreases n, 1nat, 0nat,
{
    let heard = next.told.skip(now.told.len() as int);
    assert forall|i: int| 0 <= i < heard.len() implies (#[trigger] heard[i]).is_quiet() by {
        assert(heard[i] == next.told[now.told.len() + i]);
    }
    lemma_quiet_answers(rules, n, is_static, now.data, asked.0, asked.1, heard, next);
    let nothing = Seq::<Event<DB, I>>::empty();
    assert(nothing.skip(nothing.len() as int) =~= nothing);
    assert(nothing.is_prefix_of(nothing));
}

/// What an inspector has been told grows from moment to moment.
proof fn lemma_told_grows<DB: Database, I: Interpreter>(
    rules: Rules,
    n: nat,
    is_static: bool,
    moments: Seq<Moment<DB, I>>,
    asked: Seq<(I, Request)>,
    k: int,
)
    requires
        trace(rules, n, is_static, moments, asked),
        0 <= k < moments.len(),
    ensures
        moments[k].told.is_prefix_of(moments.last().told),
    decreases moments.len() - k,
{
    if k < asked.len() {
        assert(moves(rules, n, is_static, moments[k], asked[k], moments[k + 1]));
        lemma_told_grows(rules, n, is_static, moments, asked, k + 1);
    }
}

proof fn lemma_quiet_trace<DB: Database, I: Interpreter>(
    rules: Rules,
    n: nat,
    is_static: bool,
    moments: Seq<Moment<DB, I>>,
    asked: Seq<(I, Request)>,
    k: int,
)
    requires
        rules.watched,
        trace(rules, n, is_static, moments, asked),
        all_quiet(moments.last().told),
        0 <= k < moments.len(),
    ensures
        moments[k].data.follows(moments[0].data),
        k > 0 ==> moves(
            unwatched(rules),
            n,
            is_static,
            untold(moments[k - 1]),
            asked[k - 1],
            untold(moments[k]),
        ),
    decreases n, 2nat, k as nat,
{
    if k == 0 {
        follows_itself(moments[0].data);
    } else {
        lemma_quiet_trace(rules, n, is_static, moments, asked, k - 1);
        lemma_told_grows(rules, n, is_static, moments, asked, k);
        let told = moments[k].told;
        assert forall|i: int| 0 <= i < told.len() implies (#[trigger] told[i]).is_quiet() by {
            assert(told[i] == moments.last().told[i]);
        }
        assert(moves(rules, n, is_static, moments[k - 1], asked[k - 1], moments[k - 1 + 1]));
        lemma_quiet_moves(rules, n, is_static, moments[k - 1], asked[k - 1], moments[k]);
        follows_in_steps(moments[k].data, moments[k - 1].data, moments[0].data);
    }
}

proof fn lemma_quiet_runs<DB: Database, I: Interpreter>(
    rules: Rules,
    n: nat,
    is_static: bool,
    gas_limit: u64,
    begun: Moment<DB, I>,
    told: Seq<Event<DB, I>>,
    ran: DataView<DB>,
    end: End,
)
    requires
        rules.watched,
        runs(rules, n, is_static, gas_limit, begun, told, ran, end),
        all_quiet(told),
    ensures
        runs(
            unwatched(rules),
            n,
            is_static,
            gas_limit,
            untold(begun),
            Seq::empty(),
            ran,
            end,
        ),
        ran.follows(begun.data),
        all_quiet(begun.told),
    decreases n, 3nat, 0nat,
{
    let (moments, asked) = choose|moments: Seq<Moment<DB, I>>, asked: Seq<(I, Request)>|
        {
            &&& trace(rules, n, is_static, moments, asked)
            &&& moments[0] == begun
            &&& (#[trigger] moments.last()).data == ran
            &&& moments.last().told == told
            &&& if (#[trigger] asked.len()) < u64::MAX {
                exists|machine: I, exit: Exit| #[trigger]
                    moments.last().machine.resumes(
                        ran.env,
                        moments.last().reply,
                        machine,
                        Request::Exit { exit },
                    ) && end == exit_end(gas_limit, exit)
            } else {
                asked.len() == u64::MAX && end == exhausted_end(gas_limit)
            }
        };
    lemma_quiet_trace(rules, n, is_static, moments, asked, moments.len() - 1);
    lemma_told_grows(rules, n, is_static, moments, asked, 0);
    assert forall|i: int| 0 <= i < begun.told.len() implies (
    #[trigger] begun.told[i]).is_quiet() by {
        assert(begun.told[i] == told[i]);
    }
    let plain = moments.map_values(|moment: Moment<DB, I>| untold(moment));
    assert forall|i: int| 0 <= i < asked.len() implies moves(
        unwatched(rules),
        n,
        is_static,
        plain[i],
        #[trigger] asked[i],
        plain[i + 1],
    ) by {
        lemma_quiet_trace(rules, n, is_static, moments, asked, i + 1);
    }
    assert(trace(unwatched(rules), n, is_static, plain, asked));
    assert(plain.last() == untold(moments.last()));
    if asked.len() < u64::MAX {
        let (machine, exit) = choose|machine: I, exit: Exit| #[trigger]
            moments.last().machine.resumes(
                ran.env,
                moments.last().reply,
                machine,
                Request::Exit { exit },
            ) && end == exit_end(gas_limit, exit);
        run_is_over(unwatched(rules), n, is_static, gas_limit, plain, asked, machine, exit);
    } else {
        run_is_exhausted(unwatched(rules), n, is_static, gas_limit, plain, asked);
    }
}

proof fn lemma_quiet_executes<DB: Database, I: Interpreter>(
    rules: Rules,
    n: nat,
    is_static: bool,
    told_static: bool,
    contract: ContractView,
    gas_limit: u64,
    started: DataView<DB>,
    told: Seq<Event<DB, I>>,
    ran: DataView<DB>,
    end: End,
)
    requires
        rules.watched,
        executes::<DB, I>(
            rules,
            n,
            is_static,
            told_static,
            contract,
            gas_limit,
            started,
            told,
            ran,
            end,
        ),
        all_quiet(told),
    ensures
        executes::<DB, I>(
            unwatched(rules),
            n,
            is_static,
            told_static,
            contract,
            gas_limit,
            started,
            Seq::empty(),
            ran,
            end,
        ),
    decreases n, 4nat, 0nat,
{
    let (made, begun, m) = choose|made: I, begun: Moment<DB, I>, m: nat|
        {
            &&& #[trigger] within(m, n)
            &&& made.starts(contract, gas_limit, rules.spec_id, is_static)
            &&& #[trigger] is_begun(rules.watched, told_static, started, made, begun)
            &&& runs(rules, m, is_static, gas_limit, begun, told, ran, end)
        };
    lemma_quiet_runs(rules, m, is_static, gas_limit, begun, told, ran, end);
    assert(begun.told[0].is_quiet());
    assert(is_begun(false, told_static, started, made, untold(begun)));
    run_executes(
        unwatched(rules),
        n,
        m,
        is_static,
        told_static,
        contract,
        gas_limit,
        started,
        made,
        untold(begun),
        Seq::empty(),
        ran,
        end,
    );
}

proof fn lemma_quiet_calls<DB: Database, I: Interpreter>(
    rules: Rules,
    n: nat,
    is_static: bool,
    before: DataView<DB>,
    inputs: CallInputs,
    told: Seq<Event<DB, I>>,
    after: DataView<DB>,
    end: End,
)
    requires
        rules.watched,
        calls::<DB, I>(rules, n, is_static, before, inputs, told, after, end),
        all_quiet(told),
    ensures
        calls::<DB, I>(
            unwatched(rules),
            n,
            is_static,
            before,
            inputs,
            Seq::empty(),
            after,
            end,
        ),
    decreases n, 5nat, 0nat,
{
    reveal(calls);
    let (started, start) = before.start_call(inputs);
    if let CallStart::Entered { bytecode, checkpoint } = start {
        if lookup(rules.precompiles, inputs.contract@) is None {
            let ran = choose|ran: DataView<DB>|
                executes::<DB, I>(
                    rules,
                    n,
                    is_static,
                    false,
                    called_contract(inputs, bytecode),
                    inputs.gas_limit,
                    started,
                    told,
                    ran,
                    end,
                ) && after == #[trigger] ran.finish_run(end.reason, checkpoint);
            lemma_quiet_executes(
                rules,
                n,
                is_static,
                false,
                called_contract(inputs, bytecode),
                inputs.gas_limit,
                started,
                told,
                ran,
                end,
            );
        }
    }
}

proof fn lemma_quiet_creates<DB: Database, I: Interpreter>(
    rules: Rules,
    n: nat,
    is_static: bool,
    before: DataView<DB>,
    inputs: CreateInputs,
    told: Seq<Event<DB, I>>,
    after: DataView<DB>,
    announced: bool,
    address: Option<Seq<u8>>,
    end: End,
)
    requires
        rules.watched,
        creates::<DB, I>(
            rules,
            n,
            is_static,
            before,
            inputs,
            told,
            after,
            announced,
            address,
            end,
        ),
        all_quiet(told),
    ensures
        creates::<DB, I>(
            unwatched(rules),
            n,
            is_static,
            before,
            inputs,
            Seq::empty(),
            after,
            announced,
            address,
            end,
        ),
    decreases n, 5nat, 0nat,
{
    reveal(creates);
    let (started, start) = before.start_create(inputs, rules.spec_id, rules.precompiles.dom());
    if let CreateStart::Entered { created, checkpoint } = start {
        let (ran, exit) = choose|ran: DataView<DB>, exit: End|
            executes::<DB, I>(
                rules,
                n,
                is_static,
                is_static,
                init_contract(inputs, created),
                inputs.gas_limit,
                started,
                told,
                ran,
                exit,
            ) && (after, announced, end) == #[trigger] ran.finish_create::<I>(
                exit.reason,
                exit.gas,
                exit.output,
                rules.spec_id,
                created,
                checkpoint,
            );
        lemma_quiet_executes(
            rules,
            n,
            is_static,
            is_static,
            init_contract(inputs, created),
            inputs.gas_limit,
            started,
            told,
            ran,
            exit,
        );
    }
}

/// A run that is made within a number of frames is made within more.
proof fn lemma_executes_within<DB: Database, I: Interpreter>(
    rules: Rules,
    m: nat,
    n: nat,
    is_static: bool,
    told_static: bool,
    contract: ContractView,
    gas_limit: u64,
    started: DataView<DB>,
    told: Seq<Event<DB, I>>,
    ran: DataView<DB>,
    end: End,
)
    requires
        m <= n,
        executes::<DB, I>(
            rules,
            m,
            is_static,
            told_static,
            contract,
            gas_limit,
            started,
            told,
            ran,
            end,
        ),
    ensures
        executes::<DB, I>(
            rules,
            n,
            is_static,
            told_static,
            contract,
            gas_limit,
            started,
            told,
            ran,
            end,
        ),
{
    let (made, begun, k) = choose|made: I, begun: Moment<DB, I>, k: nat|
        {
            &&& #[trigger] within(k, m)
            &&& made.starts(contract, gas_limit, rules.spec_id, is_static)
            &&& #[trigger] is_begun(rules.watched, told_static, started, made, begun)
            &&& runs(rules, k, is_static, gas_limit, begun, told, ran, end)
        };
    run_executes(
        rules,
        n,
        k,
        is_static,
        told_static,
        contract,
        gas_limit,
        started,
        made,
        begun,
        told,
        ran,
        end,
    );
}

proof fn lemma_calls_within<DB: Database, I: Interpreter>(
    rules: Rules,
    m: nat,
    n: nat,
    is_static: bool,
    before: DataView<DB>,
    inputs: CallInputs,
    told: Seq<Event<DB, I>>,
    after: DataView<DB>,
    end: End,
)
    requires
        m <= n,
        calls::<DB, I>(rules, m, is_static, before, inputs, told, after, end),
    ensures
        calls::<DB, I>(rules, n, is_static, before, inputs, told, after, end),
{
    reveal(calls);
    let (started, start) = before.start_call(inputs);
    if let CallStart::Entered { bytecode, checkpoint } = start {
        if lookup(rules.precompiles, inputs.contract@) is None {
            let ran = choose|ran: DataView<DB>|
                executes::<DB, I>(
                    rules,
                    m,
                    is_static,
                    false,
                    called_contract(inputs, bytecode),
                    inputs.gas_limit,
                    started,
                    told,
                    ran,
                    end,
                ) && after == #[trigger] ran.finish_run(end.reason, checkpoint);
            lemma_executes_within(
                rules,
                m,
                n,
                is_static,
                false,
                called_contract(inputs, bytecode),
                inputs.gas_limit,
                started,
                told,
                ran,
                end,
            );
        }
    }
}

proof fn lemma_creates_within<DB: Database, I: Interpreter>(
    rules: Rules,
    m: nat,
    n: nat,
    is_static: bool,
    before: DataView<DB>,
    inputs: CreateInputs,
    told: Seq<Event<DB, I>>,
    after: DataView<DB>,
    announced: bool,
    address: Option<Seq<u8>>,
    end: End,
)
    requires
        m <= n,
        creates::<DB, I>(
            rules,
            m,
            is_static,
            before,
            inputs,
            told,
            after,
            announced,
            address,
            end,
        ),
    ensures
        creates::<DB, I>(
            rules,
            n,
            is_static,
            before,
            inputs,
            told,
            after,
            announced,
            address,
            end,
        ),
{
    reveal(creates);
    let (started, start) = before.start_create(inputs, rules.spec_id, rules.precompiles.dom());
    if let CreateStart::Entered { created, checkpoint } = start {
        let (ran, exit) = choose|ran: DataView<DB>, exit: End|
            executes::<DB, I>(
                rules,
                m,
                is_static,
                is_static,
                init_contract(inputs, created),
                inputs.gas_limit,
                started,
                told,
                ran,
                exit,
            ) && (after, announced, end) == #[trigger] ran.finish_create::<I>(
                exit.reason,
                exit.gas,
                exit.output,
                rules.spec_id,
                created,
                checkpoint,
            );
        lemma_executes_within(
            rules,
            m,
            n,
            is_static,
            is_static,
            init_contract(inputs, created),
            inputs.gas_limit,
            started,
            told,
            ran,
            exit,
        );
    }
}

proof fn lemma_quiet_during<DB: Database, I: Interpreter>(
    hook: Event<DB, I>,
    during: Seq<Event<DB, I>>,
    rest: Seq<Event<DB, I>>,
)
    requires
        all_quiet(seq![hook] + during + rest),
    ensures
        all_quiet(during),
{
    let told = seq![hook] + during + rest;
    assert forall|i: int| 0 <= i < during.len() implies (#[trigger] during[i]).is_quiet() by {
        assert(told[i + 1] == during[i]);
    }
}

/// A call that is watched by an inspector that does not step in is made as if nobody watched.
pub proof fn quiet_call_is_unwatched<DB: Database, I: Interpreter>(
    rules: Rules,
    n: nat,
    is_static: bool,
    before: DataView<DB>,
    inputs: CallInputs,
    told: Seq<Event<DB, I>>,
    after: DataView<DB>,
    end: End,
)
    requires
        rules.watched,
        makes_call::<DB, I>(rules, n, is_static, before, inputs, told, after, end),
        all_quiet(told),
    ensures
        makes_call::<DB, I>(
            unwatched(rules),
            n,
            is_static,
            before,
            inputs,
            Seq::empty(),
            after,
            end,
        ),
        after.follows(before),
    decreases n, 7nat, 0nat,
{
    reveal(makes_call);
    reveal(watched_call);
    reveal(calls);
    assert(told[0].is_quiet());
    let (m, during, ran, r) = choose|
        m: nat,
        during: Seq<Event<DB, I>>,
        ran: DataView<DB>,
        r: End,
    |
        {
            &&& #[trigger] within(m, n)
            &&& calls::<DB, I>(rules, m, is_static, before, inputs, during, ran, r)
            &&& #[trigger] tells_of_call(
                before.start_call(inputs).1 is Failed,
                inputs,
                is_static,
                told[0],
                during,
                ran,
                r,
                told,
                after,
                end,
            )
        };
    if before.start_call(inputs).1 is Failed {
        assert(told =~= seq![told[0]] + during + Seq::empty());
        lemma_quiet_during(told[0], during, Seq::empty());
    } else {
        assert(told =~= seq![told[0]] + during + seq![told.last()]);
        lemma_quiet_during(told[0], during, seq![told.last()]);
        assert(told.last().is_quiet());
    }
    lemma_quiet_calls(rules, m, is_static, before, inputs, during, ran, r);
    lemma_calls_within::<DB, I>(
        unwatched(rules),
        m,
        n,
        is_static,
        before,
        inputs,
        Seq::empty(),
        ran,
        r,
    );
    unwatched_call_follows::<DB, I>(
        unwatched(rules),
        n,
        is_static,
        before,
        inputs,
        Seq::empty(),
        ran,
        r,
    );
}

/// A create that is watched by an inspector that does not step in is made as if nobody watched.
pub proof fn quiet_create_is_unwatched<DB: Database, I: Interpreter>(
    rules: Rules,
    n: nat,
    is_static: bool,
    before: DataView<DB>,
    inputs: CreateInputs,
    told: Seq<Event<DB, I>>,
    after: DataView<DB>,
    address: Option<H160>,
    end: End,
)
    requires
        rules.watched,
        makes_create::<DB, I>(rules, n, is_static, before, inputs, told, after, address, end),
        all_quiet(told),
    ensures
        makes_create::<DB, I>(
            unwatched(rules),
            n,
            is_static,
            before,
            inputs,
            Seq::empty(),
            after,
            address,
            end,
        ),
        after.follows(before),
    decreases n, 7nat, 0nat,
{
    reveal(makes_create);
    reveal(watched_create);
    reveal(creates);
    assert(told[0].is_quiet());
    let (m, during, ran, announced, made, r) = choose|
        m: nat,
        during: Seq<Event<DB, I>>,
        ran: DataView<DB>,
        announced: bool,
        made: Option<H160>,
        r: End,
    |
        {
            &&& #[trigger] within(m, n)
            &&& creates::<DB, I>(
                rules,
                m,
                is_static,
                before,
                inputs,
                during,
                ran,
                announced,
                address_view(made),
                r,
            )
            &&& #[trigger] tells_of_create(
                announced,
                inputs,
                told[0],
                during,
                ran,
                made,
                r,
                told,
                after,
                address,
                end,
            )
        };
    if announced {
        assert(told =~= seq![told[0]] + during + seq![told.last()]);
        lemma_quiet_during(told[0], during, seq![told.last()]);
        assert(told.last().is_quiet());
    } else {
        assert(told =~= seq![told[0]] + during + Seq::empty());
        lemma_quiet_during(told[0], during, Seq::empty());
    }
    lemma_quiet_creates(
        rules,
        m,
        is_static,
        before,
        inputs,
        during,
        ran,
        announced,
        address_view(made),
        r,
    );
    lemma_creates_within::<DB, I>(
        unwatched(rules),
        m,
        n,
        is_static,
        before,
        inputs,
        Seq::empty(),
        ran,
        announced,
        address_view(made),
        r,
    );
    unwatched_create_follows::<DB, I>(
        unwatched(rules),
        n,
        is_static,
        before,
        inputs,
        Seq::empty(),
        ran,
        announced,
        address_view(made),
        r,
    );
}

/// The inspector of a transaction is asked before its call is made: it is shown what the
/// transaction works on with the caller's nonce raised, and the call that the transaction asks for.
/// Where it answers anything but `Continue`, nothing is run: the one thing that it is told besides
/// is that the call ended with its own answer, and what it then says is what the transaction
/// returns.
pub proof fn inspector_is_asked_before_a_call<'a, GSPEC: Spec, DB: Database, I: Interpreter>(
    precompiles: Map<Seq<u8>, revm_precompiles::Precompile>,
    before: DataView<DB>,
    told: Seq<Event<DB, I>>,
    after: DataView<DB>,
    result: ExecutionResult,
    state: Map<Seq<u8>, AccountView>,
    left: nat,
    address: H160,
)
    requires
        EVMImpl::<'a, GSPEC, DB, I, true>::transacts(
            precompiles,
            before,
            told,
            after,
            result,
            state,
        ),
        before.prepare(GSPEC::id()).1 == Ok::<nat, Return>(left),
        before.prepare(GSPEC::id()).0.env.tx.transact_to == TransactTo::Call(address),
        before.prepare(GSPEC::id()).0.journal.inc_nonce(
            before.prepare(GSPEC::id()).0.env.tx.caller@,
        ).1 is Some,
    ensures
        ({
            let prepared = before.prepare(GSPEC::id()).0;
            let tx = prepared.env.tx;
            let raised = prepared.journal.inc_nonce(tx.caller@).0;
            &&& told.len() > 0
            &&& told[0] matches Event::Call { data, call, is_static, end, new_call, new_data }
            &&& data == prepared.with(raised)
            &&& is_call_of(tx, left, address, call)
            &&& is_static == GSPEC::IS_STATIC_CALL
            &&& end.reason != Return::Continue ==> {
                &&& told.len() == 2
                &&& told[1] matches Event::CallEnd {
                    data: shown,
                    call: ended,
                    end: answered,
                    is_static: flag,
                    new_end,
                    ..
                }
                &&& shown == new_data
                &&& ended == new_call
                &&& answered == end
                &&& flag == GSPEC::IS_STATIC_CALL
                &&& result.exit_reason == new_end.reason
                &&& result.out matches TransactOut::Call(bytes)
                &&& bytes@ == new_end.output
            }
        }),
{
    reveal(makes_call);
    reveal(watched_call);
}

/// The inspector of a transaction is asked before its create is made: it is shown what the
/// transaction works on, and the create that the transaction asks for. Where it answers anything
/// but `Continue`, nothing is run: the one thing that it is told besides is that the create ended
/// with its own answer, and what it then says is what the transaction returns.
pub proof fn inspector_is_asked_before_a_create<'a, GSPEC: Spec, DB: Database, I: Interpreter>(
    precompiles: Map<Seq<u8>, revm_precompiles::Precompile>,
    before: DataView<DB>,
    told: Seq<Event<DB, I>>,
    after: DataView<DB>,
    result: ExecutionResult,
    state: Map<Seq<u8>, AccountView>,
    left: nat,
    scheme: CreateScheme,
)
    requires
        EVMImpl::<'a, GSPEC, DB, I, true>::transacts(
            precompiles,
            before,
            told,
            after,
            result,
            state,
        ),
        before.prepare(GSPEC::id()).1 == Ok::<nat, Return>(left),
        before.prepare(GSPEC::id()).0.env.tx.transact_to == TransactTo::Create(scheme),
    ensures
        ({
            let prepared = before.prepare(GSPEC::id()).0;
            &&& told.len() > 0
            &&& told[0] matches Event::Create { data, create, address, end, new_create, new_data }
            &&& data == prepared
            &&& is_create_of(prepared.env.tx, left, scheme, create)
            &&& end.reason != Return::Continue ==> {
                &&& told.len() == 2
                &&& told[1] matches Event::CreateEnd {
                    data: shown,
                    create: ended,
                    address: given,
                    end: answered,
                    new_address,
                    new_end,
                    ..
                }
                &&& shown == new_data
                &&& ended == new_create
                &&& given == address
                &&& answered == end
                &&& result.exit_reason == new_end.reason
                &&& result.out matches TransactOut::Create(bytes, created)
                &&& bytes@ == new_end.output
                &&& created == new_address
            }
        }),
{
    reveal(makes_create);
    reveal(watched_create);
}

/// A transaction that is watched by an inspector that does not step in is done as if nobody
/// watched.
pub proof fn quiet_transaction_is_unwatched<'a, GSPEC: Spec, DB: Database, I: Interpreter>(
    precompiles: Map<Seq<u8>, revm_precompiles::Precompile>,
    before: DataView<DB>,
    told: Seq<Event<DB, I>>,
    after: DataView<DB>,
    result: ExecutionResult,
    state: Map<Seq<u8>, AccountView>,
)
    requires
        EVMImpl::<'a, GSPEC, DB, I, true>::transacts(
            precompiles,
            before,
            told,
            after,
            result,
            state,
        ),
        all_quiet(told),
    ensures
        EVMImpl::<'a, GSPEC, DB, I, false>::transacts(
            precompiles,
            before,
            Seq::empty(),
            after,
            result,
            state,
        ),
{
    let (prepared, left) = before.prepare(GSPEC::id());
    if let Ok(left) = left {
        let tx = prepared.env.tx;
        let rules = Rules { watched: true, precompiles, spec_id: GSPEC::id() };
        let (raised, nonce) = prepared.journal.inc_nonce(tx.caller@);
        let begun = prepared.with(raised);
        match tx.transact_to {
            TransactTo::Call(address) => {
                if nonce is Some {
                    let (inputs, ran, end) = choose|
                        inputs: CallInputs,
                        ran: DataView<DB>,
                        end: End,
                    |
                        {
                            &&& is_call_of(tx, left, address, inputs)
                            &&& #[trigger] makes_call::<DB, I>(
                                rules,
                                frames_left(raised.depth),
                                GSPEC::IS_STATIC_CALL,
                                begun,
                                inputs,
                                told,
                                ran,
                                end,
                            )
                            &&& result.exit_reason == end.reason
                            &&& result.out matches TransactOut::Call(bytes)
                            &&& bytes@ == end.output
                            &&& ran.finalizes(
                                tx.caller@,
                                gas_after_run(sold_gas(tx.gas_limit as nat), end.reason, end.gas),
                                GSPEC::id(),
                                precompiles.dom(),
                                after,
                                outcome(result, state),
                            )
                        };
                    quiet_call_is_unwatched::<DB, I>(
                        rules,
                        frames_left(raised.depth),
                        GSPEC::IS_STATIC_CALL,
                        begun,
                        inputs,
                        told,
                        ran,
                        end,
                    );
                }
            },
            TransactTo::Create(scheme) => {
                let (inputs, ran, created, end) = choose|
                    inputs: CreateInputs,
                    ran: DataView<DB>,
                    created: Option<H160>,
                    end: End,
                |
                    {
                        &&& is_create_of(tx, left, scheme, inputs)
                        &&& #[trigger] makes_create::<DB, I>(
                            rules,
                            frames_left(prepared.journal.depth),
                            GSPEC::IS_STATIC_CALL,
                            prepared,
                            inputs,
                            told,
                            ran,
                            created,
                            end,
                        )
                        &&& result.exit_reason == end.reason
                        &&& result.out matches TransactOut::Create(bytes, address)
                        &&& bytes@ == end.output
                        &&& address == created
                        &&& ran.finalizes(
                            tx.caller@,
                            gas_after_run(sold_gas(tx.gas_limit as nat), end.reason, end.gas),
                            GSPEC::id(),
                            precompiles.dom(),
                            after,
                            outcome(result, state),
                        )
                    };
                quiet_create_is_unwatched::<DB, I>(
                    rules,
                    frames_left(prepared.journal.depth),
                    GSPEC::IS_STATIC_CALL,
                    prepared,
                    inputs,
                    told,
                    ran,
                    created,
                    end,
                );
            },
        }
    }
}

} // verus!
