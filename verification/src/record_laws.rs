//! What holds of the failure on record: it is written, and never read.
use crate::data::DataView;
use crate::db::Database;
use crate::frames_laws::{
    balance_follows, block_hash_follows, code_follows, code_hash_follows, follows_in_steps,
    follows_itself, host_selfdestruct_follows, host_sload_follows, host_sstore_follows,
    load_account_follows,
};
use crate::frames_model::{address_view, CallStart, CreateStart, End};
use crate::gas::GasView;
use crate::inspector::Event;
use crate::interpreter::{ContractView, Exit, Interpreter, Reply, Request};
use crate::journal_laws::log_extends;
use crate::journal_model::CheckpointView;
use crate::models::{CallInputs, CreateInputs, LogView};
use crate::precompiles::precompile_answer;
use crate::run_laws::{
    call_answers, create_answers, run_executes, run_is_exhausted, run_is_over,
    unwatched_call_follows, unwatched_create_follows,
};
use crate::run_model::{
    answers, called_contract, calls, creates, executes, exhausted_end, exit_end, fewer,
    init_contract, is_begun, makes_call, makes_create, moves, runs, trace, within, Moment, Rules,
};
use crate::spec_id::SpecId;
use crate::state::lookup;
use vstd::prelude::*;

verus! {

impl<DB: Database> DataView<DB> {
    /// With an older failure on record, where there is none yet.
    pub open spec fn recorded(self, older: Option<DB::Error>) -> DataView<DB> {
        if self.error is Some {
            self
        } else {
            DataView { error: older, ..self }
        }
    }
}

/// The same moment with other data.
spec fn moment_at<DB: Database, I: Interpreter>(
    moment: Moment<DB, I>,
    data: DataView<DB>,
) -> Moment<DB, I> {
    Moment { data, ..moment }
}

proof fn lemma_fresh_answers<DB: Database, I: Interpreter>(
    rules: Rules,
    n: nat,
    is_static: bool,
    fresh: DataView<DB>,
    older: Option<DB::Error>,
    machine: I,
    request: Request,
    told: Seq<Event<DB, I>>,
    next: Moment<DB, I>,
) -> (out: DataView<DB>)
    requires
        !rules.watched,
        answers(rules, n, is_static, fresh.recorded(older), machine, request, told, next),
    ensures
        answers(rules, n, is_static, fresh, machine, request, told, moment_at(next, out)),
        next.data == out.recorded(older),
        out.follows(fresh),
    decreases n, 0nat, 0nat,
{
    follows_itself(fresh);
    match request {
        Request::Step => fresh,
        Request::StepEnd { .. } => fresh,
        Request::LoadAccount { address } => {
            load_account_follows(fresh, address@);
            fresh.load_account(address@).0
        },
        Request::BlockHash { number } => {
            block_hash_follows(fresh, number@);
            fresh.block_hash(number@).0
        },
        Request::Balance { address } => {
            balance_follows(fresh, address@);
            fresh.balance(address@).0
        },
        Request::Code { address } => {
            code_follows(fresh, address@);
            fresh.code(address@).0
        },
        Request::CodeHash { address } => {
            let is_precompile = rules.precompiles.contains_key(address@);
            code_hash_follows(fresh, address@, is_precompile);
            fresh.code_hash(address@, is_precompile).0
        },
        Request::Sload { address, index } => {
            host_sload_follows(fresh, address@, index@);
            fresh.sload(address@, index@).0
        },
        Request::Sstore { address, index, value } => {
            host_sstore_follows(fresh, address@, index@, value@);
            fresh.sstore(address@, index@, value@).0
        },
        Request::Log { address, topics, data: bytes } => {
            let log = LogView { address: address@, topics: topics@, data: bytes@ };
            log_extends(fresh.journal, log);
            fresh.with(fresh.journal.log(log))
        },
        Request::SelfDestruct { address, target } => {
            host_selfdestruct_follows(fresh, address@, target@);
            fresh.selfdestruct(address@, target@).0
        },
        Request::Create { create } => {
            if let Reply::Create { ret, address, gas, output } = next.reply {
                reveal(makes_create);
                let end = End { reason: ret, gas: gas@, output: output@ };
                let m = choose|m: nat| #[trigger]
                    fewer(m, n) && makes_create::<DB, I>(
                        rules,
                        m,
                        is_static,
                        fresh.recorded(older),
                        create,
                        told,
                        next.data,
                        address,
                        end,
                    );
                let announced = creates::<DB, I>(
                    rules,
                    m,
                    is_static,
                    fresh.recorded(older),
                    create,
                    told,
                    next.data,
                    true,
                    address_view(address),
                    end,
                );
                reveal(creates);
                let out = create_never_reads_the_record::<DB, I>(
                    rules,
                    m,
                    is_static,
                    fresh,
                    older,
                    create,
                    told,
                    next.data,
                    announced,
                    address_view(address),
                    end,
                );
                create_answers(
                    rules,
                    n,
                    m,
                    is_static,
                    fresh,
                    machine,
                    create,
                    told,
                    moment_at(next, out),
                );
                out
            } else {
                fresh
            }
        },
        Request::Call { call, is_static: call_is_static } => {
            if let Reply::Call { ret, gas, output } = next.reply {
                reveal(makes_call);
                reveal(calls);
                let end = End { reason: ret, gas: gas@, output: output@ };
                let m = choose|m: nat| #[trigger]
                    fewer(m, n) && makes_call::<DB, I>(
                        rules,
                        m,
                        call_is_static,
                        fresh.recorded(older),
                        call,
                        told,
                        next.data,
                        end,
                    );
                let out = call_never_reads_the_record::<DB, I>(
                    rules,
                    m,
                    call_is_static,
                    fresh,
                    older,
                    call,
                    told,
                    next.data,
                    end,
                );
                call_answers(
                    rules,
                    n,
                    m,
                    is_static,
                    fresh,
                    machine,
                    call,
                    call_is_static,
                    told,
                    moment_at(next, out),
                );
                out
            } else {
                fresh
            }
        },
        Request::Exit { .. } => fresh,
    }
}

proof fn lemma_fresh_trace<DB: Database, I: Interpreter>(
    rules: Rules,
    n: nat,
    is_static: bool,
    moments: Seq<Moment<DB, I>>,
    asked: Seq<(I, Request)>,
    fresh: DataView<DB>,
    older: Option<DB::Error>,
    k: int,
) -> (out: Seq<Moment<DB, I>>)
    requires
        !rules.watched,
        trace(rules, n, is_static, moments, asked),
        moments[0].data == fresh.recorded(older),
        0 <= k < moments.len(),
    ensures
        out.len() == k + 1,
        out[0] == moment_at(moments[0], fresh),
        forall|i: int|
            0 <= i <= k ==> {
                &&& #[trigger] out[i] == moment_at(moments[i], out[i].data)
                &&& moments[i].data == out[i].data.recorded(older)
                &&& out[i].data.follows(fresh)
            },
        forall|i: int|
            0 <= i < k ==> moves(rules, n, is_static, out[i], #[trigger] asked[i], out[i + 1]),
    decreases n, 1nat, k as nat,
{
    if k == 0 {
        follows_itself(fresh);
        seq![moment_at(moments[0], fresh)]
    } else {
        let shorter = lemma_fresh_trace(
            rules,
            n,
            is_static,
            moments,
            asked,
            fresh,
            older,
            k - 1,
        );
        let now = shorter[k - 1];
        let next = moments[k];
        assert(moves(rules, n, is_static, moments[k - 1], asked[k - 1], moments[k - 1 + 1]));
        let data = lemma_fresh_answers(
            rules,
            n,
            is_static,
            now.data,
            older,
            asked[k - 1].0,
            asked[k - 1].1,
            next.told.skip(now.told.len() as int),
            next,
        );
        follows_in_steps(data, now.data, fresh);
        let out = shorter.push(moment_at(next, data));
        assert(moves(rules, n, is_static, now, asked[k - 1], out[k]));
        assert forall|i: int| 0 <= i < k implies moves(
            rules,
            n,
            is_static,
            out[i],
            #[trigger] asked[i],
            out[i + 1],
        ) by {
            if i < k - 1 {
                assert(moves(rules, n, is_static, shorter[i], asked[i], shorter[i + 1]));
            }
        }
        assert forall|i: int| 0 <= i <= k implies {
            &&& #[trigger] out[i] == moment_at(moments[i], out[i].data)
            &&& moments[i].data == out[i].data.recorded(older)
            &&& out[i].data.follows(fresh)
        } by {
            if i < k {
                assert(out[i] == shorter[i]);
            }
        }
        out
    }
}

proof fn lemma_fresh_runs<DB: Database, I: Interpreter>(
    rules: Rules,
    n: nat,
    is_static: bool,
    gas_limit: u64,
    begun: Moment<DB, I>,
    fresh: DataView<DB>,
    older: Option<DB::Error>,
    told: Seq<Event<DB, I>>,
    ran: DataView<DB>,
    end: End,
) -> (out: DataView<DB>)
    requires
        !rules.watched,
        begun.data == fresh.recorded(older),
        runs(rules, n, is_static, gas_limit, begun, told, ran, end),
    ensures
        runs(rules, n, is_static, gas_limit, moment_at(begun, fresh), told, out, end),
        ran == out.recorded(older),
        out.follows(fresh),
    decreases n, 2nat, 0nat,
{
    let (moments, asked) = choose|moments: Seq<Moment<DB, I>>, asked: Seq<(I, Request)>|
        {
            &&& trace(rules, n, is_static, moments, asked)
            &&& moments[0] == begun
            &&& (#[trigger] moments.last()).data == ran
            &&& moments.last().told == told
            &&& if (#[trigger] asked.len()) < u64::MAX {
                exists|machine: I, exit: Exit| #[trigger]
                    moments.last().machine.resumes(
                        ran.env,
                        moments.last().reply,
                        machine,
                        Request::Exit { exit },
                    ) && end == exit_end(gas_limit, exit)
            } else {
                asked.len() == u64::MAX && end == exhausted_end(gas_limit)
            }
        };
    let out = lemma_fresh_trace(
        rules,
        n,
        is_static,
        moments,
        asked,
        fresh,
        older,
        moments.len() - 1,
    );
    assert(trace(rules, n, is_static, out, asked));
    assert(out.last() == moment_at(moments.last(), out[moments.len() - 1].data));
    if asked.len() < u64::MAX {
        let (machine, exit) = choose|machine: I, exit: Exit| #[trigger]
            moments.last().machine.resumes(
                ran.env,
                moments.last().reply,
                machine,
                Request::Exit { exit },
            ) && end == exit_end(gas_limit, exit);
        run_is_over(rules, n, is_static, gas_limit, out, asked, machine, exit);
    } else {
        run_is_exhausted(rules, n, is_static, gas_limit, out, asked);
    }
    out.last().data
}

proof fn lemma_fresh_executes<DB: Database, I: Interpreter>(
    rules: Rules,
    n: nat,
    is_static: bool,
    told_static: bool,
    contract: ContractView,
    gas_limit: u64,
    fresh: DataView<DB>,
    older: Option<DB::Error>,
    told: Seq<Event<DB, I>>,
    ran: DataView<DB>,
    end: End,
) -> (out: DataView<DB>)
    requires
        !rules.watched,
        executes::<DB, I>(
            rules,
            n,
            is_static,
            told_static,
            contract,
            gas_limit,
            fresh.recorded(older),
            told,
            ran,
            end,
        ),
    ensures
        executes::<DB, I>(
            rules,
            n,
            is_static,
            told_static,
            contract,
            gas_limit,
            fresh,
            told,
            out,
            end,
        ),
        ran == out.recorded(older),
    decreases n, 3nat, 0nat,
{
    let (made, begun, m) = choose|made: I, begun: Moment<DB, I>, m: nat|
        {
            &&& #[trigger] within(m, n)
            &&& made.starts(contract, gas_limit, rules.spec_id, is_static)
            &&& #[trigger] is_begun(
                rules.watched,
                told_static,
                fresh.recorded(older),
                made,
                begun,
            )
            &&& runs(rules, m, is_static, gas_limit, begun, told, ran, end)
        };
    let out = lemma_fresh_runs(
        rules,
        m,
        is_static,
        gas_limit,
        begun,
        fresh,
        older,
        told,
        ran,
        end,
    );
    assert(is_begun(false, told_static, fresh, made, moment_at(begun, fresh)));
    run_executes(
        rules,
        n,
        m,
        is_static,
        told_static,
        contract,
        gas_limit,
        fresh,
        made,
        moment_at(begun, fresh),
        told,
        out,
        end,
    );
    out
}

/// What an older failure on record does to a call that nobody watches: nothing. The same call is
/// made without it, and ends the same but for the record. Where no failure is recorded then, the
/// database did not fail since: the record is the older one, and as many calls and creates are
/// under way as before.
pub proof fn call_never_reads_the_record<DB: Database, I: Interpreter>(
    rules: Rules,
    n: nat,
    is_static: bool,
    fresh: DataView<DB>,
    older: Option<DB::Error>,
    inputs: CallInputs,
    told: Seq<Event<DB, I>>,
    after: DataView<DB>,
    end: End,
) -> (out: DataView<DB>)
    requires
        !rules.watched,
        calls::<DB, I>(rules, n, is_static, fresh.recorded(older), inputs, told, after, end),
    ensures
        calls::<DB, I>(rules, n, is_static, fresh, inputs, told, out, end),
        after == out.recorded(older),
        out.follows(fresh),
        out.error is None ==> after.error == older && after.journal.depth == fresh.journal.depth,
    decreases n, 4nat, 0nat,
{
    reveal(calls);
    let (started, start) = fresh.start_call(inputs);
    assert(fresh.recorded(older).start_call(inputs) == (started.recorded(older), start));
    let out = match start {
        CallStart::Entered { bytecode, checkpoint } => match lookup(
            rules.precompiles,
            inputs.contract@,
        ) {
            Some(precompile) => {
                let answer = precompile_answer(
                    precompile,
                    inputs.input@,
                    inputs.gas_limit,
                );
                let gas = GasView::fresh(inputs.gas_limit as nat);
                started.finish_precompile(answer, gas, checkpoint).0
            },
            None => {
                let ran = choose|ran: DataView<DB>|
                    executes::<DB, I>(
                        rules,
                        n,
                        is_static,
                        false,
                        called_contract(inputs, bytecode),
                        inputs.gas_limit,
                        started.recorded(older),
                        told,
                        ran,
                        end,
                    ) && after == #[trigger] ran.finish_run(end.reason, checkpoint);
                let fresh_ran = lemma_fresh_executes::<DB, I>(
                    rules,
                    n,
                    is_static,
                    false,
                    called_contract(inputs, bytecode),
                    inputs.gas_limit,
                    started,
                    older,
                    told,
                    ran,
                    end,
                );
                fresh_ran.finish_run(end.reason, checkpoint)
            },
        },
        _ => started,
    };
    unwatched_call_follows::<DB, I>(rules, n, is_static, fresh, inputs, told, out, end);
    out
}

proof fn lemma_fresh_fund<DB: Database>(
    fresh: DataView<DB>,
    older: Option<DB::Error>,
    inputs: CreateInputs,
    spec_id: SpecId,
    address: Seq<u8>,
    checkpoint: CheckpointView,
)
    ensures
        ({
            let (started, start) = fresh.fund_create(inputs, spec_id, address, checkpoint);
            fresh.recorded(older).fund_create(inputs, spec_id, address, checkpoint) == (
                started.recorded(older),
                start,
            )
        }),
{
}

proof fn lemma_fresh_start_create<DB: Database>(
    fresh: DataView<DB>,
    older: Option<DB::Error>,
    inputs: CreateInputs,
    spec_id: SpecId,
    precompiles: Set<Seq<u8>>,
)
    ensures
        ({
            let (started, start) = fresh.start_create(inputs, spec_id, precompiles);
            fresh.recorded(older).start_create(inputs, spec_id, precompiles) == (
                started.recorded(older),
                start,
            )
        }),
{
    let caller = inputs.caller@;
    let old = fresh.recorded(older);
    let loaded = fresh.load_account(caller).0;
    assert(old.load_account(caller).0 == loaded.recorded(older));
    let (funded, balance) = loaded.balance(caller);
    assert(loaded.recorded(older).balance(caller) == (funded.recorded(older), balance));
    let raised = funded.with(funded.journal.inc_nonce(caller).0);
    let target = fresh.create_target(inputs);
    assert(old.create_target(inputs) == target);
    let warm = raised.load_account(target).0;
    assert(raised.recorded(older).load_account(target).0 == warm.recorded(older));
    assert(fresh.warm_create(inputs) == warm);
    assert(old.warm_create(inputs) == warm.recorded(older));
    let (journal, checkpoint) = warm.journal.checkpoint();
    let begun = warm.with(journal);
    let (world, free) = begun.world().create_account(target, precompiles.contains(target));
    let made = begun.put(world).settle(free).0;
    assert(begun.recorded(older).put(world).settle(free).0 == made.recorded(older));
    lemma_fresh_fund(made, older, inputs, spec_id, target, checkpoint);
}

/// What an older failure on record does to a create that nobody watches: nothing. The same create
/// is made without it, and ends the same but for the record. Where no failure is recorded then, the
/// database did not fail since: the record is the older one, and as many calls and creates are
/// under way as before.
pub proof fn create_never_reads_the_record<DB: Database, I: Interpreter>(
    rules: Rules,
    n: nat,
    is_static: bool,
    fresh: DataView<DB>,
    older: Option<DB::Error>,
    inputs: CreateInputs,
    told: Seq<Event<DB, I>>,
    after: DataView<DB>,
    announced: bool,
    address: Option<Seq<u8>>,
    end: End,
) -> (out: DataView<DB>)
    requires
        !rules.watched,
        creates::<DB, I>(
            rules,
            n,
            is_static,
            fresh.recorded(older),
            inputs,
            told,
            after,
            announced,
            address,
            end,
        ),
    ensures
        creates::<DB, I>(
            rules,
            n,
            is_static,
            fresh,
            inputs,
            told,
            out,
            announced,
            address,
            end,
        ),
        after == out.recorded(older),
        out.follows(fresh),
        out.error is None ==> after.error == older && after.journal.depth == fresh.journal.depth,
    decreases n, 4nat, 0nat,
{
    reveal(creates);
    let (started, start) = fresh.start_create(inputs, rules.spec_id, rules.precompiles.dom());
    lemma_fresh_start_create(fresh, older, inputs, rules.spec_id, rules.precompiles.dom());
    let out = match start {
        CreateStart::Entered { created, checkpoint } => {
            let (ran, exit) = choose|ran: DataView<DB>, exit: End|
                executes::<DB, I>(
                    rules,
                    n,
                    is_static,
                    is_static,
                    init_contract(inputs, created),
                    inputs.gas_limit,
                    started.recorded(older),
                    told,
                    ran,
                    exit,
                ) && (after, announced, end) == #[trigger] ran.finish_create::<I>(
                    exit.reason,
                    exit.gas,
                    exit.output,
                    rules.spec_id,
                    created,
                    checkpoint,
                );
            let fresh_ran = lemma_fresh_executes::<DB, I>(
                rules,
                n,
                is_static,
                is_static,
                init_contract(inputs, created),
                inputs.gas_limit,
                started,
                older,
                told,
                ran,
                exit,
            );
            fresh_ran.finish_create::<I>(
                exit.reason,
                exit.gas,
                exit.output,
                rules.spec_id,
                created,
                checkpoint,
            ).0
        },
        _ => started,
    };
    unwatched_create_follows::<DB, I>(
        rules,
        n,
        is_static,
        fresh,
        inputs,
        told,
        out,
        announced,
        address,
        end,
    );
    out
}

} // verus!
