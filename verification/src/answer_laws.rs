//! What a machine is answered while it runs, how a run ends, and what an inspector is told
//! meanwhile.
use crate::data::DataView;
use crate::db::Database;
use crate::frames_model::{address_view, End};
use crate::inspector::Event;
use crate::interpreter::{Exit, Interpreter, Reply, Request};
use crate::models::{CallInputs, CreateInputs, LogView, Return};
use crate::primitives::H160;
use crate::run_model::{
    answers, calls, creates, exhausted_end, exit_end, fewer, makes_call, makes_create, moves, runs,
    tells_of_call, tells_of_create, trace, watched_call, watched_create, within, Moment, Rules,
};
use vstd::prelude::*;

verus! {

/// A machine that asks for an account, a balance, code, a hash or a slot gets what the host has for
/// just that, goes on as it was, and the inspector does not hear of it.
pub proof fn questions_are_answered<DB: Database, I: Interpreter>(
    rules: Rules,
    n: nat,
    is_static: bool,
    data: DataView<DB>,
    machine: I,
    request: Request,
    told: Seq<Event<DB, I>>,
    next: Moment<DB, I>,
)
    requires
        answers(rules, n, is_static, data, machine, request, told, next),
        request is LoadAccount || request is BlockHash || request is Balance || request is Code
            || request is CodeHash || request is Sload || request is Sstore,
    ensures
        told.len() == 0,
        next.machine == machine,
        match request {
            Request::LoadAccount { address } => {
                let (after, found) = data.load_account(address@);
                next.data == after && next.reply == (Reply::LoadAccount { account: found })
            },
            Request::BlockHash { number } => {
                let (after, found) = data.block_hash(number@);
                &&& next.data == after
                &&& next.reply matches Reply::BlockHash { hash }
                &&& hash is Some == found is Some
                &&& hash is Some ==> hash->0@ == found->0
            },
            Request::Balance { address } => {
                let (after, found) = data.balance(address@);
                &&& next.data == after
                &&& next.reply matches Reply::Balance { balance }
                &&& balance is Some == found is Some
                &&& balance is Some ==> (balance->0).0@ == (found->0).0 && (balance->0).1
                    == (found->0).1
            },
            Request::Code { address } => {
                let (after, found) = data.code(address@);
                &&& next.data == after
                &&& next.reply matches Reply::Code { code }
                &&& code is Some == found is Some
                &&& code is Some ==> (code->0).0@ == (found->0).0 && (code->0).1 == (found->0).1
            },
            Request::CodeHash { address } => {
                let (after, found) = data.code_hash(
                    address@,
                    rules.precompiles.contains_key(address@),
                );
                &&& next.data == after
                &&& next.reply matches Reply::CodeHash { code_hash }
                &&& code_hash is Some == found is Some
                &&& code_hash is Some ==> (code_hash->0).0@ == (found->0).0 && (code_hash->0).1
                    == (found->0).1
            },
            Request::Sload { address, index } => {
                let (after, found) = data.sload(address@, index@);
                &&& next.data == after
                &&& next.reply matches Reply::Sload { slot }
                &&& slot is Some == found is Some
                &&& slot is Some ==> (slot->0).0@ == (found->0).0 && (slot->0).1 == (found->0).1
            },
            Request::Sstore { address, index, value } => {
                let (after, found) = data.sstore(address@, index@, value@);
                &&& next.data == after
                &&& next.reply matches Reply::Sstore { written }
                &&& written is Some == found is Some
                &&& written is Some ==> (written->0).0@ == (found->0).0 && (written->0).1@ == (
                found->0).1 && (written->0).2@ == (found->0).2 && (written->0).3 == (found->0).3
            },
            _ => true,
        },
{
}

/// A step goes on where nobody watches; an inspector that watches is shown the machine and the
/// data, and its answer is the machine's answer.
pub proof fn steps_are_answered<DB: Database, I: Interpreter>(
    rules: Rules,
    n: nat,
    is_static: bool,
    data: DataView<DB>,
    machine: I,
    request: Request,
    told: Seq<Event<DB, I>>,
    next: Moment<DB, I>,
)
    requires
        answers(rules, n, is_static, data, machine, request, told, next),
        request is Step || request is StepEnd,
    ensures
        next.reply is Step,
        !rules.watched ==> {
            &&& next.data == data
            &&& next.machine == machine
            &&& next.reply == (Reply::Step { ret: Return::Continue })
            &&& told.len() == 0
        },
        rules.watched ==> {
            &&& told.len() == 1
            &&& match told[0] {
                Event::Step {
                    machine: shown,
                    data: seen,
                    is_static: flag,
                    ret,
                    new_machine,
                    new_data,
                } => {
                    &&& request is Step
                    &&& (shown, seen, flag) == (machine, data, is_static)
                    &&& (new_machine, new_data) == (next.machine, next.data)
                    &&& next.reply == (Reply::Step { ret })
                },
                Event::StepEnd {
                    machine: shown,
                    data: seen,
                    is_static: flag,
                    ended,
                    ret,
                    new_machine,
                    new_data,
                } => {
                    &&& request == (Request::StepEnd { ret: ended })
                    &&& (shown, seen, flag) == (machine, data, is_static)
                    &&& (new_machine, new_data) == (next.machine, next.data)
                    &&& next.reply == (Reply::Step { ret })
                },
                _ => false,
            }
        },
{
}

/// A log is kept just as it was left, behind those that are there, after an inspector that watches
/// was told of it; nothing else is done.
pub proof fn logs_are_kept<DB: Database, I: Interpreter>(
    rules: Rules,
    n: nat,
    is_static: bool,
    data: DataView<DB>,
    machine: I,
    request: Request,
    told: Seq<Event<DB, I>>,
    next: Moment<DB, I>,
)
    requires
        answers(rules, n, is_static, data, machine, request, told, next),
        request is Log,
    ensures
        next.machine == machine,
        next.reply is Ready,
        ({
            let log = LogView {
                address: request->Log_address@,
                topics: request->topics@,
                data: request->Log_data@,
            };
            let shown = if rules.watched {
                told[0]->Log_new_data
            } else {
                data
            };
            &&& rules.watched ==> told.len() == 1 && told[0] == (Event::<DB, I>::Log {
                data,
                log,
                new_data: shown,
            })
            &&& !rules.watched ==> told.len() == 0
            &&& next.data.env == shown.env
            &&& next.data.db == shown.db
            &&& next.data.error == shown.error
            &&& next.data.journal.accounts == shown.journal.accounts
            &&& next.data.journal.depth == shown.journal.depth
            &&& next.data.journal.logs == shown.journal.logs.push(log)
        }),
{
}

/// A self-destruct is announced to an inspector that watches, once, and done for the two accounts
/// that it names.
pub proof fn self_destructs_are_answered<DB: Database, I: Interpreter>(
    rules: Rules,
    n: nat,
    is_static: bool,
    data: DataView<DB>,
    machine: I,
    address: H160,
    target: H160,
    told: Seq<Event<DB, I>>,
    next: Moment<DB, I>,
)
    requires
        answers(
            rules,
            n,
            is_static,
            data,
            machine,
            Request::SelfDestruct { address, target },
            told,
            next,
        ),
    ensures
        rules.watched ==> told.len() == 1 && told[0] is SelfDestruct,
        !rules.watched ==> told.len() == 0,
        next.machine == machine,
        next.reply == (Reply::SelfDestruct { destroyed: data.selfdestruct(address@, target@).1 }),
        next.data == data.selfdestruct(address@, target@).0,
{
}

/// A machine that asks for a call gets the call that it asked for, static or not as it asked, made
/// under the rules of its own run; and what that comes back with is what it is answered.
pub proof fn inner_calls_are_made<DB: Database, I: Interpreter>(
    rules: Rules,
    n: nat,
    is_static: bool,
    data: DataView<DB>,
    machine: I,
    call: CallInputs,
    call_is_static: bool,
    told: Seq<Event<DB, I>>,
    next: Moment<DB, I>,
) -> (m: nat)
    requires
        answers(
            rules,
            n,
            is_static,
            data,
            machine,
            Request::Call { call, is_static: call_is_static },
            told,
            next,
        ),
    ensures
        m < n,
        next.machine == machine,
        next.reply matches Reply::Call { ret, gas, output } && makes_call::<DB, I>(
            rules,
            m,
            call_is_static,
            data,
            call,
            told,
            next.data,
            End { reason: ret, gas: gas@, output: output@ },
        ),
{
    reveal(makes_call);
    let end = match next.reply {
        Reply::Call { ret, gas, output } => End { reason: ret, gas: gas@, output: output@ },
        _ => arbitrary(),
    };
    choose|m: nat| #[trigger]
        fewer(m, n) && makes_call::<DB, I>(
            rules,
            m,
            call_is_static,
            data,
            call,
            told,
            next.data,
            end,
        )
}

/// A machine that asks for a create gets the create that it asked for, made under the rules of its
/// own run; and what that comes back with is what it is answered.
pub proof fn inner_creates_are_made<DB: Database, I: Interpreter>(
    rules: Rules,
    n: nat,
    is_static: bool,
    data: DataView<DB>,
    machine: I,
    create: CreateInputs,
    told: Seq<Event<DB, I>>,
    next: Moment<DB, I>,
) -> (m: nat)
    requires
        answers(rules, n, is_static, data, machine, Request::Create { create }, told, next),
    ensures
        m < n,
        next.machine == machine,
        next.reply matches Reply::Create { ret, address, gas, output } && makes_create::<DB, I>(
            rules,
            m,
            is_static,
            data,
            create,
            told,
            next.data,
            address,
            End { reason: ret, gas: gas@, output: output@ },
        ),
{
    reveal(makes_create);
    let (given, end) = match next.reply {
        Reply::Create { ret, address, gas, output } => (
            address,
            End { reason: ret, gas: gas@, output: output@ },
        ),
        _ => arbitrary(),
    };
    choose|m: nat| #[trigger]
        fewer(m, n) && makes_create::<DB, I>(
            rules,
            m,
            is_static,
            data,
            create,
            told,
            next.data,
            given,
            end,
        )
}

/// A run from its beginning to its end: at each moment the machine goes on with what it was
/// answered, under the environment as it is, and what it asks is answered from the data as they
/// are; what the inspector is told adds up. It ends as the machine says, with no more gas spent
/// than its limit; or out of gas, with all of it spent and no output, after as many questions as a
/// 64-bit number can count. Returns the moments and what was asked between them.
pub proof fn runs_go_step_by_step<DB: Database, I: Interpreter>(
    rules: Rules,
    n: nat,
    is_static: bool,
    gas_limit: u64,
    begun: Moment<DB, I>,
    told: Seq<Event<DB, I>>,
    ran: DataView<DB>,
    end: End,
) -> (r: (Seq<Moment<DB, I>>, Seq<(I, Request)>))
    requires
        runs(rules, n, is_static, gas_limit, begun, told, ran, end),
    ensures
        ({
            let (moments, asked) = r;
            let last = moments[asked.len() as int];
            &&& moments.len() == asked.len() + 1
            &&& asked.len() <= u64::MAX
            &&& moments[0] == begun
            &&& last.data == ran
            &&& last.told == told
            &&& forall|i: int|
                0 <= i < asked.len() ==> {
                    let now = moments[i];
                    let next = moments[i + 1];
                    &&& now.machine.resumes(
                        now.data.env,
                        now.reply,
                        (#[trigger] asked[i]).0,
                        asked[i].1,
                    )
                    &&& next.told == now.told + next.told.skip(now.told.len() as int)
                    &&& answers(
                        rules,
                        n,
                        is_static,
                        now.data,
                        asked[i].0,
                        asked[i].1,
                        next.told.skip(now.told.len() as int),
                        next,
                    )
                }
            &&& end.gas.limit == gas_limit
            &&& asked.len() == u64::MAX ==> {
                &&& end.reason == Return::OutOfGas
                &&& end.gas.spent == gas_limit
                &&& end.gas.refunded == 0
                &&& end.output.len() == 0
            }
            &&& asked.len() < u64::MAX ==> exists|machine: I, exit: Exit|
                {
                    &&& #[trigger] last.machine.resumes(
                        ran.env,
                        last.reply,
                        machine,
                        Request::Exit { exit },
                    )
                    &&& end.reason == exit.reason
                    &&& end.output == exit.output@
                    &&& end.gas.refunded == exit.refunded
                    &&& exit.spent <= gas_limit ==> end.gas.spent == exit.spent
                    &&& exit.spent > gas_limit ==> end.gas.spent == gas_limit
                }
        }),
{
    let (moments, asked) = choose|moments: Seq<Moment<DB, I>>, asked: Seq<(I, Request)>|
        {
            &&& trace(rules, n, is_static, moments, asked)
            &&& moments[0] == begun
            &&& (#[trigger] moments.last()).data == ran
            &&& moments.last().told == told
            &&& if (#[trigger] asked.len()) < u64::MAX {
                exists|machine: I, exit: Exit| #[trigger]
                    moments.last().machine.resumes(
                        ran.env,
                        moments.last().reply,
                        machine,
                        Request::Exit { exit },
                    ) && end == exit_end(gas_limit, exit)
            } else {
                asked.len() == u64::MAX && end == exhausted_end(gas_limit)
            }
        };
    assert(moments.last() == moments[asked.len() as int]);
    assert forall|i: int| 0 <= i < asked.len() implies {
        let now = moments[i];
        let next = moments[i + 1];
        &&& now.machine.resumes(now.data.env, now.reply, (#[trigger] asked[i]).0, asked[i].1)
        &&& next.told == now.told + next.told.skip(now.told.len() as int)
        &&& answers(
            rules,
            n,
            is_static,
            now.data,
            asked[i].0,
            asked[i].1,
            next.told.skip(now.told.len() as int),
            next,
        )
    } by {
        assert(moves(rules, n, is_static, moments[i], asked[i], moments[i + 1]));
        let now = moments[i];
        let next = moments[i + 1];
        assert(next.told =~= now.told + next.told.skip(now.told.len() as int));
    }
    (moments, asked)
}

/// Where nobody watches, a call is made, and nobody is told.
pub proof fn unwatched_call_is_made<DB: Database, I: Interpreter>(
    rules: Rules,
    n: nat,
    is_static: bool,
    before: DataView<DB>,
    inputs: CallInputs,
    told: Seq<Event<DB, I>>,
    after: DataView<DB>,
    end: End,
)
    requires
        !rules.watched,
        makes_call::<DB, I>(rules, n, is_static, before, inputs, told, after, end),
    ensures
        calls::<DB, I>(rules, n, is_static, before, inputs, told, after, end),
{
    reveal(makes_call);
    reveal(calls);
}

/// Where nobody watches, a create is made, and nobody is told. Returns whether an inspector would
/// have heard of the end.
pub proof fn unwatched_create_is_made<DB: Database, I: Interpreter>(
    rules: Rules,
    n: nat,
    is_static: bool,
    before: DataView<DB>,
    inputs: CreateInputs,
    told: Seq<Event<DB, I>>,
    after: DataView<DB>,
    address: Option<H160>,
    end: End,
) -> (announced: bool)
    requires
        !rules.watched,
        makes_create::<DB, I>(rules, n, is_static, before, inputs, told, after, address, end),
    ensures
        creates::<DB, I>(
            rules,
            n,
            is_static,
            before,
            inputs,
            told,
            after,
            announced,
            match address {
                Some(address) => Some(address@),
                None => None,
            },
            end,
        ),
{
    reveal(makes_create);
    reveal(creates);
    creates::<DB, I>(
        rules,
        n,
        is_static,
        before,
        inputs,
        told,
        after,
        true,
        address_view(address),
        end,
    )
}

/// What an inspector that watches a call is told, and what comes of it.
///
/// It is told first, of the data and the call as they are. Where it answers anything but
/// `Continue`, that is how the call ended, and nothing is made. Else the call is made as the
/// inspector left it, on the data as it left them. Last it is told how the call ended, and what it
/// answers is what the call comes back with; only where the database failed on the code it does not
/// hear of the end. Returns what it was told while the call was made, the data then, and how the
/// call then ended.
pub proof fn watched_call_is_told<DB: Database, I: Interpreter>(
    rules: Rules,
    n: nat,
    is_static: bool,
    before: DataView<DB>,
    inputs: CallInputs,
    told: Seq<Event<DB, I>>,
    last: DataView<DB>,
    r: End,
) -> (out: (nat, Seq<Event<DB, I>>, DataView<DB>, End))
    requires
        rules.watched,
        makes_call::<DB, I>(rules, n, is_static, before, inputs, told, last, r),
    ensures
        ({
            let (m, during, after, end) = out;
            &&& told.len() > 0
            &&& told[0] matches Event::Call {
                data,
                call,
                is_static: flag,
                end: answer,
                new_call,
                new_data,
            }
            &&& (data, call, flag) == (before, inputs, is_static)
            &&& if answer.reason != Return::Continue {
                &&& (after, end) == (new_data, answer)
                &&& during.len() == 0
            } else {
                m <= n && calls::<DB, I>(
                    rules,
                    m,
                    is_static,
                    new_data,
                    new_call,
                    during,
                    after,
                    end,
                )
            }
            &&& forall|i: int| 0 <= i < during.len() ==> told[i + 1] == #[trigger] during[i]
            &&& if answer.reason == Return::Continue && new_data.code(new_call.contract@).1 is None {
                &&& told.len() == during.len() + 1
                &&& (r, last) == (end, after)
            } else {
                &&& told.len() == during.len() + 2
                &&& told.last() == (Event::<DB, I>::CallEnd {
                    data: after,
                    call: new_call,
                    end,
                    is_static,
                    new_end: r,
                    new_data: last,
                })
            }
        }),
{
    reveal(makes_call);
    reveal(watched_call);
    reveal(calls);
    let answer = told[0]->Call_end;
    let new_call = told[0]->new_call;
    let new_data = told[0]->Call_new_data;
    if answer.reason != Return::Continue {
        assert(told =~= seq![told[0]].push(told.last()));
        (0, Seq::empty(), new_data, answer)
    } else {
        let (m, during, after, end) = choose|
            m: nat,
            during: Seq<Event<DB, I>>,
            after: DataView<DB>,
            end: End,
        |
            {
                &&& #[trigger] within(m, n)
                &&& calls::<DB, I>(rules, m, is_static, new_data, new_call, during, after, end)
                &&& #[trigger] tells_of_call(
                    new_data.start_call(new_call).1 is Failed,
                    new_call,
                    is_static,
                    told[0],
                    during,
                    after,
                    end,
                    told,
                    last,
                    r,
                )
            };
        assert(new_data.start_call(new_call).1 is Failed <==> new_data.code(
            new_call.contract@,
        ).1 is None);
        (m, during, after, end)
    }
}

/// What an inspector that watches a create is told, and what comes of it.
///
/// It is told first, of the data and the create as they are. Where it answers anything but
/// `Continue`, that is how the create ended, and nothing is made. Else the create is made as the
/// inspector left it, on the data as it left them. Last it is told how the create ended, where that
/// is announced, and what it answers is what the create comes back with. Returns what it was told
/// while the create was made, the data then, whether the end is announced, and the address and the
/// end then.
pub proof fn watched_create_is_told<DB: Database, I: Interpreter>(
    rules: Rules,
    n: nat,
    is_static: bool,
    before: DataView<DB>,
    inputs: CreateInputs,
    told: Seq<Event<DB, I>>,
    last: DataView<DB>,
    address: Option<H160>,
    r: End,
) -> (out: (nat, Seq<Event<DB, I>>, DataView<DB>, bool, Option<H160>, End))
    requires
        rules.watched,
        makes_create::<DB, I>(rules, n, is_static, before, inputs, told, last, address, r),
    ensures
        ({
            let (m, during, after, announced, made, end) = out;
            &&& told.len() > 0
            &&& told[0] matches Event::Create {
                data,
                create,
                address: given,
                end: answer,
                new_create,
                new_data,
            }
            &&& (data, create) == (before, inputs)
            &&& if answer.reason != Return::Continue {
                &&& (after, made, end) == (new_data, given, answer)
                &&& announced
                &&& during.len() == 0
            } else {
                m <= n && creates::<DB, I>(
                    rules,
                    m,
                    is_static,
                    new_data,
                    new_create,
                    during,
                    after,
                    announced,
                    match made {
                        Some(made) => Some(made@),
                        None => None,
                    },
                    end,
                )
            }
            &&& forall|i: int| 0 <= i < during.len() ==> told[i + 1] == #[trigger] during[i]
            &&& if !announced {
                &&& told.len() == during.len() + 1
                &&& (address, r, last) == (made, end, after)
            } else {
                &&& told.len() == during.len() + 2
                &&& told.last() == (Event::<DB, I>::CreateEnd {
                    data: after,
                    create: new_create,
                    address: made,
                    end,
                    new_address: address,
                    new_end: r,
                    new_data: last,
                })
            }
        }),
{
    reveal(makes_create);
    reveal(watched_create);
    reveal(creates);
    let answer = told[0]->Create_end;
    let given = told[0]->Create_address;
    let new_create = told[0]->new_create;
    let new_data = told[0]->Create_new_data;
    if answer.reason != Return::Continue {
        assert(told =~= seq![told[0]].push(told.last()));
        (0, Seq::empty(), new_data, true, given, answer)
    } else {
        choose|
            m: nat,
            during: Seq<Event<DB, I>>,
            after: DataView<DB>,
            announced: bool,
            made: Option<H160>,
            end: End,
        |
            {
                &&& #[trigger] within(m, n)
                &&& creates::<DB, I>(
                    rules,
                    m,
                    is_static,
                    new_data,
                    new_create,
                    during,
                    after,
                    announced,
                    address_view(made),
                    end,
                )
                &&& #[trigger] tells_of_create(
                    announced,
                    new_create,
                    told[0],
                    during,
                    after,
                    made,
                    end,
                    told,
                    last,
                    address,
                    r,
                )
            }
    }
}

} // verus!
