//! What holds of a run that nobody watches, on a machine that leaves nothing open: it always ends
//! the same.
use crate::data::{
    code_answer, hash_answer, plain_hash_answer, word_answer, words_answer, DataView,
};
use crate::db::Database;
use crate::evm_impl::EVMImpl;
use crate::frames_model::{address_view, CallStart, CreateStart, End};
use crate::inspector::Event;
use crate::interpreter::{ContractView, Exit, Interpreter, NoOpInterpreter, Reply, Request};
use crate::models::{CallInputs, CreateInputs, CreateScheme, Env, LogView};
use crate::primitives::H160;
use crate::run_model::{
    answers, called_contract, calls, creates, executes, exhausted_end, exit_end, fewer,
    init_contract, is_begun, makes_call, makes_create, moves, runs, trace, within, Moment, Rules,
};
use crate::spec_id::{Spec, SpecId};
use crate::state::lookup;
use vstd::prelude::*;

verus! {

/// Two calls are asked for with the same values.
pub open spec fn same_call(a: CallInputs, b: CallInputs) -> bool {
    &&& a.contract@ == b.contract@
    &&& a.transfer.source@ == b.transfer.source@
    &&& a.transfer.target@ == b.transfer.target@
    &&& a.transfer.value@ == b.transfer.value@
    &&& a.input@ == b.input@
    &&& a.gas_limit == b.gas_limit
    &&& a.context.address@ == b.context.address@
    &&& a.context.caller@ == b.context.caller@
    &&& a.context.apparent_value@ == b.context.apparent_value@
}

/// Two creates are asked for with the same values.
pub open spec fn same_create(a: CreateInputs, b: CreateInputs) -> bool {
    &&& a.caller@ == b.caller@
    &&& match (a.scheme, b.scheme) {
        (CreateScheme::Create, CreateScheme::Create) => true,
        (CreateScheme::Create2 { salt: x }, CreateScheme::Create2 { salt: y }) => x@ == y@,
        _ => false,
    }
    &&& a.value@ == b.value@
    &&& a.init_code@ == b.init_code@
    &&& a.gas_limit == b.gas_limit
}

/// Two questions are the same, with the same values.
pub open spec fn same_request(a: Request, b: Request) -> bool {
    match (a, b) {
        (Request::Step, Request::Step) => true,
        (Request::StepEnd { ret: x }, Request::StepEnd { ret: y }) => x == y,
        (Request::LoadAccount { address: x }, Request::LoadAccount { address: y }) => x@ == y@,
        (Request::BlockHash { number: x }, Request::BlockHash { number: y }) => x@ == y@,
        (Request::Balance { address: x }, Request::Balance { address: y }) => x@ == y@,
        (Request::Code { address: x }, Request::Code { address: y }) => x@ == y@,
        (Request::CodeHash { address: x }, Request::CodeHash { address: y }) => x@ == y@,
        (
            Request::Sload { address: x, index: i },
            Request::Sload { address: y, index: j },
        ) => x@ == y@ && i@ == j@,
        (
            Request::Sstore { address: x, index: i, value: v },
            Request::Sstore { address: y, index: j, value: w },
        ) => x@ == y@ && i@ == j@ && v@ == w@,
        (
            Request::Log { address: x, topics: s, data: c },
            Request::Log { address: y, topics: t, data: d },
        ) => x@ == y@ && s@ == t@ && c@ == d@,
        (
            Request::SelfDestruct { address: x, target: s },
            Request::SelfDestruct { address: y, target: t },
        ) => x@ == y@ && s@ == t@,
        (Request::Create { create: x }, Request::Create { create: y }) => same_create(x, y),
        (
            Request::Call { call: x, is_static: s },
            Request::Call { call: y, is_static: t },
        ) => same_call(x, y) && s == t,
        (Request::Exit { exit: x }, Request::Exit { exit: y }) => {
            &&& x.reason == y.reason
            &&& x.spent == y.spent
            &&& x.refunded == y.refunded
            &&& x.output@ == y.output@
        },
        _ => false,
    }
}

/// Two answers are the same, with the same values.
pub open spec fn same_reply(a: Reply, b: Reply) -> bool {
    match (a, b) {
        (Reply::Ready, Reply::Ready) => true,
        (Reply::Step { ret: x }, Reply::Step { ret: y }) => x == y,
        (Reply::LoadAccount { account: x }, Reply::LoadAccount { account: y }) => x == y,
        (
            Reply::BlockHash { hash: x },
            Reply::BlockHash { hash: y },
        ) => plain_hash_answer(x) == plain_hash_answer(y),
        (
            Reply::Balance { balance: x },
            Reply::Balance { balance: y },
        ) => word_answer(x) == word_answer(y),
        (Reply::Code { code: x }, Reply::Code { code: y }) => code_answer(x) == code_answer(y),
        (
            Reply::CodeHash { code_hash: x },
            Reply::CodeHash { code_hash: y },
        ) => hash_answer(x) == hash_answer(y),
        (Reply::Sload { slot: x }, Reply::Sload { slot: y }) => word_answer(x) == word_answer(y),
        (
            Reply::Sstore { written: x },
            Reply::Sstore { written: y },
        ) => words_answer(x) == words_answer(y),
        (
            Reply::SelfDestruct { destroyed: x },
            Reply::SelfDestruct { destroyed: y },
        ) => x == y,
        (
            Reply::Create { ret: x, address: s, gas: g, output: c },
            Reply::Create { ret: y, address: t, gas: h, output: d },
        ) => x == y && address_view(s) == address_view(t) && g@ == h@ && c@ == d@,
        (
            Reply::Call { ret: x, gas: g, output: c },
            Reply::Call { ret: y, gas: h, output: d },
        ) => x == y && g@ == h@ && c@ == d@,
        _ => false,
    }
}

/// A machine goes on from two answers to two questions.
pub open spec fn goes_on<I: Interpreter>(
    machine: I,
    env: Env,
    first: (Reply, I, Request),
    second: (Reply, I, Request),
) -> bool {
    &&& machine.resumes(env, first.0, first.1, first.2)
    &&& machine.resumes(env, second.0, second.1, second.2)
}

/// Two machines may be made for a contract.
pub open spec fn both_start<I: Interpreter>(
    first: I,
    second: I,
    contract: ContractView,
    gas_limit: u64,
    spec_id: SpecId,
    is_static: bool,
) -> bool {
    &&& first.starts(contract, gas_limit, spec_id, is_static)
    &&& second.starts(contract, gas_limit, spec_id, is_static)
}

/// The machine that is made for a contract, where it goes on from an answer and what it then asks
/// are never left open.
pub open spec fn is_determined<I: Interpreter>() -> bool {
    &&& forall|
        first: I,
        second: I,
        contract: ContractView,
        gas_limit: u64,
        spec_id: SpecId,
        is_static: bool,
    | #[trigger]
        both_start(first, second, contract, gas_limit, spec_id, is_static) ==> first == second
    &&& forall|machine: I, env: Env, first: (Reply, I, Request), second: (Reply, I, Request)|
        #[trigger]
        goes_on(machine, env, first, second) && same_reply(first.0, second.0) ==> first.1
            == second.1 && same_request(first.2, second.2)
}

/// A machine that runs no code leaves nothing open.
pub proof fn no_op_interpreter_is_determined()
    ensures
        is_determined::<NoOpInterpreter>(),
{
    assert forall|
        machine: NoOpInterpreter,
        env: Env,
        first: (Reply, NoOpInterpreter, Request),
        second: (Reply, NoOpInterpreter, Request),
    | #[trigger]
        goes_on(machine, env, first, second) && same_reply(first.0, second.0) implies first.1
        == second.1 && same_request(first.2, second.2) by {
        assert(first.2->exit.output@ =~= second.2->exit.output@);
    }
}

/// Two moments of two runs are the same.
spec fn same_moment<DB: Database, I: Interpreter>(a: Moment<DB, I>, b: Moment<DB, I>) -> bool {
    &&& a.data == b.data
    &&& a.machine == b.machine
    &&& same_reply(a.reply, b.reply)
}

proof fn lemma_same_answers<DB: Database, I: Interpreter>(
    rules: Rules,
    n: nat,
    k: nat,
    is_static: bool,
    data: DataView<DB>,
    machine: I,
    first: (Request, Seq<Event<DB, I>>, Moment<DB, I>),
    second: (Request, Seq<Event<DB, I>>, Moment<DB, I>),
)
    requires
        is_determined::<I>(),
        !rules.watched,
        same_request(first.0, second.0),
        answers(rules, n, is_static, data, machine, first.0, first.1, first.2),
        answers(rules, k, is_static, data, machine, second.0, second.1, second.2),
    ensures
        same_moment(first.2, second.2),
    decreases n, 0nat, 0nat,
{
    let (a, b) = (first.2, second.2);
    match (first.0, second.0) {
        (
            Request::Log { address, topics, data: bytes },
            Request::Log { address: y, topics: t, data: d },
        ) => {
            assert((LogView { address: address@, topics: topics@, data: bytes@ }) == (LogView {
                address: y@,
                topics: t@,
                data: d@,
            }));
        },
        (Request::Create { create: x }, Request::Create { create: y }) => {
            reveal(makes_create);
            reveal(creates);
            if let Reply::Create { ret, address, gas, output } = a.reply {
                if let Reply::Create { ret: r, address: s, gas: g, output: o } = b.reply {
                    let end = End { reason: ret, gas: gas@, output: output@ };
                    let other = End { reason: r, gas: g@, output: o@ };
                    let m = choose|m: nat| #[trigger]
                        fewer(m, n) && makes_create::<DB, I>(
                            rules,
                            m,
                            is_static,
                            data,
                            x,
                            first.1,
                            a.data,
                            address,
                            end,
                        );
                    let l = choose|l: nat| #[trigger]
                        fewer(l, k) && makes_create::<DB, I>(
                            rules,
                            l,
                            is_static,
                            data,
                            y,
                            second.1,
                            b.data,
                            s,
                            other,
                        );
                    create_is_determined::<DB, I>(
                        rules,
                        is_static,
                        data,
                        (m, x, first.1, a.data, address, end),
                        (l, y, second.1, b.data, s, other),
                    );
                }
            }
        },
        (
            Request::Call { call: x, is_static: flag },
            Request::Call { call: y, is_static: _ },
        ) => {
            reveal(makes_call);
            reveal(calls);
            if let Reply::Call { ret, gas, output } = a.reply {
                if let Reply::Call { ret: r, gas: g, output: o } = b.reply {
                    let end = End { reason: ret, gas: gas@, output: output@ };
                    let other = End { reason: r, gas: g@, output: o@ };
                    let m = choose|m: nat| #[trigger]
                        fewer(m, n) && makes_call::<DB, I>(
                            rules,
                            m,
                            flag,
                            data,
                            x,
                            first.1,
                            a.data,
                            end,
                        );
                    let l = choose|l: nat| #[trigger]
                        fewer(l, k) && makes_call::<DB, I>(
                            rules,
                            l,
                            flag,
                            data,
                            y,
                            second.1,
                            b.data,
                            other,
                        );
                    call_is_determined::<DB, I>(
                        rules,
                        flag,
                        data,
                        (m, x, first.1, a.data, end),
                        (l, y, second.1, b.data, other),
                    );
                }
            }
        },
        _ => {},
    }
}

proof fn lemma_same_trace<DB: Database, I: Interpreter>(
    rules: Rules,
    n: nat,
    k: nat,
    is_static: bool,
    first: (Seq<Moment<DB, I>>, Seq<(I, Request)>),
    second: (Seq<Moment<DB, I>>, Seq<(I, Request)>),
    i: int,
)
    requires
        is_determined::<I>(),
        !rules.watched,
        trace(rules, n, is_static, first.0, first.1),
        trace(rules, k, is_static, second.0, second.1),
        same_moment(first.0[0], second.0[0]),
        0 <= i < first.0.len(),
        i < second.0.len(),
    ensures
        same_moment(first.0[i], second.0[i]),
    decreases n, 1nat, i as nat,
{
    if i > 0 {
        lemma_same_trace(rules, n, k, is_static, first, second, i - 1);
        let (a, b) = (first.0[i - 1], second.0[i - 1]);
        let (p, q) = (first.1[i - 1], second.1[i - 1]);
        assert(moves(rules, n, is_static, a, p, first.0[i - 1 + 1]));
        assert(moves(rules, k, is_static, b, q, second.0[i - 1 + 1]));
        assert(goes_on(a.machine, a.data.env, (a.reply, p.0, p.1), (b.reply, q.0, q.1)));
        lemma_same_answers(
            rules,
            n,
            k,
            is_static,
            a.data,
            p.0,
            (p.1, first.0[i].told.skip(a.told.len() as int), first.0[i]),
            (q.1, second.0[i].told.skip(b.told.len() as int), second.0[i]),
        );
    }
}

/// A run that is over has not gone on.
proof fn lemma_not_shorter<DB: Database, I: Interpreter>(
    rules: Rules,
    n: nat,
    k: nat,
    is_static: bool,
    first: (Seq<Moment<DB, I>>, Seq<(I, Request)>),
    second: (Seq<Moment<DB, I>>, Seq<(I, Request)>),
    machine: I,
    exit: Exit,
)
    requires
        is_determined::<I>(),
        !rules.watched,
        trace(rules, n, is_static, first.0, first.1),
        trace(rules, k, is_static, second.0, second.1),
        same_moment(first.0[0], second.0[0]),
        first.0.last().machine.resumes(
            first.0.last().data.env,
            first.0.last().reply,
            machine,
            Request::Exit { exit },
        ),
    ensures
        second.1.len() <= first.1.len(),
    decreases n, 2nat, 0nat,
{
    let i = first.1.len() as int;
    if second.1.len() > i {
        lemma_same_trace(rules, n, k, is_static, first, second, i);
        let (a, b) = (first.0[i], second.0[i]);
        let q = second.1[i];
        assert(moves(rules, k, is_static, b, q, second.0[i + 1]));
        assert(goes_on(
            a.machine,
            a.data.env,
            (a.reply, machine, Request::Exit { exit }),
            (b.reply, q.0, q.1),
        ));
        assert(q.1 is Exit);
    }
}

proof fn lemma_same_runs<DB: Database, I: Interpreter>(
    rules: Rules,
    n: nat,
    k: nat,
    is_static: bool,
    gas_limit: u64,
    first: (Moment<DB, I>, Seq<Event<DB, I>>, DataView<DB>, End),
    second: (Moment<DB, I>, Seq<Event<DB, I>>, DataView<DB>, End),
)
    requires
        is_determined::<I>(),
        !rules.watched,
        same_moment(first.0, second.0),
        runs(rules, n, is_static, gas_limit, first.0, first.1, first.2, first.3),
        runs(rules, k, is_static, gas_limit, second.0, second.1, second.2, second.3),
    ensures
        first.2 == second.2,
        first.3 == second.3,
    decreases n, 3nat, 0nat,
{
    let (moments, asked) = choose|moments: Seq<Moment<DB, I>>, asked: Seq<(I, Request)>|
        {
            &&& trace(rules, n, is_static, moments, asked)
            &&& moments[0] == first.0
            &&& (#[trigger] moments.last()).data == first.2
            &&& moments.last().told == first.1
            &&& if (#[trigger] asked.len()) < u64::MAX {
                exists|machine: I, exit: Exit| #[trigger]
                    moments.last().machine.resumes(
                        first.2.env,
                        moments.last().reply,
                        machine,
                        Request::Exit { exit },
                    ) && first.3 == exit_end(gas_limit, exit)
            } else {
                asked.len() == u64::MAX && first.3 == exhausted_end(gas_limit)
            }
        };
    let (others, questions) = choose|others: Seq<Moment<DB, I>>, questions: Seq<(I, Request)>|
        {
            &&& trace(rules, k, is_static, others, questions)
            &&& others[0] == second.0
            &&& (#[trigger] others.last()).data == second.2
            &&& others.last().told == second.1
            &&& if (#[trigger] questions.len()) < u64::MAX {
                exists|machine: I, exit: Exit| #[trigger]
                    others.last().machine.resumes(
                        second.2.env,
                        others.last().reply,
                        machine,
                        Request::Exit { exit },
                    ) && second.3 == exit_end(gas_limit, exit)
            } else {
                questions.len() == u64::MAX && second.3 == exhausted_end(gas_limit)
            }
        };
    let (machine, exit) = choose|machine: I, exit: Exit| #[trigger]
        moments.last().machine.resumes(
            first.2.env,
            moments.last().reply,
            machine,
            Request::Exit { exit },
        ) && first.3 == exit_end(gas_limit, exit);
    let (other, ended) = choose|other: I, ended: Exit| #[trigger]
        others.last().machine.resumes(
            second.2.env,
            others.last().reply,
            other,
            Request::Exit { exit: ended },
        ) && second.3 == exit_end(gas_limit, ended);
    if asked.len() < u64::MAX {
        lemma_not_shorter(
            rules,
            n,
            k,
            is_static,
            (moments, asked),
            (others, questions),
            machine,
            exit,
        );
    }
    if questions.len() < u64::MAX && asked.len() > questions.len() {
        let i = questions.len() as int;
        lemma_same_trace(rules, n, k, is_static, (moments, asked), (others, questions), i);
        let (a, b) = (moments[i], others[i]);
        let p = asked[i];
        assert(moves(rules, n, is_static, a, p, moments[i + 1]));
        assert(goes_on(
            a.machine,
            a.data.env,
            (a.reply, p.0, p.1),
            (b.reply, other, Request::Exit { exit: ended }),
        ));
        assert(p.1 is Exit);
    }
    assert(asked.len() == questions.len());
    let i = moments.len() - 1;
    lemma_same_trace(rules, n, k, is_static, (moments, asked), (others, questions), i);
    let (a, b) = (moments[i], others[i]);
    if asked.len() < u64::MAX {
        assert(goes_on(
            a.machine,
            a.data.env,
            (a.reply, machine, Request::Exit { exit }),
            (b.reply, other, Request::Exit { exit: ended }),
        ));
    }
}

proof fn lemma_same_executes<DB: Database, I: Interpreter>(
    rules: Rules,
    n: nat,
    k: nat,
    is_static: bool,
    told_static: bool,
    contract: ContractView,
    gas_limit: u64,
    started: DataView<DB>,
    first: (Seq<Event<DB, I>>, DataView<DB>, End),
    second: (Seq<Event<DB, I>>, DataView<DB>, End),
)
    requires
        is_determined::<I>(),
        !rules.watched,
        executes::<DB, I>(
            rules,
            n,
            is_static,
            told_static,
            contract,
            gas_limit,
            started,
            first.0,
            first.1,
            first.2,
        ),
        executes::<DB, I>(
            rules,
            k,
            is_static,
            told_static,
            contract,
            gas_limit,
            started,
            second.0,
            second.1,
            second.2,
        ),
    ensures
        first.1 == second.1,
        first.2 == second.2,
    decreases n, 4nat, 0nat,
{
    let (made, begun, m) = choose|made: I, begun: Moment<DB, I>, m: nat|
        {
            &&& #[trigger] within(m, n)
            &&& made.starts(contract, gas_limit, rules.spec_id, is_static)
            &&& #[trigger] is_begun(rules.watched, told_static, started, made, begun)
            &&& runs(rules, m, is_static, gas_limit, begun, first.0, first.1, first.2)
        };
    let (other, start, l) = choose|other: I, start: Moment<DB, I>, l: nat|
        {
            &&& #[trigger] within(l, k)
            &&& other.starts(contract, gas_limit, rules.spec_id, is_static)
            &&& #[trigger] is_begun(rules.watched, told_static, started, other, start)
            &&& runs(rules, l, is_static, gas_limit, start, second.0, second.1, second.2)
        };
    assert(both_start(made, other, contract, gas_limit, rules.spec_id, is_static));
    lemma_same_runs(
        rules,
        m,
        l,
        is_static,
        gas_limit,
        (begun, first.0, first.1, first.2),
        (start, second.0, second.1, second.2),
    );
}

/// A call that nobody watches, on a machine that leaves nothing open, always ends the same: from
/// the same data and with the same values, with the same result and the same data after it. Each
/// outcome is given with the frames it is made within, what it is asked for, what the inspector is
/// told, the data after it and how it ends.
pub proof fn call_is_determined<DB: Database, I: Interpreter>(
    rules: Rules,
    is_static: bool,
    before: DataView<DB>,
    first: (nat, CallInputs, Seq<Event<DB, I>>, DataView<DB>, End),
    second: (nat, CallInputs, Seq<Event<DB, I>>, DataView<DB>, End),
)
    requires
        is_determined::<I>(),
        !rules.watched,
        same_call(first.1, second.1),
        makes_call::<DB, I>(
            rules,
            first.0,
            is_static,
            before,
            first.1,
            first.2,
            first.3,
            first.4,
        ),
        makes_call::<DB, I>(
            rules,
            second.0,
            is_static,
            before,
            second.1,
            second.2,
            second.3,
            second.4,
        ),
    ensures
        first.3 == second.3,
        first.4 == second.4,
    decreases first.0, 5nat, 0nat,
{
    reveal(makes_call);
    reveal(calls);
    let (a, b) = (first.1, second.1);
    let (started, start) = before.start_call(a);
    assert(before.start_call(b) == (started, start));
    if let CallStart::Entered { bytecode, checkpoint } = start {
        if lookup(rules.precompiles, a.contract@) is None {
            let contract = called_contract(a, bytecode);
            assert(contract == called_contract(b, bytecode));
            let ran = choose|ran: DataView<DB>|
                executes::<DB, I>(
                    rules,
                    first.0,
                    is_static,
                    false,
                    called_contract(a, bytecode),
                    a.gas_limit,
                    started,
                    first.2,
                    ran,
                    first.4,
                ) && first.3 == #[trigger] ran.finish_run(first.4.reason, checkpoint);
            let other = choose|other: DataView<DB>|
                executes::<DB, I>(
                    rules,
                    second.0,
                    is_static,
                    false,
                    called_contract(b, bytecode),
                    b.gas_limit,
                    started,
                    second.2,
                    other,
                    second.4,
                ) && second.3 == #[trigger] other.finish_run(second.4.reason, checkpoint);
            lemma_same_executes(
                rules,
                first.0,
                second.0,
                is_static,
                false,
                contract,
                a.gas_limit,
                started,
                (first.2, ran, first.4),
                (second.2, other, second.4),
            );
        }
    }
}

proof fn lemma_same_start_create<DB: Database>(
    before: DataView<DB>,
    a: CreateInputs,
    b: CreateInputs,
    spec_id: SpecId,
    precompiles: Set<Seq<u8>>,
)
    requires
        same_create(a, b),
    ensures
        before.start_create(a, spec_id, precompiles) == before.start_create(
            b,
            spec_id,
            precompiles,
        ),
{
    assert(before.create_target(a) == before.create_target(b));
    assert(before.warm_create(a) == before.warm_create(b));
}

/// A create that nobody watches, on a machine that leaves nothing open, always ends the same: from
/// the same data and with the same values, with the same result and the same data after it. Each
/// outcome is given with the frames it is made within, what it is asked for, what the inspector is
/// told, the data after it, the address and how it ends.
pub proof fn create_is_determined<DB: Database, I: Interpreter>(
    rules: Rules,
    is_static: bool,
    before: DataView<DB>,
    first: (nat, CreateInputs, Seq<Event<DB, I>>, DataView<DB>, Option<H160>, End),
    second: (nat, CreateInputs, Seq<Event<DB, I>>, DataView<DB>, Option<H160>, End),
)
    requires
        is_determined::<I>(),
        !rules.watched,
        same_create(first.1, second.1),
        makes_create::<DB, I>(
            rules,
            first.0,
            is_static,
            before,
            first.1,
            first.2,
            first.3,
            first.4,
            first.5,
        ),
        makes_create::<DB, I>(
            rules,
            second.0,
            is_static,
            before,
            second.1,
            second.2,
            second.3,
            second.4,
            second.5,
        ),
    ensures
        first.3 == second.3,
        address_view(first.4) == address_view(second.4),
        first.5 == second.5,
    decreases first.0, 6nat, 0nat,
{
    reveal(makes_create);
    reveal(creates);
    let announced = creates::<DB, I>(
        rules,
        first.0,
        is_static,
        before,
        first.1,
        first.2,
        first.3,
        true,
        address_view(first.4),
        first.5,
    );
    let heard = creates::<DB, I>(
        rules,
        second.0,
        is_static,
        before,
        second.1,
        second.2,
        second.3,
        true,
        address_view(second.4),
        second.5,
    );
    lemma_same_creates::<DB, I>(
        rules,
        is_static,
        before,
        (first.0, first.1, first.2, first.3, announced, address_view(first.4), first.5),
        (second.0, second.1, second.2, second.3, heard, address_view(second.4), second.5),
    );
}

proof fn lemma_same_creates<DB: Database, I: Interpreter>(
    rules: Rules,
    is_static: bool,
    before: DataView<DB>,
    first: (nat, CreateInputs, Seq<Event<DB, I>>, DataView<DB>, bool, Option<Seq<u8>>, End),
    second: (nat, CreateInputs, Seq<Event<DB, I>>, DataView<DB>, bool, Option<Seq<u8>>, End),
)
    requires
        is_determined::<I>(),
        !rules.watched,
        same_create(first.1, second.1),
        creates::<DB, I>(
            rules,
            first.0,
            is_static,
            before,
            first.1,
            first.2,
            first.3,
            first.4,
            first.5,
            first.6,
        ),
        creates::<DB, I>(
            rules,
            second.0,
            is_static,
            before,
            second.1,
            second.2,
            second.3,
            second.4,
            second.5,
            second.6,
        ),
    ensures
        first.3 == second.3,
        first.5 == second.5,
        first.6 == second.6,
    decreases first.0, 5nat, 0nat,
{
    reveal(creates);
    let (a, b) = (first.1, second.1);
    let (started, start) = before.start_create(a, rules.spec_id, rules.precompiles.dom());
    lemma_same_start_create(before, a, b, rules.spec_id, rules.precompiles.dom());
    if let CreateStart::Entered { created, checkpoint } = start {
        let contract = init_contract(a, created);
        assert(contract == init_contract(b, created));
        let (ran, exit) = choose|ran: DataView<DB>, exit: End|
            executes::<DB, I>(
                rules,
                first.0,
                is_static,
                is_static,
                init_contract(a, created),
                a.gas_limit,
                started,
                first.2,
                ran,
                exit,
            ) && (first.3, first.4, first.6) == #[trigger] ran.finish_create::<I>(
                exit.reason,
                exit.gas,
                exit.output,
                rules.spec_id,
                created,
                checkpoint,
            );
        let (other, ended) = choose|other: DataView<DB>, ended: End|
            executes::<DB, I>(
                rules,
                second.0,
                is_static,
                is_static,
                init_contract(b, created),
                b.gas_limit,
                started,
                second.2,
                other,
                ended,
            ) && (second.3, second.4, second.6) == #[trigger] other.finish_create::<I>(
                ended.reason,
                ended.gas,
                ended.output,
                rules.spec_id,
                created,
                checkpoint,
            );
        lemma_same_executes(
            rules,
            first.0,
            second.0,
            is_static,
            is_static,
            contract,
            a.gas_limit,
            started,
            (first.2, ran, exit),
            (second.2, other, ended),
        );
    }
}

/// The same call on two machines that differ in their fork only ends the same: with the same result
/// and the same data after it. The fork that it is asked for under counts, not that of the machine.
pub proof fn call_ends_the_same_on_any_machine<
    'a,
    GSPEC: Spec,
    OTHER: Spec,
    DB: Database,
    I: Interpreter,
>(
    machine: EVMImpl<'a, GSPEC, DB, I, false>,
    other: EVMImpl<'a, OTHER, DB, I, false>,
    spec_id: SpecId,
    is_static: bool,
    first: (nat, CallInputs, Seq<Event<DB, I>>, DataView<DB>, End),
    second: (nat, CallInputs, Seq<Event<DB, I>>, DataView<DB>, End),
)
    requires
        is_determined::<I>(),
        machine@ == other@,
        same_call(first.1, second.1),
        makes_call::<DB, I>(
            machine.rules(spec_id),
            first.0,
            is_static,
            machine@.data,
            first.1,
            first.2,
            first.3,
            first.4,
        ),
        makes_call::<DB, I>(
            other.rules(spec_id),
            second.0,
            is_static,
            other@.data,
            second.1,
            second.2,
            second.3,
            second.4,
        ),
    ensures
        first.3 == second.3,
        first.4 == second.4,
{
    call_is_determined(machine.rules(spec_id), is_static, machine@.data, first, second);
}

/// The same create on two machines that differ in their fork only ends the same: with the same
/// result and the same data after it. The fork that it is asked for under counts, not that of the
/// machine.
pub proof fn create_ends_the_same_on_any_machine<
    'a,
    GSPEC: Spec,
    OTHER: Spec,
    DB: Database,
    I: Interpreter,
>(
    machine: EVMImpl<'a, GSPEC, DB, I, false>,
    other: EVMImpl<'a, OTHER, DB, I, false>,
    spec_id: SpecId,
    is_static: bool,
    first: (nat, CreateInputs, Seq<Event<DB, I>>, DataView<DB>, Option<H160>, End),
    second: (nat, CreateInputs, Seq<Event<DB, I>>, DataView<DB>, Option<H160>, End),
)
    requires
        is_determined::<I>(),
        machine@ == other@,
        same_create(first.1, second.1),
        makes_create::<DB, I>(
            machine.rules(spec_id),
            first.0,
            is_static,
            machine@.data,
            first.1,
            first.2,
            first.3,
            first.4,
            first.5,
        ),
        makes_create::<DB, I>(
            other.rules(spec_id),
            second.0,
            is_static,
            other@.data,
            second.1,
            second.2,
            second.3,
            second.4,
            second.5,
        ),
    ensures
        first.3 == second.3,
        address_view(first.4) == address_view(second.4),
        first.5 == second.5,
{
    create_is_determined(machine.rules(spec_id), is_static, machine@.data, first, second);
}

} // verus!
