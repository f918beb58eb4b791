//! What a call does: what it is refused for, what it moves, what it runs and with what, and what it
//! comes back with.
use crate::data::DataView;
use crate::db::{is_sound, Database};
use crate::frames_laws::{code_follows, finish_precompile_keeps, load_account_follows, start_call_keeps};
use crate::frames_model::{CallStart, End};
use crate::gas::GasView;
use crate::inspector::Event;
use crate::interpreter::{ContractView, Interpreter};
use crate::journal_effect_laws::{account_after, move_value_moves, touch_marks, value_moved};
use crate::journal_laws::load_account_extends;
use crate::journal_model::{JournalView, World};
use crate::models::{CallInputs, Return};
use crate::precompiles::precompile_answer;
use crate::primitives::u256_max;
use crate::run_laws::failed_call_restores;
use crate::run_model::{called_contract, calls, executes, is_begun, runs, within, Moment, Rules};
use crate::state::{AccountFieldsView, AccountView};
use crate::world_laws::{
    brought, host_answers_code, host_loads_account, is_new_here, load_account_brings, only_loads,
    only_loads_in_steps, transfer_transfers,
};
use vstd::prelude::*;

verus! {

/// How a call or create may end, sorted: what it changed stays for the first, what is left of its
/// gas comes back for the first and the second, and neither for the others.
pub proof fn reasons_are_sorted(reason: Return)
    ensures
        match reason {
            Return::Continue | Return::Stop | Return::Return | Return::SelfDestruct => {
                reason.spec_is_ok() && !reason.spec_is_revert()
            },
            Return::Revert | Return::CallTooDeep | Return::OutOfFund => {
                !reason.spec_is_ok() && reason.spec_is_revert()
            },
            _ => !reason.spec_is_ok() && !reason.spec_is_revert(),
        },
{
}

/// The journal with a mark of an account as it was.
spec fn unmarked(after: JournalView, before: JournalView, address: Seq<u8>) -> JournalView {
    if before.accounts.contains_key(address) {
        JournalView {
            accounts: after.accounts.insert(
                address,
                AccountView {
                    fields: AccountFieldsView {
                        is_touched: before.accounts[address].fields.is_touched,
                        ..after.accounts[address].fields
                    },
                    ..after.accounts[address]
                },
            ),
            ..after
        }
    } else {
        after
    }
}

proof fn lemma_loads_after_touch<DB: Database>(
    w: World<DB>,
    address: Seq<u8>,
    from: Seq<u8>,
    to: Seq<u8>,
)
    ensures
        ({
            let touched = w.with(w.journal.touch(address));
            let loaded = touched.load_account(from).0.load_account(to).0.journal;
            only_loads::<DB>(w.journal, unmarked(loaded, w.journal, address))
        }),
{
    let touched = w.with(w.journal.touch(address));
    let first = touched.load_account(from).0;
    let second = first.load_account(to).0;
    let loaded = second.journal;
    let plain = unmarked(loaded, w.journal, address);
    touch_marks(w.journal, address);
    load_account_brings(touched, from);
    load_account_brings(first, to);
    only_loads_in_steps::<DB>(touched.journal, first.journal, loaded);
    assert forall|a: Seq<u8>|
        #![trigger plain.accounts.contains_key(a)]
        #![trigger w.journal.accounts.contains_key(a)]
        {
            &&& w.journal.accounts.contains_key(a) ==> plain.accounts.contains_key(a) && brought::<
                DB,
            >(w.journal.accounts[a], plain.accounts[a])
            &&& plain.accounts.contains_key(a) && !w.journal.accounts.contains_key(a)
                ==> is_new_here::<DB>(a, plain.accounts[a])
        } by {
        assert(touched.journal.accounts.contains_key(a) == w.journal.accounts.contains_key(a));
        if w.journal.accounts.contains_key(a) {
            assert(loaded.accounts.contains_key(a));
            assert(loaded.accounts[a] == touched.journal.accounts[a]);
        } else {
            assert(loaded.accounts.contains_key(a) == plain.accounts.contains_key(a));
        }
    }
}

/// Two journals that differ in the mark of accounts only, besides the depth.
spec fn marked_as(
    plain: JournalView,
    marked: JournalView,
    is_marked: bool,
    address: Seq<u8>,
) -> bool {
    &&& marked.logs == plain.logs
    &&& forall|a: Seq<u8>|
        #![trigger marked.accounts.contains_key(a)]
        #![trigger plain.accounts.contains_key(a)]
        {
            &&& marked.accounts.contains_key(a) == plain.accounts.contains_key(a)
            &&& plain.accounts.contains_key(a) ==> marked.accounts[a] == (AccountView {
                fields: AccountFieldsView {
                    is_touched: plain.accounts[a].fields.is_touched || (is_marked && a == address),
                    ..plain.accounts[a].fields
                },
                ..plain.accounts[a]
            })
        }
}

/// Where the value of a call is about to be moved.
spec fn at_transfer<DB: Database>(coded: DataView<DB>, inputs: CallInputs) -> DataView<DB> {
    let begun = coded.with(coded.journal.checkpoint().0);
    if inputs.transfer.value@ == 0 {
        let loaded = begun.load_account(inputs.context.address@).0;
        loaded.with(loaded.journal.touch(inputs.context.address@))
    } else {
        begun
    }
}

proof fn lemma_depth_is_no_load<DB: Database>(before: JournalView, after: JournalView, depth: nat)
    requires
        only_loads::<DB>(JournalView { depth, ..before }, after),
    ensures
        only_loads::<DB>(before, JournalView { depth: before.depth, ..after }),
{
    let a = JournalView { depth, ..before };
    let b = JournalView { depth: before.depth, ..after };
    assert forall|x: Seq<u8>|
        #![trigger b.accounts.contains_key(x)]
        #![trigger before.accounts.contains_key(x)]
        {
            &&& before.accounts.contains_key(x) ==> b.accounts.contains_key(x) && brought::<DB>(
                before.accounts[x],
                b.accounts[x],
            )
            &&& b.accounts.contains_key(x) && !before.accounts.contains_key(x) ==> is_new_here::<
                DB,
            >(x, b.accounts[x])
        } by {
        assert(a.accounts.contains_key(x) == before.accounts.contains_key(x));
    }
}

proof fn lemma_call_loads<DB: Database>(coded: DataView<DB>, inputs: CallInputs) -> (r: (
    JournalView,
    bool,
))
    ensures
        ({
            let (loaded, is_marked) = r;
            let address = inputs.context.address@;
            let world = at_transfer(coded, inputs).world();
            let both = world.load_account(inputs.transfer.source@).0.load_account(
                inputs.transfer.target@,
            ).0;
            &&& only_loads::<DB>(coded.journal, loaded)
            &&& loaded.depth == coded.journal.depth
            &&& marked_as(loaded, both.journal, is_marked, address)
            &&& is_marked ==> inputs.transfer.value@ == 0
            &&& inputs.transfer.value@ == 0 && !is_marked && loaded.accounts.contains_key(address)
                ==> address == inputs.transfer.source@ || address == inputs.transfer.target@
            &&& both.journal.depth == coded.journal.depth + 1
            &&& both.journal.logs == coded.journal.logs
        }),
{
    let source = inputs.transfer.source@;
    let target = inputs.transfer.target@;
    let value = inputs.transfer.value@;
    let address = inputs.context.address@;
    let begun = coded.with(coded.journal.checkpoint().0);
    let first = if value == 0 {
        begun.load_account(address).0
    } else {
        begun
    };
    let is_marked = value == 0 && first.journal.accounts.contains_key(address);
    host_loads_account(begun, address);
    touch_marks(first.journal, address);
    let world = at_transfer(coded, inputs).world();
    let from = world.load_account(source).0;
    let both = from.load_account(target).0;
    load_account_brings(world, source);
    load_account_brings(from, target);
    let plain = if value == 0 {
        unmarked(both.journal, first.journal, address)
    } else {
        both.journal
    };
    if value == 0 {
        lemma_loads_after_touch(first.world(), address, source, target);
        assert(first.world().with(first.journal.touch(address)) == world);
        only_loads_in_steps::<DB>(begun.journal, first.journal, plain);
        assert forall|a: Seq<u8>| #[trigger]
            both.journal.accounts.contains_key(a) implies plain.accounts.contains_key(a)
            && both.journal.accounts[a] == (AccountView {
            fields: AccountFieldsView {
                is_touched: plain.accounts[a].fields.is_touched || (is_marked && a == address),
                ..plain.accounts[a].fields
            },
            ..plain.accounts[a]
        }) by {
            if a == address && first.journal.accounts.contains_key(a) {
                assert(world.journal.accounts.contains_key(a));
                assert(both.journal.accounts[a] == world.journal.accounts[a]);
            }
        }
    } else {
        only_loads_in_steps::<DB>(world.journal, from.journal, both.journal);
    }
    lemma_depth_is_no_load::<DB>(coded.journal, plain, (coded.journal.depth + 1) as nat);
    (JournalView { depth: coded.journal.depth, ..plain }, is_marked)
}

proof fn lemma_marks_add_up(
    plain: JournalView,
    marked: JournalView,
    after: JournalView,
    source: Seq<u8>,
    target: Seq<u8>,
    value: nat,
    is_marked: bool,
    address: Seq<u8>,
)
    requires
        marked_as(plain, marked, is_marked, address),
        is_marked ==> value == 0,
        value == 0 && !is_marked && plain.accounts.contains_key(address) ==> address == source
            || address == target,
        value_moved(marked, after, source, target, value, Set::empty()),
    ensures
        value_moved(
            plain,
            after,
            source,
            target,
            value,
            if value == 0 {
                set![address]
            } else {
                Set::empty()
            },
        ),
{
    let set = if value == 0 {
        set![address]
    } else {
        Set::empty()
    };
    assert forall|a: Seq<u8>|
        #![trigger after.accounts.contains_key(a)]
        #![trigger plain.accounts.contains_key(a)]
        {
            &&& after.accounts.contains_key(a) == plain.accounts.contains_key(a)
            &&& plain.accounts.contains_key(a) ==> account_after(
                plain.accounts[a],
                after.accounts[a],
                a == source,
                a == target,
                set.contains(a),
                value,
            )
        } by {
        assert(marked.accounts.contains_key(a) == plain.accounts.contains_key(a));
        assert(set.contains(a) <==> value == 0 && a == address);
        assert(!Set::<Seq<u8>>::empty().contains(a));
    }
}

proof fn lemma_value_moves(
    plain: JournalView,
    marked: JournalView,
    source: Seq<u8>,
    target: Seq<u8>,
    value: nat,
    is_marked: bool,
    address: Seq<u8>,
)
    requires
        marked_as(plain, marked, is_marked, address),
        is_marked ==> value == 0,
        value == 0 && !is_marked && plain.accounts.contains_key(address) ==> address == source
            || address == target,
        marked.accounts.contains_key(source),
        marked.accounts.contains_key(target),
    ensures
        ({
            let (after, r) = marked.move_value(source, target, value);
            let has = plain.accounts[source].fields.balance;
            let gets = if source == target {
                (has - value) as nat
            } else {
                plain.accounts[target].fields.balance
            };
            let set = if value == 0 {
                set![address]
            } else {
                Set::empty()
            };
            &&& plain.accounts.contains_key(source)
            &&& plain.accounts.contains_key(target)
            &&& match r {
                Ok(_) => {
                    &&& has >= value
                    &&& value_moved(plain, after, source, target, value, set)
                    &&& after.logs == marked.logs
                    &&& after.depth == marked.depth
                },
                Err(Return::OutOfFund) => has < value,
                Err(Return::OverflowPayment) => has >= value && gets + value > u256_max(),
                Err(_) => false,
            }
        }),
{
    move_value_moves(marked, source, target, value);
    assert(marked.accounts[source].fields.balance == plain.accounts[source].fields.balance);
    assert(marked.accounts[target].fields.balance == plain.accounts[target].fields.balance);
    let (after, r) = marked.move_value(source, target, value);
    if r is Ok {
        lemma_marks_add_up(plain, marked, after, source, target, value, is_marked, address);
    }
}

/// How a call begins. It fails where its code cannot be brought. It is refused where more than 1024
/// calls and creates are under way, where the source has not the value, where the target cannot
/// take it, and where the database fails on one of them; nothing is then left of it but the code
/// that was brought. Else it is let in, one deeper: the value has gone from the source to the
/// target, both are touched, and so is the account that the call is for where there is no value;
/// nothing else has changed since the accounts were loaded. Returns the journal with all accounts
/// loaded.
pub proof fn call_begins<DB: Database>(before: DataView<DB>, inputs: CallInputs) -> (loaded:
    JournalView)
    ensures
        ({
            let (started, start) = before.start_call(inputs);
            let (coded, code) = before.code(inputs.contract@);
            let source = inputs.transfer.source@;
            let target = inputs.transfer.target@;
            let value = inputs.transfer.value@;
            let marked = if value == 0 {
                set![inputs.context.address@]
            } else {
                Set::empty()
            };
            &&& started.env == before.env
            &&& start is Failed <==> code is None
            &&& start is Failed ==> started == coded
            &&& start == (CallStart::Refused { reason: Return::CallTooDeep }) <==> code is Some
                && before.journal.depth > 1024
            &&& start is Refused ==> started.journal == coded.journal
            &&& match start {
                CallStart::Failed => true,
                CallStart::Refused { reason } => reason == Return::CallTooDeep || {
                    let has = loaded.accounts[source].fields.balance;
                    let gets = if source == target {
                        (has - value) as nat
                    } else {
                        loaded.accounts[target].fields.balance
                    };
                    match reason {
                        Return::OutOfFund => {
                            &&& only_loads::<DB>(before.journal, loaded)
                            &&& loaded.accounts.contains_key(source)
                            &&& has < value
                        },
                        Return::OverflowPayment => {
                            &&& only_loads::<DB>(before.journal, loaded)
                            &&& loaded.accounts.contains_key(source)
                            &&& loaded.accounts.contains_key(target)
                            &&& has >= value
                            &&& gets + value > u256_max()
                        },
                        Return::FatalExternalError => !is_sound(before.db),
                        _ => false,
                    }
                },
                CallStart::Entered { bytecode, .. } => {
                    &&& code matches Some((found, _))
                    &&& bytecode == found
                    &&& before.journal.depth <= 1024
                    &&& only_loads::<DB>(before.journal, loaded)
                    &&& loaded.accounts.contains_key(source)
                    &&& loaded.accounts.contains_key(target)
                    &&& loaded.accounts[source].fields.balance >= value
                    &&& value_moved(loaded, started.journal, source, target, value, marked)
                    &&& started.journal.logs == before.journal.logs
                    &&& started.journal.depth == before.journal.depth + 1
                },
            }
        }),
{
    let (coded, code) = before.code(inputs.contract@);
    start_call_keeps(before, inputs);
    host_answers_code(before, inputs.contract@);
    code_follows(before, inputs.contract@);
    let source = inputs.transfer.source@;
    let target = inputs.transfer.target@;
    let value = inputs.transfer.value@;
    let at = at_transfer(coded, inputs);
    let world = at.world();
    let (from, found) = world.load_account(source);
    let (both, other) = from.load_account(target);
    let (loaded, is_marked) = lemma_call_loads(coded, inputs);
    only_loads_in_steps::<DB>(before.journal, coded.journal, loaded);
    transfer_transfers(world, source, target, value);
    if is_sound(before.db) {
        load_account_follows(coded.with(coded.journal.checkpoint().0), inputs.context.address@);
        load_account_extends(world, source);
        load_account_extends(from, target);
    }
    if found is Ok && other is Ok {
        lemma_value_moves(
            loaded,
            both.journal,
            source,
            target,
            value,
            is_marked,
            inputs.context.address@,
        );
    }
    if code is Some && coded.journal.depth <= 1024 {
        let (moved, r) = world.transfer(source, target, value);
        match r {
            Ok(_) => {
                assert(before.start_call(inputs).0 == at.put(moved));
                assert(before.start_call(inputs).1 is Entered);
            },
            Err(reason) => {
                assert(before.start_call(inputs).1 == (CallStart::Refused { reason }));
            },
        }
    }
    loaded
}

/// A call that is not let in comes back with why, all its gas and no output, and runs nothing.
pub proof fn refused_call_runs_nothing<DB: Database, I: Interpreter>(
    rules: Rules,
    n: nat,
    is_static: bool,
    before: DataView<DB>,
    inputs: CallInputs,
    told: Seq<Event<DB, I>>,
    after: DataView<DB>,
    end: End,
)
    requires
        calls::<DB, I>(rules, n, is_static, before, inputs, told, after, end),
        !(before.start_call(inputs).1 is Entered),
    ensures
        after == before.start_call(inputs).0,
        match before.start_call(inputs).1 {
            CallStart::Refused { reason } => end.reason == reason,
            _ => end.reason == Return::FatalExternalError,
        },
        end.gas.limit == inputs.gas_limit,
        end.gas.spent == 0,
        end.gas.refunded == 0,
        end.output.len() == 0,
        told.len() == 0,
{
    reveal(calls);
}

/// A call that is let in, of an address without precompile, runs the code of the account that it
/// names: on a machine made for that code, with the input of the call, for the account, the caller
/// and the value of its context, with its gas, and under the rules that it is made under. What the
/// run did stays where it succeeded, and is undone where not. Returns what the machine was made
/// for, the machine, where it began, and where the run ended.
pub proof fn call_runs_its_code<DB: Database, I: Interpreter>(
    rules: Rules,
    n: nat,
    is_static: bool,
    before: DataView<DB>,
    inputs: CallInputs,
    told: Seq<Event<DB, I>>,
    after: DataView<DB>,
    end: End,
) -> (r: (ContractView, I, Moment<DB, I>, DataView<DB>))
    requires
        calls::<DB, I>(rules, n, is_static, before, inputs, told, after, end),
        before.start_call(inputs).1 is Entered,
        !rules.precompiles.contains_key(inputs.contract@),
    ensures
        ({
            let (contract, made, begun, ran) = r;
            let started = before.start_call(inputs).0;
            let coded = before.code(inputs.contract@).0.journal;
            &&& contract.input == inputs.input@
            &&& contract.address == inputs.context.address@
            &&& contract.caller == inputs.context.caller@
            &&& contract.value == inputs.context.apparent_value@
            &&& coded.accounts.contains_key(inputs.contract@)
            &&& coded.accounts[inputs.contract@].code == Some(contract.bytecode)
            &&& executes::<DB, I>(
                rules,
                n,
                is_static,
                false,
                contract,
                inputs.gas_limit,
                started,
                told,
                ran,
                end,
            )
            &&& made.starts(contract, inputs.gas_limit, rules.spec_id, is_static)
            &&& begins_with(rules.watched, false, started, made, begun)
            &&& exists|m: nat|
                m <= n && #[trigger] runs(
                    rules,
                    m,
                    is_static,
                    inputs.gas_limit,
                    begun,
                    told,
                    ran,
                    end,
                )
            &&& after.env == ran.env
            &&& after.db == ran.db
            &&& after.error == ran.error
            &&& after.journal.depth + 1 == ran.journal.depth
            &&& if end.reason is Continue || end.reason is Stop || end.reason is Return
                || end.reason is SelfDestruct {
                &&& after.journal.accounts == ran.journal.accounts
                &&& after.journal.logs == ran.journal.logs
            } else {
                &&& after.journal.accounts == coded.accounts
                &&& after.journal.logs == coded.logs
            }
        }),
{
    let (started, start) = before.start_call(inputs);
    let (coded, code) = before.code(inputs.contract@);
    start_call_keeps(before, inputs);
    code_follows(before, inputs.contract@);
    host_answers_code(before, inputs.contract@);
    failed_call_if_failed::<DB, I>(rules, n, is_static, before, inputs, told, after, end);
    reveal(calls);
    let bytecode = start->bytecode;
    let checkpoint = start->checkpoint;
    let ran = choose|ran: DataView<DB>|
        executes::<DB, I>(
            rules,
            n,
            is_static,
            false,
            called_contract(inputs, bytecode),
            inputs.gas_limit,
            started,
            told,
            ran,
            end,
        ) && after == #[trigger] ran.finish_run(end.reason, checkpoint);
    let contract = called_contract(inputs, bytecode);
    let (made, begun, m) = choose|made: I, begun: Moment<DB, I>, m: nat|
        {
            &&& #[trigger] within(m, n)
            &&& made.starts(contract, inputs.gas_limit, rules.spec_id, is_static)
            &&& #[trigger] is_begun(rules.watched, false, started, made, begun)
            &&& runs(rules, m, is_static, inputs.gas_limit, begun, told, ran, end)
        };
    assert(ran.journal.depth >= started.journal.depth);
    (contract, made, begun, ran)
}

proof fn failed_call_if_failed<DB: Database, I: Interpreter>(
    rules: Rules,
    n: nat,
    is_static: bool,
    before: DataView<DB>,
    inputs: CallInputs,
    told: Seq<Event<DB, I>>,
    after: DataView<DB>,
    end: End,
)
    requires
        calls::<DB, I>(rules, n, is_static, before, inputs, told, after, end),
    ensures
        !end.reason.spec_is_ok() ==> after.restores(before.code(inputs.contract@).0),
{
    if !end.reason.spec_is_ok() {
        failed_call_restores::<DB, I>(rules, n, is_static, before, inputs, told, after, end);
    }
}

/// Where a run begins: the machine as it was made, on the data as they are. An inspector that
/// watches is told, with whether the run is static, and may change both; nothing else was told yet.
pub open spec fn begins_with<DB: Database, I: Interpreter>(
    watched: bool,
    told_static: bool,
    started: DataView<DB>,
    made: I,
    begun: Moment<DB, I>,
) -> bool {
    &&& begun.reply is Ready
    &&& !watched ==> begun.data == started && begun.machine == made && begun.told.len() == 0
    &&& watched ==> begun.told.len() == 1 && begun.told[0] == (Event::Initialize {
        machine: made,
        data: started,
        is_static: told_static,
        new_machine: begun.machine,
        new_data: begun.data,
    })
}

/// A call that is let in, of an address with a precompile, hands the precompile its input and its
/// gas. Where the precompile succeeds and its cost is within the gas, the call comes back with the
/// whole output, has spent the cost, and has the logs behind those that were there. Else it comes
/// back without output, with its gas, and what it moved is undone.
pub proof fn call_runs_its_precompile<DB: Database, I: Interpreter>(
    rules: Rules,
    n: nat,
    is_static: bool,
    before: DataView<DB>,
    inputs: CallInputs,
    told: Seq<Event<DB, I>>,
    after: DataView<DB>,
    end: End,
)
    requires
        calls::<DB, I>(rules, n, is_static, before, inputs, told, after, end),
        before.start_call(inputs).1 is Entered,
        rules.precompiles.contains_key(inputs.contract@),
    ensures
        ({
            let started = before.start_call(inputs).0;
            let coded = before.code(inputs.contract@).0.journal;
            let answer = precompile_answer(
                rules.precompiles[inputs.contract@],
                inputs.input@,
                inputs.gas_limit,
            );
            &&& told.len() == 0
            &&& after.env == started.env
            &&& after.db == started.db
            &&& after.error == started.error
            &&& after.journal.depth + 1 == started.journal.depth
            &&& end.gas.limit == inputs.gas_limit
            &&& end.gas.refunded == 0
            &&& if answer is Ok && answer->Ok_0.cost <= inputs.gas_limit {
                let out = answer->Ok_0;
                &&& end.reason == Return::Continue
                &&& end.output == out.output
                &&& end.output.len() == out.output.len()
                &&& end.gas.spent == out.cost
                &&& after.journal.accounts == started.journal.accounts
                &&& after.journal.logs == started.journal.logs + out.logs
            } else {
                &&& end.reason == if answer is Ok || answer->Err_0 is OutOfGas {
                    Return::OutOfGas
                } else {
                    Return::PrecompileError
                }
                &&& end.output.len() == 0
                &&& end.gas.spent == 0
                &&& after.journal.accounts == coded.accounts
                &&& after.journal.logs == coded.logs
            }
        }),
{
    start_call_keeps(before, inputs);
    code_follows(before, inputs.contract@);
    failed_call_if_failed::<DB, I>(rules, n, is_static, before, inputs, told, after, end);
    reveal(calls);
    let answer = precompile_answer(
        rules.precompiles[inputs.contract@],
        inputs.input@,
        inputs.gas_limit,
    );
    finish_precompile_keeps(
        before.code(inputs.contract@).0,
        before.start_call(inputs).0,
        answer,
        GasView::fresh(inputs.gas_limit as nat),
    );
}

} // verus!
