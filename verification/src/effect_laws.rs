//! What calls and creates do to the accounts that were there before.
use crate::data::DataView;
use crate::db::{is_sound, Database};
use crate::frames_laws::{balance_follows, code_follows, load_account_follows};
use crate::frames_model::{CallStart, End};
use crate::inspector::Event;
use crate::interpreter::{Interpreter, CALL_STACK_LIMIT};
use crate::journal_laws::{
    load_account_extends, load_code_extends, loaded_stays_loaded, transfer_extends,
};
use crate::models::{CallInputs, CreateInputs};
use crate::run_laws::{failed_create_restores, unwatched_create_follows};
use crate::run_model::{called_contract, calls, creates, executes, Rules};
use crate::state::{lookup, AccountFieldsView, AccountView};
use vstd::prelude::*;

verus! {

/// An account is as it was, but that its code may have been brought from the database.
pub open spec fn same_account(had: AccountView, has: AccountView) -> bool {
    &&& has.fields == had.fields
    &&& has.storage == had.storage
    &&& had.code is Some ==> has.code == had.code
}

/// Loading an account leaves those that are loaded, and the logs.
proof fn lemma_load_keeps_accounts<DB: Database>(d: DataView<DB>, address: Seq<u8>)
    ensures
        ({
            let loaded = d.load_account(address).0;
            &&& loaded.journal.logs == d.journal.logs
            &&& forall|a: Seq<u8>| #[trigger]
                d.journal.has(a) ==> loaded.journal.has(a) && same_account(
                    d.journal.accounts[a],
                    loaded.journal.accounts[a],
                )
        }),
{
}

/// The account of a caller with its nonce one higher.
pub open spec fn raised(had: AccountView) -> AccountView {
    AccountView {
        fields: AccountFieldsView {
            nonce: (had.fields.nonce + 1) as u64,
            is_touched: true,
            ..had.fields
        },
        ..had
    }
}

proof fn lemma_warm_create_keeps_accounts<DB: Database>(before: DataView<DB>, inputs: CreateInputs)
    requires
        before.load_account(inputs.caller@).0.balance(inputs.caller@).1 is Some,
        before.load_account(inputs.caller@).0.balance(
            inputs.caller@,
        ).0.journal.accounts[inputs.caller@].fields.nonce < u64::MAX,
    ensures
        ({
            let caller = inputs.caller@;
            let warm = before.warm_create(inputs);
            let funded = before.load_account(caller).0.balance(caller).0;
            &&& warm.journal.logs == before.journal.logs
            &&& warm.journal.has(caller)
            &&& warm.journal.accounts[caller].fields.nonce
                == funded.journal.accounts[caller].fields.nonce + 1
            &&& forall|a: Seq<u8>| #[trigger]
                before.journal.has(a) ==> warm.journal.has(a) && same_account(
                    if a == caller {
                        raised(before.journal.accounts[a])
                    } else {
                        before.journal.accounts[a]
                    },
                    warm.journal.accounts[a],
                )
        }),
{
    let caller = inputs.caller@;
    let loaded = before.load_account(caller).0;
    let funded = loaded.balance(caller).0;
    let (journal, nonce) = funded.journal.inc_nonce(caller);
    let target = before.create_target(inputs);
    lemma_load_keeps_accounts(before, caller);
    load_account_extends(loaded.world(), caller);
    lemma_load_keeps_accounts(funded.with(journal), target);
    assert(journal.has(caller));
    assert(funded.with(journal).journal.has(caller));
    assert forall|a: Seq<u8>| #[trigger] before.journal.has(a) implies {
        &&& before.warm_create(inputs).journal.has(a)
        &&& same_account(
            if a == caller {
                raised(before.journal.accounts[a])
            } else {
                before.journal.accounts[a]
            },
            before.warm_create(inputs).journal.accounts[a],
        )
    } by {
        assert(loaded.journal.has(a));
        assert(funded.journal.has(a));
        assert(funded.journal.accounts[a] == loaded.journal.accounts[a]);
        assert(funded.with(journal).journal.has(a));
    }
}

/// A failed create costs its caller a nonce, and nothing else: the logs are as they were, and so is
/// every account that was loaded before, but for the nonce of the caller and that it is touched.
/// Code that was not at hand may now be. Where nobody watched, as many calls and creates are under
/// way as before. The create is not too deep, its caller has the value and a nonce to raise, and
/// the database does not fail.
pub proof fn failed_create_costs_a_nonce<DB: Database, I: Interpreter>(
    rules: Rules,
    n: nat,
    is_static: bool,
    before: DataView<DB>,
    inputs: CreateInputs,
    told: Seq<Event<DB, I>>,
    after: DataView<DB>,
    announced: bool,
    address: Option<Seq<u8>>,
    end: End,
)
    requires
        creates::<DB, I>(
            rules,
            n,
            is_static,
            before,
            inputs,
            told,
            after,
            announced,
            address,
            end,
        ),
        !end.reason.spec_is_ok(),
        is_sound(before.db),
        before.journal.depth <= CALL_STACK_LIMIT,
        ({
            let caller = inputs.caller@;
            let funded = before.load_account(caller).0.balance(caller).0.journal;
            &&& funded.balance(caller) >= inputs.value@
            &&& funded.accounts[caller].fields.nonce < u64::MAX
        }),
    ensures
        ({
            let caller = inputs.caller@;
            let funded = before.load_account(caller).0.balance(caller).0;
            &&& address == Some(before.create_target(inputs))
            &&& after.journal.logs == before.journal.logs
            &&& after.journal.has(caller)
            &&& after.journal.accounts[caller].fields.nonce
                == funded.journal.accounts[caller].fields.nonce + 1
            &&& before.journal.has(caller) ==> funded.journal.accounts[caller].fields
                == before.journal.accounts[caller].fields
            &&& forall|a: Seq<u8>| #[trigger]
                before.journal.has(a) ==> after.journal.has(a) && same_account(
                    if a == caller {
                        raised(before.journal.accounts[a])
                    } else {
                        before.journal.accounts[a]
                    },
                    after.journal.accounts[a],
                )
            &&& !rules.watched ==> after.journal.depth == before.journal.depth
        }),
{
    reveal(creates);
    load_account_follows(before, inputs.caller@);
    balance_follows(before.load_account(inputs.caller@).0, inputs.caller@);
    load_account_extends(before.load_account(inputs.caller@).0.world(), inputs.caller@);
    failed_create_restores::<DB, I>(
        rules,
        n,
        is_static,
        before,
        inputs,
        told,
        after,
        announced,
        address,
        end,
    );
    lemma_load_keeps_accounts(before, inputs.caller@);
    lemma_warm_create_keeps_accounts(before, inputs);
    if !rules.watched {
        unwatched_create_follows::<DB, I>(
            rules,
            n,
            is_static,
            before,
            inputs,
            told,
            after,
            announced,
            address,
            end,
        );
    }
}

/// A failed create leaves its caller and the address that it was for warm, where the database does
/// not fail.
pub proof fn failed_create_leaves_the_address_warm<DB: Database, I: Interpreter>(
    rules: Rules,
    n: nat,
    is_static: bool,
    before: DataView<DB>,
    inputs: CreateInputs,
    told: Seq<Event<DB, I>>,
    after: DataView<DB>,
    announced: bool,
    address: Option<Seq<u8>>,
    end: End,
)
    requires
        creates::<DB, I>(
            rules,
            n,
            is_static,
            before,
            inputs,
            told,
            after,
            announced,
            address,
            end,
        ),
        !end.reason.spec_is_ok(),
        is_sound(before.db),
    ensures
        after.journal.accounts.contains_key(inputs.caller@),
        address is Some ==> after.journal.accounts.contains_key(address->0),
{
    let caller = inputs.caller@;
    let first = before.load_account(caller).0;
    let funded = first.balance(caller).0;
    load_account_follows(before, caller);
    balance_follows(first, caller);
    load_code_extends(before.world(), caller);
    load_account_extends(first.world(), caller);
    reveal(creates);
    if address is Some {
        failed_create_restores::<DB, I>(
            rules,
            n,
            is_static,
            before,
            inputs,
            told,
            after,
            announced,
            address,
            end,
        );
        lemma_warm_create_keeps_accounts(before, inputs);
        let raised = funded.with(funded.journal.inc_nonce(caller).0);
        load_account_follows(raised, before.create_target(inputs));
        load_code_extends(raised.world(), before.create_target(inputs));
    }
}

proof fn lemma_started_call_touches<DB: Database>(before: DataView<DB>, inputs: CallInputs)
    requires
        before.start_call(inputs).1 is Entered,
    ensures
        before.start_call(inputs).0.journal.touched(inputs.transfer.source@),
        before.start_call(inputs).0.journal.touched(inputs.transfer.target@),
        inputs.transfer.value@ == 0 && is_sound(before.db) ==> before.start_call(
            inputs,
        ).0.journal.touched(inputs.context.address@),
{
    let coded = before.code(inputs.contract@).0;
    code_follows(before, inputs.contract@);
    let begun = coded.with(coded.journal.checkpoint().0);
    let address = inputs.context.address@;
    let loaded = begun.load_account(address).0;
    let touched = if inputs.transfer.value@ == 0 {
        loaded.with(loaded.journal.touch(address))
    } else {
        begun
    };
    load_account_follows(begun, address);
    if inputs.transfer.value@ == 0 && is_sound(before.db) {
        load_code_extends(begun.world(), address);
        assert(loaded.journal.has(address));
        assert(touched.journal.touched(address));
    }
    let from = inputs.transfer.source@;
    let to = inputs.transfer.target@;
    let value = inputs.transfer.value@;
    transfer_extends(touched.world(), from, to, value);
    let (w1, _) = touched.world().load_account(from);
    let (w2, _) = w1.load_account(to);
    load_account_extends(touched.world(), from);
    load_account_extends(w1, to);
    loaded_stays_loaded(w2.journal, w1.journal, from);
    let moved = touched.world().transfer(from, to, value).0.journal;
    assert(moved.touched(from));
    assert(moved.touched(to));
}

/// A call that succeeds leaves both ends of its transfer touched; and one that moves no value also
/// the account that it is for, where the database does not fail.
pub proof fn successful_call_touches<DB: Database, I: Interpreter>(
    rules: Rules,
    n: nat,
    is_static: bool,
    before: DataView<DB>,
    inputs: CallInputs,
    told: Seq<Event<DB, I>>,
    after: DataView<DB>,
    end: End,
)
    requires
        calls::<DB, I>(rules, n, is_static, before, inputs, told, after, end),
        end.reason.spec_is_ok(),
    ensures
        after.journal.touched(inputs.transfer.source@),
        after.journal.touched(inputs.transfer.target@),
        inputs.transfer.value@ == 0 && is_sound(before.db) ==> after.journal.touched(
            inputs.context.address@,
        ),
{
    reveal(calls);
    let (started, start) = before.start_call(inputs);
    if let CallStart::Entered { bytecode, checkpoint } = start {
        lemma_started_call_touches(before, inputs);
        if lookup(rules.precompiles, inputs.contract@) is None {
            let ran = choose|ran: DataView<DB>|
                executes::<DB, I>(
                    rules,
                    n,
                    is_static,
                    false,
                    called_contract(inputs, bytecode),
                    inputs.gas_limit,
                    started,
                    told,
                    ran,
                    end,
                ) && after == #[trigger] ran.finish_run(end.reason, checkpoint);
            assert(ran.journal.extends(started.journal));
            assert(ran.journal.touched(inputs.transfer.source@));
            assert(ran.journal.touched(inputs.transfer.target@));
            if inputs.transfer.value@ == 0 && is_sound(before.db) {
                assert(ran.journal.touched(inputs.context.address@));
            }
        }
    }
}

} // verus!
