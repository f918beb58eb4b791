//! What a create does: what it is refused for, where the contract goes, what it is given, what is
//! run and with what, and what is deposited.
use crate::address::{create2_preimage, create_preimage};
use crate::call_laws::begins_with;
use crate::data::DataView;
use crate::db::{is_sound, Database};
use crate::frames_laws::{
    balance_follows, finish_create_keeps, load_account_follows, start_create_keeps,
};
use crate::frames_model::{CreateStart, End};
use crate::hash::keccak256_digest;
use crate::inspector::Event;
use crate::interpreter::{ContractView, Interpreter};
use crate::journal_effect_laws::{inc_nonce_raises, set_code_gives_code};
use crate::journal_laws::{
    create_account_extends, extends_in_steps, load_account_extends, loaded_stays_loaded,
};
use crate::journal_model::{CheckpointView, JournalView, World};
use crate::models::{
    prepared_code, AnalysisKind, CreateInputs, CreateScheme, Return, KECCAK_EMPTY,
};
use crate::primitives::u256_max;
use crate::run_model::{creates, executes, init_contract, is_begun, runs, within, Moment, Rules};
use crate::spec_id::SpecId;
use crate::state::{AccountFieldsView, AccountView};
use crate::world_laws::{
    brought, host_answers_balance, host_loads_account, is_new_here, load_account_brings,
    load_code_brings, only_loads, only_loads_in_steps, room_is_made,
};
use vstd::prelude::*;

verus! {

/// The address that a new contract gets: the last 20 of the 32 bytes of a hash, of the caller and
/// its nonce, or of the caller, the salt and the hash of the init code.
pub open spec fn is_address_of(created: Seq<u8>, inputs: CreateInputs, nonce: nat) -> bool {
    let digest = match inputs.scheme {
        CreateScheme::Create => keccak256_digest(create_preimage(inputs.caller@, nonce)),
        CreateScheme::Create2 { salt } => keccak256_digest(
            create2_preimage(inputs.caller@, keccak256_digest(inputs.init_code@), salt@),
        ),
    };
    created == digest.subrange(12, 32)
}

/// The journal with an account as it was in another, and with another depth.
spec fn patched(j: JournalView, address: Seq<u8>, account: AccountView, depth: nat) -> JournalView {
    JournalView { accounts: j.accounts.insert(address, account), depth, ..j }
}

proof fn lemma_patch<DB: Database>(
    x: JournalView,
    y: JournalView,
    address: Seq<u8>,
    account: AccountView,
    depth: nat,
)
    requires
        only_loads::<DB>(x, y),
        x.accounts.contains_key(address),
    ensures
        only_loads::<DB>(
            patched(x, address, account, depth),
            patched(y, address, account, depth),
        ),
{
    let a = patched(x, address, account, depth);
    let b = patched(y, address, account, depth);
    assert forall|k: Seq<u8>|
        #![trigger b.accounts.contains_key(k)]
        #![trigger a.accounts.contains_key(k)]
        {
            &&& a.accounts.contains_key(k) ==> b.accounts.contains_key(k) && brought::<DB>(
                a.accounts[k],
                b.accounts[k],
            )
            &&& b.accounts.contains_key(k) && !a.accounts.contains_key(k) ==> is_new_here::<DB>(
                k,
                b.accounts[k],
            )
        } by {
        if k != address {
            assert(x.accounts.contains_key(k) == a.accounts.contains_key(k));
            assert(y.accounts.contains_key(k) == b.accounts.contains_key(k));
        }
    }
}

/// Where the account of a new contract has been looked at.
spec fn looked_at<DB: Database>(before: DataView<DB>, inputs: CreateInputs) -> World<DB> {
    let warm = before.warm_create(inputs);
    warm.with(warm.journal.checkpoint().0).world().load_code(before.create_target(inputs)).0
}

/// The journal of a create with its accounts loaded, and nothing else done.
spec fn create_loaded<DB: Database>(before: DataView<DB>, inputs: CreateInputs) -> JournalView {
    let caller = inputs.caller@;
    let funded = before.load_account(caller).0.balance(caller).0.journal;
    patched(
        looked_at(before, inputs).journal,
        caller,
        funded.accounts[caller],
        before.journal.depth,
    )
}

proof fn lemma_create_loads<DB: Database>(before: DataView<DB>, inputs: CreateInputs)
    requires
        before.load_account(inputs.caller@).0.balance(inputs.caller@).1 is Some,
        before.load_account(inputs.caller@).0.balance(
            inputs.caller@,
        ).0.journal.accounts[inputs.caller@].fields.nonce < u64::MAX,
    ensures
        ({
            let caller = inputs.caller@;
            let funded = before.load_account(caller).0.balance(caller).0.journal;
            let looked = looked_at(before, inputs).journal;
            let loaded = create_loaded(before, inputs);
            let had = funded.accounts[caller];
            let has = looked.accounts[caller];
            &&& only_loads::<DB>(before.journal, funded)
            &&& only_loads::<DB>(before.journal, loaded)
            &&& funded.accounts.contains_key(caller)
            &&& looked.accounts.contains_key(caller)
            &&& looked.depth == before.journal.depth + 1
            &&& looked.logs == before.journal.logs
            &&& has.fields.nonce == had.fields.nonce + 1
            &&& has.fields.is_touched
            &&& has.fields.balance == had.fields.balance
            &&& has.fields.code_hash == had.fields.code_hash
            &&& has.fields.storage_cleared == had.fields.storage_cleared
            &&& has.fields.is_destroyed == had.fields.is_destroyed
            &&& has.fields.is_not_existing == had.fields.is_not_existing
            &&& has.storage == had.storage
        }),
{
    let caller = inputs.caller@;
    let first = before.load_account(caller).0;
    let funded = first.balance(caller).0;
    host_loads_account(before, caller);
    host_answers_balance(first, caller);
    load_account_extends(first.world(), caller);
    only_loads_in_steps::<DB>(before.journal, first.journal, funded.journal);
    let had = funded.journal.accounts[caller];
    let raised = funded.with(funded.journal.inc_nonce(caller).0);
    inc_nonce_raises(funded.journal, caller);
    let target = before.create_target(inputs);
    let warm = raised.load_account(target).0;
    host_loads_account(raised, target);
    assert(warm == before.warm_create(inputs));
    assert(raised.journal.accounts.contains_key(caller));
    let begun = warm.with(warm.journal.checkpoint().0);
    let looked = begun.world().load_code(target).0;
    load_code_brings(begun.world(), target);
    let depth = before.journal.depth;
    lemma_patch::<DB>(raised.journal, warm.journal, caller, had, depth);
    assert(warm.journal.accounts.contains_key(caller));
    assert(begun.journal.accounts.contains_key(caller));
    lemma_patch::<DB>(begun.journal, looked.journal, caller, had, depth);
    assert(patched(begun.journal, caller, had, depth).accounts =~= patched(
        warm.journal,
        caller,
        had,
        depth,
    ).accounts);
    let a = patched(raised.journal, caller, had, depth);
    assert(a.accounts =~= funded.journal.accounts) by {
        assert forall|k: Seq<u8>| #[trigger] a.accounts.contains_key(k)
            == funded.journal.accounts.contains_key(k) by {
            assert(raised.journal.accounts.contains_key(k) || !raised.journal.accounts.contains_key(k));
        }
    }
    let b = patched(warm.journal, caller, had, depth);
    let c = patched(begun.journal, caller, had, depth);
    let d = patched(looked.journal, caller, had, depth);
    lemma_same_loads::<DB>(a, b, funded.journal, b);
    lemma_same_loads::<DB>(c, d, b, d);
    only_loads_in_steps::<DB>(funded.journal, b, d);
    only_loads_in_steps::<DB>(before.journal, funded.journal, d);
    assert(looked.journal.accounts.contains_key(caller));
    assert(brought::<DB>(begun.journal.accounts[caller], looked.journal.accounts[caller]));
    assert(brought::<DB>(raised.journal.accounts[caller], warm.journal.accounts[caller]));
}

/// The same accounts, logs, depth and settings were loaded the same.
proof fn lemma_same_loads<DB: Database>(
    x: JournalView,
    y: JournalView,
    a: JournalView,
    b: JournalView,
)
    requires
        only_loads::<DB>(x, y),
        x.accounts == a.accounts,
        x.logs == a.logs,
        x.depth == a.depth,
        x.is_before_spurious_dragon == a.is_before_spurious_dragon,
        x.num_of_precompiles == a.num_of_precompiles,
        y == b,
    ensures
        only_loads::<DB>(a, b),
{
}

/// What the accounts of a create have when its init code is about to run.
pub open spec fn contract_is_opened(
    loaded: JournalView,
    after: JournalView,
    caller: Seq<u8>,
    created: Seq<u8>,
    value: nat,
    spec_id: SpecId,
) -> bool {
    let had = loaded.accounts[caller];
    let has = after.accounts[caller];
    let was = loaded.accounts[created];
    let is = after.accounts[created];
    &&& after.accounts.contains_key(caller)
    &&& after.accounts.contains_key(created)
    &&& has.fields.balance + value == had.fields.balance
    &&& has.fields.nonce == had.fields.nonce + 1
    &&& has.fields.is_touched
    &&& has.fields.code_hash == had.fields.code_hash
    &&& has.fields.storage_cleared == had.fields.storage_cleared
    &&& has.fields.is_destroyed == had.fields.is_destroyed
    &&& has.storage == had.storage
    &&& is.fields.balance == was.fields.balance + value
    &&& is.fields.nonce == if spec_id.includes(SpecId::SPURIOUS_DRAGON) {
        1
    } else {
        0int
    }
    &&& is.fields.is_touched
    &&& is.fields.storage_cleared
    &&& is.fields.code_hash == was.fields.code_hash
    &&& is.fields.is_destroyed == was.fields.is_destroyed
    &&& is.code == was.code
    &&& is.storage == was.storage
    &&& forall|a: Seq<u8>|
        #![trigger after.accounts.contains_key(a)]
        #![trigger loaded.accounts.contains_key(a)]
        a != caller && a != created ==> {
            &&& after.accounts.contains_key(a) == loaded.accounts.contains_key(a)
            &&& loaded.accounts.contains_key(a) ==> after.accounts[a] == loaded.accounts[a]
        }
}

proof fn lemma_fund<DB: Database>(
    made: DataView<DB>,
    looked: JournalView,
    inputs: CreateInputs,
    spec_id: SpecId,
    created: Seq<u8>,
    checkpoint: CheckpointView,
)
    requires
        looked.accounts.contains_key(inputs.caller@),
        looked.accounts.contains_key(created),
        created != inputs.caller@,
        looked.accounts[inputs.caller@].fields.is_touched,
        looked.accounts[inputs.caller@].fields.balance >= inputs.value@,
        looked.accounts[created].fields.nonce == 0,
        made.journal == looked.set_fields(
            created,
            AccountFieldsView {
                storage_cleared: true,
                ..looked.accounts[created].fields
            },
        ),
    ensures
        ({
            let caller = inputs.caller@;
            let value = inputs.value@;
            let (started, start) = made.fund_create(inputs, spec_id, created, checkpoint);
            let gets = looked.accounts[created].fields.balance;
            match start {
                CreateStart::Entered { created: address, checkpoint: c } => {
                    let had = looked.accounts[caller];
                    let has = started.journal.accounts[caller];
                    let was = looked.accounts[created];
                    let is = started.journal.accounts[created];
                    &&& address == created
                    &&& gets + value <= u256_max()
                    &&& started.journal.logs == looked.logs
                    &&& started.journal.depth == looked.depth
                    &&& started.journal.accounts.contains_key(caller)
                    &&& started.journal.accounts.contains_key(created)
                    &&& has.fields.balance + value == had.fields.balance
                    &&& has.fields == (AccountFieldsView {
                        balance: has.fields.balance,
                        ..had.fields
                    })
                    &&& has.code == had.code
                    &&& has.storage == had.storage
                    &&& is.fields.balance == gets + value
                    &&& is.fields == (AccountFieldsView {
                        balance: is.fields.balance,
                        nonce: if spec_id.includes(SpecId::SPURIOUS_DRAGON) {
                            1
                        } else {
                            0
                        },
                        is_touched: true,
                        storage_cleared: true,
                        ..was.fields
                    })
                    &&& is.code == was.code
                    &&& is.storage == was.storage
                    &&& forall|a: Seq<u8>|
                        #![trigger started.journal.accounts.contains_key(a)]
                        #![trigger looked.accounts.contains_key(a)]
                        a != caller && a != created ==> {
                            &&& started.journal.accounts.contains_key(a)
                                == looked.accounts.contains_key(a)
                            &&& looked.accounts.contains_key(a) ==> started.journal.accounts[a]
                                == looked.accounts[a]
                        }
                },
                CreateStart::Refused { reason, address } => {
                    &&& reason == Return::OverflowPayment
                    &&& address == Some(created)
                    &&& gets + value > u256_max()
                },
            }
        }),
{
    let caller = inputs.caller@;
    let value = inputs.value@;
    load_account_brings(made.world(), caller);
    load_account_brings(made.world(), created);
    let (moved, r) = made.journal.move_value(caller, created, value);
    assert(made.world().transfer(caller, created, value) == (made.world().with(moved), r));
}

/// How a create begins. It is refused where more than 1024 calls and creates are under way, where
/// the caller has not the value or the highest nonce, where the account of the contract has code or
/// a nonce or is a precompile, where that account cannot take the value, and where the database
/// fails. Else it is let in, one deeper: the nonce of the caller is one higher, the value has gone
/// to the contract, which has no storage in the database and, since Spurious Dragon, the nonce one;
/// nothing else has changed since the accounts were loaded. Returns the journal with all accounts
/// loaded.
#[verifier::rlimit(60)]
pub proof fn create_begins<DB: Database>(
    before: DataView<DB>,
    inputs: CreateInputs,
    spec_id: SpecId,
    precompiles: Set<Seq<u8>>,
) -> (loaded: JournalView)
    ensures
        ({
            let (started, start) = before.start_create(inputs, spec_id, precompiles);
            let caller = inputs.caller@;
            let value = inputs.value@;
            let nonce = loaded.accounts[caller].fields.nonce;
            &&& start == (CreateStart::Refused { reason: Return::CallTooDeep, address: None })
                <==> before.journal.depth > 1024
            &&& match start {
                CreateStart::Refused { reason, address: None } => match reason {
                    Return::CallTooDeep => only_loads::<DB>(before.journal, started.journal),
                    Return::OutOfFund => {
                        &&& only_loads::<DB>(before.journal, started.journal)
                        &&& started.journal.accounts.contains_key(caller)
                        &&& started.journal.accounts[caller].fields.balance < value
                    },
                    Return::Return => {
                        &&& only_loads::<DB>(before.journal, started.journal)
                        &&& started.journal.accounts.contains_key(caller)
                        &&& started.journal.accounts[caller].fields.balance >= value
                        &&& started.journal.accounts[caller].fields.nonce == u64::MAX
                    },
                    Return::FatalExternalError => !is_sound(before.db),
                    _ => false,
                },
                CreateStart::Refused { reason, address: Some(address) } => {
                    &&& loaded.accounts.contains_key(caller)
                    &&& loaded.accounts[caller].fields.balance >= value
                    &&& nonce < u64::MAX
                    &&& is_address_of(address, inputs, nonce as nat)
                    &&& match reason {
                        Return::CreateCollision => {
                            let account = loaded.accounts[address];
                            &&& only_loads::<DB>(before.journal, loaded)
                            &&& loaded.accounts.contains_key(address)
                            &&& address == caller || account.code->0.bytes.len() > 0
                                || account.fields.nonce != 0 || precompiles.contains(address)
                        },
                        Return::OverflowPayment => {
                            &&& only_loads::<DB>(before.journal, loaded)
                            &&& loaded.accounts.contains_key(address)
                            &&& loaded.accounts[address].fields.balance + value > u256_max()
                        },
                        Return::FatalExternalError => !is_sound(before.db),
                        _ => false,
                    }
                },
                CreateStart::Entered { created, .. } => {
                    let account = loaded.accounts[created];
                    &&& before.journal.depth <= 1024
                    &&& only_loads::<DB>(before.journal, loaded)
                    &&& loaded.accounts.contains_key(caller)
                    &&& loaded.accounts.contains_key(created)
                    &&& loaded.accounts[caller].fields.balance >= value
                    &&& nonce < u64::MAX
                    &&& is_address_of(created, inputs, nonce as nat)
                    &&& created != caller
                    &&& account.code is Some
                    &&& account.code->0.bytes.len() == 0
                    &&& account.fields.nonce == 0
                    &&& !precompiles.contains(created)
                    &&& contract_is_opened(
                        loaded,
                        started.journal,
                        caller,
                        created,
                        value,
                        spec_id,
                    )
                    &&& started.journal.logs == before.journal.logs
                    &&& started.journal.depth == before.journal.depth + 1
                    &&& started.env == before.env
                },
            }
        }),
{
    let caller = inputs.caller@;
    let value = inputs.value@;
    let first = before.load_account(caller).0;
    let (funded, balance) = first.balance(caller);
    host_loads_account(before, caller);
    host_answers_balance(first, caller);
    load_account_follows(before, caller);
    balance_follows(first, caller);
    load_account_extends(first.world(), caller);
    only_loads_in_steps::<DB>(before.journal, first.journal, funded.journal);
    start_create_keeps(before, inputs, spec_id, precompiles);
    let nonce = funded.journal.accounts[caller].fields.nonce;
    let target = before.create_target(inputs);
    let loaded = create_loaded(before, inputs);
    if before.journal.depth <= 1024 && balance is Some && (balance->0).0 >= value && nonce
        < u64::MAX {
        lemma_create_loads(before, inputs);
        lemma_target(before, inputs);
        lemma_create_enters(before, inputs, spec_id, precompiles);
    }
    loaded
}

proof fn lemma_target<DB: Database>(before: DataView<DB>, inputs: CreateInputs)
    ensures
        is_address_of(
            before.create_target(inputs),
            inputs,
            before.load_account(inputs.caller@).0.balance(
                inputs.caller@,
            ).0.journal.accounts[inputs.caller@].fields.nonce as nat,
        ),
{
}

proof fn lemma_create_enters<DB: Database>(
    before: DataView<DB>,
    inputs: CreateInputs,
    spec_id: SpecId,
    precompiles: Set<Seq<u8>>,
)
    requires
        before.journal.depth <= 1024,
        before.load_account(inputs.caller@).0.journal.depth <= 1024,
        ({
            let (funded, balance) = before.load_account(inputs.caller@).0.balance(inputs.caller@);
            let account = funded.journal.accounts[inputs.caller@];
            &&& balance is Some
            &&& (balance->0).0 >= inputs.value@
            &&& (balance->0).0 == account.fields.balance
            &&& account.fields.nonce < u64::MAX
        }),
    ensures
        ({
            let (started, start) = before.start_create(inputs, spec_id, precompiles);
            let caller = inputs.caller@;
            let value = inputs.value@;
            let loaded = create_loaded(before, inputs);
            match start {
                CreateStart::Refused { reason, address: None } => false,
                CreateStart::Refused { reason, address: Some(address) } => {
                    &&& address == before.create_target(inputs)
                    &&& match reason {
                        Return::CreateCollision => {
                            let account = loaded.accounts[address];
                            &&& loaded.accounts.contains_key(address)
                            &&& address == caller || account.code->0.bytes.len() > 0
                                || account.fields.nonce != 0 || precompiles.contains(address)
                        },
                        Return::OverflowPayment => {
                            &&& loaded.accounts.contains_key(address)
                            &&& loaded.accounts[address].fields.balance + value > u256_max()
                        },
                        Return::FatalExternalError => !is_sound(before.db),
                        _ => false,
                    }
                },
                CreateStart::Entered { created, .. } => {
                    let account = loaded.accounts[created];
                    &&& created == before.create_target(inputs)
                    &&& loaded.accounts.contains_key(created)
                    &&& created != caller
                    &&& account.code is Some
                    &&& account.code->0.bytes.len() == 0
                    &&& account.fields.nonce == 0
                    &&& !precompiles.contains(created)
                    &&& contract_is_opened(
                        loaded,
                        started.journal,
                        caller,
                        created,
                        value,
                        spec_id,
                    )
                    &&& started.journal.logs == before.journal.logs
                    &&& started.journal.depth == before.journal.depth + 1
                    &&& started.env == before.env
                },
            }
        }),
{
    let caller = inputs.caller@;
    let target = before.create_target(inputs);
    let warm = before.warm_create(inputs);
    let begun = warm.with(warm.journal.checkpoint().0);
    let looked = looked_at(before, inputs);
    let loaded = create_loaded(before, inputs);
    lemma_create_loads(before, inputs);
    start_create_keeps(before, inputs, spec_id, precompiles);
    load_code_brings(begun.world(), target);
    room_is_made(begun.world(), target, precompiles.contains(target));
    create_account_extends(begun.world(), target, precompiles.contains(target));
    lemma_warm_is_sound(before, inputs);
    let (world, free) = begun.world().create_account(target, precompiles.contains(target));
    let (made, open) = begun.put(world).settle(free);
    if open == Some(true) {
        assert(target != caller);
        assert(made.journal == looked.journal.set_fields(
            target,
            AccountFieldsView {
                storage_cleared: true,
                ..looked.journal.accounts[target].fields
            },
        ));
        lemma_fund(
            made,
            looked.journal,
            inputs,
            spec_id,
            target,
            warm.journal.checkpoint().1,
        );
        assert(before.start_create(inputs, spec_id, precompiles) == made.fund_create(
            inputs,
            spec_id,
            target,
            warm.journal.checkpoint().1,
        ));
    }
}

proof fn lemma_warm_is_sound<DB: Database>(before: DataView<DB>, inputs: CreateInputs)
    ensures
        is_sound(before.db) ==> is_sound(before.warm_create(inputs).db),
{
    let caller = inputs.caller@;
    let first = before.load_account(caller).0;
    let funded = first.balance(caller).0;
    let raised = funded.with(funded.journal.inc_nonce(caller).0);
    load_account_follows(before, caller);
    balance_follows(first, caller);
    load_account_follows(raised, before.create_target(inputs));
}

/// A create that is not let in comes back with why, all its gas and no output, and runs nothing.
pub proof fn refused_create_runs_nothing<DB: Database, I: Interpreter>(
    rules: Rules,
    n: nat,
    is_static: bool,
    before: DataView<DB>,
    inputs: CreateInputs,
    told: Seq<Event<DB, I>>,
    after: DataView<DB>,
    announced: bool,
    address: Option<Seq<u8>>,
    end: End,
)
    requires
        creates::<DB, I>(
            rules,
            n,
            is_static,
            before,
            inputs,
            told,
            after,
            announced,
            address,
            end,
        ),
        before.start_create(inputs, rules.spec_id, rules.precompiles.dom()).1 is Refused,
    ensures
        ({
            let (started, start) = before.start_create(
                inputs,
                rules.spec_id,
                rules.precompiles.dom(),
            );
            &&& after == started
            &&& start == (CreateStart::Refused { reason: end.reason, address })
            &&& end.gas.limit == inputs.gas_limit
            &&& end.gas.spent == 0
            &&& end.gas.refunded == 0
            &&& end.output.len() == 0
            &&& told.len() == 0
            &&& !announced
        }),
{
    reveal(creates);
}

/// A create that is let in runs its init code: on a machine made for that code, as it is and
/// without input, for the new contract, by the caller and with the value of the create, with its
/// gas, and under the rules that it is made under. The address comes back. Returns what the machine
/// was made for, the machine, where it began, where the run ended and how.
pub proof fn create_runs_its_init_code<DB: Database, I: Interpreter>(
    rules: Rules,
    n: nat,
    is_static: bool,
    before: DataView<DB>,
    inputs: CreateInputs,
    told: Seq<Event<DB, I>>,
    after: DataView<DB>,
    announced: bool,
    address: Option<Seq<u8>>,
    end: End,
) -> (r: (ContractView, I, Moment<DB, I>, DataView<DB>, End))
    requires
        creates::<DB, I>(
            rules,
            n,
            is_static,
            before,
            inputs,
            told,
            after,
            announced,
            address,
            end,
        ),
        before.start_create(inputs, rules.spec_id, rules.precompiles.dom()).1 is Entered,
    ensures
        ({
            let (contract, made, begun, ran, exit) = r;
            let (started, start) = before.start_create(
                inputs,
                rules.spec_id,
                rules.precompiles.dom(),
            );
            let warm = before.warm_create(inputs).journal;
            let created = start->created;
            &&& address == Some(created)
            &&& contract.caller == inputs.caller@
            &&& contract.value == inputs.value@
            &&& contract.address == created
            &&& contract.input.len() == 0
            &&& contract.bytecode.bytes == inputs.init_code@
            &&& contract.bytecode.hash == if inputs.init_code@.len() == 0 {
                KECCAK_EMPTY@
            } else {
                keccak256_digest(inputs.init_code@)
            }
            &&& contract.bytecode.analysis is Raw
            &&& contract.bytecode.table.len() == 0
            &&& executes::<DB, I>(
                rules,
                n,
                is_static,
                is_static,
                contract,
                inputs.gas_limit,
                started,
                told,
                ran,
                exit,
            )
            &&& made.starts(contract, inputs.gas_limit, rules.spec_id, is_static)
            &&& begins_with(rules.watched, is_static, started, made, begun)
            &&& exists|m: nat|
                m <= n && #[trigger] runs(
                    rules,
                    m,
                    is_static,
                    inputs.gas_limit,
                    begun,
                    told,
                    ran,
                    exit,
                )
            &&& exit.gas.limit == inputs.gas_limit
            &&& exit.gas.spent <= exit.gas.limit
            &&& ran.journal.extends(warm.checkpoint().0)
            &&& ran.journal.accounts.contains_key(created)
            &&& (after, announced, end) == ran.finish_create::<I>(
                exit.reason,
                exit.gas,
                exit.output,
                rules.spec_id,
                created,
                warm.checkpoint().1,
            )
        }),
{
    let (started, start) = before.start_create(inputs, rules.spec_id, rules.precompiles.dom());
    start_create_keeps(before, inputs, rules.spec_id, rules.precompiles.dom());
    reveal(creates);
    let created = start->created;
    let checkpoint = start->Entered_checkpoint;
    let (ran, exit) = choose|ran: DataView<DB>, exit: End|
        executes::<DB, I>(
            rules,
            n,
            is_static,
            is_static,
            init_contract(inputs, created),
            inputs.gas_limit,
            started,
            told,
            ran,
            exit,
        ) && (after, announced, end) == #[trigger] ran.finish_create::<I>(
            exit.reason,
            exit.gas,
            exit.output,
            rules.spec_id,
            created,
            checkpoint,
        );
    let contract = init_contract(inputs, created);
    let (made, begun, m) = choose|made: I, begun: Moment<DB, I>, m: nat|
        {
            &&& #[trigger] within(m, n)
            &&& made.starts(contract, inputs.gas_limit, rules.spec_id, is_static)
            &&& #[trigger] is_begun(rules.watched, is_static, started, made, begun)
            &&& runs(rules, m, is_static, inputs.gas_limit, begun, told, ran, exit)
        };
    let warm = before.warm_create(inputs).journal;
    extends_in_steps(ran.journal, started.journal, warm.checkpoint().0);
    loaded_stays_loaded(ran.journal, started.journal, created);
    (contract, made, begun, ran, exit)
}

/// How a create ends once its init code has run, with the gas that it left.
///
/// Init code that failed fails the create, in the same way, with its output. Else what it returned
/// is deposited, for 200 gas a byte. That is refused where, since London, it begins with `0xEF`;
/// where, since Spurious Dragon, it is longer than the settings allow, or than `0x6000` bytes where
/// they do not say; and where, since Homestead, the gas does not suffice. Before Homestead a
/// contract that cannot pay is left without code, for nothing. A failed create undoes everything;
/// one that succeeds leaves the rest as the init code left it, and returns no output. An inspector
/// does not hear of the end where the deposit was refused.
#[verifier::rlimit(40)]
pub proof fn create_deposits<DB: Database, I: Interpreter>(
    before: DataView<DB>,
    ran: DataView<DB>,
    exit: End,
    spec_id: SpecId,
    created: Seq<u8>,
)
    requires
        ran.journal.extends(before.journal.checkpoint().0),
        ran.journal.accounts.contains_key(created),
        exit.output.len() * 200 <= u64::MAX,
        exit.gas.spent <= exit.gas.limit,
    ensures
        ({
            let (after, announced, end) = ran.finish_create::<I>(
                exit.reason,
                exit.gas,
                exit.output,
                spec_id,
                created,
                before.journal.checkpoint().1,
            );
            let is_ok = exit.reason is Continue || exit.reason is Stop || exit.reason is Return
                || exit.reason is SelfDestruct;
            let len = exit.output.len();
            let most = match ran.env.cfg.limit_contract_code_size {
                Some(limit) => limit as nat,
                None => 0x6000nat,
            };
            let starts_with_ef = spec_id.includes(SpecId::LONDON) && len > 0 && exit.output[0]
                == 0xEF;
            let is_too_long = spec_id.includes(SpecId::SPURIOUS_DRAGON) && len > most;
            let is_paid = exit.gas.limit - exit.gas.spent >= 200 * len;
            let succeeds = is_ok && !starts_with_ef && !is_too_long && (is_paid
                || !spec_id.includes(SpecId::HOMESTEAD));
            &&& after.env == ran.env
            &&& after.db == ran.db
            &&& after.error == ran.error
            &&& after.journal.depth + 1 == ran.journal.depth
            &&& !succeeds ==> {
                &&& after.journal.accounts == before.journal.accounts
                &&& after.journal.logs == before.journal.logs
                &&& end.gas == exit.gas
                &&& !end.reason.spec_is_ok()
            }
            &&& !is_ok ==> {
                &&& end.reason == exit.reason
                &&& end.output == exit.output
                &&& announced
            }
            &&& is_ok && !succeeds ==> {
                &&& end.output.len() == 0
                &&& !announced
                &&& end.reason == if starts_with_ef {
                    Return::CreateContractWithEF
                } else if is_too_long {
                    Return::CreateContractLimit
                } else {
                    Return::OutOfGas
                }
            }
            &&& succeeds ==> {
                let had = ran.journal.accounts[created];
                let has = after.journal.accounts[created];
                let code = if is_paid {
                    exit.output
                } else {
                    Seq::empty()
                };
                let kind = ran.env.cfg.perf_analyse_created_bytecodes;
                &&& end.reason == Return::Continue
                &&& end.output.len() == 0
                &&& announced
                &&& end.gas.limit == exit.gas.limit
                &&& end.gas.refunded == exit.gas.refunded
                &&& end.gas.spent == exit.gas.spent + if is_paid {
                    200 * len
                } else {
                    0
                }
                &&& after.journal.logs == ran.journal.logs
                &&& after.journal.accounts.contains_key(created)
                &&& has.fields.code_hash == if code.len() == 0 {
                    KECCAK_EMPTY@
                } else {
                    keccak256_digest(code)
                }
                &&& has.code matches Some(bytecode)
                &&& bytecode.bytes == code
                &&& bytecode.hash == has.fields.code_hash
                &&& bytecode.analysis == kind
                &&& bytecode.table == match kind {
                    AnalysisKind::Raw => Seq::empty(),
                    AnalysisKind::Check => I::checked(code),
                    AnalysisKind::Analyse => I::analysed(code, spec_id),
                }
                &&& has.fields.balance == had.fields.balance
                &&& has.fields.nonce == had.fields.nonce
                &&& has.fields.is_touched
                &&& has.fields.is_destroyed == had.fields.is_destroyed
                &&& has.fields.storage_cleared == had.fields.storage_cleared
                &&& has.storage == had.storage
                &&& forall|a: Seq<u8>|
                    a != created ==> {
                        &&& #[trigger] after.journal.accounts.contains_key(a)
                            == ran.journal.accounts.contains_key(a)
                        &&& ran.journal.accounts.contains_key(a) ==> after.journal.accounts[a]
                            == ran.journal.accounts[a]
                    }
            }
        }),
{
    finish_create_keeps::<DB, I>(
        before,
        ran,
        exit.reason,
        exit.gas,
        exit.output,
        spec_id,
        created,
    );
    let committed = ran.journal.commit();
    let kind = ran.env.cfg.perf_analyse_created_bytecodes;
    let code = if exit.gas.limit - exit.gas.spent >= 200 * exit.output.len() {
        exit.output
    } else {
        Seq::empty()
    };
    set_code_gives_code(committed, created, prepared_code::<I>(code, kind, spec_id));
}

} // verus!
