//! What holds of every call and create: it keeps the journal, and if it fails it leaves nothing
//! behind.
use crate::data::DataView;
use crate::db::{is_sound, sound_answers, Database};
use crate::frames_model::{code_deposit, created_address, CallStart, CreateStart};
use crate::gas::GasView;
use crate::interpreter::{Interpreter, CALL_STACK_LIMIT};
use crate::journal_laws::{
    commit_extends, create_account_extends, extends_in_steps, extends_itself, inc_nonce_extends,
    load_account_extends, load_code_extends, loaded_stays_loaded, revert_restores,
    selfdestruct_extends, set_code_extends, sload_extends, sstore_extends, touch_extends,
    transfer_extends,
};
use crate::journal_model::{CheckpointView, JournalView};
use crate::models::{
    code_hash_of, prepared_code, BytecodeView, CallInputs, CreateInputs, LogView, Return,
};
use crate::precompiles::{PrecompileFailure, PrecompileOutputView};
use crate::spec_id::SpecId;
use vstd::prelude::*;

verus! {

/// Nothing done keeps everything.
pub proof fn follows_itself<DB: Database>(d: DataView<DB>)
    ensures
        d.follows(d),
{
    extends_itself(d.journal);
}

/// Two steps that keep the journal make one.
pub proof fn follows_in_steps<DB: Database>(c: DataView<DB>, b: DataView<DB>, a: DataView<DB>)
    requires
        c.follows(b),
        b.follows(a),
    ensures
        c.follows(a),
{
    extends_in_steps(c.journal, b.journal, a.journal);
}

/// Asking for the hash of a block keeps the journal.
pub proof fn block_hash_follows<DB: Database>(d: DataView<DB>, number: nat)
    ensures
        d.block_hash(number).0.follows(d),
{
    if is_sound(d.db) {
        sound_answers(d.db);
    }
    extends_itself(d.journal);
}

/// Loading an account keeps the journal, and no more than loads it.
pub proof fn load_account_follows<DB: Database>(d: DataView<DB>, address: Seq<u8>)
    ensures
        d.load_account(address).0.follows(d),
        d.load_account(address).0.journal.depth == d.journal.depth,
        d.load_account(address).1 is Some ==> d.load_account(address).0.journal.has(address),
{
    load_code_extends(d.world(), address);
}

/// Asking for a balance keeps the journal.
pub proof fn balance_follows<DB: Database>(d: DataView<DB>, address: Seq<u8>)
    ensures
        d.balance(address).0.follows(d),
        d.balance(address).0.journal.depth == d.journal.depth,
        d.balance(address).1 is Some ==> d.balance(address).0.journal.has(address),
{
    load_account_extends(d.world(), address);
}

/// Asking for code keeps the journal.
pub proof fn code_follows<DB: Database>(d: DataView<DB>, address: Seq<u8>)
    ensures
        d.code(address).0.follows(d),
        d.code(address).0.journal.depth == d.journal.depth,
        d.code(address).1 is Some ==> d.code(address).0.journal.has(address),
{
    load_code_extends(d.world(), address);
}

/// Asking for the hash of code keeps the journal.
pub proof fn code_hash_follows<DB: Database>(d: DataView<DB>, address: Seq<u8>, is_precompile: bool)
    ensures
        d.code_hash(address, is_precompile).0.follows(d),
{
    load_code_extends(d.world(), address);
}

/// Reading a slot keeps the journal.
pub proof fn host_sload_follows<DB: Database>(d: DataView<DB>, address: Seq<u8>, index: nat)
    ensures
        d.sload(address, index).0.follows(d),
{
    extends_itself(d.journal);
    if d.journal.has(address) {
        sload_extends(d.world(), address, index);
    }
}

/// Writing a slot keeps the journal.
pub proof fn host_sstore_follows<DB: Database>(
    d: DataView<DB>,
    address: Seq<u8>,
    index: nat,
    value: nat,
)
    ensures
        d.sstore(address, index, value).0.follows(d),
{
    extends_itself(d.journal);
    if d.journal.has(address) {
        sstore_extends(d.world(), address, index, value);
    }
}

/// A self-destruct keeps the journal.
pub proof fn host_selfdestruct_follows<DB: Database>(
    d: DataView<DB>,
    address: Seq<u8>,
    target: Seq<u8>,
)
    ensures
        d.selfdestruct(address, target).0.follows(d),
{
    extends_itself(d.journal);
    if d.journal.has(address) {
        selfdestruct_extends(d.world(), address, target);
    }
}

/// A call that is not let in leaves the journal as loading its code left it; one that is let in
/// has begun from there.
pub proof fn start_call_keeps<DB: Database>(d: DataView<DB>, inputs: CallInputs)
    ensures
        ({
            let coded = d.code(inputs.contract@).0;
            let (started, start) = d.start_call(inputs);
            match start {
                CallStart::Entered { checkpoint, .. } => {
                    &&& coded.journal.depth <= CALL_STACK_LIMIT
                    &&& checkpoint == coded.journal.checkpoint().1
                    &&& started.follows(coded.with(coded.journal.checkpoint().0))
                    &&& started.journal.depth == coded.journal.depth + 1
                },
                _ => {
                    &&& started.journal == coded.journal
                    &&& started.follows(d)
                },
            }
        }),
{
    let coded = d.code(inputs.contract@).0;
    code_follows(d, inputs.contract@);
    if d.code(inputs.contract@).1 is Some && coded.journal.depth <= CALL_STACK_LIMIT {
        let (journal, checkpoint) = coded.journal.checkpoint();
        let begun = coded.with(journal);
        let address = inputs.context.address@;
        let loaded = begun.load_account(address).0;
        let touched = if inputs.transfer.value@ == 0 {
            loaded.with(loaded.journal.touch(address))
        } else {
            begun
        };
        follows_itself(begun);
        load_account_follows(begun, address);
        touch_extends(loaded.journal, address);
        extends_in_steps(loaded.journal.touch(address), loaded.journal, journal);
        assert(touched.follows(begun));
        let source = inputs.transfer.source@;
        let target = inputs.transfer.target@;
        transfer_extends(touched.world(), source, target, inputs.transfer.value@);
        let moved = touched.put(
            touched.world().transfer(source, target, inputs.transfer.value@).0,
        );
        assert(moved.follows(touched));
        follows_in_steps(moved, touched, begun);
        revert_restores(coded.journal, moved.journal);
    }
}

/// When code has run, the journal is kept; and if the code failed, it is as it was before the
/// checkpoint.
pub proof fn finish_run_keeps<DB: Database>(
    before: DataView<DB>,
    ran: DataView<DB>,
    reason: Return,
)
    requires
        ran.journal.extends(before.journal.checkpoint().0),
    ensures
        ({
            let (begun, checkpoint) = before.journal.checkpoint();
            let finished = ran.finish_run(reason, checkpoint);
            &&& finished.journal.extends(before.journal)
            &&& finished.journal.depth + 1 == ran.journal.depth
            &&& !reason.spec_is_ok() ==> finished.journal.accounts == before.journal.accounts
            &&& !reason.spec_is_ok() ==> finished.journal.logs == before.journal.logs
            &&& !reason.spec_is_ok() ==> finished.journal.history == before.journal.history
        }),
{
    revert_restores(before.journal, ran.journal);
    commit_extends(before.journal, ran.journal);
    extends_itself(before.journal);
}

proof fn lemma_log_all_extends(j: JournalView, logs: Seq<LogView>)
    ensures
        j.log_all(logs).extends(j),
{
    extends_itself(j);
    assert(j.log_all(logs).logs.take(j.logs.len() as int) =~= j.logs);
}

/// When a precompile has run, the journal is kept; and if it failed, it is as it was before the
/// checkpoint.
pub proof fn finish_precompile_keeps<DB: Database>(
    before: DataView<DB>,
    ran: DataView<DB>,
    answer: Result<PrecompileOutputView, PrecompileFailure>,
    gas: GasView,
)
    requires
        ran.journal.extends(before.journal.checkpoint().0),
    ensures
        ({
            let (begun, checkpoint) = before.journal.checkpoint();
            let (finished, end) = ran.finish_precompile(answer, gas, checkpoint);
            &&& finished.journal.extends(before.journal)
            &&& finished.journal.depth + 1 == ran.journal.depth
            &&& !end.reason.spec_is_ok() ==> finished.journal.accounts == before.journal.accounts
            &&& !end.reason.spec_is_ok() ==> finished.journal.logs == before.journal.logs
            &&& !end.reason.spec_is_ok() ==> finished.journal.history == before.journal.history
        }),
{
    revert_restores(before.journal, ran.journal);
    extends_itself(before.journal);
    match answer {
        Ok(out) => {
            let logged = ran.journal.log_all(out.logs);
            lemma_log_all_extends(ran.journal, out.logs);
            extends_in_steps(logged, ran.journal, before.journal.checkpoint().0);
            commit_extends(before.journal, logged);
        },
        Err(_) => {},
    }
}

/// A create that is not let in keeps the journal; one that is let in has begun from where its
/// caller's nonce was raised and its address was loaded, and its account is loaded.
#[verifier::rlimit(40)]
pub proof fn start_create_keeps<DB: Database>(
    d: DataView<DB>,
    inputs: CreateInputs,
    spec_id: SpecId,
    precompiles: Set<Seq<u8>>,
)
    ensures
        ({
            let warm = d.warm_create(inputs);
            let (started, start) = d.start_create(inputs, spec_id, precompiles);
            match start {
                CreateStart::Entered { created: address, checkpoint } => {
                    &&& d.journal.depth <= CALL_STACK_LIMIT
                    &&& warm.follows(d)
                    &&& warm.journal.depth == d.journal.depth
                    &&& checkpoint == warm.journal.checkpoint().1
                    &&& started.follows(warm.with(warm.journal.checkpoint().0))
                    &&& started.journal.depth == d.journal.depth + 1
                    &&& started.journal.has(address)
                    &&& address == d.create_target(inputs)
                },
                CreateStart::Refused { reason, address } => {
                    &&& started.follows(d)
                    &&& address is Some ==> address == Some(d.create_target(inputs))
                    &&& address is Some && (is_sound(d.db) || !(reason is FatalExternalError))
                        ==> started.journal == warm.journal
                },
            }
        }),
{
    let caller = inputs.caller@;
    let loaded = d.load_account(caller).0;
    load_account_follows(d, caller);
    let (funded, balance) = loaded.balance(caller);
    balance_follows(loaded, caller);
    follows_in_steps(funded, loaded, d);
    if d.journal.depth <= CALL_STACK_LIMIT && balance is Some && (balance->0).0 >= inputs.value@ {
        let (raised, nonce) = funded.journal.inc_nonce(caller);
        inc_nonce_extends(funded.journal, caller);
        assert(funded.with(raised).follows(funded));
        follows_in_steps(funded.with(raised), funded, d);
        if nonce is Some {
            let address = created_address(inputs, (nonce->0 - 1) as nat);
            let warm = funded.with(raised).load_account(address).0;
            load_account_follows(funded.with(raised), address);
            follows_in_steps(warm, funded.with(raised), d);
            let (journal, checkpoint) = warm.journal.checkpoint();
            let begun = warm.with(journal);
            let taken = precompiles.contains(address);
            create_account_extends(begun.world(), address, taken);
            let (world, free) = begun.world().create_account(address, taken);
            let made = begun.put(world).settle(free).0;
            assert(made.follows(begun));
            revert_restores(warm.journal, made.journal);
            if free == Ok::<bool, DB::Error>(true) {
                fund_create_keeps(made, warm, inputs, spec_id, address);
            } else if free is Err {
                assert(made.journal.extends(warm.journal)) by {
                    commit_extends(warm.journal, made.journal);
                }
                extends_in_steps(made.journal, warm.journal, d.journal);
            }
        }
    }
}

proof fn fund_create_keeps<DB: Database>(
    made: DataView<DB>,
    warm: DataView<DB>,
    inputs: CreateInputs,
    spec_id: SpecId,
    address: Seq<u8>,
)
    requires
        made.follows(warm.with(warm.journal.checkpoint().0)),
        made.journal.depth == warm.journal.depth + 1,
        made.journal.has(address),
    ensures
        ({
            let (begun, checkpoint) = warm.journal.checkpoint();
            let (started, start) = made.fund_create(inputs, spec_id, address, checkpoint);
            match start {
                CreateStart::Entered { created: a, checkpoint: c } => {
                    &&& a == address
                    &&& c == checkpoint
                    &&& started.follows(warm.with(begun))
                    &&& started.journal.depth == warm.journal.depth + 1
                    &&& started.journal.has(address)
                },
                CreateStart::Refused { reason, address: a } => {
                    &&& started.journal == warm.journal
                    &&& started.follows(warm)
                    &&& a is Some ==> a == Some(address)
                },
            }
        }),
{
    let (begun, checkpoint) = warm.journal.checkpoint();
    let caller = inputs.caller@;
    transfer_extends(made.world(), caller, address, inputs.value@);
    let (world, r) = made.world().transfer(caller, address, inputs.value@);
    let moved = made.put(world);
    assert(moved.follows(made));
    follows_in_steps(moved, made, warm.with(begun));
    revert_restores(warm.journal, moved.journal);
    loaded_stays_loaded(moved.journal, made.journal, address);
    let raised = moved.journal.inc_nonce(address).0;
    inc_nonce_extends(moved.journal, address);
    assert(moved.with(raised).follows(moved));
    follows_in_steps(moved.with(raised), moved, warm.with(begun));
    loaded_stays_loaded(raised, moved.journal, address);
    revert_restores(warm.journal, raised);
    extends_itself(warm.journal);
}

/// When init code has run, the journal is kept; and if the create failed, it is as it was before
/// the checkpoint.
pub proof fn finish_create_keeps<DB: Database, I: Interpreter>(
    before: DataView<DB>,
    ran: DataView<DB>,
    reason: Return,
    gas: GasView,
    output: Seq<u8>,
    spec_id: SpecId,
    address: Seq<u8>,
)
    requires
        ran.journal.extends(before.journal.checkpoint().0),
    ensures
        ({
            let (begun, checkpoint) = before.journal.checkpoint();
            let (finished, _, end) = ran.finish_create::<I>(
                reason,
                gas,
                output,
                spec_id,
                address,
                checkpoint,
            );
            &&& finished.journal.extends(before.journal)
            &&& finished.journal.depth + 1 == ran.journal.depth
            &&& !end.reason.spec_is_ok() ==> finished.journal.accounts == before.journal.accounts
            &&& !end.reason.spec_is_ok() ==> finished.journal.logs == before.journal.logs
            &&& !end.reason.spec_is_ok() ==> finished.journal.history == before.journal.history
        }),
{
    let (begun, checkpoint) = before.journal.checkpoint();
    revert_restores(before.journal, ran.journal);
    commit_extends(before.journal, ran.journal);
    extends_itself(before.journal);
    let committed = ran.journal.commit();
    assert forall|bytecode: BytecodeView|
        #[trigger] committed.set_code(address, bytecode).extends(before.journal) by {
        set_code_extends(committed, address, bytecode);
        extends_in_steps(committed.set_code(address, bytecode), committed, before.journal);
    }
}

/// What a create deposits is admitted: since London it does not begin with `0xEF`, since Spurious
/// Dragon it is not too long, and since Homestead its deposit is paid, so that a contract is never
/// left without the code that its init code returned. The interpreter has prepared it as far as the
/// settings say.
pub proof fn deposited_code_is_admitted<DB: Database, I: Interpreter>(
    ran: DataView<DB>,
    reason: Return,
    gas: GasView,
    output: Seq<u8>,
    spec_id: SpecId,
    address: Seq<u8>,
    checkpoint: CheckpointView,
)
    requires
        ran.journal.has(address),
        ran.finish_create::<I>(
            reason,
            gas,
            output,
            spec_id,
            address,
            checkpoint,
        ).2.reason.spec_is_ok(),
    ensures
        ({
            let (after, announced, end) = ran.finish_create::<I>(
                reason,
                gas,
                output,
                spec_id,
                address,
                checkpoint,
            );
            let code = after.journal.accounts[address].code;
            &&& announced
            &&& reason.spec_is_ok()
            &&& code is Some
            &&& code->0 == prepared_code::<I>(
                code->0.bytes,
                ran.env.cfg.perf_analyse_created_bytecodes,
                spec_id,
            )
            &&& spec_id.includes(SpecId::LONDON) && output.len() > 0 ==> output[0] != 0xEF
            &&& spec_id.includes(SpecId::SPURIOUS_DRAGON) ==> output.len()
                <= ran.code_size_limit()
            &&& spec_id.includes(SpecId::HOMESTEAD) ==> code->0.bytes == output && end.gas
                == (GasView { spent: gas.spent + code_deposit(output.len()), ..gas })
            &&& code->0.bytes == output || code->0.bytes == Seq::<u8>::empty()
            &&& after.journal.accounts[address].fields.code_hash == code_hash_of(code->0.bytes)
        }),
{
}

} // verus!
