//! What holds of every journal: changes can be undone, and a failed call leaves nothing behind.
use crate::db::{is_sound, sound_answers, Database};
use crate::journal_model::{at_most, rollback, undo, EntryView, JournalView, World};
use crate::models::{AccountInfoView, BytecodeView, LogView};
use crate::primitives::u256_max;
use crate::state::{AccountFieldsView, AccountView, StorageSlotView};
use vstd::prelude::*;

verus! {

/// Going back in two steps is going back in one.
pub proof fn rollback_in_steps(
    accounts: Map<Seq<u8>, AccountView>,
    history: Seq<EntryView>,
    m: nat,
    n: nat,
)
    requires
        n <= m <= history.len(),
    ensures
        rollback(accounts, history, n) == rollback(
            rollback(accounts, history, m),
            history.take(m as int),
            n,
        ),
    decreases history.len(),
{
    if history.len() == m {
        assert(history.take(m as int) =~= history);
    } else {
        rollback_in_steps(undo(accounts, history.last()), history.drop_last(), m, n);
        assert(history.drop_last().take(m as int) =~= history.take(m as int));
    }
}

/// A journal extends itself.
pub proof fn extends_itself(j: JournalView)
    ensures
        j.extends(j),
{
    assert(j.history.take(j.history.len() as int) =~= j.history);
    assert(j.logs.take(j.logs.len() as int) =~= j.logs);
}

/// What extends an extension extends the base.
pub proof fn extends_in_steps(c: JournalView, b: JournalView, a: JournalView)
    requires
        c.extends(b),
        b.extends(a),
    ensures
        c.extends(a),
{
    rollback_in_steps(c.accounts, c.history, b.history.len(), a.history.len());
    assert(c.history.take(a.history.len() as int) =~= b.history.take(a.history.len() as int));
    assert(c.logs.take(a.logs.len() as int) =~= b.logs.take(a.logs.len() as int));
}

/// One change that can be undone.
proof fn lemma_edit_extends(j: JournalView, account: AccountView, entry: EntryView)
    requires
        undo(j.edit(account, entry).accounts, entry) == j.accounts,
        j.touched(entry.account()) ==> account.fields.is_touched,
    ensures
        j.edit(account, entry).extends(j),
{
    let e = j.edit(account, entry);
    let n = j.history.len();
    assert(e.history.take(n as int) =~= j.history);
    assert(e.history.drop_last() =~= j.history);
    assert(rollback(j.accounts, j.history, n) == j.accounts);
    assert(rollback(e.accounts, e.history, n) == rollback(
        undo(e.accounts, e.history.last()),
        e.history.drop_last(),
        n,
    ));
    assert(e.logs.take(j.logs.len() as int) =~= j.logs);
}

/// Loading an account can be undone.
pub proof fn load_extends(j: JournalView, address: Seq<u8>, answer: Option<AccountInfoView>)
    requires
        !j.has(address),
    ensures
        j.load(address, answer).extends(j),
{
    let entry = EntryView::Loaded { address };
    let account = AccountView::from_answer(answer);
    assert(undo(j.edit(account, entry).accounts, entry) =~= j.accounts);
    lemma_edit_extends(j, account, entry);
}

/// A change of what an account has besides code and storage can be undone.
pub proof fn set_fields_extends(j: JournalView, address: Seq<u8>, fields: AccountFieldsView)
    requires
        j.has(address),
        j.touched(address) ==> fields.is_touched,
    ensures
        j.set_fields(address, fields).extends(j),
{
    let had = j.accounts[address];
    let entry = EntryView::Changed { address, had_fields: had.fields };
    let account = AccountView { fields, ..had };
    assert(undo(j.edit(account, entry).accounts, entry) =~= j.accounts);
    lemma_edit_extends(j, account, entry);
}

/// Touching an account can be undone.
pub proof fn touch_extends(j: JournalView, address: Seq<u8>)
    ensures
        j.touch(address).extends(j),
{
    if j.has(address) && !j.accounts[address].fields.is_touched {
        set_fields_extends(
            j,
            address,
            AccountFieldsView { is_touched: true, ..j.accounts[address].fields },
        );
    } else {
        extends_itself(j);
    }
}

/// A change of code can be undone.
pub proof fn cache_code_extends(j: JournalView, address: Seq<u8>, code: BytecodeView)
    requires
        j.has(address),
    ensures
        j.cache_code(address, code).extends(j),
{
    let had = j.accounts[address];
    let entry = EntryView::CodeChanged { address, had_code: had.code };
    let account = AccountView { code: Some(code), ..had };
    assert(undo(j.edit(account, entry).accounts, entry) =~= j.accounts);
    lemma_edit_extends(j, account, entry);
}

/// New code can be undone.
pub proof fn set_code_extends(j: JournalView, address: Seq<u8>, code: BytecodeView)
    ensures
        j.set_code(address, code).extends(j),
{
    if j.has(address) {
        let touched = j.touch(address);
        let coded = touched.cache_code(address, code);
        touch_extends(j, address);
        cache_code_extends(touched, address, code);
        set_fields_extends(
            coded,
            address,
            AccountFieldsView { code_hash: code.hash, ..coded.accounts[address].fields },
        );
        extends_in_steps(coded, touched, j);
        extends_in_steps(j.set_code(address, code), coded, j);
    } else {
        extends_itself(j);
    }
}

/// A change of a slot can be undone.
pub proof fn set_slot_extends(j: JournalView, address: Seq<u8>, index: nat, slot: StorageSlotView)
    requires
        j.has(address),
    ensures
        j.set_slot(address, index, slot).extends(j),
{
    let had = j.accounts[address];
    let entry = EntryView::SlotChanged {
        address,
        index,
        had_slot: crate::state::lookup(had.storage, index),
    };
    let account = AccountView { storage: had.storage.insert(index, slot), ..had };
    let back = undo(j.edit(account, entry).accounts, entry);
    assert(back[address].storage =~= had.storage);
    assert(back =~= j.accounts);
    lemma_edit_extends(j, account, entry);
}

/// A higher nonce can be undone.
pub proof fn inc_nonce_extends(j: JournalView, address: Seq<u8>)
    requires
        j.has(address),
    ensures
        j.inc_nonce(address).0.extends(j),
{
    let nonce = j.accounts[address].fields.nonce;
    if nonce == u64::MAX {
        extends_itself(j);
    } else {
        let touched = j.touch(address);
        touch_extends(j, address);
        set_fields_extends(
            touched,
            address,
            AccountFieldsView { nonce: (nonce + 1) as u64, ..touched.accounts[address].fields },
        );
        extends_in_steps(j.inc_nonce(address).0, touched, j);
    }
}

/// A log can be undone.
pub proof fn log_extends(j: JournalView, log: LogView)
    ensures
        j.log(log).extends(j),
{
    assert(j.history.take(j.history.len() as int) =~= j.history);
    assert(j.log(log).logs.take(j.logs.len() as int) =~= j.logs);
}

/// Moving value can be undone, also where it fails half-way.
pub proof fn move_value_extends(j: JournalView, from: Seq<u8>, to: Seq<u8>, value: nat)
    requires
        j.has(from),
        j.has(to),
    ensures
        j.move_value(from, to, value).0.extends(j),
{
    let source = j.touch(from);
    touch_extends(j, from);
    if source.balance(from) >= value {
        let left = (source.balance(from) - value) as nat;
        let debited = source.set_balance(from, left);
        set_fields_extends(
            source,
            from,
            AccountFieldsView { balance: left, ..source.accounts[from].fields },
        );
        extends_in_steps(debited, source, j);
        let target = debited.touch(to);
        touch_extends(debited, to);
        extends_in_steps(target, debited, j);
        let sum = target.balance(to) + value;
        if sum <= u256_max() {
            set_fields_extends(
                target,
                to,
                AccountFieldsView { balance: sum, ..target.accounts[to].fields },
            );
            extends_in_steps(target.set_balance(to, sum), target, j);
        }
    }
}

/// Destroying an account can be undone.
pub proof fn destroy_extends(j: JournalView, address: Seq<u8>, target: Seq<u8>)
    requires
        j.has(address),
        j.has(target),
    ensures
        j.destroy(address, target).extends(j),
{
    let balance = j.balance(address);
    let touched = j.touch(target);
    let sum = crate::primitives::u256_clamp(touched.balance(target) + balance);
    let credited = if address == target {
        j
    } else {
        touched.set_balance(target, sum)
    };
    if address == target {
        extends_itself(j);
    } else {
        touch_extends(j, target);
        set_fields_extends(
            touched,
            target,
            AccountFieldsView { balance: sum, ..touched.accounts[target].fields },
        );
        extends_in_steps(credited, touched, j);
    }
    set_fields_extends(
        credited,
        address,
        AccountFieldsView {
            balance: 0,
            is_destroyed: true,
            ..credited.accounts[address].fields
        },
    );
    extends_in_steps(j.destroy(address, target), credited, j);
}

proof fn lemma_rollback_keeps_no_more(
    accounts: Map<Seq<u8>, AccountView>,
    history: Seq<EntryView>,
    n: nat,
    address: Seq<u8>,
)
    requires
        rollback(accounts, history, n).contains_key(address),
    ensures
        accounts.contains_key(address),
    decreases history.len(),
{
    if history.len() > n {
        lemma_rollback_keeps_no_more(
            undo(accounts, history.last()),
            history.drop_last(),
            n,
            address,
        );
    }
}

/// An account that is loaded stays loaded.
pub proof fn loaded_stays_loaded(j: JournalView, base: JournalView, address: Seq<u8>)
    requires
        j.extends(base),
        base.has(address),
    ensures
        j.has(address),
{
    lemma_rollback_keeps_no_more(j.accounts, j.history, base.history.len(), address);
}

/// A failed call leaves nothing behind: whatever a call does after its checkpoint, reverting to
/// the checkpoint gives the accounts, the logs and the history as they were before the call; and
/// the depth, where the call left it as the checkpoint had it.
pub proof fn revert_restores(before: JournalView, after: JournalView)
    requires
        after.extends(before.checkpoint().0),
    ensures
        after.revert(before.checkpoint().1) == (JournalView {
            depth: (after.depth - 1) as nat,
            ..before
        }),
        after.depth == before.depth + 1 ==> after.revert(before.checkpoint().1) == before,
{
    let (begun, checkpoint) = before.checkpoint();
    assert(at_most(after.history, checkpoint.journal_i) == before.history);
    assert(at_most(after.logs, checkpoint.log_i) == before.logs);
}

/// A call that succeeds is a change like any other: it can be undone by the call around it.
pub proof fn commit_extends(before: JournalView, after: JournalView)
    requires
        after.extends(before.checkpoint().0),
    ensures
        after.commit().extends(before),
{
    assert forall|address: Seq<u8>| before.touched(address) implies after.commit().touched(
        address,
    ) by {
        assert(before.checkpoint().0.touched(address));
        assert(after.touched(address));
    }
}

/// Loading an account can be undone, and afterwards it is loaded unless the database failed.
pub proof fn load_account_extends<DB: Database>(w: World<DB>, address: Seq<u8>)
    ensures
        w.load_account(address).0.journal.extends(w.journal),
        w.load_account(address).1 is Ok ==> w.load_account(address).0.journal.has(address),
        is_sound(w.db) ==> w.load_account(address).1 is Ok && is_sound(
            w.load_account(address).0.db,
        ),
{
    if is_sound(w.db) {
        sound_answers(w.db);
    }
    extends_itself(w.journal);
    if !w.journal.has(address) {
        match w.db.answer_basic(address).0 {
            Ok(info) => load_extends(w.journal, address, info),
            Err(_) => {},
        }
    }
}

/// Loading code can be undone, and afterwards it is at hand unless the database failed.
pub proof fn load_code_extends<DB: Database>(w: World<DB>, address: Seq<u8>)
    ensures
        w.load_code(address).0.journal.extends(w.journal),
        w.load_code(address).1 is Ok ==> {
            &&& w.load_code(address).0.journal.has(address)
            &&& w.load_code(address).0.journal.accounts[address].code is Some
        },
        is_sound(w.db) ==> w.load_code(address).1 is Ok && is_sound(w.load_code(address).0.db),
{
    let (loaded, r) = w.load_account(address);
    load_account_extends(w, address);
    let account = loaded.journal.accounts[address];
    if is_sound(loaded.db) {
        sound_answers(loaded.db);
    }
    if r is Ok && account.code is None {
        if account.fields.code_hash == crate::models::KECCAK_EMPTY@ {
            let code = crate::models::raw_code(Seq::empty());
            cache_code_extends(loaded.journal, address, code);
            extends_in_steps(loaded.journal.cache_code(address, code), loaded.journal, w.journal);
        } else {
            match loaded.db.answer_code(account.fields.code_hash).0 {
                Ok(code) => {
                    cache_code_extends(loaded.journal, address, code);
                    extends_in_steps(
                        loaded.journal.cache_code(address, code),
                        loaded.journal,
                        w.journal,
                    );
                },
                Err(_) => {},
            }
        }
    }
}

/// A transfer can be undone, also where it fails half-way.
pub proof fn transfer_extends<DB: Database>(w: World<DB>, from: Seq<u8>, to: Seq<u8>, value: nat)
    ensures
        w.transfer(from, to, value).0.journal.extends(w.journal),
        w.transfer(from, to, value).1 is Ok ==> {
            &&& w.transfer(from, to, value).0.journal.has(from)
            &&& w.transfer(from, to, value).0.journal.has(to)
        },
        is_sound(w.db) ==> is_sound(w.transfer(from, to, value).0.db),
{
    let (w1, r1) = w.load_account(from);
    let (w2, r2) = w1.load_account(to);
    load_account_extends(w, from);
    load_account_extends(w1, to);
    extends_in_steps(w2.journal, w1.journal, w.journal);
    if r1 is Ok && r2 is Ok {
        loaded_stays_loaded(w2.journal, w1.journal, from);
        move_value_extends(w2.journal, from, to, value);
        let moved = w2.journal.move_value(from, to, value).0;
        extends_in_steps(moved, w2.journal, w.journal);
        loaded_stays_loaded(moved, w2.journal, from);
        loaded_stays_loaded(moved, w2.journal, to);
    }
}

/// Making room for a contract can be undone, and afterwards its account is loaded unless the
/// database failed.
pub proof fn create_account_extends<DB: Database>(w: World<DB>, address: Seq<u8>, taken: bool)
    ensures
        w.create_account(address, taken).0.journal.extends(w.journal),
        w.create_account(address, taken).1 is Ok ==> w.create_account(
            address,
            taken,
        ).0.journal.has(address),
        is_sound(w.db) ==> w.create_account(address, taken).1 is Ok && is_sound(
            w.create_account(address, taken).0.db,
        ),
{
    let (loaded, r) = w.load_code(address);
    load_code_extends(w, address);
    if r is Ok {
        let fields = AccountFieldsView {
            storage_cleared: true,
            ..loaded.journal.accounts[address].fields
        };
        set_fields_extends(loaded.journal, address, fields);
        extends_in_steps(loaded.journal.set_fields(address, fields), loaded.journal, w.journal);
    }
}

/// Reading a slot can be undone.
pub proof fn sload_extends<DB: Database>(w: World<DB>, address: Seq<u8>, index: nat)
    requires
        w.journal.has(address),
    ensures
        w.sload(address, index).0.journal.extends(w.journal),
        w.sload(address, index).1 is Ok ==> {
            &&& w.sload(address, index).0.journal.has(address)
            &&& w.sload(address, index).0.journal.accounts[address].storage.contains_key(index)
        },
        is_sound(w.db) ==> w.sload(address, index).1 is Ok && is_sound(
            w.sload(address, index).0.db,
        ),
{
    if is_sound(w.db) {
        sound_answers(w.db);
    }
    extends_itself(w.journal);
    let account = w.journal.accounts[address];
    if !account.storage.contains_key(index) {
        let answer = if account.fields.storage_cleared {
            Ok(0)
        } else {
            w.db.answer_storage(address, index).0
        };
        match answer {
            Ok(value) => set_slot_extends(
                w.journal,
                address,
                index,
                StorageSlotView { original_value: value, present_value: value },
            ),
            Err(_) => {},
        }
    }
}

/// Writing a slot can be undone.
pub proof fn sstore_extends<DB: Database>(w: World<DB>, address: Seq<u8>, index: nat, value: nat)
    requires
        w.journal.has(address),
    ensures
        w.sstore(address, index, value).0.journal.extends(w.journal),
        is_sound(w.db) ==> w.sstore(address, index, value).1 is Ok && is_sound(
            w.sstore(address, index, value).0.db,
        ),
{
    sload_extends(w, address, index);
    let (loaded, r) = w.sload(address, index);
    if r is Ok {
        let slot = StorageSlotView {
            present_value: value,
            ..loaded.journal.accounts[address].storage[index]
        };
        set_slot_extends(loaded.journal, address, index, slot);
        extends_in_steps(
            loaded.journal.set_slot(address, index, slot),
            loaded.journal,
            w.journal,
        );
    }
}

/// A self-destruct can be undone.
pub proof fn selfdestruct_extends<DB: Database>(w: World<DB>, address: Seq<u8>, target: Seq<u8>)
    requires
        w.journal.has(address),
    ensures
        w.selfdestruct(address, target).0.journal.extends(w.journal),
        is_sound(w.db) ==> w.selfdestruct(address, target).1 is Ok && is_sound(
            w.selfdestruct(address, target).0.db,
        ),
{
    let (loaded, r) = w.load_code(target);
    load_code_extends(w, target);
    loaded_stays_loaded(loaded.journal, w.journal, address);
    if r is Ok {
        destroy_extends(loaded.journal, address, target);
        extends_in_steps(loaded.journal.destroy(address, target), loaded.journal, w.journal);
    }
}

/// What is read of a slot is what was last written to it.
pub proof fn sload_after_sstore<DB: Database>(w: World<DB>, address: Seq<u8>, index: nat, value: nat)
    requires
        w.journal.has(address),
        w.sstore(address, index, value).1 is Ok,
    ensures
        w.sstore(address, index, value).0.sload(address, index) == (
            w.sstore(address, index, value).0,
            Ok::<(nat, bool), DB::Error>((value, false)),
        ),
{
    sload_extends(w, address, index);
}

/// A transfer neither makes nor burns value, and leaves the other accounts alone.
pub proof fn move_value_conserves(j: JournalView, from: Seq<u8>, to: Seq<u8>, value: nat)
    requires
        j.has(from),
        j.has(to),
        j.move_value(from, to, value).1 is Ok,
    ensures
        ({
            let after = j.move_value(from, to, value).0;
            &&& from == to ==> after.balance(from) == j.balance(from)
            &&& from != to ==> after.balance(from) + value == j.balance(from)
            &&& from != to ==> after.balance(to) == j.balance(to) + value
            &&& forall|other: Seq<u8>|
                other != from && other != to ==> #[trigger] crate::state::lookup(
                    after.accounts,
                    other,
                ) == crate::state::lookup(j.accounts, other)
        }),
{
}

} // verus!
