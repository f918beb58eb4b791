//! What each operation does to the accounts, the logs and the depth of a journal.
use crate::journal_laws::revert_restores;
use crate::journal_model::JournalView;
use crate::models::{BytecodeView, LogView, Return};
use crate::primitives::u256_max;
use crate::state::{touched_accounts, AccountFieldsView, AccountView};
use vstd::prelude::*;

verus! {

/// Everything but the account is as it was: the other accounts, the logs, the depth and the
/// settings.
pub open spec fn only_account_changed(
    before: JournalView,
    after: JournalView,
    address: Seq<u8>,
) -> bool {
    &&& after.logs == before.logs
    &&& after.depth == before.depth
    &&& after.is_before_spurious_dragon == before.is_before_spurious_dragon
    &&& after.num_of_precompiles == before.num_of_precompiles
    &&& forall|other: Seq<u8>|
        #![trigger after.accounts.contains_key(other)]
        #![trigger before.accounts.contains_key(other)]
        other != address ==> {
            &&& after.accounts.contains_key(other) == before.accounts.contains_key(other)
            &&& before.accounts.contains_key(other) ==> after.accounts[other]
                == before.accounts[other]
        }
}

/// A new journal has no accounts, no logs and nothing under way.
pub proof fn new_journal_is_blank(is_before_spurious_dragon: bool, precompiles: nat)
    ensures
        ({
            let j = JournalView::empty(is_before_spurious_dragon, precompiles);
            &&& forall|address: Seq<u8>| !#[trigger] j.accounts.contains_key(address)
            &&& j.logs.len() == 0
            &&& j.history.len() == 0
            &&& j.depth == 0
            &&& j.is_before_spurious_dragon == is_before_spurious_dragon
            &&& j.num_of_precompiles == precompiles
        }),
{
}

/// Touching marks a loaded account and changes nothing else of it; an account that is not loaded
/// stays so.
pub proof fn touch_marks(j: JournalView, address: Seq<u8>)
    ensures
        only_account_changed(j, j.touch(address), address),
        j.touch(address).accounts.contains_key(address) == j.accounts.contains_key(address),
        j.accounts.contains_key(address) ==> {
            let had = j.accounts[address];
            let has = j.touch(address).accounts[address];
            &&& has.fields.is_touched
            &&& has.fields.balance == had.fields.balance
            &&& has.fields.nonce == had.fields.nonce
            &&& has.fields.code_hash == had.fields.code_hash
            &&& has.fields.storage_cleared == had.fields.storage_cleared
            &&& has.fields.is_destroyed == had.fields.is_destroyed
            &&& has.fields.is_not_existing == had.fields.is_not_existing
            &&& has.code == had.code
            &&& has.storage == had.storage
        },
{
}

/// The nonce of a loaded account goes up by one, the new one comes back, and the account is
/// touched; the highest nonce stays, and nothing comes back.
pub proof fn inc_nonce_raises(j: JournalView, address: Seq<u8>)
    requires
        j.accounts.contains_key(address),
    ensures
        ({
            let (after, r) = j.inc_nonce(address);
            let had = j.accounts[address];
            let has = after.accounts[address];
            &&& only_account_changed(j, after, address)
            &&& after.accounts.contains_key(address)
            &&& has.fields.balance == had.fields.balance
            &&& has.fields.code_hash == had.fields.code_hash
            &&& has.fields.storage_cleared == had.fields.storage_cleared
            &&& has.fields.is_destroyed == had.fields.is_destroyed
            &&& has.fields.is_not_existing == had.fields.is_not_existing
            &&& has.code == had.code
            &&& has.storage == had.storage
            &&& if had.fields.nonce == 0xffff_ffff_ffff_ffff {
                &&& r is None
                &&& has == had
            } else {
                &&& has.fields.nonce == had.fields.nonce + 1
                &&& r == Some(has.fields.nonce)
                &&& has.fields.is_touched
            }
        }),
{
}

/// Setting the balance, or all that an account has besides code and storage, sets just that.
pub proof fn set_fields_sets(
    j: JournalView,
    address: Seq<u8>,
    fields: AccountFieldsView,
    balance: nat,
)
    requires
        j.accounts.contains_key(address),
    ensures
        only_account_changed(j, j.set_fields(address, fields), address),
        only_account_changed(j, j.set_balance(address, balance), address),
        j.set_fields(address, fields).accounts[address] == (AccountView {
            fields,
            ..j.accounts[address]
        }),
        j.set_balance(address, balance).accounts[address].fields.balance == balance,
        j.set_balance(address, balance).accounts[address] == (AccountView {
            fields: AccountFieldsView { balance, ..j.accounts[address].fields },
            ..j.accounts[address]
        }),
{
}

/// A credit adds to the balance of a loaded account, up to the largest word, and changes nothing
/// else.
pub proof fn credit_adds(j: JournalView, address: Seq<u8>, amount: nat)
    requires
        amount <= u256_max(),
    ensures
        ({
            let after = j.credit(address, amount);
            &&& only_account_changed(j, after, address)
            &&& after.accounts.contains_key(address) == j.accounts.contains_key(address)
            &&& j.accounts.contains_key(address) ==> {
                let had = j.accounts[address];
                let has = after.accounts[address];
                &&& has.fields == (AccountFieldsView { balance: has.fields.balance, ..had.fields })
                &&& has.code == had.code
                &&& has.storage == had.storage
                &&& had.fields.balance + amount <= u256_max() ==> has.fields.balance
                    == had.fields.balance + amount
                &&& had.fields.balance + amount > u256_max() ==> has.fields.balance == u256_max()
            }
        }),
{
}

/// Setting the code of a loaded account gives it the code and its hash and touches it, and leaves
/// the balance, the nonce and the storage.
pub proof fn set_code_gives_code(j: JournalView, address: Seq<u8>, code: BytecodeView)
    requires
        j.accounts.contains_key(address),
    ensures
        ({
            let after = j.set_code(address, code);
            let had = j.accounts[address];
            let has = after.accounts[address];
            &&& only_account_changed(j, after, address)
            &&& after.accounts.contains_key(address)
            &&& has.code == Some(code)
            &&& has.fields.code_hash == code.hash
            &&& has.fields.is_touched
            &&& has.fields.balance == had.fields.balance
            &&& has.fields.nonce == had.fields.nonce
            &&& has.fields.storage_cleared == had.fields.storage_cleared
            &&& has.fields.is_destroyed == had.fields.is_destroyed
            &&& has.fields.is_not_existing == had.fields.is_not_existing
            &&& has.storage == had.storage
        }),
{
}

/// Logs are appended in order, behind those that are there, and nothing else changes.
pub proof fn logs_are_appended(j: JournalView, log: LogView, logs: Seq<LogView>)
    ensures
        j.log(log).logs.len() == j.logs.len() + 1,
        j.log(log).logs.last() == log,
        forall|i: int| 0 <= i < j.logs.len() ==> j.log(log).logs[i] == #[trigger] j.logs[i],
        j.log(log).accounts == j.accounts,
        j.log(log).depth == j.depth,
        j.log_all(logs).logs.len() == j.logs.len() + logs.len(),
        forall|i: int| 0 <= i < j.logs.len() ==> j.log_all(logs).logs[i] == #[trigger] j.logs[i],
        forall|i: int|
            0 <= i < logs.len() ==> j.log_all(logs).logs[j.logs.len() + i] == #[trigger] logs[i],
        j.log_all(logs).accounts == j.accounts,
        j.log_all(logs).depth == j.depth,
{
}

/// A checkpoint goes one deeper, and a commit after it comes back and keeps what was done; a revert
/// comes back to the accounts and the logs of the checkpoint.
pub proof fn checkpoints_nest(j: JournalView, after: JournalView)
    requires
        after.extends(j.checkpoint().0),
    ensures
        j.checkpoint().0.depth == j.depth + 1,
        j.checkpoint().0.accounts == j.accounts,
        j.checkpoint().0.logs == j.logs,
        after.commit().depth + 1 == after.depth,
        after.commit().accounts == after.accounts,
        after.commit().logs == after.logs,
        after.revert(j.checkpoint().1).depth + 1 == after.depth,
        after.revert(j.checkpoint().1).accounts == j.accounts,
        after.revert(j.checkpoint().1).logs == j.logs,
{
    revert_restores(j, after);
}

/// What an account has of what it had, where value was moved, besides what else `marked` was
/// touched.
pub open spec fn account_after(
    had: AccountView,
    has: AccountView,
    is_source: bool,
    is_target: bool,
    is_marked: bool,
    value: nat,
) -> bool {
    let taken = if is_source {
        value
    } else {
        0
    };
    let given = if is_target {
        value
    } else {
        0
    };
    &&& has.fields.balance + taken == had.fields.balance + given
    &&& has.fields.is_touched == (had.fields.is_touched || is_source || is_target || is_marked)
    &&& has.fields.nonce == had.fields.nonce
    &&& has.fields.code_hash == had.fields.code_hash
    &&& has.fields.storage_cleared == had.fields.storage_cleared
    &&& has.fields.is_destroyed == had.fields.is_destroyed
    &&& has.fields.is_not_existing == had.fields.is_not_existing
    &&& has.code == had.code
    &&& has.storage == had.storage
}

/// Value moved between accounts that were loaded: what each account has afterwards.
pub open spec fn value_moved(
    loaded: JournalView,
    after: JournalView,
    source: Seq<u8>,
    target: Seq<u8>,
    value: nat,
    marked: Set<Seq<u8>>,
) -> bool {
    forall|a: Seq<u8>|
        #![trigger after.accounts.contains_key(a)]
        #![trigger loaded.accounts.contains_key(a)]
        {
            &&& after.accounts.contains_key(a) == loaded.accounts.contains_key(a)
            &&& loaded.accounts.contains_key(a) ==> account_after(
                loaded.accounts[a],
                after.accounts[a],
                a == source,
                a == target,
                marked.contains(a),
                value,
            )
        }
}

/// A transfer between two loaded accounts succeeds if and only if the first has the value and the
/// second can take it. It then takes the value from the first and gives it to the second, touches
/// both, and changes nothing else of them.
pub proof fn move_value_moves(j: JournalView, from: Seq<u8>, to: Seq<u8>, value: nat)
    requires
        j.accounts.contains_key(from),
        j.accounts.contains_key(to),
    ensures
        ({
            let (after, r) = j.move_value(from, to, value);
            let source = j.accounts[from].fields.balance;
            let target = if from == to {
                (source - value) as nat
            } else {
                j.accounts[to].fields.balance
            };
            &&& r == Err::<(), Return>(Return::OutOfFund) <==> source < value
            &&& r == Err::<(), Return>(Return::OverflowPayment) <==> source >= value && target
                + value > u256_max()
            &&& r is Ok <==> source >= value && target + value <= u256_max()
            &&& r is Ok ==> {
                &&& after.logs == j.logs
                &&& after.depth == j.depth
                &&& after.is_before_spurious_dragon == j.is_before_spurious_dragon
                &&& after.num_of_precompiles == j.num_of_precompiles
                &&& value_moved(j, after, from, to, value, Set::empty())
            }
        }),
{
}

/// A destroyed account is marked and has no balance left; another account that it names has all of
/// it on top of its own, up to the largest word, and is touched. Nothing else changes.
pub proof fn destroy_moves_the_balance(j: JournalView, address: Seq<u8>, target: Seq<u8>)
    requires
        j.accounts.contains_key(address),
        j.accounts.contains_key(target),
    ensures
        ({
            let after = j.destroy(address, target);
            let had = j.accounts[address];
            let has = after.accounts[address];
            &&& after.logs == j.logs
            &&& after.depth == j.depth
            &&& after.accounts.contains_key(address)
            &&& has.fields.balance == 0
            &&& has.fields.is_destroyed
            &&& has.fields.nonce == had.fields.nonce
            &&& has.fields.code_hash == had.fields.code_hash
            &&& has.fields.is_touched == had.fields.is_touched
            &&& has.code == had.code
            &&& has.storage == had.storage
            &&& address != target ==> {
                let sum = had.fields.balance + j.accounts[target].fields.balance;
                let other = after.accounts[target];
                &&& after.accounts.contains_key(target)
                &&& sum <= u256_max() ==> other.fields.balance == sum
                &&& sum > u256_max() ==> other.fields.balance == u256_max()
                &&& other.fields.is_touched
                &&& other.fields.is_destroyed == j.accounts[target].fields.is_destroyed
                &&& other.fields.nonce == j.accounts[target].fields.nonce
                &&& other.fields.code_hash == j.accounts[target].fields.code_hash
                &&& other.code == j.accounts[target].code
                &&& other.storage == j.accounts[target].storage
            }
            &&& forall|a: Seq<u8>|
                a != address && a != target ==> {
                    &&& #[trigger] after.accounts.contains_key(a) == j.accounts.contains_key(a)
                    &&& j.accounts.contains_key(a) ==> after.accounts[a] == j.accounts[a]
                }
        }),
{
}

/// What is handed over at the end are the touched accounts, just as they are.
pub proof fn touched_accounts_are_as_they_are(accounts: Map<Seq<u8>, AccountView>, address: Seq<u8>)
    ensures
        touched_accounts(accounts).contains_key(address) <==> accounts.contains_key(address)
            && accounts[address].fields.is_touched,
        touched_accounts(accounts).contains_key(address) ==> touched_accounts(accounts)[address]
            == accounts[address],
{
}

} // verus!
