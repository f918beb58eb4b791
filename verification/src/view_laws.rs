//! What the values that contracts speak of hold: all of it, and nothing else.
use crate::data::EVMData;
use crate::db::{Database, EmptyDB};
use crate::hash::keccak256_digest;
use crate::interpreter::Contract;
use crate::journaled_state::JournaledState;
use crate::models::{AccountInfo, Bytecode, Log};
use crate::precompiles::PrecompileOutput;
use crate::primitives::{big_endian, H160, U256};
use crate::state::{slots_map, Account, AccountFields, StorageSlot, StorageSlotView};
use vstd::prelude::*;

verus! {

/// The value of code: its bytes, its hash, and how it is prepared.
pub proof fn bytecode_shows_all(code: Bytecode)
    ensures
        code@.bytes == code.bytes@,
        code@.hash == code.hash@,
        code@.analysis == code.analysis,
        code@.table == code.table@,
{
}

/// The value of what code is run with.
pub proof fn contract_shows_all(contract: Contract)
    ensures
        contract@.input == contract.input@,
        contract@.bytecode == contract.bytecode@,
        contract@.address == contract.address@,
        contract@.caller == contract.caller@,
        contract@.value == contract.value@,
{
}

/// The value of a log.
pub proof fn log_shows_all(log: Log)
    ensures
        log@.address == log.address@,
        log@.topics == log.topics@,
        log@.data == log.data@,
{
}

/// The value of what a precompile returned: its cost, its output and its logs, each.
pub proof fn precompile_output_shows_all(out: PrecompileOutput)
    ensures
        out@.cost == out.cost,
        out@.output == out.output@,
        out@.logs.len() == out.logs@.len(),
        forall|i: int| 0 <= i < out.logs@.len() ==> out@.logs[i] == (#[trigger] out.logs@[i])@,
{
}

/// The value of an account, of what is known of one, and of a slot.
pub proof fn account_shows_all(
    account: Account,
    info: AccountInfo,
    fields: AccountFields,
    slot: StorageSlot,
)
    ensures
        account@.fields.balance == account.info.balance@,
        account@.fields.nonce == account.info.nonce,
        account@.fields.code_hash == account.info.code_hash@,
        account@.fields.storage_cleared == account.storage_cleared,
        account@.fields.is_destroyed == account.is_destroyed,
        account@.fields.is_touched == account.is_touched,
        account@.fields.is_not_existing == account.is_not_existing,
        account@.code is Some <==> account.info.code is Some,
        account.info.code is Some ==> account@.code->0 == account.info.code->0@,
        account@.storage == account.storage@,
        info@.balance == info.balance@,
        info@.nonce == info.nonce,
        info@.code_hash == info.code_hash@,
        info@.code is Some <==> info.code is Some,
        info.code is Some ==> info@.code->0 == info.code->0@,
        fields@.balance == fields.balance@,
        fields@.nonce == fields.nonce,
        fields@.code_hash == fields.code_hash@,
        fields@.storage_cleared == fields.storage_cleared,
        fields@.is_destroyed == fields.is_destroyed,
        fields@.is_touched == fields.is_touched,
        fields@.is_not_existing == fields.is_not_existing,
        slot@.original_value == slot.original_value@,
        slot@.present_value == slot.present_value@,
{
}

/// The value of a journal, and of what a transaction works on.
pub proof fn data_shows_all<'a, DB: Database>(journal: JournaledState, data: EVMData<'a, DB>)
    ensures
        journal@.accounts == journal.state@,
        journal@.logs.len() == journal.logs@.len(),
        forall|i: int|
            0 <= i < journal.logs@.len() ==> journal@.logs[i] == (#[trigger] journal.logs@[i])@,
        journal@.depth == journal.depth,
        journal@.history.len() == journal.journal@.len(),
        journal@.is_before_spurious_dragon == journal.is_before_spurious_dragon,
        journal@.num_of_precompiles == journal.num_of_precompiles,
        data@.env == *old(data.env),
        data@.journal == data.journaled_state@,
        data@.db == *old(data.db),
        data@.error == data.error,
{
}

/// Words have the same value if and only if they have the same limbs, and the limbs count from the
/// least significant.
pub proof fn word_shows_all(a: U256, b: U256)
    ensures
        a@ == b@ <==> a.limbs@ == b.limbs@,
        a@ % 0x1_0000_0000_0000_0000 == a.limbs[0],
        a.limbs[3] < b.limbs[3] ==> a@ < b@,
{
    if a@ == b@ {
        assert(a.limbs@ =~= b.limbs@);
    }
}

/// Of the slots in a list, a later one hides an earlier one with its index.
pub proof fn later_slot_hides_earlier(slots: Seq<(U256, StorageSlot)>, index: U256, slot: StorageSlot)
    ensures
        slots_map(slots.push((index, slot))) == slots_map(slots).insert(index@, slot@),
        slots_map(Seq::empty()) == Map::<nat, StorageSlotView>::empty(),
{
    assert(slots.push((index, slot)).drop_last() =~= slots);
}

/// An empty database knows no account, has empty code for every hash and zero in every slot, and
/// hashes the number of a block for its hash; it stays as it is.
pub proof fn empty_db_knows_nothing(db: EmptyDB, address: H160, hash: Seq<u8>, index: nat)
    ensures
        db.answer_basic(address@).0 matches Ok(None),
        db.answer_code(hash).0 matches Ok(code) && code.bytes.len() == 0 && code.table.len() == 0,
        db.answer_storage(address@, index).0 matches Ok(value) && value == 0,
        db.answer_block_hash(index).0 matches Ok(digest) && digest == keccak256_digest(
            big_endian(index, 32),
        ),
        db.answer_basic(address@).1 == db,
        db.answer_code(hash).1 == db,
        db.answer_storage(address@, index).1 == db,
        db.answer_block_hash(index).1 == db,
{
}

} // verus!
