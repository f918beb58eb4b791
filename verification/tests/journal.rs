use evm_impl::db::{Database, EmptyDB};
use evm_impl::journaled_state::JournaledState;
use evm_impl::models::{AccountInfo, Bytecode, Log, Return, KECCAK_EMPTY};
use evm_impl::primitives::{H160, H256, U256};

const A: H160 = [0xaa; 20];
const B: H160 = [0xbb; 20];

fn word(n: u64) -> U256 {
    U256::from_u64(n)
}

struct Hundred;

impl Database for Hundred {
    type Error = ();

    fn basic(&mut self, _address: H160) -> Result<Option<AccountInfo>, ()> {
        Ok(Some(AccountInfo {
            balance: word(100),
            nonce: 0,
            code_hash: KECCAK_EMPTY,
            code: None,
        }))
    }

    fn code_by_hash(&mut self, _hash: H256) -> Result<Bytecode, ()> {
        Err(())
    }

    fn storage(&mut self, _address: H160, _index: U256) -> Result<U256, ()> {
        Ok(word(50))
    }

    fn block_hash(&mut self, _number: U256) -> Result<H256, ()> {
        Err(())
    }
}

fn balance(journal: &JournaledState, address: H160) -> u64 {
    journal.account(&address).unwrap().info.balance.limbs[0]
}

#[test]
fn a_transfer_moves_value_and_keeps_the_sum() {
    let mut journal = JournaledState::new(0);
    assert_eq!(journal.transfer(&A, &B, word(30), &mut Hundred), Ok(()));
    assert_eq!((balance(&journal, A), balance(&journal, B)), (70, 130));
    assert_eq!(journal.transfer(&A, &A, word(70), &mut Hundred), Ok(()));
    assert_eq!(balance(&journal, A), 70);
    assert_eq!(journal.transfer(&A, &B, word(71), &mut Hundred), Err(Return::OutOfFund));
    assert_eq!((balance(&journal, A), balance(&journal, B)), (70, 130));
    assert!(journal.account(&A).unwrap().is_touched);
}

#[test]
fn a_revert_restores_everything() {
    let mut journal = JournaledState::new(0);
    journal.load_account(A, &mut Hundred).unwrap();
    journal.log(Log { address: A, topics: vec![], data: vec![1] });
    let checkpoint = journal.checkpoint();
    assert_eq!(journal.depth(), 1);
    journal.transfer(&A, &B, word(30), &mut Hundred).unwrap();
    journal.sstore(A, word(1), word(2), &mut Hundred).unwrap();
    journal.set_code(A, Bytecode::new_raw(vec![1, 2]));
    journal.inc_nonce(A).unwrap();
    journal.log(Log { address: A, topics: vec![], data: vec![2] });
    journal.selfdestruct(A, B, &mut Hundred).unwrap();
    journal.checkpoint_revert(checkpoint);
    assert_eq!(journal.depth(), 0);
    assert_eq!(journal.logs.len(), 1);
    assert!(!journal.is_loaded(&B));
    let account = journal.account(&A).unwrap();
    assert_eq!(account.info.balance.limbs[0], 100);
    assert_eq!(account.info.nonce, 0);
    assert_eq!(account.info.code_hash, KECCAK_EMPTY);
    assert!(account.info.code.is_none());
    assert!(account.storage.entries().is_empty());
    assert!(!account.is_touched && !account.is_destroyed);
}

#[test]
fn a_commit_can_be_undone_by_the_checkpoint_before_it() {
    let mut journal = JournaledState::new(0);
    let outer = journal.checkpoint();
    let _inner = journal.checkpoint();
    journal.transfer(&A, &B, word(30), &mut Hundred).unwrap();
    journal.checkpoint_commit();
    assert_eq!(balance(&journal, B), 130);
    journal.checkpoint_revert(outer);
    assert!(!journal.is_loaded(&A) && !journal.is_loaded(&B));
    assert_eq!(journal.depth(), 0);
}

#[test]
fn what_was_stored_is_loaded() {
    let mut journal = JournaledState::new(0);
    journal.load_account(A, &mut Hundred).unwrap();
    let (original, present, new, is_cold) =
        journal.sstore(A, word(1), word(7), &mut Hundred).unwrap();
    assert_eq!((original.limbs[0], present.limbs[0], new.limbs[0], is_cold), (50, 50, 7, true));
    let (value, is_cold) = journal.sload(A, word(1), &mut Hundred).unwrap();
    assert_eq!((value.limbs[0], is_cold), (7, false));
}

#[test]
fn a_new_account_has_no_storage() {
    let mut journal = JournaledState::new(0);
    assert_eq!(journal.create_account(A, false, &mut Hundred), Ok(true));
    assert_eq!(journal.sload(A, word(1), &mut Hundred).unwrap().0.limbs[0], 0);
}

#[test]
fn nothing_is_created_over_a_precompile_or_a_nonce() {
    let mut journal = JournaledState::new(0);
    assert_eq!(journal.create_account(A, true, &mut Hundred), Ok(false));
    journal.load_account(B, &mut Hundred).unwrap();
    assert_eq!(journal.inc_nonce(B), Some(1));
    assert_eq!(journal.create_account(B, false, &mut Hundred), Ok(false));
}

#[test]
fn the_highest_nonce_is_not_raised() {
    let mut journal = JournaledState::new(0);
    journal.load_account(A, &mut Hundred).unwrap();
    let mut fields = journal.account(&A).unwrap().fields();
    fields.nonce = u64::MAX;
    journal.set_fields(A, fields);
    assert_eq!(journal.inc_nonce(A), None);
    assert_eq!(journal.account(&A).unwrap().info.nonce, u64::MAX);
}

#[test]
fn only_touched_accounts_are_handed_over() {
    let mut journal = JournaledState::new(3);
    journal.load_account(A, &mut Hundred).unwrap();
    journal.load_account(B, &mut Hundred).unwrap();
    journal.touch(&B);
    journal.log(Log { address: A, topics: vec![], data: vec![1] });
    let (state, logs) = journal.finalize();
    assert_eq!(state.addresses(), vec![B]);
    assert_eq!(logs.len(), 1);
    assert!(!journal.is_loaded(&B));
    assert!(journal.logs.is_empty() && journal.journal.is_empty());
    assert_eq!(journal.num_of_precompiles, 3);
}

#[test]
fn precompiles_are_never_cold() {
    let mut journal = JournaledState::new(9);
    let mut precompile = [0; 20];
    precompile[19] = 9;
    assert_eq!(journal.load_account(precompile, &mut EmptyDB), Ok(false));
    precompile[19] = 10;
    assert_eq!(journal.load_account(precompile, &mut EmptyDB), Ok(true));
    precompile[19] = 0;
    assert_eq!(journal.load_account(precompile, &mut EmptyDB), Ok(true));
}
