use evm_impl::gas::Gas;
use evm_impl::models::{Bytecode, ExecutionResult, Return, TransactOut, KECCAK_EMPTY};
use evm_impl::primitives::{same_address, same_hash, U256};
use evm_impl::spec_id::{BerlinSpec, FrontierSpec, LatestSpec, LondonSpec, Spec, SpecId};

const MAX: U256 = U256 { limbs: [u64::MAX; 4] };

fn word(n: u64) -> U256 {
    U256::from_u64(n)
}

#[test]
fn words_add_and_multiply_up_to_the_largest() {
    assert_eq!(word(3).saturating_add(word(4)).limbs, [7, 0, 0, 0]);
    assert_eq!(word(u64::MAX).saturating_add(word(1)).limbs, [0, 1, 0, 0]);
    assert_eq!(MAX.saturating_add(word(1)).limbs, MAX.limbs);
    assert_eq!(word(1 << 63).saturating_mul(word(4)).limbs, [0, 2, 0, 0]);
    assert_eq!(MAX.saturating_mul(word(2)).limbs, MAX.limbs);
    assert_eq!(MAX.saturating_mul(word(1)).limbs, MAX.limbs);
}

#[test]
fn words_are_ordered_by_value() {
    let big = U256 { limbs: [0, 0, 0, 1] };
    assert_eq!(big.min(word(9)).limbs, [9, 0, 0, 0]);
    assert_eq!(word(9).min(big).limbs, [9, 0, 0, 0]);
    assert!(U256::zero().is_zero());
    assert!(!big.is_zero());
    assert!(big.equals(&U256 { limbs: [0, 0, 0, 1] }));
    assert!(!big.equals(&word(1)));
    assert_eq!(U256::max_value().limbs, MAX.limbs);
}

#[test]
fn addresses_and_hashes_are_compared_byte_by_byte() {
    let mut a = [3; 20];
    assert!(same_address(&a, &[3; 20]));
    a[19] = 4;
    assert!(!same_address(&a, &[3; 20]));
    let mut h = [3; 32];
    assert!(same_hash(&h, &[3; 32]));
    h[31] = 4;
    assert!(!same_hash(&h, &[3; 32]));
}

#[test]
fn gas_is_charged_up_to_the_limit() {
    let mut gas = Gas::new(100);
    assert_eq!((gas.limit(), gas.spend(), gas.remaining(), gas.refunded()), (100, 0, 100, 0));
    assert!(gas.record_cost(60));
    assert!(!gas.record_cost(41));
    assert_eq!((gas.spend(), gas.remaining()), (60, 40));
    assert!(gas.record_cost(40));
    assert_eq!(gas.remaining(), 0);
    gas.erase_cost(30);
    assert_eq!(gas.remaining(), 30);
    gas.record_refund(7);
    gas.record_refund(-9);
    assert_eq!(gas.refunded(), -2);
}

#[test]
fn gas_after_an_execution_is_held_to_the_limit() {
    let gas = Gas::after(10, 11, 3);
    assert_eq!((gas.spend(), gas.remaining(), gas.refunded()), (10, 0, 3));
    let gas = Gas::after(10, 4, -1);
    assert_eq!((gas.spend(), gas.remaining(), gas.refunded()), (4, 6, -1));
}

#[test]
fn forks_come_one_after_the_other() {
    assert!(FrontierSpec::enabled(SpecId::FRONTIER));
    assert!(!FrontierSpec::enabled(SpecId::HOMESTEAD));
    assert!(BerlinSpec::enabled(SpecId::ISTANBUL));
    assert!(!BerlinSpec::enabled(SpecId::LONDON));
    assert!(LondonSpec::enabled(SpecId::LONDON));
    assert!(LatestSpec::enabled(SpecId::MERGE));
}

#[test]
fn results_are_grouped() {
    for ok in [Return::Continue, Return::Stop, Return::Return, Return::SelfDestruct] {
        assert!(ok.is_ok() && !ok.is_revert());
    }
    for revert in [Return::Revert, Return::CallTooDeep, Return::OutOfFund] {
        assert!(!revert.is_ok() && revert.is_revert());
    }
    for halt in [Return::OutOfGas, Return::FatalExternalError, Return::CreateCollision] {
        assert!(!halt.is_ok() && !halt.is_revert());
    }
}

#[test]
fn a_refusal_has_nothing_in_it() {
    let result = ExecutionResult::new_with_reason(Return::OutOfGas);
    assert_eq!(result.exit_reason, Return::OutOfGas);
    assert!(matches!(result.out, TransactOut::Nothing));
    assert_eq!((result.gas_used, result.gas_refunded), (0, 0));
    assert!(result.logs.is_empty());
}

#[test]
fn code_is_known_by_its_hash() {
    assert_eq!(Bytecode::new_raw(vec![]).hash, KECCAK_EMPTY);
    assert_eq!(
        Bytecode::new_raw(vec![0]).hash[..4],
        [0xbc, 0x36, 0x78, 0x9e]
    );
}
