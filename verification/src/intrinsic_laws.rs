//! What holds of the cost of a transaction before anything is run.
use crate::models::Env;
use crate::primitives::{H160, U256};
use crate::spec_id::SpecId;
use crate::transact_model::{intrinsic_gas, listed_slots, zero_bytes};
use vstd::prelude::*;

verus! {

proof fn lemma_zero_bytes_are_counted(data: Seq<u8>)
    ensures
        zero_bytes(data) == data.to_multiset().count(0),
        zero_bytes(data) <= data.len(),
    decreases data.len(),
{
    broadcast use vstd::multiset::group_multiset_axioms;

    if data.len() == 0 {
        data.to_multiset_ensures();
        assert(!data.contains(0));
    } else {
        let shorter = data.drop_last();
        lemma_zero_bytes_are_counted(shorter);
        shorter.to_multiset_ensures();
        assert(shorter.push(data.last()) =~= data);
    }
}

proof fn lemma_slots_without(list: Seq<(H160, Vec<U256>)>, i: int)
    requires
        0 <= i < list.len(),
    ensures
        listed_slots(list) == listed_slots(list.remove(i)) + list[i].1@.len(),
    decreases list.len(),
{
    let shorter = list.drop_last();
    if i < list.len() - 1 {
        lemma_slots_without(shorter, i);
        assert(list.remove(i).drop_last() =~= shorter.remove(i));
    } else {
        assert(list.remove(i) =~= shorter);
    }
}

proof fn lemma_slots_in_any_order(a: Seq<(H160, Vec<U256>)>, b: Seq<(H160, Vec<U256>)>)
    requires
        a.to_multiset() == b.to_multiset(),
    ensures
        listed_slots(a) == listed_slots(b),
        a.len() == b.len(),
    decreases a.len(),
{
    a.to_multiset_ensures();
    b.to_multiset_ensures();
    if a.len() > 0 {
        let last = a.last();
        assert(a.contains(last));
        assert(a.to_multiset().count(last) > 0);
        assert(b.to_multiset().count(last) > 0);
        assert(b.contains(last));
        let i = choose|i: int| 0 <= i < b.len() && b[i] == last;
        lemma_slots_without(b, i);
        lemma_slots_without(a, a.len() - 1);
        assert(a.remove(a.len() - 1).to_multiset() == b.remove(i).to_multiset());
        lemma_slots_in_any_order(a.remove(a.len() - 1), b.remove(i));
    }
}

/// What a transaction costs before anything is run does not depend on the order of the bytes of its
/// data, nor on the order of its access list.
pub proof fn intrinsic_gas_in_any_order(env: Env, other: Env, spec_id: SpecId)
    requires
        other.tx.transact_to == env.tx.transact_to,
        other.tx.data@.to_multiset() == env.tx.data@.to_multiset(),
        other.tx.access_list@.to_multiset() == env.tx.access_list@.to_multiset(),
    ensures
        intrinsic_gas(other, spec_id) == intrinsic_gas(env, spec_id),
{
    env.tx.data@.to_multiset_ensures();
    other.tx.data@.to_multiset_ensures();
    lemma_zero_bytes_are_counted(env.tx.data@);
    lemma_zero_bytes_are_counted(other.tx.data@);
    lemma_slots_in_any_order(env.tx.access_list@, other.tx.access_list@);
}

proof fn lemma_one_zero_byte_less(data: Seq<u8>, i: int, byte: u8)
    requires
        0 <= i < data.len(),
        data[i] == 0,
        byte != 0,
    ensures
        zero_bytes(data.update(i, byte)) + 1 == zero_bytes(data),
    decreases data.len(),
{
    let shorter = data.drop_last();
    if i < data.len() - 1 {
        lemma_one_zero_byte_less(shorter, i, byte);
        assert(data.update(i, byte).drop_last() =~= shorter.update(i, byte));
    } else {
        assert(data.update(i, byte).drop_last() =~= shorter);
    }
}

/// A byte of data that is not zero costs more than one that is.
pub proof fn non_zero_byte_is_dearer(env: Env, other: Env, i: int, byte: u8, spec_id: SpecId)
    requires
        0 <= i < env.tx.data@.len(),
        env.tx.data@[i] == 0,
        byte != 0,
        other.tx.transact_to == env.tx.transact_to,
        other.tx.data@ == env.tx.data@.update(i, byte),
        other.tx.access_list@ == env.tx.access_list@,
    ensures
        intrinsic_gas(env, spec_id) < intrinsic_gas(other, spec_id),
{
    lemma_zero_bytes_are_counted(env.tx.data@);
    lemma_one_zero_byte_less(env.tx.data@, i, byte);
}

} // verus!
