//! The addresses of new contracts.
use crate::hash::{
    keccak256, keccak256_digest, minimal_big_endian, rlp_append_address, rlp_append_u64, rlp_list,
    rlp_new_list, rlp_out, rlp_string,
};
use crate::primitives::{big_endian, u256_to_big_endian, H160, H256, U256};
use vstd::prelude::*;

verus! {

/// The address that a digest stands for: its last 20 bytes.
pub open spec fn address_of_digest(digest: Seq<u8>) -> Seq<u8> {
    digest.subrange(12, 32)
}

/// What the address of a contract created by `CREATE` is the hash of: the list of the caller and
/// its nonce.
pub open spec fn create_preimage(caller: Seq<u8>, nonce: nat) -> Seq<u8> {
    rlp_list(seq![rlp_string(caller), rlp_string(minimal_big_endian(nonce))])
}

/// What the address of a contract created by `CREATE2` is the hash of: the byte `0xff`, the
/// caller, the salt and the hash of the init code.
pub open spec fn create2_preimage(caller: Seq<u8>, code_hash: Seq<u8>, salt: nat) -> Seq<u8> {
    seq![0xffu8] + caller + big_endian(salt, 32) + code_hash
}

/// The address that a digest stands for: its last 20 bytes.
pub fn address_from_digest(digest: &H256) -> (r: H160)
    ensures
        r@ == address_of_digest(digest@),
{
    let mut address: H160 = [0; 20];
    let mut i: usize = 0;
    while i < 20
        invariant
            0 <= i <= 20,
            forall|j: int| 0 <= j < i ==> address[j] == digest[12 + j],
        decreases 20 - i,
    {
        address[i] = digest[12 + i];
        i += 1;
    }
    assert(address@ =~= address_of_digest(digest@));
    address
}

/// Appends the bytes of a slice.
fn append_bytes(out: &mut Vec<u8>, bytes: &[u8])
    ensures
        final(out)@ == old(out)@ + bytes@,
{
    out.extend_from_slice(bytes);
}

pub(crate) proof fn lemma_flatten_pair(a: Seq<u8>, b: Seq<u8>)
    ensures
        seq![a, b].flatten() == a + b,
{
    let items = seq![a, b];
    assert(items.drop_first() =~= seq![b]);
    assert(seq![b].drop_first() =~= Seq::<Seq<u8>>::empty());
    reveal_with_fuel(Seq::<_>::flatten, 3);
    assert(items.flatten() =~= a + b);
}

proof fn lemma_minimal_big_endian_len(n: nat, k: nat)
    requires
        n < vstd::arithmetic::power::pow(256, k),
    ensures
        minimal_big_endian(n).len() <= k,
    decreases k,
{
    reveal(vstd::arithmetic::power::pow);
    if n > 0 && k > 0 {
        lemma_minimal_big_endian_len(n / 256, (k - 1) as nat);
    }
}

pub(crate) proof fn lemma_nonce_len(nonce: u64)
    ensures
        minimal_big_endian(nonce as nat).len() <= 8,
{
    assert(vstd::arithmetic::power::pow(256, 8) == 0x1_0000_0000_0000_0000) by {
        reveal_with_fuel(vstd::arithmetic::power::pow, 9);
    }
    lemma_minimal_big_endian_len(nonce as nat, 8);
}

/// Returns the address for the `CREATE` scheme.
pub fn create_address(caller: H160, nonce: u64) -> (r: H160)
    ensures
        r@ == address_of_digest(keccak256_digest(create_preimage(caller@, nonce as nat))),
{
    let mut stream = rlp_new_list(2);
    rlp_append_address(&mut stream, &caller);
    rlp_append_u64(&mut stream, nonce);
    proof {
        let a = rlp_string(caller@);
        let b = rlp_string(minimal_big_endian(nonce as nat));
        assert(crate::hash::rlp_items(stream) =~= seq![a, b]);
        lemma_flatten_pair(a, b);
        lemma_nonce_len(nonce);
    }
    let out = rlp_out(stream);
    address_from_digest(&keccak256(out.as_slice()))
}

/// Returns the address for the `CREATE2` scheme.
pub fn create2_address(caller: H160, code_hash: H256, salt: U256) -> (r: H160)
    ensures
        r@ == address_of_digest(
            keccak256_digest(create2_preimage(caller@, code_hash@, salt@)),
        ),
{
    let temp = u256_to_big_endian(&salt);
    let mut data: Vec<u8> = Vec::new();
    data.push(0xff);
    append_bytes(&mut data, &caller);
    append_bytes(&mut data, &temp);
    append_bytes(&mut data, &code_hash);
    assert(data@ =~= create2_preimage(caller@, code_hash@, salt@));
    address_from_digest(&keccak256(data.as_slice()))
}

} // verus!
