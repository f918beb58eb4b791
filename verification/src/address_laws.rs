//! What holds of the addresses of new contracts: what is hashed, and that no two creates hash the
//! same bytes.
use crate::address::{address_of_digest, create2_preimage, create_preimage};
use crate::hash::{keccak256_digest, minimal_big_endian, rlp_string};
use crate::models::{code_hash_of, KECCAK_EMPTY};
use crate::primitives::{big_endian, u256_max};
use vstd::arithmetic::div_mod::{lemma_div_denominator, lemma_fundamental_div_mod};
use vstd::arithmetic::power::{lemma_pow_positive, pow};
use vstd::prelude::*;

verus! {

proof fn lemma_minimal_big_endian_injective(m: nat, n: nat)
    requires
        minimal_big_endian(m) == minimal_big_endian(n),
    ensures
        m == n,
    decreases m,
{
    let a = minimal_big_endian(m);
    let b = minimal_big_endian(n);
    if m > 0 && n > 0 {
        assert(a.last() == (m % 256) as u8);
        assert(b.last() == (n % 256) as u8);
        assert(a.drop_last() =~= minimal_big_endian(m / 256));
        assert(b.drop_last() =~= minimal_big_endian(n / 256));
        lemma_minimal_big_endian_injective(m / 256, n / 256);
        lemma_fundamental_div_mod(m as int, 256);
        lemma_fundamental_div_mod(n as int, 256);
    } else {
        assert(m > 0 ==> a.len() > 0);
        assert(n > 0 ==> b.len() > 0);
    }
}

proof fn lemma_rlp_string_injective(a: Seq<u8>, b: Seq<u8>)
    requires
        a.len() <= 55,
        b.len() <= 55,
        rlp_string(a) == rlp_string(b),
    ensures
        a == b,
{
    let x = rlp_string(a);
    let y = rlp_string(b);
    let a_is_short = a.len() == 1 && a[0] < 0x80;
    let b_is_short = b.len() == 1 && b[0] < 0x80;
    if !a_is_short {
        assert(x[0] == (0x80 + a.len()) as u8);
        assert(x.skip(1) =~= a);
    }
    if !b_is_short {
        assert(y[0] == (0x80 + b.len()) as u8);
        assert(y.skip(1) =~= b);
    }
}

proof fn lemma_pow_256_32()
    ensures
        u256_max() < pow(256, 32),
{
    reveal_with_fuel(pow, 33);
}

proof fn lemma_big_endian_step(value: nat, len: nat)
    ensures
        big_endian(value, len + 1) == big_endian(value / 256, len).push((value % 256) as u8),
{
    let whole = big_endian(value, len + 1);
    let parts = big_endian(value / 256, len).push((value % 256) as u8);
    assert forall|i: int| 0 <= i < len + 1 implies whole[i] == parts[i] by {
        let k = (len - i) as nat;
        reveal(pow);
        if i < len {
            lemma_pow_positive(256, (k - 1) as nat);
            lemma_div_denominator(value as int, 256, pow(256, (k - 1) as nat));
        }
    }
    assert(whole =~= parts);
}

proof fn lemma_big_endian_injective(a: nat, b: nat, len: nat)
    requires
        a < pow(256, len),
        b < pow(256, len),
        big_endian(a, len) == big_endian(b, len),
    ensures
        a == b,
    decreases len,
{
    reveal(pow);
    if len > 0 {
        let n = (len - 1) as nat;
        lemma_big_endian_step(a, n);
        lemma_big_endian_step(b, n);
        let x = big_endian(a, len);
        let y = big_endian(b, len);
        assert(x.last() == (a % 256) as u8);
        assert(y.last() == (b % 256) as u8);
        assert(x.drop_last() =~= big_endian(a / 256, n));
        assert(y.drop_last() =~= big_endian(b / 256, n));
        lemma_fundamental_div_mod(a as int, 256);
        lemma_fundamental_div_mod(b as int, 256);
        lemma_big_endian_injective(a / 256, b / 256, n);
    }
}

proof fn lemma_create_preimage(caller: Seq<u8>, nonce: u64)
    requires
        caller.len() == 20,
    ensures
        ({
            let last = rlp_string(minimal_big_endian(nonce as nat));
            let preimage = create_preimage(caller, nonce as nat);
            &&& minimal_big_endian(nonce as nat).len() <= 8
            &&& 1 <= last.len() <= 9
            &&& preimage.len() == 22 + last.len()
            &&& preimage[0] == (0xc0 + 21 + last.len()) as u8
            &&& preimage.subrange(2, 22) == caller
            &&& preimage.skip(22) == last
        }),
{
    let first = rlp_string(caller);
    let last = rlp_string(minimal_big_endian(nonce as nat));
    crate::address::lemma_nonce_len(nonce);
    crate::address::lemma_flatten_pair(first, last);
    let preimage = create_preimage(caller, nonce as nat);
    assert(preimage.subrange(2, 22) =~= caller);
    assert(preimage.skip(22) =~= last);
}

/// Two `CREATE`s that differ in the caller or the nonce hash different bytes.
pub proof fn create_preimage_is_unique(
    caller: Seq<u8>,
    nonce: u64,
    other_caller: Seq<u8>,
    other_nonce: u64,
)
    requires
        caller.len() == 20,
        other_caller.len() == 20,
        create_preimage(caller, nonce as nat) == create_preimage(other_caller, other_nonce as nat),
    ensures
        caller == other_caller,
        nonce == other_nonce,
{
    lemma_create_preimage(caller, nonce);
    lemma_create_preimage(other_caller, other_nonce);
    lemma_rlp_string_injective(
        minimal_big_endian(nonce as nat),
        minimal_big_endian(other_nonce as nat),
    );
    lemma_minimal_big_endian_injective(nonce as nat, other_nonce as nat);
}

/// Two `CREATE2`s that differ in the caller, the hash of the init code or the salt hash different
/// bytes.
pub proof fn create2_preimage_is_unique(
    caller: Seq<u8>,
    code_hash: Seq<u8>,
    salt: nat,
    other_caller: Seq<u8>,
    other_code_hash: Seq<u8>,
    other_salt: nat,
)
    requires
        caller.len() == 20,
        other_caller.len() == 20,
        code_hash.len() == 32,
        other_code_hash.len() == 32,
        salt <= u256_max(),
        other_salt <= u256_max(),
        create2_preimage(caller, code_hash, salt) == create2_preimage(
            other_caller,
            other_code_hash,
            other_salt,
        ),
    ensures
        caller == other_caller,
        code_hash == other_code_hash,
        salt == other_salt,
{
    let x = create2_preimage(caller, code_hash, salt);
    let y = create2_preimage(other_caller, other_code_hash, other_salt);
    assert(x.subrange(1, 21) =~= caller);
    assert(y.subrange(1, 21) =~= other_caller);
    assert(x.subrange(21, 53) =~= big_endian(salt, 32));
    assert(y.subrange(21, 53) =~= big_endian(other_salt, 32));
    assert(x.subrange(53, 85) =~= code_hash);
    assert(y.subrange(53, 85) =~= other_code_hash);
    lemma_pow_256_32();
    lemma_big_endian_injective(salt, other_salt, 32);
}

/// A `CREATE` and a `CREATE2` never hash the same bytes.
pub proof fn schemes_differ(
    caller: Seq<u8>,
    nonce: u64,
    other_caller: Seq<u8>,
    code_hash: Seq<u8>,
    salt: nat,
)
    requires
        caller.len() == 20,
        other_caller.len() == 20,
    ensures
        create_preimage(caller, nonce as nat) != create2_preimage(other_caller, code_hash, salt),
{
    lemma_create_preimage(caller, nonce);
    assert(create2_preimage(other_caller, code_hash, salt)[0] == 0xff);
}

/// The number that bytes stand for, the most significant first.
pub open spec fn number(bytes: Seq<u8>) -> nat
    decreases bytes.len(),
{
    if bytes.len() == 0 {
        0
    } else {
        number(bytes.drop_last()) * 256 + bytes.last() as nat
    }
}

proof fn lemma_minimal_number(n: nat)
    ensures
        number(minimal_big_endian(n)) == n,
        n > 0 ==> minimal_big_endian(n).len() > 0 && minimal_big_endian(n)[0] != 0,
    decreases n,
{
    if n > 0 {
        let bytes = minimal_big_endian(n);
        lemma_minimal_number(n / 256);
        assert(bytes.drop_last() =~= minimal_big_endian(n / 256));
        lemma_fundamental_div_mod(n as int, 256);
        if n >= 256 {
            assert(bytes[0] == minimal_big_endian(n / 256)[0]);
        } else {
            assert(minimal_big_endian(n / 256) =~= Seq::empty());
        }
    }
}

/// The bytes of a word, written out, stand for its value.
pub proof fn big_endian_is_the_number(value: nat, len: nat)
    requires
        value < pow(256, len),
    ensures
        big_endian(value, len).len() == len,
        number(big_endian(value, len)) == value,
    decreases len,
{
    reveal(pow);
    if len > 0 {
        let n = (len - 1) as nat;
        lemma_big_endian_step(value, n);
        let bytes = big_endian(value, len);
        assert(bytes.drop_last() =~= big_endian(value / 256, n));
        lemma_fundamental_div_mod(value as int, 256);
        assert(value / 256 < pow(256, n)) by {
            assert(value < 256 * pow(256, n));
        }
        big_endian_is_the_number(value / 256, n);
    }
}

/// What the address of a contract created by `CREATE` is the hash of, byte by byte: a byte for the
/// length of the list, a byte for the length of an address, the caller, and the nonce: a byte of
/// its own where it is below 128 and not zero, else a byte for its length and its bytes, of which
/// the first is not zero.
pub proof fn create_preimage_byte_by_byte(caller: Seq<u8>, nonce: u64)
    requires
        caller.len() == 20,
    ensures
        ({
            let preimage = create_preimage(caller, nonce as nat);
            let rest = preimage.subrange(23, preimage.len() as int);
            &&& 23 <= preimage.len() <= 31
            &&& preimage[0] == 0xc0 + preimage.len() - 1
            &&& preimage[1] == 0x94
            &&& preimage.subrange(2, 22) == caller
            &&& nonce == 0 ==> preimage.len() == 23 && preimage[22] == 0x80
            &&& 0 < nonce < 128 ==> preimage.len() == 23 && preimage[22] == nonce
            &&& nonce >= 128 ==> {
                &&& preimage[22] == 0x80 + rest.len()
                &&& rest.len() > 0
                &&& rest[0] != 0
                &&& number(rest) == nonce
            }
        }),
{
    let first = rlp_string(caller);
    let bytes = minimal_big_endian(nonce as nat);
    let last = rlp_string(bytes);
    lemma_create_preimage(caller, nonce);
    crate::address::lemma_flatten_pair(first, last);
    lemma_minimal_number(nonce as nat);
    let preimage = create_preimage(caller, nonce as nat);
    let rest = preimage.subrange(23, preimage.len() as int);
    assert(preimage[22] == last[0]);
    assert(preimage[1] == first[0]);
    if nonce == 0 {
        assert(last =~= seq![0x80u8]);
    } else if bytes.len() == 1 {
        assert(bytes.drop_last() =~= Seq::empty());
        assert(number(bytes.drop_last()) == 0);
        assert(bytes.last() == nonce);
    } else {
        assert(nonce >= 128) by {
            if nonce < 256 {
                assert(minimal_big_endian(nonce as nat / 256) =~= Seq::empty());
                assert(bytes.len() == 1);
            }
        }
    }
    if nonce >= 128 {
        assert(!(bytes.len() == 1 && bytes[0] < 0x80));
        assert(rest =~= bytes);
    }
}

/// What the address of a contract created by `CREATE2` is the hash of, byte by byte: the byte
/// `0xff`, the 20 bytes of the caller, the 32 bytes of the salt, and the 32 bytes of the hash of
/// the init code.
pub proof fn create2_preimage_byte_by_byte(caller: Seq<u8>, code_hash: Seq<u8>, salt: nat)
    requires
        caller.len() == 20,
        code_hash.len() == 32,
        salt <= u256_max(),
    ensures
        ({
            let preimage = create2_preimage(caller, code_hash, salt);
            &&& preimage.len() == 85
            &&& preimage[0] == 0xff
            &&& preimage.subrange(1, 21) == caller
            &&& number(preimage.subrange(21, 53)) == salt
            &&& preimage.subrange(53, 85) == code_hash
        }),
{
    let preimage = create2_preimage(caller, code_hash, salt);
    assert(preimage.subrange(1, 21) =~= caller);
    assert(preimage.subrange(21, 53) =~= big_endian(salt, 32));
    assert(preimage.subrange(53, 85) =~= code_hash);
    lemma_pow_256_32();
    big_endian_is_the_number(salt, 32);
}

/// The address that a hash stands for is its last 20 bytes.
pub proof fn address_is_the_end_of_the_hash(digest: Seq<u8>)
    requires
        digest.len() == 32,
    ensures
        address_of_digest(digest).len() == 20,
        forall|i: int|
            0 <= i < 20 ==> #[trigger] address_of_digest(digest)[i] == digest[12 + i],
{
}

/// The largest word is one less than there are words of 32 bytes.
pub proof fn largest_word_is_all_ones()
    ensures
        u256_max() + 1 == pow(256, 32),
{
    reveal_with_fuel(pow, 33);
}

/// Code is known by its hash; empty code by this one.
pub proof fn code_is_known_by_its_hash(bytes: Seq<u8>)
    ensures
        bytes.len() > 0 ==> code_hash_of(bytes) == keccak256_digest(bytes),
        bytes.len() == 0 ==> code_hash_of(bytes) == seq![
            0xc5u8, 0xd2, 0x46, 0x01, 0x86, 0xf7, 0x23, 0x3c, 0x92, 0x7e, 0x7d, 0xb2, 0xdc, 0xc7,
            0x03, 0xc0, 0xe5, 0x00, 0xb6, 0x53, 0xca, 0x82, 0x27, 0x3b, 0x7b, 0xfa, 0xd8, 0x04,
            0x5d, 0x85, 0xa4, 0x70,
        ],
{
    if bytes.len() == 0 {
        assert(KECCAK_EMPTY@ =~= seq![
            0xc5u8, 0xd2, 0x46, 0x01, 0x86, 0xf7, 0x23, 0x3c, 0x92, 0x7e, 0x7d, 0xb2, 0xdc, 0xc7,
            0x03, 0xc0, 0xe5, 0x00, 0xb6, 0x53, 0xca, 0x82, 0x27, 0x3b, 0x7b, 0xfa, 0xd8, 0x04,
            0x5d, 0x85, 0xa4, 0x70,
        ]);
    }
}

} // verus!
