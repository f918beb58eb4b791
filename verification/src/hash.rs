//! Keccak-256, and the encoding of lists that the address of a new contract is hashed from.
use crate::primitives::{H160, H256};
use sha3::Digest;
use vstd::prelude::*;

verus! {

/// The Keccak-256 digest of `data`: what `sha3::Keccak256::digest` returns.
pub uninterp spec fn keccak256_digest(data: Seq<u8>) -> Seq<u8>;

/// `sha3::Keccak256::digest`: the digest depends on the bytes of `data` alone.
#[verifier::external_body]
pub(crate) fn keccak256(data: &[u8]) -> (r: H256)
    ensures
        r@ == keccak256_digest(data@),
{
    sha3::Keccak256::digest(data).into()
}

/// The bytes of `n` in big-endian order without leading zeros.
pub open spec fn minimal_big_endian(n: nat) -> Seq<u8>
    decreases n,
{
    if n == 0 {
        Seq::empty()
    } else {
        minimal_big_endian(n / 256).push((n % 256) as u8)
    }
}

/// The encoding of a byte string of at most 55 bytes: a single byte below 128 stands for itself,
/// anything else follows a byte that gives its length.
pub open spec fn rlp_string(bytes: Seq<u8>) -> Seq<u8> {
    if bytes.len() == 1 && bytes[0] < 0x80 {
        bytes
    } else {
        seq![(0x80 + bytes.len()) as u8] + bytes
    }
}

/// The encoding of a list whose items are encoded in at most 55 bytes: one byte that gives the
/// length of the items, and the items.
pub open spec fn rlp_list(items: Seq<Seq<u8>>) -> Seq<u8> {
    seq![(0xc0 + items.flatten().len()) as u8] + items.flatten()
}

/// `rlp::RlpStream`, a list of encoded items under construction.
#[verifier::external_type_specification]
#[verifier::external_body]
pub struct ExRlpStream(rlp::RlpStream);

/// The encodings of the items appended to the list of the stream so far.
pub uninterp spec fn rlp_items(stream: rlp::RlpStream) -> Seq<Seq<u8>>;

/// The number of items that the list of the stream was opened for.
pub uninterp spec fn rlp_expected(stream: rlp::RlpStream) -> nat;

/// `rlp::RlpStream::new_list`: an empty list that waits for `len` items.
#[verifier::external_body]
pub(crate) fn rlp_new_list(len: usize) -> (stream: rlp::RlpStream)
    ensures
        rlp_items(stream) == Seq::<Seq<u8>>::empty(),
        rlp_expected(stream) == len,
{
    rlp::RlpStream::new_list(len)
}

/// `rlp::RlpStream::append` of an address: one more item, the string of its 20 bytes. The stream
/// takes no more items than its list was opened for.
#[verifier::external_body]
pub(crate) fn rlp_append_address(stream: &mut rlp::RlpStream, address: &H160)
    requires
        rlp_items(*old(stream)).len() < rlp_expected(*old(stream)),
    ensures
        rlp_items(*final(stream)) == rlp_items(*old(stream)).push(rlp_string(address@)),
        rlp_expected(*final(stream)) == rlp_expected(*old(stream)),
{
    stream.append(&primitive_types::H160(*address));
}

/// `rlp::RlpStream::append` of a `u64`: one more item, the string of the big-endian bytes of `n`
/// without leading zeros. The stream takes no more items than its list was opened for.
#[verifier::external_body]
pub(crate) fn rlp_append_u64(stream: &mut rlp::RlpStream, n: u64)
    requires
        rlp_items(*old(stream)).len() < rlp_expected(*old(stream)),
    ensures
        rlp_items(*final(stream)) == rlp_items(*old(stream)).push(
            rlp_string(minimal_big_endian(n as nat)),
        ),
        rlp_expected(*final(stream)) == rlp_expected(*old(stream)),
{
    stream.append(&n);
}

/// `rlp::RlpStream::out`: the encoding of the list. The list has to be complete; the length of
/// its items is held to what one byte can give.
#[verifier::external_body]
pub(crate) fn rlp_out(stream: rlp::RlpStream) -> (r: Vec<u8>)
    requires
        rlp_items(stream).len() == rlp_expected(stream),
        rlp_items(stream).flatten().len() <= 55,
    ensures
        r@ == rlp_list(rlp_items(stream)),
{
    stream.out().to_vec()
}

} // verus!
