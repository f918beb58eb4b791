//! Fixed-size values of the machine: addresses, hashes and 256-bit words.
use vstd::arithmetic::power::pow;
use vstd::prelude::*;

verus! {

/// An account address.
pub type H160 = [u8; 20];

/// A hash.
pub type H256 = [u8; 32];

/// A 256-bit unsigned integer as four 64-bit limbs, the least significant first.
#[derive(Clone, Copy, Debug, PartialEq, Eq)]
pub struct U256 {
    pub limbs: [u64; 4],
}

/// The largest value a [`U256`] holds.
pub open spec fn u256_max() -> nat {
    0xffff_ffff_ffff_ffff_ffff_ffff_ffff_ffff_ffff_ffff_ffff_ffff_ffff_ffff_ffff_ffffnat
}

/// `value`, or the largest 256-bit integer where it does not fit.
pub open spec fn u256_clamp(value: nat) -> nat {
    if value <= u256_max() {
        value
    } else {
        u256_max()
    }
}

/// The `len` bytes of `value` in big-endian order.
pub open spec fn big_endian(value: nat, len: nat) -> Seq<u8> {
    Seq::new(len, |i: int| ((value as int / pow(256, (len - 1 - i) as nat)) % 256) as u8)
}

impl View for U256 {
    type V = nat;

    open spec fn view(&self) -> nat {
        (self.limbs[0] + self.limbs[1] * 0x1_0000_0000_0000_0000int + self.limbs[2]
            * 0x1_0000_0000_0000_0000_0000_0000_0000_0000int + self.limbs[3]
            * 0x1_0000_0000_0000_0000_0000_0000_0000_0000_0000_0000_0000_0000int) as nat
    }
}

/// A word is never larger than [`u256_max`].
pub proof fn u256_bounded(x: U256)
    ensures
        x@ <= u256_max(),
{
}

impl U256 {
    /// Zero.
    pub fn zero() -> (r: Self)
        ensures
            r@ == 0,
    {
        U256 { limbs: [0, 0, 0, 0] }
    }

    /// The largest word.
    pub fn max_value() -> (r: Self)
        ensures
            r@ == u256_max(),
    {
        U256 { limbs: [u64::MAX, u64::MAX, u64::MAX, u64::MAX] }
    }

    /// The word with the value of `x`.
    pub fn from_u64(x: u64) -> (r: Self)
        ensures
            r@ == x,
    {
        U256 { limbs: [x, 0, 0, 0] }
    }

    /// Whether the value is zero.
    pub fn is_zero(&self) -> (r: bool)
        ensures
            r == (self@ == 0),
    {
        self.limbs[0] == 0 && self.limbs[1] == 0 && self.limbs[2] == 0 && self.limbs[3] == 0
    }

    /// Whether two words have the same value.
    pub fn equals(&self, other: &U256) -> (r: bool)
        ensures
            r == (self@ == other@),
    {
        self.limbs[0] == other.limbs[0] && self.limbs[1] == other.limbs[1] && self.limbs[2]
            == other.limbs[2] && self.limbs[3] == other.limbs[3]
    }

    /// The sum, or the largest word where the sum does not fit.
    pub fn saturating_add(self, other: U256) -> (r: U256)
        ensures
            r@ == u256_clamp(self@ + other@),
    {
        match u256_checked_add(self, other) {
            Some(sum) => sum,
            None => U256::max_value(),
        }
    }

    /// The product, or the largest word where the product does not fit.
    pub fn saturating_mul(self, other: U256) -> (r: U256)
        ensures
            r@ == u256_clamp(self@ * other@),
    {
        match u256_checked_mul(self, other) {
            Some(product) => product,
            None => U256::max_value(),
        }
    }

    /// The smaller of two words.
    pub fn min(self, other: U256) -> (r: U256)
        ensures
            r@ == if other@ < self@ {
                other@
            } else {
                self@
            },
    {
        if u256_lt(&other, &self) {
            other
        } else {
            self
        }
    }
}

/// `primitive_types::U256::checked_add`: the sum, and `None` if and only if it needs more than
/// 256 bits.
#[verifier::external_body]
pub(crate) fn u256_checked_add(x: U256, y: U256) -> (r: Option<U256>)
    ensures
        match r {
            Some(sum) => sum@ == x@ + y@,
            None => x@ + y@ > u256_max(),
        },
{
    primitive_types::U256(x.limbs).checked_add(primitive_types::U256(y.limbs)).map(
        |sum| U256 { limbs: sum.0 },
    )
}

/// `primitive_types::U256::checked_sub`: the difference, and `None` if and only if it is negative.
#[verifier::external_body]
pub(crate) fn u256_checked_sub(x: U256, y: U256) -> (r: Option<U256>)
    ensures
        match r {
            Some(difference) => x@ >= y@ && difference@ == x@ - y@,
            None => x@ < y@,
        },
{
    primitive_types::U256(x.limbs).checked_sub(primitive_types::U256(y.limbs)).map(
        |difference| U256 { limbs: difference.0 },
    )
}

/// `primitive_types::U256::checked_mul`: the product, and `None` if and only if it needs more than
/// 256 bits.
#[verifier::external_body]
pub(crate) fn u256_checked_mul(x: U256, y: U256) -> (r: Option<U256>)
    ensures
        match r {
            Some(product) => product@ == x@ * y@,
            None => x@ * y@ > u256_max(),
        },
{
    primitive_types::U256(x.limbs).checked_mul(primitive_types::U256(y.limbs)).map(
        |product| U256 { limbs: product.0 },
    )
}

/// `primitive_types::U256::saturating_sub`: the difference, and zero where it is negative.
#[verifier::external_body]
pub(crate) fn u256_saturating_sub(x: U256, y: U256) -> (r: U256)
    ensures
        r@ == if x@ >= y@ {
            (x@ - y@) as nat
        } else {
            0
        },
{
    U256 { limbs: primitive_types::U256(x.limbs).saturating_sub(primitive_types::U256(y.limbs)).0 }
}

/// The `<` of `primitive_types::U256`: the order of the values.
#[verifier::external_body]
pub(crate) fn u256_lt(x: &U256, y: &U256) -> (r: bool)
    ensures
        r == (x@ < y@),
{
    primitive_types::U256(x.limbs) < primitive_types::U256(y.limbs)
}

/// `primitive_types::U256::to_big_endian`: the 32 bytes of the value, the most significant first.
#[verifier::external_body]
pub(crate) fn u256_to_big_endian(x: &U256) -> (r: [u8; 32])
    ensures
        r@ == big_endian(x@, 32),
{
    let mut bytes: [u8; 32] = [0; 32];
    primitive_types::U256(x.limbs).to_big_endian(&mut bytes);
    bytes
}

/// Whether two addresses are the same.
pub fn same_address(x: &H160, y: &H160) -> (r: bool)
    ensures
        r == (x@ == y@),
{
    let mut i: usize = 0;
    while i < 20
        invariant
            0 <= i <= 20,
            forall|j: int| 0 <= j < i ==> x[j] == y[j],
        decreases 20 - i,
    {
        if x[i] != y[i] {
            return false;
        }
        i += 1;
    }
    assert(x@ =~= y@);
    true
}

/// Whether two hashes are the same.
pub fn same_hash(x: &H256, y: &H256) -> (r: bool)
    ensures
        r == (x@ == y@),
{
    let mut i: usize = 0;
    while i < 32
        invariant
            0 <= i <= 32,
            forall|j: int| 0 <= j < i ==> x[j] == y[j],
        decreases 32 - i,
    {
        if x[i] != y[i] {
            return false;
        }
        i += 1;
    }
    assert(x@ =~= y@);
    true
}

} // verus!
