//! Unsigned 256-bit integers, held as four little-endian 64-bit limbs.

use vstd::prelude::*;

verus! {

/// `2^256`, one past the largest value.
pub open spec fn modulus() -> nat {
    0x1_0000_0000_0000_0000_0000_0000_0000_0000_0000_0000_0000_0000_0000_0000_0000_0000nat
}

/// The number that four little-endian limbs stand for: their sum, each weighted by `2^64` to the
/// power of its place.
pub open spec fn limbs_value(limbs: Seq<u64>) -> nat
    recommends
        limbs.len() == 4,
{
    (limbs[0] + limbs[1] * 0x1_0000_0000_0000_0000nat + limbs[2]
        * 0x1_0000_0000_0000_0000_0000_0000_0000_0000nat + limbs[3]
        * 0x1_0000_0000_0000_0000_0000_0000_0000_0000_0000_0000_0000_0000nat) as nat
}

/// An unsigned 256-bit integer.
#[derive(Clone, Copy, Debug, PartialEq, Eq)]
pub struct U256 {
    /// The limbs, least significant first.
    pub limbs: [u64; 4],
}

impl View for U256 {
    type V = nat;

    open spec fn view(&self) -> nat {
        limbs_value(self.limbs@)
    }
}

/// `a - b`, or zero where `b` is larger.
pub open spec fn monus(a: nat, b: nat) -> nat {
    if a >= b {
        (a - b) as nat
    } else {
        0
    }
}

impl U256 {
    /// Zero.
    pub fn zero() -> (r: U256)
        ensures
            r@ == 0,
    {
        U256 { limbs: [0, 0, 0, 0] }
    }

    /// Widens a 64-bit number.
    pub fn from_u64(x: u64) -> (r: U256)
        ensures
            r@ == x,
    {
        U256 { limbs: [x, 0, 0, 0] }
    }

    /// Widens a 128-bit number.
    pub fn from_u128(x: u128) -> (r: U256)
        ensures
            r@ == x,
    {
        let low: u64 = (x & 0xffff_ffff_ffff_ffff) as u64;
        let high: u64 = (x >> 64) as u64;
        assert(x & 0xffff_ffff_ffff_ffff <= 0xffff_ffff_ffff_ffff && x >> 64 <= 0xffff_ffff_ffff_ffff
            && x == (x & 0xffff_ffff_ffff_ffff) + (x >> 64) * 0x1_0000_0000_0000_0000) by (bit_vector);
        U256 { limbs: [low, high, 0, 0] }
    }

    /// The value as a 64-bit number, or the largest such number where it does not fit.
    pub fn saturating_to_u64(&self) -> (r: u64)
        ensures
            r == if self@ <= u64::MAX {
                self@
            } else {
                u64::MAX as nat
            },
    {
        let l = self.limbs;
        proof {
            lemma_small_limbs(l@);
        }
        if l[1] == 0 && l[2] == 0 && l[3] == 0 {
            l[0]
        } else {
            u64::MAX
        }
    }

    /// The value as a 128-bit number, where it fits.
    pub fn to_u128(&self) -> (r: Option<u128>)
        ensures
            r == (if self@ <= u128::MAX {
                Some(self@ as u128)
            } else {
                None::<u128>
            }),
    {
        let l = self.limbs;
        proof {
            lemma_small_limbs(l@);
        }
        if l[2] == 0 && l[3] == 0 {
            Some((l[1] as u128) * 0x1_0000_0000_0000_0000 + (l[0] as u128))
        } else {
            None
        }
    }
}

/// A value fits in 64 bits exactly when the three upper limbs are zero, and in 128 bits exactly
/// when the two upper ones are.
proof fn lemma_small_limbs(l: Seq<u64>)
    requires
        l.len() == 4,
    ensures
        limbs_value(l) <= u64::MAX <==> l[1] == 0 && l[2] == 0 && l[3] == 0,
        limbs_value(l) <= u128::MAX <==> l[2] == 0 && l[3] == 0,
        limbs_value(l) < modulus(),
{
}

/// [`alloy_primitives::U256`]'s `+`: the sum, wrapped around at `2^256`.
#[verifier::external_body]
pub(crate) fn wrapping_add(a: &U256, b: &U256) -> (r: U256)
    ensures
        r@ == (a@ + b@) % modulus(),
{
    let sum = alloy_primitives::U256::from_limbs(a.limbs) + alloy_primitives::U256::from_limbs(b.limbs);
    U256 { limbs: sum.into_limbs() }
}

/// [`alloy_primitives::U256`]'s `*`: the product, wrapped around at `2^256`.
#[verifier::external_body]
pub(crate) fn wrapping_mul(a: &U256, b: &U256) -> (r: U256)
    ensures
        r@ == (a@ * b@) % modulus(),
{
    let product = alloy_primitives::U256::from_limbs(a.limbs)
        * alloy_primitives::U256::from_limbs(b.limbs);
    U256 { limbs: product.into_limbs() }
}

/// [`alloy_primitives::U256`]'s `saturating_sub`: the difference, or zero where it would be
/// negative.
#[verifier::external_body]
pub(crate) fn saturating_sub(a: &U256, b: &U256) -> (r: U256)
    ensures
        r@ == monus(a@, b@),
{
    let difference = alloy_primitives::U256::from_limbs(a.limbs).saturating_sub(
        alloy_primitives::U256::from_limbs(b.limbs),
    );
    U256 { limbs: difference.into_limbs() }
}

/// [`alloy_primitives::U256`]'s `checked_div`: the quotient rounded down, or `None` where the
/// divisor is zero.
#[verifier::external_body]
pub(crate) fn checked_div(a: &U256, b: &U256) -> (r: Option<U256>)
    ensures
        r is Some <==> b@ != 0,
        r is Some ==> r->0@ == a@ / b@,
{
    alloy_primitives::U256::from_limbs(a.limbs).checked_div(
        alloy_primitives::U256::from_limbs(b.limbs),
    ).map(|quotient| U256 { limbs: quotient.into_limbs() })
}

/// A difference and what was taken off come to what there was; where more is taken off than there is,
/// nothing is left.
pub proof fn a_difference_adds_back(a: nat, b: nat)
    ensures
        a >= b ==> monus(a, b) + b == a,
        a < b ==> monus(a, b) == 0,
{
}

/// The limbs are the digits of the number in base `2^64`, the least significant first, and four of them
/// reach up to `2^256`.
pub proof fn limbs_are_digits_in_base_two_to_the_64(x: U256)
    ensures
        ({
            let base = 0x1_0000_0000_0000_0000nat;
            &&& x@ % base == x.limbs@[0]
            &&& (x@ / base) % base == x.limbs@[1]
            &&& (x@ / base / base) % base == x.limbs@[2]
            &&& x@ / base / base / base == x.limbs@[3]
            &&& x@ < modulus()
            &&& modulus() == base * base * base * base
        }),
{
    lemma_small_limbs(x.limbs@);
}

} // verus!
