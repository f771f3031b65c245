//! Unsigned 256-bit amounts of credits.
//!
//! An [`Amount`] holds four 64-bit limbs, least significant first. Its
//! arithmetic is done by `alloy_primitives::U256`; the three functions that
//! call it are trusted, and everything else is proved from their contracts.

use vstd::prelude::*;
use alloy_primitives::U256;

verus! {

/// An unsigned 256-bit integer, as four 64-bit limbs, least significant first.
#[derive(Clone, Copy, Debug, PartialEq, Eq, Structural)]
pub struct Amount {
    pub w0: u64,
    pub w1: u64,
    pub w2: u64,
    pub w3: u64,
}

/// The largest value an [`Amount`] can hold: 2^256 - 1.
pub open spec fn max_amount() -> nat {
    0xffffffffffffffffffffffffffffffffffffffffffffffffffffffffffffffffnat
}

impl Amount {
    /// The number that the four limbs stand for.
    pub open spec fn value(self) -> nat {
        self.w0 as nat + 0x10000000000000000nat * (self.w1 as nat + 0x10000000000000000nat * (
        self.w2 as nat + 0x10000000000000000nat * (self.w3 as nat)))
    }

    /// Two amounts with the same value have the same limbs.
    pub proof fn lemma_value_injective(self, other: Amount)
        requires
            self.value() == other.value(),
        ensures
            self == other,
    {
        let r = 0x10000000000000000nat;
        let a1 = self.w1 as nat + r * (self.w2 as nat + r * (self.w3 as nat));
        let b1 = other.w1 as nat + r * (other.w2 as nat + r * (other.w3 as nat));
        assert(self.value() == self.w0 as nat + r * a1);
        assert(other.value() == other.w0 as nat + r * b1);
        assert(a1 == b1 && self.w0 == other.w0) by {
            if a1 < b1 {
                assert(r * a1 + r <= r * b1);
            } else if b1 < a1 {
                assert(r * b1 + r <= r * a1);
            }
        }
        let a2 = self.w2 as nat + r * (self.w3 as nat);
        let b2 = other.w2 as nat + r * (other.w3 as nat);
        assert(a2 == b2 && self.w1 == other.w1) by {
            if a2 < b2 {
                assert(r * a2 + r <= r * b2);
            } else if b2 < a2 {
                assert(r * b2 + r <= r * a2);
            }
        }
    }

    /// The amount zero.
    pub fn zero() -> (r: Amount)
        ensures
            r.value() == 0,
    {
        Amount { w0: 0, w1: 0, w2: 0, w3: 0 }
    }

    /// The amount that a 64-bit number stands for.
    pub fn from_u64(n: u64) -> (r: Amount)
        ensures
            r.value() == n,
    {
        Amount { w0: n, w1: 0, w2: 0, w3: 0 }
    }

    /// The amount with the given limbs, least significant first.
    pub fn from_limbs(limbs: [u64; 4]) -> (r: Amount)
        ensures
            r == (Amount { w0: limbs[0], w1: limbs[1], w2: limbs[2], w3: limbs[3] }),
    {
        Amount { w0: limbs[0], w1: limbs[1], w2: limbs[2], w3: limbs[3] }
    }

    /// The four limbs, least significant first.
    pub fn to_limbs(self) -> (r: [u64; 4])
        ensures
            r[0] == self.w0,
            r[1] == self.w1,
            r[2] == self.w2,
            r[3] == self.w3,
    {
        [self.w0, self.w1, self.w2, self.w3]
    }

    /// The value as a 64-bit number, where it fits in one.
    pub fn to_u64(self) -> (r: Option<u64>)
        ensures
            r.is_some() <==> self.value() <= u64::MAX,
            r.is_some() ==> r.unwrap() == self.value(),
    {
        if self.w1 == 0 && self.w2 == 0 && self.w3 == 0 {
            Some(self.w0)
        } else {
            None
        }
    }

    /// Whether the amount is zero.
    pub fn is_zero(self) -> (r: bool)
        ensures
            r == (self.value() == 0),
    {
        self.w0 == 0 && self.w1 == 0 && self.w2 == 0 && self.w3 == 0
    }

    /// The sum, or `None` where it does not fit in 256 bits.
    pub fn checked_add(self, rhs: Amount) -> (r: Option<Amount>)
        ensures
            r.is_some() <==> self.value() + rhs.value() <= max_amount(),
            r.is_some() ==> r.unwrap().value() == self.value() + rhs.value(),
    {
        u256_checked_add(self, rhs)
    }

    /// The difference, or `None` where `rhs` is the larger.
    pub fn checked_sub(self, rhs: Amount) -> (r: Option<Amount>)
        ensures
            r.is_some() <==> rhs.value() <= self.value(),
            r.is_some() ==> r.unwrap().value() == self.value() - rhs.value(),
    {
        u256_checked_sub(self, rhs)
    }

    /// Whether the two amounts are the same number.
    pub fn equals(self, rhs: Amount) -> (r: bool)
        ensures
            r == (self.value() == rhs.value()),
    {
        proof {
            if self.value() == rhs.value() {
                self.lemma_value_injective(rhs);
            }
        }
        self == rhs
    }

    /// Whether this amount is strictly less than the other.
    pub fn lt(self, rhs: Amount) -> (r: bool)
        ensures
            r == (self.value() < rhs.value()),
    {
        u256_lt(self, rhs)
    }
}

/// Trusted: `checked_add` of `alloy_primitives::U256` (ruint's `Uint<256, 4>`,
/// built by `from_limbs` and taken apart by `into_limbs`). It returns the exact sum
/// of the two numbers where that sum is below 2^256, and `None` where it is
/// not. The limbs go in and come out least significant first.
#[verifier::external_body]
fn u256_checked_add(a: Amount, b: Amount) -> (r: Option<Amount>)
    ensures
        r.is_some() <==> a.value() + b.value() <= max_amount(),
        r.is_some() ==> r.unwrap().value() == a.value() + b.value(),
{
    let x = U256::from_limbs([a.w0, a.w1, a.w2, a.w3]);
    let y = U256::from_limbs([b.w0, b.w1, b.w2, b.w3]);
    match x.checked_add(y) {
        Some(sum) => Some(Amount::from_limbs(sum.into_limbs())),
        None => None,
    }
}

/// Trusted: `checked_sub` of `alloy_primitives::U256`. It returns the exact
/// difference where the second number is no larger than the first, and `None`
/// where it is larger.
#[verifier::external_body]
fn u256_checked_sub(a: Amount, b: Amount) -> (r: Option<Amount>)
    ensures
        r.is_some() <==> b.value() <= a.value(),
        r.is_some() ==> r.unwrap().value() == a.value() - b.value(),
{
    let x = U256::from_limbs([a.w0, a.w1, a.w2, a.w3]);
    let y = U256::from_limbs([b.w0, b.w1, b.w2, b.w3]);
    match x.checked_sub(y) {
        Some(difference) => Some(Amount::from_limbs(difference.into_limbs())),
        None => None,
    }
}

/// Trusted: the `<` of `alloy_primitives::U256`, which compares the two
/// numbers that the limbs stand for.
#[verifier::external_body]
fn u256_lt(a: Amount, b: Amount) -> (r: bool)
    ensures
        r == (a.value() < b.value()),
{
    let x = U256::from_limbs([a.w0, a.w1, a.w2, a.w3]);
    let y = U256::from_limbs([b.w0, b.w1, b.w2, b.w3]);
    x < y
}

} // verus!
