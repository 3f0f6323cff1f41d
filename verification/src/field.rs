//! The prime field of order `2^64 - 2^32 + 1`.

use vstd::arithmetic::div_mod::*;
use vstd::prelude::*;

verus! {

/// The order of the field.
pub const MODULUS: u64 = 0xFFFF_FFFF_0000_0001;

/// Sum of two residues.
pub open spec fn spec_add(a: int, b: int) -> int {
    (a + b) % (MODULUS as int)
}

/// Difference of two residues.
pub open spec fn spec_sub(a: int, b: int) -> int {
    (a - b) % (MODULUS as int)
}

/// Product of two residues.
pub open spec fn spec_mul(a: int, b: int) -> int {
    (a * b) % (MODULUS as int)
}

/// Fifth power of a residue: the S-box of the permutations.
pub open spec fn spec_pow5(a: int) -> int {
    (a * a * a * a * a) % (MODULUS as int)
}

/// Whether `a` is the least non-negative residue of its class.
pub open spec fn is_canonical(a: int) -> bool {
    0 <= a < MODULUS
}

/// An element of the field, held as its least non-negative residue.
#[derive(Clone, Copy, Debug, PartialEq, Eq, Structural, Hash)]
pub struct Felt {
    value: u64,
}

impl View for Felt {
    type V = int;

    closed spec fn view(&self) -> int {
        self.value as int
    }
}

/// The residues of a sequence of elements.
pub open spec fn values(s: Seq<Felt>) -> Seq<int> {
    s.map_values(|f: Felt| f@)
}

/// Whether every residue of `s` is canonical.
pub open spec fn all_canonical(s: Seq<int>) -> bool {
    forall|i: int| 0 <= i < s.len() ==> is_canonical(#[trigger] s[i])
}

impl Felt {
    /// Every element is held as its least non-negative residue.
    #[verifier::type_invariant]
    pub open spec fn reduced(self) -> bool {
        is_canonical(self@)
    }

    /// Two elements are the same exactly when their residues are.
    pub proof fn lemma_view_injective(a: Felt, b: Felt)
        ensures
            (a@ == b@) == (a == b),
    {
    }

    /// The additive identity.
    pub fn zero() -> (r: Felt)
        ensures
            r@ == 0,
    {
        Felt { value: 0 }
    }

    /// The multiplicative identity.
    pub fn one() -> (r: Felt)
        ensures
            r@ == 1,
    {
        Felt { value: 1 }
    }

    /// The class of `x`.
    pub fn from_u64_with_reduction(x: u64) -> (r: Felt)
        ensures
            r@ == x as int % (MODULUS as int),
    {
        Felt { value: x % MODULUS }
    }

    /// The least non-negative residue.
    pub fn value(&self) -> (r: u64)
        ensures
            r as int == self@,
            is_canonical(self@),
    {
        proof {
            use_type_invariant(self);
        }
        self.value
    }

    /// Whether this is the additive identity.
    pub fn is_zero(&self) -> (r: bool)
        ensures
            r == (self@ == 0),
    {
        self.value == 0
    }

    /// `self + other` in the field.
    pub fn add(&self, other: &Felt) -> (r: Felt)
        ensures
            r@ == spec_add(self@, other@),
    {
        let wide: u128 = self.value as u128 + other.value as u128;
        let reduced: u128 = wide % (MODULUS as u128);
        Felt { value: reduced as u64 }
    }

    /// `self - other` in the field.
    pub fn sub(&self, other: &Felt) -> (r: Felt)
        ensures
            r@ == spec_sub(self@, other@),
    {
        proof {
            use_type_invariant(other);
            lemma_mod_add_multiples_vanish(self@ - other@, MODULUS as int);
        }
        let wide: u128 = self.value as u128 + MODULUS as u128 - other.value as u128;
        let reduced: u128 = wide % (MODULUS as u128);
        Felt { value: reduced as u64 }
    }

    /// `self * other` in the field.
    pub fn mul(&self, other: &Felt) -> (r: Felt)
        ensures
            r@ == spec_mul(self@, other@),
    {
        assert(self.value as int * other.value as int <= 0xFFFF_FFFF_FFFF_FFFF
            * 0xFFFF_FFFF_FFFF_FFFF) by (nonlinear_arith)
            requires
                0 <= self.value as int <= 0xFFFF_FFFF_FFFF_FFFF,
                0 <= other.value as int <= 0xFFFF_FFFF_FFFF_FFFF,
        ;
        let wide: u128 = self.value as u128 * other.value as u128;
        let reduced: u128 = wide % (MODULUS as u128);
        Felt { value: reduced as u64 }
    }

    /// `self` raised to the fifth power.
    pub fn pow5(&self) -> (r: Felt)
        ensures
            r@ == spec_pow5(self@),
    {
        let x2 = self.mul(self);
        let x4 = x2.mul(&x2);
        let x5 = x4.mul(self);
        proof {
            let a = self@;
            let m = MODULUS as int;
            lemma_mul_mod_noop(a * a, a * a, m);
            lemma_mul_mod_noop_left(a * a * (a * a), a, m);
            assert(a * a * (a * a) * a == a * a * a * a * a) by (nonlinear_arith);
        }
        x5
    }
}

} // verus!
