//! The cyclic group and its scalar field.
//!
//! Both are the integers modulo [`ORDER`], a Mersenne prime. A
//! [`GroupElement`] is a point of the group, written additively: the group
//! operation is addition modulo [`ORDER`], the identity is `0`, and any
//! nonzero element generates the group. A [`Scalar`] is an exponent: it acts
//! on a group element by multiplication modulo [`ORDER`], so that
//! `g.scale(a).scale(b) == g.scale(a * b)`.

use vstd::arithmetic::div_mod::lemma_mod_add_multiples_vanish;
use vstd::prelude::*;

verus! {

/// The order of the group and of its scalar field: the Mersenne prime
/// `2^31 - 1`.
pub const ORDER: u64 = 2147483647;

/// A value is in canonical form when it is a residue modulo [`ORDER`].
pub open spec fn reduced(x: int) -> bool {
    0 <= x < ORDER
}

/// Addition modulo [`ORDER`]: the group operation, and the scalar field's
/// addition.
pub open spec fn add_mod(a: int, b: int) -> int {
    (a + b) % (ORDER as int)
}

/// Subtraction modulo [`ORDER`].
pub open spec fn sub_mod(a: int, b: int) -> int {
    (a - b) % (ORDER as int)
}

/// Multiplication modulo [`ORDER`]: the action of a scalar on a group
/// element, and the scalar field's multiplication.
pub open spec fn mul_mod(a: int, b: int) -> int {
    (a * b) % (ORDER as int)
}

/// Negation modulo [`ORDER`].
pub open spec fn neg_mod(a: int) -> int {
    sub_mod(0, a)
}

/// Reduces a sum of two canonical residues.
fn mod_of_sum(a: u64, b: u64) -> (r: u64)
    requires
        a < ORDER,
        b < ORDER,
    ensures
        r == add_mod(a as int, b as int),
        reduced(r as int),
{
    (a + b) % ORDER
}

/// Reduces a difference of two canonical residues, lifted above zero by one
/// period so that the subtraction stays in `u64`.
fn mod_of_diff(a: u64, b: u64) -> (r: u64)
    requires
        a < ORDER,
        b < ORDER,
    ensures
        r == sub_mod(a as int, b as int),
        reduced(r as int),
{
    proof {
        lemma_mod_add_multiples_vanish(a - b, ORDER as int);
    }
    (a + (ORDER - b)) % ORDER
}

/// Reduces a product of two canonical residues; the product of two values
/// below `2^31` fits in a `u64`.
fn mod_of_product(a: u64, b: u64) -> (r: u64)
    requires
        a < ORDER,
        b < ORDER,
    ensures
        r == mul_mod(a as int, b as int),
        reduced(r as int),
{
    proof {
        assert((a as int) * (b as int) <= 4611686009837453316) by (nonlinear_arith)
            requires
                0 <= a as int <= 2147483646,
                0 <= b as int <= 2147483646,
        ;
    }
    (a * b) % ORDER
}

/// An element of the scalar field: an exponent, used as a private key or as a
/// homomorphic combination factor.
#[derive(Debug, Clone, Copy, PartialEq, Eq, Structural)]
pub struct Scalar {
    value: u64,
}

impl View for Scalar {
    type V = int;

    closed spec fn view(&self) -> int {
        self.value as int
    }
}

impl Scalar {
    #[verifier::type_invariant]
    spec fn inv(self) -> bool {
        self.value < ORDER
    }

    /// Builds the scalar with the given residue, reducing modulo [`ORDER`].
    pub fn new(value: u64) -> (r: Self)
        ensures
            r@ == value as int % (ORDER as int),
            reduced(r@),
    {
        Scalar { value: value % ORDER }
    }

    /// The additive identity of the scalar field.
    pub fn zero() -> (r: Self)
        ensures
            r@ == 0,
    {
        Scalar { value: 0 }
    }

    /// The multiplicative identity of the scalar field.
    pub fn one() -> (r: Self)
        ensures
            r@ == 1,
    {
        Scalar { value: 1 }
    }

    /// Scalar field addition.
    pub fn add(&self, other: &Scalar) -> (r: Scalar)
        ensures
            r@ == add_mod(self@, other@),
            reduced(r@),
    {
        proof {
            use_type_invariant(&*self);
            use_type_invariant(&*other);
        }
        Scalar { value: mod_of_sum(self.value, other.value) }
    }

    /// Scalar field subtraction.
    pub fn sub(&self, other: &Scalar) -> (r: Scalar)
        ensures
            r@ == sub_mod(self@, other@),
            reduced(r@),
    {
        proof {
            use_type_invariant(&*self);
            use_type_invariant(&*other);
        }
        Scalar { value: mod_of_diff(self.value, other.value) }
    }

    /// Scalar field multiplication.
    pub fn mul(&self, other: &Scalar) -> (r: Scalar)
        ensures
            r@ == mul_mod(self@, other@),
            reduced(r@),
    {
        proof {
            use_type_invariant(&*self);
            use_type_invariant(&*other);
        }
        Scalar { value: mod_of_product(self.value, other.value) }
    }
}

/// An element of the cyclic group: a canonical residue modulo [`ORDER`],
/// under addition.
#[derive(Debug, Clone, Copy, PartialEq, Eq, Structural)]
pub struct GroupElement {
    value: u64,
}

impl View for GroupElement {
    type V = int;

    closed spec fn view(&self) -> int {
        self.value as int
    }
}

impl GroupElement {
    #[verifier::type_invariant]
    spec fn inv(self) -> bool {
        self.value < ORDER
    }

    /// Builds the group element with the given residue, reducing modulo
    /// [`ORDER`].
    pub fn new(value: u64) -> (r: Self)
        ensures
            r@ == value as int % (ORDER as int),
            reduced(r@),
    {
        GroupElement { value: value % ORDER }
    }

    /// The identity of the group.
    pub fn identity() -> (r: Self)
        ensures
            r@ == 0,
    {
        GroupElement { value: 0 }
    }

    /// The group operation.
    pub fn add(&self, other: &GroupElement) -> (r: GroupElement)
        ensures
            r@ == add_mod(self@, other@),
            reduced(r@),
    {
        proof {
            use_type_invariant(&*self);
            use_type_invariant(&*other);
        }
        GroupElement { value: mod_of_sum(self.value, other.value) }
    }

    /// Group subtraction: adds the inverse of `other`.
    pub fn sub(&self, other: &GroupElement) -> (r: GroupElement)
        ensures
            r@ == sub_mod(self@, other@),
            reduced(r@),
    {
        proof {
            use_type_invariant(&*self);
            use_type_invariant(&*other);
        }
        GroupElement { value: mod_of_diff(self.value, other.value) }
    }

    /// The inverse element.
    pub fn neg(&self) -> (r: GroupElement)
        ensures
            r@ == neg_mod(self@),
            reduced(r@),
    {
        proof {
            use_type_invariant(&*self);
        }
        GroupElement { value: mod_of_diff(0, self.value) }
    }

    /// Scalar multiplication: `scalar`-fold repeated addition of `self`.
    pub fn scale(&self, scalar: &Scalar) -> (r: GroupElement)
        ensures
            r@ == mul_mod(self@, scalar@),
            reduced(r@),
    {
        proof {
            use_type_invariant(&*self);
            use_type_invariant(&*scalar);
        }
        GroupElement { value: mod_of_product(self.value, scalar.value) }
    }
}

} // verus!
