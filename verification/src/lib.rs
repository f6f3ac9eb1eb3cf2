//! Additively and multiplicatively homomorphic ElGamal encryption over a
//! prime-order cyclic group.
//!
//! The group is the additive group of integers modulo a Mersenne prime,
//! written additively: group elements are canonical residues, the group
//! operation is addition modulo the order, and scalars act on group elements
//! by multiplication modulo the order. A ciphertext is a pair of group
//! elements; ciphertexts can be added, subtracted, and scaled by a known
//! scalar, and the combination decrypts to the same combination of the
//! underlying plaintexts.

pub mod cipher;
pub mod group;
pub mod laws;
