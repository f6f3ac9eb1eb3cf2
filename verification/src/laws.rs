//! The algebraic laws of the cipher, proved once and for all inputs.
//!
//! Every lemma here speaks of the mathematical model: [`CipherModel`] pairs
//! and canonical residues. The contracts of the executable operations state
//! their results in exactly these terms, so each law carries over to the
//! executable ciphertexts unchanged.

use crate::cipher::{
    cipher_wf, spec_add, spec_decrypt, spec_encrypt, spec_scale, spec_sub, CipherModel,
};
use crate::group::{add_mod, mul_mod, reduced, sub_mod, ORDER};
use vstd::arithmetic::div_mod::{
    lemma_add_mod_noop, lemma_add_mod_noop_right, lemma_mod_add_multiples_vanish, lemma_mod_bound,
    lemma_mul_mod_noop_general, lemma_mul_mod_noop_left, lemma_mul_mod_noop_right, lemma_small_mod,
    lemma_sub_mod_noop, lemma_sub_mod_noop_right,
};
use vstd::arithmetic::mul::{
    lemma_mul_is_associative, lemma_mul_is_distributive_add_other_way,
    lemma_mul_is_distributive_sub, lemma_mul_is_distributive_sub_other_way,
};
use vstd::prelude::*;

verus! {

/// Both components of an encryption are canonical residues.
proof fn lemma_encrypt_wf(secret: int, public: int, generator: int, message: int)
    ensures
        cipher_wf(spec_encrypt(secret, public, generator, message)),
{
    let p = ORDER as int;
    lemma_mod_bound(generator * secret, p);
    lemma_mod_bound(public * secret, p);
    lemma_mod_bound(message + mul_mod(public, secret), p);
}

/// Both components of a component-wise sum are canonical residues.
proof fn lemma_add_wf(a: CipherModel, b: CipherModel)
    ensures
        cipher_wf(spec_add(a, b)),
{
    let p = ORDER as int;
    lemma_mod_bound(a.gamma + b.gamma, p);
    lemma_mod_bound(a.delta + b.delta, p);
}

/// Both components of a component-wise difference are canonical residues.
proof fn lemma_sub_wf(a: CipherModel, b: CipherModel)
    ensures
        cipher_wf(spec_sub(a, b)),
{
    let p = ORDER as int;
    lemma_mod_bound(a.gamma - b.gamma, p);
    lemma_mod_bound(a.delta - b.delta, p);
}

/// Both components of a scaled ciphertext are canonical residues.
proof fn lemma_scale_wf(c: CipherModel, factor: int)
    ensures
        cipher_wf(spec_scale(c, factor)),
{
    let p = ORDER as int;
    lemma_mod_bound(c.gamma * factor, p);
    lemma_mod_bound(c.delta * factor, p);
}

/// Round trip: encrypting a message under `generator · receiver_secret` and
/// decrypting with `receiver_secret` returns the message, whatever the
/// sender's secret.
pub proof fn lemma_encrypt_decrypt(
    sender_secret: int,
    receiver_secret: int,
    generator: int,
    message: int,
)
    requires
        reduced(sender_secret),
        reduced(receiver_secret),
        reduced(generator),
        reduced(message),
    ensures
        spec_decrypt(
            spec_encrypt(sender_secret, mul_mod(generator, receiver_secret), generator, message),
            receiver_secret,
        ) == message,
{
    let p = ORDER as int;
    let b = sender_secret;
    let r = receiver_secret;
    let g = generator;
    let m = message;
    let c = spec_encrypt(b, mul_mod(g, r), g, m);

    // The mask added at encryption and the mask subtracted at decryption are
    // both the shared secret `g * r * b` modulo the order.
    lemma_mul_mod_noop_left(g * r, b, p);
    assert(mul_mod(mul_mod(g, r), b) == (g * r * b) % p);
    lemma_add_mod_noop_right(m, g * r * b, p);
    assert(c.delta == (m + g * r * b) % p);

    lemma_mul_mod_noop_left(g * b, r, p);
    assert(g * b * r == g * r * b) by (nonlinear_arith);
    assert(mul_mod(c.gamma, r) == (g * r * b) % p);

    lemma_sub_mod_noop(m + g * r * b, g * r * b, p);
    assert(spec_decrypt(c, r) == m % p);
    lemma_small_mod(m as nat, p as nat);
}

/// Decryption distributes over homomorphic addition: the sum of two
/// ciphertexts decrypts to the group sum of what each decrypts to.
pub proof fn lemma_decrypt_add(a: CipherModel, b: CipherModel, secret: int)
    requires
        cipher_wf(a),
        cipher_wf(b),
        reduced(secret),
    ensures
        spec_decrypt(spec_add(a, b), secret) == add_mod(
            spec_decrypt(a, secret),
            spec_decrypt(b, secret),
        ),
{
    let p = ORDER as int;
    let s = secret;
    let ua = a.gamma * s;
    let ub = b.gamma * s;

    // Left side: reduce the combined mask to `ua + ub` modulo the order.
    lemma_mul_mod_noop_left(a.gamma + b.gamma, s, p);
    lemma_mul_is_distributive_add_other_way(s, a.gamma, b.gamma);
    assert((a.gamma + b.gamma) * s == ua + ub);
    lemma_sub_mod_noop(a.delta + b.delta, ua + ub, p);
    assert(spec_decrypt(spec_add(a, b), s) == (a.delta + b.delta - (ua + ub)) % p);

    // Right side: drop the inner reductions one at a time.
    lemma_add_mod_noop(a.delta - ua % p, b.delta - ub % p, p);
    assert(add_mod(spec_decrypt(a, s), spec_decrypt(b, s))
        == (a.delta + b.delta - ua % p - ub % p) % p);
    lemma_sub_mod_noop_right(a.delta + b.delta - ua % p, ub, p);
    lemma_sub_mod_noop_right(a.delta + b.delta - ub, ua, p);
}

/// Decryption distributes over homomorphic subtraction: the difference of
/// two ciphertexts decrypts to the group difference of what each decrypts
/// to.
pub proof fn lemma_decrypt_sub(a: CipherModel, b: CipherModel, secret: int)
    requires
        cipher_wf(a),
        cipher_wf(b),
        reduced(secret),
    ensures
        spec_decrypt(spec_sub(a, b), secret) == sub_mod(
            spec_decrypt(a, secret),
            spec_decrypt(b, secret),
        ),
{
    let p = ORDER as int;
    let s = secret;
    let ua = a.gamma * s;
    let ub = b.gamma * s;

    // Left side: reduce the combined mask to `ua - ub` modulo the order.
    lemma_mul_mod_noop_left(a.gamma - b.gamma, s, p);
    lemma_mul_is_distributive_sub_other_way(s, a.gamma, b.gamma);
    assert((a.gamma - b.gamma) * s == ua - ub);
    lemma_sub_mod_noop(a.delta - b.delta, ua - ub, p);
    assert(spec_decrypt(spec_sub(a, b), s) == (a.delta - b.delta - (ua - ub)) % p);

    // Right side: drop the inner reductions one at a time.
    lemma_sub_mod_noop(a.delta - ua % p, b.delta - ub % p, p);
    assert(sub_mod(spec_decrypt(a, s), spec_decrypt(b, s))
        == (a.delta - b.delta - ua % p + ub % p) % p);
    lemma_add_mod_noop_right(a.delta - b.delta - ua % p, ub, p);
    lemma_sub_mod_noop_right(a.delta - b.delta + ub, ua, p);
}

/// Decryption distributes over homomorphic scaling: a ciphertext scaled by a
/// factor decrypts to the factor times what the ciphertext decrypts to.
pub proof fn lemma_decrypt_scale(c: CipherModel, factor: int, secret: int)
    requires
        cipher_wf(c),
        reduced(factor),
        reduced(secret),
    ensures
        spec_decrypt(spec_scale(c, factor), secret) == mul_mod(spec_decrypt(c, secret), factor),
{
    let p = ORDER as int;
    let s = secret;
    let f = factor;
    let u = c.gamma * s;

    // Left side: reduce the scaled mask to `gamma * factor * secret`.
    lemma_mul_mod_noop_left(c.gamma * f, s, p);
    lemma_sub_mod_noop(c.delta * f, c.gamma * f * s, p);
    assert(spec_decrypt(spec_scale(c, f), s) == (c.delta * f - c.gamma * f * s) % p);

    // Right side: unfold the inner decryption, distribute the factor, and
    // drop the inner reductions.
    lemma_mul_mod_noop_left(c.delta - u % p, f, p);
    assert((c.delta - u % p) * f == c.delta * f - (u % p) * f) by (nonlinear_arith);
    assert(mul_mod(spec_decrypt(c, s), f) == (c.delta * f - (u % p) * f) % p);
    lemma_sub_mod_noop_right(c.delta * f, (u % p) * f, p);
    lemma_mul_mod_noop_left(u, f, p);
    lemma_sub_mod_noop_right(c.delta * f, u * f, p);
    assert(c.gamma * s * f == c.gamma * f * s) by (nonlinear_arith);
}

/// Homomorphic addition is commutative.
pub proof fn lemma_add_commutative(a: CipherModel, b: CipherModel)
    ensures
        spec_add(a, b) == spec_add(b, a),
{
}

/// Subtracting a ciphertext from itself gives a ciphertext that decrypts to
/// the group identity under any secret.
pub proof fn lemma_sub_self_decrypts_to_identity(c: CipherModel, secret: int)
    requires
        reduced(secret),
    ensures
        spec_decrypt(spec_sub(c, c), secret) == 0,
{
    assert(spec_sub(c, c) == (CipherModel { gamma: 0, delta: 0 }));
}

/// Scaling a ciphertext by the scalar one leaves it unchanged.
pub proof fn lemma_scale_one(c: CipherModel)
    requires
        cipher_wf(c),
    ensures
        spec_scale(c, 1) == c,
{
    let p = ORDER as int;
    lemma_small_mod(c.gamma as nat, p as nat);
    lemma_small_mod(c.delta as nat, p as nat);
}

/// Scalar multiplication is linear over the group operation: the sum of two
/// multiples of a point is the point times the scalar sum.
pub proof fn lemma_scale_distributes_add(point: int, a: int, b: int)
    ensures
        add_mod(mul_mod(point, a), mul_mod(point, b)) == mul_mod(point, add_mod(a, b)),
{
    let p = ORDER as int;
    lemma_mul_mod_noop_right(point, a + b, p);
    assert(point * (a + b) == point * a + point * b) by (nonlinear_arith);
    lemma_add_mod_noop(point * a, point * b, p);
}

/// Scalar multiplication is linear over group subtraction: the difference of
/// two multiples of a point is the point times the scalar difference.
pub proof fn lemma_scale_distributes_sub(point: int, a: int, b: int)
    ensures
        sub_mod(mul_mod(point, a), mul_mod(point, b)) == mul_mod(point, sub_mod(a, b)),
{
    let p = ORDER as int;
    lemma_mul_mod_noop_right(point, a - b, p);
    lemma_mul_is_distributive_sub(point, a, b);
    lemma_sub_mod_noop(point * a, point * b, p);
}

/// Modular multiplication is associative, whichever product is reduced
/// first.
pub proof fn lemma_mul_mod_assoc(a: int, b: int, c: int)
    ensures
        mul_mod(mul_mod(a, b), c) == mul_mod(a, mul_mod(b, c)),
{
    let p = ORDER as int;
    lemma_mul_mod_noop_left(a * b, c, p);
    lemma_mul_mod_noop_right(a, b * c, p);
    lemma_mul_is_associative(a, b, c);
}

/// Homomorphic addition law: encrypt four messages, each encoded as a
/// multiple of the generator, under the same public key but arbitrary sender
/// secrets; the sum of the four ciphertexts decrypts to the generator times
/// the sum of the four message scalars.
pub proof fn lemma_homomorphic_add_four(
    s0: int,
    s1: int,
    s2: int,
    s3: int,
    receiver_secret: int,
    generator: int,
    m0: int,
    m1: int,
    m2: int,
    m3: int,
)
    requires
        reduced(s0),
        reduced(s1),
        reduced(s2),
        reduced(s3),
        reduced(receiver_secret),
        reduced(generator),
        reduced(m0),
        reduced(m1),
        reduced(m2),
        reduced(m3),
    ensures
        ({
            let public = mul_mod(generator, receiver_secret);
            let c0 = spec_encrypt(s0, public, generator, mul_mod(generator, m0));
            let c1 = spec_encrypt(s1, public, generator, mul_mod(generator, m1));
            let c2 = spec_encrypt(s2, public, generator, mul_mod(generator, m2));
            let c3 = spec_encrypt(s3, public, generator, mul_mod(generator, m3));
            spec_decrypt(spec_add(spec_add(spec_add(c0, c1), c2), c3), receiver_secret)
                == mul_mod(generator, add_mod(add_mod(add_mod(m0, m1), m2), m3))
        }),
{
    let p = ORDER as int;
    let g = generator;
    let r = receiver_secret;
    let public = mul_mod(g, r);
    let e0 = mul_mod(g, m0);
    let e1 = mul_mod(g, m1);
    let e2 = mul_mod(g, m2);
    let e3 = mul_mod(g, m3);
    lemma_mod_bound(g * m0, p);
    lemma_mod_bound(g * m1, p);
    lemma_mod_bound(g * m2, p);
    lemma_mod_bound(g * m3, p);
    let c0 = spec_encrypt(s0, public, g, e0);
    let c1 = spec_encrypt(s1, public, g, e1);
    let c2 = spec_encrypt(s2, public, g, e2);
    let c3 = spec_encrypt(s3, public, g, e3);

    // Each ciphertext decrypts to its encoded message.
    lemma_encrypt_decrypt(s0, r, g, e0);
    lemma_encrypt_decrypt(s1, r, g, e1);
    lemma_encrypt_decrypt(s2, r, g, e2);
    lemma_encrypt_decrypt(s3, r, g, e3);

    // Decryption distributes over each of the three additions.
    lemma_encrypt_wf(s0, public, g, e0);
    lemma_encrypt_wf(s1, public, g, e1);
    lemma_encrypt_wf(s2, public, g, e2);
    lemma_encrypt_wf(s3, public, g, e3);
    lemma_decrypt_add(c0, c1, r);
    lemma_add_wf(c0, c1);
    lemma_decrypt_add(spec_add(c0, c1), c2, r);
    lemma_add_wf(spec_add(c0, c1), c2);
    lemma_decrypt_add(spec_add(spec_add(c0, c1), c2), c3, r);

    // Fold the sum of encoded messages back into one multiple of the
    // generator.
    let t01 = add_mod(m0, m1);
    let t012 = add_mod(t01, m2);
    lemma_mod_bound(m0 + m1, p);
    lemma_mod_bound(t01 + m2, p);
    lemma_scale_distributes_add(g, m0, m1);
    lemma_scale_distributes_add(g, t01, m2);
    lemma_scale_distributes_add(g, t012, m3);
}

/// Homomorphic subtraction law: with the same setup as the addition law, the
/// left-folded difference of the four ciphertexts decrypts to the generator
/// times the left-folded difference of the four message scalars.
pub proof fn lemma_homomorphic_sub_four(
    s0: int,
    s1: int,
    s2: int,
    s3: int,
    receiver_secret: int,
    generator: int,
    m0: int,
    m1: int,
    m2: int,
    m3: int,
)
    requires
        reduced(s0),
        reduced(s1),
        reduced(s2),
        reduced(s3),
        reduced(receiver_secret),
        reduced(generator),
        reduced(m0),
        reduced(m1),
        reduced(m2),
        reduced(m3),
    ensures
        ({
            let public = mul_mod(generator, receiver_secret);
            let c0 = spec_encrypt(s0, public, generator, mul_mod(generator, m0));
            let c1 = spec_encrypt(s1, public, generator, mul_mod(generator, m1));
            let c2 = spec_encrypt(s2, public, generator, mul_mod(generator, m2));
            let c3 = spec_encrypt(s3, public, generator, mul_mod(generator, m3));
            spec_decrypt(spec_sub(spec_sub(spec_sub(c0, c1), c2), c3), receiver_secret)
                == mul_mod(generator, sub_mod(sub_mod(sub_mod(m0, m1), m2), m3))
        }),
{
    let p = ORDER as int;
    let g = generator;
    let r = receiver_secret;
    let public = mul_mod(g, r);
    let e0 = mul_mod(g, m0);
    let e1 = mul_mod(g, m1);
    let e2 = mul_mod(g, m2);
    let e3 = mul_mod(g, m3);
    lemma_mod_bound(g * m0, p);
    lemma_mod_bound(g * m1, p);
    lemma_mod_bound(g * m2, p);
    lemma_mod_bound(g * m3, p);
    let c0 = spec_encrypt(s0, public, g, e0);
    let c1 = spec_encrypt(s1, public, g, e1);
    let c2 = spec_encrypt(s2, public, g, e2);
    let c3 = spec_encrypt(s3, public, g, e3);

    // Each ciphertext decrypts to its encoded message.
    lemma_encrypt_decrypt(s0, r, g, e0);
    lemma_encrypt_decrypt(s1, r, g, e1);
    lemma_encrypt_decrypt(s2, r, g, e2);
    lemma_encrypt_decrypt(s3, r, g, e3);

    // Decryption distributes over each of the three subtractions.
    lemma_encrypt_wf(s0, public, g, e0);
    lemma_encrypt_wf(s1, public, g, e1);
    lemma_encrypt_wf(s2, public, g, e2);
    lemma_encrypt_wf(s3, public, g, e3);
    lemma_decrypt_sub(c0, c1, r);
    lemma_sub_wf(c0, c1);
    lemma_decrypt_sub(spec_sub(c0, c1), c2, r);
    lemma_sub_wf(spec_sub(c0, c1), c2);
    lemma_decrypt_sub(spec_sub(spec_sub(c0, c1), c2), c3, r);

    // Fold the difference of encoded messages back into one multiple of the
    // generator.
    let t01 = sub_mod(m0, m1);
    let t012 = sub_mod(t01, m2);
    lemma_mod_bound(m0 - m1, p);
    lemma_mod_bound(t01 - m2, p);
    lemma_scale_distributes_sub(g, m0, m1);
    lemma_scale_distributes_sub(g, t01, m2);
    lemma_scale_distributes_sub(g, t012, m3);
}

/// Homomorphic scalar multiplication law: encrypt one message encoded as a
/// multiple of the generator, then scale the ciphertext by three scalars in
/// turn; the result decrypts to the generator times the product of all four
/// scalars.
pub proof fn lemma_homomorphic_scale_three(
    sender_secret: int,
    receiver_secret: int,
    generator: int,
    m0: int,
    m1: int,
    m2: int,
    m3: int,
)
    requires
        reduced(sender_secret),
        reduced(receiver_secret),
        reduced(generator),
        reduced(m0),
        reduced(m1),
        reduced(m2),
        reduced(m3),
    ensures
        ({
            let public = mul_mod(generator, receiver_secret);
            let c = spec_encrypt(sender_secret, public, generator, mul_mod(generator, m0));
            spec_decrypt(spec_scale(spec_scale(spec_scale(c, m1), m2), m3), receiver_secret)
                == mul_mod(generator, mul_mod(mul_mod(mul_mod(m0, m1), m2), m3))
        }),
{
    let p = ORDER as int;
    let g = generator;
    let r = receiver_secret;
    let public = mul_mod(g, r);
    let e0 = mul_mod(g, m0);
    lemma_mod_bound(g * m0, p);
    let c = spec_encrypt(sender_secret, public, g, e0);

    // The unscaled ciphertext decrypts to the encoded message.
    lemma_encrypt_decrypt(sender_secret, r, g, e0);

    // Decryption distributes over each of the three scalings.
    lemma_encrypt_wf(sender_secret, public, g, e0);
    lemma_decrypt_scale(c, m1, r);
    lemma_scale_wf(c, m1);
    lemma_decrypt_scale(spec_scale(c, m1), m2, r);
    lemma_scale_wf(spec_scale(c, m1), m2);
    lemma_decrypt_scale(spec_scale(spec_scale(c, m1), m2), m3, r);

    // Reassociate the chain of modular products around the generator.
    lemma_mul_mod_assoc(g, m0, m1);
    lemma_mul_mod_assoc(g, mul_mod(m0, m1), m2);
    lemma_mul_mod_assoc(g, mul_mod(mul_mod(m0, m1), m2), m3);
}

/// Wrong-key divergence: decrypting with a secret other than the receiver's
/// returns a value other than the message, except when the commitment times
/// the difference of the two secrets happens to be the group identity (as it
/// is, for instance, when the generator is the identity).
pub proof fn lemma_wrong_key_divergence(
    sender_secret: int,
    receiver_secret: int,
    wrong_secret: int,
    generator: int,
    message: int,
)
    requires
        reduced(sender_secret),
        reduced(receiver_secret),
        reduced(wrong_secret),
        reduced(generator),
        reduced(message),
        mul_mod(mul_mod(generator, sender_secret), sub_mod(receiver_secret, wrong_secret)) != 0,
    ensures
        spec_decrypt(
            spec_encrypt(sender_secret, mul_mod(generator, receiver_secret), generator, message),
            wrong_secret,
        ) != message,
{
    let p = ORDER as int;
    let b = sender_secret;
    let r = receiver_secret;
    let w = wrong_secret;
    let g = generator;
    let m = message;
    let c = spec_encrypt(b, mul_mod(g, r), g, m);

    // The decryption is the message shifted by `g * b * (r - w)`.
    lemma_mul_mod_noop_left(g * r, b, p);
    lemma_add_mod_noop_right(m, g * r * b, p);
    assert(c.delta == (m + g * r * b) % p);
    lemma_mul_mod_noop_left(g * b, w, p);
    lemma_sub_mod_noop(m + g * r * b, g * b * w, p);
    assert(g * r * b == g * b * r) by (nonlinear_arith);
    let shift = g * b * r - g * b * w;
    assert(spec_decrypt(c, w) == (m + shift) % p);

    // The excluded inputs are exactly those where that shift vanishes.
    lemma_mul_mod_noop_general(g * b, r - w, p);
    lemma_mul_is_distributive_sub(g * b, r, w);
    assert(shift % p != 0);

    // A nonzero shift moves a canonical residue to a different one.
    let u = shift % p;
    lemma_mod_bound(shift, p);
    lemma_add_mod_noop_right(m, shift, p);
    assert(spec_decrypt(c, w) == (m + u) % p);
    if m + u < p {
        lemma_small_mod((m + u) as nat, p as nat);
    } else {
        lemma_mod_add_multiples_vanish(m + u - p, p);
        lemma_small_mod((m + u - p) as nat, p as nat);
    }
}

} // verus!
