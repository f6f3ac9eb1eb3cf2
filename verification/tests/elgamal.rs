use elgamal::cipher::ElgamalCipher;
use elgamal::group::{GroupElement, Scalar};

fn gen() -> (Scalar, GroupElement, Scalar, GroupElement) {
    let generator = GroupElement::new(7);

    let a = Scalar::new(987654321);
    let a_g = generator.scale(&a);

    let b = Scalar::new(123456789);
    let b_g = generator.scale(&b);

    (a, a_g, b, b_g)
}

#[test]
fn encrypt() {
    let (a, _, b, b_g) = gen();
    let generator = GroupElement::new(7);

    let m = Scalar::new(31415926);
    let m = generator.scale(&m);

    let cipher = ElgamalCipher::encrypt(&a, &b_g, &generator, &m);
    let decrypt = cipher.decrypt(&b);

    assert_eq!(m, decrypt);
}

#[test]
fn wrong_key() {
    let (a, _, b, b_g) = gen();
    let generator = GroupElement::new(7);

    let m = Scalar::new(31415926);
    let m = generator.scale(&m);

    let cipher = ElgamalCipher::encrypt(&a, &b_g, &generator, &m);

    let wrong = b.sub(&Scalar::one());
    let decrypt = cipher.decrypt(&wrong);

    assert_ne!(m, decrypt);
}

#[test]
fn homomorphic_add() {
    let (a, _, b, b_g) = gen();
    let generator = GroupElement::new(7);

    let m = [
        Scalar::new(11111111),
        Scalar::new(22222222),
        Scalar::new(33333333),
        Scalar::new(2147480000),
    ];
    let m_g = [
        generator.scale(&m[0]),
        generator.scale(&m[1]),
        generator.scale(&m[2]),
        generator.scale(&m[3]),
    ];

    let result = m[0].add(&m[1]).add(&m[2]).add(&m[3]);
    let result = generator.scale(&result);

    let cipher = [
        ElgamalCipher::encrypt(&a, &b_g, &generator, &m_g[0]),
        ElgamalCipher::encrypt(&a, &b_g, &generator, &m_g[1]),
        ElgamalCipher::encrypt(&a, &b_g, &generator, &m_g[2]),
        ElgamalCipher::encrypt(&a, &b_g, &generator, &m_g[3]),
    ];

    let mut hom_cipher = cipher[0].add(&cipher[1]);
    hom_cipher.add_assign(&cipher[2]);
    hom_cipher = hom_cipher.add(&cipher[3]);

    let hom_decrypt = hom_cipher.decrypt(&b);

    assert_eq!(result, hom_decrypt);
}

#[test]
fn homomorphic_sub() {
    let (a, _, b, b_g) = gen();
    let generator = GroupElement::new(7);

    let m = [
        Scalar::new(11111111),
        Scalar::new(22222222),
        Scalar::new(33333333),
        Scalar::new(2147480000),
    ];
    let m_g = [
        generator.scale(&m[0]),
        generator.scale(&m[1]),
        generator.scale(&m[2]),
        generator.scale(&m[3]),
    ];

    let result = m[0].sub(&m[1]).sub(&m[2]).sub(&m[3]);
    let result = generator.scale(&result);

    let cipher = [
        ElgamalCipher::encrypt(&a, &b_g, &generator, &m_g[0]),
        ElgamalCipher::encrypt(&a, &b_g, &generator, &m_g[1]),
        ElgamalCipher::encrypt(&a, &b_g, &generator, &m_g[2]),
        ElgamalCipher::encrypt(&a, &b_g, &generator, &m_g[3]),
    ];

    let mut hom_cipher = cipher[0].sub(&cipher[1]);
    hom_cipher.sub_assign(&cipher[2]);
    hom_cipher = hom_cipher.sub(&cipher[3]);

    let hom_decrypt = hom_cipher.decrypt(&b);

    assert_eq!(result, hom_decrypt);
}

#[test]
fn homomorphic_mul() {
    let (a, _, b, b_g) = gen();
    let generator = GroupElement::new(7);

    let m = [
        Scalar::new(11111111),
        Scalar::new(22222222),
        Scalar::new(33333333),
        Scalar::new(2147480000),
    ];
    let m_g = [
        generator.scale(&m[0]),
        generator.scale(&m[1]),
        generator.scale(&m[2]),
        generator.scale(&m[3]),
    ];

    let result = m[0].mul(&m[1]).mul(&m[2]).mul(&m[3]);
    let result = generator.scale(&result);

    let mut cipher = ElgamalCipher::encrypt(&a, &b_g, &generator, &m_g[0]);

    cipher = cipher.mul(&m[1]);
    cipher = cipher.mul(&m[2]);
    cipher.mul_assign(&m[3]);

    let decrypt = cipher.decrypt(&b);

    assert_eq!(result, decrypt);
}

#[test]
fn homomorphic_add_varying_senders() {
    let generator = GroupElement::new(7);
    let b = Scalar::new(123456789);
    let b_g = generator.scale(&b);

    let senders = [
        Scalar::new(11),
        Scalar::new(1000000007),
        Scalar::new(5),
        Scalar::new(998244353),
    ];
    let m = [
        Scalar::new(42),
        Scalar::new(1000),
        Scalar::new(2147483640),
        Scalar::new(77777777),
    ];

    let result = m[0].add(&m[1]).add(&m[2]).add(&m[3]);
    let result = generator.scale(&result);

    let cipher = [
        ElgamalCipher::encrypt(&senders[0], &b_g, &generator, &generator.scale(&m[0])),
        ElgamalCipher::encrypt(&senders[1], &b_g, &generator, &generator.scale(&m[1])),
        ElgamalCipher::encrypt(&senders[2], &b_g, &generator, &generator.scale(&m[2])),
        ElgamalCipher::encrypt(&senders[3], &b_g, &generator, &generator.scale(&m[3])),
    ];

    let hom_cipher = cipher[0].add(&cipher[1]).add(&cipher[2]).add(&cipher[3]);

    assert_eq!(result, hom_cipher.decrypt(&b));
}

#[test]
fn fixed_scenario() {
    let g0 = GroupElement::new(2);
    let s = Scalar::new(7);
    let r = Scalar::new(11);
    let public = g0.scale(&r);
    let message = g0.scale(&Scalar::new(5));

    let cipher = ElgamalCipher::encrypt(&s, &public, &g0, &message);

    assert_eq!(cipher.decrypt(&r), message);
    assert_eq!(cipher.decrypt(&r), GroupElement::new(10));
    assert_ne!(cipher.decrypt(&Scalar::new(12)), message);
}

#[test]
fn encrypt_components_exact() {
    let generator = GroupElement::new(2);
    let secret = Scalar::new(3);
    let public = GroupElement::new(5);
    let message = GroupElement::new(7);

    let cipher = ElgamalCipher::encrypt(&secret, &public, &generator, &message);

    assert_eq!(cipher.gamma(), &GroupElement::new(6));
    assert_eq!(cipher.delta(), &GroupElement::new(22));
}

#[test]
fn new_and_getters() {
    let gamma = GroupElement::new(123);
    let delta = GroupElement::new(456);

    let cipher = ElgamalCipher::new(gamma, delta);

    assert_eq!(cipher.gamma(), &gamma);
    assert_eq!(cipher.delta(), &delta);
}

#[test]
fn add_commutes() {
    let (a, _, _, b_g) = gen();
    let generator = GroupElement::new(7);

    let c0 = ElgamalCipher::encrypt(&a, &b_g, &generator, &GroupElement::new(17));
    let c1 = ElgamalCipher::encrypt(&a, &b_g, &generator, &GroupElement::new(2147483000));

    assert_eq!(c0.add(&c1), c1.add(&c0));
}

#[test]
fn sub_self_decrypts_to_identity() {
    let (a, _, b, b_g) = gen();
    let generator = GroupElement::new(7);

    let c = ElgamalCipher::encrypt(&a, &b_g, &generator, &GroupElement::new(99999));

    assert_eq!(c.sub(&c).decrypt(&b), GroupElement::identity());
    assert_eq!(c.sub(&c).decrypt(&Scalar::new(4)), GroupElement::identity());
}

#[test]
fn scale_by_one_is_identity() {
    let (a, _, _, b_g) = gen();
    let generator = GroupElement::new(7);

    let c = ElgamalCipher::encrypt(&a, &b_g, &generator, &GroupElement::new(424242));

    assert_eq!(c.mul(&Scalar::one()), c);
}

#[test]
fn default_cipher_decrypts_to_identity() {
    let cipher = ElgamalCipher::default();

    assert_eq!(
        cipher,
        ElgamalCipher::new(GroupElement::identity(), GroupElement::identity())
    );
    assert_eq!(cipher.decrypt(&Scalar::new(5)), GroupElement::identity());
}
