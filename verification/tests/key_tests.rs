use keytag::{Error, PrivateKey, PublicKey};
use rand::rngs::OsRng;

#[test]
fn test_generate() {
    let mut csprng = OsRng;

    let private_key = PrivateKey::generate(&mut csprng);
    let public_key = private_key.public();

    println!("public: {}", public_key.printable());
    println!("private: {}", private_key.printable());
}

// RFC 8032, test vector 1: the public key derived from this secret key.
const RFC8032_SECRET: [u8; 32] = [
    0x9d, 0x61, 0xb1, 0x9d, 0xef, 0xfd, 0x5a, 0x60, 0xba, 0x84, 0x4a, 0xf4, 0x92, 0xec, 0x2c,
    0xc4, 0x44, 0x49, 0xc5, 0x69, 0x7b, 0x32, 0x69, 0x19, 0x70, 0x3b, 0xac, 0x03, 0x1c, 0xae,
    0x7f, 0x60,
];
const RFC8032_PUBLIC: [u8; 32] = [
    0xd7, 0x5a, 0x98, 0x01, 0x82, 0xb1, 0x0a, 0xb7, 0xd5, 0x4b, 0xfe, 0xd3, 0xc9, 0x64, 0x07,
    0x3a, 0x0e, 0xe1, 0x72, 0xf3, 0xda, 0xa6, 0x23, 0x25, 0xaf, 0x02, 0x1a, 0x68, 0xf7, 0x07,
    0x51, 0x1a,
];

#[test]
fn public_derivation_matches_reference_vector() {
    let sk = PrivateKey::from_bytes(&RFC8032_SECRET);
    let pk = sk.public();
    assert_eq!(pk.as_bytes(), &RFC8032_PUBLIC);
}

#[test]
fn public_derivation_is_deterministic() {
    let sk = PrivateKey::from_bytes(&[42u8; 32]);
    let first = sk.public();
    let second = sk.public();
    assert_eq!(first, second);
    assert_eq!(first.as_bytes(), second.as_bytes());

    let same_material = PrivateKey::from_bytes(&[42u8; 32]);
    assert_eq!(same_material.public(), first);
}

#[test]
fn public_key_from_bytes_validates() {
    // A derived public key is always a valid curve point.
    let pk = PublicKey::from_bytes(&RFC8032_PUBLIC).unwrap();
    assert_eq!(pk.as_bytes(), &RFC8032_PUBLIC);

    // Roughly half of all y-coordinates are not on the curve: some small
    // ones must be rejected, and the rejection is InvalidKey.
    let mut rejected = 0;
    for y in 2u8..20 {
        let mut candidate = [0u8; 32];
        candidate[0] = y;
        if let Err(e) = PublicKey::from_bytes(&candidate) {
            assert_eq!(e, Error::InvalidKey);
            rejected += 1;
        }
    }
    assert!(rejected > 0);
}

#[test]
fn public_key_printable_round_trip() {
    let pk = PublicKey::from_bytes(&RFC8032_PUBLIC).unwrap();
    let token = pk.printable();
    assert!(token.starts_with("pub0"));
    let back = PublicKey::from_printable(&token).unwrap();
    assert_eq!(back, pk);
}

#[test]
fn private_key_printable_round_trip() {
    let sk = PrivateKey::from_bytes(&RFC8032_SECRET);
    let token = sk.printable();
    assert!(token.starts_with("sec0"));
    let back = PrivateKey::from_printable(&token).unwrap();
    assert_eq!(back, sk);
}

#[test]
fn private_token_rejected_by_public_decoder() {
    let sk = PrivateKey::from_bytes(&[7u8; 32]);
    let token = sk.printable();
    assert_eq!(
        PublicKey::from_printable(&token),
        Err(Error::InvalidPrintable)
    );
}

#[test]
fn printable_wrong_length_rejected() {
    let short = keytag::printable::encode_printable(b"pub0", &[0u8; 31]);
    assert_eq!(PublicKey::from_printable(&short), Err(Error::KeyLength));

    let long = keytag::printable::encode_printable(b"sec0", &[0u8; 33]);
    assert_eq!(PrivateKey::from_printable(&long), Err(Error::KeyLength));
}

#[test]
fn printable_bad_symbol_rejected() {
    // 'l' is not in the base-32 alphabet.
    assert_eq!(
        PublicKey::from_printable("pub0lyyy"),
        Err(Error::InvalidBase32)
    );
    assert_eq!(
        PrivateKey::from_printable("sec0lyyy"),
        Err(Error::InvalidBase32)
    );
}

#[test]
fn constant_time_equality_semantics() {
    let a = PrivateKey::from_bytes(&[1u8; 32]);
    let b = PrivateKey::from_bytes(&[1u8; 32]);
    let mut other_material = [1u8; 32];
    other_material[31] = 2;
    let c = PrivateKey::from_bytes(&other_material);
    assert_eq!(a, b);
    assert!(a != c);
}

#[test]
fn as_bytes_returns_the_material() {
    let sk = PrivateKey::from_bytes(&[9u8; 32]);
    assert_eq!(sk.as_bytes(), &[9u8; 32]);
    let mut csprng = OsRng;
    let generated = PrivateKey::generate(&mut csprng);
    assert_eq!(generated.as_bytes().len(), 32);
}
