use keytag::{EncryptedSecretKey, Error, PrivateKey};
use rand::rngs::OsRng;

#[test]
fn envelope_round_trip_low_costs() {
    let mut csprng = OsRng;
    let key = PrivateKey::from_bytes(&[17u8; 32]);
    for log_n in 1u8..=6 {
        let env = EncryptedSecretKey::encrypt(&key, b"hunter2", log_n, &mut csprng).unwrap();
        assert_eq!(env.as_bytes().len(), 50);
        assert_eq!(env.as_bytes()[0], 1);
        assert_eq!(env.as_bytes()[1], log_n);
        let back = env.decrypt(b"hunter2").unwrap();
        assert_eq!(back, key);
    }
}

#[test]
fn envelope_masks_the_key() {
    let mut csprng = OsRng;
    let key = PrivateKey::from_bytes(&[17u8; 32]);
    let env = EncryptedSecretKey::encrypt(&key, b"hunter2", 4, &mut csprng).unwrap();
    // The stored bytes are the masked key, not the raw key.
    assert_ne!(&env.as_bytes()[18..50], key.as_bytes());
}

#[test]
fn wrong_password_succeeds_with_wrong_key() {
    let mut csprng = OsRng;
    let key = PrivateKey::generate(&mut csprng);
    let env = EncryptedSecretKey::encrypt(&key, b"correct", 4, &mut csprng).unwrap();
    // No error is raised: the envelope cannot detect a wrong password.
    let recovered = env.decrypt(b"incorrect").unwrap();
    assert!(recovered != key);
}

#[test]
fn envelope_version_guard() {
    // A version byte other than 1 must be rejected, not guessed at.
    let mut bytes = vec![0u8; 50];
    bytes[0] = 2;
    let token = keytag::printable::encode_printable(b"enc0", &bytes);
    let env = EncryptedSecretKey::from_printable(&token).unwrap();
    assert_eq!(env.as_bytes(), bytes.as_slice());
    assert_eq!(env.decrypt(b"pw"), Err(Error::UnsupportedVersion(2)));
}

#[test]
fn envelope_length_guard() {
    let token = keytag::printable::encode_printable(b"enc0", &[1u8; 10]);
    let env = EncryptedSecretKey::from_printable(&token).unwrap();
    assert_eq!(env.decrypt(b"pw"), Err(Error::BadEnvelope));
}

#[test]
fn envelope_cost_parameter_rejected() {
    let mut csprng = OsRng;
    let key = PrivateKey::from_bytes(&[3u8; 32]);
    // The stretching primitive cannot allocate 2^60 blocks; its parameter
    // error is surfaced.
    assert_eq!(
        EncryptedSecretKey::encrypt(&key, b"pw", 60, &mut csprng),
        Err(Error::KdfParams)
    );
}

#[test]
fn envelope_printable_round_trip() {
    let mut csprng = OsRng;
    let key = PrivateKey::from_bytes(&[90u8; 32]);
    let env = EncryptedSecretKey::encrypt(&key, b"pw", 3, &mut csprng).unwrap();
    let token = env.printable();
    assert!(token.starts_with("enc0"));
    let back = EncryptedSecretKey::from_printable(&token).unwrap();
    assert_eq!(back, env);
    assert_eq!(back.decrypt(b"pw").unwrap(), key);
}

#[test]
fn envelope_printable_errors() {
    assert_eq!(
        EncryptedSecretKey::from_printable("pub0yy"),
        Err(Error::InvalidPrintable)
    );
    assert_eq!(
        EncryptedSecretKey::from_printable("enc0l"),
        Err(Error::InvalidBase32)
    );
}

#[test]
fn decrypt_depends_on_salt_and_cost() {
    // Two envelopes of the same key and password differ in their salt, yet
    // both decrypt back to the key.
    let mut csprng = OsRng;
    let key = PrivateKey::from_bytes(&[55u8; 32]);
    let env1 = EncryptedSecretKey::encrypt(&key, b"pw", 4, &mut csprng).unwrap();
    let env2 = EncryptedSecretKey::encrypt(&key, b"pw", 4, &mut csprng).unwrap();
    assert_ne!(env1.as_bytes()[2..18], env2.as_bytes()[2..18]);
    assert_eq!(env1.decrypt(b"pw").unwrap(), key);
    assert_eq!(env2.decrypt(b"pw").unwrap(), key);
}
