use shared::keypair_encryption::{
    encrypt, envelope_from_seal, DecryptError, EncryptError, Encrypted, PrivKey, PubKey,
};

fn seal_value<T: wincode::SchemaWrite<wincode::config::DefaultConfig, Src = T>>(
    value: &T,
    key: &PubKey,
) -> Encrypted<T> {
    let bytes = wincode::serialize(value).unwrap();
    encrypt::<T>(&bytes, key).unwrap()
}

#[test]
fn keypair_encryption_test_small_value_encryption() {
    let priv_key = PrivKey::generate();
    let pub_key = priv_key.pub_key();
    let value = (5, "text text text".to_string());

    let decrypted = seal_value(&value, &pub_key).decrypt(&priv_key).unwrap();
    assert_eq!(wincode::deserialize::<(i32, String)>(&decrypted).unwrap(), value);
    assert!(matches!(
        seal_value(&value, &pub_key).decrypt(&PrivKey::generate()),
        Err(DecryptError::IncorrectPrivateKey)
    ));
    assert!(matches!(
        seal_value(&value, &PrivKey::generate().pub_key()).decrypt(&priv_key),
        Err(DecryptError::IncorrectPrivateKey)
    ));
}

#[test]
fn keypair_encryption_test_large_value_encryption() {
    let priv_key = PrivKey::generate();
    let pub_key = priv_key.pub_key();
    let value = (5, (0..1_000_000).map(|x| x as u8).collect::<Vec<u8>>());

    let decrypted = seal_value(&value, &pub_key).decrypt(&priv_key).unwrap();
    assert_eq!(wincode::deserialize::<(i32, Vec<u8>)>(&decrypted).unwrap(), value);
    assert!(matches!(
        seal_value(&value, &pub_key).decrypt(&PrivKey::generate()),
        Err(DecryptError::IncorrectPrivateKey)
    ));
    assert!(matches!(
        seal_value(&value, &PrivKey::generate().pub_key()).decrypt(&priv_key),
        Err(DecryptError::IncorrectPrivateKey)
    ));
}

#[test]
fn generated_key_is_clamped() {
    let key = PrivKey::generate().to_bytes();
    assert_eq!(key[0] & 7, 0);
    assert_eq!(key[31] & 0x80, 0);
    assert_eq!(key[31] & 0x40, 0x40);
}

#[test]
fn private_key_from_bytes_clamps() {
    let key = PrivKey::from_bytes(&[0xffu8; 32]).unwrap();
    let bytes = key.to_bytes();
    assert_eq!(bytes[0], 0xf8);
    assert_eq!(bytes[31], 0x7f);
    assert!(bytes[1..31].iter().all(|b| *b == 0xff));
    assert!(PrivKey::from_bytes(&[0u8; 31]).is_err());
    assert!(PrivKey::from_bytes(&[0u8; 33]).is_err());
}

#[test]
fn private_key_bytes_roundtrip() {
    let key = PrivKey::generate();
    let again = PrivKey::from_bytes(&key.to_bytes()).unwrap();
    assert!(again == key);
    assert!(again.pub_key() == key.pub_key());
}

#[test]
fn public_key_bytes_roundtrip() {
    let key = PrivKey::generate().pub_key();
    let again = PubKey::from_bytes(&key.to_bytes()).unwrap();
    assert!(again == key);
    assert!(PubKey::from_bytes(&[1u8; 5]).is_err());
}

#[test]
fn public_key_differs_from_private_key() {
    let key = PrivKey::generate();
    assert_ne!(key.pub_key().to_bytes(), key.to_bytes());
    // the public key depends on the private key alone
    let mut sk = [0u8; 32];
    sk[0] = 0x77;
    sk[31] = 0x40;
    let a = PrivKey::from_bytes(&sk).unwrap().pub_key();
    let b = PrivKey::from_bytes(&sk).unwrap().pub_key();
    assert!(a == b);
}

#[test]
fn envelope_parts_roundtrip() {
    let key = PrivKey::generate();
    let enc = encrypt::<()>(b"hello", &key.pub_key()).unwrap();
    let rebuilt =
        Encrypted::<()>::from_parts(&enc.encapsulated_key(), enc.ciphertext().to_vec()).unwrap();
    assert_eq!(rebuilt.decrypt(&key).unwrap(), b"hello".to_vec());
    assert!(Encrypted::<()>::from_parts(&[0u8; 31], vec![]).is_err());
}

#[test]
fn seal_error_is_reported() {
    let r = envelope_from_seal::<()>(Err(hpke::HpkeError::EncapError));
    assert!(matches!(r, Err(EncryptError::EncryptionAlgorithmFailed(hpke::HpkeError::EncapError))));
    let ok = envelope_from_seal::<()>(Ok(([3u8; 32], vec![1, 2, 3]))).unwrap();
    assert_eq!(ok.encapsulated_key(), [3u8; 32]);
    assert_eq!(ok.ciphertext(), &[1, 2, 3]);
}

#[test]
fn ciphertext_is_plaintext_plus_tag() {
    let key = PrivKey::generate();
    for len in [0usize, 1, 64, 1000] {
        let enc = encrypt::<()>(&vec![7u8; len], &key.pub_key()).unwrap();
        assert_eq!(enc.ciphertext().len(), len + 16);
    }
}
