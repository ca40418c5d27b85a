use shared::password_encryption::{encrypt, encrypt_with, get_kdf_argon2, DecryptError, Encrypted};

fn seal_value<T: wincode::SchemaWrite<wincode::config::DefaultConfig, Src = T>>(
    value: &T,
    password: &str,
) -> Encrypted<T> {
    let bytes = wincode::serialize(value).unwrap();
    encrypt::<T>(&bytes, password).unwrap()
}

#[test]
fn password_encryption_test_small_value_encryption() {
    let password = "a good password";
    let value = (5, "text text text".to_string());

    let decrypted = seal_value(&value, password).decrypt(password).unwrap();
    assert_eq!(wincode::deserialize::<(i32, String)>(&decrypted).unwrap(), value);
    assert!(matches!(
        seal_value(&value, password).decrypt("wrong password"),
        Err(DecryptError::IncorrectPassword)
    ));
}

#[test]
fn password_encryption_test_large_value_encryption() {
    let password = "a good password";
    let value = (5, (0..1_000_000).map(|x| x as u8).collect::<Vec<u8>>());

    let decrypted = seal_value(&value, password).decrypt(password).unwrap();
    assert_eq!(wincode::deserialize::<(i32, Vec<u8>)>(&decrypted).unwrap(), value);
    assert!(matches!(
        seal_value(&value, password).decrypt("wrong password"),
        Err(DecryptError::IncorrectPassword)
    ));
}

#[test]
fn kdf_context_is_built() {
    assert!(get_kdf_argon2().is_ok());
}

#[test]
fn envelope_keeps_salt_and_nonce() {
    let salt = [7u8; 64];
    let nonce = [9u8; 12];
    let enc = encrypt_with::<()>(b"payload", "pw", salt, nonce).unwrap();
    assert_eq!(enc.salt(), salt);
    assert_eq!(enc.nonce(), nonce);
    // the ciphertext is the plaintext sealed with a 16-byte tag, not the plaintext itself
    assert_eq!(enc.ciphertext().len(), b"payload".len() + 16);
    assert_ne!(&enc.ciphertext()[..7], b"payload");
    assert_eq!(enc.decrypt("pw").unwrap(), b"payload".to_vec());
}

#[test]
fn same_salt_and_nonce_give_same_ciphertext() {
    let a = encrypt_with::<()>(b"abc", "pw", [1u8; 64], [2u8; 12]).unwrap();
    let b = encrypt_with::<()>(b"abc", "pw", [1u8; 64], [2u8; 12]).unwrap();
    assert_eq!(a.ciphertext(), b.ciphertext());
    let c = encrypt_with::<()>(b"abc", "other", [1u8; 64], [2u8; 12]).unwrap();
    assert_ne!(a.ciphertext(), c.ciphertext());
}

#[test]
fn tampered_ciphertext_is_rejected() {
    let enc = encrypt_with::<()>(b"abc", "pw", [1u8; 64], [2u8; 12]).unwrap();
    let mut ct = enc.ciphertext().to_vec();
    ct[0] ^= 1;
    let tampered = Encrypted::<()>::from_parts(enc.salt(), enc.nonce(), ct);
    assert!(matches!(tampered.decrypt("pw"), Err(DecryptError::IncorrectPassword)));
}

#[test]
fn random_salt_tail_is_zero() {
    let enc = encrypt::<()>(b"x", "pw").unwrap();
    assert!(enc.salt()[16..].iter().all(|b| *b == 0));
    let other = encrypt::<()>(b"x", "pw").unwrap();
    assert_ne!(enc.salt(), other.salt());
    assert_ne!(enc.nonce(), other.nonce());
}

#[test]
fn empty_plaintext_roundtrip() {
    let enc = encrypt::<()>(b"", "").unwrap();
    assert_eq!(enc.ciphertext().len(), 16);
    assert_eq!(enc.decrypt("").unwrap(), Vec::<u8>::new());
}

#[test]
fn password_ciphertext_is_plaintext_plus_tag() {
    let enc = encrypt::<()>(&[3u8; 100], "pw").unwrap();
    assert_eq!(enc.ciphertext().len(), 116);
}
