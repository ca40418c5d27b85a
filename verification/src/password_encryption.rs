//! Symmetric encryption of serialized values under a human password.
//!
//! A key is derived from the password and a random salt with Argon2id
//! (version 0x13, 16 MiB of memory, 3 passes, 1 lane, 32-byte output), and
//! the plaintext is sealed with ChaCha20-Poly1305 under that key and a
//! random nonce. The salt, the nonce and the ciphertext travel together in
//! an [`Encrypted`] envelope.
//!
//! Decryption deliberately tells a wrong password
//! ([`DecryptError::IncorrectPassword`]) apart from a payload that does not
//! decode ([`DecryptError::DeserializeFailed`]); a server that decrypts on a
//! client's behalf should merge the two before answering.

use core::marker::PhantomData;
use vstd::prelude::*;
use vstd::string::StringSliceAdditionalSpecFns;
use argon2::password_hash::SaltString;
use argon2::password_hash::rand_core::OsRng;
use chacha20poly1305::aead::Aead;
use chacha20poly1305::{AeadCore, ChaCha20Poly1305, KeyInit};
use zeroize::Zeroize;

verus! {

/// `argon2::Error`, carried through the library as an opaque value.
#[verifier::external_type_specification]
#[verifier::external_body]
pub struct ExArgon2Error(argon2::Error);

/// `argon2::Params`, an opaque set of Argon2 cost parameters.
#[verifier::external_type_specification]
#[verifier::external_body]
pub struct ExArgon2Params(argon2::Params);

/// `argon2::Argon2`, an opaque Argon2 hashing context.
#[verifier::external_type_specification]
#[verifier::external_body]
pub struct ExArgon2<'key>(argon2::Argon2<'key>);

/// `password_hash::Error`, carried through the library as an opaque value.
#[verifier::external_type_specification]
#[verifier::external_body]
pub struct ExPasswordHashError(argon2::password_hash::Error);

/// `chacha20poly1305::Error`, carried through the library as an opaque value.
#[verifier::external_type_specification]
#[verifier::external_body]
pub struct ExAeadError(chacha20poly1305::Error);

/// Length in bytes of the salt buffer stored in an envelope.
pub const SALT_LEN: usize = 64;

/// Length in bytes of a ChaCha20-Poly1305 nonce.
pub const NONCE_LEN: usize = 12;

/// Length in bytes of the derived key.
pub const KEY_LEN: usize = 32;

/// Argon2 memory cost, in KiB.
pub const KDF_M_COST: u32 = 16384;

/// Argon2 number of passes.
pub const KDF_T_COST: u32 = 3;

/// Argon2 degree of parallelism.
pub const KDF_P_COST: u32 = 1;

/// The Argon2id (version 0x13) output of `out_len` bytes for the given
/// costs, password and salt, with no secret and no associated data.
pub uninterp spec fn argon2id_hash(
    m_cost: u32,
    t_cost: u32,
    p_cost: u32,
    password: Seq<u8>,
    salt: Seq<u8>,
    out_len: nat,
) -> Seq<u8>;

/// The ChaCha20-Poly1305 ciphertext (with its 16-byte tag appended) of
/// `plaintext` under `key` and `nonce`, with empty associated data.
pub uninterp spec fn chacha20poly1305_seal(
    key: Seq<u8>,
    nonce: Seq<u8>,
    plaintext: Seq<u8>,
) -> Seq<u8>;

/// Whether ChaCha20-Poly1305 accepts a message of this length (fewer than
/// 2^32 - 1 blocks of 64 bytes).
pub open spec fn aead_len_ok(len: nat) -> bool {
    len / 64 < 0xFFFF_FFFF
}

/// Whether Argon2 accepts a password of this length.
pub open spec fn password_len_ok(len: nat) -> bool {
    len <= 0xFFFF_FFFF
}

/// The key that the envelope scheme derives from a password and a salt.
pub open spec fn password_key(password: Seq<u8>, salt: Seq<u8>) -> Seq<u8> {
    argon2id_hash(KDF_M_COST, KDF_T_COST, KDF_P_COST, password, salt, KEY_LEN as nat)
}

/// Whether `ciphertext` is the sealing of `plaintext` under the key that
/// `password` and `salt` give and under `nonce`.
pub open spec fn sealed_under_password(
    password: Seq<u8>,
    salt: Seq<u8>,
    nonce: Seq<u8>,
    ciphertext: Seq<u8>,
    plaintext: Seq<u8>,
) -> bool {
    ciphertext == chacha20poly1305_seal(password_key(password, salt), nonce, plaintext)
}

/// Argon2 cost parameters, with the plain values they were built from.
struct KdfParams {
    params: argon2::Params,
    m_cost: u32,
    t_cost: u32,
    p_cost: u32,
    output_len: usize,
}

/// An Argon2id (version 0x13) context, with the plain cost values it was
/// built from.
pub struct Argon2Kdf {
    ctx: argon2::Argon2<'static>,
    m_cost: u32,
    t_cost: u32,
    p_cost: u32,
    output_len: usize,
}

impl Argon2Kdf {
    /// The memory cost, in KiB, that the context was built with.
    pub closed spec fn m_cost(&self) -> u32 {
        self.m_cost
    }

    /// The number of passes that the context was built with.
    pub closed spec fn t_cost(&self) -> u32 {
        self.t_cost
    }

    /// The number of lanes that the context was built with.
    pub closed spec fn p_cost(&self) -> u32 {
        self.p_cost
    }

    /// The output length, in bytes, that the context was built with.
    pub closed spec fn output_len(&self) -> usize {
        self.output_len
    }
}

/// Calls `argon2::Params::new(m_cost, t_cost, p_cost, Some(output_len))`.
/// It accepts the costs exactly when the memory cost is at least 8
/// KiB and at least 8 KiB per lane, there is at least one pass, there are
/// between 1 and 2^24 - 1 lanes, and the output length lies between 4 and
/// 2^32 - 1 bytes. The returned value records the plain costs it was built
/// from.
#[verifier::external_body]
fn argon2_params(m_cost: u32, t_cost: u32, p_cost: u32, output_len: usize) -> (r: Result<
    KdfParams,
    argon2::Error,
>)
    requires
        p_cost * 8 <= u32::MAX,
    ensures
        r is Ok <==> (m_cost >= 8 && m_cost >= p_cost * 8 && t_cost >= 1 && 1 <= p_cost
            <= 0xFF_FFFF && 4 <= output_len <= 0xFFFF_FFFF),
        r matches Ok(p) ==> p.m_cost == m_cost && p.t_cost == t_cost && p.p_cost == p_cost
            && p.output_len == output_len,
{
    match argon2::Params::new(m_cost, t_cost, p_cost, Some(output_len)) {
        Ok(params) => Ok(KdfParams { params, m_cost, t_cost, p_cost, output_len }),
        Err(e) => Err(e),
    }
}

/// Calls `argon2::Argon2::new(Algorithm::Argon2id, Version::V0x13, params)`,
/// which only stores its arguments; the plain cost values are carried over.
#[verifier::external_body]
fn argon2id_context(params: KdfParams) -> (kdf: Argon2Kdf)
    ensures
        kdf.m_cost() == params.m_cost && kdf.t_cost() == params.t_cost && kdf.p_cost()
            == params.p_cost && kdf.output_len() == params.output_len,
{
    Argon2Kdf {
        ctx: argon2::Argon2::new(argon2::Algorithm::Argon2id, argon2::Version::V0x13, params.params),
        m_cost: params.m_cost,
        t_cost: params.t_cost,
        p_cost: params.p_cost,
        output_len: params.output_len,
    }
}

/// Calls `argon2::Argon2::hash_password_into` with a 32-byte output buffer.
/// It returns `Ok` exactly when the password and the salt are at
/// most 2^32 - 1 bytes long, the salt is at least 8 bytes long and the
/// output length that the context was built with is 32; the output is then
/// the Argon2id hash of the password and salt under the context's costs.
#[verifier::external_body]
fn argon2_hash_password_into(kdf: &Argon2Kdf, pwd: &[u8], salt: &[u8], out: &mut [u8; 32]) -> (r:
    Result<(), argon2::Error>)
    ensures
        r is Ok <==> (password_len_ok(pwd@.len()) && 8 <= salt@.len() <= 0xFFFF_FFFF
            && kdf.output_len() == 32),
        r is Ok ==> final(out)@ == argon2id_hash(
            kdf.m_cost(),
            kdf.t_cost(),
            kdf.p_cost(),
            pwd@,
            salt@,
            32,
        ),
{
    kdf.ctx.hash_password_into(pwd, salt, out)
}

/// Calls `SaltString::generate` with the operating system's random number
/// generator (which panics if the operating system cannot give random
/// bytes), and decodes the salt string it gives into the buffer with
/// `SaltString::decode_b64`, the inverse of the B64 encoding that
/// `generate` applies to its random bytes. `generate` encodes exactly 16
/// random bytes, so the decoding succeeds and fills the first 16 bytes of
/// the buffer; the rest of the buffer is left as it was. The 16 bytes are
/// random: nothing else is stated of them.
#[verifier::external_body]
fn generate_salt(buf: &mut [u8; 64]) -> (r: Result<usize, argon2::password_hash::Error>)
    ensures
        r is Ok,
        r matches Ok(n) ==> n == 16,
        final(buf)@.subrange(16, 64) == old(buf)@.subrange(16, 64),
{
    match SaltString::generate(&mut OsRng).decode_b64(buf) {
        Ok(decoded) => Ok(decoded.len()),
        Err(e) => Err(e),
    }
}

/// Calls `ChaCha20Poly1305::generate_nonce` with the operating system's
/// random number generator (which panics if the operating system cannot
/// give random bytes). The nonce is random: nothing is stated of it.
#[verifier::external_body]
fn generate_nonce() -> [u8; 12] {
    ChaCha20Poly1305::generate_nonce(&mut OsRng).into()
}

/// Calls `Aead::encrypt` on a `ChaCha20Poly1305` keyed with `key` (the
/// constructor only stores the key), with empty associated data. It
/// fails exactly when the plaintext has 2^32 - 1 blocks of 64 bytes
/// or more; otherwise the result is the sealing of the plaintext, 16 bytes
/// longer than it.
#[verifier::external_body]
fn aead_encrypt(key: &[u8; 32], nonce: &[u8; 12], plaintext: &[u8]) -> (r: Result<
    Vec<u8>,
    chacha20poly1305::Error,
>)
    requires
        plaintext@.len() + 16 <= isize::MAX,
    ensures
        r is Ok <==> aead_len_ok(plaintext@.len()),
        r matches Ok(c) ==> c@ == chacha20poly1305_seal(key@, nonce@, plaintext@) && c@.len()
            == plaintext@.len() + 16,
{
    ChaCha20Poly1305::new(&(*key).into()).encrypt(&(*nonce).into(), plaintext)
}

/// Calls `Aead::decrypt` on a `ChaCha20Poly1305` keyed with `key`, with
/// empty associated data. Decryption inverts encryption: it succeeds on the
/// sealing of any plaintext that encryption accepts and gives that
/// plaintext back, and whatever it returns seals, under the same key and
/// nonce, to the ciphertext it was given.
#[verifier::external_body]
fn aead_decrypt(key: &[u8; 32], nonce: &[u8; 12], ciphertext: &[u8]) -> (r: Result<
    Vec<u8>,
    chacha20poly1305::Error,
>)
    ensures
        r matches Ok(p) ==> ciphertext@ == chacha20poly1305_seal(key@, nonce@, p@)
            && aead_len_ok(p@.len()),
        r is Err ==> forall|p: Seq<u8>|
            aead_len_ok(p.len()) ==> ciphertext@ != #[trigger] chacha20poly1305_seal(key@, nonce@, p),
        r matches Ok(q) ==> forall|p: Seq<u8>|
            aead_len_ok(p.len()) && ciphertext@ == #[trigger] chacha20poly1305_seal(key@, nonce@, p)
                ==> q@ == p,
{
    ChaCha20Poly1305::new(&(*key).into()).decrypt(&(*nonce).into(), ciphertext)
}

/// Calls `Zeroize::zeroize` on the key buffer, which overwrites every byte
/// with zero.
#[verifier::external_body]
fn wipe_key(key: &mut [u8; 32])
    ensures
        final(key)@ == Seq::new(32, |i: int| 0u8),
{
    key.zeroize()
}

/// Builds the Argon2 context used for key derivation: Argon2id, version
/// 0x13, with the memory cost, passes and lanes above and a 32-byte output.
pub fn get_kdf_argon2() -> (r: Result<Argon2Kdf, argon2::Error>)
    ensures
        r matches Ok(kdf) && kdf.m_cost() == KDF_M_COST && kdf.t_cost() == KDF_T_COST
            && kdf.p_cost() == KDF_P_COST && kdf.output_len() == KEY_LEN,
{
    match argon2_params(KDF_M_COST, KDF_T_COST, KDF_P_COST, KEY_LEN) {
        Ok(params) => Ok(argon2id_context(params)),
        Err(e) => Err(e),
    }
}

/// Derives the envelope key from the password and the salt.
fn derive_key(password: &[u8], salt: &[u8; 64]) -> (r: Result<[u8; 32], argon2::Error>)
    ensures
        r is Ok <==> password_len_ok(password@.len()),
        r matches Ok(k) ==> k@ == password_key(password@, salt@),
{
    let kdf = match get_kdf_argon2() {
        Ok(kdf) => kdf,
        Err(e) => return Err(e),
    };
    let mut key = [0u8; 32];
    match argon2_hash_password_into(&kdf, password, salt.as_slice(), &mut key) {
        Ok(()) => Ok(key),
        Err(e) => Err(e),
    }
}

/// Failure to encrypt a value under a password.
#[derive(Debug)]
pub enum EncryptError {
    /// The value could not be serialized.
    SerializeFailed(wincode::WriteError),
    /// No salt could be generated.
    GenerateSaltFailed(argon2::password_hash::Error),
    /// The key could not be derived from the password.
    PasswordHashFailed(argon2::Error),
    /// The cipher refused the plaintext.
    EncryptionAlgorithmFailed(chacha20poly1305::Error),
}

/// Failure to decrypt an envelope with a password.
#[derive(Debug)]
pub enum DecryptError {
    /// The key could not be derived from the password.
    PasswordHashFailed(argon2::Error),
    /// The ciphertext does not authenticate under the key the password gives.
    IncorrectPassword,
    /// The plaintext does not decode as a value of the expected type.
    DeserializeFailed(wincode::ReadError),
}

/// A value of type `T`, serialized and encrypted under a password: the
/// salt of the key derivation, the cipher nonce and the ciphertext.
#[derive(Debug, Hash)]
pub struct Encrypted<T> {
    salt: [u8; 64],
    nonce: [u8; 12],
    ciphertext: Vec<u8>,
    _marker: PhantomData<T>,
}

impl<T> Clone for Encrypted<T> {
    fn clone(&self) -> (copy: Self)
        ensures
            copy.salt_bytes() == self.salt_bytes(),
            copy.nonce_bytes() == self.nonce_bytes(),
            copy.ciphertext_bytes() == self.ciphertext_bytes(),
    {
        Encrypted {
            salt: self.salt,
            nonce: self.nonce,
            ciphertext: self.ciphertext.clone(),
            _marker: PhantomData,
        }
    }
}

impl<T> Encrypted<T> {
    /// The salt buffer of the key derivation.
    pub closed spec fn salt_bytes(&self) -> Seq<u8> {
        self.salt@
    }

    /// The cipher nonce.
    pub closed spec fn nonce_bytes(&self) -> Seq<u8> {
        self.nonce@
    }

    /// The ciphertext, with its authentication tag.
    pub closed spec fn ciphertext_bytes(&self) -> Seq<u8> {
        self.ciphertext@
    }
}

impl<T> Encrypted<T> {
    /// The salt buffer of the key derivation.
    pub fn salt(&self) -> (r: [u8; 64])
        ensures
            r@ == self.salt_bytes(),
    {
        self.salt
    }

    /// The cipher nonce.
    pub fn nonce(&self) -> (r: [u8; 12])
        ensures
            r@ == self.nonce_bytes(),
    {
        self.nonce
    }

    /// The ciphertext, with its authentication tag.
    pub fn ciphertext(&self) -> (r: &[u8])
        ensures
            r@ == self.ciphertext_bytes(),
    {
        self.ciphertext.as_slice()
    }

    /// Rebuilds an envelope from its serialized parts.
    pub fn from_parts(salt: [u8; 64], nonce: [u8; 12], ciphertext: Vec<u8>) -> (r: Encrypted<T>)
        ensures
            r.salt_bytes() == salt@,
            r.nonce_bytes() == nonce@,
            r.ciphertext_bytes() == ciphertext@,
    {
        Encrypted { salt, nonce, ciphertext, _marker: PhantomData }
    }
}

/// What [`encrypt`] promises of its result for a plaintext and a password
/// (given as bytes), once a salt has been drawn.
pub open spec fn password_encrypt_post<T>(
    plaintext: Seq<u8>,
    password: Seq<u8>,
    r: Result<Encrypted<T>, EncryptError>,
) -> bool {
    &&& r matches Ok(enc) ==> enc.ciphertext_bytes().len() == plaintext.len() + 16
    &&& r matches Ok(enc) ==> password_len_ok(password.len()) && aead_len_ok(plaintext.len())
        && sealed_under_password(
        password,
        enc.salt_bytes(),
        enc.nonce_bytes(),
        enc.ciphertext_bytes(),
        plaintext,
    )
    &&& (r matches Err(EncryptError::PasswordHashFailed(_))) <==> !password_len_ok(password.len())
    &&& (r matches Err(EncryptError::EncryptionAlgorithmFailed(_))) <==> password_len_ok(password.len())
        && !aead_len_ok(plaintext.len())
    &&& !(r matches Err(EncryptError::SerializeFailed(_)))
    &&& !(r matches Err(EncryptError::GenerateSaltFailed(_)))
}

/// What [`Encrypted::decrypt`] promises of its result for an envelope and a
/// password (given as bytes).
pub open spec fn password_decrypt_post<T>(
    enc: Encrypted<T>,
    password: Seq<u8>,
    r: Result<Vec<u8>, DecryptError>,
) -> bool {
    let sealed = |p: Seq<u8>|
        aead_len_ok(p.len()) && sealed_under_password(
            password,
            enc.salt_bytes(),
            enc.nonce_bytes(),
            enc.ciphertext_bytes(),
            p,
        );
    &&& (r matches Err(DecryptError::PasswordHashFailed(_))) <==> !password_len_ok(password.len())
    &&& r matches Ok(p) ==> password_len_ok(password.len()) && sealed(p@)
    &&& r matches Err(DecryptError::IncorrectPassword) ==> password_len_ok(password.len()) && (
    forall|p: Seq<u8>| !#[trigger] sealed(p))
    &&& forall|p: Seq<u8>|
        password_len_ok(password.len()) && #[trigger] sealed(p) ==> (r matches Ok(q) && q@ == p)
    &&& !(r matches Err(DecryptError::DeserializeFailed(_)))
}

/// Encrypts a serialized value under a password with a given salt buffer
/// and nonce: derives the key from the password and the salt, seals the
/// plaintext under it, and wipes the key.
pub fn encrypt_with<T>(plaintext: &[u8], password: &str, salt: [u8; 64], nonce: [u8; 12]) -> (r:
    Result<Encrypted<T>, EncryptError>)
    requires
        plaintext@.len() + 16 <= isize::MAX,
    ensures
        password_encrypt_post(plaintext@, password.spec_bytes(), r),
        r matches Ok(enc) ==> enc.salt_bytes() == salt@ && enc.nonce_bytes() == nonce@,
{
    let mut key = match derive_key(password.as_bytes(), &salt) {
        Ok(k) => k,
        Err(e) => return Err(EncryptError::PasswordHashFailed(e)),
    };
    let sealed = aead_encrypt(&key, &nonce, plaintext);
    wipe_key(&mut key);
    match sealed {
        Ok(ciphertext) => Ok(Encrypted { salt, nonce, ciphertext, _marker: PhantomData }),
        Err(e) => Err(EncryptError::EncryptionAlgorithmFailed(e)),
    }
}

/// Encrypts a serialized value under a password: draws a random salt
/// (16 random bytes decoded into a zeroed 64-byte buffer) and a random
/// nonce, then proceeds as [`encrypt_with`].
pub fn encrypt<T>(plaintext: &[u8], password: &str) -> (r: Result<Encrypted<T>, EncryptError>)
    requires
        plaintext@.len() + 16 <= isize::MAX,
    ensures
        password_encrypt_post(plaintext@, password.spec_bytes(), r),
        r matches Ok(enc) ==> enc.salt_bytes().subrange(16, 64) == Seq::new(48, |i: int| 0u8),
{
    let mut salt = [0u8; 64];
    match generate_salt(&mut salt) {
        Ok(_) => {},
        Err(e) => return Err(EncryptError::GenerateSaltFailed(e)),
    }
    let nonce = generate_nonce();
    encrypt_with(plaintext, password, salt, nonce)
}

impl<T> Encrypted<T> {
    /// Decrypts the envelope with a password, giving back the serialized
    /// value: derives the key from the password and the stored salt, opens
    /// the ciphertext with it, and wipes the key.
    pub fn decrypt(&self, password: &str) -> (r: Result<Vec<u8>, DecryptError>)
        ensures
            password_decrypt_post(*self, password.spec_bytes(), r),
    {
        let mut key = match derive_key(password.as_bytes(), &self.salt) {
            Ok(k) => k,
            Err(e) => return Err(DecryptError::PasswordHashFailed(e)),
        };
        let opened = aead_decrypt(&key, &self.nonce, self.ciphertext.as_slice());
        wipe_key(&mut key);
        match opened {
            Ok(plaintext) => Ok(plaintext),
            Err(_) => Err(DecryptError::IncorrectPassword),
        }
    }
}

/// Decrypting, with the same password, an envelope that encryption made
/// from a plaintext gives that plaintext back.
pub proof fn lemma_password_roundtrip<T>(
    plaintext: Seq<u8>,
    password: Seq<u8>,
    encrypted: Result<Encrypted<T>, EncryptError>,
    decrypted: Result<Vec<u8>, DecryptError>,
)
    requires
        password_encrypt_post(plaintext, password, encrypted),
        encrypted is Ok,
        password_decrypt_post(encrypted->Ok_0, password, decrypted),
    ensures
        decrypted matches Ok(p) && p@ == plaintext,
{
    let enc = encrypted->Ok_0;
    let sealed = |p: Seq<u8>|
        aead_len_ok(p.len()) && sealed_under_password(
            password,
            enc.salt_bytes(),
            enc.nonce_bytes(),
            enc.ciphertext_bytes(),
            p,
        );
    assert(sealed(plaintext));
}

} // verus!
