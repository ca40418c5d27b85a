//! Asymmetric encryption of serialized values to a randomly generated
//! keypair, with HPKE (RFC 9180) in base mode: DHKEM(X25519, HKDF-SHA256),
//! HKDF-SHA256 and ChaCha20-Poly1305.
//!
//! Decryption deliberately tells an authentication failure
//! ([`DecryptError::IncorrectPrivateKey`]) apart from a payload that does not
//! decode ([`DecryptError::DeserializeFailed`]); a server that decrypts on a
//! client's behalf should merge the two before answering.

use core::marker::PhantomData;
use vstd::prelude::*;
use hpke::{Deserializable, Kem, OpModeR, OpModeS, Serializable};

verus! {

/// `hpke::HpkeError`, carried through the library as an opaque value.
#[verifier::external_type_specification]
#[verifier::external_body]
pub struct ExHpkeError(hpke::HpkeError);

/// The domain separation string of the envelope (HPKE `info`): the ASCII
/// bytes of `wincode-asymmetric-envelope`.
pub const ENVELOPE_INFO: [u8; 27] = [
    119u8, 105, 110, 99, 111, 100, 101, 45, 97, 115, 121, 109, 109, 101, 116, 114, 105, 99, 45, 101, 110, 118, 101, 108, 111, 112, 101,
];

/// The X25519 public key of a 32-byte private key (the private key is
/// clamped first).
pub uninterp spec fn x25519_public_key(private_key: Seq<u8>) -> Seq<u8>;

/// What HPKE base-mode opening (DHKEM(X25519, HKDF-SHA256), HKDF-SHA256,
/// ChaCha20-Poly1305) gives for a private key, an encapsulated key, an
/// `info` string, a ciphertext and associated data: the plaintext, or
/// nothing when decapsulation or authentication fails.
pub uninterp spec fn hpke_open(
    private_key: Seq<u8>,
    encapped_key: Seq<u8>,
    info: Seq<u8>,
    ciphertext: Seq<u8>,
    aad: Seq<u8>,
) -> Option<Seq<u8>>;

/// Whether ChaCha20-Poly1305 accepts a message of this length (fewer than
/// 2^32 - 1 blocks of 64 bytes).
pub open spec fn aead_len_ok(len: nat) -> bool {
    len / 64 < 0xFFFF_FFFF
}

/// Whether some 32-byte private key has this public key.
pub open spec fn is_public_key_of_some_private_key(public_key: Seq<u8>) -> bool {
    exists|sk: Seq<u8>| sk.len() == 32 && #[trigger] x25519_public_key(sk) == public_key
}

/// The X25519 clamping of 32 bytes (RFC 7748): the three low bits of the
/// first byte and the top bit of the last byte are cleared, and the second
/// highest bit of the last byte is set.
pub open spec fn clamp_scalar(b: Seq<u8>) -> Seq<u8> {
    b.update(0, b[0] & 0xf8u8).update(31, (b[31] & 0x7fu8) | 0x40u8)
}

/// Whether 32 bytes are already clamped.
pub open spec fn is_clamped(b: Seq<u8>) -> bool {
    &&& b.len() == 32
    &&& b[0] & 0x07u8 == 0
    &&& b[31] & 0x80u8 == 0
    &&& b[31] & 0x40u8 == 0x40u8
}

/// Calls `Kem::gen_keypair` for X25519 and keeps the serialized private
/// key. It panics if the operating system cannot give random bytes. The key
/// is random; it is derived through `PrivateKey::from_bytes`, which clamps,
/// and serialized unchanged, so it is clamped.
#[verifier::external_body]
fn x25519_generate_private_key() -> (sk: [u8; 32])
    ensures
        is_clamped(sk@),
{
    let (sk, _pk) = hpke::kem::X25519HkdfSha256::gen_keypair();
    <[u8; 32]>::from(sk.to_bytes())
}

/// Calls `Deserializable::from_bytes` for an X25519 private key and
/// serializes the key again. `from_bytes` accepts exactly 32 bytes and
/// clamps them.
#[verifier::external_body]
fn x25519_private_key_from_bytes(bytes: &[u8]) -> (r: Result<[u8; 32], hpke::HpkeError>)
    ensures
        r is Ok <==> bytes@.len() == 32,
        r matches Ok(sk) ==> sk@ == clamp_scalar(bytes@),
{
    match <hpke::kem::X25519HkdfSha256 as Kem>::PrivateKey::from_bytes(bytes) {
        Ok(sk) => Ok(<[u8; 32]>::from(sk.to_bytes())),
        Err(e) => Err(e),
    }
}

/// Calls `Deserializable::from_bytes` for an X25519 public key and
/// serializes the key again. `from_bytes` accepts exactly 32 bytes and
/// keeps them as they are.
#[verifier::external_body]
fn x25519_public_key_from_bytes(bytes: &[u8]) -> (r: Result<[u8; 32], hpke::HpkeError>)
    ensures
        r is Ok <==> bytes@.len() == 32,
        r matches Ok(pk) ==> pk@ == bytes@,
{
    match <hpke::kem::X25519HkdfSha256 as Kem>::PublicKey::from_bytes(bytes) {
        Ok(pk) => Ok(<[u8; 32]>::from(pk.to_bytes())),
        Err(e) => Err(e),
    }
}

/// Calls `Deserializable::from_bytes` for an encapsulated key of
/// DHKEM(X25519) and serializes it again. `from_bytes` accepts exactly 32
/// bytes and keeps them as they are.
#[verifier::external_body]
fn x25519_encapped_key_from_bytes(bytes: &[u8]) -> (r: Result<[u8; 32], hpke::HpkeError>)
    ensures
        r is Ok <==> bytes@.len() == 32,
        r matches Ok(enc) ==> enc@ == bytes@,
{
    match <hpke::kem::X25519HkdfSha256 as Kem>::EncappedKey::from_bytes(bytes) {
        Ok(enc) => Ok(<[u8; 32]>::from(enc.to_bytes())),
        Err(e) => Err(e),
    }
}

/// Calls `Kem::sk_to_pk` for X25519 on the private key read from its 32
/// bytes, and serializes the public key.
#[verifier::external_body]
fn x25519_sk_to_pk(sk: &[u8; 32]) -> (r: Result<[u8; 32], hpke::HpkeError>)
    ensures
        r is Ok,
        r matches Ok(pk) ==> pk@ == x25519_public_key(sk@),
{
    match <hpke::kem::X25519HkdfSha256 as Kem>::PrivateKey::from_bytes(sk) {
        Ok(sk) => Ok(<[u8; 32]>::from(hpke::kem::X25519HkdfSha256::sk_to_pk(&sk).to_bytes())),
        Err(e) => Err(e),
    }
}

/// Calls `hpke::single_shot_seal` in base mode (a `setup_sender` followed by
/// one `seal`) to the recipient public key given as 32 bytes. The
/// encapsulation is random; whatever it gives, HPKE opening with any
/// private key whose public key is the recipient's recovers the plaintext,
/// and the ciphertext is the plaintext with a 16-byte tag appended.
/// Encapsulation fails only when the Diffie-Hellman result is all zeros,
/// which no public key of a private key can give, and sealing fails only
/// when ChaCha20-Poly1305 refuses the plaintext's length (2^32 - 1 blocks of
/// 64 bytes or more); so sealing to the public key of a private key
/// succeeds for every plaintext below that length. `single_shot_seal`
/// panics when `info` is 2^16 - 5 bytes long or longer, and when the
/// operating system cannot give random bytes.
#[verifier::external_body]
fn hpke_seal(pk: &[u8; 32], info: &[u8], plaintext: &[u8], aad: &[u8]) -> (r: Result<
    ([u8; 32], Vec<u8>),
    hpke::HpkeError,
>)
    requires
        info@.len() + 5 < 0x1_0000,
        plaintext@.len() + 16 <= isize::MAX,
    ensures
        (exists|sk: Seq<u8>| sk.len() == 32 && #[trigger] x25519_public_key(sk) == pk@)
            && aead_len_ok(plaintext@.len()) ==> r is Ok,
        r matches Ok((enc, ct)) ==> ct@.len() == plaintext@.len() + 16,
        r matches Ok((enc, ct)) ==> forall|sk: Seq<u8>|
            sk.len() == 32 && #[trigger] x25519_public_key(sk) == pk@ ==> hpke_open(
                sk,
                enc@,
                info@,
                ct@,
                aad@,
            ) == Some(plaintext@),
{
    let pk = <hpke::kem::X25519HkdfSha256 as Kem>::PublicKey::from_bytes(pk)?;
    match hpke::single_shot_seal::<
        hpke::aead::ChaCha20Poly1305,
        hpke::kdf::HkdfSha256,
        hpke::kem::X25519HkdfSha256,
    >(&OpModeS::Base, &pk, info, plaintext, aad) {
        Ok((enc, ct)) => Ok((<[u8; 32]>::from(enc.to_bytes()), ct)),
        Err(e) => Err(e),
    }
}

/// Calls `hpke::single_shot_open` in base mode (a `setup_receiver` followed
/// by one `open`) with the private key and the encapsulated key given as
/// 32 bytes each. `single_shot_open` panics when `info` is 2^16 - 5 bytes
/// long or longer.
#[verifier::external_body]
fn hpke_single_shot_open(
    sk: &[u8; 32],
    enc: &[u8; 32],
    info: &[u8],
    ciphertext: &[u8],
    aad: &[u8],
) -> (r: Result<Vec<u8>, hpke::HpkeError>)
    requires
        info@.len() + 5 < 0x1_0000,
    ensures
        r is Ok <==> hpke_open(sk@, enc@, info@, ciphertext@, aad@) is Some,
        r matches Ok(p) ==> hpke_open(sk@, enc@, info@, ciphertext@, aad@) == Some(p@),
{
    let sk = <hpke::kem::X25519HkdfSha256 as Kem>::PrivateKey::from_bytes(sk)?;
    let enc = <hpke::kem::X25519HkdfSha256 as Kem>::EncappedKey::from_bytes(enc)?;
    hpke::single_shot_open::<
        hpke::aead::ChaCha20Poly1305,
        hpke::kdf::HkdfSha256,
        hpke::kem::X25519HkdfSha256,
    >(&OpModeR::Base, &sk, &enc, info, ciphertext, aad)
}

/// Failure to encrypt a value to a public key.
#[derive(Debug)]
pub enum EncryptError {
    /// The value could not be serialized.
    SerializeFailed(wincode::WriteError),
    /// HPKE encapsulation or sealing failed.
    EncryptionAlgorithmFailed(hpke::HpkeError),
}

/// Failure to decrypt an envelope with a private key.
#[derive(Debug)]
pub enum DecryptError {
    /// The envelope does not open under this private key.
    IncorrectPrivateKey,
    /// The plaintext does not decode as a value of the expected type.
    DeserializeFailed(wincode::ReadError),
}

/// An X25519 private key, held as its 32 serialized (clamped) bytes.
pub struct PrivKey {
    bytes: [u8; 32],
}

/// An X25519 public key, held as its 32 serialized bytes.
#[derive(Debug, Clone, Copy)]
pub struct PubKey {
    bytes: [u8; 32],
}

/// An HPKE encapsulated key of DHKEM(X25519), held as its 32 bytes.
#[derive(Debug, Clone, Copy, PartialEq, Eq)]
struct EncappedKey {
    bytes: [u8; 32],
}

impl PrivKey {
    #[verifier::type_invariant]
    spec fn clamped(self) -> bool {
        is_clamped(self.bytes@)
    }
}

impl View for PrivKey {
    type V = Seq<u8>;

    closed spec fn view(&self) -> Seq<u8> {
        self.bytes@
    }
}

impl View for PubKey {
    type V = Seq<u8>;

    closed spec fn view(&self) -> Seq<u8> {
        self.bytes@
    }
}

impl Clone for PrivKey {
    fn clone(&self) -> (copy: Self)
        ensures
            copy@ == self@,
    {
        proof {
            use_type_invariant(self);
        }
        PrivKey { bytes: self.bytes }
    }
}

impl PrivKey {
    /// Generates a new random private key.
    pub fn generate() -> (key: PrivKey)
        ensures
            is_clamped(key@),
    {
        PrivKey { bytes: x25519_generate_private_key() }
    }

    /// The public key that belongs to this private key.
    pub fn pub_key(&self) -> (key: PubKey)
        ensures
            key@ == x25519_public_key(self@),
            is_public_key_of_some_private_key(key@),
    {
        proof {
            use_type_invariant(self);
        }
        match x25519_sk_to_pk(&self.bytes) {
            Ok(bytes) => PubKey { bytes },
            Err(_) => PubKey { bytes: [0u8; 32] },
        }
    }

    /// The 32 bytes that serialize this key.
    pub fn to_bytes(&self) -> (bytes: [u8; 32])
        ensures
            bytes@ == self@,
            is_clamped(bytes@),
    {
        proof {
            use_type_invariant(self);
        }
        self.bytes
    }

    /// Reads a private key from its serialized bytes: exactly 32 bytes are
    /// accepted, and they are clamped.
    pub fn from_bytes(bytes: &[u8]) -> (r: Result<PrivKey, hpke::HpkeError>)
        ensures
            r is Ok <==> bytes@.len() == 32,
            r matches Ok(key) ==> key@ == clamp_scalar(bytes@),
    {
        match x25519_private_key_from_bytes(bytes) {
            Ok(sk) => {
                proof {
                    lemma_clamp_is_clamped(bytes@);
                }
                Ok(PrivKey { bytes: sk })
            },
            Err(e) => Err(e),
        }
    }
}

/// Whether two 32-byte keys are equal. Every byte pair is looked at,
/// whatever the earlier ones were, so the time taken does not depend on
/// where the keys differ.
fn key_bytes_eq(a: &[u8; 32], b: &[u8; 32]) -> (r: bool)
    ensures
        r == (a@ == b@),
{
    let mut diff: u8 = 0;
    let mut i: usize = 0;
    while i < 32
        invariant
            i <= 32,
            a@.len() == 32,
            b@.len() == 32,
            (diff == 0) <==> (forall|j: int| 0 <= j < i ==> a@[j] == b@[j]),
        decreases 32 - i,
    {
        let x: u8 = a[i];
        let y: u8 = b[i];
        let d: u8 = diff;
        assert(((d | (x ^ y)) == 0) <==> (d == 0 && x == y)) by (bit_vector);
        diff = diff | (x ^ y);
        i = i + 1;
    }
    if diff == 0 {
        assert(a@ =~= b@);
        true
    } else {
        false
    }
}

impl PartialEq for PrivKey {
    fn eq(&self, other: &PrivKey) -> (r: bool) {
        key_bytes_eq(&self.bytes, &other.bytes)
    }
}

impl PartialEq for PubKey {
    fn eq(&self, other: &PubKey) -> (r: bool) {
        key_bytes_eq(&self.bytes, &other.bytes)
    }
}

impl vstd::std_specs::cmp::PartialEqSpecImpl for PubKey {
    open spec fn obeys_eq_spec() -> bool {
        true
    }

    open spec fn eq_spec(&self, other: &PubKey) -> bool {
        self@ == other@
    }
}

impl Eq for PubKey {
}

impl vstd::std_specs::cmp::PartialEqSpecImpl for PrivKey {
    open spec fn obeys_eq_spec() -> bool {
        true
    }

    open spec fn eq_spec(&self, other: &PrivKey) -> bool {
        self@ == other@
    }
}

impl Eq for PrivKey {
}

impl PubKey {
    /// The 32 bytes that serialize this key.
    pub fn to_bytes(&self) -> (bytes: [u8; 32])
        ensures
            bytes@ == self@,
    {
        self.bytes
    }

    /// Reads a public key from its serialized bytes: exactly 32 bytes are
    /// accepted, and kept as they are.
    pub fn from_bytes(bytes: &[u8]) -> (r: Result<PubKey, hpke::HpkeError>)
        ensures
            r is Ok <==> bytes@.len() == 32,
            r matches Ok(key) ==> key@ == bytes@,
    {
        match x25519_public_key_from_bytes(bytes) {
            Ok(pk) => Ok(PubKey { bytes: pk }),
            Err(e) => Err(e),
        }
    }
}

/// Clamping gives clamped bytes.
proof fn lemma_clamp_is_clamped(b: Seq<u8>)
    requires
        b.len() == 32,
    ensures
        is_clamped(clamp_scalar(b)),
{
    let c = clamp_scalar(b);
    let b0: u8 = b[0];
    let b31: u8 = b[31];
    assert((b0 & 0xf8u8) & 0x07u8 == 0) by (bit_vector);
    assert(((b31 & 0x7fu8) | 0x40u8) & 0x80u8 == 0) by (bit_vector);
    assert(((b31 & 0x7fu8) | 0x40u8) & 0x40u8 == 0x40u8) by (bit_vector);
    assert(c[0] == b0 & 0xf8u8);
    assert(c[31] == (b31 & 0x7fu8) | 0x40u8);
}

/// Reading back the bytes written for a private key gives the same key:
/// clamping leaves clamped bytes as they are.
pub proof fn lemma_private_key_bytes_roundtrip(bytes: Seq<u8>)
    requires
        is_clamped(bytes),
    ensures
        clamp_scalar(bytes) == bytes,
{
    let b0: u8 = bytes[0];
    let b31: u8 = bytes[31];
    assert(b0 & 0x07u8 == 0 ==> b0 & 0xf8u8 == b0) by (bit_vector);
    assert(b31 & 0x80u8 == 0 && b31 & 0x40u8 == 0x40u8 ==> (b31 & 0x7fu8) | 0x40u8 == b31)
        by (bit_vector);
    assert(clamp_scalar(bytes) =~= bytes);
}

/// A value of type `T`, serialized and encrypted to a public key: the HPKE
/// encapsulated key and the ciphertext.
pub struct Encrypted<T> {
    encapsulated_key: EncappedKey,
    ciphertext: Vec<u8>,
    _marker: PhantomData<T>,
}

impl<T> Clone for Encrypted<T> {
    fn clone(&self) -> (copy: Self)
        ensures
            copy.encapsulated_key_bytes() == self.encapsulated_key_bytes(),
            copy.ciphertext_bytes() == self.ciphertext_bytes(),
    {
        Encrypted {
            encapsulated_key: self.encapsulated_key,
            ciphertext: self.ciphertext.clone(),
            _marker: PhantomData,
        }
    }
}

impl<T> Encrypted<T> {
    /// The 32 bytes of the encapsulated key.
    pub closed spec fn encapsulated_key_bytes(&self) -> Seq<u8> {
        self.encapsulated_key.bytes@
    }

    /// The ciphertext.
    pub closed spec fn ciphertext_bytes(&self) -> Seq<u8> {
        self.ciphertext@
    }
}

impl<T> Encrypted<T> {
    /// The 32 bytes of the encapsulated key.
    pub fn encapsulated_key(&self) -> (r: [u8; 32])
        ensures
            r@ == self.encapsulated_key_bytes(),
    {
        self.encapsulated_key.bytes
    }

    /// The ciphertext.
    pub fn ciphertext(&self) -> (r: &[u8])
        ensures
            r@ == self.ciphertext_bytes(),
    {
        self.ciphertext.as_slice()
    }

    /// Rebuilds an envelope from its serialized parts: the encapsulated key
    /// must be exactly 32 bytes long.
    pub fn from_parts(encapsulated_key: &[u8], ciphertext: Vec<u8>) -> (r: Result<
        Encrypted<T>,
        hpke::HpkeError,
    >)
        ensures
            r is Ok <==> encapsulated_key@.len() == 32,
            r matches Ok(e) ==> e.encapsulated_key_bytes() == encapsulated_key@
                && e.ciphertext_bytes() == ciphertext@,
    {
        match x25519_encapped_key_from_bytes(encapsulated_key) {
            Ok(bytes) => Ok(
                Encrypted { encapsulated_key: EncappedKey { bytes }, ciphertext, _marker: PhantomData },
            ),
            Err(e) => Err(e),
        }
    }
}

/// What HPKE opening of an envelope gives with a private key (given as
/// bytes).
pub open spec fn open_envelope<T>(enc: Encrypted<T>, private_key: Seq<u8>) -> Option<Seq<u8>> {
    hpke_open(
        private_key,
        enc.encapsulated_key_bytes(),
        ENVELOPE_INFO@,
        enc.ciphertext_bytes(),
        Seq::empty(),
    )
}

/// What [`encrypt`] promises of its result for a plaintext and a recipient
/// public key (given as bytes): it succeeds when the key is the public key
/// of a private key and the plaintext is not too long for the cipher, with
/// an envelope that every private key of the recipient opens to the
/// plaintext and whose ciphertext is the plaintext plus a 16-byte tag.
pub open spec fn keypair_encrypt_post<T>(
    plaintext: Seq<u8>,
    public_key: Seq<u8>,
    r: Result<Encrypted<T>, EncryptError>,
) -> bool {
    &&& is_public_key_of_some_private_key(public_key) && aead_len_ok(plaintext.len()) ==> r is Ok
    &&& r matches Ok(enc) ==> enc.ciphertext_bytes().len() == plaintext.len() + 16
    &&& r matches Ok(enc) ==> forall|sk: Seq<u8>|
        sk.len() == 32 && #[trigger] x25519_public_key(sk) == public_key ==> open_envelope(enc, sk)
            == Some(plaintext)
    &&& !(r matches Err(EncryptError::SerializeFailed(_)))
}

/// What [`Encrypted::decrypt`] promises of its result for an envelope and a
/// private key (given as bytes).
pub open spec fn keypair_decrypt_post<T>(
    enc: Encrypted<T>,
    private_key: Seq<u8>,
    r: Result<Vec<u8>, DecryptError>,
) -> bool {
    match open_envelope(enc, private_key) {
        Some(p) => r matches Ok(q) && q@ == p,
        None => r matches Err(DecryptError::IncorrectPrivateKey),
    }
}

/// Builds the envelope from what HPKE sealing gave: the encapsulated key and
/// the ciphertext, or the HPKE error.
pub fn envelope_from_seal<T>(sealed: Result<([u8; 32], Vec<u8>), hpke::HpkeError>) -> (r: Result<
    Encrypted<T>,
    EncryptError,
>)
    ensures
        match sealed {
            Ok((enc, ct)) => r matches Ok(e) && e.encapsulated_key_bytes() == enc@
                && e.ciphertext_bytes() == ct@,
            Err(err) => r == Err::<Encrypted<T>, EncryptError>(
                EncryptError::EncryptionAlgorithmFailed(err),
            ),
        },
{
    match sealed {
        Ok((enc, ciphertext)) => Ok(
            Encrypted { encapsulated_key: EncappedKey { bytes: enc }, ciphertext, _marker: PhantomData },
        ),
        Err(e) => Err(EncryptError::EncryptionAlgorithmFailed(e)),
    }
}

/// Encrypts a serialized value to a public key, with HPKE in base mode, the
/// envelope's `info` string and empty associated data.
pub fn encrypt<T>(plaintext: &[u8], key: &PubKey) -> (r: Result<Encrypted<T>, EncryptError>)
    requires
        plaintext@.len() + 16 <= isize::MAX,
    ensures
        keypair_encrypt_post(plaintext@, key@, r),
{
    let info = ENVELOPE_INFO;
    let aad: Vec<u8> = Vec::new();
    let sealed = hpke_seal(&key.bytes, info.as_slice(), plaintext, aad.as_slice());
    assert(aad@ == Seq::<u8>::empty());
    envelope_from_seal(sealed)
}

impl<T> Encrypted<T> {
    /// Decrypts the envelope with a private key, giving back the serialized
    /// value.
    pub fn decrypt(&self, key: &PrivKey) -> (r: Result<Vec<u8>, DecryptError>)
        ensures
            keypair_decrypt_post(*self, key@, r),
    {
        let info = ENVELOPE_INFO;
        let aad: Vec<u8> = Vec::new();
        assert(aad@ == Seq::<u8>::empty());
        match hpke_single_shot_open(
            &key.bytes,
            &self.encapsulated_key.bytes,
            info.as_slice(),
            self.ciphertext.as_slice(),
            aad.as_slice(),
        ) {
            Ok(plaintext) => Ok(plaintext),
            Err(_) => Err(DecryptError::IncorrectPrivateKey),
        }
    }
}

/// Decrypting, with a private key, an envelope that encryption made to that
/// key's public key gives the plaintext back.
pub proof fn lemma_keypair_roundtrip<T>(
    plaintext: Seq<u8>,
    private_key: Seq<u8>,
    encrypted: Result<Encrypted<T>, EncryptError>,
    decrypted: Result<Vec<u8>, DecryptError>,
)
    requires
        private_key.len() == 32,
        keypair_encrypt_post(plaintext, x25519_public_key(private_key), encrypted),
        encrypted is Ok,
        keypair_decrypt_post(encrypted->Ok_0, private_key, decrypted),
    ensures
        decrypted matches Ok(p) && p@ == plaintext,
{
}

} // verus!
