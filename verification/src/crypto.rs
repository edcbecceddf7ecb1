//! Session-key derivation and the authenticated encryption of protocol messages.
use vstd::prelude::*;

use aes_gcm::aead::{Aead, KeyInit};
use aes_gcm::{Aes256Gcm, Nonce};
use hkdf::Hkdf;
use sha2::{Digest, Sha256};
use ed25519_dalek::{Signature, Signer, SigningKey, Verifier, VerifyingKey};
use curve25519_dalek::montgomery::MontgomeryPoint;
use aes_gcm::aes::Aes256;
use ctr::cipher::{KeyIvInit, StreamCipher, StreamCipherSeek};
use ctr::Ctr128BE;

use crate::bytes::{be64, lemma_be64_roundtrip};

verus! {

/// Length of the AES-GCM authentication tag appended to every ciphertext.
pub const AES_GCM_TAG_LEN: usize = 16;

/// The longest plaintext that AES-GCM accepts, in bytes.
pub const AES_GCM_MAX_PLAINTEXT: u64 = 68719476736;

/// The ciphertext (with its tag appended) that AES-256-GCM produces for `plaintext`
/// under `key` and `nonce`, with no associated data.
pub uninterp spec fn aes256gcm_seal(key: Seq<u8>, nonce: Seq<u8>, plaintext: Seq<u8>) -> Seq<u8>;

/// The plaintext that AES-256-GCM recovers from `ciphertext` under `key` and `nonce`,
/// or `None` when the tag does not authenticate it.
pub uninterp spec fn aes256gcm_open(key: Seq<u8>, nonce: Seq<u8>, ciphertext: Seq<u8>) -> Option<
    Seq<u8>,
>;

/// The SHA-256 digest of `data`.
pub uninterp spec fn sha256(data: Seq<u8>) -> Seq<u8>;

/// The 64-byte HMAC-SHA-256 block made of `key` and `pad`: a key longer than a block
/// is hashed first, the key is filled up with zero bytes, and every byte is XORed with
/// `pad`.
pub open spec fn hmac_block(key: Seq<u8>, pad: u8) -> Seq<u8> {
    let k = if key.len() > 64 {
        sha256(key)
    } else {
        key
    };
    Seq::new(64, |i: int| if i < k.len() { k[i] ^ pad } else { pad })
}

/// HMAC-SHA-256 of `msg` under `key`.
pub open spec fn hmac_sha256(key: Seq<u8>, msg: Seq<u8>) -> Seq<u8> {
    sha256(hmac_block(key, 0x5cu8) + sha256(hmac_block(key, 0x36u8) + msg))
}

/// The 32 output bytes of HKDF-SHA-256 with no salt (a salt of 32 zero bytes) over
/// input key material `ikm`, expanded with `info`: the first output block.
pub open spec fn hkdf_sha256_32(ikm: Seq<u8>, info: Seq<u8>) -> Seq<u8> {
    hmac_sha256(hmac_sha256(Seq::new(32, |i: int| 0u8), ikm), info + seq![1u8])
}

/// Calls `Aes256Gcm::new_from_slice` and `Aead::encrypt` of the `aes-gcm` crate.
/// Claims: the result is the named AES-256-GCM ciphertext of the arguments and is
/// 16 bytes (the tag) longer than the plaintext. The crate refuses plaintexts longer
/// than 2^36 bytes, which `requires` leaves out.
#[verifier::external_body]
fn aes256gcm_encrypt(key: &[u8; 32], nonce: &[u8; 12], plaintext: &[u8]) -> (ct: Vec<u8>)
    requires
        plaintext@.len() <= AES_GCM_MAX_PLAINTEXT,
    ensures
        ct@ == aes256gcm_seal(key@, nonce@, plaintext@),
        ct@.len() == plaintext@.len() + AES_GCM_TAG_LEN,
{
    let cipher = Aes256Gcm::new_from_slice(key).unwrap();
    cipher.encrypt(Nonce::from_slice(nonce), plaintext).unwrap()
}

/// Calls `Aes256Gcm::new_from_slice` and `Aead::decrypt` of the `aes-gcm` crate.
/// Claims: the result is the named AES-256-GCM opening of the arguments, and a
/// ciphertext that encryption produced under the same key and nonce opens to its
/// plaintext (the correctness of an AEAD scheme).
#[verifier::external_body]
fn aes256gcm_decrypt(key: &[u8; 32], nonce: &[u8; 12], ciphertext: &[u8]) -> (pt: Option<Vec<u8>>)
    ensures
        pt is Some <==> aes256gcm_open(key@, nonce@, ciphertext@) is Some,
        pt matches Some(p) ==> aes256gcm_open(key@, nonce@, ciphertext@) == Some(p@),
        forall|m: Seq<u8>|
            #![trigger aes256gcm_seal(key@, nonce@, m)]
            m.len() <= AES_GCM_MAX_PLAINTEXT && aes256gcm_seal(key@, nonce@, m) == ciphertext@
                ==> pt is Some && pt.unwrap()@ == m,
{
    let cipher = Aes256Gcm::new_from_slice(key).unwrap();
    cipher.decrypt(Nonce::from_slice(nonce), ciphertext).ok()
}

/// Calls `Sha256::digest` of the `sha2` crate. Claims: the result is the named
/// SHA-256 digest of `data`.
#[verifier::external_body]
pub(crate) fn sha256_digest(data: &[u8]) -> (out: [u8; 32])
    ensures
        out@ == sha256(data@),
{
    Sha256::digest(data).into()
}

/// Calls `Hkdf::<Sha256>::new` (no salt) and `Hkdf::expand` of the `hkdf` crate into a
/// 32-byte buffer. Claims: the result is HKDF-SHA-256 (RFC 5869) over HMAC-SHA-256,
/// which for 32 output bytes is the first expansion block. The crate fails only for
/// outputs longer than 255 hash lengths, never for 32 bytes.
#[verifier::external_body]
fn hkdf_sha256_expand_32(ikm: &[u8], info: &[u8]) -> (okm: [u8; 32])
    ensures
        okm@ == hkdf_sha256_32(ikm@, info@),
{
    let hk = Hkdf::<Sha256>::new(None, ikm);
    let mut key = [0u8; 32];
    hk.expand(info, &mut key).unwrap();
    key
}

/// The Ed25519 public key of the 32-byte secret key `secret`.
pub uninterp spec fn ed25519_public_key(secret: Seq<u8>) -> Seq<u8>;

/// The Ed25519 signature of `msg` under the 32-byte secret key `secret`.
pub uninterp spec fn ed25519_signature(secret: Seq<u8>, msg: Seq<u8>) -> Seq<u8>;

/// Whether `sig` is a valid Ed25519 signature of `msg` under public key `public`.
pub uninterp spec fn ed25519_valid(public: Seq<u8>, msg: Seq<u8>, sig: Seq<u8>) -> bool;

/// Calls `SigningKey::from_bytes` and `SigningKey::verifying_key` of `ed25519-dalek`.
/// Claims: the result is the named public key of `secret`.
#[verifier::external_body]
pub(crate) fn ed25519_public_key_of(secret: &[u8; 32]) -> (public: [u8; 32])
    ensures
        public@ == ed25519_public_key(secret@),
{
    SigningKey::from_bytes(secret).verifying_key().to_bytes()
}

/// Calls `SigningKey::from_bytes`, `Signer::sign` and `Signature::to_bytes` of
/// `ed25519-dalek`. Claims: the result is the named signature of `msg` under `secret`.
#[verifier::external_body]
pub(crate) fn ed25519_sign(secret: &[u8; 32], msg: &[u8]) -> (sig: [u8; 64])
    ensures
        sig@ == ed25519_signature(secret@, msg@),
{
    SigningKey::from_bytes(secret).sign(msg).to_bytes()
}

/// Calls `VerifyingKey::from_bytes`, `Signature::from_bytes` and `Verifier::verify` of
/// `ed25519-dalek`; a public key that does not decode verifies nothing. Claims: the
/// result is the named validity of the signature, and a signature made with a secret
/// key verifies under that key's public key (the correctness of Ed25519).
#[verifier::external_body]
pub(crate) fn ed25519_verify(public: &[u8; 32], msg: &[u8], sig: &[u8; 64]) -> (ok: bool)
    ensures
        ok == ed25519_valid(public@, msg@, sig@),
        forall|secret: Seq<u8>|
            #![trigger ed25519_signature(secret, msg@)]
            secret.len() == 32 && public@ == ed25519_public_key(secret) && sig@ == ed25519_signature(secret, msg@)
                ==> ok,
{
    match VerifyingKey::from_bytes(public) {
        Ok(key) => key.verify(msg, &Signature::from_bytes(sig)).is_ok(),
        Err(_) => false,
    }
}

/// The X25519 public share of the 32-byte ephemeral secret `secret`.
pub uninterp spec fn x25519_public(secret: Seq<u8>) -> Seq<u8>;

/// The X25519 shared secret of the ephemeral secret `secret` and the peer's share `peer`.
pub uninterp spec fn x25519_shared(secret: Seq<u8>, peer: Seq<u8>) -> Seq<u8>;

/// Calls `MontgomeryPoint::mul_base_clamped` of `curve25519-dalek` (X25519 with the
/// base point). Claims: the result is the named public share of `secret`.
#[verifier::external_body]
pub(crate) fn x25519_public_of(secret: &[u8; 32]) -> (public: [u8; 32])
    ensures
        public@ == x25519_public(secret@),
{
    MontgomeryPoint::mul_base_clamped(*secret).to_bytes()
}

/// Calls `MontgomeryPoint::mul_clamped` of `curve25519-dalek` (X25519). Claims: the
/// result is the named shared secret, and, Diffie-Hellman's agreement, it is the
/// secret that the owner of the peer's share computes from this side's share.
#[verifier::external_body]
pub(crate) fn x25519_agree(secret: &[u8; 32], peer: &[u8; 32]) -> (shared: [u8; 32])
    ensures
        shared@ == x25519_shared(secret@, peer@),
        forall|other: Seq<u8>|
            #![trigger x25519_public(other)]
            other.len() == 32 && peer@ == x25519_public(other) ==> shared@ == x25519_shared(
                other,
                x25519_public(secret@),
            ),
{
    MontgomeryPoint(*peer).mul_clamped(*secret).to_bytes()
}

/// Ed25519 does what it is for on `secret` and `msg`: the public key is 32 bytes, the
/// signature 64, and the signature verifies under the public key: what the arrays of
/// `ed25519_public_key_of` and `ed25519_sign` and the correctness clause of
/// `ed25519_verify` state whenever they are called on these values.
pub open spec fn ed25519_sound(secret: Seq<u8>, msg: Seq<u8>) -> bool {
    &&& ed25519_public_key(secret).len() == 32
    &&& ed25519_signature(secret, msg).len() == 64
    &&& ed25519_valid(ed25519_public_key(secret), msg, ed25519_signature(secret, msg))
}

/// X25519 does what it is for on the ephemeral secrets `a` and `b`: their shares are
/// 32 bytes, and each secret with the other's share gives the same shared secret: what
/// `x25519_public_of` and the agreement clause of `x25519_agree` state whenever they
/// are called on these values.
pub open spec fn x25519_agrees(a: Seq<u8>, b: Seq<u8>) -> bool {
    &&& x25519_public(a).len() == 32
    &&& x25519_public(b).len() == 32
    &&& x25519_shared(a, x25519_public(b)) == x25519_shared(b, x25519_public(a))
}

/// The bytes AES-256 in counter mode (128-bit big-endian counter) makes of `data`
/// under `key` and `iv`, starting at byte `position` of the keystream.
pub uninterp spec fn aes256ctr(key: Seq<u8>, iv: Seq<u8>, position: nat, data: Seq<u8>) -> Seq<u8>;

/// The keystream byte at `position`: what the cipher makes of one zero byte there.
pub open spec fn ctr_keystream_byte(key: Seq<u8>, iv: Seq<u8>, position: nat) -> u8 {
    aes256ctr(key, iv, position, seq![0u8])[0]
}

/// Calls `Ctr128BE::<Aes256>::new`, `StreamCipherSeek::seek` and
/// `StreamCipher::apply_keystream` of the `ctr` crate. Claims: the result is the named
/// output; every byte is the input byte XORed with the keystream byte at its place.
/// The 128-bit counter starts at zero, so the crate's keystream never runs out here.
#[verifier::external_body]
fn aes256ctr_apply(key: &[u8; 32], iv: &[u8; 16], position: u64, data: &[u8]) -> (out: Vec<u8>)
    ensures
        out@ == aes256ctr(key@, iv@, position as nat, data@),
        out@.len() == data@.len(),
        forall|j: int|
            0 <= j < data@.len() ==> #[trigger] out@[j] == data@[j] ^ ctr_keystream_byte(
                key@,
                iv@,
                (position + j) as nat,
            ),
{
    let mut cipher = Ctr128BE::<Aes256>::new(key.into(), iv.into());
    cipher.seek(position);
    let mut out = data.to_vec();
    cipher.apply_keystream(&mut out);
    out
}

/// `data` XORed with the keystream from byte `position` on.
pub open spec fn keystream_xor(key: Seq<u8>, iv: Seq<u8>, position: nat, data: Seq<u8>) -> Seq<u8> {
    Seq::new(data.len(), |j: int| data[j] ^ ctr_keystream_byte(key, iv, (position + j) as nat))
}

/// Applying the keystream twice at the same place gives the data back.
pub proof fn lemma_keystream_involution(key: Seq<u8>, iv: Seq<u8>, position: nat, data: Seq<u8>)
    ensures
        keystream_xor(key, iv, position, keystream_xor(key, iv, position, data)) == data,
{
    let once = keystream_xor(key, iv, position, data);
    let twice = keystream_xor(key, iv, position, once);
    assert forall|j: int| 0 <= j < data.len() implies twice[j] == data[j] by {
        let d = data[j];
        let k = ctr_keystream_byte(key, iv, (position + j) as nat);
        assert((d ^ k) ^ k == d) by (bit_vector);
    }
    assert(twice =~= data);
}

/// The keystream does not care how the data is cut: two pieces at successive places
/// give what the whole gives.
pub proof fn lemma_keystream_split(key: Seq<u8>, iv: Seq<u8>, position: nat, a: Seq<u8>, b: Seq<u8>)
    ensures
        keystream_xor(key, iv, position, a + b) == keystream_xor(key, iv, position, a)
            + keystream_xor(key, iv, position + a.len(), b),
{
    assert(keystream_xor(key, iv, position, a + b) =~= keystream_xor(key, iv, position, a)
        + keystream_xor(key, iv, position + a.len(), b));
}

/// The 16-byte counter-mode IV of the body stream that takes message number `counter`:
/// the byte 1 (no AES-GCM counter block starts with it), the counter in big-endian
/// order, then seven zero bytes where the block counter runs.
pub open spec fn body_iv(counter: u64) -> Seq<u8> {
    seq![1u8] + be64(counter) + seq![0u8, 0u8, 0u8, 0u8, 0u8, 0u8, 0u8]
}

/// The cipher of one file body: AES-256 in counter mode under the session key, at a
/// place in its keystream.
pub struct BodyCipher {
    pub key: [u8; 32],
    pub iv: [u8; 16],
    pub position: u64,
}

impl BodyCipher {
    /// The cipher of the body that takes message number `counter`, at its start.
    pub fn new(key: [u8; 32], counter: u64) -> (c: Self)
        ensures
            c.key == key,
            c.iv@ == body_iv(counter),
            c.position == 0,
    {
        let iv: [u8; 16] = [
            1u8,
            (counter >> 56u64) as u8,
            (counter >> 48u64) as u8,
            (counter >> 40u64) as u8,
            (counter >> 32u64) as u8,
            (counter >> 24u64) as u8,
            (counter >> 16u64) as u8,
            (counter >> 8u64) as u8,
            counter as u8,
            0u8,
            0u8,
            0u8,
            0u8,
            0u8,
            0u8,
            0u8,
        ];
        assert(iv@ =~= body_iv(counter));
        BodyCipher { key, iv, position: 0 }
    }

    /// Encrypts (or, the same, decrypts) the next piece of the body and moves on.
    pub fn apply(&mut self, data: &[u8]) -> (out: Vec<u8>)
        requires
            old(self).position + data@.len() <= u64::MAX,
        ensures
            out@ == keystream_xor(old(self).key@, old(self).iv@, old(self).position as nat, data@),
            final(self).position == old(self).position + data@.len(),
            final(self).key == old(self).key,
            final(self).iv == old(self).iv,
    {
        let out = aes256ctr_apply(&self.key, &self.iv, self.position, data);
        assert(out@ =~= keystream_xor(self.key@, self.iv@, self.position as nat, data@));
        self.position = self.position + data.len() as u64;
        out
    }
}

/// The 12-byte AES-GCM nonce used for the message with number `counter`:
/// four zero bytes, then the counter in big-endian order.
pub open spec fn counter_nonce(counter: u64) -> Seq<u8> {
    seq![0u8, 0u8, 0u8, 0u8] + be64(counter)
}

/// Distinct message numbers get distinct nonces, so a channel whose counter only
/// grows never reuses a nonce under its key.
pub proof fn lemma_counter_nonce_injective(a: u64, b: u64)
    ensures
        counter_nonce(a) == counter_nonce(b) ==> a == b,
{
    if counter_nonce(a) == counter_nonce(b) {
        assert(counter_nonce(a).subrange(4, 12) =~= be64(a));
        assert(counter_nonce(b).subrange(4, 12) =~= be64(b));
        lemma_be64_roundtrip(a);
        lemma_be64_roundtrip(b);
    }
}

/// Builds the nonce of message number `counter`.
pub fn nonce_for_counter(counter: u64) -> (nonce: [u8; 12])
    ensures
        nonce@ == counter_nonce(counter),
{
    let nonce: [u8; 12] = [
        0u8,
        0u8,
        0u8,
        0u8,
        (counter >> 56u64) as u8,
        (counter >> 48u64) as u8,
        (counter >> 40u64) as u8,
        (counter >> 32u64) as u8,
        (counter >> 24u64) as u8,
        (counter >> 16u64) as u8,
        (counter >> 8u64) as u8,
        counter as u8,
    ];
    assert(nonce@ =~= counter_nonce(counter));
    nonce
}

/// The ciphertext of message number `counter` under `key`.
pub open spec fn spec_encrypt(key: Seq<u8>, counter: u64, plaintext: Seq<u8>) -> Seq<u8> {
    aes256gcm_seal(key, counter_nonce(counter), plaintext)
}

/// Encrypts `plaintext` as message number `counter` under `key`.
pub fn encrypt(key: &[u8; 32], counter: u64, plaintext: &[u8]) -> (ct: Vec<u8>)
    requires
        plaintext@.len() <= AES_GCM_MAX_PLAINTEXT,
    ensures
        ct@ == spec_encrypt(key@, counter, plaintext@),
        ct@.len() == plaintext@.len() + AES_GCM_TAG_LEN,
{
    let nonce = nonce_for_counter(counter);
    aes256gcm_encrypt(key, &nonce, plaintext)
}

/// Why a message could not be decrypted.
#[derive(Debug, Clone, Copy, PartialEq, Eq, Structural)]
pub enum CryptoError {
    /// The ciphertext is not authentic under this key and counter.
    DecryptionFailed,
}

/// Decrypts `data` as message number `counter` under `key`. A ciphertext produced by
/// `encrypt` with the same key and counter decrypts to its plaintext.
pub fn decrypt(key: &[u8; 32], counter: u64, data: &[u8]) -> (res: Result<Vec<u8>, CryptoError>)
    ensures
        match res {
            Ok(p) => aes256gcm_open(key@, counter_nonce(counter), data@) == Some(p@),
            Err(e) => e == CryptoError::DecryptionFailed && aes256gcm_open(
                key@,
                counter_nonce(counter),
                data@,
            ) is None,
        },
        forall|m: Seq<u8>|
            m.len() <= AES_GCM_MAX_PLAINTEXT && #[trigger] spec_encrypt(key@, counter, m) == data@
                ==> (res matches Ok(p) && p@ == m),
{
    let nonce = nonce_for_counter(counter);
    match aes256gcm_decrypt(key, &nonce, data) {
        Some(p) => Ok(p),
        None => Err(CryptoError::DecryptionFailed),
    }
}

/// Lexicographic order on byte strings.
pub open spec fn lex_le(a: Seq<u8>, b: Seq<u8>) -> bool
    decreases a.len(),
{
    if a.len() == 0 || b.len() == 0 {
        a.len() <= b.len()
    } else if a[0] != b[0] {
        a[0] < b[0]
    } else {
        lex_le(a.drop_first(), b.drop_first())
    }
}

/// Lexicographic order is total and antisymmetric.
pub proof fn lemma_lex_le_total_antisymmetric(a: Seq<u8>, b: Seq<u8>)
    ensures
        lex_le(a, b) || lex_le(b, a),
        lex_le(a, b) && lex_le(b, a) ==> a == b,
    decreases a.len(),
{
    if a.len() == 0 || b.len() == 0 {
        if a.len() == 0 && b.len() == 0 {
            assert(a =~= b);
        }
    } else if a[0] != b[0] {
    } else {
        lemma_lex_le_total_antisymmetric(a.drop_first(), b.drop_first());
        if a.drop_first() == b.drop_first() {
            assert(a =~= seq![a[0]] + a.drop_first());
            assert(b =~= seq![b[0]] + b.drop_first());
        }
    }
}

/// Compares two 32-byte strings in lexicographic order, as `<=` on arrays does.
fn bytes_le(a: &[u8; 32], b: &[u8; 32]) -> (le: bool)
    ensures
        le == lex_le(a@, b@),
{
    let mut i: usize = 0;
    assert(a@.skip(0) =~= a@);
    assert(b@.skip(0) =~= b@);
    while i < 32
        invariant
            i <= 32,
            a@.len() == 32,
            b@.len() == 32,
            lex_le(a@, b@) == lex_le(a@.skip(i as int), b@.skip(i as int)),
        decreases 32 - i,
    {
        if a[i] != b[i] {
            return a[i] < b[i];
        }
        assert(a@.skip(i as int).drop_first() =~= a@.skip(i + 1));
        assert(b@.skip(i as int).drop_first() =~= b@.skip(i + 1));
        i = i + 1;
    }
    true
}

/// The HKDF `info` label of session keys: the ASCII bytes of "fastshare-session".
pub open spec fn session_info() -> Seq<u8> {
    seq![
        0x66u8, 0x61u8, 0x73u8, 0x74u8, 0x73u8, 0x68u8, 0x61u8, 0x72u8, 0x65u8, 0x2du8, 0x73u8,
        0x65u8, 0x73u8, 0x73u8, 0x69u8, 0x6fu8, 0x6eu8,
    ]
}

/// The key material of a session: the Diffie-Hellman shared secret, both nonces, then
/// the two public keys, the lexicographically smaller one first.
pub open spec fn session_ikm(
    shared: Seq<u8>,
    server_nonce: Seq<u8>,
    client_nonce: Seq<u8>,
    our_pub: Seq<u8>,
    peer_pub: Seq<u8>,
) -> Seq<u8> {
    if lex_le(our_pub, peer_pub) {
        shared + server_nonce + client_nonce + our_pub + peer_pub
    } else {
        shared + server_nonce + client_nonce + peer_pub + our_pub
    }
}

/// The session key of a handshake.
pub open spec fn spec_session_key(
    shared: Seq<u8>,
    server_nonce: Seq<u8>,
    client_nonce: Seq<u8>,
    our_pub: Seq<u8>,
    peer_pub: Seq<u8>,
) -> Seq<u8> {
    hkdf_sha256_32(session_ikm(shared, server_nonce, client_nonce, our_pub, peer_pub), session_info())
}

/// Derives the key of a session from the ephemeral Diffie-Hellman secret the two ends
/// share, the two nonces of the handshake and the public keys of both ends.
pub fn derive_session_key(
    shared: &[u8; 32],
    server_nonce: &[u8; 32],
    client_nonce: &[u8; 32],
    our_pub: &[u8; 32],
    peer_pub: &[u8; 32],
) -> (key: [u8; 32])
    ensures
        key@ == spec_session_key(shared@, server_nonce@, client_nonce@, our_pub@, peer_pub@),
{
    let first_is_ours = bytes_le(our_pub, peer_pub);
    let mut ikm: Vec<u8> = Vec::with_capacity(160);
    ikm.extend_from_slice(shared);
    ikm.extend_from_slice(server_nonce);
    ikm.extend_from_slice(client_nonce);
    if first_is_ours {
        ikm.extend_from_slice(our_pub);
        ikm.extend_from_slice(peer_pub);
    } else {
        ikm.extend_from_slice(peer_pub);
        ikm.extend_from_slice(our_pub);
    }
    let info: Vec<u8> = vec![
        0x66u8, 0x61u8, 0x73u8, 0x74u8, 0x73u8, 0x68u8, 0x61u8, 0x72u8, 0x65u8, 0x2du8, 0x73u8,
        0x65u8, 0x73u8, 0x73u8, 0x69u8, 0x6fu8, 0x6eu8,
    ];
    assert(info@ =~= session_info());
    assert(ikm@ =~= session_ikm(shared@, server_nonce@, client_nonce@, our_pub@, peer_pub@));
    hkdf_sha256_expand_32(ikm.as_slice(), info.as_slice())
}

/// Both ends of a handshake derive the same key from the same shared secret: the key
/// does not depend on which of the two public keys is one's own.
pub proof fn lemma_session_key_symmetric(
    shared: Seq<u8>,
    server_nonce: Seq<u8>,
    client_nonce: Seq<u8>,
    a: Seq<u8>,
    b: Seq<u8>,
)
    ensures
        spec_session_key(shared, server_nonce, client_nonce, a, b) == spec_session_key(
            shared,
            server_nonce,
            client_nonce,
            b,
            a,
        ),
{
    lemma_lex_le_total_antisymmetric(a, b);
    assert(session_ikm(shared, server_nonce, client_nonce, a, b) =~= session_ikm(
        shared,
        server_nonce,
        client_nonce,
        b,
        a,
    ));
}

} // verus!
