//! The identity handshake: each end proves its Ed25519 identity to the other over a
//! transcript that holds fresh nonces and ephemeral X25519 shares, and both ends
//! derive the session key from the Diffie-Hellman secret they share.
use vstd::prelude::*;
use vstd::utf8::{decode_utf8, encode_utf8, encode_utf8_decode_utf8, encode_utf8_valid_utf8, valid_utf8};

use crate::bytes::{
    array32_at, array64_at, be16, copy_range, from_be16, lemma_be16_roundtrip, push_be16,
    read_be16,
};
use crate::crypto::{
    derive_session_key, ed25519_public_key, ed25519_public_key_of, ed25519_sign, ed25519_signature,
    ed25519_sound, ed25519_valid, ed25519_verify, lemma_session_key_symmetric, sha256,
    sha256_digest, spec_session_key, x25519_agree, x25519_agrees, x25519_public, x25519_public_of,
    x25519_shared,
};
use crate::identity::{is_trusted, spec_device_id, State, Store, NONCE_SIZE};
use crate::protocol::{ACCEPT, IDENTITY_CHALLENGE, IDENTITY_HELLO, IDENTITY_PROOF};
use crate::text::string_from_utf8;

verus! {

/// Length of an Ed25519 public key.
pub const PUBLIC_KEY_LENGTH: usize = 32;

/// Length of an Ed25519 signature.
pub const SIGNATURE_LENGTH: usize = 64;

/// Length of an X25519 share.
pub const SHARE_LENGTH: usize = 32;

/// Length of the server's challenge: its nonce, the digest of the client's public key,
/// its public key, its ephemeral share and its signature.
pub const CHALLENGE_LENGTH: usize = 192;

/// Length of the client's proof: its ephemeral share and its signature.
pub const PROOF_LENGTH: usize = 96;

/// Why a handshake failed.
#[derive(Debug, Clone, Copy, PartialEq, Eq, Structural)]
pub enum HandshakeError {
    /// The first message was not an identity hello.
    ExpectedHello,
    /// The hello is shorter than a nonce and a length.
    PayloadTooShort,
    /// The hello's public-key length runs past its end.
    InvalidPublicKeyLength,
    /// The hello's name length disagrees with its end.
    InvalidNameLength,
    /// The hello's name is not UTF-8.
    InvalidUtf8Name,
    /// No public key was received before it was needed.
    NoPublicKey,
    /// The third message was not an identity proof.
    ExpectedProof,
    /// The proof is not a share and a signature long.
    InvalidSignature,
    /// A nonce or an ephemeral share of the handshake is missing.
    MissingNonce,
    /// The peer's public key is missing.
    MissingPublicKey,
    /// The handshake did not authenticate the peer.
    PermissionDenied,
    /// The peer's public key is not 32 bytes long.
    InvalidPublicKey,
    /// The client received something other than a challenge.
    ExpectedChallenge,
    /// The server rejected the client.
    ServerRejected,
    /// The server's challenge does not have the length of one.
    InvalidChallenge,
    /// The server's challenge does not name this client or is not signed by the
    /// server's key.
    ServerUnverified,
}

/// What an identity hello holds: the client's nonce, public key and name.
pub open spec fn spec_parse_hello(p: Seq<u8>) -> Result<
    (Seq<u8>, Seq<u8>, Seq<char>),
    HandshakeError,
> {
    if p.len() < NONCE_SIZE + 2 {
        Err(HandshakeError::PayloadTooShort)
    } else {
        let pk_len = from_be16(p[32], p[33]) as int;
        if p.len() < 34 + pk_len + 2 {
            Err(HandshakeError::InvalidPublicKeyLength)
        } else {
            let name_len = from_be16(p[34 + pk_len], p[35 + pk_len]) as int;
            let name_at = 36 + pk_len;
            if p.len() != name_at + name_len {
                Err(HandshakeError::InvalidNameLength)
            } else if !valid_utf8(p.subrange(name_at, p.len() as int)) {
                Err(HandshakeError::InvalidUtf8Name)
            } else {
                Ok(
                    (
                        p.subrange(0, 32),
                        p.subrange(34, 34 + pk_len),
                        decode_utf8(p.subrange(name_at, p.len() as int)),
                    ),
                )
            }
        }
    }
}

/// The view of a parsed hello.
pub open spec fn hello_view(r: Result<([u8; NONCE_SIZE], Vec<u8>, String), HandshakeError>) -> Result<
    (Seq<u8>, Seq<u8>, Seq<char>),
    HandshakeError,
> {
    match r {
        Ok((n, k, s)) => Ok((n@, k@, s@)),
        Err(e) => Err(e),
    }
}

/// Parses the payload of an identity hello.
pub fn parse_identity_hello(payload: &[u8]) -> (res: Result<
    ([u8; NONCE_SIZE], Vec<u8>, String),
    HandshakeError,
>)
    ensures
        hello_view(res) == spec_parse_hello(payload@),
{
    let len = payload.len();
    if len < NONCE_SIZE + 2 {
        return Err(HandshakeError::PayloadTooShort);
    }
    let client_nonce = array32_at(payload, 0);
    let pk_len = read_be16(payload, 32) as usize;
    if len < 34 + pk_len + 2 {
        return Err(HandshakeError::InvalidPublicKeyLength);
    }
    let public_key = copy_range(payload, 34, 34 + pk_len);
    let name_len = read_be16(payload, 34 + pk_len) as usize;
    let name_at = 36 + pk_len;
    if len != name_at + name_len {
        return Err(HandshakeError::InvalidNameLength);
    }
    let name_bytes = copy_range(payload, name_at, len);
    match string_from_utf8(name_bytes) {
        Some(name) => Ok((client_nonce, public_key, name)),
        None => Err(HandshakeError::InvalidUtf8Name),
    }
}

/// The payload of an identity hello: the nonce, the length of the public key and the
/// key, the length of the name and the name, lengths as big-endian `u16`.
pub open spec fn spec_hello(nonce: Seq<u8>, public_key: Seq<u8>, name: Seq<u8>) -> Seq<u8> {
    nonce + be16(public_key.len() as u16) + public_key + be16(name.len() as u16) + name
}

/// Parsing a hello that was built gives back the nonce, the public key and the name.
pub proof fn lemma_hello_roundtrip(nonce: Seq<u8>, public_key: Seq<u8>, name: Seq<char>)
    requires
        nonce.len() == NONCE_SIZE,
        public_key.len() <= u16::MAX,
        encode_utf8(name).len() <= u16::MAX,
    ensures
        spec_parse_hello(spec_hello(nonce, public_key, encode_utf8(name))) == Ok::<
            (Seq<u8>, Seq<u8>, Seq<char>),
            HandshakeError,
        >((nonce, public_key, name)),
{
    let name_bytes = encode_utf8(name);
    let p = spec_hello(nonce, public_key, name_bytes);
    let k = public_key.len() as int;
    lemma_be16_roundtrip(public_key.len() as u16);
    lemma_be16_roundtrip(name_bytes.len() as u16);
    assert(p[32] == be16(public_key.len() as u16)[0]);
    assert(p[33] == be16(public_key.len() as u16)[1]);
    assert(p[34 + k] == be16(name_bytes.len() as u16)[0]);
    assert(p[35 + k] == be16(name_bytes.len() as u16)[1]);
    assert(p.subrange(0, 32) =~= nonce);
    assert(p.subrange(34, 34 + k) =~= public_key);
    assert(p.subrange(36 + k, p.len() as int) =~= name_bytes);
    encode_utf8_valid_utf8(name);
    encode_utf8_decode_utf8(name);
}

/// Builds the identity hello a client sends.
pub fn client_hello(client_nonce: &[u8; NONCE_SIZE], local_public_key: &[u8; 32], local_name: &str) -> (payload: Vec<u8>)
    ensures
        payload@ == spec_hello(client_nonce@, local_public_key@, encode_utf8(local_name@)),
{
    let name = local_name.as_bytes();
    let mut payload: Vec<u8> = Vec::new();
    payload.extend_from_slice(client_nonce);
    push_be16(&mut payload, PUBLIC_KEY_LENGTH as u16);
    payload.extend_from_slice(local_public_key);
    push_be16(&mut payload, name.len() as u16);
    payload.extend_from_slice(name);
    assert(payload@ =~= spec_hello(client_nonce@, local_public_key@, encode_utf8(local_name@)));
    payload
}

/// The state of the server side of a handshake.
pub struct HandshakeContext {
    pub state: State,
    pub nonce: Option<[u8; NONCE_SIZE]>,
    pub client_nonce: Option<[u8; NONCE_SIZE]>,
    pub peer_public_key: Option<Vec<u8>>,
    pub peer_name: Option<String>,
    pub local_public_key: [u8; 32],
    pub local_name: String,
    /// The server's ephemeral X25519 secret, from the challenge until the key is made.
    pub ephemeral_secret: Option<[u8; 32]>,
    /// The server's ephemeral share, sent in the challenge.
    pub local_share: Option<[u8; SHARE_LENGTH]>,
    /// The client's ephemeral share, taken from an accepted proof.
    pub peer_share: Option<[u8; SHARE_LENGTH]>,
}

/// The two contexts agree on everything but the state and the handshake's values.
pub open spec fn same_identity(a: HandshakeContext, b: HandshakeContext) -> bool {
    &&& a.local_public_key == b.local_public_key
    &&& a.local_name == b.local_name
}

impl HandshakeContext {
    /// A fresh handshake of the server whose key and name are given.
    pub fn new(local_public_key: [u8; 32], local_name: String) -> (ctx: Self)
        ensures
            ctx.state == State::New,
            ctx.nonce is None,
            ctx.client_nonce is None,
            ctx.peer_public_key is None,
            ctx.peer_name is None,
            ctx.local_public_key == local_public_key,
            ctx.local_name == local_name,
            ctx.ephemeral_secret is None,
            ctx.local_share is None,
            ctx.peer_share is None,
    {
        HandshakeContext {
            state: State::New,
            nonce: None,
            client_nonce: None,
            peer_public_key: None,
            peer_name: None,
            local_public_key,
            local_name,
            ephemeral_secret: None,
            local_share: None,
            peer_share: None,
        }
    }
}

/// Takes in the client's hello: on success the context holds the client's nonce,
/// public key and name, and the hello has been received; on failure it is unchanged.
pub fn handle_identity_hello(ctx: &mut HandshakeContext, msg_type: u8, payload: &[u8]) -> (res:
    Result<(), HandshakeError>)
    ensures
        msg_type != IDENTITY_HELLO ==> res == Err::<(), HandshakeError>(
            HandshakeError::ExpectedHello,
        ),
        msg_type == IDENTITY_HELLO ==> match spec_parse_hello(payload@) {
            Err(e) => res == Err::<(), HandshakeError>(e),
            Ok((n, k, name)) => {
                &&& res is Ok
                &&& (final(ctx).client_nonce matches Some(c) && c@ == n)
                &&& (final(ctx).peer_public_key matches Some(pk) && pk@ == k)
                &&& (final(ctx).peer_name matches Some(s) && s@ == name)
                &&& final(ctx).state == State::HelloReceived
                &&& final(ctx).nonce == old(ctx).nonce
                &&& final(ctx).ephemeral_secret == old(ctx).ephemeral_secret
                &&& final(ctx).local_share == old(ctx).local_share
                &&& final(ctx).peer_share == old(ctx).peer_share
                &&& same_identity(*final(ctx), *old(ctx))
            },
        },
        res is Err ==> *final(ctx) == *old(ctx),
{
    if msg_type != IDENTITY_HELLO {
        return Err(HandshakeError::ExpectedHello);
    }
    let (client_nonce, public_key, name) = parse_identity_hello(payload)?;
    ctx.peer_public_key = Some(public_key);
    ctx.peer_name = Some(name);
    ctx.state = State::HelloReceived;
    ctx.client_nonce = Some(client_nonce);
    Ok(())
}

/// What the server signs: the challenge's type, both nonces, the digests of the
/// server's and the client's public keys, then the server's ephemeral share.
pub open spec fn server_message(
    server_nonce: Seq<u8>,
    client_nonce: Seq<u8>,
    server_public_key: Seq<u8>,
    client_public_key: Seq<u8>,
    server_share: Seq<u8>,
) -> Seq<u8> {
    seq![IDENTITY_CHALLENGE] + server_nonce + client_nonce + sha256(server_public_key) + sha256(
        client_public_key,
    ) + server_share
}

/// What the client signs: the proof's type, both nonces, the digests of the server's
/// and the client's public keys, then both ephemeral shares, the server's first.
pub open spec fn spec_proof_message(
    server_nonce: Seq<u8>,
    client_nonce: Seq<u8>,
    server_public_key: Seq<u8>,
    client_public_key: Seq<u8>,
    server_share: Seq<u8>,
    client_share: Seq<u8>,
) -> Seq<u8> {
    seq![IDENTITY_PROOF] + server_nonce + client_nonce + sha256(server_public_key) + sha256(
        client_public_key,
    ) + server_share + client_share
}

/// The payload of the server's challenge: its nonce, the digest of the client's
/// public key, the server's public key, its ephemeral share and its signature.
pub open spec fn spec_challenge(
    nonce: Seq<u8>,
    peer_public_key: Seq<u8>,
    local_public_key: Seq<u8>,
    share: Seq<u8>,
    signature: Seq<u8>,
) -> Seq<u8> {
    nonce + sha256(peer_public_key) + local_public_key + share + signature
}

/// Builds the server's challenge with the fresh `nonce` and the fresh ephemeral secret,
/// signed with the server's secret key, and records the nonce, the secret and its share.
pub fn prepare_challenge(
    ctx: &mut HandshakeContext,
    nonce: [u8; NONCE_SIZE],
    ephemeral_secret: [u8; 32],
    signing_secret: &[u8; 32],
) -> (res: Result<Vec<u8>, HandshakeError>)
    ensures
        old(ctx).peer_public_key is None ==> res == Err::<Vec<u8>, HandshakeError>(
            HandshakeError::NoPublicKey,
        ),
        old(ctx).peer_public_key is Some && old(ctx).client_nonce is None ==> res == Err::<
            Vec<u8>,
            HandshakeError,
        >(HandshakeError::MissingNonce),
        res is Err ==> *final(ctx) == *old(ctx),
        old(ctx).peer_public_key matches Some(pk) ==> old(ctx).client_nonce matches Some(c) ==> {
            let share = x25519_public(ephemeral_secret@);
            &&& (res matches Ok(p) && p@ == spec_challenge(
                nonce@,
                pk@,
                old(ctx).local_public_key@,
                share,
                ed25519_signature(
                    signing_secret@,
                    server_message(nonce@, c@, old(ctx).local_public_key@, pk@, share),
                ),
            ))
            &&& final(ctx).nonce == Some(nonce)
            &&& final(ctx).ephemeral_secret == Some(ephemeral_secret)
            &&& (final(ctx).local_share matches Some(s) && s@ == share)
            &&& final(ctx).state == State::ChallengeSent
            &&& final(ctx).client_nonce == old(ctx).client_nonce
            &&& final(ctx).peer_public_key == old(ctx).peer_public_key
            &&& final(ctx).peer_name == old(ctx).peer_name
            &&& final(ctx).peer_share == old(ctx).peer_share
            &&& same_identity(*final(ctx), *old(ctx))
        },
{
    let share = x25519_public_of(&ephemeral_secret);
    let payload = match (&ctx.peer_public_key, &ctx.client_nonce) {
        (None, _) => {
            return Err(HandshakeError::NoPublicKey);
        },
        (Some(_), None) => {
            return Err(HandshakeError::MissingNonce);
        },
        (Some(pk), Some(c)) => {
            let peer_hash = sha256_digest(pk.as_slice());
            let local_hash = sha256_digest(&ctx.local_public_key);
            let mut message: Vec<u8> = Vec::new();
            message.push(IDENTITY_CHALLENGE);
            message.extend_from_slice(&nonce);
            message.extend_from_slice(c);
            message.extend_from_slice(&local_hash);
            message.extend_from_slice(&peer_hash);
            message.extend_from_slice(&share);
            assert(message@ =~= server_message(nonce@, c@, ctx.local_public_key@, pk@, share@));
            let signature = ed25519_sign(signing_secret, message.as_slice());
            let mut payload: Vec<u8> = Vec::new();
            payload.extend_from_slice(&nonce);
            payload.extend_from_slice(&peer_hash);
            payload.extend_from_slice(&ctx.local_public_key);
            payload.extend_from_slice(&share);
            payload.extend_from_slice(&signature);
            assert(payload@ =~= spec_challenge(
                nonce@,
                pk@,
                ctx.local_public_key@,
                share@,
                signature@,
            ));
            payload
        },
    };
    ctx.nonce = Some(nonce);
    ctx.ephemeral_secret = Some(ephemeral_secret);
    ctx.local_share = Some(share);
    ctx.state = State::ChallengeSent;
    Ok(payload)
}

/// Whether `signature` is a valid signature of `message` by the owner of `public_key`:
/// the key and the signature have the right lengths and the signature holds.
pub open spec fn spec_verify_signature(public_key: Seq<u8>, message: Seq<u8>, signature: Seq<u8>) -> bool {
    public_key.len() == PUBLIC_KEY_LENGTH && signature.len() == SIGNATURE_LENGTH && ed25519_valid(
        public_key,
        message,
        signature,
    )
}

/// Checks a signature of a handshake message. A signature that the owner of
/// `public_key` made over `message` is accepted.
pub fn verify_signature(public_key: &[u8], message: &[u8], signature: &[u8]) -> (ok: bool)
    ensures
        ok == spec_verify_signature(public_key@, message@, signature@),
        forall|secret: Seq<u8>|
            #![trigger ed25519_signature(secret, message@)]
            secret.len() == 32 && public_key@.len() == PUBLIC_KEY_LENGTH && signature@.len()
                == SIGNATURE_LENGTH && public_key@ == ed25519_public_key(secret) && signature@
                == ed25519_signature(secret, message@) ==> ok,
{
    if public_key.len() != PUBLIC_KEY_LENGTH {
        return false;
    }
    if signature.len() != SIGNATURE_LENGTH {
        return false;
    }
    let pk = array32_at(public_key, 0);
    let sig = array64_at(signature, 0);
    assert(pk@ =~= public_key@);
    assert(sig@ =~= signature@);
    ed25519_verify(&pk, message, &sig)
}

/// How the server answers a well-formed proof.
#[derive(Debug, Clone, Copy, PartialEq, Eq, Structural)]
pub enum ProofOutcome {
    /// The proof holds; `auto_send` tells the client whether it is already trusted.
    Accepted { auto_send: bool },
    /// The proof does not hold.
    Rejected,
}

/// How the server answers the client's proof, given the trusted devices: the proof is
/// the client's share and its signature of the transcript.
pub open spec fn spec_handle_proof(
    ctx: HandshakeContext,
    msg_type: u8,
    payload: Seq<u8>,
    trusted: Map<Seq<char>, (Seq<char>, Seq<char>)>,
) -> Result<ProofOutcome, HandshakeError> {
    if msg_type != IDENTITY_PROOF {
        Err(HandshakeError::ExpectedProof)
    } else if payload.len() != PROOF_LENGTH {
        Err(HandshakeError::InvalidSignature)
    } else {
        match (ctx.nonce, ctx.client_nonce, ctx.peer_public_key, ctx.local_share) {
            (Some(n), Some(c), Some(pk), Some(s)) => if spec_verify_signature(
                pk@,
                spec_proof_message(n@, c@, ctx.local_public_key@, pk@, s@, payload.subrange(0, 32)),
                payload.subrange(32, 96),
            ) {
                Ok(ProofOutcome::Accepted { auto_send: trusted.contains_key(spec_device_id(pk@)) })
            } else {
                Ok(ProofOutcome::Rejected)
            },
            (None, _, _, _) => Err(HandshakeError::MissingNonce),
            (_, None, _, _) => Err(HandshakeError::MissingNonce),
            (_, _, None, _) => Err(HandshakeError::MissingPublicKey),
            (_, _, _, None) => Err(HandshakeError::MissingNonce),
        }
    }
}

/// Checks the client's proof. An accepted proof authenticates the peer and keeps its
/// ephemeral share; a rejected one rejects it; a malformed one leaves the context
/// unchanged. A proof that the owner of the peer's public key signed over this
/// handshake's transcript is accepted.
pub fn handle_identity_proof(
    ctx: &mut HandshakeContext,
    msg_type: u8,
    payload: &[u8],
    store: &Store,
) -> (res: Result<ProofOutcome, HandshakeError>)
    ensures
        res == spec_handle_proof(*old(ctx), msg_type, payload@, store@),
        final(ctx).state == (match res {
            Ok(ProofOutcome::Accepted { .. }) => State::Authenticated,
            Ok(ProofOutcome::Rejected) => State::Rejected,
            Err(_) => old(ctx).state,
        }),
        res matches Ok(ProofOutcome::Accepted { .. }) ==> (final(ctx).peer_share matches Some(s)
            && s@ == payload@.subrange(0, 32)),
        !(res matches Ok(ProofOutcome::Accepted { .. })) ==> final(ctx).peer_share == old(
            ctx,
        ).peer_share,
        final(ctx).nonce == old(ctx).nonce,
        final(ctx).client_nonce == old(ctx).client_nonce,
        final(ctx).peer_public_key == old(ctx).peer_public_key,
        final(ctx).peer_name == old(ctx).peer_name,
        final(ctx).ephemeral_secret == old(ctx).ephemeral_secret,
        final(ctx).local_share == old(ctx).local_share,
        same_identity(*final(ctx), *old(ctx)),
        forall|secret: Seq<u8>|
            #![trigger ed25519_public_key(secret)]
            msg_type == IDENTITY_PROOF && secret.len() == 32 && (old(ctx).nonce matches Some(n) && old(
                ctx,
            ).client_nonce matches Some(c) && old(ctx).peer_public_key matches Some(pk) && old(
                ctx,
            ).local_share matches Some(s) && pk@.len() == PUBLIC_KEY_LENGTH && payload@.len()
                == PROOF_LENGTH && pk@ == ed25519_public_key(secret) && payload@.subrange(32, 96)
                == ed25519_signature(
                secret,
                spec_proof_message(
                    n@,
                    c@,
                    old(ctx).local_public_key@,
                    pk@,
                    s@,
                    payload@.subrange(0, 32),
                ),
            )) ==> res matches Ok(ProofOutcome::Accepted { .. }),
{
    if msg_type != IDENTITY_PROOF {
        return Err(HandshakeError::ExpectedProof);
    }
    if payload.len() != PROOF_LENGTH {
        return Err(HandshakeError::InvalidSignature);
    }
    let ok;
    let trusted;
    let peer_share = array32_at(payload, 0);
    match (&ctx.nonce, &ctx.client_nonce, &ctx.peer_public_key, &ctx.local_share) {
        (Some(n), Some(c), Some(pk), Some(s)) => {
            let peer_hash = sha256_digest(pk.as_slice());
            let local_hash = sha256_digest(&ctx.local_public_key);
            let mut message: Vec<u8> = Vec::new();
            message.push(IDENTITY_PROOF);
            message.extend_from_slice(n);
            message.extend_from_slice(c);
            message.extend_from_slice(&local_hash);
            message.extend_from_slice(&peer_hash);
            message.extend_from_slice(s);
            message.extend_from_slice(&peer_share);
            assert(message@ =~= spec_proof_message(
                n@,
                c@,
                ctx.local_public_key@,
                pk@,
                s@,
                payload@.subrange(0, 32),
            ));
            let signature = copy_range(payload, 32, 96);
            ok = verify_signature(pk.as_slice(), message.as_slice(), signature.as_slice());
            trusted = if ok {
                is_trusted(store, pk.as_slice())
            } else {
                false
            };
        },
        (None, _, _, _) => {
            return Err(HandshakeError::MissingNonce);
        },
        (_, None, _, _) => {
            return Err(HandshakeError::MissingNonce);
        },
        (_, _, None, _) => {
            return Err(HandshakeError::MissingPublicKey);
        },
        (_, _, _, None) => {
            return Err(HandshakeError::MissingNonce);
        },
    }
    if !ok {
        ctx.state = State::Rejected;
        return Ok(ProofOutcome::Rejected);
    }
    ctx.state = State::Authenticated;
    ctx.peer_share = Some(peer_share);
    Ok(ProofOutcome::Accepted { auto_send: trusted })
}

/// The payload of the server's acceptance: one byte, 1 when the client is trusted.
pub fn accept_payload(auto_send: bool) -> (payload: Vec<u8>)
    ensures
        payload@ == seq![if auto_send { 1u8 } else { 0u8 }],
{
    let mut payload: Vec<u8> = Vec::new();
    payload.push(if auto_send { 1u8 } else { 0u8 });
    assert(payload@ =~= seq![if auto_send { 1u8 } else { 0u8 }]);
    payload
}

/// What ends the server side of a handshake: the session key (made from the secret
/// shared with the client's share, the nonces and both public keys) and the client's
/// public key, or why there is none.
pub open spec fn spec_finish(ctx: HandshakeContext) -> Result<(Seq<u8>, Seq<u8>), HandshakeError> {
    if ctx.state != State::Authenticated {
        Err(HandshakeError::PermissionDenied)
    } else {
        match (ctx.peer_public_key, ctx.nonce, ctx.client_nonce, ctx.ephemeral_secret, ctx.peer_share) {
            (None, _, _, _, _) => Err(HandshakeError::NoPublicKey),
            (Some(pk), n, c, e, ps) => if pk@.len() != PUBLIC_KEY_LENGTH {
                Err(HandshakeError::InvalidPublicKey)
            } else if n is None || c is None || e is None || ps is None {
                Err(HandshakeError::MissingNonce)
            } else {
                Ok(
                    (
                        spec_session_key(
                            x25519_shared(e.unwrap()@, ps.unwrap()@),
                            n.unwrap()@,
                            c.unwrap()@,
                            ctx.local_public_key@,
                            pk@,
                        ),
                        pk@,
                    ),
                )
            },
        }
    }
}

/// The view of a finished handshake.
pub open spec fn finish_view(r: Result<([u8; 32], [u8; 32]), HandshakeError>) -> Result<
    (Seq<u8>, Seq<u8>),
    HandshakeError,
> {
    match r {
        Ok((k, p)) => Ok((k@, p@)),
        Err(e) => Err(e),
    }
}

/// Ends the server side of a handshake: once the peer is authenticated, the session
/// key and the peer's public key; the server's nonce and ephemeral secret are then
/// forgotten. When the client's share is that of an ephemeral secret, the key is the
/// one the client makes from its secret and the server's share.
pub fn finish_handshake(ctx: &mut HandshakeContext) -> (res: Result<
    ([u8; 32], [u8; 32]),
    HandshakeError,
>)
    ensures
        finish_view(res) == spec_finish(*old(ctx)),
        forall|client_secret: Seq<u8>|
            #![trigger x25519_public(client_secret)]
            client_secret.len() == 32 && (old(ctx).peer_share matches Some(ps) && ps@ == x25519_public(
                client_secret,
            )) && res is Ok ==> res.unwrap().0@ == spec_session_key(
                x25519_shared(client_secret, x25519_public(old(ctx).ephemeral_secret.unwrap()@)),
                old(ctx).nonce.unwrap()@,
                old(ctx).client_nonce.unwrap()@,
                old(ctx).local_public_key@,
                old(ctx).peer_public_key.unwrap()@,
            ),
        res is Ok ==> final(ctx).nonce is None && final(ctx).ephemeral_secret is None,
        res is Err ==> *final(ctx) == *old(ctx),
        final(ctx).state == old(ctx).state,
        final(ctx).client_nonce == old(ctx).client_nonce,
        final(ctx).peer_public_key == old(ctx).peer_public_key,
        final(ctx).peer_name == old(ctx).peer_name,
        final(ctx).local_share == old(ctx).local_share,
        final(ctx).peer_share == old(ctx).peer_share,
        same_identity(*final(ctx), *old(ctx)),
{
    if ctx.state != State::Authenticated {
        return Err(HandshakeError::PermissionDenied);
    }
    let peer_key = match &ctx.peer_public_key {
        None => {
            return Err(HandshakeError::NoPublicKey);
        },
        Some(pk) => {
            if pk.len() != PUBLIC_KEY_LENGTH {
                return Err(HandshakeError::InvalidPublicKey);
            }
            let k = array32_at(pk.as_slice(), 0);
            assert(k@ =~= pk@);
            k
        },
    };
    let key = match (&ctx.nonce, &ctx.client_nonce, &ctx.ephemeral_secret, &ctx.peer_share) {
        (Some(n), Some(c), Some(e), Some(ps)) => {
            let shared = x25519_agree(e, ps);
            derive_session_key(&shared, n, c, &ctx.local_public_key, &peer_key)
        },
        _ => {
            return Err(HandshakeError::MissingNonce);
        },
    };
    ctx.nonce = None;
    ctx.ephemeral_secret = None;
    Ok((key, peer_key))
}

/// What the client reads from the server's challenge, given its own nonce and public
/// key: the server's nonce, public key and ephemeral share, when the challenge names
/// this client and the server signed it; otherwise why not.
pub open spec fn spec_check_challenge(payload: Seq<u8>, client_nonce: Seq<u8>, local_public_key: Seq<u8>) -> Result<
    (Seq<u8>, Seq<u8>, Seq<u8>),
    HandshakeError,
> {
    if payload.len() != CHALLENGE_LENGTH {
        Err(HandshakeError::InvalidChallenge)
    } else {
        let server_nonce = payload.subrange(0, 32);
        let digest = payload.subrange(32, 64);
        let server_public_key = payload.subrange(64, 96);
        let server_share = payload.subrange(96, 128);
        let signature = payload.subrange(128, 192);
        if digest != sha256(local_public_key) || !ed25519_valid(
            server_public_key,
            server_message(server_nonce, client_nonce, server_public_key, local_public_key, server_share),
            signature,
        ) {
            Err(HandshakeError::ServerUnverified)
        } else {
            Ok((server_nonce, server_public_key, server_share))
        }
    }
}

/// Checks the server's challenge: it must name this client and carry the server's
/// signature of its nonce, this client's nonce, both keys and its share.
fn check_challenge(payload: &[u8], client_nonce: &[u8; NONCE_SIZE], local_public_key: &[u8; 32]) -> (res:
    Result<([u8; 32], [u8; 32], [u8; 32]), HandshakeError>)
    ensures
        match spec_check_challenge(payload@, client_nonce@, local_public_key@) {
            Ok((n, k, s)) => res matches Ok((n2, k2, s2)) && n2@ == n && k2@ == k && s2@ == s,
            Err(e) => res == Err::<([u8; 32], [u8; 32], [u8; 32]), HandshakeError>(e),
        },
{
    if payload.len() != CHALLENGE_LENGTH {
        return Err(HandshakeError::InvalidChallenge);
    }
    let server_nonce = array32_at(payload, 0);
    let digest = array32_at(payload, 32);
    let server_public_key = array32_at(payload, 64);
    let server_share = array32_at(payload, 96);
    let signature = copy_range(payload, 128, 192);
    let local_hash = sha256_digest(local_public_key);
    let mut same = true;
    let mut i: usize = 0;
    assert(digest@.subrange(0, 0) =~= local_hash@.subrange(0, 0));
    while i < 32
        invariant
            i <= 32,
            digest@.len() == 32,
            local_hash@.len() == 32,
            same == (digest@.subrange(0, i as int) == local_hash@.subrange(0, i as int)),
        decreases 32 - i,
    {
        proof {
            assert(digest@.subrange(0, i + 1) == digest@.subrange(0, i as int).push(digest@[i as int]));
            assert(local_hash@.subrange(0, i + 1) == local_hash@.subrange(0, i as int).push(local_hash@[i as int]));
            if digest@.subrange(0, i + 1) == local_hash@.subrange(0, i + 1) {
                assert(digest@.subrange(0, i + 1)[i as int] == local_hash@.subrange(0, i + 1)[i as int]);
                assert(digest@.subrange(0, i as int) =~= digest@.subrange(0, i + 1).drop_last());
                assert(local_hash@.subrange(0, i as int) =~= local_hash@.subrange(0, i + 1).drop_last());
            }
        }
        same = same && digest[i] == local_hash[i];
        i = i + 1;
    }
    assert(digest@.subrange(0, 32) =~= digest@);
    assert(local_hash@.subrange(0, 32) =~= local_hash@);
    if !same {
        return Err(HandshakeError::ServerUnverified);
    }
    let server_hash = sha256_digest(&server_public_key);
    let mut message: Vec<u8> = Vec::new();
    message.push(IDENTITY_CHALLENGE);
    message.extend_from_slice(&server_nonce);
    message.extend_from_slice(client_nonce);
    message.extend_from_slice(&server_hash);
    message.extend_from_slice(&local_hash);
    message.extend_from_slice(&server_share);
    assert(message@ =~= server_message(
        server_nonce@,
        client_nonce@,
        server_public_key@,
        local_public_key@,
        server_share@,
    ));
    if !verify_signature(&server_public_key, message.as_slice(), signature.as_slice()) {
        return Err(HandshakeError::ServerUnverified);
    }
    Ok((server_nonce, server_public_key, server_share))
}

/// The client's proof for a checked challenge: its ephemeral share, then its signature
/// of the transcript.
pub open spec fn spec_client_proof(
    server_nonce: Seq<u8>,
    client_nonce: Seq<u8>,
    server_public_key: Seq<u8>,
    local_public_key: Seq<u8>,
    server_share: Seq<u8>,
    secret: Seq<u8>,
    ephemeral_secret: Seq<u8>,
) -> Seq<u8> {
    x25519_public(ephemeral_secret) + ed25519_signature(
        secret,
        spec_proof_message(
            server_nonce,
            client_nonce,
            server_public_key,
            local_public_key,
            server_share,
            x25519_public(ephemeral_secret),
        ),
    )
}

/// Answers the server's challenge once the server is verified: the client's ephemeral
/// share and its signature of both nonces, both public keys' digests and both shares.
pub fn respond_to_challenge(
    msg_type: u8,
    payload: &[u8],
    client_nonce: &[u8; NONCE_SIZE],
    local_public_key: &[u8; 32],
    secret: &[u8; 32],
    ephemeral_secret: &[u8; 32],
) -> (res: Result<Vec<u8>, HandshakeError>)
    ensures
        msg_type != IDENTITY_CHALLENGE ==> res == Err::<Vec<u8>, HandshakeError>(
            HandshakeError::ExpectedChallenge,
        ),
        msg_type == IDENTITY_CHALLENGE ==> match spec_check_challenge(
            payload@,
            client_nonce@,
            local_public_key@,
        ) {
            Err(e) => res == Err::<Vec<u8>, HandshakeError>(e),
            Ok((n, k, s)) => res matches Ok(p) && p@ == spec_client_proof(
                n,
                client_nonce@,
                k,
                local_public_key@,
                s,
                secret@,
                ephemeral_secret@,
            ),
        },
{
    if msg_type != IDENTITY_CHALLENGE {
        return Err(HandshakeError::ExpectedChallenge);
    }
    let (server_nonce, server_public_key, server_share) = check_challenge(
        payload,
        client_nonce,
        local_public_key,
    )?;
    let share = x25519_public_of(ephemeral_secret);
    let server_hash = sha256_digest(&server_public_key);
    let client_hash = sha256_digest(local_public_key);
    let mut message: Vec<u8> = Vec::new();
    message.push(IDENTITY_PROOF);
    message.extend_from_slice(&server_nonce);
    message.extend_from_slice(client_nonce);
    message.extend_from_slice(&server_hash);
    message.extend_from_slice(&client_hash);
    message.extend_from_slice(&server_share);
    message.extend_from_slice(&share);
    assert(message@ =~= spec_proof_message(
        server_nonce@,
        client_nonce@,
        server_public_key@,
        local_public_key@,
        server_share@,
        share@,
    ));
    let signature = ed25519_sign(secret, message.as_slice());
    let mut proof: Vec<u8> = Vec::new();
    proof.extend_from_slice(&share);
    proof.extend_from_slice(&signature);
    assert(proof@ =~= spec_client_proof(
        server_nonce@,
        client_nonce@,
        server_public_key@,
        local_public_key@,
        server_share@,
        secret@,
        ephemeral_secret@,
    ));
    Ok(proof)
}

/// Ends the client side of a handshake: if the server accepted and its challenge is
/// verified, the session key, made from the secret shared with the server's share.
pub fn client_finish(
    msg_type: u8,
    challenge: &[u8],
    client_nonce: &[u8; NONCE_SIZE],
    local_public_key: &[u8; 32],
    ephemeral_secret: &[u8; 32],
) -> (res: Result<[u8; 32], HandshakeError>)
    ensures
        msg_type != ACCEPT ==> res == Err::<[u8; 32], HandshakeError>(HandshakeError::ServerRejected),
        msg_type == ACCEPT ==> match spec_check_challenge(
            challenge@,
            client_nonce@,
            local_public_key@,
        ) {
            Err(e) => res == Err::<[u8; 32], HandshakeError>(e),
            Ok((n, k, s)) => res matches Ok(key) && key@ == spec_session_key(
                x25519_shared(ephemeral_secret@, s),
                n,
                client_nonce@,
                local_public_key@,
                k,
            ),
        },
        forall|server_secret: Seq<u8>|
            #![trigger x25519_public(server_secret)]
            server_secret.len() == 32 && res is Ok && challenge@.subrange(96, 128) == x25519_public(
                server_secret,
            ) ==> res.unwrap()@ == spec_session_key(
                x25519_shared(server_secret, x25519_public(ephemeral_secret@)),
                challenge@.subrange(0, 32),
                client_nonce@,
                local_public_key@,
                challenge@.subrange(64, 96),
            ),
{
    if msg_type != ACCEPT {
        return Err(HandshakeError::ServerRejected);
    }
    let (server_nonce, server_public_key, server_share) = check_challenge(
        challenge,
        client_nonce,
        local_public_key,
    )?;
    let shared = x25519_agree(ephemeral_secret, &server_share);
    Ok(derive_session_key(&shared, &server_nonce, client_nonce, local_public_key, &server_public_key))
}

/// The public key of the secret key `secret`.
pub fn public_key_from_secret(secret: &[u8; 32]) -> (public: [u8; 32])
    ensures
        public@ == ed25519_public_key(secret@),
{
    ed25519_public_key_of(secret)
}

/// The public share of an ephemeral secret.
pub fn ephemeral_share(ephemeral_secret: &[u8; 32]) -> (share: [u8; 32])
    ensures
        share@ == x25519_public(ephemeral_secret@),
{
    x25519_public_of(ephemeral_secret)
}

/// From the same shared secret and nonces, the server (its own key first, the
/// client's second) and the client (its own key first, the server's second) derive
/// the same session key.
pub proof fn lemma_handshake_keys_agree(
    shared: Seq<u8>,
    server_nonce: Seq<u8>,
    client_nonce: Seq<u8>,
    server_public_key: Seq<u8>,
    client_public_key: Seq<u8>,
)
    ensures
        spec_session_key(shared, server_nonce, client_nonce, server_public_key, client_public_key)
            == spec_session_key(shared, server_nonce, client_nonce, client_public_key, server_public_key),
{
    lemma_session_key_symmetric(shared, server_nonce, client_nonce, server_public_key, client_public_key);
}

/// A challenge that names the client and carries a valid signature of the server's
/// transcript passes the client's check, which reads back the server's nonce, key and
/// share.
pub proof fn lemma_honest_challenge_accepted(
    server_nonce: Seq<u8>,
    client_nonce: Seq<u8>,
    server_public_key: Seq<u8>,
    client_public_key: Seq<u8>,
    server_share: Seq<u8>,
    signature: Seq<u8>,
)
    requires
        server_nonce.len() == 32,
        server_public_key.len() == 32,
        server_share.len() == 32,
        signature.len() == 64,
        sha256(client_public_key).len() == 32,
        ed25519_valid(
            server_public_key,
            server_message(server_nonce, client_nonce, server_public_key, client_public_key, server_share),
            signature,
        ),
    ensures
        spec_check_challenge(
            spec_challenge(server_nonce, client_public_key, server_public_key, server_share, signature),
            client_nonce,
            client_public_key,
        ) == Ok::<(Seq<u8>, Seq<u8>, Seq<u8>), HandshakeError>(
            (server_nonce, server_public_key, server_share),
        ),
{
    let p = spec_challenge(server_nonce, client_public_key, server_public_key, server_share, signature);
    assert(p.subrange(0, 32) =~= server_nonce);
    assert(p.subrange(32, 64) =~= sha256(client_public_key));
    assert(p.subrange(64, 96) =~= server_public_key);
    assert(p.subrange(96, 128) =~= server_share);
    assert(p.subrange(128, 192) =~= signature);
}

/// A whole run of the handshake between a client and a server that hold the secret
/// keys of the public keys they name: the server reads the client's hello back, the
/// client accepts the server's challenge, the server accepts the client's proof, and
/// the key the server makes from the proof's share (`finish_handshake`) is the key the
/// client makes from the challenge's share (`client_finish`). It holds wherever
/// Ed25519 and X25519 do what they are for on the run's values.
pub proof fn lemma_handshake_run(
    client_secret: Seq<u8>,
    server_secret: Seq<u8>,
    client_nonce: Seq<u8>,
    server_nonce: Seq<u8>,
    client_ephemeral: Seq<u8>,
    server_ephemeral: Seq<u8>,
    client_name: Seq<char>,
)
    requires
        client_nonce.len() == NONCE_SIZE,
        server_nonce.len() == NONCE_SIZE,
        encode_utf8(client_name).len() <= u16::MAX,
        sha256(ed25519_public_key(client_secret)).len() == 32,
        ed25519_sound(
            server_secret,
            server_message(
                server_nonce,
                client_nonce,
                ed25519_public_key(server_secret),
                ed25519_public_key(client_secret),
                x25519_public(server_ephemeral),
            ),
        ),
        ed25519_sound(
            client_secret,
            spec_proof_message(
                server_nonce,
                client_nonce,
                ed25519_public_key(server_secret),
                ed25519_public_key(client_secret),
                x25519_public(server_ephemeral),
                x25519_public(client_ephemeral),
            ),
        ),
        ed25519_public_key(client_secret).len() == 32,
        x25519_agrees(client_ephemeral, server_ephemeral),
    ensures
        ({
            let client_pk = ed25519_public_key(client_secret);
            let server_pk = ed25519_public_key(server_secret);
            let server_share = x25519_public(server_ephemeral);
            let hello = spec_hello(client_nonce, client_pk, encode_utf8(client_name));
            let challenge = spec_challenge(
                server_nonce,
                client_pk,
                server_pk,
                server_share,
                ed25519_signature(
                    server_secret,
                    server_message(server_nonce, client_nonce, server_pk, client_pk, server_share),
                ),
            );
            let proof = spec_client_proof(
                server_nonce,
                client_nonce,
                server_pk,
                client_pk,
                server_share,
                client_secret,
                client_ephemeral,
            );
            &&& spec_parse_hello(hello) == Ok::<(Seq<u8>, Seq<u8>, Seq<char>), HandshakeError>(
                (client_nonce, client_pk, client_name),
            )
            &&& spec_check_challenge(challenge, client_nonce, client_pk) == Ok::<
                (Seq<u8>, Seq<u8>, Seq<u8>),
                HandshakeError,
            >((server_nonce, server_pk, server_share))
            &&& proof.len() == PROOF_LENGTH
            &&& spec_verify_signature(
                client_pk,
                spec_proof_message(
                    server_nonce,
                    client_nonce,
                    server_pk,
                    client_pk,
                    server_share,
                    proof.subrange(0, 32),
                ),
                proof.subrange(32, 96),
            )
            &&& spec_session_key(
                x25519_shared(server_ephemeral, proof.subrange(0, 32)),
                server_nonce,
                client_nonce,
                server_pk,
                client_pk,
            ) == spec_session_key(
                x25519_shared(client_ephemeral, server_share),
                server_nonce,
                client_nonce,
                client_pk,
                server_pk,
            )
        }),
{
    let client_pk = ed25519_public_key(client_secret);
    let server_pk = ed25519_public_key(server_secret);
    let server_share = x25519_public(server_ephemeral);
    let client_share = x25519_public(client_ephemeral);
    lemma_hello_roundtrip(client_nonce, client_pk, client_name);
    lemma_honest_challenge_accepted(
        server_nonce,
        client_nonce,
        server_pk,
        client_pk,
        server_share,
        ed25519_signature(
            server_secret,
            server_message(server_nonce, client_nonce, server_pk, client_pk, server_share),
        ),
    );
    let proof = spec_client_proof(
        server_nonce,
        client_nonce,
        server_pk,
        client_pk,
        server_share,
        client_secret,
        client_ephemeral,
    );
    assert(proof.subrange(0, 32) =~= client_share);
    assert(proof.subrange(32, 96) =~= ed25519_signature(
        client_secret,
        spec_proof_message(server_nonce, client_nonce, server_pk, client_pk, server_share, client_share),
    ));
    lemma_session_key_symmetric(
        x25519_shared(client_ephemeral, server_share),
        server_nonce,
        client_nonce,
        server_pk,
        client_pk,
    );
}

} // verus!
