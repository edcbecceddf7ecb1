use quickdrop::crypto::derive_session_key;
use quickdrop::handshake::{
    accept_payload, client_finish, client_hello, ephemeral_share, finish_handshake,
    handle_identity_hello, handle_identity_proof, parse_identity_hello, prepare_challenge,
    public_key_from_secret, respond_to_challenge, verify_signature, HandshakeContext,
    HandshakeError, ProofOutcome, CHALLENGE_LENGTH, PROOF_LENGTH,
};
use quickdrop::identity::{add_trusted, State, Store};
use quickdrop::protocol::{ACCEPT, IDENTITY_CHALLENGE, IDENTITY_HELLO, IDENTITY_PROOF, REJECT};

#[test]
fn hello_roundtrip() {
    let nonce = [5u8; 32];
    let pk = [6u8; 32];
    let payload = client_hello(&nonce, &pk, "laptop é");
    assert_eq!(payload.len(), 32 + 2 + 32 + 2 + "laptop é".len());
    let (n, k, name) = parse_identity_hello(&payload).unwrap();
    assert_eq!(n, nonce);
    assert_eq!(k, pk.to_vec());
    assert_eq!(name, "laptop é");
}

#[test]
fn hello_errors() {
    assert_eq!(parse_identity_hello(&[0u8; 33]).err(), Some(HandshakeError::PayloadTooShort));
    let mut p = vec![0u8; 32];
    p.extend_from_slice(&[0, 40]);
    p.extend_from_slice(&[1u8; 10]);
    assert_eq!(parse_identity_hello(&p).err(), Some(HandshakeError::InvalidPublicKeyLength));
    let mut p = vec![0u8; 32];
    p.extend_from_slice(&[0, 1, 9, 0, 3, b'a']);
    assert_eq!(parse_identity_hello(&p).err(), Some(HandshakeError::InvalidNameLength));
    let mut p = vec![0u8; 32];
    p.extend_from_slice(&[0, 1, 9, 0, 1, 0xff]);
    assert_eq!(parse_identity_hello(&p).err(), Some(HandshakeError::InvalidUtf8Name));
}

#[test]
fn wrong_first_message_leaves_context() {
    let mut ctx = HandshakeContext::new([1u8; 32], "server".to_string());
    let hello = client_hello(&[5u8; 32], &[6u8; 32], "x");
    assert_eq!(handle_identity_hello(&mut ctx, IDENTITY_PROOF, &hello), Err(HandshakeError::ExpectedHello));
    assert_eq!(ctx.state, State::New);
    assert!(ctx.peer_public_key.is_none());
}

#[test]
fn challenge_needs_a_hello() {
    let mut ctx = HandshakeContext::new([1u8; 32], "server".to_string());
    assert_eq!(prepare_challenge(&mut ctx, [3u8; 32], [4u8; 32], &[5u8; 32]).err(), Some(HandshakeError::NoPublicKey));
    assert_eq!(ctx.state, State::New);
    assert_eq!(finish_handshake(&mut ctx).err(), Some(HandshakeError::PermissionDenied));
}

struct Run {
    ctx: HandshakeContext,
    outcome: Result<ProofOutcome, HandshakeError>,
    client_pk: [u8; 32],
    client_key: [u8; 32],
}

fn run(client_secret: [u8; 32], client_ephemeral: [u8; 32], tamper: bool, store: &Store) -> Run {
    let server_secret = [9u8; 32];
    let server_pk = public_key_from_secret(&server_secret);
    let client_pk = public_key_from_secret(&client_secret);
    let client_nonce = [0x11u8; 32];
    let mut ctx = HandshakeContext::new(server_pk, "server".to_string());
    let hello = client_hello(&client_nonce, &client_pk, "phone");
    handle_identity_hello(&mut ctx, IDENTITY_HELLO, &hello).unwrap();
    assert_eq!(ctx.state, State::HelloReceived);
    assert_eq!(ctx.peer_name.as_deref(), Some("phone"));
    let server_ephemeral = [0x33u8; 32];
    let challenge = prepare_challenge(&mut ctx, [0x22u8; 32], server_ephemeral, &server_secret).unwrap();
    assert_eq!(challenge.len(), CHALLENGE_LENGTH);
    assert_eq!(&challenge[..32], &[0x22u8; 32]);
    assert_eq!(&challenge[64..96], &server_pk);
    assert_eq!(&challenge[96..128], &ephemeral_share(&server_ephemeral));
    assert_eq!(ctx.state, State::ChallengeSent);
    let mut proof = respond_to_challenge(IDENTITY_CHALLENGE, &challenge, &client_nonce, &client_pk, &client_secret, &client_ephemeral).unwrap();
    assert_eq!(proof.len(), PROOF_LENGTH);
    assert_eq!(&proof[..32], &ephemeral_share(&client_ephemeral));
    if tamper {
        proof[40] ^= 1;
    }
    let outcome = handle_identity_proof(&mut ctx, IDENTITY_PROOF, &proof, store);
    let client_key = client_finish(ACCEPT, &challenge, &client_nonce, &client_pk, &client_ephemeral).unwrap();
    Run { ctx, outcome, client_pk, client_key }
}

#[test]
fn honest_handshake_is_accepted_and_keys_agree() {
    let store = Store::new();
    let mut r = run([7u8; 32], [0x44u8; 32], false, &store);
    assert_eq!(r.outcome, Ok(ProofOutcome::Accepted { auto_send: false }));
    assert_eq!(r.ctx.state, State::Authenticated);
    let (server_key, peer) = finish_handshake(&mut r.ctx).unwrap();
    assert_eq!(peer, r.client_pk);
    assert_eq!(server_key, r.client_key);
    assert!(r.ctx.nonce.is_none());
    assert!(r.ctx.ephemeral_secret.is_none());
}

#[test]
fn session_key_rests_on_the_ephemeral_secrets() {
    let store = Store::new();
    let mut a = run([7u8; 32], [0x44u8; 32], false, &store);
    let mut b = run([7u8; 32], [0x45u8; 32], false, &store);
    let (ka, _) = finish_handshake(&mut a.ctx).unwrap();
    let (kb, _) = finish_handshake(&mut b.ctx).unwrap();
    assert_ne!(ka, kb);
    let public_only = derive_session_key(&[0u8; 32], &[0x22u8; 32], &[0x11u8; 32], &a.client_pk, &public_key_from_secret(&[9u8; 32]));
    assert_ne!(ka, public_only);
}

#[test]
fn trusted_client_is_told_to_auto_send() {
    let mut store = Store::new();
    let client_pk = public_key_from_secret(&[7u8; 32]);
    assert!(add_trusted(&mut store, &client_pk, "phone"));
    let r = run([7u8; 32], [0x44u8; 32], false, &store);
    assert_eq!(r.outcome, Ok(ProofOutcome::Accepted { auto_send: true }));
    assert_eq!(accept_payload(true), vec![1]);
    assert_eq!(accept_payload(false), vec![0]);
}

#[test]
fn forged_proof_is_rejected() {
    let store = Store::new();
    let mut r = run([7u8; 32], [0x44u8; 32], true, &store);
    assert_eq!(r.outcome, Ok(ProofOutcome::Rejected));
    assert_eq!(r.ctx.state, State::Rejected);
    assert!(r.ctx.peer_share.is_none());
    assert_eq!(finish_handshake(&mut r.ctx).err(), Some(HandshakeError::PermissionDenied));
}

fn server_challenge(server_secret: [u8; 32], claimed_pk: [u8; 32], client_pk: &[u8; 32]) -> Vec<u8> {
    let mut ctx = HandshakeContext::new(claimed_pk, "server".to_string());
    let hello = client_hello(&[0x11u8; 32], client_pk, "phone");
    handle_identity_hello(&mut ctx, IDENTITY_HELLO, &hello).unwrap();
    prepare_challenge(&mut ctx, [0x22u8; 32], [0x33u8; 32], &server_secret).unwrap()
}

#[test]
fn client_refuses_an_impostor_server() {
    let client_secret = [7u8; 32];
    let client_pk = public_key_from_secret(&client_secret);
    let server_pk = public_key_from_secret(&[9u8; 32]);
    let eph = [0x44u8; 32];
    // Signed with a key other than the one it names.
    let forged = server_challenge([8u8; 32], server_pk, &client_pk);
    assert_eq!(respond_to_challenge(IDENTITY_CHALLENGE, &forged, &[0x11u8; 32], &client_pk, &client_secret, &eph).err(), Some(HandshakeError::ServerUnverified));
    assert_eq!(client_finish(ACCEPT, &forged, &[0x11u8; 32], &client_pk, &eph).err(), Some(HandshakeError::ServerUnverified));
    // Meant for another client.
    let other = server_challenge([9u8; 32], server_pk, &public_key_from_secret(&[6u8; 32]));
    assert_eq!(respond_to_challenge(IDENTITY_CHALLENGE, &other, &[0x11u8; 32], &client_pk, &client_secret, &eph).err(), Some(HandshakeError::ServerUnverified));
    // Bound to another client nonce.
    let honest = server_challenge([9u8; 32], server_pk, &client_pk);
    assert_eq!(client_finish(ACCEPT, &honest, &[0x12u8; 32], &client_pk, &eph).err(), Some(HandshakeError::ServerUnverified));
    assert!(client_finish(ACCEPT, &honest, &[0x11u8; 32], &client_pk, &eph).is_ok());
    // A changed share breaks the signature.
    let mut swapped = honest.clone();
    swapped[100] ^= 1;
    assert_eq!(client_finish(ACCEPT, &swapped, &[0x11u8; 32], &client_pk, &eph).err(), Some(HandshakeError::ServerUnverified));
}

#[test]
fn proof_message_checks() {
    let mut ctx = HandshakeContext::new([1u8; 32], "s".to_string());
    let store = Store::new();
    assert_eq!(handle_identity_proof(&mut ctx, IDENTITY_HELLO, &[0u8; 96], &store), Err(HandshakeError::ExpectedProof));
    assert_eq!(handle_identity_proof(&mut ctx, IDENTITY_PROOF, &[0u8; 64], &store), Err(HandshakeError::InvalidSignature));
    assert_eq!(handle_identity_proof(&mut ctx, IDENTITY_PROOF, &[0u8; 96], &store), Err(HandshakeError::MissingNonce));
    assert!(!verify_signature(&[0u8; 31], &[0u8; 32], &[0u8; 64]));
    assert!(!verify_signature(&[0u8; 32], &[0u8; 32], &[0u8; 65]));
    let secret = [7u8; 32];
    let pk = public_key_from_secret(&secret);
    let proof = respond_to_challenge(IDENTITY_CHALLENGE, &server_challenge([9u8; 32], public_key_from_secret(&[9u8; 32]), &pk), &[0x11u8; 32], &pk, &secret, &[1u8; 32]).unwrap();
    assert!(!verify_signature(&pk, b"other message", &proof[32..]));
}

#[test]
fn client_side_errors() {
    let proof_err = respond_to_challenge(REJECT, &[], &[0u8; 32], &[0u8; 32], &[1u8; 32], &[2u8; 32]);
    assert_eq!(proof_err.err(), Some(HandshakeError::ExpectedChallenge));
    let short = vec![0u8; 96];
    assert_eq!(respond_to_challenge(IDENTITY_CHALLENGE, &short, &[0u8; 32], &[0u8; 32], &[1u8; 32], &[2u8; 32]).err(), Some(HandshakeError::InvalidChallenge));
    assert_eq!(client_finish(REJECT, &short, &[0u8; 32], &[0u8; 32], &[2u8; 32]).err(), Some(HandshakeError::ServerRejected));
    assert_eq!(client_finish(ACCEPT, &short, &[0u8; 32], &[0u8; 32], &[2u8; 32]).err(), Some(HandshakeError::InvalidChallenge));
}

#[test]
fn ephemeral_share_matches_rfc7748_vector() {
    let secret: [u8; 32] = unhex("77076d0a7318a57d3c16c17251b26645df4c2f87ebc0992ab177fba51db92c2a")
        .try_into()
        .unwrap();
    assert_eq!(ephemeral_share(&secret).to_vec(), unhex("8520f0098930a754748b7ddcb43ef75a0dbf3a0d26381af4eba4a98eaa9b4e6a"));
}

fn unhex(s: &str) -> Vec<u8> {
    (0..s.len()).step_by(2).map(|i| u8::from_str_radix(&s[i..i + 2], 16).unwrap()).collect()
}

#[test]
fn public_key_matches_rfc8032_vector() {
    let secret: [u8; 32] = unhex("9d61b19deffd5a60ba844af492ec2cc44449c5697b326919703bac031cae7f60")
        .try_into()
        .unwrap();
    let public = public_key_from_secret(&secret);
    assert_eq!(public.to_vec(), unhex("d75a980182b10ab7d54bfed3c964073a0ee172f3daa62325af021a68f707511a"));
    assert_ne!(public, secret);
}

#[test]
fn proof_and_finish_need_a_usable_peer_key() {
    let store = Store::new();
    let mut ctx = HandshakeContext::new([1u8; 32], "s".to_string());
    ctx.nonce = Some([2u8; 32]);
    ctx.client_nonce = Some([3u8; 32]);
    ctx.local_share = Some([4u8; 32]);
    assert_eq!(handle_identity_proof(&mut ctx, IDENTITY_PROOF, &[0u8; 96], &store), Err(HandshakeError::MissingPublicKey));
    ctx.state = State::Authenticated;
    assert_eq!(finish_handshake(&mut ctx).err(), Some(HandshakeError::NoPublicKey));
    ctx.peer_public_key = Some(vec![0u8; 31]);
    assert_eq!(finish_handshake(&mut ctx).err(), Some(HandshakeError::InvalidPublicKey));
    ctx.peer_public_key = Some(vec![0u8; 32]);
    assert_eq!(finish_handshake(&mut ctx).err(), Some(HandshakeError::MissingNonce));
    ctx.ephemeral_secret = Some([5u8; 32]);
    ctx.peer_share = Some([6u8; 32]);
    ctx.client_nonce = None;
    assert_eq!(finish_handshake(&mut ctx).err(), Some(HandshakeError::MissingNonce));
    assert_eq!(ctx.nonce, Some([2u8; 32]));
    ctx.client_nonce = Some([3u8; 32]);
    assert!(finish_handshake(&mut ctx).is_ok());
    assert!(ctx.nonce.is_none());
}
