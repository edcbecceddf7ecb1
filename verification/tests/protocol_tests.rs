use quickdrop::bytes::{push_be16, push_be32, push_be64, read_be16, read_be32, read_be64};
use quickdrop::crypto::{decrypt, derive_session_key, encrypt, nonce_for_counter, BodyCipher, CryptoError};
use quickdrop::protocol::{
    encode_message, frame_length, make_header, open_message, parse_header, seal_message,
    ProtocolError, SecureChannel, FILE_CHUNK, HEADER_SIZE, MAX_FRAME,
};

#[test]
fn header_is_type_then_big_endian_length() {
    let h = make_header(0x21, 0x0102030405060708);
    assert_eq!(h, [0x21, 1, 2, 3, 4, 5, 6, 7, 8]);
    assert_eq!(parse_header(h), (0x21, 0x0102030405060708));
}

#[test]
fn header_roundtrip_on_extremes() {
    for &(t, n) in &[(0u8, 0u64), (255u8, u64::MAX), (0x10u8, 9u64)] {
        assert_eq!(parse_header(make_header(t, n)), (t, n));
    }
}

#[test]
fn big_endian_helpers() {
    let mut v = Vec::new();
    push_be16(&mut v, 0xabcd);
    push_be32(&mut v, 0x01020304);
    push_be64(&mut v, 42);
    assert_eq!(v, vec![0xab, 0xcd, 1, 2, 3, 4, 0, 0, 0, 0, 0, 0, 0, 42]);
    assert_eq!(read_be16(&v, 0), 0xabcd);
    assert_eq!(read_be32(&v, 2), 0x01020304);
    assert_eq!(read_be64(&v, 6), 42);
}

#[test]
fn nonce_is_four_zeros_then_counter() {
    assert_eq!(nonce_for_counter(0x0102), [0, 0, 0, 0, 0, 0, 0, 0, 0, 0, 1, 2]);
}

#[test]
fn encrypt_then_decrypt_gives_plaintext() {
    let key = [3u8; 32];
    let ct = encrypt(&key, 5, b"hello");
    assert_eq!(ct.len(), 5 + 16);
    assert_ne!(&ct[..5], b"hello");
    assert_eq!(decrypt(&key, 5, &ct), Ok(b"hello".to_vec()));
}

#[test]
fn decrypt_with_wrong_counter_or_key_fails() {
    let key = [3u8; 32];
    let ct = encrypt(&key, 5, b"hello");
    assert_eq!(decrypt(&key, 6, &ct), Err(CryptoError::DecryptionFailed));
    assert_eq!(decrypt(&[4u8; 32], 5, &ct), Err(CryptoError::DecryptionFailed));
    let mut tampered = ct.clone();
    tampered[0] ^= 1;
    assert_eq!(decrypt(&key, 5, &tampered), Err(CryptoError::DecryptionFailed));
}

#[test]
fn session_key_does_not_depend_on_whose_key_is_ours() {
    let sn = [1u8; 32];
    let cn = [2u8; 32];
    let a = [0x10u8; 32];
    let b = [0x20u8; 32];
    let shared = [7u8; 32];
    let k1 = derive_session_key(&shared, &sn, &cn, &a, &b);
    let k2 = derive_session_key(&shared, &sn, &cn, &b, &a);
    assert_eq!(k1, k2);
    assert_ne!(k1, derive_session_key(&shared, &cn, &sn, &a, &b));
    assert_ne!(k1, derive_session_key(&[8u8; 32], &sn, &cn, &a, &b));
}

#[test]
fn encode_message_is_header_then_payload() {
    let m = encode_message(0x13, &[9, 8]);
    assert_eq!(m, vec![0x13, 0, 0, 0, 0, 0, 0, 0, 2, 9, 8]);
}

#[test]
fn sealed_frame_opens_on_the_peer_channel() {
    let key = [7u8; 32];
    let mut sender = SecureChannel::new(key);
    let mut receiver = SecureChannel::new(key);
    for round in 0..3u8 {
        let payload = vec![round; 10 + round as usize];
        let frame = seal_message(&mut sender, FILE_CHUNK, &payload).unwrap();
        let len = frame_length([frame[0], frame[1], frame[2], frame[3]]).unwrap();
        assert_eq!(len, frame.len() - 4);
        assert_eq!(len, HEADER_SIZE + payload.len() + 16);
        let (t, p) = open_message(&mut receiver, &frame[4..]).unwrap();
        assert_eq!(t, FILE_CHUNK);
        assert_eq!(p, payload);
    }
    assert_eq!(sender.send_ctr, 3);
    assert_eq!(receiver.recv_ctr, 3);
    assert_eq!(sender.recv_ctr, 0);
}

#[test]
fn frame_out_of_order_is_refused_and_counter_kept() {
    let key = [7u8; 32];
    let mut sender = SecureChannel::new(key);
    let mut receiver = SecureChannel::new(key);
    let _first = seal_message(&mut sender, 1, b"a").unwrap();
    let second = seal_message(&mut sender, 1, b"b").unwrap();
    assert_eq!(open_message(&mut receiver, &second[4..]), Err(ProtocolError::DecryptionFailed));
    assert_eq!(receiver.recv_ctr, 0);
}

#[test]
fn short_or_inconsistent_plaintext_is_refused() {
    let key = [7u8; 32];
    let mut receiver = SecureChannel::new(key);
    let short = encrypt(&key, 0, &[1, 2, 3]);
    assert_eq!(open_message(&mut receiver, &short), Err(ProtocolError::InvalidHeader));
    assert_eq!(receiver.recv_ctr, 0);
    let mut bad = make_header(1, 5).to_vec();
    bad.extend_from_slice(&[0, 0]);
    let ct = encrypt(&key, 0, &bad);
    assert_eq!(open_message(&mut receiver, &ct), Err(ProtocolError::PayloadLengthMismatch));
    assert_eq!(receiver.recv_ctr, 1);
}

#[test]
fn frame_length_limit() {
    assert_eq!(frame_length(MAX_FRAME.to_be_bytes()), Ok(MAX_FRAME as usize));
    assert_eq!(frame_length((MAX_FRAME + 1).to_be_bytes()), Err(ProtocolError::FrameTooLarge));
    assert_eq!(frame_length([0, 0, 0, 5]), Ok(5));
}

#[test]
fn new_channel_starts_at_zero() {
    let c = SecureChannel::new([1u8; 32]);
    assert_eq!(c.key, [1u8; 32]);
    assert_eq!(c.send_ctr, 0);
    assert_eq!(c.recv_ctr, 0);
}

#[test]
fn session_key_is_not_its_inputs() {
    let sn = [1u8; 32];
    let cn = [2u8; 32];
    let a = [0x10u8; 32];
    let b = [0x20u8; 32];
    let shared = [7u8; 32];
    let k = derive_session_key(&shared, &sn, &cn, &a, &b);
    assert!(k != shared && k != sn && k != cn && k != a && k != b);
}

#[test]
fn body_stream_roundtrips_whatever_the_cut() {
    let key = [3u8; 32];
    let mut sender = SecureChannel::new(key);
    let mut receiver = SecureChannel::new(key);
    let body: Vec<u8> = (0..100u32).map(|i| (i * 7) as u8).collect();
    let mut tx = sender.send_body_cipher();
    assert_eq!(sender.send_ctr, 1);
    let mut wire = tx.apply(&body[..33]);
    wire.extend(tx.apply(&body[33..]));
    assert_eq!(tx.position, 100);
    assert_ne!(wire, body);
    let mut rx = receiver.recv_body_cipher();
    assert_eq!(receiver.recv_ctr, 1);
    let mut plain = rx.apply(&wire[..50]);
    plain.extend(rx.apply(&wire[50..51]));
    plain.extend(rx.apply(&wire[51..]));
    assert_eq!(plain, body);
}

#[test]
fn body_streams_of_different_counters_differ() {
    let data = [0u8; 40];
    let mut a = BodyCipher::new([3u8; 32], 0);
    let mut b = BodyCipher::new([3u8; 32], 1);
    assert_eq!(a.iv[0], 1);
    assert_eq!(b.iv[8], 1);
    assert_ne!(a.apply(&data), b.apply(&data));
}

fn unhex(s: &str) -> Vec<u8> {
    (0..s.len()).step_by(2).map(|i| u8::from_str_radix(&s[i..i + 2], 16).unwrap()).collect()
}

#[test]
fn aes256_ctr_matches_sp800_38a_vector() {
    let key: [u8; 32] = unhex("603deb1015ca71be2b73aef0857d77811f352c073b6108d72d9810a30914dff4").try_into().unwrap();
    let iv: [u8; 16] = unhex("f0f1f2f3f4f5f6f7f8f9fafbfcfdfeff").try_into().unwrap();
    let mut c = BodyCipher { key, iv, position: 0 };
    let out = c.apply(&unhex("6bc1bee22e409f96e93d7e117393172a"));
    assert_eq!(out, unhex("601ec313775789a5b7a7f504bbf3d228"));
}
