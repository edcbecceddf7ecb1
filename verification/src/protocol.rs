//! Message framing: plain headers, and the encrypted frames of a secure channel.
use vstd::prelude::*;

use crate::bytes::{
    be32, be64, from_be32, from_be64, lemma_be64_roundtrip, lemma_from_be64_roundtrip, push_be32,
    read_be32, read_be64, copy_range,
};
use crate::crypto::{
    aes256gcm_open, body_iv, counter_nonce, decrypt, encrypt, keystream_xor,
    lemma_keystream_involution, lemma_keystream_split, spec_encrypt, BodyCipher,
    AES_GCM_MAX_PLAINTEXT, AES_GCM_TAG_LEN,
};

verus! {

/// First handshake message: the client's nonce, public key and name.
pub const IDENTITY_HELLO: u8 = 0x10;
/// Second handshake message: the server's nonce and identity.
pub const IDENTITY_CHALLENGE: u8 = 0x11;
/// Third handshake message: the client's signature.
pub const IDENTITY_PROOF: u8 = 0x12;
/// The server accepted the handshake.
pub const ACCEPT: u8 = 0x13;
/// The server rejected the handshake.
pub const REJECT: u8 = 0x14;
/// Length of a message header: one type byte and an eight-byte payload length.
pub const HEADER_SIZE: usize = 9;

/// Transfer mode: raw bytes.
pub const MODE_RAW: u8 = 0x01;
/// Transfer mode: encrypted bytes.
pub const MODE_AES: u8 = 0x02;

/// Start of a file body: size and name.
pub const FILE_BEGIN: u8 = 0x19;
/// The sender starts the upload of an accepted offer.
pub const FILE_UPLOAD: u8 = 0x20;
/// A chunk of a file body.
pub const FILE_CHUNK: u8 = 0x21;
/// End of a file body.
pub const FILE_END: u8 = 0x22;
/// An offer to send a file: size and name.
pub const FILE_OFFER: u8 = 0x23;
/// The receiver accepts an offer, optionally with a resume offset.
pub const OFFER_ACCEPT: u8 = 0x24;
/// The receiver declines an offer.
pub const OFFER_REJECT: u8 = 0x25;
/// Clipboard text pushed by the peer.
pub const CLIPBOARD: u8 = 0x26;

/// Size of the buffers a file body is streamed through.
pub const FILE_CHUNK_SIZE: usize = 4194304;

/// A partial file shorter than this is not worth resuming.
pub const RESUME_MIN_BYTES: u64 = 1048576;
/// How far a resumed transfer rewinds to overwrite a possibly torn tail.
pub const RESUME_REWIND_BYTES: u64 = 65536;

/// Bluetooth LE service of the application.
pub const BLE_UUID: u128 = 0x00001d09_0000_1000_8000_00805f9b34fb;
/// Characteristic holding the device's IPv4 address.
pub const WIFI_INFO_UUID: u128 = 0x00001d0a_0000_1000_8000_00805f9b34fb;
/// Characteristic holding the Wi-Fi Direct group information.
pub const WIFIDIRECT_INFO_UUID: u128 = 0x00001d0b_0000_1000_8000_00805f9b34fb;
/// Characteristic through which a Wi-Fi Direct group is requested.
pub const WIFIDIRECT_CONTROL_UUID: u128 = 0x00001d0c_0000_1000_8000_00805f9b34fb;

/// Port of file transfers (TCP).
pub const TCP_PORT: u16 = 55432;
/// Port of device discovery (UDP).
pub const UDP_DISCOVERY_PORT: u16 = 55433;

/// The largest encrypted frame a reader accepts.
pub const MAX_FRAME: u32 = 67108864;

/// The key and the two message counters of an encrypted connection.
pub struct SecureChannel {
    pub key: [u8; 32],
    pub send_ctr: u64,
    pub recv_ctr: u64,
}

impl SecureChannel {
    /// A channel with both counters at zero.
    pub fn new(key: [u8; 32]) -> (c: Self)
        ensures
            c.key == key,
            c.send_ctr == 0,
            c.recv_ctr == 0,
    {
        SecureChannel { key, send_ctr: 0, recv_ctr: 0 }
    }

    /// Starts the counter-mode stream of a file body this end sends; the stream takes
    /// the next send counter, so no message is sealed with it.
    pub fn send_body_cipher(&mut self) -> (c: BodyCipher)
        requires
            old(self).send_ctr < u64::MAX,
        ensures
            c.key == old(self).key,
            c.iv@ == body_iv(old(self).send_ctr),
            c.position == 0,
            final(self).key == old(self).key,
            final(self).send_ctr == old(self).send_ctr + 1,
            final(self).recv_ctr == old(self).recv_ctr,
    {
        let c = BodyCipher::new(self.key, self.send_ctr);
        self.send_ctr = self.send_ctr + 1;
        c
    }

    /// Starts the counter-mode stream of a file body this end receives; the stream
    /// takes the next receive counter.
    pub fn recv_body_cipher(&mut self) -> (c: BodyCipher)
        requires
            old(self).recv_ctr < u64::MAX,
        ensures
            c.key == old(self).key,
            c.iv@ == body_iv(old(self).recv_ctr),
            c.position == 0,
            final(self).key == old(self).key,
            final(self).send_ctr == old(self).send_ctr,
            final(self).recv_ctr == old(self).recv_ctr + 1,
    {
        let c = BodyCipher::new(self.key, self.recv_ctr);
        self.recv_ctr = self.recv_ctr + 1;
        c
    }
}

/// A body streams through: whatever pieces the sender encrypts and however the
/// receiver cuts what arrives, the receiver's stream of the same key and counter,
/// from the same place, gives back the sender's bytes.
pub proof fn lemma_body_roundtrip(
    key: Seq<u8>,
    counter: u64,
    sent_first: Seq<u8>,
    sent_rest: Seq<u8>,
    cut: int,
)
    requires
        0 <= cut <= sent_first.len() + sent_rest.len(),
    ensures
        ({
            let iv = body_iv(counter);
            let wire = keystream_xor(key, iv, 0, sent_first) + keystream_xor(
                key,
                iv,
                sent_first.len(),
                sent_rest,
            );
            keystream_xor(key, iv, 0, wire.subrange(0, cut)) + keystream_xor(
                key,
                iv,
                cut as nat,
                wire.subrange(cut, wire.len() as int),
            ) == sent_first + sent_rest
        }),
{
    let iv = body_iv(counter);
    let whole = sent_first + sent_rest;
    lemma_keystream_split(key, iv, 0, sent_first, sent_rest);
    let wire = keystream_xor(key, iv, 0, whole);
    lemma_keystream_split(key, iv, 0, wire.subrange(0, cut), wire.subrange(cut, wire.len() as int));
    assert(wire.subrange(0, cut) + wire.subrange(cut, wire.len() as int) =~= wire);
    lemma_keystream_involution(key, iv, 0, whole);
}

/// The header of a message of type `msg_type` whose payload is `payload_len` bytes.
pub open spec fn spec_header(msg_type: u8, payload_len: u64) -> Seq<u8> {
    seq![msg_type] + be64(payload_len)
}

/// Builds a message header.
pub fn make_header(msg_type: u8, payload_len: u64) -> (header: [u8; HEADER_SIZE])
    ensures
        header@ == spec_header(msg_type, payload_len),
{
    let header: [u8; HEADER_SIZE] = [
        msg_type,
        (payload_len >> 56u64) as u8,
        (payload_len >> 48u64) as u8,
        (payload_len >> 40u64) as u8,
        (payload_len >> 32u64) as u8,
        (payload_len >> 24u64) as u8,
        (payload_len >> 16u64) as u8,
        (payload_len >> 8u64) as u8,
        payload_len as u8,
    ];
    assert(header@ =~= spec_header(msg_type, payload_len));
    header
}

/// Reads the message type and payload length out of a header.
pub fn parse_header(header: [u8; HEADER_SIZE]) -> (parsed: (u8, u64))
    ensures
        parsed.0 == header@[0],
        parsed.1 == from_be64(header@.subrange(1, 9)),
{
    let h: &[u8] = &header;
    (header[0], read_be64(h, 1))
}

/// Parsing a header that was built gives back its type and length.
pub proof fn lemma_header_roundtrip(msg_type: u8, payload_len: u64)
    ensures
        spec_header(msg_type, payload_len)[0] == msg_type,
        from_be64(spec_header(msg_type, payload_len).subrange(1, 9)) == payload_len,
{
    assert(spec_header(msg_type, payload_len).subrange(1, 9) =~= be64(payload_len));
    lemma_be64_roundtrip(payload_len);
}

/// Building the header of what a header parses to gives back the header.
pub proof fn lemma_header_parse_build(header: Seq<u8>)
    requires
        header.len() == HEADER_SIZE,
    ensures
        spec_header(header[0], from_be64(header.subrange(1, 9))) == header,
{
    lemma_from_be64_roundtrip(header.subrange(1, 9));
    assert(spec_header(header[0], from_be64(header.subrange(1, 9))) =~= header);
}

/// A message as it travels in the clear: its header, then its payload.
pub open spec fn spec_message(msg_type: u8, payload: Seq<u8>) -> Seq<u8> {
    spec_header(msg_type, payload.len() as u64) + payload
}

/// Encodes a message: its header, then its payload.
pub fn encode_message(msg_type: u8, payload: &[u8]) -> (msg: Vec<u8>)
    ensures
        msg@ == spec_message(msg_type, payload@),
{
    let header = make_header(msg_type, payload.len() as u64);
    let mut msg: Vec<u8> = Vec::new();
    msg.extend_from_slice(&header);
    msg.extend_from_slice(payload);
    msg
}

/// Why a frame could not be sent or received.
#[derive(Debug, Clone, Copy, PartialEq, Eq, Structural)]
pub enum ProtocolError {
    /// The frame is longer than its length prefix or the reader allows.
    FrameTooLarge,
    /// The frame is not authentic under the channel's key and counter.
    DecryptionFailed,
    /// The decrypted frame is shorter than a header.
    InvalidHeader,
    /// The header's payload length disagrees with the frame.
    PayloadLengthMismatch,
}

/// The encrypted frame of a message: a big-endian `u32` length, then the ciphertext
/// of the message under the channel key and the sender's counter.
pub open spec fn spec_sealed(key: Seq<u8>, counter: u64, msg_type: u8, payload: Seq<u8>) -> Seq<
    u8,
> {
    let c = spec_encrypt(key, counter, spec_message(msg_type, payload));
    be32(c.len() as u32) + c
}

/// Encrypts a message for `channel` and frames it, advancing the send counter.
/// A ciphertext too long for its `u32` length prefix is refused, after the counter
/// has advanced.
pub fn seal_message(channel: &mut SecureChannel, msg_type: u8, payload: &[u8]) -> (res: Result<
    Vec<u8>,
    ProtocolError,
>)
    requires
        old(channel).send_ctr < u64::MAX,
        payload@.len() + HEADER_SIZE <= AES_GCM_MAX_PLAINTEXT,
    ensures
        final(channel).key == old(channel).key,
        final(channel).recv_ctr == old(channel).recv_ctr,
        final(channel).send_ctr == old(channel).send_ctr + 1,
        payload@.len() + HEADER_SIZE + AES_GCM_TAG_LEN <= u32::MAX ==> (res matches Ok(frame)
            && frame@ == spec_sealed(
            old(channel).key@,
            old(channel).send_ctr,
            msg_type,
            payload@,
        )),
        payload@.len() + HEADER_SIZE + AES_GCM_TAG_LEN > u32::MAX ==> res == Err::<
            Vec<u8>,
            ProtocolError,
        >(ProtocolError::FrameTooLarge),
{
    let plain = encode_message(msg_type, payload);
    let encrypted = encrypt(&channel.key, channel.send_ctr, plain.as_slice());
    channel.send_ctr = channel.send_ctr + 1;
    let len = encrypted.len();
    if len > 4294967295usize {
        return Err(ProtocolError::FrameTooLarge);
    }
    let len32 = len as u32;
    let mut frame: Vec<u8> = Vec::new();
    push_be32(&mut frame, len32);
    frame.extend_from_slice(encrypted.as_slice());
    Ok(frame)
}

/// Reads the length of the frame that follows a four-byte prefix, refusing frames
/// longer than `MAX_FRAME`.
pub fn frame_length(prefix: [u8; 4]) -> (res: Result<usize, ProtocolError>)
    ensures
        from_be32(prefix@) <= MAX_FRAME ==> res == Ok::<usize, ProtocolError>(
            from_be32(prefix@) as usize,
        ),
        from_be32(prefix@) > MAX_FRAME ==> res == Err::<usize, ProtocolError>(
            ProtocolError::FrameTooLarge,
        ),
{
    let p: &[u8] = &prefix;
    assert(p@.subrange(0, 4) =~= prefix@);
    let n = read_be32(p, 0);
    if n > MAX_FRAME {
        Err(ProtocolError::FrameTooLarge)
    } else {
        Ok(n as usize)
    }
}

/// A decoded message: its type and payload.
pub open spec fn msg_view(r: Result<(u8, Vec<u8>), ProtocolError>) -> Result<
    (u8, Seq<u8>),
    ProtocolError,
> {
    match r {
        Ok((t, p)) => Ok((t, p@)),
        Err(e) => Err(e),
    }
}

/// What a message decodes to from its decrypted bytes.
pub open spec fn spec_decode(plain: Seq<u8>) -> Result<(u8, Seq<u8>), ProtocolError> {
    if plain.len() < HEADER_SIZE {
        Err(ProtocolError::InvalidHeader)
    } else if plain.len() != HEADER_SIZE + from_be64(plain.subrange(1, 9)) {
        Err(ProtocolError::PayloadLengthMismatch)
    } else {
        Ok((plain[0], plain.subrange(HEADER_SIZE as int, plain.len() as int)))
    }
}

/// What a received frame decodes to under `key` and the receiver's counter.
pub open spec fn spec_open(key: Seq<u8>, counter: u64, frame: Seq<u8>) -> Result<
    (u8, Seq<u8>),
    ProtocolError,
> {
    match aes256gcm_open(key, counter_nonce(counter), frame) {
        None => Err(ProtocolError::DecryptionFailed),
        Some(plain) => spec_decode(plain),
    }
}

/// Decoding a message that was encoded gives back its type and payload.
pub proof fn lemma_message_roundtrip(msg_type: u8, payload: Seq<u8>)
    requires
        payload.len() + HEADER_SIZE <= u64::MAX,
    ensures
        spec_decode(spec_message(msg_type, payload)) == Ok::<(u8, Seq<u8>), ProtocolError>(
            (msg_type, payload),
        ),
{
    let m = spec_message(msg_type, payload);
    lemma_header_roundtrip(msg_type, payload.len() as u64);
    assert(m.subrange(1, 9) =~= spec_header(msg_type, payload.len() as u64).subrange(1, 9));
    assert(m.subrange(HEADER_SIZE as int, m.len() as int) =~= payload);
}

/// Decrypts and decodes a frame received on `channel` (without its length prefix).
/// The receive counter advances once the frame decrypts to at least a header.
/// A frame that `seal_message` produced for the same key and counter gives back the
/// type and payload that were sealed.
pub fn open_message(channel: &mut SecureChannel, frame: &[u8]) -> (res: Result<
    (u8, Vec<u8>),
    ProtocolError,
>)
    requires
        old(channel).recv_ctr < u64::MAX,
    ensures
        msg_view(res) == spec_open(old(channel).key@, old(channel).recv_ctr, frame@),
        final(channel).key == old(channel).key,
        final(channel).send_ctr == old(channel).send_ctr,
        final(channel).recv_ctr == (if res is Ok || res == Err::<(u8, Vec<u8>), ProtocolError>(
            ProtocolError::PayloadLengthMismatch,
        ) {
            old(channel).recv_ctr + 1
        } else {
            old(channel).recv_ctr as int
        }),
        forall|t: u8, p: Seq<u8>|
            #![trigger spec_encrypt(old(channel).key@, old(channel).recv_ctr, spec_message(t, p))]
            p.len() + HEADER_SIZE <= AES_GCM_MAX_PLAINTEXT && frame@ == spec_encrypt(
                old(channel).key@,
                old(channel).recv_ctr,
                spec_message(t, p),
            ) ==> msg_view(res) == Ok::<(u8, Seq<u8>), ProtocolError>((t, p)),
{
    let ghost key = channel.key@;
    let ghost ctr = channel.recv_ctr;
    let decrypted = match decrypt(&channel.key, channel.recv_ctr, frame) {
        Ok(d) => d,
        Err(_) => {
            proof {
                assert forall|t: u8, p: Seq<u8>|
                    p.len() + HEADER_SIZE <= AES_GCM_MAX_PLAINTEXT && frame@ == spec_encrypt(
                        key,
                        ctr,
                        spec_message(t, p),
                    ) implies false by {
                    assert(spec_message(t, p).len() == p.len() + HEADER_SIZE);
                }
            }
            return Err(ProtocolError::DecryptionFailed);
        },
    };
    proof {
        assert forall|t: u8, p: Seq<u8>|
            p.len() + HEADER_SIZE <= AES_GCM_MAX_PLAINTEXT && frame@ == spec_encrypt(
                key,
                ctr,
                spec_message(t, p),
            ) implies decrypted@ == spec_message(t, p) by {
            assert(spec_message(t, p).len() == p.len() + HEADER_SIZE);
        }
        assert forall|t: u8, p: Seq<u8>|
            p.len() + HEADER_SIZE <= AES_GCM_MAX_PLAINTEXT && decrypted@ == spec_message(t, p)
                implies spec_decode(decrypted@) == Ok::<(u8, Seq<u8>), ProtocolError>(
            (t, p),
        ) by {
            lemma_message_roundtrip(t, p);
        }
    }
    if decrypted.len() < HEADER_SIZE {
        return Err(ProtocolError::InvalidHeader);
    }
    channel.recv_ctr = channel.recv_ctr + 1;
    let msg_type = decrypted[0];
    let payload_len = read_be64(decrypted.as_slice(), 1);
    let body_len = decrypted.len() - HEADER_SIZE;
    if body_len as u64 != payload_len {
        return Err(ProtocolError::PayloadLengthMismatch);
    }
    let payload = copy_range(decrypted.as_slice(), HEADER_SIZE, decrypted.len());
    Ok((msg_type, payload))
}

} // verus!
