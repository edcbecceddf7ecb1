# quickdrop (verified core)

The protocol core of a peer-to-peer, end-to-end encrypted file transfer tool,
written in Verus and proved against its contracts.

- `src/` — the verified library:
  - `bytes`, `text`: big-endian integers, UTF-8, hexadecimal and decimal notation.
  - `crypto`: AES-256-GCM message encryption with counter nonces, the AES-256-CTR
    body stream, HKDF-SHA-256 session keys, X25519, Ed25519 and SHA-256 (through
    trusted wrappers of RustCrypto and dalek crates).
  - `protocol`: message headers, the encrypted frames of a secure channel and the
    start of body streams.
  - `identity`, `handshake`: trusted devices and the mutual identity handshake.
  - `transfer`, `session`, `state`: offers, file bodies, resume decisions, the
    receiving session's state machine, pending offers and cancellations.
  - `discovery`, `wifi`, `ui`: network announcements, Wi-Fi Direct hand-over and
    what the front end shows.
- `app/` — the command-line program around the library: sockets, files, tasks.
- `tests/` — tests of the library on concrete values.

## Wire format

- **Handshake.** The client sends its nonce, public key and name. The server
  answers with its nonce, the SHA-256 digest of the client's key, its own key, an
  ephemeral X25519 share and its Ed25519 signature over both nonces, both keys'
  digests and its share. The client checks that signature before it answers with
  its own share and its signature over the same transcript and both shares. The
  session key is HKDF-SHA-256 over the X25519 secret the two shares give, both
  nonces and both public keys, so someone who only sees the handshake cannot
  derive it, and each end has proved its identity to the other.
- **Control messages** are AES-256-GCM frames; message number `n` uses the nonce
  of four zero bytes and `n` in big-endian order.
- **File bodies** stream as raw AES-256-CTR after `FILE_BEGIN` (0x19), under the
  session key. The stream takes the next message number `n` of its direction, and
  its 128-bit initial counter block is the byte 1, `n` in big-endian order, and
  seven zero bytes; no AES-GCM counter block starts with 1. `FILE_END` closes the
  body.

These choices (the signed, ephemeral handshake and the body stream's initial
counter block) are this library's own: devices only interoperate when they all
use this wire format.
