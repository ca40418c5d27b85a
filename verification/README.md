# shared

The library of a small client/server pair that echoes numbers, verified
with Verus.

- `src/protocal.rs`: the request and response messages, and the server's
  answer to a request.
- `src/networking.rs`: length-prefixed framing of messages on a byte stream
  (a little-endian `u32` length, then the payload), the receive buffer that
  turns the bytes read from a socket into frames, and the error types of the
  socket layer.
- `src/input.rs`: reading the number typed at the client's prompt.
- `src/password_encryption.rs`: envelopes sealed under a password
  (Argon2id key derivation, ChaCha20-Poly1305).
- `src/keypair_encryption.rs`: envelopes sealed to an X25519 public key
  (HPKE base mode).
- `app/`: the sockets, the prompt loop, the server loop, and the wincode
  schemas of the messages, keys and envelopes.
