# pp2p_core

The cryptographic core of a persistent peer-to-peer protocol, verified with Verus.

- Peer ids: the first 24 lower-case hex characters of the SHA-256 digest of an
  Ed25519 public key.
- Identities: an Ed25519 key pair in base64 together with its peer id.
- Envelopes: a payload (JSON text) from one peer to another, signed over the
  RFC 8785 canonical form of its fields; checking one looks at the protocol
  version, the sender's peer id, the timestamp window and the signature, in
  that order.
- Replay windows: per peer, the most recent nonces seen, up to a bound.

`src/` is the verified library. SHA-256, Ed25519, base64 and JSON
canonicalization are called from the `sha2`, `ed25519-dalek`, `base64`,
`serde_json` and `serde_jcs` crates through small trusted wrappers whose
contracts name their results. `app/` holds the JSON forms of identities and
envelopes and the C interface.
