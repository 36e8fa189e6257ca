//! Identity, peer-id derivation, signed envelopes and replay detection for the
//! persistent peer-to-peer protocol.
//!
//! - `text`: lower-case hex and decimal renderings.
//! - `error`: the error type and the message of each error.
//! - `codec`: base64 decoding with a length check.
//! - `crypto`: SHA-256 peer ids, Ed25519 keys, identities.
//! - `canonical`: the canonical bytes that a signature covers.
//! - `envelope`: sealing and checking envelopes.
//! - `replay`: per-peer windows of recently seen nonces.
//! - `last_error`: the last-error slot of the C interface.

pub mod text;
pub mod error;
pub mod codec;
pub mod crypto;
pub mod canonical;
pub mod envelope;
pub mod replay;
pub mod last_error;

pub use text::hex_lower;
pub use error::{CoreError, ErrorModel};
pub use codec::decode_fixed_len_b64;
pub use crypto::{
    generate_identity, identity_from_secret, peer_id_from_digest, peer_id_from_public_key_b64,
    peer_id_from_public_key_bytes, signing_key_from_b64, verifying_key_from_b64, Identity,
    SigningKey, VerifyingKey, PEER_ID_HEX_LEN,
};
pub use canonical::{frame_signable, signable_bytes};
pub use envelope::{
    check_envelope_header, sign_envelope, signature_from_b64, verify_envelope, Envelope,
    PROTOCOL_VERSION,
};
pub use replay::{ReplayModel, ReplayWindow};
pub use last_error::{clear_last_error, set_last_error, with_error_capture};
