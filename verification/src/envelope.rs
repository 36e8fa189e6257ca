//! Signed envelopes: sealing a message for a recipient and checking one that
//! arrived.

use vstd::prelude::*;
use crate::canonical::{
    canonical_as, jcs_canonical, lemma_signable_bytes_fail_only_on_payload, signable_bytes,
    spec_signable_bytes,
};
use vstd::utf8::encode_utf8;
use crate::codec::{b64_decode, b64_encode, base64_decode, base64_encode};
use crate::crypto::{
    ed25519_public_key, ed25519_sign, ed25519_signature, ed25519_verifies, ed25519_verify,
    peer_id_from_public_key_bytes, spec_peer_id, SigningKey, VerifyingKey, SIGNATURE_LEN,
};
use crate::error::{CoreError, ErrorModel};

verus! {

/// The protocol version this library writes and accepts.
pub const PROTOCOL_VERSION: u32 = 1;

/// A signed message from one peer to another. The payload is JSON text; the
/// signature is base64 and covers every other field.
#[derive(Debug, Clone)]
pub struct Envelope {
    pub protocol_version: u32,
    pub sender_peer_id: String,
    pub recipient_peer_id: String,
    pub timestamp_ms: u64,
    pub nonce: String,
    pub payload: String,
    pub signature_b64: String,
}

/// The bytes that the signature of `env` covers.
pub open spec fn envelope_signable(env: Envelope) -> Result<Seq<u8>, Seq<char>> {
    spec_signable_bytes(
        env.protocol_version,
        env.sender_peer_id@,
        env.recipient_peer_id@,
        env.timestamp_ms,
        env.nonce@,
        env.payload@,
    )
}

/// The earliest accepted timestamp: `now - skew`, or 0 below that.
pub open spec fn window_start(now_ms: u64, max_skew_ms: u64) -> int {
    if max_skew_ms <= now_ms {
        now_ms - max_skew_ms
    } else {
        0
    }
}

/// The latest accepted timestamp: `now + skew`, or `u64::MAX` above that.
pub open spec fn window_end(now_ms: u64, max_skew_ms: u64) -> int {
    if now_ms + max_skew_ms <= u64::MAX {
        now_ms + max_skew_ms
    } else {
        u64::MAX as int
    }
}

/// Whether `timestamp_ms` lies within `max_skew_ms` of `now_ms`, both ends
/// included and the window clipped to the range of `u64`.
pub open spec fn within_skew(timestamp_ms: u64, now_ms: u64, max_skew_ms: u64) -> bool {
    window_start(now_ms, max_skew_ms) <= timestamp_ms <= window_end(now_ms, max_skew_ms)
}

/// The verdict on an envelope that passed.
pub open spec fn accepted() -> Result<(), ErrorModel> {
    Ok(())
}

/// The view of an outcome without a value.
pub open spec fn unit_outcome(res: Result<(), CoreError>) -> Result<(), ErrorModel> {
    match res {
        Ok(_) => Ok(()),
        Err(e) => Err(e@),
    }
}

/// The checks that need no cryptography, in the order they are made: the
/// protocol version, the sender's peer id, the timestamp window.
pub open spec fn spec_check_envelope_header(
    env: Envelope,
    expected_peer_id: Seq<char>,
    now_ms: u64,
    max_skew_ms: u64,
) -> Result<(), ErrorModel> {
    if env.protocol_version != PROTOCOL_VERSION {
        Err(
            ErrorModel::ProtocolVersionMismatch {
                expected: PROTOCOL_VERSION,
                actual: env.protocol_version,
            },
        )
    } else if env.sender_peer_id@ != expected_peer_id {
        Err(ErrorModel::PeerIdMismatch { expected: expected_peer_id, actual: env.sender_peer_id@ })
    } else if !within_skew(env.timestamp_ms, now_ms, max_skew_ms) {
        Err(ErrorModel::TimestampSkewExceeded)
    } else {
        Ok(())
    }
}

/// Checks an envelope's protocol version, its sender against the peer id the
/// signer's key gives, and its timestamp against the window around `now_ms`.
pub fn check_envelope_header(
    envelope: &Envelope,
    expected_peer_id: &String,
    now_ms: u64,
    max_skew_ms: u64,
) -> (res: Result<(), CoreError>)
    ensures
        unit_outcome(res) == spec_check_envelope_header(
            *envelope,
            expected_peer_id@,
            now_ms,
            max_skew_ms,
        ),
        res is Ok ==> now_ms - max_skew_ms <= envelope.timestamp_ms <= now_ms + max_skew_ms,
{
    if envelope.protocol_version != PROTOCOL_VERSION {
        return Err(
            CoreError::ProtocolVersionMismatch {
                expected: PROTOCOL_VERSION,
                actual: envelope.protocol_version,
            },
        );
    }
    if envelope.sender_peer_id != *expected_peer_id {
        return Err(
            CoreError::PeerIdMismatch {
                expected: expected_peer_id.clone(),
                actual: envelope.sender_peer_id.clone(),
            },
        );
    }
    let lower = now_ms.saturating_sub(max_skew_ms);
    let upper = now_ms.saturating_add(max_skew_ms);
    if envelope.timestamp_ms < lower || envelope.timestamp_ms > upper {
        return Err(CoreError::TimestampSkewExceeded);
    }
    proof {
        lemma_window_is_plain_arithmetic(*envelope, expected_peer_id@, now_ms, max_skew_ms);
    }
    Ok(())
}

/// Decoding an envelope's signature: base64 that must hold 64 bytes.
pub open spec fn spec_signature_from_b64(text: Seq<char>) -> Result<Seq<u8>, ErrorModel> {
    match b64_decode(text) {
        Err(msg) => Err(ErrorModel::InvalidBase64(msg)),
        Ok(sig) => if sig.len() == SIGNATURE_LEN {
            Ok(sig)
        } else {
            Err(ErrorModel::InvalidSignatureLength(sig.len()))
        },
    }
}

/// The outcome of decoding a signature that reads back as `sig`.
pub open spec fn signature_read(sig: Seq<u8>) -> Result<Seq<u8>, ErrorModel> {
    Ok(sig)
}

/// Decodes an envelope's base64 signature, which must hold 64 bytes.
pub fn signature_from_b64(signature_b64: &str) -> (res: Result<Vec<u8>, CoreError>)
    ensures
        match res {
            Ok(sig) => spec_signature_from_b64(signature_b64@) matches Ok(s) && s == sig@,
            Err(e) => spec_signature_from_b64(signature_b64@) matches Err(m) && m == e@,
        },
{
    let sig = match base64_decode(signature_b64) {
        Ok(sig) => sig,
        Err(msg) => return Err(CoreError::InvalidBase64(msg)),
    };
    if sig.len() != SIGNATURE_LEN {
        return Err(CoreError::InvalidSignatureLength(sig.len()));
    }
    Ok(sig)
}

/// The verdict on an envelope checked against the signer's public key at time
/// `now_ms`: the header checks first, then the signed bytes, then the
/// signature's encoding and length, then the signature itself.
pub open spec fn spec_verify_envelope(
    env: Envelope,
    public_key: Seq<u8>,
    now_ms: u64,
    max_skew_ms: u64,
) -> Result<(), ErrorModel> {
    match spec_check_envelope_header(env, spec_peer_id(public_key), now_ms, max_skew_ms) {
        Err(e) => Err(e),
        Ok(_) => match envelope_signable(env) {
            Err(msg) => Err(ErrorModel::Canonicalization(msg)),
            Ok(msg) => match spec_signature_from_b64(env.signature_b64@) {
                Err(e) => Err(e),
                Ok(sig) => if ed25519_verifies(public_key, msg, sig) {
                    Ok(())
                } else {
                    Err(ErrorModel::SignatureVerificationFailed)
                },
            },
        },
    }
}

/// Checks that `envelope` was sent by the holder of `verifying_key`, for this
/// protocol version, within `max_skew_ms` of `now_ms`, and that its signature
/// covers its fields.
pub fn verify_envelope(
    envelope: &Envelope,
    verifying_key: &VerifyingKey,
    now_ms: u64,
    max_skew_ms: u64,
) -> (res: Result<(), CoreError>)
    ensures
        unit_outcome(res) == spec_verify_envelope(*envelope, verifying_key@, now_ms, max_skew_ms),
        res is Ok ==> now_ms - max_skew_ms <= envelope.timestamp_ms <= now_ms + max_skew_ms,
{
    let public_key = verifying_key.as_bytes();
    let expected_peer_id = peer_id_from_public_key_bytes(public_key);
    check_envelope_header(envelope, &expected_peer_id, now_ms, max_skew_ms)?;
    let canonical = match signable_bytes(
        envelope.protocol_version,
        envelope.sender_peer_id.as_str(),
        envelope.recipient_peer_id.as_str(),
        envelope.timestamp_ms,
        envelope.nonce.as_str(),
        envelope.payload.as_str(),
    ) {
        Ok(bytes) => bytes,
        Err(msg) => return Err(CoreError::Canonicalization(msg)),
    };
    proof {
        lemma_window_is_plain_arithmetic(*envelope, expected_peer_id@, now_ms, max_skew_ms);
    }
    let sig = signature_from_b64(envelope.signature_b64.as_str())?;
    if ed25519_verify(public_key, canonical.as_slice(), sig.as_slice()) {
        Ok(())
    } else {
        Err(CoreError::SignatureVerificationFailed)
    }
}

/// `env` is the envelope sealed with the given fields, over the signed bytes
/// `msg`, by the secret key `secret`.
pub open spec fn sealed_envelope(
    env: Envelope,
    secret: Seq<u8>,
    sender_peer_id: Seq<char>,
    recipient_peer_id: Seq<char>,
    timestamp_ms: u64,
    nonce: Seq<char>,
    payload: Seq<char>,
    msg: Seq<u8>,
) -> bool {
    &&& env.protocol_version == PROTOCOL_VERSION
    &&& env.sender_peer_id@ == sender_peer_id
    &&& env.recipient_peer_id@ == recipient_peer_id
    &&& env.timestamp_ms == timestamp_ms
    &&& env.nonce@ == nonce
    &&& env.payload@ == payload
    &&& env.signature_b64@ == b64_encode(ed25519_signature(secret, msg))
}

/// Seals `payload` (JSON text) from `sender_peer_id` to `recipient_peer_id`:
/// the fields are copied into the envelope and the canonical form of them is
/// signed with `signing_key`.
///
/// What is sealed by the key whose peer id names the sender verifies under
/// that key's public half at every time within the skew window of its
/// timestamp.
pub fn sign_envelope(
    signing_key: &SigningKey,
    sender_peer_id: &str,
    recipient_peer_id: &str,
    timestamp_ms: u64,
    nonce: &str,
    payload: String,
) -> (res: Result<Envelope, CoreError>)
    ensures
        match spec_signable_bytes(
            PROTOCOL_VERSION,
            sender_peer_id@,
            recipient_peer_id@,
            timestamp_ms,
            nonce@,
            payload@,
        ) {
            Err(msg) => (res matches Err(e) && e@ == ErrorModel::Canonicalization(msg)),
            Ok(msg) => (res matches Ok(env) && sealed_envelope(
                env,
                signing_key@,
                sender_peer_id@,
                recipient_peer_id@,
                timestamp_ms,
                nonce@,
                payload@,
                msg,
            ) && spec_signature_from_b64(env.signature_b64@) == signature_read(
                ed25519_signature(signing_key@, msg),
            ) && env.signature_b64@.len() == 88),
        },
        res is Ok <==> jcs_canonical(encode_utf8(payload@)) is Ok,
        res matches Ok(env) ==> (sender_peer_id@ == spec_peer_id(ed25519_public_key(signing_key@))
            ==> forall|now_ms: u64, max_skew_ms: u64|
            within_skew(timestamp_ms, now_ms, max_skew_ms) ==> #[trigger] spec_verify_envelope(
                env,
                ed25519_public_key(signing_key@),
                now_ms,
                max_skew_ms,
            ) == accepted()),
{
    let canonical = match signable_bytes(
        PROTOCOL_VERSION,
        sender_peer_id,
        recipient_peer_id,
        timestamp_ms,
        nonce,
        payload.as_str(),
    ) {
        Ok(bytes) => bytes,
        Err(msg) => return Err(CoreError::Canonicalization(msg)),
    };
    proof {
        lemma_signable_bytes_fail_only_on_payload(
            PROTOCOL_VERSION,
            sender_peer_id@,
            recipient_peer_id@,
            timestamp_ms,
            nonce@,
            payload@,
        );
    }
    let signature = ed25519_sign(signing_key.secret_bytes(), canonical.as_slice());
    let signature_b64 = base64_encode(&signature);
    let env = Envelope {
        protocol_version: PROTOCOL_VERSION,
        sender_peer_id: sender_peer_id.to_owned(),
        recipient_peer_id: recipient_peer_id.to_owned(),
        timestamp_ms,
        nonce: nonce.to_owned(),
        payload,
        signature_b64,
    };
    assert(envelope_signable(env) == canonical_as(canonical@));
    assert(spec_signature_from_b64(env.signature_b64@) matches Ok(s) && s == signature@);
    Ok(env)
}

/// An envelope whose sender is not the signer's peer id is refused with the
/// expected and the claimed peer id, whatever its signature (provided it is of
/// this protocol version).
pub proof fn lemma_foreign_sender_rejected(
    env: Envelope,
    public_key: Seq<u8>,
    now_ms: u64,
    max_skew_ms: u64,
)
    requires
        env.protocol_version == PROTOCOL_VERSION,
        env.sender_peer_id@ != spec_peer_id(public_key),
    ensures
        spec_verify_envelope(env, public_key, now_ms, max_skew_ms) == Err::<(), ErrorModel>(
            ErrorModel::PeerIdMismatch {
                expected: spec_peer_id(public_key),
                actual: env.sender_peer_id@,
            },
        ),
{
}

/// An envelope of another protocol version is refused for that alone.
pub proof fn lemma_other_version_rejected(
    env: Envelope,
    public_key: Seq<u8>,
    now_ms: u64,
    max_skew_ms: u64,
)
    requires
        env.protocol_version != PROTOCOL_VERSION,
    ensures
        spec_verify_envelope(env, public_key, now_ms, max_skew_ms) == Err::<(), ErrorModel>(
            ErrorModel::ProtocolVersionMismatch {
                expected: PROTOCOL_VERSION,
                actual: env.protocol_version,
            },
        ),
{
}

/// An envelope from the right sender whose timestamp lies outside the window
/// is refused as stale or early, whatever its signature.
pub proof fn lemma_outside_window_rejected(
    env: Envelope,
    public_key: Seq<u8>,
    now_ms: u64,
    max_skew_ms: u64,
)
    requires
        env.protocol_version == PROTOCOL_VERSION,
        env.sender_peer_id@ == spec_peer_id(public_key),
        !within_skew(env.timestamp_ms, now_ms, max_skew_ms),
    ensures
        spec_verify_envelope(env, public_key, now_ms, max_skew_ms) == Err::<(), ErrorModel>(
            ErrorModel::TimestampSkewExceeded,
        ),
{
}

/// Only an envelope that passes every check, the signature's included, is
/// accepted.
pub proof fn lemma_accepted_means_signed(
    env: Envelope,
    public_key: Seq<u8>,
    now_ms: u64,
    max_skew_ms: u64,
)
    requires
        spec_verify_envelope(env, public_key, now_ms, max_skew_ms) == accepted(),
    ensures
        env.protocol_version == PROTOCOL_VERSION,
        env.sender_peer_id@ == spec_peer_id(public_key),
        within_skew(env.timestamp_ms, now_ms, max_skew_ms),
        envelope_signable(env) matches Ok(msg) && spec_signature_from_b64(env.signature_b64@) matches Ok(sig)
            && ed25519_verifies(public_key, msg, sig),
{
}

/// The header check accepts exactly the timestamps from `now - skew` to
/// `now + skew` (as integers; below 0 and above `u64::MAX` there are none):
/// every accepted timestamp lies in that range, and, once the protocol version
/// and the sender are right, every timestamp outside it is refused as outside
/// the window.
pub proof fn lemma_window_is_plain_arithmetic(
    env: Envelope,
    expected_peer_id: Seq<char>,
    now_ms: u64,
    max_skew_ms: u64,
)
    ensures
        spec_check_envelope_header(env, expected_peer_id, now_ms, max_skew_ms) is Ok ==> now_ms
            - max_skew_ms <= env.timestamp_ms <= now_ms + max_skew_ms,
        env.protocol_version == PROTOCOL_VERSION && env.sender_peer_id@ == expected_peer_id ==> (
        spec_check_envelope_header(env, expected_peer_id, now_ms, max_skew_ms) is Ok <==> now_ms
            - max_skew_ms <= env.timestamp_ms <= now_ms + max_skew_ms),
        env.protocol_version == PROTOCOL_VERSION && env.sender_peer_id@ == expected_peer_id && (
        env.timestamp_ms < now_ms - max_skew_ms || env.timestamp_ms > now_ms + max_skew_ms) ==> (
        spec_check_envelope_header(env, expected_peer_id, now_ms, max_skew_ms) matches Err(e) && e
            == ErrorModel::TimestampSkewExceeded),
{
}

/// An envelope is accepted only if its timestamp lies from `now - skew` to
/// `now + skew`.
pub proof fn lemma_accepted_timestamp_in_range(
    env: Envelope,
    public_key: Seq<u8>,
    now_ms: u64,
    max_skew_ms: u64,
)
    ensures
        spec_verify_envelope(env, public_key, now_ms, max_skew_ms) is Ok ==> now_ms - max_skew_ms
            <= env.timestamp_ms <= now_ms + max_skew_ms,
{
    lemma_window_is_plain_arithmetic(env, spec_peer_id(public_key), now_ms, max_skew_ms);
}

/// Verification refuses an envelope as not canonicalizable only when its
/// payload is not one JSON value, with the payload's own failure message; a
/// payload that is one JSON value, of any size, always gets its signature
/// checked once the header passes.
pub proof fn lemma_canonicalization_fails_only_on_payload(
    env: Envelope,
    public_key: Seq<u8>,
    now_ms: u64,
    max_skew_ms: u64,
)
    ensures
        spec_verify_envelope(env, public_key, now_ms, max_skew_ms) matches Err(
            ErrorModel::Canonicalization(msg),
        ) ==> jcs_canonical(encode_utf8(env.payload@)) matches Err(m) && m == msg,
        spec_check_envelope_header(env, spec_peer_id(public_key), now_ms, max_skew_ms) is Ok
            && jcs_canonical(encode_utf8(env.payload@)) is Ok ==> !(spec_verify_envelope(
            env,
            public_key,
            now_ms,
            max_skew_ms,
        ) matches Err(ErrorModel::Canonicalization(_))),
{
    lemma_signable_bytes_fail_only_on_payload(
        env.protocol_version,
        env.sender_peer_id@,
        env.recipient_peer_id@,
        env.timestamp_ms,
        env.nonce@,
        env.payload@,
    );
}

} // verus!
