//! Hashing and Ed25519 keys: the peer id of a public key, key decoding from
//! base64, and identities.

use vstd::prelude::*;
use ed25519_dalek::{Signer, Verifier};
use rand::rngs::OsRng;
use sha2::{Digest, Sha256};
use crate::codec::{
    b64_encode, base64_encode, decode_fixed_len_b64, spec_decode_fixed_len_b64,
};
use crate::error::{CoreError, ErrorModel};
use crate::text::{
    hex_digit, hex_lower, hex_value, lemma_hex_lower_spells_bytes, push_bytes, spec_hex_lower,
};

verus! {

/// Length in characters of a peer id.
pub const PEER_ID_HEX_LEN: usize = 24;

/// Length in bytes of an Ed25519 secret or public key.
pub const KEY_LEN: usize = 32;

/// Length in bytes of an Ed25519 signature.
pub const SIGNATURE_LEN: usize = 64;

// ---------------------------------------------------------------------------
// Outside computations
// ---------------------------------------------------------------------------

/// The SHA-256 digest of `data`: 32 bytes.
pub uninterp spec fn sha256(data: Seq<u8>) -> [u8; 32];

/// The compressed Ed25519 public key that belongs to a 32-byte secret key.
pub uninterp spec fn ed25519_public_key(secret: Seq<u8>) -> Seq<u8>;

/// The Ed25519 signature that a 32-byte secret key makes on `msg`.
pub uninterp spec fn ed25519_signature(secret: Seq<u8>, msg: Seq<u8>) -> Seq<u8>;

/// Whether `sig` is an Ed25519 signature on `msg` under the public key `public`.
pub uninterp spec fn ed25519_verifies(public: Seq<u8>, msg: Seq<u8>, sig: Seq<u8>) -> bool;

/// Whether 32 bytes decode to an Ed25519 public key: nothing, or the error's text.
pub uninterp spec fn ed25519_key_check(public: Seq<u8>) -> Result<(), Seq<char>>;

/// Calls `sha2::Sha256::digest`. Claims: the result is `sha256(data)`.
#[verifier::external_body]
fn sha256_digest(data: &[u8]) -> (digest: [u8; 32])
    ensures
        digest == sha256(data@),
{
    Sha256::digest(data).into()
}

/// Calls `ed25519_dalek::SigningKey::try_from(&[u8])`, then `verifying_key()` and
/// `to_bytes()`. Claims: the result is `ed25519_public_key(secret)`, and
/// `VerifyingKey::from_bytes` accepts it (the crate documents a verifying key
/// that round-trips through its bytes). A 32-byte input never takes the
/// error arm.
#[verifier::external_body]
fn ed25519_derive_public(secret: &[u8]) -> (public: [u8; 32])
    requires
        secret@.len() == KEY_LEN,
    ensures
        public@ == ed25519_public_key(secret@),
        ed25519_key_check(public@) is Ok,
{
    match ed25519_dalek::SigningKey::try_from(secret) {
        Ok(key) => key.verifying_key().to_bytes(),
        Err(_) => [0u8; 32],
    }
}

/// Calls `ed25519_dalek::SigningKey::try_from(&[u8])`, then `Signer::sign` and
/// `Signature::to_bytes`. Claims: the result is `ed25519_signature(secret, msg)`,
/// and it verifies under the key's own public key (the crate's documented
/// sign-then-verify example). A 32-byte input never takes the error arm.
#[verifier::external_body]
pub(crate) fn ed25519_sign(secret: &[u8], msg: &[u8]) -> (sig: [u8; 64])
    requires
        secret@.len() == KEY_LEN,
    ensures
        sig@ == ed25519_signature(secret@, msg@),
        ed25519_verifies(ed25519_public_key(secret@), msg@, sig@),
{
    match ed25519_dalek::SigningKey::try_from(secret) {
        Ok(key) => key.sign(msg).to_bytes(),
        Err(_) => [0u8; 64],
    }
}

/// Calls `ed25519_dalek::VerifyingKey::try_from(&[u8])`,
/// `ed25519::Signature::from_slice` and `Verifier::verify`. Claims: the result
/// is `ed25519_verifies(public, msg, sig)`. For a public key that decodes and a
/// 64-byte signature neither error arm is taken.
#[verifier::external_body]
pub(crate) fn ed25519_verify(public: &[u8], msg: &[u8], sig: &[u8]) -> (ok: bool)
    requires
        public@.len() == KEY_LEN,
        ed25519_key_check(public@) is Ok,
        sig@.len() == SIGNATURE_LEN,
    ensures
        ok == ed25519_verifies(public@, msg@, sig@),
{
    let key = match ed25519_dalek::VerifyingKey::try_from(public) {
        Ok(key) => key,
        Err(_) => return false,
    };
    let signature = match ed25519_dalek::Signature::from_slice(sig) {
        Ok(signature) => signature,
        Err(_) => return false,
    };
    key.verify(msg, &signature).is_ok()
}

/// Calls `ed25519_dalek::VerifyingKey::try_from(&[u8])`. Claims: the outcome is
/// `ed25519_key_check(public)`, with the error taken by its text.
#[verifier::external_body]
fn ed25519_check_public(public: &[u8]) -> (res: Result<(), String>)
    requires
        public@.len() == KEY_LEN,
    ensures
        match res {
            Ok(_) => ed25519_key_check(public@) is Ok,
            Err(msg) => ed25519_key_check(public@) == key_rejected(msg@),
        },
{
    match ed25519_dalek::VerifyingKey::try_from(public) {
        Ok(_) => Ok(()),
        Err(e) => Err(e.to_string()),
    }
}

/// Calls `ed25519_dalek::SigningKey::generate` with `rand::rngs::OsRng` and
/// returns the key's secret bytes. Nothing is claimed of them: they come from
/// the operating system's random source (which panics if that source fails).
#[verifier::external_body]
fn random_secret_key() -> (secret: [u8; 32]) {
    ed25519_dalek::SigningKey::generate(&mut OsRng).to_bytes()
}

/// The outcome of a key check that fails with `msg`.
pub open spec fn key_rejected(msg: Seq<char>) -> Result<(), Seq<char>> {
    Err(msg)
}

// ---------------------------------------------------------------------------
// Peer ids
// ---------------------------------------------------------------------------

/// Whether `c` is one of the characters `0`-`9`, `a`-`f`.
pub open spec fn is_lower_hex_char(c: char) -> bool {
    ('0' <= c && c <= '9') || ('a' <= c && c <= 'f')
}

/// The peer id of a digest: the first 24 characters of its lower-case hex.
pub open spec fn spec_peer_id_from_digest(digest: Seq<u8>) -> Seq<char> {
    spec_hex_lower(digest).take(PEER_ID_HEX_LEN as int)
}

/// The peer id of a public key: the first 24 lower-case hex characters of its
/// SHA-256 digest.
pub open spec fn spec_peer_id(public_key: Seq<u8>) -> Seq<char> {
    spec_peer_id_from_digest(sha256(public_key)@)
}

/// The hex rendering has two characters per byte, all of them lower-case hex.
pub proof fn lemma_hex_lower_shape(bytes: Seq<u8>)
    ensures
        spec_hex_lower(bytes).len() == 2 * bytes.len(),
        forall|i: int|
            0 <= i < spec_hex_lower(bytes).len() ==> is_lower_hex_char(
                #[trigger] spec_hex_lower(bytes)[i],
            ),
    decreases bytes.len(),
{
    if bytes.len() > 0 {
        lemma_hex_lower_shape(bytes.drop_last());
        let b = bytes.last();
        assert(is_lower_hex_char(hex_digit((b / 16) as int)));
        assert(is_lower_hex_char(hex_digit((b % 16) as int)));
    }
}

/// Every peer id is 24 lower-case hex characters.
pub proof fn lemma_peer_id_shape(public_key: Seq<u8>)
    ensures
        spec_peer_id(public_key).len() == PEER_ID_HEX_LEN,
        forall|i: int|
            0 <= i < spec_peer_id(public_key).len() ==> is_lower_hex_char(
                #[trigger] spec_peer_id(public_key)[i],
            ),
{
    let digest = sha256(public_key)@;
    assert(digest.len() == 32);
    lemma_hex_lower_shape(digest);
    assert forall|i: int| 0 <= i < spec_peer_id(public_key).len() implies is_lower_hex_char(
        #[trigger] spec_peer_id(public_key)[i],
    ) by {
        assert(spec_peer_id(public_key)[i] == spec_hex_lower(digest)[i]);
    }
}

/// A peer id spells the first 12 bytes of the digest in hex: its characters
/// `2i` and `2i + 1` are the high and low hex digit of digest byte `i`.
pub proof fn lemma_peer_id_spells_digest(digest: Seq<u8>)
    requires
        digest.len() >= 12,
    ensures
        spec_peer_id_from_digest(digest).len() == PEER_ID_HEX_LEN,
        forall|i: int|
            0 <= i < 12 ==> 16 * hex_value(#[trigger] spec_peer_id_from_digest(digest)[2 * i])
                + hex_value(spec_peer_id_from_digest(digest)[2 * i + 1]) == digest[i],
{
    lemma_hex_lower_spells_bytes(digest);
    assert forall|i: int| 0 <= i < 12 implies 16 * hex_value(
        #[trigger] spec_peer_id_from_digest(digest)[2 * i],
    ) + hex_value(spec_peer_id_from_digest(digest)[2 * i + 1]) == digest[i] by {
        assert(spec_peer_id_from_digest(digest)[2 * i] == spec_hex_lower(digest)[2 * i]);
        assert(spec_peer_id_from_digest(digest)[2 * i + 1] == spec_hex_lower(digest)[2 * i + 1]);
    }
}

/// The peer id of a public key spells the first 12 bytes of its SHA-256
/// digest in hex.
pub proof fn lemma_peer_id_spells_hash(public_key: Seq<u8>)
    ensures
        forall|i: int|
            0 <= i < 12 ==> 16 * hex_value(#[trigger] spec_peer_id(public_key)[2 * i]) + hex_value(
                spec_peer_id(public_key)[2 * i + 1],
            ) == sha256(public_key)[i],
{
    lemma_peer_id_spells_digest(sha256(public_key)@);
}

/// The peer id of a digest of at least 12 bytes.
pub fn peer_id_from_digest(digest: &[u8]) -> (peer_id: String)
    requires
        digest@.len() >= 12,
    ensures
        peer_id@ == spec_peer_id_from_digest(digest@),
        peer_id@.len() == PEER_ID_HEX_LEN,
        forall|i: int| 0 <= i < peer_id@.len() ==> is_lower_hex_char(#[trigger] peer_id@[i]),
        forall|i: int|
            0 <= i < 12 ==> 16 * hex_value(#[trigger] peer_id@[2 * i]) + hex_value(
                peer_id@[2 * i + 1],
            ) == digest@[i],
{
    proof {
        lemma_peer_id_spells_digest(digest@);
    }
    let hex = hex_lower(digest);
    proof {
        lemma_hex_lower_shape(digest@);
    }
    let mut peer_id = String::new();
    let mut i: usize = 0;
    while i < PEER_ID_HEX_LEN
        invariant
            i <= PEER_ID_HEX_LEN,
            hex@ == spec_hex_lower(digest@),
            hex@.len() >= PEER_ID_HEX_LEN,
            peer_id@ == hex@.take(i as int),
        decreases PEER_ID_HEX_LEN - i,
    {
        let c = hex.as_str().get_char(i);
        peer_id.push(c);
        assert(hex@.take(i + 1) =~= hex@.take(i as int).push(c));
        i = i + 1;
    }
    peer_id
}

/// The peer id of a public key: the first 24 lower-case hex characters of its
/// SHA-256 digest.
pub fn peer_id_from_public_key_bytes(public_key: &[u8]) -> (peer_id: String)
    ensures
        peer_id@ == spec_peer_id(public_key@),
        peer_id@.len() == PEER_ID_HEX_LEN,
        forall|i: int| 0 <= i < peer_id@.len() ==> is_lower_hex_char(#[trigger] peer_id@[i]),
        forall|i: int|
            0 <= i < 12 ==> 16 * hex_value(#[trigger] peer_id@[2 * i]) + hex_value(
                peer_id@[2 * i + 1],
            ) == sha256(public_key@)[i],
{
    let digest = sha256_digest(public_key);
    proof {
        lemma_peer_id_spells_hash(public_key@);
    }
    peer_id_from_digest(&digest)
}

/// The peer id of a base64-encoded 32-byte public key.
pub open spec fn spec_peer_id_from_public_key_b64(text: Seq<char>) -> Result<Seq<char>, ErrorModel> {
    match spec_decode_fixed_len_b64(text, KEY_LEN, "public key"@) {
        Ok(bytes) => Ok(spec_peer_id(bytes)),
        Err(e) => Err(e),
    }
}

/// The view of an outcome that carries a string.
pub open spec fn text_outcome(res: Result<String, CoreError>) -> Result<Seq<char>, ErrorModel> {
    match res {
        Ok(s) => Ok(s@),
        Err(e) => Err(e@),
    }
}

/// The peer id of a base64-encoded 32-byte public key.
pub fn peer_id_from_public_key_b64(public_key_b64: &str) -> (res: Result<String, CoreError>)
    ensures
        text_outcome(res) == spec_peer_id_from_public_key_b64(public_key_b64@),
{
    let bytes = decode_fixed_len_b64(public_key_b64, KEY_LEN, "public key")?;
    Ok(peer_id_from_public_key_bytes(bytes.as_slice()))
}

// ---------------------------------------------------------------------------
// Keys
// ---------------------------------------------------------------------------

/// An Ed25519 signing key, held by its 32 secret bytes.
pub struct SigningKey {
    secret: Vec<u8>,
}

impl SigningKey {
    #[verifier::type_invariant]
    spec fn inv(self) -> bool {
        self.secret@.len() == KEY_LEN
    }

    /// The secret bytes of this key (32 of them).
    pub fn secret_bytes(&self) -> (bytes: &[u8])
        ensures
            bytes@ == self@,
            bytes@.len() == KEY_LEN,
    {
        proof {
            use_type_invariant(self);
        }
        self.secret.as_slice()
    }

    /// A copy of the secret bytes of this key.
    pub fn to_bytes(&self) -> (bytes: Vec<u8>)
        ensures
            bytes@ == self@,
            bytes@.len() == KEY_LEN,
    {
        proof {
            use_type_invariant(self);
        }
        self.secret.clone()
    }

    /// The base64 text of the secret bytes, which reads back as this key.
    pub fn to_b64(&self) -> (text: String)
        ensures
            text@ == b64_encode(self@),
            spec_signing_key_from_b64(text@) == key_read(self@),
    {
        base64_encode(self.secret_bytes())
    }

    /// The public half of this key.
    pub fn verifying_key(&self) -> (key: VerifyingKey)
        ensures
            key@ == ed25519_public_key(self@),
    {
        let public = ed25519_derive_public(self.secret_bytes());
        let mut bytes: Vec<u8> = Vec::new();
        push_bytes(&mut bytes, &public);
        VerifyingKey { bytes }
    }
}

impl View for SigningKey {
    type V = Seq<u8>;

    closed spec fn view(&self) -> Seq<u8> {
        self.secret@
    }
}

/// An Ed25519 public key, held by its 32 compressed bytes, which are known to
/// decode to a curve point.
pub struct VerifyingKey {
    bytes: Vec<u8>,
}

impl VerifyingKey {
    #[verifier::type_invariant]
    spec fn inv(self) -> bool {
        &&& self.bytes@.len() == KEY_LEN
        &&& ed25519_key_check(self.bytes@) is Ok
    }

    /// The 32 bytes of this key.
    pub fn as_bytes(&self) -> (bytes: &[u8])
        ensures
            bytes@ == self@,
            bytes@.len() == KEY_LEN,
            ed25519_key_check(bytes@) is Ok,
    {
        proof {
            use_type_invariant(self);
        }
        self.bytes.as_slice()
    }

    /// A copy of the 32 bytes of this key.
    pub fn to_bytes(&self) -> (bytes: Vec<u8>)
        ensures
            bytes@ == self@,
            bytes@.len() == KEY_LEN,
    {
        proof {
            use_type_invariant(self);
        }
        self.bytes.clone()
    }

    /// The base64 text of the key's bytes, which reads back as this key.
    pub fn to_b64(&self) -> (text: String)
        ensures
            text@ == b64_encode(self@),
            spec_verifying_key_from_b64(text@) == key_read(self@),
    {
        base64_encode(self.as_bytes())
    }
}

impl View for VerifyingKey {
    type V = Seq<u8>;

    closed spec fn view(&self) -> Seq<u8> {
        self.bytes@
    }
}

/// The outcome of decoding a key that reads back as `bytes`.
pub open spec fn key_read(bytes: Seq<u8>) -> Result<Seq<u8>, ErrorModel> {
    Ok(bytes)
}

/// Decoding a signing key from base64: the 32 secret bytes.
pub open spec fn spec_signing_key_from_b64(text: Seq<char>) -> Result<Seq<u8>, ErrorModel> {
    spec_decode_fixed_len_b64(text, KEY_LEN, "private key"@)
}

/// Decoding a verifying key from base64: 32 bytes that decode to a curve point.
pub open spec fn spec_verifying_key_from_b64(text: Seq<char>) -> Result<Seq<u8>, ErrorModel> {
    match spec_decode_fixed_len_b64(text, KEY_LEN, "public key"@) {
        Err(e) => Err(e),
        Ok(bytes) => match ed25519_key_check(bytes) {
            Ok(_) => Ok(bytes),
            Err(msg) => Err(ErrorModel::InvalidBase64(msg)),
        },
    }
}

/// The view of an outcome that carries a signing key.
pub open spec fn signing_key_outcome(res: Result<SigningKey, CoreError>) -> Result<
    Seq<u8>,
    ErrorModel,
> {
    match res {
        Ok(key) => Ok(key@),
        Err(e) => Err(e@),
    }
}

/// The view of an outcome that carries a verifying key.
pub open spec fn verifying_key_outcome(res: Result<VerifyingKey, CoreError>) -> Result<
    Seq<u8>,
    ErrorModel,
> {
    match res {
        Ok(key) => Ok(key@),
        Err(e) => Err(e@),
    }
}

/// Decodes a base64-encoded 32-byte Ed25519 secret key.
pub fn signing_key_from_b64(private_key_b64: &str) -> (res: Result<SigningKey, CoreError>)
    ensures
        signing_key_outcome(res) == spec_signing_key_from_b64(private_key_b64@),
{
    let secret = decode_fixed_len_b64(private_key_b64, KEY_LEN, "private key")?;
    Ok(SigningKey { secret })
}

/// Decodes a base64-encoded 32-byte Ed25519 public key; bytes that are no
/// curve point are refused with the key decoder's message.
pub fn verifying_key_from_b64(public_key_b64: &str) -> (res: Result<VerifyingKey, CoreError>)
    ensures
        verifying_key_outcome(res) == spec_verifying_key_from_b64(public_key_b64@),
{
    let bytes = decode_fixed_len_b64(public_key_b64, KEY_LEN, "public key")?;
    match ed25519_check_public(bytes.as_slice()) {
        Ok(_) => Ok(VerifyingKey { bytes }),
        Err(msg) => Err(CoreError::InvalidBase64(msg)),
    }
}

// ---------------------------------------------------------------------------
// Identities
// ---------------------------------------------------------------------------

/// A peer's long-lived identity: its key pair in base64 and its peer id.
#[derive(Debug, Clone)]
pub struct Identity {
    pub private_key_b64: String,
    pub public_key_b64: String,
    pub peer_id: String,
}

/// `id` is the identity of the 32-byte secret key `secret`: its fields are the
/// base64 of the secret and of the public key and the public key's peer id,
/// and each of them reads back through the decoding functions.
pub open spec fn identity_for_secret(id: Identity, secret: Seq<u8>) -> bool {
    let public = ed25519_public_key(secret);
    &&& secret.len() == KEY_LEN
    &&& id.private_key_b64@ == b64_encode(secret)
    &&& id.public_key_b64@ == b64_encode(public)
    &&& id.peer_id@ == spec_peer_id(public)
    &&& spec_signing_key_from_b64(id.private_key_b64@) matches Ok(s) && s == secret
    &&& spec_verifying_key_from_b64(id.public_key_b64@) matches Ok(p) && p == public
    &&& spec_peer_id_from_public_key_b64(id.public_key_b64@) matches Ok(p) && p == id.peer_id@
}

/// The identity of a 32-byte secret key.
pub fn identity_from_secret(secret: &[u8]) -> (id: Identity)
    requires
        secret@.len() == KEY_LEN,
    ensures
        identity_for_secret(id, secret@),
{
    let mut bytes: Vec<u8> = Vec::new();
    push_bytes(&mut bytes, secret);
    let signing_key = SigningKey { secret: bytes };
    let verifying_key = signing_key.verifying_key();
    let private_key_b64 = signing_key.to_b64();
    let public_key_b64 = verifying_key.to_b64();
    let peer_id = peer_id_from_public_key_bytes(verifying_key.as_bytes());
    Identity { private_key_b64, public_key_b64, peer_id }
}

/// A fresh identity from a random secret key.
pub fn generate_identity() -> (id: Identity)
    ensures
        exists|secret: Seq<u8>| #[trigger] identity_for_secret(id, secret),
{
    let secret = random_secret_key();
    let id = identity_from_secret(&secret);
    assert(identity_for_secret(id, secret@));
    id
}

} // verus!
