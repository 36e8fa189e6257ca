//! The byte string that an envelope's signature covers: the JSON Canonicalization
//! Scheme (RFC 8785) form of the envelope's fields without the signature.
//!
//! That form is a JSON object whose members stand in the order of their keys'
//! bytes, written without whitespace, each value in its own canonical form. The
//! six keys are fixed, so the object is written member by member in that order:
//! `nonce`, `payload`, `protocol_version`, `recipient_peer_id`,
//! `sender_peer_id`, `timestamp_ms`. Strings and the payload are given their
//! canonical form by `serde_jcs`; the two integers are written in decimal.

use vstd::prelude::*;
use vstd::string::StringSliceAdditionalSpecFns;
use vstd::utf8::encode_utf8;
use serde::Deserialize;
use crate::text::{decimal_ascii, push_bytes, push_decimal_ascii};

verus! {

/// The canonical JSON string, quotes and escapes included, that
/// `serde_jcs::to_vec` writes for the string `s`.
pub uninterp spec fn jcs_string(s: Seq<char>) -> Seq<u8>;

/// What parsing `json` into a `serde_json::Value` (with no limit on nesting)
/// and writing that value with `serde_jcs::to_vec` gives: the canonical bytes,
/// or the error's text. This one name stands for the parse by `serde_json` and
/// the canonical writing by `serde_jcs` that `jcs_canonicalize` makes in turn.
pub uninterp spec fn jcs_canonical(json: Seq<u8>) -> Result<Seq<u8>, Seq<char>>;

/// The outcome of a canonicalization that succeeds with `bytes`.
pub open spec fn canonical_as(bytes: Seq<u8>) -> Result<Seq<u8>, Seq<char>> {
    Ok(bytes)
}

/// The outcome of a canonicalization that fails with `msg`.
pub open spec fn canonical_failure(msg: Seq<char>) -> Result<Seq<u8>, Seq<char>> {
    Err(msg)
}

/// Calls `serde_jcs::to_vec` on a string. Claims: the result is `jcs_string(s)`.
/// Writing a string into a `Vec` cannot fail, so the error arm is never taken.
#[verifier::external_body]
fn jcs_quote(s: &str) -> (literal: Vec<u8>)
    ensures
        literal@ == jcs_string(s@),
{
    match serde_jcs::to_vec(s) {
        Ok(literal) => literal,
        Err(_) => Vec::new(),
    }
}

/// Parses `json` into a `serde_json::Value` with a `serde_json::Deserializer`
/// whose nesting limit is switched off (`disable_recursion_limit`, then
/// `Value::deserialize` and `end`, which is `serde_json::from_slice` without the
/// limit), and calls `serde_jcs::to_vec` on the value. Claims: the outcome is
/// `jcs_canonical(json)`, with an error taken by its text. Not claimed: input
/// nested so deep that parsing exhausts the thread's stack does not return, as
/// serializing so deep a value with `serde_jcs` does not either.
#[verifier::external_body]
fn jcs_canonicalize(json: &[u8]) -> (res: Result<Vec<u8>, String>)
    ensures
        match res {
            Ok(bytes) => jcs_canonical(json@) == canonical_as(bytes@),
            Err(msg) => jcs_canonical(json@) == canonical_failure(msg@),
        },
{
    let mut parser = serde_json::Deserializer::from_slice(json);
    parser.disable_recursion_limit();
    let value = match serde_json::Value::deserialize(&mut parser) {
        Ok(value) => value,
        Err(e) => return Err(e.to_string()),
    };
    if let Err(e) = parser.end() {
        return Err(e.to_string());
    }
    match serde_jcs::to_vec(&value) {
        Ok(bytes) => Ok(bytes),
        Err(e) => Err(e.to_string()),
    }
}

/// The part of the signed object before the payload: its opening, the nonce
/// member, and the payload's key.
pub open spec fn frame_head(nonce_literal: Seq<u8>) -> Seq<u8> {
    "{\"nonce\":".spec_bytes() + nonce_literal + ",\"payload\":".spec_bytes()
}

/// The part of the signed object after the payload: the remaining members and
/// the closing brace.
pub open spec fn frame_tail(
    protocol_version: u32,
    sender_literal: Seq<u8>,
    recipient_literal: Seq<u8>,
    timestamp_ms: u64,
) -> Seq<u8> {
    ",\"protocol_version\":".spec_bytes() + decimal_ascii(protocol_version as nat)
        + ",\"recipient_peer_id\":".spec_bytes() + recipient_literal
        + ",\"sender_peer_id\":".spec_bytes() + sender_literal
        + ",\"timestamp_ms\":".spec_bytes() + decimal_ascii(timestamp_ms as nat)
        + "}".spec_bytes()
}

/// The canonical JSON object of the signed fields, from the canonical forms of
/// the three strings and of the payload; the members stand in key order.
pub open spec fn signable_frame(
    protocol_version: u32,
    sender_literal: Seq<u8>,
    recipient_literal: Seq<u8>,
    timestamp_ms: u64,
    nonce_literal: Seq<u8>,
    canonical_payload: Seq<u8>,
) -> Seq<u8> {
    frame_head(nonce_literal) + canonical_payload + frame_tail(
        protocol_version,
        sender_literal,
        recipient_literal,
        timestamp_ms,
    )
}

/// Writes the canonical JSON object of the signed fields from the canonical
/// forms of the three strings and of the payload.
pub fn frame_signable(
    protocol_version: u32,
    sender_literal: &[u8],
    recipient_literal: &[u8],
    timestamp_ms: u64,
    nonce_literal: &[u8],
    canonical_payload: &[u8],
) -> (frame: Vec<u8>)
    ensures
        frame@ == signable_frame(
            protocol_version,
            sender_literal@,
            recipient_literal@,
            timestamp_ms,
            nonce_literal@,
            canonical_payload@,
        ),
{
    let mut frame: Vec<u8> = Vec::new();
    push_bytes(&mut frame, "{\"nonce\":".as_bytes());
    push_bytes(&mut frame, nonce_literal);
    push_bytes(&mut frame, ",\"payload\":".as_bytes());
    assert(frame@ =~= frame_head(nonce_literal@));
    push_bytes(&mut frame, canonical_payload);
    let ghost middle = frame@;
    push_bytes(&mut frame, ",\"protocol_version\":".as_bytes());
    push_decimal_ascii(&mut frame, protocol_version as u64);
    push_bytes(&mut frame, ",\"recipient_peer_id\":".as_bytes());
    push_bytes(&mut frame, recipient_literal);
    push_bytes(&mut frame, ",\"sender_peer_id\":".as_bytes());
    push_bytes(&mut frame, sender_literal);
    push_bytes(&mut frame, ",\"timestamp_ms\":".as_bytes());
    push_decimal_ascii(&mut frame, timestamp_ms);
    push_bytes(&mut frame, "}".as_bytes());
    assert(frame@.skip(middle.len() as int) =~= frame_tail(
        protocol_version,
        sender_literal@,
        recipient_literal@,
        timestamp_ms,
    ));
    assert(frame@ =~= middle + frame@.skip(middle.len() as int));
    assert(frame@ =~= signable_frame(
        protocol_version,
        sender_literal@,
        recipient_literal@,
        timestamp_ms,
        nonce_literal@,
        canonical_payload@,
    ));
    frame
}

/// The bytes a signature covers: the payload (JSON text) is parsed and put in
/// canonical form, then framed in key order with the canonical forms of the
/// other signed fields. A payload that is not one JSON value fails with the
/// parser's message.
pub open spec fn spec_signable_bytes(
    protocol_version: u32,
    sender_peer_id: Seq<char>,
    recipient_peer_id: Seq<char>,
    timestamp_ms: u64,
    nonce: Seq<char>,
    payload: Seq<char>,
) -> Result<Seq<u8>, Seq<char>> {
    match jcs_canonical(encode_utf8(payload)) {
        Err(msg) => Err(msg),
        Ok(canonical_payload) => Ok(
            signable_frame(
                protocol_version,
                jcs_string(sender_peer_id),
                jcs_string(recipient_peer_id),
                timestamp_ms,
                jcs_string(nonce),
                canonical_payload,
            ),
        ),
    }
}

/// The bytes a signature covers (see `spec_signable_bytes`); an error carries
/// the canonicalizer's message.
pub fn signable_bytes(
    protocol_version: u32,
    sender_peer_id: &str,
    recipient_peer_id: &str,
    timestamp_ms: u64,
    nonce: &str,
    payload: &str,
) -> (res: Result<Vec<u8>, String>)
    ensures
        match res {
            Ok(bytes) => spec_signable_bytes(
                protocol_version,
                sender_peer_id@,
                recipient_peer_id@,
                timestamp_ms,
                nonce@,
                payload@,
            ) == canonical_as(bytes@),
            Err(msg) => spec_signable_bytes(
                protocol_version,
                sender_peer_id@,
                recipient_peer_id@,
                timestamp_ms,
                nonce@,
                payload@,
            ) == canonical_failure(msg@),
        },
        res is Ok <==> jcs_canonical(encode_utf8(payload@)) is Ok,
{
    proof {
        lemma_signable_bytes_fail_only_on_payload(
            protocol_version,
            sender_peer_id@,
            recipient_peer_id@,
            timestamp_ms,
            nonce@,
            payload@,
        );
    }
    let canonical_payload = jcs_canonicalize(payload.as_bytes())?;
    let sender_literal = jcs_quote(sender_peer_id);
    let recipient_literal = jcs_quote(recipient_peer_id);
    let nonce_literal = jcs_quote(nonce);
    let frame = frame_signable(
        protocol_version,
        sender_literal.as_slice(),
        recipient_literal.as_slice(),
        timestamp_ms,
        nonce_literal.as_slice(),
        canonical_payload.as_slice(),
    );
    Ok(frame)
}

/// The canonical payload stands whole in the signed object, between a head and
/// a tail that do not depend on it: the object for any payload is the object
/// for the empty payload with the payload put in at one fixed place.
pub proof fn lemma_frame_holds_payload_whole(
    protocol_version: u32,
    sender_literal: Seq<u8>,
    recipient_literal: Seq<u8>,
    timestamp_ms: u64,
    nonce_literal: Seq<u8>,
)
    ensures
        exists|k: int|
            #![trigger signable_frame(
                protocol_version,
                sender_literal,
                recipient_literal,
                timestamp_ms,
                nonce_literal,
                Seq::<u8>::empty(),
            ).take(k)]
            0 <= k <= signable_frame(
                protocol_version,
                sender_literal,
                recipient_literal,
                timestamp_ms,
                nonce_literal,
                Seq::empty(),
            ).len() && forall|payload: Seq<u8>|
                #[trigger] signable_frame(
                    protocol_version,
                    sender_literal,
                    recipient_literal,
                    timestamp_ms,
                    nonce_literal,
                    payload,
                ) == signable_frame(
                    protocol_version,
                    sender_literal,
                    recipient_literal,
                    timestamp_ms,
                    nonce_literal,
                    Seq::empty(),
                ).take(k) + payload + signable_frame(
                    protocol_version,
                    sender_literal,
                    recipient_literal,
                    timestamp_ms,
                    nonce_literal,
                    Seq::empty(),
                ).skip(k),
{
    let head = frame_head(nonce_literal);
    let tail = frame_tail(protocol_version, sender_literal, recipient_literal, timestamp_ms);
    let empty = signable_frame(
        protocol_version,
        sender_literal,
        recipient_literal,
        timestamp_ms,
        nonce_literal,
        Seq::empty(),
    );
    assert(empty =~= head + tail);
    assert(empty.take(head.len() as int) =~= head);
    assert(empty.skip(head.len() as int) =~= tail);
}

/// Different canonical payloads give different signed objects, all other
/// fields being equal.
pub proof fn lemma_frame_distinguishes_payloads(
    protocol_version: u32,
    sender_literal: Seq<u8>,
    recipient_literal: Seq<u8>,
    timestamp_ms: u64,
    nonce_literal: Seq<u8>,
    payload1: Seq<u8>,
    payload2: Seq<u8>,
)
    requires
        payload1 != payload2,
    ensures
        signable_frame(
            protocol_version,
            sender_literal,
            recipient_literal,
            timestamp_ms,
            nonce_literal,
            payload1,
        ) != signable_frame(
            protocol_version,
            sender_literal,
            recipient_literal,
            timestamp_ms,
            nonce_literal,
            payload2,
        ),
{
    lemma_frame_holds_payload_whole(
        protocol_version,
        sender_literal,
        recipient_literal,
        timestamp_ms,
        nonce_literal,
    );
    let empty = signable_frame(
        protocol_version,
        sender_literal,
        recipient_literal,
        timestamp_ms,
        nonce_literal,
        Seq::empty(),
    );
    let k = choose|k: int|
        #![trigger empty.take(k)]
        0 <= k <= empty.len() && forall|payload: Seq<u8>|
            #[trigger] signable_frame(
                protocol_version,
                sender_literal,
                recipient_literal,
                timestamp_ms,
                nonce_literal,
                payload,
            ) == empty.take(k) + payload + empty.skip(k);
    let f1 = signable_frame(
        protocol_version,
        sender_literal,
        recipient_literal,
        timestamp_ms,
        nonce_literal,
        payload1,
    );
    let f2 = signable_frame(
        protocol_version,
        sender_literal,
        recipient_literal,
        timestamp_ms,
        nonce_literal,
        payload2,
    );
    assert(f1 == empty.take(k) + payload1 + empty.skip(k));
    assert(f2 == empty.take(k) + payload2 + empty.skip(k));
    if f1 == f2 {
        assert(f1.len() == k + payload1.len() + (empty.len() - k));
        assert(f2.len() == k + payload2.len() + (empty.len() - k));
        assert(payload1.len() == payload2.len());
        assert(payload1 =~= f1.subrange(k, k + payload1.len()));
        assert(payload2 =~= f2.subrange(k, k + payload2.len()));
    }
}

/// The signed bytes exist exactly when the payload is one JSON value, and any
/// failure is the payload's own canonicalization failure, with its message; no
/// other field, and no size, makes them fail.
pub proof fn lemma_signable_bytes_fail_only_on_payload(
    protocol_version: u32,
    sender_peer_id: Seq<char>,
    recipient_peer_id: Seq<char>,
    timestamp_ms: u64,
    nonce: Seq<char>,
    payload: Seq<char>,
)
    ensures
        spec_signable_bytes(
            protocol_version,
            sender_peer_id,
            recipient_peer_id,
            timestamp_ms,
            nonce,
            payload,
        ) is Ok <==> jcs_canonical(encode_utf8(payload)) is Ok,
        spec_signable_bytes(
            protocol_version,
            sender_peer_id,
            recipient_peer_id,
            timestamp_ms,
            nonce,
            payload,
        ) is Err ==> spec_signable_bytes(
            protocol_version,
            sender_peer_id,
            recipient_peer_id,
            timestamp_ms,
            nonce,
            payload,
        ) == jcs_canonical(encode_utf8(payload)),
{
}

} // verus!
