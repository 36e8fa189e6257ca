use pp2p_core::{
    check_envelope_header, generate_identity, identity_from_secret, sign_envelope,
    signable_bytes, signature_from_b64, signing_key_from_b64, verify_envelope,
    verifying_key_from_b64, CoreError, Envelope, PROTOCOL_VERSION,
};

const RFC_SECRET_HEX: &str = "9d61b19deffd5a60ba844af492ec2cc44449c5697b326919703bac031cae7f60";
const RFC_SECRET_B64: &str = "nWGxne/9WmC6hEr0kuwsxERJxWl7MmkZcDusAxyuf2A=";
const RFC_PUBLIC_B64: &str = "11qYAYKxCrfVS/7TyWQHOg7hcvPapiMlrwIaaPcHURo=";
const RFC_PEER_ID: &str = "21fe31dfa154a261626bf854";

fn rfc_secret() -> Vec<u8> {
    (0..32)
        .map(|i| u8::from_str_radix(&RFC_SECRET_HEX[2 * i..2 * i + 2], 16).unwrap())
        .collect()
}

fn offer_payload() -> String {
    "{\"type\":\"offer\",\"sdp\":\"abc\"}".to_string()
}

#[test]
fn sign_and_verify_roundtrip() {
    let identity = generate_identity();
    let signing = signing_key_from_b64(&identity.private_key_b64).unwrap();
    let verifying = verifying_key_from_b64(&identity.public_key_b64).unwrap();

    let now = 1_700_000_000_000u64;
    let env = sign_envelope(&signing, &identity.peer_id, "peer_b", now, "n-1", offer_payload())
        .unwrap();

    verify_envelope(&env, &verifying, now + 1_000, 30_000).unwrap();
}

#[test]
fn verify_rejects_bad_peer_id() {
    let identity = generate_identity();
    let signing = signing_key_from_b64(&identity.private_key_b64).unwrap();
    let verifying = verifying_key_from_b64(&identity.public_key_b64).unwrap();
    let mut env = sign_envelope(
        &signing,
        &identity.peer_id,
        "peer_b",
        100,
        "n-1",
        "{\"x\":1}".to_string(),
    )
    .unwrap();
    env.sender_peer_id = "tampered".to_string();
    let err = verify_envelope(&env, &verifying, 100, 10).unwrap_err();
    assert!(matches!(err, CoreError::PeerIdMismatch { .. }));
}

#[test]
fn identity_of_rfc8032_key() {
    let id = identity_from_secret(&rfc_secret());
    assert_eq!(id.private_key_b64, RFC_SECRET_B64);
    assert_eq!(id.public_key_b64, RFC_PUBLIC_B64);
    assert_eq!(id.peer_id, RFC_PEER_ID);
}

#[test]
fn generated_identity_reads_back() {
    let id = generate_identity();
    let signing = signing_key_from_b64(&id.private_key_b64).unwrap();
    let public = signing.verifying_key();
    let decoded = verifying_key_from_b64(&id.public_key_b64).unwrap();
    assert_eq!(public.to_bytes(), decoded.to_bytes());
    assert_eq!(id.peer_id.len(), 24);
    assert!(id.peer_id.chars().all(|c| c.is_ascii_digit() || ('a'..='f').contains(&c)));
}

#[test]
fn signable_bytes_are_canonical() {
    let bytes = signable_bytes(1, "a", "b", 5, "n", "{\"z\":1, \"a\": [true, null]}").unwrap();
    let expected = "{\"nonce\":\"n\",\"payload\":{\"a\":[true,null],\"z\":1},\"protocol_version\":1,\"recipient_peer_id\":\"b\",\"sender_peer_id\":\"a\",\"timestamp_ms\":5}";
    assert_eq!(String::from_utf8(bytes).unwrap(), expected);
}

#[test]
fn signature_of_rfc8032_key_is_deterministic() {
    let signing = signing_key_from_b64(RFC_SECRET_B64).unwrap();
    let env = sign_envelope(
        &signing,
        RFC_PEER_ID,
        "peer_b",
        1_700_000_000_000,
        "n-1",
        offer_payload(),
    )
    .unwrap();
    assert_eq!(env.protocol_version, PROTOCOL_VERSION);
    assert_eq!(env.sender_peer_id, RFC_PEER_ID);
    assert_eq!(env.recipient_peer_id, "peer_b");
    assert_eq!(env.nonce, "n-1");
    assert_eq!(env.payload, offer_payload());
    assert_eq!(
        env.signature_b64,
        "GodBzJbxwtz4D7+QdwZ1wWDUhqx0/lVRza62p+yml367vhagnlfwpmvQo3CuO7x0SEj+GtO1I70v8fOlTfuoBw=="
    );
    let verifying = verifying_key_from_b64(RFC_PUBLIC_B64).unwrap();
    verify_envelope(&env, &verifying, 1_700_000_000_000, 0).unwrap();
}

fn rfc_envelope() -> (Envelope, pp2p_core::VerifyingKey) {
    let signing = signing_key_from_b64(RFC_SECRET_B64).unwrap();
    let env = sign_envelope(&signing, RFC_PEER_ID, "peer_b", 1_000, "n-1", offer_payload()).unwrap();
    (env, verifying_key_from_b64(RFC_PUBLIC_B64).unwrap())
}

#[test]
fn verify_rejects_other_protocol_version() {
    let (mut env, key) = rfc_envelope();
    env.protocol_version = 2;
    let err = verify_envelope(&env, &key, 1_000, 10).unwrap_err();
    assert!(matches!(err, CoreError::ProtocolVersionMismatch { expected: 1, actual: 2 }));
    assert_eq!(err.message(), "protocol version mismatch: expected 1, got 2");
}

#[test]
fn verify_rejects_stale_and_early_timestamps() {
    let (env, key) = rfc_envelope();
    assert!(matches!(
        verify_envelope(&env, &key, 1_011, 10).unwrap_err(),
        CoreError::TimestampSkewExceeded
    ));
    assert!(matches!(
        verify_envelope(&env, &key, 989, 10).unwrap_err(),
        CoreError::TimestampSkewExceeded
    ));
    verify_envelope(&env, &key, 1_010, 10).unwrap();
    verify_envelope(&env, &key, 990, 10).unwrap();
    // The window saturates at both ends of u64.
    verify_envelope(&env, &key, 0, u64::MAX).unwrap();
    verify_envelope(&env, &key, u64::MAX, u64::MAX).unwrap();
}

#[test]
fn verify_rejects_tampered_payload() {
    let (mut env, key) = rfc_envelope();
    env.payload = "{\"type\":\"answer\",\"sdp\":\"abc\"}".to_string();
    assert!(matches!(
        verify_envelope(&env, &key, 1_000, 0).unwrap_err(),
        CoreError::SignatureVerificationFailed
    ));
}

#[test]
fn verify_accepts_reformatted_payload() {
    let (mut env, key) = rfc_envelope();
    env.payload = "{ \"sdp\" : \"abc\", \"type\" : \"offer\" }".to_string();
    verify_envelope(&env, &key, 1_000, 0).unwrap();
}

#[test]
fn verify_rejects_bad_signature_encoding() {
    let (mut env, key) = rfc_envelope();
    env.signature_b64 = "not base64!".to_string();
    assert!(matches!(
        verify_envelope(&env, &key, 1_000, 0).unwrap_err(),
        CoreError::InvalidBase64(_)
    ));
    env.signature_b64 = "AAECAwQFBgcICQ==".to_string();
    assert!(matches!(
        verify_envelope(&env, &key, 1_000, 0).unwrap_err(),
        CoreError::InvalidSignatureLength(10)
    ));
}

#[test]
fn signature_decoding_checks_length() {
    assert_eq!(signature_from_b64("AAECAwQFBgcICQ==").unwrap_err().message(),
        "invalid signature length: expected 64, got 10");
    assert!(matches!(signature_from_b64("%%%").unwrap_err(), CoreError::InvalidBase64(_)));
}

#[test]
fn sign_rejects_payload_that_is_not_json() {
    let signing = signing_key_from_b64(RFC_SECRET_B64).unwrap();
    let err = sign_envelope(&signing, RFC_PEER_ID, "peer_b", 1, "n", "{\"x\":".to_string())
        .unwrap_err();
    assert!(matches!(err, CoreError::Canonicalization(_)));
    assert!(err.message().starts_with("canonicalization error: "));
    let err = sign_envelope(&signing, RFC_PEER_ID, "peer_b", 1, "n", "1, \"x\": 2".to_string())
        .unwrap_err();
    assert!(matches!(err, CoreError::Canonicalization(_)));
}

#[test]
fn verify_rejects_payload_that_is_not_json() {
    let (mut env, key) = rfc_envelope();
    env.payload = "nope".to_string();
    assert!(matches!(
        verify_envelope(&env, &key, 1_000, 0).unwrap_err(),
        CoreError::Canonicalization(_)
    ));
}

#[test]
fn header_check_order() {
    let (mut env, _) = rfc_envelope();
    let expected = RFC_PEER_ID.to_string();
    check_envelope_header(&env, &expected, 1_000, 0).unwrap();
    env.timestamp_ms = 5;
    env.sender_peer_id = "someone".to_string();
    let err = check_envelope_header(&env, &expected, 1_000, 0).unwrap_err();
    assert_eq!(err.message(), "peer id mismatch: expected 21fe31dfa154a261626bf854, got someone");
    env.sender_peer_id = expected.clone();
    let err = check_envelope_header(&env, &expected, 1_000, 0).unwrap_err();
    assert_eq!(err.message(), "timestamp outside allowed skew window");
}

#[test]
fn deeply_nested_payload_is_signed() {
    let signing = signing_key_from_b64(RFC_SECRET_B64).unwrap();
    let payload = format!("{}{}", "[".repeat(127), "]".repeat(127));
    let env = sign_envelope(&signing, RFC_PEER_ID, "peer_b", 7, "n", payload).unwrap();
    let verifying = verifying_key_from_b64(RFC_PUBLIC_B64).unwrap();
    verify_envelope(&env, &verifying, 7, 0).unwrap();
}

#[test]
fn payload_deeper_than_the_parse_limit_is_signed() {
    let signing = signing_key_from_b64(RFC_SECRET_B64).unwrap();
    let payload = format!("{}{}", "[".repeat(300), "]".repeat(300));
    let env = sign_envelope(&signing, RFC_PEER_ID, "peer_b", 7, "n", payload).unwrap();
    let verifying = verifying_key_from_b64(RFC_PUBLIC_B64).unwrap();
    verify_envelope(&env, &verifying, 7, 0).unwrap();
}

#[test]
fn signature_text_reads_back_as_64_bytes() {
    let (env, _) = rfc_envelope();
    assert_eq!(env.signature_b64.len(), 88);
    assert_eq!(signature_from_b64(&env.signature_b64).unwrap().len(), 64);
}

#[test]
fn keys_read_back_from_their_base64() {
    let signing = signing_key_from_b64(RFC_SECRET_B64).unwrap();
    assert_eq!(signing.to_b64(), RFC_SECRET_B64);
    let verifying = signing.verifying_key();
    assert_eq!(verifying.to_b64(), RFC_PUBLIC_B64);
    let again = verifying_key_from_b64(&verifying.to_b64()).unwrap();
    assert_eq!(again.to_bytes(), verifying.to_bytes());
}
