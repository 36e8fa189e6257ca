use pp2p_core::{
    decode_fixed_len_b64, hex_lower, peer_id_from_digest, peer_id_from_public_key_b64,
    peer_id_from_public_key_bytes, signing_key_from_b64, verifying_key_from_b64, CoreError,
};

#[test]
fn hex_lower_renders_two_digits_per_byte() {
    assert_eq!(hex_lower(&[]), "");
    assert_eq!(hex_lower(&[0x00, 0x0f, 0xa0, 0xff, 0x3c]), "000fa0ff3c");
}

#[test]
fn peer_id_of_zero_key() {
    assert_eq!(peer_id_from_public_key_bytes(&[0u8; 32]), "66687aadf862bd776c8fc18b");
}

#[test]
fn peer_id_of_digest_takes_24_hex_chars() {
    let digest: Vec<u8> = (0u8..16).collect();
    assert_eq!(peer_id_from_digest(&digest), "000102030405060708090a0b");
}

#[test]
fn peer_id_from_b64_key() {
    assert_eq!(
        peer_id_from_public_key_b64("11qYAYKxCrfVS/7TyWQHOg7hcvPapiMlrwIaaPcHURo=").unwrap(),
        "21fe31dfa154a261626bf854"
    );
    let err = peer_id_from_public_key_b64("AAAAAAA=").unwrap_err();
    assert!(matches!(err, CoreError::InvalidKeyLength("public key", 32, 5)));
    assert_eq!(err.message(), "invalid key length for public key: expected 32, got 5");
}

#[test]
fn fixed_length_decoding() {
    assert_eq!(decode_fixed_len_b64("AAECAwQFBgcICQ==", 10, "blob").unwrap(), (0u8..10).collect::<Vec<u8>>());
    assert!(matches!(
        decode_fixed_len_b64("AAECAwQFBgcICQ==", 11, "blob").unwrap_err(),
        CoreError::InvalidKeyLength("blob", 11, 10)
    ));
    let err = decode_fixed_len_b64("AAECAwQFBgcICQ", 10, "blob").unwrap_err();
    assert!(matches!(err, CoreError::InvalidBase64(_)));
    assert!(err.message().starts_with("invalid base64: "));
}

#[test]
fn signing_key_needs_32_bytes() {
    assert!(matches!(
        signing_key_from_b64("AAAAAAA=").err().unwrap(),
        CoreError::InvalidKeyLength("private key", 32, 5)
    ));
    let key = signing_key_from_b64("nWGxne/9WmC6hEr0kuwsxERJxWl7MmkZcDusAxyuf2A=").unwrap();
    assert_eq!(key.to_bytes()[0], 0x9d);
    assert_eq!(key.verifying_key().to_bytes()[0], 0xd7);
}

#[test]
fn verifying_key_must_be_a_curve_point() {
    let err = verifying_key_from_b64("AgAAAAAAAAAAAAAAAAAAAAAAAAAAAAAAAAAAAAAAAAA=").err().unwrap();
    assert!(matches!(err, CoreError::InvalidBase64(_)));
    let key = verifying_key_from_b64("11qYAYKxCrfVS/7TyWQHOg7hcvPapiMlrwIaaPcHURo=").unwrap();
    assert_eq!(key.as_bytes()[31], 0x1a);
}

#[test]
fn error_messages() {
    assert_eq!(CoreError::InvalidBase64("x".to_string()).message(), "invalid base64: x");
    assert_eq!(CoreError::Json("bad".to_string()).message(), "json error: bad");
    assert_eq!(
        CoreError::Canonicalization("c".to_string()).message(),
        "canonicalization error: c"
    );
    assert_eq!(
        CoreError::SignatureVerificationFailed.message(),
        "signature verification failed"
    );
    assert_eq!(CoreError::InvalidSignatureLength(0).message(), "invalid signature length: expected 64, got 0");
    assert_eq!(
        CoreError::InvalidKeyLength("private key", 32, 1234567890).message(),
        "invalid key length for private key: expected 32, got 1234567890"
    );
}

#[test]
fn signing_key_reads_back_from_its_base64() {
    let key = signing_key_from_b64("nWGxne/9WmC6hEr0kuwsxERJxWl7MmkZcDusAxyuf2A=").unwrap();
    let again = signing_key_from_b64(&key.to_b64()).unwrap();
    assert_eq!(again.to_bytes(), key.to_bytes());
    // 33 bytes of base64
    let long = "AAAAAAAAAAAAAAAAAAAAAAAAAAAAAAAAAAAAAAAAAAAA";
    assert!(matches!(
        signing_key_from_b64(long).err().unwrap(),
        CoreError::InvalidKeyLength("private key", 32, 33)
    ));
}
