//! The library's error type and the text each error renders to.

use vstd::prelude::*;
use crate::text::{decimal_text, push_decimal_text};

verus! {

/// Everything that can go wrong while decoding keys, signing or verifying.
#[derive(Debug, Clone)]
#[allow(inconsistent_fields)]
pub enum CoreError {
    InvalidBase64(String),
    InvalidKeyLength(&'static str, usize, usize),
    InvalidSignatureLength(usize),
    Json(String),
    Canonicalization(String),
    ProtocolVersionMismatch { expected: u32, actual: u32 },
    PeerIdMismatch { expected: String, actual: String },
    SignatureVerificationFailed,
    TimestampSkewExceeded,
}

/// A `CoreError` with its strings taken as character sequences.
#[allow(inconsistent_fields)]
pub enum ErrorModel {
    InvalidBase64(Seq<char>),
    InvalidKeyLength(Seq<char>, nat, nat),
    InvalidSignatureLength(nat),
    Json(Seq<char>),
    Canonicalization(Seq<char>),
    ProtocolVersionMismatch { expected: u32, actual: u32 },
    PeerIdMismatch { expected: Seq<char>, actual: Seq<char> },
    SignatureVerificationFailed,
    TimestampSkewExceeded,
}

impl View for CoreError {
    type V = ErrorModel;

    open spec fn view(&self) -> ErrorModel {
        match self {
            CoreError::InvalidBase64(m) => ErrorModel::InvalidBase64(m@),
            CoreError::InvalidKeyLength(label, expected, got) => ErrorModel::InvalidKeyLength(
                label@,
                *expected as nat,
                *got as nat,
            ),
            CoreError::InvalidSignatureLength(n) => ErrorModel::InvalidSignatureLength(*n as nat),
            CoreError::Json(m) => ErrorModel::Json(m@),
            CoreError::Canonicalization(m) => ErrorModel::Canonicalization(m@),
            CoreError::ProtocolVersionMismatch { expected, actual } =>
                ErrorModel::ProtocolVersionMismatch { expected: *expected, actual: *actual },
            CoreError::PeerIdMismatch { expected, actual } => ErrorModel::PeerIdMismatch {
                expected: expected@,
                actual: actual@,
            },
            CoreError::SignatureVerificationFailed => ErrorModel::SignatureVerificationFailed,
            CoreError::TimestampSkewExceeded => ErrorModel::TimestampSkewExceeded,
        }
    }
}

/// The human-readable text of an error.
pub open spec fn error_message(e: ErrorModel) -> Seq<char> {
    match e {
        ErrorModel::InvalidBase64(m) => "invalid base64: "@ + m,
        ErrorModel::InvalidKeyLength(label, expected, got) => "invalid key length for "@ + label
            + ": expected "@ + decimal_text(expected) + ", got "@ + decimal_text(got),
        ErrorModel::InvalidSignatureLength(n) => "invalid signature length: expected 64, got "@
            + decimal_text(n),
        ErrorModel::Json(m) => "json error: "@ + m,
        ErrorModel::Canonicalization(m) => "canonicalization error: "@ + m,
        ErrorModel::ProtocolVersionMismatch { expected, actual } =>
            "protocol version mismatch: expected "@ + decimal_text(expected as nat) + ", got "@
                + decimal_text(actual as nat),
        ErrorModel::PeerIdMismatch { expected, actual } => "peer id mismatch: expected "@
            + expected + ", got "@ + actual,
        ErrorModel::SignatureVerificationFailed => "signature verification failed"@,
        ErrorModel::TimestampSkewExceeded => "timestamp outside allowed skew window"@,
    }
}

impl CoreError {
    /// The human-readable text of this error.
    pub fn message(&self) -> (text: String)
        ensures
            text@ == error_message(self@),
    {
        let mut out = String::new();
        match self {
            CoreError::InvalidBase64(m) => {
                out.append("invalid base64: ");
                out.append(m.as_str());
            },
            CoreError::InvalidKeyLength(label, expected, got) => {
                out.append("invalid key length for ");
                out.append(label);
                out.append(": expected ");
                push_decimal_text(&mut out, *expected as u64);
                out.append(", got ");
                push_decimal_text(&mut out, *got as u64);
            },
            CoreError::InvalidSignatureLength(n) => {
                out.append("invalid signature length: expected 64, got ");
                push_decimal_text(&mut out, *n as u64);
            },
            CoreError::Json(m) => {
                out.append("json error: ");
                out.append(m.as_str());
            },
            CoreError::Canonicalization(m) => {
                out.append("canonicalization error: ");
                out.append(m.as_str());
            },
            CoreError::ProtocolVersionMismatch { expected, actual } => {
                out.append("protocol version mismatch: expected ");
                push_decimal_text(&mut out, *expected as u64);
                out.append(", got ");
                push_decimal_text(&mut out, *actual as u64);
            },
            CoreError::PeerIdMismatch { expected, actual } => {
                out.append("peer id mismatch: expected ");
                out.append(expected.as_str());
                out.append(", got ");
                out.append(actual.as_str());
            },
            CoreError::SignatureVerificationFailed => {
                out.append("signature verification failed");
            },
            CoreError::TimestampSkewExceeded => {
                out.append("timestamp outside allowed skew window");
            },
        }
        assert(Seq::<char>::empty() + error_message(self@) =~= error_message(self@));
        out
    }
}

} // verus!
