//! Standard-alphabet base64 as used for keys and signatures on the wire.

use vstd::prelude::*;
use base64::engine::general_purpose::STANDARD;
use base64::Engine;
use crate::error::{CoreError, ErrorModel};

verus! {

/// The padded standard-alphabet base64 text that `STANDARD.encode` gives for `bytes`.
pub uninterp spec fn b64_encode(bytes: Seq<u8>) -> Seq<char>;

/// What `STANDARD.decode` gives for the bytes of `text`: the decoded bytes, or the
/// text of the `DecodeError`.
pub uninterp spec fn b64_decode(text: Seq<char>) -> Result<Seq<u8>, Seq<char>>;

/// The outcome of a decode that succeeds with `bytes`.
pub open spec fn decoded_as(bytes: Seq<u8>) -> Result<Seq<u8>, Seq<char>> {
    Ok(bytes)
}

/// Calls `base64::engine::general_purpose::STANDARD.encode`.
/// Claims: the result is `b64_encode(bytes)`, and decoding it with the same
/// engine gives `bytes` back (the crate's documented and tested round trip), and
/// it is padded to four characters per started group of three bytes (the
/// crate's `encoded_len` with padding).
/// The length bound keeps the crate's output-size computation from overflowing,
/// where it would panic.
#[verifier::external_body]
pub(crate) fn base64_encode(bytes: &[u8]) -> (encoded: String)
    requires
        bytes@.len() <= usize::MAX / 2,
    ensures
        encoded@ == b64_encode(bytes@),
        encoded@.len() == 4 * ((bytes@.len() + 2) / 3),
        b64_decode(encoded@) == decoded_as(bytes@),
{
    STANDARD.encode(bytes)
}

/// Calls `base64::engine::general_purpose::STANDARD.decode` on the bytes of `text`.
/// Claims: the outcome is `b64_decode(text)`, with the error taken by its text.
#[verifier::external_body]
pub(crate) fn base64_decode(text: &str) -> (res: Result<Vec<u8>, String>)
    ensures
        match res {
            Ok(bytes) => (b64_decode(text@) matches Ok(d) && d == bytes@),
            Err(msg) => (b64_decode(text@) matches Err(m) && m == msg@),
        },
{
    match STANDARD.decode(text.as_bytes()) {
        Ok(bytes) => Ok(bytes),
        Err(e) => Err(e.to_string()),
    }
}

/// Decoding base64 text that must hold exactly `expected_len` bytes.
pub open spec fn spec_decode_fixed_len_b64(
    text: Seq<char>,
    expected_len: usize,
    label: Seq<char>,
) -> Result<Seq<u8>, ErrorModel> {
    match b64_decode(text) {
        Err(msg) => Err(ErrorModel::InvalidBase64(msg)),
        Ok(bytes) => if bytes.len() == expected_len {
            Ok(bytes)
        } else {
            Err(ErrorModel::InvalidKeyLength(label, expected_len as nat, bytes.len()))
        },
    }
}

/// The view of an outcome that carries bytes.
pub open spec fn bytes_outcome(res: Result<Vec<u8>, CoreError>) -> Result<Seq<u8>, ErrorModel> {
    match res {
        Ok(bytes) => Ok(bytes@),
        Err(e) => Err(e@),
    }
}

/// Decodes base64 `text` and insists on `expected_len` bytes; `label` names the
/// key in the length error.
pub fn decode_fixed_len_b64(text: &str, expected_len: usize, label: &'static str) -> (res: Result<
    Vec<u8>,
    CoreError,
>)
    ensures
        bytes_outcome(res) == spec_decode_fixed_len_b64(text@, expected_len, label@),
{
    let bytes = match base64_decode(text) {
        Ok(bytes) => bytes,
        Err(msg) => return Err(CoreError::InvalidBase64(msg)),
    };
    if bytes.len() != expected_len {
        return Err(CoreError::InvalidKeyLength(label, expected_len, bytes.len()));
    }
    Ok(bytes)
}

} // verus!
