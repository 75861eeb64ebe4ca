use vstd::prelude::*;

use base64::Engine;

use crate::error::EndpointError;

verus! {

/// Largest chunk that one event carries: the UDP payload maximum and the
/// size of a worker's receive buffer.
pub const MAX_CHUNK: usize = 65536;

/// The standard, padded base64 text of `b`.
pub uninterp spec fn base64_of(b: Seq<u8>) -> Seq<char>;

/// What standard, padded base64 decoding yields from `s`; `None` when `s` is
/// not valid base64.
pub uninterp spec fn base64_decoded(s: Seq<char>) -> Option<Seq<u8>>;

/// Relies on base64's `STANDARD.encode`: the padded text of the bytes, which
/// the same engine's `decode` turns back into exactly those bytes.
#[verifier::external_body]
fn encode_standard(b: &[u8]) -> (r: String)
    requires
        b@.len() <= MAX_CHUNK,
    ensures
        r@ == base64_of(b@),
        base64_decoded(r@) == Some(b@),
{
    base64::engine::general_purpose::STANDARD.encode(b)
}

/// Relies on base64's `STANDARD.decode`: the bytes on valid input, the
/// decoder's error (as text) otherwise.
#[verifier::external_body]
fn decode_standard(s: &str) -> (r: Result<Vec<u8>, String>)
    ensures
        match r {
            Ok(v) => base64_decoded(s@) == Some(v@),
            Err(_) => base64_decoded(s@) is None,
        },
{
    match base64::engine::general_purpose::STANDARD.decode(s) {
        Ok(v) => Ok(v),
        Err(e) => Err(e.to_string()),
    }
}

/// Decodes a payload handed to a send operation; malformed input is an
/// `Encoding` error.
pub fn decode_payload(data_b64: &String) -> (r: Result<Vec<u8>, EndpointError>)
    ensures
        match r {
            Ok(v) => base64_decoded(data_b64@) == Some(v@),
            Err(e) => base64_decoded(data_b64@) is None && e is Encoding,
        },
{
    match decode_standard(data_b64.as_str()) {
        Ok(v) => Ok(v),
        Err(msg) => Err(EndpointError::Encoding(msg)),
    }
}

/// Encodes a received chunk for the observer. Decoding the text gives back
/// exactly the chunk.
pub fn encode_payload(data: &[u8]) -> (r: String)
    requires
        data@.len() <= MAX_CHUNK,
    ensures
        r@ == base64_of(data@),
        base64_decoded(r@) == Some(data@),
{
    encode_standard(data)
}

} // verus!
