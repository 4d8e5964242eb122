//! Decoding a secret string into key bytes, Base32 first and Base64 second.

use vstd::prelude::*;

use crate::primitives::{base32_decode, base32_decoded, base64_decode, base64_decoded};

verus! {

/// Why a secret string could not be turned into key bytes.
#[derive(Debug, Clone, Copy, PartialEq, Eq, Structural)]
pub enum SecretDecodeError {
    /// Neither Base32 nor standard Base64 yields a non-empty key.
    InvalidEncoding,
}

/// An encoding that a secret string may be written in.
#[derive(Debug, Clone, Copy, PartialEq, Eq, Structural)]
pub enum SecretEncoding {
    /// RFC 4648 Base32 without padding, the usual form of authenticator secrets.
    Base32,
    /// Standard Base64.
    Base64,
}

/// The encodings tried, in order.
pub open spec fn strategy_order() -> Seq<SecretEncoding> {
    seq![SecretEncoding::Base32, SecretEncoding::Base64]
}

/// What decoding `s` under `enc` yields, where it succeeds with at least one byte.
pub open spec fn decoded_key(enc: SecretEncoding, s: Seq<char>) -> Option<Seq<u8>> {
    let d = match enc {
        SecretEncoding::Base32 => base32_decoded(s),
        SecretEncoding::Base64 => base64_decoded(s),
    };
    match d {
        Some(b) => if b.len() > 0 {
            Some(b)
        } else {
            None
        },
        None => None,
    }
}

/// The key that a secret string stands for: the first encoding, in order, that yields one.
pub open spec fn secret_key(s: Seq<char>) -> Result<Seq<u8>, SecretDecodeError> {
    match decoded_key(SecretEncoding::Base32, s) {
        Some(b) => Ok(b),
        None => match decoded_key(SecretEncoding::Base64, s) {
            Some(b) => Ok(b),
            None => Err(SecretDecodeError::InvalidEncoding),
        },
    }
}

/// A string that Base32 rejects but standard Base64 accepts decodes through
/// Base64; a string that both reject is an invalid encoding.
pub proof fn lemma_base64_fallback(s: Seq<char>)
    ensures
        decoded_key(SecretEncoding::Base32, s) is None ==> (match decoded_key(
            SecretEncoding::Base64,
            s,
        ) {
            Some(b) => secret_key(s) == Ok::<Seq<u8>, SecretDecodeError>(b),
            None => secret_key(s) == Err::<Seq<u8>, SecretDecodeError>(
                SecretDecodeError::InvalidEncoding,
            ),
        }),
{
}

/// Decodes `s` under a single encoding; `None` where it fails or yields no bytes.
pub fn decode_as(enc: SecretEncoding, s: &str) -> (r: Option<Vec<u8>>)
    ensures
        crate::primitives::bytes_of(r) == decoded_key(enc, s@),
{
    let d = match enc {
        SecretEncoding::Base32 => base32_decode(s),
        SecretEncoding::Base64 => match base64_decode(s) {
            Ok(v) => Some(v),
            Err(_) => None,
        },
    };
    match d {
        Some(v) => if v.len() > 0 {
            Some(v)
        } else {
            None
        },
        None => None,
    }
}

/// Turns a secret string into key bytes: Base32 first, then standard Base64.
pub fn decode_secret(s: &str) -> (r: Result<Vec<u8>, SecretDecodeError>)
    ensures
        match r {
            Ok(v) => secret_key(s@) == Ok::<Seq<u8>, SecretDecodeError>(v@),
            Err(e) => secret_key(s@) == Err::<Seq<u8>, SecretDecodeError>(e),
        },
{
    let order = [SecretEncoding::Base32, SecretEncoding::Base64];
    let mut i: usize = 0;
    while i < 2
        invariant
            0 <= i <= 2,
            order@ == strategy_order(),
            forall|j: int| 0 <= j < i ==> decoded_key(#[trigger] order@[j], s@) is None,
        decreases 2 - i,
    {
        match decode_as(order[i], s) {
            Some(v) => {
                return Ok(v);
            },
            None => {},
        }
        i = i + 1;
    }
    Err(SecretDecodeError::InvalidEncoding)
}

} // verus!
