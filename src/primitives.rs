//! The outside primitives the library relies on: HMAC-SHA1, Base32 and Base64.

use vstd::prelude::*;

verus! {

#[verifier::external_type_specification]
#[verifier::external_body]
pub struct ExInvalidLength(hmac::digest::InvalidLength);

/// The HMAC-SHA1 tag of `msg` under `key`.
pub uninterp spec fn hmac_sha1_of(key: Seq<u8>, msg: Seq<u8>) -> Seq<u8>;

/// Relies on hmac's `Hmac<Sha1>` (`KeyInit::new_from_slice`, `Mac::update`,
/// `Mac::finalize`): the 20-byte tag depends on the key and message alone, and
/// `new_from_slice` hashes an over-long key down and so accepts a key of any length.
#[verifier::external_body]
pub(crate) fn hmac_sha1(key: &[u8], msg: &[u8]) -> (r: Result<[u8; 20], hmac::digest::InvalidLength>)
    ensures
        r is Ok,
        r is Ok ==> r->Ok_0@ == hmac_sha1_of(key@, msg@),
{
    let mut mac = <hmac::Hmac<sha1::Sha1> as hmac::KeyInit>::new_from_slice(key)?;
    hmac::Mac::update(&mut mac, msg);
    let tag: [u8; 20] = hmac::Mac::finalize(mac).into_bytes().into();
    Ok(tag)
}

#[verifier::external_type_specification]
#[verifier::external_body]
pub struct ExBase64DecodeError(base64::DecodeError);

/// What `base32::decode` yields for a string under the RFC 4648 alphabet without padding.
pub uninterp spec fn base32_decoded(s: Seq<char>) -> Option<Seq<u8>>;

/// What standard Base64 decoding yields for a string.
pub uninterp spec fn base64_decoded(s: Seq<char>) -> Option<Seq<u8>>;

/// The view of an optional byte vector.
pub open spec fn bytes_of(o: Option<Vec<u8>>) -> Option<Seq<u8>> {
    match o {
        Some(v) => Some(v@),
        None => None,
    }
}

/// Relies on `base32::decode` with `Alphabet::Rfc4648 { padding: false }`: the
/// result depends on the string alone, and `None` marks a string outside the alphabet.
#[verifier::external_body]
pub(crate) fn base32_decode(s: &str) -> (r: Option<Vec<u8>>)
    ensures
        bytes_of(r) == base32_decoded(s@),
{
    base32::decode(base32::Alphabet::Rfc4648 { padding: false }, s)
}

/// Relies on base64's `general_purpose::STANDARD` engine (`Engine::decode`): the
/// result depends on the string alone, and an error marks a string that is not
/// canonical padded standard Base64.
#[verifier::external_body]
pub(crate) fn base64_decode(s: &str) -> (r: Result<Vec<u8>, base64::DecodeError>)
    ensures
        base64_decoded(s@) == (match r {
            Ok(v) => Some(v@),
            Err(_) => None::<Seq<u8>>,
        }),
{
    base64::Engine::decode(&base64::engine::general_purpose::STANDARD, s)
}

} // verus!
