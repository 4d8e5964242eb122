//! From an account or a secret string to the code shown to the user.

use vstd::prelude::*;

use crate::code::{generate, generate_result, padded_decimal, render_code, GenerationError};
use crate::secret::{decode_secret, secret_key, SecretDecodeError};
use crate::store::{SecretStore, StoreError};

verus! {

/// Digits in a rendered code.
pub const DEFAULT_DIGITS: u32 = 6;

/// Unix time at which step zero begins.
pub const DEFAULT_EPOCH: u64 = 0;

/// Seconds in one time step.
pub const DEFAULT_INTERVAL: u64 = 30;

/// Why no code could be shown for an account.
#[derive(Debug, Clone, Copy, PartialEq, Eq, Structural)]
pub enum CodeError {
    /// The store holds no secret for the identifier.
    NotFound,
    /// The stored secret is not a valid encoding.
    Decode(SecretDecodeError),
    /// The code could not be computed.
    Generation(GenerationError),
}

/// The rendered default code for an encoded secret at time `now`.
pub open spec fn code_string(secret: Seq<char>, now: u64) -> Result<Seq<char>, CodeError> {
    match secret_key(secret) {
        Err(e) => Err(CodeError::Decode(e)),
        Ok(key) => match generate_result(
            key,
            now,
            DEFAULT_DIGITS as nat,
            DEFAULT_EPOCH,
            DEFAULT_INTERVAL,
        ) {
            Err(e) => Err(CodeError::Generation(e)),
            Ok(c) => Ok(padded_decimal(c as nat, DEFAULT_DIGITS as nat)),
        },
    }
}

/// Whether an executable result matches a result over sequences.
pub open spec fn same_result(r: Result<String, CodeError>, s: Result<Seq<char>, CodeError>) -> bool {
    match r {
        Ok(v) => s == Ok::<Seq<char>, CodeError>(v@),
        Err(e) => s == Err::<Seq<char>, CodeError>(e),
    }
}

/// Decodes `secret` and renders its six-digit code for the 30-second step holding `now`.
pub fn code_for_secret(secret: &str, now: u64) -> (r: Result<String, CodeError>)
    ensures
        same_result(r, code_string(secret@, now)),
{
    let key = match decode_secret(secret) {
        Ok(k) => k,
        Err(e) => {
            return Err(CodeError::Decode(e));
        },
    };
    match generate(key.as_slice(), now, DEFAULT_DIGITS, DEFAULT_EPOCH, DEFAULT_INTERVAL) {
        Ok(c) => Ok(render_code(c, DEFAULT_DIGITS)),
        Err(e) => Err(CodeError::Generation(e)),
    }
}

/// The current code for the account `domain`, or `NotFound` where it is not enrolled.
pub fn code_for_entry(store: &SecretStore, domain: &str, now: u64) -> (r: Result<String, CodeError>)
    requires
        store.wf(),
    ensures
        !store@.contains_key(domain@) ==> r == Err::<String, CodeError>(CodeError::NotFound),
        store@.contains_key(domain@) ==> same_result(r, code_string(store@[domain@], now)),
{
    match store.lookup(domain) {
        Ok(secret) => code_for_secret(secret.as_str(), now),
        Err(StoreError::NotFound) => Err(CodeError::NotFound),
    }
}

} // verus!
