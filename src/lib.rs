//! Time-based one-time passwords (RFC 4226 / RFC 6238): secret decoding,
//! code generation and rendering, and the enrollment store.

pub mod code;
pub mod otp;
pub mod primitives;
pub mod secret;
pub mod store;
