//! Secure bearer tokens.
//!
//! A token is issued as a plaintext: the permanent prefix of its kind, then
//! random alphanumeric symbols. The plaintext is handed out once; what is
//! kept is its SHA-256 digest. A presented plaintext is read back as a token
//! only where it opens with the prefix of the kind that is expected, and the
//! caller then compares its digest with the one that was stored.
//!
//! The library is verified with Verus. It trusts two outside calls, which
//! stand behind `digest::sha256_digest` (the `sha2` crate) and
//! `random::draw_below` (the `rand` crate), and the formatter of the standard
//! library behind `token::write_text`.

pub mod digest;
pub mod kind;
pub mod random;
pub mod token;

pub use kind::SecureTokenKind;
pub use token::NewSecureToken;
pub use token::SecureToken;
