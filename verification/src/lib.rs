//! End-to-end encryption between two peers: an X3DH handshake that derives a
//! shared secret from long-term and ephemeral keys, followed by a Double
//! Ratchet session that hands out one message key per message.
//!
//! Every protocol step carries a contract. The cryptographic primitives come
//! from aws-lc-rs and are reached through the trusted functions of
//! [`aws_lc`]; everything above them is verified.

/// Error reporting.
pub mod error;

/// Verified helpers on byte strings.
pub mod bytes;

/// Digest (hash) interface.
pub mod digest;

/// HMAC-based key derivation function (HKDF) interface.
pub mod hkdf;

/// Elliptic curve cryptography.
pub mod ec;

/// General provider interface.
pub mod provider;

/// Trusted entry points into aws-lc-rs, and the providers and keys that
/// rest on them.
pub mod aws_lc;

/// Extended Triple Diffie-Hellman, as described by
/// [Signal](https://signal.org/docs/specifications/x3dh/x3dh.pdf).
pub mod x3dh;

/// Double Ratchet, as described by
/// [Signal](https://signal.org/docs/specifications/doubleratchet/doubleratchet.pdf).
pub mod doubleratchet;

/// The local peer and its handshakes.
pub mod peer;

/// The tunnel that a handshake gives.
pub mod tunnel;

pub use error::Error;
pub use provider::CryptoProvider;
pub use provider::HashProvider;
pub use provider::HkdfProvider;
