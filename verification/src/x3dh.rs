//! Extended Triple Diffie-Hellman: a handshake that combines up to four
//! agreements over identity keys, a signed prekey and a one-time prekey
//! into one shared secret.

/// Storage of prekeys.
pub mod storage;

/// The builder of a configuration.
pub mod builder;

/// The configuration of a peer.
pub mod config;

/// The handshake of both sides.
pub mod handshake;

pub use builder::ConfigBuilder;
pub use config::Config;
pub use config::Negotiated;
pub use handshake::HandshakeSecret;
pub use handshake::IdentityKeyPair;
pub use handshake::IdentityPublic;
pub use handshake::PeerPreKeyBundle;
pub use storage::KeyStorage;
pub use storage::MemoryKeyStorage;
