//! The Double Ratchet: a root key that advances with every new ratchet key
//! of the peer, one key chain per direction that advances with every
//! message, and a bounded cache of the message keys that were skipped.

/// Key derivation for the root key and the chains.
pub mod kdf;

/// The bounded cache of skipped message keys.
pub mod cache;

/// The session: its state, sending and receiving.
pub mod session;

/// What holds of every session.
pub mod laws;

/// What holds of messages that arrive out of order.
pub mod order;

/// What holds of the messages that one side sent and the other receives.
pub mod sent;

/// The tokens that bytes are read as and written from.
pub mod wire;

/// What is stored of a session.
pub mod stored;

pub use cache::SkippedKeyEntry;
pub use cache::SkippedKeys;
pub use kdf::MessageKey;
pub use kdf::Suite;
pub use session::Header;
pub use session::RatchetKeyPair;
pub use session::RatchetSession;
