//! An append-only, content-addressed event history, and the sharded on-disk
//! store that holds it.
//!
//! A record (`remnant::Remnant`) is identified by the SHA-256 digest of its
//! content's canonical bytes and signed by its author's Ed25519 key. A trie
//! store (`triefort`) maps each record's key to a leaf file whose path is
//! derived from the key's leading bytes; the file system work itself is left
//! to the caller, which hands the store what it read and what happened.

pub mod author;
pub mod bytes;
pub mod client;
pub mod hex;
pub mod message;
pub mod plan;
pub mod primitives;
pub mod protocol;
pub mod remnant;
pub mod remnantdb;
pub mod server;
pub mod triefort;
pub mod universe;
pub mod util;
