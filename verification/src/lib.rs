//! Identity-key and binary-tag primitives for a decentralized protocol's
//! data model: validated signing keys, a password-based secret-key envelope,
//! a printable text codec, and a self-delimiting tag record format with
//! ordered tag sets.

pub mod base32;
pub mod encrypted;
pub mod errors;
pub mod keys;
pub mod printable;
pub mod tag;
pub mod tag_set;

pub use encrypted::EncryptedSecretKey;
pub use errors::Error;
pub use keys::{PrivateKey, PublicKey};
pub use tag::{Tag, TagType};
pub use tag_set::{OwnedTagSet, TagSet, TagSetIter};
