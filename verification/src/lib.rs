//! A lightweight authenticated-encryption (AEAD) and keyed MAC library built
//! on a bit-oriented cryptographic permutation run in sponge/duplex mode.
//!
//! The construction is nonce-less: `spongent_wrap` and `spongent_mac` are
//! deterministic in their inputs, and uniqueness of (key, AAD, plaintext)
//! tuples is the caller's responsibility. The three public operations are
//! - [`spongent_wrap`]: authenticated encryption,
//! - [`spongent_unwrap`]: authenticated decryption with tag verification,
//! - [`spongent_mac`]: a keyed tag over key and message only.

pub mod aead;
pub mod params;
pub mod permutation;
pub mod sponge;
pub mod result;

pub use crate::aead::spongent_mac;
pub use crate::aead::spongent_unwrap;
pub use crate::aead::spongent_wrap;
pub use crate::result::SpongentResult;
