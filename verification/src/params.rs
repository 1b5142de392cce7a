//! Fixed parameters of the permutation and of the sponge construction.

use vstd::prelude::*;

verus! {

/// Width of the permutation state in bytes (136 bits).
pub const STATE_BYTES: usize = 17;

/// Width of the rate portion of the state in bytes: the only part of the
/// state that absorb and squeeze ever touch. The remaining
/// `STATE_BYTES - RATE_BYTES` bytes are the capacity, never exposed.
pub const RATE_BYTES: usize = 1;

/// Key length in bytes fixed by the security parameter (128 bits).
pub const KEY_BYTES: usize = 16;

/// Authentication tag length in bytes (128 bits).
pub const TAG_BYTES: usize = 16;

/// Padding byte: a single 1 bit followed by zero bits, completing the
/// current rate-sized block unambiguously.
pub const PAD_BYTE: u8 = 0x80;

/// Domain-separation constant for the key absorption phase.
pub const DOM_KEY: u8 = 0x01;

/// Domain-separation constant for the associated-data absorption phase.
pub const DOM_AAD: u8 = 0x02;

/// Domain-separation constant for the plaintext/ciphertext duplex phase.
pub const DOM_BODY: u8 = 0x04;

/// Domain-separation constant for tag finalization.
pub const DOM_FIN: u8 = 0x08;

/// Domain-separation constant for the message phase of the keyed MAC.
pub const DOM_MSG: u8 = 0x10;

} // verus!
