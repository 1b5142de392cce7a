//! The fixed-width cryptographic permutation.
//!
//! The permutation iterates a fixed number of rounds over a 136-bit state.
//! Each round applies, in order,
//! 1. round-constant injection: a 7-bit counter value is XORed into the
//!    first state byte and its bit-reversal into the last state byte, so no
//!    round acts as the identity on a symmetric state;
//! 2. a substitution layer: one fixed, invertible 4-bit S-box applied to
//!    every nibble of the state (confusion);
//! 3. a bit-transposition layer: bit `j` of the state moves to position
//!    `34 * j mod 135` (position 135 is fixed), spreading the influence of
//!    every bit across the width within a few rounds (diffusion).
//!
//! Each layer is a bijection on the state, so the whole permutation is one.
//! All tables and wirings are fixed: the permutation is a pure function of
//! its input, branches on no secret data, and costs the same on every call.

use vstd::prelude::*;
use vstd::pervasive::VecAdditionalExecFns;
use crate::params::STATE_BYTES;

verus! {

/// Number of rounds of the permutation.
pub const ROUNDS: usize = 70;

/// Initial value of the 7-bit round-constant generator.
pub const LFSR_INIT: u8 = 0x7a;

/// The 4-bit substitution table, an invertible map on 0..16.
pub closed spec fn spec_sbox_nibble(x: u8) -> u8 {
    match x {
        0x0 => 0xe,
        0x1 => 0xd,
        0x2 => 0xb,
        0x3 => 0x0,
        0x4 => 0x2,
        0x5 => 0x1,
        0x6 => 0x4,
        0x7 => 0xf,
        0x8 => 0x7,
        0x9 => 0xa,
        0xa => 0x8,
        0xb => 0x5,
        0xc => 0x9,
        0xd => 0xc,
        0xe => 0x3,
        _ => 0x6,
    }
}

fn sbox_nibble(x: u8) -> (r: u8)
    requires
        x < 16,
    ensures
        r == spec_sbox_nibble(x),
{
    match x {
        0x0 => 0xe,
        0x1 => 0xd,
        0x2 => 0xb,
        0x3 => 0x0,
        0x4 => 0x2,
        0x5 => 0x1,
        0x6 => 0x4,
        0x7 => 0xf,
        0x8 => 0x7,
        0x9 => 0xa,
        0xa => 0x8,
        0xb => 0x5,
        0xc => 0x9,
        0xd => 0xc,
        0xe => 0x3,
        _ => 0x6,
    }
}

/// The substitution layer on one byte: the S-box on each of its nibbles.
pub closed spec fn spec_sbox_byte(b: u8) -> u8 {
    (spec_sbox_nibble(b >> 4) << 4) | spec_sbox_nibble(b & 0xf)
}

fn sbox_byte(b: u8) -> (r: u8)
    ensures
        r == spec_sbox_byte(b),
{
    proof {
        assert(b >> 4 < 16 && b & 0xf < 16) by (bit_vector);
    }
    (sbox_nibble(b >> 4) << 4) | sbox_nibble(b & 0xf)
}

/// Bit-reversal of a byte, used to inject the round constant at the far
/// end of the state with a distinct alignment.
pub closed spec fn spec_rev_byte(x: u8) -> u8 {
    ((x & 0x01) << 7) | ((x & 0x02) << 5) | ((x & 0x04) << 3) | ((x & 0x08) << 1)
        | ((x & 0x10) >> 1) | ((x & 0x20) >> 3) | ((x & 0x40) >> 5) | ((x & 0x80) >> 7)
}

fn rev_byte(x: u8) -> (r: u8)
    ensures
        r == spec_rev_byte(x),
{
    ((x & 0x01) << 7) | ((x & 0x02) << 5) | ((x & 0x04) << 3) | ((x & 0x08) << 1)
        | ((x & 0x10) >> 1) | ((x & 0x20) >> 3) | ((x & 0x40) >> 5) | ((x & 0x80) >> 7)
}

/// One step of the 7-bit round-constant generator, a maximal-length linear
/// feedback shift register with feedback taps at bits 6 and 5.
pub closed spec fn spec_lfsr_next(l: u8) -> u8 {
    ((l << 1) | (((l >> 6) ^ (l >> 5)) & 1)) & 0x7f
}

fn lfsr_next(l: u8) -> (r: u8)
    ensures
        r == spec_lfsr_next(l),
{
    ((l << 1) | (((l >> 6) ^ (l >> 5)) & 1)) & 0x7f
}

/// Round-constant injection: XOR the counter into the first byte of the
/// state and its bit-reversal into the last byte.
pub closed spec fn spec_inject(s: Seq<u8>, l: u8) -> Seq<u8> {
    let t = s.update(0, s[0] ^ l);
    t.update(STATE_BYTES as int - 1, t[STATE_BYTES as int - 1] ^ spec_rev_byte(l))
}

fn inject(st: &mut Vec<u8>, l: u8)
    requires
        old(st)@.len() == STATE_BYTES,
    ensures
        final(st)@ == spec_inject(old(st)@, l),
{
    let v0 = st[0] ^ l;
    st.set(0, v0);
    let r = rev_byte(l);
    let vl = st[STATE_BYTES - 1] ^ r;
    st.set(STATE_BYTES - 1, vl);
}

/// The substitution layer over the whole state.
pub closed spec fn spec_sbox_layer(s: Seq<u8>) -> Seq<u8> {
    Seq::new(s.len(), |i: int| spec_sbox_byte(s[i]))
}

fn sbox_layer(st: &mut Vec<u8>)
    requires
        old(st)@.len() == STATE_BYTES,
    ensures
        final(st)@ == spec_sbox_layer(old(st)@),
{
    let ghost s0 = st@;
    let mut i: usize = 0;
    while i < STATE_BYTES
        invariant
            st@.len() == STATE_BYTES,
            s0.len() == STATE_BYTES,
            i <= STATE_BYTES,
            forall|k: int| 0 <= k < i ==> st@[k] == spec_sbox_byte(s0[k]),
            forall|k: int| i <= k < STATE_BYTES ==> st@[k] == s0[k],
        decreases STATE_BYTES - i,
    {
        let v = sbox_byte(st[i]);
        st.set(i, v);
        i += 1;
    }
    proof {
        assert(st@ =~= spec_sbox_layer(s0));
    }
}

/// Source bit position feeding output bit `q` of the transposition layer.
///
/// The layer sends input bit `j` to output bit `34 * j mod 135` (bit 135 is
/// fixed); since `34 * 4 == 136 == 1 mod 135`, output bit `q` reads input
/// bit `4 * q mod 135`.
pub closed spec fn spec_src_bit(q: int) -> int {
    if q == 135 {
        135
    } else {
        (4 * q) % 135
    }
}

/// The value (0 or 1) of bit `j` of the state, bits numbered little-endian
/// within each byte.
pub closed spec fn spec_bit_at(s: Seq<u8>, j: int) -> u8 {
    (s[j / 8] >> ((j % 8) as u8)) & 1
}

/// Output bit `q` of the transposition layer applied to state `s`.
pub closed spec fn spec_out_bit(s: Seq<u8>, q: int) -> u8 {
    spec_bit_at(s, spec_src_bit(q))
}

fn out_bit(st: &Vec<u8>, q: usize) -> (r: u8)
    requires
        st@.len() == STATE_BYTES,
        q < 8 * STATE_BYTES,
    ensures
        r == spec_out_bit(st@, q as int),
{
    let j: usize = if q == 135 {
        135
    } else {
        (4 * q) % 135
    };
    assert(j == spec_src_bit(q as int));
    let byte = st[j / 8];
    let sh = (j % 8) as u8;
    (byte >> sh) & 1
}

/// One output byte of the transposition layer: its eight bits gathered
/// from their source positions.
pub closed spec fn spec_perm_byte(s: Seq<u8>, i: int) -> u8 {
    spec_out_bit(s, 8 * i) | (spec_out_bit(s, 8 * i + 1) << 1) | (spec_out_bit(s, 8 * i + 2) << 2)
        | (spec_out_bit(s, 8 * i + 3) << 3) | (spec_out_bit(s, 8 * i + 4) << 4)
        | (spec_out_bit(s, 8 * i + 5) << 5) | (spec_out_bit(s, 8 * i + 6) << 6)
        | (spec_out_bit(s, 8 * i + 7) << 7)
}

/// The bit-transposition layer over the whole state.
pub closed spec fn spec_perm_layer(s: Seq<u8>) -> Seq<u8> {
    Seq::new(STATE_BYTES as nat, |i: int| spec_perm_byte(s, i))
}

fn perm_layer(st: &Vec<u8>) -> (out: Vec<u8>)
    requires
        st@.len() == STATE_BYTES,
    ensures
        out@ == spec_perm_layer(st@),
{
    let mut out: Vec<u8> = Vec::new();
    let mut i: usize = 0;
    while i < STATE_BYTES
        invariant
            st@.len() == STATE_BYTES,
            i <= STATE_BYTES,
            out@.len() == i,
            forall|k: int| 0 <= k < i ==> out@[k] == spec_perm_byte(st@, k),
        decreases STATE_BYTES - i,
    {
        let b = out_bit(st, 8 * i) | (out_bit(st, 8 * i + 1) << 1) | (out_bit(st, 8 * i + 2) << 2)
            | (out_bit(st, 8 * i + 3) << 3) | (out_bit(st, 8 * i + 4) << 4)
            | (out_bit(st, 8 * i + 5) << 5) | (out_bit(st, 8 * i + 6) << 6)
            | (out_bit(st, 8 * i + 7) << 7);
        out.push(b);
        i += 1;
    }
    proof {
        assert(out@ =~= spec_perm_layer(st@));
    }
    out
}

/// One round: constant injection, substitution, transposition.
pub closed spec fn spec_round(s: Seq<u8>, l: u8) -> Seq<u8> {
    spec_perm_layer(spec_sbox_layer(spec_inject(s, l)))
}

fn round(st: &mut Vec<u8>, l: u8)
    requires
        old(st)@.len() == STATE_BYTES,
    ensures
        final(st)@.len() == STATE_BYTES,
        final(st)@ == spec_round(old(st)@, l),
{
    inject(st, l);
    sbox_layer(st);
    let p = perm_layer(st);
    *st = p;
}

/// The state after `n` further rounds starting from counter value `l`.
pub closed spec fn spec_rounds(s: Seq<u8>, l: u8, n: nat) -> Seq<u8>
    decreases n,
{
    if n == 0 {
        s
    } else {
        spec_rounds(spec_round(s, l), spec_lfsr_next(l), (n - 1) as nat)
    }
}

/// The full permutation: `ROUNDS` rounds from the initial counter value.
pub closed spec fn spec_permute(s: Seq<u8>) -> Seq<u8> {
    spec_rounds(s, LFSR_INIT, ROUNDS as nat)
}

/// The permutation always yields a state of the fixed width.
pub broadcast proof fn lemma_permute_len(s: Seq<u8>)
    ensures
        (#[trigger] spec_permute(s)).len() == STATE_BYTES,
{
    lemma_rounds_len(s, LFSR_INIT, ROUNDS as nat);
}

proof fn lemma_rounds_len(s: Seq<u8>, l: u8, n: nat)
    requires
        n > 0 || s.len() == STATE_BYTES,
    ensures
        spec_rounds(s, l, n).len() == STATE_BYTES,
    decreases n,
{
    if n > 0 {
        lemma_rounds_len(spec_round(s, l), spec_lfsr_next(l), (n - 1) as nat);
    }
}

/// Applies the permutation to the state in place.
pub fn permute(st: &mut Vec<u8>)
    requires
        old(st)@.len() == STATE_BYTES,
    ensures
        final(st)@.len() == STATE_BYTES,
        final(st)@ == spec_permute(old(st)@),
{
    let ghost s0 = st@;
    let mut l: u8 = LFSR_INIT;
    let mut r: usize = 0;
    while r < ROUNDS
        invariant
            st@.len() == STATE_BYTES,
            r <= ROUNDS,
            spec_permute(s0) == spec_rounds(st@, l, (ROUNDS - r) as nat),
        decreases ROUNDS - r,
    {
        round(st, l);
        l = lfsr_next(l);
        r += 1;
    }
}

} // verus!
