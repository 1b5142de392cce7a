//! The sponge state engine: absorb and squeeze over the permutation.
//!
//! The state is a fixed-width byte buffer split into a rate region (the
//! first `RATE_BYTES` bytes, the only bytes absorb and squeeze touch) and a
//! capacity region (the rest, never exposed to callers). Absorbing XORs
//! input into the rate and permutes, so the rate never retains raw input;
//! squeezing reads the rate and permutes before any further output. Each
//! absorption phase first folds a distinct domain-separation constant into
//! the final capacity byte, so byte-identical data absorbed in different
//! phases can never drive the state through the same sequence of values.

use vstd::prelude::*;
use vstd::pervasive::VecAdditionalExecFns;
use crate::params::{STATE_BYTES, PAD_BYTE};
use crate::permutation::{spec_permute, permute, lemma_permute_len};

verus! {

broadcast use lemma_permute_len;

/// The all-zero state every operation starts from.
pub open spec fn zero_state() -> Seq<u8> {
    Seq::new(STATE_BYTES as nat, |i: int| 0u8)
}

/// A domain-separation constant folded into the last capacity byte.
pub open spec fn spec_xor_domain(s: Seq<u8>, d: u8) -> Seq<u8>
    recommends
        s.len() == STATE_BYTES,
{
    s.update(STATE_BYTES as int - 1, s[STATE_BYTES as int - 1] ^ d)
}

/// Absorbing one rate-sized block: XOR into the rate, then permute.
pub open spec fn spec_absorb_byte(s: Seq<u8>, b: u8) -> Seq<u8>
    recommends
        s.len() == STATE_BYTES,
{
    spec_permute(s.update(0, s[0] ^ b))
}

/// Absorbing a byte string block by block.
pub open spec fn spec_absorb_bytes(s: Seq<u8>, m: Seq<u8>) -> Seq<u8>
    decreases m.len(),
{
    if m.len() == 0 {
        s
    } else {
        spec_absorb_bytes(spec_absorb_byte(s, m[0]), m.skip(1))
    }
}

/// The padding rule: a single 1 bit then the fewest 0 bits that complete a
/// rate-sized block. At the byte-wide rate this always appends exactly one
/// block, so no two distinct messages pad to the same block sequence.
pub open spec fn spec_pad(m: Seq<u8>) -> Seq<u8> {
    m.push(PAD_BYTE)
}

/// One full absorption phase: fold in the phase's domain constant, then
/// absorb the padded message.
pub open spec fn spec_absorb_phase(s: Seq<u8>, m: Seq<u8>, d: u8) -> Seq<u8>
    recommends
        s.len() == STATE_BYTES,
{
    spec_absorb_bytes(spec_xor_domain(s, d), spec_pad(m))
}

/// Squeezing `n` output bytes: read the rate, permute, read again.
pub open spec fn spec_squeeze(s: Seq<u8>, n: nat) -> Seq<u8>
    decreases n,
{
    if n == 0 {
        Seq::empty()
    } else {
        seq![s[0]] + spec_squeeze(spec_permute(s), (n - 1) as nat)
    }
}

/// Absorbing a message extended by one byte is absorbing the message and
/// then the byte.
pub proof fn lemma_absorb_bytes_push(s: Seq<u8>, m: Seq<u8>, b: u8)
    ensures
        spec_absorb_bytes(s, m.push(b)) == spec_absorb_byte(spec_absorb_bytes(s, m), b),
    decreases m.len(),
{
    if m.len() == 0 {
        assert(m.push(b)[0] == b);
        assert(m.push(b).skip(1) =~= Seq::<u8>::empty());
        assert(spec_absorb_bytes(s, m) == s);
        assert(spec_absorb_bytes(spec_absorb_byte(s, b), Seq::<u8>::empty())
            == spec_absorb_byte(s, b));
    } else {
        assert(m.push(b)[0] == m[0]);
        assert(m.push(b).skip(1) =~= m.skip(1).push(b));
        lemma_absorb_bytes_push(spec_absorb_byte(s, m[0]), m.skip(1), b);
    }
}

/// Squeezed output has the requested length.
pub proof fn lemma_squeeze_len(s: Seq<u8>, n: nat)
    ensures
        spec_squeeze(s, n).len() == n,
    decreases n,
{
    if n > 0 {
        lemma_squeeze_len(spec_permute(s), (n - 1) as nat);
    }
}

/// One sponge state, created fresh for a single operation and discarded
/// when the operation ends.
pub struct Sponge {
    state: Vec<u8>,
}

impl View for Sponge {
    type V = Seq<u8>;

    closed spec fn view(&self) -> Seq<u8> {
        self.state@
    }
}

impl Sponge {
    /// The state always keeps the fixed width of the permutation.
    pub open spec fn wf(&self) -> bool {
        self@.len() == STATE_BYTES
    }

    /// A fresh, all-zero state.
    pub fn new() -> (s: Sponge)
        ensures
            s.wf(),
            s@ == zero_state(),
    {
        let mut v: Vec<u8> = Vec::new();
        let mut i: usize = 0;
        while i < STATE_BYTES
            invariant
                v@.len() == i,
                i <= STATE_BYTES,
                forall|k: int| 0 <= k < i ==> v@[k] == 0u8,
            decreases STATE_BYTES - i,
        {
            v.push(0u8);
            i += 1;
        }
        proof {
            assert(v@ =~= zero_state());
        }
        Sponge { state: v }
    }

    /// Folds a phase's domain-separation constant into the state.
    pub fn xor_domain(&mut self, d: u8)
        requires
            old(self).wf(),
        ensures
            final(self).wf(),
            final(self)@ == spec_xor_domain(old(self)@, d),
    {
        let v = self.state[STATE_BYTES - 1] ^ d;
        self.state.set(STATE_BYTES - 1, v);
    }

    /// Runs the permutation over the state.
    pub fn permute(&mut self)
        requires
            old(self).wf(),
        ensures
            final(self).wf(),
            final(self)@ == spec_permute(old(self)@),
    {
        permute(&mut self.state);
    }

    /// Absorbs one rate-sized block.
    pub fn absorb_byte(&mut self, b: u8)
        requires
            old(self).wf(),
        ensures
            final(self).wf(),
            final(self)@ == spec_absorb_byte(old(self)@, b),
    {
        let v = self.state[0] ^ b;
        self.state.set(0, v);
        permute(&mut self.state);
    }

    /// Absorbs a byte string block by block, without padding.
    pub fn absorb_bytes(&mut self, m: &[u8])
        requires
            old(self).wf(),
        ensures
            final(self).wf(),
            final(self)@ == spec_absorb_bytes(old(self)@, m@),
    {
        let ghost s0 = self@;
        proof {
            assert(m@.skip(0) =~= m@);
        }
        let mut i: usize = 0;
        while i < m.len()
            invariant
                self.wf(),
                i <= m@.len(),
                spec_absorb_bytes(s0, m@) == spec_absorb_bytes(self@, m@.skip(i as int)),
            decreases m@.len() - i,
        {
            proof {
                assert(m@.skip(i as int)[0] == m@[i as int]);
                assert(m@.skip(i as int).skip(1) =~= m@.skip(i as int + 1));
            }
            self.absorb_byte(m[i]);
            i += 1;
        }
        proof {
            assert(m@.skip(m@.len() as int) =~= Seq::<u8>::empty());
        }
    }

    /// One full absorption phase: domain constant, message, padding.
    pub fn absorb_phase(&mut self, m: &[u8], d: u8)
        requires
            old(self).wf(),
        ensures
            final(self).wf(),
            final(self)@ == spec_absorb_phase(old(self)@, m@, d),
    {
        self.xor_domain(d);
        let ghost s1 = self@;
        self.absorb_bytes(m);
        self.absorb_byte(PAD_BYTE);
        proof {
            lemma_absorb_bytes_push(s1, m@, PAD_BYTE);
        }
    }

    /// The rate byte the next squeeze would emit.
    pub fn rate_byte(&self) -> (b: u8)
        requires
            self.wf(),
        ensures
            b == self@[0],
    {
        self.state[0]
    }

    /// Squeezes `n` output bytes, permuting between reads.
    pub fn squeeze(&mut self, n: usize) -> (out: Vec<u8>)
        requires
            old(self).wf(),
        ensures
            final(self).wf(),
            out@ == spec_squeeze(old(self)@, n as nat),
            out@.len() == n,
    {
        let ghost s0 = self@;
        let mut out: Vec<u8> = Vec::new();
        let mut i: usize = 0;
        while i < n
            invariant
                self.wf(),
                i <= n,
                out@.len() == i,
                spec_squeeze(s0, n as nat) == out@ + spec_squeeze(self@, (n - i) as nat),
            decreases n - i,
        {
            let ghost o0 = out@;
            let ghost cur = self@;
            out.push(self.rate_byte());
            self.permute();
            proof {
                assert(spec_squeeze(cur, (n - i) as nat) == seq![cur[0]] + spec_squeeze(
                    spec_permute(cur),
                    (n - i - 1) as nat,
                ));
                assert(o0 + (seq![cur[0]] + spec_squeeze(spec_permute(cur), (n - i - 1) as nat))
                    =~= (o0 + seq![cur[0]]) + spec_squeeze(spec_permute(cur), (n - i - 1) as nat));
                assert(out@ =~= o0 + seq![cur[0]]);
            }
            i += 1;
        }
        proof {
            assert(out@ + spec_squeeze(self@, 0) =~= out@);
        }
        out
    }
}

} // verus!
