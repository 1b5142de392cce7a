//! Authenticated encryption, authenticated decryption, and the keyed MAC.
//!
//! Each operation creates one fresh sponge state, drives it through the
//! phase order key, associated data, body (wrap/unwrap only), finalization,
//! and discards it. The construction is nonce-less and deterministic:
//! identical inputs always give identical outputs, and uniqueness of
//! (key, AAD, plaintext) tuples is the caller's responsibility.

use vstd::prelude::*;
use vstd::slice::SliceAdditionalExecFns;
use crate::params::{STATE_BYTES, KEY_BYTES, TAG_BYTES, PAD_BYTE, DOM_KEY, DOM_AAD, DOM_BODY,
    DOM_FIN, DOM_MSG};
use crate::sponge::{Sponge, zero_state, spec_xor_domain, spec_absorb_byte, spec_absorb_bytes,
    spec_pad, spec_absorb_phase, spec_squeeze, lemma_absorb_bytes_push, lemma_squeeze_len};
use crate::result::SpongentResult;

verus! {

/// The state after the key and associated-data phases, with the body
/// phase's domain constant already folded in.
pub open spec fn spec_body_start(key: Seq<u8>, aad: Seq<u8>) -> Seq<u8> {
    spec_xor_domain(
        spec_absorb_phase(spec_absorb_phase(zero_state(), key, DOM_KEY), aad, DOM_AAD),
        DOM_BODY,
    )
}

/// Duplex encryption from state `s`: each plaintext byte is XORed with the
/// current rate byte to give the ciphertext byte, and the plaintext byte —
/// not the ciphertext byte — is then absorbed, so the tag authenticates
/// the actual message content.
pub open spec fn spec_encrypt(s: Seq<u8>, pt: Seq<u8>) -> Seq<u8>
    decreases pt.len(),
{
    if pt.len() == 0 {
        Seq::empty()
    } else {
        seq![pt[0] ^ s[0]] + spec_encrypt(spec_absorb_byte(s, pt[0]), pt.skip(1))
    }
}

/// Duplex decryption from state `s`: each ciphertext byte is XORed with
/// the current rate byte to recover the plaintext byte, and the recovered
/// plaintext byte is absorbed, mirroring encryption exactly.
pub open spec fn spec_decrypt(s: Seq<u8>, ct: Seq<u8>) -> Seq<u8>
    decreases ct.len(),
{
    if ct.len() == 0 {
        Seq::empty()
    } else {
        seq![ct[0] ^ s[0]] + spec_decrypt(spec_absorb_byte(s, ct[0] ^ s[0]), ct.skip(1))
    }
}

/// Tag finalization from a post-body state: fold in the finalization
/// constant, permute, and squeeze the tag.
pub open spec fn spec_tag_from(s: Seq<u8>) -> Seq<u8> {
    spec_squeeze(crate::permutation::spec_permute(spec_xor_domain(s, DOM_FIN)), TAG_BYTES as nat)
}

/// The ciphertext `spongent_wrap` produces for the given inputs.
pub open spec fn spec_ciphertext(key: Seq<u8>, aad: Seq<u8>, pt: Seq<u8>) -> Seq<u8> {
    spec_encrypt(spec_body_start(key, aad), pt)
}

/// The plaintext `spongent_unwrap` recovers from the given ciphertext.
pub open spec fn spec_plaintext(key: Seq<u8>, aad: Seq<u8>, ct: Seq<u8>) -> Seq<u8> {
    spec_decrypt(spec_body_start(key, aad), ct)
}

/// The authentication tag `spongent_wrap` produces for the given inputs.
pub open spec fn spec_wrap_tag(key: Seq<u8>, aad: Seq<u8>, pt: Seq<u8>) -> Seq<u8> {
    spec_tag_from(spec_absorb_bytes(spec_body_start(key, aad), spec_pad(pt)))
}

/// The tag `spongent_mac` produces for the given key and message.
pub open spec fn spec_mac_tag(key: Seq<u8>, msg: Seq<u8>) -> Seq<u8> {
    spec_tag_from(spec_absorb_phase(spec_absorb_phase(zero_state(), key, DOM_KEY), msg, DOM_MSG))
}

/// An all-zero byte string, the only plaintext ever visible after a
/// failed tag check.
pub open spec fn zero_bytes(n: nat) -> Seq<u8> {
    Seq::new(n, |i: int| 0u8)
}

/// Encryption never changes the length: one ciphertext byte per
/// plaintext byte.
pub proof fn lemma_encrypt_len(s: Seq<u8>, pt: Seq<u8>)
    ensures
        spec_encrypt(s, pt).len() == pt.len(),
    decreases pt.len(),
{
    if pt.len() > 0 {
        lemma_encrypt_len(spec_absorb_byte(s, pt[0]), pt.skip(1));
    }
}

/// Decryption never changes the length: one plaintext byte per
/// ciphertext byte.
pub proof fn lemma_decrypt_len(s: Seq<u8>, ct: Seq<u8>)
    ensures
        spec_decrypt(s, ct).len() == ct.len(),
    decreases ct.len(),
{
    if ct.len() > 0 {
        lemma_decrypt_len(spec_absorb_byte(s, ct[0] ^ s[0]), ct.skip(1));
    }
}

proof fn lemma_xor_cancel(a: u8, b: u8)
    ensures
        (a ^ b) ^ b == a,
{
    assert((a ^ b) ^ b == a) by (bit_vector);
}

/// Decrypting what was encrypted from the same state recovers the
/// plaintext, and drives the state through the same sequence of values.
proof fn lemma_decrypt_encrypt(s: Seq<u8>, pt: Seq<u8>)
    ensures
        spec_decrypt(s, spec_encrypt(s, pt)) == pt,
    decreases pt.len(),
{
    let ct = spec_encrypt(s, pt);
    if pt.len() == 0 {
        assert(spec_decrypt(s, ct) =~= pt);
    } else {
        lemma_xor_cancel(pt[0], s[0]);
        assert(ct[0] == pt[0] ^ s[0]);
        assert(ct.skip(1) =~= spec_encrypt(spec_absorb_byte(s, pt[0]), pt.skip(1)));
        lemma_decrypt_encrypt(spec_absorb_byte(s, pt[0]), pt.skip(1));
        assert(spec_decrypt(s, ct) =~= pt);
    }
}

/// Round trip: for every key, associated data and plaintext, unwrapping
/// the wrap of a message under the same key and associated data recovers
/// the message, and the tag recomputed during unwrap equals the tag wrap
/// produced — so, by the contract of `spongent_unwrap`, the round trip
/// returns `Success` and the original plaintext.
pub proof fn lemma_round_trip(key: Seq<u8>, aad: Seq<u8>, pt: Seq<u8>)
    ensures
        spec_plaintext(key, aad, spec_ciphertext(key, aad, pt)) == pt,
        spec_wrap_tag(key, aad, spec_plaintext(key, aad, spec_ciphertext(key, aad, pt)))
            == spec_wrap_tag(key, aad, pt),
{
    lemma_decrypt_encrypt(spec_body_start(key, aad), pt);
}

/// Length preservation for tags: wrap and mac tags always have exactly
/// the configured tag length — in particular, never length zero.
pub proof fn lemma_tag_len(key: Seq<u8>, aad: Seq<u8>, pt: Seq<u8>, msg: Seq<u8>)
    ensures
        spec_wrap_tag(key, aad, pt).len() == TAG_BYTES,
        spec_mac_tag(key, msg).len() == TAG_BYTES,
{
    lemma_squeeze_len(
        crate::permutation::spec_permute(
            spec_xor_domain(
                spec_absorb_bytes(spec_body_start(key, aad), spec_pad(pt)),
                DOM_FIN,
            ),
        ),
        TAG_BYTES as nat,
    );
    lemma_squeeze_len(
        crate::permutation::spec_permute(
            spec_xor_domain(
                spec_absorb_phase(spec_absorb_phase(zero_state(), key, DOM_KEY), msg, DOM_MSG),
                DOM_FIN,
            ),
        ),
        TAG_BYTES as nat,
    );
}

/// Tamper detection for the tag: any tag other than the genuine one is
/// rejected when presented with the genuine ciphertext, since the tag
/// unwrap recomputes is exactly the tag wrap produced. (Rejection of a
/// tampered ciphertext or associated data rests on the permutation's
/// cryptographic strength and cannot follow from these definitions alone;
/// it is exercised by the test suite.)
pub proof fn lemma_forged_tag_rejected(key: Seq<u8>, aad: Seq<u8>, pt: Seq<u8>, t: Seq<u8>)
    requires
        t != spec_wrap_tag(key, aad, pt),
    ensures
        t != spec_wrap_tag(key, aad, spec_plaintext(key, aad, spec_ciphertext(key, aad, pt))),
{
    lemma_round_trip(key, aad, pt);
}

/// Runs the duplex body phase of wrap: produces the ciphertext and leaves
/// the state as if the plaintext itself had been absorbed.
fn duplex_encrypt(s: &mut Sponge, pt: &[u8]) -> (ct: Vec<u8>)
    requires
        old(s).wf(),
    ensures
        final(s).wf(),
        ct@ == spec_encrypt(old(s)@, pt@),
        final(s)@ == spec_absorb_bytes(old(s)@, pt@),
        ct@.len() == pt@.len(),
{
    let ghost s0 = s@;
    proof {
        assert(pt@.skip(0) =~= pt@);
    }
    let mut ct: Vec<u8> = Vec::new();
    let mut i: usize = 0;
    while i < pt.len()
        invariant
            s.wf(),
            i <= pt@.len(),
            ct@.len() == i,
            spec_encrypt(s0, pt@) == ct@ + spec_encrypt(s@, pt@.skip(i as int)),
            spec_absorb_bytes(s0, pt@) == spec_absorb_bytes(s@, pt@.skip(i as int)),
        decreases pt@.len() - i,
    {
        let ghost c0 = ct@;
        let ghost cur = s@;
        let ghost rest = pt@.skip(i as int);
        let p = pt[i];
        let ks = s.rate_byte();
        ct.push(p ^ ks);
        s.absorb_byte(p);
        proof {
            assert(rest[0] == pt@[i as int]);
            assert(rest.skip(1) =~= pt@.skip(i as int + 1));
            assert(spec_encrypt(cur, rest) == seq![rest[0] ^ cur[0]] + spec_encrypt(
                spec_absorb_byte(cur, rest[0]),
                rest.skip(1),
            ));
            assert(ct@ =~= c0 + seq![rest[0] ^ cur[0]]);
            assert(c0 + (seq![rest[0] ^ cur[0]] + spec_encrypt(s@, rest.skip(1)))
                =~= ct@ + spec_encrypt(s@, rest.skip(1)));
        }
        i += 1;
    }
    proof {
        assert(pt@.skip(pt@.len() as int) =~= Seq::<u8>::empty());
        assert(ct@ + spec_encrypt(s@, Seq::<u8>::empty()) =~= ct@);
    }
    ct
}

/// Runs the duplex body phase of unwrap: recovers the plaintext and
/// leaves the state as if that recovered plaintext had been absorbed,
/// exactly as the wrapping side left it.
fn duplex_decrypt(s: &mut Sponge, ct: &[u8]) -> (pt: Vec<u8>)
    requires
        old(s).wf(),
    ensures
        final(s).wf(),
        pt@ == spec_decrypt(old(s)@, ct@),
        final(s)@ == spec_absorb_bytes(old(s)@, pt@),
        pt@.len() == ct@.len(),
{
    let ghost s0 = s@;
    proof {
        assert(ct@.skip(0) =~= ct@);
        assert(spec_absorb_bytes(s0, Seq::<u8>::empty()) == s0);
    }
    let mut pt: Vec<u8> = Vec::new();
    let mut i: usize = 0;
    while i < ct.len()
        invariant
            s.wf(),
            i <= ct@.len(),
            pt@.len() == i,
            spec_decrypt(s0, ct@) == pt@ + spec_decrypt(s@, ct@.skip(i as int)),
            s@ == spec_absorb_bytes(s0, pt@),
        decreases ct@.len() - i,
    {
        let ghost p0 = pt@;
        let ghost cur = s@;
        let ghost rest = ct@.skip(i as int);
        let c = ct[i];
        let ks = s.rate_byte();
        let p = c ^ ks;
        pt.push(p);
        s.absorb_byte(p);
        proof {
            assert(rest[0] == ct@[i as int]);
            assert(rest.skip(1) =~= ct@.skip(i as int + 1));
            assert(spec_decrypt(cur, rest) == seq![rest[0] ^ cur[0]] + spec_decrypt(
                spec_absorb_byte(cur, rest[0] ^ cur[0]),
                rest.skip(1),
            ));
            assert(pt@ =~= p0 + seq![rest[0] ^ cur[0]]);
            assert(p0 + (seq![rest[0] ^ cur[0]] + spec_decrypt(s@, rest.skip(1)))
                =~= pt@ + spec_decrypt(s@, rest.skip(1)));
            lemma_absorb_bytes_push(s0, p0, p);
            assert(pt@ =~= p0.push(p));
        }
        i += 1;
    }
    proof {
        assert(ct@.skip(ct@.len() as int) =~= Seq::<u8>::empty());
        assert(pt@ + spec_decrypt(s@, Seq::<u8>::empty()) =~= pt@);
    }
    pt
}

/// Constant-time, fixed-length comparison: the difference is accumulated
/// across every byte and tested once at the end, so the running time does
/// not depend on which byte differs.
fn constant_time_eq(a: &[u8], b: &Vec<u8>) -> (r: bool)
    requires
        a@.len() == b@.len(),
    ensures
        r <==> a@ == b@,
{
    let mut diff: u8 = 0;
    let mut i: usize = 0;
    while i < a.len()
        invariant
            a@.len() == b@.len(),
            i <= a@.len(),
            (diff == 0) <==> (forall|k: int| 0 <= k < i ==> a@[k] == b@[k]),
        decreases a@.len() - i,
    {
        let ghost d0 = diff;
        let x = a[i];
        let y = b[i];
        diff = diff | (x ^ y);
        proof {
            assert(((d0 | (x ^ y)) == 0) <==> (d0 == 0 && x == y)) by (bit_vector);
        }
        i += 1;
    }
    proof {
        if forall|k: int| 0 <= k < a@.len() ==> a@[k] == b@[k] {
            assert(a@ =~= b@);
        }
    }
    diff == 0
}

/// Fills the tail phases shared by wrap and unwrap after the body: absorb
/// the body padding byte, fold in the finalization constant, permute, and
/// squeeze the tag.
fn finalize_tag(s: &mut Sponge) -> (tag: Vec<u8>)
    requires
        old(s).wf(),
    ensures
        final(s).wf(),
        tag@ == spec_tag_from(spec_absorb_byte(old(s)@, PAD_BYTE)),
        tag@.len() == TAG_BYTES,
{
    s.absorb_byte(PAD_BYTE);
    s.xor_domain(DOM_FIN);
    s.permute();
    s.squeeze(TAG_BYTES)
}

/// Copies the computed output into the caller-owned buffer, byte by byte.
fn fill_from(dst: &mut [u8], src: &Vec<u8>)
    requires
        old(dst)@.len() == src@.len(),
    ensures
        final(dst)@ == src@,
{
    let mut i: usize = 0;
    while i < src.len()
        invariant
            dst@.len() == src@.len(),
            i <= src@.len(),
            forall|k: int| 0 <= k < i ==> dst@[k] == src@[k],
        decreases src@.len() - i,
    {
        dst.set(i, src[i]);
        i += 1;
    }
    proof {
        assert(dst@ =~= src@);
    }
}

/// Zeroes the caller-owned buffer, so that a rejected unwrap can never
/// leave partially decrypted plaintext behind.
fn fill_zero(dst: &mut [u8])
    ensures
        final(dst)@ == zero_bytes(old(dst)@.len()),
{
    let mut i: usize = 0;
    let n = dst.len();
    while i < n
        invariant
            dst@.len() == n,
            i <= n,
            forall|k: int| 0 <= k < i ==> dst@[k] == 0u8,
        decreases n - i,
    {
        dst.set(i, 0u8);
        i += 1;
    }
    proof {
        assert(dst@ =~= zero_bytes(dst@.len()));
    }
}

/// Authenticated encryption.
///
/// Encrypts `buf` under `key`, authenticating both `aad` and the
/// plaintext, writing the ciphertext over `cipher` and the tag over `tag`.
/// Succeeds exactly when `key` has the fixed key length, `cipher` has the
/// length of `buf`, and `tag` has the fixed tag length; on any failure the
/// output buffers are left untouched and no cryptographic work is done.
/// The outputs are a function of (key, aad, buf) alone: wrap is
/// deterministic by design, and the ciphertext always has the plaintext's
/// length.
pub fn spongent_wrap(key: &[u8], aad: &[u8], buf: &[u8], cipher: &mut [u8], tag: &mut [u8])
    -> (res: SpongentResult)
    ensures
        final(cipher)@.len() == old(cipher)@.len(),
        final(tag)@.len() == old(tag)@.len(),
        (res == SpongentResult::Success) <==> (key@.len() == KEY_BYTES && old(cipher)@.len()
            == buf@.len() && old(tag)@.len() == TAG_BYTES),
        res == SpongentResult::Success ==> final(cipher)@ == spec_ciphertext(key@, aad@, buf@)
            && final(tag)@ == spec_wrap_tag(key@, aad@, buf@),
        res != SpongentResult::Success ==> final(cipher)@ == old(cipher)@ && final(tag)@ == old(
            tag,
        )@,
        key@.len() != KEY_BYTES ==> res == SpongentResult::Fail,
        key@.len() == KEY_BYTES && old(cipher)@.len() != buf@.len() ==> res
            == SpongentResult::Fail,
        key@.len() == KEY_BYTES && old(cipher)@.len() == buf@.len() && old(tag)@.len()
            != TAG_BYTES ==> res == SpongentResult::BadHashBitLen,
{
    if key.len() != KEY_BYTES {
        return SpongentResult::Fail;
    }
    if cipher.len() != buf.len() {
        return SpongentResult::Fail;
    }
    if tag.len() != TAG_BYTES {
        return SpongentResult::BadHashBitLen;
    }
    let mut s = Sponge::new();
    s.absorb_phase(key, DOM_KEY);
    s.absorb_phase(aad, DOM_AAD);
    s.xor_domain(DOM_BODY);
    let ct = duplex_encrypt(&mut s, buf);
    let t = finalize_tag(&mut s);
    proof {
        lemma_absorb_bytes_push(spec_body_start(key@, aad@), buf@, PAD_BYTE);
    }
    fill_from(cipher, &ct);
    fill_from(tag, &t);
    SpongentResult::Success
}

/// Authenticated decryption.
///
/// Recovers the plaintext of `cipher` under `key` and `aad`, recomputes
/// the tag over the recovered plaintext exactly as wrap computes it, and
/// compares it against `tag` with a constant-time, full-length
/// comparison. No plaintext byte reaches `plain` before that comparison
/// succeeds: on a mismatch the result is `BadTag` and `plain` is left
/// fully zeroed. Succeeds exactly when the buffer lengths are right and
/// the supplied tag is the one wrap would have produced for the recovered
/// plaintext; on a length failure `plain` is left untouched.
pub fn spongent_unwrap(key: &[u8], aad: &[u8], cipher: &[u8], plain: &mut [u8], tag: &[u8])
    -> (res: SpongentResult)
    ensures
        final(plain)@.len() == old(plain)@.len(),
        (res == SpongentResult::Success) <==> (key@.len() == KEY_BYTES && old(plain)@.len()
            == cipher@.len() && tag@.len() == TAG_BYTES && tag@ == spec_wrap_tag(
            key@,
            aad@,
            spec_plaintext(key@, aad@, cipher@),
        )),
        res == SpongentResult::Success ==> final(plain)@ == spec_plaintext(key@, aad@, cipher@),
        key@.len() != KEY_BYTES ==> res == SpongentResult::Fail && final(plain)@ == old(plain)@,
        key@.len() == KEY_BYTES && old(plain)@.len() != cipher@.len() ==> res
            == SpongentResult::Fail && final(plain)@ == old(plain)@,
        key@.len() == KEY_BYTES && old(plain)@.len() == cipher@.len() && tag@.len() != TAG_BYTES
            ==> res == SpongentResult::BadHashBitLen && final(plain)@ == old(plain)@,
        key@.len() == KEY_BYTES && old(plain)@.len() == cipher@.len() && tag@.len() == TAG_BYTES
            && tag@ != spec_wrap_tag(key@, aad@, spec_plaintext(key@, aad@, cipher@)) ==> res
            == SpongentResult::BadTag && final(plain)@ == zero_bytes(cipher@.len()),
{
    if key.len() != KEY_BYTES {
        return SpongentResult::Fail;
    }
    if plain.len() != cipher.len() {
        return SpongentResult::Fail;
    }
    if tag.len() != TAG_BYTES {
        return SpongentResult::BadHashBitLen;
    }
    let mut s = Sponge::new();
    s.absorb_phase(key, DOM_KEY);
    s.absorb_phase(aad, DOM_AAD);
    s.xor_domain(DOM_BODY);
    let pt = duplex_decrypt(&mut s, cipher);
    let expected = finalize_tag(&mut s);
    proof {
        lemma_absorb_bytes_push(
            spec_body_start(key@, aad@),
            spec_plaintext(key@, aad@, cipher@),
            PAD_BYTE,
        );
    }
    if constant_time_eq(tag, &expected) {
        fill_from(plain, &pt);
        SpongentResult::Success
    } else {
        fill_zero(plain);
        SpongentResult::BadTag
    }
}

/// Keyed message authentication.
///
/// Produces a tag over `key` and `buf` alone: initialize with the key,
/// absorb the padded message under the message-phase domain constant,
/// finalize, squeeze. Succeeds exactly when `key` has the fixed key
/// length and `tag` has the fixed tag length; on failure `tag` is left
/// untouched. The tag is a function of (key, buf) alone: identical inputs
/// always give the identical tag.
pub fn spongent_mac(key: &[u8], buf: &[u8], tag: &mut [u8]) -> (res: SpongentResult)
    ensures
        final(tag)@.len() == old(tag)@.len(),
        (res == SpongentResult::Success) <==> (key@.len() == KEY_BYTES && old(tag)@.len()
            == TAG_BYTES),
        res == SpongentResult::Success ==> final(tag)@ == spec_mac_tag(key@, buf@),
        res != SpongentResult::Success ==> final(tag)@ == old(tag)@,
        key@.len() != KEY_BYTES ==> res == SpongentResult::Fail,
        key@.len() == KEY_BYTES && old(tag)@.len() != TAG_BYTES ==> res
            == SpongentResult::BadHashBitLen,
{
    if key.len() != KEY_BYTES {
        return SpongentResult::Fail;
    }
    if tag.len() != TAG_BYTES {
        return SpongentResult::BadHashBitLen;
    }
    let mut s = Sponge::new();
    s.absorb_phase(key, DOM_KEY);
    s.absorb_phase(buf, DOM_MSG);
    s.xor_domain(DOM_FIN);
    s.permute();
    let t = s.squeeze(TAG_BYTES);
    fill_from(tag, &t);
    SpongentResult::Success
}

} // verus!
