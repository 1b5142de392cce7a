use spongent::{spongent_mac, spongent_unwrap, spongent_wrap, SpongentResult};

// The reference scenario: a 16-byte ASCII key, 2-byte associated data and a
// short ASCII phrase survive a wrap/unwrap round trip.
#[test]
fn test() {
    let key = b"16-bytes sec key";
    let plaintext = b"Hello world!";
    let mut cipher = vec![0u8; plaintext.len()];
    let mut plain_dec = vec![0u8; plaintext.len()];
    let mut tag = [0u8; 16];
    let data = [1u8, 2u8];

    let res = spongent_wrap(&key[..], &data, &plaintext[..], &mut cipher[..], &mut tag[..]);
    assert_eq!(res, SpongentResult::Success);

    let res = spongent_unwrap(&key[..], &data, &cipher[..], &mut plain_dec[..], &tag[..]);
    assert_eq!(res, SpongentResult::Success);

    assert_eq!(&plaintext[..], &plain_dec);
}

fn wrap_ok(key: &[u8], aad: &[u8], pt: &[u8]) -> (Vec<u8>, Vec<u8>) {
    let mut cipher = vec![0u8; pt.len()];
    let mut tag = vec![0u8; 16];
    let res = spongent_wrap(key, aad, pt, &mut cipher[..], &mut tag[..]);
    assert_eq!(res, SpongentResult::Success);
    (cipher, tag)
}

#[test]
fn round_trip_various_lengths() {
    let key = b"0123456789abcdef";
    for n in [0usize, 1, 2, 15, 16, 17, 63] {
        let pt: Vec<u8> = (0..n).map(|i| (i * 7 + 3) as u8).collect();
        let aad: Vec<u8> = (0..(n % 5)).map(|i| i as u8).collect();
        let (cipher, tag) = wrap_ok(&key[..], &aad, &pt);
        assert_eq!(cipher.len(), pt.len());
        assert_eq!(tag.len(), 16);
        let mut plain = vec![0u8; cipher.len()];
        let res = spongent_unwrap(&key[..], &aad, &cipher, &mut plain[..], &tag);
        assert_eq!(res, SpongentResult::Success);
        assert_eq!(plain, pt);
    }
}

#[test]
fn tamper_ciphertext_any_bit_rejected() {
    let key = b"16-bytes sec key";
    let aad = [9u8, 8, 7];
    let pt = b"attack at dawn";
    let (cipher, tag) = wrap_ok(&key[..], &aad, &pt[..]);
    for byte in 0..cipher.len() {
        for bit in 0..8 {
            let mut bad = cipher.clone();
            bad[byte] ^= 1 << bit;
            let mut plain = vec![0xaau8; bad.len()];
            let res = spongent_unwrap(&key[..], &aad, &bad, &mut plain[..], &tag);
            assert_eq!(res, SpongentResult::BadTag);
            assert!(plain.iter().all(|&b| b == 0));
        }
    }
}

#[test]
fn tamper_tag_any_bit_rejected() {
    let key = b"16-bytes sec key";
    let aad = [1u8];
    let pt = b"payload";
    let (cipher, tag) = wrap_ok(&key[..], &aad, &pt[..]);
    for byte in 0..tag.len() {
        for bit in 0..8 {
            let mut bad = tag.clone();
            bad[byte] ^= 1 << bit;
            let mut plain = vec![0x55u8; cipher.len()];
            let res = spongent_unwrap(&key[..], &aad, &cipher, &mut plain[..], &bad);
            assert_eq!(res, SpongentResult::BadTag);
            assert!(plain.iter().all(|&b| b == 0));
        }
    }
}

#[test]
fn tamper_aad_any_bit_rejected() {
    let key = b"16-bytes sec key";
    let aad = [0x42u8, 0x99];
    let pt = b"some words";
    let (cipher, tag) = wrap_ok(&key[..], &aad, &pt[..]);
    for byte in 0..aad.len() {
        for bit in 0..8 {
            let mut bad = aad;
            bad[byte] ^= 1 << bit;
            let mut plain = vec![1u8; cipher.len()];
            let res = spongent_unwrap(&key[..], &bad, &cipher, &mut plain[..], &tag);
            assert_eq!(res, SpongentResult::BadTag);
            assert!(plain.iter().all(|&b| b == 0));
        }
    }
}

// The reference scenario's rejection half: flipping a bit of AAD byte 1
// turns Success into BadTag.
#[test]
fn scenario_aad_flip_rejected() {
    let key = b"16-bytes sec key";
    let plaintext = b"Hello world!";
    let data = [1u8, 2u8];
    let (cipher, tag) = wrap_ok(&key[..], &data, &plaintext[..]);
    let bad_data = [1u8 ^ 0x01, 2u8];
    let mut plain = vec![0u8; cipher.len()];
    let res = spongent_unwrap(&key[..], &bad_data, &cipher, &mut plain[..], &tag);
    assert_eq!(res, SpongentResult::BadTag);
    assert!(plain.iter().all(|&b| b == 0));
}

#[test]
fn wrap_and_mac_are_deterministic() {
    let key = b"kkkkkkkkkkkkkkkk";
    let aad = [3u8, 1, 4];
    let pt = b"repeatable";
    let (c1, t1) = wrap_ok(&key[..], &aad, &pt[..]);
    let (c2, t2) = wrap_ok(&key[..], &aad, &pt[..]);
    assert_eq!(c1, c2);
    assert_eq!(t1, t2);

    let mut m1 = vec![0u8; 16];
    let mut m2 = vec![0u8; 16];
    assert_eq!(spongent_mac(&key[..], &pt[..], &mut m1[..]), SpongentResult::Success);
    assert_eq!(spongent_mac(&key[..], &pt[..], &mut m2[..]), SpongentResult::Success);
    assert_eq!(m1, m2);
}

#[test]
fn keystream_actually_encrypts() {
    let key = b"16-bytes sec key";
    let pt = b"not left in the clear";
    let (cipher, _) = wrap_ok(&key[..], &[], &pt[..]);
    assert_ne!(&cipher[..], &pt[..]);
}

#[test]
fn different_keys_different_outputs() {
    let k1 = b"AAAAAAAAAAAAAAAA";
    let k2 = b"AAAAAAAAAAAAAAAB";
    let msg = b"same message";
    let mut t1 = vec![0u8; 16];
    let mut t2 = vec![0u8; 16];
    assert_eq!(spongent_mac(&k1[..], &msg[..], &mut t1[..]), SpongentResult::Success);
    assert_eq!(spongent_mac(&k2[..], &msg[..], &mut t2[..]), SpongentResult::Success);
    assert_ne!(t1, t2);

    let (c1, w1) = wrap_ok(&k1[..], &[], &msg[..]);
    let (c2, w2) = wrap_ok(&k2[..], &[], &msg[..]);
    assert_ne!(c1, c2);
    assert_ne!(w1, w2);
}

#[test]
fn mac_differs_from_wrap_tag_on_same_bytes() {
    // Domain separation: the same bytes absorbed as a MAC message and as
    // wrap AAD with empty plaintext give different tags.
    let key = b"16-bytes sec key";
    let msg = b"shared bytes";
    let mut mac_tag = vec![0u8; 16];
    assert_eq!(spongent_mac(&key[..], &msg[..], &mut mac_tag[..]), SpongentResult::Success);
    let (_, wrap_tag) = wrap_ok(&key[..], &msg[..], &[]);
    assert_ne!(mac_tag, wrap_tag);
}

#[test]
fn empty_inputs_are_well_defined() {
    let key = b"16-bytes sec key";
    let (cipher, tag) = wrap_ok(&key[..], &[], &[]);
    assert_eq!(cipher.len(), 0);
    assert_eq!(tag.len(), 16);
    assert!(tag.iter().any(|&b| b != 0));

    let mut mac_tag = vec![0u8; 16];
    assert_eq!(spongent_mac(&key[..], &[], &mut mac_tag[..]), SpongentResult::Success);
    let mut mac_tag2 = vec![0u8; 16];
    assert_eq!(spongent_mac(&key[..], &[], &mut mac_tag2[..]), SpongentResult::Success);
    assert_eq!(mac_tag, mac_tag2);

    let mut plain = vec![0u8; 0];
    assert_eq!(
        spongent_unwrap(&key[..], &[], &cipher, &mut plain[..], &tag),
        SpongentResult::Success
    );
}

#[test]
fn length_preservation() {
    let key = b"16-bytes sec key";
    for n in [0usize, 1, 5, 31] {
        let pt = vec![0x5au8; n];
        let (cipher, tag) = wrap_ok(&key[..], &[], &pt);
        assert_eq!(cipher.len(), n);
        assert_eq!(tag.len(), 16);
    }
}

#[test]
fn bad_key_length_fails() {
    let mut cipher = vec![0u8; 3];
    let mut tag = vec![0u8; 16];
    let res = spongent_wrap(b"short", &[], b"abc", &mut cipher[..], &mut tag[..]);
    assert_eq!(res, SpongentResult::Fail);
    assert_eq!(cipher, vec![0u8; 3]);
    assert_eq!(tag, vec![0u8; 16]);

    let mut plain = vec![0u8; 3];
    let res = spongent_unwrap(b"short", &[], b"abc", &mut plain[..], &tag);
    assert_eq!(res, SpongentResult::Fail);

    let res = spongent_mac(b"way too long key for this configuration", b"m", &mut tag[..]);
    assert_eq!(res, SpongentResult::Fail);
}

#[test]
fn mismatched_output_buffer_fails() {
    let key = b"16-bytes sec key";
    let mut cipher = vec![0u8; 2];
    let mut tag = vec![0u8; 16];
    let res = spongent_wrap(&key[..], &[], b"abc", &mut cipher[..], &mut tag[..]);
    assert_eq!(res, SpongentResult::Fail);

    let mut plain = vec![0u8; 5];
    let res = spongent_unwrap(&key[..], &[], b"abc", &mut plain[..], &tag);
    assert_eq!(res, SpongentResult::Fail);
    assert_eq!(plain, vec![0u8; 5]);
}

#[test]
fn unsupported_tag_length_fails() {
    let key = b"16-bytes sec key";
    let mut cipher = vec![0u8; 3];
    let mut tag = vec![0u8; 8];
    let res = spongent_wrap(&key[..], &[], b"abc", &mut cipher[..], &mut tag[..]);
    assert_eq!(res, SpongentResult::BadHashBitLen);
    assert_eq!(cipher, vec![0u8; 3]);

    let mut plain = vec![0u8; 3];
    let res = spongent_unwrap(&key[..], &[], b"abc", &mut plain[..], &tag);
    assert_eq!(res, SpongentResult::BadHashBitLen);

    let res = spongent_mac(&key[..], b"m", &mut tag[..]);
    assert_eq!(res, SpongentResult::BadHashBitLen);
    assert_eq!(tag, vec![0u8; 8]);
}

#[test]
fn result_codes_decode() {
    assert_eq!(SpongentResult::from_u32(0), SpongentResult::Success);
    assert_eq!(SpongentResult::from_u32(1), SpongentResult::Fail);
    assert_eq!(SpongentResult::from_u32(2), SpongentResult::BadHashBitLen);
    assert_eq!(SpongentResult::from_u32(3), SpongentResult::BadTag);
    assert_eq!(SpongentResult::from_u32(4), SpongentResult::Unknown);
    assert_eq!(SpongentResult::from_u32(1234), SpongentResult::Unknown);
}
