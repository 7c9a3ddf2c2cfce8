use block_modes::BlockMode;
use hlsget::errors::HlsError;
use hlsget::playlist::SegmentKey;
use hlsget::segments::{
    absolute_url, decrypt_attempt, parse_iv, resolve_iv, segment_attempt, DecryptAttempt,
};
use hlsget::util::hex_decode;

type AesCbc = block_modes::Cbc<aes::Aes128, block_modes::block_padding::Pkcs7>;

fn key16() -> Vec<u8> {
    "0123456789abcdef".bytes().collect()
}

fn iv16() -> Vec<u8> {
    (0u8..16).collect()
}

fn encrypt_reference(key: &[u8], iv: &[u8], plain: &[u8]) -> Vec<u8> {
    let cipher = AesCbc::new_from_slices(key, iv).unwrap();
    cipher.encrypt_vec(plain)
}

#[test]
fn hex_decode_exact_value() {
    let r = hex_decode(b"000102030405060708090a0b0c0d0e0f").unwrap();
    assert_eq!(r, iv16());
    assert_eq!(hex_decode(b"aBcD").unwrap(), vec![0xab, 0xcd]);
    assert!(hex_decode(b"abc").is_none());
    assert!(hex_decode(b"zz").is_none());
}

#[test]
fn parse_iv_requires_prefix_and_sixteen_bytes() {
    let good = b"0x000102030405060708090a0b0c0d0e0f".to_vec();
    assert_eq!(parse_iv(&good).unwrap(), iv16());
    let upper = b"0X000102030405060708090A0B0C0D0E0F".to_vec();
    assert_eq!(parse_iv(&upper).unwrap(), iv16());
    let no_prefix = b"000102030405060708090a0b0c0d0e0f".to_vec();
    assert_eq!(parse_iv(&no_prefix), Err(HlsError::InvalidIV));
    let short = b"0x0001".to_vec();
    assert_eq!(parse_iv(&short), Err(HlsError::InvalidIV));
}

#[test]
fn decrypted_output_matches_reference_decryption() {
    // key of 16 raw characters, IV 0x000102...0f
    let key = key16();
    let iv = iv16();
    let plain = b"a reference segment payload, more than one block long".to_vec();
    let ct = encrypt_reference(&key, &iv, &plain);
    let reference = AesCbc::new_from_slices(&key, &iv)
        .unwrap()
        .decrypt_vec(&ct)
        .unwrap();
    match decrypt_attempt(&key, &iv, ct, 3) {
        DecryptAttempt::Done(p) => {
            assert_eq!(p, plain);
            assert_eq!(p, reference);
        }
        _ => panic!("expected decryption to succeed"),
    }
}

#[test]
fn retry_on_bad_fetch_matches_direct_decryption() {
    let key = key16();
    let iv = iv16();
    let plain = b"retry me".to_vec();
    let ct = encrypt_reference(&key, &iv, &plain);
    // a truncated fetch can never decrypt: its length is no block multiple
    let mut bad = ct.clone();
    bad.pop();
    let next_attempts = match decrypt_attempt(&key, &iv, bad, 3) {
        DecryptAttempt::FetchAgain(n) => n,
        _ => panic!("expected a fresh fetch to be requested"),
    };
    assert_eq!(next_attempts, 2);
    match decrypt_attempt(&key, &iv, ct, next_attempts) {
        DecryptAttempt::Done(p) => assert_eq!(p, plain),
        _ => panic!("expected the second fetch to decrypt"),
    }
}

#[test]
fn attempts_run_out() {
    let key = key16();
    let iv = iv16();
    let bad = vec![1u8, 2, 3];
    match decrypt_attempt(&key, &iv, bad, 1) {
        DecryptAttempt::Exhausted => {}
        _ => panic!("expected exhaustion on the last attempt"),
    }
}

#[test]
fn unencrypted_segment_passes_through_verbatim() {
    let data = vec![9u8, 8, 7, 6];
    match segment_attempt(&None, &None, data.clone(), 1) {
        DecryptAttempt::Done(p) => assert_eq!(p, data),
        _ => panic!("expected the bytes verbatim"),
    }
}

#[test]
fn iv_carry_forward_reuses_first_iv() {
    let tagged = Some(SegmentKey {
        method: b"AES-128".to_vec(),
        iv: Some(b"0x000102030405060708090a0b0c0d0e0f".to_vec()),
    });
    let untagged: Option<SegmentKey> = None;

    let mut prev: Option<Vec<u8>> = None;
    let first = resolve_iv(true, &tagged, &prev).unwrap();
    assert_eq!(first, Some(iv16()));
    prev = first;
    for _ in 0..3 {
        let next = resolve_iv(true, &untagged, &prev).unwrap();
        assert_eq!(next, Some(iv16()));
        prev = next;
    }
}

#[test]
fn encryption_tag_without_key_material_is_fatal() {
    let tagged = Some(SegmentKey { method: b"AES-128".to_vec(), iv: None });
    let r = resolve_iv(false, &tagged, &None);
    assert_eq!(r, Err(HlsError::UnexpectedEncryptionTag));
}

#[test]
fn no_iv_and_no_history_is_fatal() {
    let r = resolve_iv(true, &None, &None);
    assert_eq!(r, Err(HlsError::MissingIV));
}

#[test]
fn bad_iv_attribute_is_fatal() {
    let tagged = Some(SegmentKey { method: b"AES-128".to_vec(), iv: Some(b"0q12".to_vec()) });
    let r = resolve_iv(true, &tagged, &None);
    assert_eq!(r, Err(HlsError::InvalidIV));
}

#[test]
fn unencrypted_playlist_resolves_to_no_decryption() {
    let r = resolve_iv(false, &None, &None);
    assert_eq!(r, Ok(None));
}

#[test]
fn urls_resolve_against_the_playlist_url() {
    let base = b"http://example.com/path/playlist.m3u8".to_vec();
    let rel = b"seg1.ts".to_vec();
    let r = absolute_url(&base, &rel).unwrap();
    assert_eq!(r, b"http://example.com/path/seg1.ts".to_vec());

    let abs = b"https://other.example/x.ts".to_vec();
    let r2 = absolute_url(&base, &abs).unwrap();
    assert_eq!(r2, b"https://other.example/x.ts".to_vec());

    let bad_base = b"not a url".to_vec();
    assert_eq!(absolute_url(&bad_base, &rel), Err(HlsError::MalformedPlaylist));
}
