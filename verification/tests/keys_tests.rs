use hlsget::errors::HlsError;
use hlsget::keys::resolve_key;

fn chars(s: &str) -> Vec<char> {
    s.chars().collect()
}

#[test]
fn empty_key_means_no_encryption() {
    let r = resolve_key(&chars(""));
    assert_eq!(r, Ok(None));
}

#[test]
fn sixteen_char_key_is_taken_verbatim() {
    let r = resolve_key(&chars("0123456789abcdef"));
    let expected: Vec<u8> = "0123456789abcdef".bytes().collect();
    assert_eq!(r, Ok(Some(expected)));
}

#[test]
fn sixteen_char_key_produces_sixteen_bytes() {
    let r = resolve_key(&chars("abcdefghijklmnop")).unwrap().unwrap();
    assert_eq!(r.len(), 16);
}

#[test]
fn base64_22_char_key_decodes() {
    // base64 of the bytes 0..=15, with the two padding characters stripped
    let r = resolve_key(&chars("AAECAwQFBgcICQoLDA0ODw"));
    let expected: Vec<u8> = (0u8..16).collect();
    assert_eq!(r, Ok(Some(expected)));
}

#[test]
fn base64_24_char_key_decodes() {
    let r = resolve_key(&chars("AAECAwQFBgcICQoLDA0ODw=="));
    let expected: Vec<u8> = (0u8..16).collect();
    assert_eq!(r, Ok(Some(expected)));
}

#[test]
fn base64_key_of_seventeen_bytes_is_rejected() {
    // 24 characters with a single padding character decode to 17 bytes
    let r = resolve_key(&chars("AAECAwQFBgcICQoLDA0ODxA="));
    assert_eq!(r, Err(HlsError::InvalidKeyEncoding));
}

#[test]
fn invalid_base64_is_rejected() {
    let r = resolve_key(&chars("!!ECAwQFBgcICQoLDA0ODw"));
    assert_eq!(r, Err(HlsError::InvalidKeyEncoding));
}

#[test]
fn other_lengths_are_rejected() {
    assert_eq!(resolve_key(&chars("abc")), Err(HlsError::InvalidKeyLength));
    assert_eq!(resolve_key(&chars("0123456789abcde")), Err(HlsError::InvalidKeyLength));
    assert_eq!(resolve_key(&chars("0123456789abcdef0")), Err(HlsError::InvalidKeyLength));
    assert_eq!(
        resolve_key(&chars("0123456789abcdef0123456789abcdef")),
        Err(HlsError::InvalidKeyLength)
    );
}

#[test]
fn error_messages_are_nonempty() {
    assert!(!HlsError::InvalidKeyLength.message().is_empty());
    assert!(!HlsError::DecryptExhausted.message().is_empty());
}
