use jwxt_client::aescbc::aes_cbc_encrypt;
use jwxt_client::conwork::{encode_credentials, encode_inp};

#[test]
fn legacy_codec_empty_input_gives_empty_output() {
    assert_eq!(encode_inp(""), "");
}

#[test]
fn legacy_codec_known_values() {
    assert_eq!(encode_inp("a"), "YQ==");
    assert_eq!(encode_inp("ab"), "YWI=");
    assert_eq!(encode_inp("abc"), "YWJj");
    assert_eq!(encode_inp("abcd"), "YWJjZA==");
}

#[test]
fn legacy_codec_output_length_is_four_per_group() {
    for len in 0..40usize {
        let input: String = std::iter::repeat('x').take(len).collect();
        let out = encode_inp(&input);
        assert_eq!(out.len(), 4 * ((len + 2) / 3));
    }
}

#[test]
fn legacy_codec_padding_markers() {
    // One byte past a group boundary: two padding markers.
    let one = encode_inp("a");
    assert!(one.ends_with("=="));
    let four = encode_inp("abcd");
    assert!(four.ends_with("=="));
    // Two bytes past a group boundary: exactly one padding marker.
    let two = encode_inp("ab");
    assert!(two.ends_with('='));
    assert!(!two.ends_with("=="));
    // Aligned input: no padding marker.
    let three = encode_inp("abc");
    assert!(!three.ends_with('='));
}

#[test]
fn legacy_codec_is_stable_across_calls() {
    let first = encode_inp("some-account");
    let second = encode_inp("some-account");
    assert_eq!(first, second);
}

#[test]
fn credentials_join_with_fixed_separator() {
    assert_eq!(encode_credentials("user", "pw"), "dXNlcg==%%%cHc=");
}

#[test]
fn cipher_known_payloads() {
    assert_eq!(aes_cbc_encrypt("").unwrap(), "kqm55GLzAGSGoHZ0hWQlZw==");
    assert_eq!(aes_cbc_encrypt("password123").unwrap(), "tftmh3E7HsouqrJx3Qe6Mg==");
    assert_eq!(aes_cbc_encrypt("secret").unwrap(), "g8NiViDwGFd0TYKdbBDo8Q==");
}

#[test]
fn cipher_aligned_input_still_gains_a_block() {
    // A 16-byte input pads to 32 bytes, so the payload encodes 32 bytes.
    let out = aes_cbc_encrypt("abcdefghijklmnop").unwrap();
    assert_eq!(out, "pro9cnRdcYilz/w0KhHx+AMmvFOaOEeIHojLVv2cSOM=");
    assert_eq!(out.len(), 44);
}

#[test]
fn cipher_output_length_follows_padded_length() {
    // Padded length is len + (16 - len % 16); the transport encoding shows
    // four characters per started group of three ciphertext bytes.
    for len in 0..48usize {
        let input: String = std::iter::repeat('p').take(len).collect();
        let padded = len + (16 - len % 16);
        let out = aes_cbc_encrypt(&input).unwrap();
        assert_eq!(out.len(), 4 * ((padded + 2) / 3));
    }
}

#[test]
fn cipher_is_deterministic() {
    let first = aes_cbc_encrypt("same-secret").unwrap();
    let second = aes_cbc_encrypt("same-secret").unwrap();
    assert_eq!(first, second);
}
