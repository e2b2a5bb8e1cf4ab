use forward_proxy::base64::encode;
use forward_proxy::digest::hashed_token;
use forward_proxy::target::{authority_of, host_of};
use forward_proxy::text::{equals, equals_ignore_case, is_space_byte, lower_byte, to_hex, trim};

#[test]
fn trim_removes_whitespace_at_both_ends() {
    assert_eq!(trim(b"  abc \t\r\n"), b"abc".to_vec());
    assert_eq!(trim(b"a b"), b"a b".to_vec());
    assert_eq!(trim(b" \t "), Vec::<u8>::new());
    assert_eq!(trim(b""), Vec::<u8>::new());
    assert_eq!(trim(b"x"), b"x".to_vec());
}

#[test]
fn whitespace_is_ascii_whitespace() {
    for b in [9u8, 10, 11, 12, 13, 32] {
        assert!(is_space_byte(b));
    }
    for b in [0u8, 8, 14, 31, 33, 65, 160, 255] {
        assert!(!is_space_byte(b));
    }
}

#[test]
fn lower_byte_touches_letters_only() {
    assert_eq!(lower_byte(b'A'), b'a');
    assert_eq!(lower_byte(b'Z'), b'z');
    assert_eq!(lower_byte(b'a'), b'a');
    assert_eq!(lower_byte(b'@'), b'@');
    assert_eq!(lower_byte(b'['), b'[');
    assert_eq!(lower_byte(200), 200);
}

#[test]
fn comparison_ignoring_case() {
    assert!(equals_ignore_case(b"Example.ORG", b"example.org"));
    assert!(!equals_ignore_case(b"example.org", b"example.orgx"));
    assert!(!equals_ignore_case(b"example.org", b"example.com"));
    assert!(equals_ignore_case(b"", b""));
    assert!(equals(b"abc", b"abc"));
    assert!(!equals(b"abc", b"abC"));
    assert!(!equals(b"abc", b"ab"));
}

#[test]
fn hex_is_lowercase_high_nibble_first() {
    assert_eq!(to_hex(&[0x00, 0x0f, 0xa5, 0xff]), b"000fa5ff".to_vec());
    assert_eq!(to_hex(&[]), Vec::<u8>::new());
}

#[test]
fn base64_known_values() {
    assert_eq!(encode(b""), b"".to_vec());
    assert_eq!(encode(b"f"), b"Zg==".to_vec());
    assert_eq!(encode(b"fo"), b"Zm8=".to_vec());
    assert_eq!(encode(b"foo"), b"Zm9v".to_vec());
    assert_eq!(encode(b"foob"), b"Zm9vYg==".to_vec());
    assert_eq!(encode(b"fooba"), b"Zm9vYmE=".to_vec());
    assert_eq!(encode(b"foobar"), b"Zm9vYmFy".to_vec());
    assert_eq!(encode(b"Aladdin:open sesame"), b"QWxhZGRpbjpvcGVuIHNlc2FtZQ==".to_vec());
    assert_eq!(encode(&[0xfb, 0xff, 0xbf]), b"+/+/".to_vec());
}

#[test]
fn hashed_token_is_hex_sha256_of_trimmed_secret() {
    let expected = b"ba7816bf8f01cfea414140de5dae2223b00361a396177a9cb410ff61f20015ad".to_vec();
    assert_eq!(hashed_token(b"abc"), expected);
    assert_eq!(hashed_token(b"  abc\n"), expected);
    assert_eq!(
        hashed_token(b""),
        b"e3b0c44298fc1c149afbf4c8996fb92427ae41e4649b934ca495991b7852b855".to_vec()
    );
    assert_ne!(hashed_token(b"abd"), expected);
}

#[test]
fn host_and_authority_of_targets() {
    assert_eq!(host_of(b"evil.com:443"), b"evil.com".to_vec());
    assert_eq!(authority_of(b"evil.com:443"), b"evil.com:443".to_vec());
    assert_eq!(host_of(b"http://example.org/index.html"), b"example.org".to_vec());
    assert_eq!(host_of(b"http://user:pw@example.org:8080/x?y=1"), b"example.org".to_vec());
    assert_eq!(
        authority_of(b"http://user:pw@example.org:8080/x?y=1"),
        b"user:pw@example.org:8080".to_vec()
    );
    assert_eq!(host_of(b"[::1]:8080"), b"[::1]".to_vec());
    assert_eq!(host_of(b"/only/a/path"), Vec::<u8>::new());
    assert_eq!(authority_of(b"/only/a/path"), Vec::<u8>::new());
    assert_eq!(host_of(b""), Vec::<u8>::new());
    assert_eq!(host_of(b"not a uri"), Vec::<u8>::new());
    assert_eq!(authority_of(b"not a uri"), Vec::<u8>::new());
}
