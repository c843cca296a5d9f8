use containrs::digest::{hex_string, Algorithm, Digest};
use containrs::error::ErrorKind;

const HELLO_SHA256: &str = "2cf24dba5fb0a30e26e83b2ac5b9e29e1b161e5c1fa7425e73043362938b9824";
const EMPTY_SHA512: &str = "cf83e1357eefb8bdf1542850d66d8007d620e4050b5715dc83f4a921d36ce9ce47d0d13c5d85f2b0ff8318d2877eec2f63b931bd47417a81a538327af927da3e";

#[test]
fn parse_ignores_hex_case() {
    let upper = format!("sha256:{}", HELLO_SHA256.to_uppercase());
    let lower = format!("sha256:{}", HELLO_SHA256);
    let a = Digest::parse(&upper).unwrap();
    let b = Digest::parse(&lower).unwrap();
    assert_eq!(a, b);
    assert_eq!(a.as_str(), lower);
    assert!(a.same_as(&b));
}

#[test]
fn parse_rejects_malformed_digests() {
    for text in [
        "",
        "sha256",
        ":abc",
        "sha256:",
        "sha256:abc",
        "SHA256:abc",
        "sha256:zz24dba5fb0a30e26e83b2ac5b9e29e1b161e5c1fa7425e73043362938b9824",
        "sha512:2cf24dba5fb0a30e26e83b2ac5b9e29e1b161e5c1fa7425e73043362938b9824",
        "foo:a:b",
    ] {
        let e = Digest::parse(text).unwrap_err();
        assert_eq!(e.kind, ErrorKind::MalformedDigest, "{}", text);
    }
}

#[test]
fn parse_keeps_unsupported_algorithms() {
    let d = Digest::parse("blake3:AbC=").unwrap();
    assert_eq!(d.algorithm, Algorithm::Unsupported("blake3".to_string()));
    assert_eq!(d.as_str(), "blake3:abc=");
    assert!(d.validator().is_none());
    assert!(!d.validate_once(b"anything"));
}

#[test]
fn validate_once_accepts_matching_content() {
    let d = Digest::parse(&format!("sha256:{}", HELLO_SHA256.to_uppercase())).unwrap();
    assert!(d.validate_once(b"hello"));
    let e = Digest::parse(&format!("sha512:{}", EMPTY_SHA512)).unwrap();
    assert!(e.validate_once(b""));
    assert_eq!(e.algorithm, Algorithm::Sha512);
}

#[test]
fn validate_once_rejects_a_flipped_byte() {
    let d = Digest::parse(&format!("sha256:{}", HELLO_SHA256)).unwrap();
    let mut data = b"hello".to_vec();
    for i in 0..data.len() {
        data[i] ^= 1;
        assert!(!d.validate_once(&data));
        data[i] ^= 1;
    }
    assert!(d.validate_once(&data));
}

#[test]
fn validator_agrees_with_one_shot_validation() {
    let d = Digest::parse(&format!("sha256:{}", HELLO_SHA256)).unwrap();
    let mut v = d.validator().unwrap();
    v.feed(b"he");
    v.feed(b"");
    v.feed(b"llo");
    assert!(v.finish());
    let mut w = d.validator().unwrap();
    w.feed(b"llo");
    w.feed(b"he");
    assert!(!w.finish());
}

#[test]
fn hex_string_writes_two_lower_digits_per_byte() {
    assert_eq!(hex_string(&vec![0x00, 0x0f, 0xa0, 0xff]), "000fa0ff");
    assert_eq!(hex_string(&vec![]), "");
}

#[test]
fn duplicate_keeps_the_digest() {
    let d = Digest::parse("sha256:2CF24DBA5FB0A30E26E83B2AC5B9E29E1B161E5C1FA7425E73043362938B9824").unwrap();
    assert_eq!(d.duplicate(), d);
}
