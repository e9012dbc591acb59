use myshelltool::codec::b64url;
use myshelltool::digest::TransferDigest;
use myshelltool::endpoint::generate_token;

#[test]
fn streamed_digest_of_chunks() {
    let mut d = TransferDigest::new();
    d.on_chunk(b"a");
    d.on_chunk(b"");
    d.on_chunk(b"bc");
    assert_eq!(d.total_bytes(), 3);
    let (n, hex) = d.finish();
    assert_eq!(n, 3);
    assert_eq!(hex, "ba7816bf8f01cfea414140de5dae2223b00361a396177a9cb410ff61f20015ad");
}

#[test]
fn digest_of_nothing() {
    let (n, hex) = TransferDigest::new().finish();
    assert_eq!(n, 0);
    assert_eq!(hex, "e3b0c44298fc1c149afbf4c8996fb92427ae41e4649b934ca495991b7852b855");
}

#[test]
fn digest_does_not_depend_on_chunking() {
    let data: Vec<u8> = (0..200u32).map(|i| (i * 7 % 256) as u8).collect();
    let mut one = TransferDigest::new();
    one.on_chunk(&data);
    let mut many = TransferDigest::new();
    for c in data.chunks(13) {
        many.on_chunk(c);
    }
    assert_eq!(one.finish(), many.finish());
}

#[test]
fn base64url_without_padding() {
    assert_eq!(b64url(b""), "");
    assert_eq!(b64url(b"f"), "Zg");
    assert_eq!(b64url(b"fo"), "Zm8");
    assert_eq!(b64url(b"foo"), "Zm9v");
    assert_eq!(b64url(&[0xfb, 0xff, 0xbf]), "-_-_");
}

#[test]
fn tokens_are_43_url_safe_characters() {
    let a = generate_token();
    let b = generate_token();
    assert_eq!(a.chars().count(), 43);
    assert!(a.chars().all(|c| c.is_ascii_alphanumeric() || c == '-' || c == '_'));
    assert_ne!(a, b);
}
