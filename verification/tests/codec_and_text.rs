use myshelltool::codec::{b64, b64_decode, bytes_to_hex, utf8_byte_len, utf8_len_exec};
use myshelltool::text::{
    chars_of, contains_str, decimal_string, ends_with_str, eq_str, has_char, lower_ascii_chars,
    same_text, slice_bytes, slice_chars, split_chars, starts_with_str, trim_chars,
};

fn s(v: &[char]) -> String {
    v.iter().collect()
}

#[test]
fn base64_encodes_with_padding() {
    assert_eq!(b64(b""), "");
    assert_eq!(b64(b"f"), "Zg==");
    assert_eq!(b64(b"fo"), "Zm8=");
    assert_eq!(b64(b"foo"), "Zm9v");
    assert_eq!(b64(b"foobar"), "Zm9vYmFy");
    assert_eq!(b64(&[0xfb, 0xff]), "+/8=");
}

#[test]
fn base64_decodes_what_it_encodes() {
    for data in [&b""[..], b"f", b"fo", b"foo", b"hello world", &[0u8, 255, 128, 7]] {
        assert_eq!(b64_decode(&b64(data)).unwrap(), data.to_vec());
    }
}

#[test]
fn base64_decode_skips_whitespace() {
    assert_eq!(b64_decode(" Zm9v\nYmFy\t").unwrap(), b"foobar".to_vec());
    assert_eq!(b64_decode("Zm\u{3000}9v").unwrap(), b"foo".to_vec());
}

#[test]
fn base64_decode_errors() {
    assert_eq!(b64_decode("abc").unwrap_err(), "invalid base64 length: 3");
    // The length is counted in UTF-8 bytes.
    assert_eq!(b64_decode("é").unwrap_err(), "invalid base64 length: 2");
    assert_eq!(b64_decode("ab!d").unwrap_err(), "invalid base64 char: !");
}

#[test]
fn utf8_lengths() {
    assert_eq!(utf8_len_exec('a'), 1);
    assert_eq!(utf8_len_exec('é'), 2);
    assert_eq!(utf8_len_exec('中'), 3);
    assert_eq!(utf8_len_exec('😀'), 4);
    assert_eq!(utf8_byte_len("a中😀"), 8);
    assert_eq!(utf8_byte_len(""), 0);
}

#[test]
fn hex_is_lowercase_two_digits_per_byte() {
    assert_eq!(bytes_to_hex(&[0, 1, 0xab, 0xff, 0x10]), "0001abff10");
    assert_eq!(bytes_to_hex(&[]), "");
}

#[test]
fn char_helpers() {
    let c = chars_of("  Hello, World \n");
    assert_eq!(s(&trim_chars(&c)), "Hello, World");
    assert_eq!(s(&trim_chars(&chars_of("\u{a0}x\u{2003}"))), "x");
    assert_eq!(s(&lower_ascii_chars(&chars_of("AbÉ-Z"))), "abÉ-z");
    assert_eq!(s(&slice_chars(&chars_of("abcdef"), 1, 4)), "bcd");
    assert!(starts_with_str(&chars_of("abcdef"), "abc"));
    assert!(!starts_with_str(&chars_of("ab"), "abc"));
    assert!(ends_with_str(&chars_of("abcdef"), "def"));
    assert!(contains_str(&chars_of("abcdef"), "cde"));
    assert!(!contains_str(&chars_of("abcdef"), "ced"));
    assert!(contains_str(&chars_of("abc"), ""));
    assert!(eq_str(&chars_of("中文"), "中文"));
    assert!(has_char(&chars_of("a:b"), ':'));
    assert!(same_text("x", "x") && !same_text("x", "y"));
    assert_eq!(decimal_string(0), "0");
    assert_eq!(decimal_string(1234567890), "1234567890");
    assert_eq!(slice_bytes(&[1, 2, 3, 4], 1, 3), vec![2, 3]);
}

#[test]
fn split_keeps_empty_pieces() {
    let parts: Vec<String> = split_chars(&chars_of("a,,b,"), ',').iter().map(|p| s(p)).collect();
    assert_eq!(parts, vec!["a", "", "b", ""]);
    let one: Vec<String> = split_chars(&chars_of("abc"), ',').iter().map(|p| s(p)).collect();
    assert_eq!(one, vec!["abc"]);
}
