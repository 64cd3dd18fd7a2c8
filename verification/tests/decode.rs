use archivehost::decode::decode_bytes;

#[test]
fn utf8_text_decodes_to_a_prefix_of_itself() {
    let text = "Hello, world! This page is plain ASCII text of some length.";
    let r = decode_bytes(text.as_bytes());
    assert!(text.starts_with(&r), "{:?}", r);
    // Only the last buffer of at most eight bytes is left out.
    assert!(r.len() + 8 >= text.len());
}

#[test]
fn legacy_encoding_is_decoded() {
    // "café" in windows-1252 (0xE9), early in a longer French text.
    let mut bytes = b"Le caf".to_vec();
    bytes.push(0xE9);
    bytes.extend_from_slice(b" est tr");
    bytes.push(0xE8);
    bytes.extend_from_slice(b"s bon, et la cr");
    bytes.push(0xE8);
    bytes.extend_from_slice(b"me br");
    bytes.push(0xFB);
    bytes.extend_from_slice(b"l");
    bytes.push(0xE9);
    bytes.extend_from_slice(b"e aussi, merci beaucoup pour tout.");
    let r = decode_bytes(&bytes);
    assert!(r.starts_with("Le café est très bon"), "{:?}", r);
}

#[test]
fn empty_input_gives_empty_text() {
    assert_eq!(decode_bytes(&[]), "");
}

#[test]
fn short_page_is_left_in_the_buffer() {
    // The whole text fits in the last round, which is never added.
    assert_eq!(decode_bytes(b"abc"), "");
}
