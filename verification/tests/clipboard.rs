use lazyjj::clipboard::{base64_encode, clipboard_sequence};

#[test]
fn test_base64_empty() {
    assert_eq!(base64_encode(b""), "");
}

#[test]
fn test_base64_known_vectors() {
    assert_eq!(base64_encode(b"f"), "Zg==");
    assert_eq!(base64_encode(b"fo"), "Zm8=");
    assert_eq!(base64_encode(b"foo"), "Zm9v");
    assert_eq!(base64_encode(b"foob"), "Zm9vYg==");
    assert_eq!(base64_encode(b"fooba"), "Zm9vYmE=");
    assert_eq!(base64_encode(b"foobar"), "Zm9vYmFy");
}

#[test]
fn test_base64_change_id() {
    assert_eq!(base64_encode(b"xyzqrsk"), "eHl6cXJzaw==");
}

#[test]
fn base64_uses_plus_and_slash() {
    assert_eq!(base64_encode(&[0xfb, 0xff]), "+/8=");
    assert_eq!(base64_encode(&[0, 0, 0]), "AAAA");
    assert_eq!(base64_encode(&[0xff, 0xff, 0xff]), "////");
}

#[test]
fn base64_concatenates_groups() {
    let a = base64_encode(b"abc");
    let b = base64_encode(b"de");
    assert_eq!(format!("{a}{b}"), base64_encode(b"abcde"));
}

#[test]
fn base64_length_is_four_per_started_group() {
    for n in 0..10usize {
        let input = vec![7u8; n];
        assert_eq!(base64_encode(&input).len(), 4 * ((n + 2) / 3));
    }
}

#[test]
fn clipboard_sequence_for_empty_text_is_none() {
    assert!(clipboard_sequence("", false).is_none());
    assert!(clipboard_sequence("", true).is_none());
}

#[test]
fn clipboard_sequence_plain() {
    assert_eq!(
        clipboard_sequence("foo", false).unwrap(),
        "\x1b]52;c;Zm9v\x1b\\"
    );
}

#[test]
fn clipboard_sequence_in_tmux_doubles_escapes() {
    assert_eq!(
        clipboard_sequence("foo", true).unwrap(),
        "\x1bPtmux;\x1b\x1b]52;c;Zm9v\x1b\x1b\\\x1b\\"
    );
}

#[test]
fn clipboard_sequence_encodes_utf8_bytes() {
    // "é" is the two bytes C3 A9.
    assert_eq!(clipboard_sequence("é", false).unwrap(), "\x1b]52;c;w6k=\x1b\\");
}
