use base64::prelude::BASE64_STANDARD;
use base64::Engine;
use caliban::clipboard::{clipboard_sequence, osc52_payload, MAX_OSC52_BYTES};

#[test]
fn osc52_payload_round_trips_empty() {
    // Empty input is a no-op for the public API; the pure builder
    // still produces a well-formed (empty-body) sequence.
    let p = osc52_payload("");
    assert!(p.starts_with("\x1b]52;c;"));
    assert!(p.ends_with('\x07'));
}

#[test]
fn osc52_payload_encodes_ascii() {
    let p = osc52_payload("hello");
    // base64("hello") == "aGVsbG8="
    assert_eq!(p, "\x1b]52;c;aGVsbG8=\x07");
}

#[test]
fn osc52_payload_encodes_utf8() {
    // 'カ' is 3 bytes (e3 82 ab); base64 -> "44Kr"
    let p = osc52_payload("カ");
    assert_eq!(p, "\x1b]52;c;44Kr\x07");
}

#[test]
fn osc52_payload_truncates_huge_input_at_char_boundary() {
    // Build a string larger than MAX_OSC52_BYTES with a multi-byte
    // char near the truncation point.
    let mut text = "a".repeat(MAX_OSC52_BYTES - 1);
    text.push('カ'); // 3 bytes — push past the limit on a non-boundary
    text.push('カ');
    let p = osc52_payload(&text);
    // Decode the base64 body and ensure the bytes form valid UTF-8.
    let body = p
        .strip_prefix("\x1b]52;c;")
        .and_then(|s| s.strip_suffix('\x07'))
        .expect("well-formed envelope");
    let decoded = BASE64_STANDARD
        .decode(body)
        .expect("valid base64 round-trip");
    // The truncation MUST land on a char boundary so UTF-8 stays valid.
    assert!(std::str::from_utf8(&decoded).is_ok());
    // And the decoded length should be <= the cap.
    assert!(decoded.len() <= MAX_OSC52_BYTES);
}

#[test]
fn copy_to_clipboard_is_noop_on_empty() {
    assert!(clipboard_sequence("").is_none());
}

#[test]
fn sequences_are_payloads_of_texts_that_are_not_empty() {
    assert_eq!(clipboard_sequence("hello"), Some(osc52_payload("hello")));
}

#[test]
fn long_texts_keep_as_much_as_fits() {
    let mut text = "a".repeat(MAX_OSC52_BYTES - 2);
    text.push('\u{30ab}');
    let p = osc52_payload(&text);
    let body = p.strip_prefix("\x1b]52;c;").and_then(|s| s.strip_suffix('\x07')).unwrap();
    assert_eq!(BASE64_STANDARD.decode(body).unwrap().len(), MAX_OSC52_BYTES - 2);
}
