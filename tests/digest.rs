use ffpack::digest::{digest_from_hex, digest_to_hex};

fn sample() -> [u8; 32] {
    let mut d = [0u8; 32];
    for (i, b) in d.iter_mut().enumerate() {
        *b = (i as u8).wrapping_mul(37).wrapping_add(11);
    }
    d
}

#[test]
fn digest_text_round_trip() {
    let d = sample();
    let text = digest_to_hex(&d);
    assert_eq!(text.len(), 64);
    assert_eq!(digest_from_hex(&text).unwrap(), d);
}

#[test]
fn digest_text_is_lowercase_high_nibble_first() {
    let mut d = [0u8; 32];
    d[0] = 0xab;
    d[31] = 0x0f;
    let text = digest_to_hex(&d);
    assert!(text.starts_with("ab00"));
    assert!(text.ends_with("000f"));
    assert_eq!(digest_to_hex(&[0u8; 32]), "0".repeat(64));
}

#[test]
fn digest_text_of_wrong_length_fails() {
    let text = digest_to_hex(&sample());
    assert!(digest_from_hex(&text[..63]).is_err());
    let longer = format!("{}0", text);
    assert!(digest_from_hex(&longer).is_err());
    assert!(digest_from_hex("").is_err());
}

#[test]
fn digest_text_accepts_uppercase_and_rejects_other_characters() {
    let text = digest_to_hex(&sample());
    assert_eq!(digest_from_hex(&text.to_uppercase()).unwrap(), sample());
    let bad = format!("g{}", &text[1..]);
    assert!(digest_from_hex(&bad).is_err());
}
