use sysprobe::registry_text::registry_value_text;

fn stored(text: &str, extra: &[u8]) -> Vec<u8> {
    let mut b = Vec::new();
    for u in text.encode_utf16() {
        b.extend_from_slice(&u.to_le_bytes());
    }
    b.extend_from_slice(&[0, 0]);
    b.extend_from_slice(extra);
    b
}

#[test]
fn short_value_round_trips() {
    assert_eq!(registry_value_text(&stored("23H2", &[])), "23H2");
    assert_eq!(registry_value_text(&stored("", &[])), "");
    assert_eq!(registry_value_text(&stored("eleven char", &[0x41, 0, 0x42, 0])), "eleven char");
}

#[test]
fn surrogate_pair_round_trips() {
    assert_eq!(registry_value_text(&stored("a\u{1D11E}b", &[])), "a\u{1D11E}b");
}

#[test]
fn value_longer_than_window_is_cut_to_twelve_units() {
    assert_eq!(registry_value_text(&stored("ABCDEFGHIJKLMNOPQRSTUVWXYZ", &[])), "ABCDEFGHIJKL");
}

#[test]
fn unpaired_surrogate_becomes_replacement() {
    let b = [0x00, 0xD8, 0x69, 0x00, 0x00, 0x00];
    assert_eq!(registry_value_text(&b), "\u{FFFD}i");
}

#[test]
fn buffer_shorter_than_one_unit_is_empty() {
    assert_eq!(registry_value_text(&[]), "");
    assert_eq!(registry_value_text(&[0x41]), "");
    assert_eq!(registry_value_text(&[0x41, 0x00, 0x42]), "A");
}
