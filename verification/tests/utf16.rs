use netpack::utf_str::{Utf16DecodeError, Utf16String};

#[test]
fn test_encode_ascii() {
    let w = Utf16String::from_str("ab");
    assert_eq!(w.units(), &vec![97, 98, 0]);
}

#[test]
fn test_encode_empty() {
    let w = Utf16String::from_str("");
    assert_eq!(w.units(), &vec![0]);
}

#[test]
fn test_encode_from_owned_string() {
    let w = Utf16String::from_string(String::from("hi"));
    assert_eq!(w.units(), &vec![104, 105, 0]);
}

#[test]
fn test_encode_surrogate_pair() {
    // U+1D11E (musical symbol G clef) encodes as the pair D834 DD1E.
    let w = Utf16String::from_str("\u{1D11E}");
    assert_eq!(w.units(), &vec![0xD834, 0xDD1E, 0]);
}

#[test]
fn test_encode_bmp_char() {
    // U+00E9 is a single unit.
    let w = Utf16String::from_str("\u{E9}");
    assert_eq!(w.units(), &vec![0xE9, 0]);
}

#[test]
fn test_decode_round_trip() {
    let w = Utf16String::from_str("ab\u{1D11E}c");
    let s: String = w.try_into_string().unwrap();
    assert_eq!(s, "ab\u{1D11E}c\0");
}

#[test]
fn test_decode_lone_high_surrogate() {
    let w = Utf16String::from_units(vec![0xD800, 0]);
    assert_eq!(w.try_into_string(), Err(Utf16DecodeError {}));
}

#[test]
fn test_decode_high_surrogate_at_end() {
    let w = Utf16String::from_units(vec![97, 0xD834]);
    assert_eq!(w.try_into_string(), Err(Utf16DecodeError {}));
}

#[test]
fn test_decode_lone_low_surrogate() {
    let w = Utf16String::from_units(vec![0xDD1E, 0]);
    assert_eq!(w.try_into_string(), Err(Utf16DecodeError {}));
}

#[test]
fn test_decode_valid_units() {
    let w = Utf16String::from_units(vec![104, 105]);
    assert_eq!(w.try_into_string().unwrap(), "hi");
}
