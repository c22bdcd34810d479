use sendme::collection::HashId;
use sendme::encode::{print_hash, Format};

#[test]
fn hex_rendering_is_two_lowercase_digits_per_byte() {
    let h = HashId::from_bytes(vec![0x00, 0xab, 0xff, 0x10]);
    assert_eq!(print_hash(&h, Format::Hex), "00abff10");
}

#[test]
fn hex_rendering_of_empty_identity_is_empty() {
    let h = HashId::from_bytes(vec![]);
    assert_eq!(print_hash(&h, Format::Hex), "");
}

#[test]
fn cid_rendering_is_plain_base32() {
    // base-32 of the ASCII bytes of "fooba" is "mzxw6ytb"
    let h = HashId::from_bytes(vec![0x66, 0x6f, 0x6f, 0x62, 0x61]);
    assert_eq!(print_hash(&h, Format::Cid), "mzxw6ytb");
}

#[test]
fn cid_rendering_of_one_byte() {
    // base-32 of the single ASCII byte "f" is "my"
    let h = HashId::from_bytes(vec![0x66]);
    assert_eq!(print_hash(&h, Format::Cid), "my");
}

#[test]
fn cid_rendering_of_a_full_identity_is_52_digits() {
    let h = HashId::from_bytes(vec![0u8; 32]);
    let r = print_hash(&h, Format::Cid);
    assert_eq!(r.len(), 52);
    assert!(r.chars().all(|c| ('a'..='z').contains(&c) || ('2'..='7').contains(&c)));
}

#[test]
fn format_parses_ascii_case_insensitively() {
    assert_eq!(Format::from_str("hex"), Some(Format::Hex));
    assert_eq!(Format::from_str("HEX"), Some(Format::Hex));
    assert_eq!(Format::from_str("Hex"), Some(Format::Hex));
    assert_eq!(Format::from_str("cid"), Some(Format::Cid));
    assert_eq!(Format::from_str("CiD"), Some(Format::Cid));
    assert_eq!(Format::from_str("raw"), None);
    assert_eq!(Format::from_str(""), None);
    assert_eq!(Format::from_str("hexx"), None);
}

#[test]
fn format_default_is_hex() {
    assert_eq!(Format::default(), Format::Hex);
}

#[test]
fn format_labels() {
    assert_eq!(Format::Hex.label(), "hex");
    assert_eq!(Format::Cid.label(), "cid");
}
