use infinigit::fmt::{decimal_string, hex_digest};
use infinigit::names::{trusted_origin, valid_label, valid_name, valid_root_key, valid_storage};
use infinigit::text::{has_line, trimmed, trimmed_end};

#[test]
fn names_labels_and_storage() {
    assert!(valid_name("work-laptop_2"));
    assert!(!valid_name(""));
    assert!(!valid_name("white space"));
    assert!(valid_label("Work laptop v1.2"));
    assert!(!valid_label(""));
    assert!(!valid_label(&"x".repeat(81)));
    assert!(valid_label(&"x".repeat(80)));
    assert!(!valid_label("tab\there"));
    for s in ["keyring", "password", "plaintext"] {
        assert!(valid_storage(s));
    }
    assert!(!valid_storage("Keyring"));
}

#[test]
fn origins_must_be_https_or_loopback() {
    assert!(trusted_origin("https://id.ai"));
    assert!(trusted_origin("http://localhost:4943"));
    assert!(trusted_origin("http://127.0.0.1"));
    assert!(!trusted_origin("http://example.com"));
    assert!(!trusted_origin("HTTPS://id.ai"));
}

#[test]
fn root_keys_are_named_or_pinned_hex() {
    assert!(valid_root_key("mainnet"));
    assert!(valid_root_key("fetch"));
    assert!(valid_root_key(&"0aF9".repeat(66).chars().chain("0a".chars()).collect::<String>()));
    assert!(!valid_root_key(&"g".repeat(266)));
    assert!(!valid_root_key(""));
}

#[test]
fn text_helpers_trim_and_find_lines() {
    assert_eq!(trimmed("  a b \n"), "a b");
    assert_eq!(trimmed_end("  a b \n"), "  a b");
    assert!(has_line("one\ntwo\r\nthree", "two"));
    assert!(has_line("one\ntwo", "two"));
    assert!(!has_line("one\ntwo three", "two"));
    assert!(!has_line("", "two"));
}

#[test]
fn numbers_and_digests_are_formatted() {
    assert_eq!(decimal_string(0), "0");
    assert_eq!(decimal_string(1234567890), "1234567890");
    assert_eq!(decimal_string(u128::MAX), u128::MAX.to_string());
    assert_eq!(hex_digest(&[0x00, 0x0f, 0xa0, 0xff]), "000fa0ff");
    assert_eq!(hex_digest(&[]), "");
}
