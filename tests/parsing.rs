use tee_tests::commands::{catalog_name, resource_path, self_check_passed};
use tee_tests::hex::{parse_hex_digits, strip_radix16, HexError};
use tee_tests::probe::{parse_probe_address, select_shared_window, AddressError, ResourceError};
use tee_tests::text::{contains_text, decimal_text, same_text, split_text};

#[test]
fn hex_with_and_without_prefix() {
    assert_eq!(strip_radix16("0x1f"), Ok(31));
    assert_eq!(strip_radix16("ff"), Ok(255));
    assert_eq!(strip_radix16("0x00000000FE940000"), Ok(0xFE94_0000));
    assert_eq!(strip_radix16("ffffffffffffffff"), Ok(u64::MAX));
}

#[test]
fn hex_errors() {
    assert_eq!(strip_radix16(""), Err(HexError::Empty));
    assert_eq!(strip_radix16("0x"), Err(HexError::Empty));
    assert_eq!(strip_radix16("0xzz"), Err(HexError::InvalidDigit));
    assert_eq!(strip_radix16("1 2"), Err(HexError::InvalidDigit));
    assert_eq!(strip_radix16("10000000000000000"), Err(HexError::Overflow));
    assert_eq!(parse_hex_digits("0x10"), Err(HexError::InvalidDigit));
}

#[test]
fn probe_address_needs_prefix() {
    assert_eq!(parse_probe_address("0x1000"), Ok(4096));
    assert_eq!(parse_probe_address("0x 10 \n"), Ok(16));
    assert_eq!(parse_probe_address("1000"), Err(AddressError::MissingPrefix));
    assert_eq!(parse_probe_address("0xg"), Err(AddressError::Number(HexError::InvalidDigit)));
    assert_eq!(parse_probe_address("0x"), Err(AddressError::Number(HexError::Empty)));
}

#[test]
fn window_of_exactly_one_page_is_selected() {
    let listing = "1000 1fff\n2000 200f\n";
    assert_eq!(select_shared_window(listing), Ok("1000".to_string()));
}

#[test]
fn window_other_sizes_are_ignored() {
    assert_eq!(select_shared_window("2000 200f\n3000 4fff\n"), Ok(String::new()));
    assert_eq!(select_shared_window(""), Ok(String::new()));
}

#[test]
fn window_from_sysfs_listing_keeps_the_field() {
    let listing = "0x0000000010000000 0x00000000100000ff 0x0000000000040200\n\
                   0x00000000fe940000 0x00000000fe940fff 0x0000000000040200\n\
                   0x0000000000000000 0x0000000000000000 0x0000000000000000\n";
    assert_eq!(select_shared_window(listing), Ok("0x00000000fe940000".to_string()));
}

#[test]
fn window_last_match_wins() {
    assert_eq!(select_shared_window("1000 1fff\n5000 5fff"), Ok("5000".to_string()));
}

#[test]
fn window_errors() {
    assert_eq!(select_shared_window("0x1000\n"), Err(ResourceError::MissingEnd));
    assert_eq!(select_shared_window("zz 1\n"), Err(ResourceError::Number(HexError::InvalidDigit)));
    assert_eq!(select_shared_window("1000 1fff\n1 zz\n"), Err(ResourceError::Number(HexError::InvalidDigit)));
}

#[test]
fn decimal_port_text() {
    assert_eq!(decimal_text(0), "0");
    assert_eq!(decimal_text(7), "7");
    assert_eq!(decimal_text(8088), "8088");
    assert_eq!(decimal_text(65535), "65535");
}

#[test]
fn text_helpers() {
    assert!(contains_text("Test 60 passed: ok", "Test 60 passed"));
    assert!(!contains_text("Test 60 failed", "passed"));
    assert!(contains_text("abc", ""));
    assert!(!contains_text("ab", "abc"));
    assert!(same_text("normal", "normal"));
    assert!(!same_text("normal", "norma"));
    assert_eq!(split_text("a\nb\n", '\n'), vec!["a".to_string(), "b".to_string(), String::new()]);
    assert_eq!(split_text("", ' '), vec![String::new()]);
}

#[test]
fn catalog_names() {
    assert_eq!(catalog_name("realm_pa_provider.ko", "ko"), Some("realm_pa_provider".to_string()));
    assert_eq!(catalog_name("setup.sh", "sh"), Some("setup".to_string()));
    assert_eq!(catalog_name(".ko", "ko"), None);
    assert_eq!(catalog_name("module.ko.bak", "ko"), None);
    assert_eq!(catalog_name("modko", "ko"), None);
}

#[test]
fn resource_listing_path() {
    assert_eq!(resource_path("0000:00:03.0"), "/sys/bus/pci/devices/0000:00:03.0/resource");
}

#[test]
fn self_check_result() {
    assert!(self_check_passed("ok\n"));
    assert!(self_check_passed("  ok "));
    assert!(!self_check_passed("okay"));
    assert!(!self_check_passed("fail\n"));
}

#[test]
fn window_fields_split_on_any_white_space() {
    assert_eq!(select_shared_window("1000\t1fff\n"), Ok("1000".to_string()));
    assert_eq!(select_shared_window("  0x2000   0x2fff  0x0\r\n"), Ok("0x2000".to_string()));
    assert_eq!(select_shared_window("\n\n3000 \t 3fff\n\n"), Ok("3000".to_string()));
}

#[test]
fn window_reversed_or_extreme_ranges_are_ignored() {
    assert_eq!(select_shared_window("2000 1000\n"), Ok(String::new()));
    assert_eq!(select_shared_window("0 ffffffffffffffff\n1000 1fff\n"), Ok("1000".to_string()));
    assert_eq!(select_shared_window("1000 1fff\n2000 1000\n"), Ok("1000".to_string()));
}

#[test]
fn unicode_white_space_is_trimmed() {
    assert_eq!(parse_probe_address("0x\u{a0}1000\u{3000}"), Ok(4096));
    assert!(self_check_passed("\u{2028}ok\u{85}"));
    assert!(!self_check_passed("\u{200b}ok"));
}
