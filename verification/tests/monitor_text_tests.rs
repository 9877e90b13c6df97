use kernel_fuzz::monitor::{loadvm_command, savevm_command, MonitorReader};
use kernel_fuzz::text::{contains_bytes, ends_with_bytes, parse_u64, str_starts_with,
    u64_to_decimal, u64_to_hex};
use kernel_fuzz::trace::pc_line;

#[test]
fn monitor_commands_are_lines() {
    assert_eq!(savevm_command("start").as_str(), "savevm start\n");
    assert_eq!(loadvm_command("start").as_str(), "loadvm start\n");
    assert_eq!(savevm_command("snap2").as_str(), "savevm snap2\n");
}

#[test]
fn monitor_reply_completes_at_the_prompt() {
    let mut reader = MonitorReader::new();
    assert!(!reader.feed(b"QEMU 8.0 monitor - type 'help'\r\n"));
    assert!(!reader.feed(b"(qemu"));
    assert!(reader.feed(b") "));
    assert_eq!(reader.into_reply(), b"QEMU 8.0 monitor - type 'help'\r\n(qemu) ".to_vec());
}

#[test]
fn prompt_in_the_middle_does_not_complete() {
    let mut reader = MonitorReader::new();
    assert!(!reader.feed(b"(qemu) saving"));
    assert!(reader.feed(b"\r\n(qemu) "));
}

#[test]
fn byte_search_finds_substrings() {
    assert!(contains_bytes(b"BUG: KASAN: slab-out-of-bounds", b"KASAN"));
    assert!(!contains_bytes(b"all quiet", b"KASAN"));
    assert!(contains_bytes(b"anything", b""));
    assert!(ends_with_bytes(b"reply (qemu) ", b"(qemu) "));
    assert!(!ends_with_bytes(b"(qemu) reply", b"(qemu) "));
}

#[test]
fn decimal_rendering_is_exact() {
    assert_eq!(u64_to_decimal(0).as_str(), "0");
    assert_eq!(u64_to_decimal(9193).as_str(), "9193");
    assert_eq!(u64_to_decimal(1048576).as_str(), "1048576");
    assert_eq!(u64_to_decimal(u64::MAX).as_str(), "18446744073709551615");
}

#[test]
fn prefix_test_matches_leading_characters() {
    assert!(str_starts_with("id_42", "id_"));
    assert!(!str_starts_with("idx_42", "id_"));
    assert!(str_starts_with("anything", ""));
}

#[test]
fn u64_parsing_follows_the_standard_rules() {
    assert_eq!(parse_u64("42"), Some(42));
    assert_eq!(parse_u64("+42"), Some(42));
    assert_eq!(parse_u64("0"), Some(0));
    assert_eq!(parse_u64("18446744073709551615"), Some(u64::MAX));
    assert_eq!(parse_u64("18446744073709551616"), None);
    assert_eq!(parse_u64(""), None);
    assert_eq!(parse_u64("+"), None);
    assert_eq!(parse_u64("4a"), None);
    assert_eq!(parse_u64("-4"), None);
}

#[test]
fn hexadecimal_rendering_is_exact() {
    assert_eq!(u64_to_hex(0).as_str(), "0");
    assert_eq!(u64_to_hex(0xdeadbeef).as_str(), "deadbeef");
    assert_eq!(u64_to_hex(u64::MAX).as_str(), "ffffffffffffffff");
    assert_eq!(pc_line(0x1000).as_str(), "0x1000");
    assert_eq!(pc_line(0xbeefdead).as_str(), "0xbeefdead");
}
