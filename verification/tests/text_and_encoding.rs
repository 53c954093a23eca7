use software_manager::encoding::decode_console_output;
use software_manager::text::{decimal_string, is_blank, signed_decimal_string, trim_string};

#[test]
fn console_output_is_utf8_or_gbk() {
    assert_eq!(decode_console_output(b""), "");
    assert_eq!(decode_console_output("完成 ok".as_bytes()), "完成 ok");
    assert_eq!(decode_console_output(&[0xD6, 0xD0, 0xCE, 0xC4]), "中文");
}

#[test]
fn numbers_and_trimming() {
    assert_eq!(decimal_string(0), "0");
    assert_eq!(decimal_string(1234567890123), "1234567890123");
    assert_eq!(signed_decimal_string(-42), "-42");
    assert_eq!(signed_decimal_string(i64::MIN), "-9223372036854775808");
    assert_eq!(trim_string("\u{3000} a b \t\n"), "a b");
    assert!(is_blank(" \u{a0} "));
    assert!(!is_blank(" x "));
}
