use quotadock::providers::deepseek::is_decimal_string;

#[test]
fn decimal_validation_is_strict_without_float_conversion() {
    for valid in ["0", "0.00", "12345678901234567890.0000000001", "-0.1"] {
        assert!(is_decimal_string(valid), "{valid}");
    }
    for invalid in ["", ".1", "1.", "1e3", "+1", "--1", "1.2.3"] {
        assert!(!is_decimal_string(invalid), "{invalid}");
    }
}
