use iot_debugger::text::{
    binary_word_text, decimal_text, digit_to_char, hex_word_text, natural_text,
};

#[test]
fn decimal_of_zero_and_small_numbers() {
    assert_eq!(decimal_text(0), "0");
    assert_eq!(decimal_text(7), "7");
    assert_eq!(decimal_text(10), "10");
    assert_eq!(decimal_text(-1), "-1");
    assert_eq!(decimal_text(-10), "-10");
    assert_eq!(decimal_text(1000), "1000");
}

#[test]
fn decimal_of_the_extremes() {
    assert_eq!(decimal_text(i64::MAX), "9223372036854775807");
    assert_eq!(decimal_text(i64::MIN), "-9223372036854775808");
    assert_eq!(natural_text(u64::MAX), "18446744073709551615");
    assert_eq!(natural_text(0), "0");
}

#[test]
fn decimal_agrees_with_the_standard_formatter() {
    let samples: [i64; 9] = [0, 1, -1, 9, 99, -100, 65535, -32768, 2147483647];
    for n in samples {
        assert_eq!(decimal_text(n), n.to_string());
    }
}

#[test]
fn digits_up_to_fifteen() {
    let all: String = (0u8..16).map(digit_to_char).collect();
    assert_eq!(all, "0123456789ABCDEF");
}

#[test]
fn hex_word_agrees_with_the_standard_formatter() {
    let samples: [u16; 6] = [0, 1, 0x00FF, 0x0ABC, 0x8000, 0xFFFF];
    for w in samples {
        assert_eq!(hex_word_text(w), format!("0x{:04X}", w));
    }
}

#[test]
fn binary_word_agrees_with_the_standard_formatter() {
    let samples: [u16; 6] = [0, 1, 2, 0x00FF, 0x8000, 0xFFFF];
    for w in samples {
        assert_eq!(binary_word_text(w), format!("{:016b}", w));
    }
}
