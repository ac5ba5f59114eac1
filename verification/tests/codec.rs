use iot_debugger::codec::{Decoded, DisplayFormat};

fn text(s: &str) -> Decoded {
    Decoded::Text(s.to_string())
}

#[test]
fn signed_reads_twos_complement() {
    assert_eq!(DisplayFormat::Signed.format(&[0x0000]), text("0"));
    assert_eq!(DisplayFormat::Signed.format(&[0x7FFF]), text("32767"));
    assert_eq!(DisplayFormat::Signed.format(&[0x8000]), text("-32768"));
    assert_eq!(DisplayFormat::Signed.format(&[0xFFFF]), text("-1"));
}

#[test]
fn unsigned_reads_the_word_as_it_is() {
    assert_eq!(DisplayFormat::Unsigned.format(&[0]), text("0"));
    assert_eq!(DisplayFormat::Unsigned.format(&[9]), text("9"));
    assert_eq!(DisplayFormat::Unsigned.format(&[10]), text("10"));
    assert_eq!(DisplayFormat::Unsigned.format(&[0xFFFF]), text("65535"));
}

#[test]
fn hex_is_four_upper_case_digits_with_prefix() {
    assert_eq!(DisplayFormat::Hex.format(&[0]), text("0x0000"));
    assert_eq!(DisplayFormat::Hex.format(&[0x12AB]), text("0x12AB"));
    assert_eq!(DisplayFormat::Hex.format(&[0xFFFF]), text("0xFFFF"));
    assert_eq!(DisplayFormat::Hex.format(&[0x00F0]), text("0x00F0"));
}

#[test]
fn binary_is_sixteen_digits() {
    assert_eq!(DisplayFormat::Binary.format(&[0]), text("0000000000000000"));
    assert_eq!(DisplayFormat::Binary.format(&[1]), text("0000000000000001"));
    assert_eq!(DisplayFormat::Binary.format(&[0x8000]), text("1000000000000000"));
    assert_eq!(DisplayFormat::Binary.format(&[0xA5C3]), text("1010010111000011"));
}

#[test]
fn long_round_trip_of_minus_seventy_thousand() {
    let bits = (-70000i32) as u32;
    let high = (bits >> 16) as u16;
    let low = (bits & 0xFFFF) as u16;
    assert_eq!(DisplayFormat::Long.format(&[high, low]), text("-70000"));
    assert_eq!(DisplayFormat::LongInverse.format(&[low, high]), text("-70000"));
}

#[test]
fn long_extremes() {
    assert_eq!(DisplayFormat::Long.format(&[0x7FFF, 0xFFFF]), text("2147483647"));
    assert_eq!(DisplayFormat::Long.format(&[0x8000, 0x0000]), text("-2147483648"));
    assert_eq!(DisplayFormat::Long.format(&[0x0001, 0x0000]), text("65536"));
    assert_eq!(DisplayFormat::LongInverse.format(&[0x0001, 0x0000]), text("1"));
}

#[test]
fn float_fixture_one_and_a_half() {
    match DisplayFormat::Float.format(&[0x3FC0, 0x0000]) {
        Decoded::Single(bits) => {
            assert_eq!(bits, 0x3FC0_0000);
            assert_eq!(f32::from_bits(bits).to_string(), "1.5");
        }
        other => panic!("not a single-precision pattern: {:?}", other),
    }
}

#[test]
fn float_inverse_takes_the_last_word_as_high() {
    match DisplayFormat::FloatInverse.format(&[0x0000, 0x3FC0]) {
        Decoded::Single(bits) => assert_eq!(f32::from_bits(bits).to_string(), "1.5"),
        other => panic!("not a single-precision pattern: {:?}", other),
    }
}

#[test]
fn double_assembles_four_words() {
    let bits = 2.5f64.to_bits();
    let words = [
        (bits >> 48) as u16,
        (bits >> 32) as u16,
        (bits >> 16) as u16,
        bits as u16,
    ];
    assert_eq!(DisplayFormat::Double.format(&words), Decoded::Double(bits));
    let backwards = [words[3], words[2], words[1], words[0]];
    assert_eq!(DisplayFormat::DoubleInverse.format(&backwards), Decoded::Double(bits));
    match DisplayFormat::Double.format(&words) {
        Decoded::Double(b) => assert_eq!(f64::from_bits(b).to_string(), "2.5"),
        other => panic!("not a double-precision pattern: {:?}", other),
    }
}

#[test]
fn too_few_words_give_the_unavailable_mark() {
    for format in DisplayFormat::ALL {
        let needed = format.register_count();
        for len in 0..needed {
            let words = vec![0xBEEFu16; len];
            assert_eq!(format.format(&words), text("-"));
        }
    }
}

#[test]
fn only_the_first_words_are_read() {
    let long = [0x0102u16, 0x0304, 0x0506, 0x0708, 0x090A, 0x0B0C];
    for format in DisplayFormat::ALL {
        let needed = format.register_count();
        assert_eq!(format.format(&long), format.format(&long[..needed]));
    }
}

#[test]
fn decoding_twice_gives_the_same() {
    let words = [0x8001u16, 0x7FFE, 0x1234, 0xFEDC];
    for format in DisplayFormat::ALL {
        assert_eq!(format.format(&words), format.format(&words));
    }
}

#[test]
fn register_counts() {
    let counts: Vec<usize> = DisplayFormat::ALL.iter().map(|f| f.register_count()).collect();
    assert_eq!(counts, vec![1, 1, 1, 1, 2, 2, 2, 2, 4, 4]);
}

#[test]
fn labels() {
    let labels: Vec<&str> = DisplayFormat::ALL.iter().map(|f| f.label()).collect();
    assert_eq!(
        labels,
        vec![
            "Signed",
            "Unsigned",
            "Hex",
            "Binary",
            "Long",
            "Long Inverse",
            "Float",
            "Float Inverse",
            "Double",
            "Double Inverse"
        ]
    );
}

#[test]
fn inverse_formats() {
    let inverse: Vec<bool> = DisplayFormat::ALL.iter().map(|f| f.is_inverse()).collect();
    assert_eq!(
        inverse,
        vec![false, false, false, false, false, true, false, true, false, true]
    );
}
