use battery_indicator::number::{is_number, reads_as_number, MINUS, NINE, PLUS, POINT, ZERO};

fn refusal() -> Result<(), String> {
    Err(String::from("Value is not a number"))
}

#[test]
fn accepts_whole_numbers() {
    for text in ["0", "7", "20", "30", "100", "007", "2147483647"] {
        assert_eq!(is_number(text.to_string()), Ok(()), "{:?}", text);
    }
}

#[test]
fn accepts_signed_numbers() {
    for text in ["+5", "-5", "-0", "+0", "-2147483648", "+20.5", "-0.25", "-0000000001"] {
        assert_eq!(is_number(text.to_string()), Ok(()), "{:?}", text);
    }
}

#[test]
fn accepts_numbers_with_a_fraction() {
    for text in ["1.5", "20.5", "0.5", "0.0", "19.999", "100.0", "00.50", "3.14159265358979"] {
        assert_eq!(is_number(text.to_string()), Ok(()), "{:?}", text);
    }
}

#[test]
fn accepts_numbers_of_any_size() {
    for text in [
        "2147483648",
        "-2147483649",
        "3000000000",
        "4294967296",
        "99999999999",
        "-99999999999",
        "18446744073709551616",
        "340282366920938463463374607431768211456",
        "0.000000000000000000000000000000000000000000000000000001",
        "123456789012345678901234567890.123456789012345678901234567890",
    ] {
        assert_eq!(is_number(text.to_string()), Ok(()), "{:?}", text);
    }
}

#[test]
fn refuses_text_that_is_no_number() {
    for text in [
        "", "+", "-", ".", "+.", "-.", "abc", "20%", " 20", "20 ", "2 0", "1_000", "1,5", "0x14",
        "1e3", "1E3", "1.5e3", "--5", "+-5", "5-", "5+", "٣", "２０", "20\n", "\t20", "NaN", "nan",
        "inf", "-inf", "infinity", "é", "1é",
    ] {
        assert_eq!(is_number(text.to_string()), refusal(), "{:?}", text);
    }
}

#[test]
fn refuses_a_point_without_digits_on_both_sides() {
    for text in ["5.", ".5", "-.5", "+5.", "1..5", "1.2.3", "..", "1.+5", "1.-5", ".1.", "0.1."] {
        assert_eq!(is_number(text.to_string()), refusal(), "{:?}", text);
    }
}

#[test]
fn refuses_a_sign_anywhere_but_in_front() {
    for text in ["1+1", "1-1", "++1", "1.5-", "1.+", "-+1", "+ 1"] {
        assert_eq!(is_number(text.to_string()), refusal(), "{:?}", text);
    }
}

#[test]
fn refusal_carries_the_message_for_the_user() {
    assert_eq!(is_number("twenty".to_string()), Err("Value is not a number".to_string()));
}

#[test]
fn reads_as_number_and_is_number_agree() {
    for text in ["", "0", "20", "20.5", "-1", "+", "1e3", "5.", ".5", "3000000000", "x", "1.2.3"] {
        assert_eq!(reads_as_number(text), is_number(text.to_string()).is_ok(), "{:?}", text);
    }
}

#[test]
fn whatever_is_accepted_parses_as_a_floating_point_number() {
    let texts = [
        "", "0", "-0", "+0", "1", "-1", "+1", "12", "20", "30", "20.5", "-20.5", "+20.5", "0.5",
        "00.5", "5.0", "5.", ".5", "1.5.2", "2147483647", "2147483648", "-2147483649",
        "340282366920938463463374607431768211456", "99999999999999999999999999999999999999999",
        "0.000000000000000000000000000000000000000000000001", "+", "-", ".", "+-1", "-+1", "++1",
        "1+", "1-", "a", "1a", "a1", "1e3", "inf", "NaN", " 1", "1 ", "\t1", "1\u{0}", "\u{0}1",
        "é", "1é", "١٢٣", "1,000", "１", "1_0",
    ];
    for text in texts {
        if reads_as_number(text) {
            assert!(text.parse::<f32>().is_ok(), "{:?}", text);
            assert!(text.parse::<f64>().is_ok(), "{:?}", text);
        }
    }
}

#[test]
fn every_integer_printed_in_decimal_is_accepted() {
    for n in [i64::MIN, i32::MIN as i64, -1_000_000, -20, -1, 0, 1, 19, 20, 30, 65_536, i64::MAX] {
        assert!(reads_as_number(&n.to_string()), "{}", n);
        assert!(reads_as_number(&format!("{:+}", n)), "{:+}", n);
    }
}

#[test]
fn every_finite_number_printed_with_a_fraction_is_accepted() {
    for x in [0.0f32, -0.0, 0.5, 1.5, 19.99, 20.0, 99.999, 100.0, -3.25, 16_777_216.0, f32::MAX, f32::MIN] {
        assert!(reads_as_number(&format!("{:.3}", x)), "{:.3}", x);
        assert!(reads_as_number(&format!("{:+.1}", x)), "{:+.1}", x);
    }
}

#[test]
fn byte_constants_are_the_ascii_characters() {
    assert_eq!(PLUS, b'+');
    assert_eq!(MINUS, b'-');
    assert_eq!(POINT, b'.');
    assert_eq!(ZERO, b'0');
    assert_eq!(NINE, b'9');
}
