use graveyard::error::RecordError;
use graveyard::numeric::{parse_bool, parse_i32, FloatLiteral};

#[test]
fn parse_i32_reads_signed_decimals() {
    assert_eq!(parse_i32("120"), Ok(120));
    assert_eq!(parse_i32("-7"), Ok(-7));
    assert_eq!(parse_i32("+15"), Ok(15));
    assert_eq!(parse_i32("007"), Ok(7));
    assert_eq!(parse_i32("-0"), Ok(0));
}

#[test]
fn parse_i32_reaches_both_ends_of_the_range() {
    assert_eq!(parse_i32("2147483647"), Ok(i32::MAX));
    assert_eq!(parse_i32("-2147483648"), Ok(i32::MIN));
    assert_eq!(parse_i32("2147483648"), Err(RecordError::InvalidNumericField));
    assert_eq!(parse_i32("-2147483649"), Err(RecordError::InvalidNumericField));
    assert_eq!(
        parse_i32("99999999999999999999999999"),
        Err(RecordError::InvalidNumericField)
    );
}

#[test]
fn parse_i32_rejects_other_text() {
    for text in ["", "+", "-", "12a", " 12", "12 ", "1.5", "0x10", "١٢", "1_000", "--1"] {
        assert_eq!(parse_i32(text), Err(RecordError::InvalidNumericField), "{text:?}");
    }
}

#[test]
fn parse_i32_agrees_with_the_standard_library() {
    for text in ["0", "1", "-1", "+1", "0001", "2147483647", "2147483648", "-2147483648", "abc", "", "+", "5-", "٣"] {
        assert_eq!(parse_i32(text).ok(), i32::from_str_radix(text, 10).ok(), "{text:?}");
    }
}

#[test]
fn parse_bool_is_true_for_one_only() {
    assert!(parse_bool("1"));
    assert!(parse_bool("+1"));
    assert!(parse_bool("01"));
    assert!(!parse_bool("0"));
    assert!(!parse_bool("-1"));
    assert!(!parse_bool("2"));
    assert!(!parse_bool("yes"));
    assert!(!parse_bool("true"));
    assert!(!parse_bool(""));
    assert!(!parse_bool("1.0"));
}

#[test]
fn float_literal_takes_the_forms_of_a_number() {
    for text in [
        "0", "120", "1.175", "-3.5", "+2", "1.", ".5", "-.5", "1e5", "1E5", "1.5e-3", "1e+10",
        "1.e2", "inf", "-inf", "+Infinity", "NaN", "nan", "INF", "000.000",
        "123456789012345678901234567890", "1e99999999999",
    ] {
        let literal = FloatLiteral::parse(text);
        assert!(literal.is_some(), "{text:?}");
        assert_eq!(literal.unwrap().as_str(), text);
    }
}

#[test]
fn float_literal_rejects_other_text() {
    for text in [
        "", "+", "-", ".", "-.", "e5", ".e5", "1e", "1e+", "1e5.0", "1.5.2", "1,5", " 1", "1 ",
        "0x10", "1f32", "in", "infinit", "infinityy", "na", "nanx", "++1", "1_0", "١",
    ] {
        assert!(FloatLiteral::parse(text).is_none(), "{text:?}");
    }
}

#[test]
fn float_literal_agrees_with_the_standard_library() {
    for text in [
        "0", "1.", ".1", ".", "", "+", "1e", "1e-", "1e-1", "inf", "iNf", "infinity", "infinit",
        "nan", "+nan", "-NAN", "1.0e", "e1", "1ee1", "12.5E3", "12.5E+3", "0.0.0", "-", "+.e1",
        "+.1e1", "1e1e1", "٣.٥",
    ] {
        assert_eq!(
            FloatLiteral::parse(text).is_some(),
            text.parse::<f32>().is_ok(),
            "{text:?}"
        );
    }
}

fn all_texts(alphabet: &[char], longest: usize) -> Vec<String> {
    let mut texts = vec![String::new()];
    let mut from = 0;
    for _ in 0..longest {
        let until = texts.len();
        for i in from..until {
            for c in alphabet {
                let mut text = texts[i].clone();
                text.push(*c);
                texts.push(text);
            }
        }
        from = until;
    }
    texts
}

#[test]
fn float_literal_agrees_with_the_standard_library_on_short_texts() {
    for text in all_texts(&['+', '-', '.', 'e', 'E', '0', '7', ' '], 5) {
        assert_eq!(
            FloatLiteral::parse(&text).is_some(),
            text.parse::<f32>().is_ok(),
            "{text:?}"
        );
    }
}

#[test]
fn float_literal_agrees_with_the_standard_library_on_words() {
    for text in all_texts(&['i', 'N', 'f', 'a', 'n', '-'], 4) {
        assert_eq!(
            FloatLiteral::parse(&text).is_some(),
            text.parse::<f32>().is_ok(),
            "{text:?}"
        );
    }
    for word in ["infinity", "INFINITY", "Infinity", "iNfInItY", "infinitY", "infinitx", "xnfinity"] {
        for sign in ["", "+", "-", "+-"] {
            let text = format!("{sign}{word}");
            assert_eq!(
                FloatLiteral::parse(&text).is_some(),
                text.parse::<f32>().is_ok(),
                "{text:?}"
            );
        }
    }
}

#[test]
fn parse_i32_agrees_with_the_standard_library_on_short_texts() {
    for text in all_texts(&['+', '-', '0', '1', '9', 'a', '.'], 5) {
        assert_eq!(parse_i32(&text).ok(), i32::from_str_radix(&text, 10).ok(), "{text:?}");
    }
    for digits in ["2147483646", "2147483647", "2147483648", "2147483649", "21474836470", "4294967296", "4294967297"] {
        for sign in ["", "+", "-"] {
            for zeros in ["", "0", "000"] {
                let text = format!("{sign}{zeros}{digits}");
                assert_eq!(
                    parse_i32(&text).ok(),
                    i32::from_str_radix(&text, 10).ok(),
                    "{text:?}"
                );
            }
        }
    }
}
