use hare::number::{freq_khz_of, is_float_text};

fn chars(s: &str) -> Vec<char> {
    s.chars().collect()
}

#[test]
fn float_text_follows_the_f64_grammar() {
    for text in [
        "0", "15", "1.5", "1.", ".5", "+3", "-3", "1e3", "1E+3", "2.5e-10", "inf", "INF", "-Infinity",
        "nan", "NaN", "+nAn", "007",
    ] {
        assert!(is_float_text(&chars(text)), "{text}");
        assert!(text.parse::<f64>().is_ok(), "{text}");
    }
    for text in [
        "", ".", "+", "-", "1..2", "1.2.3", "1e", "1e+", "e5", ".e5", " 1", "1 ", "infin", "nana", "0x10",
        "1,5", "++1", "1e3.5", "Infinityy",
    ] {
        assert!(!is_float_text(&chars(text)), "{text}");
        assert!(text.parse::<f64>().is_err(), "{text}");
    }
}

#[test]
fn frequency_text_rounds_to_the_nearest_khz() {
    assert_eq!(freq_khz_of(&chars("1.5")), Some(1500));
    assert_eq!(freq_khz_of(&chars("800")), Some(800_000));
    assert_eq!(freq_khz_of(&chars("999999999")), Some(999_999_999_000));
    assert!(is_float_text(&chars("999999999")));
    assert_eq!(freq_khz_of(&chars("+2")), Some(2000));
    assert_eq!(freq_khz_of(&chars(".5")), Some(500));
    assert_eq!(freq_khz_of(&chars("5.")), Some(5000));
    assert_eq!(freq_khz_of(&chars("1.25")), Some(1250));
    assert_eq!(freq_khz_of(&chars("1.0004")), Some(1000));
    assert_eq!(freq_khz_of(&chars("1.0005")), Some(1001));
    assert_eq!(freq_khz_of(&chars("0.9999")), Some(1000));
    assert_eq!(freq_khz_of(&chars("18446744073709551")), Some(18_446_744_073_709_551_000));
    assert_eq!(freq_khz_of(&chars("18446744073709551.615")), Some(u64::MAX));
    assert_eq!(freq_khz_of(&chars("18446744073709551.616")), None);
    assert_eq!(freq_khz_of(&chars("18446744073709552")), None);
    assert_eq!(freq_khz_of(&chars("-2")), None);
    assert_eq!(freq_khz_of(&chars("1e3")), None);
    assert_eq!(freq_khz_of(&chars("inf")), None);
    assert_eq!(freq_khz_of(&chars("1..5")), None);
}
