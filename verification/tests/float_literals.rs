use clv_provider::decimal::decimal_string;
use clv_provider::literal::is_float;

const ACCEPTED: [&str; 40] = [
    "0", "10", "007", "3.14", "1.", ".5", "+1", "-1", "+.5", "-.5", "+1.", "-0.0", "1e5", "1E5",
    "1e+5", "1e-5", "1.e5", ".5e5", "1.5e05", "12.34e-56", "1e999", "1e-999", "inf", "Inf", "INF",
    "iNf", "+inf", "-inf", "infinity", "Infinity", "INFINITY", "-infinity", "+InFiNiTy", "nan",
    "NaN", "NAN", "+nan", "-nan", "123456789012345678901234567890", "0.000000000000000000001",
];

const REJECTED: [&str; 44] = [
    "", " ", "+", "-", ".", "+.", "-.", "e", "e5", ".e5", "+e5", "1e", "1e+", "1e-", "1e5.",
    "1e5e5", "1e5.5", "1..", "1.2.3", "..1", "++1", "--1", "+-1", "1+", "1-", " 1", "1 ", "1 2",
    "1,5", "1_000", "0x10", "abc", "1a", "a1", "in", "infi", "infinit", "infinityy", "na", "nana",
    "nan1", "1inf", "１", "١",
];

#[test]
fn numbers_are_accepted() {
    for s in ACCEPTED {
        assert!(is_float(s), "{s:?} is a number");
    }
}

#[test]
fn other_texts_are_rejected() {
    for s in REJECTED {
        assert!(!is_float(s), "{s:?} is no number");
    }
}

#[test]
fn agrees_with_the_standard_parser() {
    for s in ACCEPTED {
        assert_eq!(is_float(s), s.parse::<f64>().is_ok(), "{s:?}");
    }
    for s in REJECTED {
        assert_eq!(is_float(s), s.parse::<f64>().is_ok(), "{s:?}");
    }
}

#[test]
fn agrees_with_the_standard_parser_on_short_texts() {
    let letters = ['0', '7', '+', '-', '.', 'e', 'E', 'i', 'n', 'f', 'a', ' ', 'x'];
    let n = letters.len();
    let mut checked = 0;
    for length in 0..5 {
        let mut total = 1;
        for _ in 0..length {
            total *= n;
        }
        for code in 0..total {
            let mut rest = code;
            let mut text = String::new();
            for _ in 0..length {
                text.push(letters[rest % n]);
                rest /= n;
            }
            assert_eq!(is_float(&text), text.parse::<f64>().is_ok(), "{text:?}");
            checked += 1;
        }
    }
    assert_eq!(checked, 1 + 13 + 169 + 2197 + 28561);
}

#[test]
fn letters_beyond_ascii_are_no_letters_of_a_number() {
    assert!(!is_float("ınf"));
    assert!(!is_float("İNF"));
    assert!(!is_float("nän"));
    assert_eq!(is_float("İNF"), "İNF".parse::<f64>().is_ok());
}

#[test]
fn every_decimal_text_is_a_number() {
    for v in [0, 1, -1, 9, 10, -10, 12345, -98765, i32::MAX, i32::MIN] {
        let text = decimal_string(v);
        assert!(is_float(&text));
        assert_eq!(text.parse::<f64>().unwrap(), v as f64);
    }
}
