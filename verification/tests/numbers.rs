use mini_lisp_interpreter::number::Number;
use mini_lisp_interpreter::value::is_integer;

fn parse(text: &str) -> Option<Number> {
    let chars: Vec<char> = text.chars().collect();
    Number::parse(&chars)
}

fn written(n: Number) -> String {
    let mut out = String::new();
    n.write(&mut out);
    out
}

#[test]
fn numerals_are_read_as_millionths() {
    assert_eq!(parse("42"), Some(Number { scaled: 42_000_000 }));
    assert_eq!(parse("+42"), Some(Number { scaled: 42_000_000 }));
    assert_eq!(parse("-42"), Some(Number { scaled: -42_000_000 }));
    assert_eq!(parse("3.14"), Some(Number { scaled: 3_140_000 }));
    assert_eq!(parse(".5"), Some(Number { scaled: 500_000 }));
    assert_eq!(parse("5."), Some(Number { scaled: 5_000_000 }));
    assert_eq!(parse("0.000001"), Some(Number { scaled: 1 }));
    assert_eq!(parse("-0.25"), Some(Number { scaled: -250_000 }));
}

#[test]
fn digits_beyond_the_sixth_place_are_dropped() {
    assert_eq!(parse("0.1234567"), Some(Number { scaled: 123_456 }));
    assert_eq!(parse("1.0000009"), Some(Number { scaled: 1_000_000 }));
}

#[test]
fn what_is_no_numeral_is_not_read() {
    assert_eq!(parse(""), None);
    assert_eq!(parse("+"), None);
    assert_eq!(parse("-"), None);
    assert_eq!(parse("."), None);
    assert_eq!(parse("1.2.3"), None);
    assert_eq!(parse("12a"), None);
    assert_eq!(parse("1e5"), None);
    assert_eq!(parse("--1"), None);
}

#[test]
fn numerals_out_of_range_are_not_read() {
    assert_eq!(parse("9223372036854"), Some(Number { scaled: 9_223_372_036_854_000_000 }));
    assert_eq!(parse("9223372036854.775807"), Some(Number { scaled: i64::MAX }));
    assert_eq!(parse("9223372036854.775808"), None);
    assert_eq!(parse("9223372036855"), None);
    assert_eq!(parse("-9223372036854.775807"), Some(Number { scaled: -i64::MAX }));
}

#[test]
fn numbers_are_written_without_needless_digits() {
    assert_eq!(written(Number { scaled: 0 }), "0");
    assert_eq!(written(Number { scaled: 42_000_000 }), "42");
    assert_eq!(written(Number { scaled: -42_000_000 }), "-42");
    assert_eq!(written(Number { scaled: 3_140_000 }), "3.14");
    assert_eq!(written(Number { scaled: -500_000 }), "-0.5");
    assert_eq!(written(Number { scaled: 1 }), "0.000001");
    assert_eq!(written(Number { scaled: 1_000_001 }), "1.000001");
    assert_eq!(written(Number { scaled: 10_100_000 }), "10.1");
    assert_eq!(written(Number { scaled: i64::MAX }), "9223372036854.775807");
    assert_eq!(written(Number { scaled: i64::MIN }), "-9223372036854.775808");
}

#[test]
fn sums_and_differences_are_exact() {
    let a = Number { scaled: 1_500_000 };
    let b = Number { scaled: 2_250_000 };
    assert_eq!(a.add(b), Some(Number { scaled: 3_750_000 }));
    assert_eq!(a.subtract(b), Some(Number { scaled: -750_000 }));
    assert_eq!(a.negate(), Some(Number { scaled: -1_500_000 }));
    assert_eq!(Number { scaled: i64::MAX }.add(Number { scaled: 1 }), None);
    assert_eq!(Number { scaled: i64::MIN }.subtract(Number { scaled: 1 }), None);
    assert_eq!(Number { scaled: i64::MIN }.negate(), None);
}

#[test]
fn products_and_ratios_round_towards_zero() {
    let a = Number { scaled: 1_500_000 };
    assert_eq!(a.multiply(a), Some(Number { scaled: 2_250_000 }));
    assert_eq!(Number { scaled: 1 }.multiply(Number { scaled: 1 }), Some(Number { scaled: 0 }));
    assert_eq!(Number { scaled: -1 }.multiply(Number { scaled: 999_999 }), Some(Number { scaled: 0 }));
    assert_eq!(Number::one().divide(Number { scaled: 3_000_000 }), Some(Number { scaled: 333_333 }));
    assert_eq!(
        Number { scaled: -1_000_000 }.divide(Number { scaled: 3_000_000 }),
        Some(Number { scaled: -333_333 })
    );
    assert_eq!(
        Number { scaled: 2_000_000 }.divide(Number { scaled: -3_000_000 }),
        Some(Number { scaled: -666_666 })
    );
    assert_eq!(Number::one().divide(Number::zero()), None);
    assert_eq!(Number { scaled: i64::MAX }.multiply(Number { scaled: 2_000_000 }), None);
    assert_eq!(Number { scaled: i64::MAX }.divide(Number { scaled: 1 }), None);
}

#[test]
fn whole_parts_and_integrality() {
    assert!(is_integer(&Number { scaled: 3_000_000 }));
    assert!(is_integer(&Number { scaled: -3_000_000 }));
    assert!(is_integer(&Number { scaled: 0 }));
    assert!(!is_integer(&Number { scaled: 3_000_001 }));
    assert!(!is_integer(&Number { scaled: -1 }));
    assert_eq!(Number { scaled: 3_999_999 }.whole(), 3);
    assert_eq!(Number { scaled: -3_999_999 }.whole(), -3);
    assert_eq!(Number::from_integer(7), Some(Number { scaled: 7_000_000 }));
    assert_eq!(Number::from_integer(i64::MAX), None);
    assert_eq!(Number { scaled: -5 }.abs(), Some(Number { scaled: 5 }));
    assert_eq!(Number { scaled: i64::MIN }.abs(), None);
    assert!(Number::zero().is_zero());
    assert!(!Number::one().is_zero());
}

#[test]
fn numbers_are_read_as_they_are_written() {
    for scaled in [
        0,
        1,
        -1,
        999_999,
        1_000_000,
        -1_000_001,
        3_140_000,
        123_456_789_012,
        i64::MAX,
        -i64::MAX,
    ] {
        let n = Number { scaled };
        assert_eq!(parse(&written(n)), Some(n), "{}", scaled);
    }
    assert_eq!(parse(&written(Number { scaled: i64::MIN })), None);
}
