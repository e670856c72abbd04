//! Texts, numbers and JSON.
use accessible_obs::json::{Fields, Json};
use accessible_obs::number::{reading_of_int, reading_of_word, Reading};
use accessible_obs::retry::{keep_waiting, Backoff, Waiting};
use accessible_obs::text::{
    contains, join, lines, number, parse_whole_number, signed_number, split, split_last,
    split_once, take_chars, to_lower, trim, words, Class,
};

#[test]
fn texts_are_cut_and_joined() {
    assert_eq!(trim("\u{3000} a b\t\n"), "a b");
    assert_eq!(lines("a\r\nb\n\nc\n"), vec!["a", "b", "", "c"]);
    assert_eq!(split("a,b,", &Class::Is(',')), vec!["a", "b", ""]);
    assert_eq!(words("  a  b ", &Class::Space), vec!["a", "b"]);
    assert_eq!(split_once("a=b=c", "="), Some(("a".into(), "b=c".into())));
    assert_eq!(split_last("a:b:c", ":"), Some(("a:b".into(), "c".into())));
    assert_eq!(split_once("abc", "="), None);
    assert!(contains("привет", "иве"));
    assert_eq!(join(&vec!["a".into(), "b".into()], ", "), "a, b");
    assert_eq!(take_chars("привет", 3), "при");
    assert_eq!(to_lower("ABC Я"), "abc Я");
}

#[test]
fn numbers_are_written_and_read() {
    assert_eq!(number(0), "0");
    assert_eq!(number(u128::from(u64::MAX)), "18446744073709551615");
    assert_eq!(signed_number(i64::MIN), "-9223372036854775808");
    assert_eq!(parse_whole_number("-7"), Some(-7));
    assert_eq!(parse_whole_number("+7"), Some(7));
    assert_eq!(parse_whole_number(""), None);
    assert_eq!(parse_whole_number("-"), None);
    assert_eq!(parse_whole_number("9223372036854775807"), Some(i64::MAX));
    assert_eq!(parse_whole_number("9223372036854775808"), None);
    assert_eq!(parse_whole_number("1.0"), None);
}

fn reading(x: f64) -> Reading {
    Reading { bits: x.to_bits() }
}

/// Numbers of all kinds, among them such as are hard to round.
fn numbers() -> Vec<f64> {
    let mut list = vec![
        0.0, -0.0, 0.05, 0.15, 0.25, 0.5, 0.75, 1.0, 1.5, 2.5, -3.5, 0.1, 0.2, 1.15, 51.2, 1024.0,
        9007199254740993.0, 1e16, 1e22, 1e23, 1.7976931348623157e308, 2.2250738585072014e-308,
        2.225073858507201e-308, 5e-324, 1e-320, -1e300, f64::INFINITY, f64::NEG_INFINITY, f64::NAN,
    ];
    let mut seed = 88172645463325252u64;
    for _ in 0..40 {
        seed ^= seed << 13;
        seed ^= seed >> 7;
        seed ^= seed << 17;
        list.push(f64::from_bits(seed));
        list.push((seed % 100_000) as f64 / 64.0);
    }
    list
}

/// Whether two numbers are the same; all that are no numbers are.
fn same(a: Reading, b: f64) -> bool {
    a.bits == b.to_bits() || (a.is_nan() && b.is_nan())
}

#[test]
fn arithmetic_is_that_of_doubles() {
    let list = numbers();
    for &a in &list {
        assert!(same(reading(a).times(100), a * 100.0), "{a} * 100");
        for &b in &list {
            assert!(same(reading(a).minus(&reading(b)), a - b), "{a} - {b}");
            assert!(same(reading(a).over(&reading(b)), a / b), "{a} / {b}");
            assert_eq!(reading(a).is_above(&reading(b)), a > b, "{a} > {b}");
        }
    }
}

#[test]
fn numbers_are_printed_as_doubles_are() {
    for a in numbers() {
        assert_eq!(reading(a).with_no_places(), format!("{a:.0}"));
        assert_eq!(reading(a).with_one_place(), format!("{a:.1}"));
        for n in [-50, -1, 0, 1, 2048, 5000] {
            assert_eq!(reading(a).below(n), a < f64::from(n), "{a} < {n}");
            assert_eq!(reading(a).above(n), a > f64::from(n), "{a} > {n}");
        }
    }
}

#[test]
fn whole_numbers_become_the_nearest_double() {
    for n in [0, 1, -1, -20, i64::MAX, i64::MIN, 9007199254740993, -9007199254740995, 12345] {
        assert_eq!(reading_of_int(n).bits, (n as f64).to_bits(), "{n}");
    }
    for n in [0, u64::MAX, u64::MAX - 1024, 1 << 63, 18446744073709549568] {
        assert_eq!(reading_of_word(n).bits, (n as f64).to_bits(), "{n}");
    }
}

#[test]
fn waiting_ends_with_success_or_with_the_limit() {
    assert_eq!(keep_waiting(0, 1000, false), Waiting::Again);
    assert_eq!(keep_waiting(999, 1000, false), Waiting::Again);
    assert_eq!(keep_waiting(1000, 1000, false), Waiting::GaveUp);
    assert_eq!(keep_waiting(5000, 1000, true), Waiting::Up);
}

#[test]
fn values_are_read_printed_and_compared() {
    let v = Json::parse(r#"{"b":[1,-2,18446744073709551615,0.25,"я",null,true],"a":{}}"#).unwrap();
    assert_eq!(
        v.to_text(),
        r#"{"a":{},"b":[1,-2,18446744073709551615,0.25,"я",null,true]}"#
    );
    assert_eq!(
        Json::parse("{\"a\":1}").unwrap().to_pretty_text(),
        "{\n  \"a\": 1\n}"
    );
    assert!(v.equals(&v.copy()));
    assert!(!v.equals(&Json::Null));
    assert!(Json::parse("{").is_err());
    assert!(matches!(Json::parse_or_null("мусор"), Json::Null));
    // Of two fields of one name the last counts.
    assert_eq!(Json::parse(r#"{"a":1,"a":2}"#).unwrap().get_int("a"), Some(2));
    assert_eq!(v.get("b").unwrap().as_str(), None);
    assert_eq!(v.get_array("b").unwrap()[3].reading().unwrap().bits, 0.25f64.to_bits());
    assert_eq!(v.get_array("b").unwrap()[2].reading().unwrap().bits, (u64::MAX as f64).to_bits());
    assert!(v.get_array("b").unwrap()[4].reading().is_none());
}

#[test]
fn pauses_double_up_to_a_bound() {
    let mut b = Backoff::new(500, 15_000);
    assert_eq!(b.next(false), 500);
    assert_eq!(b.next(false), 1_000);
    for _ in 0..10 {
        b.next(false);
    }
    assert_eq!(b.next(false), 15_000);
    assert_eq!(b.next(true), 500);
}

#[test]
fn numbers_with_a_fraction_pass_through_unchanged() {
    for raw in [
        "0.1",
        "-0.0",
        "1.7976931348623157e308",
        "2.2250738585072014e-308",
        "5e-324",
        "123456789.12345679",
        "8.41165e-7",
        "[0.30000000000000004,1e21,-6.02214076e23]",
    ] {
        let direct: serde_json::Value = serde_json::from_str(raw).unwrap();
        assert_eq!(Json::parse(raw).unwrap().to_text(), direct.to_string(), "{raw}");
    }
    // A number that changes its last digit where it is read, printed and read again.
    let mut changed = 0;
    for i in 1..2000u32 {
        let raw = format!("{}.{}e-{}", i * 7919, i * 104_729, 5 + i % 20);
        let direct: serde_json::Value = serde_json::from_str(&raw).unwrap();
        let again: serde_json::Value = serde_json::from_str(&direct.to_string()).unwrap();
        if again != direct {
            changed += 1;
        }
        assert_eq!(Json::parse(&raw).unwrap().to_text(), direct.to_string(), "{raw}");
    }
    assert!(changed > 0);
}

#[test]
fn an_object_that_marks_raw_text_is_not_read_as_one() {
    let marked = r#"{"$serde_json::private::RawValue":"1"}"#;
    assert!(Json::parse(marked).unwrap().equals(&Json::Int(1)));
    let object = Fields::new().put("$serde_json::private::RawValue", Json::text("1")).json();
    assert!(!Json::parse(&object.to_text()).unwrap().equals(&object));
}

#[test]
fn values_are_read_down_to_a_depth() {
    let nested = |n: usize| format!("{}{}", "[".repeat(n), "]".repeat(n));
    let deepest = Json::parse(&nested(127)).unwrap();
    assert_eq!(deepest.to_text(), nested(127));
    assert!(Json::parse(&deepest.to_text()).unwrap().equals(&deepest));
    assert!(Json::parse(&nested(128)).is_err());
}

#[test]
fn fields_are_printed_in_their_order() {
    let fields = Fields::new().put("b", Json::Int(1)).put("a", Json::Null);
    assert_eq!(fields.to_text(), r#"{"b":1,"a":null}"#);
    assert_eq!(fields.to_pretty_text(), "{\n  \"b\": 1,\n  \"a\": null\n}");
    assert_eq!(fields.json().to_text(), r#"{"a":null,"b":1}"#);
}
