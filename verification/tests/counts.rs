use headr::config::parse_count;
use headr::number::parse_bounded;
use headr::{configure, parse_positive_int, Limit, UsageError};

fn names(list: &[&str]) -> Vec<String> {
    list.iter().map(|s| s.to_string()).collect()
}

#[test]
fn test_parse_positive_int() {
    // 3 is an OK integer
    let res = parse_positive_int("3");
    assert!(res.is_ok());
    assert_eq!(res.unwrap(), 3);

    // Any string is an error
    let res = parse_positive_int("foo");
    assert!(res.is_err());
    assert_eq!(res.unwrap_err().to_string(), "foo".to_string());

    // zero is an error
    let res = parse_positive_int("0");
    assert!(res.is_err());
    assert_eq!(res.unwrap_err().to_string(), "0".to_string());
}

#[test]
fn positive_int_agrees_with_std_on_edge_cases() {
    let cases = [
        "", "+", "-", "+3", "-3", "007", "000", "+0", " 3", "3 ", "3a", "a3", "1_000", "٣", "3\u{e9}",
        "\u{e9}", "+\u{e9}", "++3", "18446744073709551615", "18446744073709551616",
        "99999999999999999999999999", "4294967295", "4294967296", "10", "1",
    ];
    for text in cases {
        let expected = match text.parse::<usize>() {
            Ok(n) if n > 0 => Ok(n),
            _ => Err(text.to_string()),
        };
        assert_eq!(parse_positive_int(text), expected, "on {:?}", text);
    }
}

#[test]
fn positive_int_exact_values() {
    assert_eq!(parse_positive_int("+3"), Ok(3));
    assert_eq!(parse_positive_int("007"), Ok(7));
    assert_eq!(parse_positive_int("1234567890"), Ok(1234567890));
    assert_eq!(parse_positive_int(&usize::MAX.to_string()), Ok(usize::MAX));
    assert_eq!(parse_positive_int("-1"), Err("-1".to_string()));
    assert_eq!(parse_positive_int(""), Err(String::new()));
    assert_eq!(
        parse_positive_int("340282366920938463463374607431768211456"),
        Err("340282366920938463463374607431768211456".to_string())
    );
}

#[test]
fn bounded_parse_respects_the_bound() {
    assert_eq!(parse_bounded("0", 0), Some(0));
    assert_eq!(parse_bounded("1", 0), None);
    assert_eq!(parse_bounded("9", 9), Some(9));
    assert_eq!(parse_bounded("10", 9), None);
    assert_eq!(parse_bounded("255", 255), Some(255));
    assert_eq!(parse_bounded("256", 255), None);
    assert_eq!(parse_bounded("0000000000000000000000255", 255), Some(255));
    assert_eq!(parse_bounded("18446744073709551615", u64::MAX), Some(u64::MAX));
    assert_eq!(parse_bounded("18446744073709551616", u64::MAX), None);
    assert_eq!(parse_bounded("x", u64::MAX), None);
}

#[test]
fn count_must_be_positive() {
    assert_eq!(parse_count("1"), Some(1));
    assert_eq!(parse_count("10"), Some(10));
    assert_eq!(parse_count("0"), None);
    assert_eq!(parse_count("+0"), None);
    assert_eq!(parse_count("ten"), None);
}

#[test]
fn defaults_apply_when_nothing_is_given() {
    let config = configure(Vec::new(), None, None).unwrap();
    assert_eq!(config.files, names(&["-"]));
    assert_eq!(config.lines, 10);
    assert_eq!(config.bytes, None);
    assert_eq!(config.limit(), Limit::Lines(10));
}

#[test]
fn given_values_are_kept() {
    let config = configure(names(&["a", "b"]), Some("3".to_string()), None).unwrap();
    assert_eq!(config.files, names(&["a", "b"]));
    assert_eq!(config.lines, 3);
    assert_eq!(config.bytes, None);
    assert_eq!(config.limit(), Limit::Lines(3));

    let config = configure(names(&["a"]), None, Some("7".to_string())).unwrap();
    assert_eq!(config.files, names(&["a"]));
    assert_eq!(config.lines, 10);
    assert_eq!(config.bytes, Some(7));
    assert_eq!(config.limit(), Limit::Bytes(7));
}

#[test]
fn lines_and_bytes_together_are_refused() {
    for files in [names(&[]), names(&["a"]), names(&["a", "b", "c"])] {
        for (lines, bytes) in [("1", "1"), ("0", "5"), ("x", "y"), ("10", "0")] {
            let res = configure(files.clone(), Some(lines.to_string()), Some(bytes.to_string()));
            assert!(matches!(res, Err(UsageError::Conflict)));
        }
    }
}

#[test]
fn zero_counts_are_refused() {
    let res = configure(names(&["a"]), Some("0".to_string()), None);
    assert!(matches!(res, Err(UsageError::Lines(ref t)) if t == "0"));
    let res = configure(names(&["a"]), None, Some("0".to_string()));
    assert!(matches!(res, Err(UsageError::Bytes(ref t)) if t == "0"));
    let res = configure(Vec::new(), None, Some("0".to_string()));
    assert!(matches!(res, Err(UsageError::Bytes(ref t)) if t == "0"));
}

#[test]
fn counts_that_are_no_numbers_are_refused() {
    let res = configure(names(&["a"]), Some("two".to_string()), None);
    assert!(matches!(res, Err(UsageError::Lines(ref t)) if t == "two"));
    let res = configure(names(&["a"]), None, Some("-4".to_string()));
    assert!(matches!(res, Err(UsageError::Bytes(ref t)) if t == "-4"));
    let res = configure(names(&["a"]), Some("18446744073709551616".to_string()), None);
    assert!(matches!(res, Err(UsageError::Lines(_))));
}

#[test]
fn usage_messages() {
    assert_eq!(
        UsageError::Conflict.message(),
        "the argument '--lines <LINES>' cannot be used with '--bytes <BYTES>'"
    );
    assert_eq!(
        UsageError::Lines("0".to_string()).message(),
        "invalid value '0' for '--lines <LINES>': not a positive integer"
    );
    assert_eq!(
        UsageError::Bytes("x".to_string()).message(),
        "invalid value 'x' for '--bytes <BYTES>': not a positive integer"
    );
}

#[test]
fn one_more_line_is_wanted_below_the_count() {
    assert!(Limit::Lines(2).wants_line(0));
    assert!(Limit::Lines(2).wants_line(1));
    assert!(!Limit::Lines(2).wants_line(2));
    assert!(!Limit::Lines(2).wants_line(3));
    assert!(!Limit::Bytes(5).wants_line(0));
}
