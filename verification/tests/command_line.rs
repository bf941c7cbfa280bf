use headr::cli::conclude;
use headr::{get_args, Limit, Notice, Refusal, Tokens, UsageError};

fn words(list: &[&str]) -> Vec<String> {
    list.iter().map(|s| s.to_string()).collect()
}

#[test]
fn no_arguments_give_the_defaults() {
    let config = get_args(&words(&["headr"])).unwrap();
    assert_eq!(config.files, words(&["-"]));
    assert_eq!(config.lines, 10);
    assert_eq!(config.bytes, None);
}

#[test]
fn names_are_kept_in_order() {
    let config = get_args(&words(&["headr", "b.txt", "a.txt", "-", "b.txt"])).unwrap();
    assert_eq!(config.files, words(&["b.txt", "a.txt", "-", "b.txt"]));
    assert_eq!(config.limit(), Limit::Lines(10));
}

#[test]
fn line_count_in_every_spelling() {
    for line in [
        words(&["headr", "-n", "2", "ten.txt"]),
        words(&["headr", "-n2", "ten.txt"]),
        words(&["headr", "--lines", "2", "ten.txt"]),
        words(&["headr", "--lines=2", "ten.txt"]),
        words(&["headr", "ten.txt", "-n", "2"]),
    ] {
        let config = get_args(&line).unwrap();
        assert_eq!(config.files, words(&["ten.txt"]));
        assert_eq!(config.lines, 2);
        assert_eq!(config.bytes, None);
    }
}

#[test]
fn byte_count_in_every_spelling() {
    for line in [
        words(&["headr", "-c", "5", "ten.txt"]),
        words(&["headr", "-c5", "ten.txt"]),
        words(&["headr", "--bytes", "5", "ten.txt"]),
        words(&["headr", "--bytes=5", "ten.txt"]),
    ] {
        let config = get_args(&line).unwrap();
        assert_eq!(config.files, words(&["ten.txt"]));
        assert_eq!(config.lines, 10);
        assert_eq!(config.bytes, Some(5));
        assert_eq!(config.limit(), Limit::Bytes(5));
    }
}

#[test]
fn lines_with_bytes_is_a_usage_error() {
    for line in [
        words(&["headr", "-n", "1", "-c", "2"]),
        words(&["headr", "-c", "2", "-n", "1", "a", "b"]),
        words(&["headr", "--lines", "0", "--bytes", "x"]),
        words(&["headr", "a", "--bytes=3", "--lines=3"]),
    ] {
        assert!(matches!(get_args(&line), Err(Refusal::Usage(UsageError::Conflict))));
    }
}

#[test]
fn zero_is_a_usage_error() {
    let res = get_args(&words(&["headr", "-n", "0"]));
    assert!(matches!(res, Err(Refusal::Usage(UsageError::Lines(ref t))) if t == "0"));
    let res = get_args(&words(&["headr", "-c", "0", "a.txt"]));
    assert!(matches!(res, Err(Refusal::Usage(UsageError::Bytes(ref t))) if t == "0"));
    let res = get_args(&words(&["headr", "a.txt", "--lines=0"]));
    assert!(matches!(res, Err(Refusal::Usage(UsageError::Lines(ref t))) if t == "0"));
}

#[test]
fn a_count_that_is_no_number_is_a_usage_error() {
    let res = get_args(&words(&["headr", "-n", "two"]));
    assert!(matches!(res, Err(Refusal::Usage(UsageError::Lines(ref t))) if t == "two"));
    let res = get_args(&words(&["headr", "-c", "1.5"]));
    assert!(matches!(res, Err(Refusal::Usage(UsageError::Bytes(ref t))) if t == "1.5"));
}

#[test]
fn an_unknown_flag_is_a_failure() {
    let res = get_args(&words(&["headr", "--bogus"]));
    assert!(matches!(res, Err(Refusal::Parser(Notice { failure: true, .. }))));
    let res = get_args(&words(&["headr", "-x", "a.txt"]));
    assert!(matches!(res, Err(Refusal::Parser(Notice { failure: true, .. }))));
}

#[test]
fn a_missing_value_is_a_failure() {
    let res = get_args(&words(&["headr", "-n"]));
    assert!(matches!(res, Err(Refusal::Parser(Notice { failure: true, .. }))));
}

#[test]
fn help_and_version_are_no_failures() {
    for flag in ["--help", "-h", "--version", "-V"] {
        match get_args(&words(&["headr", flag])) {
            Err(Refusal::Parser(notice)) => {
                assert!(!notice.failure);
                assert!(!notice.text.is_empty());
            }
            other => panic!("{:?}", other),
        }
    }
}

#[test]
fn conclude_hands_a_notice_on() {
    let notice = Notice { text: "usage".to_string(), failure: true };
    match conclude(Err(notice)) {
        Err(Refusal::Parser(n)) => {
            assert_eq!(n.text, "usage");
            assert!(n.failure);
        }
        other => panic!("{:?}", other),
    }
}

#[test]
fn conclude_resolves_the_values_found() {
    let found = Tokens { files: words(&["a"]), lines: Some("4".to_string()), bytes: None };
    let config = conclude(Ok(found)).unwrap();
    assert_eq!(config.files, words(&["a"]));
    assert_eq!(config.lines, 4);
    assert_eq!(config.bytes, None);

    let found = Tokens { files: Vec::new(), lines: None, bytes: Some("0".to_string()) };
    assert!(matches!(conclude(Ok(found)), Err(Refusal::Usage(UsageError::Bytes(ref t))) if t == "0"));

    let found = Tokens { files: Vec::new(), lines: Some("1".to_string()), bytes: Some("1".to_string()) };
    assert!(matches!(conclude(Ok(found)), Err(Refusal::Usage(UsageError::Conflict))));
}
