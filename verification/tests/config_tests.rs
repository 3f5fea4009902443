use flaky_test::config::apply_metas;
use flaky_test::config::classify_lit;
use flaky_test::config::parse_attr;
use flaky_test::config::split_metas;
use flaky_test::config::ConfigError;
use flaky_test::config::ConfigErrorKind;
use flaky_test::config::ErrSpan;
use flaky_test::config::ExecModel;
use flaky_test::config::LitClass;
use flaky_test::config::Meta;
use flaky_test::config::RetryConfig;
use flaky_test::config::Token;

fn ident(s: &str) -> Token {
    Token::Ident(s.to_string())
}

fn intlit(s: &str) -> Token {
    Token::IntLit(s.to_string())
}

fn err_of(r: Result<RetryConfig, ConfigError>) -> ConfigError {
    match r {
        Ok(_) => panic!("expected a configuration error"),
        Err(e) => e,
    }
}

#[test]
fn empty_attr_gives_default() {
    let cfg = parse_attr(&Vec::new(), false).unwrap();
    assert_eq!(cfg.attempts, 3);
    assert_eq!(cfg.model, ExecModel::Sync);
}

#[test]
fn default_is_three_sync_attempts() {
    let cfg = RetryConfig::default();
    assert_eq!(cfg.attempts, 3);
    assert_eq!(cfg.model, ExecModel::Sync);
}

#[test]
fn bare_integer_sets_attempts() {
    let cfg = parse_attr(&vec![intlit("7")], false).unwrap();
    assert_eq!(cfg.attempts, 7);
    assert_eq!(cfg.model, ExecModel::Sync);
}

#[test]
fn named_times_sets_attempts() {
    let tokens = vec![ident("times"), Token::Equals, intlit("10")];
    let cfg = parse_attr(&tokens, false).unwrap();
    assert_eq!(cfg.attempts, 10);
    assert_eq!(cfg.model, ExecModel::Sync);
}

#[test]
fn leading_zeros_are_still_a_value() {
    let tokens = vec![ident("times"), Token::Equals, intlit("007")];
    let cfg = parse_attr(&tokens, false).unwrap();
    assert_eq!(cfg.attempts, 7);
}

#[test]
fn repeated_times_keeps_the_last_value() {
    let tokens = vec![
        ident("times"),
        Token::Equals,
        intlit("2"),
        Token::Comma,
        ident("times"),
        Token::Equals,
        intlit("4"),
    ];
    let cfg = parse_attr(&tokens, false).unwrap();
    assert_eq!(cfg.attempts, 4);
}

#[test]
fn trailing_comma_is_allowed() {
    let tokens = vec![ident("times"), Token::Equals, intlit("9"), Token::Comma];
    let cfg = parse_attr(&tokens, false).unwrap();
    assert_eq!(cfg.attempts, 9);
}

#[test]
fn times_zero_is_rejected() {
    let tokens = vec![ident("times"), Token::Equals, intlit("0")];
    let e = err_of(parse_attr(&tokens, false));
    assert_eq!(e.kind, ConfigErrorKind::NonPositiveTimes);
    assert_eq!(e.span, ErrSpan::AttrToken(2));
    assert_eq!(e.message(), "`times` must be at least 1");
}

#[test]
fn negative_times_is_rejected() {
    let e = err_of(parse_attr(&vec![intlit("-2")], false));
    assert_eq!(e.kind, ConfigErrorKind::NonPositiveTimes);
    assert_eq!(e.span, ErrSpan::AttrToken(0));
}

#[test]
fn non_integer_times_is_rejected() {
    let tokens = vec![ident("times"), Token::Equals, Token::Other("\"x\"".to_string())];
    let e = err_of(parse_attr(&tokens, false));
    assert_eq!(e.kind, ConfigErrorKind::InvalidTimesValue);
    assert_eq!(e.span, ErrSpan::AttrToken(2));
    assert_eq!(e.message(), "expected an integer value for `times`");
}

#[test]
fn oversized_times_is_rejected() {
    // one past u64::MAX
    let tokens = vec![ident("times"), Token::Equals, intlit("18446744073709551616")];
    let e = err_of(parse_attr(&tokens, false));
    assert_eq!(e.kind, ConfigErrorKind::InvalidTimesValue);
}

#[test]
fn largest_times_value_is_accepted() {
    let tokens = vec![ident("times"), Token::Equals, intlit("18446744073709551615")];
    let cfg = parse_attr(&tokens, false).unwrap();
    assert_eq!(cfg.attempts, u64::MAX);
}

#[test]
fn unknown_option_is_rejected() {
    let e = err_of(parse_attr(&vec![ident("retries")], false));
    assert_eq!(e.kind, ConfigErrorKind::UnknownOption);
    assert_eq!(e.span, ErrSpan::AttrToken(0));
    assert_eq!(e.message(), "expected `times = <int>` or `tokio`");
}

#[test]
fn unknown_named_option_is_rejected() {
    let tokens = vec![ident("count"), Token::Equals, intlit("5")];
    let e = err_of(parse_attr(&tokens, false));
    assert_eq!(e.kind, ConfigErrorKind::UnknownOption);
    assert_eq!(e.span, ErrSpan::AttrToken(0));
}

#[test]
fn tokio_marker_needs_support() {
    let e = err_of(parse_attr(&vec![ident("tokio")], false));
    assert_eq!(e.kind, ConfigErrorKind::AsyncUnsupported);
    assert_eq!(e.span, ErrSpan::AttrToken(0));
}

#[test]
fn tokio_marker_selects_async() {
    let cfg = parse_attr(&vec![ident("tokio")], true).unwrap();
    assert_eq!(cfg.attempts, 3);
    assert_eq!(cfg.model, ExecModel::Async(None));
}

#[test]
fn tokio_options_are_captured_verbatim() {
    let tokens = vec![ident("tokio"), Token::Group("flavor = \"multi_thread\"".to_string())];
    let cfg = parse_attr(&tokens, true).unwrap();
    assert_eq!(cfg.model, ExecModel::Async(Some("flavor = \"multi_thread\"".to_string())));
}

#[test]
fn times_and_tokio_combine() {
    let tokens = vec![ident("tokio"), Token::Comma, ident("times"), Token::Equals, intlit("5")];
    let cfg = parse_attr(&tokens, true).unwrap();
    assert_eq!(cfg.attempts, 5);
    assert_eq!(cfg.model, ExecModel::Async(None));
}

#[test]
fn times_and_tokio_combine_in_either_order() {
    let tokens = vec![ident("times"), Token::Equals, intlit("5"), Token::Comma, ident("tokio")];
    let cfg = parse_attr(&tokens, true).unwrap();
    assert_eq!(cfg.attempts, 5);
    assert_eq!(cfg.model, ExecModel::Async(None));
}

#[test]
fn stray_comma_is_unparseable() {
    let e = err_of(parse_attr(&vec![Token::Comma], false));
    assert_eq!(e.kind, ConfigErrorKind::Unparseable);
    assert_eq!(e.span, ErrSpan::AttrToken(0));
}

#[test]
fn dangling_equals_is_unparseable() {
    let e = err_of(parse_attr(&vec![ident("times"), Token::Equals], false));
    assert_eq!(e.kind, ConfigErrorKind::Unparseable);
    assert_eq!(e.span, ErrSpan::AttrToken(1));
}

#[test]
fn missing_separator_is_unparseable() {
    let tokens = vec![ident("tokio"), ident("tokio")];
    let e = err_of(parse_attr(&tokens, true));
    assert_eq!(e.kind, ConfigErrorKind::Unparseable);
    assert_eq!(e.span, ErrSpan::AttrToken(1));
}

#[test]
fn classify_values() {
    assert_eq!(classify_lit(&"5".to_string()), LitClass::Value(5));
    assert_eq!(classify_lit(&"123".to_string()), LitClass::Value(123));
    assert_eq!(classify_lit(&"0".to_string()), LitClass::NonPositive);
    assert_eq!(classify_lit(&"-0".to_string()), LitClass::NonPositive);
    assert_eq!(classify_lit(&"-17".to_string()), LitClass::NonPositive);
    assert_eq!(classify_lit(&"".to_string()), LitClass::Malformed);
    assert_eq!(classify_lit(&"-".to_string()), LitClass::Malformed);
    assert_eq!(classify_lit(&"1x".to_string()), LitClass::Malformed);
    assert_eq!(classify_lit(&"18446744073709551615".to_string()), LitClass::Value(u64::MAX));
    assert_eq!(classify_lit(&"18446744073709551616".to_string()), LitClass::TooLarge);
    assert_eq!(classify_lit(&"99999999999999999999x".to_string()), LitClass::Malformed);
}

#[test]
fn split_keeps_spans() {
    let tokens = vec![
        ident("tokio"),
        Token::Comma,
        ident("times"),
        Token::Equals,
        intlit("5"),
        Token::Comma,
        intlit("9"),
        Token::Comma,
        ident("tokio"),
        Token::Group("x".to_string()),
    ];
    let metas = split_metas(&tokens).unwrap();
    assert_eq!(
        metas,
        vec![
            Meta::Path { at: 0, name: "tokio".to_string() },
            Meta::NameValue {
                at: 2,
                lit_at: 4,
                name: "times".to_string(),
                lit: "5".to_string(),
            },
            Meta::Bare { at: 6, lit: "9".to_string() },
            Meta::List { at: 8, name: "tokio".to_string(), args: "x".to_string() },
        ],
    );
    let cfg = apply_metas(&metas, true).unwrap();
    assert_eq!(cfg.attempts, 9);
    assert_eq!(cfg.model, ExecModel::Async(Some("x".to_string())));
}
