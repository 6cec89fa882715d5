use annotation_scoring::config::{Config, ConfigError};
use annotation_scoring::decimal::{decimal_string, signed_decimal_string};
use annotation_scoring::error::ScoringError;
use annotation_scoring::pagination::Page;

#[test]
fn port_is_read_from_digits() {
    assert_eq!(Config::parse_port("8080"), Some(8080));
    assert_eq!(Config::parse_port("0"), Some(0));
    assert_eq!(Config::parse_port("65535"), Some(65535));
    assert_eq!(Config::parse_port("0080"), Some(80));
    assert_eq!(Config::parse_port("+443"), Some(443));
}

#[test]
fn port_above_the_greatest_is_refused() {
    assert_eq!(Config::parse_port("65536"), None);
    assert_eq!(Config::parse_port("99999999999999999999999"), None);
}

#[test]
fn port_with_anything_but_digits_is_refused() {
    for text in ["", "+", "-80", " 80", "80 ", "8o80", "80.0", "++80", "\u{0663}\u{0663}"] {
        assert_eq!(Config::parse_port(text), None, "{:?}", text);
    }
}

#[test]
fn port_is_read_as_the_standard_library_reads_it() {
    for text in ["8080", "0", "65535", "65536", "+1", "+", "", "-1", "007", "1e3", "12345678"] {
        assert_eq!(Config::parse_port(text), text.parse::<u16>().ok(), "{:?}", text);
    }
}

#[test]
fn settings_fall_back_on_their_defaults() {
    let config = Config::from_values(None, None).unwrap();
    assert_eq!(config.database_url, "postgresql://localhost/opengraph");
    assert_eq!(config.port, 8080);
}

#[test]
fn settings_take_what_is_given() {
    let config =
        Config::from_values(Some("postgresql://db/annotations".to_string()), Some("9000".to_string()))
            .unwrap();
    assert_eq!(config.database_url, "postgresql://db/annotations");
    assert_eq!(config.port, 9000);
}

#[test]
fn settings_refuse_a_port_that_is_no_number() {
    let result = Config::from_values(None, Some("http".to_string()));
    assert!(matches!(result, Err(ConfigError::InvalidPort)));
}

#[test]
fn page_defaults_to_fifty_from_the_start() {
    assert_eq!(Page::from_query(None, None), Page { limit: 50, offset: 0 });
    assert_eq!(Page::from_query(Some(5), None), Page { limit: 5, offset: 0 });
    assert_eq!(Page::from_query(None, Some(100)), Page { limit: 50, offset: 100 });
    assert_eq!(Page::from_query(Some(-1), Some(-2)), Page { limit: -1, offset: -2 });
}

#[test]
fn top_scores_default_to_ten() {
    assert_eq!(Page::top_limit(None), 10);
    assert_eq!(Page::top_limit(Some(3)), 3);
}

#[test]
fn numbers_are_written_in_decimal() {
    assert_eq!(decimal_string(0), "0");
    assert_eq!(decimal_string(7), "7");
    assert_eq!(decimal_string(10), "10");
    assert_eq!(decimal_string(1234567890), "1234567890");
    assert_eq!(decimal_string(u128::MAX), u128::MAX.to_string());
    assert_eq!(signed_decimal_string(0), "0");
    assert_eq!(signed_decimal_string(-1), "-1");
    assert_eq!(signed_decimal_string(i64::MIN), i64::MIN.to_string());
    assert_eq!(signed_decimal_string(i64::MAX), i64::MAX.to_string());
}

#[test]
fn scoring_errors_are_reported_in_words() {
    assert_eq!(
        ScoringError::CardinalityMismatch { expected: 3, actual: 2 }.message(),
        "Expected 3 submissions, got 2"
    );
    assert_eq!(
        ScoringError::CardinalityMismatch { expected: -4, actual: 120 }.message(),
        "Expected -4 submissions, got 120"
    );
    assert_eq!(
        ScoringError::NotFound { item_id: "img8".to_string() }.message(),
        "Ground truth not found for item img8"
    );
    assert_eq!(
        ScoringError::DataInconsistency.message(),
        "Ground truth data inconsistent with mission total_items"
    );
    assert_eq!(
        ScoringError::NumericConversionFailure.message(),
        "Failed to convert score to decimal"
    );
}

#[test]
fn scoring_errors_are_the_caller_s_or_the_store_s() {
    assert!(ScoringError::CardinalityMismatch { expected: 3, actual: 2 }.is_client_error());
    assert!(ScoringError::NotFound { item_id: "img8".to_string() }.is_client_error());
    assert!(!ScoringError::DataInconsistency.is_client_error());
    assert!(!ScoringError::NumericConversionFailure.is_client_error());
}
