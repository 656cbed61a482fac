use wordmem::error::SyncError;
use wordmem::subject::{
    build_subject, build_test_subject, find_last_token, parse_timestamp, starts_with_marker,
    SYNC_MARKER,
};
use wordmem::timestamp::{contains_bracket, to_rfc3339_seconds};

const NEW_YEAR_2024: i64 = 1704067200;

#[test]
fn subject_of_a_known_instant() {
    assert_eq!(
        build_subject(NEW_YEAR_2024),
        Some("[wordmem][sync][2024-01-01T00:00:00Z]".to_string())
    );
}

#[test]
fn subject_of_the_epoch_and_before() {
    assert_eq!(build_subject(0), Some("[wordmem][sync][1970-01-01T00:00:00Z]".to_string()));
    assert_eq!(build_subject(-1), Some("[wordmem][sync][1969-12-31T23:59:59Z]".to_string()));
}

#[test]
fn test_subject_of_a_known_instant() {
    assert_eq!(
        build_test_subject(NEW_YEAR_2024),
        Some("[wordmem][test][2024-01-01T00:00:00Z]".to_string())
    );
}

#[test]
fn subject_round_trip() {
    for secs in [0i64, 1, -1, NEW_YEAR_2024, 951782400, 253402300799, -62167219200] {
        let subject = build_subject(secs).unwrap();
        assert!(starts_with_marker(&subject));
        assert_eq!(parse_timestamp(&subject), Ok(secs));
    }
}

#[test]
fn an_instant_beyond_four_digit_years_has_no_subject() {
    assert_eq!(build_subject(253402300800), None);
    assert_eq!(build_subject(i64::MAX), None);
    assert_eq!(build_subject(i64::MIN), None);
    assert_eq!(to_rfc3339_seconds(253402300800), None);
}

#[test]
fn rfc3339_text_to_the_second() {
    assert_eq!(to_rfc3339_seconds(NEW_YEAR_2024), Some("2024-01-01T00:00:00Z".to_string()));
}

#[test]
fn the_last_token_is_the_timestamp() {
    assert_eq!(parse_timestamp("[2000-01-01T00:00:00Z][2024-01-01T00:00:00Z]"), Ok(NEW_YEAR_2024));
    assert_eq!(
        parse_timestamp("Re: [wordmem][sync][2024-01-01T00:00:00Z] (fwd)"),
        Ok(NEW_YEAR_2024)
    );
}

#[test]
fn a_timestamp_with_an_offset_is_read_as_utc() {
    assert_eq!(parse_timestamp("[wordmem][sync][2024-01-01T08:00:00+08:00]"), Ok(NEW_YEAR_2024));
}

#[test]
fn a_timestamp_with_a_fraction_is_cut_to_the_second() {
    assert_eq!(parse_timestamp("[2024-01-01T00:00:00.750Z]"), Ok(NEW_YEAR_2024));
}

#[test]
fn a_subject_without_a_token_is_malformed() {
    assert_eq!(parse_timestamp(""), Err(SyncError::MalformedEnvelope));
    assert_eq!(parse_timestamp("hello"), Err(SyncError::MalformedEnvelope));
    assert_eq!(parse_timestamp("[2024-01-01T00:00:00Z"), Err(SyncError::MalformedEnvelope));
    assert_eq!(parse_timestamp("2024-01-01T00:00:00Z]"), Err(SyncError::MalformedEnvelope));
}

#[test]
fn a_last_token_that_is_no_timestamp_is_malformed() {
    assert_eq!(parse_timestamp("[wordmem][sync]"), Err(SyncError::MalformedEnvelope));
    assert_eq!(
        parse_timestamp("[2024-01-01T00:00:00Z][later]"),
        Err(SyncError::MalformedEnvelope)
    );
    assert_eq!(parse_timestamp("[wordmem][sync][]"), Err(SyncError::MalformedEnvelope));
    assert_eq!(parse_timestamp("[2024-13-01T00:00:00Z]"), Err(SyncError::MalformedEnvelope));
}

#[test]
fn tokens_are_found_from_left_to_right() {
    let chars = |s: &str| s.chars().collect::<Vec<char>>();
    assert_eq!(find_last_token(&chars("[a][b]")), Some(chars("b")));
    assert_eq!(find_last_token(&chars("[a[b]")), Some(chars("a[b")));
    assert_eq!(find_last_token(&chars("[a]b]")), Some(chars("a")));
    assert_eq!(find_last_token(&chars("[a][b")), Some(chars("a")));
    assert_eq!(find_last_token(&chars("[]")), Some(chars("")));
    assert_eq!(find_last_token(&chars("][")), None);
    assert_eq!(find_last_token(&chars("")), None);
    assert_eq!(find_last_token(&chars("[é][ü]")), Some(chars("ü")));
}

#[test]
fn the_marker_must_stand_at_the_start() {
    assert_eq!(SYNC_MARKER, "[wordmem][sync]");
    assert!(starts_with_marker("[wordmem][sync]"));
    assert!(starts_with_marker("[wordmem][sync][2024-01-01T00:00:00Z]"));
    assert!(!starts_with_marker("Re: [wordmem][sync][2024-01-01T00:00:00Z]"));
    assert!(!starts_with_marker("[wordmem][test][2024-01-01T00:00:00Z]"));
    assert!(!starts_with_marker("[wordmem][syn"));
    assert!(!starts_with_marker(""));
}

#[test]
fn brackets_are_found() {
    assert!(contains_bracket("a[b"));
    assert!(contains_bracket("a]b"));
    assert!(!contains_bracket("2024-01-01T00:00:00Z"));
    assert!(!contains_bracket(""));
}
