use ops_desk::config::{check_interval_seconds, flag_is_set, DEFAULT_CHECK_INTERVAL_SECONDS};
use ops_desk::decimal::{append_decimal, parse_u64};

fn decimal_text(n: u64) -> String {
    let mut text = String::new();
    append_decimal(&mut text, n);
    text
}
use ops_desk::error::{railway_status_failed, railway_status_failed_output, AppError};

#[test]
fn flag_words_switch_on() {
    for word in ["1", "true", "yes", "on", "TRUE", "Yes", "oN"] {
        assert!(flag_is_set(Some(word)), "{word}");
    }
}

#[test]
fn other_flag_values_stay_off() {
    for word in ["0", "false", "no", "off", "", " true", "true ", "enabled", "y"] {
        assert!(!flag_is_set(Some(word)), "{word}");
    }
}

#[test]
fn absent_flag_is_off() {
    assert!(!flag_is_set(None));
}

#[test]
fn interval_is_read_as_u64() {
    assert_eq!(check_interval_seconds(Some("60")), 60);
    assert_eq!(check_interval_seconds(Some("+60")), 60);
    assert_eq!(check_interval_seconds(Some("0")), 0);
    assert_eq!(check_interval_seconds(Some("007")), 7);
    assert_eq!(check_interval_seconds(Some("18446744073709551615")), u64::MAX);
}

#[test]
fn invalid_interval_falls_back_to_default() {
    for text in ["", "+", "-5", "abc", " 60", "60s", "1.5", "18446744073709551616", "٣"] {
        assert_eq!(check_interval_seconds(Some(text)), DEFAULT_CHECK_INTERVAL_SECONDS, "{text}");
    }
}

#[test]
fn absent_interval_is_default() {
    assert_eq!(check_interval_seconds(None), 1800);
}

#[test]
fn parse_agrees_with_std() {
    for text in ["0", "42", "+1", "-1", "", "99999999999999999999", "12a", "18446744073709551615"] {
        assert_eq!(parse_u64(text), text.parse::<u64>().ok(), "{text}");
    }
}

#[test]
fn decimal_text_is_appended() {
    let mut text = "got ".to_string();
    append_decimal(&mut text, 200);
    assert_eq!(text, "got 200");
}

#[test]
fn decimal_text_of_numbers() {
    assert_eq!(decimal_text(0), "0");
    assert_eq!(decimal_text(404), "404");
    assert_eq!(decimal_text(u64::MAX), u64::MAX.to_string());
}

#[test]
fn interval_law_decimal_text_reads_back() {
    for n in [0u64, 9, 10, 1800, 65535, u64::MAX] {
        assert_eq!(check_interval_seconds(Some(decimal_text(n).as_str())), n);
    }
}

#[test]
fn error_carries_message() {
    assert_eq!(AppError::message("database down").text, "database down");
}

#[test]
fn railway_failure_message() {
    assert_eq!(
        railway_status_failed("not logged in").text,
        "railway status --json failed: not logged in"
    );
}

#[test]
fn railway_failure_from_stderr_bytes() {
    assert_eq!(
        railway_status_failed_output(b"Unauthorized").text,
        "railway status --json failed: Unauthorized"
    );
    assert_eq!(
        railway_status_failed_output(b"bad \xff byte").text,
        "railway status --json failed: bad \u{FFFD} byte"
    );
}
