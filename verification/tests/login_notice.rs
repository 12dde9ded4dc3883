use concord::credentials::{login_notice_for_token_warnings, token_save_warning, validate_token_header};
use concord::error::AppError;

#[test]
fn login_notice_for_token_warnings_reports_user_action() {
    let cases = [
        (
            "saved Discord token is invalid: bad; enter a new token",
            "Saved Discord token is invalid; enter a new token.",
        ),
        (
            "credential store unavailable: permission denied",
            "Credential storage is unavailable; token may not be saved.",
        ),
    ];

    for (warning, expected) in cases {
        let warnings = vec![warning.to_owned()];
        assert_eq!(
            login_notice_for_token_warnings(&warnings).as_deref(),
            Some(expected)
        );
    }
}

#[test]
fn login_notice_is_empty_without_warnings_and_prefers_token_warning() {
    assert_eq!(login_notice_for_token_warnings(&[]), None);
    let warnings = vec![
        "credential store unavailable: locked".to_owned(),
        "saved Discord token is invalid: empty; enter a new token".to_owned(),
    ];
    assert_eq!(
        login_notice_for_token_warnings(&warnings).as_deref(),
        Some("Saved Discord token is invalid; enter a new token.")
    );
}

#[test]
fn token_save_warning_reports_fallback_and_failures() {
    assert_eq!(
        token_save_warning(Ok(true), true).as_deref(),
        Some("system keychain is unavailable; token was saved to the plaintext fallback credential store")
    );
    assert_eq!(token_save_warning(Ok(true), false), None);
    assert_eq!(token_save_warning(Ok(false), true), None);
    assert_eq!(
        token_save_warning(Err("disk full".to_owned()), true).as_deref(),
        Some("token was not saved: disk full")
    );
}

#[test]
fn validates_token_header_values() {
    validate_token_header("raw-user-token").expect("raw user token must be accepted");
    validate_token_header("invalid\nuser-token")
        .expect_err("newlines are not valid authorization header values");
}

#[test]
fn token_header_check_accepts_tabs_and_non_ascii_but_not_delete() {
    assert_eq!(validate_token_header("a\tb"), Ok(()));
    assert_eq!(validate_token_header("tökén"), Ok(()));
    assert_eq!(
        validate_token_header("a\u{7f}b"),
        Err(AppError::InvalidDiscordTokenHeader)
    );
    assert_eq!(
        validate_token_header("a\rb"),
        Err(AppError::InvalidDiscordTokenHeader)
    );
}
