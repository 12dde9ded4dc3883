//! What the login prompt tells the user about the stored credentials.
use crate::error::AppError;
use crate::text::{chars_of, push_str, starts_with_str};
use reqwest::header::{HeaderValue, InvalidHeaderValue};
use vstd::prelude::*;

verus! {

/// The header parser's error, which carries no detail.
#[verifier::external_type_specification]
#[verifier::external_body]
pub struct ExInvalidHeaderValue(InvalidHeaderValue);

/// A character a header value may hold: a tab, or any character from the
/// space up but the delete character. (The parser checks UTF-8 bytes: a
/// byte is accepted when it is a tab or at least 32 and not 127, so every
/// byte of a character beyond ASCII passes.)
pub open spec fn header_value_char(c: char) -> bool {
    c == '\t' || (c as u32 >= 32 && c as u32 != 127)
}

/// Every character of the text may stand in a header value.
pub open spec fn is_header_value_text(text: Seq<char>) -> bool {
    forall|i: int| 0 <= i < text.len() ==> header_value_char(#[trigger] text[i])
}

/// `HeaderValue::from_str` (the `http` crate's, which `reqwest::header`
/// re-exports): it succeeds exactly when each byte of the text is a tab or
/// at least 32 and not 127, which the contract states per character. The
/// value itself is dropped.
#[verifier::external_body]
fn parse_header_value(text: &str) -> (r: Result<(), InvalidHeaderValue>)
    ensures
        r is Ok <==> is_header_value_text(text@),
{
    match HeaderValue::from_str(text) {
        Ok(_) => Ok(()),
        Err(error) => Err(error),
    }
}

/// Checks that a token can be sent as the `Authorization` header: refused
/// with `InvalidDiscordTokenHeader` when it holds a control character
/// (such as a newline) other than a tab.
pub fn validate_token_header(token: &str) -> (r: Result<(), AppError>)
    ensures
        r is Ok <==> is_header_value_text(token@),
        r is Err ==> r == Err::<(), AppError>(AppError::InvalidDiscordTokenHeader),
{
    match parse_header_value(token) {
        Ok(()) => Ok(()),
        Err(_) => Err(AppError::InvalidDiscordTokenHeader),
    }
}

/// The prefix of the warning about a stored token that did not pass the
/// header check.
pub open spec fn saved_token_prefix() -> Seq<char> {
    "saved Discord token"@
}

/// Some warning starts with the stored-token prefix.
pub open spec fn mentions_saved_token(warnings: Seq<String>) -> bool {
    exists|i: int|
        0 <= i < warnings.len() && saved_token_prefix().len() <= warnings[i]@.len() && warnings[i]@.take(
            saved_token_prefix().len() as int,
        ) == saved_token_prefix()
}

/// The notice shown above the login prompt: that the stored token is
/// invalid when a warning says so, else that credential storage is
/// unavailable when there is any warning, else none.
pub fn login_notice_for_token_warnings(warnings: &[String]) -> (r: Option<String>)
    ensures
        mentions_saved_token(warnings@) ==> (r matches Some(n) && n@
            == "Saved Discord token is invalid; enter a new token."@),
        !mentions_saved_token(warnings@) && warnings@.len() > 0 ==> (r matches Some(n) && n@
            == "Credential storage is unavailable; token may not be saved."@),
        warnings@.len() == 0 ==> r is None,
{
    let mut i: usize = 0;
    while i < warnings.len()
        invariant
            i <= warnings@.len(),
            forall|j: int|
                0 <= j < i ==> !(saved_token_prefix().len() <= warnings@[j]@.len() && warnings@[j]@.take(
                    saved_token_prefix().len() as int,
                ) == saved_token_prefix()),
        decreases warnings@.len() - i,
    {
        let chars = chars_of(warnings[i].as_str());
        if starts_with_str(&chars, "saved Discord token") {
            return Some("Saved Discord token is invalid; enter a new token.".to_string());
        }
        i = i + 1;
    }
    if warnings.len() == 0 {
        None
    } else {
        Some("Credential storage is unavailable; token may not be saved.".to_string())
    }
}

/// The warning after a token was saved: the store's error when saving
/// failed, or a note about the plaintext fallback when the automatic store
/// chose it; none otherwise.
pub fn token_save_warning(saved_to_plaintext: Result<bool, String>, store_is_auto: bool) -> (r: Option<String>)
    ensures
        match saved_to_plaintext {
            Ok(true) => if store_is_auto {
                r matches Some(w) && w@
                    == "system keychain is unavailable; token was saved to the plaintext fallback credential store"@
            } else {
                r is None
            },
            Ok(false) => r is None,
            Err(e) => r matches Some(w) && w@ == "token was not saved: "@ + e@,
        },
{
    match saved_to_plaintext {
        Ok(plaintext) => {
            if plaintext && store_is_auto {
                Some(
                    "system keychain is unavailable; token was saved to the plaintext fallback credential store".to_string(),
                )
            } else {
                None
            }
        },
        Err(e) => {
            let mut w = String::new();
            push_str(&mut w, "token was not saved: ");
            push_str(&mut w, e.as_str());
            Some(w)
        },
    }
}

} // verus!
