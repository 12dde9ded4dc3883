//! The error the library's request rules report.
use crate::text::{chars_of, push_str, string_of_range, trim, trim_chars};
use vstd::prelude::*;

verus! {

/// A request to Discord that was refused before or after it was sent.
#[derive(Clone, Debug, PartialEq, Eq)]
pub enum AppError {
    /// The request failed, with a message for the user.
    DiscordRequest(String),
    /// The token cannot be sent as an `Authorization` header value (the
    /// header parser's error carries no detail).
    InvalidDiscordTokenHeader,
}

impl AppError {
    /// The message carried by a failed request; `None` for the other errors.
    pub fn message(&self) -> (r: Option<&String>)
        ensures
            match self {
                AppError::DiscordRequest(m) => r == Some(m),
                AppError::InvalidDiscordTokenHeader => r is None,
            },
    {
        match self {
            AppError::DiscordRequest(m) => Some(m),
            AppError::InvalidDiscordTokenHeader => None,
        }
    }
}

/// Characters of a response body kept in an error message.
pub const MAX_ERROR_BODY_CHARS: usize = 500;

/// A response body cut to its first 500 characters, with `...` after it
/// when something was cut.
pub open spec fn truncated_body(body: Seq<char>) -> Seq<char> {
    if body.len() > 500 {
        body.take(500) + "..."@
    } else {
        body
    }
}

/// Shortens a response body for an error message.
pub fn truncate_error_body(body: String) -> (r: String)
    ensures
        r@ == truncated_body(body@),
{
    let chars = chars_of(body.as_str());
    if chars.len() > MAX_ERROR_BODY_CHARS {
        let mut out = string_of_range(&chars, 0, MAX_ERROR_BODY_CHARS);
        push_str(&mut out, "...");
        proof {
            assert(chars@.subrange(0, 500) =~= chars@.take(500));
        }
        out
    } else {
        body
    }
}

/// The message of a request that came back with an error status:
/// `LABEL failed: ERROR`, then `: DETAIL` when the response body gave a
/// detail that is not blank.
pub open spec fn failure_message(label: Seq<char>, error: Seq<char>, detail: Option<Seq<char>>) -> Seq<char> {
    match detail {
        Some(d) => if trim(d).len() > 0 {
            label + " failed: "@ + error + ": "@ + d
        } else {
            label + " failed: "@ + error
        },
        None => label + " failed: "@ + error,
    }
}

/// The error of a request that came back with an error status; `error` is
/// the status error's text and `detail` the (shortened) response body.
pub fn request_failure(label: &str, error: &str, detail: Option<String>) -> (r: AppError)
    ensures
        r matches AppError::DiscordRequest(m) && m@ == failure_message(
            label@,
            error@,
            match detail {
                Some(d) => Some(d@),
                None => None,
            },
        ),
{
    let mut message = String::new();
    push_str(&mut message, label);
    push_str(&mut message, " failed: ");
    push_str(&mut message, error);
    match detail {
        Some(d) => {
            let chars = chars_of(d.as_str());
            let trimmed = trim_chars(&chars);
            if trimmed.len() > 0 {
                push_str(&mut message, ": ");
                push_str(&mut message, d.as_str());
            }
        },
        None => {},
    }
    AppError::DiscordRequest(message)
}

} // verus!
