//! Recognising Discord's "solve a CAPTCHA" answer. Discord answers some
//! user-account requests with an HTTP 400 whose body carries an hCaptcha
//! challenge; a terminal client cannot solve it, so callers stop and tell the
//! user to finish the action in an official client.
use crate::media::ascii_lower;
use crate::text::chars_of;
use vstd::prelude::*;

verus! {

/// The HTTP status Discord gates a request with.
pub const BAD_REQUEST: u16 = 400;

/// The fields of a challenge body that decide whether it is a CAPTCHA gate.
#[derive(Clone, Debug, PartialEq, Eq)]
pub struct CaptchaChallenge {
    pub captcha_key: Vec<String>,
    pub captcha_service: Option<String>,
}

/// Two texts are equal, ASCII letters compared without case.
pub open spec fn eq_ignore_ascii_case(a: Seq<char>, b: Seq<char>) -> bool {
    a.len() == b.len() && forall|i: int| 0 <= i < a.len() ==> ascii_lower(a[i]) == ascii_lower(b[i])
}

/// The challenge is an hCaptcha gate: the service is hCaptcha (or not
/// named) and one of the keys is `captcha-required`.
pub open spec fn is_hcaptcha_gate(challenge: CaptchaChallenge) -> bool {
    &&& match challenge.captcha_service {
        Some(s) => eq_ignore_ascii_case(s@, "hcaptcha"@),
        None => true,
    }
    &&& exists|i: int| 0 <= i < challenge.captcha_key@.len() && challenge.captcha_key@[i]@ == "captcha-required"@
}

fn lower(c: char) -> (r: char)
    ensures
        r == ascii_lower(c),
{
    if 'A' <= c && c <= 'Z' {
        let b = c as u8;
        proof {
            assert(b == c as u32);
        }
        (b + 32) as char
    } else {
        c
    }
}

fn equals_ignore_ascii_case(a: &str, b: &str) -> (r: bool)
    ensures
        r == eq_ignore_ascii_case(a@, b@),
{
    let x = chars_of(a);
    let y = chars_of(b);
    if x.len() != y.len() {
        return false;
    }
    let mut i: usize = 0;
    while i < x.len()
        invariant
            x@ == a@,
            y@ == b@,
            x.len() == y.len(),
            i <= x.len(),
            forall|j: int| 0 <= j < i ==> ascii_lower(x@[j]) == ascii_lower(y@[j]),
        decreases x.len() - i,
    {
        if lower(x[i]) != lower(y[i]) {
            return false;
        }
        i = i + 1;
    }
    true
}

fn has_required_key(keys: &Vec<String>) -> (r: bool)
    ensures
        r == exists|i: int| 0 <= i < keys@.len() && keys@[i]@ == "captcha-required"@,
{
    let mut i: usize = 0;
    while i < keys.len()
        invariant
            i <= keys@.len(),
            forall|j: int| 0 <= j < i ==> keys@[j]@ != "captcha-required"@,
        decreases keys@.len() - i,
    {
        let key = chars_of(keys[i].as_str());
        let want = chars_of("captcha-required");
        if crate::text::chars_eq(&key, &want) {
            return true;
        }
        i = i + 1;
    }
    false
}

/// The challenge, when a response with this status and this parsed body is
/// Discord's hCaptcha gate: only an HTTP 400 counts, so that any other
/// answer keeps its ordinary handling.
pub fn captcha_challenge_gate(status: u16, challenge: CaptchaChallenge) -> (r: Option<CaptchaChallenge>)
    ensures
        status == BAD_REQUEST && is_hcaptcha_gate(challenge) ==> r == Some(challenge),
        !(status == BAD_REQUEST && is_hcaptcha_gate(challenge)) ==> r is None,
{
    if status != BAD_REQUEST {
        return None;
    }
    let is_hcaptcha = match &challenge.captcha_service {
        Some(service) => equals_ignore_ascii_case(service.as_str(), "hcaptcha"),
        None => true,
    };
    let requires_captcha = has_required_key(&challenge.captcha_key);
    if is_hcaptcha && requires_captcha {
        Some(challenge)
    } else {
        None
    }
}

} // verus!
