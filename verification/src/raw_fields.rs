//! Fields of the objects Discord sends that many readers share: snowflake
//! ids and discriminators.
use crate::ids::Id;
use crate::json::{deref_json, json_get, json_get_field, Json, JsonNumber};
use crate::marker::IdKind;
use crate::numbers::{parse_u64, parse_u64_chars};
use crate::search::id_value;
use crate::text::chars_of;
use vstd::prelude::*;

verus! {

/// A snowflake id field: a decimal text (digits after an optional `+`) or
/// a non-negative integer, other than zero.
pub open spec fn raw_id(j: Option<Json>) -> Option<u64> {
    match j {
        Some(Json::Text(s)) => match parse_u64(s@) {
            Some(v) => if v != 0 {
                Some(v)
            } else {
                None
            },
            None => None,
        },
        Some(Json::Number(JsonNumber::PosInt(u))) => if u != 0 {
            Some(u)
        } else {
            None
        },
        _ => None,
    }
}

/// Reads a snowflake id field (`Value::as_str` parsed as `u64`, else
/// `Value::as_u64`, then `Id::new_checked`).
pub fn parse_id<M: IdKind>(j: Option<&Json>) -> (r: Option<Id<M>>)
    ensures
        id_value(r) == raw_id(deref_json(j)),
{
    match j {
        Some(Json::Text(s)) => {
            let chars = chars_of(s.as_str());
            match parse_u64_chars(&chars) {
                Some(v) => Id::<M>::new_checked(v),
                None => None,
            }
        },
        Some(Json::Number(JsonNumber::PosInt(u))) => Id::<M>::new_checked(*u),
        _ => None,
    }
}

/// A discriminator field: a decimal text (digits after an optional `+`) or
/// a non-negative integer, that fits in `u16`.
pub open spec fn raw_discriminator_value(j: Option<Json>) -> Option<u16> {
    match j {
        Some(Json::Text(s)) => match parse_u64(s@) {
            Some(v) => if v <= u16::MAX {
                Some(v as u16)
            } else {
                None
            },
            None => None,
        },
        Some(Json::Number(JsonNumber::PosInt(u))) => if u <= u16::MAX {
            Some(u as u16)
        } else {
            None
        },
        _ => None,
    }
}

/// The `discriminator` of a user object.
pub fn raw_discriminator(user: &Json) -> (r: Option<u16>)
    ensures
        r == raw_discriminator_value(json_get(*user, "discriminator"@)),
{
    match json_get_field(user, "discriminator") {
        Some(Json::Text(s)) => {
            let chars = chars_of(s.as_str());
            match parse_u64_chars(&chars) {
                Some(v) => if v <= 65535u64 {
                    Some(v as u16)
                } else {
                    None
                },
                None => None,
            }
        },
        Some(Json::Number(JsonNumber::PosInt(u))) => if *u <= 65535u64 {
            Some(*u as u16)
        } else {
            None
        },
        _ => None,
    }
}

} // verus!
