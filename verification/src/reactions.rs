//! Reaction user lists: who is shown and how the pages are walked.
use crate::ids::Id;
use crate::json::{json_as_str, json_get, json_get_field, json_str_of, Json};
use crate::marker::UserMarker;
use crate::numbers::{parse_u64, parse_u64_chars};
use crate::text::chars_of;
use vstd::prelude::*;

verus! {

/// Users a reaction user page holds at most.
pub const REACTION_USERS_PAGE_LIMIT: u16 = 100;

/// Pages of reaction users loaded at most.
pub const REACTION_USERS_MAX_PAGES: usize = 3;

/// A user who reacted, with the name shown for them.
#[derive(Clone, Debug, PartialEq, Eq)]
pub struct ReactionUserInfo {
    pub user_id: Id<UserMarker>,
    pub display_name: String,
}

/// The user to continue after: the last user of the page just loaded, when
/// that page was full and fewer than the most pages have been loaded.
pub fn next_reaction_users_after(
    page_len: usize,
    last_user_id: Option<Id<UserMarker>>,
    pages_loaded: usize,
) -> (r: Option<Id<UserMarker>>)
    ensures
        r == if pages_loaded < REACTION_USERS_MAX_PAGES && page_len == REACTION_USERS_PAGE_LIMIT {
            last_user_id
        } else {
            None
        },
{
    if pages_loaded < REACTION_USERS_MAX_PAGES && page_len == REACTION_USERS_PAGE_LIMIT as usize {
        last_user_id
    } else {
        None
    }
}

/// The name shown for a user: the global name unless it is missing or
/// empty, else the user name.
pub open spec fn display_name_of(global_name: Option<Seq<char>>, username: Option<Seq<char>>) -> Option<
    Seq<char>,
> {
    match global_name {
        Some(g) => if g.len() > 0 {
            Some(g)
        } else {
            username
        },
        None => username,
    }
}

/// The view of an optional text.
pub open spec fn opt_view(s: Option<&str>) -> Option<Seq<char>> {
    match s {
        Some(t) => Some(t@),
        None => None,
    }
}

/// The user id and shown name that the `id`, `global_name` and `username`
/// texts of a user object give: none when the id is not a non-zero unsigned
/// 64-bit number or when no name is there to show.
pub open spec fn reaction_user_view(
    id: Option<Seq<char>>,
    global_name: Option<Seq<char>>,
    username: Option<Seq<char>>,
) -> Option<(u64, Seq<char>)> {
    match id {
        Some(t) => match parse_u64(t) {
            Some(v) => if v != 0 {
                match display_name_of(global_name, username) {
                    Some(n) => Some((v, n)),
                    None => None,
                }
            } else {
                None
            },
            None => None,
        },
        None => None,
    }
}

/// The view of a reaction user.
pub open spec fn reaction_user_of(u: ReactionUserInfo) -> (u64, Seq<char>) {
    (u.user_id@, u.display_name@)
}

/// A user of a reaction user page, from the `id`, `global_name` and
/// `username` texts of the user object.
pub fn reaction_user_info(id: Option<&str>, global_name: Option<&str>, username: Option<&str>) -> (r:
    Option<ReactionUserInfo>)
    ensures
        match r {
            Some(u) => reaction_user_view(opt_view(id), opt_view(global_name), opt_view(username))
                == Some(reaction_user_of(u)),
            None => reaction_user_view(opt_view(id), opt_view(global_name), opt_view(username)) is None,
        },
{
    let id_text = match id {
        Some(t) => t,
        None => return None,
    };
    let chars = chars_of(id_text);
    let value = match parse_u64_chars(&chars) {
        Some(v) => v,
        None => return None,
    };
    let user_id = match Id::<UserMarker>::new_checked(value) {
        Some(u) => u,
        None => return None,
    };
    let name: &str = match global_name {
        Some(g) => {
            if !g.is_empty() {
                g
            } else {
                match username {
                    Some(u) => u,
                    None => return None,
                }
            }
        },
        None => match username {
            Some(u) => u,
            None => return None,
        },
    };
    Some(ReactionUserInfo { user_id, display_name: name.to_string() })
}

/// A text field of a JSON object, as `Value::get(key).and_then(Value::as_str)`.
pub open spec fn raw_text_field(value: Json, key: Seq<char>) -> Option<Seq<char>> {
    json_as_str(json_get(value, key))
}

fn text_field<'a>(value: &'a Json, key: &str) -> (r: Option<&'a str>)
    ensures
        opt_view(r) == raw_text_field(*value, key@),
{
    match json_str_of(json_get_field(value, key)) {
        Some(s) => Some(s.as_str()),
        None => None,
    }
}

/// A user of a reaction user page, read from the user object that the API
/// sends: its `id`, `global_name` and `username` fields.
pub fn reaction_user_info_from_raw(value: &Json) -> (r: Option<ReactionUserInfo>)
    ensures
        match r {
            Some(u) => reaction_user_view(
                raw_text_field(*value, "id"@),
                raw_text_field(*value, "global_name"@),
                raw_text_field(*value, "username"@),
            ) == Some(reaction_user_of(u)),
            None => reaction_user_view(
                raw_text_field(*value, "id"@),
                raw_text_field(*value, "global_name"@),
                raw_text_field(*value, "username"@),
            ) is None,
        },
{
    let id = text_field(value, "id");
    let global_name = text_field(value, "global_name");
    let username = text_field(value, "username");
    reaction_user_info(id, global_name, username)
}

} // verus!
