//! Verified core of a terminal Discord client: identifiers, command parsing,
//! request construction rules and the small wire encodings the client uses.

pub mod ids;
pub mod marker;
pub mod text;
pub mod builtin_commands;
pub mod presence;
pub mod guild;
pub mod settings_proto;
pub mod commands;
pub mod voice;
pub mod json;
pub mod numbers;
pub mod application_commands;
pub mod member_search;
pub mod client_rules;
pub mod error;
pub mod search;
pub mod raw_fields;
pub mod forum;
pub mod reactions;
pub mod media;
pub mod credentials;
pub mod history;
pub mod avatar;
pub mod captcha;
pub mod command_index;
pub mod notifications;
