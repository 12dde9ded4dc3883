//! Muting guilds and channels, and marking channels read: the request
//! bodies and addresses.
use crate::ids::Id;
use crate::json::{
    entries_view, json_array, json_array_value, json_bool, json_bool_value, json_i64, json_i64_value,
    json_null, json_null_value, json_object, json_object_value, json_string, json_string_value,
    json_u64, json_u64_value,
};
use crate::marker::{ChannelMarker, GuildMarker, MessageMarker};
use crate::text::{decimal, decimal_string, push_decimal, push_str};
use serde_json::Value;
use vstd::prelude::*;

verus! {

/// The RFC 3339 text, with milliseconds and a `Z` zone, of the UTC instant
/// `millis` milliseconds after the Unix epoch, as chrono writes it; `None`
/// where chrono has no such instant.
pub uninterp spec fn rfc3339_millis_text(millis: i64) -> Option<Seq<char>>;

/// `DateTime::from_timestamp_millis(millis)`, written with
/// `to_rfc3339_opts(SecondsFormat::Millis, true)`. The contract only names
/// the result.
#[verifier::external_body]
fn rfc3339_of_millis(millis: i64) -> (r: Option<String>)
    ensures
        match r {
            Some(t) => rfc3339_millis_text(millis) == Some(t@),
            None => rfc3339_millis_text(millis) is None,
        },
{
    chrono::DateTime::from_timestamp_millis(millis).map(|t| t.to_rfc3339_opts(chrono::SecondsFormat::Millis, true))
}

fn push_entry(entries: &mut Vec<(String, Value)>, key: &str, value: Value)
    ensures
        entries_view(final(entries)@) == entries_view(old(entries)@).push((key@, value)),
{
    entries.push((key.to_string(), value));
    proof {
        assert(entries_view(entries@) =~= entries_view(old(entries)@).push((key@, value)));
    }
}

/// The body of a mute setting: whether muted, and for a timed mute its end
/// (null when not known) and its length in seconds; no mute configuration
/// otherwise.
pub open spec fn mute_body(muted: bool, mute_end_millis: Option<i64>, selected_time_window: Option<i64>) -> Value {
    json_object(
        seq![
            ("muted"@, json_bool(muted)),
            ("mute_config"@, match selected_time_window {
                Some(window) => json_object(
                    seq![("end_time"@, mute_end_value(mute_end_millis)), ("selected_time_window"@, json_i64(window))],
                ),
                None => json_null(),
            }),
        ],
    )
}

/// The end of a timed mute as JSON: its RFC 3339 text, or null.
pub open spec fn mute_end_value(mute_end_millis: Option<i64>) -> Value {
    match mute_end_millis {
        Some(ms) => match rfc3339_millis_text(ms) {
            Some(t) => json_string(t),
            None => json_null(),
        },
        None => json_null(),
    }
}

fn mute_end_json(mute_end_millis: Option<i64>) -> (r: Value)
    ensures
        r == mute_end_value(mute_end_millis),
{
    match mute_end_millis {
        Some(ms) => match rfc3339_of_millis(ms) {
            Some(t) => json_string_value(t),
            None => json_null_value(),
        },
        None => json_null_value(),
    }
}

fn mute_config_json(mute_end_millis: Option<i64>, window: i64) -> (r: Value)
    ensures
        r == json_object(seq![("end_time"@, mute_end_value(mute_end_millis)), ("selected_time_window"@, json_i64(window))]),
{
    let mut entries: Vec<(String, Value)> = Vec::new();
    push_entry(&mut entries, "end_time", mute_end_json(mute_end_millis));
    push_entry(&mut entries, "selected_time_window", json_i64_value(window));
    proof {
        assert(entries_view(entries@) =~= seq![
            ("end_time"@, mute_end_value(mute_end_millis)),
            ("selected_time_window"@, json_i64(window)),
        ]);
    }
    json_object_value(entries)
}

/// The body of a mute setting; `mute_end_millis` is the end of a timed mute
/// in milliseconds since the Unix epoch.
pub fn mute_request_body(muted: bool, mute_end_millis: Option<i64>, selected_time_window: Option<i64>) -> (r: Value)
    ensures
        r == mute_body(muted, mute_end_millis, selected_time_window),
{
    let config = match selected_time_window {
        Some(window) => mute_config_json(mute_end_millis, window),
        None => json_null_value(),
    };
    let mut entries: Vec<(String, Value)> = Vec::new();
    push_entry(&mut entries, "muted", json_bool_value(muted));
    push_entry(&mut entries, "mute_config", config);
    proof {
        assert(entries_view(entries@) =~= seq![
            ("muted"@, json_bool(muted)),
            ("mute_config"@, match selected_time_window {
                Some(window) => json_object(
                    seq![("end_time"@, mute_end_value(mute_end_millis)), ("selected_time_window"@, json_i64(window))],
                ),
                None => json_null(),
            }),
        ]);
    }
    json_object_value(entries)
}

/// The notification settings address of a guild, or of direct messages.
pub open spec fn guild_settings_url(guild_id: Option<u64>) -> Seq<char> {
    match guild_id {
        Some(g) => "https://discord.com/api/v9/users/@me/guilds/"@ + decimal(g as nat) + "/settings"@,
        None => "https://discord.com/api/v9/users/@me/guilds/@me/settings"@,
    }
}

/// Where a guild's (or the direct messages') notification settings are changed.
pub fn guild_settings_endpoint(guild_id: Option<Id<GuildMarker>>) -> (r: String)
    ensures
        r@ == guild_settings_url(
            match guild_id {
                Some(g) => Some(g@),
                None => None,
            },
        ),
{
    match guild_id {
        Some(g) => {
            let mut url = String::new();
            push_str(&mut url, "https://discord.com/api/v9/users/@me/guilds/");
            push_decimal(&mut url, g.get());
            push_str(&mut url, "/settings");
            url
        },
        None => "https://discord.com/api/v9/users/@me/guilds/@me/settings".to_string(),
    }
}

/// The body that mutes or unmutes one channel: its override under its id.
pub fn channel_mute_request_body(
    channel_id: Id<ChannelMarker>,
    muted: bool,
    mute_end_millis: Option<i64>,
    selected_time_window: Option<i64>,
) -> (r: Value)
    ensures
        r == json_object(
            seq![
                ("channel_overrides"@, json_object(
                    seq![(decimal(channel_id@ as nat), mute_body(muted, mute_end_millis, selected_time_window))],
                )),
            ],
        ),
{
    let mut overrides: Vec<(String, Value)> = Vec::new();
    let key = decimal_string(channel_id.get());
    let ghost key_view = key@;
    overrides.push((key, mute_request_body(muted, mute_end_millis, selected_time_window)));
    proof {
        assert(entries_view(overrides@) =~= seq![
            (key_view, mute_body(muted, mute_end_millis, selected_time_window)),
        ]);
    }
    let mut body: Vec<(String, Value)> = Vec::new();
    push_entry(&mut body, "channel_overrides", json_object_value(overrides));
    proof {
        assert(entries_view(body@) =~= seq![
            ("channel_overrides"@, json_object(
                seq![(decimal(channel_id@ as nat), mute_body(muted, mute_end_millis, selected_time_window))],
            )),
        ]);
    }
    json_object_value(body)
}

/// The read state of one channel acknowledged up to a message.
pub open spec fn read_state_value(channel: u64, message: u64) -> Value {
    json_object(
        seq![
            ("read_state_type"@, json_u64(0)),
            ("channel_id"@, json_string(decimal(channel as nat))),
            ("message_id"@, json_string(decimal(message as nat))),
        ],
    )
}

/// The read states of the targets, in order.
pub open spec fn read_state_values(targets: Seq<(Id<ChannelMarker>, Id<MessageMarker>)>) -> Seq<Value>
    decreases targets.len(),
{
    if targets.len() == 0 {
        seq![]
    } else {
        read_state_values(targets.drop_last()).push(read_state_value(targets.last().0@, targets.last().1@))
    }
}

/// The body that marks one channel read up to a message: `{"token": null}`
/// (the legacy anti-spam field, always sent empty).
pub fn ack_channel_body() -> (r: Value)
    ensures
        r == json_object(seq![("token"@, json_null())]),
{
    let mut entries: Vec<(String, Value)> = Vec::new();
    push_entry(&mut entries, "token", json_null_value());
    proof {
        assert(entries_view(entries@) =~= seq![("token"@, json_null())]);
    }
    json_object_value(entries)
}

/// The address that marks a channel read up to a message.
pub fn ack_channel_endpoint(channel_id: Id<ChannelMarker>, message_id: Id<MessageMarker>) -> (r: String)
    ensures
        r@ == "https://discord.com/api/v9/channels/"@ + decimal(channel_id@ as nat) + "/messages/"@
            + decimal(message_id@ as nat) + "/ack"@,
{
    let mut url = String::new();
    push_str(&mut url, "https://discord.com/api/v9/channels/");
    push_decimal(&mut url, channel_id.get());
    push_str(&mut url, "/messages/");
    push_decimal(&mut url, message_id.get());
    push_str(&mut url, "/ack");
    url
}

/// The body that acknowledges several channels at once; none for no
/// channels, when nothing is sent.
pub fn ack_channels_body(targets: &[(Id<ChannelMarker>, Id<MessageMarker>)]) -> (r: Option<Value>)
    ensures
        targets@.len() == 0 ==> r is None,
        targets@.len() > 0 ==> r == Some(json_object(seq![("read_states"@, json_array(read_state_values(targets@)))])),
{
    if targets.len() == 0 {
        return None;
    }
    let mut states: Vec<Value> = Vec::new();
    let mut i: usize = 0;
    proof {
        assert(targets@.take(0) =~= Seq::<(Id<ChannelMarker>, Id<MessageMarker>)>::empty());
    }
    while i < targets.len()
        invariant
            i <= targets@.len(),
            states@ == read_state_values(targets@.take(i as int)),
        decreases targets@.len() - i,
    {
        proof {
            assert(targets@.take(i + 1).drop_last() =~= targets@.take(i as int));
        }
        let (channel_id, message_id) = targets[i];
        let mut entries: Vec<(String, Value)> = Vec::new();
        push_entry(&mut entries, "read_state_type", json_u64_value(0));
        push_entry(&mut entries, "channel_id", json_string_value(decimal_string(channel_id.get())));
        push_entry(&mut entries, "message_id", json_string_value(decimal_string(message_id.get())));
        proof {
            assert(entries_view(entries@) =~= seq![
                ("read_state_type"@, json_u64(0)),
                ("channel_id"@, json_string(decimal(channel_id@ as nat))),
                ("message_id"@, json_string(decimal(message_id@ as nat))),
            ]);
        }
        states.push(json_object_value(entries));
        i = i + 1;
    }
    proof {
        assert(targets@.take(targets@.len() as int) =~= targets@);
    }
    let mut body: Vec<(String, Value)> = Vec::new();
    push_entry(&mut body, "read_states", json_array_value(states));
    proof {
        assert(entries_view(body@) =~= seq![("read_states"@, json_array(read_state_values(targets@)))]);
    }
    Some(json_object_value(body))
}

} // verus!
