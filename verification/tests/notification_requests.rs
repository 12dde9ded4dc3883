use concord::ids::Id;
use concord::notifications::{
    ack_channel_body, ack_channel_endpoint, ack_channels_body, channel_mute_request_body,
    guild_settings_endpoint, mute_request_body,
};
use serde_json::Value;

fn parse(text: &str) -> Value {
    serde_json::from_str(text).expect("expected JSON parses")
}

#[test]
fn mute_bodies_carry_the_window_and_end() {
    assert_eq!(
        mute_request_body(true, Some(1_704_067_200_000), Some(3600)),
        parse(r#"{"muted": true, "mute_config": {"end_time": "2024-01-01T00:00:00.000Z", "selected_time_window": 3600}}"#)
    );
    assert_eq!(
        mute_request_body(true, None, Some(-1)),
        parse(r#"{"muted": true, "mute_config": {"end_time": null, "selected_time_window": -1}}"#)
    );
    assert_eq!(mute_request_body(false, None, None), parse(r#"{"muted": false, "mute_config": null}"#));
}

#[test]
fn channel_mutes_are_sent_as_overrides() {
    assert_eq!(
        channel_mute_request_body(Id::new(42), false, None, None),
        parse(r#"{"channel_overrides": {"42": {"muted": false, "mute_config": null}}}"#)
    );
    assert_eq!(
        guild_settings_endpoint(Some(Id::new(7))),
        "https://discord.com/api/v9/users/@me/guilds/7/settings"
    );
    assert_eq!(guild_settings_endpoint(None), "https://discord.com/api/v9/users/@me/guilds/@me/settings");
}

#[test]
fn bulk_acks_list_each_channel() {
    assert_eq!(ack_channels_body(&[]), None);
    assert_eq!(
        ack_channels_body(&[(Id::new(1), Id::new(10)), (Id::new(2), Id::new(20))]),
        Some(parse(
            r#"{"read_states": [
                {"read_state_type": 0, "channel_id": "1", "message_id": "10"},
                {"read_state_type": 0, "channel_id": "2", "message_id": "20"}
            ]}"#
        ))
    );
}

#[test]
fn single_channel_ack_sends_a_null_token() {
    let expected: serde_json::Value = serde_json::from_str(r#"{"token":null}"#).expect("valid JSON");
    assert_eq!(ack_channel_body(), expected);
    assert_eq!(
        ack_channel_endpoint(Id::new(12), Id::new(34)),
        "https://discord.com/api/v9/channels/12/messages/34/ack"
    );
}
