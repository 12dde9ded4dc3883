use concord::client_rules::{
    ensure_can_send_message, ensure_can_send_tts_message, rename_guild_folder,
    ChannelSendPermissions, requested_voice_after, voice_state_request_is_duplicate, voice_state_update_action,
    ApplicationCommandRequests, VoiceRequest, VoiceUpdateAction, publish_step, voice_update_refusal,
    PublishedEffect,
};
use concord::voice::VoiceSoundKind;
use concord::error::AppError;
use concord::guild::GuildFolder;
use concord::ids::Id;
use concord::marker::{ChannelMarker, GuildMarker};
use concord::member_search::{
    guild_members_by_ids_request, member_search_nonce, member_search_request, normalize_member_search_query,
    MEMBER_SEARCH_MAX_LIMIT, MEMBER_SEARCH_MAX_QUERY_CHARS,
};

/// Applies one voice state update to the outstanding request, as the client
/// does: the action, and the request once the update is queued.
fn update_voice_state(
    requested: &mut Option<VoiceRequest>,
    guild_id: Id<GuildMarker>,
    channel_id: Option<Id<ChannelMarker>>,
    self_mute: bool,
    self_deaf: bool,
) -> VoiceUpdateAction {
    let action =
        voice_state_update_action(*requested, guild_id, channel_id, self_mute, self_deaf, false, false);
    *requested = requested_voice_after(*requested, action, guild_id, channel_id, self_mute, self_deaf);
    action
}

#[test]
fn requested_voice_state_tracks_shutdown_fallback() {
    let mut requested = None;

    update_voice_state(&mut requested, Id::new(1), Some(Id::new(10)), true, false);
    let voice = requested.expect("requested voice state should be tracked");

    assert_eq!(voice.guild_id, Id::new(1));
    assert_eq!(voice.channel_id, Id::new(10));
    assert!(voice.self_mute);
    assert!(!voice.self_deaf);

    update_voice_state(&mut requested, Id::new(1), None, false, false);

    assert_eq!(requested, None);
}

#[test]
fn requested_voice_state_skips_duplicate_gateway_updates() {
    let mut requested = None;

    let first = update_voice_state(&mut requested, Id::new(1), Some(Id::new(10)), true, false);
    assert_eq!(first, VoiceUpdateAction::SendJoin { keep_capture: false });

    let duplicate = update_voice_state(&mut requested, Id::new(1), Some(Id::new(10)), true, false);
    assert_eq!(duplicate, VoiceUpdateAction::Skip);

    let mute_change = update_voice_state(&mut requested, Id::new(1), Some(Id::new(10)), false, false);
    assert_eq!(mute_change, VoiceUpdateAction::SendJoin { keep_capture: true });

    let leave = update_voice_state(&mut requested, Id::new(1), None, false, false);
    assert_eq!(leave, VoiceUpdateAction::SendLeave { clear_requested: true });

    let leave_again = update_voice_state(&mut requested, Id::new(1), None, false, false);
    assert_eq!(leave_again, VoiceUpdateAction::Skip);
}

#[test]
fn voice_join_is_refused_only_for_a_new_channel_without_permission() {
    let in_channel = Some(VoiceRequest {
        guild_id: Id::new(1),
        channel_id: Id::new(2),
        self_mute: false,
        self_deaf: false,
    });
    assert_eq!(
        voice_state_update_action(None, Id::new(1), Some(Id::new(2)), false, false, false, true),
        VoiceUpdateAction::Refuse
    );
    assert_eq!(
        voice_state_update_action(None, Id::new(1), Some(Id::new(2)), true, true, true, true),
        VoiceUpdateAction::SendJoin { keep_capture: false }
    );
    assert_eq!(
        voice_state_update_action(in_channel, Id::new(1), Some(Id::new(2)), true, true, false, true),
        VoiceUpdateAction::SendJoin { keep_capture: true }
    );
    assert!(voice_state_request_is_duplicate(in_channel, Id::new(7), None, false, false));
    assert!(!voice_state_request_is_duplicate(in_channel, Id::new(1), None, false, false));
}

#[test]
fn application_command_requests_are_deduped_until_loaded() {
    let mut requests = ApplicationCommandRequests::new();
    let guild_id = Some(Id::new(1));

    assert!(requests.begin_application_command_request(guild_id));
    assert!(!requests.begin_application_command_request(guild_id));

    requests.record_application_commands_loaded(guild_id);
    assert!(!requests.begin_application_command_request(guild_id));

    let retry_guild_id = Some(Id::new(2));
    assert!(requests.begin_application_command_request(retry_guild_id));
    assert!(!requests.begin_application_command_request(retry_guild_id));
    requests.clear_application_command_request(retry_guild_id);
    assert!(requests.begin_application_command_request(retry_guild_id));

    assert!(requests.begin_application_command_request(None));
    assert!(!requests.begin_application_command_request(None));
    requests.record_application_commands_loaded(None);
    assert!(!requests.begin_application_command_request(None));
}

#[test]
fn guild_member_search_validates_query_and_caps_limit() {
    assert!(member_search_request(Id::new(1), " a ", 10).is_none());

    let long_query = "İ".repeat(MEMBER_SEARCH_MAX_QUERY_CHARS + 10);
    let request = member_search_request(Id::new(1), &long_query, 99)
        .expect("valid search should be issued");

    assert_eq!(request.guild_id, Id::new(1));
    assert_eq!(request.query.chars().count(), MEMBER_SEARCH_MAX_QUERY_CHARS);
    assert_eq!(request.limit, MEMBER_SEARCH_MAX_LIMIT);
    assert!(request.presences);
    assert!(request.nonce.starts_with("mention-ac-1-"));
    assert!(!request.nonce.contains(&request.query));
}

#[test]
fn member_search_query_is_trimmed_and_lowercased() {
    assert_eq!(normalize_member_search_query("  NeO  ").as_deref(), Some("neo"));
    assert_eq!(normalize_member_search_query("x"), None);
    let request = member_search_request(Id::new(5), "Trinity", 3).expect("valid search");
    assert_eq!(request.query, "trinity");
    assert_eq!(request.limit, 3);
    assert_eq!(member_search_nonce(Id::new(255), 0x1f), "mention-ac-255-000000000000001f");
}

#[test]
fn send_message_guard_allows_unknown_channels_while_state_hydrates() {
    ensure_can_send_message(None, false).expect("unknown channel should stay optimistic");
    ensure_can_send_message(None, true).expect("unknown channel should stay optimistic");
}

#[test]
fn send_message_guard_follows_channel_permissions() {
    let none = ChannelSendPermissions { can_send: false, can_attach: false, can_send_tts: false };
    let text_only = ChannelSendPermissions { can_send: true, can_attach: false, can_send_tts: false };
    assert_eq!(
        ensure_can_send_message(Some(none), false),
        Err(AppError::DiscordRequest("cannot send message in channel".to_owned()))
    );
    assert_eq!(
        ensure_can_send_message(Some(text_only), true),
        Err(AppError::DiscordRequest("cannot attach files in channel".to_owned()))
    );
    assert_eq!(ensure_can_send_message(Some(text_only), false), Ok(()));
    assert_eq!(
        ensure_can_send_tts_message(Some(text_only)),
        Err(AppError::DiscordRequest("cannot send text-to-speech messages in channel".to_owned()))
    );
    assert_eq!(ensure_can_send_tts_message(None), Ok(()));
}

fn folder(id: Option<u64>, name: Option<&str>, guilds: &[u64]) -> GuildFolder {
    GuildFolder {
        id,
        name: name.map(str::to_owned),
        color: Some(0x123456),
        guild_ids: guilds.iter().map(|g| Id::new(*g)).collect(),
    }
}

#[test]
fn renaming_a_guild_folder_changes_only_its_name() {
    let folders = vec![folder(None, None, &[1]), folder(Some(7), Some("Old"), &[2, 3]), folder(Some(7), Some("Twin"), &[4])];
    let renamed = rename_guild_folder(folders, 7, Some("New".to_owned())).expect("folder exists");
    assert_eq!(
        renamed,
        vec![folder(None, None, &[1]), folder(Some(7), Some("New"), &[2, 3]), folder(Some(7), Some("Twin"), &[4])]
    );
    let cleared = rename_guild_folder(renamed, 7, None).expect("folder exists");
    assert_eq!(cleared[1].name, None);
    assert_eq!(
        rename_guild_folder(cleared, 8, None),
        Err(AppError::DiscordRequest("guild folder 8 was not found".to_owned()))
    );
}

#[test]
fn guild_member_request_by_ids_queues_gateway_command() {
    assert!(guild_members_by_ids_request(Id::new(1), Vec::new()).is_none());

    let request = guild_members_by_ids_request(Id::new(1), vec![Id::new(20), Id::new(30)])
        .expect("member request should be queued");
    assert_eq!(request.guild_id, Id::new(1));
    assert_eq!(request.user_ids, vec![Id::new(20), Id::new(30)]);
    assert!(!request.presences);
}

#[test]
fn refused_voice_joins_report_why_before_anything_is_sent() {
    let mut requested = None;
    let action = voice_state_update_action(requested, Id::new(1), Some(Id::new(2)), false, false, false, true);
    assert_eq!(action, VoiceUpdateAction::Refuse);
    assert_eq!(voice_update_refusal(action), Err("cannot connect to voice channel".to_owned()));
    requested = requested_voice_after(requested, action, Id::new(1), Some(Id::new(2)), false, false);
    assert_eq!(requested, None);
    assert_eq!(
        voice_update_refusal(VoiceUpdateAction::SendJoin { keep_capture: false }),
        Ok(())
    );
}

#[test]
fn published_events_carry_the_revision_they_belong_to() {
    let step = publish_step("ready", true, true, Some(VoiceSoundKind::Join), 4, 5);
    assert_eq!(step.event_revision, 5);
    assert!(step.snapshot_announced);
    assert_eq!(step.effects.len(), 2);
    assert!(matches!(step.effects[0], PublishedEffect::Event { revision: 5, event: "ready" }));
    assert!(matches!(
        step.effects[1],
        PublishedEffect::VoiceSound { revision: 5, kind: VoiceSoundKind::Join }
    ));

    let quiet = publish_step("typing", false, false, None, 4, 9);
    assert_eq!(quiet.event_revision, 4);
    assert!(!quiet.snapshot_announced);
    assert!(quiet.effects.is_empty());
}
