use concord::builtin_commands::{
    builtin_slash_commands, parse_builtin_slash_command, BuiltinSlashCommand,
    BuiltinSlashCommandParse, BuiltinSlashCommandSubmit,
};
use concord::commands::{
    DownloadAttachmentSource, ForumPostArchiveState, MessageAttachmentUpload, MuteDuration,
    ReactionEmoji,
};
use concord::ids::Id;
use concord::marker::GuildMarker;
use concord::presence::{parse_status, ActivityEmoji, ActivityInfo, ActivityKind, PresenceStatus};
use concord::voice::{VoiceScope, VoiceServerInfo, VoiceStateInfo};
use std::path::PathBuf;

fn message(content: &str, tts: bool) -> BuiltinSlashCommandParse {
    BuiltinSlashCommandParse::Ready(BuiltinSlashCommandSubmit::Message {
        content: content.to_owned(),
        tts,
    })
}

#[test]
fn builtin_commands_format_messages() {
    assert_eq!(parse_builtin_slash_command("/me waves"), message("_waves_", false));
    assert_eq!(parse_builtin_slash_command("/tts hello there"), message("hello there", true));
    assert_eq!(parse_builtin_slash_command("/spoiler ending"), message("||ending||", false));
    assert_eq!(parse_builtin_slash_command("/shrug"), message(r"¯\_(ツ)_/¯", false));
    assert_eq!(parse_builtin_slash_command("/shrug ok"), message(r"ok ¯\_(ツ)_/¯", false));
    assert_eq!(parse_builtin_slash_command("/tableflip"), message("(╯°□°）╯︵ ┻━┻", false));
    assert_eq!(parse_builtin_slash_command("/unflip  fine"), message("fine ┬─┬ ノ( ゜-゜ノ)", false));
}

#[test]
fn builtin_commands_need_their_arguments() {
    assert_eq!(parse_builtin_slash_command("/me"), BuiltinSlashCommandParse::Incomplete);
    assert_eq!(parse_builtin_slash_command("/spoiler   "), BuiltinSlashCommandParse::Incomplete);
    assert_eq!(parse_builtin_slash_command("/gif"), BuiltinSlashCommandParse::Incomplete);
    assert_eq!(
        parse_builtin_slash_command("/gif cats"),
        BuiltinSlashCommandParse::Ready(BuiltinSlashCommandSubmit::Unsupported {
            message: "GIF slash commands are not supported in Concord yet".to_owned(),
        })
    );
    assert_eq!(
        parse_builtin_slash_command("/nick Neo"),
        BuiltinSlashCommandParse::Ready(BuiltinSlashCommandSubmit::Nickname { nickname: "Neo".to_owned() })
    );
    assert_eq!(
        parse_builtin_slash_command("/nick"),
        BuiltinSlashCommandParse::Ready(BuiltinSlashCommandSubmit::Nickname { nickname: String::new() })
    );
    assert_eq!(parse_builtin_slash_command("hello"), BuiltinSlashCommandParse::NotBuiltin);
    assert_eq!(parse_builtin_slash_command("/"), BuiltinSlashCommandParse::NotBuiltin);
    assert_eq!(parse_builtin_slash_command("/ban someone"), BuiltinSlashCommandParse::NotBuiltin);
}

#[test]
fn builtin_command_list_names_each_command() {
    let commands = builtin_slash_commands();
    assert_eq!(commands.len(), 9);
    assert_eq!(commands[0].kind, BuiltinSlashCommand::Gif);
    assert_eq!(commands[0].replacement, "/gif ");
    for command in &commands {
        assert_eq!(command.replacement, format!("/{} ", command.name));
        assert!(parse_builtin_slash_command(&format!("/{} x", command.name)) != BuiltinSlashCommandParse::NotBuiltin);
    }
}

#[test]
fn presence_statuses_round_trip() {
    for status in PresenceStatus::user_selectable() {
        assert_eq!(parse_status(status.gateway_status()), status);
    }
    assert_eq!(parse_status("offline"), PresenceStatus::Offline);
    assert_eq!(parse_status("away"), PresenceStatus::Unknown);
    assert_eq!(PresenceStatus::DoNotDisturb.label(), "Do Not Disturb");
    assert_eq!(PresenceStatus::Offline.gateway_status(), "invisible");
}

#[test]
fn activity_kinds_round_trip_their_codes() {
    for code in 0..=5u64 {
        assert_eq!(ActivityKind::from_code(code).gateway_code() as u64, code);
    }
    assert_eq!(ActivityKind::from_code(42), ActivityKind::Unknown);
    let emoji = ActivityEmoji { name: "wave".to_owned(), id: Some(Id::new(5)), animated: true };
    assert_eq!(emoji.image_url().as_deref(), Some("https://cdn.discordapp.com/emojis/5.gif"));
    let plain = ActivityEmoji { name: "👋".to_owned(), id: None, animated: false };
    assert_eq!(plain.image_url(), None);
    let playing = ActivityInfo::playing("Chess");
    assert_eq!(playing.kind, ActivityKind::Playing);
    assert_eq!(playing.name, "Chess");
    assert_eq!(playing.details, None);
}

#[test]
fn command_values_and_labels() {
    assert_eq!(ForumPostArchiveState::default(), ForumPostArchiveState::Active);
    assert_eq!(ForumPostArchiveState::Active.as_query_value(), "false");
    assert_eq!(ForumPostArchiveState::Archived.as_query_value(), "true");
    assert_eq!(ForumPostArchiveState::Archived.as_log_label(), "archived");
    assert_eq!(MuteDuration::Minutes(15).minutes(), Some(15));
    assert_eq!(MuteDuration::Minutes(15).selected_time_window_seconds(), 900);
    assert_eq!(MuteDuration::Permanent.minutes(), None);
    assert_eq!(MuteDuration::Permanent.selected_time_window_seconds(), -1);
    assert_eq!(MuteDuration::Minutes(u64::MAX).selected_time_window_seconds(), i64::MAX);
    let _ = DownloadAttachmentSource::ImageViewer;
}

#[test]
fn reaction_emoji_labels_and_images() {
    let unicode = ReactionEmoji::Unicode("👍".to_owned());
    assert_eq!(unicode.status_label(), "👍");
    assert_eq!(unicode.custom_image_url(), None);
    let custom = ReactionEmoji::Custom { id: Id::new(7), name: Some("party".to_owned()), animated: false };
    assert_eq!(custom.status_label(), ":party:");
    assert_eq!(custom.custom_image_url().as_deref(), Some("https://cdn.discordapp.com/emojis/7.png"));
    let nameless = ReactionEmoji::Custom { id: Id::new(8), name: None, animated: true };
    assert_eq!(nameless.status_label(), ":custom:");
    assert_eq!(nameless.custom_image_url().as_deref(), Some("https://cdn.discordapp.com/emojis/8.gif"));
}

#[test]
fn attachments_hold_a_path_or_bytes() {
    let file = MessageAttachmentUpload::from_path(PathBuf::from("/tmp/cat.png"), "cat.png".to_owned(), 3);
    assert_eq!(file.path(), Some(std::path::Path::new("/tmp/cat.png")));
    assert_eq!(file.bytes(), None);
    assert_eq!(file.filename, "cat.png");
    let bytes = MessageAttachmentUpload::from_bytes("note.txt".to_owned(), b"hi".to_vec());
    assert_eq!(bytes.bytes(), Some(&b"hi"[..]));
    assert_eq!(bytes.path(), None);
    assert_eq!(bytes.size_bytes, 2);
}

#[test]
fn ids_keep_their_snowflake() {
    let id: Id<GuildMarker> = Id::new(1234);
    assert_eq!(id.get(), 1234);
    assert_eq!(Id::<GuildMarker>::new_checked(0), None);
    assert_eq!(Id::<GuildMarker>::new_checked(5), Some(Id::new(5)));
}

#[test]
fn voice_scope_prefers_the_guild() {
    let state = VoiceStateInfo {
        guild_id: Some(Id::new(1)),
        channel_id: Some(Id::new(2)),
        user_id: Id::new(3),
        session_id: None,
        member: None,
        deaf: false,
        mute: false,
        self_deaf: false,
        self_mute: false,
        self_stream: false,
    };
    let scope = state.scope().expect("guild voice");
    assert_eq!(scope, VoiceScope::Guild(Id::new(1)));
    assert_eq!(scope.guild_id(), Some(Id::new(1)));
    assert_eq!(scope.private_channel_id(), None);
    assert_eq!(scope.server_id_string(), "1");
    let server = VoiceServerInfo {
        guild_id: None,
        channel_id: Some(Id::new(9)),
        endpoint: None,
        token: "t".to_owned(),
    };
    let private = server.scope().expect("private call");
    assert_eq!(private, VoiceScope::Private(Id::new(9)));
    assert_eq!(private.server_id_string(), "9");
    let nowhere = VoiceServerInfo { guild_id: None, channel_id: None, endpoint: None, token: String::new() };
    assert_eq!(nowhere.scope(), None);
}

#[test]
fn voice_server_descriptions_hide_the_token() {
    let server = VoiceServerInfo {
        guild_id: Some(Id::new(7)),
        channel_id: None,
        endpoint: Some("eu.discord.media".to_owned()),
        token: "secret-token".to_owned(),
    };
    let text = server.redacted_description();
    assert_eq!(
        text,
        "VoiceServerInfo { guild_id: Some(7), endpoint: Some(\"eu.discord.media\"), token: \"<redacted>\" }"
    );
    assert!(!text.contains("secret-token"));
    let bare = VoiceServerInfo::test(Id::new(1));
    assert_eq!(
        VoiceServerInfo { guild_id: None, ..bare }.redacted_description(),
        "VoiceServerInfo { guild_id: None, endpoint: None, token: \"<redacted>\" }"
    );
}
