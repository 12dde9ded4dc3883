use concord::application_commands::{
    application_command_interaction,
    application_command_content_is_complete, application_command_interaction_from_invocation,
    application_command_option_scope, application_command_option_scope_path, interaction_nonce,
    interaction_nonce_from_millis, parsed_application_command_option_names, OptionScopePath,
    ApplicationCommandInfo, ApplicationCommandInteractionOption, ApplicationCommandInvocation,
    ApplicationCommandOptionInfo,
};
use concord::error::AppError;
use concord::ids::Id;
use serde_json::Value;

fn application_command(name: &str, options: Vec<ApplicationCommandOptionInfo>) -> ApplicationCommandInfo {
    let raw: Value = serde_json::from_str(&format!(
        r#"{{"id":"100","application_id":"200","version":"1","name":"{name}"}}"#
    ))
    .expect("raw command JSON parses");
    ApplicationCommandInfo {
        id: Id::new(100),
        application_id: Id::new(100),
        version: String::new(),
        name: name.to_owned(),
        application_name: None,
        description: String::new(),
        options,
        raw,
    }
}

fn application_command_option(
    kind: u64,
    name: &str,
    required: bool,
    options: Vec<ApplicationCommandOptionInfo>,
) -> ApplicationCommandOptionInfo {
    ApplicationCommandOptionInfo {
        kind,
        name: name.to_owned(),
        description: format!("{name} option"),
        required,
        autocomplete: false,
        choices: Vec::new(),
        options,
    }
}

fn invocation(command_name: &str, content: &str) -> ApplicationCommandInvocation {
    ApplicationCommandInvocation {
        guild_id: Some(Id::new(1)),
        channel_id: Id::new(2),
        command_name: command_name.to_owned(),
        content: content.to_owned(),
    }
}

#[test]
fn invocation_builds_direct_interaction_options() {
    let command = application_command(
        "echo",
        vec![
            application_command_option(3, "text", true, Vec::new()),
            application_command_option(5, "loud", false, Vec::new()),
        ],
    );

    let interaction = application_command_interaction_from_invocation(
        &invocation("echo", "/echo text:hello world loud:true"),
        &command,
    )
    .expect("valid invocation should build interaction");

    assert_eq!(
        interaction.options,
        vec![
            ApplicationCommandInteractionOption {
                kind: 3,
                name: "text".to_owned(),
                value: Some(Value::String("hello world".to_owned())),
                options: Vec::new(),
            },
            ApplicationCommandInteractionOption {
                kind: 5,
                name: "loud".to_owned(),
                value: Some(Value::Bool(true)),
                options: Vec::new(),
            },
        ]
    );
}

#[test]
fn invocation_builds_nested_subcommand_group_options() {
    let command = application_command(
        "mod",
        vec![application_command_option(
            2,
            "admin",
            false,
            vec![application_command_option(
                1,
                "ban",
                false,
                vec![
                    application_command_option(6, "user", true, Vec::new()),
                    application_command_option(3, "reason", false, Vec::new()),
                ],
            )],
        )],
    );

    let interaction = application_command_interaction_from_invocation(
        &invocation("mod", "/mod admin ban user:<@123> reason:spam links"),
        &command,
    )
    .expect("valid invocation should build interaction");

    assert_eq!(
        interaction.options,
        vec![ApplicationCommandInteractionOption {
            kind: 2,
            name: "admin".to_owned(),
            value: None,
            options: vec![ApplicationCommandInteractionOption {
                kind: 1,
                name: "ban".to_owned(),
                value: None,
                options: vec![
                    ApplicationCommandInteractionOption {
                        kind: 6,
                        name: "user".to_owned(),
                        value: Some(Value::String("123".to_owned())),
                        options: Vec::new(),
                    },
                    ApplicationCommandInteractionOption {
                        kind: 3,
                        name: "reason".to_owned(),
                        value: Some(Value::String("spam links".to_owned())),
                        options: Vec::new(),
                    },
                ],
            }],
        }]
    );
}

#[test]
fn invocation_rejects_invalid_or_incomplete_options() {
    let command = application_command(
        "roll",
        vec![application_command_option(4, "sides", true, Vec::new())],
    );

    assert!(
        application_command_interaction_from_invocation(
            &invocation("roll", "/roll sides:many"),
            &command,
        )
        .is_none()
    );
    assert!(
        application_command_interaction_from_invocation(&invocation("roll", "/roll"), &command)
            .is_none()
    );
}

#[test]
fn invocation_accepts_wrapped_snowflake_options() {
    let command = application_command(
        "target",
        vec![
            application_command_option(6, "member", false, Vec::new()),
            application_command_option(7, "channel", false, Vec::new()),
            application_command_option(8, "role", false, Vec::new()),
            application_command_option(9, "mentionable", false, Vec::new()),
        ],
    );

    let interaction = application_command_interaction_from_invocation(
        &invocation(
            "target",
            "/target member:<@20> channel:<#2> role:<@&30> mentionable:<@&31>",
        ),
        &command,
    )
    .expect("wrapped snowflake options should parse");

    assert_eq!(
        interaction
            .options
            .iter()
            .map(|option| option.value.clone())
            .collect::<Vec<_>>(),
        vec![
            Some(Value::String("20".to_owned())),
            Some(Value::String("2".to_owned())),
            Some(Value::String("30".to_owned())),
            Some(Value::String("31".to_owned())),
        ]
    );
}

#[test]
fn invocation_rejects_wrong_wrappers_for_snowflake_options() {
    for (kind, name, raw) in [
        (6, "member", "@sally"),
        (6, "member", "<#2>"),
        (7, "channel", "<@20>"),
        (8, "role", "<@20>"),
        (9, "mentionable", "<#2>"),
    ] {
        let command = application_command(
            "target",
            vec![application_command_option(kind, name, false, Vec::new())],
        );
        assert!(
            application_command_interaction_from_invocation(
                &invocation("target", &format!("/target {name}:{raw}")),
                &command,
            )
            .is_none(),
            "kind {kind} must reject {raw}"
        );
    }
}

#[test]
fn application_command_metadata_keeps_raw_backend_owned() {
    let command = application_command("echo", Vec::new());
    let backend_copy = command.clone();

    let tui_command = command.without_raw();

    assert_eq!(tui_command.raw, Value::Null);
    assert_eq!(tui_command.name, "echo");
    assert_eq!(backend_copy.raw["name"], "echo");
}

#[test]
fn interaction_keeps_invocation_target_and_command() {
    let command = application_command(
        "echo",
        vec![application_command_option(3, "text", true, Vec::new())],
    );
    let interaction = application_command_interaction_from_invocation(
        &invocation("echo", "/echo text:hi"),
        &command,
    )
    .expect("valid invocation");
    assert_eq!(interaction.guild_id, Some(Id::new(1)));
    assert_eq!(interaction.channel_id, Id::new(2));
    assert_eq!(interaction.command.raw["name"], "echo");
    assert!(
        application_command_interaction_from_invocation(&invocation("other", "/echo text:hi"), &command)
            .is_none()
    );
}

#[test]
fn content_completeness_follows_required_options() {
    let command = application_command(
        "echo",
        vec![
            application_command_option(3, "text", true, Vec::new()),
            application_command_option(4, "times", false, Vec::new()),
        ],
    );
    assert!(application_command_content_is_complete("/echo text:hi", &command));
    assert!(application_command_content_is_complete("/echo text:hi times:-3", &command));
    assert!(!application_command_content_is_complete("/echo times:3", &command));
    assert!(!application_command_content_is_complete("/echo text:hi times:x", &command));
    assert!(!application_command_content_is_complete("echo text:hi", &command));
}

#[test]
fn option_scope_descends_into_subcommands() {
    let command = application_command(
        "mod",
        vec![application_command_option(
            2,
            "admin",
            false,
            vec![application_command_option(
                1,
                "ban",
                false,
                vec![application_command_option(6, "user", true, Vec::new())],
            )],
        )],
    );
    let top = application_command_option_scope(&command, "/mod ").expect("command matches");
    assert_eq!(top.len(), 1);
    assert_eq!(top[0].name, "admin");
    let group = application_command_option_scope(&command, "/mod admin ").expect("group scope");
    assert_eq!(group[0].name, "ban");
    let leaf = application_command_option_scope(&command, "/mod admin ban us").expect("leaf scope");
    assert_eq!(leaf[0].name, "user");
    assert!(application_command_option_scope(&command, "/other ").is_none());
}

#[test]
fn interaction_nonce_is_shifted_millis() {
    assert_eq!(interaction_nonce_from_millis(1), "4194304");
    assert_eq!(interaction_nonce_from_millis(0), "0");
    assert_eq!(
        interaction_nonce_from_millis(1_700_000_000_000),
        (1_700_000_000_000u64 << 22).to_string()
    );
    let nonce = interaction_nonce();
    assert!(nonce.chars().all(|c| c.is_ascii_digit()));
}

fn moderation_command() -> ApplicationCommandInfo {
    application_command(
        "mod",
        vec![
            application_command_option(
                2,
                "admin",
                false,
                vec![
                    application_command_option(
                        1,
                        "ban",
                        false,
                        vec![
                            application_command_option(6, "user", true, Vec::new()),
                            application_command_option(3, "reason", false, Vec::new()),
                        ],
                    ),
                    application_command_option(
                        1,
                        "kick",
                        false,
                        vec![
                            application_command_option(6, "user", true, Vec::new()),
                            application_command_option(3, "reason", false, Vec::new()),
                        ],
                    ),
                ],
            ),
            application_command_option(
                1,
                "note",
                false,
                vec![application_command_option(3, "text", false, Vec::new())],
            ),
        ],
    )
}

#[test]
fn option_scope_path_names_the_same_list_as_the_scope() {
    let command = moderation_command();
    assert_eq!(
        application_command_option_scope_path(&command, "/mod "),
        Some(OptionScopePath::Command)
    );
    assert_eq!(
        application_command_option_scope_path(&command, "/mod admin "),
        Some(OptionScopePath::Group { group: 0 })
    );
    assert_eq!(
        application_command_option_scope_path(&command, "/mod admin kick us"),
        Some(OptionScopePath::GroupSubcommand { group: 0, subcommand: 1 })
    );
    assert_eq!(
        application_command_option_scope_path(&command, "/mod note te"),
        Some(OptionScopePath::Subcommand { subcommand: 1 })
    );
    assert_eq!(application_command_option_scope_path(&command, "/other "), None);
    let leaf = application_command_option_scope(&command, "/mod admin kick us").expect("leaf scope");
    assert_eq!(leaf, &command.options[0].options[1].options[..]);
}

#[test]
fn parsed_option_names_follow_the_scope_path() {
    let command = moderation_command();
    let kick = OptionScopePath::GroupSubcommand { group: 0, subcommand: 1 };
    let mut names = parsed_application_command_option_names(
        "/mod admin kick user:<@42> reason:spam",
        &command,
        kick,
    );
    names.sort();
    assert_eq!(names, vec!["reason".to_owned(), "user".to_owned()]);

    // The words lead to another subcommand than the scope's: nothing reads.
    let ban = OptionScopePath::GroupSubcommand { group: 0, subcommand: 0 };
    assert!(parsed_application_command_option_names(
        "/mod admin kick user:<@42> reason:spam",
        &command,
        ban,
    )
    .is_empty());

    // An incomplete list (the required user is missing) gives no names.
    assert!(parsed_application_command_option_names("/mod admin kick reason:spam", &command, kick)
        .is_empty());

    let note = OptionScopePath::Subcommand { subcommand: 1 };
    assert_eq!(
        parsed_application_command_option_names("/mod note text:hello there", &command, note),
        vec!["text".to_owned()]
    );
    assert!(parsed_application_command_option_names("/other note text:hi", &command, note).is_empty());
    assert!(parsed_application_command_option_names("mod note text:hi", &command, note).is_empty());
}

#[test]
fn parsed_option_names_are_listed_once() {
    let command = application_command(
        "echo",
        vec![application_command_option(3, "text", false, Vec::new())],
    );
    assert_eq!(
        parsed_application_command_option_names("/echo text:a text:b", &command, OptionScopePath::Command),
        vec!["text".to_owned()]
    );
}

#[test]
fn interactions_are_built_against_the_loaded_commands() {
    let loaded = vec![
        application_command("echo", vec![application_command_option(3, "text", true, Vec::new())]),
        moderation_command(),
    ];
    let interaction = application_command_interaction(Some(&loaded), &invocation("echo", "/echo text:hi"))
        .expect("loaded command with valid options");
    assert_eq!(interaction.command.name, "echo");
    assert_eq!(interaction.options.len(), 1);

    assert_eq!(
        application_command_interaction(Some(&loaded), &invocation("echo", "/echo")).map(|_| ()),
        Err(AppError::DiscordRequest(
            "application command echo options are incomplete or invalid".to_owned()
        ))
    );
    assert_eq!(
        application_command_interaction(Some(&loaded), &invocation("ping", "/ping")).map(|_| ()),
        Err(AppError::DiscordRequest("application command ping is not loaded".to_owned()))
    );
    assert_eq!(
        application_command_interaction(None, &invocation("echo", "/echo text:hi")).map(|_| ()),
        Err(AppError::DiscordRequest("application command echo is not loaded".to_owned()))
    );
}
