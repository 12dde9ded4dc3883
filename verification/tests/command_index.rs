use concord::application_commands::{
    ApplicationCommandInfo, ApplicationCommandInteraction, ApplicationCommandInteractionOption,
};
use concord::command_index::{
    application_command_interaction_body, application_command_interaction_body_with_nonce,
    application_command_option_body, parse_application_command_application_name,
    parse_application_command_index, parse_application_command_option_info,
};
use concord::ids::Id;
use concord::json::{json_to_value, Json, JsonNumber};
use serde_json::Value;

fn model(value: &Value) -> Json {
    match value {
        Value::Null => Json::Null,
        Value::Bool(b) => Json::Bool(*b),
        Value::Number(n) => Json::Number(if let Some(u) = n.as_u64() {
            JsonNumber::PosInt(u)
        } else if let Some(i) = n.as_i64() {
            JsonNumber::NegInt(i)
        } else {
            JsonNumber::Float(n.to_string())
        }),
        Value::String(s) => Json::Text(s.clone()),
        Value::Array(items) => Json::Array(items.iter().map(model).collect()),
        Value::Object(map) => Json::Object(map.iter().map(|(k, v)| (k.clone(), model(v))).collect()),
    }
}

fn parse(text: &str) -> Value {
    serde_json::from_str(text).expect("fixture JSON parses")
}

#[test]
fn json_models_convert_back_to_the_same_value() {
    let value = parse(r#"{"a":[1,-2,2.5,"x",null,true],"b":{"c":18446744073709551615}}"#);
    assert_eq!(json_to_value(&model(&value)), value);
}

#[test]
fn command_index_reads_commands_with_their_applications() {
    let raw = parse(
        r#"{
            "applications": [
                {"id": "200", "name": "Old Bot"},
                {"id": "200", "name": "Music Bot"}
            ],
            "application_commands": [
                {
                    "id": "100", "application_id": "200", "version": "7", "name": "play",
                    "description": "Play a song",
                    "options": [
                        {"type": 3, "name": "query", "required": true,
                         "choices": [{"name": "Top hit", "value": "hit"}, {"name": "broken"}]},
                        {"type": "3", "name": "ignored"},
                        {"type": 1, "name": "queue",
                         "options": [{"type": 4, "name": "position"}]}
                    ]
                },
                {"id": "0", "application_id": "200", "version": "1", "name": "zero"},
                {"id": "101", "application_id": "201", "version": "1", "name": "ping",
                 "bot": {"username": "pinger"}},
                {"id": "102", "application_id": "200", "name": "no-version"}
            ]
        }"#,
    );
    let commands = parse_application_command_index(&model(&raw));
    assert_eq!(commands.len(), 2);

    let play = &commands[0];
    assert_eq!(play.id, Id::new(100));
    assert_eq!(play.application_id, Id::new(200));
    assert_eq!(play.version, "7");
    assert_eq!(play.name, "play");
    assert_eq!(play.application_name.as_deref(), Some("Music Bot"));
    assert_eq!(play.description, "Play a song");
    assert_eq!(play.raw, raw["application_commands"][0]);
    assert_eq!(play.options.len(), 2);
    assert_eq!(play.options[0].name, "query");
    assert!(play.options[0].required);
    assert!(!play.options[0].autocomplete);
    assert_eq!(play.options[0].choices.len(), 1);
    assert_eq!(play.options[0].choices[0].name, "Top hit");
    assert_eq!(play.options[0].choices[0].value, Value::String("hit".to_owned()));
    assert_eq!(play.options[1].kind, 1);
    assert_eq!(play.options[1].options.len(), 1);
    assert_eq!(play.options[1].options[0].name, "position");
    assert_eq!(play.options[1].options[0].description, "");

    let ping = &commands[1];
    assert_eq!(ping.name, "ping");
    assert_eq!(ping.application_name.as_deref(), Some("pinger"));
    assert_eq!(ping.description, "");
}

#[test]
fn application_name_skips_blank_sources() {
    let raw = model(&parse(r#"{"application": {"name": "  "}, "user": {"username": "someone"}, "display_name": "Shown"}"#));
    assert_eq!(
        parse_application_command_application_name(&raw, None).as_deref(),
        Some("someone")
    );
    let application = model(&parse(r#"{"bot": {"global_name": "App Bot"}}"#));
    assert_eq!(
        parse_application_command_application_name(&model(&parse("{}")), Some(&application)).as_deref(),
        Some("App Bot")
    );
    assert_eq!(parse_application_command_application_name(&model(&parse("{}")), None), None);
}

#[test]
fn options_need_a_numeric_type_and_a_name() {
    assert!(parse_application_command_option_info(&model(&parse(r#"{"type": 3}"#))).is_none());
    assert!(parse_application_command_option_info(&model(&parse(r#"{"name": "x"}"#))).is_none());
    assert!(parse_application_command_option_info(&model(&parse(r#"{"type": -1, "name": "x"}"#))).is_none());
    let option = parse_application_command_option_info(&model(&parse(
        r#"{"type": 5, "name": "loud", "autocomplete": true, "required": "yes"}"#,
    )))
    .expect("readable option");
    assert_eq!(option.kind, 5);
    assert!(option.autocomplete);
    assert!(!option.required);
}

fn command(raw: Value) -> ApplicationCommandInfo {
    ApplicationCommandInfo {
        id: Id::new(100),
        application_id: Id::new(200),
        version: "1".to_owned(),
        name: "echo".to_owned(),
        application_name: None,
        description: String::new(),
        options: Vec::new(),
        raw,
    }
}

#[test]
fn option_bodies_carry_values_or_nested_options() {
    let leaf = ApplicationCommandInteractionOption {
        kind: 3,
        name: "text".to_owned(),
        value: Some(Value::String("hi".to_owned())),
        options: Vec::new(),
    };
    assert_eq!(
        application_command_option_body(&leaf),
        parse(r#"{"type": 3, "name": "text", "value": "hi"}"#)
    );
    let group = ApplicationCommandInteractionOption {
        kind: 1,
        name: "say".to_owned(),
        value: None,
        options: vec![leaf],
    };
    assert_eq!(
        application_command_option_body(&group),
        parse(r#"{"type": 1, "name": "say", "options": [{"type": 3, "name": "text", "value": "hi"}]}"#)
    );
    let empty = ApplicationCommandInteractionOption { kind: 1, name: "noop".to_owned(), value: None, options: Vec::new() };
    assert_eq!(application_command_option_body(&empty), parse(r#"{"type": 1, "name": "noop"}"#));
}

#[test]
fn interaction_body_names_the_command_and_target() {
    let raw = parse(r#"{"id": "100", "name": "echo", "guild_id": "55"}"#);
    let interaction = ApplicationCommandInteraction {
        guild_id: None,
        channel_id: Id::new(2),
        command: command(raw.clone()),
        options: Vec::new(),
    };
    let body = application_command_interaction_body_with_nonce(&interaction, "session", "42".to_owned());
    assert_eq!(
        body,
        serde_json::from_str::<Value>(&format!(
            r#"{{"type": 2, "application_id": "200", "guild_id": null, "channel_id": "2",
                "session_id": "session", "nonce": "42", "analytics_location": "slash_ui",
                "data": {{"version": "1", "id": "100", "name": "echo", "type": 1, "options": [],
                          "application_command": {raw}, "attachments": [], "guild_id": "55"}}}}"#
        ))
        .expect("expected body parses")
    );
    let fresh = application_command_interaction_body(&interaction, "session");
    assert!(fresh["nonce"].as_str().expect("nonce text").chars().all(|c| c.is_ascii_digit()));
}
