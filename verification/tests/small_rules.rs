use concord::marker::UserMarker;
use concord::raw_fields::{parse_id, raw_discriminator};
use concord::avatar::{
    avatar_content_type_for, check_profile_avatar_size, profile_avatar_content_type,
    profile_avatar_image, ImageKind,
};
use concord::captcha::{captcha_challenge_gate, CaptchaChallenge};
use concord::error::{request_failure, truncate_error_body, AppError};
use concord::history::{format_message_history_anchor_endpoint, format_message_history_endpoint};
use concord::ids::Id;
use concord::presence::PresenceStatus;
use concord::json::Json;
use concord::reactions::{next_reaction_users_after, reaction_user_info, reaction_user_info_from_raw};
use base64::Engine;
use concord::guild::GuildFolder;
use concord::settings_proto::{
    encode_preloaded_guild_folders, encode_preloaded_status, settings_proto_request_body,
    status_settings_payload, status_settings_proto_request_body,
};
use std::io::Cursor;

fn challenge_from_body(body: &str) -> Option<CaptchaChallenge> {
    let value: serde_json::Value = serde_json::from_str(body).ok()?;
    let keys = value.get("captcha_key")?.as_array()?;
    let mut captcha_key = Vec::new();
    for key in keys {
        captcha_key.push(key.as_str()?.to_owned());
    }
    let captcha_service = match value.get("captcha_service") {
        None | Some(serde_json::Value::Null) => None,
        Some(service) => Some(service.as_str()?.to_owned()),
    };
    Some(CaptchaChallenge { captcha_key, captcha_service })
}

fn parse_captcha_challenge(status: u16, body: &str) -> Option<CaptchaChallenge> {
    captcha_challenge_gate(status, challenge_from_body(body)?)
}

#[test]
fn detects_hcaptcha_required_only_on_bad_request() {
    let body = r#"{"captcha_key":["captcha-required"],"captcha_service":"hcaptcha","captcha_sitekey":"abc"}"#;
    assert!(parse_captcha_challenge(400, body).is_some());
    // Same body under a different status is not a captcha gate.
    assert!(parse_captcha_challenge(403, body).is_none());
    // An ordinary 400 error must not be mistaken for a captcha.
    assert!(parse_captcha_challenge(400, r#"{"message":"bad"}"#).is_none());
}

#[test]
fn captcha_gate_checks_service_and_key() {
    let gate = |keys: &[&str], service: Option<&str>| CaptchaChallenge {
        captcha_key: keys.iter().map(|k| (*k).to_owned()).collect(),
        captcha_service: service.map(str::to_owned),
    };
    assert!(captcha_challenge_gate(400, gate(&["captcha-required"], Some("HCaptcha"))).is_some());
    assert!(captcha_challenge_gate(400, gate(&["captcha-required"], None)).is_some());
    assert!(captcha_challenge_gate(400, gate(&["captcha-required"], Some("recaptcha"))).is_none());
    assert!(captcha_challenge_gate(400, gate(&["invalid-response"], Some("hcaptcha"))).is_none());
}

#[test]
fn profile_avatar_content_type_uses_image_bytes() {
    let image = image::DynamicImage::ImageRgba8(image::RgbaImage::from_pixel(1, 1, image::Rgba([0, 0, 0, 0])));
    let mut png = Cursor::new(Vec::new());
    image
        .write_to(&mut png, image::ImageFormat::Png)
        .expect("test png should encode");

    assert_eq!(
        profile_avatar_content_type(png.get_ref()),
        Ok("image/png".to_owned())
    );
}

#[test]
fn profile_avatar_content_type_rejects_non_image_bytes() {
    let error = profile_avatar_content_type(b"not actually a png")
        .expect_err("non-image bytes should fail");

    assert_eq!(
        error,
        "profile avatar must contain valid PNG, JPEG, GIF, or WebP image data"
    );
}

#[test]
fn avatar_content_type_names_each_format() {
    assert_eq!(avatar_content_type_for(true, ImageKind::Jpeg), Ok("image/jpeg".to_owned()));
    assert_eq!(avatar_content_type_for(true, ImageKind::Gif), Ok("image/gif".to_owned()));
    assert_eq!(avatar_content_type_for(true, ImageKind::WebP), Ok("image/webp".to_owned()));
    assert_eq!(
        avatar_content_type_for(true, ImageKind::Other),
        Err("profile avatar must be a PNG, JPEG, GIF, or WebP image".to_owned())
    );
    assert_eq!(
        avatar_content_type_for(false, ImageKind::Png),
        Err("profile avatar must contain valid PNG, JPEG, GIF, or WebP image data".to_owned())
    );
}

#[test]
fn error_bodies_are_cut_at_five_hundred_characters() {
    assert_eq!(truncate_error_body("short".to_owned()), "short");
    let exact = "x".repeat(500);
    assert_eq!(truncate_error_body(exact.clone()), exact);
    let long = "é".repeat(501);
    let cut = truncate_error_body(long);
    assert_eq!(cut.chars().count(), 503);
    assert!(cut.ends_with("é..."));
}

#[test]
fn request_failures_add_a_non_blank_detail() {
    assert_eq!(
        request_failure("leave guild", "HTTP 403", Some("{\"message\":\"no\"}".to_owned())),
        AppError::DiscordRequest("leave guild failed: HTTP 403: {\"message\":\"no\"}".to_owned())
    );
    assert_eq!(
        request_failure("leave guild", "HTTP 403", Some("  ".to_owned())),
        AppError::DiscordRequest("leave guild failed: HTTP 403".to_owned())
    );
    assert_eq!(
        request_failure("ack", "HTTP 500", None),
        AppError::DiscordRequest("ack failed: HTTP 500".to_owned())
    );
}

#[test]
fn history_endpoints_name_the_request() {
    assert_eq!(
        format_message_history_endpoint(Id::new(123), Some(Id::new(789)), 50),
        "GET /channels/123/messages?limit=50&before=789"
    );
    assert_eq!(
        format_message_history_endpoint(Id::new(123), None, 50),
        "GET /channels/123/messages?limit=50"
    );
    assert_eq!(
        format_message_history_anchor_endpoint(Id::new(123), "around", Id::new(456), 25),
        "GET /channels/123/messages?limit=25&around=456"
    );
}

#[test]
fn reaction_users_page_until_a_short_page_or_the_third() {
    assert_eq!(next_reaction_users_after(100, Some(Id::new(9)), 1), Some(Id::new(9)));
    assert_eq!(next_reaction_users_after(100, Some(Id::new(9)), 2), Some(Id::new(9)));
    assert_eq!(next_reaction_users_after(100, Some(Id::new(9)), 3), None);
    assert_eq!(next_reaction_users_after(99, Some(Id::new(9)), 1), None);
    assert_eq!(next_reaction_users_after(100, None, 1), None);
}

#[test]
fn reaction_users_show_the_global_name_first() {
    let user = reaction_user_info(Some("42"), Some("Neo"), Some("neo")).expect("valid user");
    assert_eq!(user.user_id, Id::new(42));
    assert_eq!(user.display_name, "Neo");
    let fallback = reaction_user_info(Some("+42"), Some(""), Some("neo")).expect("valid user");
    assert_eq!(fallback.display_name, "neo");
    assert!(reaction_user_info(Some("0"), Some("Neo"), None).is_none());
    assert!(reaction_user_info(Some("-1"), Some("Neo"), None).is_none());
    assert!(reaction_user_info(Some("42"), Some(""), None).is_none());
    assert!(reaction_user_info(None, Some("Neo"), None).is_none());
    assert!(reaction_user_info(Some("18446744073709551616"), Some("Neo"), None).is_none());
}

#[test]
fn status_settings_are_sent_in_base64() {
    assert_eq!(
        encode_preloaded_status(PresenceStatus::Online),
        vec![0x5a, 0x0a, 0x0a, 0x08, 0x0a, 0x06, b'o', b'n', b'l', b'i', b'n', b'e']
    );
    assert_eq!(status_settings_payload(PresenceStatus::Online), "WgoKCAoGb25saW5l");
    assert_eq!(status_settings_payload(PresenceStatus::DoNotDisturb), "WgcKBQoDZG5k");
}

fn user_object(fields: &[(&str, Json)]) -> Json {
    Json::Object(
        fields
            .iter()
            .map(|(key, value)| (key.to_string(), clone_json(value)))
            .collect(),
    )
}

fn clone_json(value: &Json) -> Json {
    match value {
        Json::Null => Json::Null,
        Json::Bool(b) => Json::Bool(*b),
        Json::Number(n) => Json::Number(n.clone()),
        Json::Text(s) => Json::Text(s.clone()),
        Json::Array(items) => Json::Array(items.iter().map(clone_json).collect()),
        Json::Object(entries) => Json::Object(
            entries
                .iter()
                .map(|(key, value)| (key.clone(), clone_json(value)))
                .collect(),
        ),
    }
}

#[test]
fn reaction_users_are_read_from_user_objects() {
    let user = reaction_user_info_from_raw(&user_object(&[
        ("id", Json::Text("42".to_owned())),
        ("username", Json::Text("neo".to_owned())),
        ("global_name", Json::Text("Neo".to_owned())),
    ]))
    .expect("valid user");
    assert_eq!(user.user_id, Id::new(42));
    assert_eq!(user.display_name, "Neo");

    let fallback = reaction_user_info_from_raw(&user_object(&[
        ("id", Json::Text("7".to_owned())),
        ("global_name", Json::Null),
        ("username", Json::Text("trinity".to_owned())),
    ]))
    .expect("valid user");
    assert_eq!(fallback.display_name, "trinity");

    assert!(reaction_user_info_from_raw(&user_object(&[
        ("id", Json::Number(concord::json::JsonNumber::PosInt(42))),
        ("username", Json::Text("neo".to_owned())),
    ]))
    .is_none());
    assert!(reaction_user_info_from_raw(&Json::Text("42".to_owned())).is_none());
}

#[test]
fn settings_request_bodies_wrap_the_base64_payload() {
    let expected: serde_json::Value =
        serde_json::from_str(r#"{"settings":"WgoKCAoGb25saW5l"}"#).expect("valid JSON");
    assert_eq!(status_settings_proto_request_body(PresenceStatus::Online), expected);

    let folders = vec![GuildFolder {
        id: Some(7),
        name: Some("Work".to_owned()),
        color: Some(0x00ff00),
        guild_ids: vec![Id::new(1), Id::new(2)],
    }];
    let payload = base64::engine::general_purpose::STANDARD.encode(encode_preloaded_guild_folders(&folders));
    let body = settings_proto_request_body(&folders);
    assert_eq!(body.as_object().map(|o| o.len()), Some(1));
    assert_eq!(body.get("settings").and_then(|v| v.as_str()), Some(payload.as_str()));
    assert!(payload.starts_with("c"));
}

#[test]
fn raw_ids_and_discriminators_accept_texts_and_numbers() {
    assert_eq!(parse_id::<UserMarker>(Some(&Json::Text("42".to_owned()))), Some(Id::new(42)));
    assert_eq!(
        parse_id::<UserMarker>(Some(&Json::Number(concord::json::JsonNumber::PosInt(7)))),
        Some(Id::new(7))
    );
    assert_eq!(parse_id::<UserMarker>(Some(&Json::Text("0".to_owned()))), None);
    assert_eq!(parse_id::<UserMarker>(Some(&Json::Text("x1".to_owned()))), None);
    assert_eq!(parse_id::<UserMarker>(Some(&Json::Bool(true))), None);
    assert_eq!(parse_id::<UserMarker>(None), None);

    let with = |value: Json| user_object(&[("discriminator", value)]);
    assert_eq!(raw_discriminator(&with(Json::Text("0420".to_owned()))), Some(420));
    assert_eq!(
        raw_discriminator(&with(Json::Number(concord::json::JsonNumber::PosInt(65535)))),
        Some(65535)
    );
    assert_eq!(raw_discriminator(&with(Json::Text("65536".to_owned()))), None);
    assert_eq!(
        raw_discriminator(&with(Json::Number(concord::json::JsonNumber::PosInt(70000)))),
        None
    );
    assert_eq!(raw_discriminator(&user_object(&[])), None);
}

#[test]
fn profile_avatar_images_are_size_checked_before_their_type() {
    let image = image::DynamicImage::ImageRgba8(image::RgbaImage::from_pixel(1, 1, image::Rgba([0, 0, 0, 0])));
    let mut png = Cursor::new(Vec::new());
    image
        .write_to(&mut png, image::ImageFormat::Png)
        .expect("test png should encode");
    let bytes = png.into_inner();
    let size = bytes.len() as u64;

    let ready = profile_avatar_image(bytes.clone(), size).expect("small enough png");
    assert_eq!(ready.content_type, "image/png");
    assert_eq!(ready.bytes, bytes);

    let error = profile_avatar_image(bytes.clone(), size - 1).err().expect("too large");
    assert_eq!(error, format!("profile avatar is too large: {size} bytes"));

    let error = profile_avatar_image(b"plain text".to_vec(), 1024).err().expect("not an image");
    assert_eq!(error, "profile avatar must contain valid PNG, JPEG, GIF, or WebP image data");

    assert_eq!(check_profile_avatar_size(10, 10), Ok(()));
    assert_eq!(
        check_profile_avatar_size(11, 10),
        Err("profile avatar is too large: 11 bytes".to_owned())
    );
}
