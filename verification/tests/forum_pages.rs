use concord::error::AppError;
use concord::commands::MessageAttachmentUpload;
use concord::commands::ForumPostArchiveState;
use concord::forum::{
    forum_post_search_params, create_forum_post_request_body, created_forum_post, forum_first_messages, forum_page_next_offset, forum_threads_for_parent,
    forum_post_page, is_search_index_warming, merge_forum_pages, parse_channel_info,
    parse_create_forum_post_response, parse_forum_first_messages, parse_forum_thread_search_response,
    parse_forum_threads, parse_message_info,
    validate_forum_post_title, ChannelInfo, ForumPostPage, ForumSearchSort, MessageInfo,
};
use concord::json::{Json, JsonNumber};
use concord::ids::Id;

fn thread(channel_id: u64, parent_id: Option<u64>) -> ChannelInfo {
    ChannelInfo {
        guild_id: Some(Id::new(1)),
        channel_id: Id::new(channel_id),
        parent_id: parent_id.map(Id::new),
        owner_id: None,
        name: format!("thread {channel_id}"),
        kind: "thread".to_owned(),
        position: None,
    }
}

fn message(channel_id: u64, message_id: u64) -> MessageInfo {
    MessageInfo {
        guild_id: Some(Id::new(1)),
        channel_id: Id::new(channel_id),
        message_id: Id::new(message_id),
        author_id: Id::new(99),
        author: "neo".to_owned(),
        content: Some(format!("message {message_id}")),
        pinned: false,
    }
}

fn page(threads: Vec<ChannelInfo>, first_messages: Vec<MessageInfo>, has_more: bool, next_offset: usize) -> ForumPostPage {
    ForumPostPage { threads, first_messages, has_more, next_offset }
}

fn thread_ids(page: &ForumPostPage) -> Vec<u64> {
    page.threads.iter().map(|thread| thread.channel_id.get()).collect()
}

fn message_ids(page: &ForumPostPage) -> Vec<u64> {
    page.first_messages.iter().map(|message| message.message_id.get()).collect()
}

#[test]
fn merged_first_page_lists_each_thread_once() {
    let active = page(
        vec![thread(10, Some(5)), thread(11, Some(5))],
        vec![message(10, 100), message(11, 110)],
        true,
        25,
    );
    let recent = page(
        vec![thread(12, Some(5)), thread(10, Some(5))],
        vec![message(12, 120), message(10, 100)],
        false,
        2,
    );

    let merged = merge_forum_pages(active, recent);

    assert_eq!(thread_ids(&merged), vec![10, 11, 12]);
    assert_eq!(message_ids(&merged), vec![100, 110, 120]);
    assert!(merged.has_more);
    assert_eq!(merged.next_offset, 25);
}

#[test]
fn merging_keeps_the_first_copy_of_a_thread() {
    let mut renamed = thread(10, Some(5));
    renamed.name = "renamed".to_owned();
    let merged = merge_forum_pages(
        page(vec![thread(10, Some(5))], Vec::new(), false, 1),
        page(vec![renamed, thread(10, Some(5))], Vec::new(), true, 2),
    );
    assert_eq!(merged.threads, vec![thread(10, Some(5))]);
    assert!(!merged.has_more);
    assert_eq!(merged.next_offset, 1);
}

#[test]
fn merging_a_page_that_adds_nothing_gives_the_active_page() {
    let active = page(vec![thread(10, Some(5)), thread(11, Some(5))], vec![message(10, 100)], true, 2);
    let expected = active.clone();
    let merged = merge_forum_pages(active, page(vec![thread(11, Some(5))], vec![message(10, 100)], false, 1));
    assert_eq!(merged, expected);
}

#[test]
fn forum_listing_keeps_threads_of_the_forum() {
    let channels = vec![thread(10, Some(5)), thread(11, None), thread(12, Some(6))];
    let filled = forum_threads_for_parent(channels.clone(), Id::new(5), true);
    assert_eq!(filled.iter().map(|c| c.channel_id.get()).collect::<Vec<_>>(), vec![10, 11]);
    assert_eq!(filled[1].parent_id, Some(Id::new(5)));
    let strict = forum_threads_for_parent(channels, Id::new(5), false);
    assert_eq!(strict.iter().map(|c| c.channel_id.get()).collect::<Vec<_>>(), vec![10]);
}

#[test]
fn first_messages_belong_to_listed_threads_once() {
    let threads = vec![thread(10, Some(5)), thread(11, Some(5))];
    let messages = vec![message(10, 100), message(12, 120), message(10, 100), message(11, 110)];
    let kept = forum_first_messages(messages, &threads);
    assert_eq!(kept.iter().map(|m| m.message_id.get()).collect::<Vec<_>>(), vec![100, 110]);
}

#[test]
fn created_post_falls_back_to_the_forum() {
    let post = created_forum_post(thread(10, None), Some(message(10, 100)), Some(Id::new(5)));
    assert_eq!(post.thread.parent_id, Some(Id::new(5)));
    assert_eq!(post.first_message, Some(message(10, 100)));
    let own_parent = created_forum_post(thread(10, Some(6)), None, Some(Id::new(5)));
    assert_eq!(own_parent.thread.parent_id, Some(Id::new(6)));
}

#[test]
fn forum_post_titles_are_trimmed_and_bounded() {
    assert_eq!(validate_forum_post_title("  Hello  ").expect("valid title"), "Hello");
    assert_eq!(
        validate_forum_post_title("   "),
        Err(AppError::DiscordRequest("forum post title cannot be empty".to_owned()))
    );
    let long = "é".repeat(101);
    assert_eq!(
        validate_forum_post_title(&long),
        Err(AppError::DiscordRequest("forum post title is too long: 101/100".to_owned()))
    );
    let longest = "é".repeat(100);
    assert_eq!(validate_forum_post_title(&longest).expect("100 characters fit"), longest);
}

#[test]
fn index_warming_errors_are_recognised() {
    assert!(is_search_index_warming(&AppError::DiscordRequest(
        "forum post search index is not ready".to_owned()
    )));
    assert!(!is_search_index_warming(&AppError::DiscordRequest(
        "forum post search failed: 500".to_owned()
    )));
    assert_eq!(ForumSearchSort::LastMessageTime.as_str(), "last_message_time");
    assert_eq!(ForumSearchSort::CreationTime.as_str(), "creation_time");
    assert_eq!(forum_page_next_offset(25, 25), 50);
    assert_eq!(forum_page_next_offset(usize::MAX, 3), usize::MAX);
}

#[test]
fn forum_post_bodies_hold_title_message_tags_and_files() {
    let plain = create_forum_post_request_body("  Weekly thread ", "hello", &[], &[]).expect("valid title");
    assert_eq!(
        plain,
        serde_json::from_str::<serde_json::Value>(r#"{"name": "Weekly thread", "message": {"content": "hello"}}"#)
            .expect("expected JSON parses")
    );
    let files = vec![
        MessageAttachmentUpload::from_bytes("a.png".to_owned(), vec![1]),
        MessageAttachmentUpload::from_bytes("b.txt".to_owned(), vec![2]),
    ];
    let full = create_forum_post_request_body("Post", "", &[Id::new(5), Id::new(6)], &files).expect("valid title");
    assert_eq!(
        full,
        serde_json::from_str::<serde_json::Value>(
            r#"{"name": "Post", "applied_tags": ["5", "6"],
                "message": {"content": "", "attachments": [{"id": 0, "filename": "a.png"}, {"id": 1, "filename": "b.txt"}]}}"#
        )
        .expect("expected JSON parses")
    );
    assert_eq!(
        create_forum_post_request_body(" ", "x", &[], &[]),
        Err(AppError::DiscordRequest("forum post title cannot be empty".to_owned()))
    );
}

#[test]
fn forum_search_asks_for_a_page_of_posts() {
    let params: Vec<(String, String)> =
        forum_post_search_params(ForumPostArchiveState::Archived, 50, ForumSearchSort::CreationTime)
            .into_iter()
            .map(|(k, v)| (k.to_owned(), v))
            .collect();
    let expected: Vec<(String, String)> = [
        ("archived", "true"),
        ("sort_by", "creation_time"),
        ("sort_order", "desc"),
        ("limit", "25"),
        ("tag_setting", "match_some"),
        ("offset", "50"),
    ]
    .iter()
    .map(|(k, v)| ((*k).to_owned(), (*v).to_owned()))
    .collect();
    assert_eq!(params, expected);
}

fn model(value: &serde_json::Value) -> Json {
    match value {
        serde_json::Value::Null => Json::Null,
        serde_json::Value::Bool(b) => Json::Bool(*b),
        serde_json::Value::Number(n) => Json::Number(if let Some(u) = n.as_u64() {
            JsonNumber::PosInt(u)
        } else if let Some(i) = n.as_i64() {
            JsonNumber::NegInt(i)
        } else {
            JsonNumber::Float(n.to_string())
        }),
        serde_json::Value::String(s) => Json::Text(s.clone()),
        serde_json::Value::Array(items) => Json::Array(items.iter().map(model).collect()),
        serde_json::Value::Object(map) => {
            Json::Object(map.iter().map(|(k, v)| (k.clone(), model(v))).collect())
        }
    }
}

fn parsed(text: &str) -> Json {
    model(&serde_json::from_str(text).expect("valid JSON"))
}

#[test]
fn channel_objects_are_read_into_channel_info() {
    let channel = parse_channel_info(
        &parsed(r#"{"id":"30","parent_id":"20","owner_id":"99","name":"help","type":11,"position":-3}"#),
        Some(Id::new(1)),
    )
    .expect("channel with an id");
    assert_eq!(channel.channel_id, Id::new(30));
    assert_eq!(channel.guild_id, Some(Id::new(1)));
    assert_eq!(channel.parent_id, Some(Id::new(20)));
    assert_eq!(channel.owner_id, Some(Id::new(99)));
    assert_eq!(channel.name, "help");
    assert_eq!(channel.kind, "11");
    assert_eq!(channel.position, Some(-3));

    let own_guild = parse_channel_info(&parsed(r#"{"id":31,"guild_id":"5","position":4294967296}"#), Some(Id::new(1)))
        .expect("numeric ids are accepted");
    assert_eq!(own_guild.channel_id, Id::new(31));
    assert_eq!(own_guild.guild_id, Some(Id::new(5)));
    assert_eq!(own_guild.name, "");
    assert_eq!(own_guild.kind, "");
    assert_eq!(own_guild.position, None);

    assert!(parse_channel_info(&parsed(r#"{"id":"0"}"#), None).is_none());
    assert!(parse_channel_info(&parsed(r#"{"name":"x"}"#), None).is_none());
}

#[test]
fn message_objects_are_read_into_message_info() {
    let message = parse_message_info(&parsed(
        r#"{"id":"40","channel_id":"30","guild_id":"1","author":{"id":"99","username":"neo","global_name":"Neo"},"content":"hi","pinned":true}"#,
    ))
    .expect("complete message");
    assert_eq!(message.message_id, Id::new(40));
    assert_eq!(message.channel_id, Id::new(30));
    assert_eq!(message.guild_id, Some(Id::new(1)));
    assert_eq!(message.author_id, Id::new(99));
    assert_eq!(message.author, "Neo");
    assert_eq!(message.content.as_deref(), Some("hi"));
    assert!(message.pinned);

    let plain = parse_message_info(&parsed(
        r#"{"id":"41","channel_id":"30","author":{"id":"98","username":"trinity"}}"#,
    ))
    .expect("message without optional fields");
    assert_eq!(plain.guild_id, None);
    assert_eq!(plain.author, "trinity");
    assert_eq!(plain.content, None);
    assert!(!plain.pinned);

    assert!(parse_message_info(&parsed(r#"{"id":"41","channel_id":"30"}"#)).is_none());
    assert!(parse_message_info(&parsed(r#"{"id":"41","channel_id":"30","author":{"username":"x"}}"#)).is_none());
}

const FORUM_SEARCH: &str = r#"{
    "threads": [
        {"id":"31","parent_id":"20","name":"first"},
        {"id":"32","name":"no parent"},
        {"id":"33","parent_id":"21","name":"elsewhere"},
        {"name":"no id"}
    ],
    "first_messages": [
        {"id":"41","channel_id":"31","author":{"id":"9","username":"neo"}},
        {"id":"41","channel_id":"31","author":{"id":"9","username":"neo"}},
        {"id":"42","channel_id":"33","author":{"id":"9","username":"neo"}},
        {"id":"43","channel_id":"32","author":{"id":"9","username":"neo"}},
        {"id":"44","channel_id":"32"}
    ],
    "has_more": true
}"#;

#[test]
fn forum_search_responses_keep_the_forum_threads_and_their_first_messages() {
    let raw = parsed(FORUM_SEARCH);
    let threads = parse_forum_threads(&raw, Some(Id::new(1)), Id::new(20), true);
    let ids: Vec<u64> = threads.iter().map(|t| t.channel_id.get()).collect();
    assert_eq!(ids, vec![31, 32]);
    assert_eq!(threads[1].parent_id, Some(Id::new(20)));
    assert_eq!(threads[0].guild_id, Some(Id::new(1)));

    let strict = parse_forum_threads(&raw, None, Id::new(20), false);
    assert_eq!(strict.iter().map(|t| t.channel_id.get()).collect::<Vec<_>>(), vec![31]);

    let messages = parse_forum_first_messages(&raw, &threads);
    assert_eq!(messages.iter().map(|m| m.message_id.get()).collect::<Vec<_>>(), vec![41, 43]);

    let response = parse_forum_thread_search_response(&raw, Some(Id::new(1)), Id::new(20), true);
    assert_eq!(response.threads, threads);
    assert_eq!(response.first_messages, messages);
    assert!(response.has_more);

    let page = forum_post_page(&raw, Id::new(1), Id::new(20), 25);
    assert_eq!(page.next_offset, 27);
    assert_eq!(page.threads, threads);
    assert!(page.has_more);

    let empty = forum_post_page(&parsed("{}"), Id::new(1), Id::new(20), 0);
    assert!(empty.threads.is_empty() && empty.first_messages.is_empty() && !empty.has_more);
    assert_eq!(empty.next_offset, 0);
}

#[test]
fn create_forum_post_response_places_the_thread_under_the_forum() {
    let post = parse_create_forum_post_response(
        &parsed(r#"{"id":"31","name":"new","message":{"id":"41","channel_id":"31","author":{"id":"9","username":"neo"}}}"#),
        Some(Id::new(20)),
    )
    .expect("thread reads");
    assert_eq!(post.thread.channel_id, Id::new(31));
    assert_eq!(post.thread.parent_id, Some(Id::new(20)));
    assert_eq!(post.first_message.map(|m| m.message_id), Some(Id::new(41)));

    let own_parent = parse_create_forum_post_response(&parsed(r#"{"id":"31","parent_id":"5"}"#), Some(Id::new(20)))
        .expect("thread reads");
    assert_eq!(own_parent.thread.parent_id, Some(Id::new(5)));
    assert_eq!(own_parent.first_message, None);

    assert_eq!(
        parse_create_forum_post_response(&parsed(r#"{"name":"x"}"#), Some(Id::new(20))),
        Err(AppError::DiscordRequest("create forum post response was missing thread".to_owned()))
    );
}
