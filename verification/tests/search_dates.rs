use concord::ids::Id;
use concord::search::{
    message_search_date_snowflake_bounds, message_search_date_token_bounds,
    message_search_endpoint, message_search_has_more, message_search_query_params,
    empty_message_search_page, message_search_page, narrow_date_bounds, parse_message_search_messages,
    timestamp_millis_to_snowflake, MessageSearchDateBounds, MessageSearchQuery,
    DISCORD_EPOCH_MILLIS,
};
use concord::error::AppError;
use concord::json::{Json, JsonNumber};

const JAN_1_2024: i64 = 1_704_067_200_000;
const JAN_2_2024: i64 = 1_704_153_600_000;

fn snowflake(millis: i64) -> u64 {
    ((millis - DISCORD_EPOCH_MILLIS) as u64) << 22
}

#[test]
fn snowflake_time_starts_at_the_discord_epoch() {
    assert_eq!(timestamp_millis_to_snowflake(DISCORD_EPOCH_MILLIS), 0);
    assert_eq!(timestamp_millis_to_snowflake(0), 0);
    assert_eq!(timestamp_millis_to_snowflake(i64::MIN), 0);
    assert_eq!(timestamp_millis_to_snowflake(DISCORD_EPOCH_MILLIS + 1), 1 << 22);
    assert_eq!(timestamp_millis_to_snowflake(JAN_1_2024), snowflake(JAN_1_2024));
    assert_eq!(timestamp_millis_to_snowflake(JAN_1_2024) >> 22, (JAN_1_2024 - DISCORD_EPOCH_MILLIS) as u64);
}

#[test]
fn a_bare_date_bounds_one_utc_day() {
    let bounds = message_search_date_snowflake_bounds("2024-01-01").expect("valid date");
    assert_eq!(
        bounds,
        MessageSearchDateBounds {
            min_id: Some(snowflake(JAN_1_2024) - 1),
            max_id: Some(snowflake(JAN_2_2024)),
        }
    );
    assert_eq!(message_search_date_snowflake_bounds("equal: 2024-01-01 "), Some(bounds));
}

#[test]
fn date_filters_narrow_each_other() {
    let bounds = message_search_date_snowflake_bounds("gte:2024-01-01, lte:2024-01-01")
        .expect("valid filters");
    assert_eq!(bounds.min_id, Some(snowflake(JAN_1_2024) - 1));
    assert_eq!(bounds.max_id, Some(snowflake(JAN_2_2024)));

    let wide = message_search_date_snowflake_bounds("gte:2023-12-01,gte:2024-01-01").expect("valid");
    assert_eq!(wide.min_id, Some(snowflake(JAN_1_2024) - 1));
    assert_eq!(wide.max_id, None);

    let upper = message_search_date_snowflake_bounds("lte:2024-01-01").expect("valid");
    assert_eq!(upper.min_id, None);
    assert_eq!(upper.max_id, Some(snowflake(JAN_2_2024)));
}

#[test]
fn malformed_date_filters_give_no_bounds() {
    assert_eq!(message_search_date_snowflake_bounds(""), None);
    assert_eq!(message_search_date_snowflake_bounds("2024-01-01,"), None);
    assert_eq!(message_search_date_snowflake_bounds("after:2024-01-01"), None);
    assert_eq!(message_search_date_snowflake_bounds("gte:2024-02-30"), None);
    assert_eq!(message_search_date_snowflake_bounds("yesterday"), None);
}

#[test]
fn a_single_filter_takes_the_day_starts_it_needs() {
    assert_eq!(
        message_search_date_token_bounds("gte", Some(JAN_1_2024), None),
        Some(MessageSearchDateBounds { min_id: Some(snowflake(JAN_1_2024) - 1), max_id: None })
    );
    assert_eq!(
        message_search_date_token_bounds("lte", None, Some(JAN_2_2024)),
        Some(MessageSearchDateBounds { min_id: None, max_id: Some(snowflake(JAN_2_2024)) })
    );
    assert_eq!(message_search_date_token_bounds("equal", Some(JAN_1_2024), None), None);
    assert_eq!(message_search_date_token_bounds("gte", None, Some(JAN_2_2024)), None);
    assert_eq!(message_search_date_token_bounds("before", Some(JAN_1_2024), Some(JAN_2_2024)), None);
    assert_eq!(
        message_search_date_token_bounds("gte", Some(DISCORD_EPOCH_MILLIS), None),
        Some(MessageSearchDateBounds { min_id: Some(0), max_id: None })
    );
    let narrowed = narrow_date_bounds(
        MessageSearchDateBounds { min_id: Some(5), max_id: Some(50) },
        MessageSearchDateBounds { min_id: Some(9), max_id: None },
    );
    assert_eq!(narrowed, MessageSearchDateBounds { min_id: Some(9), max_id: Some(50) });
}

#[test]
fn search_paging_stops_at_the_total_and_the_offset_limit() {
    assert!(message_search_has_more(0, Some(26)));
    assert!(!message_search_has_more(0, Some(25)));
    assert!(!message_search_has_more(0, None));
    assert!(message_search_has_more(9_950, Some(20_000)));
    assert!(!message_search_has_more(9_951, Some(20_000)));
    assert!(!message_search_has_more(usize::MAX, Some(usize::MAX)));
}

#[test]
fn search_endpoint_prefers_the_server() {
    assert_eq!(
        message_search_endpoint(Some(Id::new(7)), Some(Id::new(9))).expect("server search"),
        "https://discord.com/api/v9/guilds/7/messages/search"
    );
    assert_eq!(
        message_search_endpoint(None, Some(Id::new(9))).expect("channel search"),
        "https://discord.com/api/v9/channels/9/messages/search"
    );
    let error = message_search_endpoint(None, None).expect_err("nowhere to search");
    assert_eq!(
        error.message().map(String::as_str),
        Some("message search requires a server or channel")
    );
}

fn empty_query() -> MessageSearchQuery {
    MessageSearchQuery {
        guild_id: None,
        channel_id: None,
        offset: 0,
        content: None,
        author_id: None,
        mentions_user_id: None,
        has: Vec::new(),
        author_type: Vec::new(),
        pinned: None,
        date: None,
    }
}

fn param_pairs(query: &MessageSearchQuery) -> Vec<(String, String)> {
    message_search_query_params(query)
        .into_iter()
        .map(|(key, value)| (key.to_owned(), value))
        .collect()
}

fn pairs(list: &[(&str, &str)]) -> Vec<(String, String)> {
    list.iter().map(|(k, v)| ((*k).to_owned(), (*v).to_owned())).collect()
}

#[test]
fn search_params_start_with_paging_and_order() {
    assert_eq!(
        param_pairs(&empty_query()),
        pairs(&[("limit", "25"), ("offset", "0"), ("sort_by", "timestamp"), ("sort_order", "desc")])
    );
    let far = MessageSearchQuery { offset: 50_000, content: Some(String::new()), ..empty_query() };
    assert_eq!(
        param_pairs(&far),
        pairs(&[("limit", "25"), ("offset", "9975"), ("sort_by", "timestamp"), ("sort_order", "desc")])
    );
}

#[test]
fn search_params_list_each_filter() {
    let query = MessageSearchQuery {
        guild_id: Some(Id::new(1)),
        channel_id: Some(Id::new(2)),
        offset: 25,
        content: Some("hello".to_owned()),
        author_id: Some(Id::new(3)),
        mentions_user_id: Some(Id::new(4)),
        has: vec!["link".to_owned(), "image".to_owned()],
        author_type: vec!["bot".to_owned()],
        pinned: Some(true),
        date: Some("2024-01-01".to_owned()),
    };
    let min = (snowflake(JAN_1_2024) - 1).to_string();
    let max = snowflake(JAN_2_2024).to_string();
    assert_eq!(
        param_pairs(&query),
        pairs(&[
            ("limit", "25"),
            ("offset", "25"),
            ("sort_by", "timestamp"),
            ("sort_order", "desc"),
            ("content", "hello"),
            ("channel_id", "2"),
            ("author_id", "3"),
            ("mentions", "4"),
            ("has", "link"),
            ("has", "image"),
            ("author_type", "bot"),
            ("pinned", "true"),
            ("min_id", &min),
            ("max_id", &max),
        ])
    );
}

#[test]
fn search_params_leave_out_channel_without_server_and_cut_long_content() {
    let long = "é".repeat(1500);
    let query = MessageSearchQuery {
        channel_id: Some(Id::new(2)),
        content: Some(long),
        pinned: Some(false),
        date: Some("not a date".to_owned()),
        ..empty_query()
    };
    let params = param_pairs(&query);
    assert_eq!(params.len(), 6);
    assert_eq!(params[4].0, "content");
    assert_eq!(params[4].1.chars().count(), 1024);
    assert_eq!(params[5], ("pinned".to_owned(), "false".to_owned()));
}

fn model(value: &serde_json::Value) -> Json {
    match value {
        serde_json::Value::Null => Json::Null,
        serde_json::Value::Bool(b) => Json::Bool(*b),
        serde_json::Value::Number(n) => Json::Number(if let Some(u) = n.as_u64() {
            JsonNumber::PosInt(u)
        } else if let Some(i) = n.as_i64() {
            JsonNumber::NegInt(i)
        } else {
            JsonNumber::Float(n.to_string())
        }),
        serde_json::Value::String(s) => Json::Text(s.clone()),
        serde_json::Value::Array(items) => Json::Array(items.iter().map(model).collect()),
        serde_json::Value::Object(map) => {
            Json::Object(map.iter().map(|(k, v)| (k.clone(), model(v))).collect())
        }
    }
}

fn parsed(text: &str) -> Json {
    model(&serde_json::from_str(text).expect("valid JSON"))
}

const SEARCH_RESPONSE: &str = r#"{
    "total_results": 60,
    "messages": [
        [{"id":"11","channel_id":"9","author":{"id":"1","username":"neo"},"content":"a"}],
        "not a group",
        [{"id":"12","channel_id":"9","author":{"id":"2","username":"trinity"}},
         {"id":"13","channel_id":"9","author":{"id":"1","username":"neo"},"pinned":true}]
    ]
}"#;

#[test]
fn search_messages_flatten_the_result_groups() {
    let messages = parse_message_search_messages(&parsed(SEARCH_RESPONSE)).expect("all messages read");
    let ids: Vec<u64> = messages.iter().map(|m| m.message_id.get()).collect();
    assert_eq!(ids, vec![11, 12, 13]);
    assert!(messages[2].pinned);
    assert!(parse_message_search_messages(&parsed(r#"{"total_results":0}"#))
        .expect("no messages field")
        .is_empty());
    assert_eq!(
        parse_message_search_messages(&parsed(r#"{"messages":[[{"id":"11","channel_id":"9"}]]}"#)),
        Err(AppError::DiscordRequest(
            "search message response was missing required fields".to_owned()
        ))
    );
}

#[test]
fn search_page_reports_totals_and_paging() {
    let mut query = empty_query();
    query.channel_id = Some(Id::new(9));
    query.offset = 25;
    let page = message_search_page(query, &parsed(SEARCH_RESPONSE)).expect("page reads");
    assert_eq!(page.total_results, Some(60));
    assert!(page.has_more);
    assert_eq!(page.messages.len(), 3);
    assert_eq!(page.query.offset, 25);

    let mut last = empty_query();
    last.offset = 50;
    let page = message_search_page(last, &parsed(SEARCH_RESPONSE)).expect("page reads");
    assert!(!page.has_more);
    let page = message_search_page(empty_query(), &parsed(r#"{"messages":[]}"#)).expect("page reads");
    assert_eq!(page.total_results, None);
    assert!(!page.has_more);
}

#[test]
fn searches_that_ask_for_nothing_get_an_empty_page() {
    let mut query = empty_query();
    query.channel_id = Some(Id::new(9));
    query.offset = 50;
    query.content = Some(String::new());
    assert!(query.is_empty());
    let page = empty_message_search_page(query);
    assert!(page.messages.is_empty());
    assert_eq!(page.total_results, Some(0));
    assert!(!page.has_more);
    assert_eq!(page.query.offset, 50);

    let mut with_text = empty_query();
    with_text.content = Some("cat".to_owned());
    assert!(!with_text.is_empty());
    let mut pinned = empty_query();
    pinned.pinned = Some(true);
    assert!(!pinned.is_empty());
    let mut has = empty_query();
    has.has = vec!["link".to_owned()];
    assert!(!has.is_empty());
    let mut dated = empty_query();
    dated.date = Some("2024-01-01".to_owned());
    assert!(!dated.is_empty());
}
