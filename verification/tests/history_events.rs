use concord::commands::ForumPostArchiveState;
use concord::forum::{ForumPostPage, MessageInfo};
use concord::history::{
    forum_posts_event, history_command_guard, history_event, history_fetch, message_search_event,
    HistoryAnchor, HistoryCommand, HistoryEvent, HistoryGuard, MessageHistoryLoadTarget,
};
use concord::ids::Id;
use concord::search::MessageSearchQuery;

fn message(channel_id: u64, message_id: u64) -> MessageInfo {
    MessageInfo {
        guild_id: None,
        channel_id: Id::new(channel_id),
        message_id: Id::new(message_id),
        author_id: Id::new(99),
        author: "neo".to_owned(),
        content: Some("hi".to_owned()),
        pinned: false,
    }
}

fn query() -> MessageSearchQuery {
    MessageSearchQuery {
        guild_id: None,
        channel_id: Some(Id::new(9)),
        offset: 25,
        content: Some("cat".to_owned()),
        author_id: None,
        mentions_user_id: None,
        has: Vec::new(),
        author_type: Vec::new(),
        pinned: None,
        date: None,
    }
}

#[test]
fn history_commands_fetch_their_page_behind_their_guard() {
    let older = HistoryCommand::LoadMessageHistory { channel_id: Id::new(2), before: Some(Id::new(7)) };
    assert_eq!(
        history_command_guard(&older),
        HistoryGuard::Older { channel_id: Id::new(2), before: Id::new(7) }
    );
    let fetch = history_fetch(&older);
    assert_eq!(fetch.anchor, HistoryAnchor::Before(Id::new(7)));
    assert_eq!(fetch.limit, 50);

    let latest = HistoryCommand::LoadMessageHistory { channel_id: Id::new(2), before: None };
    assert_eq!(history_command_guard(&latest), HistoryGuard::Unguarded);
    assert_eq!(history_fetch(&latest).anchor, HistoryAnchor::Latest);

    let catch_up = HistoryCommand::CatchUpMessageHistoryAfter { channel_id: Id::new(2), after: Id::new(5) };
    assert_eq!(
        history_command_guard(&catch_up),
        HistoryGuard::CatchUp { channel_id: Id::new(2), after: Id::new(5) }
    );
    let preview = HistoryCommand::LoadThreadPreview { channel_id: Id::new(3), message_id: Id::new(4) };
    assert_eq!(history_command_guard(&preview), HistoryGuard::Unguarded);
    assert_eq!(history_fetch(&preview).limit, 1);
    assert_eq!(
        history_fetch(&HistoryCommand::LoadMessageHistoryAround { channel_id: Id::new(2), message_id: Id::new(8) })
            .anchor,
        HistoryAnchor::Around(Id::new(8))
    );
}

#[test]
fn history_outcomes_become_events() {
    let older = HistoryCommand::LoadMessageHistory { channel_id: Id::new(2), before: Some(Id::new(7)) };
    match history_event(&older, Ok(vec![message(2, 6)])) {
        HistoryEvent::MessageHistoryLoaded { channel_id, before, messages } => {
            assert_eq!(channel_id, Id::new(2));
            assert_eq!(before, Some(Id::new(7)));
            assert_eq!(messages, vec![message(2, 6)]);
        }
        _ => panic!("expected a loaded page"),
    }
    match history_event(&older, Err("HTTP 500".to_owned())) {
        HistoryEvent::MessageHistoryLoadFailed { channel_id, target, message } => {
            assert_eq!(channel_id, Id::new(2));
            assert_eq!(target, MessageHistoryLoadTarget::Older { before: Id::new(7) });
            assert_eq!(message, "load message history failed: HTTP 500");
        }
        _ => panic!("expected a failure"),
    }
    let refresh = HistoryCommand::RefreshMessageHistory { channel_id: Id::new(2) };
    match history_event(&refresh, Err("offline".to_owned())) {
        HistoryEvent::MessageHistoryLoadFailed { target, message, .. } => {
            assert_eq!(target, MessageHistoryLoadTarget::Latest);
            assert_eq!(message, "refresh message history failed: offline");
        }
        _ => panic!("expected a failure"),
    }
    let catch_up = HistoryCommand::CatchUpMessageHistoryAfter { channel_id: Id::new(2), after: Id::new(5) };
    match history_event(&catch_up, Err("offline".to_owned())) {
        HistoryEvent::MessageHistoryLoadFailed { target, message, .. } => {
            assert_eq!(target, MessageHistoryLoadTarget::Newer { after: Id::new(5) });
            assert_eq!(message, "catch up message history failed: offline");
        }
        _ => panic!("expected a failure"),
    }
    let after = HistoryCommand::LoadMessageHistoryAfter { channel_id: Id::new(2), after: Id::new(5) };
    let full: Vec<MessageInfo> = (0..50).map(|i| message(2, 100 + i)).collect();
    match history_event(&after, Ok(full)) {
        HistoryEvent::MessageHistoryAfterLoaded { has_more, messages, .. } => {
            assert!(has_more);
            assert_eq!(messages.len(), 50);
        }
        _ => panic!("expected a newer page"),
    }
    match history_event(&after, Ok(vec![message(2, 6)])) {
        HistoryEvent::MessageHistoryAfterLoaded { has_more, .. } => assert!(!has_more),
        _ => panic!("expected a newer page"),
    }
    let around = HistoryCommand::LoadMessageHistoryAround { channel_id: Id::new(2), message_id: Id::new(8) };
    match history_event(&around, Err("x".to_owned())) {
        HistoryEvent::MessageHistoryLoadFailed { target, .. } => {
            assert_eq!(target, MessageHistoryLoadTarget::Around { message_id: Id::new(8) })
        }
        _ => panic!("expected a failure"),
    }
}

#[test]
fn thread_previews_need_the_requested_message_first() {
    let preview = HistoryCommand::LoadThreadPreview { channel_id: Id::new(3), message_id: Id::new(4) };
    match history_event(&preview, Ok(vec![message(3, 4)])) {
        HistoryEvent::ThreadPreviewLoaded { channel_id, message: m } => {
            assert_eq!(channel_id, Id::new(3));
            assert_eq!(m, message(3, 4));
        }
        _ => panic!("expected a preview"),
    }
    assert!(matches!(
        history_event(&preview, Ok(vec![message(3, 5), message(3, 4)])),
        HistoryEvent::ThreadPreviewLoadFailed { .. }
    ));
    assert!(matches!(history_event(&preview, Ok(Vec::new())), HistoryEvent::ThreadPreviewLoadFailed { .. }));
    assert!(matches!(
        history_event(&preview, Err("x".to_owned())),
        HistoryEvent::ThreadPreviewLoadFailed { .. }
    ));
}

#[test]
fn forum_and_search_outcomes_become_events() {
    let page = ForumPostPage { threads: Vec::new(), first_messages: Vec::new(), has_more: true, next_offset: 30 };
    match forum_posts_event(Id::new(20), ForumPostArchiveState::Active, 5, Ok(page)) {
        HistoryEvent::ForumPostsLoaded { offset, next_offset, has_more, .. } => {
            assert_eq!((offset, next_offset, has_more), (5, 30, true));
        }
        _ => panic!("expected forum posts"),
    }
    match forum_posts_event(Id::new(20), ForumPostArchiveState::Active, 5, Err("HTTP 403".to_owned())) {
        HistoryEvent::ForumPostsLoadFailed { message, offset, .. } => {
            assert_eq!(message, "load forum posts failed: HTTP 403");
            assert_eq!(offset, 5);
        }
        _ => panic!("expected a failure"),
    }
    match message_search_event(query(), Err("HTTP 400".to_owned())) {
        HistoryEvent::MessageSearchLoadFailed { query: q, message } => {
            assert_eq!(message, "message search failed: HTTP 400");
            assert_eq!(q.offset, 25);
        }
        _ => panic!("expected a failure"),
    }
}
