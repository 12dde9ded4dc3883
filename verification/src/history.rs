//! Message history commands: which page each one fetches, the guard it
//! passes first, the event it publishes for each outcome, and how its
//! request is named in the debug log.
use crate::commands::ForumPostArchiveState;
use crate::forum::{ForumPostPage, MessageInfo};
use crate::ids::{lemma_id_view_injective, Id};
use crate::marker::{ChannelMarker, MessageMarker};
use crate::search::{MessageSearchPage, MessageSearchQuery};
use crate::text::{decimal, push_decimal, push_str};
use vstd::prelude::*;

verus! {

/// `GET /channels/CHANNEL/messages?limit=LIMIT`, with `&before=MESSAGE` when
/// the page ends before a message.
pub open spec fn history_endpoint(channel: u64, before: Option<u64>, limit: u16) -> Seq<char> {
    "GET /channels/"@ + decimal(channel as nat) + "/messages?limit="@ + decimal(limit as nat) + match before {
        Some(m) => "&before="@ + decimal(m as nat),
        None => Seq::<char>::empty(),
    }
}

/// The request line of a message history page, as the debug log names it.
pub fn format_message_history_endpoint(
    channel_id: Id<ChannelMarker>,
    before: Option<Id<MessageMarker>>,
    limit: u16,
) -> (r: String)
    ensures
        r@ == history_endpoint(
            channel_id@,
            match before {
                Some(m) => Some(m@),
                None => None,
            },
            limit,
        ),
{
    let mut out = String::new();
    push_str(&mut out, "GET /channels/");
    push_decimal(&mut out, channel_id.get());
    push_str(&mut out, "/messages?limit=");
    push_decimal(&mut out, limit as u64);
    match before {
        Some(message_id) => {
            push_str(&mut out, "&before=");
            push_decimal(&mut out, message_id.get());
        },
        None => {
            proof {
                assert(out@ + Seq::<char>::empty() =~= out@);
            }
        },
    }
    out
}

/// The request line of a message history page around, before or after a
/// message, named by `anchor_name`, as the debug log names it.
pub fn format_message_history_anchor_endpoint(
    channel_id: Id<ChannelMarker>,
    anchor_name: &str,
    message_id: Id<MessageMarker>,
    limit: u16,
) -> (r: String)
    ensures
        r@ == "GET /channels/"@ + decimal(channel_id@ as nat) + "/messages?limit="@ + decimal(
            limit as nat,
        ) + "&"@ + anchor_name@ + "="@ + decimal(message_id@ as nat),
{
    let mut out = String::new();
    push_str(&mut out, "GET /channels/");
    push_decimal(&mut out, channel_id.get());
    push_str(&mut out, "/messages?limit=");
    push_decimal(&mut out, limit as u64);
    push_str(&mut out, "&");
    push_str(&mut out, anchor_name);
    push_str(&mut out, "=");
    push_decimal(&mut out, message_id.get());
    out
}

/// Messages a history page holds at most.
pub const MESSAGE_HISTORY_LIMIT: u16 = 50;

/// Messages a thread preview fetches.
pub const THREAD_PREVIEW_LIMIT: u16 = 1;

/// A command that loads message history.
#[derive(Clone, Copy, Debug, PartialEq, Eq)]
pub enum HistoryCommand {
    /// The latest page, or the page before `before`.
    LoadMessageHistory { channel_id: Id<ChannelMarker>, before: Option<Id<MessageMarker>> },
    /// The latest page again.
    RefreshMessageHistory { channel_id: Id<ChannelMarker> },
    /// The page after `after`.
    LoadMessageHistoryAfter { channel_id: Id<ChannelMarker>, after: Id<MessageMarker> },
    /// The page after `after`, catching up on what was missed.
    CatchUpMessageHistoryAfter { channel_id: Id<ChannelMarker>, after: Id<MessageMarker> },
    /// The page around a message.
    LoadMessageHistoryAround { channel_id: Id<ChannelMarker>, message_id: Id<MessageMarker> },
    /// The first message of a thread, shown as its preview.
    LoadThreadPreview { channel_id: Id<ChannelMarker>, message_id: Id<MessageMarker> },
}

/// The request-once guard a history command passes before it is sent.
#[derive(Clone, Copy, Debug, PartialEq, Eq)]
pub enum HistoryGuard {
    /// Sent without a guard.
    Unguarded,
    /// An older page, asked once per anchor.
    Older { channel_id: Id<ChannelMarker>, before: Id<MessageMarker> },
    /// A newer page, asked once per anchor.
    Newer { channel_id: Id<ChannelMarker>, after: Id<MessageMarker> },
    /// A catch-up page, asked once per anchor.
    CatchUp { channel_id: Id<ChannelMarker>, after: Id<MessageMarker> },
}

/// The guard a command passes: older pages (a load with `before`), newer
/// pages and catch-up pages are each asked for once; the rest go out
/// unguarded. A guard that refuses drops the command without an event.
pub fn history_command_guard(command: &HistoryCommand) -> (r: HistoryGuard)
    ensures
        r == match *command {
            HistoryCommand::LoadMessageHistory { channel_id, before: Some(before) } => HistoryGuard::Older {
                channel_id,
                before,
            },
            HistoryCommand::LoadMessageHistoryAfter { channel_id, after } => HistoryGuard::Newer {
                channel_id,
                after,
            },
            HistoryCommand::CatchUpMessageHistoryAfter { channel_id, after } => HistoryGuard::CatchUp {
                channel_id,
                after,
            },
            _ => HistoryGuard::Unguarded,
        },
{
    match *command {
        HistoryCommand::LoadMessageHistory { channel_id, before: Some(before) } => HistoryGuard::Older {
            channel_id,
            before,
        },
        HistoryCommand::LoadMessageHistoryAfter { channel_id, after } => HistoryGuard::Newer {
            channel_id,
            after,
        },
        HistoryCommand::CatchUpMessageHistoryAfter { channel_id, after } => HistoryGuard::CatchUp {
            channel_id,
            after,
        },
        _ => HistoryGuard::Unguarded,
    }
}

/// Where a history page is anchored.
#[derive(Clone, Copy, Debug, PartialEq, Eq)]
pub enum HistoryAnchor {
    Latest,
    Before(Id<MessageMarker>),
    After(Id<MessageMarker>),
    Around(Id<MessageMarker>),
}

/// The page a history command fetches.
#[derive(Clone, Copy, Debug, PartialEq, Eq)]
pub struct HistoryFetch {
    pub channel_id: Id<ChannelMarker>,
    pub anchor: HistoryAnchor,
    pub limit: u16,
}

/// The page each command fetches: 50 messages anchored as the command says;
/// a thread preview fetches the single latest message.
pub fn history_fetch(command: &HistoryCommand) -> (r: HistoryFetch)
    ensures
        r == match *command {
            HistoryCommand::LoadMessageHistory { channel_id, before } => HistoryFetch {
                channel_id,
                anchor: match before {
                    Some(b) => HistoryAnchor::Before(b),
                    None => HistoryAnchor::Latest,
                },
                limit: MESSAGE_HISTORY_LIMIT,
            },
            HistoryCommand::RefreshMessageHistory { channel_id } => HistoryFetch {
                channel_id,
                anchor: HistoryAnchor::Latest,
                limit: MESSAGE_HISTORY_LIMIT,
            },
            HistoryCommand::LoadMessageHistoryAfter { channel_id, after } => HistoryFetch {
                channel_id,
                anchor: HistoryAnchor::After(after),
                limit: MESSAGE_HISTORY_LIMIT,
            },
            HistoryCommand::CatchUpMessageHistoryAfter { channel_id, after } => HistoryFetch {
                channel_id,
                anchor: HistoryAnchor::After(after),
                limit: MESSAGE_HISTORY_LIMIT,
            },
            HistoryCommand::LoadMessageHistoryAround { channel_id, message_id } => HistoryFetch {
                channel_id,
                anchor: HistoryAnchor::Around(message_id),
                limit: MESSAGE_HISTORY_LIMIT,
            },
            HistoryCommand::LoadThreadPreview { channel_id, .. } => HistoryFetch {
                channel_id,
                anchor: HistoryAnchor::Latest,
                limit: THREAD_PREVIEW_LIMIT,
            },
        },
{
    match *command {
        HistoryCommand::LoadMessageHistory { channel_id, before } => HistoryFetch {
            channel_id,
            anchor: match before {
                Some(b) => HistoryAnchor::Before(b),
                None => HistoryAnchor::Latest,
            },
            limit: MESSAGE_HISTORY_LIMIT,
        },
        HistoryCommand::RefreshMessageHistory { channel_id } => HistoryFetch {
            channel_id,
            anchor: HistoryAnchor::Latest,
            limit: MESSAGE_HISTORY_LIMIT,
        },
        HistoryCommand::LoadMessageHistoryAfter { channel_id, after } => HistoryFetch {
            channel_id,
            anchor: HistoryAnchor::After(after),
            limit: MESSAGE_HISTORY_LIMIT,
        },
        HistoryCommand::CatchUpMessageHistoryAfter { channel_id, after } => HistoryFetch {
            channel_id,
            anchor: HistoryAnchor::After(after),
            limit: MESSAGE_HISTORY_LIMIT,
        },
        HistoryCommand::LoadMessageHistoryAround { channel_id, message_id } => HistoryFetch {
            channel_id,
            anchor: HistoryAnchor::Around(message_id),
            limit: MESSAGE_HISTORY_LIMIT,
        },
        HistoryCommand::LoadThreadPreview { channel_id, .. } => HistoryFetch {
            channel_id,
            anchor: HistoryAnchor::Latest,
            limit: THREAD_PREVIEW_LIMIT,
        },
    }
}

/// The page a failed history load was for.
#[derive(Clone, Copy, Debug, PartialEq, Eq)]
pub enum MessageHistoryLoadTarget {
    Older { before: Id<MessageMarker> },
    Latest,
    Newer { after: Id<MessageMarker> },
    Around { message_id: Id<MessageMarker> },
}

/// What a history, forum or search command publishes once its request is
/// answered.
pub enum HistoryEvent {
    MessageHistoryLoaded {
        channel_id: Id<ChannelMarker>,
        before: Option<Id<MessageMarker>>,
        messages: Vec<MessageInfo>,
    },
    MessageHistoryRefreshed { channel_id: Id<ChannelMarker>, messages: Vec<MessageInfo> },
    MessageHistoryAfterLoaded {
        channel_id: Id<ChannelMarker>,
        after: Id<MessageMarker>,
        messages: Vec<MessageInfo>,
        has_more: bool,
    },
    MessageHistoryCatchUpLoaded {
        channel_id: Id<ChannelMarker>,
        after: Id<MessageMarker>,
        messages: Vec<MessageInfo>,
        has_more: bool,
    },
    MessageHistoryAroundLoaded {
        channel_id: Id<ChannelMarker>,
        message_id: Id<MessageMarker>,
        messages: Vec<MessageInfo>,
    },
    MessageHistoryLoadFailed {
        channel_id: Id<ChannelMarker>,
        target: MessageHistoryLoadTarget,
        message: String,
    },
    ThreadPreviewLoaded { channel_id: Id<ChannelMarker>, message: MessageInfo },
    ThreadPreviewLoadFailed { channel_id: Id<ChannelMarker>, message_id: Id<MessageMarker> },
    ForumPostsLoaded {
        channel_id: Id<ChannelMarker>,
        archive_state: ForumPostArchiveState,
        offset: usize,
        next_offset: usize,
        threads: Vec<crate::forum::ChannelInfo>,
        first_messages: Vec<MessageInfo>,
        has_more: bool,
    },
    ForumPostsLoadFailed {
        channel_id: Id<ChannelMarker>,
        archive_state: ForumPostArchiveState,
        offset: usize,
        message: String,
    },
    MessageSearchLoaded { page: MessageSearchPage },
    MessageSearchLoadFailed { query: MessageSearchQuery, message: String },
}

/// The channel a history command reads.
pub open spec fn command_channel(command: HistoryCommand) -> Id<ChannelMarker> {
    match command {
        HistoryCommand::LoadMessageHistory { channel_id, .. } => channel_id,
        HistoryCommand::RefreshMessageHistory { channel_id } => channel_id,
        HistoryCommand::LoadMessageHistoryAfter { channel_id, .. } => channel_id,
        HistoryCommand::CatchUpMessageHistoryAfter { channel_id, .. } => channel_id,
        HistoryCommand::LoadMessageHistoryAround { channel_id, .. } => channel_id,
        HistoryCommand::LoadThreadPreview { channel_id, .. } => channel_id,
    }
}

/// The page a failed history command reports: older before its anchor, or
/// the latest page, for a load; the latest for a refresh; newer after its
/// anchor for a newer or catch-up page; around its message otherwise.
pub open spec fn failure_target(command: HistoryCommand) -> MessageHistoryLoadTarget {
    match command {
        HistoryCommand::LoadMessageHistory { before: Some(before), .. } => MessageHistoryLoadTarget::Older {
            before,
        },
        HistoryCommand::LoadMessageHistoryAfter { after, .. } => MessageHistoryLoadTarget::Newer { after },
        HistoryCommand::CatchUpMessageHistoryAfter { after, .. } => MessageHistoryLoadTarget::Newer {
            after,
        },
        HistoryCommand::LoadMessageHistoryAround { message_id, .. } => MessageHistoryLoadTarget::Around {
            message_id,
        },
        _ => MessageHistoryLoadTarget::Latest,
    }
}

/// The start of the message of a failed history command, before the error.
pub open spec fn failure_prefix(command: HistoryCommand) -> Seq<char> {
    match command {
        HistoryCommand::RefreshMessageHistory { .. } => "refresh message history failed: "@,
        HistoryCommand::CatchUpMessageHistoryAfter { .. } => "catch up message history failed: "@,
        _ => "load message history failed: "@,
    }
}

/// A newer or catch-up page says more follows when it came back full.
pub open spec fn page_has_more(messages: Seq<MessageInfo>) -> bool {
    messages.len() >= MESSAGE_HISTORY_LIMIT
}

fn failure_message(prefix: &str, error: &str) -> (r: String)
    ensures
        r@ == prefix@ + error@,
{
    let mut message = String::new();
    push_str(&mut message, prefix);
    push_str(&mut message, error);
    message
}

/// The event a history command publishes once its page came back
/// (`Ok` with the messages) or failed (`Err` with the error's text).
pub fn history_event(command: &HistoryCommand, outcome: Result<Vec<MessageInfo>, String>) -> (r: HistoryEvent)
    ensures
        match outcome {
            Ok(ms) => match *command {
                HistoryCommand::LoadMessageHistory { channel_id, before } => r
                    == HistoryEvent::MessageHistoryLoaded { channel_id, before, messages: ms },
                HistoryCommand::RefreshMessageHistory { channel_id } => r
                    == HistoryEvent::MessageHistoryRefreshed { channel_id, messages: ms },
                HistoryCommand::LoadMessageHistoryAfter { channel_id, after } => r
                    == HistoryEvent::MessageHistoryAfterLoaded {
                    channel_id,
                    after,
                    messages: ms,
                    has_more: page_has_more(ms@),
                },
                HistoryCommand::CatchUpMessageHistoryAfter { channel_id, after } => r
                    == HistoryEvent::MessageHistoryCatchUpLoaded {
                    channel_id,
                    after,
                    messages: ms,
                    has_more: page_has_more(ms@),
                },
                HistoryCommand::LoadMessageHistoryAround { channel_id, message_id } => r
                    == HistoryEvent::MessageHistoryAroundLoaded { channel_id, message_id, messages: ms },
                HistoryCommand::LoadThreadPreview { channel_id, message_id } => if ms@.len() > 0
                    && ms@[0].message_id == message_id {
                    r == HistoryEvent::ThreadPreviewLoaded { channel_id, message: ms@[0] }
                } else {
                    r == HistoryEvent::ThreadPreviewLoadFailed { channel_id, message_id }
                },
            },
            Err(e) => match *command {
                HistoryCommand::LoadThreadPreview { channel_id, message_id } => r
                    == HistoryEvent::ThreadPreviewLoadFailed { channel_id, message_id },
                _ => r matches HistoryEvent::MessageHistoryLoadFailed { channel_id: c, target: t, message: m }
                    && c == command_channel(*command) && t == failure_target(*command) && m@ == failure_prefix(
                    *command,
                ) + e@,
            },
        },
{
    match outcome {
        Ok(messages) => match *command {
            HistoryCommand::LoadMessageHistory { channel_id, before } => HistoryEvent::MessageHistoryLoaded {
                channel_id,
                before,
                messages,
            },
            HistoryCommand::RefreshMessageHistory { channel_id } => HistoryEvent::MessageHistoryRefreshed {
                channel_id,
                messages,
            },
            HistoryCommand::LoadMessageHistoryAfter { channel_id, after } => {
                let has_more = messages.len() >= MESSAGE_HISTORY_LIMIT as usize;
                HistoryEvent::MessageHistoryAfterLoaded { channel_id, after, messages, has_more }
            },
            HistoryCommand::CatchUpMessageHistoryAfter { channel_id, after } => {
                let has_more = messages.len() >= MESSAGE_HISTORY_LIMIT as usize;
                HistoryEvent::MessageHistoryCatchUpLoaded { channel_id, after, messages, has_more }
            },
            HistoryCommand::LoadMessageHistoryAround { channel_id, message_id } => {
                HistoryEvent::MessageHistoryAroundLoaded { channel_id, message_id, messages }
            },
            HistoryCommand::LoadThreadPreview { channel_id, message_id } => {
                let mut messages = messages;
                if messages.len() > 0 && messages[0].message_id.get() == message_id.get() {
                    proof {
                        lemma_id_view_injective(messages@[0].message_id, message_id);
                    }
                    let message = messages.remove(0);
                    HistoryEvent::ThreadPreviewLoaded { channel_id, message }
                } else {
                    proof {
                        if messages@.len() > 0 {
                            lemma_id_view_injective(messages@[0].message_id, message_id);
                        }
                    }
                    HistoryEvent::ThreadPreviewLoadFailed { channel_id, message_id }
                }
            },
        },
        Err(error) => match *command {
            HistoryCommand::LoadMessageHistory { channel_id, before } => HistoryEvent::MessageHistoryLoadFailed {
                channel_id,
                target: match before {
                    Some(before) => MessageHistoryLoadTarget::Older { before },
                    None => MessageHistoryLoadTarget::Latest,
                },
                message: failure_message("load message history failed: ", error.as_str()),
            },
            HistoryCommand::RefreshMessageHistory { channel_id } => HistoryEvent::MessageHistoryLoadFailed {
                channel_id,
                target: MessageHistoryLoadTarget::Latest,
                message: failure_message("refresh message history failed: ", error.as_str()),
            },
            HistoryCommand::LoadMessageHistoryAfter { channel_id, after } => HistoryEvent::MessageHistoryLoadFailed {
                channel_id,
                target: MessageHistoryLoadTarget::Newer { after },
                message: failure_message("load message history failed: ", error.as_str()),
            },
            HistoryCommand::CatchUpMessageHistoryAfter { channel_id, after } => HistoryEvent::MessageHistoryLoadFailed {
                channel_id,
                target: MessageHistoryLoadTarget::Newer { after },
                message: failure_message("catch up message history failed: ", error.as_str()),
            },
            HistoryCommand::LoadMessageHistoryAround { channel_id, message_id } => HistoryEvent::MessageHistoryLoadFailed {
                channel_id,
                target: MessageHistoryLoadTarget::Around { message_id },
                message: failure_message("load message history failed: ", error.as_str()),
            },
            HistoryCommand::LoadThreadPreview { channel_id, message_id } => HistoryEvent::ThreadPreviewLoadFailed {
                channel_id,
                message_id,
            },
        },
    }
}

/// The event a forum listing command publishes: the page it loaded, or the
/// failure (`load forum posts failed: ERROR`) with what was asked for.
pub fn forum_posts_event(
    channel_id: Id<ChannelMarker>,
    archive_state: ForumPostArchiveState,
    offset: usize,
    outcome: Result<ForumPostPage, String>,
) -> (r: HistoryEvent)
    ensures
        match outcome {
            Ok(page) => r == HistoryEvent::ForumPostsLoaded {
                channel_id,
                archive_state,
                offset,
                next_offset: page.next_offset,
                threads: page.threads,
                first_messages: page.first_messages,
                has_more: page.has_more,
            },
            Err(e) => r matches HistoryEvent::ForumPostsLoadFailed {
                channel_id: c,
                archive_state: a,
                offset: o,
                message: m,
            } && c == channel_id && a == archive_state && o == offset && m@ == "load forum posts failed: "@ + e@,
        },
{
    match outcome {
        Ok(page) => HistoryEvent::ForumPostsLoaded {
            channel_id,
            archive_state,
            offset,
            next_offset: page.next_offset,
            threads: page.threads,
            first_messages: page.first_messages,
            has_more: page.has_more,
        },
        Err(error) => HistoryEvent::ForumPostsLoadFailed {
            channel_id,
            archive_state,
            offset,
            message: failure_message("load forum posts failed: ", error.as_str()),
        },
    }
}

/// The event a message search publishes: the page it loaded, or the failure
/// (`message search failed: ERROR`) with the query.
pub fn message_search_event(query: MessageSearchQuery, outcome: Result<MessageSearchPage, String>) -> (r:
    HistoryEvent)
    ensures
        match outcome {
            Ok(page) => r == HistoryEvent::MessageSearchLoaded { page },
            Err(e) => r matches HistoryEvent::MessageSearchLoadFailed { query: q, message: m } && q == query
                && m@ == "message search failed: "@ + e@,
        },
{
    match outcome {
        Ok(page) => HistoryEvent::MessageSearchLoaded { page },
        Err(error) => HistoryEvent::MessageSearchLoadFailed {
            query,
            message: failure_message("message search failed: ", error.as_str()),
        },
    }
}

} // verus!
