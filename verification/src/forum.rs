//! Forum posts: title rules, search paging and the merge of the two first
//! pages the client asks for.
use crate::error::AppError;
use crate::ids::{lemma_id_view_injective, Id};
use crate::marker::{ChannelMarker, GuildMarker, MessageMarker, UserMarker};
use crate::commands::{ForumPostArchiveState, MessageAttachmentUpload};
use crate::json::{
    deref_json, entries_view, json_array, json_array_value, json_as_bool, json_as_str, json_get,
    json_get_field, json_object, json_object_value, json_str_of, json_string, json_string_value,
    json_u64, json_u64_value, Json, JsonNumber,
};
use crate::raw_fields::{parse_id, raw_id};
use crate::search::id_value;
use crate::marker::ForumTagMarker;
use crate::text::{chars_of, contains_seq, contains_str, decimal, decimal_string, push_decimal, push_str, string_of, trim, trim_chars};
use serde_json::Value;
use std::collections::HashSet;
use vstd::prelude::*;

verus! {

/// Threads a forum search page holds at most.
pub const FORUM_POST_SEARCH_PAGE_LIMIT: u16 = 25;

/// Characters a forum post title may have.
pub const FORUM_POST_TITLE_MAX_CHARS: usize = 100;

/// A channel or thread, as far as forum listings read it.
#[derive(Clone, Debug, PartialEq, Eq)]
pub struct ChannelInfo {
    pub guild_id: Option<Id<GuildMarker>>,
    pub channel_id: Id<ChannelMarker>,
    pub parent_id: Option<Id<ChannelMarker>>,
    pub owner_id: Option<Id<UserMarker>>,
    pub name: String,
    pub kind: String,
    pub position: Option<i32>,
}

/// A message, as far as forum listings read it.
#[derive(Clone, Debug, PartialEq, Eq)]
pub struct MessageInfo {
    pub guild_id: Option<Id<GuildMarker>>,
    pub channel_id: Id<ChannelMarker>,
    pub message_id: Id<MessageMarker>,
    pub author_id: Id<UserMarker>,
    pub author: String,
    pub content: Option<String>,
    pub pinned: bool,
}

/// One page of forum posts with the first message of each.
#[derive(Clone, Debug, PartialEq, Eq)]
pub struct ForumPostPage {
    pub threads: Vec<ChannelInfo>,
    pub first_messages: Vec<MessageInfo>,
    pub has_more: bool,
    pub next_offset: usize,
}

/// A newly created forum post.
#[derive(Clone, Debug, PartialEq, Eq)]
pub struct CreatedForumPost {
    pub thread: ChannelInfo,
    pub first_message: Option<MessageInfo>,
}

/// The two orders the forum search can list posts in.
#[derive(Clone, Copy, Debug, PartialEq, Eq)]
pub enum ForumSearchSort {
    LastMessageTime,
    CreationTime,
}

impl ForumSearchSort {
    /// The `sort_by` query value.
    pub fn as_str(self) -> (r: &'static str)
        ensures
            r@ == match self {
                ForumSearchSort::LastMessageTime => "last_message_time"@,
                ForumSearchSort::CreationTime => "creation_time"@,
            },
    {
        match self {
            ForumSearchSort::LastMessageTime => "last_message_time",
            ForumSearchSort::CreationTime => "creation_time",
        }
    }
}

/// The message a title that is too long is refused with.
pub open spec fn title_too_long_message(len: nat) -> Seq<char> {
    "forum post title is too long: "@ + decimal(len) + "/100"@
}

/// A forum post title, trimmed; refused when nothing is left or when more
/// than 100 characters are.
pub fn validate_forum_post_title(title: &str) -> (r: Result<String, AppError>)
    ensures
        trim(title@).len() == 0 ==> (r matches Err(AppError::DiscordRequest(m)) && m@
            == "forum post title cannot be empty"@),
        trim(title@).len() > 100 ==> (r matches Err(AppError::DiscordRequest(m)) && m@
            == title_too_long_message(trim(title@).len())),
        0 < trim(title@).len() <= 100 ==> (r matches Ok(t) && t@ == trim(title@)),
{
    let chars = chars_of(title);
    let trimmed = trim_chars(&chars);
    let len = trimmed.len();
    if len == 0 {
        return Err(AppError::DiscordRequest("forum post title cannot be empty".to_string()));
    }
    if len > FORUM_POST_TITLE_MAX_CHARS {
        let mut message = String::new();
        push_str(&mut message, "forum post title is too long: ");
        push_decimal(&mut message, len as u64);
        push_str(&mut message, "/100");
        return Err(AppError::DiscordRequest(message));
    }
    Ok(string_of(&trimmed))
}

/// The text of the error the forum search answers with while its index warms up.
pub open spec fn index_warming_text() -> Seq<char> {
    "forum post search index is not ready"@
}

/// Whether an error says that the forum search index is still warming up,
/// so that the request is worth repeating.
pub fn is_search_index_warming(error: &AppError) -> (r: bool)
    ensures
        r == match error {
            AppError::DiscordRequest(m) => contains_seq(m@, index_warming_text()),
            _ => false,
        },
{
    match error {
        AppError::DiscordRequest(message) => {
            let chars = chars_of(message.as_str());
            contains_str(&chars, "forum post search index is not ready")
        },
        _ => false,
    }
}

/// The offset of the page after one that starts at `offset` and holds
/// `thread_count` threads.
pub fn forum_page_next_offset(offset: usize, thread_count: usize) -> (r: usize)
    ensures
        r == if offset + thread_count > usize::MAX {
            usize::MAX as int
        } else {
            offset + thread_count
        },
{
    offset.saturating_add(thread_count)
}

/// The keys that occur among `items`.
pub open spec fn keys_of<T>(items: Seq<T>, key: spec_fn(T) -> u64) -> Set<u64> {
    Set::new(|k: u64| exists|j: int| 0 <= j < items.len() && key(items[j]) == k)
}

/// `items` with every item whose key occurred earlier left out, in order.
pub open spec fn keep_first_by_key<T>(items: Seq<T>, key: spec_fn(T) -> u64) -> Seq<T>
    decreases items.len(),
{
    if items.len() == 0 {
        seq![]
    } else {
        let init = keep_first_by_key(items.drop_last(), key);
        if keys_of(items.drop_last(), key).contains(key(items.last())) {
            init
        } else {
            init.push(items.last())
        }
    }
}

/// The key a thread is told apart by: its channel id.
pub open spec fn thread_key_fn() -> spec_fn(ChannelInfo) -> u64 {
    |c: ChannelInfo| c.channel_id@
}

/// The key a message is told apart by: its message id.
pub open spec fn message_key_fn() -> spec_fn(MessageInfo) -> u64 {
    |m: MessageInfo| m.message_id@
}

proof fn lemma_keys_of_push<T>(items: Seq<T>, x: T, key: spec_fn(T) -> u64)
    ensures
        keys_of(items.push(x), key) == keys_of(items, key).insert(key(x)),
{
    let a = keys_of(items.push(x), key);
    let b = keys_of(items, key).insert(key(x));
    assert forall|k: u64| a.contains(k) <==> b.contains(k) by {
        if a.contains(k) {
            let j = choose|j: int| 0 <= j < items.len() + 1 && key(items.push(x)[j]) == k;
            if j < items.len() {
                assert(key(items[j]) == k);
            }
        }
        if b.contains(k) {
            if k == key(x) {
                assert(key(items.push(x)[items.len() as int]) == k);
            } else {
                let j = choose|j: int| 0 <= j < items.len() && key(items[j]) == k;
                assert(key(items.push(x)[j]) == k);
            }
        }
    }
    assert(a =~= b);
}

/// No two items of `items` share a key.
pub open spec fn keys_unique<T>(items: Seq<T>, key: spec_fn(T) -> u64) -> bool {
    forall|i: int, j: int| 0 <= i < j < items.len() ==> key(#[trigger] items[i]) != key(#[trigger] items[j])
}

/// Keeping the first item of each key loses no key, repeats none, and keeps
/// only items that were there: the result has exactly the keys of `items`,
/// no two of its items share a key, and each of its items is one of `items`.
pub proof fn lemma_keep_first_by_key<T>(items: Seq<T>, key: spec_fn(T) -> u64)
    ensures
        keys_of(keep_first_by_key(items, key), key) == keys_of(items, key),
        keys_unique(keep_first_by_key(items, key), key),
        forall|i: int|
            0 <= i < keep_first_by_key(items, key).len() ==> items.contains(
                #[trigger] keep_first_by_key(items, key)[i],
            ),
    decreases items.len(),
{
    if items.len() > 0 {
        let init = items.drop_last();
        let x = items.last();
        let k = keep_first_by_key(init, key);
        lemma_keep_first_by_key(init, key);
        lemma_keys_of_push(init, x, key);
        assert(items =~= init.push(x));
        if keys_of(init, key).contains(key(x)) {
            assert(keys_of(init, key).insert(key(x)) =~= keys_of(init, key));
            assert forall|i: int| 0 <= i < k.len() implies items.contains(#[trigger] k[i]) by {
                let j = choose|j: int| 0 <= j < init.len() && init[j] == k[i];
                assert(items[j] == k[i]);
            }
        } else {
            lemma_keys_of_push(k, x, key);
            let r = k.push(x);
            assert forall|i: int, j: int| 0 <= i < j < r.len() implies key(#[trigger] r[i]) != key(
                #[trigger] r[j],
            ) by {
                if j == k.len() {
                    assert(keys_of(k, key).contains(key(k[i])));
                }
            }
            assert forall|i: int| 0 <= i < r.len() implies items.contains(#[trigger] r[i]) by {
                if i < k.len() {
                    let j = choose|j: int| 0 <= j < init.len() && init[j] == k[i];
                    assert(items[j] == r[i]);
                } else {
                    assert(items[items.len() - 1] == r[i]);
                }
            }
        }
    }
}

/// Items whose keys are already all different are kept as they are.
pub proof fn lemma_keep_first_by_key_of_unique<T>(items: Seq<T>, key: spec_fn(T) -> u64)
    requires
        keys_unique(items, key),
    ensures
        keep_first_by_key(items, key) == items,
    decreases items.len(),
{
    if items.len() > 0 {
        let init = items.drop_last();
        assert(keys_unique(init, key)) by {
            assert forall|i: int, j: int| 0 <= i < j < init.len() implies key(#[trigger] init[i]) != key(
                #[trigger] init[j],
            ) by {
                assert(init[i] == items[i] && init[j] == items[j]);
            }
        }
        lemma_keep_first_by_key_of_unique(init, key);
        if keys_of(init, key).contains(key(items.last())) {
            let j = choose|j: int| 0 <= j < init.len() && key(init[j]) == key(items.last());
            assert(key(items[j]) != key(items[items.len() - 1]));
        }
        assert(init.push(items.last()) =~= items);
    }
}

proof fn lemma_keys_of_concat<T>(a: Seq<T>, b: Seq<T>, key: spec_fn(T) -> u64)
    ensures
        keys_of(a + b, key) == keys_of(a, key) + keys_of(b, key),
{
    let l = keys_of(a + b, key);
    let r = keys_of(a, key) + keys_of(b, key);
    assert forall|k: u64| l.contains(k) <==> r.contains(k) by {
        if l.contains(k) {
            let j = choose|j: int| 0 <= j < (a + b).len() && key((a + b)[j]) == k;
            if j < a.len() {
                assert(key(a[j]) == k);
            } else {
                assert(key(b[j - a.len()]) == k);
            }
        }
        if keys_of(a, key).contains(k) {
            let j = choose|j: int| 0 <= j < a.len() && key(a[j]) == k;
            assert(key((a + b)[j]) == k);
        }
        if keys_of(b, key).contains(k) {
            let j = choose|j: int| 0 <= j < b.len() && key(b[j]) == k;
            assert(key((a + b)[a.len() + j]) == k);
        }
    }
    assert(l =~= r);
}

proof fn lemma_keep_first_by_key_extend_known<T>(a: Seq<T>, b: Seq<T>, key: spec_fn(T) -> u64)
    requires
        keys_of(b, key).subset_of(keys_of(a, key)),
    ensures
        keep_first_by_key(a + b, key) == keep_first_by_key(a, key),
    decreases b.len(),
{
    if b.len() == 0 {
        assert(a + b =~= a);
    } else {
        let init = b.drop_last();
        assert(keys_of(init, key).subset_of(keys_of(a, key))) by {
            assert forall|k: u64| keys_of(init, key).contains(k) implies keys_of(a, key).contains(k) by {
                let j = choose|j: int| 0 <= j < init.len() && key(init[j]) == k;
                assert(key(b[j]) == k);
            }
        }
        lemma_keep_first_by_key_extend_known(a, init, key);
        assert((a + b).drop_last() =~= a + init);
        assert(keys_of(b, key).contains(key(b.last())));
        lemma_keys_of_concat(a, init, key);
    }
}

/// Merging the activity-ordered and the creation-ordered first pages lists
/// each thread once: the merged threads carry exactly the channel ids found
/// on either page and no channel id twice; and when the activity page has no
/// repeats and the creation page brings no thread it lacks, the merged
/// threads are the activity page's, in its order.
pub proof fn lemma_merged_forum_threads(active: Seq<ChannelInfo>, recent: Seq<ChannelInfo>)
    ensures
        keys_of(keep_first_by_key(active + recent, thread_key_fn()), thread_key_fn()) == keys_of(
            active,
            thread_key_fn(),
        ) + keys_of(recent, thread_key_fn()),
        keys_unique(keep_first_by_key(active + recent, thread_key_fn()), thread_key_fn()),
        keys_unique(active, thread_key_fn()) && keys_of(recent, thread_key_fn()).subset_of(
            keys_of(active, thread_key_fn()),
        ) ==> keep_first_by_key(active + recent, thread_key_fn()) == active,
{
    let key = thread_key_fn();
    lemma_keep_first_by_key(active + recent, key);
    lemma_keys_of_concat(active, recent, key);
    if keys_unique(active, key) && keys_of(recent, key).subset_of(keys_of(active, key)) {
        lemma_keep_first_by_key_extend_known(active, recent, key);
        lemma_keep_first_by_key_of_unique(active, key);
    }
}

/// Keeps the threads whose channel id is new, in order.
fn keep_new_threads(seen: &mut HashSet<u64>, out: &mut Vec<ChannelInfo>, items: Vec<ChannelInfo>, Ghost(done): Ghost<Seq<ChannelInfo>>)
    requires
        old(seen)@ == keys_of(done, thread_key_fn()),
        old(out)@ == keep_first_by_key(done, thread_key_fn()),
    ensures
        final(seen)@ == keys_of(done + items@, thread_key_fn()),
        final(out)@ == keep_first_by_key(done + items@, thread_key_fn()),
{
    let ghost key = thread_key_fn();
    let ghost all = done + items@;
    proof {
        assert(all.take(done.len() as int) =~= done);
    }
    for item in it: items.into_iter()
        invariant
            it.seq() == items@,
            all == done + items@,
            key == thread_key_fn(),
            seen@ == keys_of(all.take((done.len() + it.index()) as int), key),
            out@ == keep_first_by_key(all.take((done.len() + it.index()) as int), key),
    {
        let ghost n: int = done.len() + it.index();
        proof {
            assert(all.take(n + 1).drop_last() =~= all.take(n));
            assert(all.take(n + 1).last() == item);
            assert(all.take(n + 1) =~= all.take(n).push(item));
            lemma_keys_of_push(all.take(n), item, key);
        }
        if seen.insert(item.channel_id.get()) {
            out.push(item);
        }
    }
    proof {
        assert(all.take((done.len() + items@.len()) as int) =~= all);
    }
}

/// Keeps the messages whose message id is new, in order.
fn keep_new_messages(seen: &mut HashSet<u64>, out: &mut Vec<MessageInfo>, items: Vec<MessageInfo>, Ghost(done): Ghost<Seq<MessageInfo>>)
    requires
        old(seen)@ == keys_of(done, message_key_fn()),
        old(out)@ == keep_first_by_key(done, message_key_fn()),
    ensures
        final(seen)@ == keys_of(done + items@, message_key_fn()),
        final(out)@ == keep_first_by_key(done + items@, message_key_fn()),
{
    let ghost key = message_key_fn();
    let ghost all = done + items@;
    proof {
        assert(all.take(done.len() as int) =~= done);
    }
    for item in it: items.into_iter()
        invariant
            it.seq() == items@,
            all == done + items@,
            key == message_key_fn(),
            seen@ == keys_of(all.take((done.len() + it.index()) as int), key),
            out@ == keep_first_by_key(all.take((done.len() + it.index()) as int), key),
    {
        let ghost n: int = done.len() + it.index();
        proof {
            assert(all.take(n + 1).drop_last() =~= all.take(n));
            assert(all.take(n + 1).last() == item);
            assert(all.take(n + 1) =~= all.take(n).push(item));
            lemma_keys_of_push(all.take(n), item, key);
        }
        if seen.insert(item.message_id.get()) {
            out.push(item);
        }
    }
    proof {
        assert(all.take((done.len() + items@.len()) as int) =~= all);
    }
}

/// The first page of a forum, merged from the page ordered by last activity
/// (`active`) and the page ordered by creation (`recent`): threads and first
/// messages of both, each thread and each message once, the first copy
/// kept; paging follows `active`.
pub fn merge_forum_pages(active: ForumPostPage, recent: ForumPostPage) -> (r: ForumPostPage)
    ensures
        r.threads@ == keep_first_by_key(active.threads@ + recent.threads@, thread_key_fn()),
        r.first_messages@ == keep_first_by_key(
            active.first_messages@ + recent.first_messages@,
            message_key_fn(),
        ),
        r.has_more == active.has_more,
        r.next_offset == active.next_offset,
{
    let ForumPostPage { threads: active_threads, first_messages: active_messages, has_more, next_offset } = active;
    let ForumPostPage { threads: recent_threads, first_messages: recent_messages, .. } = recent;
    let ghost at = active_threads@;
    let ghost am = active_messages@;
    let mut seen_threads: HashSet<u64> = HashSet::new();
    let mut threads: Vec<ChannelInfo> = Vec::new();
    proof {
        assert(keys_of(Seq::<ChannelInfo>::empty(), thread_key_fn()) =~= Set::empty());
    }
    keep_new_threads(&mut seen_threads, &mut threads, active_threads, Ghost(Seq::empty()));
    proof {
        assert(Seq::<ChannelInfo>::empty() + at =~= at);
    }
    keep_new_threads(&mut seen_threads, &mut threads, recent_threads, Ghost(at));
    let mut seen_messages: HashSet<u64> = HashSet::new();
    let mut first_messages: Vec<MessageInfo> = Vec::new();
    proof {
        assert(keys_of(Seq::<MessageInfo>::empty(), message_key_fn()) =~= Set::empty());
    }
    keep_new_messages(&mut seen_messages, &mut first_messages, active_messages, Ghost(Seq::empty()));
    proof {
        assert(Seq::<MessageInfo>::empty() + am =~= am);
    }
    keep_new_messages(&mut seen_messages, &mut first_messages, recent_messages, Ghost(am));
    ForumPostPage { threads, first_messages, has_more, next_offset }
}

/// A thread as a listing under `parent` sees it: without a parent of its
/// own it is given `parent` when `fill_missing_parent` is set.
pub open spec fn with_parent(c: ChannelInfo, parent: Id<ChannelMarker>, fill_missing_parent: bool) -> ChannelInfo {
    if fill_missing_parent && c.parent_id is None {
        ChannelInfo { parent_id: Some(parent), ..c }
    } else {
        c
    }
}

/// The threads among `channels` that sit under `parent`, in order.
pub open spec fn threads_under(channels: Seq<ChannelInfo>, parent: Id<ChannelMarker>, fill_missing_parent: bool) -> Seq<
    ChannelInfo,
>
    decreases channels.len(),
{
    if channels.len() == 0 {
        seq![]
    } else {
        let init = threads_under(channels.drop_last(), parent, fill_missing_parent);
        let c = with_parent(channels.last(), parent, fill_missing_parent);
        if c.parent_id == Some(parent) {
            init.push(c)
        } else {
            init
        }
    }
}

/// The threads of a forum search response that belong to the forum
/// `parent_channel_id`.
pub fn forum_threads_for_parent(
    channels: Vec<ChannelInfo>,
    parent_channel_id: Id<ChannelMarker>,
    fill_missing_parent: bool,
) -> (r: Vec<ChannelInfo>)
    ensures
        r@ == threads_under(channels@, parent_channel_id, fill_missing_parent),
{
    let ghost all = channels@;
    let mut out: Vec<ChannelInfo> = Vec::new();
    proof {
        assert(all.take(0) =~= Seq::<ChannelInfo>::empty());
    }
    for channel in it: channels.into_iter()
        invariant
            it.seq() == all,
            out@ == threads_under(all.take(it.index() as int), parent_channel_id, fill_missing_parent),
    {
        let ghost n: int = it.index() as int;
        proof {
            assert(all.take(n + 1).drop_last() =~= all.take(n));
            assert(all.take(n + 1).last() == channel);
        }
        let mut channel = channel;
        if fill_missing_parent && channel.parent_id.is_none() {
            channel.parent_id = Some(parent_channel_id);
        }
        let keep = match channel.parent_id {
            Some(p) => p.get() == parent_channel_id.get(),
            None => false,
        };
        proof {
            if let Some(p) = channel.parent_id {
                lemma_id_view_injective(p, parent_channel_id);
            }
        }
        if keep {
            out.push(channel);
        }
    }
    proof {
        assert(all.take(all.len() as int) =~= all);
    }
    out
}

/// The messages among `messages` posted in one of `threads`, in order.
pub open spec fn messages_in_threads(messages: Seq<MessageInfo>, threads: Seq<ChannelInfo>) -> Seq<MessageInfo> {
    messages.filter(|m: MessageInfo| exists|i: int| 0 <= i < threads.len() && threads[i].channel_id == m.channel_id)
}

fn in_threads(channel_id: Id<ChannelMarker>, threads: &Vec<ChannelInfo>) -> (r: bool)
    ensures
        r == exists|i: int| 0 <= i < threads@.len() && threads@[i].channel_id == channel_id,
{
    let mut i: usize = 0;
    while i < threads.len()
        invariant
            i <= threads.len(),
            forall|j: int| 0 <= j < i ==> threads@[j].channel_id != channel_id,
        decreases threads.len() - i,
    {
        if threads[i].channel_id.get() == channel_id.get() {
            proof {
                lemma_id_view_injective(threads@[i as int].channel_id, channel_id);
            }
            return true;
        }
        i = i + 1;
    }
    false
}

proof fn lemma_threads_under_parent(channels: Seq<ChannelInfo>, parent: Id<ChannelMarker>, fill_missing_parent: bool)
    ensures
        forall|i: int|
            0 <= i < threads_under(channels, parent, fill_missing_parent).len() ==> (#[trigger] threads_under(
                channels,
                parent,
                fill_missing_parent,
            )[i]).parent_id == Some(parent),
    decreases channels.len(),
{
    if channels.len() > 0 {
        lemma_threads_under_parent(channels.drop_last(), parent, fill_missing_parent);
    }
}

/// A forum listing belongs to its forum: every listed thread sits under the
/// forum, every listed first message was posted in a listed thread, and no
/// message is listed twice.
pub proof fn lemma_forum_listing_belongs_to_forum(
    channels: Seq<ChannelInfo>,
    parent: Id<ChannelMarker>,
    fill_missing_parent: bool,
    messages: Seq<MessageInfo>,
)
    ensures
        ({
            let threads = threads_under(channels, parent, fill_missing_parent);
            let firsts = keep_first_by_key(messages_in_threads(messages, threads), message_key_fn());
            &&& forall|i: int| 0 <= i < threads.len() ==> (#[trigger] threads[i]).parent_id == Some(parent)
            &&& forall|i: int|
                0 <= i < firsts.len() ==> exists|j: int|
                    0 <= j < threads.len() && threads[j].channel_id == (#[trigger] firsts[i]).channel_id
            &&& keys_unique(firsts, message_key_fn())
        }),
{
    let threads = threads_under(channels, parent, fill_missing_parent);
    let pred = |m: MessageInfo| exists|i: int| 0 <= i < threads.len() && threads[i].channel_id == m.channel_id;
    let listed = messages_in_threads(messages, threads);
    let firsts = keep_first_by_key(listed, message_key_fn());
    lemma_threads_under_parent(channels, parent, fill_missing_parent);
    lemma_keep_first_by_key(listed, message_key_fn());
    assert forall|i: int| 0 <= i < firsts.len() implies exists|j: int|
        0 <= j < threads.len() && threads[j].channel_id == (#[trigger] firsts[i]).channel_id by {
        assert(listed.contains(firsts[i]));
        let k = choose|k: int| 0 <= k < listed.len() && listed[k] == firsts[i];
        messages.lemma_filter_pred(pred, k);
    }
}

/// The messages posted in one of `threads`, in order.
fn messages_posted_in(messages: Vec<MessageInfo>, threads: &Vec<ChannelInfo>) -> (r: Vec<MessageInfo>)
    ensures
        r@ == messages_in_threads(messages@, threads@),
{
    let ghost all = messages@;
    let mut listed: Vec<MessageInfo> = Vec::new();
    proof {
        assert(all.take(0).filter(|m: MessageInfo| exists|i: int| 0 <= i < threads@.len() && threads@[i].channel_id == m.channel_id) =~= Seq::<MessageInfo>::empty());
    }
    for message in it: messages.into_iter()
        invariant
            it.seq() == all,
            listed@ == messages_in_threads(all.take(it.index() as int), threads@),
    {
        let ghost n: int = it.index() as int;
        proof {
            assert(all.take(n + 1).drop_last() =~= all.take(n));
            assert(all.take(n + 1).last() == message);
            reveal_with_fuel(Seq::filter, 1);
        }
        if in_threads(message.channel_id, threads) {
            listed.push(message);
        }
    }
    proof {
        assert(all.take(all.len() as int) =~= all);
    }
    listed
}

/// Each message once, by message id, the first copy kept.
fn first_by_message_id(listed: Vec<MessageInfo>) -> (r: Vec<MessageInfo>)
    ensures
        r@ == keep_first_by_key(listed@, message_key_fn()),
{
    let mut seen: HashSet<u64> = HashSet::new();
    let mut out: Vec<MessageInfo> = Vec::new();
    proof {
        assert(keys_of(Seq::<MessageInfo>::empty(), message_key_fn()) =~= Set::empty());
    }
    let ghost l = listed@;
    keep_new_messages(&mut seen, &mut out, listed, Ghost(Seq::empty()));
    proof {
        assert(Seq::<MessageInfo>::empty() + l =~= l);
    }
    out
}

/// The first messages of a forum search response worth showing: those
/// posted in one of the listed threads, each message once.
pub fn forum_first_messages(messages: Vec<MessageInfo>, threads: &Vec<ChannelInfo>) -> (r: Vec<MessageInfo>)
    ensures
        r@ == keep_first_by_key(messages_in_threads(messages@, threads@), message_key_fn()),
{
    first_by_message_id(messages_posted_in(messages, threads))
}

/// A created forum post; a thread that names no parent is placed under the
/// forum it was posted in, when that is known.
pub fn created_forum_post(
    thread: ChannelInfo,
    first_message: Option<MessageInfo>,
    parent_channel_id: Option<Id<ChannelMarker>>,
) -> (r: CreatedForumPost)
    ensures
        r.thread == (if thread.parent_id is None {
            ChannelInfo { parent_id: parent_channel_id, ..thread }
        } else {
            thread
        }),
        r.first_message == first_message,
{
    let mut thread = thread;
    if thread.parent_id.is_none() {
        thread.parent_id = parent_channel_id;
    }
    CreatedForumPost { thread, first_message }
}

fn push_entry(entries: &mut Vec<(String, Value)>, key: &str, value: Value)
    ensures
        entries_view(final(entries)@) == entries_view(old(entries)@).push((key@, value)),
{
    entries.push((key.to_string(), value));
    proof {
        assert(entries_view(entries@) =~= entries_view(old(entries)@).push((key@, value)));
    }
}

/// The tag ids of a post, as JSON texts.
pub open spec fn tag_values(tags: Seq<Id<ForumTagMarker>>) -> Seq<Value>
    decreases tags.len(),
{
    if tags.len() == 0 {
        seq![]
    } else {
        tag_values(tags.drop_last()).push(json_string(decimal(tags.last()@ as nat)))
    }
}

/// The attachment entries of a post's first message: each attachment's
/// position and file name.
pub open spec fn attachment_values(attachments: Seq<MessageAttachmentUpload>) -> Seq<Value>
    decreases attachments.len(),
{
    if attachments.len() == 0 {
        seq![]
    } else {
        attachment_values(attachments.drop_last()).push(
            json_object(
                seq![
                    ("id"@, json_u64((attachments.len() - 1) as u64)),
                    ("filename"@, json_string(attachments.last().upload_filename()@)),
                ],
            ),
        )
    }
}

/// The body that creates a forum post: the trimmed title, the first
/// message's content, the applied tags when there are some, and the
/// attachments' entries when there are some.
pub open spec fn forum_post_body(
    title: Seq<char>,
    content: Seq<char>,
    tags: Seq<Id<ForumTagMarker>>,
    attachments: Seq<MessageAttachmentUpload>,
) -> Value {
    let message = seq![("content"@, json_string(content))];
    let message = if attachments.len() > 0 {
        message.push(("attachments"@, json_array(attachment_values(attachments))))
    } else {
        message
    };
    let body = seq![("name"@, json_string(title)), ("message"@, json_object(message))];
    let body = if tags.len() > 0 {
        body.push(("applied_tags"@, json_array(tag_values(tags))))
    } else {
        body
    };
    json_object(body)
}

/// The body of a request that creates a forum post; refused when the title
/// is blank or longer than 100 characters.
pub fn create_forum_post_request_body(
    title: &str,
    content: &str,
    applied_tags: &[Id<ForumTagMarker>],
    attachments: &[MessageAttachmentUpload],
) -> (r: Result<Value, AppError>)
    ensures
        trim(title@).len() == 0 ==> (r matches Err(AppError::DiscordRequest(m)) && m@
            == "forum post title cannot be empty"@),
        trim(title@).len() > 100 ==> (r matches Err(AppError::DiscordRequest(m)) && m@
            == title_too_long_message(trim(title@).len())),
        0 < trim(title@).len() <= 100 ==> r == Ok::<Value, AppError>(
            forum_post_body(trim(title@), content@, applied_tags@, attachments@),
        ),
{
    let ghost title_text = title@;
    let title = match validate_forum_post_title(title) {
        Ok(t) => t,
        Err(e) => return Err(e),
    };
    assert(title@ == trim(title_text));
    let mut message: Vec<(String, Value)> = Vec::new();
    push_entry(&mut message, "content", json_string_value(content.to_string()));
    let ghost message_base = entries_view(message@);
    if attachments.len() > 0 {
        let mut entries: Vec<Value> = Vec::new();
        let mut i: usize = 0;
        proof {
            assert(attachments@.take(0) =~= Seq::<MessageAttachmentUpload>::empty());
        }
        while i < attachments.len()
            invariant
                i <= attachments@.len(),
                entries@ == attachment_values(attachments@.take(i as int)),
            decreases attachments@.len() - i,
        {
            proof {
                assert(attachments@.take(i + 1).drop_last() =~= attachments@.take(i as int));
            }
            let mut entry: Vec<(String, Value)> = Vec::new();
            push_entry(&mut entry, "id", json_u64_value(i as u64));
            push_entry(&mut entry, "filename", json_string_value(attachments[i].upload_name().clone()));
            proof {
                assert(entries_view(entry@) =~= seq![
                    ("id"@, json_u64(i as u64)),
                    ("filename"@, json_string(attachments@[i as int].upload_filename()@)),
                ]);
            }
            entries.push(json_object_value(entry));
            i = i + 1;
        }
        proof {
            assert(attachments@.take(attachments@.len() as int) =~= attachments@);
        }
        push_entry(&mut message, "attachments", json_array_value(entries));
    }
    let ghost message_spec = if attachments@.len() > 0 {
        seq![("content"@, json_string(content@))].push(("attachments"@, json_array(attachment_values(attachments@))))
    } else {
        seq![("content"@, json_string(content@))]
    };
    assert(entries_view(message@) =~= message_spec);
    let mut body: Vec<(String, Value)> = Vec::new();
    push_entry(&mut body, "name", json_string_value(title));
    push_entry(&mut body, "message", json_object_value(message));
    if applied_tags.len() > 0 {
        let mut tags: Vec<Value> = Vec::new();
        let mut k: usize = 0;
        proof {
            assert(applied_tags@.take(0) =~= Seq::<Id<ForumTagMarker>>::empty());
        }
        while k < applied_tags.len()
            invariant
                k <= applied_tags@.len(),
                tags@ == tag_values(applied_tags@.take(k as int)),
            decreases applied_tags@.len() - k,
        {
            proof {
                assert(applied_tags@.take(k + 1).drop_last() =~= applied_tags@.take(k as int));
            }
            tags.push(json_string_value(decimal_string(applied_tags[k].get())));
            k = k + 1;
        }
        proof {
            assert(applied_tags@.take(applied_tags@.len() as int) =~= applied_tags@);
        }
        push_entry(&mut body, "applied_tags", json_array_value(tags));
    }
    let ghost body_base = seq![("name"@, json_string(trim(title_text))), ("message"@, json_object(message_spec))];
    assert(entries_view(body@) =~= if applied_tags@.len() > 0 {
        body_base.push(("applied_tags"@, json_array(tag_values(applied_tags@))))
    } else {
        body_base
    });
    Ok(json_object_value(body))
}

/// The query of a forum post search page: archived or active posts, in
/// the given order, newest first, a page of 25 from `offset`, posts with any
/// of the selected tags.
pub open spec fn forum_search_params(archive_state: ForumPostArchiveState, offset: usize, sort_by: ForumSearchSort) -> Seq<
    (Seq<char>, Seq<char>),
> {
    seq![
        ("archived"@, match archive_state {
            ForumPostArchiveState::Active => "false"@,
            ForumPostArchiveState::Archived => "true"@,
        }),
        ("sort_by"@, match sort_by {
            ForumSearchSort::LastMessageTime => "last_message_time"@,
            ForumSearchSort::CreationTime => "creation_time"@,
        }),
        ("sort_order"@, "desc"@),
        ("limit"@, decimal(25)),
        ("tag_setting"@, "match_some"@),
        ("offset"@, decimal(offset as nat)),
    ]
}

/// The query parameters of a forum post search page.
pub fn forum_post_search_params(
    archive_state: ForumPostArchiveState,
    offset: usize,
    sort_by: ForumSearchSort,
) -> (r: Vec<(&'static str, String)>)
    ensures
        r@.map_values(|p: (&'static str, String)| (p.0@, p.1@)) == forum_search_params(archive_state, offset, sort_by),
{
    let mut params: Vec<(&'static str, String)> = Vec::new();
    params.push(("archived", archive_state.as_query_value().to_string()));
    params.push(("sort_by", sort_by.as_str().to_string()));
    params.push(("sort_order", "desc".to_string()));
    params.push(("limit", decimal_string(FORUM_POST_SEARCH_PAGE_LIMIT as u64)));
    params.push(("tag_setting", "match_some".to_string()));
    params.push(("offset", decimal_string(offset as u64)));
    proof {
        assert(params@.map_values(|p: (&'static str, String)| (p.0@, p.1@)) =~= forum_search_params(
            archive_state,
            offset,
            sort_by,
        ));
    }
    params
}

/// A text field, empty when it is absent or not a string.
pub open spec fn text_or_empty(j: Option<Json>) -> Seq<char> {
    match json_as_str(j) {
        Some(s) => s,
        None => Seq::empty(),
    }
}

/// The channel type number in decimal; empty when it is absent or not a
/// non-negative integer.
pub open spec fn raw_kind(j: Option<Json>) -> Seq<char> {
    match j {
        Some(Json::Number(JsonNumber::PosInt(u))) => decimal(u as nat),
        _ => Seq::empty(),
    }
}

/// A position that fits in `i32`.
pub open spec fn raw_position(j: Option<Json>) -> Option<i32> {
    match j {
        Some(Json::Number(JsonNumber::PosInt(u))) => if u <= i32::MAX {
            Some(u as i32)
        } else {
            None
        },
        Some(Json::Number(JsonNumber::NegInt(i))) => if i >= i32::MIN {
            Some(i as i32)
        } else {
            None
        },
        _ => None,
    }
}

fn text_or_empty_of(j: Option<&Json>) -> (r: String)
    ensures
        r@ == text_or_empty(deref_json(j)),
{
    match json_str_of(j) {
        Some(s) => s.clone(),
        None => String::new(),
    }
}

/// The channel holds what the channel object says; its guild is the
/// object's own `guild_id` when valid, else `guild_id`.
pub open spec fn channel_info_matches(c: ChannelInfo, raw: Json, guild_id: Option<Id<GuildMarker>>) -> bool {
    &&& Some(c.channel_id@) == raw_id(json_get(raw, "id"@))
    &&& id_value(c.guild_id) == match raw_id(json_get(raw, "guild_id"@)) {
        Some(g) => Some(g),
        None => id_value(guild_id),
    }
    &&& id_value(c.parent_id) == raw_id(json_get(raw, "parent_id"@))
    &&& id_value(c.owner_id) == raw_id(json_get(raw, "owner_id"@))
    &&& c.name@ == text_or_empty(json_get(raw, "name"@))
    &&& c.kind@ == raw_kind(json_get(raw, "type"@))
    &&& c.position == raw_position(json_get(raw, "position"@))
}

/// A channel object carries a valid `id`.
pub open spec fn channel_reads(raw: Json) -> bool {
    raw_id(json_get(raw, "id"@)) is Some
}

/// A channel object as the API sends it: `None` without a valid `id`.
pub fn parse_channel_info(raw: &Json, guild_id: Option<Id<GuildMarker>>) -> (r: Option<ChannelInfo>)
    ensures
        r is Some <==> channel_reads(*raw),
        r matches Some(c) ==> channel_info_matches(c, *raw, guild_id),
{
    let channel_id = match parse_id::<ChannelMarker>(json_get_field(raw, "id")) {
        Some(id) => id,
        None => return None,
    };
    let own_guild = parse_id::<GuildMarker>(json_get_field(raw, "guild_id"));
    let guild_id = match own_guild {
        Some(g) => Some(g),
        None => guild_id,
    };
    let kind = match json_get_field(raw, "type") {
        Some(Json::Number(JsonNumber::PosInt(u))) => decimal_string(*u),
        _ => String::new(),
    };
    let position = match json_get_field(raw, "position") {
        Some(Json::Number(JsonNumber::PosInt(u))) => if *u <= 2147483647u64 {
            Some(*u as i32)
        } else {
            None
        },
        Some(Json::Number(JsonNumber::NegInt(i))) => if *i >= -2147483648i64 {
            Some(*i as i32)
        } else {
            None
        },
        _ => None,
    };
    Some(
        ChannelInfo {
            guild_id,
            channel_id,
            parent_id: parse_id::<ChannelMarker>(json_get_field(raw, "parent_id")),
            owner_id: parse_id::<UserMarker>(json_get_field(raw, "owner_id")),
            name: text_or_empty_of(json_get_field(raw, "name")),
            kind,
            position,
        },
    )
}

/// The name shown for a message author: the global name, else the user
/// name, else nothing.
pub open spec fn author_name(author: Json) -> Seq<char> {
    match json_as_str(json_get(author, "global_name"@)) {
        Some(g) => g,
        None => text_or_empty(json_get(author, "username"@)),
    }
}

/// A message object carries a valid `channel_id`, `id`, and an `author`
/// with a valid `id`.
pub open spec fn message_reads(raw: Json) -> bool {
    &&& raw_id(json_get(raw, "channel_id"@)) is Some
    &&& raw_id(json_get(raw, "id"@)) is Some
    &&& json_get(raw, "author"@) matches Some(a) && raw_id(json_get(a, "id"@)) is Some
}

/// The message holds what the message object says.
pub open spec fn message_info_matches(m: MessageInfo, raw: Json) -> bool {
    &&& id_value(m.guild_id) == raw_id(json_get(raw, "guild_id"@))
    &&& Some(m.channel_id@) == raw_id(json_get(raw, "channel_id"@))
    &&& Some(m.message_id@) == raw_id(json_get(raw, "id"@))
    &&& Some(m.author_id@) == raw_id(json_get(json_get(raw, "author"@)->0, "id"@))
    &&& m.author@ == author_name(json_get(raw, "author"@)->0)
    &&& match m.content {
        Some(c) => json_as_str(json_get(raw, "content"@)) == Some(c@),
        None => json_as_str(json_get(raw, "content"@)) is None,
    }
    &&& m.pinned == match json_as_bool(json_get(raw, "pinned"@)) {
        Some(b) => b,
        None => false,
    }
}

/// A message object as the API sends it: `None` unless it carries a valid
/// `channel_id`, `id`, and an `author` with a valid `id`.
pub fn parse_message_info(raw: &Json) -> (r: Option<MessageInfo>)
    ensures
        r is Some <==> message_reads(*raw),
        r matches Some(m) ==> message_info_matches(m, *raw),
{
    let author = match json_get_field(raw, "author") {
        Some(a) => a,
        None => {
            return None;
        },
    };
    let guild_id = parse_id::<GuildMarker>(json_get_field(raw, "guild_id"));
    let channel_id = match parse_id::<ChannelMarker>(json_get_field(raw, "channel_id")) {
        Some(id) => id,
        None => return None,
    };
    let message_id = match parse_id::<MessageMarker>(json_get_field(raw, "id")) {
        Some(id) => id,
        None => return None,
    };
    let author_id = match parse_id::<UserMarker>(json_get_field(author, "id")) {
        Some(id) => id,
        None => return None,
    };
    let author_name = match json_str_of(json_get_field(author, "global_name")) {
        Some(g) => g.clone(),
        None => text_or_empty_of(json_get_field(author, "username")),
    };
    let content = match json_str_of(json_get_field(raw, "content")) {
        Some(c) => Some(c.clone()),
        None => None,
    };
    let pinned = match json_get_field(raw, "pinned") {
        Some(Json::Bool(b)) => *b,
        _ => false,
    };
    Some(MessageInfo { guild_id, channel_id, message_id, author_id, author: author_name, content, pinned })
}

/// The items of an array field; none when the field is absent or not an
/// array.
pub open spec fn raw_items(j: Option<Json>) -> Seq<Json> {
    match j {
        Some(Json::Array(items)) => items@,
        _ => Seq::empty(),
    }
}

/// `out` is what the channel objects `items` read as: one channel for each
/// object that reads, in order.
pub open spec fn channels_read(items: Seq<Json>, guild_id: Option<Id<GuildMarker>>, out: Seq<ChannelInfo>) -> bool
    decreases items.len(),
{
    if items.len() == 0 {
        out.len() == 0
    } else if channel_reads(items.last()) {
        &&& out.len() > 0
        &&& channel_info_matches(out.last(), items.last(), guild_id)
        &&& channels_read(items.drop_last(), guild_id, out.drop_last())
    } else {
        channels_read(items.drop_last(), guild_id, out)
    }
}

/// `out` is what the message objects `items` read as: one message for each
/// object that reads, in order.
pub open spec fn messages_read(items: Seq<Json>, out: Seq<MessageInfo>) -> bool
    decreases items.len(),
{
    if items.len() == 0 {
        out.len() == 0
    } else if message_reads(items.last()) {
        &&& out.len() > 0
        &&& message_info_matches(out.last(), items.last())
        &&& messages_read(items.drop_last(), out.drop_last())
    } else {
        messages_read(items.drop_last(), out)
    }
}

fn parse_channel_infos(items: &Vec<Json>, guild_id: Option<Id<GuildMarker>>) -> (r: Vec<ChannelInfo>)
    ensures
        channels_read(items@, guild_id, r@),
{
    let mut out: Vec<ChannelInfo> = Vec::new();
    let mut i: usize = 0;
    proof {
        assert(items@.take(0) =~= Seq::<Json>::empty());
    }
    while i < items.len()
        invariant
            i <= items@.len(),
            channels_read(items@.take(i as int), guild_id, out@),
        decreases items@.len() - i,
    {
        proof {
            assert(items@.take(i + 1).drop_last() =~= items@.take(i as int));
            assert(items@.take(i + 1).last() == items@[i as int]);
        }
        let ghost prev = out@;
        match parse_channel_info(&items[i], guild_id) {
            Some(c) => {
                out.push(c);
                proof {
                    assert(out@.drop_last() =~= prev);
                }
            },
            None => {},
        }
        i = i + 1;
    }
    proof {
        assert(items@.take(items@.len() as int) =~= items@);
    }
    out
}

fn parse_message_infos(items: &Vec<Json>) -> (r: Vec<MessageInfo>)
    ensures
        messages_read(items@, r@),
{
    let mut out: Vec<MessageInfo> = Vec::new();
    let mut i: usize = 0;
    proof {
        assert(items@.take(0) =~= Seq::<Json>::empty());
    }
    while i < items.len()
        invariant
            i <= items@.len(),
            messages_read(items@.take(i as int), out@),
        decreases items@.len() - i,
    {
        proof {
            assert(items@.take(i + 1).drop_last() =~= items@.take(i as int));
            assert(items@.take(i + 1).last() == items@[i as int]);
        }
        let ghost prev = out@;
        match parse_message_info(&items[i]) {
            Some(m) => {
                out.push(m);
                proof {
                    assert(out@.drop_last() =~= prev);
                }
            },
            None => {},
        }
        i = i + 1;
    }
    proof {
        assert(items@.take(items@.len() as int) =~= items@);
    }
    out
}

fn array_items<'a>(j: Option<&'a Json>) -> (r: Option<&'a Vec<Json>>)
    ensures
        match r {
            Some(items) => raw_items(deref_json(j)) == items@,
            None => raw_items(deref_json(j)) == Seq::<Json>::empty(),
        },
{
    match j {
        Some(Json::Array(items)) => Some(items),
        _ => None,
    }
}

/// The threads of a forum search response (its `threads` field) that sit
/// under the forum `parent_channel_id`; a thread without a parent of its own
/// is taken to sit there when `fill_missing_parent` is set.
pub fn parse_forum_threads(
    raw: &Json,
    guild_id: Option<Id<GuildMarker>>,
    parent_channel_id: Id<ChannelMarker>,
    fill_missing_parent: bool,
) -> (r: Vec<ChannelInfo>)
    ensures
        exists|channels: Seq<ChannelInfo>|
            channels_read(raw_items(json_get(*raw, "threads"@)), guild_id, channels) && r@ == threads_under(
                channels,
                parent_channel_id,
                fill_missing_parent,
            ),
{
    let channels = match array_items(json_get_field(raw, "threads")) {
        Some(items) => parse_channel_infos(items, guild_id),
        None => Vec::new(),
    };
    let ghost cs = channels@;
    let r = forum_threads_for_parent(channels, parent_channel_id, fill_missing_parent);
    proof {
        assert(channels_read(raw_items(json_get(*raw, "threads"@)), guild_id, cs));
    }
    r
}

/// The messages listed in the array field `field` of a forum search
/// response that were posted in one of `threads`, in order.
pub fn parse_forum_messages_from_field(raw: &Json, threads: &Vec<ChannelInfo>, field: &str) -> (r: Vec<
    MessageInfo,
>)
    ensures
        exists|messages: Seq<MessageInfo>|
            messages_read(raw_items(json_get(*raw, field@)), messages) && r@ == messages_in_threads(
                messages,
                threads@,
            ),
{
    let messages = match array_items(json_get_field(raw, field)) {
        Some(items) => parse_message_infos(items),
        None => Vec::new(),
    };
    let ghost ms = messages@;
    let r = messages_posted_in(messages, threads);
    proof {
        assert(messages_read(raw_items(json_get(*raw, field@)), ms));
    }
    r
}

/// The first messages of a forum search response (its `first_messages`
/// field) posted in one of `threads`, each message once.
pub fn parse_forum_first_messages(raw: &Json, threads: &Vec<ChannelInfo>) -> (r: Vec<MessageInfo>)
    ensures
        exists|messages: Seq<MessageInfo>|
            messages_read(raw_items(json_get(*raw, "first_messages"@)), messages) && r@
                == keep_first_by_key(messages_in_threads(messages, threads@), message_key_fn()),
{
    let listed = parse_forum_messages_from_field(raw, threads, "first_messages");
    first_by_message_id(listed)
}

/// What a forum thread search response holds.
pub struct ForumThreadSearchResponse {
    pub threads: Vec<ChannelInfo>,
    pub first_messages: Vec<MessageInfo>,
    pub has_more: bool,
}

/// The `has_more` flag, false when absent or not a boolean.
pub open spec fn raw_has_more(raw: Json) -> bool {
    match json_as_bool(json_get(raw, "has_more"@)) {
        Some(b) => b,
        None => false,
    }
}

/// Reads a forum thread search response: the threads under the forum, the
/// first messages posted in them, and whether more follow.
pub fn parse_forum_thread_search_response(
    raw: &Json,
    guild_id: Option<Id<GuildMarker>>,
    parent_channel_id: Id<ChannelMarker>,
    fill_missing_parent: bool,
) -> (r: ForumThreadSearchResponse)
    ensures
        exists|channels: Seq<ChannelInfo>|
            channels_read(raw_items(json_get(*raw, "threads"@)), guild_id, channels) && r.threads@
                == threads_under(channels, parent_channel_id, fill_missing_parent),
        exists|messages: Seq<MessageInfo>|
            messages_read(raw_items(json_get(*raw, "first_messages"@)), messages)
                && r.first_messages@ == keep_first_by_key(
                messages_in_threads(messages, r.threads@),
                message_key_fn(),
            ),
        r.has_more == raw_has_more(*raw),
{
    let threads = parse_forum_threads(raw, guild_id, parent_channel_id, fill_missing_parent);
    let first_messages = parse_forum_first_messages(raw, &threads);
    let has_more = match json_get_field(raw, "has_more") {
        Some(Json::Bool(b)) => *b,
        _ => false,
    };
    ForumThreadSearchResponse { threads, first_messages, has_more }
}

/// The forum page a thread search response gives for the page at `offset`:
/// its threads and first messages, whether more follow, and the offset of
/// the next page.
pub fn forum_post_page(
    raw: &Json,
    guild_id: Id<GuildMarker>,
    channel_id: Id<ChannelMarker>,
    offset: usize,
) -> (r: ForumPostPage)
    ensures
        exists|channels: Seq<ChannelInfo>|
            channels_read(raw_items(json_get(*raw, "threads"@)), Some(guild_id), channels) && r.threads@
                == threads_under(channels, channel_id, true),
        exists|messages: Seq<MessageInfo>|
            messages_read(raw_items(json_get(*raw, "first_messages"@)), messages)
                && r.first_messages@ == keep_first_by_key(
                messages_in_threads(messages, r.threads@),
                message_key_fn(),
            ),
        r.has_more == raw_has_more(*raw),
        r.next_offset == if offset + r.threads@.len() > usize::MAX {
            usize::MAX as int
        } else {
            offset + r.threads@.len()
        },
{
    let response = parse_forum_thread_search_response(raw, Some(guild_id), channel_id, true);
    let ForumThreadSearchResponse { threads, first_messages, has_more } = response;
    ForumPostPage { next_offset: forum_page_next_offset(offset, threads.len()), threads, first_messages, has_more }
}

/// The post a create request answered with: the thread (placed under
/// `parent_channel_id` when it names no parent) and its first message when
/// the response carries one that reads; an error when the thread does not
/// read.
pub fn parse_create_forum_post_response(raw: &Json, parent_channel_id: Option<Id<ChannelMarker>>) -> (r:
    Result<CreatedForumPost, AppError>)
    ensures
        r is Ok <==> channel_reads(*raw),
        r matches Err(AppError::DiscordRequest(m)) ==> m@ == "create forum post response was missing thread"@,
        r matches Err(e) ==> e is DiscordRequest,
        r matches Ok(post) ==> {
            &&& id_value(post.thread.parent_id) == match raw_id(json_get(*raw, "parent_id"@)) {
                Some(p) => Some(p),
                None => id_value(parent_channel_id),
            }
            &&& Some(post.thread.channel_id@) == raw_id(json_get(*raw, "id"@))
            &&& id_value(post.thread.guild_id) == raw_id(json_get(*raw, "guild_id"@))
            &&& id_value(post.thread.owner_id) == raw_id(json_get(*raw, "owner_id"@))
            &&& post.thread.name@ == text_or_empty(json_get(*raw, "name"@))
            &&& post.thread.kind@ == raw_kind(json_get(*raw, "type"@))
            &&& post.thread.position == raw_position(json_get(*raw, "position"@))
            &&& match post.first_message {
                Some(m) => json_get(*raw, "message"@) matches Some(j) && message_reads(j)
                    && message_info_matches(m, j),
                None => !(json_get(*raw, "message"@) matches Some(j) && message_reads(j)),
            }
        },
{
    let thread = match parse_channel_info(raw, None) {
        Some(t) => t,
        None => {
            return Err(AppError::DiscordRequest("create forum post response was missing thread".to_string()));
        },
    };
    let first_message = match json_get_field(raw, "message") {
        Some(m) => parse_message_info(m),
        None => None,
    };
    Ok(created_forum_post(thread, first_message, parent_channel_id))
}

} // verus!
