//! Message search: the date filter's snowflake bounds and the paging rule.
use crate::application_commands::{colon_split, split_colon};
use crate::error::AppError;
use crate::forum::{message_info_matches, message_reads, parse_message_info, MessageInfo};
use crate::json::{json_as_u64, json_get, json_get_field, Json, JsonNumber};
use crate::ids::Id;
use crate::marker::{ChannelMarker, GuildMarker, UserMarker};
use crate::text::{chars_of, decimal, decimal_string, push_decimal, push_str, range_eq_str, string_of, string_of_range, trim, trim_chars};
use chrono::TimeZone;
use vstd::prelude::*;

verus! {

/// Results Discord returns per search page.
pub const MESSAGE_SEARCH_PAGE_LIMIT: u16 = 25;

/// The largest offset the search endpoint accepts.
pub const MESSAGE_SEARCH_MAX_OFFSET: usize = 9_975;

/// Milliseconds from the Unix epoch to the first instant of 2015 UTC, where
/// snowflake time starts.
pub const DISCORD_EPOCH_MILLIS: i64 = 1_420_070_400_000;

/// Milliseconds since the Unix epoch of 00:00 UTC on the day that `date`
/// spells in `%Y-%m-%d` form, as chrono computes it; `None` where chrono does
/// not parse the text as such a date.
pub uninterp spec fn utc_day_start_millis(date: Seq<char>) -> Option<i64>;

/// Milliseconds since the Unix epoch of 00:00 UTC on the day after the one
/// `date` spells in `%Y-%m-%d` form, as chrono computes it; `None` where
/// chrono does not parse the text or the calendar has no next day.
pub uninterp spec fn utc_next_day_start_millis(date: Seq<char>) -> Option<i64>;

/// `NaiveDate::parse_from_str(date, "%Y-%m-%d")`, at 00:00, as a UTC
/// timestamp in milliseconds. The contract only names the result.
#[verifier::external_body]
fn day_start_millis(date: &str) -> (r: Option<i64>)
    ensures
        r == utc_day_start_millis(date@),
{
    let date = chrono::NaiveDate::parse_from_str(date, "%Y-%m-%d").ok()?;
    let start = date.and_hms_opt(0, 0, 0)?;
    Some(chrono::Utc.from_utc_datetime(&start).timestamp_millis())
}

/// `NaiveDate::parse_from_str(date, "%Y-%m-%d")`, then `succ_opt`, at 00:00,
/// as a UTC timestamp in milliseconds. The contract only names the result.
#[verifier::external_body]
fn next_day_start_millis(date: &str) -> (r: Option<i64>)
    ensures
        r == utc_next_day_start_millis(date@),
{
    let date = chrono::NaiveDate::parse_from_str(date, "%Y-%m-%d").ok()?;
    let end = date.succ_opt()?.and_hms_opt(0, 0, 0)?;
    Some(chrono::Utc.from_utc_datetime(&end).timestamp_millis())
}

/// `str::split(sep)`: the pieces between separators, empty ones included.
pub open spec fn split_on(s: Seq<char>, sep: char) -> Seq<Seq<char>>
    decreases s.len(),
{
    if s.len() == 0 {
        seq![Seq::<char>::empty()]
    } else {
        let init = split_on(s.drop_last(), sep);
        if s.last() == sep {
            init.push(Seq::<char>::empty())
        } else {
            init.update(init.len() - 1, init.last().push(s.last()))
        }
    }
}

pub proof fn lemma_split_on_nonempty(s: Seq<char>, sep: char)
    ensures
        split_on(s, sep).len() >= 1,
    decreases s.len(),
{
    if s.len() > 0 {
        lemma_split_on_nonempty(s.drop_last(), sep);
    }
}

/// The pieces of `s` between occurrences of `sep`.
pub fn split_on_char(s: &Vec<char>, sep: char) -> (r: Vec<Vec<char>>)
    ensures
        r@.map_values(|p: Vec<char>| p@) == split_on(s@, sep),
{
    let mut out: Vec<Vec<char>> = Vec::new();
    let mut cur: Vec<char> = Vec::new();
    let mut i: usize = 0;
    proof {
        assert(s@.take(0) =~= Seq::<char>::empty());
        assert(out@.map_values(|p: Vec<char>| p@).push(cur@) =~= seq![Seq::<char>::empty()]);
    }
    while i < s.len()
        invariant
            i <= s.len(),
            out@.map_values(|p: Vec<char>| p@).push(cur@) == split_on(s@.take(i as int), sep),
        decreases s.len() - i,
    {
        let ghost before = out@.map_values(|p: Vec<char>| p@).push(cur@);
        proof {
            assert(s@.take(i + 1).drop_last() =~= s@.take(i as int));
            assert(s@.take(i + 1).last() == s@[i as int]);
            lemma_split_on_nonempty(s@.take(i as int), sep);
        }
        if s[i] == sep {
            let ghost prev = out@;
            out.push(cur);
            cur = Vec::new();
            proof {
                assert(out@.map_values(|p: Vec<char>| p@) =~= prev.map_values(|p: Vec<char>| p@).push(
                    before.last(),
                ));
                assert(out@.map_values(|p: Vec<char>| p@).push(cur@) =~= before.push(
                    Seq::<char>::empty(),
                ));
            }
        } else {
            cur.push(s[i]);
            proof {
                assert(out@.map_values(|p: Vec<char>| p@).push(cur@) =~= before.update(
                    before.len() - 1,
                    before.last().push(s@[i as int]),
                ));
            }
        }
        i = i + 1;
    }
    let ghost prev = out@;
    out.push(cur);
    proof {
        assert(s@.take(s.len() as int) =~= s@);
        assert(out@.map_values(|p: Vec<char>| p@) =~= prev.map_values(|p: Vec<char>| p@).push(
            out@[out@.len() - 1]@,
        ));
    }
    out
}

/// The snowflake whose timestamp bits hold `millis`: milliseconds since the
/// snowflake epoch (none before it) shifted left by 22 bits, in 64 bits.
pub open spec fn snowflake_of_millis(millis: int) -> nat {
    let since = if millis > DISCORD_EPOCH_MILLIS {
        millis - DISCORD_EPOCH_MILLIS
    } else {
        0
    };
    ((since * 4194304) % 0x1_0000_0000_0000_0000) as nat
}

/// The smallest snowflake at or after a Unix timestamp in milliseconds.
pub fn timestamp_millis_to_snowflake(timestamp_millis: i64) -> (r: u64)
    ensures
        r == snowflake_of_millis(timestamp_millis as int),
{
    let since: u64 = if timestamp_millis > DISCORD_EPOCH_MILLIS {
        (timestamp_millis - DISCORD_EPOCH_MILLIS) as u64
    } else {
        0
    };
    let r = since << 22u64;
    proof {
        assert(since << 22u64 == (since * 4194304) % 0x1_0000_0000_0000_0000) by (bit_vector);
    }
    r
}

/// Snowflake order follows time: a later timestamp never gives a smaller
/// snowflake, while the time since the snowflake epoch fits the 42 timestamp
/// bits; such a snowflake shifted right by 22 bits gives that time back.
pub proof fn lemma_snowflake_follows_time(a: int, b: int)
    requires
        a <= b,
        b - DISCORD_EPOCH_MILLIS < 0x400_0000_0000,
    ensures
        snowflake_of_millis(a) <= snowflake_of_millis(b),
        b >= DISCORD_EPOCH_MILLIS ==> snowflake_of_millis(b) / 4194304 == b - DISCORD_EPOCH_MILLIS,
{
    let sa = if a > DISCORD_EPOCH_MILLIS { a - DISCORD_EPOCH_MILLIS } else { 0 };
    let sb = if b > DISCORD_EPOCH_MILLIS { b - DISCORD_EPOCH_MILLIS } else { 0 };
    assert(0 <= sa <= sb < 0x400_0000_0000);
    assert(sa * 4194304 <= sb * 4194304 < 0x1_0000_0000_0000_0000) by (nonlinear_arith)
        requires
            0 <= sa <= sb < 0x400_0000_0000,
    ;
    assert((sb * 4194304) / 4194304 == sb) by (nonlinear_arith)
        requires
            sb >= 0,
    ;
}

/// Lower and upper snowflake bounds of a date filter.
#[derive(Clone, Copy, Debug, PartialEq, Eq)]
pub struct MessageSearchDateBounds {
    pub min_id: Option<u64>,
    pub max_id: Option<u64>,
}

pub open spec fn gte_word() -> Seq<char> {
    seq!['g', 't', 'e']
}

pub open spec fn lte_word() -> Seq<char> {
    seq!['l', 't', 'e']
}

pub open spec fn equal_word() -> Seq<char> {
    seq!['e', 'q', 'u', 'a', 'l']
}

/// The exclusive lower id of a day: one below the day's first snowflake.
pub open spec fn day_lower_id(start_millis: i64) -> u64 {
    let s = snowflake_of_millis(start_millis as int);
    if s == 0 {
        0
    } else {
        (s - 1) as u64
    }
}

/// The exclusive upper id of a day: the first snowflake of the next day.
pub open spec fn day_upper_id(next_millis: i64) -> u64 {
    snowflake_of_millis(next_millis as int) as u64
}

/// The bounds one filter gives: `gte` a lower bound from the day's start,
/// `lte` an upper bound from the next day's start, `equal` both; `None` for
/// another operator or when the date it needs did not parse.
pub open spec fn date_token_bounds(op: Seq<char>, start: Option<i64>, next: Option<i64>) -> Option<
    MessageSearchDateBounds,
> {
    if op == gte_word() {
        match start {
            Some(a) => Some(MessageSearchDateBounds { min_id: Some(day_lower_id(a)), max_id: None }),
            None => None,
        }
    } else if op == lte_word() {
        match next {
            Some(b) => Some(MessageSearchDateBounds { min_id: None, max_id: Some(day_upper_id(b)) }),
            None => None,
        }
    } else if op == equal_word() {
        match (start, next) {
            (Some(a), Some(b)) => Some(
                MessageSearchDateBounds {
                    min_id: Some(day_lower_id(a)),
                    max_id: Some(day_upper_id(b)),
                },
            ),
            _ => None,
        }
    } else {
        None
    }
}

/// Operator and date of a trimmed filter: `op:date` with both parts trimmed,
/// or `equal` and the whole filter.
pub open spec fn date_token_parts(t: Seq<char>) -> (Seq<char>, Seq<char>) {
    match colon_split(t) {
        Some((a, b)) => (trim(a), trim(b)),
        None => (equal_word(), t),
    }
}

/// The bounds of one comma-separated filter; `None` when it is blank.
pub open spec fn token_bounds(token: Seq<char>) -> Option<MessageSearchDateBounds> {
    let t = trim(token);
    if t.len() == 0 {
        None
    } else {
        let (op, date) = date_token_parts(t);
        date_token_bounds(op, utc_day_start_millis(date), utc_next_day_start_millis(date))
    }
}

/// The larger lower bound and the smaller upper bound of two.
pub open spec fn narrow_bounds(cur: MessageSearchDateBounds, b: MessageSearchDateBounds) -> MessageSearchDateBounds {
    MessageSearchDateBounds {
        min_id: match (cur.min_id, b.min_id) {
            (Some(c), Some(l)) => Some(if c >= l { c } else { l }),
            (None, Some(l)) => Some(l),
            (c, None) => c,
        },
        max_id: match (cur.max_id, b.max_id) {
            (Some(c), Some(u)) => Some(if c <= u { c } else { u }),
            (None, Some(u)) => Some(u),
            (c, None) => c,
        },
    }
}

/// Bounds of a list of filters: every filter's bounds narrowed together;
/// `None` when any filter gives none.
pub open spec fn date_bounds_of_tokens(tokens: Seq<Seq<char>>) -> Option<MessageSearchDateBounds>
    decreases tokens.len(),
{
    if tokens.len() == 0 {
        Some(MessageSearchDateBounds { min_id: None, max_id: None })
    } else {
        match date_bounds_of_tokens(tokens.drop_last()) {
            None => None,
            Some(cur) => match token_bounds(tokens.last()) {
                None => None,
                Some(b) => Some(narrow_bounds(cur, b)),
            },
        }
    }
}

/// Bounds of a comma-separated date filter such as `gte:2024-01-01,lte:2024-02-01`.
pub open spec fn message_search_date_bounds(value: Seq<char>) -> Option<MessageSearchDateBounds> {
    date_bounds_of_tokens(split_on(value, ','))
}

proof fn lemma_bounds_prefix_none(tokens: Seq<Seq<char>>, i: int)
    requires
        0 <= i <= tokens.len(),
        date_bounds_of_tokens(tokens.take(i)) is None,
    ensures
        date_bounds_of_tokens(tokens) is None,
    decreases tokens.len() - i,
{
    if i < tokens.len() {
        assert(tokens.take(i + 1).drop_last() =~= tokens.take(i));
        lemma_bounds_prefix_none(tokens, i + 1);
    } else {
        assert(tokens.take(i) =~= tokens);
    }
}

/// `outer` bounds ids at least as tightly as `inner` does.
pub open spec fn bounds_within(outer: MessageSearchDateBounds, inner: MessageSearchDateBounds) -> bool {
    &&& (inner.min_id matches Some(l) ==> (outer.min_id matches Some(m) && m >= l))
    &&& (inner.max_id matches Some(u) ==> (outer.max_id matches Some(m) && m <= u))
}

proof fn lemma_tokens_within(tokens: Seq<Seq<char>>, k: int)
    requires
        date_bounds_of_tokens(tokens) is Some,
        0 <= k < tokens.len(),
    ensures
        token_bounds(tokens[k]) is Some,
        bounds_within(date_bounds_of_tokens(tokens)->0, token_bounds(tokens[k])->0),
    decreases tokens.len(),
{
    let init = tokens.drop_last();
    if k < tokens.len() - 1 {
        lemma_tokens_within(init, k);
        assert(init[k] == tokens[k]);
    }
}

proof fn lemma_tokens_some(tokens: Seq<Seq<char>>)
    requires
        forall|k: int| 0 <= k < tokens.len() ==> #[trigger] token_bounds(tokens[k]) is Some,
    ensures
        date_bounds_of_tokens(tokens) is Some,
    decreases tokens.len(),
{
    if tokens.len() > 0 {
        let init = tokens.drop_last();
        assert forall|k: int| 0 <= k < init.len() implies #[trigger] token_bounds(init[k]) is Some by {
            assert(init[k] == tokens[k]);
        }
        lemma_tokens_some(init);
        assert(token_bounds(tokens[tokens.len() - 1]) is Some);
    }
}

/// A date filter list has bounds exactly when each of its comma-separated
/// filters has, and then its bounds are at least as tight as each filter's.
pub proof fn lemma_date_bounds_intersect_filters(value: Seq<char>)
    ensures
        message_search_date_bounds(value) is Some <==> forall|k: int|
            0 <= k < split_on(value, ',').len() ==> #[trigger] token_bounds(split_on(value, ',')[k]) is Some,
        message_search_date_bounds(value) is Some ==> forall|k: int|
            0 <= k < split_on(value, ',').len() ==> bounds_within(
                message_search_date_bounds(value)->0,
                #[trigger] token_bounds(split_on(value, ',')[k])->0,
            ),
{
    let tokens = split_on(value, ',');
    if message_search_date_bounds(value) is Some {
        assert forall|k: int| 0 <= k < tokens.len() implies #[trigger] token_bounds(tokens[k]) is Some
            && bounds_within(date_bounds_of_tokens(tokens)->0, token_bounds(tokens[k])->0) by {
            lemma_tokens_within(tokens, k);
        }
    }
    if forall|k: int| 0 <= k < tokens.len() ==> #[trigger] token_bounds(tokens[k]) is Some {
        lemma_tokens_some(tokens);
    }
}

fn is_word(op: &Vec<char>, word: &str) -> (r: bool)
    ensures
        r == (op@ == word@),
{
    let r = range_eq_str(op, 0, op.len(), word);
    proof {
        assert(op@.subrange(0, op@.len() as int) =~= op@);
    }
    r
}

fn token_bounds_of(op: &Vec<char>, start: Option<i64>, next: Option<i64>) -> (r: Option<
    MessageSearchDateBounds,
>)
    ensures
        r == date_token_bounds(op@, start, next),
{
    proof {
        reveal_strlit("gte");
        reveal_strlit("lte");
        reveal_strlit("equal");
        assert("gte"@ =~= gte_word());
        assert("lte"@ =~= lte_word());
        assert("equal"@ =~= equal_word());
    }
    if is_word(op, "gte") {
        match start {
            Some(a) => Some(
                MessageSearchDateBounds {
                    min_id: Some(timestamp_millis_to_snowflake(a).saturating_sub(1)),
                    max_id: None,
                },
            ),
            None => None,
        }
    } else if is_word(op, "lte") {
        match next {
            Some(b) => Some(
                MessageSearchDateBounds { min_id: None, max_id: Some(timestamp_millis_to_snowflake(b)) },
            ),
            None => None,
        }
    } else if is_word(op, "equal") {
        match (start, next) {
            (Some(a), Some(b)) => Some(
                MessageSearchDateBounds {
                    min_id: Some(timestamp_millis_to_snowflake(a).saturating_sub(1)),
                    max_id: Some(timestamp_millis_to_snowflake(b)),
                },
            ),
            _ => None,
        }
    } else {
        None
    }
}

/// The bounds one date filter gives, from its operator and the UTC day-start
/// timestamps (in milliseconds) of its date and of the next day.
pub fn message_search_date_token_bounds(
    operator: &str,
    day_start_millis: Option<i64>,
    next_day_start_millis: Option<i64>,
) -> (r: Option<MessageSearchDateBounds>)
    ensures
        r == date_token_bounds(operator@, day_start_millis, next_day_start_millis),
{
    let op = chars_of(operator);
    token_bounds_of(&op, day_start_millis, next_day_start_millis)
}

/// Narrows `cur` by the bounds of one more filter.
pub fn narrow_date_bounds(cur: MessageSearchDateBounds, b: MessageSearchDateBounds) -> (r:
    MessageSearchDateBounds)
    ensures
        r == narrow_bounds(cur, b),
{
    let min_id = match b.min_id {
        Some(l) => match cur.min_id {
            Some(c) => Some(if c >= l { c } else { l }),
            None => Some(l),
        },
        None => cur.min_id,
    };
    let max_id = match b.max_id {
        Some(u) => match cur.max_id {
            Some(c) => Some(if c <= u { c } else { u }),
            None => Some(u),
        },
        None => cur.max_id,
    };
    MessageSearchDateBounds { min_id, max_id }
}

/// The snowflake bounds of a search date filter: comma-separated filters,
/// each `gte:DATE`, `lte:DATE`, `equal:DATE` or a bare `DATE` (meaning
/// `equal`), dates in `YYYY-MM-DD` form, read as UTC days.
pub fn message_search_date_snowflake_bounds(value: &str) -> (r: Option<MessageSearchDateBounds>)
    ensures
        r == message_search_date_bounds(value@),
{
    let chars = chars_of(value);
    let tokens = split_on_char(&chars, ',');
    let ghost ts = tokens@.map_values(|p: Vec<char>| p@);
    let mut bounds = MessageSearchDateBounds { min_id: None, max_id: None };
    let mut i: usize = 0;
    proof {
        assert(ts.take(0) =~= Seq::<Seq<char>>::empty());
    }
    while i < tokens.len()
        invariant
            i <= tokens.len(),
            ts == tokens@.map_values(|p: Vec<char>| p@),
            ts == split_on(value@, ','),
            date_bounds_of_tokens(ts.take(i as int)) == Some(bounds),
        decreases tokens.len() - i,
    {
        proof {
            assert(ts.take(i + 1).drop_last() =~= ts.take(i as int));
            assert(ts.take(i + 1).last() == tokens@[i as int]@);
        }
        let token = trim_chars(&tokens[i]);
        if token.len() == 0 {
            proof {
                assert(token_bounds(ts[i as int]) is None);
                assert(date_bounds_of_tokens(ts.take(i + 1)) is None);
                lemma_bounds_prefix_none(ts, i + 1);
            }
            return None;
        }
        let (op, date) = match split_colon(&token) {
            Some((a, b)) => (trim_chars(&a), trim_chars(&b)),
            None => {
                proof {
                    reveal_strlit("equal");
                    assert("equal"@ =~= equal_word());
                }
                (chars_of("equal"), token)
            },
        };
        proof {
            assert(date_token_parts(trim(ts[i as int])) == (op@, date@));
        }
        let date_text = string_of(&date);
        let start = day_start_millis(date_text.as_str());
        let next = next_day_start_millis(date_text.as_str());
        match token_bounds_of(&op, start, next) {
            Some(b) => {
                bounds = narrow_date_bounds(bounds, b);
            },
            None => {
                proof {
                    assert(token_bounds(ts[i as int]) is None);
                    assert(date_bounds_of_tokens(ts.take(i + 1)) is None);
                    lemma_bounds_prefix_none(ts, i + 1);
                }
                return None;
            },
        }
        i = i + 1;
    }
    proof {
        assert(ts.take(tokens.len() as int) =~= ts);
    }
    Some(bounds)
}

/// Whether a further page follows the one at `offset`: the next offset is
/// below the reported total and within the offsets the endpoint accepts.
pub open spec fn search_has_more(offset: int, total_results: Option<usize>) -> bool {
    let next = if offset + 25 > usize::MAX {
        usize::MAX as int
    } else {
        offset + 25
    };
    match total_results {
        Some(total) => next < total && next <= MESSAGE_SEARCH_MAX_OFFSET,
        None => false,
    }
}

/// Whether another search page follows the page at `offset`.
pub fn message_search_has_more(offset: usize, total_results: Option<usize>) -> (r: bool)
    ensures
        r == search_has_more(offset as int, total_results),
{
    let next_offset = offset.saturating_add(MESSAGE_SEARCH_PAGE_LIMIT as usize);
    match total_results {
        Some(total) => next_offset < total && next_offset <= MESSAGE_SEARCH_MAX_OFFSET,
        None => false,
    }
}

/// What a message search asks for.
pub struct MessageSearchQuery {
    pub guild_id: Option<Id<GuildMarker>>,
    pub channel_id: Option<Id<ChannelMarker>>,
    pub offset: usize,
    pub content: Option<String>,
    pub author_id: Option<Id<UserMarker>>,
    pub mentions_user_id: Option<Id<UserMarker>>,
    /// Query values of the `has` filters, such as `link` or `image`.
    pub has: Vec<String>,
    /// Query values of the `author_type` filters, such as `user` or `bot`.
    pub author_type: Vec<String>,
    pub pinned: Option<bool>,
    /// The date filter, as `message_search_date_snowflake_bounds` reads it.
    pub date: Option<String>,
}

/// Query parameters as key and value texts.
pub open spec fn params_view(params: Seq<(&'static str, String)>) -> Seq<(Seq<char>, Seq<char>)> {
    params.map_values(|p: (&'static str, String)| (p.0@, p.1@))
}

/// The snowflake of an optional id.
pub open spec fn id_value<M>(id: Option<Id<M>>) -> Option<u64> {
    match id {
        Some(i) => Some(i@),
        None => None,
    }
}

/// A `key=id` parameter when the id is there.
pub open spec fn id_param(key: Seq<char>, id: Option<u64>) -> Seq<(Seq<char>, Seq<char>)> {
    match id {
        Some(v) => seq![(key, decimal(v as nat))],
        None => seq![],
    }
}

/// The parameters of a search request: the page size, the offset (at most
/// the largest accepted), newest first, then each filter the query sets; the
/// content filter keeps its first 1024 characters and the channel filter goes
/// with a server search only.
pub open spec fn search_params(q: MessageSearchQuery) -> Seq<(Seq<char>, Seq<char>)> {
    let offset = if q.offset <= MESSAGE_SEARCH_MAX_OFFSET {
        q.offset
    } else {
        MESSAGE_SEARCH_MAX_OFFSET
    };
    seq![
        ("limit"@, decimal(25)),
        ("offset"@, decimal(offset as nat)),
        ("sort_by"@, "timestamp"@),
        ("sort_order"@, "desc"@),
    ] + match q.content {
        Some(c) => if c@.len() == 0 {
            seq![]
        } else if c@.len() <= 1024 {
            seq![("content"@, c@)]
        } else {
            seq![("content"@, c@.take(1024))]
        },
        None => seq![],
    } + (if q.guild_id is Some {
        id_param("channel_id"@, id_value(q.channel_id))
    } else {
        seq![]
    }) + id_param("author_id"@, id_value(q.author_id)) + id_param(
        "mentions"@,
        id_value(q.mentions_user_id),
    ) + q.has@.map_values(|h: String| ("has"@, h@)) + q.author_type@.map_values(
        |t: String| ("author_type"@, t@),
    ) + match q.pinned {
        Some(b) => seq![("pinned"@, if b { "true"@ } else { "false"@ })],
        None => seq![],
    } + match q.date {
        Some(d) => match message_search_date_bounds(d@) {
            Some(b) => id_param("min_id"@, b.min_id) + id_param("max_id"@, b.max_id),
            None => seq![],
        },
        None => seq![],
    }
}

fn push_param(params: &mut Vec<(&'static str, String)>, key: &'static str, value: String)
    ensures
        params_view(final(params)@) == params_view(old(params)@).push((key@, value@)),
{
    params.push((key, value));
    proof {
        assert(params_view(params@) =~= params_view(old(params)@).push((key@, value@)));
    }
}

fn push_id_param(params: &mut Vec<(&'static str, String)>, key: &'static str, id: Option<u64>)
    ensures
        params_view(final(params)@) == params_view(old(params)@) + id_param(key@, id),
{
    match id {
        Some(v) => {
            push_param(params, key, decimal_string(v));
            proof {
                assert(params_view(params@) =~= params_view(old(params)@) + id_param(key@, id));
            }
        },
        None => {
            proof {
                assert(params_view(params@) =~= params_view(old(params)@) + id_param(key@, id));
            }
        },
    }
}

fn push_values(params: &mut Vec<(&'static str, String)>, key: &'static str, values: &Vec<String>)
    ensures
        params_view(final(params)@) == params_view(old(params)@) + values@.map_values(
            |h: String| (key@, h@),
        ),
{
    let mut i: usize = 0;
    while i < values.len()
        invariant
            i <= values.len(),
            params_view(params@) == params_view(old(params)@) + values@.take(i as int).map_values(
                |h: String| (key@, h@),
            ),
        decreases values.len() - i,
    {
        let ghost before = params_view(params@);
        push_param(params, key, values[i].clone());
        proof {
            assert(values@.take(i + 1).map_values(|h: String| (key@, h@)) =~= values@.take(
                i as int,
            ).map_values(|h: String| (key@, h@)).push((key@, values@[i as int]@)));
            assert(params_view(params@) =~= params_view(old(params)@) + values@.take(
                i + 1,
            ).map_values(|h: String| (key@, h@)));
        }
        i = i + 1;
    }
    proof {
        assert(values@.take(values.len() as int) =~= values@);
    }
}

/// The query parameters of a message search request.
pub fn message_search_query_params(query: &MessageSearchQuery) -> (r: Vec<(&'static str, String)>)
    ensures
        params_view(r@) == search_params(*query),
{
    let mut params: Vec<(&'static str, String)> = Vec::new();
    let offset = if query.offset <= MESSAGE_SEARCH_MAX_OFFSET {
        query.offset
    } else {
        MESSAGE_SEARCH_MAX_OFFSET
    };
    push_param(&mut params, "limit", decimal_string(MESSAGE_SEARCH_PAGE_LIMIT as u64));
    push_param(&mut params, "offset", decimal_string(offset as u64));
    push_param(&mut params, "sort_by", "timestamp".to_string());
    push_param(&mut params, "sort_order", "desc".to_string());
    let ghost base = params_view(params@);
    proof {
        assert(base =~= seq![
            ("limit"@, decimal(25)),
            ("offset"@, decimal(offset as nat)),
            ("sort_by"@, "timestamp"@),
            ("sort_order"@, "desc"@),
        ]);
    }
    let ghost q = *query;
    let ghost content_part: Seq<(Seq<char>, Seq<char>)> = match q.content {
        Some(c) => if c@.len() == 0 {
            seq![]
        } else if c@.len() <= 1024 {
            seq![("content"@, c@)]
        } else {
            seq![("content"@, c@.take(1024))]
        },
        None => seq![],
    };
    match &query.content {
        Some(content) => {
            let chars = chars_of(content.as_str());
            if chars.len() > 0 {
                let end = if chars.len() <= 1024 {
                    chars.len()
                } else {
                    1024
                };
                push_param(&mut params, "content", string_of_range(&chars, 0, end));
                proof {
                    assert(chars@.subrange(0, end as int) =~= if chars@.len() <= 1024 {
                        chars@
                    } else {
                        chars@.take(1024)
                    });
                }
            }
        },
        None => {},
    }
    proof {
        assert(params_view(params@) =~= base + content_part);
    }
    let ghost after_content = params_view(params@);
    if query.guild_id.is_some() {
        let channel = match query.channel_id {
            Some(c) => Some(c.get()),
            None => None,
        };
        push_id_param(&mut params, "channel_id", channel);
    }
    proof {
        assert(params_view(params@) =~= after_content + (if q.guild_id is Some {
            id_param("channel_id"@, id_value(q.channel_id))
        } else {
            seq![]
        }));
    }
    let author = match query.author_id {
        Some(u) => Some(u.get()),
        None => None,
    };
    push_id_param(&mut params, "author_id", author);
    let mentions = match query.mentions_user_id {
        Some(u) => Some(u.get()),
        None => None,
    };
    push_id_param(&mut params, "mentions", mentions);
    push_values(&mut params, "has", &query.has);
    push_values(&mut params, "author_type", &query.author_type);
    let ghost after_lists = params_view(params@);
    match query.pinned {
        Some(b) => {
            push_param(&mut params, "pinned", if b { "true".to_string() } else { "false".to_string() });
        },
        None => {},
    }
    proof {
        assert(params_view(params@) =~= after_lists + match q.pinned {
            Some(b) => seq![("pinned"@, if b { "true"@ } else { "false"@ })],
            None => seq![],
        });
    }
    let ghost after_pinned = params_view(params@);
    match &query.date {
        Some(date) => match message_search_date_snowflake_bounds(date.as_str()) {
            Some(bounds) => {
                push_id_param(&mut params, "min_id", bounds.min_id);
                push_id_param(&mut params, "max_id", bounds.max_id);
            },
            None => {},
        },
        None => {},
    }
    proof {
        assert(params_view(params@) =~= after_pinned + match q.date {
            Some(d) => match message_search_date_bounds(d@) {
                Some(b) => id_param("min_id"@, b.min_id) + id_param("max_id"@, b.max_id),
                None => seq![],
            },
            None => seq![],
        });
        assert(params_view(params@) =~= search_params(q));
    }
    params
}

/// Where a search is sent: the server's search when a server is given,
/// else the channel's; an error when neither is.
pub fn message_search_endpoint(
    guild_id: Option<Id<GuildMarker>>,
    channel_id: Option<Id<ChannelMarker>>,
) -> (r: Result<String, AppError>)
    ensures
        match (guild_id, channel_id) {
            (Some(g), _) => r matches Ok(url) && url@ == "https://discord.com/api/v9/guilds/"@ + decimal(
                g@ as nat,
            ) + "/messages/search"@,
            (None, Some(c)) => r matches Ok(url) && url@ == "https://discord.com/api/v9/channels/"@
                + decimal(c@ as nat) + "/messages/search"@,
            (None, None) => r matches Err(AppError::DiscordRequest(m)) && m@
                == "message search requires a server or channel"@,
        },
{
    match guild_id {
        Some(g) => {
            let mut url = String::new();
            push_str(&mut url, "https://discord.com/api/v9/guilds/");
            push_decimal(&mut url, g.get());
            push_str(&mut url, "/messages/search");
            Ok(url)
        },
        None => match channel_id {
            Some(c) => {
                let mut url = String::new();
                push_str(&mut url, "https://discord.com/api/v9/channels/");
                push_decimal(&mut url, c.get());
                push_str(&mut url, "/messages/search");
                Ok(url)
            },
            None => Err(AppError::DiscordRequest("message search requires a server or channel".to_string())),
        },
    }
}

/// The message objects of a search response: the `messages` field holds
/// groups of messages; a group that is not an array holds none.
pub open spec fn group_messages(group: Json) -> Seq<Json> {
    match group {
        Json::Array(items) => items@,
        _ => Seq::empty(),
    }
}

/// The messages of the groups, one group after another.
pub open spec fn flat_messages(groups: Seq<Json>) -> Seq<Json>
    decreases groups.len(),
{
    if groups.len() == 0 {
        Seq::empty()
    } else {
        flat_messages(groups.drop_last()) + group_messages(groups.last())
    }
}

/// The message objects a search response lists, in order.
pub open spec fn search_message_objects(raw: Json) -> Seq<Json> {
    match json_get(raw, "messages"@) {
        Some(Json::Array(groups)) => flat_messages(groups@),
        _ => Seq::empty(),
    }
}

proof fn lemma_flat_prefix(groups: Seq<Json>, i: int, n: int)
    requires
        0 <= i <= n <= groups.len(),
    ensures
        flat_messages(groups.take(i)).len() <= flat_messages(groups.take(n)).len(),
        flat_messages(groups.take(n)).take(flat_messages(groups.take(i)).len() as int) == flat_messages(
            groups.take(i),
        ),
    decreases n - i,
{
    if i < n {
        lemma_flat_prefix(groups, i, n - 1);
        assert(groups.take(n).drop_last() =~= groups.take(n - 1));
        let a = flat_messages(groups.take(i));
        let b = flat_messages(groups.take(n - 1));
        let c = flat_messages(groups.take(n));
        assert(c == b + group_messages(groups.take(n).last()));
        assert(c.take(a.len() as int) =~= b.take(a.len() as int));
    } else {
        assert(flat_messages(groups.take(n)).take(flat_messages(groups.take(n)).len() as int)
            =~= flat_messages(groups.take(n)));
    }
}

/// Reads the messages of a search response; fails when one of them lacks
/// what a message needs.
pub fn parse_message_search_messages(raw: &Json) -> (r: Result<Vec<MessageInfo>, AppError>)
    ensures
        r is Ok <==> forall|k: int|
            0 <= k < search_message_objects(*raw).len() ==> message_reads(
                #[trigger] search_message_objects(*raw)[k],
            ),
        r matches Ok(v) ==> v@.len() == search_message_objects(*raw).len() && forall|k: int|
            0 <= k < v@.len() ==> message_info_matches(
                #[trigger] v@[k],
                search_message_objects(*raw)[k],
            ),
        r matches Err(AppError::DiscordRequest(m)) ==> m@
            == "search message response was missing required fields"@,
        r matches Err(e) ==> e is DiscordRequest,
{
    let groups = match json_get_field(raw, "messages") {
        Some(Json::Array(groups)) => groups,
        _ => return Ok(Vec::new()),
    };
    let ghost gs = groups@;
    let mut messages: Vec<MessageInfo> = Vec::new();
    let mut i: usize = 0;
    proof {
        assert(gs.take(0) =~= Seq::<Json>::empty());
    }
    while i < groups.len()
        invariant
            i <= gs.len(),
            gs == groups@,
            search_message_objects(*raw) == flat_messages(gs),
            messages@.len() == flat_messages(gs.take(i as int)).len(),
            forall|k: int|
                0 <= k < messages@.len() ==> message_info_matches(
                    #[trigger] messages@[k],
                    flat_messages(gs.take(i as int))[k],
                ),
            forall|k: int|
                0 <= k < messages@.len() ==> message_reads(
                    #[trigger] flat_messages(gs.take(i as int))[k],
                ),
        decreases gs.len() - i,
    {
        proof {
            assert(gs.take(i + 1).drop_last() =~= gs.take(i as int));
            assert(gs.take(i + 1).last() == gs[i as int]);
        }
        let ghost before = flat_messages(gs.take(i as int));
        let ghost after = flat_messages(gs.take(i + 1));
        match &groups[i] {
            Json::Array(items) => {
                let mut j: usize = 0;
                while j < items.len()
                    invariant
                        j <= items@.len(),
                        i < gs.len(),
                        gs == groups@,
                        search_message_objects(*raw) == flat_messages(gs),
                        gs[i as int] == Json::Array(*items),
                        after == before + items@,
                        before == flat_messages(gs.take(i as int)),
                        after == flat_messages(gs.take(i + 1)),
                        messages@.len() == before.len() + j,
                        forall|k: int|
                            0 <= k < messages@.len() ==> message_info_matches(
                                #[trigger] messages@[k],
                                after[k],
                            ),
                        forall|k: int| 0 <= k < messages@.len() ==> message_reads(#[trigger] after[k]),
                    decreases items@.len() - j,
                {
                    match parse_message_info(&items[j]) {
                        Some(m) => {
                            messages.push(m);
                        },
                        None => {
                            proof {
                                let p = before.len() + j;
                                assert(after[p] == items@[j as int]);
                                lemma_flat_prefix(gs, i + 1, gs.len() as int);
                                assert(gs.take(gs.len() as int) =~= gs);
                                assert(flat_messages(gs)[p] == after[p]);
                                assert(!message_reads(search_message_objects(*raw)[p]));
                            }
                            return Err(
                                AppError::DiscordRequest(
                                    "search message response was missing required fields".to_string(),
                                ),
                            );
                        },
                    }
                    j = j + 1;
                }
            },
            _ => {},
        }
        i = i + 1;
    }
    proof {
        assert(gs.take(gs.len() as int) =~= gs);
    }
    Ok(messages)
}

/// One page of message search results.
pub struct MessageSearchPage {
    pub query: MessageSearchQuery,
    pub messages: Vec<MessageInfo>,
    pub total_results: Option<usize>,
    pub has_more: bool,
}

/// The reported total, saturated to `usize`.
pub open spec fn total_results_of(raw: Json) -> Option<usize> {
    match json_as_u64(json_get(raw, "total_results"@)) {
        Some(t) => Some(
            if t <= usize::MAX {
                t as usize
            } else {
                usize::MAX
            },
        ),
        None => None,
    }
}

/// The page a successful search response gives for `query`: its messages,
/// the reported total, and whether a further page follows.
pub fn message_search_page(query: MessageSearchQuery, raw: &Json) -> (r: Result<MessageSearchPage, AppError>)
    ensures
        r is Ok <==> forall|k: int|
            0 <= k < search_message_objects(*raw).len() ==> message_reads(
                #[trigger] search_message_objects(*raw)[k],
            ),
        r matches Ok(page) ==> {
            &&& page.query == query
            &&& page.total_results == total_results_of(*raw)
            &&& page.has_more == search_has_more(query.offset as int, total_results_of(*raw))
            &&& page.messages@.len() == search_message_objects(*raw).len()
            &&& forall|k: int|
                0 <= k < page.messages@.len() ==> message_info_matches(
                    #[trigger] page.messages@[k],
                    search_message_objects(*raw)[k],
                )
        },
        r matches Err(AppError::DiscordRequest(m)) ==> m@
            == "search message response was missing required fields"@,
        r matches Err(e) ==> e is DiscordRequest,
{
    let total_results = match json_get_field(raw, "total_results") {
        Some(Json::Number(JsonNumber::PosInt(t))) => Some(
            if *t <= usize::MAX as u64 {
                *t as usize
            } else {
                usize::MAX
            },
        ),
        _ => None,
    };
    let messages = match parse_message_search_messages(raw) {
        Ok(messages) => messages,
        Err(e) => return Err(e),
    };
    let has_more = message_search_has_more(query.offset, total_results);
    Ok(MessageSearchPage { query, messages, total_results, has_more })
}

/// A search that asks for nothing: no text (or an empty one), no author,
/// no mention, no `has` or `author_type` filter, no pinned filter and no
/// date filter. Paging and the server or channel searched do not count.
pub open spec fn query_is_empty(q: MessageSearchQuery) -> bool {
    &&& match q.content {
        Some(c) => c@.len() == 0,
        None => true,
    }
    &&& q.author_id is None
    &&& q.mentions_user_id is None
    &&& q.has@.len() == 0
    &&& q.author_type@.len() == 0
    &&& q.pinned is None
    &&& q.date is None
}

impl MessageSearchQuery {
    /// Whether the search asks for nothing; such a search is answered with
    /// an empty page without a request.
    pub fn is_empty(&self) -> (r: bool)
        ensures
            r == query_is_empty(*self),
    {
        let no_content = match &self.content {
            Some(c) => c.as_str().is_empty(),
            None => true,
        };
        no_content && self.author_id.is_none() && self.mentions_user_id.is_none() && self.has.len() == 0
            && self.author_type.len() == 0 && self.pinned.is_none() && self.date.is_none()
    }
}

/// The page an empty search is answered with, without a request: no
/// messages, a total of zero, nothing more.
pub fn empty_message_search_page(query: MessageSearchQuery) -> (r: MessageSearchPage)
    ensures
        r.query == query,
        r.messages@.len() == 0,
        r.total_results == Some(0usize),
        !r.has_more,
{
    MessageSearchPage { query, messages: Vec::new(), total_results: Some(0), has_more: false }
}

} // verus!
