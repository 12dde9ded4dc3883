//! Guild member search as the mention autocomplete issues it over the gateway.
use crate::ids::Id;
use crate::marker::{GuildMarker, UserMarker};
use crate::text::{decimal, push_decimal, push_str, trim, trim_chars};
use std::hash::{Hash, Hasher};
use vstd::prelude::*;

verus! {

pub const MEMBER_SEARCH_MIN_QUERY_CHARS: usize = 2;

pub const MEMBER_SEARCH_MAX_QUERY_CHARS: usize = 64;

pub const MEMBER_SEARCH_MAX_LIMIT: u16 = 10;

/// The characters `char::to_lowercase` yields for `c` (Unicode lowercase
/// mapping; one character may lower to several).
pub uninterp spec fn lowercase_of(c: char) -> Seq<char>;

/// ASCII lower-casing: `A` to `Z` become `a` to `z`, 32 code points higher;
/// every other character stays.
pub open spec fn ascii_lowercase(c: char) -> char {
    if 'A' <= c && c <= 'Z' {
        ((c as u32) + 32) as char
    } else {
        c
    }
}

/// The characters a character lowers to: its ASCII lower case for an
/// ASCII character, its Unicode lowercase mapping otherwise.
pub open spec fn lowered_char(c: char) -> Seq<char> {
    if (c as u32) < 128 {
        seq![ascii_lowercase(c)]
    } else {
        lowercase_of(c)
    }
}

/// The characters of `char::to_lowercase(c)`: the Unicode lowercase
/// mapping, which for an ASCII character is its single ASCII lower case
/// (only `A` to `Z` have a lowercase mapping there; every other character
/// maps to itself).
#[verifier::external_body]
fn char_to_lowercase(c: char) -> (r: Vec<char>)
    ensures
        r@ == lowercase_of(c),
        (c as u32) < 128 ==> r@ == seq![ascii_lowercase(c)],
{
    c.to_lowercase().collect()
}

/// Every character of `s` lowered, in order (`char::to_lowercase` of each).
pub open spec fn lowercase_all(s: Seq<char>) -> Seq<char>
    decreases s.len(),
{
    if s.len() == 0 {
        seq![]
    } else {
        lowercase_all(s.drop_last()) + lowered_char(s.last())
    }
}

/// The query sent for a typed search: trimmed, lowered, cut to the first
/// 64 characters; none when fewer than 2 characters remain.
pub open spec fn normalized_query(query: Seq<char>) -> Option<Seq<char>> {
    let lowered = lowercase_all(trim(query));
    let cut = if lowered.len() > MEMBER_SEARCH_MAX_QUERY_CHARS {
        lowered.take(MEMBER_SEARCH_MAX_QUERY_CHARS as int)
    } else {
        lowered
    };
    if cut.len() >= MEMBER_SEARCH_MIN_QUERY_CHARS {
        Some(cut)
    } else {
        None
    }
}

proof fn lemma_lowercase_prefix(s: Seq<char>, i: int)
    requires
        0 <= i < s.len(),
    ensures
        lowercase_all(s.take(i + 1)) == lowercase_all(s.take(i)) + lowered_char(s[i]),
{
    assert(s.take(i + 1).drop_last() =~= s.take(i));
}

proof fn lemma_lowercase_grows(s: Seq<char>, i: int, j: int)
    requires
        0 <= i <= j <= s.len(),
    ensures
        lowercase_all(s.take(i)).len() <= lowercase_all(s.take(j)).len(),
        lowercase_all(s.take(j)).take(lowercase_all(s.take(i)).len() as int) == lowercase_all(
            s.take(i),
        ),
    decreases j - i,
{
    if i < j {
        lemma_lowercase_grows(s, i, j - 1);
        lemma_lowercase_prefix(s, j - 1);
        let a = lowercase_all(s.take(i));
        let b = lowercase_all(s.take(j - 1));
        let c = lowercase_all(s.take(j));
        assert(c =~= b + lowered_char(s[j - 1]));
        assert(c.take(a.len() as int) =~= b.take(a.len() as int));
    }
}

pub fn normalize_member_search_query(query: &str) -> (r: Option<String>)
    ensures
        r is None <==> normalized_query(query@) is None,
        r matches Some(q) ==> normalized_query(query@) == Some(q@),
{
    let chars = crate::text::chars_of(query);
    let trimmed = trim_chars(&chars);
    let ghost t = trimmed@;
    let mut normalized: Vec<char> = Vec::new();
    let mut i: usize = 0;
    proof {
        assert(t.take(0) =~= Seq::<char>::empty());
    }
    while i < trimmed.len()
        invariant
            i <= trimmed.len(),
            t == trimmed@,
            t == trim(query@),
            normalized@ == lowercase_all(t.take(i as int)),
            normalized@.len() <= MEMBER_SEARCH_MAX_QUERY_CHARS,
        decreases trimmed.len() - i,
    {
        let lowered = char_to_lowercase(trimmed[i]);
        let ghost before = normalized@;
        let mut j: usize = 0;
        while j < lowered.len()
            invariant
                j <= lowered.len(),
                normalized@ == before + lowered@.take(j as int),
                before == lowercase_all(t.take(i as int)),
                t == trim(query@),
                i < t.len(),
                lowered@ == lowered_char(t[i as int]),
                normalized@.len() <= MEMBER_SEARCH_MAX_QUERY_CHARS,
            decreases lowered.len() - j,
        {
            if normalized.len() >= MEMBER_SEARCH_MAX_QUERY_CHARS {
                proof {
                    lemma_lowercase_prefix(t, i as int);
                    lemma_lowercase_grows(t, i + 1, t.len() as int);
                    assert(t.take(t.len() as int) =~= t);
                    let all = lowercase_all(t);
                    let upto = lowercase_all(t.take(i + 1));
                    assert(upto =~= before + lowered@);
                    assert(normalized@.len() == 64);
                    assert(upto.len() > 64);
                    assert(normalized@ =~= upto.take(64));
                    assert(all.len() >= upto.len());
                    assert(all.take(64) =~= all.take(upto.len() as int).take(64));
                    assert(all.take(64) =~= upto.take(64));
                    assert(lowercase_all(trim(query@)) == all);
                    assert(all.len() > MEMBER_SEARCH_MAX_QUERY_CHARS);
                    assert(all.take(MEMBER_SEARCH_MAX_QUERY_CHARS as int) == normalized@);
                    assert(normalized_query(query@) == Some(normalized@));
                }
                if normalized.len() >= MEMBER_SEARCH_MIN_QUERY_CHARS {
                    return Some(crate::text::string_of(&normalized));
                } else {
                    return None;
                }
            }
            normalized.push(lowered[j]);
            j = j + 1;
            proof {
                assert(lowered@.take(j as int) =~= lowered@.take(j - 1).push(lowered@[j - 1]));
            }
        }
        proof {
            assert(lowered@.take(j as int) =~= lowered@);
            lemma_lowercase_prefix(t, i as int);
        }
        i = i + 1;
    }
    proof {
        assert(t.take(i as int) =~= t);
    }
    if normalized.len() >= MEMBER_SEARCH_MIN_QUERY_CHARS {
        Some(crate::text::string_of(&normalized))
    } else {
        None
    }
}

/// Lower-case hexadecimal digit.
pub open spec fn hex_char(d: u64) -> char {
    if d < 10 {
        ((d + 48) as u32) as char
    } else {
        ((d + 87) as u32) as char
    }
}

/// `{:016x}`: sixteen lower-case hex digits, most significant first.
pub open spec fn hex16(v: u64) -> Seq<char> {
    Seq::new(16, |i: int| hex_char((v >> ((4 * (15 - i)) as u64)) & 0xf))
}

fn hex_digit(d: u64) -> (r: char)
    requires
        d < 16,
    ensures
        r == hex_char(d),
{
    if d < 10 {
        crate::text::digit_of(d)
    } else {
        match d {
            10 => 'a',
            11 => 'b',
            12 => 'c',
            13 => 'd',
            14 => 'e',
            _ => 'f',
        }
    }
}

/// The nonce a member search carries, so its answer can be matched to it.
pub open spec fn member_search_nonce_text(guild_id: u64, hash: u64) -> Seq<char> {
    "mention-ac-"@ + decimal(guild_id as nat) + "-"@ + hex16(hash)
}

pub fn member_search_nonce(guild_id: Id<GuildMarker>, hash: u64) -> (r: String)
    ensures
        r@ == member_search_nonce_text(guild_id@, hash),
{
    let mut out = String::new();
    push_str(&mut out, "mention-ac-");
    push_decimal(&mut out, guild_id.get());
    push_str(&mut out, "-");
    let ghost base = out@;
    let mut i: u64 = 0;
    while i < 16
        invariant
            i <= 16,
            out@ == base + hex16(hash).take(i as int),
        decreases 16 - i,
    {
        let shift = 4 * (15 - i);
        let d = (hash >> shift) & 0xf;
        assert(d < 16) by (bit_vector)
            requires
                d == (hash >> shift) & 0xfu64,
        ;
        out.push(hex_digit(d));
        i = i + 1;
        proof {
            assert(hex16(hash).take(i as int) =~= hex16(hash).take(i - 1).push(hex_char(d)));
        }
    }
    proof {
        assert(hex16(hash).take(16) =~= hex16(hash));
    }
    out
}

/// What the standard library's `DefaultHasher`, made with
/// `DefaultHasher::new` (whose keys are fixed, not drawn per process), gives
/// for the text once `str::hash` has been fed to it.
pub uninterp spec fn default_hash(text: Seq<char>) -> u64;

/// Hashes the normalized query with the standard library's default hasher.
/// The contract only names the result.
#[verifier::external_body]
fn query_hash(query: &str) -> (r: u64)
    ensures
        r == default_hash(query@),
{
    let mut hasher = std::collections::hash_map::DefaultHasher::new();
    query.hash(&mut hasher);
    hasher.finish()
}

/// A gateway request for guild members matching a query.
pub struct MemberSearchRequest {
    pub guild_id: Id<GuildMarker>,
    pub query: String,
    pub limit: u16,
    /// Presences of the members found are asked for too.
    pub presences: bool,
    pub nonce: String,
}

/// The member search a typed query issues: none for a query too short after
/// normalizing; otherwise the normalized query, the limit capped at 10, and a
/// nonce naming the guild and a hash of the query.
pub fn member_search_request(guild_id: Id<GuildMarker>, query: &str, limit: u16) -> (r: Option<
    MemberSearchRequest,
>)
    ensures
        r is None <==> normalized_query(query@) is None,
        r matches Some(req) ==> {
            &&& req.guild_id == guild_id
            &&& Some(req.query@) == normalized_query(query@)
            &&& req.limit == if limit < MEMBER_SEARCH_MAX_LIMIT {
                limit
            } else {
                MEMBER_SEARCH_MAX_LIMIT
            }
            &&& req.presences
            &&& req.nonce@ == member_search_nonce_text(guild_id@, default_hash(req.query@))
        },
{
    let query = match normalize_member_search_query(query) {
        Some(q) => q,
        None => return None,
    };
    let limit = if limit < MEMBER_SEARCH_MAX_LIMIT {
        limit
    } else {
        MEMBER_SEARCH_MAX_LIMIT
    };
    let h = query_hash(query.as_str());
    let nonce = member_search_nonce(guild_id, h);
    Some(MemberSearchRequest { guild_id, query, limit, presences: true, nonce })
}

/// A gateway request for the guild members with the given ids.
pub struct MemberIdsRequest {
    pub guild_id: Id<GuildMarker>,
    pub user_ids: Vec<Id<UserMarker>>,
    pub presences: bool,
}

/// The request for guild members by id: none when no id is asked for;
/// otherwise the ids as given, without presences.
pub fn guild_members_by_ids_request(guild_id: Id<GuildMarker>, user_ids: Vec<Id<UserMarker>>) -> (r:
    Option<MemberIdsRequest>)
    ensures
        r is None <==> user_ids@.len() == 0,
        r matches Some(req) ==> req.guild_id == guild_id && req.user_ids@ == user_ids@ && !req.presences,
{
    if user_ids.len() == 0 {
        return None;
    }
    Some(MemberIdsRequest { guild_id, user_ids, presences: false })
}

} // verus!
