//! Presence status and activity descriptions.
use crate::ids::Id;
use crate::marker::EmojiMarker;
use crate::text::{push_decimal, push_str};
use vstd::prelude::*;

verus! {

#[derive(Clone, Copy, Debug, PartialEq, Eq, Ord, PartialOrd, Hash)]
pub enum PresenceStatus {
    Online,
    Idle,
    DoNotDisturb,
    Offline,
    Unknown,
}

pub open spec fn presence_label(status: PresenceStatus) -> Seq<char> {
    match status {
        PresenceStatus::Online => "Online"@,
        PresenceStatus::Idle => "Idle"@,
        PresenceStatus::DoNotDisturb => "Do Not Disturb"@,
        PresenceStatus::Offline => "Offline"@,
        PresenceStatus::Unknown => "Unknown"@,
    }
}

/// The status word the gateway and the settings store use for a status.
pub open spec fn presence_gateway_status(status: PresenceStatus) -> Seq<char> {
    match status {
        PresenceStatus::Online => "online"@,
        PresenceStatus::Idle => "idle"@,
        PresenceStatus::DoNotDisturb => "dnd"@,
        PresenceStatus::Offline => "invisible"@,
        PresenceStatus::Unknown => "online"@,
    }
}

/// How a status word received from Discord is read.
pub open spec fn status_from_word(value: Seq<char>) -> PresenceStatus {
    if value == "online"@ {
        PresenceStatus::Online
    } else if value == "idle"@ {
        PresenceStatus::Idle
    } else if value == "dnd"@ {
        PresenceStatus::DoNotDisturb
    } else if value == "offline"@ || value == "invisible"@ {
        PresenceStatus::Offline
    } else {
        PresenceStatus::Unknown
    }
}

impl PresenceStatus {
    pub fn label(self) -> (r: &'static str)
        ensures
            r@ == presence_label(self),
    {
        match self {
            PresenceStatus::Online => "Online",
            PresenceStatus::Idle => "Idle",
            PresenceStatus::DoNotDisturb => "Do Not Disturb",
            PresenceStatus::Offline => "Offline",
            PresenceStatus::Unknown => "Unknown",
        }
    }

    pub fn gateway_status(self) -> (r: &'static str)
        ensures
            r@ == presence_gateway_status(self),
    {
        match self {
            PresenceStatus::Online => "online",
            PresenceStatus::Idle => "idle",
            PresenceStatus::DoNotDisturb => "dnd",
            PresenceStatus::Offline => "invisible",
            PresenceStatus::Unknown => "online",
        }
    }

    /// The statuses a user can pick for themselves.
    pub fn user_selectable() -> (r: [PresenceStatus; 4])
        ensures
            r@ == seq![
                PresenceStatus::Online,
                PresenceStatus::Idle,
                PresenceStatus::DoNotDisturb,
                PresenceStatus::Offline,
            ],
    {
        let r = [
            PresenceStatus::Online,
            PresenceStatus::Idle,
            PresenceStatus::DoNotDisturb,
            PresenceStatus::Offline,
        ];
        proof {
            assert(r@ =~= seq![
                PresenceStatus::Online,
                PresenceStatus::Idle,
                PresenceStatus::DoNotDisturb,
                PresenceStatus::Offline,
            ]);
        }
        r
    }
}

/// Reads a status word received from Discord.
pub fn parse_status(value: &str) -> (r: PresenceStatus)
    ensures
        r == status_from_word(value@),
{
    let chars = crate::text::chars_of(value);
    let n = chars.len();
    if crate::text::range_eq_str(&chars, 0, n, "online") {
        proof { assert(chars@.subrange(0, n as int) =~= value@); }
        PresenceStatus::Online
    } else if crate::text::range_eq_str(&chars, 0, n, "idle") {
        proof { assert(chars@.subrange(0, n as int) =~= value@); }
        PresenceStatus::Idle
    } else if crate::text::range_eq_str(&chars, 0, n, "dnd") {
        proof { assert(chars@.subrange(0, n as int) =~= value@); }
        PresenceStatus::DoNotDisturb
    } else if crate::text::range_eq_str(&chars, 0, n, "offline") || crate::text::range_eq_str(
        &chars,
        0,
        n,
        "invisible",
    ) {
        proof { assert(chars@.subrange(0, n as int) =~= value@); }
        PresenceStatus::Offline
    } else {
        proof { assert(chars@.subrange(0, n as int) =~= value@); }
        PresenceStatus::Unknown
    }
}

/// Reading back the status word of a status a user can select gives that status.
pub proof fn lemma_selectable_status_round_trip(status: PresenceStatus)
    requires
        status != PresenceStatus::Unknown,
    ensures
        status_from_word(presence_gateway_status(status)) == status,
{
    reveal_strlit("online");
    reveal_strlit("idle");
    reveal_strlit("dnd");
    reveal_strlit("offline");
    reveal_strlit("invisible");
    let w = presence_gateway_status(status);
    match status {
        PresenceStatus::Online => {},
        PresenceStatus::Idle => {
            assert(w.len() != "online"@.len());
        },
        PresenceStatus::DoNotDisturb => {
            assert(w.len() != "online"@.len());
            assert(w.len() != "idle"@.len());
        },
        PresenceStatus::Offline => {
            assert(w.len() != "online"@.len());
            assert(w.len() != "idle"@.len());
            assert(w.len() != "dnd"@.len());
            assert(w.len() != "offline"@.len());
        },
        PresenceStatus::Unknown => {},
    }
}

#[derive(Clone, Copy, Debug, PartialEq, Eq, Ord, PartialOrd, Hash)]
pub enum ActivityKind {
    Playing,
    Streaming,
    Listening,
    Watching,
    Custom,
    Competing,
    Unknown,
}

/// The activity kind a gateway activity `type` code denotes.
pub open spec fn activity_kind_of(code: u64) -> ActivityKind {
    if code == 0 {
        ActivityKind::Playing
    } else if code == 1 {
        ActivityKind::Streaming
    } else if code == 2 {
        ActivityKind::Listening
    } else if code == 3 {
        ActivityKind::Watching
    } else if code == 4 {
        ActivityKind::Custom
    } else if code == 5 {
        ActivityKind::Competing
    } else {
        ActivityKind::Unknown
    }
}

/// The gateway activity `type` code sent for a kind.
pub open spec fn activity_code_of(kind: ActivityKind) -> u8 {
    match kind {
        ActivityKind::Playing => 0,
        ActivityKind::Streaming => 1,
        ActivityKind::Listening => 2,
        ActivityKind::Watching => 3,
        ActivityKind::Custom => 4,
        ActivityKind::Competing => 5,
        ActivityKind::Unknown => 0,
    }
}

impl ActivityKind {
    pub fn from_code(code: u64) -> (r: ActivityKind)
        ensures
            r == activity_kind_of(code),
    {
        match code {
            0 => ActivityKind::Playing,
            1 => ActivityKind::Streaming,
            2 => ActivityKind::Listening,
            3 => ActivityKind::Watching,
            4 => ActivityKind::Custom,
            5 => ActivityKind::Competing,
            _ => ActivityKind::Unknown,
        }
    }

    pub fn gateway_code(self) -> (r: u8)
        ensures
            r == activity_code_of(self),
    {
        match self {
            ActivityKind::Playing => 0,
            ActivityKind::Streaming => 1,
            ActivityKind::Listening => 2,
            ActivityKind::Watching => 3,
            ActivityKind::Custom => 4,
            ActivityKind::Competing => 5,
            ActivityKind::Unknown => 0,
        }
    }
}

/// Sending a known activity kind and reading the code back gives the same kind.
pub proof fn lemma_activity_code_round_trip(kind: ActivityKind)
    requires
        kind != ActivityKind::Unknown,
    ensures
        activity_kind_of(activity_code_of(kind) as u64) == kind,
{
}

#[derive(Clone, Debug, PartialEq, Eq)]
pub struct ActivityEmoji {
    pub name: String,
    pub id: Option<Id<EmojiMarker>>,
    pub animated: bool,
}

/// CDN address of a custom emoji image.
pub open spec fn emoji_image_url(id: u64, animated: bool) -> Seq<char> {
    "https://cdn.discordapp.com/emojis/"@ + crate::text::decimal(id as nat) + "."@ + (if animated {
        "gif"@
    } else {
        "png"@
    })
}

/// Builds the CDN address of a custom emoji image.
pub fn emoji_image_url_string(id: u64, animated: bool) -> (r: String)
    ensures
        r@ == emoji_image_url(id, animated),
{
    let mut out = String::new();
    push_str(&mut out, "https://cdn.discordapp.com/emojis/");
    push_decimal(&mut out, id);
    push_str(&mut out, ".");
    if animated {
        push_str(&mut out, "gif");
    } else {
        push_str(&mut out, "png");
    }
    out
}

impl ActivityEmoji {
    /// CDN URL for the emoji image when this is a custom emoji (it carries an
    /// id); `None` for unicode emoji, which render as text.
    pub fn image_url(&self) -> (r: Option<String>)
        ensures
            self.id is None ==> r is None,
            self.id matches Some(id) ==> (r matches Some(url) && url@ == emoji_image_url(
                id@,
                self.animated,
            )),
    {
        match self.id {
            None => None,
            Some(id) => Some(emoji_image_url_string(id.get(), self.animated)),
        }
    }
}

#[derive(Clone, Debug, PartialEq, Eq)]
pub struct ActivityInfo {
    pub kind: ActivityKind,
    pub name: String,
    pub details: Option<String>,
    pub state: Option<String>,
    pub url: Option<String>,
    pub application_id: Option<String>,
    pub emoji: Option<ActivityEmoji>,
}

impl ActivityInfo {
    /// A "Playing <name>" activity with nothing else set.
    pub fn playing(name: &str) -> (r: ActivityInfo)
        ensures
            r.kind == ActivityKind::Playing,
            r.name@ == name@,
            r.details is None,
            r.state is None,
            r.url is None,
            r.application_id is None,
            r.emoji is None,
    {
        ActivityInfo {
            kind: ActivityKind::Playing,
            name: String::from_str(name),
            details: None,
            state: None,
            url: None,
            application_id: None,
            emoji: None,
        }
    }

    /// An activity of the given kind and name with nothing else set.
    pub fn test(kind: ActivityKind, name: &str) -> (r: ActivityInfo)
        ensures
            r.kind == kind,
            r.name@ == name@,
            r.details is None,
            r.state is None,
            r.url is None,
            r.application_id is None,
            r.emoji is None,
    {
        ActivityInfo {
            kind,
            name: String::from_str(name),
            details: None,
            state: None,
            url: None,
            application_id: None,
            emoji: None,
        }
    }
}

} // verus!
