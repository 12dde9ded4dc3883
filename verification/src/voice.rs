//! Voice connection records: which server a voice state or voice server
//! event belongs to, and the connection's reported status.
use crate::ids::Id;
use crate::marker::{ChannelMarker, GuildMarker, RoleMarker, UserMarker};
use crate::text::{decimal, decimal_string, push_decimal, push_str};
use vstd::prelude::*;

verus! {

/// A guild member as carried in voice state events.
#[derive(Clone, Debug, PartialEq, Eq)]
pub struct MemberInfo {
    pub user_id: Id<UserMarker>,
    pub display_name: String,
    pub username: Option<String>,
    pub is_bot: bool,
    pub avatar_url: Option<String>,
    pub role_ids: Vec<Id<RoleMarker>>,
}

/// The voice server a connection belongs to. Guild voice is keyed by the
/// guild; DM and group-DM calls have no guild, so they are keyed by the DM
/// channel.
#[derive(Clone, Copy, Debug, PartialEq, Eq, Ord, PartialOrd, Hash)]
pub enum VoiceScope {
    Guild(Id<GuildMarker>),
    Private(Id<ChannelMarker>),
}

/// The scope named by a `(guild_id, channel_id)` pair: a guild wins; a private
/// call is keyed by its channel; neither (a DM leave) names no scope.
pub open spec fn scope_of(
    guild_id: Option<Id<GuildMarker>>,
    channel_id: Option<Id<ChannelMarker>>,
) -> Option<VoiceScope> {
    match (guild_id, channel_id) {
        (Some(guild_id), _) => Some(VoiceScope::Guild(guild_id)),
        (None, Some(channel_id)) => Some(VoiceScope::Private(channel_id)),
        (None, None) => None,
    }
}

impl VoiceScope {
    pub fn guild_id(self) -> (r: Option<Id<GuildMarker>>)
        ensures
            r == (match self {
                VoiceScope::Guild(g) => Some(g),
                VoiceScope::Private(_) => None,
            }),
    {
        match self {
            VoiceScope::Guild(guild_id) => Some(guild_id),
            VoiceScope::Private(_) => None,
        }
    }

    pub fn private_channel_id(self) -> (r: Option<Id<ChannelMarker>>)
        ensures
            r == (match self {
                VoiceScope::Private(c) => Some(c),
                VoiceScope::Guild(_) => None,
            }),
    {
        match self {
            VoiceScope::Private(channel_id) => Some(channel_id),
            VoiceScope::Guild(_) => None,
        }
    }

    /// The voice IDENTIFY `server_id`: the guild id for guild voice, the DM
    /// channel id for a private call, in decimal.
    pub fn server_id_string(self) -> (r: String)
        ensures
            r@ == decimal(
                (match self {
                    VoiceScope::Guild(g) => g@,
                    VoiceScope::Private(c) => c@,
                }) as nat,
            ),
    {
        match self {
            VoiceScope::Guild(guild_id) => decimal_string(guild_id.get()),
            VoiceScope::Private(channel_id) => decimal_string(channel_id.get()),
        }
    }

    fn from_ids(guild_id: Option<Id<GuildMarker>>, channel_id: Option<Id<ChannelMarker>>) -> (r:
        Option<VoiceScope>)
        ensures
            r == scope_of(guild_id, channel_id),
    {
        match (guild_id, channel_id) {
            (Some(guild_id), _) => Some(VoiceScope::Guild(guild_id)),
            (None, Some(channel_id)) => Some(VoiceScope::Private(channel_id)),
            (None, None) => None,
        }
    }
}

#[derive(Clone, PartialEq, Eq)]
pub struct VoiceStateInfo {
    /// `None` for DM and group-DM call voice states, which carry a null guild.
    pub guild_id: Option<Id<GuildMarker>>,
    pub channel_id: Option<Id<ChannelMarker>>,
    pub user_id: Id<UserMarker>,
    pub session_id: Option<String>,
    pub member: Option<MemberInfo>,
    pub deaf: bool,
    pub mute: bool,
    pub self_deaf: bool,
    pub self_mute: bool,
    pub self_stream: bool,
}

impl VoiceStateInfo {
    /// A voice state of a user in a guild (and channel, if any), with no
    /// session, member or flags.
    pub fn test(guild_id: Id<GuildMarker>, channel_id: Option<Id<ChannelMarker>>, user_id: Id<UserMarker>) -> (r:
        VoiceStateInfo)
        ensures
            r.guild_id == Some(guild_id),
            r.channel_id == channel_id,
            r.user_id == user_id,
            r.session_id is None,
            r.member is None,
            !r.deaf && !r.mute && !r.self_deaf && !r.self_mute && !r.self_stream,
    {
        VoiceStateInfo {
            guild_id: Some(guild_id),
            channel_id,
            user_id,
            session_id: None,
            member: None,
            deaf: false,
            mute: false,
            self_deaf: false,
            self_mute: false,
            self_stream: false,
        }
    }

    pub fn scope(&self) -> (r: Option<VoiceScope>)
        ensures
            r == scope_of(self.guild_id, self.channel_id),
    {
        VoiceScope::from_ids(self.guild_id, self.channel_id)
    }
}

#[derive(Clone, PartialEq, Eq)]
pub struct VoiceServerInfo {
    /// `None` for DM and group-DM call servers, which carry a channel instead.
    pub guild_id: Option<Id<GuildMarker>>,
    pub channel_id: Option<Id<ChannelMarker>>,
    pub endpoint: Option<String>,
    pub token: String,
}

impl VoiceServerInfo {
    /// A voice server of a guild with no endpoint and an empty token.
    pub fn test(guild_id: Id<GuildMarker>) -> (r: VoiceServerInfo)
        ensures
            r.guild_id == Some(guild_id),
            r.channel_id is None,
            r.endpoint is None,
            r.token@.len() == 0,
    {
        VoiceServerInfo { guild_id: Some(guild_id), channel_id: None, endpoint: None, token: String::new() }
    }

    pub fn scope(&self) -> (r: Option<VoiceScope>)
        ensures
            r == scope_of(self.guild_id, self.channel_id),
    {
        VoiceScope::from_ids(self.guild_id, self.channel_id)
    }

    /// A description for logs that never shows the token:
    /// `VoiceServerInfo { guild_id: G, endpoint: E, token: "<redacted>" }`,
    /// with `G` the guild id (`Some(ID)` or `None`) and `E` the endpoint
    /// (`Some("TEXT")` or `None`).
    pub fn redacted_description(&self) -> (r: String)
        ensures
            r@ == voice_server_description(
                match self.guild_id {
                    Some(g) => Some(g@),
                    None => None,
                },
                match self.endpoint {
                    Some(e) => Some(e@),
                    None => None,
                },
            ),
    {
        let mut out = String::new();
        push_str(&mut out, "VoiceServerInfo { guild_id: ");
        match self.guild_id {
            Some(g) => {
                push_str(&mut out, "Some(");
                push_decimal(&mut out, g.get());
                push_str(&mut out, ")");
            },
            None => push_str(&mut out, "None"),
        }
        push_str(&mut out, ", endpoint: ");
        match &self.endpoint {
            Some(e) => {
                push_str(&mut out, "Some(\"");
                push_str(&mut out, e.as_str());
                push_str(&mut out, "\")");
            },
            None => push_str(&mut out, "None"),
        }
        push_str(&mut out, ", token: \"<redacted>\" }");
        out
    }
}

/// The log description of a voice server: its guild and endpoint, and the
/// token as `<redacted>`.
pub open spec fn voice_server_description(guild_id: Option<u64>, endpoint: Option<Seq<char>>) -> Seq<char> {
    "VoiceServerInfo { guild_id: "@ + match guild_id {
        Some(g) => "Some("@ + decimal(g as nat) + ")"@,
        None => "None"@,
    } + ", endpoint: "@ + match endpoint {
        Some(e) => "Some(\""@ + e + "\")"@,
        None => "None"@,
    } + ", token: \"<redacted>\" }"@
}

#[derive(Clone, Copy, Debug, PartialEq, Eq)]
pub enum VoiceConnectionStatus {
    Connecting,
    Connected,
    Disconnected,
    Failed,
}

#[derive(Clone, Copy, Debug, PartialEq, Eq)]
pub enum VoiceSoundKind {
    Join,
    Leave,
}

/// A voice state and a voice server event that name the same ids belong to
/// the same scope, and a scope gives back the ids it was made from.
pub proof fn lemma_scope_ids(guild_id: Option<Id<GuildMarker>>, channel_id: Option<Id<ChannelMarker>>)
    ensures
        scope_of(guild_id, channel_id) matches Some(VoiceScope::Guild(g)) ==> guild_id == Some(g),
        scope_of(guild_id, channel_id) matches Some(VoiceScope::Private(c)) ==> guild_id is None
            && channel_id == Some(c),
        scope_of(guild_id, channel_id) is None <==> guild_id is None && channel_id is None,
{
}

} // verus!
