//! Decisions the client makes before it talks to the gateway or REST API:
//! voice state updates, the de-duplication of command list requests, the
//! checks made before sending a message and the renaming of guild folders.
use crate::error::AppError;
use crate::guild::GuildFolder;
use crate::ids::Id;
use crate::marker::{ChannelMarker, GuildMarker};
use crate::voice::VoiceSoundKind;
use crate::text::{decimal, push_decimal, push_str};
use std::collections::HashMap;
use vstd::prelude::*;

verus! {

/// The voice part of what the client last asked the gateway for.
#[derive(Clone, Copy, Debug, PartialEq, Eq)]
pub struct VoiceRequest {
    pub guild_id: Id<GuildMarker>,
    pub channel_id: Id<ChannelMarker>,
    pub self_mute: bool,
    pub self_deaf: bool,
}

/// A voice state update repeats what is already requested: the same channel
/// with the same mute and deafen flags, a leave when nothing is requested, or
/// a leave for a guild other than the requested one.
pub open spec fn is_duplicate_voice_request(
    requested: Option<VoiceRequest>,
    guild_id: Id<GuildMarker>,
    channel_id: Option<Id<ChannelMarker>>,
    self_mute: bool,
    self_deaf: bool,
) -> bool {
    match (requested, channel_id) {
        (Some(voice), Some(channel_id)) => voice.guild_id == guild_id && voice.channel_id
            == channel_id && voice.self_mute == self_mute && voice.self_deaf == self_deaf,
        (Some(voice), None) => voice.guild_id != guild_id,
        (None, None) => true,
        (None, Some(_)) => false,
    }
}

pub fn voice_state_request_is_duplicate(
    requested: Option<VoiceRequest>,
    guild_id: Id<GuildMarker>,
    channel_id: Option<Id<ChannelMarker>>,
    self_mute: bool,
    self_deaf: bool,
) -> (r: bool)
    ensures
        r == is_duplicate_voice_request(requested, guild_id, channel_id, self_mute, self_deaf),
{
    match (requested, channel_id) {
        (Some(voice), Some(channel_id)) => voice.guild_id == guild_id && voice.channel_id
            == channel_id && voice.self_mute == self_mute && voice.self_deaf == self_deaf,
        (Some(voice), None) => voice.guild_id != guild_id,
        (None, None) => true,
        (None, Some(_)) => false,
    }
}

/// What a voice state update does.
#[derive(Clone, Copy, Debug, PartialEq, Eq)]
pub enum VoiceUpdateAction {
    /// The same request is already outstanding: send nothing.
    Skip,
    /// Refused before anything is sent: the user may not connect there.
    Refuse,
    /// Send the update; once it is queued, the joined channel becomes the
    /// requested connection. Its capture settings carry over from the
    /// outstanding request when that was for the same channel.
    SendJoin { keep_capture: bool },
    /// Send the update; once it is queued, the outstanding request is
    /// forgotten when it was for this guild.
    SendLeave { clear_requested: bool },
}

/// The request names the same guild and channel.
pub open spec fn requested_same_channel(
    requested: Option<VoiceRequest>,
    guild_id: Id<GuildMarker>,
    channel_id: Id<ChannelMarker>,
) -> bool {
    requested matches Some(voice) && voice.guild_id == guild_id && voice.channel_id == channel_id
}

/// The voice update decision. `current_in_channel`: the user's live voice
/// connection is already in that channel; `channel_refuses_connect`: the
/// channel is known and the user lacks permission to connect to it.
pub open spec fn voice_update_action(
    requested: Option<VoiceRequest>,
    guild_id: Id<GuildMarker>,
    channel_id: Option<Id<ChannelMarker>>,
    self_mute: bool,
    self_deaf: bool,
    current_in_channel: bool,
    channel_refuses_connect: bool,
) -> VoiceUpdateAction {
    if is_duplicate_voice_request(requested, guild_id, channel_id, self_mute, self_deaf) {
        VoiceUpdateAction::Skip
    } else {
        match channel_id {
            Some(channel_id) => {
                let same = requested_same_channel(requested, guild_id, channel_id);
                if !same && !current_in_channel && channel_refuses_connect {
                    VoiceUpdateAction::Refuse
                } else {
                    VoiceUpdateAction::SendJoin { keep_capture: same }
                }
            },
            None => VoiceUpdateAction::SendLeave {
                clear_requested: requested matches Some(voice) && voice.guild_id == guild_id,
            },
        }
    }
}

/// Decides what a voice state update (join, flag change or leave) does.
pub fn voice_state_update_action(
    requested: Option<VoiceRequest>,
    guild_id: Id<GuildMarker>,
    channel_id: Option<Id<ChannelMarker>>,
    self_mute: bool,
    self_deaf: bool,
    current_in_channel: bool,
    channel_refuses_connect: bool,
) -> (r: VoiceUpdateAction)
    ensures
        r == voice_update_action(
            requested,
            guild_id,
            channel_id,
            self_mute,
            self_deaf,
            current_in_channel,
            channel_refuses_connect,
        ),
{
    if voice_state_request_is_duplicate(requested, guild_id, channel_id, self_mute, self_deaf) {
        return VoiceUpdateAction::Skip;
    }
    match channel_id {
        Some(channel_id) => {
            let same = match requested {
                Some(voice) => voice.guild_id == guild_id && voice.channel_id == channel_id,
                None => false,
            };
            if !same && !current_in_channel && channel_refuses_connect {
                VoiceUpdateAction::Refuse
            } else {
                VoiceUpdateAction::SendJoin { keep_capture: same }
            }
        },
        None => VoiceUpdateAction::SendLeave {
            clear_requested: match requested {
                Some(voice) => voice.guild_id == guild_id,
                None => false,
            },
        },
    }
}

/// A join to a channel is refused exactly when the outstanding request is not
/// for that guild and channel, the user is not already connected there and
/// the channel refuses the connection; a join that is sent keeps the capture
/// settings exactly when the outstanding request names the same guild and
/// the same channel.
pub proof fn lemma_voice_join_refusal_and_capture(
    requested: Option<VoiceRequest>,
    guild_id: Id<GuildMarker>,
    channel_id: Id<ChannelMarker>,
    self_mute: bool,
    self_deaf: bool,
    current_in_channel: bool,
    channel_refuses_connect: bool,
)
    ensures
        ({
            let a = voice_update_action(
                requested,
                guild_id,
                Some(channel_id),
                self_mute,
                self_deaf,
                current_in_channel,
                channel_refuses_connect,
            );
            let for_this_channel = requested is Some && requested->0.guild_id == guild_id
                && requested->0.channel_id == channel_id;
            &&& (a is Refuse <==> (!for_this_channel && !current_in_channel
                && channel_refuses_connect))
            &&& (a is Skip <==> (for_this_channel && requested->0.self_mute == self_mute
                && requested->0.self_deaf == self_deaf))
            &&& (a matches VoiceUpdateAction::SendJoin { keep_capture } ==> (keep_capture
                <==> for_this_channel))
            &&& !(a is SendLeave)
        }),
{
}

/// Leaving voice in the guild of the outstanding request sends the leave and
/// forgets that request; leaving any other guild, or leaving with nothing
/// requested, sends nothing.
pub proof fn lemma_voice_leave(
    requested: Option<VoiceRequest>,
    guild_id: Id<GuildMarker>,
    self_mute: bool,
    self_deaf: bool,
    current_in_channel: bool,
    channel_refuses_connect: bool,
)
    ensures
        voice_update_action(
            requested,
            guild_id,
            None,
            self_mute,
            self_deaf,
            current_in_channel,
            channel_refuses_connect,
        ) == if requested is Some && requested->0.guild_id == guild_id {
            VoiceUpdateAction::SendLeave { clear_requested: true }
        } else {
            VoiceUpdateAction::Skip
        },
{
}

/// The error a refused voice update reports.
pub open spec fn voice_refusal_message() -> Seq<char> {
    "cannot connect to voice channel"@
}

/// What a voice update answers before anything is sent: the refusal's
/// error for `Refuse`, success for every other action.
pub fn voice_update_refusal(action: VoiceUpdateAction) -> (r: Result<(), String>)
    ensures
        r is Err <==> action is Refuse,
        r matches Err(m) ==> m@ == voice_refusal_message(),
{
    match action {
        VoiceUpdateAction::Refuse => Err("cannot connect to voice channel".to_string()),
        _ => Ok(()),
    }
}

/// The outstanding request once the update was queued.
pub open spec fn requested_after(
    requested: Option<VoiceRequest>,
    action: VoiceUpdateAction,
    guild_id: Id<GuildMarker>,
    channel_id: Option<Id<ChannelMarker>>,
    self_mute: bool,
    self_deaf: bool,
) -> Option<VoiceRequest> {
    match action {
        VoiceUpdateAction::SendJoin { .. } => Some(
            VoiceRequest { guild_id, channel_id: channel_id->0, self_mute, self_deaf },
        ),
        VoiceUpdateAction::SendLeave { clear_requested } => if clear_requested {
            None
        } else {
            requested
        },
        _ => requested,
    }
}

/// The outstanding voice request once an update with this action was queued.
pub fn requested_voice_after(
    requested: Option<VoiceRequest>,
    action: VoiceUpdateAction,
    guild_id: Id<GuildMarker>,
    channel_id: Option<Id<ChannelMarker>>,
    self_mute: bool,
    self_deaf: bool,
) -> (r: Option<VoiceRequest>)
    requires
        action is SendJoin ==> channel_id is Some,
    ensures
        r == requested_after(requested, action, guild_id, channel_id, self_mute, self_deaf),
{
    match action {
        VoiceUpdateAction::SendJoin { .. } => match channel_id {
            Some(channel_id) => Some(VoiceRequest { guild_id, channel_id, self_mute, self_deaf }),
            None => requested,
        },
        VoiceUpdateAction::SendLeave { clear_requested } => if clear_requested {
            None
        } else {
            requested
        },
        _ => requested,
    }
}

/// Once an update for a channel has been queued, repeating it is skipped;
/// once a leave has been queued, repeating the leave is skipped too.
pub proof fn lemma_repeated_voice_update_is_skipped(
    requested: Option<VoiceRequest>,
    guild_id: Id<GuildMarker>,
    channel_id: Option<Id<ChannelMarker>>,
    self_mute: bool,
    self_deaf: bool,
    current_in_channel: bool,
    channel_refuses_connect: bool,
    current_again: bool,
    refuses_again: bool,
)
    requires
        ({
            let a = voice_update_action(
                requested,
                guild_id,
                channel_id,
                self_mute,
                self_deaf,
                current_in_channel,
                channel_refuses_connect,
            );
            a is SendJoin || a is SendLeave
        }),
    ensures
        ({
            let a = voice_update_action(
                requested,
                guild_id,
                channel_id,
                self_mute,
                self_deaf,
                current_in_channel,
                channel_refuses_connect,
            );
            let next = requested_after(requested, a, guild_id, channel_id, self_mute, self_deaf);
            voice_update_action(
                next,
                guild_id,
                channel_id,
                self_mute,
                self_deaf,
                current_again,
                refuses_again,
            ) == VoiceUpdateAction::Skip
        }),
{
}

/// Progress of a guild's (or the user's own) command list request.
#[derive(Clone, Copy, Debug, PartialEq, Eq)]
pub enum RequestState {
    Requested,
    Loaded,
}

/// The key under which a command list request is tracked: a guild, or
/// `None` for the user's own (DM) command list.
pub open spec fn guild_key(guild_id: Option<Id<GuildMarker>>) -> Option<u64> {
    match guild_id {
        Some(g) => Some(g@),
        None => None,
    }
}

/// Tracks which command lists have been requested or loaded, so each is
/// fetched once until it fails. Guild lists are keyed by the guild's
/// snowflake; the user's own list has a slot of its own.
pub struct ApplicationCommandRequests {
    guilds: HashMap<u64, RequestState>,
    own: Option<RequestState>,
}

impl View for ApplicationCommandRequests {
    type V = Map<Option<u64>, RequestState>;

    closed spec fn view(&self) -> Map<Option<u64>, RequestState> {
        Map::new(
            |k: Option<u64>|
                match k {
                    Some(g) => self.guilds@.contains_key(g),
                    None => self.own is Some,
                },
            |k: Option<u64>|
                match k {
                    Some(g) => self.guilds@[g],
                    None => self.own->0,
                },
        )
    }
}

impl ApplicationCommandRequests {
    pub fn new() -> (r: Self)
        ensures
            r@ == Map::<Option<u64>, RequestState>::empty(),
    {
        let r = ApplicationCommandRequests { guilds: HashMap::new(), own: None };
        proof {
            assert(r@ =~= Map::<Option<u64>, RequestState>::empty());
        }
        r
    }

    fn is_tracked(&self, guild_id: Option<Id<GuildMarker>>) -> (r: bool)
        ensures
            r == self@.contains_key(guild_key(guild_id)),
    {
        broadcast use vstd::std_specs::hash::group_hash_axioms;

        match guild_id {
            Some(g) => self.guilds.contains_key(&g.get()),
            None => self.own.is_some(),
        }
    }

    fn set(&mut self, guild_id: Option<Id<GuildMarker>>, state: RequestState)
        ensures
            final(self)@ == old(self)@.insert(guild_key(guild_id), state),
    {
        broadcast use vstd::std_specs::hash::group_hash_axioms;

        match guild_id {
            Some(g) => {
                self.guilds.insert(g.get(), state);
            },
            None => {
                self.own = Some(state);
            },
        }
        proof {
            assert(self@ =~= old(self)@.insert(guild_key(guild_id), state));
        }
    }

    /// Starts a request unless one is outstanding or done; `true` when the
    /// caller should fetch.
    pub fn begin_application_command_request(&mut self, guild_id: Option<Id<GuildMarker>>) -> (r: bool)
        ensures
            r == !old(self)@.contains_key(guild_key(guild_id)),
            r ==> final(self)@ == old(self)@.insert(guild_key(guild_id), RequestState::Requested),
            !r ==> final(self)@ == old(self)@,
    {
        if self.is_tracked(guild_id) {
            return false;
        }
        self.set(guild_id, RequestState::Requested);
        true
    }

    /// Marks the command list as loaded.
    pub fn record_application_commands_loaded(&mut self, guild_id: Option<Id<GuildMarker>>)
        ensures
            final(self)@ == old(self)@.insert(guild_key(guild_id), RequestState::Loaded),
    {
        self.set(guild_id, RequestState::Loaded);
    }

    /// Forgets a request (after it failed), so it can be made again.
    pub fn clear_application_command_request(&mut self, guild_id: Option<Id<GuildMarker>>)
        ensures
            final(self)@ == old(self)@.remove(guild_key(guild_id)),
    {
        broadcast use vstd::std_specs::hash::group_hash_axioms;

        match guild_id {
            Some(g) => {
                self.guilds.remove(&g.get());
            },
            None => {
                self.own = None;
            },
        }
        proof {
            assert(self@ =~= old(self)@.remove(guild_key(guild_id)));
        }
    }
}

/// A command list is requested once: after a request starts, a second start
/// is refused; after it is loaded it stays refused; after a failed request is
/// cleared, it can start again.
pub proof fn lemma_command_requests_dedup(m: Map<Option<u64>, RequestState>, k: Option<u64>)
    ensures
        m.insert(k, RequestState::Requested).contains_key(k),
        m.insert(k, RequestState::Loaded).contains_key(k),
        !m.remove(k).contains_key(k),
{
}

/// What the cached permissions allow in a channel the client knows.
#[derive(Clone, Copy, Debug, PartialEq, Eq)]
pub struct ChannelSendPermissions {
    pub can_send: bool,
    pub can_attach: bool,
    pub can_send_tts: bool,
}

/// Checks a message before it is sent: a channel the client does not know
/// yet (its state is still arriving) is allowed; in a known channel the user
/// must be allowed to send, and to attach files when there are attachments.
pub fn ensure_can_send_message(channel: Option<ChannelSendPermissions>, has_attachments: bool) -> (r: Result<
    (),
    AppError,
>)
    ensures
        match channel {
            None => r is Ok,
            Some(p) => if !p.can_send {
                r matches Err(AppError::DiscordRequest(m)) && m@ == "cannot send message in channel"@
            } else if has_attachments && !p.can_attach {
                r matches Err(AppError::DiscordRequest(m)) && m@ == "cannot attach files in channel"@
            } else {
                r is Ok
            },
        },
{
    match channel {
        None => Ok(()),
        Some(p) => {
            if !p.can_send {
                return Err(AppError::DiscordRequest("cannot send message in channel".to_string()));
            }
            if has_attachments && !p.can_attach {
                return Err(AppError::DiscordRequest("cannot attach files in channel".to_string()));
            }
            Ok(())
        },
    }
}

/// Checks a text-to-speech message before it is sent: allowed in a channel
/// the client does not know yet, else only with the permission.
pub fn ensure_can_send_tts_message(channel: Option<ChannelSendPermissions>) -> (r: Result<(), AppError>)
    ensures
        match channel {
            None => r is Ok,
            Some(p) => if p.can_send_tts {
                r is Ok
            } else {
                r matches Err(AppError::DiscordRequest(m)) && m@
                    == "cannot send text-to-speech messages in channel"@
            },
        },
{
    match channel {
        None => Ok(()),
        Some(p) => if p.can_send_tts {
            Ok(())
        } else {
            Err(AppError::DiscordRequest("cannot send text-to-speech messages in channel".to_string()))
        },
    }
}

/// The position of the first folder with the given id.
pub open spec fn folder_index(folders: Seq<GuildFolder>, folder_id: u64) -> Option<int>
    decreases folders.len(),
{
    if folders.len() == 0 {
        None
    } else if folders[0].id == Some(folder_id) {
        Some(0)
    } else {
        match folder_index(folders.drop_first(), folder_id) {
            Some(k) => Some(k + 1),
            None => None,
        }
    }
}

proof fn lemma_folder_index(folders: Seq<GuildFolder>, folder_id: u64)
    ensures
        match folder_index(folders, folder_id) {
            Some(k) => 0 <= k < folders.len() && folders[k].id == Some(folder_id) && forall|j: int|
                0 <= j < k ==> folders[j].id != Some(folder_id),
            None => forall|j: int| 0 <= j < folders.len() ==> folders[j].id != Some(folder_id),
        },
    decreases folders.len(),
{
    if folders.len() > 0 && folders[0].id != Some(folder_id) {
        lemma_folder_index(folders.drop_first(), folder_id);
        match folder_index(folders.drop_first(), folder_id) {
            Some(k) => {
                assert forall|j: int| 0 <= j < k + 1 implies folders[j].id != Some(folder_id) by {
                    if j > 0 {
                        assert(folders[j] == folders.drop_first()[j - 1]);
                    }
                }
            },
            None => {
                assert forall|j: int| 0 <= j < folders.len() implies folders[j].id != Some(folder_id) by {
                    if j > 0 {
                        assert(folders[j] == folders.drop_first()[j - 1]);
                    }
                }
            },
        }
    }
}

/// The folder list after renaming the folder `folder_id`: the first folder
/// with that id gets the new name (none clears it) and nothing else changes.
pub open spec fn renamed_folders(folders: Seq<GuildFolder>, folder_id: u64, name: Option<String>) -> Option<
    Seq<GuildFolder>,
> {
    match folder_index(folders, folder_id) {
        Some(k) => Some(folders.update(k, GuildFolder { name, ..folders[k] })),
        None => None,
    }
}

/// Renames a guild folder in the user's folder list; an error when no folder
/// has that id.
pub fn rename_guild_folder(folders: Vec<GuildFolder>, folder_id: u64, name: Option<String>) -> (r: Result<
    Vec<GuildFolder>,
    AppError,
>)
    ensures
        match renamed_folders(folders@, folder_id, name) {
            Some(v) => r matches Ok(f) && f@ == v,
            None => r matches Err(AppError::DiscordRequest(m)) && m@ == "guild folder "@ + decimal(
                folder_id as nat,
            ) + " was not found"@,
        },
{
    proof {
        lemma_folder_index(folders@, folder_id);
    }
    let mut i: usize = 0;
    while i < folders.len() && folders[i].id != Some(folder_id)
        invariant
            i <= folders.len(),
            forall|j: int| 0 <= j < i ==> folders@[j].id != Some(folder_id),
        decreases folders.len() - i,
    {
        i = i + 1;
    }
    if i == folders.len() {
        let mut message = String::new();
        push_str(&mut message, "guild folder ");
        push_decimal(&mut message, folder_id);
        push_str(&mut message, " was not found");
        return Err(AppError::DiscordRequest(message));
    }
    proof {
        assert(folders@[i as int].id == Some(folder_id));
        assert(folder_index(folders@, folder_id) == Some(i as int));
    }
    let ghost before = folders@;
    let mut folders = folders;
    let mut folder = folders.remove(i);
    folder.name = name;
    folders.insert(i, folder);
    proof {
        assert(folders@ =~= before.update(i as int, GuildFolder { name, ..before[i as int] }));
    }
    Ok(folders)
}

/// Renaming a folder twice leaves the last name, as a single renaming to
/// it would; renaming keeps the list's length, every other folder, and the
/// renamed folder's id, color and guilds.
pub proof fn lemma_rename_guild_folder(
    folders: Seq<GuildFolder>,
    folder_id: u64,
    first: Option<String>,
    second: Option<String>,
)
    requires
        folder_index(folders, folder_id) is Some,
    ensures
        ({
            let once = renamed_folders(folders, folder_id, first)->0;
            &&& once.len() == folders.len()
            &&& forall|j: int| 0 <= j < folders.len() && j != folder_index(folders, folder_id)->0 ==> once[j] == folders[j]
            &&& once[folder_index(folders, folder_id)->0].guild_ids == folders[folder_index(folders, folder_id)->0].guild_ids
            &&& once[folder_index(folders, folder_id)->0].color == folders[folder_index(folders, folder_id)->0].color
            &&& renamed_folders(once, folder_id, second) == renamed_folders(folders, folder_id, second)
        }),
{
    let k = folder_index(folders, folder_id)->0;
    lemma_folder_index(folders, folder_id);
    let once = renamed_folders(folders, folder_id, first)->0;
    assert forall|j: int| 0 <= j < k implies once[j].id != Some(folder_id) by {}
    lemma_folder_index(once, folder_id);
    if folder_index(once, folder_id) != Some(k) {
        match folder_index(once, folder_id) {
            Some(k2) => {
                if k2 < k {
                } else {
                    assert(once[k].id == Some(folder_id));
                }
            },
            None => {
                assert(once[k].id == Some(folder_id));
            },
        }
    }
    assert(once.update(k, GuildFolder { name: second, ..once[k] }) =~= folders.update(
        k,
        GuildFolder { name: second, ..folders[k] },
    ));
}

/// One consequence of publishing an event, delivered to the interface in
/// this order, each stamped with the snapshot revision the event belongs to.
pub enum PublishedEffect<E> {
    /// The event itself.
    Event { revision: u64, event: E },
    /// A voice sound the event calls for.
    VoiceSound { revision: u64, kind: VoiceSoundKind },
}

/// What publishing one event does.
pub struct PublishStep<E> {
    /// The global snapshot revision the event belongs to.
    pub event_revision: u64,
    /// Whether a new snapshot revision is announced.
    pub snapshot_announced: bool,
    /// The effects delivered, in order.
    pub effects: Vec<PublishedEffect<E>>,
}

/// The effects of publishing an event, in order: the event when it needs
/// delivery, then the voice sound when there is one.
pub open spec fn published_effects<E>(
    event: E,
    revision: u64,
    needs_effect_delivery: bool,
    voice_sound: Option<VoiceSoundKind>,
) -> Seq<PublishedEffect<E>> {
    (if needs_effect_delivery {
        seq![PublishedEffect::Event { revision, event }]
    } else {
        Seq::empty()
    }) + match voice_sound {
        Some(kind) => seq![PublishedEffect::VoiceSound { revision, kind }],
        None => Seq::empty(),
    }
}

/// Publishes one event. `mutates_state`, `needs_effect_delivery` and
/// `voice_sound` are what the event and the state say of it;
/// `current_revision` is the global snapshot revision before it, and
/// `applied_revision` the one after the state applied it. An event that
/// changes the state belongs to the revision it produced and announces it;
/// any other event belongs to the current revision and announces nothing.
pub fn publish_step<E>(
    event: E,
    mutates_state: bool,
    needs_effect_delivery: bool,
    voice_sound: Option<VoiceSoundKind>,
    current_revision: u64,
    applied_revision: u64,
) -> (r: PublishStep<E>)
    ensures
        r.event_revision == if mutates_state {
            applied_revision
        } else {
            current_revision
        },
        r.snapshot_announced == mutates_state,
        r.effects@ == published_effects(event, r.event_revision, needs_effect_delivery, voice_sound),
{
    let event_revision = if mutates_state {
        applied_revision
    } else {
        current_revision
    };
    let mut effects: Vec<PublishedEffect<E>> = Vec::new();
    if needs_effect_delivery {
        effects.push(PublishedEffect::Event { revision: event_revision, event });
    }
    match voice_sound {
        Some(kind) => {
            effects.push(PublishedEffect::VoiceSound { revision: event_revision, kind });
        },
        None => {},
    }
    proof {
        assert(effects@ =~= published_effects(event, event_revision, needs_effect_delivery, voice_sound));
    }
    PublishStep { event_revision, snapshot_announced: mutates_state, effects }
}

} // verus!
