//! The main gateway's opcodes and dispatch events, and the decisions its
//! dispatch handler takes on them.

use vstd::prelude::*;

use crate::api::{MessageDelete, MessageReactionChange, Snowflake};
use crate::encryption::same_chars;
use crate::recording::RecordedEvent;
use crate::text::chars_of;
use crate::voice_state::Endpoint;

verus! {

/// Gateway opcodes (Discord's codes in the comments).
#[derive(Clone, Copy, Debug, PartialEq, Eq, Structural)]
pub enum Opcode {
    /// 0
    Dispatch,
    /// 1
    Heartbeat,
    /// 2
    Identify,
    /// 3
    PresenceUpdate,
    /// 4
    VoiceStateUpdate,
    /// 7
    Reconnect,
    /// 9
    InvalidSession,
    /// 10
    Hello,
    /// 11
    HeartbeatAck,
    /// 13
    CallConnect,
}

pub open spec fn opcode_code(op: Opcode) -> u8 {
    match op {
        Opcode::Dispatch => 0,
        Opcode::Heartbeat => 1,
        Opcode::Identify => 2,
        Opcode::PresenceUpdate => 3,
        Opcode::VoiceStateUpdate => 4,
        Opcode::Reconnect => 7,
        Opcode::InvalidSession => 9,
        Opcode::Hello => 10,
        Opcode::HeartbeatAck => 11,
        Opcode::CallConnect => 13,
    }
}

impl Opcode {
    /// The wire code of the opcode.
    pub fn code(self) -> (r: u8)
        ensures
            r == opcode_code(self),
    {
        match self {
            Opcode::Dispatch => 0,
            Opcode::Heartbeat => 1,
            Opcode::Identify => 2,
            Opcode::PresenceUpdate => 3,
            Opcode::VoiceStateUpdate => 4,
            Opcode::Reconnect => 7,
            Opcode::InvalidSession => 9,
            Opcode::Hello => 10,
            Opcode::HeartbeatAck => 11,
            Opcode::CallConnect => 13,
        }
    }

    /// The opcode written as `code`, if any.
    pub fn from_code(code: u8) -> (r: Option<Opcode>)
        ensures
            r matches Some(op) ==> opcode_code(op) == code,
            r is None ==> forall|op: Opcode| opcode_code(op) != code,
    {
        match code {
            0 => Some(Opcode::Dispatch),
            1 => Some(Opcode::Heartbeat),
            2 => Some(Opcode::Identify),
            3 => Some(Opcode::PresenceUpdate),
            4 => Some(Opcode::VoiceStateUpdate),
            7 => Some(Opcode::Reconnect),
            9 => Some(Opcode::InvalidSession),
            10 => Some(Opcode::Hello),
            11 => Some(Opcode::HeartbeatAck),
            13 => Some(Opcode::CallConnect),
            _ => None,
        }
    }
}

/// Dispatch events the client knows, by their `t` name.
#[derive(Clone, Copy, Debug, PartialEq, Eq, Structural)]
pub enum GatewayEvent {
    Hello,
    Ready,
    Resumed,
    Reconnect,
    RateLimited,
    InvalidSession,
    SessionsReplace,
    ApplicationCommandPermissionsUpdate,
    AutoModerationRuleCreate,
    AutoModerationRuleUpdate,
    AutoModerationRuleDelete,
    AutoModerationActionExecution,
    ChannelCreate,
    ChannelUpdate,
    ChannelDelete,
    ChannelPinsUpdate,
    CallCreate,
    CallUpdate,
    CallDelete,
    ThreadCreate,
    ThreadUpdate,
    ThreadDelete,
    ThreadListSync,
    ThreadMemberUpdate,
    ThreadMembersUpdate,
    EntitlementCreate,
    EntitlementUpdate,
    EntitlementDelete,
    GuildCreate,
    GuildUpdate,
    GuildDelete,
    GuildAuditLogEntryCreate,
    GuildBanAdd,
    GuildBanRemove,
    GuildEmojisUpdate,
    GuildStickersUpdate,
    GuildIntegrationsUpdate,
    GuildMemberAdd,
    GuildMemberRemove,
    VoiceStateUpdate,
    VoiceServerUpdate,
    MessageCreate,
    MessageUpdate,
    MessageDelete,
    MessageDeleteBulk,
    MessageReactionAdd,
    MessageReactionRemove,
}

/// The name an event is dispatched under (its variant in upper snake case).
pub open spec fn event_name(e: GatewayEvent) -> Seq<char> {
    match e {
        GatewayEvent::Hello => "HELLO"@,
        GatewayEvent::Ready => "READY"@,
        GatewayEvent::Resumed => "RESUMED"@,
        GatewayEvent::Reconnect => "RECONNECT"@,
        GatewayEvent::RateLimited => "RATE_LIMITED"@,
        GatewayEvent::InvalidSession => "INVALID_SESSION"@,
        GatewayEvent::SessionsReplace => "SESSIONS_REPLACE"@,
        GatewayEvent::ApplicationCommandPermissionsUpdate => "APPLICATION_COMMAND_PERMISSIONS_UPDATE"@,
        GatewayEvent::AutoModerationRuleCreate => "AUTO_MODERATION_RULE_CREATE"@,
        GatewayEvent::AutoModerationRuleUpdate => "AUTO_MODERATION_RULE_UPDATE"@,
        GatewayEvent::AutoModerationRuleDelete => "AUTO_MODERATION_RULE_DELETE"@,
        GatewayEvent::AutoModerationActionExecution => "AUTO_MODERATION_ACTION_EXECUTION"@,
        GatewayEvent::ChannelCreate => "CHANNEL_CREATE"@,
        GatewayEvent::ChannelUpdate => "CHANNEL_UPDATE"@,
        GatewayEvent::ChannelDelete => "CHANNEL_DELETE"@,
        GatewayEvent::ChannelPinsUpdate => "CHANNEL_PINS_UPDATE"@,
        GatewayEvent::CallCreate => "CALL_CREATE"@,
        GatewayEvent::CallUpdate => "CALL_UPDATE"@,
        GatewayEvent::CallDelete => "CALL_DELETE"@,
        GatewayEvent::ThreadCreate => "THREAD_CREATE"@,
        GatewayEvent::ThreadUpdate => "THREAD_UPDATE"@,
        GatewayEvent::ThreadDelete => "THREAD_DELETE"@,
        GatewayEvent::ThreadListSync => "THREAD_LIST_SYNC"@,
        GatewayEvent::ThreadMemberUpdate => "THREAD_MEMBER_UPDATE"@,
        GatewayEvent::ThreadMembersUpdate => "THREAD_MEMBERS_UPDATE"@,
        GatewayEvent::EntitlementCreate => "ENTITLEMENT_CREATE"@,
        GatewayEvent::EntitlementUpdate => "ENTITLEMENT_UPDATE"@,
        GatewayEvent::EntitlementDelete => "ENTITLEMENT_DELETE"@,
        GatewayEvent::GuildCreate => "GUILD_CREATE"@,
        GatewayEvent::GuildUpdate => "GUILD_UPDATE"@,
        GatewayEvent::GuildDelete => "GUILD_DELETE"@,
        GatewayEvent::GuildAuditLogEntryCreate => "GUILD_AUDIT_LOG_ENTRY_CREATE"@,
        GatewayEvent::GuildBanAdd => "GUILD_BAN_ADD"@,
        GatewayEvent::GuildBanRemove => "GUILD_BAN_REMOVE"@,
        GatewayEvent::GuildEmojisUpdate => "GUILD_EMOJIS_UPDATE"@,
        GatewayEvent::GuildStickersUpdate => "GUILD_STICKERS_UPDATE"@,
        GatewayEvent::GuildIntegrationsUpdate => "GUILD_INTEGRATIONS_UPDATE"@,
        GatewayEvent::GuildMemberAdd => "GUILD_MEMBER_ADD"@,
        GatewayEvent::GuildMemberRemove => "GUILD_MEMBER_REMOVE"@,
        GatewayEvent::VoiceStateUpdate => "VOICE_STATE_UPDATE"@,
        GatewayEvent::VoiceServerUpdate => "VOICE_SERVER_UPDATE"@,
        GatewayEvent::MessageCreate => "MESSAGE_CREATE"@,
        GatewayEvent::MessageUpdate => "MESSAGE_UPDATE"@,
        GatewayEvent::MessageDelete => "MESSAGE_DELETE"@,
        GatewayEvent::MessageDeleteBulk => "MESSAGE_DELETE_BULK"@,
        GatewayEvent::MessageReactionAdd => "MESSAGE_REACTION_ADD"@,
        GatewayEvent::MessageReactionRemove => "MESSAGE_REACTION_REMOVE"@,
    }
}

impl GatewayEvent {
    /// The name the event is dispatched under.
    pub fn as_name(&self) -> (r: &'static str)
        ensures
            r@ == event_name(*self),
    {
        match self {
            GatewayEvent::Hello => "HELLO",
            GatewayEvent::Ready => "READY",
            GatewayEvent::Resumed => "RESUMED",
            GatewayEvent::Reconnect => "RECONNECT",
            GatewayEvent::RateLimited => "RATE_LIMITED",
            GatewayEvent::InvalidSession => "INVALID_SESSION",
            GatewayEvent::SessionsReplace => "SESSIONS_REPLACE",
            GatewayEvent::ApplicationCommandPermissionsUpdate => "APPLICATION_COMMAND_PERMISSIONS_UPDATE",
            GatewayEvent::AutoModerationRuleCreate => "AUTO_MODERATION_RULE_CREATE",
            GatewayEvent::AutoModerationRuleUpdate => "AUTO_MODERATION_RULE_UPDATE",
            GatewayEvent::AutoModerationRuleDelete => "AUTO_MODERATION_RULE_DELETE",
            GatewayEvent::AutoModerationActionExecution => "AUTO_MODERATION_ACTION_EXECUTION",
            GatewayEvent::ChannelCreate => "CHANNEL_CREATE",
            GatewayEvent::ChannelUpdate => "CHANNEL_UPDATE",
            GatewayEvent::ChannelDelete => "CHANNEL_DELETE",
            GatewayEvent::ChannelPinsUpdate => "CHANNEL_PINS_UPDATE",
            GatewayEvent::CallCreate => "CALL_CREATE",
            GatewayEvent::CallUpdate => "CALL_UPDATE",
            GatewayEvent::CallDelete => "CALL_DELETE",
            GatewayEvent::ThreadCreate => "THREAD_CREATE",
            GatewayEvent::ThreadUpdate => "THREAD_UPDATE",
            GatewayEvent::ThreadDelete => "THREAD_DELETE",
            GatewayEvent::ThreadListSync => "THREAD_LIST_SYNC",
            GatewayEvent::ThreadMemberUpdate => "THREAD_MEMBER_UPDATE",
            GatewayEvent::ThreadMembersUpdate => "THREAD_MEMBERS_UPDATE",
            GatewayEvent::EntitlementCreate => "ENTITLEMENT_CREATE",
            GatewayEvent::EntitlementUpdate => "ENTITLEMENT_UPDATE",
            GatewayEvent::EntitlementDelete => "ENTITLEMENT_DELETE",
            GatewayEvent::GuildCreate => "GUILD_CREATE",
            GatewayEvent::GuildUpdate => "GUILD_UPDATE",
            GatewayEvent::GuildDelete => "GUILD_DELETE",
            GatewayEvent::GuildAuditLogEntryCreate => "GUILD_AUDIT_LOG_ENTRY_CREATE",
            GatewayEvent::GuildBanAdd => "GUILD_BAN_ADD",
            GatewayEvent::GuildBanRemove => "GUILD_BAN_REMOVE",
            GatewayEvent::GuildEmojisUpdate => "GUILD_EMOJIS_UPDATE",
            GatewayEvent::GuildStickersUpdate => "GUILD_STICKERS_UPDATE",
            GatewayEvent::GuildIntegrationsUpdate => "GUILD_INTEGRATIONS_UPDATE",
            GatewayEvent::GuildMemberAdd => "GUILD_MEMBER_ADD",
            GatewayEvent::GuildMemberRemove => "GUILD_MEMBER_REMOVE",
            GatewayEvent::VoiceStateUpdate => "VOICE_STATE_UPDATE",
            GatewayEvent::VoiceServerUpdate => "VOICE_SERVER_UPDATE",
            GatewayEvent::MessageCreate => "MESSAGE_CREATE",
            GatewayEvent::MessageUpdate => "MESSAGE_UPDATE",
            GatewayEvent::MessageDelete => "MESSAGE_DELETE",
            GatewayEvent::MessageDeleteBulk => "MESSAGE_DELETE_BULK",
            GatewayEvent::MessageReactionAdd => "MESSAGE_REACTION_ADD",
            GatewayEvent::MessageReactionRemove => "MESSAGE_REACTION_REMOVE",
        }
    }

    /// The event dispatched under `name`, if the client knows it.
    pub fn from_name(name: &str) -> (r: Option<GatewayEvent>)
        ensures
            r matches Some(e) ==> event_name(e) == name@,
            r is None ==> forall|e: GatewayEvent| event_name(e) != name@,
    {
        let v = chars_of(name);
        let all = [
            GatewayEvent::Hello,
            GatewayEvent::Ready,
            GatewayEvent::Resumed,
            GatewayEvent::Reconnect,
            GatewayEvent::RateLimited,
            GatewayEvent::InvalidSession,
            GatewayEvent::SessionsReplace,
            GatewayEvent::ApplicationCommandPermissionsUpdate,
            GatewayEvent::AutoModerationRuleCreate,
            GatewayEvent::AutoModerationRuleUpdate,
            GatewayEvent::AutoModerationRuleDelete,
            GatewayEvent::AutoModerationActionExecution,
            GatewayEvent::ChannelCreate,
            GatewayEvent::ChannelUpdate,
            GatewayEvent::ChannelDelete,
            GatewayEvent::ChannelPinsUpdate,
            GatewayEvent::CallCreate,
            GatewayEvent::CallUpdate,
            GatewayEvent::CallDelete,
            GatewayEvent::ThreadCreate,
            GatewayEvent::ThreadUpdate,
            GatewayEvent::ThreadDelete,
            GatewayEvent::ThreadListSync,
            GatewayEvent::ThreadMemberUpdate,
            GatewayEvent::ThreadMembersUpdate,
            GatewayEvent::EntitlementCreate,
            GatewayEvent::EntitlementUpdate,
            GatewayEvent::EntitlementDelete,
            GatewayEvent::GuildCreate,
            GatewayEvent::GuildUpdate,
            GatewayEvent::GuildDelete,
            GatewayEvent::GuildAuditLogEntryCreate,
            GatewayEvent::GuildBanAdd,
            GatewayEvent::GuildBanRemove,
            GatewayEvent::GuildEmojisUpdate,
            GatewayEvent::GuildStickersUpdate,
            GatewayEvent::GuildIntegrationsUpdate,
            GatewayEvent::GuildMemberAdd,
            GatewayEvent::GuildMemberRemove,
            GatewayEvent::VoiceStateUpdate,
            GatewayEvent::VoiceServerUpdate,
            GatewayEvent::MessageCreate,
            GatewayEvent::MessageUpdate,
            GatewayEvent::MessageDelete,
            GatewayEvent::MessageDeleteBulk,
            GatewayEvent::MessageReactionAdd,
            GatewayEvent::MessageReactionRemove,
        ];
        let n = all.len();
        let mut i: usize = 0;
        while i < n
            invariant
                n == all@.len(),
                i <= n,
                forall|e: GatewayEvent| all@.contains(e),
                forall|j: int| 0 <= j < i ==> event_name(#[trigger] all@[j]) != v@,
                v@ == name@,
            decreases n - i,
        {
            let e = all[i];
            let candidate = chars_of(e.as_name());
            if same_chars(&candidate, &v) {
                return Some(e);
            }
            i = i + 1;
        }
        proof {
            assert forall|e: GatewayEvent| event_name(e) != name@ by {
                assert(all@.contains(e));
                let j = choose|j: int| 0 <= j < n && all@[j] == e;
                assert(event_name(all@[j]) != v@);
            }
        }
        None
    }
}

// === dispatch decisions ===
/// Why a dispatch could not be acted on.
#[derive(Clone, Copy, Debug, PartialEq, Eq, Structural)]
pub enum DispatchError {
    /// A voice server update without an endpoint.
    MissingVoiceEndpoint,
    /// An event that needs the logged-in user's profile before it arrived.
    ProfileNotLoaded,
}

/// Whether an event concerns the logged-in user.
pub fn is_own_user(profile_id: Option<Snowflake>, user_id: Snowflake) -> (r: bool)
    ensures
        r == (profile_id == Some(user_id)),
{
    match profile_id {
        Some(id) => id == user_id,
        None => false,
    }
}

/// The voice server endpoint a voice server update carries.
pub fn voice_server_endpoint(endpoint: Option<String>, token: String) -> (r: Result<Endpoint, DispatchError>)
    ensures
        match endpoint {
            Some(e) => r matches Ok(ep) && ep.wss == e && ep.token == token,
            None => r == Err::<Endpoint, DispatchError>(DispatchError::MissingVoiceEndpoint),
        },
{
    match endpoint {
        Some(e) => Ok(Endpoint::new(e, token)),
        None => Err(DispatchError::MissingVoiceEndpoint),
    }
}

/// A reaction change as the text stream reports it.
#[derive(Debug)]
pub struct ReactionNotice {
    pub channel_id: Snowflake,
    pub message_id: Snowflake,
    pub user_id: Snowflake,
    pub emoji: String,
    pub added: bool,
}

/// A reaction change, recorded for in-flight fetches and reported: whether
/// it is the logged-in user's own is judged against `profile_id`.
pub fn reaction_change(payload: MessageReactionChange, profile_id: Option<Snowflake>, added: bool) -> (r: (RecordedEvent, ReactionNotice))
    ensures
        ({
            let is_self = profile_id == Some(payload.user_id);
            &&& added ==> r.0 == (RecordedEvent::ReactionAdded {
                channel_id: payload.channel_id,
                message_id: payload.message_id,
                emoji: payload.emoji,
                is_self,
            })
            &&& !added ==> r.0 == (RecordedEvent::ReactionRemoved {
                channel_id: payload.channel_id,
                message_id: payload.message_id,
                emoji: payload.emoji,
                is_self,
            })
            &&& r.1.channel_id == payload.channel_id
            &&& r.1.message_id == payload.message_id
            &&& r.1.user_id == payload.user_id
            &&& r.1.emoji == payload.emoji.name
            &&& r.1.added == added
        }),
{
    let is_self = is_own_user(profile_id, payload.user_id);
    let notice = ReactionNotice {
        channel_id: payload.channel_id,
        message_id: payload.message_id,
        user_id: payload.user_id,
        emoji: payload.emoji.name.clone(),
        added,
    };
    let event = if added {
        RecordedEvent::ReactionAdded {
            channel_id: payload.channel_id,
            message_id: payload.message_id,
            emoji: payload.emoji,
            is_self,
        }
    } else {
        RecordedEvent::ReactionRemoved {
            channel_id: payload.channel_id,
            message_id: payload.message_id,
            emoji: payload.emoji,
            is_self,
        }
    };
    (event, notice)
}

/// A message deletion, recorded for in-flight fetches and reported as
/// `(channel, message)`.
pub fn message_deleted(payload: &MessageDelete) -> (r: (RecordedEvent, (Snowflake, Snowflake)))
    ensures
        r.0 == (RecordedEvent::MessageDeleted { channel_id: payload.channel_id, message_id: payload.id }),
        r.1 == (payload.channel_id, payload.id),
{
    (RecordedEvent::MessageDeleted { channel_id: payload.channel_id, message_id: payload.id }, (payload.channel_id, payload.id))
}

/// Whether a connection's owner is gone: the only strong references left
/// are the owner's handle's own and those of in-flight stream polls.
pub fn owner_dropped(strong_count: usize, active_polls: usize) -> (r: bool)
    requires
        active_polls < usize::MAX,
    ensures
        r == (strong_count == active_polls + 1),
{
    strong_count == active_polls + 1
}

/// Tracks whether a stream has channels: it remembers that it had some,
/// and returns `true` (close the stream) when the last one went away.
pub fn update_presence(any_channels: bool, had_channels: &mut bool) -> (r: bool)
    ensures
        any_channels ==> *final(had_channels) && !r,
        !any_channels ==> !*final(had_channels) && r == *old(had_channels),
{
    if any_channels {
        *had_channels = true;
        false
    } else if *had_channels {
        *had_channels = false;
        true
    } else {
        false
    }
}

// === Ready: voice states and guild members ===
/// The last position of `id` in `ids`.
pub open spec fn last_index_of(ids: Seq<u64>, id: u64) -> Option<int>
    decreases ids.len(),
{
    if ids.len() == 0 {
        None
    } else if ids.last() == id {
        Some(ids.len() - 1)
    } else {
        last_index_of(ids.drop_last(), id)
    }
}

/// Whether the user of the `j`-th voice state already had an earlier one.
pub open spec fn seen_before(voice: Seq<u64>, j: int) -> bool {
    exists|k: int| 0 <= k < j && voice[k] == voice[j]
}

/// The member paired with the `j`-th voice state: members are looked up by
/// user id (a later entry of the same user wins), and each member goes to
/// the first voice state of its user only.
pub open spec fn paired_member(members: Seq<u64>, voice: Seq<u64>, j: int) -> Option<int> {
    if seen_before(voice, j) {
        None
    } else {
        last_index_of(members, voice[j])
    }
}

fn last_index(ids: &Vec<u64>, id: u64) -> (r: Option<usize>)
    ensures
        match r {
            Some(i) => last_index_of(ids@, id) == Some(i as int),
            None => last_index_of(ids@, id) is None,
        },
{
    let mut i: usize = ids.len();
    proof {
        assert(ids@.take(i as int) =~= ids@);
    }
    while i > 0
        invariant
            i <= ids@.len(),
            last_index_of(ids@, id) == last_index_of(ids@.take(i as int), id),
        decreases i,
    {
        proof {
            assert(ids@.take(i as int).drop_last() =~= ids@.take(i - 1));
        }
        if ids[i - 1] == id {
            return Some(i - 1);
        }
        i = i - 1;
    }
    None
}

fn has_earlier(voice: &Vec<u64>, j: usize) -> (r: bool)
    requires
        j < voice@.len(),
    ensures
        r == seen_before(voice@, j as int),
{
    let mut k: usize = 0;
    while k < j
        invariant
            k <= j < voice@.len(),
            forall|m: int| 0 <= m < k ==> voice@[m] != voice@[j as int],
        decreases j - k,
    {
        if voice[k] == voice[j] {
            return true;
        }
        k = k + 1;
    }
    false
}

/// Pairs a Ready guild's voice states (by user id, in order) with its
/// members: `members` are the guild's own member user ids followed by its
/// entry of the merged members. The result gives, per voice state, the
/// position of the paired member, if any.
pub fn pair_voice_members(members: &Vec<u64>, voice: &Vec<u64>) -> (r: Vec<Option<usize>>)
    ensures
        r@.len() == voice@.len(),
        forall|j: int| 0 <= j < voice@.len() ==> match #[trigger] r@[j] {
            Some(i) => paired_member(members@, voice@, j) == Some(i as int),
            None => paired_member(members@, voice@, j) is None,
        },
{
    let mut r: Vec<Option<usize>> = Vec::new();
    let mut j: usize = 0;
    while j < voice.len()
        invariant
            j <= voice@.len(),
            r@.len() == j,
            forall|m: int| 0 <= m < j ==> match #[trigger] r@[m] {
                Some(i) => paired_member(members@, voice@, m) == Some(i as int),
                None => paired_member(members@, voice@, m) is None,
            },
        decreases voice@.len() - j,
    {
        let p = if has_earlier(voice, j) {
            None
        } else {
            last_index(members, voice[j])
        };
        r.push(p);
        j = j + 1;
    }
    r
}

/// The position found for an id holds that id, and no later one does.
pub proof fn lemma_last_index_of(ids: Seq<u64>, id: u64)
    ensures
        last_index_of(ids, id) matches Some(i) ==> 0 <= i < ids.len() && ids[i] == id && forall|k: int|
            i < k < ids.len() ==> ids[k] != id,
        last_index_of(ids, id) is None ==> forall|k: int| 0 <= k < ids.len() ==> ids[k] != id,
    decreases ids.len(),
{
    if ids.len() > 0 && ids.last() != id {
        lemma_last_index_of(ids.drop_last(), id);
        assert forall|k: int| 0 <= k < ids.len() - 1 implies ids[k] == ids.drop_last()[k] by {}
    }
}

/// A voice state is paired with a member of its own user, the last such
/// member listed; a user with several voice states gets their member on the
/// first only.
pub proof fn law_voice_members_paired_once(members: Seq<u64>, voice: Seq<u64>, j1: int, j2: int)
    requires
        0 <= j1 < j2 < voice.len(),
        voice[j1] == voice[j2],
    ensures
        paired_member(members, voice, j2) is None,
        paired_member(members, voice, j1) matches Some(i) ==> members[i] == voice[j1] && forall|k: int|
            i < k < members.len() ==> members[k] != voice[j1],
{
    lemma_last_index_of(members, voice[j1]);
}

// === the dispatch step ===
/// What the dispatcher reads of an event's data, for the events that need it.
#[derive(Clone, Copy, Debug, PartialEq, Eq, Structural)]
pub struct EventFacts {
    /// The user the event is about: a voice state's user, or Ready's own user.
    pub user_id: Option<Snowflake>,
    /// Whether a voice server update names an endpoint.
    pub has_endpoint: bool,
    /// Whether a created channel has a location (guild or private).
    pub has_location: bool,
    /// The guild of a created channel.
    pub guild_id: Option<Snowflake>,
}

/// A received gateway payload, as far as the dispatcher decides on it.
#[derive(Clone, Copy, Debug, PartialEq, Eq, Structural)]
pub enum PayloadFacts {
    /// An opcode other than dispatch.
    Control(Opcode),
    /// A dispatch without an event name.
    UnnamedDispatch,
    /// A dispatch whose event name is none this client knows.
    UnknownEvent,
    /// A dispatch of `event`; `parsed` tells whether its data parsed as that
    /// event's payload.
    Dispatch { event: GatewayEvent, parsed: bool, facts: EventFacts },
}

/// The dispatcher's state between payloads.
#[derive(Clone, Copy, Debug, PartialEq, Eq, Structural)]
pub struct DispatchState {
    /// Whether the gateway connection is up.
    pub connected: bool,
    /// The last sequence number received.
    pub last_sequence: Option<u64>,
    /// The logged-in user, once known.
    pub own_user: Option<Snowflake>,
    /// Whether the voice gateway is connected.
    pub voice_gateway_up: bool,
}

/// What the dispatcher does, in order.
#[derive(Clone, Copy, Debug, PartialEq, Eq, Structural)]
pub enum DispatchAction {
    /// Forget every voice state and roster (a Ready rebuilds them).
    ResetVoiceRosters,
    /// Store Ready's profile, channels, relationships and guilds.
    StoreReady,
    /// Hand the own voice state's session id to the voice handshake.
    InsertSessionId,
    /// Apply a voice state to the rosters and report the participant.
    UpdateVoiceRoster,
    /// Hand the voice server's endpoint to the voice handshake.
    InsertEndpoint,
    /// Try to connect the voice gateway.
    ConnectVoice,
    /// Record the event for in-flight message fetches.
    Record,
    /// Emit the event to the text stream.
    EmitText,
    /// Map the created channel's room to its location.
    MapChannel,
    /// Append the created channel to its guild's channel cache.
    CacheGuildChannel(Snowflake),
    /// Emit the channel creation to the query stream.
    EmitChannelCreated,
    /// Tear the gateway connection down.
    TearDown,
}

/// Why a payload's handling failed.
#[derive(Clone, Copy, Debug, PartialEq, Eq, Structural)]
pub enum DispatchFailure {
    /// No gateway connection is up.
    NotConnected,
    /// The event's data did not parse.
    Malformed,
    /// A handler refused the event.
    Refused(DispatchError),
}

/// The actions and failure of a payload's handling.
#[derive(Debug)]
pub struct DispatchOutcome {
    pub actions: Vec<DispatchAction>,
    pub failure: Option<DispatchFailure>,
}

/// The handling of a dispatch of `event` on a connected gateway: its
/// actions, failure, and the own user afterwards.
pub open spec fn event_handling(
    st: DispatchState,
    event: GatewayEvent,
    parsed: bool,
    f: EventFacts,
) -> (Seq<DispatchAction>, Option<DispatchFailure>, Option<Snowflake>) {
    let malformed = (Seq::<DispatchAction>::empty(), Some(DispatchFailure::Malformed), st.own_user);
    match event {
        GatewayEvent::Ready => if parsed {
            (
                seq![DispatchAction::ResetVoiceRosters, DispatchAction::StoreReady],
                None,
                if f.user_id is Some {
                    f.user_id
                } else {
                    st.own_user
                },
            )
        } else {
            (seq![DispatchAction::ResetVoiceRosters], Some(DispatchFailure::Malformed), st.own_user)
        },
        GatewayEvent::SessionsReplace => if parsed {
            (Seq::empty(), None, st.own_user)
        } else {
            malformed
        },
        GatewayEvent::VoiceStateUpdate => if parsed {
            let own = f.user_id is Some && st.own_user == f.user_id;
            let first: Seq<DispatchAction> = if own {
                seq![DispatchAction::InsertSessionId]
            } else {
                Seq::empty()
            };
            let last: Seq<DispatchAction> = if own && !st.voice_gateway_up {
                seq![DispatchAction::ConnectVoice]
            } else {
                Seq::empty()
            };
            (first + seq![DispatchAction::UpdateVoiceRoster] + last, None, st.own_user)
        } else {
            malformed
        },
        GatewayEvent::VoiceServerUpdate => if !parsed {
            malformed
        } else if !f.has_endpoint {
            (Seq::empty(), Some(DispatchFailure::Refused(DispatchError::MissingVoiceEndpoint)), st.own_user)
        } else if st.own_user is None {
            (
                seq![DispatchAction::InsertEndpoint],
                Some(DispatchFailure::Refused(DispatchError::ProfileNotLoaded)),
                st.own_user,
            )
        } else {
            (seq![DispatchAction::InsertEndpoint, DispatchAction::ConnectVoice], None, st.own_user)
        },
        GatewayEvent::MessageCreate => if parsed {
            (seq![DispatchAction::EmitText], None, st.own_user)
        } else {
            malformed
        },
        GatewayEvent::MessageUpdate => if parsed {
            (seq![DispatchAction::Record, DispatchAction::EmitText], None, st.own_user)
        } else {
            (Seq::empty(), None, st.own_user)
        },
        GatewayEvent::MessageDelete | GatewayEvent::MessageReactionAdd | GatewayEvent::MessageReactionRemove => if parsed {
            (seq![DispatchAction::Record, DispatchAction::EmitText], None, st.own_user)
        } else {
            malformed
        },
        GatewayEvent::ChannelCreate => if parsed {
            let map: Seq<DispatchAction> = if f.has_location {
                seq![DispatchAction::MapChannel]
            } else {
                Seq::empty()
            };
            let cache: Seq<DispatchAction> = match f.guild_id {
                Some(g) => seq![DispatchAction::CacheGuildChannel(g)],
                None => Seq::empty(),
            };
            (map + cache + seq![DispatchAction::EmitChannelCreated], None, st.own_user)
        } else {
            malformed
        },
        _ => (Seq::empty(), None, st.own_user),
    }
}

/// One step of the main gateway's dispatcher: on a connected gateway the
/// sequence number is stored first, then the payload is handled.
pub open spec fn dispatch_spec(st: DispatchState, sequence: Option<u64>, p: PayloadFacts) -> (
    DispatchState,
    Seq<DispatchAction>,
    Option<DispatchFailure>,
) {
    if !st.connected {
        (st, Seq::empty(), Some(DispatchFailure::NotConnected))
    } else {
        let st1 = DispatchState {
            last_sequence: if sequence is Some {
                sequence
            } else {
                st.last_sequence
            },
            ..st
        };
        match p {
            PayloadFacts::Control(op) => if op == Opcode::Reconnect || op == Opcode::InvalidSession {
                (DispatchState { connected: false, ..st1 }, seq![DispatchAction::TearDown], None)
            } else {
                (st1, Seq::empty(), None)
            },
            PayloadFacts::UnnamedDispatch => (st1, Seq::empty(), None),
            PayloadFacts::UnknownEvent => (st1, Seq::empty(), None),
            PayloadFacts::Dispatch { event, parsed, facts } => {
                let (actions, failure, own) = event_handling(st1, event, parsed, facts);
                (DispatchState { own_user: own, ..st1 }, actions, failure)
            },
        }
    }
}

fn push_all(out: &mut Vec<DispatchAction>, items: &[DispatchAction])
    ensures
        final(out)@ == old(out)@ + items@,
{
    let mut i: usize = 0;
    let ghost start = out@;
    while i < items.len()
        invariant
            i <= items@.len(),
            out@ == start + items@.take(i as int),
        decreases items@.len() - i,
    {
        out.push(items[i]);
        proof {
            assert(items@.take(i + 1) =~= items@.take(i as int).push(items@[i as int]));
        }
        i = i + 1;
    }
    proof {
        assert(items@.take(items@.len() as int) =~= items@);
    }
}

/// Handles one payload of the main gateway (see [`dispatch_spec`]).
pub fn dispatch_step(st: &mut DispatchState, sequence: Option<u64>, p: &PayloadFacts) -> (r: DispatchOutcome)
    ensures
        (*final(st), r.actions@, r.failure) == dispatch_spec(*old(st), sequence, *p),
{
    let mut actions: Vec<DispatchAction> = Vec::new();
    if !st.connected {
        return DispatchOutcome { actions, failure: Some(DispatchFailure::NotConnected) };
    }
    if sequence.is_some() {
        st.last_sequence = sequence;
    }
    let mut failure: Option<DispatchFailure> = None;
    match *p {
        PayloadFacts::Control(op) => {
            if op == Opcode::Reconnect || op == Opcode::InvalidSession {
                st.connected = false;
                actions.push(DispatchAction::TearDown);
                proof {
                    assert(actions@ =~= seq![DispatchAction::TearDown]);
                }
            }
        },
        PayloadFacts::UnnamedDispatch => {},
        PayloadFacts::UnknownEvent => {},
        PayloadFacts::Dispatch { event, parsed, facts } => {
            match event {
                GatewayEvent::Ready => {
                    push_all(&mut actions, &[DispatchAction::ResetVoiceRosters]);
                    if parsed {
                        push_all(&mut actions, &[DispatchAction::StoreReady]);
                        if facts.user_id.is_some() {
                            st.own_user = facts.user_id;
                        }
                    } else {
                        failure = Some(DispatchFailure::Malformed);
                    }
                },
                GatewayEvent::SessionsReplace => {
                    if !parsed {
                        failure = Some(DispatchFailure::Malformed);
                    }
                },
                GatewayEvent::VoiceStateUpdate => {
                    if parsed {
                        let own = facts.user_id.is_some() && st.own_user == facts.user_id;
                        if own {
                            push_all(&mut actions, &[DispatchAction::InsertSessionId]);
                        }
                        push_all(&mut actions, &[DispatchAction::UpdateVoiceRoster]);
                        if own && !st.voice_gateway_up {
                            push_all(&mut actions, &[DispatchAction::ConnectVoice]);
                        }
                    } else {
                        failure = Some(DispatchFailure::Malformed);
                    }
                },
                GatewayEvent::VoiceServerUpdate => {
                    if !parsed {
                        failure = Some(DispatchFailure::Malformed);
                    } else if !facts.has_endpoint {
                        failure = Some(DispatchFailure::Refused(DispatchError::MissingVoiceEndpoint));
                    } else {
                        push_all(&mut actions, &[DispatchAction::InsertEndpoint]);
                        if st.own_user.is_none() {
                            failure = Some(DispatchFailure::Refused(DispatchError::ProfileNotLoaded));
                        } else {
                            push_all(&mut actions, &[DispatchAction::ConnectVoice]);
                        }
                    }
                },
                GatewayEvent::MessageCreate => {
                    if parsed {
                        push_all(&mut actions, &[DispatchAction::EmitText]);
                    } else {
                        failure = Some(DispatchFailure::Malformed);
                    }
                },
                GatewayEvent::MessageUpdate => {
                    if parsed {
                        push_all(&mut actions, &[DispatchAction::Record, DispatchAction::EmitText]);
                    }
                },
                GatewayEvent::MessageDelete | GatewayEvent::MessageReactionAdd | GatewayEvent::MessageReactionRemove => {
                    if parsed {
                        push_all(&mut actions, &[DispatchAction::Record, DispatchAction::EmitText]);
                    } else {
                        failure = Some(DispatchFailure::Malformed);
                    }
                },
                GatewayEvent::ChannelCreate => {
                    if parsed {
                        if facts.has_location {
                            push_all(&mut actions, &[DispatchAction::MapChannel]);
                        }
                        match facts.guild_id {
                            Some(g) => push_all(&mut actions, &[DispatchAction::CacheGuildChannel(g)]),
                            None => {},
                        }
                        push_all(&mut actions, &[DispatchAction::EmitChannelCreated]);
                    } else {
                        failure = Some(DispatchFailure::Malformed);
                    }
                },
                _ => {},
            }
            proof {
                let (a, f, o) = event_handling(DispatchState { own_user: old(st).own_user, ..*st }, event, parsed, facts);
                assert(actions@ =~= a);
            }
        },
    }
    DispatchOutcome { actions, failure }
}

/// A recorded event is recorded before it is emitted, so a fetch whose
/// recording window is open sees it before the interface can.
pub proof fn law_record_before_emit(st: DispatchState, sequence: Option<u64>, p: PayloadFacts)
    ensures
        ({
            let actions = dispatch_spec(st, sequence, p).1;
            forall|i: int, j: int|
                0 <= i < actions.len() && 0 <= j < actions.len() && actions[i] == DispatchAction::Record
                    && actions[j] == DispatchAction::EmitText ==> i < j
        }),
{
}

/// Whether an event carries a message or a reaction to the text stream.
pub open spec fn is_text_event(e: GatewayEvent) -> bool {
    e == GatewayEvent::MessageCreate || e == GatewayEvent::MessageUpdate || e == GatewayEvent::MessageDelete
        || e == GatewayEvent::MessageReactionAdd || e == GatewayEvent::MessageReactionRemove
}

/// On a connected gateway, every parsed message or reaction event is
/// emitted to the text stream exactly once and succeeds; all but a new
/// message are recorded for in-flight fetches first.
pub proof fn law_text_events_are_emitted(st: DispatchState, sequence: Option<u64>, event: GatewayEvent, facts: EventFacts)
    requires
        st.connected,
        is_text_event(event),
    ensures
        ({
            let (after, actions, failure) = dispatch_spec(
                st,
                sequence,
                PayloadFacts::Dispatch { event, parsed: true, facts },
            );
            &&& failure is None
            &&& actions.contains(DispatchAction::EmitText)
            &&& forall|i: int, j: int|
                0 <= i < j < actions.len() ==> !(actions[i] == DispatchAction::EmitText && actions[j]
                    == DispatchAction::EmitText)
            &&& (event != GatewayEvent::MessageCreate ==> actions.contains(DispatchAction::Record))
            &&& after.connected
        }),
{
    let actions = dispatch_spec(st, sequence, PayloadFacts::Dispatch { event, parsed: true, facts }).1;
    assert(actions[actions.len() - 1] == DispatchAction::EmitText);
    if event != GatewayEvent::MessageCreate {
        assert(actions[0] == DispatchAction::Record);
    }
}

/// On a connected gateway a payload's sequence number, when it has one,
/// becomes the last one; Reconnect and InvalidSession tear the connection
/// down; on a disconnected gateway nothing changes and the payload fails.
pub proof fn law_sequence_and_teardown(st: DispatchState, sequence: Option<u64>, p: PayloadFacts)
    ensures
        ({
            let (after, actions, failure) = dispatch_spec(st, sequence, p);
            &&& st.connected ==> after.last_sequence == (if sequence is Some {
                sequence
            } else {
                st.last_sequence
            })
            &&& st.connected && (p == PayloadFacts::Control(Opcode::Reconnect) || p == PayloadFacts::Control(
                Opcode::InvalidSession,
            )) ==> !after.connected && actions == seq![DispatchAction::TearDown]
            &&& !st.connected ==> after == st && actions.len() == 0 && failure == Some(
                DispatchFailure::NotConnected,
            )
        }),
{
}

/// A voice server update naming an endpoint, once the own user is known,
/// hands the endpoint over and tries to connect the voice gateway.
pub proof fn law_voice_server_update_connects(st: DispatchState, sequence: Option<u64>, facts: EventFacts)
    requires
        st.connected,
        st.own_user is Some,
        facts.has_endpoint,
    ensures
        dispatch_spec(
            st,
            sequence,
            PayloadFacts::Dispatch { event: GatewayEvent::VoiceServerUpdate, parsed: true, facts },
        ).1 == seq![DispatchAction::InsertEndpoint, DispatchAction::ConnectVoice],
{
}

/// The own voice state arriving while the voice gateway is down leads to a
/// connect attempt (the voice server update may have come first).
pub proof fn law_own_voice_state_connects(st: DispatchState, sequence: Option<u64>, facts: EventFacts)
    requires
        st.connected,
        st.own_user is Some,
        !st.voice_gateway_up,
        facts.user_id == st.own_user,
    ensures
        dispatch_spec(
            st,
            sequence,
            PayloadFacts::Dispatch { event: GatewayEvent::VoiceStateUpdate, parsed: true, facts },
        ).1.contains(DispatchAction::ConnectVoice),
{
    let actions = dispatch_spec(
        st,
        sequence,
        PayloadFacts::Dispatch { event: GatewayEvent::VoiceStateUpdate, parsed: true, facts },
    ).1;
    assert(actions[actions.len() - 1] == DispatchAction::ConnectVoice);
}

/// Placeholder of the peer-to-peer transport, which is not implemented.
pub fn placeholder() {
}

} // verus!
