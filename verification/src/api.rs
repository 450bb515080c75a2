//! Discord REST / gateway payload objects that the library's logic reads.
//!
//! These hold the decoded fields as plain values; decoding from JSON happens
//! at the edge.

use vstd::prelude::*;

verus! {

/// A Discord snowflake id.
pub type Snowflake = u64;

/// A Discord user as embedded in messages.
#[derive(Debug)]
pub struct User {
    pub avatar: Option<String>,
    pub id: Snowflake,
    pub username: String,
}

/// A reaction emoji: custom emoji carry an id, Unicode emoji only a name.
#[derive(Debug)]
pub struct Emoji {
    pub id: Option<Snowflake>,
    pub name: String,
}

/// One reaction entry on a message.
#[derive(Debug)]
pub struct Reaction {
    pub count: u32,
    pub emoji: Emoji,
    pub me: bool,
}

/// One sticker attached to a message (`sticker_items`).
#[derive(Debug)]
pub struct StickerItem {
    pub id: Snowflake,
    pub name: String,
    /// 1 = PNG, 2 = APNG, 3 = Lottie (JSON), 4 = GIF.
    pub format_type: u8,
}

/// A Discord message.
#[derive(Debug)]
pub struct Message {
    pub author: User,
    pub channel_id: Snowflake,
    pub content: String,
    pub edited_timestamp: Option<String>,
    pub id: Snowflake,
    pub reactions: Option<Vec<Reaction>>,
    pub sticker_items: Option<Vec<StickerItem>>,
    pub timestamp: String,
}

pub fn clone_string(s: &String) -> (r: String)
    ensures
        r == *s,
{
    s.clone()
}

pub fn clone_opt_string(s: &Option<String>) -> (r: Option<String>)
    ensures
        r == *s,
{
    match s {
        Some(v) => Some(v.clone()),
        None => None,
    }
}

impl Clone for User {
    fn clone(&self) -> (r: Self)
        ensures
            r == *self,
    {
        User { avatar: clone_opt_string(&self.avatar), id: self.id, username: self.username.clone() }
    }
}

impl Clone for Emoji {
    fn clone(&self) -> (r: Self)
        ensures
            r == *self,
    {
        Emoji { id: self.id, name: self.name.clone() }
    }
}

impl Clone for Reaction {
    fn clone(&self) -> (r: Self)
        ensures
            r == *self,
    {
        Reaction { count: self.count, emoji: self.emoji.clone(), me: self.me }
    }
}

impl Clone for StickerItem {
    fn clone(&self) -> (r: Self)
        ensures
            r == *self,
    {
        StickerItem { id: self.id, name: self.name.clone(), format_type: self.format_type }
    }
}

pub fn clone_reactions(v: &Vec<Reaction>) -> (r: Vec<Reaction>)
    ensures
        r@ == v@,
{
    let mut out: Vec<Reaction> = Vec::new();
    let mut i: usize = 0;
    while i < v.len()
        invariant
            0 <= i <= v@.len(),
            out@ == v@.take(i as int),
        decreases v@.len() - i,
    {
        out.push(v[i].clone());
        assert(v@.take(i + 1) =~= v@.take(i as int).push(v@[i as int]));
        i += 1;
    }
    assert(v@.take(v@.len() as int) =~= v@);
    out
}

pub fn clone_opt_reactions(v: &Option<Vec<Reaction>>) -> (r: Option<Vec<Reaction>>)
    ensures
        match (r, *v) {
            (Some(a), Some(b)) => a@ == b@,
            (None, None) => true,
            _ => false,
        },
{
    match v {
        Some(rs) => Some(clone_reactions(rs)),
        None => None,
    }
}

pub fn clone_stickers(v: &Vec<StickerItem>) -> (r: Vec<StickerItem>)
    ensures
        r@ == v@,
{
    let mut out: Vec<StickerItem> = Vec::new();
    let mut i: usize = 0;
    while i < v.len()
        invariant
            0 <= i <= v@.len(),
            out@ == v@.take(i as int),
        decreases v@.len() - i,
    {
        out.push(v[i].clone());
        assert(v@.take(i + 1) =~= v@.take(i as int).push(v@[i as int]));
        i += 1;
    }
    assert(v@.take(v@.len() as int) =~= v@);
    out
}

/// Reactions of a message as a sequence (`None` when the field is absent).
pub open spec fn reactions_of(m: Message) -> Option<Seq<Reaction>> {
    match m.reactions {
        Some(rs) => Some(rs@),
        None => None,
    }
}

pub open spec fn stickers_of(m: Message) -> Option<Seq<StickerItem>> {
    match m.sticker_items {
        Some(v) => Some(v@),
        None => None,
    }
}

/// The content of a [`Message`], its lists taken as sequences.
pub struct MessageView {
    pub author: User,
    pub channel_id: Snowflake,
    pub content: String,
    pub edited_timestamp: Option<String>,
    pub id: Snowflake,
    pub reactions: Option<Seq<Reaction>>,
    pub sticker_items: Option<Seq<StickerItem>>,
    pub timestamp: String,
}

impl View for Message {
    type V = MessageView;

    open spec fn view(&self) -> MessageView {
        MessageView {
            author: self.author,
            channel_id: self.channel_id,
            content: self.content,
            edited_timestamp: self.edited_timestamp,
            id: self.id,
            reactions: reactions_of(*self),
            sticker_items: stickers_of(*self),
            timestamp: self.timestamp,
        }
    }
}

/// The views of a list of messages.
pub open spec fn messages_view(ms: Seq<Message>) -> Seq<MessageView> {
    ms.map_values(|m: Message| m@)
}

impl Message {
    /// A field-by-field copy.
    pub fn duplicate(&self) -> (r: Message)
        ensures
            r@ == self@,
    {
        Message {
            author: self.author.clone(),
            channel_id: self.channel_id,
            content: self.content.clone(),
            edited_timestamp: clone_opt_string(&self.edited_timestamp),
            id: self.id,
            reactions: clone_opt_reactions(&self.reactions),
            sticker_items: match &self.sticker_items {
                Some(v) => Some(clone_stickers(v)),
                None => None,
            },
            timestamp: self.timestamp.clone(),
        }
    }
}

/// The logged-in user's profile.
#[derive(Debug)]
pub struct Profile {
    pub avatar: Option<String>,
    pub id: Snowflake,
    pub username: String,
}

/// A relationship entry of the friends list.
#[derive(Debug)]
pub struct Friend {
    pub id: Snowflake,
    pub user: User,
}

/// A participant of a private channel.
#[derive(Debug)]
pub struct Recipient {
    pub avatar: Option<String>,
    pub id: Snowflake,
    pub username: String,
}

/// A permission overwrite; `deny` is a decimal bit set.
#[derive(Debug)]
pub struct OverwriteObject {
    pub deny: String,
}

/// Channel types (Discord's numeric codes in the comments).
#[derive(Clone, Copy, Debug, PartialEq, Eq, Structural)]
pub enum ChannelTypes {
    /// 0
    GuildText,
    /// 1
    DM,
    /// 2
    GuildVoice,
    /// 3
    GroupDM,
    /// 4
    GuildCategory,
    /// 5
    GuildAnnouncement,
    /// 10
    AnnouncementThread,
    /// 11
    PublicThread,
    /// 12
    PrivateThread,
    /// 13
    GuildStageVoice,
    /// 14
    GuildDirectory,
    /// 15
    GuildForum,
    /// 16
    GuildMedia,
}

/// The wire code of each channel type.
pub open spec fn channel_type_code(t: ChannelTypes) -> u8 {
    match t {
        ChannelTypes::GuildText => 0,
        ChannelTypes::DM => 1,
        ChannelTypes::GuildVoice => 2,
        ChannelTypes::GroupDM => 3,
        ChannelTypes::GuildCategory => 4,
        ChannelTypes::GuildAnnouncement => 5,
        ChannelTypes::AnnouncementThread => 10,
        ChannelTypes::PublicThread => 11,
        ChannelTypes::PrivateThread => 12,
        ChannelTypes::GuildStageVoice => 13,
        ChannelTypes::GuildDirectory => 14,
        ChannelTypes::GuildForum => 15,
        ChannelTypes::GuildMedia => 16,
    }
}

impl ChannelTypes {
    /// The channel type written as `code`, if any.
    pub fn from_code(code: u8) -> (r: Option<ChannelTypes>)
        ensures
            r matches Some(t) ==> channel_type_code(t) == code,
            r is None ==> forall|t: ChannelTypes| channel_type_code(t) != code,
    {
        match code {
            0 => Some(ChannelTypes::GuildText),
            1 => Some(ChannelTypes::DM),
            2 => Some(ChannelTypes::GuildVoice),
            3 => Some(ChannelTypes::GroupDM),
            4 => Some(ChannelTypes::GuildCategory),
            5 => Some(ChannelTypes::GuildAnnouncement),
            10 => Some(ChannelTypes::AnnouncementThread),
            11 => Some(ChannelTypes::PublicThread),
            12 => Some(ChannelTypes::PrivateThread),
            13 => Some(ChannelTypes::GuildStageVoice),
            14 => Some(ChannelTypes::GuildDirectory),
            15 => Some(ChannelTypes::GuildForum),
            16 => Some(ChannelTypes::GuildMedia),
            _ => None,
        }
    }

    /// The wire code of the channel type.
    pub fn code(self) -> (r: u8)
        ensures
            r == channel_type_code(self),
    {
        match self {
            ChannelTypes::GuildText => 0,
            ChannelTypes::DM => 1,
            ChannelTypes::GuildVoice => 2,
            ChannelTypes::GroupDM => 3,
            ChannelTypes::GuildCategory => 4,
            ChannelTypes::GuildAnnouncement => 5,
            ChannelTypes::AnnouncementThread => 10,
            ChannelTypes::PublicThread => 11,
            ChannelTypes::PrivateThread => 12,
            ChannelTypes::GuildStageVoice => 13,
            ChannelTypes::GuildDirectory => 14,
            ChannelTypes::GuildForum => 15,
            ChannelTypes::GuildMedia => 16,
        }
    }
}

/// A channel object.
#[derive(Debug)]
pub struct Channel {
    pub id: Snowflake,
    pub guild_id: Option<Snowflake>,
    pub channel_type: ChannelTypes,
    pub position: Option<i32>,
    pub parent_id: Option<String>,
    pub icon: Option<String>,
    pub last_message_id: Option<Snowflake>,
    pub name: Option<String>,
    pub recipients: Option<Vec<Recipient>>,
    pub permission_overwrites: Option<Vec<OverwriteObject>>,
}

/// Reaction count details (no field is read).
#[derive(Debug)]
pub struct CountDetails {}

/// Body of a create-message request.
#[derive(Debug)]
pub struct CreateMessage {
    pub nonce: Option<String>,
    pub enforce_nonce: Option<bool>,
    pub tts: Option<bool>,
    pub content: Option<String>,
    pub flags: Option<u32>,
}

/// Body of `POST /auth/login`.
#[derive(Debug)]
pub struct LoginRequest {
    /// Email or E.164 phone number.
    pub login: String,
    pub password: String,
    /// Whether to reactivate a disabled or deleted account.
    pub undelete: bool,
}

/// Response to `POST /auth/login`: a token, or an MFA ticket.
#[derive(Debug)]
pub struct LoginResponse {
    pub token: Option<String>,
    pub mfa: Option<bool>,
    pub ticket: Option<String>,
    pub totp: Option<bool>,
    pub login_instance_id: Option<String>,
}

/// Body of `POST /auth/mfa/totp`.
#[derive(Debug)]
pub struct MfaTotpRequest {
    pub ticket: String,
    pub code: String,
    pub login_instance_id: Option<String>,
}

/// Response to `POST /auth/mfa/totp`.
#[derive(Debug)]
pub struct MfaResponse {
    pub token: Option<String>,
}

/// Gateway MESSAGE_DELETE payload.
#[derive(Debug)]
pub struct MessageDelete {
    pub id: Snowflake,
    pub channel_id: Snowflake,
}

/// Gateway MESSAGE_REACTION_ADD / _REMOVE payload.
#[derive(Debug)]
pub struct MessageReactionChange {
    pub user_id: Snowflake,
    pub channel_id: Snowflake,
    pub message_id: Snowflake,
    pub emoji: Emoji,
}

/// A guild object.
#[derive(Debug)]
pub struct Guild {
    pub id: Snowflake,
    pub name: String,
    pub icon: Option<String>,
}

} // verus!
