//! The platform-agnostic data model shared by every messenger backend:
//! identifiers, users, rich text, messages, places and the image cache
//! layout. Paths are kept as `/`-separated strings.

use vstd::prelude::*;
use vstd::string::StringExecFns;

use crate::text::{chars_of, decimal_string, decimal_digits, push_char};

verus! {

/// Unique identifier type used throughout the messenger interface.
pub type ID = u64;

/// An ID paired with data; identifiers compare by ID alone.
#[derive(Debug, Clone)]
pub struct Identifier<D> {
    id: ID,
    data: D,
}

impl<D> Identifier<D> {
    pub closed spec fn id_spec(&self) -> ID {
        self.id
    }

    pub closed spec fn data_spec(&self) -> D {
        self.data
    }

    /// Identifiers with the same ID and data are the same value.
    pub proof fn lemma_same(a: Self, b: Self)
        requires
            a.id_spec() == b.id_spec(),
            a.data_spec() == b.data_spec(),
        ensures
            a == b,
    {
    }

    /// An identifier with the given ID and data.
    pub fn new(id: ID, data: D) -> (r: Self)
        ensures
            r.id_spec() == id,
            r.data_spec() == data,
    {
        Identifier { id, data }
    }

    /// The unique ID.
    pub fn id(&self) -> (r: &ID)
        ensures
            *r == self.id_spec(),
    {
        &self.id
    }

    /// The same ID with other data.
    pub fn swap_data<T>(&self, new_data: T) -> (r: Identifier<T>)
        ensures
            r.id_spec() == self.id_spec(),
            r.data_spec() == new_data,
    {
        Identifier { id: self.id, data: new_data }
    }

    /// The data the ID carries.
    pub fn data(&self) -> (r: &D)
        ensures
            *r == self.data_spec(),
    {
        &self.data
    }

    /// Replaces the data the ID carries.
    pub fn set_data(&mut self, data: D)
        ensures
            final(self).id_spec() == old(self).id_spec(),
            final(self).data_spec() == data,
    {
        self.data = data;
    }

    /// Takes the data out.
    pub fn into_data(self) -> (r: D)
        ensures
            r == self.data_spec(),
    {
        self.data
    }
}

impl<D, E> PartialEq<Identifier<E>> for Identifier<D> {
    fn eq(&self, other: &Identifier<E>) -> (r: bool) {
        self.id == other.id
    }
}

impl<D, E> vstd::std_specs::cmp::PartialEqSpecImpl<Identifier<E>> for Identifier<D> {
    open spec fn obeys_eq_spec() -> bool {
        true
    }

    open spec fn eq_spec(&self, other: &Identifier<E>) -> bool {
        self.id_spec() == other.id_spec()
    }
}

/// A user of the messenger.
#[derive(Debug, Clone)]
pub struct User {
    /// Display name.
    pub name: String,
    /// Path of the cached avatar image, if any.
    pub icon: Option<String>,
}

/// A custom emoji: a small image identified by a shortcode, which doubles
/// as the textual fallback `:shortcode:`.
#[derive(Debug, Clone, Default)]
pub struct Emoji {
    pub shortcode: String,
    /// Path of the cached image; `None` for Unicode or unresolved emoji.
    pub image: Option<String>,
}

impl Emoji {
    /// A shortcode-only emoji with no resolved image.
    pub fn shortcode(shortcode: String) -> (r: Self)
        ensures
            r.shortcode@ == shortcode@,
            r.image is None,
    {
        Emoji { shortcode, image: None }
    }
}

/// Inline text styling for a run of text.
#[derive(Debug, Clone, Copy, PartialEq, Eq)]
pub struct TextStyle {
    pub bold: bool,
    pub italic: bool,
}

impl TextStyle {
    /// Unstyled text.
    pub open spec fn plain_spec() -> TextStyle {
        TextStyle { bold: false, italic: false }
    }
}

impl Default for TextStyle {
    fn default() -> (r: Self)
        ensures
            r == TextStyle::plain_spec(),
    {
        TextStyle { bold: false, italic: false }
    }
}

/// One inline piece of a message's content.
#[derive(Debug, Clone)]
pub enum Span {
    /// A run of plain text with optional styling.
    Text { text: String, style: TextStyle },
    /// A custom emoji rendered inline.
    Emoji(Emoji),
    /// A sticker: a large standalone image with a textual fallback.
    Sticker { alt: String, image: Option<String> },
    /// A hyperlink: display text plus its target.
    Link { text: String, href: String },
}

/// The plain-text projection of a span: emoji become `:shortcode:`,
/// stickers their alt text, links their display text.
pub open spec fn span_plain(s: Span) -> Seq<char> {
    match s {
        Span::Text { text, .. } => text@,
        Span::Emoji(e) => seq![':'] + e.shortcode@ + seq![':'],
        Span::Sticker { alt, .. } => alt@,
        Span::Link { text, .. } => text@,
    }
}

/// The concatenated plain-text projections of spans.
pub open spec fn spans_plain(ss: Seq<Span>) -> Seq<char>
    decreases ss.len(),
{
    if ss.len() == 0 {
        Seq::empty()
    } else {
        spans_plain(ss.drop_last()) + span_plain(ss.last())
    }
}

/// Appends `s` to `out`.
fn append_str(out: &mut String, s: &str)
    ensures
        final(out)@ == old(out)@ + s@,
{
    out.append(s);
}

impl Span {
    /// Plain-text projection, for flattening, search and logging.
    pub fn to_plain(&self) -> (r: String)
        ensures
            r@ == span_plain(*self),
    {
        match self {
            Span::Text { text, .. } => text.clone(),
            Span::Emoji(emoji) => {
                let mut r = String::new();
                push_char(&mut r, ':');
                append_str(&mut r, emoji.shortcode.as_str());
                push_char(&mut r, ':');
                proof {
                    assert(r@ =~= seq![':'] + emoji.shortcode@ + seq![':']);
                }
                r
            },
            Span::Sticker { alt, .. } => alt.clone(),
            Span::Link { text, .. } => text.clone(),
        }
    }
}

/// A message's rendered content: a flat sequence of inline spans.
#[derive(Debug, Clone, Default)]
pub struct RichText {
    pub spans: Vec<Span>,
}

impl RichText {
    /// A single unstyled text span; empty input yields no spans.
    pub fn plain(text: String) -> (r: Self)
        ensures
            text@.len() == 0 ==> r.spans@.len() == 0,
            text@.len() > 0 ==> r.spans@ == seq![
                Span::Text { text: text, style: TextStyle::plain_spec() },
            ],
    {
        if text.as_str().is_empty() {
            return RichText { spans: Vec::new() };
        }
        let mut spans = Vec::new();
        spans.push(Span::Text { text, style: TextStyle::default() });
        proof {
            assert(spans@ =~= seq![Span::Text { text: text, style: TextStyle::plain_spec() }]);
        }
        RichText { spans }
    }

    /// The concatenated plain text of all spans.
    pub fn to_plain(&self) -> (r: String)
        ensures
            r@ == spans_plain(self.spans@),
    {
        let mut r = String::new();
        let mut i: usize = 0;
        while i < self.spans.len()
            invariant
                i <= self.spans@.len(),
                r@ == spans_plain(self.spans@.take(i as int)),
            decreases self.spans@.len() - i,
        {
            let piece = self.spans[i].to_plain();
            append_str(&mut r, piece.as_str());
            proof {
                assert(self.spans@.take(i + 1).drop_last() =~= self.spans@.take(i as int));
            }
            i = i + 1;
        }
        proof {
            assert(self.spans@.take(self.spans@.len() as int) =~= self.spans@);
        }
        r
    }

    /// True when nothing renders: no spans, or only text spans with empty
    /// text. Emoji, stickers and links always render.
    pub fn is_empty(&self) -> (r: bool)
        ensures
            r == (forall|i: int| 0 <= i < self.spans@.len() ==> is_empty_text(#[trigger] self.spans@[i])),
    {
        let mut i: usize = 0;
        while i < self.spans.len()
            invariant
                i <= self.spans@.len(),
                forall|j: int| 0 <= j < i ==> is_empty_text(#[trigger] self.spans@[j]),
            decreases self.spans@.len() - i,
        {
            match &self.spans[i] {
                Span::Text { text, .. } => {
                    if !text.as_str().is_empty() {
                        return false;
                    }
                },
                _ => {
                    return false;
                },
            }
            i = i + 1;
        }
        true
    }
}

/// A text span with no text.
pub open spec fn is_empty_text(s: Span) -> bool {
    s matches Span::Text { text, .. } && text@.len() == 0
}

/// A reaction (emoji) on a message.
#[derive(Debug, Clone)]
pub struct Reaction {
    /// The emoji reacted with.
    pub emoji: Emoji,
    /// Number of users who reacted with it.
    pub count: u32,
    /// Whether the current user is among them.
    pub reacted: bool,
}

/// Capabilities of a room, as bit flags: text is bit 0, voice bit 1.
#[derive(Debug, Clone, Copy, PartialEq, Eq)]
pub struct RoomCapabilities {
    bits: u8,
}

impl RoomCapabilities {
    pub closed spec fn bits_spec(&self) -> u8 {
        self.bits
    }

    /// The flags with the given bits.
    pub closed spec fn from_bits_spec(bits: u8) -> RoomCapabilities {
        RoomCapabilities { bits }
    }

    /// Flags are determined by their bits.
    pub proof fn lemma_bits(a: RoomCapabilities, bits: u8)
        ensures
            RoomCapabilities::from_bits_spec(bits).bits_spec() == bits,
            a.bits_spec() == bits ==> a == RoomCapabilities::from_bits_spec(bits),
    {
    }

    /// No capability.
    pub fn empty() -> (r: Self)
        ensures
            r.bits_spec() == 0,
    {
        RoomCapabilities { bits: 0 }
    }

    /// Text messaging.
    pub fn text() -> (r: Self)
        ensures
            r.bits_spec() == 1,
    {
        RoomCapabilities { bits: 1 }
    }

    /// Voice chat.
    pub fn voice() -> (r: Self)
        ensures
            r.bits_spec() == 2,
    {
        RoomCapabilities { bits: 2 }
    }

    /// The flag bits.
    pub fn bits(&self) -> (r: u8)
        ensures
            r == self.bits_spec(),
    {
        self.bits
    }

    /// Flags from bits, dropping those that name no capability.
    pub fn from_bits_truncate(bits: u8) -> (r: Self)
        ensures
            r.bits_spec() == bits % 4,
    {
        RoomCapabilities { bits: bits % 4 }
    }

    /// Whether the text flag is set.
    pub fn has_text(&self) -> (r: bool)
        ensures
            r == (self.bits_spec() % 2 == 1),
    {
        self.bits % 2 == 1
    }

    /// Whether the voice flag is set.
    pub fn has_voice(&self) -> (r: bool)
        ensures
            r == ((self.bits_spec() / 2) % 2 == 1),
    {
        (self.bits / 2) % 2 == 1
    }

    /// Both sets of flags.
    pub fn union(self, other: Self) -> (r: Self)
        requires
            self.bits_spec() < 4,
            other.bits_spec() < 4,
        ensures
            r.bits_spec() < 4,
            (r.bits_spec() % 2 == 1) == (self.bits_spec() % 2 == 1 || other.bits_spec() % 2 == 1),
            ((r.bits_spec() / 2) % 2 == 1) == ((self.bits_spec() / 2) % 2 == 1 || (other.bits_spec() / 2) % 2 == 1),
    {
        let t = self.bits % 2 == 1 || other.bits % 2 == 1;
        let v = (self.bits / 2) % 2 == 1 || (other.bits / 2) % 2 == 1;
        let bits: u8 = (if t { 1u8 } else { 0u8 }) + (if v { 2u8 } else { 0u8 });
        RoomCapabilities { bits }
    }
}

/// A room/channel: its capabilities and, when fetched, its messages and
/// participants.
#[derive(Debug)]
pub struct Room {
    pub room_capabilities: RoomCapabilities,
    pub messages: Option<Vec<Identifier<Message>>>,
    pub participants: Option<Vec<Identifier<User>>>,
}

impl Room {
    /// A room with the given capabilities and optional data.
    pub fn new(
        room_capabilities: RoomCapabilities,
        participants: Option<Vec<Identifier<User>>>,
        messages: Option<Vec<Identifier<Message>>>,
    ) -> (r: Self)
        ensures
            r.room_capabilities == room_capabilities,
            r.participants == participants,
            r.messages == messages,
    {
        Room { room_capabilities, messages, participants }
    }
}

/// A house/server/guild: a container of rooms, when fetched.
#[derive(Debug)]
pub struct House {
    pub rooms: Option<Vec<Identifier<Place<Room>>>>,
}

impl House {
    /// A house with the given rooms.
    pub fn new(rooms: Option<Vec<Identifier<Place<Room>>>>) -> (r: Self)
        ensures
            r.rooms == rooms,
    {
        House { rooms }
    }
}

/// A named place holding room or house data.
#[derive(Debug, Clone)]
pub struct Place<PD> {
    pub name: String,
    /// Path of the cached icon, if any.
    pub icon: Option<String>,
    pub place_data: PD,
}

impl<PD> Place<PD> {
    /// A place with the given name, icon and data.
    pub fn new(name: String, icon: Option<String>, place_data: PD) -> (r: Self)
        ensures
            r.name == name,
            r.icon == icon,
            r.place_data == place_data,
    {
        Place { name, icon, place_data }
    }
}

/// A version of a message's content; `at` is when it became current, in
/// microseconds since the Unix epoch, when the backend knows.
#[derive(Debug, Clone, Default)]
pub struct Revision {
    pub at: Option<i64>,
    pub text: RichText,
}

/// A message: the live revision, earlier revisions (oldest first, empty
/// when never edited), reactions and author.
#[derive(Debug, Default)]
pub struct Message {
    pub content: Revision,
    pub history: Vec<Revision>,
    pub reactions: Vec<Reaction>,
    pub author: Option<Identifier<User>>,
}

impl Message {
    /// Whether the message was ever edited.
    pub fn is_edited(&self) -> (r: bool)
        ensures
            r == (self.history@.len() > 0),
    {
        self.history.len() > 0
    }

    /// Moves the live revision to the end of the history and makes `new`
    /// the live revision.
    pub fn edit(&mut self, new: Revision)
        ensures
            final(self).content == new,
            final(self).history@ == old(self).history@.push(old(self).content),
            final(self).reactions == old(self).reactions,
            final(self).author == old(self).author,
    {
        let mut prev = new;
        std::mem::swap(&mut self.content, &mut prev);
        self.history.push(prev);
    }
}

/// After an edit the message counts as edited, and every earlier revision
/// is kept in order, followed by the one the edit replaced.
pub proof fn law_edit_keeps_history(before: Seq<Revision>, content: Revision, after: Seq<Revision>)
    requires
        after == before.push(content),
    ensures
        after.len() > 0,
        after.take(before.len() as int) == before,
        after.last() == content,
{
    assert(after.take(before.len() as int) =~= before);
}

/// Outcome of a capability a backend does not offer.
#[derive(Debug, Clone, Copy, PartialEq, Eq)]
pub enum MessengerError {
    NotImplemented,
    Requires,
}

/// Non-connected sub-states of a voice call.
#[derive(Debug, Clone, Copy)]
pub enum CallStatus {
    /// Attempting to connect; the string names the pipeline stage.
    Connecting(&'static str),
    Failed,
}

impl CallStatus {
    /// A label for the status.
    pub fn as_str(&self) -> (r: &'static str)
        ensures
            match self {
                CallStatus::Connecting(msg) => r@ == msg@,
                CallStatus::Failed => r@ == "Failed"@,
            },
    {
        match self {
            CallStatus::Connecting(msg) => msg,
            CallStatus::Failed => "Failed",
        }
    }
}

/// A voice call as the UI sees it.
#[derive(Debug, Clone, Copy)]
pub enum CallState {
    Connected,
    Pending(CallStatus),
}

impl CallState {
    /// A label for the state.
    pub fn as_str(&self) -> (r: &'static str)
        ensures
            match self {
                CallState::Connected => r@ == "Connected"@,
                CallState::Pending(CallStatus::Connecting(msg)) => r@ == msg@,
                CallState::Pending(CallStatus::Failed) => r@ == "Failed"@,
            },
    {
        match self {
            CallState::Connected => "Connected",
            CallState::Pending(status) => status.as_str(),
        }
    }
}

// === image cache layout ===
/// Base directory for cached images.
pub const CACHE_IMGS_DIR: &'static str = "./.cache/imgs";

/// Suffix of in-progress download files.
pub const TEMP_FILE_SUFFIX: &'static str = ".part";

/// Logical grouping of cached images.
#[derive(Debug, Clone, Copy)]
pub enum CacheCategory {
    Users,
    Servers,
    Channels,
    Emoji,
    Stickers,
    /// Images whose owner is unknown or no standard entity.
    Misc,
    Custom(&'static str),
}

pub open spec fn category_name(c: CacheCategory) -> Seq<char> {
    match c {
        CacheCategory::Users => "users"@,
        CacheCategory::Servers => "servers"@,
        CacheCategory::Channels => "channels"@,
        CacheCategory::Emoji => "emoji"@,
        CacheCategory::Stickers => "stickers"@,
        CacheCategory::Misc => "misc"@,
        CacheCategory::Custom(s) => s@,
    }
}

impl CacheCategory {
    /// The directory name of the category.
    pub fn as_str(&self) -> (r: &'static str)
        ensures
            r@ == category_name(*self),
    {
        match self {
            CacheCategory::Users => "users",
            CacheCategory::Servers => "servers",
            CacheCategory::Channels => "channels",
            CacheCategory::Emoji => "emoji",
            CacheCategory::Stickers => "stickers",
            CacheCategory::Misc => "misc",
            CacheCategory::Custom(s) => s,
        }
    }
}

/// Appending a path component: an absolute component replaces the path;
/// otherwise a `/` is inserted unless the path is empty or already ends
/// with one.
pub open spec fn path_push(base: Seq<char>, comp: Seq<char>) -> Seq<char> {
    if comp.len() > 0 && comp[0] == '/' {
        comp
    } else if base.len() == 0 || base.last() == '/' {
        base + comp
    } else {
        base + seq!['/'] + comp
    }
}

/// Appends a path component to `path`, as in [`path_push`].
pub fn push_component(path: &mut String, comp: &str)
    ensures
        final(path)@ == path_push(old(path)@, comp@),
{
    let c = chars_of(comp);
    let p = chars_of(path.as_str());
    if c.len() > 0 && c[0] == '/' {
        *path = String::from_str(comp);
    } else if p.len() == 0 || p[p.len() - 1] == '/' {
        append_str(path, comp);
    } else {
        push_char(path, '/');
        append_str(path, comp);
    }
}

/// The cache directory of a category for a platform.
pub fn cache_dir(category: CacheCategory, platform: &str) -> (r: String)
    ensures
        r@ == path_push(path_push(CACHE_IMGS_DIR@, category_name(category)), platform@),
{
    let mut r = String::from_str(CACHE_IMGS_DIR);
    push_component(&mut r, category.as_str());
    push_component(&mut r, platform);
    r
}

/// The cache directory of one owner's images.
pub fn cache_img_dir(category: CacheCategory, platform: &str, id: u64) -> (r: String)
    ensures
        r@ == path_push(
            path_push(path_push(CACHE_IMGS_DIR@, category_name(category)), platform@),
            decimal_digits(id as nat),
        ),
{
    let mut r = cache_dir(category, platform);
    let id_text = decimal_string(id);
    push_component(&mut r, id_text.as_str());
    r
}

} // verus!
