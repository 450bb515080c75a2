//! From Discord payloads to the platform-agnostic model: message content
//! and revisions, reactions, and the identifiers of users and guilds.
//! Image paths come from the caller, which resolves them through the CDN
//! cache.

use vstd::prelude::*;

use crate::api::{Friend, Guild, Message, Profile, Reaction as ApiReaction, StickerItem, User as ApiUser};
use crate::rich::Piece;
use crate::types::{Emoji, House, Identifier, Place, Reaction, Revision, RichText, Span, User};

verus! {

// === time ===
/// The instant an RFC 3339 timestamp denotes, in microseconds since the
/// Unix epoch, as chrono parses it; `None` where chrono rejects the text.
pub uninterp spec fn rfc3339_micros(s: Seq<char>) -> Option<i64>;

/// `chrono::DateTime::parse_from_rfc3339`, read as microseconds since the
/// epoch (`timestamp_micros`). Claimed: the result is the named
/// [`rfc3339_micros`] of the text; chrono's grammar is not restated.
#[verifier::external_body]
fn parse_rfc3339_micros(s: &str) -> (r: Option<i64>)
    ensures
        r == rfc3339_micros(s@),
{
    chrono::DateTime::parse_from_rfc3339(s).ok().map(|dt| dt.timestamp_micros())
}

/// Content and history of a message created at `created_at`: when it was
/// edited (at `edited_at`), the content is the edit's and the history holds
/// one revision with unknown (empty) text at the creation time; otherwise
/// the content is the creation's and there is no history.
pub fn revisions_from(created_at: Option<i64>, edited_at: Option<i64>, content: RichText) -> (r: (Revision, Vec<Revision>))
    ensures
        match edited_at {
            Some(e) => {
                &&& r.0.at == Some(e)
                &&& r.0.text == content
                &&& r.1@.len() == 1
                &&& r.1@[0].at == created_at
                &&& r.1@[0].text.spans@.len() == 0
            },
            None => {
                &&& r.0.at == created_at
                &&& r.0.text == content
                &&& r.1@.len() == 0
            },
        },
{
    match edited_at {
        Some(e) => {
            let mut history = Vec::new();
            history.push(Revision { at: created_at, text: RichText { spans: Vec::new() } });
            (Revision { at: Some(e), text: content }, history)
        },
        None => (Revision { at: created_at, text: content }, Vec::new()),
    }
}

/// The revisions of a Discord message, its timestamps parsed (an edit
/// timestamp chrono rejects counts as none).
pub fn message_revisions(message: &Message, content: RichText) -> (r: (Revision, Vec<Revision>))
    ensures
        ({
            let created = rfc3339_micros(message.timestamp@);
            let edited = match message.edited_timestamp {
                Some(t) => rfc3339_micros(t@),
                None => None,
            };
            match edited {
                Some(e) => {
                    &&& r.0.at == Some(e)
                    &&& r.0.text == content
                    &&& r.1@.len() == 1
                    &&& r.1@[0].at == created
                    &&& r.1@[0].text.spans@.len() == 0
                },
                None => {
                    &&& r.0.at == created
                    &&& r.0.text == content
                    &&& r.1@.len() == 0
                },
            }
        }),
{
    let created = parse_rfc3339_micros(message.timestamp.as_str());
    let edited = match &message.edited_timestamp {
        Some(t) => parse_rfc3339_micros(t.as_str()),
        None => None,
    };
    revisions_from(created, edited, content)
}

// === reactions ===
/// The interface reaction for a Discord reaction whose custom-emoji image
/// resolved to `image`; Unicode emoji have no image.
pub open spec fn reaction_of(r: ApiReaction, image: Option<String>) -> (Seq<char>, Option<String>, u32, bool) {
    (r.emoji.name@, if r.emoji.id is Some {
        image
    } else {
        None
    }, r.count, r.me)
}

/// Maps Discord reactions to interface reactions; `images[i]` is the
/// resolved image of the `i`-th reaction's custom emoji. An absent list
/// maps to no reactions.
pub fn interface_reactions(reactions: &Option<Vec<ApiReaction>>, images: &Vec<Option<String>>) -> (r: Vec<Reaction>)
    requires
        match reactions {
            Some(rs) => images@.len() == rs@.len(),
            None => true,
        },
    ensures
        match reactions {
            Some(rs) => {
                &&& r@.len() == rs@.len()
                &&& forall|i: int|
                    0 <= i < r@.len() ==> (#[trigger] r@[i]).emoji.shortcode@ == reaction_of(rs@[i], images@[i]).0
                        && r@[i].emoji.image == reaction_of(rs@[i], images@[i]).1 && r@[i].count == rs@[i].count
                        && r@[i].reacted == rs@[i].me
            },
            None => r@.len() == 0,
        },
{
    let mut out: Vec<Reaction> = Vec::new();
    match reactions {
        None => out,
        Some(rs) => {
            let mut i: usize = 0;
            while i < rs.len()
                invariant
                    i <= rs@.len(),
                    images@.len() == rs@.len(),
                    out@.len() == i,
                    forall|k: int|
                        0 <= k < i ==> (#[trigger] out@[k]).emoji.shortcode@ == reaction_of(rs@[k], images@[k]).0
                            && out@[k].emoji.image == reaction_of(rs@[k], images@[k]).1 && out@[k].count
                            == rs@[k].count && out@[k].reacted == rs@[k].me,
                decreases rs@.len() - i,
            {
                let rr = &rs[i];
                let image = match rr.emoji.id {
                    Some(_) => match &images[i] {
                        Some(p) => Some(p.clone()),
                        None => None,
                    },
                    None => None,
                };
                out.push(
                    Reaction {
                        emoji: Emoji { shortcode: rr.emoji.name.clone(), image },
                        count: rr.count,
                        reacted: rr.me,
                    },
                );
                i = i + 1;
            }
            out
        },
    }
}

// === message content ===
/// The span a token becomes; `image` is the resolved image of a custom
/// emoji.
pub open spec fn piece_span(p: Piece, image: Option<String>) -> Span {
    match p {
        Piece::Text { text, style } => Span::Text { text, style },
        Piece::Link { text, href } => Span::Link { text, href },
        Piece::Emoji { name, .. } => Span::Emoji(Emoji { shortcode: name, image }),
    }
}

/// The spans of a message body: one per token, then one per sticker.
pub open spec fn content_spans(
    pieces: Seq<Piece>,
    emoji_images: Seq<Option<String>>,
    stickers: Seq<StickerItem>,
    sticker_images: Seq<Option<String>>,
) -> Seq<Span> {
    Seq::new(pieces.len(), |i: int| piece_span(pieces[i], emoji_images[i])) + Seq::new(
        stickers.len(),
        |j: int| Span::Sticker { alt: stickers[j].name, image: sticker_images[j] },
    )
}

/// Builds a message's content from its tokens and stickers; `emoji_images[i]`
/// is the resolved image of token `i` when it is a custom emoji, and
/// `sticker_images[j]` that of sticker `j`.
pub fn assemble_content(
    pieces: &Vec<Piece>,
    emoji_images: &Vec<Option<String>>,
    stickers: &Vec<StickerItem>,
    sticker_images: &Vec<Option<String>>,
) -> (r: RichText)
    requires
        emoji_images@.len() == pieces@.len(),
        sticker_images@.len() == stickers@.len(),
    ensures
        r.spans@ == content_spans(pieces@, emoji_images@, stickers@, sticker_images@),
{
    let mut spans: Vec<Span> = Vec::new();
    let mut i: usize = 0;
    while i < pieces.len()
        invariant
            i <= pieces@.len(),
            emoji_images@.len() == pieces@.len(),
            spans@ == Seq::new(i as nat, |k: int| piece_span(pieces@[k], emoji_images@[k])),
        decreases pieces@.len() - i,
    {
        let span = match &pieces[i] {
            Piece::Text { text, style } => Span::Text { text: text.clone(), style: *style },
            Piece::Link { text, href } => Span::Link { text: text.clone(), href: href.clone() },
            Piece::Emoji { name, .. } => {
                let image = match &emoji_images[i] {
                    Some(p) => Some(p.clone()),
                    None => None,
                };
                Span::Emoji(Emoji { shortcode: name.clone(), image })
            },
        };
        spans.push(span);
        proof {
            assert(spans@ =~= Seq::new((i + 1) as nat, |k: int| piece_span(pieces@[k], emoji_images@[k])));
        }
        i = i + 1;
    }
    let ghost head = spans@;
    let mut j: usize = 0;
    while j < stickers.len()
        invariant
            j <= stickers@.len(),
            sticker_images@.len() == stickers@.len(),
            spans@ == head + Seq::new(
                j as nat,
                |k: int| Span::Sticker { alt: stickers@[k].name, image: sticker_images@[k] },
            ),
        decreases stickers@.len() - j,
    {
        let image = match &sticker_images[j] {
            Some(p) => Some(p.clone()),
            None => None,
        };
        spans.push(Span::Sticker { alt: stickers[j].name.clone(), image });
        proof {
            assert(spans@ =~= head + Seq::new(
                (j + 1) as nat,
                |k: int| Span::Sticker { alt: stickers@[k].name, image: sticker_images@[k] },
            ));
        }
        j = j + 1;
    }
    RichText { spans }
}

// === identities ===
/// The interface user of the logged-in profile.
pub fn profile_user(profile: &Profile, icon: Option<String>) -> (r: Identifier<User>)
    ensures
        r.id_spec() == profile.id,
        r.data_spec().name == profile.username,
        r.data_spec().icon == icon,
{
    Identifier::new(profile.id, User { name: profile.username.clone(), icon })
}

/// The interface user of a friend-list entry (identified by the entry's id).
pub fn contact_user(friend: &Friend, icon: Option<String>) -> (r: Identifier<User>)
    ensures
        r.id_spec() == friend.id,
        r.data_spec().name == friend.user.username,
        r.data_spec().icon == icon,
{
    Identifier::new(friend.id, User { name: friend.user.username.clone(), icon })
}

/// The interface user of a message author.
pub fn author_user(author: &ApiUser, icon: Option<String>) -> (r: Identifier<User>)
    ensures
        r.id_spec() == author.id,
        r.data_spec().name == author.username,
        r.data_spec().icon == icon,
{
    Identifier::new(author.id, User { name: author.username.clone(), icon })
}

/// The interface house of a guild, rooms not yet fetched.
pub fn guild_house(guild: &Guild, icon: Option<String>) -> (r: Identifier<Place<House>>)
    ensures
        r.id_spec() == guild.id,
        r.data_spec().name == guild.name,
        r.data_spec().icon == icon,
        r.data_spec().place_data.rooms is None,
{
    Identifier::new(guild.id, Place::new(guild.name.clone(), icon, House::new(None)))
}

// === message lists ===
/// Messages as the REST API returns them (newest first), reversed to
/// oldest first when time order is asked for.
pub fn order_messages(messages: Vec<Message>, oldest_first: bool) -> (r: Vec<Message>)
    ensures
        !oldest_first ==> r@ == messages@,
        oldest_first ==> r@ == messages@.reverse(),
{
    if !oldest_first {
        return messages;
    }
    let mut rest = messages;
    let ghost orig = rest@;
    let mut out: Vec<Message> = Vec::new();
    while rest.len() > 0
        invariant
            orig.len() == rest@.len() + out@.len(),
            rest@ == orig.take(rest@.len() as int),
            out@ == orig.skip(rest@.len() as int).reverse(),
        decreases rest@.len(),
    {
        let ghost k = rest@.len();
        let m = rest.pop().unwrap();
        out.push(m);
        proof {
            assert(rest@ =~= orig.take(k - 1));
            assert(orig.skip(k - 1).reverse() =~= orig.skip(k as int).reverse().push(orig[k - 1]));
        }
    }
    proof {
        assert(orig.skip(0) =~= orig);
    }
    out
}

} // verus!
