//! What the first-generation adaptor decides around its REST calls: which
//! guild channels it lists and as what, how a conversation is named, which
//! images it downloads for contacts, conversations and guilds (and where it
//! caches them), and which URL fetches a channel's messages.

use vstd::prelude::*;
use vstd::string::StringExecFns;

use crate::api::{Channel, ChannelTypes, OverwriteObject, Snowflake};
use crate::auth::DISCORD_API;
use crate::cdn::dec;
use crate::channels::parse_u64_spec;
use crate::channels::parse_u64;
use crate::legacy::ChanType;
use crate::text::push_decimal;

verus! {

// === guild channel listing ===
/// `u32`'s `FromStr`: a `u64` parse that also fits in 32 bits.
pub open spec fn parse_u32_spec(s: Seq<char>) -> Option<u32> {
    match parse_u64_spec(s) {
        Some(v) => if v <= u32::MAX {
            Some(v as u32)
        } else {
            None
        },
        None => None,
    }
}

/// Whether a deny bit set holds bit 10 (`VIEW_CHANNEL`).
pub open spec fn hides_view(bits: u32) -> bool {
    (bits / 1024) % 2 == 1
}

/// Scans the overwrites in order: `Some(true)` at the first one that denies
/// viewing, `None` at the first deny set that is not a `u32` (met before any
/// hiding one), `Some(false)` when the list ends.
pub open spec fn deny_scan(ovs: Seq<OverwriteObject>) -> Option<bool>
    decreases ovs.len(),
{
    if ovs.len() == 0 {
        Some(false)
    } else {
        match parse_u32_spec(ovs[0].deny@) {
            None => None,
            Some(v) => if hides_view(v) {
                Some(true)
            } else {
                deny_scan(ovs.drop_first())
            },
        }
    }
}

/// A deny set hides the channel exactly when bit 10 (`VIEW_CHANNEL`, 1024)
/// is in it.
pub proof fn law_hides_view_is_bit_ten(bits: u32)
    ensures
        hides_view(bits) <==> (bits & 1024u32 != 0),
{
    assert(((bits / 1024) % 2 == 1) <==> (bits & 1024u32 != 0)) by (bit_vector);
}

/// The overwrite's deny set is a `u32` without bit 10.
pub open spec fn harmless(o: OverwriteObject) -> bool {
    parse_u32_spec(o.deny@) matches Some(b) && !hides_view(b)
}

proof fn lemma_scan_past_harmless(ovs: Seq<OverwriteObject>, k: int)
    requires
        0 <= k <= ovs.len(),
        forall|j: int| 0 <= j < k ==> harmless(#[trigger] ovs[j]),
    ensures
        deny_scan(ovs) == deny_scan(ovs.skip(k)),
    decreases k,
{
    if k > 0 {
        assert(harmless(ovs[0]));
        let rest = ovs.drop_first();
        assert forall|j: int| 0 <= j < k - 1 implies harmless(#[trigger] rest[j]) by {
            assert(rest[j] == ovs[j + 1]);
        }
        lemma_scan_past_harmless(rest, k - 1);
        assert(rest.skip(k - 1) =~= ovs.skip(k));
    } else {
        assert(ovs.skip(0) =~= ovs);
    }
}

/// A channel without overwrites is skipped.
pub proof fn law_no_overwrites_skipped()
    ensures
        listing_of(None) == ChannelListing::Skipped,
{
}

/// The overwrites are read in order: a channel whose deny sets are all
/// `u32`s without bit 10 is listed; at the first deny set that is not, the
/// channel is skipped if it is a `u32` with bit 10 (`VIEW_CHANNEL`) and the
/// listing fails if it is no `u32`.
pub proof fn law_guild_channel_listing(v: Vec<OverwriteObject>, k: int)
    ensures
        (forall|j: int| 0 <= j < v@.len() ==> harmless(#[trigger] v@[j])) ==> listing_of(Some(v))
            == ChannelListing::Listed,
        0 <= k < v@.len() && (forall|j: int| 0 <= j < k ==> harmless(#[trigger] v@[j])) ==> (parse_u32_spec(
            v@[k].deny@,
        ) is None ==> listing_of(Some(v)) == ChannelListing::Malformed) && (parse_u32_spec(v@[k].deny@) matches Some(
            b,
        ) && hides_view(b) ==> listing_of(Some(v)) == ChannelListing::Skipped),
{
    let s = v@;
    if forall|j: int| 0 <= j < s.len() ==> harmless(#[trigger] s[j]) {
        lemma_scan_past_harmless(s, s.len() as int);
        assert(s.skip(s.len() as int).len() == 0);
    }
    if 0 <= k < s.len() && (forall|j: int| 0 <= j < k ==> harmless(#[trigger] s[j])) {
        lemma_scan_past_harmless(s, k);
        assert(s.skip(k)[0] == s[k]);
    }
}

/// What the adaptor does with a guild channel.
#[derive(Debug, Clone, Copy, PartialEq, Eq, Structural)]
pub enum ChannelListing {
    /// Listed as a conversation of the guild.
    Listed,
    /// Left out: no overwrites at all, or one that denies viewing.
    Skipped,
    /// A deny set is not a `u32`: the listing cannot go on.
    Malformed,
}

/// The listing of a channel, by its overwrites.
pub open spec fn listing_of(ovs: Option<Vec<OverwriteObject>>) -> ChannelListing {
    match ovs {
        None => ChannelListing::Skipped,
        Some(v) => match deny_scan(v@) {
            None => ChannelListing::Malformed,
            Some(true) => ChannelListing::Skipped,
            Some(false) => ChannelListing::Listed,
        },
    }
}

fn parse_u32(s: &str) -> (r: Option<u32>)
    ensures
        r == parse_u32_spec(s@),
{
    match parse_u64(s) {
        Some(v) => if v <= 0xffff_ffffu64 {
            Some(v as u32)
        } else {
            None
        },
        None => None,
    }
}

/// Whether a guild channel is listed: channels without overwrites and
/// channels whose overwrites deny viewing are left out.
pub fn guild_channel_listing(ch: &Channel) -> (r: ChannelListing)
    ensures
        r == listing_of(ch.permission_overwrites),
{
    match &ch.permission_overwrites {
        None => ChannelListing::Skipped,
        Some(ovs) => {
            let mut i: usize = 0;
            proof {
                assert(ovs@.skip(0) =~= ovs@);
            }
            while i < ovs.len()
                invariant
                    i <= ovs@.len(),
                    ch.permission_overwrites == Some(*ovs),
                    deny_scan(ovs@) == deny_scan(ovs@.skip(i as int)),
                decreases ovs@.len() - i,
            {
                proof {
                    assert(ovs@.skip(i as int).len() > 0);
                    assert(ovs@.skip(i as int)[0] == ovs@[i as int]);
                    assert(ovs@.skip(i as int).drop_first() =~= ovs@.skip(i + 1));
                }
                match parse_u32(ovs[i].deny.as_str()) {
                    None => {
                        return ChannelListing::Malformed;
                    },
                    Some(v) => {
                        if (v / 1024) % 2 == 1 {
                            return ChannelListing::Skipped;
                        }
                    },
                }
                i = i + 1;
            }
            proof {
                assert(ovs@.skip(i as int).len() == 0);
            }
            ChannelListing::Listed
        },
    }
}

/// The first-generation kind of a guild channel.
pub open spec fn chan_type_spec(t: ChannelTypes) -> ChanType {
    match t {
        ChannelTypes::GuildText => ChanType::Text,
        ChannelTypes::GuildAnnouncement => ChanType::Text,
        ChannelTypes::GuildVoice => ChanType::Voice,
        ChannelTypes::GuildStageVoice => ChanType::Voice,
        _ => ChanType::Spacer,
    }
}

/// Text and announcement channels carry text, voice and stage channels
/// voice; categories and everything else are spacers.
pub fn chan_type_of(t: ChannelTypes) -> (r: ChanType)
    ensures
        r == chan_type_spec(t),
{
    match t {
        ChannelTypes::GuildText | ChannelTypes::GuildAnnouncement => ChanType::Text,
        ChannelTypes::GuildVoice | ChannelTypes::GuildStageVoice => ChanType::Voice,
        _ => ChanType::Spacer,
    }
}

// === conversation names ===
/// A conversation's name: its own, else its first recipient's username,
/// else a placeholder.
pub open spec fn conversation_name_spec(ch: Channel) -> Seq<char> {
    match ch.name {
        Some(n) => n@,
        None => match ch.recipients {
            Some(rs) => if rs@.len() > 0 {
                rs@[0].username@
            } else {
                "Fix later"@
            },
            None => "Fix later"@,
        },
    }
}

/// The name a conversation is listed under.
pub fn conversation_name(ch: &Channel) -> (r: String)
    ensures
        r@ == conversation_name_spec(*ch),
{
    match &ch.name {
        Some(n) => n.clone(),
        None => match &ch.recipients {
            Some(rs) => if rs.len() > 0 {
                rs[0].username.clone()
            } else {
                String::from_str("Fix later")
            },
            None => String::from_str("Fix later"),
        },
    }
}

// === image downloads ===
/// An image to download: from where, into which directory, under which
/// file name.
#[derive(Debug)]
pub struct IconDownload {
    pub url: String,
    pub dir: String,
    pub file_name: String,
}

/// The CDN URL of a lossless 80-pixel WebP image.
pub open spec fn webp_url(kind: Seq<char>, owner: Snowflake, hash: Seq<char>) -> Seq<char> {
    "https://cdn.discordapp.com/"@ + kind + "/"@ + dec(owner) + "/"@ + hash + ".webp?size=80&quality=lossless"@
}

/// The cache directory of a category's image owner.
pub open spec fn cache_dir_of(category: Seq<char>, owner: Snowflake) -> Seq<char> {
    "./cache/imgs/"@ + category + "/discord/"@ + dec(owner)
}

/// A download of `kind/owner/hash` into the directory of `category/dir_owner`.
pub open spec fn is_download(
    d: IconDownload,
    kind: Seq<char>,
    owner: Snowflake,
    category: Seq<char>,
    dir_owner: Snowflake,
    hash: Seq<char>,
) -> bool {
    &&& d.url@ == webp_url(kind, owner, hash)
    &&& d.dir@ == cache_dir_of(category, dir_owner)
    &&& d.file_name@ == hash + ".webp"@
}

fn append(out: &mut String, s: &str)
    ensures
        final(out)@ == old(out)@ + s@,
{
    out.append(s);
}

fn download(kind: &str, owner: Snowflake, category: &str, dir_owner: Snowflake, hash: &str) -> (r: IconDownload)
    ensures
        is_download(r, kind@, owner, category@, dir_owner, hash@),
{
    let mut url = String::from_str("https://cdn.discordapp.com/");
    append(&mut url, kind);
    append(&mut url, "/");
    push_decimal(&mut url, owner);
    append(&mut url, "/");
    append(&mut url, hash);
    append(&mut url, ".webp?size=80&quality=lossless");
    let mut dir = String::from_str("./cache/imgs/");
    append(&mut dir, category);
    append(&mut dir, "/discord/");
    push_decimal(&mut dir, dir_owner);
    let mut file_name = String::from_str(hash);
    append(&mut file_name, ".webp");
    IconDownload { url, dir, file_name }
}

/// A contact's avatar, cached under the contact's id.
pub fn contact_avatar_download(contact: Snowflake, hash: &str) -> (r: IconDownload)
    ensures
        is_download(r, "avatars"@, contact, "users"@, contact, hash@),
{
    download("avatars", contact, "users", contact, hash)
}

/// A guild's icon, cached under the guild's id.
pub fn guild_icon_download(guild: Snowflake, hash: &str) -> (r: IconDownload)
    ensures
        is_download(r, "icons"@, guild, "guilds"@, guild, hash@),
{
    download("icons", guild, "guilds", guild, hash)
}

/// The images tried, in order, for a conversation's icon: its own icon,
/// then its first recipient's avatar; both are cached under the
/// conversation's id. The first that downloads is the icon.
pub open spec fn conversation_downloads_ok(ch: Channel, r: Seq<IconDownload>) -> bool {
    let own: int = if ch.icon is Some {
        1
    } else {
        0
    };
    let first = match ch.recipients {
        Some(rs) => if rs@.len() > 0 {
            Some(rs@[0])
        } else {
            None
        },
        None => None,
    };
    let other: int = match first {
        Some(rc) => if rc.avatar is Some {
            1
        } else {
            0
        },
        None => 0,
    };
    &&& r.len() == own + other
    &&& (ch.icon matches Some(h) ==> is_download(r[0], "channel-icons"@, ch.id, "channels"@, ch.id, h@))
    &&& (first matches Some(rc) ==> (rc.avatar matches Some(h) ==> is_download(
        r[own],
        "avatars"@,
        rc.id,
        "channels"@,
        ch.id,
        h@,
    )))
}

/// The downloads to try for a conversation's icon, in order.
pub fn conversation_icon_downloads(ch: &Channel) -> (r: Vec<IconDownload>)
    ensures
        conversation_downloads_ok(*ch, r@),
{
    let mut r: Vec<IconDownload> = Vec::new();
    if let Some(h) = &ch.icon {
        r.push(download("channel-icons", ch.id, "channels", ch.id, h.as_str()));
    }
    let ghost own = r@.len();
    if let Some(rs) = &ch.recipients {
        if rs.len() > 0 {
            if let Some(h) = &rs[0].avatar {
                r.push(download("avatars", rs[0].id, "channels", ch.id, h.as_str()));
            }
        }
    }
    proof {
        assert(own == (if ch.icon is Some {
            1int
        } else {
            0int
        }));
    }
    r
}

/// Where a message author's avatar would sit in the cache.
pub fn author_icon_path(author: Snowflake, hash: &str) -> (r: String)
    ensures
        r@ == cache_dir_of("users"@, author) + "/"@ + hash@ + ".webp"@,
{
    let mut r = String::from_str("./cache/imgs/");
    append(&mut r, "users");
    append(&mut r, "/discord/");
    push_decimal(&mut r, author);
    append(&mut r, "/");
    append(&mut r, hash);
    append(&mut r, ".webp");
    r
}

/// The URL of a channel's messages; a message to load from is appended
/// after a bare `?`.
pub fn history_url(channel: Snowflake, from: Option<Snowflake>) -> (r: String)
    ensures
        r@ == DISCORD_API@ + "/channels/"@ + dec(channel) + "/messages"@ + match from {
            Some(m) => "?"@ + dec(m),
            None => Seq::<char>::empty(),
        },
{
    let mut r = String::from_str(DISCORD_API);
    append(&mut r, "/channels/");
    push_decimal(&mut r, channel);
    append(&mut r, "/messages");
    match from {
        Some(m) => {
            append(&mut r, "?");
            push_decimal(&mut r, m);
        },
        None => {
            proof {
                assert(r@ =~= r@ + Seq::<char>::empty());
            }
        },
    }
    r
}

} // verus!
