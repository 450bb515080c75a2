//! Discord CDN images: where each image is downloaded from and where it is
//! cached.

use vstd::prelude::*;
use vstd::string::StringExecFns;

use crate::api::Snowflake;
use crate::text::{decimal_digits, push_decimal};
use crate::types::{cache_dir, category_name, path_push, push_component, CacheCategory, CACHE_IMGS_DIR};

verus! {

/// Image format of owner-scoped images.
pub const IMG_EXT: &'static str = "webp";

/// The CDN's base URL.
pub const DISCORD_CDN: &'static str = "https://cdn.discordapp.com";

/// The platform directory under each cache category.
pub const INTERFACE_NAME: &'static str = "Discord";

/// A CDN image, identified by what it belongs to.
#[derive(Debug)]
pub enum CdnImage {
    Avatar { user: Snowflake, hash: String },
    GuildIcon { guild: Snowflake, hash: String },
    ChannelIcon { channel: Snowflake, hash: String },
    Emoji { id: Snowflake, ext: &'static str },
    Sticker { id: Snowflake, ext: &'static str },
}

/// The decimal digits of an id.
pub open spec fn dec(id: Snowflake) -> Seq<char> {
    decimal_digits(id as nat)
}

/// Where an image is downloaded from.
pub open spec fn image_url(img: CdnImage) -> Seq<char> {
    match img {
        CdnImage::Avatar { user, hash } => DISCORD_CDN@ + "/avatars/"@ + dec(user) + "/"@ + hash@ + "."@
            + IMG_EXT@ + "?size=80&quality=lossless"@,
        CdnImage::GuildIcon { guild, hash } => DISCORD_CDN@ + "/icons/"@ + dec(guild) + "/"@ + hash@
            + "."@ + IMG_EXT@ + "?size=80&quality=lossless"@,
        CdnImage::ChannelIcon { channel, hash } => DISCORD_CDN@ + "/channel-icons/"@ + dec(channel)
            + "/"@ + hash@ + "."@ + IMG_EXT@ + "?size=80&quality=lossless"@,
        CdnImage::Emoji { id, ext } => DISCORD_CDN@ + "/emojis/"@ + dec(id) + "."@ + ext@ + "?size=48"@,
        CdnImage::Sticker { id, ext } => DISCORD_CDN@ + "/stickers/"@ + dec(id) + "."@ + ext@
            + "?size=160"@,
    }
}

/// Where an image sits below its category's platform directory: owner-
/// scoped images nest under the owner's id, emoji and stickers sit directly
/// under the category by their own id.
pub open spec fn image_file_name(img: CdnImage) -> Seq<char> {
    match img {
        CdnImage::Avatar { user, hash } => dec(user) + "/"@ + hash@ + "."@ + IMG_EXT@,
        CdnImage::GuildIcon { guild, hash } => dec(guild) + "/"@ + hash@ + "."@ + IMG_EXT@,
        CdnImage::ChannelIcon { channel, hash } => dec(channel) + "/"@ + hash@ + "."@ + IMG_EXT@,
        CdnImage::Emoji { id, ext } => dec(id) + "."@ + ext@,
        CdnImage::Sticker { id, ext } => dec(id) + "."@ + ext@,
    }
}

/// The cache category of an image.
pub open spec fn image_category(img: CdnImage) -> CacheCategory {
    match img {
        CdnImage::Avatar { .. } => CacheCategory::Users,
        CdnImage::GuildIcon { .. } => CacheCategory::Servers,
        CdnImage::ChannelIcon { .. } => CacheCategory::Channels,
        CdnImage::Emoji { .. } => CacheCategory::Emoji,
        CdnImage::Sticker { .. } => CacheCategory::Stickers,
    }
}

fn append(out: &mut String, s: &str)
    ensures
        final(out)@ == old(out)@ + s@,
{
    out.append(s);
}

impl CdnImage {
    /// A user's avatar.
    pub fn avatar(user: Snowflake, hash: &str) -> (r: Self)
        ensures
            r matches CdnImage::Avatar { user: u, hash: h } && u == user && h@ == hash@,
    {
        CdnImage::Avatar { user, hash: String::from_str(hash) }
    }

    /// A guild's icon.
    pub fn guild_icon(guild: Snowflake, hash: &str) -> (r: Self)
        ensures
            r matches CdnImage::GuildIcon { guild: g, hash: h } && g == guild && h@ == hash@,
    {
        CdnImage::GuildIcon { guild, hash: String::from_str(hash) }
    }

    /// A group channel's icon.
    pub fn channel_icon(channel: Snowflake, hash: &str) -> (r: Self)
        ensures
            r matches CdnImage::ChannelIcon { channel: c, hash: h } && c == channel && h@ == hash@,
    {
        CdnImage::ChannelIcon { channel, hash: String::from_str(hash) }
    }

    /// A custom emoji: animated ones as GIF, others as WebP.
    pub fn emoji(id: Snowflake, animated: bool) -> (r: Self)
        ensures
            r matches CdnImage::Emoji { id: i, ext } && i == id && ext@ == (if animated {
                "gif"@
            } else {
                "webp"@
            }),
    {
        CdnImage::Emoji {
            id,
            ext: if animated {
                "gif"
            } else {
                "webp"
            },
        }
    }

    /// A sticker image: format 4 (GIF) as GIF, formats 1 and 2 (PNG, APNG)
    /// as PNG; other formats (Lottie) have no image.
    pub fn sticker(id: Snowflake, format_type: u8) -> (r: Option<Self>)
        ensures
            format_type == 4 ==> (r matches Some(CdnImage::Sticker { id: i, ext }) && i == id && ext@ == "gif"@),
            (format_type == 1 || format_type == 2) ==> (r matches Some(CdnImage::Sticker { id: i, ext }) && i == id
                && ext@ == "png"@),
            !(format_type == 1 || format_type == 2 || format_type == 4) ==> r is None,
    {
        let ext = match format_type {
            4 => "gif",
            1 | 2 => "png",
            _ => {
                return None;
            },
        };
        Some(CdnImage::Sticker { id, ext })
    }

    /// Where the image is downloaded from.
    pub fn url(&self) -> (r: String)
        ensures
            r@ == image_url(*self),
    {
        let mut r = String::from_str(DISCORD_CDN);
        match self {
            CdnImage::Avatar { user, hash } => {
                owner_url(&mut r, "/avatars/", *user, hash.as_str());
            },
            CdnImage::GuildIcon { guild, hash } => {
                owner_url(&mut r, "/icons/", *guild, hash.as_str());
            },
            CdnImage::ChannelIcon { channel, hash } => {
                owner_url(&mut r, "/channel-icons/", *channel, hash.as_str());
            },
            CdnImage::Emoji { id, ext } => {
                append(&mut r, "/emojis/");
                push_decimal(&mut r, *id);
                append(&mut r, ".");
                append(&mut r, ext);
                append(&mut r, "?size=48");
            },
            CdnImage::Sticker { id, ext } => {
                append(&mut r, "/stickers/");
                push_decimal(&mut r, *id);
                append(&mut r, ".");
                append(&mut r, ext);
                append(&mut r, "?size=160");
            },
        }
        r
    }

    /// Where the image sits below its category's platform directory.
    pub fn file_name(&self) -> (r: String)
        ensures
            r@ == image_file_name(*self),
    {
        let mut r = String::new();
        match self {
            CdnImage::Avatar { user: id, hash } | CdnImage::GuildIcon { guild: id, hash }
            | CdnImage::ChannelIcon { channel: id, hash } => {
                push_decimal(&mut r, *id);
                append(&mut r, "/");
                append(&mut r, hash.as_str());
                append(&mut r, ".");
                append(&mut r, IMG_EXT);
            },
            CdnImage::Emoji { id, ext } | CdnImage::Sticker { id, ext } => {
                push_decimal(&mut r, *id);
                append(&mut r, ".");
                append(&mut r, ext);
            },
        }
        proof {
            assert(Seq::<char>::empty() + dec(match *self {
                CdnImage::Avatar { user, .. } => user,
                CdnImage::GuildIcon { guild, .. } => guild,
                CdnImage::ChannelIcon { channel, .. } => channel,
                CdnImage::Emoji { id, .. } => id,
                CdnImage::Sticker { id, .. } => id,
            }) =~= dec(match *self {
                CdnImage::Avatar { user, .. } => user,
                CdnImage::GuildIcon { guild, .. } => guild,
                CdnImage::ChannelIcon { channel, .. } => channel,
                CdnImage::Emoji { id, .. } => id,
                CdnImage::Sticker { id, .. } => id,
            }));
        }
        r
    }

    /// The cache category of the image.
    pub fn category(&self) -> (r: CacheCategory)
        ensures
            r == image_category(*self),
    {
        match self {
            CdnImage::Avatar { .. } => CacheCategory::Users,
            CdnImage::GuildIcon { .. } => CacheCategory::Servers,
            CdnImage::ChannelIcon { .. } => CacheCategory::Channels,
            CdnImage::Emoji { .. } => CacheCategory::Emoji,
            CdnImage::Sticker { .. } => CacheCategory::Stickers,
        }
    }

    /// Where the image is cached.
    pub fn cache_path(&self) -> (r: String)
        ensures
            r@ == path_push(
                path_push(path_push(CACHE_IMGS_DIR@, category_name(image_category(*self))), INTERFACE_NAME@),
                image_file_name(*self),
            ),
    {
        let mut r = cache_dir(self.category(), INTERFACE_NAME);
        let name = self.file_name();
        push_component(&mut r, name.as_str());
        r
    }
}

/// Appends `{kind}{id}/{hash}.webp?size=80&quality=lossless`.
fn owner_url(r: &mut String, kind: &str, id: Snowflake, hash: &str)
    ensures
        final(r)@ == old(r)@ + kind@ + dec(id) + "/"@ + hash@ + "."@ + IMG_EXT@ + "?size=80&quality=lossless"@,
{
    append(r, kind);
    push_decimal(r, id);
    append(r, "/");
    append(r, hash);
    append(r, ".");
    append(r, IMG_EXT);
    append(r, "?size=80&quality=lossless");
}

} // verus!
