use messenger::api::{Channel, ChannelTypes, OverwriteObject, Recipient};
use messenger::legacy::ChanType;
use messenger::legacy_rest::{
    author_icon_path, chan_type_of, contact_avatar_download, conversation_icon_downloads, conversation_name,
    guild_channel_listing, guild_icon_download, history_url, ChannelListing,
};

fn channel(id: u64) -> Channel {
    Channel {
        id,
        guild_id: None,
        channel_type: ChannelTypes::GuildText,
        position: None,
        parent_id: None,
        icon: None,
        last_message_id: None,
        name: None,
        recipients: None,
        permission_overwrites: None,
    }
}

fn recipient(id: u64, name: &str, avatar: Option<&str>) -> Recipient {
    Recipient {
        avatar: avatar.map(|a| a.to_string()),
        id,
        username: name.to_string(),
    }
}

fn overwrites(denies: &[&str]) -> Option<Vec<OverwriteObject>> {
    Some(denies.iter().map(|d| OverwriteObject { deny: d.to_string() }).collect())
}

#[test]
fn guild_channel_listing_follows_overwrites() {
    let mut c = channel(1);
    assert_eq!(guild_channel_listing(&c), ChannelListing::Skipped);
    c.permission_overwrites = Some(vec![]);
    assert_eq!(guild_channel_listing(&c), ChannelListing::Listed);
    c.permission_overwrites = overwrites(&["0", "2048", "+1"]);
    assert_eq!(guild_channel_listing(&c), ChannelListing::Listed);
    c.permission_overwrites = overwrites(&["0", "1024"]);
    assert_eq!(guild_channel_listing(&c), ChannelListing::Skipped);
    c.permission_overwrites = overwrites(&["3072"]);
    assert_eq!(guild_channel_listing(&c), ChannelListing::Skipped);
    // A bit set that is no u32 stops the listing, unless a hiding one came first.
    c.permission_overwrites = overwrites(&["4294967296"]);
    assert_eq!(guild_channel_listing(&c), ChannelListing::Malformed);
    c.permission_overwrites = overwrites(&["0", "x"]);
    assert_eq!(guild_channel_listing(&c), ChannelListing::Malformed);
    c.permission_overwrites = overwrites(&["1024", "x"]);
    assert_eq!(guild_channel_listing(&c), ChannelListing::Skipped);
    c.permission_overwrites = overwrites(&["4294967295"]);
    assert_eq!(guild_channel_listing(&c), ChannelListing::Skipped);
}

#[test]
fn guild_channel_kinds() {
    assert_eq!(chan_type_of(ChannelTypes::GuildText), ChanType::Text);
    assert_eq!(chan_type_of(ChannelTypes::GuildAnnouncement), ChanType::Text);
    assert_eq!(chan_type_of(ChannelTypes::GuildVoice), ChanType::Voice);
    assert_eq!(chan_type_of(ChannelTypes::GuildStageVoice), ChanType::Voice);
    assert_eq!(chan_type_of(ChannelTypes::GuildCategory), ChanType::Spacer);
    assert_eq!(chan_type_of(ChannelTypes::DM), ChanType::Spacer);
}

#[test]
fn conversation_names() {
    let mut c = channel(5);
    assert_eq!(conversation_name(&c), "Fix later");
    c.recipients = Some(vec![]);
    assert_eq!(conversation_name(&c), "Fix later");
    c.recipients = Some(vec![recipient(7, "ann", None), recipient(8, "bob", None)]);
    assert_eq!(conversation_name(&c), "ann");
    c.name = Some("crew".to_string());
    assert_eq!(conversation_name(&c), "crew");
}

#[test]
fn image_downloads() {
    let d = contact_avatar_download(42, "abc");
    assert_eq!(d.url, "https://cdn.discordapp.com/avatars/42/abc.webp?size=80&quality=lossless");
    assert_eq!(d.dir, "./cache/imgs/users/discord/42");
    assert_eq!(d.file_name, "abc.webp");

    let d = guild_icon_download(9, "h");
    assert_eq!(d.url, "https://cdn.discordapp.com/icons/9/h.webp?size=80&quality=lossless");
    assert_eq!(d.dir, "./cache/imgs/guilds/discord/9");

    let mut c = channel(5);
    assert!(conversation_icon_downloads(&c).is_empty());
    c.recipients = Some(vec![recipient(7, "ann", Some("av")), recipient(8, "bob", Some("bv"))]);
    let ds = conversation_icon_downloads(&c);
    assert_eq!(ds.len(), 1);
    assert_eq!(ds[0].url, "https://cdn.discordapp.com/avatars/7/av.webp?size=80&quality=lossless");
    assert_eq!(ds[0].dir, "./cache/imgs/channels/discord/5");
    assert_eq!(ds[0].file_name, "av.webp");
    c.icon = Some("ic".to_string());
    let ds = conversation_icon_downloads(&c);
    assert_eq!(ds.len(), 2);
    assert_eq!(ds[0].url, "https://cdn.discordapp.com/channel-icons/5/ic.webp?size=80&quality=lossless");
    assert_eq!(ds[0].dir, "./cache/imgs/channels/discord/5");
    assert_eq!(ds[1].url, "https://cdn.discordapp.com/avatars/7/av.webp?size=80&quality=lossless");
    c.recipients = Some(vec![recipient(7, "ann", None), recipient(8, "bob", Some("bv"))]);
    assert_eq!(conversation_icon_downloads(&c).len(), 1);
}

#[test]
fn history_and_author_paths() {
    assert_eq!(history_url(12, None), "https://discord.com/api/v10/channels/12/messages");
    assert_eq!(history_url(12, Some(34)), "https://discord.com/api/v10/channels/12/messages?34");
    assert_eq!(author_icon_path(3, "hh"), "./cache/imgs/users/discord/3/hh.webp");
}
