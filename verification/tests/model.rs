use messenger::api::{Channel, ChannelTypes, OverwriteObject, Recipient};
use messenger::channels::{
    dm_channel_order, dm_room_icon, dm_room_name, is_channel_hidden, parse_u64,
    process_guild_channels, stable_order, ChannelLocation,
};
use messenger::legacy::{Identifier as LegacyIdentifier, VCLoc, VCLocation};
use messenger::roster::{RosterEvent, VoiceRoster};
use messenger::types::{
    cache_dir, cache_img_dir, CacheCategory, CallState, CallStatus, Emoji, Identifier, Message,
    Place, Revision, RichText, RoomCapabilities, Span, TextStyle, User,
};

fn channel(id: u64, ty: ChannelTypes, position: Option<i32>, parent: Option<&str>, name: &str) -> Channel {
    Channel {
        id,
        guild_id: None,
        channel_type: ty,
        position,
        parent_id: parent.map(|p| p.to_string()),
        icon: None,
        last_message_id: None,
        name: Some(name.to_string()),
        recipients: None,
        permission_overwrites: None,
    }
}

#[test]
fn span_and_rich_text_plain_projection() {
    let spans = vec![
        Span::Text {
            text: "hi ".into(),
            style: TextStyle::default(),
        },
        Span::Emoji(Emoji::shortcode("wave".into())),
        Span::Link {
            text: " docs".into(),
            href: "https://x".into(),
        },
        Span::Sticker {
            alt: "!".into(),
            image: None,
        },
    ];
    let rich = RichText { spans };
    assert_eq!(rich.to_plain(), "hi :wave: docs!");
    assert!(!rich.is_empty());
    assert!(RichText::plain(String::new()).spans.is_empty());
    assert_eq!(RichText::plain("x".into()).to_plain(), "x");
    let blank = RichText {
        spans: vec![Span::Text {
            text: String::new(),
            style: TextStyle::default(),
        }],
    };
    assert!(blank.is_empty());
    assert!(RichText { spans: vec![] }.is_empty());
    let sticker = RichText {
        spans: vec![Span::Sticker {
            alt: String::new(),
            image: Some("cache/s.png".into()),
        }],
    };
    assert!(!sticker.is_empty());
}

#[test]
fn identifiers_compare_by_id() {
    let a = Identifier::new(7, "data");
    let b = a.swap_data(3.5f64);
    assert_eq!(*b.id(), 7);
    assert!(a == b);
    assert!(a != Identifier::new(8, "data"));
    let l = LegacyIdentifier {
        neo_id: 4,
        data: "x",
    };
    assert_eq!(*l.get_id(), 4);
    assert_eq!(l.remove_data().neo_id, 4);
}

#[test]
fn editing_moves_content_into_history() {
    let mut m = Message::default();
    assert!(!m.is_edited());
    m.edit(Revision {
        at: Some(5),
        text: RichText::plain("new".into()),
    });
    assert!(m.is_edited());
    assert_eq!(m.history.len(), 1);
    assert_eq!(m.content.at, Some(5));
    assert!(m.history[0].text.spans.is_empty());
}

#[test]
fn cache_paths() {
    assert_eq!(cache_dir(CacheCategory::Users, "discord"), "./.cache/imgs/users/discord");
    assert_eq!(
        cache_img_dir(CacheCategory::Custom("misc2"), "steam", 42),
        "./.cache/imgs/misc2/steam/42"
    );
    assert_eq!(cache_dir(CacheCategory::Emoji, "/abs"), "/abs");
    assert_eq!(CacheCategory::Stickers.as_str(), "stickers");
}

#[test]
fn call_labels() {
    assert_eq!(CallStatus::Failed.as_str(), "Failed");
    assert_eq!(CallState::Pending(CallStatus::Connecting("udp")).as_str(), "udp");
    assert_eq!(CallState::Connected.as_str(), "Connected");
}

#[test]
fn place_constructor() {
    let p = Place::new("n".into(), None, 3u8);
    assert_eq!(p.name, "n");
    assert_eq!(p.place_data, 3);
}

#[test]
fn capabilities_of_channel_types() {
    assert_eq!(RoomCapabilities::from(ChannelTypes::DM).bits(), 3);
    assert_eq!(RoomCapabilities::from(ChannelTypes::GuildText).bits(), 1);
    assert_eq!(RoomCapabilities::from(ChannelTypes::GuildStageVoice).bits(), 2);
    assert_eq!(RoomCapabilities::from(ChannelTypes::GuildForum).bits(), 0);
    assert!(RoomCapabilities::text().union(RoomCapabilities::voice()).has_voice());
}

#[test]
fn channel_locations() {
    let mut c = channel(9, ChannelTypes::GuildText, None, None, "a");
    assert_eq!(ChannelLocation::from_api(&c, None), None);
    assert_eq!(
        ChannelLocation::from_api(&c, Some(1)),
        Some(ChannelLocation::Guild {
            guild_id: 1,
            channel_id: 9
        })
    );
    c.guild_id = Some(2);
    let loc = ChannelLocation::from_api(&c, None).unwrap();
    assert_eq!(loc.guild_id(), Some(2));
    assert_eq!(loc.channel_id(), 9);
    c.channel_type = ChannelTypes::GroupDM;
    assert_eq!(
        ChannelLocation::from_api(&c, Some(1)),
        Some(ChannelLocation::Private { channel_id: 9 })
    );
}

#[test]
fn u64_parsing_follows_std() {
    for s in ["0", "+12", "18446744073709551615", "", "+", "-1", "1a", "18446744073709551616", " 1"] {
        assert_eq!(parse_u64(s), s.parse::<u64>().ok(), "{s:?}");
    }
}

#[test]
fn hidden_channels_and_guild_order() {
    let mut hidden = channel(5, ChannelTypes::GuildText, Some(0), None, "secret");
    hidden.permission_overwrites = Some(vec![
        OverwriteObject { deny: "x".into() },
        OverwriteObject { deny: "1024".into() },
    ]);
    assert!(is_channel_hidden(&hidden));
    let mut open = channel(6, ChannelTypes::GuildText, Some(0), None, "open");
    open.permission_overwrites = Some(vec![OverwriteObject { deny: "1023".into() }]);
    assert!(!is_channel_hidden(&open));

    let channels = vec![
        channel(1, ChannelTypes::GuildText, Some(0), Some("10"), "child-b"),
        channel(10, ChannelTypes::GuildCategory, Some(1), None, "cat"),
        channel(2, ChannelTypes::GuildText, Some(-1), Some("10"), "child-a"),
        channel(3, ChannelTypes::GuildText, Some(0), None, "top"),
        hidden,
        channel(4, ChannelTypes::GuildVoice, Some(2), Some("nope"), "loose"),
    ];
    let mut roster = VoiceRoster::new();
    roster.update(
        5,
        Some(4),
        Some(Identifier::new(5, User { name: "eve".into(), icon: None })),
    );
    let rooms = process_guild_channels(77, &channels, &roster);
    let names: Vec<&str> = rooms.iter().map(|r| r.name.as_str()).collect();
    assert_eq!(names, vec!["top", "cat", "child-a", "child-b", "loose"]);
    assert_eq!(
        rooms[0].location,
        Some(ChannelLocation::Guild {
            guild_id: 77,
            channel_id: 3
        })
    );
    assert_eq!(rooms[4].capabilities.bits(), 2);
    let voice = rooms[4].participants.as_ref().unwrap();
    assert_eq!(voice.len(), 1);
    assert_eq!(*voice[0].id(), 5);
    assert_eq!(voice[0].data().name, "eve");
    assert!(rooms[0].participants.as_ref().unwrap().is_empty());
}

#[test]
fn stable_order_keeps_ties() {
    assert_eq!(stable_order(&vec![3, 1, 3, 0, 1]), vec![3, 1, 4, 0, 2]);
    assert!(stable_order(&vec![]).is_empty());
}

#[test]
fn dm_order_name_and_icon() {
    let mut a = channel(1, ChannelTypes::DM, None, None, "a");
    a.last_message_id = Some(5);
    let mut b = channel(2, ChannelTypes::DM, None, None, "b");
    b.last_message_id = None;
    let mut c = channel(3, ChannelTypes::DM, None, None, "c");
    c.last_message_id = Some(9);
    assert_eq!(dm_channel_order(&vec![a, b, c]), vec![2, 0, 1]);

    let mut g = channel(4, ChannelTypes::GroupDM, None, None, "");
    g.name = None;
    assert_eq!(dm_room_name(&g), "Unknown channel");
    g.recipients = Some(vec![
        Recipient {
            avatar: None,
            id: 1,
            username: "ann".into(),
        },
        Recipient {
            avatar: None,
            id: 2,
            username: "bob".into(),
        },
    ]);
    assert_eq!(dm_room_name(&g), "ann, bob");
    assert_eq!(
        dm_room_icon(None, vec![None, Some("p2".into()), Some("p3".into())]),
        Some("p2".to_string())
    );
    assert_eq!(dm_room_icon(Some("own".into()), vec![Some("p".into())]), Some("own".to_string()));
    assert_eq!(dm_room_icon(None, vec![None]), None);
}

#[test]
fn legacy_voice_location_states() {
    let loc = VCLocation::new("guild".into());
    let mut l = VCLoc::AwaitingData(loc);
    l.insert_endpoint("wss://x".into(), "tok".into());
    assert!(matches!(l, VCLoc::AwaitingSession(_)));
    l.insert_session("sess".into());
    match &l {
        VCLoc::Ready(v) => {
            assert_eq!(v.get_location_id(), "guild");
            assert_eq!(v.get_endpoint(), "wss://x");
            assert_eq!(v.get_token(), "tok");
            assert_eq!(v.get_session(), "sess");
        }
        _ => panic!("not ready"),
    }
    l.insert_session("sess2".into());
    l.clear();
    assert!(matches!(l, VCLoc::AwaitingData(_)));
}

fn user(id: u64, name: &str) -> Identifier<User> {
    Identifier::new(
        id,
        User {
            name: name.into(),
            icon: None,
        },
    )
}

#[test]
fn voice_roster_join_move_leave() {
    let mut r = VoiceRoster::new();
    assert!(matches!(
        r.update(1, Some(100), Some(user(1, "a"))),
        Some(RosterEvent::ParticipantJoined { channel_id: 100, .. })
    ));
    r.update(2, Some(100), Some(user(2, "b")));
    r.update(1, Some(100), Some(user(1, "a2")));
    let ids: Vec<u64> = r.participants(100).unwrap().iter().map(|u| *u.id()).collect();
    assert_eq!(ids, vec![2, 1]);
    r.update(2, Some(200), Some(user(2, "b")));
    assert_eq!(r.participants(100).unwrap().len(), 1);
    assert_eq!(r.participants(200).unwrap().len(), 1);
    assert!(matches!(
        r.update(1, None, None),
        Some(RosterEvent::ParticipantLeft { user_id: 1 })
    ));
    assert!(r.participants(100).is_none());
    assert!(r.update(3, Some(100), None).is_none());
    assert!(r.participants(100).is_none());
    r.clear();
    assert!(r.participants(200).is_none());
}
