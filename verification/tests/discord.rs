use messenger::api::{
    Emoji as ApiEmoji, Friend, Guild, LoginResponse, Message, MessageDelete,
    MessageReactionChange, MfaResponse, Profile, Reaction as ApiReaction, StickerItem, User,
};
use messenger::auth::{
    after_login, after_mfa, auth_header, contains_text, create_message_body, explain_login_error,
    guild_channels_url, kept_mfa_code, login_headers, login_request, messages_url,
    own_reaction_url, send_message_url, LoginError, LoginStep, CAPTCHA_EXPLANATION,
    EMAIL_REJECTED_EXPLANATION, HANDLE_REJECTED_EXPLANATION, LOGIN_USER_AGENT,
};
use messenger::cdn::CdnImage;
use messenger::convert::{
    assemble_content, author_user, contact_user, guild_house, interface_reactions,
    message_revisions, profile_user, revisions_from,
};
use messenger::gateway::{
    dispatch_step, DispatchAction, DispatchFailure, DispatchState, EventFacts, PayloadFacts,
    is_own_user, message_deleted, owner_dropped, pair_voice_members, reaction_change, update_presence,
    voice_server_endpoint, DispatchError, GatewayEvent, Opcode,
};
use messenger::recording::RecordedEvent;
use messenger::rich::Piece;
use messenger::types::{CacheCategory, RichText, Span, TextStyle};

fn message(ts: &str, edited: Option<&str>) -> Message {
    Message {
        author: User {
            avatar: None,
            id: 1,
            username: "u".into(),
        },
        channel_id: 2,
        content: "c".into(),
        edited_timestamp: edited.map(|s| s.to_string()),
        id: 3,
        reactions: None,
        sticker_items: None,
        timestamp: ts.into(),
    }
}

#[test]
fn cdn_urls_and_cache_names() {
    let a = CdnImage::avatar(42, "abc");
    assert_eq!(
        a.url(),
        "https://cdn.discordapp.com/avatars/42/abc.webp?size=80&quality=lossless"
    );
    assert_eq!(a.file_name(), "42/abc.webp");
    assert!(matches!(a.category(), CacheCategory::Users));
    assert_eq!(a.cache_path(), "./.cache/imgs/users/Discord/42/abc.webp");
    let e = CdnImage::emoji(7, true);
    assert_eq!(e.url(), "https://cdn.discordapp.com/emojis/7.gif?size=48");
    assert_eq!(e.file_name(), "7.gif");
    assert_eq!(
        CdnImage::sticker(9, 1).unwrap().url(),
        "https://cdn.discordapp.com/stickers/9.png?size=160"
    );
    assert_eq!(CdnImage::sticker(9, 4).unwrap().file_name(), "9.gif");
    assert!(CdnImage::sticker(9, 3).is_none());
    assert_eq!(
        CdnImage::channel_icon(5, "h").url(),
        "https://cdn.discordapp.com/channel-icons/5/h.webp?size=80&quality=lossless"
    );
    assert_eq!(
        CdnImage::guild_icon(6, "g").url(),
        "https://cdn.discordapp.com/icons/6/g.webp?size=80&quality=lossless"
    );
}

#[test]
fn rest_endpoints() {
    assert_eq!(
        messages_url(10, Some(99)),
        "https://discord.com/api/v10/channels/10/messages?before=99"
    );
    assert_eq!(messages_url(10, None), "https://discord.com/api/v10/channels/10/messages");
    assert_eq!(send_message_url(1), "https://discord.com/api/v10/channels/1/messages");
    assert_eq!(guild_channels_url(3), "https://discord.com/api/v10/guilds/3/channels");
    assert_eq!(
        own_reaction_url(1, 2, "👍"),
        "https://discord.com/api/v10/channels/1/messages/2/reactions/%F0%9F%91%8D/@me"
    );
    assert_eq!(
        own_reaction_url(1, 2, "a b"),
        "https://discord.com/api/v10/channels/1/messages/2/reactions/a%20b/@me"
    );
}

#[test]
fn login_error_explanations() {
    assert_eq!(explain_login_error("needs captcha_key", "me"), Some(CAPTCHA_EXPLANATION));
    assert_eq!(
        explain_login_error("{\"code\": \"INVALID_LOGIN\"}", "a@b.c"),
        Some(EMAIL_REJECTED_EXPLANATION)
    );
    assert_eq!(
        explain_login_error("INVALID_LOGIN", "handle"),
        Some(HANDLE_REJECTED_EXPLANATION)
    );
    assert_eq!(explain_login_error("HTTP 500", "a@b"), None);
    assert!(contains_text("abc", ""));
    assert!(!contains_text("ab", "abc"));
}

#[test]
fn login_steps() {
    let token = LoginResponse {
        token: Some("t".into()),
        mfa: None,
        ticket: None,
        totp: None,
        login_instance_id: None,
    };
    assert!(matches!(after_login(token, None), Ok(LoginStep::Token(t)) if t == "t"));
    let neither = LoginResponse {
        token: None,
        mfa: None,
        ticket: None,
        totp: None,
        login_instance_id: None,
    };
    assert!(matches!(after_login(neither, Some("1")), Err(LoginError::NoTokenReturned)));
    let mfa = || LoginResponse {
        token: None,
        mfa: Some(true),
        ticket: Some("tk".into()),
        totp: Some(true),
        login_instance_id: Some("li".into()),
    };
    assert!(matches!(after_login(mfa(), None), Err(LoginError::MfaCodeRequired)));
    assert!(matches!(after_login(mfa(), Some("  ")), Err(LoginError::MfaCodeRequired)));
    match after_login(mfa(), Some(" 123456 ")) {
        Ok(LoginStep::Mfa(req)) => {
            assert_eq!(req.ticket, "tk");
            assert_eq!(req.code, "123456");
            assert_eq!(req.login_instance_id.as_deref(), Some("li"));
        }
        _ => panic!("expected an MFA step"),
    }
    assert_eq!(after_mfa(MfaResponse { token: Some("x".into()) }), Ok("x".to_string()));
    assert_eq!(after_mfa(MfaResponse { token: None }), Err(LoginError::MfaNoToken));
    let req = login_request("  me@x.y \n", " pw ");
    assert_eq!(req.login, "me@x.y");
    assert_eq!(req.password, " pw ");
    assert!(!req.undelete);
    assert_eq!(kept_mfa_code(Some(" ".into())), None);
    assert_eq!(kept_mfa_code(Some("\u{3000}\t\u{2028}\u{85}".into())), None);
    assert_eq!(kept_mfa_code(Some("\u{200b}".into())), Some("\u{200b}".to_string()));
    assert_eq!(kept_mfa_code(Some("12".into())), Some("12".to_string()));
}

#[test]
fn request_headers_and_bodies() {
    let headers = login_headers("{}");
    assert_eq!(headers[0], ("User-Agent", LOGIN_USER_AGENT.to_string()));
    assert_eq!(headers[1], ("X-Super-Properties", "e30=".to_string()));
    assert_eq!(login_headers("ab")[1].1, "YWI=");
    assert_eq!(login_headers("abc")[1].1, "YWJj");
    assert_eq!(auth_header(" tok\n"), ("Authorization", "tok".to_string()));
    let body = create_message_body("hi".into());
    assert_eq!(body.content.as_deref(), Some("hi"));
    assert_eq!(body.tts, Some(false));
    assert_eq!(body.flags, Some(0));
}

#[test]
fn revisions_of_edited_and_unedited_messages() {
    let (content, history) = message_revisions(&message("2026-01-01T00:00:00+00:00", None), RichText::plain("x".into()));
    assert_eq!(content.at, Some(1_767_225_600_000_000));
    assert!(history.is_empty());
    let (content, history) = message_revisions(
        &message("2026-01-01T00:00:00+00:00", Some("2026-01-01T00:00:01.5+00:00")),
        RichText::default(),
    );
    assert_eq!(content.at, Some(1_767_225_601_500_000));
    assert_eq!(history.len(), 1);
    assert_eq!(history[0].at, Some(1_767_225_600_000_000));
    let (content, _) = message_revisions(&message("garbage", Some("also garbage")), RichText::default());
    assert_eq!(content.at, None);
    let (c, h) = revisions_from(Some(1), Some(2), RichText::default());
    assert_eq!((c.at, h.len()), (Some(2), 1));
}

#[test]
fn reactions_and_content_assembly() {
    let reactions = Some(vec![
        ApiReaction {
            count: 2,
            emoji: ApiEmoji {
                id: Some(5),
                name: "custom".into(),
            },
            me: true,
        },
        ApiReaction {
            count: 1,
            emoji: ApiEmoji {
                id: None,
                name: "👍".into(),
            },
            me: false,
        },
    ]);
    let out = interface_reactions(&reactions, &vec![Some("img".into()), Some("ignored".into())]);
    assert_eq!(out.len(), 2);
    assert_eq!(out[0].emoji.image.as_deref(), Some("img"));
    assert_eq!(out[1].emoji.image, None);
    assert_eq!(out[1].emoji.shortcode, "👍");
    assert!(out[0].reacted && !out[1].reacted);
    assert!(interface_reactions(&None, &vec![]).is_empty());

    let pieces = vec![
        Piece::Text {
            text: "a".into(),
            style: TextStyle::default(),
        },
        Piece::Emoji {
            name: "e".into(),
            id: 1,
            animated: false,
        },
    ];
    let stickers = vec![StickerItem {
        id: 3,
        name: "st".into(),
        format_type: 3,
    }];
    let rich = assemble_content(&pieces, &vec![None, Some("p".into())], &stickers, &vec![None]);
    assert_eq!(rich.spans.len(), 3);
    assert!(matches!(&rich.spans[1], Span::Emoji(e) if e.shortcode == "e" && e.image.as_deref() == Some("p")));
    assert!(matches!(&rich.spans[2], Span::Sticker { alt, image: None } if alt == "st"));
    assert_eq!(rich.to_plain(), "a:e:st");
}

#[test]
fn identities() {
    let p = Profile {
        avatar: None,
        id: 1,
        username: "me".into(),
    };
    assert_eq!(*profile_user(&p, None).id(), 1);
    let f = Friend {
        id: 2,
        user: User {
            avatar: None,
            id: 3,
            username: "fr".into(),
        },
    };
    let u = contact_user(&f, Some("x".into()));
    assert_eq!(*u.id(), 2);
    assert_eq!(u.data().name, "fr");
    assert_eq!(author_user(&f.user, None).data().name, "fr");
    let g = Guild {
        id: 9,
        name: "G".into(),
        icon: None,
    };
    let h = guild_house(&g, None);
    assert_eq!(h.data().name, "G");
    assert!(h.data().place_data.rooms.is_none());
}

#[test]
fn gateway_codes_and_names() {
    assert_eq!(Opcode::from_code(0), Some(Opcode::Dispatch));
    assert_eq!(Opcode::from_code(9), Some(Opcode::InvalidSession));
    assert_eq!(Opcode::from_code(5), None);
    assert_eq!(Opcode::HeartbeatAck.code(), 11);
    assert_eq!(GatewayEvent::from_name("MESSAGE_REACTION_ADD"), Some(GatewayEvent::MessageReactionAdd));
    assert_eq!(
        GatewayEvent::from_name("APPLICATION_COMMAND_PERMISSIONS_UPDATE"),
        Some(GatewayEvent::ApplicationCommandPermissionsUpdate)
    );
    assert_eq!(GatewayEvent::from_name("message_create"), None);
    assert_eq!(GatewayEvent::GuildAuditLogEntryCreate.as_name(), "GUILD_AUDIT_LOG_ENTRY_CREATE");
}

#[test]
fn dispatch_decisions() {
    assert!(is_own_user(Some(4), 4));
    assert!(!is_own_user(None, 4));
    let ep = voice_server_endpoint(Some("wss".into()), "tok".into()).unwrap();
    assert_eq!((ep.wss.as_str(), ep.token.as_str()), ("wss", "tok"));
    assert!(matches!(
        voice_server_endpoint(None, "t".into()),
        Err(DispatchError::MissingVoiceEndpoint)
    ));
    let payload = MessageReactionChange {
        user_id: 4,
        channel_id: 1,
        message_id: 2,
        emoji: ApiEmoji {
            id: None,
            name: "x".into(),
        },
    };
    let (event, notice) = reaction_change(payload, Some(4), false);
    assert!(matches!(event, RecordedEvent::ReactionRemoved { is_self: true, message_id: 2, .. }));
    assert_eq!(notice.emoji, "x");
    assert!(!notice.added);
    let (event, at) = message_deleted(&MessageDelete { id: 8, channel_id: 1 });
    assert!(matches!(event, RecordedEvent::MessageDeleted { channel_id: 1, message_id: 8 }));
    assert_eq!(at, (1, 8));
    assert!(owner_dropped(3, 2));
    assert!(!owner_dropped(4, 2));
    let mut had = false;
    assert!(!update_presence(true, &mut had));
    assert!(had);
    assert!(update_presence(false, &mut had));
    assert!(!had);
    assert!(!update_presence(false, &mut had));
}

#[test]
fn ready_voice_states_pair_with_members() {
    // Guild members then the guild's merged members; user 2 is listed twice.
    let members = vec![1u64, 2, 3, 2];
    let voice = vec![2u64, 9, 1, 2];
    let pairs = pair_voice_members(&members, &voice);
    assert_eq!(pairs, vec![Some(3), None, Some(0), None]);
    assert!(pair_voice_members(&vec![], &vec![5]).iter().all(|p| p.is_none()));
    assert!(pair_voice_members(&members, &vec![]).is_empty());
}

fn facts(user_id: Option<u64>) -> EventFacts {
    EventFacts {
        user_id,
        has_endpoint: true,
        has_location: true,
        guild_id: None,
    }
}

#[test]
fn dispatch_steps() {
    let mut st = DispatchState {
        connected: true,
        last_sequence: None,
        own_user: None,
        voice_gateway_up: false,
    };
    let ready = PayloadFacts::Dispatch { event: GatewayEvent::Ready, parsed: true, facts: facts(Some(7)) };
    let out = dispatch_step(&mut st, Some(1), &ready);
    assert_eq!(out.actions, vec![DispatchAction::ResetVoiceRosters, DispatchAction::StoreReady]);
    assert_eq!(out.failure, None);
    assert_eq!(st.own_user, Some(7));
    assert_eq!(st.last_sequence, Some(1));

    // Partial message updates are skipped; complete ones are recorded first.
    let partial = PayloadFacts::Dispatch { event: GatewayEvent::MessageUpdate, parsed: false, facts: facts(None) };
    let out = dispatch_step(&mut st, None, &partial);
    assert!(out.actions.is_empty() && out.failure.is_none());
    assert_eq!(st.last_sequence, Some(1));
    let delete = PayloadFacts::Dispatch { event: GatewayEvent::MessageDelete, parsed: true, facts: facts(None) };
    assert_eq!(dispatch_step(&mut st, Some(2), &delete).actions, vec![DispatchAction::Record, DispatchAction::EmitText]);
    let bad_delete = PayloadFacts::Dispatch { event: GatewayEvent::MessageDelete, parsed: false, facts: facts(None) };
    assert_eq!(dispatch_step(&mut st, None, &bad_delete).failure, Some(DispatchFailure::Malformed));

    // Own voice state: session id, roster, connect attempt.
    let own_voice = PayloadFacts::Dispatch { event: GatewayEvent::VoiceStateUpdate, parsed: true, facts: facts(Some(7)) };
    assert_eq!(
        dispatch_step(&mut st, None, &own_voice).actions,
        vec![DispatchAction::InsertSessionId, DispatchAction::UpdateVoiceRoster, DispatchAction::ConnectVoice]
    );
    let other_voice = PayloadFacts::Dispatch { event: GatewayEvent::VoiceStateUpdate, parsed: true, facts: facts(Some(8)) };
    assert_eq!(dispatch_step(&mut st, None, &other_voice).actions, vec![DispatchAction::UpdateVoiceRoster]);

    let mut no_endpoint = facts(None);
    no_endpoint.has_endpoint = false;
    let server = PayloadFacts::Dispatch { event: GatewayEvent::VoiceServerUpdate, parsed: true, facts: no_endpoint };
    let out = dispatch_step(&mut st, None, &server);
    assert!(out.actions.is_empty());
    assert_eq!(out.failure, Some(DispatchFailure::Refused(DispatchError::MissingVoiceEndpoint)));

    let mut created = facts(None);
    created.guild_id = Some(3);
    let create = PayloadFacts::Dispatch { event: GatewayEvent::ChannelCreate, parsed: true, facts: created };
    assert_eq!(
        dispatch_step(&mut st, None, &create).actions,
        vec![DispatchAction::MapChannel, DispatchAction::CacheGuildChannel(3), DispatchAction::EmitChannelCreated]
    );

    let out = dispatch_step(&mut st, Some(9), &PayloadFacts::Control(Opcode::Reconnect));
    assert_eq!(out.actions, vec![DispatchAction::TearDown]);
    assert!(!st.connected);
    let out = dispatch_step(&mut st, Some(10), &delete);
    assert_eq!(out.failure, Some(DispatchFailure::NotConnected));
    assert_eq!(st.last_sequence, Some(9));
}
