use messenger::encryption::{EncryptionMode, SessionDescription};
use messenger::rtp::{
    parse_extensions, rtp_header_len, u16_from_be_bytes, u32_from_be_slice, u32_to_be_bytes,
    DiscordPacketType, PacketClass, RtcpType, RtpExtension, RtpExtensions, RtpType, WrapU16,
    WrapU32,
};
use messenger::voice::{open_voice_payload, recv_packet, AudioSender, UdpPacket, VoiceError};
use messenger::voice_payloads::{
    ip_discovery_request, parse_ip_discovery, u16be, u32be, DiscoveryError, MlsProposalsPayload,
    MlsTransitionPayload, PayloadError, ProposalsOperationType,
};
use messenger::voice_state::{
    check_offered_modes, nonzero_dave_version, DaveTransitions, Endpoint, MlsReply,
    TransitionOutcome, VoiceGateawayStatus, VoiceGatewayError, VoiceOpcode,
};

const XCHACHA: EncryptionMode = EncryptionMode::aead_xchacha20_poly1305_rtpsize;

fn key() -> Vec<u8> {
    (0u8..32).collect()
}

#[test]
fn wrapping_counters_wrap_around() {
    assert_eq!(WrapU16::new(u16::MAX).wrapping_plus(1).0, 0);
    assert_eq!(WrapU16::new(0).wrapping_minus(1).0, u16::MAX);
    assert_eq!(WrapU32::new(u32::MAX - 1).wrapping_plus(3).0, 1);
    let mut c = WrapU32::new(5);
    c.advance(10);
    c.rewind(15);
    assert_eq!(u32::from(c), 0);
    assert_eq!(WrapU16::from(7u16).to_primitive_values(), (7,));
}

#[test]
fn add_then_subtract_restores_counter() {
    for (c, d) in [(0u16, 1u16), (65535, 2), (1234, 65535)] {
        assert_eq!(WrapU16::new(c).wrapping_plus(d).wrapping_minus(d).0, c);
    }
}

#[test]
fn payload_types_classify_and_roundtrip() {
    assert_eq!(RtpType::new(0), RtpType::Pcmu);
    assert_eq!(RtpType::new(16), RtpType::Dvi4(16));
    assert_eq!(RtpType::new(73), RtpType::Reserved(73));
    assert_eq!(RtpType::new(120), RtpType::Dynamic(120));
    assert_eq!(RtpType::new(200), RtpType::Illegal(200));
    assert_eq!(RtpType::new(50), RtpType::Unassigned(50));
    for v in 0u8..=255 {
        assert_eq!(RtpType::new(v).to_primitive_values().0, v);
    }
}

#[test]
fn datagrams_classified_by_second_byte() {
    assert_eq!(PacketClass::classify(200), PacketClass::Rtcp(RtcpType::SenderReport));
    assert_eq!(PacketClass::classify(201), PacketClass::Rtcp(RtcpType::ReceiverReport));
    assert_eq!(PacketClass::classify(205), PacketClass::Rtcp(RtcpType::Other(205)));
    assert_eq!(
        PacketClass::classify(0xF8),
        PacketClass::Rtp {
            marker: true,
            payload_type: 120
        }
    );
    assert_eq!(DiscordPacketType::try_from_byte(0x78), Some(DiscordPacketType::Voice));
    assert_eq!(DiscordPacketType::try_from_byte(7), None);
}

#[test]
fn header_length_counts_csrcs_and_extension() {
    let mut p = vec![0u8; 40];
    p[0] = 0x80;
    assert_eq!(rtp_header_len(&p), 12);
    p[0] = 0x92; // X bit, two CSRCs
    assert_eq!(rtp_header_len(&p), 12 + 8 + 4);
    let short = vec![0x8F, 0, 0, 0, 0, 0, 0, 0, 0, 0, 0, 0, 0, 0];
    assert_eq!(rtp_header_len(&short), 14);
}

#[test]
fn extension_block_parsing() {
    let block = [0x10, 0x7F, 0x00, 0x32, 1, 2, 3, 0x90, 0x05, 0xF0, 0x10, 0x01];
    let ext = parse_extensions(&block);
    assert_eq!(
        ext,
        RtpExtensions {
            audio_level: Some(0x7F),
            timecode: Some((1, 2, 3)),
            channels: Some(5)
        }
    );
    // a wrongly sized element is skipped; a truncated one ends the block
    let odd = [0x11, 9, 9, 0x12, 1];
    assert_eq!(
        parse_extensions(&odd),
        RtpExtensions {
            audio_level: None,
            timecode: None,
            channels: None
        }
    );
    assert_eq!(RtpExtension::from_id(3), Some(RtpExtension::Timecode));
    assert_eq!(RtpExtension::from_id(2), None);
    assert_eq!(RtpExtension::Timecode.expected_data_len(), 3);
}

#[test]
fn big_endian_helpers() {
    assert_eq!(u16_from_be_bytes(0x12, 0x34), 0x1234);
    assert_eq!(u32_from_be_slice(&[0, 0xDE, 0xAD, 0xBE, 0xEF], 1), 0xDEADBEEF);
    assert_eq!(u32_to_be_bytes(0x01020304), [1, 2, 3, 4]);
    assert_eq!(u16be::from(0xABCDu16).get(), 0xABCD);
    assert_eq!(u32be::from(77u32).get(), 77);
    assert_eq!(u16be(1, 2).get(), 258);
}

#[test]
fn sealed_frame_opens_to_its_payload() {
    let key = key();
    let mut sender = AudioSender::new(0xCAFE);
    assert_eq!(AudioSender::check_frame(1920, Some(XCHACHA), true), Ok(Some(960)));
    let frame = sender.prepare_frame(960, None, XCHACHA).expect("frame");
    assert_eq!(frame.header[0], 0x80);
    assert_eq!(frame.header[1], 120);
    assert_eq!(frame.nonce, 0);
    let payload = b"opus frame bytes".to_vec();
    let packet = AudioSender::seal_frame(&frame, &payload, &key).expect("sealed");
    assert_eq!(packet.len(), 12 + payload.len() + 16 + 4);
    match recv_packet(&packet, Some(XCHACHA), Some(&key)).expect("opened") {
        UdpPacket::Voice {
            ssrc,
            extensions,
            payload: got,
        } => {
            assert_eq!(ssrc, 0xCAFE);
            assert_eq!(got, payload);
            assert_eq!(extensions.audio_level, None);
        }
        other => panic!("unexpected {other:?}"),
    }
}

#[test]
fn tampered_or_wrong_key_fails_to_decrypt() {
    let key = key();
    let mut sender = AudioSender::new(1);
    let frame = sender.prepare_frame(960, None, XCHACHA).unwrap();
    let mut packet = AudioSender::seal_frame(&frame, b"abc", &key).unwrap();
    let other_key = vec![9u8; 32];
    assert!(matches!(
        recv_packet(&packet, Some(XCHACHA), Some(&other_key)),
        Err(VoiceError::DecryptionFailed)
    ));
    packet[13] ^= 1;
    assert!(matches!(
        recv_packet(&packet, Some(XCHACHA), Some(&key)),
        Err(VoiceError::DecryptionFailed)
    ));
}

#[test]
fn counters_advance_per_frame() {
    let mut sender = AudioSender::new(3);
    let a = sender.prepare_frame(960, None, XCHACHA).unwrap();
    let b = sender.prepare_frame(960, Some(40), XCHACHA).unwrap();
    assert_eq!(u16::from_be_bytes([a.header[2], a.header[3]]), 0);
    assert_eq!(u16::from_be_bytes([b.header[2], b.header[3]]), 1);
    assert_eq!(u32::from_be_bytes([b.header[4], b.header[5], b.header[6], b.header[7]]), 1000);
    assert_eq!(b.nonce, 1);
    assert_eq!(
        sender.prepare_frame(960, None, EncryptionMode::xsalsa20_poly1305),
        Err(VoiceError::UnsupportedMode(EncryptionMode::xsalsa20_poly1305))
    );
    let c = sender.prepare_frame(960, None, XCHACHA).unwrap();
    assert_eq!(u16::from_be_bytes([c.header[2], c.header[3]]), 3);
    assert_eq!(c.nonce, 2);
}

#[test]
fn frame_checks_before_encoding() {
    assert_eq!(AudioSender::check_frame(0, None, false), Ok(None));
    assert_eq!(
        AudioSender::check_frame(3, Some(XCHACHA), true),
        Err(VoiceError::OddSampleCount)
    );
    assert_eq!(AudioSender::check_frame(4, None, true), Err(VoiceError::MissingMode));
    assert_eq!(
        AudioSender::check_frame(4, Some(XCHACHA), false),
        Err(VoiceError::MissingKey)
    );
}

#[test]
fn receive_errors_and_other_packets() {
    assert!(matches!(recv_packet(&[1], None, None), Err(VoiceError::PacketTooShort)));
    assert!(matches!(
        recv_packet(&[0x80, 200, 0, 0], None, None),
        Ok(UdpPacket::Rtcp(RtcpType::SenderReport))
    ));
    let video = [0x80, 101, 0, 1, 0, 0, 0, 2, 0, 0, 0, 9];
    assert!(matches!(
        recv_packet(&video, None, None),
        Ok(UdpPacket::UnhandledRtp {
            ssrc: 9,
            payload_type: 101
        })
    ));
    assert!(matches!(
        recv_packet(&[0x80, 120, 0], None, None),
        Err(VoiceError::MalformedRtp)
    ));
    let opus = [0x80, 120, 0, 1, 0, 0, 0, 2, 0, 0, 0, 9, 1, 2, 3, 4, 5];
    assert!(matches!(recv_packet(&opus, None, None), Err(VoiceError::MissingMode)));
    assert!(matches!(
        recv_packet(&opus, Some(XCHACHA), None),
        Err(VoiceError::MissingKey)
    ));
}

#[test]
fn decrypted_payload_extensions_and_padding() {
    // X and P bits set, one-word extension block
    let header = [0xB0, 120, 0, 1, 0, 0, 0, 2, 0, 0, 0, 9, 0xBE, 0xDE, 0, 1];
    let dec = [0x10, 0x55, 0, 0, 7, 8, 9, 0, 2];
    let (ext, voice) = open_voice_payload(&header, &dec).unwrap();
    assert_eq!(ext.audio_level, Some(0x55));
    assert_eq!(voice, vec![7, 8, 9]);
    let short = [0x10];
    assert!(matches!(
        open_voice_payload(&header, &short),
        Err(VoiceError::ExtensionOverrun {
            decrypted: 1,
            declared: 4
        })
    ));
}

#[test]
fn ip_discovery_roundtrip() {
    let req = ip_discovery_request(0x01020304, "10.0.0.1", 5000);
    assert_eq!(req.len(), 74);
    assert_eq!(&req[0..4], &[0, 1, 0, 70]);
    assert_eq!(&req[4..8], &[1, 2, 3, 4]);
    assert_eq!(&req[8..16], b"10.0.0.1");
    assert!(req[16..72].iter().all(|b| *b == 0));
    assert_eq!(&req[72..74], &[0x13, 0x88]);
    let parsed = parse_ip_discovery(&req).unwrap();
    assert_eq!(parsed.ssrc, 0x01020304);
    assert_eq!(parsed.address, b"10.0.0.1".to_vec());
    assert_eq!(parsed.port, 5000);
    let mut bad = req.clone();
    bad[30] = 0xFF;
    assert!(matches!(parse_ip_discovery(&bad), Err(DiscoveryError::AddressNotUtf8)));
}

#[test]
fn mls_payloads() {
    let p = MlsProposalsPayload::try_from_bytes(vec![0, 9, 8]).unwrap();
    assert_eq!(p.operation_type, ProposalsOperationType::Append);
    assert_eq!(p.data, vec![9, 8]);
    let p = MlsProposalsPayload::try_from_bytes(vec![3]).unwrap();
    assert_eq!(p.operation_type, ProposalsOperationType::Revoke);
    assert!(p.data.is_empty());
    assert!(matches!(
        MlsProposalsPayload::try_from_bytes(vec![]),
        Err(PayloadError::EmptyProposals)
    ));
    let t = MlsTransitionPayload::try_from_bytes(vec![1, 2, 7]).unwrap();
    assert_eq!(t.transition_id, 258);
    assert_eq!(t.data, vec![7]);
    assert!(matches!(
        MlsTransitionPayload::try_from_bytes(vec![1]),
        Err(PayloadError::TruncatedTransition)
    ));
}

#[test]
fn encryption_mode_names() {
    assert_eq!(XCHACHA.as_str(), "aead_xchacha20_poly1305_rtpsize");
    assert_eq!(XCHACHA.nonce_size(), 4);
    assert_eq!(EncryptionMode::aead_aes256_gcm.tag_len(), 16);
    for m in [
        EncryptionMode::aead_aes256_gcm,
        EncryptionMode::aead_aes256_gcm_rtpsize,
        XCHACHA,
        EncryptionMode::xsalsa20_poly1305,
        EncryptionMode::xsalsa20_poly1305_suffix,
        EncryptionMode::xsalsa20_poly1305_lite,
        EncryptionMode::xsalsa20_poly1305_lite_rtpsize,
    ] {
        assert_eq!(EncryptionMode::from_name(m.as_str()), Some(m));
    }
    assert_eq!(EncryptionMode::from_name("plain"), None);
}

#[test]
fn session_description_getters() {
    let d = SessionDescription::new(
        "opus".into(),
        "".into(),
        "m".into(),
        Some(XCHACHA),
        Some(key()),
        None,
        1,
    );
    assert_eq!(d.mode(), Some(&XCHACHA));
    assert_eq!(d.secret_key(), Some(&key()));
    assert_eq!(d.dave_protocol_version(), 1);
}

#[test]
fn join_data_in_either_order() {
    let mut a = VoiceGateawayStatus::AwaitingData { channel_id: 5 };
    a.insert_endpoint(Endpoint::new("wss://e".into(), "t".into()));
    assert!(matches!(a, VoiceGateawayStatus::AwaitingSession { channel_id: 5, .. }));
    a.insert_session_id("s".into());
    let mut b = VoiceGateawayStatus::AwaitingData { channel_id: 5 };
    b.insert_session_id("s".into());
    b.insert_endpoint(Endpoint::new("wss://e".into(), "t".into()));
    for st in [a, b] {
        match st {
            VoiceGateawayStatus::Ready {
                channel_id,
                endpoint,
                session_id,
            } => {
                assert_eq!(channel_id, 5);
                assert_eq!(endpoint.wss, "wss://e");
                assert_eq!(endpoint.token, "t");
                assert_eq!(session_id, "s");
            }
            _ => panic!("not ready"),
        }
    }
    let mut closed = VoiceGateawayStatus::default();
    closed.insert_session_id("s".into());
    assert!(matches!(closed, VoiceGateawayStatus::Closed));
}

#[test]
fn dave_transitions() {
    let mut t = DaveTransitions::new();
    assert_eq!(
        t.respond_to_mls_transition(1, 7, true),
        Some(MlsReply::TransitionReady { transition_id: 7 })
    );
    assert_eq!(t.execute_pending_transition(1, 7), TransitionOutcome::Applied);
    assert_eq!(t.execute_pending_transition(1, 7), TransitionOutcome::NotPending);
    assert_eq!(
        t.respond_to_mls_transition(1, 3, false),
        Some(MlsReply::InvalidCommitWelcome { transition_id: 3 })
    );
    assert_eq!(t.respond_to_mls_transition(1, 0, true), None);
    t.insert(4, 2);
    assert_eq!(
        t.execute_pending_transition(1, 4),
        TransitionOutcome::VersionMismatch { old: 1, new: 2 }
    );
    assert_eq!(t.prepare_transition(1, 0), Some(TransitionOutcome::Applied));
    assert_eq!(t.prepare_transition(1, 9), None);
    assert_eq!(t.execute_pending_transition(1, 9), TransitionOutcome::Applied);
}

#[test]
fn offered_modes_and_versions() {
    assert_eq!(check_offered_modes(&vec![EncryptionMode::aead_aes256_gcm, XCHACHA]), Ok(()));
    assert_eq!(
        check_offered_modes(&vec![EncryptionMode::aead_aes256_gcm]),
        Err(VoiceGatewayError::RequiredModeUnavailable)
    );
    assert_eq!(nonzero_dave_version(0), Err(VoiceGatewayError::ZeroDaveVersion));
    assert_eq!(nonzero_dave_version(2), Ok(2));
    assert_eq!(VoiceOpcode::from_code(27), Some(VoiceOpcode::MLSProposals));
    assert_eq!(VoiceOpcode::from_code(10), None);
    assert_eq!(VoiceOpcode::MLSWelcome.code(), 30);
}
