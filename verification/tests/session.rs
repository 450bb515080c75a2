use messenger::api::{Message, User};
use messenger::audio_session::{
    legacy_speaking_step, process_work, record_filled, speaking_payload, speaking_transition, voice_heartbeat,
    AudioWork, MicState, MicStep, SendState, VoiceHeartbeat, VOICE_FRAME_SAMPLES,
};
use messenger::convert::order_messages;

#[test]
fn microphone_acquisition_with_bounded_retries() {
    let mut mic = MicState::new();
    assert_eq!(mic.step(), MicStep::RequestMicrophone);
    assert!(mic.request_pending);
    assert_eq!(mic.step(), MicStep::AwaitMicrophone);
    assert!(!mic.received(false));
    assert_eq!(mic.retries, 1);
    assert_eq!(mic.step(), MicStep::RequestMicrophone);
    mic.received(false);
    mic.step();
    mic.received(false);
    assert_eq!(mic.retries, 3);
    assert_eq!(mic.step(), MicStep::Proceed);
    let mut ok = MicState::new();
    ok.step();
    assert!(ok.received(true));
    assert_eq!(ok.step(), MicStep::Proceed);
    assert_eq!(ok.retries, 0);
}

#[test]
fn speaking_updates_only_on_transitions() {
    let mut speaking = false;
    assert_eq!(speaking_transition(&mut speaking, true), Some(true));
    assert_eq!(speaking_transition(&mut speaking, true), None);
    assert_eq!(speaking_transition(&mut speaking, false), Some(false));
    assert!(!speaking);
}

#[test]
fn work_changes_session_state() {
    let mut st = SendState {
        is_speaking: false,
        frame_filled: 0,
        stop_timer_armed: false,
    };
    assert!(!record_filled(&mut st, 1000));
    assert!(record_filled(&mut st, VOICE_FRAME_SAMPLES - 1000));
    let a = process_work(&mut st, AudioWork::SendMic, true);
    assert_eq!(a.speaking_update, Some(true));
    assert!(a.send_frame);
    assert_eq!(
        st,
        SendState {
            is_speaking: true,
            frame_filled: 0,
            stop_timer_armed: true
        }
    );
    let b = process_work(&mut st, AudioWork::SendMic, false);
    assert_eq!(b.speaking_update, None);
    assert!(!b.send_frame);
    let c = process_work(&mut st, AudioWork::StopSpeaking, true);
    assert_eq!(c.speaking_update, Some(false));
    assert!(!st.is_speaking && !st.stop_timer_armed);
}

#[test]
fn legacy_loop_and_heartbeats() {
    let mut speaking = false;
    let a = legacy_speaking_step(&mut speaking, true, false);
    assert_eq!((a.speaking_update, a.send_frame), (Some(true), true));
    let b = legacy_speaking_step(&mut speaking, false, false);
    assert_eq!((b.speaking_update, b.send_frame), (None, false));
    let c = legacy_speaking_step(&mut speaking, false, true);
    assert_eq!(c.speaking_update, Some(false));
    assert_eq!(voice_heartbeat(4, 10, Some(3)), VoiceHeartbeat::Time { t: 10 });
    assert_eq!(
        voice_heartbeat(8, 10, Some(3)),
        VoiceHeartbeat::TimeAndAck {
            t: 10,
            seq_ack: Some(3)
        }
    );
}

fn msg(id: u64) -> Message {
    Message {
        author: User {
            avatar: None,
            id: 1,
            username: "u".into(),
        },
        channel_id: 2,
        content: String::new(),
        edited_timestamp: None,
        id,
        reactions: None,
        sticker_items: None,
        timestamp: String::new(),
    }
}

#[test]
fn time_order_reverses_rest_order() {
    let ids = |v: &Vec<Message>| v.iter().map(|m| m.id).collect::<Vec<_>>();
    assert_eq!(ids(&order_messages(vec![msg(3), msg(2), msg(1)], true)), vec![1, 2, 3]);
    assert_eq!(ids(&order_messages(vec![msg(3), msg(2)], false)), vec![3, 2]);
    assert!(order_messages(vec![], true).is_empty());
}

#[test]
fn speaking_update_payload() {
    assert_eq!(speaking_payload(1234, true), r#"{"d":{"delay":0,"speaking":1,"ssrc":1234},"op":5}"#);
    assert_eq!(speaking_payload(0, false), r#"{"d":{"delay":0,"speaking":0,"ssrc":0},"op":5}"#);
}
