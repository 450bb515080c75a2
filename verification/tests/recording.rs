use messenger::api::{Emoji, Message, Reaction, User};
use messenger::recording::{apply_to_messages, reaction_matches, RecordedEvent, RecordingState};

fn message(id: u64, content: &str, reactions: Option<Vec<Reaction>>) -> Message {
    Message {
        author: User {
            avatar: None,
            id: 1,
            username: "user".to_string(),
        },
        channel_id: 10,
        content: content.to_string(),
        edited_timestamp: None,
        id,
        reactions,
        sticker_items: None,
        timestamp: "2026-01-01T00:00:00+00:00".to_string(),
    }
}

fn reaction(name: &str, count: u32, me: bool) -> Reaction {
    Reaction {
        count,
        emoji: Emoji {
            id: None,
            name: name.to_string(),
        },
        me,
    }
}

#[test]
fn update_without_reactions_preserves_snapshot_reactions() {
    let snapshot = vec![message(1, "old", Some(vec![reaction("👍", 2, true)]))];
    let events = vec![RecordedEvent::MessageUpdated {
        channel_id: 10,
        message: message(1, "new", None),
    }];

    let merged = apply_to_messages(snapshot, events, 10);
    assert_eq!(merged[0].content, "new");
    let reactions = merged[0].reactions.as_ref().expect("reactions kept");
    assert_eq!(reactions.len(), 1);
    assert_eq!(reactions[0].count, 2);
}

#[test]
fn update_with_reactions_replaces_snapshot_reactions() {
    let snapshot = vec![message(1, "old", Some(vec![reaction("👍", 2, true)]))];
    let events = vec![RecordedEvent::MessageUpdated {
        channel_id: 10,
        message: message(1, "new", Some(vec![reaction("🎉", 1, false)])),
    }];

    let merged = apply_to_messages(snapshot, events, 10);
    let reactions = merged[0].reactions.as_ref().unwrap();
    assert_eq!(reactions[0].emoji.name, "🎉");
}

#[test]
fn delete_removes_and_other_channels_ignored() {
    let snapshot = vec![message(1, "a", None), message(2, "b", None)];
    let events = vec![
        RecordedEvent::MessageDeleted {
            channel_id: 10,
            message_id: 1,
        },
        RecordedEvent::MessageDeleted {
            channel_id: 99,
            message_id: 2,
        },
    ];

    let merged = apply_to_messages(snapshot, events, 10);
    assert_eq!(merged.len(), 1);
    assert_eq!(merged[0].id, 2);
}

#[test]
fn reaction_add_and_remove_roundtrip() {
    let snapshot = vec![message(1, "a", None)];
    let emoji = Emoji {
        id: None,
        name: "👍".to_string(),
    };
    let events = vec![
        RecordedEvent::ReactionAdded {
            channel_id: 10,
            message_id: 1,
            emoji: emoji.clone(),
            is_self: true,
        },
        RecordedEvent::ReactionRemoved {
            channel_id: 10,
            message_id: 1,
            emoji,
            is_self: true,
        },
    ];

    let merged = apply_to_messages(snapshot, events, 10);
    assert!(merged[0].reactions.as_ref().unwrap().is_empty());
}

#[test]
fn reaction_add_increments_existing_and_marks_self() {
    let snapshot = vec![message(1, "a", Some(vec![reaction("👍", 2, false)]))];
    let events = vec![RecordedEvent::ReactionAdded {
        channel_id: 10,
        message_id: 1,
        emoji: Emoji {
            id: None,
            name: "👍".to_string(),
        },
        is_self: true,
    }];
    let merged = apply_to_messages(snapshot, events, 10);
    let reactions = merged[0].reactions.as_ref().unwrap();
    assert_eq!(reactions.len(), 1);
    assert_eq!(reactions[0].count, 3);
    assert!(reactions[0].me);
}

#[test]
fn reactions_match_on_id_and_name() {
    let custom = Reaction {
        count: 1,
        emoji: Emoji {
            id: Some(5),
            name: "a".to_string(),
        },
        me: false,
    };
    assert!(reaction_matches(
        &custom,
        &Emoji {
            id: Some(5),
            name: "a".to_string()
        }
    ));
    assert!(!reaction_matches(
        &custom,
        &Emoji {
            id: Some(5),
            name: "b".to_string()
        }
    ));
    assert!(!reaction_matches(
        &custom,
        &Emoji {
            id: None,
            name: "a".to_string()
        }
    ));
}

#[test]
fn recording_window_sees_only_events_after_its_start() {
    let mut state = RecordingState::new();
    state.maybe_record(RecordedEvent::MessageDeleted {
        channel_id: 10,
        message_id: 1,
    });
    let start = state.start_recording();
    state.maybe_record(RecordedEvent::MessageDeleted {
        channel_id: 10,
        message_id: 2,
    });
    let taken = state.take(start);
    assert_eq!(taken.len(), 1);
    assert!(matches!(
        taken[0],
        RecordedEvent::MessageDeleted { message_id: 2, .. }
    ));
    state.end_recording(start);
}

fn deleted(id: u64) -> RecordedEvent {
    RecordedEvent::MessageDeleted {
        channel_id: 10,
        message_id: id,
    }
}

fn deleted_ids(events: &[RecordedEvent]) -> Vec<u64> {
    events
        .iter()
        .map(|e| match e {
            RecordedEvent::MessageDeleted { message_id, .. } => *message_id,
            _ => panic!("unexpected event"),
        })
        .collect()
}

#[test]
fn open_window_sees_events_across_other_windows() {
    let mut state = RecordingState::new();
    let a = state.start_recording();
    state.maybe_record(deleted(1));
    let b = state.start_recording();
    state.maybe_record(deleted(2));
    state.end_recording(a);
    let c = state.start_recording();
    state.maybe_record(deleted(3));
    assert_eq!(deleted_ids(&state.take(b)), vec![2, 3]);
    assert_eq!(deleted_ids(&state.take(c)), vec![3]);
    // take leaves the buffer as it is.
    assert_eq!(deleted_ids(&state.take(b)), vec![2, 3]);
}

#[test]
fn folding_in_two_batches_equals_one() {
    let snapshot = || vec![message(1, "a", None), message(2, "b", None), message(3, "c", None)];
    let once = apply_to_messages(snapshot(), vec![deleted(1), deleted(3)], 10);
    let twice = apply_to_messages(apply_to_messages(snapshot(), vec![deleted(1)], 10), vec![deleted(3)], 10);
    let ids = |ms: &Vec<Message>| ms.iter().map(|m| m.id).collect::<Vec<_>>();
    assert_eq!(ids(&once), vec![2]);
    assert_eq!(ids(&once), ids(&twice));
}
