use qmtui::app::{ActivityState, App, ChatEntry};
use qmtui::protocol::EventKind;
use qmtui::theme::Base16Palette;

fn palette(id: &str, shade: u32) -> Base16Palette {
    let mut colors: [u32; 16] = [0; 16];
    for (i, c) in colors.iter_mut().enumerate() {
        *c = shade + 0x01_01_01 * (i as u32);
    }
    Base16Palette { id: id.to_string(), label: id.to_string(), colors }
}

fn new_app() -> App {
    App::new(vec![
        palette("base16-querymate", 0x10_20_30),
        palette("base16-ocean", 0x20_10_40),
        palette("base16-eighties", 0x40_50_10),
    ])
}

#[test]
fn thinking_delta_accumulates_in_streaming_thinking() {
    let mut app = new_app();
    app.handle_event_kind(&EventKind::TurnStarted, false);

    app.handle_event_kind(
        &EventKind::AssistantThinkingDelta {
            content: "Let me ".into(),
            message_id: None,
        },
        false,
    );
    assert_eq!(app.streaming_thinking, "Let me ");

    app.handle_event_kind(
        &EventKind::AssistantThinkingDelta {
            content: "think about this.".into(),
            message_id: None,
        },
        false,
    );
    assert_eq!(app.streaming_thinking, "Let me think about this.");
}

#[test]
fn turn_started_clears_streaming_thinking() {
    let mut app = new_app();
    app.streaming_thinking = "old thinking".into();

    app.handle_event_kind(&EventKind::TurnStarted, false);

    assert!(app.streaming_thinking.is_empty());
}

#[test]
fn assistant_message_stored_captures_thinking_field() {
    let mut app = new_app();
    app.handle_event_kind(&EventKind::TurnStarted, false);

    app.handle_event_kind(
        &EventKind::AssistantMessageStored {
            content: "The answer is 42.".into(),
            thinking: Some("I need to compute the answer.".into()),
            message_id: None,
        },
        false,
    );

    assert_eq!(app.messages.len(), 1);
    match &app.messages[0] {
        ChatEntry::Assistant { content, thinking } => {
            assert_eq!(content, "The answer is 42.");
            assert_eq!(thinking.as_deref(), Some("I need to compute the answer."));
        }
        other => panic!("expected Assistant, got {:?}", other),
    }
}

#[test]
fn assistant_message_stored_without_thinking_sets_none() {
    let mut app = new_app();
    app.handle_event_kind(&EventKind::TurnStarted, false);

    app.handle_event_kind(
        &EventKind::AssistantMessageStored {
            content: "Hello!".into(),
            thinking: None,
            message_id: None,
        },
        false,
    );

    assert_eq!(app.messages.len(), 1);
    match &app.messages[0] {
        ChatEntry::Assistant { content, thinking } => {
            assert_eq!(content, "Hello!");
            assert!(thinking.is_none());
        }
        other => panic!("expected Assistant, got {:?}", other),
    }
}

#[test]
fn streaming_thinking_falls_back_when_stored_thinking_is_none() {
    let mut app = new_app();
    app.handle_event_kind(&EventKind::TurnStarted, false);

    // Simulate thinking deltas arriving before the stored message
    app.handle_event_kind(
        &EventKind::AssistantThinkingDelta {
            content: "Streamed thinking.".into(),
            message_id: None,
        },
        false,
    );

    // AssistantMessageStored arrives without thinking field
    app.handle_event_kind(
        &EventKind::AssistantMessageStored {
            content: "Final answer.".into(),
            thinking: None,
            message_id: None,
        },
        false,
    );

    match &app.messages[0] {
        ChatEntry::Assistant { content, thinking } => {
            assert_eq!(content, "Final answer.");
            assert_eq!(thinking.as_deref(), Some("Streamed thinking."));
        }
        other => panic!("expected Assistant, got {:?}", other),
    }
    // streaming_thinking should be cleared after capture
    assert!(app.streaming_thinking.is_empty());
}

#[test]
fn cancelled_with_thinking_preserves_thinking_in_entry() {
    let mut app = new_app();
    app.handle_event_kind(&EventKind::TurnStarted, false);

    app.handle_event_kind(
        &EventKind::AssistantThinkingDelta {
            content: "Deep thought.".into(),
            message_id: None,
        },
        false,
    );
    app.handle_event_kind(
        &EventKind::AssistantContentDelta {
            content: "Partial answer".into(),
            message_id: None,
        },
        false,
    );
    app.handle_event_kind(&EventKind::Cancelled, false);

    assert_eq!(app.messages.len(), 1);
    match &app.messages[0] {
        ChatEntry::Assistant { content, thinking } => {
            assert!(content.contains("Partial answer"));
            assert!(content.contains("[cancelled]"));
            assert_eq!(thinking.as_deref(), Some("Deep thought."));
        }
        other => panic!("expected Assistant, got {:?}", other),
    }
}

#[test]
fn thinking_delta_keeps_activity_as_thinking() {
    let mut app = new_app();
    app.handle_event_kind(&EventKind::TurnStarted, false);
    assert_eq!(app.activity, ActivityState::Thinking);

    app.handle_event_kind(
        &EventKind::AssistantThinkingDelta {
            content: "hmm".into(),
            message_id: None,
        },
        false,
    );
    // Should still be Thinking (not Streaming) during thinking phase
    assert_eq!(app.activity, ActivityState::Thinking);
}
