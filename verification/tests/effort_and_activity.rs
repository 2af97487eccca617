use qmtui::app::{App, FileIndexEntryLite, PathCompletionState, Popup, SessionActivity};
use qmtui::protocol::{
    ClientMsg, EventData, EventEnvelope, EventKind, InnerEvent, RawServerMsg, ReasoningEffortData,
    ReasoningEffortField, ServerData, SessionEventsData, SessionGroup, SessionSummary, StateData,
};
use qmtui::theme::Base16Palette;

fn palette(id: &str, shade: u32) -> Base16Palette {
    let mut colors: [u32; 16] = [0; 16];
    for (i, c) in colors.iter_mut().enumerate() {
        *c = shade + 0x01_01_01 * (i as u32);
    }
    Base16Palette { id: id.to_string(), label: id.to_string(), colors }
}

fn new_app() -> App {
    App::new(vec![
        palette("base16-querymate", 0x10_20_30),
        palette("base16-ocean", 0x20_10_40),
        palette("base16-eighties", 0x40_50_10),
    ])
}

fn state_msg(effort: ReasoningEffortField) -> RawServerMsg {
    RawServerMsg {
        msg_type: "state".into(),
        data: Some(ServerData::State(StateData {
            active_session_id: None,
            agents: vec![],
            agent_mode: Some("build".into()),
            reasoning_effort: effort,
        })),
    }
}

fn effort_msg(effort: Option<&str>) -> RawServerMsg {
    RawServerMsg {
        msg_type: "reasoning_effort".into(),
        data: Some(ServerData::ReasoningEffort(ReasoningEffortData {
            reasoning_effort: effort.map(String::from),
        })),
    }
}

fn content(text: &str) -> EventEnvelope {
    EventEnvelope::Ephemeral(InnerEvent {
        kind: EventKind::AssistantContentDelta { content: text.into(), message_id: None },
        timestamp: None,
    })
}

fn event_msg(session_id: &str, text: &str) -> RawServerMsg {
    RawServerMsg {
        msg_type: "event".into(),
        data: Some(ServerData::Event(EventData {
            agent_id: "agent-1".into(),
            session_id: session_id.into(),
            event: content(text),
        })),
    }
}

fn events_msg(session_id: &str, text: &str) -> RawServerMsg {
    RawServerMsg {
        msg_type: "session_events".into(),
        data: Some(ServerData::SessionEvents(SessionEventsData {
            session_id: session_id.into(),
            agent_id: "agent-1".into(),
            events: vec![content(text)],
        })),
    }
}

// ── reasoning_effort_label ────────────────────────────────────────────────

#[test]
fn label_none_is_auto() {
    let app = new_app();
    assert_eq!(app.reasoning_effort_label(), "auto");
}

#[test]
fn label_low() {
    let mut app = new_app();
    app.reasoning_effort = Some("low".into());
    assert_eq!(app.reasoning_effort_label(), "low");
}

#[test]
fn label_medium() {
    let mut app = new_app();
    app.reasoning_effort = Some("medium".into());
    assert_eq!(app.reasoning_effort_label(), "medium");
}

#[test]
fn label_high() {
    let mut app = new_app();
    app.reasoning_effort = Some("high".into());
    assert_eq!(app.reasoning_effort_label(), "high");
}

#[test]
fn label_max() {
    let mut app = new_app();
    app.reasoning_effort = Some("max".into());
    assert_eq!(app.reasoning_effort_label(), "max");
}

#[test]
fn label_unknown_passes_through() {
    let mut app = new_app();
    app.reasoning_effort = Some("ultra".into());
    assert_eq!(app.reasoning_effort_label(), "ultra");
}

// ── cycle_reasoning_effort ────────────────────────────────────────────────

#[test]
fn cycle_from_auto_to_low() {
    let mut app = new_app();
    assert_eq!(app.reasoning_effort, None);
    app.cycle_reasoning_effort();
    assert_eq!(app.reasoning_effort, Some("low".into()));
}

#[test]
fn cycle_from_low_to_medium() {
    let mut app = new_app();
    app.reasoning_effort = Some("low".into());
    app.cycle_reasoning_effort();
    assert_eq!(app.reasoning_effort, Some("medium".into()));
}

#[test]
fn cycle_from_medium_to_high() {
    let mut app = new_app();
    app.reasoning_effort = Some("medium".into());
    app.cycle_reasoning_effort();
    assert_eq!(app.reasoning_effort, Some("high".into()));
}

#[test]
fn cycle_from_high_to_max() {
    let mut app = new_app();
    app.reasoning_effort = Some("high".into());
    app.cycle_reasoning_effort();
    assert_eq!(app.reasoning_effort, Some("max".into()));
}

#[test]
fn cycle_from_max_wraps_to_auto() {
    let mut app = new_app();
    app.reasoning_effort = Some("max".into());
    app.cycle_reasoning_effort();
    assert_eq!(app.reasoning_effort, None);
}

#[test]
fn cycle_full_round_trip() {
    let mut app = new_app();
    // auto → low → medium → high → max → auto
    for _ in 0..5 {
        app.cycle_reasoning_effort();
    }
    assert_eq!(app.reasoning_effort, None);
}

#[test]
fn cycle_returns_correct_client_msg() {
    let mut app = new_app(); // starts at auto
    let msg = app.cycle_reasoning_effort();
    // auto → low: should send "low"
    match msg {
        ClientMsg::SetReasoningEffort { reasoning_effort } => {
            assert_eq!(reasoning_effort, "low");
        }
        other => panic!("expected SetReasoningEffort, got {other:?}"),
    }
}

#[test]
fn cycle_to_auto_sends_auto_string() {
    let mut app = new_app();
    app.reasoning_effort = Some("max".into());
    let msg = app.cycle_reasoning_effort();
    // max → auto: server expects "auto" string (not null)
    match msg {
        ClientMsg::SetReasoningEffort { reasoning_effort } => {
            assert_eq!(reasoning_effort, "auto");
        }
        other => panic!("expected SetReasoningEffort, got {other:?}"),
    }
}

// ── state message populates reasoning_effort ──────────────────────────────

#[test]
fn state_msg_sets_reasoning_effort() {
    let mut app = new_app();
    app.handle_server_msg(state_msg(ReasoningEffortField::Level("high".into())));
    assert_eq!(app.reasoning_effort, Some("high".into()));
}

#[test]
fn state_msg_with_null_reasoning_effort_sets_none() {
    let mut app = new_app();
    app.reasoning_effort = Some("medium".into());
    app.handle_server_msg(state_msg(ReasoningEffortField::Auto));
    assert_eq!(app.reasoning_effort, None);
}

#[test]
fn state_msg_missing_reasoning_effort_leaves_existing() {
    let mut app = new_app();
    app.reasoning_effort = Some("medium".into());
    app.handle_server_msg(state_msg(ReasoningEffortField::Absent));
    assert_eq!(app.reasoning_effort, Some("medium".into()));
}

// ── reasoning_effort push notification ────────────────────────────────────

#[test]
fn reasoning_effort_push_updates_field() {
    let mut app = new_app();
    app.handle_server_msg(effort_msg(Some("max")));
    assert_eq!(app.reasoning_effort, Some("max".into()));
}

#[test]
fn reasoning_effort_push_null_clears_field() {
    let mut app = new_app();
    app.reasoning_effort = Some("low".into());
    app.handle_server_msg(effort_msg(None));
    assert_eq!(app.reasoning_effort, None);
}

#[test]
fn reasoning_effort_push_auto_string_clears_field() {
    let mut app = new_app();
    app.reasoning_effort = Some("high".into());
    app.handle_server_msg(effort_msg(Some("auto")));
    assert_eq!(app.reasoning_effort, None);
}

#[test]
fn event_message_ignores_non_active_session() {
    let mut app = new_app();
    app.session_id = Some("session-b".into());

    app.handle_server_msg(event_msg("session-a", "leaked text"));

    assert!(app.streaming_content.is_empty());
    assert!(app.messages.is_empty());
}

#[test]
fn session_events_message_ignores_non_active_session() {
    let mut app = new_app();
    app.session_id = Some("session-b".into());

    app.handle_server_msg(events_msg("session-a", "leaked batch text"));

    assert!(app.streaming_content.is_empty());
    assert!(app.messages.is_empty());
}

#[test]
fn event_message_applies_active_session() {
    let mut app = new_app();
    app.session_id = Some("session-a".into());

    app.handle_server_msg(event_msg("session-a", "visible text"));

    assert_eq!(app.streaming_content, "visible text");
}

#[test]
fn non_active_session_event_still_counts_as_recent_activity() {
    let mut app = new_app();
    app.session_id = Some("session-b".into());

    app.handle_server_msg(event_msg("session-a", "hidden text"));

    assert_eq!(app.active_session_count(), 1);
    assert!(app.streaming_content.is_empty());
}

#[test]
fn active_session_count_requires_multiple_recent_sessions() {
    let mut app = new_app();
    app.note_session_activity("session-a");
    assert_eq!(app.active_session_count(), 1);

    app.note_session_activity("session-b");
    assert_eq!(app.active_session_count(), 2);
}

#[test]
fn other_active_session_count_excludes_current_session() {
    let mut app = new_app();
    app.session_id = Some("session-a".into());
    app.note_session_activity("session-a");
    app.note_session_activity("session-b");
    app.note_session_activity("session-c");

    assert_eq!(app.other_active_session_count(), 2);
}

#[test]
fn other_active_session_count_shows_other_session_when_current_is_idle() {
    let mut app = new_app();
    app.session_id = Some("session-a".into());
    app.note_session_activity("session-b");

    assert_eq!(app.other_active_session_count(), 1);
}

#[test]
fn active_session_count_excludes_stale_sessions() {
    let mut app = new_app();
    app.now_ns = 10_000_000_000;
    app.note_session_activity("session-a");
    app.session_activity.insert(
        "session-b".into(),
        SessionActivity {
            last_event_at: app.now_ns - 6_000_000_000,
        },
    );

    assert_eq!(app.active_session_count(), 1);
    assert_eq!(app.other_active_session_count(), 1);
}

#[test]
fn resolve_new_session_default_cwd_prefers_active_session_cwd_then_group_then_launch() {
    let mut app = new_app();
    app.launch_cwd = Some("/launch".into());
    app.session_id = Some("session-a".into());
    app.session_groups = vec![SessionGroup {
        cwd: Some("/group".into()),
        latest_activity: None,
        sessions: vec![SessionSummary {
            session_id: "session-a".into(),
            title: Some("Session A".into()),
            cwd: Some("/session".into()),
            created_at: None,
            updated_at: None,
            parent_session_id: None,
            has_children: false,
        }],
    }];
    assert_eq!(
        app.resolve_new_session_default_cwd().as_deref(),
        Some("/session")
    );

    app.session_groups[0].sessions[0].cwd = None;
    assert_eq!(
        app.resolve_new_session_default_cwd().as_deref(),
        Some("/group")
    );

    app.session_groups.clear();
    assert_eq!(
        app.resolve_new_session_default_cwd().as_deref(),
        Some("/launch")
    );
}

#[test]
fn open_new_session_popup_prefills_path_and_cursor() {
    let mut app = new_app();
    app.launch_cwd = Some("/launch".into());

    app.open_new_session_popup();

    assert_eq!(app.popup, Popup::NewSession);
    assert_eq!(app.new_session_path, "/launch");
    assert_eq!(app.new_session_cursor, "/launch".len());
}

#[test]
fn normalize_new_session_path_uses_launch_cwd_for_relative_paths() {
    let mut app = new_app();
    app.launch_cwd = Some("/launch/base".into());

    assert_eq!(
        app.normalize_new_session_path("proj/subdir").as_deref(),
        Some("/launch/base/proj/subdir")
    );
    assert_eq!(
        app.normalize_new_session_path("../proj/./subdir/..",)
            .as_deref(),
        Some("/launch/proj")
    );
    assert_eq!(
        app.normalize_new_session_path("/absolute/path/../clean")
            .as_deref(),
        Some("/absolute/clean")
    );
}

#[test]
fn normalize_new_session_path_expands_tilde() {
    let mut app = new_app();
    app.home_dir = Some("/home/someone".into());
    let expected = String::from("/home/someone/workspace");

    assert_eq!(
        app.normalize_new_session_path("~/workspace").as_deref(),
        Some(expected.as_str())
    );
}

#[test]
fn accept_selected_new_session_completion_replaces_input() {
    let mut app = new_app();
    app.new_session_completion = Some(PathCompletionState {
        query: "pro".into(),
        selected_index: 0,
        results: vec![FileIndexEntryLite {
            path: "/launch/project/../project-two".into(),
            is_dir: true,
        }],
    });

    assert!(app.accept_selected_new_session_completion());
    assert_eq!(app.new_session_path, "/launch/project-two/");
    assert!(app.new_session_completion.is_none());
}

#[test]
fn rank_path_completion_matches_filters_out_files() {
    let dir = "/launch/work";
    let entries = vec![
        FileIndexEntryLite { path: format!("{dir}/project-dir"), is_dir: true },
        FileIndexEntryLite { path: format!("{dir}/project-file.txt"), is_dir: false },
    ];

    let mut app = new_app();
    app.launch_cwd = Some(dir.to_string());
    let results = app.rank_path_completion_matches(&entries, "project");

    assert!(results.iter().all(|entry| entry.is_dir));
    assert!(
        results
            .iter()
            .any(|entry| entry.path.ends_with("project-dir"))
    );
    assert!(
        !results
            .iter()
            .any(|entry| entry.path.ends_with("project-file.txt"))
    );
}
