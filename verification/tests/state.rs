use qmtui::app::{
    ActivityState, App, ChatEntry, ConnState, ConnectionEvent, FileIndexEntryLite, LogLevel,
    SessionOp, UndoFrame, UndoFrameStatus, UndoState, UndoableTurn,
};
use qmtui::elicitation::{
    ElicitationField, ElicitationFieldKind, ElicitationOption, ElicitationState,
};
use qmtui::json::{parse, Json};
use qmtui::protocol::{
    AgentEvent, EventKind, RawServerMsg, RedoResultData, ServerData, UndoResultData,
    UndoStackFrame,
};
use qmtui::strmap::StrMap;
use qmtui::symbols::OUTCOME_BULLET;
use qmtui::theme::Base16Palette;
use qmtui::tools::backfill_elicitation_outcomes;

fn palette(id: &str, shade: u32) -> Base16Palette {
    let mut colors: [u32; 16] = [0; 16];
    for (i, c) in colors.iter_mut().enumerate() {
        *c = shade + 0x01_01_01 * (i as u32);
    }
    Base16Palette { id: id.to_string(), label: id.to_string(), colors }
}

fn new_app() -> App {
    App::new(vec![
        palette("base16-querymate", 0x10_20_30),
        palette("base16-ocean", 0x20_10_40),
        palette("base16-eighties", 0x40_50_10),
    ])
}

fn json(s: &str) -> Json {
    parse(s).expect("valid JSON")
}

fn text(s: &str) -> Json {
    Json::Text(s.to_string())
}

fn form(fields: Vec<ElicitationField>) -> ElicitationState {
    ElicitationState {
        elicitation_id: "test-id".into(),
        message: "Test question".into(),
        source: "builtin:question".into(),
        fields,
        field_cursor: 0,
        option_cursor: 0,
        selected: StrMap::new(),
        text_input: String::new(),
        text_cursor: 0,
    }
}

fn prompt(content: &str, id: &str) -> Option<AgentEvent> {
    Some(AgentEvent {
        kind: EventKind::PromptReceived {
            content: json(&format!(r#"[{{ "type": "text", "text": "{content}" }}]"#)),
            message_id: Some(id.into()),
        },
        timestamp: None,
    })
}

fn reply(content: &str, id: &str) -> Option<AgentEvent> {
    Some(AgentEvent {
        kind: EventKind::AssistantMessageStored {
            content: content.into(),
            thinking: None,
            message_id: Some(id.into()),
        },
        timestamp: None,
    })
}

fn make_turn(message_id: &str) -> UndoableTurn {
    UndoableTurn {
        turn_id: format!("turn-{message_id}"),
        message_id: message_id.into(),
        text: format!("prompt {message_id}"),
    }
}

fn make_stack(ids: &[&str]) -> Vec<UndoStackFrame> {
    ids.iter()
        .map(|id| UndoStackFrame {
            message_id: (*id).into(),
        })
        .collect()
}

#[test]
fn current_undo_target_moves_left_of_frontier() {
    let mut app = new_app();
    app.undoable_turns = vec![make_turn("msg-1"), make_turn("msg-2"), make_turn("msg-3")];

    assert_eq!(
        app.current_undo_target()
            .map(|turn| turn.message_id.as_str()),
        Some("msg-3")
    );

    app.undo_state = Some(UndoState {
        stack: vec![UndoFrame {
            turn_id: "turn-msg-3".into(),
            message_id: "msg-3".into(),
            status: UndoFrameStatus::Confirmed,
            reverted_files: vec![],
        }],
        frontier_message_id: Some("msg-3".into()),
    });

    assert_eq!(
        app.current_undo_target()
            .map(|turn| turn.message_id.as_str()),
        Some("msg-2")
    );
}

#[test]
fn build_undo_state_confirms_frames_and_preserves_frontier() {
    let mut app = new_app();
    app.undoable_turns = vec![make_turn("msg-1"), make_turn("msg-2")];
    app.undo_state = Some(UndoState {
        stack: vec![UndoFrame {
            turn_id: "turn-msg-1".into(),
            message_id: "msg-1".into(),
            status: UndoFrameStatus::Pending,
            reverted_files: vec![],
        }],
        frontier_message_id: Some("msg-1".into()),
    });

    let next = app
        .build_undo_state_from_server_stack(
            &make_stack(&["msg-1", "msg-2"]),
            &Some("msg-2".into()),
            &Some(vec!["a.rs".into(), "b.rs".into()]),
        )
        .expect("undo state");

    assert_eq!(next.frontier_message_id.as_deref(), Some("msg-2"));
    assert_eq!(next.stack.len(), 2);
    assert!(
        next.stack
            .iter()
            .all(|frame| frame.status == UndoFrameStatus::Confirmed)
    );
    assert_eq!(next.stack[1].turn_id, "turn-msg-2");
    assert_eq!(next.stack[1].reverted_files, vec!["a.rs", "b.rs"]);
}

#[test]
fn build_undo_state_returns_none_for_empty_stack() {
    let app = new_app();
    assert_eq!(
        app.build_undo_state_from_server_stack(&vec![], &None, &None),
        None
    );
}

#[test]
fn pending_guard_tracks_pending_frames() {
    let mut app = new_app();
    let turn = make_turn("msg-1");
    app.push_pending_undo(&turn);

    assert!(app.has_pending_undo());
    assert_eq!(
        app.undo_state
            .as_ref()
            .and_then(|state| state.frontier_message_id.as_deref()),
        Some("msg-1")
    );
    assert_eq!(
        app.undo_state.as_ref().map(|state| state.stack.len()),
        Some(1)
    );
    assert_eq!(
        app.undo_state
            .as_ref()
            .map(|state| state.stack[0].status.clone()),
        Some(UndoFrameStatus::Pending)
    );
}

#[test]
fn compaction_events_replace_live_indicator_with_summary_card() {
    let mut app = new_app();
    app.handle_event_kind(
        &EventKind::CompactionStart {
            token_estimate: 12_000,
        },
        false,
    );
    assert_eq!(
        app.activity,
        ActivityState::Compacting {
            token_estimate: 12_000
        }
    );
    assert!(matches!(
        app.messages.last(),
        Some(ChatEntry::CompactionStart {
            token_estimate: 12_000
        })
    ));

    app.handle_event_kind(
        &EventKind::CompactionEnd {
            summary: "Trimmed tool output".into(),
            summary_len: 19,
        },
        false,
    );

    assert_eq!(app.activity, ActivityState::Thinking);
    assert!(
        matches!(app.messages.last(), Some(ChatEntry::CompactionEnd { token_estimate: Some(12_000), summary, summary_len }) if summary == "Trimmed tool output" && *summary_len == 19)
    );
    assert!(
        !app.messages
            .iter()
            .any(|entry| matches!(entry, ChatEntry::CompactionStart { .. }))
    );
}

#[test]
fn pending_session_label_stays_reserved_for_undo_and_redo() {
    let mut app = new_app();
    app.activity = ActivityState::Compacting {
        token_estimate: 9_000,
    };
    assert_eq!(app.pending_session_label(), None);

    app.activity = ActivityState::SessionOp(SessionOp::Undo);
    assert_eq!(app.pending_session_label(), Some("undoing"));
}

#[test]
fn push_log_deduplicates_consecutive_entries() {
    let mut app = new_app();

    app.push_log(LogLevel::Info, "server", "starting local server");
    app.push_log(LogLevel::Info, "server", "starting local server");
    app.push_log(LogLevel::Warn, "server", "waiting for lock");

    assert_eq!(app.logs.len(), 2);
    assert_eq!(app.logs[0].level, LogLevel::Info);
    assert_eq!(app.logs[0].target, "server");
    assert_eq!(app.logs[0].message, "starting local server");
    assert_eq!(app.logs[1].level, LogLevel::Warn);
}

#[test]
fn set_status_updates_visible_status_and_appends_log() {
    let mut app = new_app();

    app.set_status(LogLevel::Info, "connection", "connected");

    assert_eq!(app.status, "connected");
    let last = app.logs.last().expect("missing log entry");
    assert_eq!(last.level, LogLevel::Info);
    assert_eq!(last.target, "connection");
    assert_eq!(last.message, "connected");
}

#[test]
fn filtered_logs_apply_level_threshold_and_text_filter() {
    let mut app = new_app();
    app.push_log(LogLevel::Debug, "activity", "ready");
    app.push_log(LogLevel::Warn, "server", "waiting for lock");
    app.push_log(LogLevel::Error, "server", "start failed");

    app.log_level_filter = LogLevel::Warn;
    let filtered = app.filtered_logs();
    assert_eq!(filtered.len(), 2);
    assert!(filtered.iter().all(|entry| entry.level >= LogLevel::Warn));

    app.log_filter = "failed".into();
    let filtered = app.filtered_logs();
    assert_eq!(filtered.len(), 1);
    assert_eq!(filtered[0].message, "start failed");
}

#[test]
fn cancel_confirm_arms_expires_and_restores_status() {
    let mut app = new_app();
    app.now_ns = 5_000_000_000;
    app.activity = ActivityState::Thinking;

    app.arm_cancel_confirm();
    assert!(app.cancel_confirm_active());
    assert_eq!(app.status, "press Esc again to stop");
    assert!(
        matches!(app.logs.last(), Some(entry) if entry.message == "press Esc again to stop")
    );

    app.pending_cancel_confirm_until = Some(app.now_ns - 1);
    app.clear_expired_cancel_confirm();
    assert!(!app.cancel_confirm_active());
    assert_eq!(app.status, "thinking...");
    assert!(matches!(app.logs.last(), Some(entry) if entry.message == "thinking..."));
}

#[test]
fn refresh_transient_status_preserves_connection_and_operation_precedence() {
    let mut app = new_app();
    app.conn = ConnState::Disconnected;
    app.set_status(LogLevel::Warn, "connection", "connection lost - retrying");
    app.refresh_transient_status();
    assert_eq!(app.status, "connection lost - retrying");

    app.conn = ConnState::Connected;
    app.activity = ActivityState::Thinking;
    app.refresh_transient_status();
    assert_eq!(app.status, "thinking...");

    app.activity = ActivityState::Compacting {
        token_estimate: 2048,
    };
    app.refresh_transient_status();
    assert_eq!(app.status, "compacting context (~2048 tokens)");

    app.activity = ActivityState::SessionOp(SessionOp::Redo);
    app.refresh_transient_status();
    assert_eq!(app.status, "redoing...");
}

#[test]
fn session_stats_track_llm_request_elapsed_context_and_tool_calls_from_events() {
    let mut app = new_app();
    app.apply_event_stats(
        &EventKind::PromptReceived {
            content: text("hi"),
            message_id: None,
        },
        Some(100),
    );
    app.apply_event_stats(
        &EventKind::LlmRequestStart {
            message_count: Some(2),
        },
        Some(120),
    );
    app.apply_event_stats(
        &EventKind::ToolCallStart {
            tool_call_id: Some("call-1".into()),
            tool_name: "read_tool".into(),
            arguments: None,
        },
        Some(130),
    );
    app.apply_event_stats(
        &EventKind::LlmRequestEnd {
            finish_reason: None,
            cost_usd: None,
            cumulative_cost_usd: None,
            context_tokens: Some(2048),
            tool_calls: Some(99),
            metrics: None,
        },
        Some(160),
    );

    assert_eq!(app.session_stats.latest_context_tokens, Some(2048));
    assert_eq!(app.session_stats.total_tool_calls, 1);
    assert_eq!(app.llm_request_elapsed(), Some(40_000_000_000));
}

#[test]
fn cancelled_closes_open_llm_request_span() {
    let mut app = new_app();
    app.apply_event_stats(
        &EventKind::LlmRequestStart {
            message_count: Some(1),
        },
        Some(200),
    );
    app.apply_event_stats(&EventKind::Cancelled, Some(215));
    assert_eq!(app.llm_request_elapsed(), Some(15_000_000_000));
    assert_eq!(app.session_stats.open_llm_request_ts, None);
    assert_eq!(app.session_stats.open_llm_request_instant, None);
}

#[test]
fn active_mention_query_detects_trigger_and_ignores_email() {
    let app = new_app();

    assert_eq!(
        app.active_mention_query_from("fix @src/ma", "fix @src/ma".len()),
        Some((4, "src/ma".into()))
    );
    assert_eq!(
        app.active_mention_query_from("email@test.com", "email@test.com".len()),
        None
    );
    assert_eq!(
        app.active_mention_query_from("foo @", 5),
        Some((4, String::new()))
    );
    assert_eq!(
        app.active_mention_query_from("foo @bar baz", 8),
        Some((4, "bar".into()))
    );
    assert_eq!(app.active_mention_query_from("foo @bar baz", 12), None);
}

#[test]
fn mention_results_rank_prefix_before_loose_matches() {
    let mut app = new_app();
    app.file_index = vec![
        FileIndexEntryLite {
            path: "src/main.rs".into(),
            is_dir: false,
        },
        FileIndexEntryLite {
            path: "tests/main_spec.rs".into(),
            is_dir: false,
        },
        FileIndexEntryLite {
            path: "src/manifest.toml".into(),
            is_dir: false,
        },
        FileIndexEntryLite {
            path: "src".into(),
            is_dir: true,
        },
    ];

    let results = app.rank_file_matches("ma");
    let ranked: Vec<&str> = results.iter().map(|entry| entry.path.as_str()).collect();
    assert_eq!(ranked[0], "src/main.rs");
    assert!(ranked.contains(&"src/manifest.toml"));
    assert!(ranked.contains(&"tests/main_spec.rs"));
}

#[test]
fn input_up_visual_moves_to_previous_wrapped_row() {
    let mut app = new_app();
    app.input = "abcdef".into();
    app.input_cursor = 4;
    app.input_line_width = 4;

    app.input_up_visual(2);

    assert_eq!(app.input_cursor, 2);
    assert_eq!(app.input_preferred_col, Some(2));
}

#[test]
fn input_down_visual_moves_to_next_wrapped_row() {
    let mut app = new_app();
    app.input = "abcdef".into();
    app.input_cursor = 2;
    app.input_line_width = 4;

    app.input_down_visual(2);

    assert_eq!(app.input_cursor, 4);
    assert_eq!(app.input_preferred_col, Some(2));
}

#[test]
fn input_down_visual_crosses_newline_boundary() {
    let mut app = new_app();
    app.input = "ab\ncd".into();
    app.input_cursor = 1;
    app.input_line_width = 6;

    app.input_down_visual(2);

    assert_eq!(app.input_cursor, 4);
}

#[test]
fn input_horizontal_move_resets_preferred_column() {
    let mut app = new_app();
    app.input = "abcdef".into();
    app.input_cursor = 4;
    app.input_preferred_col = Some(2);

    app.input_left();

    assert_eq!(app.input_cursor, 3);
    assert_eq!(app.input_preferred_col, None);
}

#[test]
fn accept_selected_mention_replaces_query_with_friendly_token() {
    let mut app = new_app();
    app.input = "open @src/ma now".into();
    app.input_cursor = "open @src/ma".len();
    app.file_index = vec![FileIndexEntryLite {
        path: "src/main.rs".into(),
        is_dir: false,
    }];
    app.refresh_mention_state();

    let accepted = app.accept_selected_mention();
    assert!(accepted);
    assert_eq!(app.input, "open @src/main.rs  now");
    assert_eq!(app.input_cursor, "open @src/main.rs ".len());
    assert!(app.mention_state.is_none());
}

#[test]
fn build_prompt_text_converts_friendly_mentions_to_markup_and_links() {
    let app = new_app();
    let (text, links) =
        app.build_prompt_text_and_links("check @src/main.rs and @src/lib.rs then @src/main.rs");
    assert_eq!(text, "check @src/main.rs and @src/lib.rs then @src/main.rs");
    assert_eq!(links, vec!["src/main.rs", "src/lib.rs"]);
}

#[test]
fn activity_helpers_report_turn_and_session_state() {
    let mut app = new_app();
    assert!(!app.is_turn_active());
    assert!(!app.has_pending_session_op());
    assert!(!app.input_blocked_by_activity());
    assert!(!app.should_hide_input_contents());
    assert_eq!(app.pending_session_label(), None);

    app.activity = ActivityState::SessionOp(SessionOp::Undo);
    assert!(!app.is_turn_active());
    assert!(app.has_pending_session_op());
    assert!(app.input_blocked_by_activity());
    assert!(app.should_hide_input_contents());
    assert_eq!(app.pending_session_label(), Some("undoing"));

    app.activity = ActivityState::SessionOp(SessionOp::Redo);
    assert!(!app.is_turn_active());
    assert!(app.has_pending_session_op());
    assert!(app.input_blocked_by_activity());
    assert!(app.should_hide_input_contents());
    assert_eq!(app.pending_session_label(), Some("redoing"));

    app.activity = ActivityState::RunningTool {
        name: "read_tool".into(),
    };
    assert!(app.is_turn_active());
    assert!(app.has_cancellable_activity());
    assert!(!app.has_pending_session_op());
    assert!(!app.input_blocked_by_activity());
    assert!(!app.should_hide_input_contents());
    assert_eq!(app.pending_session_label(), None);

    app.arm_cancel_confirm();
    assert!(app.input_blocked_by_activity());
    assert!(app.should_hide_input_contents());
}

#[test]
fn connection_events_update_status_and_retry_metadata() {
    let mut app = new_app();
    app.handle_connection_event(ConnectionEvent::Connecting {
        attempt: 3,
        delay_ms: 2000,
        delay_secs: "2.0".into(),
    });
    assert_eq!(app.conn, ConnState::Connecting);
    assert_eq!(app.reconnect_attempt, 3);
    assert_eq!(app.reconnect_delay_ms, Some(2000));
    assert_eq!(app.status, "waiting for server - retry 3 in 2.0s");
    assert!(
        matches!(app.logs.last(), Some(entry) if entry.target == "connection" && entry.level == LogLevel::Warn)
    );

    app.handle_connection_event(ConnectionEvent::Disconnected {
        reason: "socket closed".into(),
    });
    assert_eq!(app.conn, ConnState::Disconnected);
    assert_eq!(app.reconnect_delay_ms, None);
    assert_eq!(app.status, "connection lost - socket closed");
    assert!(
        matches!(app.logs.last(), Some(entry) if entry.message == "connection lost - socket closed")
    );

    app.session_id = Some("session-1".into());
    app.handle_connection_event(ConnectionEvent::Connected);
    assert_eq!(app.conn, ConnState::Connected);
    assert_eq!(app.reconnect_attempt, 0);
    assert_eq!(app.reconnect_delay_ms, None);
    assert_eq!(app.status, "reconnected");
    assert!(
        matches!(app.logs.last(), Some(entry) if entry.level == LogLevel::Info && entry.message == "reconnected")
    );
}

#[test]
fn undo_and_redo_results_clear_pending_session_op() {
    let mut app = new_app();
    app.activity = ActivityState::SessionOp(SessionOp::Undo);
    app.handle_server_msg(RawServerMsg {
        msg_type: "undo_result".into(),
        data: Some(ServerData::UndoResult(UndoResultData {
            success: false,
            message_id: None,
            reverted_files: vec![],
            message: Some("undo failed".into()),
            undo_stack: vec![],
        })),
    });
    assert_eq!(app.activity, ActivityState::Idle);

    app.activity = ActivityState::SessionOp(SessionOp::Redo);
    app.handle_server_msg(RawServerMsg {
        msg_type: "redo_result".into(),
        data: Some(ServerData::RedoResult(RedoResultData {
            success: false,
            message: Some("redo failed".into()),
            undo_stack: vec![],
        })),
    });
    assert_eq!(app.activity, ActivityState::Idle);
}

#[test]
fn turn_activity_transitions_across_tool_and_completion_events() {
    let mut app = new_app();

    app.handle_event_kind(&EventKind::TurnStarted, false);
    assert_eq!(app.activity, ActivityState::Thinking);

    app.handle_event_kind(
        &EventKind::AssistantMessageStored {
            content: "draft".into(),
            thinking: None,
            message_id: None,
        },
        false,
    );
    assert_eq!(app.activity, ActivityState::Thinking);

    app.handle_event_kind(
        &EventKind::ToolCallStart {
            tool_call_id: Some("call-1".into()),
            tool_name: "read_tool".into(),
            arguments: None,
        },
        false,
    );
    assert_eq!(
        app.activity,
        ActivityState::RunningTool {
            name: "read_tool".into()
        }
    );

    app.handle_event_kind(
        &EventKind::LlmRequestEnd {
            finish_reason: None,
            cost_usd: None,
            cumulative_cost_usd: None,
            context_tokens: None,
            tool_calls: None,
            metrics: None,
        },
        false,
    );
    assert_eq!(app.activity, ActivityState::Idle);
}

#[test]
fn replay_audit_prunes_frontier_and_later_events_after_undo() {
    let mut app = new_app();
    app.undo_state = Some(UndoState {
        stack: vec![UndoFrame {
            turn_id: "turn-msg-2".into(),
            message_id: "msg-2".into(),
            status: UndoFrameStatus::Confirmed,
            reverted_files: vec![],
        }],
        frontier_message_id: Some("msg-2".into()),
    });

    let audit = Some(vec![
        prompt("first", "msg-1"),
        reply("reply one", "a-1"),
        prompt("second", "msg-2"),
        reply("reply two", "a-2"),
    ]);

    app.replay_audit(&audit);

    assert_eq!(app.messages.len(), 2);
    assert!(
        matches!(&app.messages[0], ChatEntry::User { text, message_id: Some(message_id) } if text == "first" && message_id == "msg-1")
    );
    assert!(
        matches!(&app.messages[1], ChatEntry::Assistant { content, .. } if content == "reply one")
    );
    assert_eq!(app.undoable_turns.len(), 1);
    assert_eq!(app.undoable_turns[0].message_id, "msg-1");
    assert!(app.can_redo());
}

// ── ElicitationState::selected_display ────────────────────────────────────

#[test]
fn selected_display_single_select_returns_chosen_label() {
    let mut state = form(vec![ElicitationField {
        name: "choice".into(),
        title: "Choice".into(),
        description: None,
        required: true,
        kind: ElicitationFieldKind::SingleSelect {
            options: vec![
                ElicitationOption {
                    value: text("a"),
                    label: "Alpha".into(),
                    description: None,
                },
                ElicitationOption {
                    value: text("b"),
                    label: "Beta".into(),
                    description: None,
                },
            ],
        },
    }]);
    state
        .selected
        .insert("choice".into(), text("b"));
    assert_eq!(state.selected_display(), format!("{OUTCOME_BULLET}Beta"));
}

#[test]
fn selected_display_multi_select_returns_bulleted_lines() {
    let mut state = form(vec![ElicitationField {
        name: "tags".into(),
        title: "Tags".into(),
        description: None,
        required: false,
        kind: ElicitationFieldKind::MultiSelect {
            options: vec![
                ElicitationOption {
                    value: text("x"),
                    label: "X".into(),
                    description: None,
                },
                ElicitationOption {
                    value: text("y"),
                    label: "Y".into(),
                    description: None,
                },
                ElicitationOption {
                    value: text("z"),
                    label: "Z".into(),
                    description: None,
                },
            ],
        },
    }]);
    state
        .selected
        .insert("tags".into(), json(r#"["x", "z"]"#));
    assert_eq!(
        state.selected_display(),
        format!("{OUTCOME_BULLET}X\n{OUTCOME_BULLET}Z")
    );
}

#[test]
fn selected_display_text_input_returns_text() {
    let mut state = form(vec![ElicitationField {
        name: "name".into(),
        title: "Name".into(),
        description: None,
        required: true,
        kind: ElicitationFieldKind::TextInput,
    }]);
    state.text_input = "Alice".into();
    assert_eq!(state.selected_display(), "Alice");
}

#[test]
fn selected_display_boolean_returns_yes_or_no() {
    let mut state = form(vec![ElicitationField {
        name: "ok".into(),
        title: "OK".into(),
        description: None,
        required: true,
        kind: ElicitationFieldKind::BooleanToggle,
    }]);
    state.selected.insert("ok".into(), Json::Bool(true));
    assert_eq!(state.selected_display(), "Yes");
    state.selected.insert("ok".into(), Json::Bool(false));
    assert_eq!(state.selected_display(), "No");
}

// ── ToolCallStart suppression for question ────────────────────────────────

#[test]
fn question_tool_call_start_does_not_push_chat_entry() {
    let mut app = new_app();
    app.handle_event_kind(
        &EventKind::ToolCallStart {
            tool_call_id: Some("call-1".into()),
            tool_name: "question".into(),
            arguments: None,
        },
        false,
    );
    assert!(
        !app.messages
            .iter()
            .any(|m| matches!(m, ChatEntry::ToolCall { .. }))
    );
}

#[test]
fn other_tool_call_start_still_pushes_chat_entry() {
    let mut app = new_app();
    app.handle_event_kind(
        &EventKind::ToolCallStart {
            tool_call_id: Some("call-2".into()),
            tool_name: "read_tool".into(),
            arguments: None,
        },
        false,
    );
    assert!(
        app.messages
            .iter()
            .any(|m| matches!(m, ChatEntry::ToolCall { name, .. } if name == "read_tool"))
    );
}

// ── Elicitation: schema parsing ───────────────────────────────────────────

#[test]
fn parse_elicitation_schema_single_select() {
    let schema = json(r#"{ "properties": { "choice": { "title": "Pick one", "description": "Your selection", "oneOf": [ { "const": "a", "title": "Option A", "description": "First" }, { "const": "b", "title": "Option B" } ] } }, "required": ["choice"] }"#);
    let fields = ElicitationState::parse_schema(&schema);
    assert_eq!(fields.len(), 1);
    let f = &fields[0];
    assert_eq!(f.name, "choice");
    assert_eq!(f.title, "Pick one");
    assert_eq!(f.description.as_deref(), Some("Your selection"));
    assert!(f.required);
    let ElicitationFieldKind::SingleSelect { options } = &f.kind else {
        panic!("expected SingleSelect");
    };
    assert_eq!(options.len(), 2);
    assert_eq!(options[0].label, "Option A");
    assert_eq!(options[0].description.as_deref(), Some("First"));
    assert_eq!(options[1].label, "Option B");
    assert!(options[1].description.is_none());
}

#[test]
fn parse_elicitation_schema_multi_select() {
    let schema = json(r#"{ "properties": { "tags": { "type": "array", "items": { "anyOf": [ { "const": "x", "title": "X" }, { "const": "y", "title": "Y" } ] } } }, "required": [] }"#);
    let fields = ElicitationState::parse_schema(&schema);
    assert_eq!(fields.len(), 1);
    let ElicitationFieldKind::MultiSelect { options } = &fields[0].kind else {
        panic!("expected MultiSelect");
    };
    assert_eq!(options.len(), 2);
    assert!(!fields[0].required);
}

#[test]
fn parse_elicitation_schema_text_and_boolean() {
    let schema = json(r#"{ "properties": { "name": { "type": "string" }, "count": { "type": "integer" }, "confirm": { "type": "boolean" } }, "required": ["name"] }"#);
    let fields = ElicitationState::parse_schema(&schema);
    assert_eq!(fields.len(), 3);
    let kinds: Vec<_> = fields.iter().map(|f| (&f.name, &f.kind)).collect();
    assert!(matches!(
        kinds.iter().find(|(n, _)| *n == "name").unwrap().1,
        ElicitationFieldKind::TextInput
    ));
    assert!(matches!(
        kinds.iter().find(|(n, _)| *n == "count").unwrap().1,
        ElicitationFieldKind::NumberInput { integer: true }
    ));
    assert!(matches!(
        kinds.iter().find(|(n, _)| *n == "confirm").unwrap().1,
        ElicitationFieldKind::BooleanToggle
    ));
}

#[test]
fn parse_elicitation_schema_empty_returns_empty() {
    let fields = ElicitationState::parse_schema(&json(r#"{}"#));
    assert!(fields.is_empty());
}

// ── Elicitation: state navigation ─────────────────────────────────────────

#[test]
fn elicitation_move_cursor_wraps_within_options() {
    let mut state = form(vec![ElicitationField {
        name: "q".into(),
        title: "Q".into(),
        description: None,
        required: true,
        kind: ElicitationFieldKind::SingleSelect {
            options: vec![
                ElicitationOption {
                    value: text("a"),
                    label: "A".into(),
                    description: None,
                },
                ElicitationOption {
                    value: text("b"),
                    label: "B".into(),
                    description: None,
                },
                ElicitationOption {
                    value: text("c"),
                    label: "C".into(),
                    description: None,
                },
            ],
        },
    }]);
    assert_eq!(state.option_cursor, 0);
    state.move_cursor(1);
    assert_eq!(state.option_cursor, 1);
    state.move_cursor(1);
    assert_eq!(state.option_cursor, 2);
    state.move_cursor(1); // clamps at max
    assert_eq!(state.option_cursor, 2);
    state.move_cursor(-1);
    assert_eq!(state.option_cursor, 1);
    state.move_cursor(-10);
    assert_eq!(state.option_cursor, 0);
}

#[test]
fn elicitation_build_accept_content_single_select() {
    let mut state = form(vec![ElicitationField {
        name: "choice".into(),
        title: "Choice".into(),
        description: None,
        required: true,
        kind: ElicitationFieldKind::SingleSelect {
            options: vec![
                ElicitationOption {
                    value: text("yes"),
                    label: "Yes".into(),
                    description: None,
                },
                ElicitationOption {
                    value: text("no"),
                    label: "No".into(),
                    description: None,
                },
            ],
        },
    }]);
    state.option_cursor = 0;
    state.select_current_option(); // select "yes"
    let content = state.build_accept_content();
    assert_eq!(content, json(r#"{ "choice": "yes" }"#));
}

#[test]
fn elicitation_build_accept_content_text_input() {
    let mut state = form(vec![ElicitationField {
        name: "name".into(),
        title: "Name".into(),
        description: None,
        required: true,
        kind: ElicitationFieldKind::TextInput,
    }]);
    state.text_input = "Alice".into();
    let content = state.build_accept_content();
    assert_eq!(content, json(r#"{ "name": "Alice" }"#));
}

#[test]
fn elicitation_is_valid_requires_required_fields() {
    let mut state = form(vec![ElicitationField {
        name: "must".into(),
        title: "Must".into(),
        description: None,
        required: true,
        kind: ElicitationFieldKind::TextInput,
    }]);
    assert!(!state.is_valid());
    state.text_input = "value".into();
    assert!(state.is_valid());
}

// ── Elicitation: event handling ───────────────────────────────────────────

// ── backfill_elicitation_outcomes ─────────────────────────────────────────

#[test]
fn backfill_single_answer_sets_outcome() {
    let mut messages = vec![ChatEntry::Elicitation {
        elicitation_id: "e1".into(),
        message: "Pick one".into(),
        source: "builtin:question".into(),
        outcome: Some("responded".into()),
    }];
    let result = r#"{"answers":[{"question":"Pick one","answers":["Beta"]}]}"#;
    backfill_elicitation_outcomes(&mut messages, result);
    assert!(matches!(&messages[0],
        ChatEntry::Elicitation { outcome: Some(o), .. } if *o == format!("{OUTCOME_BULLET}Beta")
    ));
}

#[test]
fn backfill_multi_answer_joins_with_newline() {
    let mut messages = vec![ChatEntry::Elicitation {
        elicitation_id: "e1".into(),
        message: "Pick many".into(),
        source: "builtin:question".into(),
        outcome: Some("responded".into()),
    }];
    let result = r#"{"answers":[{"question":"Pick many","answers":["X","Z"]}]}"#;
    backfill_elicitation_outcomes(&mut messages, result);
    assert!(matches!(&messages[0],
        ChatEntry::Elicitation { outcome: Some(o), .. } if *o == format!("{OUTCOME_BULLET}X\n{OUTCOME_BULLET}Z")
    ));
}

#[test]
fn backfill_multiple_questions_each_card_gets_its_own_answer() {
    let mut messages = vec![
        ChatEntry::Elicitation {
            elicitation_id: "e1".into(),
            message: "Q1".into(),
            source: "builtin:question".into(),
            outcome: Some("responded".into()),
        },
        ChatEntry::Elicitation {
            elicitation_id: "e2".into(),
            message: "Q2".into(),
            source: "builtin:question".into(),
            outcome: Some("responded".into()),
        },
    ];
    let result = r#"{"answers":[{"question":"Q1","answers":["Alpha"]},{"question":"Q2","answers":["Yes"]}]}"#;
    backfill_elicitation_outcomes(&mut messages, result);
    assert!(matches!(&messages[0],
        ChatEntry::Elicitation { outcome: Some(o), .. } if *o == format!("{OUTCOME_BULLET}Alpha")
    ));
    assert!(matches!(&messages[1],
        ChatEntry::Elicitation { outcome: Some(o), .. } if *o == format!("{OUTCOME_BULLET}Yes")
    ));
}

#[test]
fn backfill_skips_already_resolved_cards() {
    let mut messages = vec![
        ChatEntry::Elicitation {
            elicitation_id: "e1".into(),
            message: "Q1".into(),
            source: "builtin:question".into(),
            outcome: Some(format!("{OUTCOME_BULLET}AlreadySet")),
        },
        ChatEntry::Elicitation {
            elicitation_id: "e2".into(),
            message: "Q2".into(),
            source: "builtin:question".into(),
            outcome: Some("responded".into()),
        },
    ];
    let result = r#"{"answers":[{"question":"Q2","answers":["Beta"]}]}"#;
    backfill_elicitation_outcomes(&mut messages, result);
    // First card unchanged
    assert!(matches!(&messages[0],
        ChatEntry::Elicitation { outcome: Some(o), .. } if *o == format!("{OUTCOME_BULLET}AlreadySet")
    ));
    // Second card updated
    assert!(matches!(&messages[1],
        ChatEntry::Elicitation { outcome: Some(o), .. } if *o == format!("{OUTCOME_BULLET}Beta")
    ));
}

#[test]
fn toolcallend_question_replay_backfills_elicitation_cards() {
    let mut app = new_app();
    // Simulate replay of ElicitationRequested (pushes "responded" card)
    app.handle_event_kind(
        &EventKind::ElicitationRequested {
            elicitation_id: "e1".into(),
            session_id: "sess-1".into(),
            message: "Which?".into(),
            requested_schema: json(r#"{ "properties": { "choice": { "oneOf": [{ "const": "a", "title": "Alpha" }] } }, "required": ["choice"] }"#),
            source: "builtin:question".into(),
        },
        true,
    );
    // Simulate replay of ToolCallEnd for question
    app.handle_event_kind(
        &EventKind::ToolCallEnd {
            tool_call_id: Some("call-1".into()),
            tool_name: "question".into(),
            is_error: Some(false),
            result: Some(r#"{"answers":[{"question":"Which?","answers":["Alpha"]}]}"#.into()),
        },
        true,
    );
    assert!(app.messages.iter().any(|m| matches!(m,
        ChatEntry::Elicitation { outcome: Some(o), .. } if *o == format!("{OUTCOME_BULLET}Alpha")
    )));
}

#[test]
fn elicitation_requested_during_replay_does_not_open_popup() {
    let mut app = new_app();
    app.handle_event_kind(
        &EventKind::ElicitationRequested {
            elicitation_id: "elic-replay".into(),
            session_id: "sess-1".into(),
            message: "Which option?".into(),
            requested_schema: json(r#"{ "properties": { "choice": { "oneOf": [{ "const": "a", "title": "A" }] } }, "required": ["choice"] }"#),
            source: "builtin:question".into(),
        },
        true, // is_replay
    );

    // No popup should be opened
    assert!(app.elicitation.is_none());
    // Chat card should be present but already marked as resolved
    assert!(app.messages.iter().any(|m| matches!(m,
        ChatEntry::Elicitation { elicitation_id, outcome: Some(_), .. }
        if elicitation_id == "elic-replay"
    )));
}

#[test]
fn elicitation_requested_event_creates_state_and_chat_card() {
    let mut app = new_app();
    app.handle_event_kind(
        &EventKind::ElicitationRequested {
            elicitation_id: "elic-1".into(),
            session_id: "sess-1".into(),
            message: "Which option?".into(),
            requested_schema: json(r#"{ "properties": { "choice": { "oneOf": [ { "const": "a", "title": "Alpha" }, { "const": "b", "title": "Beta" } ] } }, "required": ["choice"] }"#),
            source: "builtin:question".into(),
        },
        false,
    );

    // State should be populated
    let state = app.elicitation.as_ref().expect("elicitation state");
    assert_eq!(state.elicitation_id, "elic-1");
    assert_eq!(state.message, "Which option?");
    assert_eq!(state.fields.len(), 1);

    // A chat card should have been appended
    assert!(app.messages.iter().any(|m| matches!(m,
        ChatEntry::Elicitation { elicitation_id, outcome: None, .. }
        if elicitation_id == "elic-1"
    )));
}

#[test]
fn replay_audit_does_not_clear_redo_stack() {
    let mut app = new_app();
    app.undo_state = Some(UndoState {
        stack: vec![UndoFrame {
            turn_id: "turn-msg-3".into(),
            message_id: "msg-3".into(),
            status: UndoFrameStatus::Confirmed,
            reverted_files: vec!["src/lib.rs".into()],
        }],
        frontier_message_id: Some("msg-3".into()),
    });

    let audit = Some(vec![
        prompt("one", "msg-1"),
        prompt("two", "msg-2"),
        prompt("three", "msg-3"),
    ]);

    app.replay_audit(&audit);

    assert!(app.can_redo());
    let state = app.undo_state.as_ref().expect("undo state");
    assert_eq!(state.frontier_message_id.as_deref(), Some("msg-3"));
    assert_eq!(state.stack.len(), 1);
    assert_eq!(state.stack[0].reverted_files, vec!["src/lib.rs"]);
}

#[test]
fn a_request_that_just_started_has_lasted_some_time() {
    let mut app = new_app();
    app.now_ns = 1_000_000_000;
    assert_eq!(app.llm_request_elapsed(), None);
    app.apply_event_stats(&EventKind::LlmRequestStart { message_count: None }, None);
    app.now_ns += 1;
    assert_eq!(app.llm_request_elapsed(), Some(1));
    app.apply_event_stats(&EventKind::Cancelled, None);
    app.now_ns += 5;
    assert_eq!(app.llm_request_elapsed(), Some(1));
}
