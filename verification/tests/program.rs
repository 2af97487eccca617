use qmtui::app::{App, ConnState, ConnectionEvent, LogLevel, Screen};
use qmtui::cache::TuiCache;
use qmtui::config::{ServerConfig, TuiConfig};
use qmtui::handlers::Outbox;
use qmtui::program::{
    on_connection_event, on_server_event, on_server_message, pick_addr, pick_url, plan_server,
    restore_hint, start_app, tick, wants_auto_start, Cli, Launch,
};
use qmtui::protocol::{
    ClientMsg, RawServerMsg, ReasoningEffortData, RedoResultData, ServerData, UndoResultData,
};
use qmtui::server_manager::{BinaryDiscovery, ServerEvent, ServerState};
use qmtui::theme::Base16Palette;

fn palettes() -> Vec<Base16Palette> {
    ["base16-first", "base16-querymate", "base16-ocean"]
        .iter()
        .map(|id| Base16Palette { id: id.to_string(), label: id.to_string(), colors: [0; 16] })
        .collect()
}

fn new_app() -> App {
    App::new(palettes())
}

fn bin() -> String {
    "qmtui".to_string()
}

fn parse(args: &[&str]) -> Cli {
    let args: Vec<String> = args.iter().map(|a| a.to_string()).collect();
    Cli::try_parse_from(&args, "1.2.3").unwrap()
}

// ── command line ──────────────────────────────────────────────────────────────

#[test]
fn cli_session_short_flag() {
    let b = bin();
    let cli = parse(&[b.as_str(), "-s", "abc123"]);
    assert_eq!(cli.session, Some("abc123".into()));
}

#[test]
fn cli_session_long_flag() {
    let b = bin();
    let cli = parse(&[b.as_str(), "--session", "abc123"]);
    assert_eq!(cli.session, Some("abc123".into()));
}

#[test]
fn cli_no_session_defaults_to_none() {
    let b = bin();
    let cli = parse(&[b.as_str()]);
    assert_eq!(cli.session, None);
}

#[test]
fn cli_takes_a_server_address() {
    let cli = parse(&["qmtui", "--server", "h:1", "--session=x"]);
    assert_eq!(cli, Cli { server: Some("h:1".into()), session: Some("x".into()) });
}

#[test]
fn cli_reports_wrong_options_and_texts() {
    let args = |a: &str| vec!["qmtui".to_string(), a.to_string()];
    let wrong = Cli::try_parse_from(&args("--nonsense"), "1.2.3").unwrap_err();
    assert_eq!(wrong.code, 2);
    assert!(wrong.text.contains("--nonsense"), "{}", wrong.text);
    let version = Cli::try_parse_from(&args("--version"), "1.2.3").unwrap_err();
    assert_eq!(version.code, 0);
    assert_eq!(version.text.trim(), "qmtui 1.2.3");
    let help = Cli::try_parse_from(&args("--help"), "1.2.3").unwrap_err();
    assert_eq!(help.code, 0);
    assert!(help.text.contains("Restore a session by id"), "{}", help.text);
    assert!(help.text.starts_with("querymt terminal interface\n"), "{}", help.text);
    assert!(help.text.contains("Usage: qmtui [OPTIONS]\n"), "{}", help.text);
    assert!(
        help.text.contains(
            "      --server <SERVER>    Server address (e.g. 127.0.0.1:3030). \
             Overrides the value in ~/.qmt/tui.toml\n"
        ),
        "{}",
        help.text
    );
    assert!(
        help.text.contains("  -s, --session <SESSION>  Restore a session by id\n"),
        "{}",
        help.text
    );
}

#[test]
fn cli_names_the_missing_value() {
    let args = |a: &str| vec!["qmtui".to_string(), a.to_string()];
    let server = Cli::try_parse_from(&args("--server"), "1.2.3").unwrap_err();
    assert_eq!(server.code, 2);
    assert!(
        server.text.contains("a value is required for '--server <SERVER>' but none was supplied"),
        "{}",
        server.text
    );
    let session = Cli::try_parse_from(&args("-s"), "1.2.3").unwrap_err();
    assert_eq!(session.code, 2);
    assert!(
        session.text.contains("a value is required for '--session <SESSION>' but none was supplied"),
        "{}",
        session.text
    );
}

#[test]
fn cli_shows_the_options_as_one_group() {
    let args = vec!["qmtui".to_string(), "--server=a".to_string(), "--help=x".to_string()];
    let wrong = Cli::try_parse_from(&args, "1.2.3").unwrap_err();
    assert_eq!(wrong.code, 2);
    assert!(
        wrong.text.contains("Usage: qmtui --help <--server <SERVER>|--session <SESSION>>\n"),
        "{}",
        wrong.text
    );
}

#[test]
fn restore_hint_formats_correctly() {
    let hint = restore_hint("abc-123-def");
    assert_eq!(hint, format!("{} -s abc-123-def", bin()));
}

// ── startup ───────────────────────────────────────────────────────────────────

fn config(server: ServerConfig) -> TuiConfig {
    TuiConfig { server, ..TuiConfig::default() }
}

#[test]
fn command_line_comes_before_configuration() {
    let cfg = config(ServerConfig { addr: Some("cfg:1".into()), ..ServerConfig::default() });
    assert_eq!(pick_addr(&Some("cli:1".into()), &cfg), "cli:1");
    assert_eq!(pick_addr(&None, &cfg), "cfg:1");
    assert_eq!(pick_addr(&None, &TuiConfig::default()), "127.0.0.1:42069");
}

#[test]
fn encryption_is_used_where_configured() {
    let tls = |b| config(ServerConfig { tls: b, ..ServerConfig::default() });
    assert_eq!(pick_url("h:1", &tls(None)), "ws://h:1/ui/ws");
    assert_eq!(pick_url("h:1", &tls(Some(false))), "ws://h:1/ui/ws");
    assert_eq!(pick_url("h:1", &tls(Some(true))), "wss://h:1/ui/ws");
}

#[test]
fn startup_takes_theme_session_and_directory() {
    let cfg = TuiConfig {
        theme: Some("base16-ocean".into()),
        show_thinking: Some(false),
        server: ServerConfig::default(),
    };
    let app = start_app(
        palettes(),
        &cfg,
        Some("/work".into()),
        Some("sid".into()),
        &TuiCache::default(),
    );
    assert_eq!(app.theme.current_index(), 2);
    assert_eq!(app.launch_cwd.as_deref(), Some("/work"));
    assert_eq!(app.session_id.as_deref(), Some("sid"));
    assert_eq!(app.screen, Screen::Chat);
    assert!(!app.show_thinking);

    let app = start_app(palettes(), &TuiConfig::default(), None, None, &TuiCache::default());
    assert_eq!(app.theme.current_index(), 1);
    assert_eq!(app.screen, Screen::Sessions);
    assert!(app.show_thinking);
}

fn found(binary: Option<&str>) -> BinaryDiscovery {
    BinaryDiscovery {
        binary: binary.map(String::from),
        configured_path: Some("/gone".into()),
        configured_exists: false,
        used_path_lookup: true,
    }
}

#[test]
fn local_server_is_planned_by_what_was_found() {
    let cfg = config(ServerConfig {
        binary_args: Some(vec!["--x".into()]),
        shutdown_on_exit: Some(false),
        ..ServerConfig::default()
    });
    let mut app = new_app();
    assert_eq!(plan_server(&mut app, &cfg, "a:1", None), Launch::Off);
    assert_eq!(app.server_state, ServerState::Disabled);
    assert!(app.logs.is_empty());

    assert_eq!(plan_server(&mut app, &cfg, "a:1", Some(found(None))), Launch::Missing);
    assert_eq!(app.server_state, ServerState::BinaryNotFound);
    assert_eq!(app.logs[0].message, "configured qmtcode path not found: /gone; checking PATH");
    assert_eq!(app.logs[1].message, "qmtcode not found on PATH");

    match plan_server(&mut app, &cfg, "a:1", Some(found(Some("qmtcode")))) {
        Launch::Supervise { binary, config } => {
            assert_eq!(binary, "qmtcode");
            assert_eq!(config.addr, "a:1");
            assert_eq!(config.binary_args, vec!["--x"]);
            assert!(!config.shutdown_on_exit);
        }
        other => panic!("unexpected {other:?}"),
    }
    assert_eq!(app.server_state, ServerState::Starting);
    assert!(wants_auto_start(&cfg));
    assert!(!wants_auto_start(&config(ServerConfig {
        auto_start: Some(false),
        ..ServerConfig::default()
    })));
}

// ── reactions ─────────────────────────────────────────────────────────────────

#[test]
fn a_new_connection_is_greeted() {
    let mut app = new_app();
    let mut out = Outbox::new();
    on_connection_event(&mut app, ConnectionEvent::Connected, &mut out);
    assert_eq!(app.status, "connected");
    assert!(matches!(
        out.msgs.as_slice(),
        [ClientMsg::Init, ClientMsg::ListAllModels { refresh: false }, ClientMsg::GetAgentMode]
    ));
}

#[test]
fn an_open_session_is_loaded_again_after_a_reconnect() {
    let mut app = new_app();
    app.session_id = Some("s1".into());
    app.agent_id = Some("a1".into());
    app.conn = ConnState::Connected;
    let mut out = Outbox::new();
    on_connection_event(
        &mut app,
        ConnectionEvent::Disconnected { reason: "socket closed".into() },
        &mut out,
    );
    assert!(out.msgs.is_empty());
    assert_eq!(app.status, "connection lost - reconnecting...");
    on_connection_event(&mut app, ConnectionEvent::Connected, &mut out);
    assert_eq!(out.msgs.len(), 5);
    assert!(matches!(&out.msgs[3], ClientMsg::LoadSession { session_id } if session_id == "s1"));
    assert!(matches!(
        &out.msgs[4],
        ClientMsg::SubscribeSession { session_id, agent_id: Some(a) }
            if session_id == "s1" && a == "a1"
    ));
}

#[test]
fn a_second_failure_keeps_its_own_reason() {
    let mut app = new_app();
    app.conn = ConnState::Disconnected;
    let mut out = Outbox::new();
    on_connection_event(
        &mut app,
        ConnectionEvent::Disconnected { reason: "refused".into() },
        &mut out,
    );
    assert_eq!(app.status, "connection lost - refused");
}

#[test]
fn effort_that_the_server_sets_is_saved() {
    let mut app = new_app();
    let mut out = Outbox::new();
    on_server_message(
        &mut app,
        RawServerMsg {
            msg_type: "reasoning_effort".into(),
            data: Some(ServerData::ReasoningEffort(ReasoningEffortData {
                reasoning_effort: Some("max".into()),
            })),
        },
        &mut out,
    );
    assert_eq!(app.reasoning_effort.as_deref(), Some("max"));
    assert!(out.save_cache);
    assert!(out.msgs.is_empty());
}

#[test]
fn a_session_that_is_loaded_again_is_subscribed_to() {
    let mut app = new_app();
    app.session_id = Some("s1".into());
    let mut out = Outbox::new();
    on_server_message(
        &mut app,
        RawServerMsg {
            msg_type: "undo_result".into(),
            data: Some(ServerData::UndoResult(UndoResultData {
                success: true,
                message_id: Some("m1".into()),
                reverted_files: vec![],
                message: None,
                undo_stack: vec![],
            })),
        },
        &mut out,
    );
    on_server_message(
        &mut app,
        RawServerMsg {
            msg_type: "redo_result".into(),
            data: Some(ServerData::RedoResult(RedoResultData {
                success: true,
                message: None,
                undo_stack: vec![],
            })),
        },
        &mut out,
    );
    let loads =
        out.msgs.iter().filter(|m| matches!(m, ClientMsg::LoadSession { .. })).count();
    let subscriptions =
        out.msgs.iter().filter(|m| matches!(m, ClientMsg::SubscribeSession { .. })).count();
    assert!(loads > 0);
    assert_eq!(loads, subscriptions);
    assert!(!out.save_cache);
}

#[test]
fn reports_on_the_local_server_change_state_and_status() {
    let mut app = new_app();
    app.conn = ConnState::Disconnected;
    on_server_event(&mut app, ServerEvent::Starting);
    assert_eq!(app.server_state, ServerState::Starting);
    assert_eq!(app.status, "starting local server...");
    on_server_event(&mut app, ServerEvent::Started);
    assert_eq!(app.server_state, ServerState::Running);
    assert_eq!(app.status, "local server started — connecting...");
    on_server_event(&mut app, ServerEvent::BinaryNotFound);
    assert_eq!(app.server_state, ServerState::BinaryNotFound);
    assert_eq!(
        app.status,
        "qmtcode not found — install it or set server.binary_path in ~/.qmt/tui.toml"
    );
    on_server_event(&mut app, ServerEvent::StartFailed { error: "boom".into() });
    assert_eq!(app.server_state, ServerState::StartFailed { error: "boom".into() });
    assert_eq!(app.status, "server start failed: boom");
    assert_eq!(app.logs.last().unwrap().level, LogLevel::Error);
    on_server_event(&mut app, ServerEvent::Stopped { reason: "exited: 1".into() });
    assert_eq!(app.server_state, ServerState::Restarting { reason: "exited: 1".into() });
    assert_eq!(app.status, "server stopped (exited: 1) — restarting...");

    app.conn = ConnState::Connected;
    on_server_event(&mut app, ServerEvent::Started);
    assert_eq!(app.status, "server stopped (exited: 1) — restarting...");
    assert_eq!(app.server_state, ServerState::Running);
}

#[test]
fn ticks_count_and_wrap() {
    let mut app = new_app();
    app.tick = u64::MAX;
    tick(&mut app);
    assert_eq!(app.tick, 0);
    app.now_ns = 5_000_000_000;
    app.pending_cancel_confirm_until = Some(4_999_999_999);
    tick(&mut app);
    assert_eq!(app.pending_cancel_confirm_until, None);
}
