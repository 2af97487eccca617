use qmtui::connection::{disconnect_reason, Connector, LinkEvent};
use qmtui::server_manager::{
    build_spawn_args, default_lock_path, find_binary, find_binary_info, readiness, Errand,
    Happening, Phase, Readiness, ServerEvent, ServerManagerConfig, Supervisor,
};

fn config() -> ServerManagerConfig {
    ServerManagerConfig {
        addr: "127.0.0.1:3030".into(),
        binary_args: vec![],
        shutdown_on_exit: true,
        lock_path: None,
        ready_timeout_ms: Some(2_000),
    }
}

#[test]
fn spawn_args_default_uses_dashboard_flag() {
    let args = build_spawn_args("127.0.0.1:3030", &vec![]);
    assert_eq!(args, vec!["--dashboard=127.0.0.1:3030"]);
}

#[test]
fn spawn_args_custom_overrides_default() {
    let custom = vec!["--dashboard=0.0.0.0:9999".to_string(), "--mesh".to_string()];
    let args = build_spawn_args("127.0.0.1:3030", &custom);
    assert_eq!(args, custom);
}

#[test]
fn lock_file_stands_below_the_runtime_directory() {
    let some = |s: &str| Some(s.to_string());
    assert_eq!(default_lock_path(&some("/run/u"), &some("/c")), "/run/u/qmt/server.lock");
    assert_eq!(default_lock_path(&None, &some("/c")), "/c/qmt/server.lock");
    assert_eq!(default_lock_path(&None, &None), "/tmp/qmt/server.lock");
}

#[test]
fn find_binary_with_valid_configured_path() {
    let result = find_binary(Some("/opt/qmtcode".into()), true, true);
    assert_eq!(result, Some("/opt/qmtcode".to_string()));
}

#[test]
fn find_binary_info_reports_missing_configured_path_and_path_lookup_attempt() {
    for on_path in [false, true] {
        let info = find_binary_info(Some("/nonexistent/path/to/qmtcode".into()), false, on_path);

        assert_eq!(info.configured_path, Some("/nonexistent/path/to/qmtcode".into()));
        assert!(!info.configured_exists);
        assert!(info.used_path_lookup);
        assert_eq!(info.binary.is_some(), on_path);
        if let Some(ref binary) = info.binary {
            assert_ne!(binary, "/nonexistent/path/to/qmtcode");
        }
    }
}

#[test]
fn find_binary_info_without_configured_path_still_attempts_path_lookup() {
    let info = find_binary_info(None, false, true);

    assert_eq!(info.configured_path, None);
    assert!(info.used_path_lookup);
    assert_eq!(info.binary, Some("qmtcode".to_string()));
}

#[test]
fn a_started_server_is_given_time() {
    assert_eq!(readiness(true, 900, 100), Readiness::Ready);
    assert_eq!(readiness(false, 99, 100), Readiness::AskAgain { after_ms: 250 });
    assert_eq!(readiness(false, 100, 100), Readiness::TimedOut);
}

#[test]
fn supervisor_sends_started_when_server_already_running() {
    let mut s = Supervisor::new(config(), true);
    assert_eq!(s.errand(), Errand::Probe);
    assert_eq!(s.supervise(Happening::Up), Some(ServerEvent::Started));
    assert_eq!(s.errand(), Errand::Rest { ms: 3_000 });
    assert_eq!(s.supervise(Happening::Rested), None);
    assert_eq!(s.errand(), Errand::Probe);
    assert_eq!(s.supervise(Happening::Up), None);
    assert_eq!(s.supervise(Happening::Shutdown), None);
    assert_eq!(s.errand(), Errand::End { kill: false });
}

#[test]
fn supervisor_sends_start_failed_for_bad_binary() {
    let mut s = Supervisor::new(config(), true);
    assert_eq!(s.supervise(Happening::Down), Some(ServerEvent::Starting));
    assert_eq!(s.errand(), Errand::Spawn { args: vec!["--dashboard=127.0.0.1:3030".into()] });
    assert_eq!(
        s.supervise(Happening::SpawnFailed { error: "no such file".into() }),
        Some(ServerEvent::StartFailed { error: "no such file".into() })
    );
    assert_eq!(s.errand(), Errand::Rest { ms: 5_000 });
    assert_eq!(s.supervise(Happening::Rested), None);
    assert_eq!(s.phase, Phase::Probing);
}

#[test]
fn supervisor_restarts_a_child_that_ended() {
    let mut s = Supervisor::new(config(), true);
    s.supervise(Happening::Down);
    assert_eq!(s.supervise(Happening::Spawned), None);
    assert_eq!(s.errand(), Errand::AwaitReady { timeout_ms: 2_000 });
    assert_eq!(s.supervise(Happening::Ready), Some(ServerEvent::Started));
    assert_eq!(s.errand(), Errand::AwaitExit);
    assert_eq!(
        s.supervise(Happening::Exited { status: "exit status: 1".into() }),
        Some(ServerEvent::Stopped { reason: "exited: exit status: 1".into() })
    );
    assert_eq!(s.errand(), Errand::Rest { ms: 2_000 });
    s.supervise(Happening::Rested);
    assert_eq!(s.supervise(Happening::Down), Some(ServerEvent::Starting));
    s.supervise(Happening::Spawned);
    assert_eq!(
        s.supervise(Happening::TimedOut),
        Some(ServerEvent::StartFailed { error: "server not responding after 15 s".into() })
    );
    assert_eq!(
        s.supervise(Happening::WaitFailed { error: "gone".into() }),
        Some(ServerEvent::Stopped { reason: "error: gone".into() })
    );
}

#[test]
fn supervisor_kills_its_child_only_where_asked() {
    for shutdown_on_exit in [false, true] {
        let mut s =
            Supervisor::new(ServerManagerConfig { shutdown_on_exit, ..config() }, true);
        s.supervise(Happening::Down);
        s.supervise(Happening::Spawned);
        s.supervise(Happening::Ready);
        s.supervise(Happening::Shutdown);
        assert_eq!(s.errand(), Errand::End { kill: shutdown_on_exit });
        assert_eq!(s.supervise(Happening::Rested), None);
        assert_eq!(s.errand(), Errand::End { kill: shutdown_on_exit });
    }
}

#[test]
fn supervisor_without_the_lock_only_watches() {
    let mut s = Supervisor::new(
        ServerManagerConfig { ready_timeout_ms: None, ..config() },
        false,
    );
    assert_eq!(s.supervise(Happening::Down), None);
    assert_eq!(s.errand(), Errand::Rest { ms: 2_000 });
    s.supervise(Happening::Rested);
    assert_eq!(s.supervise(Happening::Up), Some(ServerEvent::Started));
    s.supervise(Happening::Rested);
    assert_eq!(
        s.supervise(Happening::Down),
        Some(ServerEvent::Stopped {
            reason: "server went down (managed by another instance)".into()
        })
    );
    assert_eq!(s.errand(), Errand::Rest { ms: 2_000 });
}

#[test]
fn reports_that_do_not_belong_to_a_phase_change_nothing() {
    let mut s = Supervisor::new(config(), true);
    assert_eq!(s.supervise(Happening::Spawned), None);
    assert_eq!(s.supervise(Happening::Shutdown), None);
    assert_eq!(s.phase, Phase::Probing);
}

#[test]
fn connecting_again_waits_longer_each_time() {
    let mut c = Connector::new();
    assert_eq!(c.wait_ms(), None);
    let mut waits = vec![];
    for _ in 0..7 {
        c = c.after_failure();
        waits.push(c.wait_ms().unwrap());
    }
    assert_eq!(waits, vec![250, 500, 1_000, 2_000, 4_000, 8_000, 8_000]);
    assert_eq!(c.after_loss().wait_ms(), Some(250));
    let last = Connector { attempt: u32::MAX };
    assert_eq!(last.after_failure(), last);
}

#[test]
fn a_connection_ends_with_a_reason() {
    assert_eq!(disconnect_reason(LinkEvent::Sent), None);
    assert_eq!(disconnect_reason(LinkEvent::Received), None);
    assert_eq!(disconnect_reason(LinkEvent::SendFailed), Some("send failed".to_string()));
    assert_eq!(disconnect_reason(LinkEvent::Closed), Some("socket closed".to_string()));
    assert_eq!(
        disconnect_reason(LinkEvent::Failed { error: "reset".into() }),
        Some("reset".to_string())
    );
}

#[test]
fn wait_until_ready_succeeds_when_already_listening() {
    assert_eq!(readiness(true, 0, 1_000), Readiness::Ready);
}

#[test]
fn wait_until_ready_times_out_when_nothing_listens() {
    assert_eq!(readiness(false, 499, 500), Readiness::AskAgain { after_ms: 250 });
    assert_eq!(readiness(false, 500, 500), Readiness::TimedOut);
}

#[test]
fn wait_until_ready_succeeds_when_listener_appears_later() {
    assert_eq!(readiness(false, 0, 2_000), Readiness::AskAgain { after_ms: 250 });
    assert_eq!(readiness(false, 250, 2_000), Readiness::AskAgain { after_ms: 250 });
    assert_eq!(readiness(true, 500, 2_000), Readiness::Ready);
}

#[test]
fn supervisor_shuts_down_on_signal() {
    let mut s = Supervisor::new(config(), true);
    assert_eq!(s.supervise(Happening::Up), Some(ServerEvent::Started));
    s.supervise(Happening::Shutdown);
    assert!(
        matches!(s.errand(), Errand::End { .. }),
        "supervisor should exit after shutdown signal"
    );
}

#[test]
fn supervisor_detects_server_going_down() {
    let mut s = Supervisor::new(config(), true);
    assert_eq!(s.supervise(Happening::Up), Some(ServerEvent::Started));
    s.supervise(Happening::Rested);
    let event = s.supervise(Happening::Down);
    assert!(
        matches!(event, Some(ServerEvent::Stopped { .. }) | Some(ServerEvent::Starting)),
        "supervisor should react to server going down"
    );
}

#[test]
fn supervisor_sends_stopped_when_child_exits() {
    let mut s = Supervisor::new(config(), true);
    let saw_starting = s.supervise(Happening::Down) == Some(ServerEvent::Starting);
    s.supervise(Happening::Spawned);
    let end = s.supervise(Happening::TimedOut);
    assert!(saw_starting, "should have seen Starting");
    assert!(
        matches!(end, Some(ServerEvent::Stopped { .. }) | Some(ServerEvent::StartFailed { .. })),
        "should have seen Stopped or StartFailed after child exited"
    );
    let gone = s.supervise(Happening::Exited { status: "exit status: 0".into() });
    assert!(matches!(gone, Some(ServerEvent::Stopped { .. })));
}
