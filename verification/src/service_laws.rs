//! What holds of starting up, of the connection, of the local server, and of what is kept
//! from one run to the next.
use crate::app::{AppView, CachedModeStateView, ConnState, ConnectionEventView, Screen};
use crate::cache::{kept, kept_modes, kept_sessions, mode_state_of, restored, TuiCacheView};
use crate::config::{config_of, server_config_of, StorageView, TuiConfigView};
use crate::connection::{end_of_link, LinkEventView};
use crate::handlers::OutboxView;
use crate::json::JsonView;
use crate::program::{
    cli_of, launch, message_turn, server_addr, server_url, startup_theme, with_subscriptions,
};
use crate::protocol::{effort_field, ClientMsgView, RawServerMsgView, ReasoningEffortFieldView};
use crate::server_manager::{
    discovery, errand, next_phase, readiness, report, spawn_args, usual_lock, BinaryDiscoveryView,
    ErrandView, Readiness,
    HappeningView, Phase, ServerEventView, ServerManagerConfigView, ServerStateView,
};
use vstd::prelude::*;

verus! {

// ── starting up ──────────────────────────────────────────────────────────────

/// The command line comes before the configuration, and the configuration before the usual
/// address; the address stands in the middle of the place where the server takes
/// connections, and encryption is told by the scheme alone.
pub proof fn law_address_is_chosen(cli: Option<Seq<char>>, cfg: TuiConfigView, addr: Seq<char>)
    ensures
        cli is Some ==> server_addr(cli, cfg) == cli->0,
        cli is None && cfg.server.addr is Some ==> server_addr(cli, cfg) == cfg.server.addr->0,
        cli is None && cfg.server.addr is None ==> server_addr(cli, cfg) == "127.0.0.1:42069"@,
        server_url(addr, true) == "wss"@ + "://"@ + addr + "/ui/ws"@,
        server_url(addr, false) == "ws"@ + "://"@ + addr + "/ui/ws"@,
        cfg.theme is Some ==> startup_theme(cfg) == cfg.theme->0,
{
}

/// A program that is started for a session shows it at once; else it shows the session list.
/// Thinking is shown unless the configuration says otherwise, and what was kept of earlier
/// sessions is known again.
pub proof fn law_startup(
    app: AppView,
    cfg: TuiConfigView,
    launch_cwd: Option<Seq<char>>,
    session: Option<Seq<char>>,
    cache: TuiCacheView,
)
    requires
        app.screen == Screen::Sessions,
        app.session_id is None,
    ensures
        ({
            let s = app.started(cfg, launch_cwd, session, cache);
            &&& s.session_id == session
            &&& s.screen == (if session is Some {
                Screen::Chat
            } else {
                Screen::Sessions
            })
            &&& s.launch_cwd == launch_cwd
            &&& s.show_thinking == !(cfg.show_thinking == Some(false))
            &&& s.messages == app.messages
            &&& forall|sid: Seq<char>, mode: Seq<char>|
                cache.sessions.contains_key(sid) && #[trigger] cache.sessions[sid].modes.contains_key(
                    mode,
                ) ==> {
                    &&& s.session_cache.contains_key(sid)
                    &&& s.session_cache[sid].contains_key(mode)
                    &&& s.session_cache[sid][mode].model == cache.sessions[sid].modes[mode].model
                    &&& cache.sessions[sid].modes[mode].effort != "auto"@
                        ==> s.session_cache[sid][mode].effort == Some(
                        cache.sessions[sid].modes[mode].effort,
                    )
                    &&& cache.sessions[sid].modes[mode].effort == "auto"@
                        ==> s.session_cache[sid][mode].effort is None
                }
            &&& forall|sid: Seq<char>|
                app.session_cache.contains_key(sid) && !cache.sessions.contains_key(sid)
                    ==> #[trigger] s.session_cache.contains_key(sid) && s.session_cache[sid]
                    == app.session_cache[sid]
        }),
{
}

/// The values of the two options are what the command line says; an error keeps its code and
/// its text.
pub proof fn law_command_line_is_taken_over(
    server: Option<Seq<char>>,
    session: Option<Seq<char>>,
    code: i32,
    text: Seq<char>,
)
    ensures
        cli_of(Ok((server, session))) is Ok,
        cli_of(Ok((server, session)))->Ok_0.server == server,
        cli_of(Ok((server, session)))->Ok_0.session == session,
        cli_of(Err((code, text))) is Err,
        cli_of(Err((code, text)))->Err_0.code == code,
        cli_of(Err((code, text)))->Err_0.text == text,
{
}

// ── the connection ───────────────────────────────────────────────────────────

/// A connection is told by its state, and a wait for one by its number and its length; what
/// is on the screen stays, and a cancellation no longer waits for its confirmation.
pub proof fn law_connection_is_followed(
    app: AppView,
    attempt: u32,
    delay_ms: u64,
    delay_secs: Seq<char>,
    reason: Seq<char>,
)
    ensures
        ({
            let waiting = app.link_changed(
                ConnectionEventView::Connecting { attempt, delay_ms, delay_secs },
            );
            let up = app.link_changed(ConnectionEventView::Connected);
            let down = app.link_changed(ConnectionEventView::Disconnected { reason });
            &&& waiting.conn == ConnState::Connecting && waiting.reconnect_attempt == attempt
                && waiting.reconnect_delay_ms == Some(delay_ms)
            &&& up.conn == ConnState::Connected && up.reconnect_attempt == 0
                && up.reconnect_delay_ms is None
            &&& down.conn == ConnState::Disconnected && down.reconnect_delay_ms is None
            &&& waiting.messages == app.messages && up.messages == app.messages && down.messages
                == app.messages
            &&& waiting.session_id == app.session_id && up.session_id == app.session_id
                && down.session_id == app.session_id
            &&& waiting.input == app.input && up.input == app.input && down.input == app.input
            &&& waiting.pending_cancel_confirm_until is None
                && up.pending_cancel_confirm_until is None
                && down.pending_cancel_confirm_until is None
            &&& app.conn != ConnState::Connected ==> down.status == "connection lost - "@ + reason
            &&& app.conn == ConnState::Connected ==> down.status
                == "connection lost - reconnecting..."@
        }),
{
}

/// On a new connection the server is asked for what is shown first, and then for the session
/// that is open, where there is one.
pub proof fn law_greetings(app: AppView)
    ensures
        ({
            let g = app.greetings();
            &&& g.len() == (if app.session_id is Some {
                5int
            } else {
                3
            })
            &&& g[0] == ClientMsgView::Init
            &&& g[1] == (ClientMsgView::ListAllModels { refresh: false })
            &&& g[2] == ClientMsgView::GetAgentMode
            &&& app.session_id is Some ==> g[3] == (ClientMsgView::LoadSession {
                session_id: app.session_id->0,
            }) && g[4] == (ClientMsgView::SubscribeSession {
                session_id: app.session_id->0,
                agent_id: app.agent_id,
            })
        }),
{
}

/// A connection is over when something could not be sent, when it failed or when it was
/// closed, and not before.
pub proof fn law_connection_ends(event: LinkEventView)
    ensures
        end_of_link(event) is None <==> event is Sent || event is Received,
        event is Failed ==> end_of_link(event) == Some(event->Failed_error),
{
}

/// Behind every message that loads a session stands a subscription to it; all messages are
/// sent, in their order, and nothing else is.
pub proof fn law_loaded_sessions_are_subscribed_to(
    msgs: Seq<ClientMsgView>,
    m: ClientMsgView,
    agent_id: Option<Seq<char>>,
)
    ensures
        with_subscriptions(Seq::empty(), agent_id).len() == 0,
        !(m is LoadSession) ==> with_subscriptions(msgs.push(m), agent_id) == with_subscriptions(
            msgs,
            agent_id,
        ).push(m),
        m is LoadSession ==> with_subscriptions(msgs.push(m), agent_id) == with_subscriptions(
            msgs,
            agent_id,
        ).push(m).push(
            ClientMsgView::SubscribeSession { session_id: m->LoadSession_session_id, agent_id },
        ),
{
    assert(msgs.push(m).drop_last() =~= msgs);
    let all = with_subscriptions(msgs.push(m), agent_id);
    if m is LoadSession {
        assert(all =~= with_subscriptions(msgs, agent_id).push(m).push(
            ClientMsgView::SubscribeSession { session_id: m->LoadSession_session_id, agent_id },
        ));
    } else {
        assert(all =~= with_subscriptions(msgs, agent_id).push(m));
    }
}

/// The replies to a message of the server are sent behind what is to be sent already, and an
/// effort that the server reports is kept.
pub proof fn law_replies_are_sent(app: AppView, out: OutboxView, raw: RawServerMsgView)
    ensures
        ({
            let (next, sent) = message_turn(app, out, raw);
            &&& next == app.message(raw).0
            &&& sent.msgs == out.msgs + with_subscriptions(app.message(raw).1, next.agent_id)
            &&& raw.msg_type == "reasoning_effort"@ ==> sent.save_cache
            &&& sent.save_config == out.save_config
        }),
{
}

/// A confirmation that comes too late is given up by itself; one that is in time is still
/// waited for.
pub proof fn law_confirmations_run_out(app: AppView)
    ensures
        app.pending_cancel_confirm_until is Some && app.pending_cancel_confirm_until->0
            < app.now_ns ==> app.ticked().pending_cancel_confirm_until is None,
        app.pending_cancel_confirm_until is Some && app.pending_cancel_confirm_until->0
            >= app.now_ns ==> app.ticked().pending_cancel_confirm_until
            == app.pending_cancel_confirm_until,
        app.ticked().messages == app.messages,
        app.ticked().input == app.input,
        app.tick < u64::MAX ==> app.ticked().tick == app.tick + 1,
{
}

// ── the local server ─────────────────────────────────────────────────────────

/// The configured program is taken where it exists, else the one that is found by its name;
/// where there is neither, none is.
pub proof fn law_binary_is_found(configured: Option<Seq<char>>, exists_there: bool, on_path: bool)
    ensures
        ({
            let d = discovery(configured, exists_there, on_path);
            &&& configured is Some && exists_there ==> d.binary == configured
                && !d.used_path_lookup
            &&& !(configured is Some && exists_there) && on_path ==> d.binary == Some("qmtcode"@)
            &&& !(configured is Some && exists_there) && !on_path ==> d.binary is None
            &&& !(configured is Some && exists_there) ==> d.used_path_lookup
            &&& d.configured_path == configured
        }),
{
}

/// A server is started where one is wanted and its program was found, with the address and
/// the arguments that are configured.
pub proof fn law_server_is_launched(
    cfg: TuiConfigView,
    addr: Seq<char>,
    d: BinaryDiscoveryView,
)
    ensures
        launch(cfg, addr, None) is Off,
        d.binary is None ==> launch(cfg, addr, Some(d)) is Missing,
        d.binary is Some ==> {
            let l = launch(cfg, addr, Some(d));
            &&& l is Supervise
            &&& l->Supervise_binary == d.binary->0
            &&& l->Supervise_config.addr == addr
            &&& cfg.server.binary_args is Some ==> l->Supervise_config.binary_args
                == cfg.server.binary_args->0
            &&& cfg.server.binary_args is None ==> l->Supervise_config.binary_args.len() == 0
            &&& l->Supervise_config.shutdown_on_exit == !(cfg.server.shutdown_on_exit == Some(
                false,
            ))
        },
        spawn_args(addr, Seq::empty()) == seq!["--dashboard="@ + addr],
        forall|extra: Seq<Seq<char>>| extra.len() > 0 ==> #[trigger] spawn_args(addr, extra) == extra,
{
}

/// The supervisor does in each phase what its phase is named for: it looks for a server before
/// it starts one, waits for the one that it started, and tells what became of it.
pub proof fn law_supervisor_goes_on(
    config: ServerManagerConfigView,
    owner: bool,
    shutdown_on_exit: bool,
    status: Seq<char>,
    error: Seq<char>,
)
    ensures
        errand(config, Phase::Probing) is Probe,
        errand(config, Phase::Reprobing) is Probe,
        errand(config, Phase::Spawning) == (ErrandView::Spawn {
            args: spawn_args(config.addr, config.binary_args),
        }),
        errand(config, Phase::Readying) is AwaitReady,
        errand(config, Phase::Guarding) is AwaitExit,
        errand(config, Phase::Watching) is Rest,
        next_phase(Phase::Probing, owner, shutdown_on_exit, HappeningView::Up) is Watching,
        report(Phase::Probing, owner, HappeningView::Up) == Some(ServerEventView::Started),
        next_phase(Phase::Watching, owner, shutdown_on_exit, HappeningView::Rested) is Reprobing,
        next_phase(Phase::Reprobing, owner, shutdown_on_exit, HappeningView::Up) is Watching,
        next_phase(Phase::Spawning, owner, shutdown_on_exit, HappeningView::Spawned) is Readying,
        next_phase(Phase::Readying, owner, shutdown_on_exit, HappeningView::Ready) is Guarding,
        report(Phase::Readying, owner, HappeningView::Ready) == Some(ServerEventView::Started),
        next_phase(
            Phase::Spawning,
            owner,
            shutdown_on_exit,
            HappeningView::SpawnFailed { error },
        ) is Resting,
        report(Phase::Spawning, owner, HappeningView::SpawnFailed { error }) == Some(
            ServerEventView::StartFailed { error },
        ),
        report(Phase::Guarding, owner, HappeningView::Exited { status }) == Some(
            ServerEventView::Stopped { reason: "exited: "@ + status },
        ),
{
}

/// What the supervisor reports is the state of the local server that is shown; a failure is
/// told in the status line, connected or not, and the conversation stays.
pub proof fn law_reports_are_shown(app: AppView, event: ServerEventView)
    ensures
        ({
            let s = app.server_reported(event);
            &&& event is Starting ==> s.server_state is Starting
            &&& event is Started ==> s.server_state is Running
            &&& event is BinaryNotFound ==> s.server_state is BinaryNotFound
            &&& event is StartFailed ==> s.server_state == (ServerStateView::StartFailed {
                error: event->StartFailed_error,
            }) && s.status == "server start failed: "@ + event->StartFailed_error
            &&& event is Stopped ==> s.server_state == (ServerStateView::Restarting {
                reason: event->Stopped_reason,
            })
            &&& s.messages == app.messages
            &&& s.conn == app.conn
        }),
{
}

// ── what is kept ─────────────────────────────────────────────────────────────

/// The configuration is read by the names of its settings; what is not there is not set.
pub proof fn law_settings_are_read_by_name(t: JsonView)
    requires
        t is Object,
        config_of(t) is Some,
    ensures
        ({
            let c = config_of(t)->0;
            &&& t.get("theme"@) is None ==> c.theme is None
            &&& t.get("theme"@) is Some ==> c.theme is Some && t.get("theme"@)->0
                == JsonView::Text(c.theme->0)
            &&& t.get("show_thinking"@) is None ==> c.show_thinking is None
            &&& t.get("show_thinking"@) is Some ==> c.show_thinking is Some && t.get(
                "show_thinking"@,
            )->0 == JsonView::Bool(c.show_thinking->0)
            &&& t.get("server"@) is None ==> c.server.addr is None && c.server.tls is None
                && c.server.binary_path is None && c.server.auto_start is None
            &&& t.get("server"@) is Some ==> server_config_of(t.get("server"@)->0) == Some(
                c.server,
            )
        }),
{
}

/// The settings of the server are read by their names.
pub proof fn law_server_settings_are_read_by_name(t: JsonView)
    requires
        t is Object,
        server_config_of(t) is Some,
    ensures
        ({
            let c = server_config_of(t)->0;
            &&& t.get("addr"@) is Some ==> c.addr is Some && t.get("addr"@)->0 == JsonView::Text(
                c.addr->0,
            )
            &&& t.get("addr"@) is None ==> c.addr is None
            &&& t.get("tls"@) is Some ==> c.tls is Some && t.get("tls"@)->0 == JsonView::Bool(
                c.tls->0,
            )
            &&& t.get("tls"@) is None ==> c.tls is None
            &&& t.get("binary_path"@) is Some ==> c.binary_path is Some && t.get("binary_path"@)->0
                == JsonView::Text(c.binary_path->0)
            &&& t.get("binary_path"@) is None ==> c.binary_path is None
            &&& t.get("binary_args"@) is None ==> c.binary_args is None
            &&& t.get("binary_args"@) is Some ==> {
                &&& c.binary_args is Some
                &&& t.get("binary_args"@)->0 is Array
                &&& c.binary_args->0.len() == t.get("binary_args"@)->0->Array_0.len()
                &&& forall|i: int|
                    0 <= i < c.binary_args->0.len() ==> JsonView::Text(
                        #[trigger] c.binary_args->0[i],
                    ) == t.get("binary_args"@)->0->Array_0[i]
            }
            &&& t.get("auto_start"@) is Some ==> c.auto_start is Some && t.get("auto_start"@)->0
                == JsonView::Bool(c.auto_start->0)
            &&& t.get("auto_start"@) is None ==> c.auto_start is None
            &&& t.get("shutdown_on_exit"@) is Some ==> c.shutdown_on_exit is Some && t.get(
                "shutdown_on_exit"@,
            )->0 == JsonView::Bool(c.shutdown_on_exit->0)
            &&& t.get("shutdown_on_exit"@) is None ==> c.shutdown_on_exit is None
        }),
{
    let args = t.get("binary_args"@);
    if args is Some {
        let a = args->0->Array_0;
        let c = server_config_of(t)->0;
        assert forall|i: int| 0 <= i < c.binary_args->0.len() implies JsonView::Text(
            #[trigger] c.binary_args->0[i],
        ) == a[i] by {
            assert(a[i] is Text);
        }
    }
}

/// What a mode used is kept under its name, with the automatic effort by its name, and comes
/// back as it was.
pub proof fn law_modes_are_kept(c: CachedModeStateView, t: JsonView)
    ensures
        kept(c).model == c.model,
        c.effort is Some ==> kept(c).effort == c.effort->0,
        c.effort is None ==> kept(c).effort == "auto"@,
        c.effort != Some("auto"@) ==> restored(kept(c)) == c,
        t is Object && t.get("model"@) is Some && t.get("model"@)->0 is Text && t.get(
            "effort"@,
        ) is Some && t.get("effort"@)->0 is Text ==> {
            &&& mode_state_of(t) is Some
            &&& mode_state_of(t)->0.model == t.get("model"@)->0->Text_0
            &&& mode_state_of(t)->0.effort == t.get("effort"@)->0->Text_0
        },
{
}

/// Every session and every mode of it is kept, and no other.
pub proof fn law_sessions_are_kept(
    m: Map<Seq<char>, Map<Seq<char>, CachedModeStateView>>,
    sid: Seq<char>,
    mode: Seq<char>,
)
    ensures
        kept_sessions(m).sessions.contains_key(sid) <==> m.contains_key(sid),
        m.contains_key(sid) ==> (kept_sessions(m).sessions[sid].modes.contains_key(mode)
            <==> m[sid].contains_key(mode)),
        m.contains_key(sid) && m[sid].contains_key(mode)
            ==> kept_sessions(m).sessions[sid].modes[mode] == kept(m[sid][mode]),
{
    if m.contains_key(sid) {
        assert(kept_sessions(m).sessions[sid] == kept_modes(m[sid]));
    }
}

/// What was put in a file is what stands there, and no other file changes; the configuration
/// and the session cache have places of their own unless others are asked for.
pub proof fn law_files_hold_what_was_put(
    s: StorageView,
    path: Seq<char>,
    text: Seq<char>,
    other: Seq<char>,
)
    ensures
        s.stored(path, Some(text)).files.contains_key(path),
        s.stored(path, Some(text)).files[path] == text,
        other != path && s.files.contains_key(other) ==> s.stored(
            path,
            Some(text),
        ).files.contains_key(other) && s.stored(path, Some(text)).files[other] == s.files[other],
        s.stored(path, None) == s,
        s.config_path is Some ==> s.config_place() == s.config_path->0,
        s.cache_path is Some ==> s.cache_place() == s.cache_path->0,
        s.config_path is None && s.home_dir is Some ==> s.config_place()
            == crate::paths::path_joined(s.home_dir->0, ".qmt/tui.toml"@),
        s.cache_path is None && s.cache_dir is Some ==> s.cache_place()
            == crate::paths::path_joined(s.cache_dir->0, "qmt/tui-cache.toml"@),
{
}

/// The theme in use is kept under its id, and the other settings stay as they were.
pub proof fn law_theme_in_use_is_kept(cfg: TuiConfigView, app: AppView)
    ensures
        cfg.with_theme(app).theme == Some(app.themes[app.theme.current as int].id),
        cfg.with_theme(app).show_thinking == cfg.show_thinking,
        cfg.with_theme(app).server == cfg.server,
{
}

/// The level that a message names is taken as it is, but that `auto`, and a key without a
/// value, stand for no level.
pub proof fn law_effort_is_read(level: Seq<char>)
    ensures
        effort_field(None) is Auto,
        effort_field(Some("auto"@)) is Auto,
        level != "auto"@ ==> effort_field(Some(level)) == ReasoningEffortFieldView::Level(level),
{
}

/// The lock file stands in the directory for such files, or else among what is cached, or else
/// among temporary files.
pub proof fn law_lock_file_has_its_place(dir: Seq<char>, other: Option<Seq<char>>)
    requires
        dir.len() > 0,
        dir.last() != '/',
    ensures
        usual_lock(Some(dir), other) == dir + "/"@ + "qmt/server.lock"@,
        usual_lock(None, Some(dir)) == dir + "/"@ + "qmt/server.lock"@,
        usual_lock(None, None) == "/tmp"@ + "/"@ + "qmt/server.lock"@,
{
    reveal_strlit("qmt/server.lock");
    reveal_strlit("/tmp");
}

/// A server that was started is ready once it accepts connections; until its time is over it is
/// asked again after a quarter of a second.
pub proof fn law_started_server_is_given_time(now_ms: u64, deadline_ms: u64)
    ensures
        readiness(true, now_ms, deadline_ms) is Ready,
        now_ms >= deadline_ms ==> readiness(false, now_ms, deadline_ms) is TimedOut,
        now_ms < deadline_ms ==> readiness(false, now_ms, deadline_ms) == (Readiness::AskAgain {
            after_ms: 250,
        }),
{
}

/// A server that was started has the time that is configured, or fifteen seconds; one that runs
/// is asked for every three seconds.
pub proof fn law_server_has_its_time(config: ServerManagerConfigView, ms: u64)
    ensures
        config.ready_timeout_ms == Some(ms) ==> errand(config, Phase::Readying)
            == (ErrandView::AwaitReady { timeout_ms: ms }),
        config.ready_timeout_ms is None ==> errand(config, Phase::Readying)
            == (ErrandView::AwaitReady { timeout_ms: 15000 }),
        errand(config, Phase::Watching) == (ErrandView::Rest { ms: 3000 }),
        errand(config, Phase::Resting { ms }) == (ErrandView::Rest { ms }),
        errand(config, Phase::Probing) is Probe,
        errand(config, Phase::Reprobing) is Probe,
        errand(config, Phase::Guarding) is AwaitExit,
{
}

} // verus!
