//! The program around the state: how it starts, and how it reacts to what comes
//! in from the connection, the server and the local server's supervisor.
use crate::app::{App, AppView, ConnState, ConnectionEvent, ConnectionEventView, LogLevel, Screen};
use crate::cache::{TuiCache, TuiCacheView};
use crate::config::{TuiConfig, TuiConfigView};
use crate::handlers::{Outbox, OutboxView};
use crate::protocol::{ClientMsg, ClientMsgView, RawServerMsg, RawServerMsgView};
use crate::server_manager::{
    BinaryDiscovery, BinaryDiscoveryView, ServerEvent, ServerEventView, ServerManagerConfig,
    ServerManagerConfigView, ServerState, ServerStateView,
};
use crate::text::{cat2, cat3, copy_opt, owned, same};
use crate::theme::Base16Palette;
use vstd::prelude::*;

verus! {

// ── the command line ─────────────────────────────────────────────────────────

/// What `clap::Command::try_get_matches_from` makes of a command line: the values
/// of two options, or an exit code and a text.
pub uninterp spec fn options_parsed(
    program: (Seq<char>, Seq<char>, Seq<char>),
    first: (Seq<char>, Seq<char>, Seq<char>),
    second: (char, Seq<char>, Seq<char>, Seq<char>),
    group: Seq<char>,
    args: Seq<Seq<char>>,
) -> Result<(Option<Seq<char>>, Option<Seq<char>>), (i32, Seq<char>)>;

/// Small letters that spell no option that `clap` has of itself.
pub open spec fn free_name(s: Seq<char>) -> bool {
    &&& s.len() > 0
    &&& forall|i: int| 0 <= i < s.len() ==> 'a' <= #[trigger] s[i] <= 'z'
    &&& s != "help"@
    &&& s != "version"@
}

/// A text or an error, as plain values.
pub open spec fn options_view(
    r: Result<(Option<String>, Option<String>), (i32, String)>,
) -> Result<(Option<Seq<char>>, Option<Seq<char>>), (i32, Seq<char>)> {
    match r {
        Ok(v) => Ok((v.0.deep_view(), v.1.deep_view())),
        Err(e) => Err((e.0, e.1@)),
    }
}

/// `clap::Command::try_get_matches_from`, for a program with a name, a version and
/// a description, and two options that take a value: the first with a long name,
/// the second with a letter and a long name, each with the name that its value goes
/// by in the texts and with a help text.  The two options form a group, any number of
/// which may be given, under a name that no option has.  What comes out is a function
/// of these and of the command line.
#[verifier::external_body]
fn parse_options(
    program: (&'static str, &'static str, &'static str),
    first: (&'static str, &'static str, &'static str),
    second: (char, &'static str, &'static str, &'static str),
    group: &'static str,
    args: &Vec<String>,
) -> (r: Result<(Option<String>, Option<String>), (i32, String)>)
    requires
        free_name(first.0@),
        free_name(second.1@),
        first.0@ != second.1@,
        group@ != first.0@,
        group@ != second.1@,
        group@ != "help"@,
        group@ != "version"@,
        'a' <= second.0 <= 'z',
        second.0 != 'h',
    ensures
        options_view(r) == options_parsed(
            (program.0@, program.1@, program.2@),
            (first.0@, first.1@, first.2@),
            (second.0, second.1@, second.2@, second.3@),
            group@,
            args.deep_view(),
        ),
{
    clap::Command::new(program.0)
        .version(program.1)
        .about(program.2)
        .group(clap::ArgGroup::new(group).multiple(true).args([first.0, second.1]))
        .arg(clap::Arg::new(first.0).long(first.0).value_name(first.1).help(first.2))
        .arg(
            clap::Arg::new(second.1).short(second.0).long(second.1).value_name(second.2).help(
                second.3,
            ),
        )
        .try_get_matches_from(args)
        .map(|m| (m.get_one(first.0).cloned(), m.get_one(second.1).cloned()))
        .map_err(|e| (e.exit_code(), e.render().to_string()))
}

/// What the command line says.
#[derive(Debug, PartialEq, Eq)]
pub struct Cli {
    /// Server address, in place of the configured one.
    pub server: Option<String>,
    /// The session to restore.
    pub session: Option<String>,
}

#[verifier::ext_equal]
pub struct CliView {
    pub server: Option<Seq<char>>,
    pub session: Option<Seq<char>>,
}

impl DeepView for Cli {
    type V = CliView;

    open spec fn deep_view(&self) -> CliView {
        CliView { server: self.server.deep_view(), session: self.session.deep_view() }
    }
}

/// Why there is nothing to run: the command line is wrong, or asks for a text.
#[derive(Debug, PartialEq, Eq)]
pub struct CliError {
    pub code: i32,
    pub text: String,
}

#[verifier::ext_equal]
pub struct CliErrorView {
    pub code: i32,
    pub text: Seq<char>,
}

impl DeepView for CliError {
    type V = CliErrorView;

    open spec fn deep_view(&self) -> CliErrorView {
        CliErrorView { code: self.code, text: self.text@ }
    }
}

/// What a command line says, by what was made of it.
pub open spec fn cli_of(
    r: Result<(Option<Seq<char>>, Option<Seq<char>>), (i32, Seq<char>)>,
) -> Result<CliView, CliErrorView> {
    match r {
        Ok(v) => Ok(CliView { server: v.0, session: v.1 }),
        Err(e) => Err(CliErrorView { code: e.0, text: e.1 }),
    }
}

impl Cli {
    /// Takes the values of the two options.
    pub fn from_options(r: Result<(Option<String>, Option<String>), (i32, String)>) -> (c: Result<
        Cli,
        CliError,
    >)
        ensures
            (match c {
                Ok(c) => Ok(c.deep_view()),
                Err(e) => Err(e.deep_view()),
            }) == cli_of(options_view(r)),
    {
        match r {
            Ok(v) => Ok(Cli { server: v.0, session: v.1 }),
            Err(e) => Err(CliError { code: e.0, text: e.1 }),
        }
    }

    /// Reads the command line.
    pub fn try_parse_from(args: &Vec<String>, version: &'static str) -> (r: Result<Cli, CliError>)
        ensures
            (match r {
                Ok(c) => Ok(c.deep_view()),
                Err(e) => Err(e.deep_view()),
            }) == cli_of(
                options_parsed(
                    ("qmtui"@, version@, "querymt terminal interface"@),
                    (
                        "server"@,
                        "SERVER"@,
                        "Server address (e.g. 127.0.0.1:3030). Overrides the value in ~/.qmt/tui.toml"@,
                    ),
                    ('s', "session"@, "SESSION"@, "Restore a session by id"@),
                    "Cli"@,
                    args.deep_view(),
                ),
            ),
    {
        proof {
            reveal_strlit("server");
            reveal_strlit("session");
            reveal_strlit("help");
            reveal_strlit("version");
            reveal_strlit("Cli");
            assert("Cli"@.len() == 3 && "version"@.len() == 7);
            assert("server"@.len() == 6 && "session"@.len() == 7 && "help"@.len() == 4);
            assert("session"@[0] != "version"@[0]);
        }
        Cli::from_options(
            parse_options(
                ("qmtui", version, "querymt terminal interface"),
                (
                    "server",
                    "SERVER",
                    "Server address (e.g. 127.0.0.1:3030). Overrides the value in ~/.qmt/tui.toml",
                ),
                ('s', "session", "SESSION", "Restore a session by id"),
                "Cli",
                args,
            ),
        )
    }
}

/// How to come back to a session.
pub fn restore_hint(session_id: &str) -> (r: String)
    ensures
        r@ == "qmtui"@ + " -s "@ + session_id@,
{
    cat3("qmtui", " -s ", session_id)
}

// ── startup ──────────────────────────────────────────────────────────────────

/// Where the server is: as on the command line, as configured, or the usual place.
pub open spec fn server_addr(cli: Option<Seq<char>>, cfg: TuiConfigView) -> Seq<char> {
    if cli is Some {
        cli->0
    } else if cfg.server.addr is Some {
        cfg.server.addr->0
    } else {
        "127.0.0.1:42069"@
    }
}

/// The address of the server.
pub fn pick_addr(cli_server: &Option<String>, cfg: &TuiConfig) -> (r: String)
    ensures
        r@ == server_addr(cli_server.deep_view(), cfg.deep_view()),
{
    match cli_server {
        Some(a) => a.clone(),
        None => match &cfg.server.addr {
            Some(a) => a.clone(),
            None => owned("127.0.0.1:42069"),
        },
    }
}

/// Where the server takes connections.
pub open spec fn server_url(addr: Seq<char>, tls: bool) -> Seq<char> {
    (if tls {
        "wss"@
    } else {
        "ws"@
    }) + "://"@ + addr + "/ui/ws"@
}

/// Where the server takes connections: without encryption, unless configured.
pub fn pick_url(addr: &str, cfg: &TuiConfig) -> (r: String)
    ensures
        r@ == server_url(addr@, cfg.deep_view().server.tls == Some(true)),
{
    let scheme = match cfg.server.tls {
        Some(true) => "wss",
        _ => "ws",
    };
    let start = cat3(scheme, "://", addr);
    cat2(start.as_str(), "/ui/ws")
}

/// The theme that is shown at startup.
pub open spec fn startup_theme(cfg: TuiConfigView) -> Seq<char> {
    match cfg.theme {
        Some(t) => t,
        None => "base16-querymate"@,
    }
}

impl AppView {
    /// With what is known at startup.
    pub open spec fn started(
        self,
        cfg: TuiConfigView,
        launch_cwd: Option<Seq<char>>,
        session: Option<Seq<char>>,
        cache: TuiCacheView,
    ) -> AppView {
        let s = AppView {
            launch_cwd,
            show_thinking: cfg.show_thinking != Some(false),
            ..self
        };
        let t = match session {
            Some(id) => AppView { session_id: Some(id), screen: Screen::Chat, ..s },
            None => s,
        };
        t.hydrated(cache)
    }
}

/// The state at startup.
pub fn start_app(
    themes: Vec<Base16Palette>,
    cfg: &TuiConfig,
    launch_cwd: Option<String>,
    session: Option<String>,
    cache: &TuiCache,
) -> (r: App)
    requires
        themes@.len() > 0,
    ensures
        r@ == AppView::initial(themes.deep_view(), r@.theme).started(
            cfg.deep_view(),
            launch_cwd.deep_view(),
            session.deep_view(),
            cache.deep_view(),
        ),
        r@.theme.fits(themes.deep_view()),
        r@.theme.current == r@.theme.frame,
        ({
            let tv = themes.deep_view();
            let id = startup_theme(cfg.deep_view());
            let i = r@.theme.current as int;
            &&& tv[i].id == id || (i == 0 && forall|k: int|
                0 <= k < tv.len() ==> (#[trigger] tv[k]).id != id)
            &&& forall|k: int| 0 <= k < i ==> (#[trigger] tv[k]).id != id
        }),
        r@.wf(),
{
    let mut app = App::new(themes);
    match &cfg.theme {
        Some(t) => app.theme.init(&app.themes, t.as_str()),
        None => app.theme.init(&app.themes, "base16-querymate"),
    }
    app.launch_cwd = launch_cwd;
    app.show_thinking = match cfg.show_thinking {
        Some(b) => b,
        None => true,
    };
    if let Some(id) = session {
        app.session_id = Some(id);
        app.screen = Screen::Chat;
    }
    cache.hydrate_app(&mut app);
    app
}

impl AppView {
    /// With notes on how the search for the server binary went.
    pub open spec fn search_logged(self, cfg: TuiConfigView, d: BinaryDiscoveryView) -> AppView {
        if !d.used_path_lookup {
            self
        } else {
            let s = if d.configured_path is Some {
                self.logged(
                    LogLevel::Info,
                    "server"@,
                    "configured qmtcode path not found: "@ + d.configured_path->0
                        + "; checking PATH"@,
                )
            } else if cfg.server.binary_path is None {
                self.logged(
                    LogLevel::Info,
                    "server"@,
                    "server.binary_path not set; checking qmtcode on PATH"@,
                )
            } else {
                self
            };
            if d.binary is None {
                s.logged(LogLevel::Info, "server"@, "qmtcode not found on PATH"@)
            } else {
                s
            }
        }
    }
}

/// Notes how the search for the server binary went.
pub fn log_server_binary_discovery(app: &mut App, cfg: &TuiConfig, discovery: &BinaryDiscovery)
    ensures
        final(app)@ == old(app)@.search_logged(cfg.deep_view(), discovery.deep_view()),
{
    if !discovery.used_path_lookup {
        return;
    }
    match &discovery.configured_path {
        Some(path) => {
            app.push_log(
                LogLevel::Info,
                "server",
                cat3(
                    "configured qmtcode path not found: ",
                    path.as_str(),
                    "; checking PATH",
                ).as_str(),
            );
        },
        None => {
            if cfg.server.binary_path.is_none() {
                app.push_log(
                    LogLevel::Info,
                    "server",
                    "server.binary_path not set; checking qmtcode on PATH",
                );
            }
        },
    }
    if discovery.binary.is_none() {
        app.push_log(LogLevel::Info, "server", "qmtcode not found on PATH");
    }
}

/// Whether a local server is to be started where none is running.
pub fn wants_auto_start(cfg: &TuiConfig) -> (r: bool)
    ensures
        r == (cfg.deep_view().server.auto_start != Some(false)),
{
    match cfg.server.auto_start {
        Some(b) => b,
        None => true,
    }
}

/// What the supervisor is told.
pub open spec fn supervisor_config(cfg: TuiConfigView, addr: Seq<char>) -> ServerManagerConfigView {
    ServerManagerConfigView {
        addr,
        binary_args: match cfg.server.binary_args {
            Some(a) => a,
            None => Seq::empty(),
        },
        shutdown_on_exit: cfg.server.shutdown_on_exit != Some(false),
        lock_path: None,
        ready_timeout_ms: None,
    }
}

/// What becomes of the local server at startup.
#[derive(Debug, PartialEq, Eq)]
pub enum Launch {
    /// None is wanted.
    Off,
    /// There is no binary, which is to be reported.
    Missing,
    /// A supervisor is to be run.
    Supervise { binary: String, config: ServerManagerConfig },
}

#[verifier::ext_equal]
pub enum LaunchView {
    Off,
    Missing,
    Supervise { binary: Seq<char>, config: ServerManagerConfigView },
}

impl DeepView for Launch {
    type V = LaunchView;

    open spec fn deep_view(&self) -> LaunchView {
        match self {
            Launch::Off => LaunchView::Off,
            Launch::Missing => LaunchView::Missing,
            Launch::Supervise { binary, config } => LaunchView::Supervise {
                binary: binary@,
                config: config.deep_view(),
            },
        }
    }
}

/// What becomes of the local server, by what was found where one is wanted.
pub open spec fn launch(
    cfg: TuiConfigView,
    addr: Seq<char>,
    d: Option<BinaryDiscoveryView>,
) -> LaunchView {
    match d {
        None => LaunchView::Off,
        Some(d) => match d.binary {
            Some(binary) => LaunchView::Supervise { binary, config: supervisor_config(cfg, addr) },
            None => LaunchView::Missing,
        },
    }
}

impl AppView {
    /// With the local server as it is planned.
    pub open spec fn launched(self, cfg: TuiConfigView, d: Option<BinaryDiscoveryView>) -> AppView {
        match d {
            None => AppView { server_state: ServerStateView::Disabled, ..self },
            Some(d) => AppView {
                server_state: if d.binary is Some {
                    ServerStateView::Starting
                } else {
                    ServerStateView::BinaryNotFound
                },
                ..self.search_logged(cfg, d)
            },
        }
    }
}

/// Plans the local server, by what was found where one is wanted.
pub fn plan_server(
    app: &mut App,
    cfg: &TuiConfig,
    addr: &str,
    discovery: Option<BinaryDiscovery>,
) -> (r: Launch)
    ensures
        r.deep_view() == launch(cfg.deep_view(), addr@, discovery.deep_view()),
        final(app)@ == old(app)@.launched(cfg.deep_view(), discovery.deep_view()),
{
    match discovery {
        None => {
            app.server_state = ServerState::Disabled;
            Launch::Off
        },
        Some(d) => {
            log_server_binary_discovery(app, cfg, &d);
            match d.binary {
                Some(binary) => {
                    app.server_state = ServerState::Starting;
                    let binary_args: Vec<String> = match &cfg.server.binary_args {
                        Some(a) => {
                            let c = a.clone();
                            assert(c.deep_view() =~= a.deep_view());
                            c
                        },
                        None => {
                            let c: Vec<String> = Vec::new();
                            assert(c.deep_view() =~= Seq::empty());
                            c
                        },
                    };
                    Launch::Supervise {
                        binary,
                        config: ServerManagerConfig {
                            addr: owned(addr),
                            binary_args,
                            shutdown_on_exit: match cfg.server.shutdown_on_exit {
                                Some(b) => b,
                                None => true,
                            },
                            lock_path: None,
                            ready_timeout_ms: None,
                        },
                    }
                },
                None => {
                    app.server_state = ServerState::BinaryNotFound;
                    Launch::Missing
                },
            }
        },
    }
}

// ── reactions ────────────────────────────────────────────────────────────────

impl AppView {
    /// With one more turn of the loop.
    pub open spec fn ticked(self) -> AppView {
        let s = AppView { tick: self.tick.wrapping_add(1), ..self };
        if s.pending_cancel_confirm_until is Some && !s.confirming() {
            s.without_confirm().status_refreshed()
        } else {
            s
        }
    }

    /// What is sent on a new connection: what is shown first, and the session that
    /// is open.
    pub open spec fn greetings(self) -> Seq<ClientMsgView> {
        let first = seq![
            ClientMsgView::Init,
            ClientMsgView::ListAllModels { refresh: false },
            ClientMsgView::GetAgentMode,
        ];
        match self.session_id {
            Some(id) => first + seq![
                ClientMsgView::LoadSession { session_id: id },
                ClientMsgView::SubscribeSession { session_id: id, agent_id: self.agent_id },
            ],
            None => first,
        }
    }

    /// After something happened to the connection.
    pub open spec fn link_changed(self, event: ConnectionEventView) -> AppView {
        let s = self.connection(event);
        if self.conn == ConnState::Connected && s.conn == ConnState::Disconnected {
            s.with_status(
                LogLevel::Warn,
                "connection"@,
                "connection lost - reconnecting..."@,
            )
        } else {
            s
        }
    }

    /// After the supervisor of the local server reported something.
    pub open spec fn server_reported(self, event: ServerEventView) -> AppView {
        let s = AppView { server_state: state_after(event), ..self };
        match note_on(event, self.conn != ConnState::Connected) {
            Some(note) => s.with_status(note.0, "server"@, note.1),
            None => s,
        }
    }
}

/// The state of the local server after a report.
pub open spec fn state_after(event: ServerEventView) -> ServerStateView {
    match event {
        ServerEventView::Starting => ServerStateView::Starting,
        ServerEventView::Started => ServerStateView::Running,
        ServerEventView::BinaryNotFound => ServerStateView::BinaryNotFound,
        ServerEventView::StartFailed { error } => ServerStateView::StartFailed { error },
        ServerEventView::Stopped { reason } => ServerStateView::Restarting { reason },
    }
}

/// What the status line says of a report.  While there is a connection, only
/// failures are worth a note.
pub open spec fn note_on(event: ServerEventView, away: bool) -> Option<(LogLevel, Seq<char>)> {
    match event {
        ServerEventView::StartFailed { error } => Some(
            (LogLevel::Error, "server start failed: "@ + error),
        ),
        ServerEventView::Stopped { reason } => Some(
            (LogLevel::Warn, "server stopped ("@ + reason + ") — restarting..."@),
        ),
        _ => if !away {
            None
        } else {
            match event {
                ServerEventView::Starting => Some(
                    (LogLevel::Info, "starting local server..."@),
                ),
                ServerEventView::Started => Some(
                    (LogLevel::Info, "local server started — connecting..."@),
                ),
                _ => Some(
                    (
                        LogLevel::Warn,
                        "qmtcode not found — install it or set server.binary_path in ~/.qmt/tui.toml"@,
                    ),
                ),
            }
        },
    }
}

/// Begins a turn of the loop.
pub fn tick(app: &mut App)
    ensures
        final(app)@ == old(app)@.ticked(),
        old(app)@.wf() ==> final(app)@.wf(),
{
    app.tick = app.tick.wrapping_add(1);
    app.clear_expired_cancel_confirm();
}

/// Reacts to what happened to the connection.
pub fn on_connection_event(app: &mut App, event: ConnectionEvent, out: &mut Outbox)
    ensures
        final(app)@ == old(app)@.link_changed(event.deep_view()),
        final(out).deep_view() == (if final(app)@.conn == ConnState::Connected {
            old(out).deep_view().sent_all(final(app)@.greetings())
        } else {
            old(out).deep_view()
        }),
        old(app)@.wf() ==> final(app)@.wf(),
{
    let was_connected = app.conn == ConnState::Connected;
    app.handle_connection_event(event);
    if app.conn == ConnState::Connected {
        let ghost before = out.deep_view();
        out.send(ClientMsg::Init);
        out.send(ClientMsg::ListAllModels { refresh: false });
        out.send(ClientMsg::GetAgentMode);
        if let Some(id) = &app.session_id {
            out.send(ClientMsg::LoadSession { session_id: id.clone() });
            out.send(
                ClientMsg::SubscribeSession {
                    session_id: id.clone(),
                    agent_id: copy_opt(&app.agent_id),
                },
            );
        }
        assert(out.deep_view() =~= before.sent_all(app@.greetings()));
    } else if was_connected && app.conn == ConnState::Disconnected {
        app.set_status(LogLevel::Warn, "connection", "connection lost - reconnecting...");
    }
}

/// A message, with a subscription behind it where it loads a session.
pub open spec fn with_subscription(m: ClientMsgView, agent_id: Option<Seq<char>>) -> Seq<
    ClientMsgView,
> {
    match m {
        ClientMsgView::LoadSession { session_id } => seq![
            m,
            ClientMsgView::SubscribeSession { session_id, agent_id },
        ],
        _ => seq![m],
    }
}

/// Messages, with a subscription behind each that loads a session.
pub open spec fn with_subscriptions(m: Seq<ClientMsgView>, agent_id: Option<Seq<char>>) -> Seq<
    ClientMsgView,
>
    decreases m.len(),
{
    if m.len() == 0 {
        Seq::empty()
    } else {
        with_subscriptions(m.drop_last(), agent_id) + with_subscription(m.last(), agent_id)
    }
}

/// What is done about a message of the server.
pub open spec fn message_turn(app: AppView, out: OutboxView, raw: RawServerMsgView) -> (
    AppView,
    OutboxView,
) {
    let (s, replies) = app.message(raw);
    let o = out.sent_all(with_subscriptions(replies, s.agent_id));
    (
        s,
        if raw.msg_type == "reasoning_effort"@ {
            o.saving_cache()
        } else {
            o
        },
    )
}

/// Reacts to a message of the server.
pub fn on_server_message(app: &mut App, raw: RawServerMsg, out: &mut Outbox)
    ensures
        (final(app)@, final(out).deep_view()) == message_turn(
            old(app)@,
            old(out).deep_view(),
            raw.deep_view(),
        ),
        old(app)@.wf() ==> final(app)@.wf(),
{
    let is_effort_push = same(raw.msg_type.as_str(), "reasoning_effort");
    let ghost start = out.deep_view();
    let mut replies = app.handle_server_msg(raw);
    let ghost rv = replies.deep_view();
    let ghost agent = app@.agent_id;
    let ghost mut i: int = 0;
    assert(start.sent_all(with_subscriptions(rv.take(0), agent)) =~= start);
    assert(rv.skip(0) =~= rv);
    while replies.len() > 0
        invariant
            agent == app@.agent_id,
            0 <= i <= rv.len(),
            replies.deep_view() == rv.skip(i),
            out.deep_view() == start.sent_all(with_subscriptions(rv.take(i), agent)),
        decreases replies@.len(),
    {
        let ghost before = out.deep_view();
        assert(rv.skip(i).len() == replies@.len());
        assert(rv[i] == rv.skip(i)[0]);
        assert(rv[i] == replies@[0].deep_view());
        let ghost old_replies = replies@;
        let reply = replies.remove(0);
        let follow = match &reply {
            ClientMsg::LoadSession { session_id } => Some(
                ClientMsg::SubscribeSession {
                    session_id: session_id.clone(),
                    agent_id: copy_opt(&app.agent_id),
                },
            ),
            _ => None,
        };
        out.send(reply);
        if let Some(m) = follow {
            out.send(m);
        }
        proof {
            let next = rv.take(i + 1);
            assert(next.drop_last() =~= rv.take(i));
            assert(next.last() == rv[i]);
            assert(out.deep_view() =~= before.sent_all(with_subscription(rv[i], agent)));
            assert(out.deep_view() =~= start.sent_all(with_subscriptions(next, agent)));
            assert forall|k: int| 0 <= k < replies@.len() implies replies.deep_view()[k]
                == rv.skip(i + 1)[k] by {
                assert(rv.skip(i)[k + 1] == old_replies[k + 1].deep_view());
            }
            assert(replies.deep_view() =~= rv.skip(i + 1));
            i = i + 1;
        }
    }
    proof {
        assert(rv.skip(i).len() == 0);
        assert(rv.take(i) =~= rv);
    }
    if is_effort_push {
        out.save_cache = true;
    }
}

fn server_note(event: &ServerEvent, away: bool) -> (r: Option<(LogLevel, String)>)
    ensures
        match r {
            Some(n) => note_on(event.deep_view(), away) == Some((n.0, n.1@)),
            None => note_on(event.deep_view(), away) is None,
        },
{
    match event {
        ServerEvent::StartFailed { error } => Some(
            (LogLevel::Error, cat2("server start failed: ", error.as_str())),
        ),
        ServerEvent::Stopped { reason } => Some(
            (LogLevel::Warn, cat3("server stopped (", reason.as_str(), ") — restarting...")),
        ),
        _ => if !away {
            None
        } else {
            match event {
                ServerEvent::Starting => Some(
                    (LogLevel::Info, owned("starting local server...")),
                ),
                ServerEvent::Started => Some(
                    (LogLevel::Info, owned("local server started — connecting...")),
                ),
                _ => Some(
                    (
                        LogLevel::Warn,
                        owned(
                            "qmtcode not found — install it or set server.binary_path in ~/.qmt/tui.toml",
                        ),
                    ),
                ),
            }
        },
    }
}

fn server_state_after(event: ServerEvent) -> (r: ServerState)
    ensures
        r.deep_view() == state_after(event.deep_view()),
{
    match event {
        ServerEvent::Starting => ServerState::Starting,
        ServerEvent::Started => ServerState::Running,
        ServerEvent::BinaryNotFound => ServerState::BinaryNotFound,
        ServerEvent::StartFailed { error } => ServerState::StartFailed { error },
        ServerEvent::Stopped { reason } => ServerState::Restarting { reason },
    }
}

/// Reacts to a report of the supervisor of the local server.
pub fn on_server_event(app: &mut App, event: ServerEvent)
    ensures
        final(app)@ == old(app)@.server_reported(event.deep_view()),
        old(app)@.wf() ==> final(app)@.wf(),
{
    let note = server_note(&event, app.conn != ConnState::Connected);
    app.server_state = server_state_after(event);
    if let Some(n) = note {
        app.set_status(n.0, "server", n.1.as_str());
    }
}

// ── laws ─────────────────────────────────────────────────────────────────────

/// After a connection was lost and made again, the session that was open is
/// loaded and subscribed to.
pub proof fn law_open_session_survives_a_reconnect(app: AppView, reason: Seq<char>)
    requires
        app.session_id is Some,
    ensures
        ({
            let lost = app.link_changed(ConnectionEventView::Disconnected { reason });
            let back = lost.link_changed(ConnectionEventView::Connected);
            &&& lost.conn == ConnState::Disconnected
            &&& back.conn == ConnState::Connected
            &&& back.session_id == app.session_id
            &&& back.greetings().contains(
                ClientMsgView::LoadSession { session_id: app.session_id->0 },
            )
            &&& back.greetings().contains(
                ClientMsgView::SubscribeSession {
                    session_id: app.session_id->0,
                    agent_id: app.agent_id,
                },
            )
        }),
{
    let lost = app.link_changed(ConnectionEventView::Disconnected { reason });
    let back = lost.link_changed(ConnectionEventView::Connected);
    assert(back.greetings()[3] == ClientMsgView::LoadSession { session_id: app.session_id->0 });
    assert(back.greetings()[4] == ClientMsgView::SubscribeSession {
        session_id: app.session_id->0,
        agent_id: app.agent_id,
    });
}

/// While connected, a local server that starts or runs is not reported in the
/// status line.
pub proof fn law_reports_do_not_disturb(app: AppView, event: ServerEventView)
    requires
        app.conn == ConnState::Connected,
        event is Starting || event is Started || event is BinaryNotFound,
    ensures
        app.server_reported(event).status == app.status,
        app.server_reported(event).logs == app.logs,
{
}

} // verus!
