//! The local server: how it is found, started and watched.
use crate::paths::{join_path, path_joined};
use crate::text::{cat2, owned};
use vstd::prelude::*;

verus! {

/// What the supervisor of a local server reports.
#[derive(Debug, PartialEq, Eq)]
pub enum ServerEvent {
    /// It is about to start the server.
    Starting,
    /// The server accepts connections.
    Started,
    /// There is no server binary.
    BinaryNotFound,
    /// The server could not be started.
    StartFailed { error: String },
    /// The server went away.
    Stopped { reason: String },
}

#[verifier::ext_equal]
pub enum ServerEventView {
    Starting,
    Started,
    BinaryNotFound,
    StartFailed { error: Seq<char> },
    Stopped { reason: Seq<char> },
}

impl DeepView for ServerEvent {
    type V = ServerEventView;

    open spec fn deep_view(&self) -> ServerEventView {
        match self {
            ServerEvent::Starting => ServerEventView::Starting,
            ServerEvent::Started => ServerEventView::Started,
            ServerEvent::BinaryNotFound => ServerEventView::BinaryNotFound,
            ServerEvent::StartFailed { error } => ServerEventView::StartFailed {
                error: error@,
            },
            ServerEvent::Stopped { reason } => ServerEventView::Stopped {
                reason: reason@,
            },
        }
    }
}

/// The state of the local server.
#[derive(Debug, PartialEq, Eq)]
pub enum ServerState {
    /// No server is supervised.
    Disabled,
    /// There was no server binary at startup.
    BinaryNotFound,
    /// The server is being started.
    Starting,
    /// The server is running, whoever started it.
    Running,
    /// The server could not be started.
    StartFailed { error: String },
    /// The server went away and will be started again.
    Restarting { reason: String },
}

#[verifier::ext_equal]
pub enum ServerStateView {
    Disabled,
    BinaryNotFound,
    Starting,
    Running,
    StartFailed { error: Seq<char> },
    Restarting { reason: Seq<char> },
}

impl DeepView for ServerState {
    type V = ServerStateView;

    open spec fn deep_view(&self) -> ServerStateView {
        match self {
            ServerState::Disabled => ServerStateView::Disabled,
            ServerState::BinaryNotFound => ServerStateView::BinaryNotFound,
            ServerState::Starting => ServerStateView::Starting,
            ServerState::Running => ServerStateView::Running,
            ServerState::StartFailed { error } => ServerStateView::StartFailed {
                error: error@,
            },
            ServerState::Restarting { reason } => ServerStateView::Restarting {
                reason: reason@,
            },
        }
    }
}

impl Clone for ServerState {
    fn clone(&self) -> (r: Self)
        ensures
            r.deep_view() == self.deep_view(),
    {
        let r = match self {
            ServerState::Disabled => ServerState::Disabled,
            ServerState::BinaryNotFound => ServerState::BinaryNotFound,
            ServerState::Starting => ServerState::Starting,
            ServerState::Running => ServerState::Running,
            ServerState::StartFailed { error } => ServerState::StartFailed {
                error: error.clone(),
            },
            ServerState::Restarting { reason } => ServerState::Restarting {
                reason: reason.clone(),
            },
        };
        assert(r.deep_view() =~= self.deep_view());
        r
    }
}

/// What the supervisor is told about the server.
#[derive(Debug, PartialEq, Eq)]
pub struct ServerManagerConfig {
    pub addr: String,
    /// Arguments in place of the usual ones.
    pub binary_args: Vec<String>,
    /// Whether a server that was started is stopped on exit.
    pub shutdown_on_exit: bool,
    /// The lock file, in place of the usual one.
    pub lock_path: Option<String>,
    /// How long a started server may take to accept connections.
    pub ready_timeout_ms: Option<u64>,
}

#[verifier::ext_equal]
pub struct ServerManagerConfigView {
    pub addr: Seq<char>,
    pub binary_args: Seq<Seq<char>>,
    pub shutdown_on_exit: bool,
    pub lock_path: Option<Seq<char>>,
    pub ready_timeout_ms: Option<u64>,
}

impl DeepView for ServerManagerConfig {
    type V = ServerManagerConfigView;

    open spec fn deep_view(&self) -> ServerManagerConfigView {
        ServerManagerConfigView {
            addr: self.addr@,
            binary_args: self.binary_args.deep_view(),
            shutdown_on_exit: self.shutdown_on_exit,
            lock_path: self.lock_path.deep_view(),
            ready_timeout_ms: self.ready_timeout_ms,
        }
    }
}

// ── the lock file ────────────────────────────────────────────────────────────

/// The usual lock file: below the runtime directory, or the cache directory.
pub open spec fn usual_lock(runtime_dir: Option<Seq<char>>, cache_dir: Option<Seq<char>>) -> Seq<
    char,
> {
    let dir = if runtime_dir is Some {
        runtime_dir->0
    } else if cache_dir is Some {
        cache_dir->0
    } else {
        "/tmp"@
    };
    path_joined(dir, "qmt/server.lock"@)
}

/// The lock file that lets one program alone start the server.
pub fn default_lock_path(runtime_dir: &Option<String>, cache_dir: &Option<String>) -> (r: String)
    ensures
        r@ == usual_lock(runtime_dir.deep_view(), cache_dir.deep_view()),
{
    match (runtime_dir, cache_dir) {
        (Some(d), _) => join_path(d.as_str(), "qmt/server.lock"),
        (None, Some(d)) => join_path(d.as_str(), "qmt/server.lock"),
        (None, None) => join_path("/tmp", "qmt/server.lock"),
    }
}

// ── the binary ───────────────────────────────────────────────────────────────

/// How the search for the server binary went.
#[derive(Debug, PartialEq, Eq)]
pub struct BinaryDiscovery {
    pub binary: Option<String>,
    pub configured_path: Option<String>,
    pub configured_exists: bool,
    pub used_path_lookup: bool,
}

#[verifier::ext_equal]
pub struct BinaryDiscoveryView {
    pub binary: Option<Seq<char>>,
    pub configured_path: Option<Seq<char>>,
    pub configured_exists: bool,
    pub used_path_lookup: bool,
}

impl DeepView for BinaryDiscovery {
    type V = BinaryDiscoveryView;

    open spec fn deep_view(&self) -> BinaryDiscoveryView {
        BinaryDiscoveryView {
            binary: self.binary.deep_view(),
            configured_path: self.configured_path.deep_view(),
            configured_exists: self.configured_exists,
            used_path_lookup: self.used_path_lookup,
        }
    }
}

/// The configured binary where it exists; else the one found by name, where
/// running it by name works.
pub open spec fn discovery(
    configured: Option<Seq<char>>,
    exists_there: bool,
    on_path: bool,
) -> BinaryDiscoveryView {
    let found = configured is Some && exists_there;
    BinaryDiscoveryView {
        binary: if found {
            configured
        } else if on_path {
            Some("qmtcode"@)
        } else {
            None
        },
        configured_path: configured,
        configured_exists: found,
        used_path_lookup: !found,
    }
}

/// Finds the server binary, given whether the configured file exists and whether
/// `qmtcode` can be run by name.
pub fn find_binary_info(
    configured_path: Option<String>,
    configured_exists: bool,
    on_path: bool,
) -> (r: BinaryDiscovery)
    ensures
        r.deep_view() == discovery(configured_path.deep_view(), configured_exists, on_path),
{
    match configured_path {
        Some(p) => {
            if configured_exists {
                return BinaryDiscovery {
                    binary: Some(p.clone()),
                    configured_path: Some(p),
                    configured_exists: true,
                    used_path_lookup: false,
                };
            }
            BinaryDiscovery {
                binary: if on_path {
                    Some(owned("qmtcode"))
                } else {
                    None
                },
                configured_path: Some(p),
                configured_exists: false,
                used_path_lookup: true,
            }
        },
        None => BinaryDiscovery {
            binary: if on_path {
                Some(owned("qmtcode"))
            } else {
                None
            },
            configured_path: None,
            configured_exists: false,
            used_path_lookup: true,
        },
    }
}

/// The server binary.
pub fn find_binary(configured_path: Option<String>, configured_exists: bool, on_path: bool) -> (r:
    Option<String>)
    ensures
        r.deep_view() == discovery(
            configured_path.deep_view(),
            configured_exists,
            on_path,
        ).binary,
{
    find_binary_info(configured_path, configured_exists, on_path).binary
}

// ── starting ─────────────────────────────────────────────────────────────────

/// The arguments that the server is started with.
pub open spec fn spawn_args(addr: Seq<char>, extra: Seq<Seq<char>>) -> Seq<Seq<char>> {
    if extra.len() == 0 {
        seq!["--dashboard="@ + addr]
    } else {
        extra
    }
}

/// The arguments that the server is started with: by default where it listens.
pub fn build_spawn_args(addr: &str, extra_args: &Vec<String>) -> (r: Vec<String>)
    ensures
        r.deep_view() == spawn_args(addr@, extra_args.deep_view()),
{
    if extra_args.len() == 0 {
        let r: Vec<String> = vec![cat2("--dashboard=", addr)];
        assert(r.deep_view() =~= spawn_args(addr@, extra_args.deep_view()));
        r
    } else {
        let r = extra_args.clone();
        assert(r.deep_view() =~= extra_args.deep_view());
        r
    }
}

/// What to do after asking whether a started server accepts connections.
#[derive(Debug, Clone, Copy, PartialEq, Eq, Structural)]
pub enum Readiness {
    Ready,
    TimedOut,
    /// Ask again after some time.
    AskAgain { after_ms: u64 },
}

/// Whether a started server is ready, or is given more time.
#[verifier::allow_in_spec]
pub fn readiness(accepts: bool, now_ms: u64, deadline_ms: u64) -> Readiness
    returns
        (if accepts {
            Readiness::Ready
        } else if now_ms >= deadline_ms {
            Readiness::TimedOut
        } else {
            Readiness::AskAgain { after_ms: 250 }
        }),
{
    if accepts {
        Readiness::Ready
    } else if now_ms >= deadline_ms {
        Readiness::TimedOut
    } else {
        Readiness::AskAgain { after_ms: 250 }
    }
}

// ── supervision ──────────────────────────────────────────────────────────────

/// What the supervisor is at.
#[derive(Debug, Clone, Copy, PartialEq, Eq, Structural)]
pub enum Phase {
    /// Finding out whether a server is running.
    Probing,
    /// A server is running; some time passes before it is asked for again.
    Watching,
    /// Finding out whether the server is still running.
    Reprobing,
    /// Some time passes before the next attempt.
    Resting { ms: u64 },
    /// Starting the server.
    Spawning,
    /// The server was started and does not answer yet.
    Readying,
    /// The server runs as a child of this program.
    Guarding,
    /// Supervision is over; whether the child is to be stopped.
    Finished { kill: bool },
}

/// What happened.
#[derive(Debug, PartialEq, Eq)]
pub enum Happening {
    /// A server accepts connections.
    Up,
    /// No server does.
    Down,
    /// Time has passed.
    Rested,
    /// The child was started.
    Spawned,
    /// The child could not be started.
    SpawnFailed { error: String },
    /// The child accepts connections.
    Ready,
    /// The child did not do so in time.
    TimedOut,
    /// The child came to an end.
    Exited { status: String },
    /// The child could not be waited for.
    WaitFailed { error: String },
    /// The program is about to end.
    Shutdown,
}

#[verifier::ext_equal]
pub enum HappeningView {
    Up,
    Down,
    Rested,
    Spawned,
    SpawnFailed { error: Seq<char> },
    Ready,
    TimedOut,
    Exited { status: Seq<char> },
    WaitFailed { error: Seq<char> },
    Shutdown,
}

impl DeepView for Happening {
    type V = HappeningView;

    open spec fn deep_view(&self) -> HappeningView {
        match self {
            Happening::Up => HappeningView::Up,
            Happening::Down => HappeningView::Down,
            Happening::Rested => HappeningView::Rested,
            Happening::Spawned => HappeningView::Spawned,
            Happening::SpawnFailed { error } => HappeningView::SpawnFailed { error: error@ },
            Happening::Ready => HappeningView::Ready,
            Happening::TimedOut => HappeningView::TimedOut,
            Happening::Exited { status } => HappeningView::Exited { status: status@ },
            Happening::WaitFailed { error } => HappeningView::WaitFailed { error: error@ },
            Happening::Shutdown => HappeningView::Shutdown,
        }
    }
}

/// What is to be done next.
#[derive(Debug, PartialEq, Eq)]
pub enum Errand {
    /// Try to connect to the server.
    Probe,
    /// Let time pass.
    Rest { ms: u64 },
    /// Start the child.
    Spawn { args: Vec<String> },
    /// Wait until the child accepts connections.
    AwaitReady { timeout_ms: u64 },
    /// Wait until the child comes to an end.
    AwaitExit,
    /// Stop; whether the child is to be stopped.
    End { kill: bool },
}

#[verifier::ext_equal]
pub enum ErrandView {
    Probe,
    Rest { ms: u64 },
    Spawn { args: Seq<Seq<char>> },
    AwaitReady { timeout_ms: u64 },
    AwaitExit,
    End { kill: bool },
}

impl DeepView for Errand {
    type V = ErrandView;

    open spec fn deep_view(&self) -> ErrandView {
        match self {
            Errand::Probe => ErrandView::Probe,
            Errand::Rest { ms } => ErrandView::Rest { ms: *ms },
            Errand::Spawn { args } => ErrandView::Spawn { args: args.deep_view() },
            Errand::AwaitReady { timeout_ms } => ErrandView::AwaitReady {
                timeout_ms: *timeout_ms,
            },
            Errand::AwaitExit => ErrandView::AwaitExit,
            Errand::End { kill } => ErrandView::End { kill: *kill },
        }
    }
}

/// After finding that no server is running.
pub open spec fn after_down(owner: bool) -> Phase {
    if owner {
        Phase::Spawning
    } else {
        Phase::Resting { ms: 2000 }
    }
}

/// What the supervisor is at after something happened.  What does not concern
/// its phase changes nothing.
pub open spec fn next_phase(
    phase: Phase,
    owner: bool,
    shutdown_on_exit: bool,
    h: HappeningView,
) -> Phase {
    match (phase, h) {
        (Phase::Probing, HappeningView::Up) => Phase::Watching,
        (Phase::Probing, HappeningView::Down) => after_down(owner),
        (Phase::Watching, HappeningView::Rested) => Phase::Reprobing,
        (Phase::Watching, HappeningView::Shutdown) => Phase::Finished { kill: false },
        (Phase::Reprobing, HappeningView::Up) => Phase::Watching,
        (Phase::Reprobing, HappeningView::Down) => after_down(owner),
        (Phase::Resting { ms }, HappeningView::Rested) => Phase::Probing,
        (Phase::Resting { ms }, HappeningView::Shutdown) => Phase::Finished { kill: false },
        (Phase::Spawning, HappeningView::Spawned) => Phase::Readying,
        (Phase::Spawning, HappeningView::SpawnFailed { error }) => Phase::Resting { ms: 5000 },
        (Phase::Readying, HappeningView::Ready) => Phase::Guarding,
        (Phase::Readying, HappeningView::TimedOut) => Phase::Guarding,
        (Phase::Guarding, HappeningView::Exited { status }) => Phase::Resting { ms: 2000 },
        (Phase::Guarding, HappeningView::WaitFailed { error }) => Phase::Resting { ms: 2000 },
        (Phase::Guarding, HappeningView::Shutdown) => Phase::Finished { kill: shutdown_on_exit },
        _ => phase,
    }
}

/// What the supervisor reports when something happens.
pub open spec fn report(phase: Phase, owner: bool, h: HappeningView) -> Option<ServerEventView> {
    match (phase, h) {
        (Phase::Probing, HappeningView::Up) => Some(ServerEventView::Started),
        (Phase::Probing, HappeningView::Down) => if owner {
            Some(ServerEventView::Starting)
        } else {
            None
        },
        (Phase::Reprobing, HappeningView::Down) => if owner {
            Some(ServerEventView::Starting)
        } else {
            Some(
                ServerEventView::Stopped {
                    reason: "server went down (managed by another instance)"@,
                },
            )
        },
        (Phase::Spawning, HappeningView::SpawnFailed { error }) => Some(
            ServerEventView::StartFailed { error },
        ),
        (Phase::Readying, HappeningView::Ready) => Some(ServerEventView::Started),
        (Phase::Readying, HappeningView::TimedOut) => Some(
            ServerEventView::StartFailed { error: "server not responding after 15 s"@ },
        ),
        (Phase::Guarding, HappeningView::Exited { status }) => Some(
            ServerEventView::Stopped { reason: "exited: "@ + status },
        ),
        (Phase::Guarding, HappeningView::WaitFailed { error }) => Some(
            ServerEventView::Stopped { reason: "error: "@ + error },
        ),
        _ => None,
    }
}

/// What is to be done in a phase.
pub open spec fn errand(config: ServerManagerConfigView, phase: Phase) -> ErrandView {
    match phase {
        Phase::Probing => ErrandView::Probe,
        Phase::Watching => ErrandView::Rest { ms: 3000 },
        Phase::Reprobing => ErrandView::Probe,
        Phase::Resting { ms } => ErrandView::Rest { ms },
        Phase::Spawning => ErrandView::Spawn { args: spawn_args(config.addr, config.binary_args) },
        Phase::Readying => ErrandView::AwaitReady {
            timeout_ms: match config.ready_timeout_ms {
                Some(t) => t,
                None => 15000,
            },
        },
        Phase::Guarding => ErrandView::AwaitExit,
        Phase::Finished { kill } => ErrandView::End { kill },
    }
}

/// The supervisor of the local server.
#[derive(Debug)]
pub struct Supervisor {
    pub config: ServerManagerConfig,
    /// Whether this program holds the lock, and so may start the server.
    pub owner: bool,
    pub phase: Phase,
}

impl Supervisor {
    /// A supervisor that has done nothing yet.
    pub fn new(config: ServerManagerConfig, owner: bool) -> (r: Supervisor)
        ensures
            r.config.deep_view() == config.deep_view(),
            r.owner == owner,
            r.phase == Phase::Probing,
    {
        Supervisor { config, owner, phase: Phase::Probing }
    }

    /// What is to be done now.
    pub fn errand(&self) -> (r: Errand)
        ensures
            r.deep_view() == errand(self.config.deep_view(), self.phase),
    {
        match self.phase {
            Phase::Probing => Errand::Probe,
            Phase::Watching => Errand::Rest { ms: 3000 },
            Phase::Reprobing => Errand::Probe,
            Phase::Resting { ms } => Errand::Rest { ms },
            Phase::Spawning => Errand::Spawn {
                args: build_spawn_args(self.config.addr.as_str(), &self.config.binary_args),
            },
            Phase::Readying => Errand::AwaitReady {
                timeout_ms: match self.config.ready_timeout_ms {
                    Some(t) => t,
                    None => 15000,
                },
            },
            Phase::Guarding => Errand::AwaitExit,
            Phase::Finished { kill } => Errand::End { kill },
        }
    }

    /// Takes note of what happened, and reports it.
    pub fn supervise(&mut self, h: Happening) -> (r: Option<ServerEvent>)
        ensures
            final(self).config == old(self).config,
            final(self).owner == old(self).owner,
            final(self).phase == next_phase(
                old(self).phase,
                old(self).owner,
                old(self).config.shutdown_on_exit,
                h.deep_view(),
            ),
            r.deep_view() == report(old(self).phase, old(self).owner, h.deep_view()),
    {
        let phase = self.phase;
        match (phase, h) {
            (Phase::Probing, Happening::Up) => {
                self.phase = Phase::Watching;
                Some(ServerEvent::Started)
            },
            (Phase::Probing, Happening::Down) => {
                if self.owner {
                    self.phase = Phase::Spawning;
                    Some(ServerEvent::Starting)
                } else {
                    self.phase = Phase::Resting { ms: 2000 };
                    None
                }
            },
            (Phase::Watching, Happening::Rested) => {
                self.phase = Phase::Reprobing;
                None
            },
            (Phase::Watching, Happening::Shutdown) => {
                self.phase = Phase::Finished { kill: false };
                None
            },
            (Phase::Reprobing, Happening::Up) => {
                self.phase = Phase::Watching;
                None
            },
            (Phase::Reprobing, Happening::Down) => {
                if self.owner {
                    self.phase = Phase::Spawning;
                    Some(ServerEvent::Starting)
                } else {
                    self.phase = Phase::Resting { ms: 2000 };
                    Some(
                        ServerEvent::Stopped {
                            reason: owned("server went down (managed by another instance)"),
                        },
                    )
                }
            },
            (Phase::Resting { ms }, Happening::Rested) => {
                self.phase = Phase::Probing;
                None
            },
            (Phase::Resting { ms }, Happening::Shutdown) => {
                self.phase = Phase::Finished { kill: false };
                None
            },
            (Phase::Spawning, Happening::Spawned) => {
                self.phase = Phase::Readying;
                None
            },
            (Phase::Spawning, Happening::SpawnFailed { error }) => {
                self.phase = Phase::Resting { ms: 5000 };
                Some(ServerEvent::StartFailed { error })
            },
            (Phase::Readying, Happening::Ready) => {
                self.phase = Phase::Guarding;
                Some(ServerEvent::Started)
            },
            (Phase::Readying, Happening::TimedOut) => {
                self.phase = Phase::Guarding;
                Some(ServerEvent::StartFailed { error: owned("server not responding after 15 s") })
            },
            (Phase::Guarding, Happening::Exited { status }) => {
                self.phase = Phase::Resting { ms: 2000 };
                Some(ServerEvent::Stopped { reason: cat2("exited: ", status.as_str()) })
            },
            (Phase::Guarding, Happening::WaitFailed { error }) => {
                self.phase = Phase::Resting { ms: 2000 };
                Some(ServerEvent::Stopped { reason: cat2("error: ", error.as_str()) })
            },
            (Phase::Guarding, Happening::Shutdown) => {
                self.phase = Phase::Finished { kill: self.config.shutdown_on_exit };
                None
            },
            _ => None,
        }
    }
}

/// Whether a phase is one of a child of this program.
pub open spec fn has_child(phase: Phase) -> bool {
    phase is Spawning || phase is Readying || phase is Guarding
}

/// A program that does not hold the lock never comes to start a server.
pub proof fn law_only_the_owner_spawns(phase: Phase, shutdown_on_exit: bool, h: HappeningView)
    requires
        !has_child(phase),
    ensures
        !has_child(next_phase(phase, false, shutdown_on_exit, h)),
        report(phase, false, h) != Some(ServerEventView::Starting),
{
}

/// A server is started only after none was found running, and is announced.
pub proof fn law_spawn_after_probe(
    phase: Phase,
    owner: bool,
    shutdown_on_exit: bool,
    h: HappeningView,
)
    requires
        !(phase is Spawning),
        next_phase(phase, owner, shutdown_on_exit, h) is Spawning,
    ensures
        owner,
        h == HappeningView::Down,
        report(phase, owner, h) == Some(ServerEventView::Starting),
{
}

/// Whenever the supervisor waits, a shutdown ends it, and nothing that happens
/// later changes that.  The child is stopped only where this is asked for.
pub proof fn law_shutdown_ends(
    phase: Phase,
    owner: bool,
    shutdown_on_exit: bool,
    h: HappeningView,
)
    requires
        phase is Watching || phase is Resting || phase is Guarding,
    ensures
        ({
            let end = next_phase(phase, owner, shutdown_on_exit, HappeningView::Shutdown);
            &&& end == (Phase::Finished { kill: phase is Guarding && shutdown_on_exit })
            &&& next_phase(end, owner, shutdown_on_exit, h) == end
            &&& report(end, owner, h) is None
        }),
{
}

/// A child that came to an end is started again by its owner, unless a server
/// is running by then.
pub proof fn law_child_is_restarted(status: Seq<char>, shutdown_on_exit: bool)
    ensures
        ({
            let rest = next_phase(
                Phase::Guarding,
                true,
                shutdown_on_exit,
                HappeningView::Exited { status },
            );
            let probe = next_phase(rest, true, shutdown_on_exit, HappeningView::Rested);
            &&& next_phase(probe, true, shutdown_on_exit, HappeningView::Down) == Phase::Spawning
            &&& next_phase(probe, true, shutdown_on_exit, HappeningView::Up) == Phase::Watching
        }),
{
}

} // verus!
