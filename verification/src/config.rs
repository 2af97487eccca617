//! What is kept between runs: the configuration and the session cache.
use crate::app::{App, AppView};
use crate::json::{entries_of, lookup, value_tree, Json, JsonView};
use crate::paths::{join_path, path_joined};
use crate::strmap::StrMap;
use crate::text::owned;
use crate::toml_file::{
    bool_field, few_quotes, lemma_part_is_short, lemma_puts, lemma_texts_read_back, opt_bool_tree,
    opt_text_tree, opt_texts_tree, part, put, put_bool, put_text, put_texts, read_bool, read_part,
    read_text, read_texts, read_toml, short_quote_runs, storable, storable_entries, storable_file,
    table, table_text, text_field, texts_field, texts_tree, toml_parsed, write_table,
};
use vstd::prelude::*;

verus! {

// ── storage ──────────────────────────────────────────────────────────────────

/// The files of the program, and where they belong.
pub struct Storage {
    /// Texts by path.
    pub files: StrMap<String>,
    /// The user's home directory, where it is known.
    pub home_dir: Option<String>,
    /// The user's cache directory, where it is known.
    pub cache_dir: Option<String>,
    /// A path for the configuration in place of the usual one.
    pub config_path: Option<String>,
    /// A path for the session cache in place of the usual one.
    pub cache_path: Option<String>,
}

#[verifier::ext_equal]
pub struct StorageView {
    pub files: Map<Seq<char>, Seq<char>>,
    pub home_dir: Option<Seq<char>>,
    pub cache_dir: Option<Seq<char>>,
    pub config_path: Option<Seq<char>>,
    pub cache_path: Option<Seq<char>>,
}

impl View for Storage {
    type V = StorageView;

    open spec fn view(&self) -> StorageView {
        StorageView {
            files: self.files.deep_view(),
            home_dir: self.home_dir.deep_view(),
            cache_dir: self.cache_dir.deep_view(),
            config_path: self.config_path.deep_view(),
            cache_path: self.cache_path.deep_view(),
        }
    }
}

/// A relative path below a directory, or below the current one.
pub open spec fn below_or_here(dir: Option<Seq<char>>, rest: Seq<char>) -> Seq<char> {
    match dir {
        Some(d) => path_joined(d, rest),
        None => path_joined("."@, rest),
    }
}

impl StorageView {
    /// Where the configuration is kept.
    pub open spec fn config_place(self) -> Seq<char> {
        match self.config_path {
            Some(p) => p,
            None => below_or_here(self.home_dir, ".qmt/tui.toml"@),
        }
    }

    /// Where the session cache is kept.
    pub open spec fn cache_place(self) -> Seq<char> {
        match self.cache_path {
            Some(p) => p,
            None => below_or_here(self.cache_dir, "qmt/tui-cache.toml"@),
        }
    }

    /// The table in a file, where there is one.
    pub open spec fn table_at(self, path: Seq<char>) -> Option<JsonView> {
        if self.files.contains_key(path) {
            toml_parsed(self.files[path])
        } else {
            None
        }
    }

    /// With a text put in a file, where there is one.
    pub open spec fn stored(self, path: Seq<char>, text: Option<Seq<char>>) -> StorageView {
        match text {
            Some(t) => StorageView { files: self.files.insert(path, t), ..self },
            None => self,
        }
    }
}

pub(crate) fn join_or_here(dir: &Option<String>, rest: &str) -> (r: String)
    ensures
        r@ == below_or_here(dir.deep_view(), rest@),
{
    match dir {
        Some(d) => join_path(d.as_str(), rest),
        None => join_path(".", rest),
    }
}

impl Storage {
    /// Storage without files.
    pub fn new(home_dir: Option<String>, cache_dir: Option<String>) -> (r: Storage)
        ensures
            r@ == (StorageView {
                files: Map::empty(),
                home_dir: home_dir.deep_view(),
                cache_dir: cache_dir.deep_view(),
                config_path: None,
                cache_path: None,
            }),
    {
        Storage {
            files: StrMap::new(),
            home_dir,
            cache_dir,
            config_path: None,
            cache_path: None,
        }
    }

    /// Reads the table in a file.
    pub fn read_table(&self, path: &str) -> (r: Option<Json>)
        ensures
            match r {
                Some(j) => self@.table_at(path@) == Some(j.tree()),
                None => self@.table_at(path@) is None,
            },
    {
        match self.files.get(path) {
            Some(text) => read_toml(text.as_str()),
            None => None,
        }
    }

    /// Puts a text in a file, where there is one.
    pub fn store(&mut self, path: &str, text: Option<String>)
        ensures
            final(self)@ == old(self)@.stored(path@, text.deep_view()),
    {
        if let Some(t) = text {
            self.files.insert(owned(path), t);
        }
    }
}

/// Keeps the configuration at a path of its own, or at the usual one.
pub fn test_set_config_path_override(storage: &mut Storage, path: Option<String>)
    ensures
        final(storage)@ == (StorageView { config_path: path.deep_view(), ..old(storage)@ }),
{
    storage.config_path = path;
}

/// Keeps the session cache at a path of its own, or at the usual one.
pub fn test_set_cache_path_override(storage: &mut Storage, path: Option<String>)
    ensures
        final(storage)@ == (StorageView { cache_path: path.deep_view(), ..old(storage)@ }),
{
    storage.cache_path = path;
}

// ── configuration ────────────────────────────────────────────────────────────

/// How the server is reached and started.
#[derive(Debug, PartialEq, Eq)]
pub struct ServerConfig {
    pub addr: Option<String>,
    pub tls: Option<bool>,
    /// The program that is started as server.
    pub binary_path: Option<String>,
    /// Its arguments, in place of the usual ones.
    pub binary_args: Option<Vec<String>>,
    /// Whether a server is started where none is running.
    pub auto_start: Option<bool>,
    /// Whether a server that was started is stopped on exit.
    pub shutdown_on_exit: Option<bool>,
}

#[verifier::ext_equal]
pub struct ServerConfigView {
    pub addr: Option<Seq<char>>,
    pub tls: Option<bool>,
    pub binary_path: Option<Seq<char>>,
    pub binary_args: Option<Seq<Seq<char>>>,
    pub auto_start: Option<bool>,
    pub shutdown_on_exit: Option<bool>,
}

impl DeepView for ServerConfig {
    type V = ServerConfigView;

    open spec fn deep_view(&self) -> ServerConfigView {
        ServerConfigView {
            addr: self.addr.deep_view(),
            tls: self.tls,
            binary_path: self.binary_path.deep_view(),
            binary_args: self.binary_args.deep_view(),
            auto_start: self.auto_start,
            shutdown_on_exit: self.shutdown_on_exit,
        }
    }
}

impl ServerConfigView {
    /// Nothing set.
    pub open spec fn unset() -> ServerConfigView {
        ServerConfigView {
            addr: None,
            tls: None,
            binary_path: None,
            binary_args: None,
            auto_start: None,
            shutdown_on_exit: None,
        }
    }

    /// No text has too many quotes in a row.
    pub open spec fn few_quotes(self) -> bool {
        &&& self.addr is Some ==> few_quotes(self.addr->0)
        &&& self.binary_path is Some ==> few_quotes(self.binary_path->0)
        &&& self.binary_args is Some ==> forall|i: int|
            0 <= i < self.binary_args->0.len() ==> few_quotes(#[trigger] self.binary_args->0[i])
    }

    /// Whether a table says this.
    pub open spec fn is_table(self, t: JsonView) -> bool {
        &&& t is Object
        &&& forall|k: Seq<char>| #[trigger] t.get(k) == self.entry(k)
    }

    /// What stands under a key.
    pub open spec fn entry(self, k: Seq<char>) -> Option<JsonView> {
        if k == "addr"@ {
            opt_text_tree(self.addr)
        } else if k == "tls"@ {
            opt_bool_tree(self.tls)
        } else if k == "binary_path"@ {
            opt_text_tree(self.binary_path)
        } else if k == "binary_args"@ {
            opt_texts_tree(self.binary_args)
        } else if k == "auto_start"@ {
            opt_bool_tree(self.auto_start)
        } else if k == "shutdown_on_exit"@ {
            opt_bool_tree(self.shutdown_on_exit)
        } else {
            None
        }
    }
}

/// What a record says of the server; nothing where it is no such record.
pub open spec fn server_config_of(t: JsonView) -> Option<ServerConfigView> {
    let addr = text_field(t, "addr"@, 0);
    let tls = bool_field(t, "tls"@, 1);
    let path = text_field(t, "binary_path"@, 2);
    let args = texts_field(t, "binary_args"@, 3);
    let auto_start = bool_field(t, "auto_start"@, 4);
    let shutdown = bool_field(t, "shutdown_on_exit"@, 5);
    if (t is Object || t is Array) && addr is Some && tls is Some && path is Some && args is Some
        && auto_start is Some && shutdown is Some {
        Some(
            ServerConfigView {
                addr: addr->0,
                tls: tls->0,
                binary_path: path->0,
                binary_args: args->0,
                auto_start: auto_start->0,
                shutdown_on_exit: shutdown->0,
            },
        )
    } else {
        None
    }
}

impl Default for ServerConfig {
    fn default() -> (r: Self)
        ensures
            r.deep_view() == ServerConfigView::unset(),
    {
        ServerConfig {
            addr: None,
            tls: None,
            binary_path: None,
            binary_args: None,
            auto_start: None,
            shutdown_on_exit: None,
        }
    }
}

proof fn lemma_server_keys()
    ensures
        "addr"@.len() == 4,
        "tls"@.len() == 3,
        "binary_path"@.len() == 11,
        "binary_args"@.len() == 11,
        "auto_start"@.len() == 10,
        "shutdown_on_exit"@.len() == 16,
        "binary_path"@ != "binary_args"@,
{
    reveal_strlit("addr");
    reveal_strlit("tls");
    reveal_strlit("binary_path");
    reveal_strlit("binary_args");
    reveal_strlit("auto_start");
    reveal_strlit("shutdown_on_exit");
    assert("binary_path"@[7] != "binary_args"@[7]);
}

/// A record is said again by its table.
proof fn lemma_server_read_back(s: ServerConfigView, t: JsonView)
    requires
        s.is_table(t),
    ensures
        server_config_of(t) == Some(s),
{
    lemma_server_keys();
    assert(t.get("addr"@) == s.entry("addr"@));
    assert(t.get("tls"@) == s.entry("tls"@));
    assert(t.get("binary_path"@) == s.entry("binary_path"@));
    assert(t.get("binary_args"@) == s.entry("binary_args"@));
    assert(t.get("auto_start"@) == s.entry("auto_start"@));
    assert(t.get("shutdown_on_exit"@) == s.entry("shutdown_on_exit"@));
    if let Some(a) = s.binary_args {
        lemma_texts_read_back(a);
    }
}

proof fn lemma_short_server(s: ServerConfigView, t: JsonView)
    requires
        s.is_table(t),
        short_quote_runs(t),
    ensures
        s.few_quotes(),
{
    lemma_server_keys();
    assert(t.get("addr"@) == s.entry("addr"@));
    assert(t.get("binary_path"@) == s.entry("binary_path"@));
    assert(t.get("binary_args"@) == s.entry("binary_args"@));
    if s.addr is Some {
        lemma_part_is_short(t, "addr"@);
    }
    if s.binary_path is Some {
        lemma_part_is_short(t, "binary_path"@);
    }
    if let Some(a) = s.binary_args {
        lemma_part_is_short(t, "binary_args"@);
        let list = texts_tree(a)->Array_0;
        assert forall|i: int| 0 <= i < a.len() implies few_quotes(#[trigger] a[i]) by {
            assert(short_quote_runs(list[i]));
            assert(list[i] == JsonView::Text(a[i]));
        }
    }
}

fn read_server_config(t: &Json) -> (r: Option<ServerConfig>)
    ensures
        r.deep_view() == server_config_of(t.tree()),
{
    match t {
        Json::Object(_) => {},
        Json::Array(_) => {},
        _ => {
            return None;
        },
    }
    let addr = read_text(t, "addr", 0);
    let tls = read_bool(t, "tls", 1);
    let path = read_text(t, "binary_path", 2);
    let args = read_texts(t, "binary_args", 3);
    let auto_start = read_bool(t, "auto_start", 4);
    let shutdown = read_bool(t, "shutdown_on_exit", 5);
    match (addr, tls, path, args, auto_start, shutdown) {
        (
            Some(addr),
            Some(tls),
            Some(binary_path),
            Some(binary_args),
            Some(auto_start),
            Some(shutdown_on_exit),
        ) => Some(
            ServerConfig { addr, tls, binary_path, binary_args, auto_start, shutdown_on_exit },
        ),
        _ => None,
    }
}

fn server_table(s: &ServerConfig) -> (r: serde_json::Value)
    ensures
        s.deep_view().is_table(value_tree(r)),
        s.deep_view().few_quotes() ==> storable(value_tree(r), 1),
{
    let ghost v = s.deep_view();
    let mut o: Vec<(String, serde_json::Value)> = Vec::new();
    let ghost o0 = entries_of(o@);
    put_text(&mut o, "addr", &s.addr);
    let ghost o1 = entries_of(o@);
    put_bool(&mut o, "tls", s.tls);
    let ghost o2 = entries_of(o@);
    put_text(&mut o, "binary_path", &s.binary_path);
    let ghost o3 = entries_of(o@);
    put_texts(&mut o, "binary_args", &s.binary_args);
    let ghost o4 = entries_of(o@);
    put_bool(&mut o, "auto_start", s.auto_start);
    let ghost o5 = entries_of(o@);
    put_bool(&mut o, "shutdown_on_exit", s.shutdown_on_exit);
    proof {
        lemma_server_keys();
        assert(o0 =~= Seq::empty());
        assert(forall|k: Seq<char>| #[trigger] lookup(o0, k) is None);
        lemma_puts(o0, "addr"@, opt_text_tree(v.addr), 0);
        lemma_puts(o1, "tls"@, opt_bool_tree(v.tls), 0);
        lemma_puts(o2, "binary_path"@, opt_text_tree(v.binary_path), 0);
        lemma_puts(o3, "binary_args"@, opt_texts_tree(v.binary_args), 0);
        lemma_puts(o4, "auto_start"@, opt_bool_tree(v.auto_start), 0);
        lemma_puts(o5, "shutdown_on_exit"@, opt_bool_tree(v.shutdown_on_exit), 0);
    }
    let r = table(o);
    assert(v.few_quotes() ==> storable(value_tree(r), 0 + 1));
    r
}

/// The user's configuration.
#[derive(Debug, PartialEq, Eq)]
pub struct TuiConfig {
    pub theme: Option<String>,
    /// Whether thinking is shown.
    pub show_thinking: Option<bool>,
    pub server: ServerConfig,
}

#[verifier::ext_equal]
pub struct TuiConfigView {
    pub theme: Option<Seq<char>>,
    pub show_thinking: Option<bool>,
    pub server: ServerConfigView,
}

impl DeepView for TuiConfig {
    type V = TuiConfigView;

    open spec fn deep_view(&self) -> TuiConfigView {
        TuiConfigView {
            theme: self.theme.deep_view(),
            show_thinking: self.show_thinking,
            server: self.server.deep_view(),
        }
    }
}

impl TuiConfigView {
    /// Nothing set.
    pub open spec fn unset() -> TuiConfigView {
        TuiConfigView { theme: None, show_thinking: None, server: ServerConfigView::unset() }
    }

    /// No text has too many quotes in a row.
    pub open spec fn few_quotes(self) -> bool {
        &&& self.theme is Some ==> few_quotes(self.theme->0)
        &&& self.server.few_quotes()
    }

    /// Whether a table says this.
    pub open spec fn is_table(self, t: JsonView) -> bool {
        &&& t is Object
        &&& t.get("server"@) is Some
        &&& self.server.is_table(t.get("server"@)->0)
        &&& forall|k: Seq<char>| k != "server"@ ==> #[trigger] t.get(k) == self.entry(k)
    }

    /// What stands under a key.
    pub open spec fn entry(self, k: Seq<char>) -> Option<JsonView> {
        if k == "theme"@ {
            opt_text_tree(self.theme)
        } else if k == "show_thinking"@ {
            opt_bool_tree(self.show_thinking)
        } else {
            None
        }
    }

    /// With the theme of a running program.
    pub open spec fn with_theme(self, app: AppView) -> TuiConfigView {
        TuiConfigView { theme: Some(app.themes[app.theme.current as int].id), ..self }
    }
}

/// What a table says of the server.
pub open spec fn server_part(t: JsonView) -> Option<ServerConfigView> {
    match part(t, "server"@, 2) {
        None => Some(ServerConfigView::unset()),
        Some(s) => server_config_of(s),
    }
}

/// What a table says; nothing where it is no configuration.
pub open spec fn config_of(t: JsonView) -> Option<TuiConfigView> {
    let theme = text_field(t, "theme"@, 0);
    let show_thinking = bool_field(t, "show_thinking"@, 1);
    let server = server_part(t);
    if (t is Object || t is Array) && theme is Some && show_thinking is Some && server is Some {
        Some(
            TuiConfigView { theme: theme->0, show_thinking: show_thinking->0, server: server->0 },
        )
    } else {
        None
    }
}

/// The configuration in a text; nothing where the text holds none.
pub open spec fn config_in(text: Seq<char>) -> Option<TuiConfigView> {
    match toml_parsed(text) {
        Some(t) => config_of(t),
        None => None,
    }
}

/// The configuration in a file: nothing is set where the file holds none.
pub open spec fn config_at(storage: StorageView, path: Seq<char>) -> TuiConfigView {
    match storage.table_at(path) {
        Some(t) => match config_of(t) {
            Some(c) => c,
            None => TuiConfigView::unset(),
        },
        None => TuiConfigView::unset(),
    }
}

proof fn lemma_config_keys()
    ensures
        "theme"@.len() == 5,
        "show_thinking"@.len() == 13,
        "server"@.len() == 6,
{
    reveal_strlit("theme");
    reveal_strlit("show_thinking");
    reveal_strlit("server");
}

/// A configuration is said again by its table.
proof fn lemma_config_read_back(c: TuiConfigView, t: JsonView)
    requires
        c.is_table(t),
    ensures
        config_of(t) == Some(c),
{
    lemma_config_keys();
    lemma_server_read_back(c.server, t.get("server"@)->0);
    assert(t.get("theme"@) == c.entry("theme"@));
    assert(t.get("show_thinking"@) == c.entry("show_thinking"@));
}

/// A configuration whose table has no long runs of quotes has none.
proof fn lemma_short_config(c: TuiConfigView, t: JsonView)
    requires
        c.is_table(t),
        short_quote_runs(t),
    ensures
        c.few_quotes(),
{
    lemma_config_keys();
    lemma_part_is_short(t, "server"@);
    lemma_short_server(c.server, t.get("server"@)->0);
    assert(t.get("theme"@) == c.entry("theme"@));
    if c.theme is Some {
        lemma_part_is_short(t, "theme"@);
    }
}

fn read_config(t: &Json) -> (r: Option<TuiConfig>)
    ensures
        r.deep_view() == config_of(t.tree()),
{
    match t {
        Json::Object(_) => {},
        Json::Array(_) => {},
        _ => {
            return None;
        },
    }
    let theme = read_text(t, "theme", 0);
    let show_thinking = read_bool(t, "show_thinking", 1);
    let server = match read_part(t, "server", 2) {
        None => Some(ServerConfig::default()),
        Some(s) => read_server_config(s),
    };
    match (theme, show_thinking, server) {
        (Some(theme), Some(show_thinking), Some(server)) => Some(
            TuiConfig { theme, show_thinking, server },
        ),
        _ => None,
    }
}

fn config_table(c: &TuiConfig) -> (r: serde_json::Value)
    ensures
        c.deep_view().is_table(value_tree(r)),
        c.deep_view().few_quotes() ==> storable(value_tree(r), 2),
{
    let ghost v = c.deep_view();
    let server = server_table(&c.server);
    let ghost sv = value_tree(server);
    let mut o: Vec<(String, serde_json::Value)> = Vec::new();
    let ghost o0 = entries_of(o@);
    put_text(&mut o, "theme", &c.theme);
    let ghost o1 = entries_of(o@);
    put_bool(&mut o, "show_thinking", c.show_thinking);
    let ghost o2 = entries_of(o@);
    put(&mut o, "server", Some(server));
    proof {
        lemma_config_keys();
        assert(o0 =~= Seq::empty());
        assert(forall|k: Seq<char>| #[trigger] lookup(o0, k) is None);
        lemma_puts(o0, "theme"@, opt_text_tree(v.theme), 1);
        lemma_puts(o1, "show_thinking"@, opt_bool_tree(v.show_thinking), 1);
        lemma_puts(o2, "server"@, Some(sv), 1);
    }
    let r = table(o);
    assert(v.few_quotes() ==> storable(value_tree(r), 1 + 1));
    r
}

impl Default for TuiConfig {
    fn default() -> (r: Self)
        ensures
            r.deep_view() == TuiConfigView::unset(),
    {
        TuiConfig { theme: None, show_thinking: None, server: ServerConfig::default() }
    }
}

impl TuiConfig {
    /// Where the configuration is kept.
    pub fn config_path(storage: &Storage) -> (r: String)
        ensures
            r@ == storage@.config_place(),
    {
        match &storage.config_path {
            Some(p) => p.clone(),
            None => join_or_here(&storage.home_dir, ".qmt/tui.toml"),
        }
    }

    /// The configuration in a text.
    pub fn from_toml(text: &str) -> (r: Option<TuiConfig>)
        ensures
            r.deep_view() == config_in(text@),
    {
        match read_toml(text) {
            Some(t) => read_config(&t),
            None => None,
        }
    }

    /// The configuration as a text, which is read back as it was; none where a text
    /// in it has too many quotes in a row.
    pub fn to_toml(&self) -> (r: Option<String>)
        ensures
            exists|t: JsonView| #[trigger]
                self.deep_view().is_table(t) && r.deep_view() == table_text(t),
            r is Some <==> self.deep_view().few_quotes(),
            r is Some ==> config_in(r->0@) == Some(self.deep_view()),
    {
        let v = config_table(self);
        proof {
            lemma_config_read_back(self.deep_view(), value_tree(v));
            if self.deep_view().few_quotes() {
                lemma_shallow(value_tree(v), 2);
            } else if short_quote_runs(value_tree(v)) {
                lemma_short_config(self.deep_view(), value_tree(v));
            }
        }
        write_table(&v)
    }

    /// Reads the configuration from its usual place.
    pub fn load(storage: &Storage) -> (r: TuiConfig)
        ensures
            r.deep_view() == config_at(storage@, storage@.config_place()),
    {
        let path = TuiConfig::config_path(storage);
        TuiConfig::load_from_path(storage, path.as_str())
    }

    /// Reads the configuration from a file; nothing is set where the file is
    /// missing or holds something else.
    pub fn load_from_path(storage: &Storage, path: &str) -> (r: TuiConfig)
        ensures
            r.deep_view() == config_at(storage@, path@),
    {
        match storage.read_table(path) {
            Some(t) => match read_config(&t) {
                Some(c) => c,
                None => TuiConfig::default(),
            },
            None => TuiConfig::default(),
        }
    }

    /// Puts the configuration in its usual place, where it is then found again unless
    /// a text in it has too many quotes in a row.
    pub fn save(&self, storage: &mut Storage)
        ensures
            exists|t: JsonView| #[trigger]
                self.deep_view().is_table(t) && final(storage)@ == old(storage)@.stored(
                    old(storage)@.config_place(),
                    table_text(t),
                ),
            self.deep_view().few_quotes() ==> config_at(
                final(storage)@,
                final(storage)@.config_place(),
            ) == self.deep_view(),
    {
        let path = TuiConfig::config_path(storage);
        self.save_to_path(storage, path.as_str());
    }

    /// Puts the configuration in a file.
    pub fn save_to_path(&self, storage: &mut Storage, path: &str)
        ensures
            exists|t: JsonView| #[trigger]
                self.deep_view().is_table(t) && final(storage)@ == old(storage)@.stored(
                    path@,
                    table_text(t),
                ),
            self.deep_view().few_quotes() ==> config_at(final(storage)@, path@)
                == self.deep_view(),
    {
        let text = self.to_toml();
        storage.store(path, text);
    }

    /// The settings of a running program alone.
    pub fn from_app(app: &App) -> (r: TuiConfig)
        requires
            app@.theme.fits(app@.themes),
        ensures
            r.deep_view() == TuiConfigView::unset().with_theme(app@),
    {
        TuiConfig {
            theme: Some(app.theme.current_id(&app.themes)),
            show_thinking: None,
            server: ServerConfig::default(),
        }
    }

    /// This configuration with the settings of a running program.
    pub fn with_app_settings(self, app: &App) -> (r: TuiConfig)
        requires
            app@.theme.fits(app@.themes),
        ensures
            r.deep_view() == self.deep_view().with_theme(app@),
    {
        TuiConfig {
            theme: Some(app.theme.current_id(&app.themes)),
            show_thinking: self.show_thinking,
            server: self.server,
        }
    }
}

/// Puts the settings of a running program in the configuration that is kept.
pub fn save_config(app: &App, storage: &mut Storage)
    requires
        app@.theme.fits(app@.themes),
    ensures
        ({
            let place = old(storage)@.config_place();
            let merged = config_at(old(storage)@, place).with_theme(app@);
            &&& exists|t: JsonView| #[trigger]
                merged.is_table(t) && final(storage)@ == old(storage)@.stored(
                    place,
                    table_text(t),
                )
            &&& merged.few_quotes() ==> config_at(final(storage)@, place) == merged
        }),
{
    let merged = TuiConfig::load(storage).with_app_settings(app);
    merged.save(storage);
}

/// What is storable to a depth is storable to a greater one.
proof fn lemma_deeper(t: JsonView, d: nat, e: nat)
    requires
        storable(t, d),
        d <= e,
    ensures
        storable(t, e),
    decreases d,
{
    if let JsonView::Object(o) = t {
        assert(storable_entries(o, (d - 1) as nat));
        assert forall|i: int| 0 <= i < o.len() implies storable(
            (#[trigger] o[i]).1,
            (e - 1) as nat,
        ) by {
            lemma_deeper(o[i].1, (d - 1) as nat, (e - 1) as nat);
        }
    }
}

pub proof fn lemma_shallow(t: JsonView, d: nat)
    requires
        t is Object,
        storable(t, d),
        d <= 5,
    ensures
        storable_file(t),
{
    lemma_deeper(t, d, 5);
}

} // verus!
