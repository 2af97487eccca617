use qmtui::app::{App, CachedModeState};
use qmtui::cache::{save_cache, ModeState, SessionCache, TuiCache};
use qmtui::config::{
    save_config, test_set_cache_path_override, test_set_config_path_override, ServerConfig,
    Storage, TuiConfig,
};
use qmtui::strmap::StrMap;
use qmtui::theme::Base16Palette;

fn palette(id: &str, shade: u32) -> Base16Palette {
    Base16Palette { id: id.to_string(), label: id.to_string(), colors: [shade; 16] }
}

fn new_app() -> App {
    App::new(vec![palette("base16-querymate", 0x10_20_30), palette("base16-ocean", 0x20_10_40)])
}

fn storage() -> Storage {
    Storage::new(Some("/home/someone".into()), Some("/home/someone/.cache".into()))
}

/// Storage that keeps both files in a directory of their own.
fn overridden(label: &str) -> Storage {
    let mut s = storage();
    let dir = format!("/tmp/qmt-tui-tests-{label}");
    test_set_config_path_override(&mut s, Some(format!("{dir}/tui.toml")));
    test_set_cache_path_override(&mut s, Some(format!("{dir}/tui-cache.toml")));
    s
}

fn state(model: &str, effort: &str) -> ModeState {
    ModeState { model: model.into(), effort: effort.into() }
}

fn cache_with(sid: &str, modes: &[(&str, &str, &str)]) -> TuiCache {
    let mut cache = TuiCache::default();
    let mut sc = SessionCache::default();
    for (mode, model, effort) in modes {
        sc.modes.insert(mode.to_string(), state(model, effort));
    }
    cache.sessions.insert(sid.into(), sc);
    cache
}

fn same_cache(a: &TuiCache, b: &TuiCache) -> bool {
    a.sessions.len() == b.sessions.len()
        && (0..a.sessions.len()).all(|i| {
            let left = &a.sessions.value_at(i).modes;
            match b.sessions.get(a.sessions.key_at(i)) {
                Some(sc) => {
                    left.len() == sc.modes.len()
                        && (0..left.len())
                            .all(|k| sc.modes.get(left.key_at(k)) == Some(left.value_at(k)))
                }
                None => false,
            }
        })
}

fn server(addr: Option<&str>, tls: Option<bool>) -> ServerConfig {
    ServerConfig { addr: addr.map(String::from), tls, ..ServerConfig::default() }
}

// ── TuiConfig ─────────────────────────────────────────────────────────────────

#[test]
fn config_round_trip() {
    let cfg = TuiConfig {
        theme: Some("base16-ocean".into()),
        show_thinking: None,
        server: server(Some("127.0.0.1:3030"), Some(false)),
    };
    let text = cfg.to_toml().unwrap();
    assert_eq!(TuiConfig::from_toml(&text).unwrap(), cfg);
}

#[test]
fn config_empty_deserializes_to_default() {
    assert_eq!(TuiConfig::from_toml("").unwrap(), TuiConfig::default());
}

#[test]
fn config_text_is_plain_toml() {
    let cfg = TuiConfig {
        theme: Some("base16-ocean".into()),
        show_thinking: Some(true),
        server: server(Some("127.0.0.1:3030"), Some(false)),
    };
    let text = cfg.to_toml().unwrap();
    assert!(text.contains("theme = \"base16-ocean\""), "{text}");
    assert!(text.contains("show_thinking = true"), "{text}");
    assert!(text.contains("[server]"), "{text}");
    assert!(text.contains("addr = \"127.0.0.1:3030\""), "{text}");
    assert!(text.contains("tls = false"), "{text}");
    assert!(!text.contains("binary_path"), "{text}");
}

#[test]
fn config_reads_every_field() {
    let cfg = TuiConfig::from_toml(
        "theme = \"t\"\nshow_thinking = false\nother = 3\n[server]\naddr = \"a\"\ntls = true\n\
         binary_path = \"/bin/q\"\nbinary_args = [\"x\", \"y\"]\nauto_start = false\n\
         shutdown_on_exit = false\n",
    )
    .unwrap();
    assert_eq!(
        cfg,
        TuiConfig {
            theme: Some("t".into()),
            show_thinking: Some(false),
            server: ServerConfig {
                addr: Some("a".into()),
                tls: Some(true),
                binary_path: Some("/bin/q".into()),
                binary_args: Some(vec!["x".into(), "y".into()]),
                auto_start: Some(false),
                shutdown_on_exit: Some(false),
            },
        }
    );
    let again = TuiConfig::from_toml(&cfg.to_toml().unwrap()).unwrap();
    assert_eq!(again, cfg);
}

#[test]
fn config_with_a_wrong_type_is_no_config() {
    assert!(TuiConfig::from_toml("theme = 3\n").is_none());
    assert!(TuiConfig::from_toml("server = \"x\"\n").is_none());
    assert!(TuiConfig::from_toml("[server]\ntls = \"yes\"\n").is_none());
    assert!(TuiConfig::from_toml("[server]\nbinary_args = [1]\n").is_none());
}

#[test]
fn records_may_be_written_as_lists() {
    let cfg = TuiConfig::from_toml("server = [\"a:1\", true]\n").unwrap();
    assert_eq!(cfg.server, server(Some("a:1"), Some(true)));
}

// ── TuiCache ──────────────────────────────────────────────────────────────────

#[test]
fn cache_round_trip() {
    let cache = cache_with(
        "sid-1",
        &[("build", "acme/sonnet", "high"), ("plan", "openai/gpt-4o", "auto")],
    );
    let text = cache.to_toml().unwrap();
    assert!(same_cache(&TuiCache::from_toml(&text).unwrap(), &cache));
}

#[test]
fn cache_empty_deserializes_to_default() {
    assert_eq!(TuiCache::from_toml("").unwrap().sessions.len(), 0);
}

#[test]
fn cache_bad_toml_returns_default() {
    assert!(TuiCache::from_toml("not toml!!!").is_none());
}

#[test]
fn cache_load_from_path_missing_returns_default() {
    let loaded = TuiCache::load_from_path(&storage(), "/tmp/cache-missing/missing.toml");
    assert_eq!(loaded.sessions.len(), 0);
}

#[test]
fn cache_load_from_path_malformed_returns_default() {
    let mut s = storage();
    s.files.insert("/tmp/cache-bad/bad.toml".into(), "not toml ???".into());
    let loaded = TuiCache::load_from_path(&s, "/tmp/cache-bad/bad.toml");
    assert_eq!(loaded.sessions.len(), 0);
}

#[test]
fn cache_save_to_path_and_load_round_trip() {
    let cache = cache_with("sid-1", &[("build", "acme/sonnet", "high")]);
    let mut s = storage();
    let path = "/tmp/cache-save/nested/tui-cache.toml";
    cache.save_to_path(&mut s, path);
    assert!(same_cache(&TuiCache::load_from_path(&s, path), &cache));
}

#[test]
fn cache_default_load_save_respects_override_path() {
    let mut s = overridden("cache-override");
    let cache = cache_with("sid-1", &[("build", "acme/sonnet", "high")]);
    cache.save(&mut s);
    let loaded = TuiCache::load(&s);
    assert!(same_cache(&loaded, &cache));
    assert!(s.files.contains_key("/tmp/qmt-tui-tests-cache-override/tui-cache.toml"));
}

#[test]
fn cache_with_a_missing_field_is_no_cache() {
    assert!(TuiCache::from_toml("[sessions.s1.modes.build]\nmodel = \"m\"\n").is_none());
    assert!(TuiCache::from_toml("[sessions.s1]\n").is_some());
    assert!(TuiCache::from_toml("sessions = 1\n").is_none());
    let odd = cache_with("a.b \"c\"", &[("x y", "m/\\n", "e'f")]);
    assert!(same_cache(&TuiCache::from_toml(&odd.to_toml().unwrap()).unwrap(), &odd));
}

// ── files ─────────────────────────────────────────────────────────────────────

#[test]
fn config_load_from_path_missing_returns_default() {
    let loaded = TuiConfig::load_from_path(&storage(), "/tmp/cfg-missing/missing.toml");
    assert_eq!(loaded, TuiConfig::default());
}

#[test]
fn config_load_from_path_malformed_returns_default() {
    let mut s = storage();
    s.files.insert("/tmp/cfg-bad/bad.toml".into(), "not toml ???".into());
    let loaded = TuiConfig::load_from_path(&s, "/tmp/cfg-bad/bad.toml");
    assert_eq!(loaded, TuiConfig::default());
}

#[test]
fn config_save_to_path_and_load_round_trip() {
    let mut s = storage();
    let path = "/tmp/cfg-save/nested/tui.toml";
    let cfg = TuiConfig {
        theme: Some("base16-ocean".into()),
        show_thinking: None,
        server: server(Some("127.0.0.1:3030"), Some(false)),
    };
    cfg.save_to_path(&mut s, path);
    assert_eq!(TuiConfig::load_from_path(&s, path), cfg);
}

#[test]
fn config_default_load_save_respects_override_path() {
    let mut s = overridden("cfg-override");
    let cfg = TuiConfig {
        theme: Some("base16-ocean".into()),
        show_thinking: None,
        server: ServerConfig::default(),
    };
    cfg.save(&mut s);
    assert_eq!(TuiConfig::load(&s), cfg);
    assert!(s.files.contains_key("/tmp/qmt-tui-tests-cfg-override/tui.toml"));
}

#[test]
fn usual_places() {
    let s = storage();
    assert_eq!(TuiConfig::config_path(&s), "/home/someone/.qmt/tui.toml");
    assert_eq!(TuiCache::cache_path(&s), "/home/someone/.cache/qmt/tui-cache.toml");
    let nowhere = Storage::new(None, None);
    assert_eq!(TuiConfig::config_path(&nowhere), "./.qmt/tui.toml");
    assert_eq!(TuiCache::cache_path(&nowhere), "./qmt/tui-cache.toml");
    let root = Storage::new(Some("/".into()), Some("/c/".into()));
    assert_eq!(TuiConfig::config_path(&root), "/.qmt/tui.toml");
    assert_eq!(TuiCache::cache_path(&root), "/c/qmt/tui-cache.toml");
}

// ── from_app ──────────────────────────────────────────────────────────────────

fn cached(model: &str, effort: Option<&str>) -> CachedModeState {
    CachedModeState { model: model.into(), effort: effort.map(String::from) }
}

#[test]
fn from_app_captures_session_cache() {
    let mut app = new_app();
    let mut modes = StrMap::new();
    modes.insert("build".into(), cached("acme/sonnet", Some("high")));
    modes.insert("plan".into(), cached("openai/gpt-4o", None)); // auto
    app.session_cache.insert("sid-1".into(), modes);

    let cache = TuiCache::from_app(&app);
    let sc = cache.sessions.get("sid-1").unwrap();
    assert_eq!(sc.modes.get("build").unwrap().model, "acme/sonnet");
    assert_eq!(sc.modes.get("build").unwrap().effort, "high");
    assert_eq!(sc.modes.get("plan").unwrap().model, "openai/gpt-4o");
    assert_eq!(sc.modes.get("plan").unwrap().effort, "auto");
}

#[test]
fn hydrate_app_restores_session_cache() {
    let cache = cache_with(
        "sid-1",
        &[("build", "acme/sonnet", "high"), ("plan", "openai/gpt-4o", "auto")],
    );

    let mut app = new_app();
    cache.hydrate_app(&mut app);

    let modes = app.session_cache.get("sid-1").unwrap();
    assert_eq!(modes.get("build").unwrap().model, "acme/sonnet");
    assert_eq!(modes.get("build").unwrap().effort, Some("high".into()));
    assert_eq!(modes.get("plan").unwrap().model, "openai/gpt-4o");
    assert_eq!(modes.get("plan").unwrap().effort, None);
}

#[test]
fn hydrate_empty_cache_leaves_app_unchanged() {
    let mut app = new_app();
    TuiCache::default().hydrate_app(&mut app);
    assert_eq!(app.session_cache.len(), 0);
}

#[test]
fn hydrate_replaces_sessions_of_the_same_id_and_keeps_others() {
    let mut app = new_app();
    for sid in ["sid-1", "sid-2"] {
        let mut modes = StrMap::new();
        modes.insert("plan".into(), cached("old/model", None));
        app.session_cache.insert(sid.into(), modes);
    }
    cache_with("sid-1", &[("build", "acme/sonnet", "low")]).hydrate_app(&mut app);
    assert!(app.session_cache.get("sid-1").unwrap().get("plan").is_none());
    assert!(app.session_cache.get("sid-1").unwrap().get("build").is_some());
    assert!(app.session_cache.get("sid-2").unwrap().get("plan").is_some());
}

#[test]
fn from_app_hydrate_round_trip() {
    let mut app = new_app();
    let mut modes = StrMap::new();
    modes.insert("build".into(), cached("acme/sonnet", Some("max")));
    app.session_cache.insert("sid-1".into(), modes);

    let cache = TuiCache::from_app(&app);
    let mut app2 = new_app();
    cache.hydrate_app(&mut app2);

    assert_eq!(
        app2.session_cache.get("sid-1").unwrap().get("build").unwrap(),
        &cached("acme/sonnet", Some("max"))
    );
}

#[test]
fn saving_settings_keeps_the_rest_of_the_configuration() {
    let mut s = storage();
    let cfg = TuiConfig {
        theme: Some("base16-querymate".into()),
        show_thinking: Some(false),
        server: server(Some("h:1"), Some(true)),
    };
    cfg.save(&mut s);
    let mut app = new_app();
    app.theme.set_by_index(&app.themes, 1);
    save_config(&app, &mut s);
    assert_eq!(
        TuiConfig::load(&s),
        TuiConfig { theme: Some("base16-ocean".into()), ..cfg }
    );
    assert_eq!(TuiConfig::from_app(&app).theme, Some("base16-ocean".into()));
    assert_eq!(TuiConfig::from_app(&app).server, ServerConfig::default());
}

#[test]
fn saving_sessions_puts_them_where_they_are_found() {
    let mut s = storage();
    let mut app = new_app();
    let mut modes = StrMap::new();
    modes.insert("build".into(), cached("acme/sonnet", None));
    app.session_cache.insert("sid-1".into(), modes);
    save_cache(&app, &mut s);
    let found = TuiCache::load(&s);
    assert!(same_cache(&found, &cache_with("sid-1", &[("build", "acme/sonnet", "auto")])));
}

/// Texts made of up to three pieces that are special in a file.
fn odd_texts() -> Vec<String> {
    let pieces = [
        "", "a", "'", "\"", "''", "\"\"", "'''", "\"\"\"", "\\", "\n", "\r\n", "\r", "\t", "\u{0}",
        "\u{7f}", "\u{8}", "\u{c}", ".", "#", " ", "=", "[", "]", "é", "\u{2028}", "{", ",",
    ];
    let mut out = Vec::new();
    for a in pieces {
        for b in pieces {
            for c in pieces {
                out.push(format!("{a}{b}{c}"));
            }
        }
    }
    out.push("'".repeat(255));
    out.push("\"".repeat(255));
    out
}

#[test]
fn any_text_is_read_back_from_a_configuration() {
    for odd in odd_texts() {
        let cfg = TuiConfig {
            theme: Some(odd.clone()),
            show_thinking: Some(false),
            server: ServerConfig {
                addr: Some(odd.clone()),
                binary_args: Some(vec![odd.clone(), "-".into(), odd.clone()]),
                ..ServerConfig::default()
            },
        };
        let text = cfg.to_toml().unwrap();
        assert_eq!(TuiConfig::from_toml(&text), Some(cfg), "{text}");
    }
}

#[test]
fn any_text_is_read_back_from_a_session_cache() {
    for odd in odd_texts() {
        let cache = cache_with(&odd, &[(odd.as_str(), odd.as_str(), "low"), ("plan", "m", &odd)]);
        let text = cache.to_toml().unwrap();
        assert!(same_cache(&TuiCache::from_toml(&text).unwrap(), &cache), "{text}");
    }
}

#[test]
fn empty_tables_are_read_back() {
    for cache in [TuiCache::default(), cache_with("s", &[])] {
        let text = cache.to_toml().unwrap();
        assert!(same_cache(&TuiCache::from_toml(&text).unwrap(), &cache), "{text}");
    }
}

#[test]
fn texts_with_too_many_quotes_are_not_kept() {
    for quote in ["'", "\""] {
        let mut cfg = TuiConfig { theme: Some(quote.repeat(255)), ..TuiConfig::default() };
        assert_eq!(TuiConfig::from_toml(&cfg.to_toml().unwrap()).unwrap(), cfg);
        cfg.theme = Some(format!("a{}", quote.repeat(256)));
        assert_eq!(cfg.to_toml(), None);
        let mut s = storage();
        cfg.save(&mut s);
        assert_eq!(TuiConfig::load(&s), TuiConfig::default());

        let odd = quote.repeat(300);
        assert_eq!(cache_with("s", &[("build", &odd, "low")]).to_toml(), None);
        let keyed = cache_with(&odd, &[("build", "m", "low")]);
        let text = keyed.to_toml().unwrap();
        assert!(same_cache(&TuiCache::from_toml(&text).unwrap(), &keyed));
    }
}
