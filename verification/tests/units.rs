use herdr_scratch::config::{
    init_refusal, join_path, Config, CwdMode, Paths, ProfileConfig, ScopeKind, ScratchpadPlacement,
    SplitDirection,
};
use herdr_scratch::herdr::{
    check_ack, pane_member, parse_result, plugin_pane_member, socket_reply, tab_member, HerdrCli, HerdrError,
    OpenScratchpadRequest, PaneInfo,
};
use herdr_scratch::json::Json;
use herdr_scratch::registry::{
    now_rfc3339, registry_key, rfc3339_or_epoch, FocusSnapshot, LifecycleStatus, Registry, RuntimeHandle,
    ScopeRecord, ScratchpadRecord,
};
use herdr_scratch::scratchpad::{
    cwd_with_home, decimal, doctor_issues, normalize_name, open_request, resolve_cwd, resolve_scope,
    session_command, session_env, summary_for, DoctorReport, InvocationContext, Output,
    ScratchError, ScratchpadSummary,
};
use herdr_scratch::output::{doctor_lines, listing_lines, status_word, text_lines};
use herdr_scratch::text::{contains_control, fill_name, is_blank, join_words, same_text, text_less, trimmed};
use herdr_scratch::text_map::TextMap;

fn words(v: &[&str]) -> Vec<String> {
    v.iter().map(|s| s.to_string()).collect()
}

fn object(entries: Vec<(&str, Json)>) -> Json {
    let mut m = TextMap::new();
    for (k, v) in entries {
        m.insert(k.to_string(), v);
    }
    Json::Object(m)
}

fn handle_with(pane: Option<&str>, opaque: Vec<(&str, Json)>) -> RuntimeHandle {
    let mut m = TextMap::new();
    for (k, v) in opaque {
        m.insert(k.to_string(), v);
    }
    RuntimeHandle {
        kind: "herdr".to_string(),
        pane_id: pane.map(|p| p.to_string()),
        workspace_id: None,
        opaque: m,
    }
}

#[test]
fn text_map_keeps_keys_in_order_and_replaces_values() {
    let mut m: TextMap<u32> = TextMap::new();
    assert_eq!(m.insert("b".to_string(), 1), None);
    assert_eq!(m.insert("a".to_string(), 2), None);
    assert_eq!(m.insert("c".to_string(), 3), None);
    assert_eq!(m.insert("b".to_string(), 4), Some(1));
    assert_eq!(m.len(), 3);
    assert_eq!(m.key_at(0), "a");
    assert_eq!(m.key_at(1), "b");
    assert_eq!(m.key_at(2), "c");
    assert_eq!(m.get("b"), Some(&4));
    assert_eq!(m.remove("a"), Some(2));
    assert_eq!(m.remove("a"), None);
    assert!(!m.contains_key("a"));
    assert_eq!(m.len(), 2);
}

#[test]
fn text_order_is_the_string_order() {
    assert!(text_less("abc", "abd"));
    assert!(text_less("ab", "abc"));
    assert!(!text_less("abc", "abc"));
    assert!(text_less("Z", "a"));
    assert!(same_text("héllo", "héllo"));
    assert!(!same_text("a", "ab"));
}

#[test]
fn trimming_follows_unicode_white_space() {
    assert_eq!(trimmed("\u{3000} notes\t\n"), "notes");
    assert_eq!(trimmed("   "), "");
    assert!(is_blank(" \u{85}\u{a0}"));
    assert!(!is_blank(" x "));
    assert!(contains_control("a\u{7}b"));
    assert!(!contains_control("abc"));
    assert_eq!(join_words(&words(&["npm", "run", "dev"]), " "), "npm run dev");
    assert_eq!(join_words(&Vec::new(), " "), "");
}

#[test]
fn names_are_trimmed_and_checked() {
    assert_eq!(normalize_name("  notes \t").unwrap(), "notes");
    assert!(matches!(normalize_name(""), Err(ScratchError::EmptyName)));
    assert!(matches!(
        normalize_name("bad\u{1b}name"),
        Err(ScratchError::ControlCharacterInName)
    ));
    let once = normalize_name(" a b ").unwrap();
    assert_eq!(normalize_name(&once).unwrap(), once);
}

#[test]
fn registry_keys_join_scope_and_name() {
    let scope = ScopeRecord {
        kind: "workspace".to_string(),
        key: "w1".to_string(),
    };
    assert_eq!(scope.to_string(), "workspace:w1");
    assert_eq!(registry_key(&scope, "scratch"), "workspace:w1:scratch");
}

#[test]
fn keys_for_name_are_in_key_order() {
    let mut registry = Registry::default();
    for (key, name) in [("z:1:x", "x"), ("a:1:x", "x"), ("m:1:y", "y")] {
        registry.insert(
            key.to_string(),
            ScratchpadRecord {
                name: name.to_string(),
                scope: ScopeRecord {
                    kind: "k".to_string(),
                    key: "1".to_string(),
                },
                profile: "default".to_string(),
                status: LifecycleStatus::Available,
                handle: None,
                cwd: None,
                created_at: "t".to_string(),
                last_shown_at: "t".to_string(),
                last_hidden_at: None,
                previous_focus: None,
            },
        );
    }
    assert_eq!(registry.keys_for_name("x"), words(&["a:1:x", "z:1:x"]));
    assert!(registry.keys_for_name("none").is_empty());
    assert!(registry.remove("m:1:y").is_some());
    assert_eq!(registry.scratchpads.len(), 2);
}

#[test]
fn summaries_show_scope_and_status_words() {
    let rec = ScratchpadRecord {
        name: "notes".to_string(),
        scope: ScopeRecord {
            kind: "cwd".to_string(),
            key: "/repo".to_string(),
        },
        profile: "default".to_string(),
        status: LifecycleStatus::Stale,
        handle: None,
        cwd: Some("/repo".to_string()),
        created_at: "t".to_string(),
        last_shown_at: "t".to_string(),
        last_hidden_at: None,
        previous_focus: None,
    };
    let s = summary_for(&rec);
    assert_eq!(s.name, "notes");
    assert_eq!(s.scope, "cwd:/repo");
    assert_eq!(s.status, "stale");
    assert_eq!(s.cwd.as_deref(), Some("/repo"));
}

#[test]
fn focus_token_prefers_its_own_entry() {
    let h = handle_with(
        None,
        vec![
            ("focus_token", Json::String("t1".to_string())),
            ("tab_id", Json::String("t2".to_string())),
        ],
    );
    assert_eq!(h.focus_token().map(|s| s.as_str()), Some("t1"));
    let h = handle_with(None, vec![("tab_id", Json::String("t2".to_string()))]);
    assert_eq!(h.focus_token().map(|s| s.as_str()), Some("t2"));
    let h = handle_with(
        None,
        vec![
            ("focus_token", Json::Bool(true)),
            ("tab_id", Json::String("t2".to_string())),
        ],
    );
    assert_eq!(h.focus_token(), None);
}

#[test]
fn scope_resolution_uses_the_context() {
    let context = InvocationContext {
        workspace_id: Some("w7".to_string()),
        workspace_cwd: Some("/ws".to_string()),
        ..InvocationContext::default()
    };
    let global = resolve_scope(ScopeKind::Global, &context);
    assert_eq!((global.kind.as_str(), global.key.as_str()), ("global", "default"));
    let ws = resolve_scope(ScopeKind::Workspace, &context);
    assert_eq!((ws.kind.as_str(), ws.key.as_str()), ("workspace", "w7"));
    let cwd = resolve_scope(ScopeKind::Cwd, &context);
    assert_eq!(cwd.key, "/ws");
    let empty = InvocationContext::default();
    assert_eq!(resolve_scope(ScopeKind::Workspace, &empty).key, "unknown");
    assert_eq!(resolve_scope(ScopeKind::Cwd, &empty).key, "unknown");
}

#[test]
fn the_current_pane_fills_only_what_the_context_lacks() {
    let context = InvocationContext {
        workspace_id: Some("ctx".to_string()),
        ..InvocationContext::default()
    };
    let pane = PaneInfo {
        pane_id: "p".to_string(),
        workspace_id: "w".to_string(),
        tab_id: "t".to_string(),
        focused: true,
        cwd: Some("/pane".to_string()),
    };
    let filled = context.with_current(Some(&pane));
    assert_eq!(filled.workspace_id.as_deref(), Some("ctx"));
    assert_eq!(filled.tab_id.as_deref(), Some("t"));
    assert_eq!(filled.focused_pane_id.as_deref(), Some("p"));
    assert_eq!(filled.context_cwd().as_deref(), Some("/pane"));
}

#[test]
fn start_directories_follow_the_profile() {
    let context = InvocationContext {
        workspace_cwd: Some("/ws".to_string()),
        process_cwd: Some("/proc".to_string()),
        ..InvocationContext::default()
    };
    let mut profile = ProfileConfig::default();
    assert_eq!(resolve_cwd(&profile, &context).as_deref(), Some("/ws"));
    profile.cwd = CwdMode::Path("/fixed".to_string());
    assert_eq!(resolve_cwd(&profile, &context).as_deref(), Some("/fixed"));
    let bare = InvocationContext {
        process_cwd: Some("/proc".to_string()),
        ..InvocationContext::default()
    };
    profile.cwd = CwdMode::Workspace;
    assert_eq!(resolve_cwd(&profile, &bare).as_deref(), Some("/proc"));
}

#[test]
fn home_mode_starts_in_the_home_directory() {
    let context = InvocationContext {
        process_cwd: Some("/proc".to_string()),
        ..InvocationContext::default()
    };
    let mut profile = ProfileConfig::default();
    profile.cwd = CwdMode::Home;
    assert_eq!(
        cwd_with_home(&profile, &context, Some("/home/me".to_string())).as_deref(),
        Some("/home/me")
    );
    assert_eq!(cwd_with_home(&profile, &context, None), None);
    profile.cwd = CwdMode::Context;
    assert_eq!(
        cwd_with_home(&profile, &context, Some("/home/me".to_string())).as_deref(),
        Some("/proc")
    );
}

#[test]
fn words_of_config_add_are_parsed() {
    assert_eq!(ScopeKind::parse("cwd"), Some(ScopeKind::Cwd));
    assert_eq!(ScopeKind::parse("global"), Some(ScopeKind::Global));
    assert_eq!(ScopeKind::parse("Global"), None);
    assert_eq!(ScopeKind::Workspace.as_str(), "workspace");
    assert_eq!(CwdMode::parse("home"), CwdMode::Home);
    assert_eq!(CwdMode::parse("/x"), CwdMode::Path("/x".to_string()));
    assert_eq!(ScratchpadPlacement::Tab.as_str(), "tab");
    assert_eq!(SplitDirection::Down.as_str(), "down");
    assert_eq!(LifecycleStatus::Hidden.as_str(), "hidden");
}

#[test]
fn paths_follow_the_variables_and_platform_dirs() {
    let p = Paths::from_dirs(
        Some("/cfg/".to_string()),
        Some(String::new()),
        Some("/home/u/.config".to_string()),
        None,
        Some("/home/u/.data".to_string()),
        Some("/cwd".to_string()),
    );
    assert_eq!(p.config_dir, "/cfg/");
    assert_eq!(p.config_file, "/cfg/config.toml");
    assert_eq!(p.state_dir, "/home/u/.data/herdr-scratch");
    assert_eq!(p.registry_file, "/home/u/.data/herdr-scratch/registry.json");
    let fallback = Paths::from_dirs(None, None, None, None, None, None);
    assert_eq!(fallback.config_dir, "./herdr-scratch");
    assert_eq!(join_path("", "x"), "x");
    let discovered = Paths::discover(Some("/a".to_string()), Some("/b".to_string()), None);
    assert_eq!(discovered.config_file, "/a/config.toml");
    assert_eq!(discovered.registry_file, "/b/registry.json");
}

#[test]
fn decimal_digits() {
    assert_eq!(decimal(0), "0");
    assert_eq!(decimal(7), "7");
    assert_eq!(decimal(4096), "4096");
    assert_eq!(decimal(u64::MAX), "18446744073709551615");
    assert!(doctor_issues(true, 1).is_empty());
    assert_eq!(
        doctor_issues(true, 3),
        words(&["unsupported config version 3; expected 1"])
    );
}

#[test]
fn open_arguments_name_plugin_placement_cwd_and_env() {
    let mut env = TextMap::new();
    env.insert("B".to_string(), "2".to_string());
    env.insert("A".to_string(), "1".to_string());
    let request = OpenScratchpadRequest {
        cwd: Some("/repo".to_string()),
        env,
        placement: ScratchpadPlacement::Split,
        split_direction: SplitDirection::Down,
    };
    assert_eq!(
        HerdrCli::open_scratchpad_args(&request),
        words(&[
            "plugin",
            "pane",
            "open",
            "--plugin",
            "herdr.scratch",
            "--entrypoint",
            "scratch",
            "--placement",
            "split",
            "--focus",
            "--direction",
            "down",
            "--cwd",
            "/repo",
            "--env",
            "A=1",
            "--env",
            "B=2",
        ])
    );
    let tab = OpenScratchpadRequest {
        cwd: None,
        env: TextMap::new(),
        placement: ScratchpadPlacement::Tab,
        split_direction: SplitDirection::Right,
    };
    assert_eq!(
        HerdrCli::open_scratchpad_args(&tab),
        words(&[
            "plugin",
            "pane",
            "open",
            "--plugin",
            "herdr.scratch",
            "--entrypoint",
            "scratch",
            "--placement",
            "tab",
            "--focus",
        ])
    );
}

#[test]
fn handle_commands_need_a_pane() {
    let with_pane = handle_with(Some("w1:p2"), vec![("focus_token", Json::String("w1:t2".to_string()))]);
    assert_eq!(
        HerdrCli::send_text_args(&with_pane, "hi").unwrap(),
        words(&["pane", "send-text", "w1:p2", "hi"])
    );
    assert_eq!(
        HerdrCli::run_command_args(&with_pane, "ls").unwrap(),
        words(&["pane", "run", "w1:p2", "ls"])
    );
    assert_eq!(
        HerdrCli::close_args(&with_pane).unwrap(),
        words(&["plugin", "pane", "close", "w1:p2"])
    );
    assert_eq!(
        HerdrCli::rename_args(&with_pane, "scratch:notes").unwrap(),
        words(&["pane", "rename", "w1:p2", "scratch:notes"])
    );
    assert_eq!(
        HerdrCli::focus_handle_steps(&with_pane),
        vec![
            words(&["tab", "focus", "w1:t2"]),
            words(&["plugin", "pane", "focus", "w1:p2"])
        ]
    );
    let without = handle_with(None, Vec::new());
    assert!(matches!(
        HerdrCli::close_args(&without),
        Err(HerdrError::MissingHandle(ref f)) if f == "pane_id"
    ));
    assert!(HerdrCli::focus_handle_steps(&without).is_empty());
}

#[test]
fn previous_focus_falls_back_to_the_tab() {
    let snapshot = FocusSnapshot {
        pane_id: Some("p".to_string()),
        focus_token: Some("t".to_string()),
        workspace_id: None,
    };
    assert_eq!(
        HerdrCli::focus_previous_fallback(&snapshot).unwrap(),
        words(&["tab", "focus", "t"])
    );
    let bare = FocusSnapshot {
        pane_id: None,
        focus_token: None,
        workspace_id: None,
    };
    assert!(matches!(
        HerdrCli::focus_previous_fallback(&bare),
        Err(HerdrError::Unsupported(_))
    ));
}

#[test]
fn program_and_command_lines() {
    assert_eq!(HerdrCli::discover(None).program(), "herdr");
    let cli = HerdrCli::discover(Some("/opt/herdr".to_string()));
    assert_eq!(cli.program(), "/opt/herdr");
    assert_eq!(cli.command_line(&words(&["pane", "get", "p1"])), "/opt/herdr pane get p1");
    assert_eq!(HerdrCli::current_pane_args(), words(&["pane", "current"]));
    assert_eq!(HerdrCli::tab_get_args("t"), words(&["tab", "get", "t"]));
}

#[test]
fn replies_are_read_through_their_envelope() {
    let error = object(vec![("error", Json::String("boom".to_string()))]);
    assert!(matches!(parse_result(error), Err(HerdrError::Api(_))));
    let empty = object(Vec::new());
    assert!(matches!(
        parse_result(empty),
        Err(HerdrError::MissingField(ref f)) if f == "result"
    ));
    let no_pane = object(vec![("result", object(Vec::new()))]);
    assert!(matches!(
        pane_member(no_pane),
        Err(HerdrError::MissingField(ref f)) if f == "result.pane"
    ));
    let tab = object(vec![(
        "result",
        object(vec![("tab", object(vec![("tab_id", Json::String("t".to_string()))]))]),
    )]);
    let member = tab_member(tab).unwrap();
    assert_eq!(member.get("tab_id").and_then(|v| v.as_str()).map(|s| s.as_str()), Some("t"));
}

#[test]
fn acknowledgements_accept_blank_output() {
    assert!(check_ack("  \n".to_string(), Err("not json".to_string())).is_ok());
    assert!(matches!(
        check_ack("oops".to_string(), Err("expected value".to_string())),
        Err(HerdrError::InvalidJson { ref stdout, ref source }) if stdout == "oops" && source == "expected value"
    ));
    let ok = object(vec![("result", Json::Null)]);
    assert!(check_ack("{}".to_string(), Ok(ok)).is_ok());
    let bad = object(vec![("error", Json::Null)]);
    assert!(matches!(check_ack("{}".to_string(), Ok(bad)), Err(HerdrError::Api(_))));
}

#[test]
fn opened_panes_become_handles() {
    let pane = PaneInfo {
        pane_id: "w1:p2".to_string(),
        workspace_id: "w1".to_string(),
        tab_id: "w1:t2".to_string(),
        focused: true,
        cwd: None,
    };
    let h = HerdrCli::handle_for_opened_pane(pane, ScratchpadPlacement::Tab);
    assert_eq!(h.kind, "herdr");
    assert_eq!(h.pane_id.as_deref(), Some("w1:p2"));
    assert_eq!(h.workspace_id.as_deref(), Some("w1"));
    assert_eq!(h.focus_token().map(|s| s.as_str()), Some("w1:t2"));
    assert_eq!(
        h.opaque.get("surface").and_then(|v| v.as_str()).map(|s| s.as_str()),
        Some("tab")
    );
    let request = HerdrCli::pane_focus_request("w1:p1");
    assert_eq!(
        request.get("method").and_then(|v| v.as_str()).map(|s| s.as_str()),
        Some("pane.focus")
    );
}

#[test]
fn session_environment_carries_the_command_as_json() {
    let mut extra = TextMap::new();
    extra.insert("EDITOR".to_string(), "vi".to_string());
    let env = session_env("notes", "default", &words(&["npm", "run", "dev"]), &extra).unwrap();
    assert_eq!(env.len(), 4);
    assert_eq!(env.get("HERDR_SCRATCH_NAME").map(|s| s.as_str()), Some("notes"));
    assert_eq!(env.get("HERDR_SCRATCH_PROFILE").map(|s| s.as_str()), Some("default"));
    assert_eq!(
        env.get("HERDR_SCRATCH_COMMAND_JSON").map(|s| s.as_str()),
        Some("[\"npm\",\"run\",\"dev\"]")
    );
    assert_eq!(env.get("EDITOR").map(|s| s.as_str()), Some("vi"));
    let plain = session_env("notes", "default", &Vec::new(), &TextMap::new()).unwrap();
    assert_eq!(plain.len(), 2);
}

#[test]
fn sessions_run_the_encoded_command_or_the_shell() {
    let (program, args) = session_command(
        Some("[\"npm\",\"run\",\"dev\"]".to_string()),
        "/bin/sh".to_string(),
    );
    assert_eq!(program, "npm");
    assert_eq!(args, words(&["run", "dev"]));
    let (program, args) = session_command(Some("[]".to_string()), "/bin/zsh".to_string());
    assert_eq!(program, "/bin/zsh");
    assert!(args.is_empty());
    let (program, _) = session_command(Some("not json".to_string()), "/bin/sh".to_string());
    assert_eq!(program, "/bin/sh");
    let (program, _) = session_command(None, "/bin/sh".to_string());
    assert_eq!(program, "/bin/sh");
    let env = session_env("x", "p", &words(&["a \"q\"", "b"]), &TextMap::new()).unwrap();
    let encoded = env.get("HERDR_SCRATCH_COMMAND_JSON").cloned();
    let (program, args) = session_command(encoded, "/bin/sh".to_string());
    assert_eq!(program, "a \"q\"");
    assert_eq!(args, words(&["b"]));
}

#[test]
fn open_requests_use_the_configured_profile_and_placement() {
    let mut config = Config::default();
    config.add_scratchpad(
        "lazygit".to_string(),
        None,
        CwdMode::Path("/work".to_string()),
        words(&["lazygit"]),
    );
    let (request, profile) =
        open_request(&config, "lazygit", &InvocationContext::default(), &Vec::new()).unwrap();
    assert_eq!(profile, "lazygit");
    assert_eq!(request.cwd.as_deref(), Some("/work"));
    assert_eq!(request.placement, ScratchpadPlacement::Split);
    assert_eq!(request.split_direction, SplitDirection::Right);
    assert_eq!(
        request.env.get("HERDR_SCRATCH_COMMAND_JSON").map(|s| s.as_str()),
        Some("[\"lazygit\"]")
    );
    let (request, profile) = open_request(
        &config,
        "other",
        &InvocationContext::default(),
        &words(&["htop"]),
    )
    .unwrap();
    assert_eq!(profile, "default");
    assert_eq!(
        request.env.get("HERDR_SCRATCH_COMMAND_JSON").map(|s| s.as_str()),
        Some("[\"htop\"]")
    );
}

#[test]
fn the_clock_is_formatted_as_rfc3339() {
    let now = now_rfc3339();
    assert!(now.len() >= 20);
    assert!(now.ends_with('Z'));
    assert_eq!(&now[4..5], "-");
    assert_eq!(&now[10..11], "T");
}

fn summary(name: &str, cwd: Option<&str>) -> ScratchpadSummary {
    ScratchpadSummary {
        name: name.to_string(),
        scope: "workspace:w1".to_string(),
        status: "visible".to_string(),
        cwd: cwd.map(|c| c.to_string()),
    }
}

#[test]
fn status_word_names_availability() {
    assert_eq!(status_word(true), "ok");
    assert_eq!(status_word(false), "unavailable");
}

#[test]
fn listing_of_nothing_says_so() {
    assert_eq!(listing_lines(&Vec::new()), vec!["no scratchpads".to_string()]);
}

#[test]
fn listing_lines_are_tab_separated_with_a_dash_for_no_cwd() {
    let lines = listing_lines(&vec![summary("notes", Some("/tmp")), summary("logs", None)]);
    assert_eq!(
        lines,
        vec![
            "notes\tvisible\tworkspace:w1\t/tmp".to_string(),
            "logs\tvisible\tworkspace:w1\t-".to_string(),
        ]
    );
}

#[test]
fn doctor_lines_list_paths_count_and_issues() {
    let report = DoctorReport {
        herdr_available: false,
        config_dir: "/c".to_string(),
        config_path: "/c/config.toml".to_string(),
        state_dir: "/s".to_string(),
        state_path: "/s/registry.json".to_string(),
        scratchpad_count: 12,
        issues: vec!["first".to_string(), "second".to_string()],
    };
    assert_eq!(
        doctor_lines(&report),
        vec![
            "herdr: unavailable".to_string(),
            "config dir: /c".to_string(),
            "config: /c/config.toml".to_string(),
            "state dir: /s".to_string(),
            "state: /s/registry.json".to_string(),
            "scratchpads: 12".to_string(),
            "issue: first".to_string(),
            "issue: second".to_string(),
        ]
    );
}

#[test]
fn text_lines_leave_json_reports_to_the_caller() {
    assert_eq!(text_lines(&Output::Text("hi".to_string())), Some(vec!["hi".to_string()]));
    assert_eq!(text_lines(&Output::Json(summary("notes", None))), None);
    assert_eq!(
        text_lines(&Output::Scratchpads { scratchpads: Vec::new(), json: true }),
        None
    );
    assert_eq!(text_lines(&Output::Session), None);
    assert_eq!(
        text_lines(&Output::WriteConfig { path: "/c/config.toml".to_string(), name: "git".to_string() }),
        Some(vec!["added scratchpad `git` to /c/config.toml".to_string()])
    );
    assert_eq!(
        text_lines(&Output::InitConfig { path: "/c/config.toml".to_string(), force: false }),
        Some(vec!["wrote default config to /c/config.toml".to_string()])
    );
}

#[test]
fn unformattable_time_falls_back_to_the_epoch() {
    assert_eq!(rfc3339_or_epoch(None), "1970-01-01T00:00:00Z");
    assert_eq!(
        rfc3339_or_epoch(Some("2024-05-01T10:00:00Z".to_string())),
        "2024-05-01T10:00:00Z"
    );
}

#[test]
fn the_default_scratchpad_is_workspace_scoped() {
    let config = Config::default();
    let scratch = config.scratchpads.get("scratch").unwrap();
    assert_eq!(scratch.scope, Some(ScopeKind::Workspace));
    assert_eq!(scratch.profile, "default");
}

#[test]
fn titles_fill_in_the_name() {
    assert_eq!(fill_name("scratch:{name}", "notes"), "scratch:notes");
    assert_eq!(fill_name("{name}/{name}", "a"), "a/a");
    assert_eq!(fill_name("{nam}e", "a"), "{nam}e");
    assert_eq!(fill_name("", "a"), "");
}

#[test]
fn config_init_refuses_to_replace_without_force() {
    assert_eq!(
        init_refusal("/c/config.toml", true, false).as_deref(),
        Some("config file already exists at /c/config.toml; use --force to replace it")
    );
    assert_eq!(init_refusal("/c/config.toml", true, true), None);
    assert_eq!(init_refusal("/c/config.toml", false, false), None);
}

#[test]
fn returning_to_the_previous_context_tries_the_pane_then_the_tab() {
    let previous = FocusSnapshot {
        pane_id: Some("w1:p1".to_string()),
        focus_token: Some("w1:t1".to_string()),
        workspace_id: None,
    };
    assert!(matches!(HerdrCli::focus_previous_next(&previous, true), Ok(None)));
    match HerdrCli::focus_previous_next(&previous, false) {
        Ok(Some(args)) => assert_eq!(args, vec!["tab", "focus", "w1:t1"]),
        _ => panic!("expected the tab fallback"),
    }
    let bare = FocusSnapshot { pane_id: None, focus_token: None, workspace_id: None };
    assert!(matches!(
        HerdrCli::focus_previous_next(&bare, true),
        Err(HerdrError::Unsupported(_))
    ));
}

#[test]
fn reply_readers_report_api_errors_and_missing_results() {
    let failed = object(vec![("error", text_json("boom"))]);
    assert!(matches!(plugin_pane_member(failed), Err(HerdrError::Api(_))));
    let empty = object(vec![("id", text_json("x"))]);
    match pane_member(empty) {
        Err(HerdrError::MissingField(f)) => assert_eq!(f, "result"),
        _ => panic!("expected a missing result"),
    }
    let failed_tab = object(vec![("error", text_json("boom"))]);
    assert!(matches!(tab_member(failed_tab), Err(HerdrError::Api(_))));
}

fn text_json(s: &str) -> Json {
    Json::String(s.to_string())
}

#[test]
fn configuration_words_read_back() {
    for p in [ScratchpadPlacement::Split, ScratchpadPlacement::Tab] {
        assert_eq!(ScratchpadPlacement::parse(p.as_str()), Some(p));
    }
    for d in [SplitDirection::Right, SplitDirection::Down] {
        assert_eq!(SplitDirection::parse(d.as_str()), Some(d));
    }
    assert_eq!(ScratchpadPlacement::parse("overlay"), None);
    assert_eq!(SplitDirection::parse("left"), None);
}

#[test]
fn an_empty_socket_reply_is_an_error() {
    assert!(matches!(socket_reply(0, String::new()), Err(HerdrError::Unsupported(_))));
    match socket_reply(3, "  \n".to_string()) {
        Err(HerdrError::Unsupported(m)) => assert_eq!(m, "Herdr socket returned an empty response"),
        _ => panic!("expected an empty reply"),
    }
    assert_eq!(socket_reply(3, "{}\n".to_string()).unwrap(), "{}\n");
}

#[test]
fn discovered_paths_come_from_the_variables_or_below_a_base() {
    let p = Paths::discover(Some("/c".to_string()), Some("/s".to_string()), None);
    assert_eq!(p.config_dir, "/c");
    assert_eq!(p.registry_file, "/s/registry.json");
    let q = Paths::discover(None, Some(String::new()), Some("/work".to_string()));
    assert!(q.config_dir.ends_with("/herdr-scratch"));
    assert!(q.state_dir.ends_with("/herdr-scratch"));
    assert_eq!(q.config_file, format!("{}/config.toml", q.config_dir));
}

#[test]
fn no_tab_to_return_to_is_reported() {
    let bare = FocusSnapshot { pane_id: None, focus_token: None, workspace_id: None };
    match HerdrCli::focus_previous_fallback(&bare) {
        Err(HerdrError::Unsupported(m)) => {
            assert_eq!(m, "previous context does not include a focusable tab")
        }
        _ => panic!("expected the missing tab"),
    }
}
