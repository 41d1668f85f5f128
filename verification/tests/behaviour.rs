use std::cell::{Cell, RefCell};

use herdr_scratch::cli::{
    Command, ConfigAddArgs, ConfigArgs, ConfigSubcommand, JsonArg, NameArg, OpenArgs,
    RenameArgs, SendArgs, StatusArgs,
};
use herdr_scratch::config::{Config, CwdMode, Paths, ScopeKind};
use herdr_scratch::herdr::{
    Herdr, HerdrCli, HerdrError, OpenScratchpadRequest, PaneInfo, TabInfo,
};
use herdr_scratch::json::Json;
use herdr_scratch::registry::{
    FocusSnapshot, LifecycleStatus, Registry, RuntimeHandle, ScopeRecord, ScratchpadRecord,
};
use herdr_scratch::scratchpad::{InvocationContext, Output, ScratchApp, ScratchError};
use herdr_scratch::text_map::TextMap;

/// A Herdr that reports a fixed current pane and records what it is asked.
struct FakeHerdr {
    current: Option<&'static str>,
    live: bool,
    opened: Cell<u32>,
    focused: Cell<u32>,
    sent: RefCell<Vec<String>>,
    command_json: RefCell<Option<String>>,
    titles: RefCell<Vec<String>>,
    closed: Cell<u32>,
    returned: Cell<u32>,
}

impl FakeHerdr {
    fn new(current: Option<&'static str>, live: bool) -> Self {
        FakeHerdr {
            current,
            live,
            opened: Cell::new(0),
            focused: Cell::new(0),
            sent: RefCell::new(Vec::new()),
            command_json: RefCell::new(None),
            titles: RefCell::new(Vec::new()),
            closed: Cell::new(0),
            returned: Cell::new(0),
        }
    }
}

fn pane(id: &str) -> PaneInfo {
    PaneInfo {
        pane_id: id.to_string(),
        workspace_id: "w1".to_string(),
        tab_id: "w1:t1".to_string(),
        focused: true,
        cwd: Some("/repo".to_string()),
    }
}

impl Herdr for FakeHerdr {
    fn available(&self) -> bool {
        false
    }
    fn current_pane(&self) -> Result<PaneInfo, HerdrError> {
        match self.current {
            Some(id) => Ok(pane(id)),
            None => Err(HerdrError::Unsupported("no pane".to_string())),
        }
    }
    fn pane_get(&self, pane_id: &str) -> Result<PaneInfo, HerdrError> {
        if self.live {
            Ok(pane(pane_id))
        } else {
            Err(HerdrError::MissingField("result.pane".to_string()))
        }
    }
    fn tab_get(&self, tab_id: &str) -> Result<TabInfo, HerdrError> {
        Ok(TabInfo {
            tab_id: tab_id.to_string(),
            workspace_id: "w1".to_string(),
            focused: false,
        })
    }
    fn focus_handle(&self, _handle: &RuntimeHandle) -> Result<(), HerdrError> {
        self.focused.set(self.focused.get() + 1);
        Ok(())
    }
    fn focus_previous(&self, _previous: &FocusSnapshot) -> Result<(), HerdrError> {
        self.returned.set(self.returned.get() + 1);
        Ok(())
    }
    fn open_scratchpad(&self, request: OpenScratchpadRequest) -> Result<RuntimeHandle, HerdrError> {
        self.opened.set(self.opened.get() + 1);
        *self.command_json.borrow_mut() = request
            .env
            .get("HERDR_SCRATCH_COMMAND_JSON")
            .cloned();
        Ok(HerdrCli::handle_for_opened_pane(pane("w1:p9"), request.placement))
    }
    fn rename_handle(&self, _handle: &RuntimeHandle, title: &str) -> Result<(), HerdrError> {
        self.titles.borrow_mut().push(title.to_string());
        Ok(())
    }
    fn close_handle(&self, _handle: &RuntimeHandle) -> Result<(), HerdrError> {
        self.closed.set(self.closed.get() + 1);
        Ok(())
    }
    fn send_text(&self, _handle: &RuntimeHandle, text: &str) -> Result<(), HerdrError> {
        self.sent.borrow_mut().push(text.to_string());
        Ok(())
    }
    fn run_command(&self, _handle: &RuntimeHandle, command: &str) -> Result<(), HerdrError> {
        self.sent.borrow_mut().push(command.to_string());
        Ok(())
    }
}

fn paths() -> Paths {
    Paths::from_dirs(
        Some("/cfg".to_string()),
        Some("/state".to_string()),
        None,
        None,
        None,
        None,
    )
}

fn record(name: &str, kind: &str, key: &str, pane_id: Option<&str>) -> ScratchpadRecord {
    ScratchpadRecord {
        name: name.to_string(),
        scope: ScopeRecord {
            kind: kind.to_string(),
            key: key.to_string(),
        },
        profile: "default".to_string(),
        status: LifecycleStatus::Visible,
        handle: pane_id.map(|p| RuntimeHandle {
            kind: "herdr".to_string(),
            pane_id: Some(p.to_string()),
            workspace_id: Some("w1".to_string()),
            opaque: TextMap::new(),
        }),
        cwd: Some("/repo".to_string()),
        created_at: "2024-01-01T00:00:00Z".to_string(),
        last_shown_at: "2024-01-01T00:00:00Z".to_string(),
        last_hidden_at: Some("2024-01-02T00:00:00Z".to_string()),
        previous_focus: None,
    }
}

fn app_with(registry: Registry, herdr: FakeHerdr) -> ScratchApp<FakeHerdr> {
    ScratchApp::new(
        Config::default(),
        registry,
        paths(),
        herdr,
        InvocationContext::default(),
    )
}

fn text_of(r: Result<Output, ScratchError>) -> String {
    match r {
        Ok(Output::Text(t)) => t,
        other => panic!("expected text, got {other:?}"),
    }
}

fn open(name: &str) -> Command {
    Command::Open(OpenArgs {
        name: Some(name.to_string()),
        command: Vec::new(),
    })
}

#[test]
fn open_creates_a_visible_record_under_the_workspace_key() {
    let mut app = app_with(Registry::default(), FakeHerdr::new(Some("w1:p1"), true));
    let text = text_of(app.handle(open("notes")));
    assert_eq!(text, "opened scratchpad `notes`");
    assert!(app.save_pending());
    let rec = app.registry().scratchpads.get("workspace:w1:notes").unwrap();
    assert_eq!(rec.status, LifecycleStatus::Visible);
    assert_eq!(rec.profile, "default");
    assert_eq!(rec.cwd.as_deref(), Some("/repo"));
    assert_eq!(rec.created_at, rec.last_shown_at);
    assert!(rec.last_hidden_at.is_none());
    let handle = rec.handle.as_ref().unwrap();
    assert_eq!(handle.pane_id.as_deref(), Some("w1:p9"));
    let snapshot = rec.previous_focus.as_ref().unwrap();
    assert_eq!(snapshot.pane_id.as_deref(), Some("w1:p1"));
    assert_eq!(snapshot.focus_token.as_deref(), Some("w1:t1"));
}

#[test]
fn open_reuses_a_live_runtime() {
    let mut registry = Registry::default();
    registry.insert(
        "workspace:w1:notes".to_string(),
        record("notes", "workspace", "w1", Some("w1:p5")),
    );
    let mut app = app_with(registry, FakeHerdr::new(Some("w1:p1"), true));
    let text = text_of(app.handle(open("notes")));
    assert_eq!(text, "opened scratchpad `notes`");
    let rec = app.registry().scratchpads.get("workspace:w1:notes").unwrap();
    assert_eq!(rec.handle.as_ref().unwrap().pane_id.as_deref(), Some("w1:p5"));
    assert_eq!(rec.created_at, "2024-01-01T00:00:00Z");
    assert_eq!(app.herdr().opened.get(), 0);
    assert_eq!(app.herdr().focused.get(), 1);
}

#[test]
fn open_repairs_a_stale_record() {
    let mut registry = Registry::default();
    registry.insert(
        "workspace:w1:notes".to_string(),
        record("notes", "workspace", "w1", Some("w1:p5")),
    );
    let mut app = app_with(registry, FakeHerdr::new(Some("w1:p1"), false));
    text_of(app.handle(open("notes")));
    let rec = app.registry().scratchpads.get("workspace:w1:notes").unwrap();
    assert_eq!(rec.status, LifecycleStatus::Visible);
    assert_eq!(rec.handle.as_ref().unwrap().pane_id.as_deref(), Some("w1:p9"));
    assert_eq!(rec.created_at, "2024-01-01T00:00:00Z");
    assert_eq!(rec.last_hidden_at.as_deref(), Some("2024-01-02T00:00:00Z"));
}

#[test]
fn open_with_a_command_passes_it_to_the_session() {
    let mut app = app_with(Registry::default(), FakeHerdr::new(Some("w1:p1"), true));
    let command = Command::Open(OpenArgs {
        name: Some("lazygit".to_string()),
        command: vec!["lazygit".to_string()],
    });
    text_of(app.handle(command));
    let json = app.herdr().command_json.borrow().clone();
    assert_eq!(json.as_deref(), Some("[\"lazygit\"]"));
    assert_eq!(app.herdr().opened.get(), 1);
}

#[test]
fn toggle_on_the_active_scratchpad_leaves_it() {
    let mut registry = Registry::default();
    registry.insert(
        "workspace:w1:notes".to_string(),
        record("notes", "workspace", "w1", Some("w1:p5")),
    );
    let mut app = app_with(registry, FakeHerdr::new(Some("w1:p5"), true));
    let command = Command::Toggle(OpenArgs {
        name: Some("notes".to_string()),
        command: Vec::new(),
    });
    let text = text_of(app.handle(command));
    assert_eq!(text, "left scratchpad `notes`");
    let rec = app.registry().scratchpads.get("workspace:w1:notes").unwrap();
    assert_eq!(rec.status, LifecycleStatus::Available);
    assert_eq!(rec.handle.as_ref().unwrap().pane_id.as_deref(), Some("w1:p5"));
    assert!(rec.last_hidden_at.as_deref() != Some("2024-01-02T00:00:00Z"));
}

#[test]
fn close_forgets_the_runtime() {
    let mut registry = Registry::default();
    registry.insert(
        "workspace:w1:notes".to_string(),
        record("notes", "workspace", "w1", Some("w1:p5")),
    );
    let mut app = app_with(registry, FakeHerdr::new(Some("w1:p1"), true));
    let text = text_of(app.handle(Command::Close(NameArg {
        name: Some("notes".to_string()),
    })));
    assert_eq!(text, "closed scratchpad `notes`");
    let rec = app.registry().scratchpads.get("workspace:w1:notes").unwrap();
    assert_eq!(rec.status, LifecycleStatus::Closed);
    assert!(rec.handle.is_none());
    assert!(app.save_pending());
    assert_eq!(app.herdr().closed.get(), 1);
}

#[test]
fn a_new_pane_gets_the_configured_title() {
    let mut app = app_with(Registry::default(), FakeHerdr::new(Some("w1:p1"), true));
    text_of(app.handle(open("notes")));
    assert_eq!(*app.herdr().titles.borrow(), vec!["scratch:notes".to_string()]);
}

#[test]
fn a_reused_runtime_is_not_renamed_or_reopened() {
    let mut registry = Registry::default();
    registry.insert(
        "workspace:w1:notes".to_string(),
        record("notes", "workspace", "w1", Some("w1:p5")),
    );
    let mut app = app_with(registry, FakeHerdr::new(Some("w1:p1"), true));
    text_of(app.handle(open("notes")));
    assert!(app.herdr().titles.borrow().is_empty());
    assert_eq!(app.herdr().opened.get(), 0);
}

#[test]
fn hide_returns_to_where_focus_was() {
    let mut registry = Registry::default();
    let mut rec = record("notes", "workspace", "w1", Some("w1:p5"));
    rec.previous_focus = Some(FocusSnapshot {
        pane_id: Some("w1:p1".to_string()),
        focus_token: Some("w1:t1".to_string()),
        workspace_id: Some("w1".to_string()),
    });
    registry.insert("workspace:w1:notes".to_string(), rec);
    let mut app = app_with(registry, FakeHerdr::new(Some("w1:p5"), true));
    let text = text_of(app.handle(Command::Hide(NameArg { name: Some("notes".to_string()) })));
    assert_eq!(text, "left scratchpad `notes`");
    assert_eq!(app.herdr().returned.get(), 1);
}

#[test]
fn close_of_an_unknown_scratchpad_reports_it() {
    let mut app = app_with(Registry::default(), FakeHerdr::new(None, true));
    let text = text_of(app.handle(Command::Close(NameArg { name: None })));
    assert_eq!(text, "scratchpad `scratch` is not open");
    assert!(!app.save_pending());
    assert_eq!(app.registry().scratchpads.len(), 0);
}

#[test]
fn rename_moves_every_record_of_the_name() {
    let mut registry = Registry::default();
    registry.insert(
        "workspace:w1:old".to_string(),
        record("old", "workspace", "w1", Some("w1:p5")),
    );
    registry.insert(
        "global:default:old".to_string(),
        record("old", "global", "default", None),
    );
    registry.insert(
        "workspace:w1:other".to_string(),
        record("other", "workspace", "w1", None),
    );
    let mut app = app_with(registry, FakeHerdr::new(None, true));
    let text = text_of(app.handle(Command::Rename(RenameArgs {
        old: "old".to_string(),
        new: "  new ".to_string(),
    })));
    assert_eq!(text, "renamed scratchpad `old` to `new`");
    let scratchpads = &app.registry().scratchpads;
    assert_eq!(scratchpads.len(), 3);
    assert!(scratchpads.get("workspace:w1:old").is_none());
    assert_eq!(scratchpads.get("workspace:w1:new").unwrap().name, "new");
    assert_eq!(scratchpads.get("global:default:new").unwrap().name, "new");
    assert_eq!(scratchpads.get("workspace:w1:other").unwrap().name, "other");
}

#[test]
fn rename_of_an_unknown_name_fails_and_changes_nothing() {
    let mut app = app_with(Registry::default(), FakeHerdr::new(None, true));
    let r = app.handle(Command::Rename(RenameArgs {
        old: "ghost".to_string(),
        new: "new".to_string(),
    }));
    assert!(matches!(r, Err(ScratchError::NotFound { ref name }) if name == "ghost"));
    assert!(!app.save_pending());
}

#[test]
fn rename_to_an_empty_name_fails() {
    let mut app = app_with(Registry::default(), FakeHerdr::new(None, true));
    let r = app.handle(Command::Rename(RenameArgs {
        old: "ghost".to_string(),
        new: " \t".to_string(),
    }));
    assert!(matches!(r, Err(ScratchError::EmptyName)));
}

#[test]
fn focus_of_a_dead_runtime_fails_and_changes_nothing() {
    let mut registry = Registry::default();
    registry.insert(
        "workspace:w1:notes".to_string(),
        record("notes", "workspace", "w1", Some("w1:p5")),
    );
    let mut app = app_with(registry, FakeHerdr::new(Some("w1:p1"), false));
    let r = app.handle(Command::Focus(NameArg {
        name: Some("notes".to_string()),
    }));
    assert!(matches!(r, Err(ScratchError::Herdr(_))));
    assert!(!app.save_pending());
    let rec = app.registry().scratchpads.get("workspace:w1:notes").unwrap();
    assert_eq!(rec.last_shown_at, "2024-01-01T00:00:00Z");
}

#[test]
fn focus_without_a_runtime_fails() {
    let mut registry = Registry::default();
    registry.insert(
        "workspace:w1:notes".to_string(),
        record("notes", "workspace", "w1", None),
    );
    let mut app = app_with(registry, FakeHerdr::new(Some("w1:p1"), true));
    let r = app.handle(Command::Focus(NameArg {
        name: Some("notes".to_string()),
    }));
    assert!(matches!(r, Err(ScratchError::NoLiveRuntime { ref name }) if name == "notes"));
}

#[test]
fn send_joins_the_text_with_spaces() {
    let mut registry = Registry::default();
    registry.insert(
        "workspace:w1:notes".to_string(),
        record("notes", "workspace", "w1", Some("w1:p5")),
    );
    let mut app = app_with(registry, FakeHerdr::new(Some("w1:p1"), true));
    let text = text_of(app.handle(Command::Send(SendArgs {
        name: "notes".to_string(),
        text: vec!["git".to_string(), "status".to_string()],
    })));
    assert_eq!(text, "sent text to scratchpad `notes`");
    assert_eq!(app.herdr().sent.borrow().clone(), vec!["git status".to_string()]);
    assert!(!app.save_pending());
}

#[test]
fn send_to_an_unknown_scratchpad_fails() {
    let mut app = app_with(Registry::default(), FakeHerdr::new(Some("w1:p1"), true));
    let r = app.handle(Command::Send(SendArgs {
        name: "notes".to_string(),
        text: vec!["x".to_string()],
    }));
    assert!(matches!(r, Err(ScratchError::NotFound { ref name }) if name == "notes"));
}

#[test]
fn status_of_an_unknown_scratchpad_is_closed() {
    let mut app = app_with(Registry::default(), FakeHerdr::new(Some("w1:p1"), true));
    let r = app.handle(Command::Status(StatusArgs {
        name: Some("notes".to_string()),
        json: true,
    }));
    match r {
        Ok(Output::Json(s)) => {
            assert_eq!(s.name, "notes");
            assert_eq!(s.scope, "workspace:w1");
            assert_eq!(s.status, "closed");
            assert!(s.cwd.is_none());
        }
        other => panic!("unexpected {other:?}"),
    }
}

#[test]
fn list_reports_records_in_key_order() {
    let mut registry = Registry::default();
    registry.insert("workspace:w1:b".to_string(), record("b", "workspace", "w1", None));
    registry.insert("global:default:a".to_string(), record("a", "global", "default", None));
    let mut app = app_with(registry, FakeHerdr::new(None, true));
    match app.handle(Command::List(JsonArg { json: false })) {
        Ok(Output::Scratchpads { scratchpads, json }) => {
            assert!(!json);
            assert_eq!(scratchpads.len(), 2);
            assert_eq!(scratchpads[0].name, "a");
            assert_eq!(scratchpads[0].scope, "global:default");
            assert_eq!(scratchpads[1].name, "b");
            assert_eq!(scratchpads[1].status, "visible");
        }
        other => panic!("unexpected {other:?}"),
    }
}

#[test]
fn doctor_reports_a_missing_herdr_and_a_wrong_version() {
    let mut config = Config::default();
    config.version = 12;
    let mut app = ScratchApp::new(
        config,
        Registry::default(),
        paths(),
        FakeHerdr::new(None, true),
        InvocationContext::default(),
    );
    match app.handle(Command::Doctor(JsonArg { json: false })) {
        Ok(Output::Doctor { report, .. }) => {
            assert!(!report.herdr_available);
            assert_eq!(report.config_path, "/cfg/config.toml");
            assert_eq!(report.state_path, "/state/registry.json");
            assert_eq!(report.scratchpad_count, 0);
            assert_eq!(
                report.issues,
                vec![
                    "Herdr CLI is not available; set HERDR_BIN_PATH or add herdr to PATH"
                        .to_string(),
                    "unsupported config version 12; expected 1".to_string(),
                ]
            );
        }
        other => panic!("unexpected {other:?}"),
    }
}

#[test]
fn config_add_records_the_scratchpad_and_profile() {
    let mut app = app_with(Registry::default(), FakeHerdr::new(None, true));
    let r = app.handle(Command::Config(ConfigArgs {
        command: ConfigSubcommand::Add(ConfigAddArgs {
            name: "lazygit".to_string(),
            scope: Some("cwd".to_string()),
            cwd: Some("/work".to_string()),
            command: vec!["lazygit".to_string()],
        }),
    }));
    match r {
        Ok(Output::WriteConfig { path, name }) => {
            assert_eq!(path, "/cfg/config.toml");
            assert_eq!(name, "lazygit");
        }
        other => panic!("unexpected {other:?}"),
    }
    let config = app.config();
    let profile = config.profiles.get("lazygit").unwrap();
    assert_eq!(profile.command, vec!["lazygit".to_string()]);
    assert_eq!(profile.cwd, CwdMode::Path("/work".to_string()));
    let scratchpad = config.scratchpads.get("lazygit").unwrap();
    assert_eq!(scratchpad.profile, "lazygit");
    assert_eq!(scratchpad.scope, Some(ScopeKind::Cwd));
}

#[test]
fn config_add_rejects_an_unknown_scope() {
    let mut app = app_with(Registry::default(), FakeHerdr::new(None, true));
    let r = app.handle(Command::Config(ConfigArgs {
        command: ConfigSubcommand::Add(ConfigAddArgs {
            name: "lazygit".to_string(),
            scope: Some("planet".to_string()),
            cwd: None,
            command: vec!["lazygit".to_string()],
        }),
    }));
    assert!(matches!(r, Err(ScratchError::UnknownScope { ref value }) if value == "planet"));
    assert!(app.config().profiles.get("lazygit").is_none());
}

#[test]
fn scope_of_a_configured_scratchpad_comes_from_its_config() {
    let mut config = Config::default();
    config.add_scratchpad("g".to_string(), Some(ScopeKind::Global), CwdMode::Home, Vec::new());
    let mut app = ScratchApp::new(
        config,
        Registry::default(),
        paths(),
        FakeHerdr::new(Some("w1:p1"), true),
        InvocationContext::default(),
    );
    text_of(app.handle(open("g")));
    assert!(app.registry().scratchpads.get("global:default:g").is_some());
}

#[test]
fn failing_herdr_leaves_the_registry_alone() {
    let mut registry = Registry::default();
    registry.insert(
        "workspace:w1:notes".to_string(),
        record("notes", "workspace", "w1", Some("w1:p5")),
    );
    let mut app = app_with(registry, FakeHerdr::new(Some("w1:p1"), false));
    let before = app.registry().scratchpads.len();
    let r = app.handle(Command::Focus(NameArg {
        name: Some("notes".to_string()),
    }));
    assert!(r.is_err());
    assert_eq!(app.registry().scratchpads.len(), before);
    assert!(!app.save_pending());
}

#[test]
fn opaque_json_survives_in_handles() {
    let mut opaque = TextMap::new();
    opaque.insert("tab_id".to_string(), Json::String("w1:t3".to_string()));
    let handle = RuntimeHandle {
        kind: "herdr".to_string(),
        pane_id: None,
        workspace_id: None,
        opaque,
    };
    assert_eq!(handle.focus_token().map(|s| s.as_str()), Some("w1:t3"));
}
