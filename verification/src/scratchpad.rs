//! Scratchpad orchestration: names, scopes, and what each command does to
//! the registry.
use vstd::prelude::*;

use crate::cli::{Command, ConfigAddArgs, ConfigSubcommand};
use crate::config::{spec_scope_word, Config, CwdMode, Paths, ProfileConfig, ScopeKind};
use crate::herdr::{
    ask_available, ask_close, ask_current, ask_focus, ask_focus_previous, ask_open, ask_pane,
    ask_rename, ask_run, ask_send, ask_tab, Herdr, HerdrCall, HerdrError, OpenScratchpadRequest,
    PaneInfo,
};
use crate::text_map::TextMap;
use crate::registry::RuntimeHandle;
use crate::registry::{
    now_rfc3339, registry_key, spec_registry_key, spec_status_word, FocusSnapshot,
    LifecycleStatus, Registry, RegistryStore, ScopeRecord, ScratchpadRecord,
};
use crate::text::{
    contains_control, fill_name, has_control, owned, spec_fill_name, spec_join_words, trim, trimmed,
    views,
};

verus! {

/// Why a command failed.
#[derive(Debug)]
pub enum ScratchError {
    /// The scratchpad name is empty once trimmed.
    EmptyName,
    /// The scratchpad name holds a control character.
    ControlCharacterInName,
    /// No scratchpad of that name is known.
    NotFound { name: String },
    /// The scratchpad has no runtime handle.
    NoLiveRuntime { name: String },
    /// The scratchpad's runtime handle names no pane.
    MissingPaneHandle,
    /// `config add --scope` named no scope.
    UnknownScope { value: String },
    /// The profile's command could not be encoded for the session.
    CommandEncoding,
    /// Herdr refused or failed an operation.
    Herdr(HerdrError),
}

/// A name trimmed of surrounding white space, or why it is no scratchpad name.
pub open spec fn spec_normalize(raw: Seq<char>) -> Result<Seq<char>, ScratchError> {
    let t = trim(raw);
    if t.len() == 0 {
        Err(ScratchError::EmptyName)
    } else if has_control(t) {
        Err(ScratchError::ControlCharacterInName)
    } else {
        Ok(t)
    }
}

/// The scratchpad name that `raw` gives: trimmed of surrounding white space;
/// it must not be empty nor hold a control character.
pub fn normalize_name(raw: &str) -> (r: Result<String, ScratchError>)
    ensures
        match r {
            Ok(n) => spec_normalize(raw@) == Ok::<Seq<char>, ScratchError>(n@),
            Err(e) => spec_normalize(raw@) == Err::<Seq<char>, ScratchError>(e),
        },
{
    let name = trimmed(raw);
    if name.as_str().unicode_len() == 0 {
        return Err(ScratchError::EmptyName);
    }
    if contains_control(name.as_str()) {
        return Err(ScratchError::ControlCharacterInName);
    }
    Ok(name)
}

/// What Herdr says of the context in which the plugin was invoked, and the
/// working directory of the process.
#[derive(Debug, Clone, Default)]
pub struct InvocationContext {
    pub workspace_id: Option<String>,
    pub workspace_cwd: Option<String>,
    pub tab_id: Option<String>,
    pub focused_pane_id: Option<String>,
    pub focused_pane_cwd: Option<String>,
    pub process_cwd: Option<String>,
}

/// The working directory of the context: the focused pane's, else the
/// workspace's, else the process's.
pub open spec fn spec_context_cwd(c: InvocationContext) -> Option<String> {
    match c.focused_pane_cwd {
        Some(d) => Some(d),
        None => match c.workspace_cwd {
            Some(d) => Some(d),
            None => c.process_cwd,
        },
    }
}

/// The context completed from the current pane: each field that the context
/// lacks is taken from the pane.
pub open spec fn spec_with_current(c: InvocationContext, current: Option<PaneInfo>) -> InvocationContext {
    match current {
        None => c,
        Some(p) => InvocationContext {
            workspace_id: if c.workspace_id is None {
                Some(p.workspace_id)
            } else {
                c.workspace_id
            },
            tab_id: if c.tab_id is None {
                Some(p.tab_id)
            } else {
                c.tab_id
            },
            focused_pane_id: if c.focused_pane_id is None {
                Some(p.pane_id)
            } else {
                c.focused_pane_id
            },
            focused_pane_cwd: if c.focused_pane_cwd is None {
                p.cwd
            } else {
                c.focused_pane_cwd
            },
            ..c
        },
    }
}

/// A copy of an optional string.
pub fn copy_text(s: &Option<String>) -> (r: Option<String>)
    ensures
        r == *s,
{
    match s {
        Some(t) => Some(t.clone()),
        None => None,
    }
}

impl InvocationContext {
    /// A copy of the context.
    pub fn duplicate(&self) -> (r: InvocationContext)
        ensures
            r == *self,
    {
        InvocationContext {
            workspace_id: copy_text(&self.workspace_id),
            workspace_cwd: copy_text(&self.workspace_cwd),
            tab_id: copy_text(&self.tab_id),
            focused_pane_id: copy_text(&self.focused_pane_id),
            focused_pane_cwd: copy_text(&self.focused_pane_cwd),
            process_cwd: copy_text(&self.process_cwd),
        }
    }

    /// The working directory of the context.
    pub fn context_cwd(&self) -> (r: Option<String>)
        ensures
            r == spec_context_cwd(*self),
    {
        match &self.focused_pane_cwd {
            Some(d) => Some(d.clone()),
            None => match &self.workspace_cwd {
                Some(d) => Some(d.clone()),
                None => copy_text(&self.process_cwd),
            },
        }
    }

    /// The context, with what it lacks taken from the current pane.
    pub fn with_current(self, current: Option<&PaneInfo>) -> (r: InvocationContext)
        ensures
            r == spec_with_current(
                self,
                match current {
                    Some(p) => Some(*p),
                    None => None,
                },
            ),
    {
        let current = match current {
            Some(c) => c,
            None => {
                return self;
            },
        };
        let mut ctx = self;
        if ctx.workspace_id.is_none() {
            ctx.workspace_id = Some(current.workspace_id.clone());
        }
        if ctx.tab_id.is_none() {
            ctx.tab_id = Some(current.tab_id.clone());
        }
        if ctx.focused_pane_id.is_none() {
            ctx.focused_pane_id = Some(current.pane_id.clone());
        }
        if ctx.focused_pane_cwd.is_none() {
            ctx.focused_pane_cwd = copy_text(&current.cwd);
        }
        ctx
    }
}

/// The kind word and key of a scope in a context: `global:default`, the
/// workspace, or the working directory; `unknown` where the context does not
/// say.
pub open spec fn spec_scope(kind: ScopeKind, c: InvocationContext) -> (Seq<char>, Seq<char>) {
    match kind {
        ScopeKind::Global => ("global"@, "default"@),
        ScopeKind::Workspace => (
            "workspace"@,
            match c.workspace_id {
                Some(w) => w@,
                None => "unknown"@,
            },
        ),
        ScopeKind::Cwd => (
            "cwd"@,
            match spec_context_cwd(c) {
                Some(d) => d@,
                None => "unknown"@,
            },
        ),
    }
}

/// The scope record of a scope kind in a context.
pub fn resolve_scope(kind: ScopeKind, context: &InvocationContext) -> (s: ScopeRecord)
    ensures
        (s.kind@, s.key@) == spec_scope(kind, *context),
{
    match kind {
        ScopeKind::Global => ScopeRecord { kind: owned("global"), key: owned("default") },
        ScopeKind::Workspace => ScopeRecord {
            kind: owned("workspace"),
            key: match &context.workspace_id {
                Some(w) => w.clone(),
                None => owned("unknown"),
            },
        },
        ScopeKind::Cwd => ScopeRecord {
            kind: owned("cwd"),
            key: match context.context_cwd() {
                Some(d) => d,
                None => owned("unknown"),
            },
        },
    }
}

/// The user's home directory, as the `dirs` crate finds it; it depends on
/// the environment, so nothing is stated of it.
#[verifier::external_body]
fn home_dir() -> Option<String> {
    dirs::home_dir().map(|p| p.to_string_lossy().into_owned())
}

/// Where a profile's shell starts, for the modes that do not depend on the
/// home directory: the context's directory, the workspace's (else the
/// context's), or the profile's path.
pub open spec fn spec_cwd(mode: CwdMode, c: InvocationContext) -> Option<Seq<char>> {
    match mode {
        CwdMode::Context => match spec_context_cwd(c) {
            Some(d) => Some(d@),
            None => None,
        },
        CwdMode::Workspace => match c.workspace_cwd {
            Some(d) => Some(d@),
            None => match spec_context_cwd(c) {
                Some(d) => Some(d@),
                None => None,
            },
        },
        CwdMode::Home => None,
        CwdMode::Path(p) => Some(p@),
    }
}

/// Where a profile's shell starts, given the user's home directory `home`.
pub fn cwd_with_home(profile: &ProfileConfig, context: &InvocationContext, home: Option<String>) -> (r: Option<String>)
    ensures
        opt_view(r) == (if profile.cwd == CwdMode::Home {
            opt_view(home)
        } else {
            spec_cwd(profile.cwd, *context)
        }),
{
    match &profile.cwd {
        CwdMode::Context => context.context_cwd(),
        CwdMode::Workspace => match &context.workspace_cwd {
            Some(d) => Some(d.clone()),
            None => context.context_cwd(),
        },
        CwdMode::Home => home,
        CwdMode::Path(p) => Some(p.clone()),
    }
}

/// Where a profile's shell starts. For the home mode, the home directory,
/// which is looked up only then.
pub fn resolve_cwd(profile: &ProfileConfig, context: &InvocationContext) -> (r: Option<String>)
    ensures
        profile.cwd != CwdMode::Home ==> opt_view(r) == spec_cwd(profile.cwd, *context),
{
    let home = match &profile.cwd {
        CwdMode::Home => home_dir(),
        _ => None,
    };
    cwd_with_home(profile, context, home)
}

/// One line of `list` or `status`.
#[derive(Debug, Clone)]
pub struct ScratchpadSummary {
    pub name: String,
    pub scope: String,
    pub status: String,
    pub cwd: Option<String>,
}

/// Whether `s` summarises `record`: its name, `kind:key` scope, lifecycle
/// word and start directory.
pub open spec fn summarises(s: ScratchpadSummary, record: ScratchpadRecord) -> bool {
    &&& s.name == record.name
    &&& s.scope@ == record.scope.text()
    &&& s.status@ == spec_status_word(record.status)
    &&& s.cwd == record.cwd
}

/// The summary of a record.
pub fn summary_for(record: &ScratchpadRecord) -> (s: ScratchpadSummary)
    ensures
        summarises(s, *record),
{
    ScratchpadSummary {
        name: record.name.clone(),
        scope: record.scope.to_string(),
        status: record.status.to_string(),
        cwd: copy_text(&record.cwd),
    }
}

/// What `doctor` reports.
#[derive(Debug, Clone)]
pub struct DoctorReport {
    pub herdr_available: bool,
    pub config_dir: String,
    pub config_path: String,
    pub state_dir: String,
    pub state_path: String,
    pub scratchpad_count: usize,
    pub issues: Vec<String>,
}

/// The decimal digits of a number.
pub open spec fn spec_decimal(n: nat) -> Seq<char>
    decreases n,
{
    if n < 10 {
        seq![digit_char(n)]
    } else {
        spec_decimal(n / 10) + seq![digit_char(n % 10)]
    }
}

pub open spec fn digit_char(d: nat) -> char {
    if d == 0 {
        '0'
    } else if d == 1 {
        '1'
    } else if d == 2 {
        '2'
    } else if d == 3 {
        '3'
    } else if d == 4 {
        '4'
    } else if d == 5 {
        '5'
    } else if d == 6 {
        '6'
    } else if d == 7 {
        '7'
    } else if d == 8 {
        '8'
    } else {
        '9'
    }
}

fn digit_text(d: u64) -> (r: &'static str)
    requires
        d < 10,
    ensures
        r@ == seq![digit_char(d as nat)],
{
    proof {
        reveal_strlit("0");
        reveal_strlit("1");
        reveal_strlit("2");
        reveal_strlit("3");
        reveal_strlit("4");
        reveal_strlit("5");
        reveal_strlit("6");
        reveal_strlit("7");
        reveal_strlit("8");
        reveal_strlit("9");
    }
    if d == 0 {
        "0"
    } else if d == 1 {
        "1"
    } else if d == 2 {
        "2"
    } else if d == 3 {
        "3"
    } else if d == 4 {
        "4"
    } else if d == 5 {
        "5"
    } else if d == 6 {
        "6"
    } else if d == 7 {
        "7"
    } else if d == 8 {
        "8"
    } else {
        "9"
    }
}

/// A number in decimal.
pub fn decimal(n: u64) -> (r: String)
    ensures
        r@ == spec_decimal(n as nat),
    decreases n,
{
    if n < 10 {
        owned(digit_text(n))
    } else {
        let mut r = decimal(n / 10);
        r.append(digit_text(n % 10));
        r
    }
}

pub open spec fn unavailable_issue() -> Seq<char> {
    "Herdr CLI is not available; set HERDR_BIN_PATH or add herdr to PATH"@
}

pub open spec fn version_issue(version: u32) -> Seq<char> {
    "unsupported config version "@ + spec_decimal(version as nat) + "; expected 1"@
}

/// The issues that `doctor` reports: Herdr missing, and a config version
/// other than 1.
pub open spec fn spec_issues(available: bool, version: u32) -> Seq<Seq<char>> {
    (if available {
        Seq::empty()
    } else {
        seq![unavailable_issue()]
    }) + (if version != 1 {
        seq![version_issue(version)]
    } else {
        Seq::empty()
    })
}

/// The issues that `doctor` reports.
pub fn doctor_issues(available: bool, version: u32) -> (issues: Vec<String>)
    ensures
        views(issues@) == spec_issues(available, version),
{
    let mut issues: Vec<String> = Vec::new();
    if !available {
        issues.push(owned("Herdr CLI is not available; set HERDR_BIN_PATH or add herdr to PATH"));
    }
    let ghost first = views(issues@);
    if version != 1 {
        let mut text = owned("unsupported config version ");
        let digits = decimal(version as u64);
        text.append(digits.as_str());
        text.append("; expected 1");
        issues.push(text);
    }
    assert(views(issues@) =~= spec_issues(available, version));
    issues
}

/// What serde_json's string encoding of a list of strings reads back as:
/// the list, when the text is a JSON array of strings.
pub uninterp spec fn spec_strings_of_json(text: Seq<char>) -> Option<Seq<Seq<char>>>;

/// The JSON text that serde_json writes for a list of strings.
pub uninterp spec fn spec_json_of_strings(words: Seq<Seq<char>>) -> Seq<char>;

#[verifier::external_type_specification]
#[verifier::external_body]
pub struct ExJsonError(serde_json::Error);

/// `serde_json::to_string` of a list of strings. Its documentation says that
/// it fails only for a `Serialize` impl that fails or a map with non-string
/// keys, so for strings it succeeds; its text is named, and reading it back
/// with `serde_json::from_str` gives the same list.
#[verifier::external_body]
fn encode_strings(words: &Vec<String>) -> (r: Result<String, serde_json::Error>)
    ensures
        r is Ok,
        r matches Ok(text) ==> text@ == spec_json_of_strings(views(words@)),
        r matches Ok(text) ==> spec_strings_of_json(text@) == Some(views(words@)),
{
    serde_json::to_string(words)
}

/// `serde_json::from_str` into a list of strings; what it reads is named.
#[verifier::external_body]
fn decode_strings(text: &str) -> (r: Result<Vec<String>, serde_json::Error>)
    ensures
        match r {
            Ok(words) => spec_strings_of_json(text@) == Some(views(words@)),
            Err(_) => spec_strings_of_json(text@) is None,
        },
{
    serde_json::from_str::<Vec<String>>(text)
}

/// The program and arguments that a session runs: the non-empty command list
/// that `HERDR_SCRATCH_COMMAND_JSON` (handed in as its value) holds, else the
/// shell.
pub open spec fn spec_session(command_json: Option<String>, shell: Seq<char>) -> (Seq<char>, Seq<Seq<char>>) {
    match command_json {
        Some(text) => match spec_strings_of_json(text@) {
            Some(words) => if words.len() > 0 {
                (words[0], words.drop_first())
            } else {
                (shell, Seq::empty())
            },
            None => (shell, Seq::empty()),
        },
        None => (shell, Seq::empty()),
    }
}

/// The program and arguments that a session runs.
pub fn session_command(command_json: Option<String>, shell: String) -> (r: (String, Vec<String>))
    ensures
        (r.0@, views(r.1@)) == spec_session(command_json, shell@),
{
    let words = match &command_json {
        Some(text) => match decode_strings(text.as_str()) {
            Ok(words) => Some(words),
            Err(_) => None,
        },
        None => None,
    };
    match words {
        Some(mut words) => {
            if words.len() > 0 {
                let ghost all = views(words@);
                let program = words.remove(0);
                assert(views(words@) =~= all.drop_first());
                (program, words)
            } else {
                (shell, Vec::new())
            }
        },
        None => {
            let none: Vec<String> = Vec::new();
            assert(views(none@) =~= Seq::<Seq<char>>::empty());
            (shell, none)
        },
    }
}

/// What a command reports, or asks of the caller.
#[derive(Debug)]
pub enum Output {
    /// A line of text.
    Text(String),
    /// One summary, to be written as JSON.
    Json(ScratchpadSummary),
    /// Summaries, as lines or as JSON.
    Scratchpads { scratchpads: Vec<ScratchpadSummary>, json: bool },
    /// The `doctor` report, as lines or as JSON.
    Doctor { report: DoctorReport, json: bool },
    /// Write the default configuration to `path`; replace a file that is
    /// there only when `force` is set.
    InitConfig { path: String, force: bool },
    /// Write the (changed) configuration to `path`; it now has the
    /// scratchpad `name`.
    WriteConfig { path: String, name: String },
    /// Run the scratchpad session in this process.
    Session,
}

/// A scratchpad that a command addresses: its name, scope, registry key, and
/// the context in which it was resolved.
#[derive(Debug)]
pub struct Target {
    pub name: String,
    pub scope: ScopeRecord,
    pub key: String,
    pub context: InvocationContext,
}

/// The characters of an optional string.
pub open spec fn opt_view(o: Option<String>) -> Option<Seq<char>> {
    match o {
        Some(s) => Some(s@),
        None => None,
    }
}

/// The name that a command asks for, else the configured default.
pub open spec fn requested_name(config: Config, requested: Option<Seq<char>>) -> Seq<char> {
    match requested {
        Some(n) => n,
        None => config.default_scratchpad@,
    }
}

/// The scope kind of the scratchpad `name`: its own, else the default.
pub open spec fn spec_scope_kind(config: Config, name: Seq<char>) -> ScopeKind {
    if config.scratchpads@.contains_key(name) {
        match config.scratchpads@[name].scope {
            Some(k) => k,
            None => config.scope.default,
        }
    } else {
        config.scope.default
    }
}

/// The scope (kind word and key) of the scratchpad `name` when the current
/// pane is `current`.
pub open spec fn spec_target_scope(
    config: Config,
    context: InvocationContext,
    name: Seq<char>,
    current: Option<PaneInfo>,
) -> (Seq<char>, Seq<char>) {
    spec_scope(spec_scope_kind(config, name), spec_with_current(context, current))
}

/// The registry key of the scratchpad `name` when the current pane is `current`.
pub open spec fn spec_target_key(
    config: Config,
    context: InvocationContext,
    name: Seq<char>,
    current: Option<PaneInfo>,
) -> Seq<char> {
    let s = spec_target_scope(config, context, name, current);
    s.0 + ":"@ + s.1 + ":"@ + name
}

/// Whether `t` is the target of the scratchpad `name` when the current pane is
/// `current`.
pub open spec fn target_of(
    t: Target,
    config: Config,
    context: InvocationContext,
    name: Seq<char>,
    current: Option<PaneInfo>,
) -> bool {
    &&& t.name@ == name
    &&& (t.scope.kind@, t.scope.key@) == spec_target_scope(config, context, name, current)
    &&& t.key@ == spec_target_key(config, context, name, current)
    &&& t.context == spec_with_current(context, current)
}

/// Where focus was, from the pane that was current.
pub open spec fn spec_snapshot(current: Option<PaneInfo>) -> Option<FocusSnapshot> {
    match current {
        Some(p) => Some(
            FocusSnapshot {
                pane_id: Some(p.pane_id),
                focus_token: Some(p.tab_id),
                workspace_id: Some(p.workspace_id),
            },
        ),
        None => None,
    }
}

/// A record once its scratchpad is closed at time `t`.
pub open spec fn closed_record(r: ScratchpadRecord, t: String) -> ScratchpadRecord {
    ScratchpadRecord {
        status: crate::registry::LifecycleStatus::Closed,
        handle: None,
        last_hidden_at: Some(t),
        ..r
    }
}

/// A record once its scratchpad is left at time `t`.
pub open spec fn left_record(r: ScratchpadRecord, t: String) -> ScratchpadRecord {
    ScratchpadRecord {
        status: crate::registry::LifecycleStatus::Available,
        last_hidden_at: Some(t),
        ..r
    }
}

/// A record once its scratchpad is shown at time `t`, coming from `previous`.
pub open spec fn shown_record(
    r: ScratchpadRecord,
    t: String,
    previous: Option<FocusSnapshot>,
) -> ScratchpadRecord {
    ScratchpadRecord {
        status: crate::registry::LifecycleStatus::Visible,
        last_shown_at: t,
        previous_focus: previous,
        ..r
    }
}

/// `prefix` + `name` + a backquote: the texts that commands report.
pub open spec fn quoted(prefix: Seq<char>, name: Seq<char>) -> Seq<char> {
    prefix + "`"@ + name + "`"@
}

pub open spec fn output_text(r: Result<Output, ScratchError>, text: Seq<char>) -> bool {
    r matches Ok(Output::Text(t)) && t@ == text
}

fn quote(prefix: &str, name: &str) -> (r: String)
    ensures
        r@ == quoted(prefix@, name@),
{
    let mut r = owned(prefix);
    r.append("`");
    r.append(name);
    r.append("`");
    r
}

fn snapshot(current: Option<PaneInfo>) -> (r: Option<FocusSnapshot>)
    ensures
        r == spec_snapshot(current),
{
    match current {
        Some(p) => Some(
            FocusSnapshot {
                pane_id: Some(p.pane_id),
                focus_token: Some(p.tab_id),
                workspace_id: Some(p.workspace_id),
            },
        ),
        None => None,
    }
}

/// The profile that the scratchpad `name` uses: its configured one, else
/// `default`.
pub open spec fn spec_profile_name(config: Config, name: Seq<char>) -> Seq<char> {
    if config.scratchpads@.contains_key(name) {
        config.scratchpads@[name].profile@
    } else {
        "default"@
    }
}

/// Where the profile `profile` starts its shell (the context's directory for
/// an unknown profile).
pub open spec fn spec_profile_mode(config: Config, profile: Seq<char>) -> CwdMode {
    if config.profiles@.contains_key(profile) {
        config.profiles@[profile].cwd
    } else {
        CwdMode::Context
    }
}

/// The command that a new runtime of the profile runs: the command given with
/// `open` or `toggle` when there is one, else the profile's.
pub open spec fn spec_launch_command(config: Config, profile: Seq<char>, given: Seq<Seq<char>>) -> Seq<Seq<char>> {
    if given.len() > 0 {
        given
    } else if config.profiles@.contains_key(profile) {
        views(config.profiles@[profile].command@)
    } else {
        Seq::empty()
    }
}

/// The extra environment of the profile `profile`.
pub open spec fn spec_profile_env(config: Config, profile: Seq<char>) -> Map<Seq<char>, Seq<char>> {
    if config.profiles@.contains_key(profile) {
        config.profiles@[profile].env@.map_values(|v: String| v@)
    } else {
        Map::empty()
    }
}

/// The environment of a scratchpad session: its name and profile, the JSON
/// of its command when it has one, then the profile's own entries, which win.
pub open spec fn spec_session_env(
    name: Seq<char>,
    profile: Seq<char>,
    command: Seq<Seq<char>>,
    extra: Map<Seq<char>, Seq<char>>,
) -> Map<Seq<char>, Seq<char>> {
    let base = map!["HERDR_SCRATCH_NAME"@ => name, "HERDR_SCRATCH_PROFILE"@ => profile];
    let with_command = if command.len() > 0 {
        base.insert("HERDR_SCRATCH_COMMAND_JSON"@, spec_json_of_strings(command))
    } else {
        base
    };
    with_command.union_prefer_right(extra)
}

pub open spec fn text_values(m: Map<Seq<char>, String>) -> Map<Seq<char>, Seq<char>> {
    m.map_values(|v: String| v@)
}

/// The environment of a scratchpad session.
pub fn session_env(
    name: &str,
    profile: &str,
    command: &Vec<String>,
    extra: &TextMap<String>,
) -> (r: Result<TextMap<String>, ScratchError>)
    ensures
        r is Ok,
        r matches Ok(env) ==> text_values(env@) == spec_session_env(
            name@,
            profile@,
            views(command@),
            text_values(extra@),
        ),
        r matches Ok(env) ==> (command@.len() > 0 && !extra@.contains_key(
            "HERDR_SCRATCH_COMMAND_JSON"@,
        )) ==> spec_strings_of_json(text_values(env@)["HERDR_SCRATCH_COMMAND_JSON"@])
            == Some(views(command@)),
{
    proof {
        reveal_strlit("HERDR_SCRATCH_NAME");
        reveal_strlit("HERDR_SCRATCH_PROFILE");
        reveal_strlit("HERDR_SCRATCH_COMMAND_JSON");
        assert("HERDR_SCRATCH_NAME"@ != "HERDR_SCRATCH_PROFILE"@) by {
            assert("HERDR_SCRATCH_NAME"@[14] != "HERDR_SCRATCH_PROFILE"@[14]);
        }
        assert("HERDR_SCRATCH_NAME"@ != "HERDR_SCRATCH_COMMAND_JSON"@) by {
            assert("HERDR_SCRATCH_NAME"@[14] != "HERDR_SCRATCH_COMMAND_JSON"@[14]);
        }
        assert("HERDR_SCRATCH_PROFILE"@ != "HERDR_SCRATCH_COMMAND_JSON"@) by {
            assert("HERDR_SCRATCH_PROFILE"@[14] != "HERDR_SCRATCH_COMMAND_JSON"@[14]);
        }
    }
    let mut env: TextMap<String> = TextMap::new();
    env.insert(owned("HERDR_SCRATCH_NAME"), owned(name));
    env.insert(owned("HERDR_SCRATCH_PROFILE"), owned(profile));
    let ghost base = map!["HERDR_SCRATCH_NAME"@ => name@, "HERDR_SCRATCH_PROFILE"@ => profile@];
    assert(text_values(env@) =~= base);
    if command.len() > 0 {
        let encoded = match encode_strings(command) {
            Ok(text) => text,
            Err(_) => {
                return Err(ScratchError::CommandEncoding);
            },
        };
        env.insert(owned("HERDR_SCRATCH_COMMAND_JSON"), encoded);
        assert(text_values(env@) =~= base.insert(
            "HERDR_SCRATCH_COMMAND_JSON"@,
            spec_json_of_strings(views(command@)),
        ));
    }
    let ghost start = text_values(env@);
    let n = extra.len();
    let ghost ks = extra.key_order();
    let ghost vs = extra.value_order();
    let mut i: usize = 0;
    while i < n
        invariant
            n == ks.len(),
            n == vs.len(),
            ks == extra.key_order(),
            vs == extra.value_order(),
            ks.no_duplicates(),
            extra@.dom() == ks.to_set(),
            forall|j: int| 0 <= j < n ==> #[trigger] extra@[ks[j]] == vs[j],
            i <= n,
            forall|k: Seq<char>|
                #[trigger] text_values(env@).contains_key(k) <==> (start.contains_key(k)
                    || ks.take(i as int).contains(k)),
            forall|k: Seq<char>|
                #[trigger] text_values(env@).contains_key(k) ==> text_values(env@)[k] == if ks.take(
                    i as int,
                ).contains(k) {
                    extra@[k]@
                } else {
                    start[k]
                },
        decreases n - i,
    {
        let key = extra.key_at(i);
        let value = extra.value_at(i);
        let ghost old_tv = text_values(env@);
        env.insert(key.clone(), value.clone());
        proof {
            assert(text_values(env@) =~= old_tv.insert(ks[i as int], vs[i as int]@));
            assert(extra@[ks[i as int]] == vs[i as int]);
            assert(ks.take(i + 1) =~= ks.take(i as int).push(ks[i as int]));
            assert forall|k: Seq<char>| #[trigger] ks.take(i + 1).contains(k) implies (k == ks[i as int] || ks.take(i as int).contains(k)) by {
                let j = choose|j: int| 0 <= j < i + 1 && #[trigger] ks.take(i + 1)[j] == k;
                if j < i {
                    assert(ks.take(i as int)[j] == k);
                }
            }
            assert(ks.take(i + 1).contains(ks[i as int])) by {
                assert(ks.take(i + 1)[i as int] == ks[i as int]);
            }
            assert forall|k: Seq<char>| #[trigger] ks.take(i as int).contains(k) implies ks.take(i + 1).contains(k) by {
                let j = choose|j: int| 0 <= j < i && #[trigger] ks.take(i as int)[j] == k;
                assert(ks.take(i + 1)[j] == k);
            }
        }
        i = i + 1;
    }
    proof {
        assert(ks.take(n as int) =~= ks);
        let target = spec_session_env(name@, profile@, views(command@), text_values(extra@));
        assert forall|k: Seq<char>| #[trigger] ks.contains(k) <==> extra@.contains_key(k) by {
            assert(extra@.dom().contains(k) <==> ks.to_set().contains(k));
        }
        assert(text_values(env@) =~= target);
    }
    Ok(env)
}

/// What opens a new runtime for the scratchpad `name`: the session
/// environment, the start directory, and the configured placement; also
/// the profile that the scratchpad uses.
pub fn open_request(
    config: &Config,
    name: &str,
    context: &InvocationContext,
    command: &Vec<String>,
) -> (r: Result<(OpenScratchpadRequest, String), ScratchError>)
    ensures
        r is Ok,
        r matches Ok(p) ==> p.1@ == spec_profile_name(*config, name@),
        r matches Ok(p) ==> text_values(p.0.env@) == spec_session_env(
            name@,
            spec_profile_name(*config, name@),
            spec_launch_command(*config, spec_profile_name(*config, name@), views(command@)),
            spec_profile_env(*config, spec_profile_name(*config, name@)),
        ),
        r matches Ok(p) ==> p.0.placement == config.behavior.placement,
        r matches Ok(p) ==> p.0.split_direction == config.behavior.split_direction,
        r matches Ok(p) ==> (spec_profile_mode(*config, spec_profile_name(*config, name@))
            != CwdMode::Home ==> opt_view(p.0.cwd) == spec_cwd(
            spec_profile_mode(*config, spec_profile_name(*config, name@)),
            *context,
        )),
{
    let scratch_config = config.scratchpad(name);
    let profile = config.profile(scratch_config.profile.as_str());
    let cwd = resolve_cwd(&profile, context);
    let launch = if command.len() > 0 {
        command.clone()
    } else {
        profile.command.clone()
    };
    assert(views(launch@) =~= spec_launch_command(*config, scratch_config.profile@, views(command@)));
    assert(text_values(profile.env@) =~= spec_profile_env(*config, scratch_config.profile@));
    let env = session_env(name, scratch_config.profile.as_str(), &launch, &profile.env)?;
    let request = OpenScratchpadRequest {
        cwd,
        env,
        placement: config.behavior.placement,
        split_direction: config.behavior.split_direction,
    };
    Ok((request, scratch_config.profile))
}

/// The plugin at work: its configuration, registry, paths, Herdr adapter and
/// invocation context. Commands change the registry in memory; the caller
/// saves it when `save_pending` says so.
pub struct ScratchApp<H> {
    config: Config,
    registry: Registry,
    paths: Paths,
    herdr: H,
    store: RegistryStore,
    context: InvocationContext,
    save_pending: bool,
    calls: Ghost<Seq<HerdrCall>>,
}

pub open spec fn opt_str(o: Option<&str>) -> Option<Seq<char>> {
    match o {
        Some(s) => Some(s@),
        None => None,
    }
}

pub open spec fn opt_pane(o: Option<&PaneInfo>) -> Option<PaneInfo> {
    match o {
        Some(p) => Some(*p),
        None => None,
    }
}

/// Whether a command kept everything but the registry and the save flag.
pub open spec fn keeps_setup<H: Herdr>(pre: ScratchApp<H>, post: ScratchApp<H>) -> bool {
    &&& post.spec_config() == pre.spec_config()
    &&& post.spec_paths() == pre.spec_paths()
    &&& post.spec_herdr() == pre.spec_herdr()
    &&& post.spec_store() == pre.spec_store()
    &&& post.spec_context() == pre.spec_context()
    &&& post.spec_registry().version == pre.spec_registry().version
}

/// Whether a command left the plugin as it was.
pub open spec fn unchanged<H: Herdr>(pre: ScratchApp<H>, post: ScratchApp<H>) -> bool {
    &&& keeps_setup(pre, post)
    &&& post.spec_registry() == pre.spec_registry()
    &&& post.spec_save_pending() == pre.spec_save_pending()
}

/// The records of the registry.
pub open spec fn records<H: Herdr>(app: ScratchApp<H>) -> Map<Seq<char>, ScratchpadRecord> {
    app.spec_registry().scratchpads@
}

/// What leaving the scratchpad `name` under `key` does: a known scratchpad
/// becomes available (its runtime stays) and is saved; otherwise nothing.
pub open spec fn hide_outcome<H: Herdr>(
    pre: ScratchApp<H>,
    post: ScratchApp<H>,
    name: Seq<char>,
    key: Seq<char>,
    r: Result<Output, ScratchError>,
) -> bool {
    &&& keeps_setup(pre, post)
    &&& if records(pre).contains_key(key) {
        &&& output_text(r, quoted("left scratchpad "@, name))
        &&& exists|t: String| records(post) == records(pre).insert(key, left_record(records(pre)[key], t))
        &&& post.spec_save_pending()
    } else {
        &&& output_text(r, quoted("scratchpad "@, name) + " is not open"@)
        &&& unchanged(pre, post)
    }
}

/// The operations that a command asked of Herdr.
pub open spec fn new_calls<H: Herdr>(pre: ScratchApp<H>, post: ScratchApp<H>) -> Seq<HerdrCall> {
    post.spec_calls().skip(pre.spec_calls().len() as int)
}

/// Whether a command only added operations to those asked of Herdr before.
pub open spec fn calls_grow<H: Herdr>(pre: ScratchApp<H>, post: ScratchApp<H>) -> bool {
    post.spec_calls() == pre.spec_calls() + new_calls(pre, post)
}

/// The pane of Herdr's answer, when it gave one.
pub open spec fn pane_of(a: Result<PaneInfo, HerdrError>) -> Option<PaneInfo> {
    match a {
        Ok(p) => Some(p),
        Err(_) => None,
    }
}

/// Whether the first thing a command asked of Herdr is the current pane.
pub open spec fn asks_current_first<H: Herdr>(pre: ScratchApp<H>, post: ScratchApp<H>) -> bool {
    new_calls(pre, post).len() >= 1 && new_calls(pre, post)[0] is CurrentPane
}

/// The current pane as Herdr reported it first (none when it could not say).
pub open spec fn asked_current<H: Herdr>(pre: ScratchApp<H>, post: ScratchApp<H>) -> Option<PaneInfo> {
    match new_calls(pre, post)[0] {
        HerdrCall::CurrentPane(a) => pane_of(a),
        _ => None,
    }
}

/// What a command asked of Herdr after the current pane.
pub open spec fn later_calls<H: Herdr>(pre: ScratchApp<H>, post: ScratchApp<H>) -> Seq<HerdrCall> {
    new_calls(pre, post).drop_first()
}

/// How checking that a runtime is live begins `cs`: how many operations the
/// check asks of Herdr, and what it concludes. Without a pane it asks
/// nothing and fails; else it gets the pane, then the tab of the focus token
/// when there is one, and fails with the first error Herdr gives. `None`
/// when `cs` does not begin so.
pub open spec fn live_check(h: RuntimeHandle, cs: Seq<HerdrCall>) -> Option<(nat, Result<(), ScratchError>)> {
    match h.pane_id {
        None => Some((0nat, Err(ScratchError::MissingPaneHandle))),
        Some(p) => if cs.len() >= 1 && (cs[0] matches HerdrCall::PaneGet(q, _) && q@ == p@) {
            match cs[0] {
                HerdrCall::PaneGet(_, a) => match a {
                    Err(e) => Some((1nat, Err(ScratchError::Herdr(e)))),
                    Ok(_) => match crate::registry::spec_focus_token(h.opaque@) {
                        None => Some((1nat, Ok(()))),
                        Some(t) => if cs.len() >= 2 && (cs[1] matches HerdrCall::TabGet(u, _) && u@
                            == t@) {
                            match cs[1] {
                                HerdrCall::TabGet(_, b) => match b {
                                    Err(e) => Some((2nat, Err(ScratchError::Herdr(e)))),
                                    Ok(_) => Some((2nat, Ok(()))),
                                },
                                _ => None,
                            }
                        } else {
                            None
                        },
                    },
                },
                _ => None,
            }
        } else {
            None
        },
    }
}

/// Whether `cs` are exactly the checks of a runtime's liveness, which end in `r`.
pub open spec fn live_checks(h: RuntimeHandle, cs: Seq<HerdrCall>, r: Result<(), ScratchError>) -> bool {
    live_check(h, cs) == Some((cs.len(), r))
}

/// What a command that acts on a live runtime asks of Herdr, after the
/// current pane: nothing for an unknown scratchpad or one without a
/// runtime; else the liveness checks of its runtime, and when it is live,
/// the operation `act` on it, whose error is the command's.
pub open spec fn live_calls<H: Herdr>(
    pre: ScratchApp<H>,
    key: Seq<char>,
    r: Result<Output, ScratchError>,
    cs: Seq<HerdrCall>,
    act: spec_fn(RuntimeHandle, HerdrCall) -> bool,
    answer: spec_fn(HerdrCall) -> Result<(), HerdrError>,
) -> bool {
    if !records(pre).contains_key(key) || records(pre)[key].handle is None {
        cs.len() == 0
    } else {
        let h = records(pre)[key].handle->Some_0;
        &&& live_check(h, cs) matches Some((k, lr))
        &&& match lr {
            Err(e) => cs.len() == k && r == Err::<Output, ScratchError>(e),
            Ok(_) => {
                &&& cs.len() == k + 1
                &&& act(h, cs[k as int])
                &&& match answer(cs[k as int]) {
                    Err(e) => r == Err::<Output, ScratchError>(ScratchError::Herdr(e)),
                    Ok(_) => r is Ok,
                }
            },
        }
    }
}

/// Herdr's answer to an operation that returns nothing.
pub open spec fn unit_answer(c: HerdrCall) -> Result<(), HerdrError> {
    match c {
        HerdrCall::FocusHandle(_, a) => a,
        HerdrCall::FocusPrevious(_, a) => a,
        HerdrCall::Rename(_, _, a) => a,
        HerdrCall::Close(_, a) => a,
        HerdrCall::SendText(_, _, a) => a,
        HerdrCall::RunCommand(_, _, a) => a,
        _ => Ok(()),
    }
}

/// Whether `c` focuses the runtime `h`.
pub open spec fn focuses(h: RuntimeHandle, c: HerdrCall) -> bool {
    c matches HerdrCall::FocusHandle(g, _) && g == h
}

/// Whether `c` hands `text` to the runtime `h`: run as a command, or typed.
pub open spec fn delivers(h: RuntimeHandle, c: HerdrCall, text: Seq<char>, run: bool) -> bool {
    if run {
        c matches HerdrCall::RunCommand(g, t, _) && g == h && t@ == text
    } else {
        c matches HerdrCall::SendText(g, t, _) && g == h && t@ == text
    }
}

/// Whether `req` is what opens a new runtime of the scratchpad `name` in
/// `context`, with the command given (empty: the profile's).
pub open spec fn request_for(
    config: Config,
    name: Seq<char>,
    context: InvocationContext,
    command: Seq<Seq<char>>,
    req: OpenScratchpadRequest,
) -> bool {
    let profile = spec_profile_name(config, name);
    &&& text_values(req.env@) == spec_session_env(
        name,
        profile,
        spec_launch_command(config, profile, command),
        spec_profile_env(config, profile),
    )
    &&& req.placement == config.behavior.placement
    &&& req.split_direction == config.behavior.split_direction
    &&& spec_profile_mode(config, profile) != CwdMode::Home ==> opt_view(req.cwd) == spec_cwd(
        spec_profile_mode(config, profile),
        context,
    )
}

/// The title a new pane of the scratchpad `name` gets: the configured
/// template with `{name}` filled in.
pub open spec fn spec_title(config: Config, name: Seq<char>) -> Seq<char> {
    spec_fill_name(config.ui.title_template@, name)
}

/// What opening a new runtime asks of Herdr: to open it with the request
/// for the scratchpad, then, once it is open, to give its pane the title.
/// Herdr's error on opening is the command's; the new runtime's handle is
/// what the record keeps, with the request's start directory.
pub open spec fn opened_calls<H: Herdr>(
    pre: ScratchApp<H>,
    post: ScratchApp<H>,
    name: Seq<char>,
    key: Seq<char>,
    context: InvocationContext,
    command: Seq<Seq<char>>,
    r: Result<Output, ScratchError>,
    cs: Seq<HerdrCall>,
) -> bool {
    &&& cs.len() >= 1
    &&& cs[0] matches HerdrCall::Open(req, a)
    &&& request_for(pre.spec_config(), name, context, command, req)
    &&& match a {
        Err(e) => cs.len() == 1 && r == Err::<Output, ScratchError>(ScratchError::Herdr(e)),
        Ok(h) => {
            &&& cs.len() == 2
            &&& cs[1] matches HerdrCall::Rename(g, title, _)
            &&& g == h
            &&& title@ == spec_title(pre.spec_config(), name)
            &&& r is Ok
            &&& records(post).contains_key(key)
            &&& records(post)[key].handle == Some(h)
            &&& records(post)[key].cwd == req.cwd
        },
    }
}

/// What showing a scratchpad asks of Herdr. When reuse is configured and
/// the record has a runtime, its liveness is checked first; a live runtime
/// is focused and kept (Herdr's error on focusing is the command's), and no
/// new runtime is opened. Otherwise a new runtime is opened.
pub open spec fn open_calls<H: Herdr>(
    pre: ScratchApp<H>,
    post: ScratchApp<H>,
    name: Seq<char>,
    key: Seq<char>,
    current: Option<PaneInfo>,
    command: Seq<Seq<char>>,
    r: Result<Output, ScratchError>,
    cs: Seq<HerdrCall>,
) -> bool {
    let context = spec_with_current(pre.spec_context(), current);
    if pre.spec_config().behavior.reuse_existing && records(pre).contains_key(key)
        && records(pre)[key].handle is Some {
        let h = records(pre)[key].handle->Some_0;
        &&& live_check(h, cs) matches Some((k, lr))
        &&& match lr {
            Ok(_) => {
                &&& cs.len() == k + 1
                &&& focuses(h, cs[k as int])
                &&& match unit_answer(cs[k as int]) {
                    Err(e) => r == Err::<Output, ScratchError>(ScratchError::Herdr(e)),
                    Ok(_) => {
                        &&& r is Ok
                        &&& records(post)[key].handle == Some(h)
                        &&& exists|t: String|
                            records(post) == records(pre).insert(
                                key,
                                shown_record(records(pre)[key], t, spec_snapshot(current)),
                            )
                    },
                }
            },
            Err(_) => {
                &&& opened_calls(pre, post, name, key, context, command, r, cs.skip(k as int))
                &&& r is Ok ==> opened_fresh(pre, post, name, key, current)
            },
        }
    } else {
        &&& opened_calls(pre, post, name, key, context, command, r, cs)
        &&& r is Ok ==> opened_fresh(pre, post, name, key, current)
    }
}

/// Whether the record under `key` is a new record for the scratchpad `name`.
pub open spec fn opened_fresh<H: Herdr>(
    pre: ScratchApp<H>,
    post: ScratchApp<H>,
    name: Seq<char>,
    key: Seq<char>,
    current: Option<PaneInfo>,
) -> bool {
    exists|rec: ScratchpadRecord|
        #![trigger records(pre).insert(key, rec)]
        records(post) == records(pre).insert(key, rec) && fresh_record(pre, name, key, current, rec)
}

/// What leaving a scratchpad asks of Herdr: to return to the context it
/// was shown from, when the record remembers one (whatever Herdr answers).
pub open spec fn hide_calls<H: Herdr>(pre: ScratchApp<H>, key: Seq<char>, cs: Seq<HerdrCall>) -> bool {
    if records(pre).contains_key(key) && records(pre)[key].previous_focus is Some {
        cs.len() == 1 && (cs[0] matches HerdrCall::FocusPrevious(p, _) && Some(p)
            == records(pre)[key].previous_focus)
    } else {
        cs.len() == 0
    }
}

/// What closing a scratchpad asks of Herdr: to close its runtime, when it
/// has one (whatever Herdr answers).
pub open spec fn close_calls<H: Herdr>(pre: ScratchApp<H>, key: Seq<char>, cs: Seq<HerdrCall>) -> bool {
    if records(pre).contains_key(key) && records(pre)[key].handle is Some {
        cs.len() == 1 && (cs[0] matches HerdrCall::Close(h, _) && Some(h) == records(pre)[key].handle)
    } else {
        cs.len() == 0
    }
}

/// What `toggle` asks of Herdr after the current pane: to leave the active
/// scratchpad as `hide` does, or to show it as `open` does.
pub open spec fn toggle_asks<H: Herdr>(
    pre: ScratchApp<H>,
    post: ScratchApp<H>,
    requested: Option<Seq<char>>,
    current: Option<PaneInfo>,
    command: Seq<Seq<char>>,
    r: Result<Output, ScratchError>,
    cs: Seq<HerdrCall>,
) -> bool {
    if spec_normalize(requested_name(pre.spec_config(), requested)) is Err {
        cs.len() == 0
    } else {
        let name = target_name(pre, requested);
        let key = target_key(pre, requested, current);
        if is_active(pre, key, current) && pre.spec_config().behavior.toggle_returns_to_previous {
            hide_calls(pre, key, cs)
        } else {
            open_calls(pre, post, name, key, current, command, r, cs)
        }
    }
}

/// What `open` asks of Herdr after the current pane.
pub open spec fn open_asks<H: Herdr>(
    pre: ScratchApp<H>,
    post: ScratchApp<H>,
    requested: Option<Seq<char>>,
    current: Option<PaneInfo>,
    command: Seq<Seq<char>>,
    r: Result<Output, ScratchError>,
    cs: Seq<HerdrCall>,
) -> bool {
    if spec_normalize(requested_name(pre.spec_config(), requested)) is Err {
        cs.len() == 0
    } else {
        open_calls(
            pre,
            post,
            target_name(pre, requested),
            target_key(pre, requested, current),
            current,
            command,
            r,
            cs,
        )
    }
}

/// What `hide` asks of Herdr after the current pane.
pub open spec fn hide_asks<H: Herdr>(
    pre: ScratchApp<H>,
    requested: Option<Seq<char>>,
    current: Option<PaneInfo>,
    cs: Seq<HerdrCall>,
) -> bool {
    if spec_normalize(requested_name(pre.spec_config(), requested)) is Err {
        cs.len() == 0
    } else {
        hide_calls(pre, target_key(pre, requested, current), cs)
    }
}

/// What `close` asks of Herdr after the current pane.
pub open spec fn close_asks<H: Herdr>(
    pre: ScratchApp<H>,
    requested: Option<Seq<char>>,
    current: Option<PaneInfo>,
    cs: Seq<HerdrCall>,
) -> bool {
    if spec_normalize(requested_name(pre.spec_config(), requested)) is Err {
        cs.len() == 0
    } else {
        close_calls(pre, target_key(pre, requested, current), cs)
    }
}

/// What `focus` asks of Herdr after the current pane: the liveness checks
/// of the runtime, then to focus it.
pub open spec fn focus_asks<H: Herdr>(
    pre: ScratchApp<H>,
    requested: Option<Seq<char>>,
    current: Option<PaneInfo>,
    r: Result<Output, ScratchError>,
    cs: Seq<HerdrCall>,
) -> bool {
    if spec_normalize(requested_name(pre.spec_config(), requested)) is Err {
        cs.len() == 0
    } else {
        live_calls(
            pre,
            target_key(pre, requested, current),
            r,
            cs,
            |h: RuntimeHandle, c: HerdrCall| focuses(h, c),
            |c: HerdrCall| unit_answer(c),
        )
    }
}

/// What `send` and `run` ask of Herdr after the current pane: the liveness
/// checks of the runtime, then to type `text` into it or run it there.
pub open spec fn deliver_asks<H: Herdr>(
    pre: ScratchApp<H>,
    requested: Seq<char>,
    current: Option<PaneInfo>,
    text: Seq<char>,
    run: bool,
    r: Result<Output, ScratchError>,
    cs: Seq<HerdrCall>,
) -> bool {
    if spec_normalize(requested) is Err {
        cs.len() == 0
    } else {
        live_calls(
            pre,
            target_key(pre, Some(requested), current),
            r,
            cs,
            |h: RuntimeHandle, c: HerdrCall| delivers(h, c, text, run),
            |c: HerdrCall| unit_answer(c),
        )
    }
}

/// Showing a scratchpad says the same of a state that differs from another
/// only in what was asked of Herdr.
proof fn lemma_open_outcome_same<H: Herdr>(
    pre: ScratchApp<H>,
    pre1: ScratchApp<H>,
    post: ScratchApp<H>,
    name: Seq<char>,
    key: Seq<char>,
    current: Option<PaneInfo>,
    r: Result<Output, ScratchError>,
)
    requires
        unchanged(pre, pre1),
        open_outcome(pre1, post, name, key, current, r),
    ensures
        open_outcome(pre, post, name, key, current, r),
{
    if r is Ok {
        let rec = choose|rec: ScratchpadRecord|
            #![trigger records(pre1).insert(key, rec)]
            records(post) == records(pre1).insert(key, rec) && (reused_record(pre1, key, current, rec)
                || fresh_record(pre1, name, key, current, rec));
        assert(records(post) == records(pre).insert(key, rec));
        if reused_record(pre1, key, current, rec) {
            let t = choose|t: String| rec == shown_record(records(pre1)[key], t, spec_snapshot(current));
            assert(rec == shown_record(records(pre)[key], t, spec_snapshot(current)));
            assert(reused_record(pre, key, current, rec));
        } else {
            assert(fresh_record(pre, name, key, current, rec));
        }
    }
}

/// Splitting what a command asked of Herdr into the current pane and the rest.
proof fn lemma_first_call(a: Seq<HerdrCall>, b: Seq<HerdrCall>, c: Seq<HerdrCall>)
    requires
        b.len() == a.len() + 1,
        b == a.push(b.last()),
        c == b + c.skip(b.len() as int),
    ensures
        c == a + c.skip(a.len() as int),
        c.skip(a.len() as int).len() >= 1,
        c.skip(a.len() as int)[0] == b.last(),
        c.skip(a.len() as int).drop_first() == c.skip(b.len() as int),
{
    assert(c =~= a + c.skip(a.len() as int));
    assert(c.skip(a.len() as int).drop_first() =~= c.skip(b.len() as int));
}

/// Operations asked after one another add up.
proof fn lemma_calls_chain(a: Seq<HerdrCall>, b: Seq<HerdrCall>, c: Seq<HerdrCall>)
    requires
        b == a + b.skip(a.len() as int),
        c == b + c.skip(b.len() as int),
    ensures
        c == a + c.skip(a.len() as int),
        c.skip(a.len() as int) == b.skip(a.len() as int) + c.skip(b.len() as int),
{
    assert(c.skip(a.len() as int) =~= b.skip(a.len() as int) + c.skip(b.len() as int));
    assert(c =~= a + c.skip(a.len() as int));
}

/// Liveness checks that end a sequence also begin any longer one.
proof fn lemma_live_prefix(h: RuntimeHandle, a: Seq<HerdrCall>, b: Seq<HerdrCall>, r: Result<(), ScratchError>)
    requires
        live_checks(h, a, r),
    ensures
        live_check(h, a + b) == Some((a.len(), r)),
{
    if a.len() >= 1 {
        assert((a + b)[0] == a[0]);
    }
    if a.len() >= 2 {
        assert((a + b)[1] == a[1]);
    }
}

/// What a command that resolves its target first does when the name is no
/// scratchpad name: it fails and changes nothing.
pub open spec fn name_refused<H: Herdr>(
    pre: ScratchApp<H>,
    post: ScratchApp<H>,
    requested: Option<Seq<char>>,
    r: Result<Output, ScratchError>,
) -> bool {
    spec_normalize(requested_name(pre.spec_config(), requested)) matches Err(e) && r == Err::<Output, ScratchError>(e) && unchanged(pre, post)
}

/// The target name that a command resolves to, when it is a valid name.
pub open spec fn target_name<H: Herdr>(pre: ScratchApp<H>, requested: Option<Seq<char>>) -> Seq<char> {
    spec_normalize(requested_name(pre.spec_config(), requested))->Ok_0
}

/// The registry key that a command addresses when the current pane is `current`.
pub open spec fn target_key<H: Herdr>(
    pre: ScratchApp<H>,
    requested: Option<Seq<char>>,
    current: Option<PaneInfo>,
) -> Seq<char> {
    spec_target_key(pre.spec_config(), pre.spec_context(), target_name(pre, requested), current)
}

/// `hide`: leave the scratchpad and return to the previous context.
pub open spec fn hide_effect<H: Herdr>(
    pre: ScratchApp<H>,
    post: ScratchApp<H>,
    requested: Option<Seq<char>>,
    current: Option<PaneInfo>,
    r: Result<Output, ScratchError>,
) -> bool {
    if spec_normalize(requested_name(pre.spec_config(), requested)) is Err {
        name_refused(pre, post, requested, r)
    } else {
        hide_outcome(pre, post, target_name(pre, requested), target_key(pre, requested, current), r)
    }
}

/// `close`: forget the runtime of a known scratchpad, which becomes closed
/// and is saved; for an unknown one, report that it is not open.
pub open spec fn close_effect<H: Herdr>(
    pre: ScratchApp<H>,
    post: ScratchApp<H>,
    requested: Option<Seq<char>>,
    current: Option<PaneInfo>,
    r: Result<Output, ScratchError>,
) -> bool {
    if spec_normalize(requested_name(pre.spec_config(), requested)) is Err {
        name_refused(pre, post, requested, r)
    } else {
        let name = target_name(pre, requested);
        let key = target_key(pre, requested, current);
        &&& keeps_setup(pre, post)
        &&& if records(pre).contains_key(key) {
            &&& output_text(r, quoted("closed scratchpad "@, name))
            &&& exists|t: String| records(post) == records(pre).insert(key, closed_record(records(pre)[key], t))
            &&& post.spec_save_pending()
        } else {
            &&& output_text(r, quoted("scratchpad "@, name) + " is not open"@)
            &&& unchanged(pre, post)
        }
    }
}

/// How a command that needs a live runtime ends: an unknown scratchpad, one
/// without a runtime handle, or a handle without a pane fails with that
/// reason; otherwise Herdr decides between an error from Herdr and `ok`.
pub open spec fn live_outcome<H: Herdr>(
    pre: ScratchApp<H>,
    name: Seq<char>,
    key: Seq<char>,
    r: Result<Output, ScratchError>,
    ok: bool,
) -> bool {
    if !records(pre).contains_key(key) {
        r matches Err(ScratchError::NotFound { name: n }) && n@ == name
    } else {
        match records(pre)[key].handle {
            None => r matches Err(ScratchError::NoLiveRuntime { name: n }) && n@ == name,
            Some(h) => if h.pane_id is None {
                r == Err::<Output, ScratchError>(ScratchError::MissingPaneHandle)
            } else {
                (r matches Err(ScratchError::Herdr(_))) || ok
            },
        }
    }
}

/// `focus`: show a known scratchpad whose runtime is live; it becomes
/// visible, remembers where focus was, and is saved.
pub open spec fn focus_effect<H: Herdr>(
    pre: ScratchApp<H>,
    post: ScratchApp<H>,
    requested: Option<Seq<char>>,
    current: Option<PaneInfo>,
    r: Result<Output, ScratchError>,
) -> bool {
    if spec_normalize(requested_name(pre.spec_config(), requested)) is Err {
        name_refused(pre, post, requested, r)
    } else {
        let name = target_name(pre, requested);
        let key = target_key(pre, requested, current);
        &&& keeps_setup(pre, post)
        &&& live_outcome(
            pre,
            name,
            key,
            r,
            output_text(r, quoted("focused scratchpad "@, name)),
        )
        &&& if r is Ok {
            &&& exists|t: String|
                records(post) == records(pre).insert(
                    key,
                    shown_record(records(pre)[key], t, spec_snapshot(current)),
                )
            &&& post.spec_save_pending()
        } else {
            unchanged(pre, post)
        }
    }
}

/// What `run` and `send` report.
pub open spec fn deliver_report(run: bool) -> Seq<char> {
    if run {
        "ran command in scratchpad "@
    } else {
        "sent text to scratchpad "@
    }
}

/// `send` and `run`: hand text to a live scratchpad; nothing changes.
pub open spec fn deliver_effect<H: Herdr>(
    pre: ScratchApp<H>,
    post: ScratchApp<H>,
    requested: Seq<char>,
    current: Option<PaneInfo>,
    r: Result<Output, ScratchError>,
    report: Seq<char>,
) -> bool {
    if spec_normalize(requested) is Err {
        name_refused(pre, post, Some(requested), r)
    } else {
        let name = target_name(pre, Some(requested));
        let key = target_key(pre, Some(requested), current);
        &&& unchanged(pre, post)
        &&& live_outcome(pre, name, key, r, output_text(r, quoted(report, name)))
    }
}

/// A record that shows the known scratchpad under `key` again: its runtime
/// was live, so it is kept, and the record becomes visible.
pub open spec fn reused_record<H: Herdr>(
    pre: ScratchApp<H>,
    key: Seq<char>,
    current: Option<PaneInfo>,
    rec: ScratchpadRecord,
) -> bool {
    &&& pre.spec_config().behavior.reuse_existing
    &&& records(pre).contains_key(key)
    &&& records(pre)[key].handle matches Some(h)
    &&& h.pane_id is Some
    &&& exists|t: String| rec == shown_record(records(pre)[key], t, spec_snapshot(current))
}

/// A record for a new runtime of the scratchpad `name`: named and scoped as
/// the target, with the scratchpad's profile and start directory, visible,
/// with a runtime handle, remembering where focus was; it keeps the creation
/// time and last-hidden time of a record that was under `key`.
pub open spec fn fresh_record<H: Herdr>(
    pre: ScratchApp<H>,
    name: Seq<char>,
    key: Seq<char>,
    current: Option<PaneInfo>,
    rec: ScratchpadRecord,
) -> bool {
    let config = pre.spec_config();
    let profile = spec_profile_name(config, name);
    let mode = spec_profile_mode(config, profile);
    &&& rec.name@ == name
    &&& (rec.scope.kind@, rec.scope.key@) == spec_target_scope(
        config,
        pre.spec_context(),
        name,
        current,
    )
    &&& rec.profile@ == profile
    &&& rec.status == LifecycleStatus::Visible
    &&& rec.handle is Some
    &&& mode != CwdMode::Home ==> opt_view(rec.cwd) == spec_cwd(
        mode,
        spec_with_current(pre.spec_context(), current),
    )
    &&& rec.previous_focus == spec_snapshot(current)
    &&& if records(pre).contains_key(key) {
        &&& rec.created_at == records(pre)[key].created_at
        &&& rec.last_hidden_at == records(pre)[key].last_hidden_at
    } else {
        &&& rec.created_at == rec.last_shown_at
        &&& rec.last_hidden_at is None
    }
}

/// What showing the scratchpad `name` under `key` does: its record is shown
/// again or made anew, and saved; a Herdr failure changes nothing.
pub open spec fn open_outcome<H: Herdr>(
    pre: ScratchApp<H>,
    post: ScratchApp<H>,
    name: Seq<char>,
    key: Seq<char>,
    current: Option<PaneInfo>,
    r: Result<Output, ScratchError>,
) -> bool {
    &&& keeps_setup(pre, post)
    &&& if r is Ok {
        &&& output_text(r, quoted("opened scratchpad "@, name))
        &&& post.spec_save_pending()
        &&& exists|rec: ScratchpadRecord|
            #![trigger records(pre).insert(key, rec)]
            records(post) == records(pre).insert(key, rec) && (reused_record(pre, key, current, rec)
                || fresh_record(pre, name, key, current, rec))
    } else {
        &&& r matches Err(ScratchError::Herdr(_))
        &&& unchanged(pre, post)
    }
}

/// `open`: show the scratchpad, reusing its runtime when that is configured
/// and the runtime is live, else opening a new one.
pub open spec fn open_effect<H: Herdr>(
    pre: ScratchApp<H>,
    post: ScratchApp<H>,
    requested: Option<Seq<char>>,
    current: Option<PaneInfo>,
    r: Result<Output, ScratchError>,
) -> bool {
    if spec_normalize(requested_name(pre.spec_config(), requested)) is Err {
        name_refused(pre, post, requested, r)
    } else {
        open_outcome(
            pre,
            post,
            target_name(pre, requested),
            target_key(pre, requested, current),
            current,
            r,
        )
    }
}

/// Whether the scratchpad under `key` is the current pane.
pub open spec fn is_active<H: Herdr>(pre: ScratchApp<H>, key: Seq<char>, current: Option<PaneInfo>) -> bool {
    &&& records(pre).contains_key(key)
    &&& records(pre)[key].handle matches Some(h)
    &&& h.pane_id matches Some(p)
    &&& current matches Some(c)
    &&& p@ == c.pane_id@
}

/// `toggle`: leave the scratchpad when it is the current pane and toggling
/// returns to the previous context; otherwise show it as `open` does.
pub open spec fn toggle_effect<H: Herdr>(
    pre: ScratchApp<H>,
    post: ScratchApp<H>,
    requested: Option<Seq<char>>,
    current: Option<PaneInfo>,
    r: Result<Output, ScratchError>,
) -> bool {
    if spec_normalize(requested_name(pre.spec_config(), requested)) is Err {
        name_refused(pre, post, requested, r)
    } else {
        let name = target_name(pre, requested);
        let key = target_key(pre, requested, current);
        if is_active(pre, key, current) && pre.spec_config().behavior.toggle_returns_to_previous {
            hide_outcome(pre, post, name, key, r)
        } else {
            open_outcome(pre, post, name, key, current, r)
        }
    }
}

/// The summary that `status` reports: the record's, or for an unknown
/// scratchpad its name and scope with the status `closed`.
pub open spec fn status_summary<H: Herdr>(
    pre: ScratchApp<H>,
    name: Seq<char>,
    key: Seq<char>,
    current: Option<PaneInfo>,
    s: ScratchpadSummary,
) -> bool {
    if records(pre).contains_key(key) {
        summarises(s, records(pre)[key])
    } else {
        let scope = spec_target_scope(pre.spec_config(), pre.spec_context(), name, current);
        &&& s.name@ == name
        &&& s.scope@ == scope.0 + ":"@ + scope.1
        &&& s.status@ == "closed"@
        &&& s.cwd is None
    }
}

/// A single summary as `status` reports it: as JSON, or as a list of one.
pub open spec fn reports_summary(r: Result<Output, ScratchError>, json: bool, s: ScratchpadSummary) -> bool {
    if json {
        r == Ok::<Output, ScratchError>(Output::Json(s))
    } else {
        r matches Ok(Output::Scratchpads { scratchpads: v, json: j }) && v@ == seq![s] && !j
    }
}

/// `status`: report one scratchpad; nothing changes.
pub open spec fn status_effect<H: Herdr>(
    pre: ScratchApp<H>,
    post: ScratchApp<H>,
    requested: Option<Seq<char>>,
    json: bool,
    current: Option<PaneInfo>,
    r: Result<Output, ScratchError>,
) -> bool {
    if spec_normalize(requested_name(pre.spec_config(), requested)) is Err {
        name_refused(pre, post, requested, r)
    } else {
        &&& unchanged(pre, post)
        &&& exists|s: ScratchpadSummary|
            #![trigger reports_summary(r, json, s)]
            reports_summary(r, json, s) && status_summary(
                pre,
                target_name(pre, requested),
                target_key(pre, requested, current),
                current,
                s,
            )
    }
}

/// Whether `v` summarises the records in key order.
pub open spec fn summarises_all<H: Herdr>(app: ScratchApp<H>, v: Seq<ScratchpadSummary>) -> bool {
    let values = app.spec_registry().scratchpads.value_order();
    &&& v.len() == values.len()
    &&& forall|i: int| 0 <= i < v.len() ==> summarises(#[trigger] v[i], values[i])
}

/// `list`: report every scratchpad in key order; nothing changes.
pub open spec fn list_effect<H: Herdr>(
    pre: ScratchApp<H>,
    post: ScratchApp<H>,
    json: bool,
    r: Result<Output, ScratchError>,
) -> bool {
    &&& unchanged(pre, post)
    &&& r matches Ok(Output::Scratchpads { scratchpads: v, json: j })
    &&& j == json
    &&& summarises_all(pre, v@)
}

/// `doctor`: report Herdr's availability, the paths, the number of
/// scratchpads and the issues; nothing changes.
pub open spec fn doctor_effect<H: Herdr>(
    pre: ScratchApp<H>,
    post: ScratchApp<H>,
    json: bool,
    r: Result<Output, ScratchError>,
) -> bool {
    &&& unchanged(pre, post)
    &&& r matches Ok(Output::Doctor { report, json: j })
    &&& j == json
    &&& report.config_dir == pre.spec_paths().config_dir
    &&& report.config_path == pre.spec_paths().config_file
    &&& report.state_dir == pre.spec_paths().state_dir
    &&& report.state_path == pre.spec_paths().registry_file
    &&& report.scratchpad_count == records(pre).len()
    &&& views(report.issues@) == spec_issues(report.herdr_available, pre.spec_config().version)
}

/// The records after renaming, one after the other, the records under
/// `keys` to `new`: each is taken out and stored, named `new`, under the key
/// of its scope and the new name.
pub open spec fn rename_all(
    m: Map<Seq<char>, ScratchpadRecord>,
    keys: Seq<Seq<char>>,
    new: String,
) -> Map<Seq<char>, ScratchpadRecord>
    decreases keys.len(),
{
    if keys.len() == 0 {
        m
    } else {
        let k = keys[0];
        let next = if m.contains_key(k) {
            let rec = m[k];
            m.remove(k).insert(
                spec_registry_key(rec.scope, new@),
                ScratchpadRecord { name: new, ..rec },
            )
        } else {
            m
        };
        rename_all(next, keys.drop_first(), new)
    }
}

/// The keys of the records named `name`, in key order.
pub open spec fn keys_named<H: Herdr>(app: ScratchApp<H>, name: Seq<char>) -> Seq<Seq<char>> {
    app.spec_registry().scratchpads.key_order().filter(crate::registry::named(records(app), name))
}

/// `rename`: give every record named `old` the new name (trimmed, and valid),
/// under the key of its scope and the new name, and save; with no record
/// named `old`, fail and change nothing.
pub open spec fn rename_effect<H: Herdr>(
    pre: ScratchApp<H>,
    post: ScratchApp<H>,
    old: Seq<char>,
    new: Seq<char>,
    r: Result<Output, ScratchError>,
) -> bool {
    match spec_normalize(new) {
        Err(e) => r == Err::<Output, ScratchError>(e) && unchanged(pre, post),
        Ok(n) => if keys_named(pre, old).len() == 0 {
            &&& r matches Err(ScratchError::NotFound { name: o }) && o@ == old
            &&& unchanged(pre, post)
        } else {
            &&& keeps_setup(pre, post)
            &&& post.spec_save_pending()
            &&& output_text(r, quoted(quoted("renamed scratchpad "@, old) + " to "@, n))
            &&& exists|s: String|
                #![trigger rename_all(records(pre), keys_named(pre, old), s)]
                s@ == n && records(post) == rename_all(records(pre), keys_named(pre, old), s)
        },
    }
}

/// Whether a `config add --scope` word names no scope.
pub open spec fn unknown_scope(scope: Option<String>) -> bool {
    scope matches Some(w) && forall|k: ScopeKind| spec_scope_word(k) != w@
}

/// The scope that a `config add --scope` word names.
pub open spec fn chosen_scope(scope: Option<String>) -> Option<ScopeKind> {
    match scope {
        Some(w) => Some(choose|k: ScopeKind| spec_scope_word(k) == w@),
        None => None,
    }
}

/// Whether `mode` is what a `config add --cwd` word (default `context`) names.
pub open spec fn cwd_named(mode: CwdMode, word: Option<String>) -> bool {
    let w = match word {
        Some(w) => w@,
        None => "context"@,
    };
    if w == "context"@ {
        mode == CwdMode::Context
    } else if w == "workspace"@ {
        mode == CwdMode::Workspace
    } else if w == "home"@ {
        mode == CwdMode::Home
    } else {
        mode matches CwdMode::Path(p) && p@ == w
    }
}

/// `config add`: add (or replace) the scratchpad and its profile in the
/// configuration, which the caller then writes; the registry is untouched.
pub open spec fn add_effect<H: Herdr>(
    pre: ScratchApp<H>,
    post: ScratchApp<H>,
    args: ConfigAddArgs,
    r: Result<Output, ScratchError>,
) -> bool {
    match spec_normalize(args.name@) {
        Err(e) => r == Err::<Output, ScratchError>(e) && unchanged(pre, post),
        Ok(n) => if unknown_scope(args.scope) {
            &&& r matches Err(ScratchError::UnknownScope { value: v }) && Some(v) == args.scope
            &&& unchanged(pre, post)
        } else {
            let c0 = pre.spec_config();
            let c1 = post.spec_config();
            &&& r matches Ok(Output::WriteConfig { path, name }) && path == pre.spec_paths().config_file && name@ == n
            &&& post.spec_registry() == pre.spec_registry()
            &&& post.spec_save_pending() == pre.spec_save_pending()
            &&& post.spec_paths() == pre.spec_paths()
            &&& post.spec_herdr() == pre.spec_herdr()
            &&& post.spec_store() == pre.spec_store()
            &&& post.spec_context() == pre.spec_context()
            &&& c1.version == c0.version
            &&& c1.default_scratchpad == c0.default_scratchpad
            &&& c1.behavior == c0.behavior
            &&& c1.ui == c0.ui
            &&& c1.scope == c0.scope
            &&& c1.profiles@.dom() == c0.profiles@.dom().insert(n)
            &&& c1.scratchpads@.dom() == c0.scratchpads@.dom().insert(n)
            &&& forall|k: Seq<char>| k != n && #[trigger] c0.profiles@.contains_key(k) ==> c1.profiles@[k] == c0.profiles@[k]
            &&& forall|k: Seq<char>| k != n && #[trigger] c0.scratchpads@.contains_key(k) ==> c1.scratchpads@[k] == c0.scratchpads@[k]
            &&& c1.profiles@[n].command == args.command
            &&& cwd_named(c1.profiles@[n].cwd, args.cwd)
            &&& c1.profiles@[n].env@ == Map::<Seq<char>, String>::empty()
            &&& c1.scratchpads@[n].profile@ == n
            &&& c1.scratchpads@[n].scope == chosen_scope(args.scope)
        },
    }
}

/// What each command does to the plugin, what it asks of Herdr, and what it
/// reports. A command that addresses a scratchpad first asks Herdr for the
/// current pane (none when Herdr could not say); `doctor` asks whether Herdr
/// is available; the other commands ask Herdr nothing.
pub open spec fn handled<H: Herdr>(
    pre: ScratchApp<H>,
    post: ScratchApp<H>,
    command: Command,
    r: Result<Output, ScratchError>,
) -> bool {
    let cur = asked_current(pre, post);
    let cs = later_calls(pre, post);
    &&& calls_grow(pre, post)
    &&& match command {
        Command::Toggle(a) => {
            &&& asks_current_first(pre, post)
            &&& toggle_effect(pre, post, opt_view(a.name), cur, r)
            &&& toggle_asks(pre, post, opt_view(a.name), cur, views(a.command@), r, cs)
        },
        Command::Open(a) => {
            &&& asks_current_first(pre, post)
            &&& open_effect(pre, post, opt_view(a.name), cur, r)
            &&& open_asks(pre, post, opt_view(a.name), cur, views(a.command@), r, cs)
        },
        Command::Focus(a) => {
            &&& asks_current_first(pre, post)
            &&& focus_effect(pre, post, opt_view(a.name), cur, r)
            &&& focus_asks(pre, opt_view(a.name), cur, r, cs)
        },
        Command::Hide(a) => {
            &&& asks_current_first(pre, post)
            &&& hide_effect(pre, post, opt_view(a.name), cur, r)
            &&& hide_asks(pre, opt_view(a.name), cur, cs)
        },
        Command::Close(a) => {
            &&& asks_current_first(pre, post)
            &&& close_effect(pre, post, opt_view(a.name), cur, r)
            &&& close_asks(pre, opt_view(a.name), cur, cs)
        },
        Command::List(a) => new_calls(pre, post).len() == 0 && list_effect(pre, post, a.json, r),
        Command::Status(a) => {
            &&& asks_current_first(pre, post)
            &&& cs.len() == 0
            &&& status_effect(pre, post, opt_view(a.name), a.json, cur, r)
        },
        Command::Rename(a) => new_calls(pre, post).len() == 0 && rename_effect(
            pre,
            post,
            a.old@,
            a.new@,
            r,
        ),
        Command::Send(a) => {
            &&& asks_current_first(pre, post)
            &&& deliver_effect(pre, post, a.name@, cur, r, deliver_report(false))
            &&& deliver_asks(pre, a.name@, cur, spec_join_words(views(a.text@), " "@), false, r, cs)
        },
        Command::Run(a) => {
            &&& asks_current_first(pre, post)
            &&& deliver_effect(pre, post, a.name@, cur, r, deliver_report(true))
            &&& deliver_asks(pre, a.name@, cur, spec_join_words(views(a.command@), " "@), true, r, cs)
        },
        Command::Doctor(a) => {
            &&& doctor_effect(pre, post, a.json, r)
            &&& r matches Ok(Output::Doctor { report, .. })
            &&& new_calls(pre, post) == seq![HerdrCall::Available(report.herdr_available)]
        },
        Command::Config(c) => new_calls(pre, post).len() == 0 && match c.command {
            ConfigSubcommand::Path => unchanged(pre, post) && (r matches Ok(Output::Text(t)) && t
                == pre.spec_paths().config_file),
            ConfigSubcommand::Init(i) => unchanged(pre, post) && (r matches Ok(
                Output::InitConfig { path, force },
            ) && path == pre.spec_paths().config_file && force == i.force),
            ConfigSubcommand::Add(a) => add_effect(pre, post, a, r),
        },
        Command::State(_) => new_calls(pre, post).len() == 0 && unchanged(pre, post) && (r matches Ok(
            Output::Text(t),
        ) && t == pre.spec_paths().registry_file),
        Command::Session => new_calls(pre, post).len() == 0 && unchanged(pre, post) && (r matches Ok(
            Output::Session,
        )),
    }
}

fn name_ref(o: &Option<String>) -> (r: Option<&str>)
    ensures
        opt_str(r) == opt_view(*o),
{
    match o {
        Some(s) => Some(s.as_str()),
        None => None,
    }
}

/// The record of a new runtime of the target, whose handle Herdr returned:
/// named and scoped as the target, visible, shown at `now`, with the
/// profile and start directory it was opened with, remembering where focus
/// was; `prior` holds the creation and last-hidden times of the record that
/// was there (else it is created now).
pub fn new_record(
    target: Target,
    profile: String,
    cwd: Option<String>,
    handle: RuntimeHandle,
    previous_focus: Option<FocusSnapshot>,
    prior: Option<(String, Option<String>)>,
    now: String,
) -> (rec: ScratchpadRecord)
    ensures
        rec.name == target.name,
        rec.scope == target.scope,
        rec.profile == profile,
        rec.status == LifecycleStatus::Visible,
        rec.handle == Some(handle),
        rec.cwd == cwd,
        rec.last_shown_at == now,
        rec.previous_focus == previous_focus,
        match prior {
            Some(p) => rec.created_at == p.0 && rec.last_hidden_at == p.1,
            None => rec.created_at == now && rec.last_hidden_at is None,
        },
{
    let (created_at, last_hidden_at) = match prior {
        Some(p) => p,
        None => (now.clone(), None),
    };
    ScratchpadRecord {
        name: target.name,
        scope: target.scope,
        profile,
        status: LifecycleStatus::Visible,
        handle: Some(handle),
        cwd,
        created_at,
        last_shown_at: now,
        last_hidden_at,
        previous_focus,
    }
}

/// The operations asked of Herdr after the first `n` of `calls`.
pub open spec fn calls_after(calls: Seq<HerdrCall>, n: int) -> Seq<HerdrCall> {
    calls.skip(n)
}

/// Checks that a runtime is live: it has a pane that Herdr knows, and
/// Herdr knows the tab of its focus token, if any.
fn ensure_live<H: Herdr>(herdr: &H, calls: &mut Ghost<Seq<HerdrCall>>, handle: &RuntimeHandle) -> (r: Result<(), ScratchError>)
    ensures
        final(calls)@ == old(calls)@ + calls_after(final(calls)@, old(calls)@.len() as int),
        live_checks(*handle, calls_after(final(calls)@, old(calls)@.len() as int), r),
{
    let ghost c0 = calls@;
    let pane_id = match &handle.pane_id {
        Some(p) => p,
        None => {
            assert(calls@.skip(c0.len() as int) =~= Seq::<HerdrCall>::empty());
            assert(calls@ =~= c0 + calls@.skip(c0.len() as int));
            return Err(ScratchError::MissingPaneHandle);
        },
    };
    let pane = ask_pane(herdr, calls, pane_id.as_str());
    let ghost c1 = calls@;
    assert(c1.skip(c0.len() as int) =~= seq![HerdrCall::PaneGet(Ghost(pane_id@), pane)]);
    match pane {
        Ok(_) => {},
        Err(e) => {
            assert(calls@ =~= c0 + calls@.skip(c0.len() as int));
            return Err(ScratchError::Herdr(e));
        },
    }
    match handle.focus_token() {
        Some(token) => {
            let tab = ask_tab(herdr, calls, token.as_str());
            assert(calls@.skip(c0.len() as int) =~= seq![
                HerdrCall::PaneGet(Ghost(pane_id@), pane),
                HerdrCall::TabGet(Ghost(token@), tab),
            ]);
            assert(calls@ =~= c0 + calls@.skip(c0.len() as int));
            match tab {
                Ok(_) => {},
                Err(e) => {
                    return Err(ScratchError::Herdr(e));
                },
            }
        },
        None => {
            assert(calls@ =~= c0 + calls@.skip(c0.len() as int));
        },
    }
    Ok(())
}

/// The runtime of a known scratchpad, once it is checked to be live.
fn live_handle<'a, H: Herdr>(
    registry: &'a Registry,
    herdr: &H,
    calls: &mut Ghost<Seq<HerdrCall>>,
    target: &Target,
) -> (r: Result<&'a RuntimeHandle, ScratchError>)
    ensures
        final(calls)@ == old(calls)@ + calls_after(final(calls)@, old(calls)@.len() as int),
        ({
            let m = registry.scratchpads@;
            let cs = calls_after(final(calls)@, old(calls)@.len() as int);
            if !m.contains_key(target.key@) {
                cs.len() == 0 && (r matches Err(ScratchError::NotFound { name: n }) && n@ == target.name@)
            } else {
                match m[target.key@].handle {
                    None => cs.len() == 0 && (r matches Err(ScratchError::NoLiveRuntime { name: n })
                        && n@ == target.name@),
                    Some(h) => live_checks(
                        h,
                        cs,
                        match r {
                            Ok(_) => Ok(()),
                            Err(e) => Err(e),
                        },
                    ) && (r matches Ok(g) ==> *g == h),
                }
            }
        }),
{
    let ghost c0 = calls@;
    let record = match registry.scratchpads.get(target.key.as_str()) {
        Some(r) => r,
        None => {
            assert(calls@ =~= c0 + calls@.skip(c0.len() as int));
            return Err(ScratchError::NotFound { name: target.name.clone() });
        },
    };
    let handle = match &record.handle {
        Some(h) => h,
        None => {
            assert(calls@ =~= c0 + calls@.skip(c0.len() as int));
            return Err(ScratchError::NoLiveRuntime { name: target.name.clone() });
        },
    };
    match ensure_live(herdr, calls, handle) {
        Ok(()) => Ok(handle),
        Err(e) => Err(e),
    }
}

impl<H: Herdr> ScratchApp<H> {
    pub closed spec fn spec_config(self) -> Config {
        self.config
    }

    pub closed spec fn spec_registry(self) -> Registry {
        self.registry
    }

    pub closed spec fn spec_paths(self) -> Paths {
        self.paths
    }

    pub closed spec fn spec_herdr(self) -> H {
        self.herdr
    }

    pub closed spec fn spec_store(self) -> RegistryStore {
        self.store
    }

    pub closed spec fn spec_context(self) -> InvocationContext {
        self.context
    }

    pub closed spec fn spec_save_pending(self) -> bool {
        self.save_pending
    }

    /// Every operation asked of Herdr so far, with Herdr's answers.
    pub closed spec fn spec_calls(self) -> Seq<HerdrCall> {
        self.calls@
    }

    /// The plugin with its configuration, registry, paths, Herdr adapter and
    /// invocation context; the registry is stored at the paths' registry file.
    pub fn new(
        config: Config,
        registry: Registry,
        paths: Paths,
        herdr: H,
        context: InvocationContext,
    ) -> (app: Self)
        ensures
            app.spec_config() == config,
            app.spec_registry() == registry,
            app.spec_paths() == paths,
            app.spec_herdr() == herdr,
            app.spec_context() == context,
            app.spec_store().path() == paths.registry_file,
            !app.spec_save_pending(),
            app.spec_calls() == Seq::<HerdrCall>::empty(),
    {
        let store = RegistryStore::new(paths.registry_file.clone());
        ScratchApp {
            config,
            registry,
            paths,
            herdr,
            store,
            context,
            save_pending: false,
            calls: Ghost(Seq::empty()),
        }
    }

    pub fn config(&self) -> (c: &Config)
        ensures
            *c == self.spec_config(),
    {
        &self.config
    }

    pub fn registry(&self) -> (r: &Registry)
        ensures
            *r == self.spec_registry(),
    {
        &self.registry
    }

    pub fn paths(&self) -> (p: &Paths)
        ensures
            *p == self.spec_paths(),
    {
        &self.paths
    }

    pub fn herdr(&self) -> (h: &H)
        ensures
            *h == self.spec_herdr(),
    {
        &self.herdr
    }

    pub fn store(&self) -> (s: &RegistryStore)
        ensures
            *s == self.spec_store(),
    {
        &self.store
    }

    /// Whether a command changed the registry so that it must be saved.
    pub fn save_pending(&self) -> (b: bool)
        ensures
            b == self.spec_save_pending(),
    {
        self.save_pending
    }

    /// The target of a command: the requested (else default) name, valid once
    /// trimmed; its scope kind from its configuration (else the default);
    /// the scope from the context completed by the current pane; and its key.
    fn target(&self, requested: Option<&str>, current: Option<&PaneInfo>) -> (r: Result<
        Target,
        ScratchError,
    >)
        ensures
            match spec_normalize(requested_name(self.spec_config(), opt_str(requested))) {
                Err(e) => r == Err::<Target, ScratchError>(e),
                Ok(n) => r matches Ok(t) && target_of(
                    t,
                    self.spec_config(),
                    self.spec_context(),
                    n,
                    opt_pane(current),
                ),
            },
    {
        let name = normalize_name(self.config.scratchpad_name(requested))?;
        let scratch_config = self.config.scratchpad(name.as_str());
        let scope_kind = match scratch_config.scope {
            Some(k) => k,
            None => self.config.scope.default,
        };
        let context = self.context.duplicate().with_current(current);
        let scope = resolve_scope(scope_kind, &context);
        let key = registry_key(&scope, name.as_str());
        Ok(Target { name, scope, key, context })
    }

    /// Asks Herdr for the current pane: `None` when it cannot say.
    fn current_pane(&mut self) -> (c: Option<PaneInfo>)
        ensures
            unchanged(*old(self), *final(self)),
            final(self).spec_calls().len() == old(self).spec_calls().len() + 1,
            final(self).spec_calls() == old(self).spec_calls().push(final(self).spec_calls().last()),
            final(self).spec_calls().last() matches HerdrCall::CurrentPane(a) && c == pane_of(a),
    {
        let a = ask_current(&self.herdr, &mut self.calls);
        match a {
            Ok(p) => Some(p),
            Err(_) => None,
        }
    }

    /// Leaves the target scratchpad: Herdr returns to the previous context
    /// when it can, and the record becomes available.
    fn hide_by_target(&mut self, target: Target) -> (r: Result<Output, ScratchError>)
        ensures
            hide_outcome(*old(self), *final(self), target.name@, target.key@, r),
            final(self).spec_calls() == old(self).spec_calls() + calls_after(
                final(self).spec_calls(),
                old(self).spec_calls().len() as int,
            ),
            hide_calls(
                *old(self),
                target.key@,
                calls_after(final(self).spec_calls(), old(self).spec_calls().len() as int),
            ),
    {
        let ghost pre = *self;
        let ghost c0 = self.calls@;
        match self.registry.remove(target.key.as_str()) {
            None => {
                assert(self.registry.scratchpads@ =~= pre.registry.scratchpads@);
                assert(self.registry == pre.registry);
                assert(self.calls@ =~= c0 + self.calls@.skip(c0.len() as int));
                let mut text = quote("scratchpad ", target.name.as_str());
                text.append(" is not open");
                Ok(Output::Text(text))
            },
            Some(mut record) => {
                match &record.previous_focus {
                    Some(previous) => {
                        let _ = ask_focus_previous(&self.herdr, &mut self.calls, previous);
                    },
                    None => {},
                }
                assert(self.calls@ =~= c0 + self.calls@.skip(c0.len() as int));
                let now = now_rfc3339();
                let ghost rec0 = record;
                record.status = LifecycleStatus::Available;
                record.last_hidden_at = Some(now);
                assert(record == left_record(rec0, now));
                self.registry.insert(target.key, record);
                assert(records(*self) =~= records(pre).insert(target.key@, left_record(rec0, now)));
                self.save_pending = true;
                Ok(Output::Text(quote("left scratchpad ", target.name.as_str())))
            },
        }
    }

    fn hide_scratchpad(&mut self, name: Option<&str>) -> (r: Result<Output, ScratchError>)
        ensures
            calls_grow(*old(self), *final(self)),
            asks_current_first(*old(self), *final(self)),
            hide_effect(*old(self), *final(self), opt_str(name), asked_current(*old(self), *final(self)), r),
            hide_asks(
                *old(self),
                opt_str(name),
                asked_current(*old(self), *final(self)),
                later_calls(*old(self), *final(self)),
            ),
    {
        let ghost pre = *self;
        let current = self.current_pane();
        let ghost mid = self.calls@;
        let ghost cur = current;
        let target = match self.target(name, current.as_ref()) {
            Ok(t) => t,
            Err(e) => {
                proof {
                    assert(self.calls@ =~= mid + self.calls@.skip(mid.len() as int));
                    lemma_first_call(pre.calls@, mid, self.calls@);
                }
                assert(hide_effect(pre, *self, opt_str(name), cur, Err(e)));
                return Err(e);
            },
        };
        let r = self.hide_by_target(target);
        proof {
            lemma_first_call(pre.calls@, mid, self.calls@);
        }
        assert(hide_effect(pre, *self, opt_str(name), cur, r));
        r
    }

    fn close(&mut self, name: Option<&str>) -> (r: Result<Output, ScratchError>)
        ensures
            calls_grow(*old(self), *final(self)),
            asks_current_first(*old(self), *final(self)),
            close_effect(*old(self), *final(self), opt_str(name), asked_current(*old(self), *final(self)), r),
            close_asks(
                *old(self),
                opt_str(name),
                asked_current(*old(self), *final(self)),
                later_calls(*old(self), *final(self)),
            ),
    {
        let ghost pre = *self;
        let current = self.current_pane();
        let ghost mid = self.calls@;
        let ghost cur = current;
        let ghost pre1 = *self;
        let target = match self.target(name, current.as_ref()) {
            Ok(t) => t,
            Err(e) => {
                proof {
                    assert(self.calls@ =~= mid + self.calls@.skip(mid.len() as int));
                    lemma_first_call(pre.calls@, mid, self.calls@);
                }
                assert(close_effect(pre, *self, opt_str(name), cur, Err(e)));
                return Err(e);
            },
        };
        match self.registry.remove(target.key.as_str()) {
            None => {
                assert(self.registry.scratchpads@ =~= pre.registry.scratchpads@);
                assert(self.registry == pre.registry);
                let mut text = quote("scratchpad ", target.name.as_str());
                text.append(" is not open");
                let r = Ok(Output::Text(text));
                proof {
                    assert(self.calls@ =~= mid + self.calls@.skip(mid.len() as int));
                    lemma_first_call(pre.calls@, mid, self.calls@);
                }
                assert(close_effect(pre, *self, opt_str(name), cur, r));
                r
            },
            Some(mut record) => {
                match &record.handle {
                    Some(handle) => {
                        let _ = ask_close(&self.herdr, &mut self.calls, handle);
                    },
                    None => {},
                }
                proof {
                    assert(self.calls@ =~= mid + self.calls@.skip(mid.len() as int));
                    lemma_first_call(pre.calls@, mid, self.calls@);
                }
                let now = now_rfc3339();
                let ghost rec0 = record;
                record.status = LifecycleStatus::Closed;
                record.handle = None;
                record.last_hidden_at = Some(now);
                assert(record == closed_record(rec0, now));
                self.registry.insert(target.key, record);
                assert(records(*self) =~= records(pre).insert(target.key@, closed_record(rec0, now)));
                self.save_pending = true;
                let r = Ok(Output::Text(quote("closed scratchpad ", target.name.as_str())));
                assert(close_effect(pre, *self, opt_str(name), cur, r));
                r
            },
        }
    }

    /// Marks a known scratchpad visible, shown now, coming from `previous`.
    fn update_visible(&mut self, key: &str, previous: Option<FocusSnapshot>)
        ensures
            keeps_setup(*old(self), *final(self)),
            final(self).spec_save_pending() == old(self).spec_save_pending(),
            final(self).spec_calls() == old(self).spec_calls(),
            records(*old(self)).contains_key(key@) ==> exists|t: String|
                records(*final(self)) == records(*old(self)).insert(
                    key@,
                    shown_record(records(*old(self))[key@], t, previous),
                ),
            !records(*old(self)).contains_key(key@) ==> final(self).spec_registry() == old(
                self,
            ).spec_registry(),
    {
        let ghost pre = *self;
        match self.registry.remove(key) {
            Some(mut record) => {
                let ghost rec0 = record;
                let now = now_rfc3339();
                record.status = LifecycleStatus::Visible;
                record.last_shown_at = now;
                record.previous_focus = previous;
                assert(record == shown_record(rec0, now, previous));
                self.registry.insert(owned(key), record);
                assert(records(*self) =~= records(pre).insert(key@, shown_record(rec0, now, previous)));
            },
            None => {},
        }
    }

    fn focus(&mut self, name: Option<&str>) -> (r: Result<Output, ScratchError>)
        ensures
            calls_grow(*old(self), *final(self)),
            asks_current_first(*old(self), *final(self)),
            focus_effect(*old(self), *final(self), opt_str(name), asked_current(*old(self), *final(self)), r),
            focus_asks(
                *old(self),
                opt_str(name),
                asked_current(*old(self), *final(self)),
                r,
                later_calls(*old(self), *final(self)),
            ),
    {
        let ghost pre = *self;
        let current = self.current_pane();
        let ghost mid = self.calls@;
        let ghost cur = current;
        let target = match self.target(name, current.as_ref()) {
            Ok(t) => t,
            Err(e) => {
                proof {
                    assert(self.calls@ =~= mid + self.calls@.skip(mid.len() as int));
                    lemma_first_call(pre.calls@, mid, self.calls@);
                }
                assert(focus_effect(pre, *self, opt_str(name), cur, Err(e)));
                return Err(e);
            },
        };
        let r = self.focus_target(target, current);
        proof {
            lemma_first_call(pre.calls@, mid, self.calls@);
        }
        assert(focus_effect(pre, *self, opt_str(name), cur, r));
        r
    }

    fn focus_target(&mut self, target: Target, current: Option<PaneInfo>) -> (r: Result<Output, ScratchError>)
        ensures
            keeps_setup(*old(self), *final(self)),
            live_outcome(
                *old(self),
                target.name@,
                target.key@,
                r,
                output_text(r, quoted("focused scratchpad "@, target.name@)),
            ),
            r is Ok ==> exists|t: String|
                records(*final(self)) == records(*old(self)).insert(
                    target.key@,
                    shown_record(records(*old(self))[target.key@], t, spec_snapshot(current)),
                ),
            r is Ok ==> final(self).spec_save_pending(),
            r is Err ==> unchanged(*old(self), *final(self)),
            final(self).spec_calls() == old(self).spec_calls() + calls_after(
                final(self).spec_calls(),
                old(self).spec_calls().len() as int,
            ),
            live_calls(
                *old(self),
                target.key@,
                r,
                calls_after(final(self).spec_calls(), old(self).spec_calls().len() as int),
                |h: RuntimeHandle, c: HerdrCall| focuses(h, c),
                |c: HerdrCall| unit_answer(c),
            ),
    {
        let ghost pre = *self;
        let ghost c0 = self.calls@;
        let handle = match live_handle(&self.registry, &self.herdr, &mut self.calls, &target) {
            Ok(h) => h,
            Err(e) => {
                return Err(e);
            },
        };
        let ghost c1 = self.calls@;
        let ghost h = *handle;
        let focused = ask_focus(&self.herdr, &mut self.calls, handle);
        proof {
            assert(self.calls@ =~= c1 + self.calls@.skip(c1.len() as int));
            lemma_calls_chain(c0, c1, self.calls@);
            lemma_live_prefix(h, c1.skip(c0.len() as int), seq![HerdrCall::FocusHandle(h, focused)], Ok(()));
            assert(self.calls@.skip(c0.len() as int) =~= c1.skip(c0.len() as int) + seq![HerdrCall::FocusHandle(h, focused)]);
        }
        match focused {
            Ok(()) => {},
            Err(e) => {
                return Err(ScratchError::Herdr(e));
            },
        }
        self.update_visible(target.key.as_str(), snapshot(current));
        self.save_pending = true;
        Ok(Output::Text(quote("focused scratchpad ", target.name.as_str())))
    }

    fn deliver(&mut self, name: &str, text: &str, run: bool) -> (r: Result<Output, ScratchError>)
        ensures
            calls_grow(*old(self), *final(self)),
            asks_current_first(*old(self), *final(self)),
            deliver_effect(
                *old(self),
                *final(self),
                name@,
                asked_current(*old(self), *final(self)),
                r,
                deliver_report(run),
            ),
            deliver_asks(
                *old(self),
                name@,
                asked_current(*old(self), *final(self)),
                text@,
                run,
                r,
                later_calls(*old(self), *final(self)),
            ),
    {
        let ghost pre = *self;
        let current = self.current_pane();
        let ghost mid = self.calls@;
        let ghost cur = current;
        let ghost report = deliver_report(run);
        let target = match self.target(Some(name), current.as_ref()) {
            Ok(t) => t,
            Err(e) => {
                proof {
                    assert(self.calls@ =~= mid + self.calls@.skip(mid.len() as int));
                    lemma_first_call(pre.calls@, mid, self.calls@);
                }
                assert(deliver_effect(pre, *self, name@, cur, Err(e), report));
                return Err(e);
            },
        };
        let handle = match live_handle(&self.registry, &self.herdr, &mut self.calls, &target) {
            Ok(h) => h,
            Err(e) => {
                proof {
                    lemma_first_call(pre.calls@, mid, self.calls@);
                }
                assert(deliver_effect(pre, *self, name@, cur, Err(e), report));
                return Err(e);
            },
        };
        let ghost c1 = self.calls@;
        let ghost h = *handle;
        let sent = if run {
            ask_run(&self.herdr, &mut self.calls, handle, text)
        } else {
            ask_send(&self.herdr, &mut self.calls, handle, text)
        };
        let ghost last = self.calls@.last();
        proof {
            assert(self.calls@ == c1.push(last));
            assert(self.calls@ =~= c1 + seq![last]);
            assert(self.calls@ =~= c1 + self.calls@.skip(c1.len() as int));
            lemma_calls_chain(mid, c1, self.calls@);
            lemma_first_call(pre.calls@, mid, self.calls@);
            lemma_live_prefix(h, c1.skip(mid.len() as int), seq![last], Ok(()));
            assert(self.calls@.skip(mid.len() as int) =~= c1.skip(mid.len() as int) + seq![last]);
            assert(unit_answer(last) == sent);
        }
        let r = match sent {
            Ok(()) => Ok(
                Output::Text(
                    quote(
                        if run {
                            "ran command in scratchpad "
                        } else {
                            "sent text to scratchpad "
                        },
                        target.name.as_str(),
                    ),
                ),
            ),
            Err(e) => Err(ScratchError::Herdr(e)),
        };
        assert(deliver_effect(pre, *self, name@, cur, r, report));
        r
    }

    /// A new runtime of the target: Herdr opens it with the request for the
    /// scratchpad (with `command` when it is not empty) and its pane gets the
    /// configured title; `prior` holds the creation and last-hidden times of
    /// the record that was there.
    fn create_record(
        &mut self,
        target: Target,
        previous_focus: Option<FocusSnapshot>,
        prior: Option<(String, Option<String>)>,
        command: &Vec<String>,
    ) -> (r: Result<ScratchpadRecord, ScratchError>)
        ensures
            unchanged(*old(self), *final(self)),
            final(self).spec_calls() == old(self).spec_calls() + calls_after(
                final(self).spec_calls(),
                old(self).spec_calls().len() as int,
            ),
            ({
                let cs = calls_after(final(self).spec_calls(), old(self).spec_calls().len() as int);
                &&& cs.len() >= 1
                &&& cs[0] matches HerdrCall::Open(req, a)
                &&& request_for(old(self).spec_config(), target.name@, target.context, views(command@), req)
                &&& match a {
                    Err(e) => cs.len() == 1 && r == Err::<ScratchpadRecord, ScratchError>(
                        ScratchError::Herdr(e),
                    ),
                    Ok(h) => {
                        &&& cs.len() == 2
                        &&& cs[1] matches HerdrCall::Rename(g, title, _)
                        &&& g == h
                        &&& title@ == spec_title(old(self).spec_config(), target.name@)
                        &&& r matches Ok(rec)
                        &&& rec.handle == Some(h)
                        &&& rec.cwd == req.cwd
                    },
                }
            }),
            r matches Ok(rec) ==> {
                let profile = spec_profile_name(old(self).spec_config(), target.name@);
                let mode = spec_profile_mode(old(self).spec_config(), profile);
                &&& rec.name == target.name
                &&& rec.scope == target.scope
                &&& rec.profile@ == profile
                &&& rec.status == LifecycleStatus::Visible
                &&& rec.handle is Some
                &&& mode != CwdMode::Home ==> opt_view(rec.cwd) == spec_cwd(mode, target.context)
                &&& rec.previous_focus == previous_focus
                &&& match prior {
                    Some(p) => rec.created_at == p.0 && rec.last_hidden_at == p.1,
                    None => rec.created_at == rec.last_shown_at && rec.last_hidden_at is None,
                }
            },
            r is Err ==> r matches Err(ScratchError::Herdr(_)),
    {
        let ghost c0 = self.calls@;
        let (request, profile) = match open_request(
            &self.config,
            target.name.as_str(),
            &target.context,
            command,
        ) {
            Ok(p) => p,
            Err(e) => {
                return Err(e);
            },
        };
        let cwd = copy_text(&request.cwd);
        let ghost req = request;
        let opened = ask_open(&self.herdr, &mut self.calls, request);
        let ghost c1 = self.calls@;
        let handle = match opened {
            Ok(h) => h,
            Err(e) => {
                assert(self.calls@ =~= c0 + self.calls@.skip(c0.len() as int));
                assert(self.calls@.skip(c0.len() as int) =~= seq![HerdrCall::Open(req, opened)]);
                return Err(ScratchError::Herdr(e));
            },
        };
        let title = fill_name(self.config.ui.title_template.as_str(), target.name.as_str());
        let renamed = ask_rename(&self.herdr, &mut self.calls, &handle, title.as_str());
        proof {
            assert(self.calls@ =~= c0 + self.calls@.skip(c0.len() as int));
            assert(self.calls@.skip(c0.len() as int) =~= seq![
                HerdrCall::Open(req, opened),
                HerdrCall::Rename(handle, Ghost(title@), renamed),
            ]);
        }
        let now = now_rfc3339();
        Ok(new_record(target, profile, cwd, handle, previous_focus, prior, now))
    }

    /// Shows the target: reuses its runtime when that is configured and the
    /// runtime is live, else opens a new runtime.
    fn activate_or_open(
        &mut self,
        target: Target,
        previous: Option<PaneInfo>,
        command: &Vec<String>,
    ) -> (r: Result<Output, ScratchError>)
        requires
            target_of(target, old(self).spec_config(), old(self).spec_context(), target.name@, previous),
        ensures
            open_outcome(*old(self), *final(self), target.name@, target.key@, previous, r),
            final(self).spec_calls() == old(self).spec_calls() + calls_after(
                final(self).spec_calls(),
                old(self).spec_calls().len() as int,
            ),
            open_calls(
                *old(self),
                *final(self),
                target.name@,
                target.key@,
                previous,
                views(command@),
                r,
                calls_after(final(self).spec_calls(), old(self).spec_calls().len() as int),
            ),
    {
        let ghost pre = *self;
        let ghost c0 = self.calls@;
        let mut reused = false;
        let ghost mut checked: Seq<HerdrCall> = Seq::empty();
        if self.config.behavior.reuse_existing {
            match self.registry.scratchpads.get(target.key.as_str()) {
                Some(record) => match &record.handle {
                    Some(handle) => {
                        let ghost h = *handle;
                        let live = ensure_live(&self.herdr, &mut self.calls, handle);
                        let ghost c1 = self.calls@;
                        proof {
                            checked = c1.skip(c0.len() as int);
                        }
                        if live.is_ok() {
                            let focused = ask_focus(&self.herdr, &mut self.calls, handle);
                            proof {
                                assert(self.calls@ =~= c1 + self.calls@.skip(c1.len() as int));
                                lemma_calls_chain(c0, c1, self.calls@);
                                lemma_live_prefix(h, checked, seq![HerdrCall::FocusHandle(h, focused)], Ok(()));
                                assert(self.calls@.skip(c0.len() as int) =~= checked + seq![HerdrCall::FocusHandle(h, focused)]);
                            }
                            match focused {
                                Ok(()) => {
                                    reused = true;
                                },
                                Err(e) => {
                                    return Err(ScratchError::Herdr(e));
                                },
                            }
                        }
                    },
                    None => {},
                },
                None => {},
            }
        }
        if reused {
            let ghost snap = spec_snapshot(previous);
            self.update_visible(target.key.as_str(), snapshot(previous));
            self.save_pending = true;
            let r = Ok(Output::Text(quote("opened scratchpad ", target.name.as_str())));
            proof {
                let t = choose|t: String|
                    records(*self) == records(pre).insert(
                        target.key@,
                        shown_record(records(pre)[target.key@], t, snap),
                    );
                let rec = shown_record(records(pre)[target.key@], t, snap);
                assert(reused_record(pre, target.key@, previous, rec));
                assert(records(*self) == records(pre).insert(target.key@, rec));
            }
            return r;
        }
        let ghost c2 = self.calls@;
        proof {
            assert(c2 =~= c0 + c2.skip(c0.len() as int));
            assert(c2.skip(c0.len() as int) == checked);
        }
        let prior = match self.registry.scratchpads.get(target.key.as_str()) {
            Some(rec) => Some((rec.created_at.clone(), copy_text(&rec.last_hidden_at))),
            None => None,
        };
        let name = target.name.clone();
        let ghost target_key = target.key@;
        let record = match self.create_record(target, snapshot(previous), prior, command) {
            Ok(rec) => rec,
            Err(e) => {
                proof {
                    lemma_calls_chain(c0, c2, self.calls@);
                    assert(self.calls@.skip(c0.len() as int).skip(checked.len() as int) =~= self.calls@.skip(c2.len() as int));
                    if checked.len() > 0 {
                        let h = records(pre)[target_key].handle->Some_0;
                        let lr = live_check(h, checked)->Some_0.1;
                        lemma_live_prefix(h, checked, self.calls@.skip(c2.len() as int), lr);
                    }
                }
                return Err(e);
            },
        };
        let key = registry_key(&record.scope, record.name.as_str());
        assert(key@ == target_key);
        let ghost rec = record;
        self.registry.insert(key, record);
        self.save_pending = true;
        proof {
            assert(fresh_record(pre, name@, target_key, previous, rec));
            assert(records(*self) == records(pre).insert(target_key, rec));
            lemma_calls_chain(c0, c2, self.calls@);
            assert(self.calls@.skip(c0.len() as int).skip(checked.len() as int) =~= self.calls@.skip(c2.len() as int));
            if checked.len() > 0 {
                let h = records(pre)[target_key].handle->Some_0;
                let lr = live_check(h, checked)->Some_0.1;
                lemma_live_prefix(h, checked, self.calls@.skip(c2.len() as int), lr);
            }
        }
        Ok(Output::Text(quote("opened scratchpad ", name.as_str())))
    }

    fn open(&mut self, name: Option<&str>, command: &Vec<String>) -> (r: Result<Output, ScratchError>)
        ensures
            calls_grow(*old(self), *final(self)),
            asks_current_first(*old(self), *final(self)),
            open_effect(*old(self), *final(self), opt_str(name), asked_current(*old(self), *final(self)), r),
            open_asks(
                *old(self),
                *final(self),
                opt_str(name),
                asked_current(*old(self), *final(self)),
                views(command@),
                r,
                later_calls(*old(self), *final(self)),
            ),
    {
        let ghost pre = *self;
        let current = self.current_pane();
        let ghost mid = self.calls@;
        let ghost cur = current;
        let target = match self.target(name, current.as_ref()) {
            Ok(t) => t,
            Err(e) => {
                proof {
                    assert(self.calls@ =~= mid + self.calls@.skip(mid.len() as int));
                    lemma_first_call(pre.calls@, mid, self.calls@);
                }
                assert(open_effect(pre, *self, opt_str(name), cur, Err(e)));
                return Err(e);
            },
        };
        let ghost pre1 = *self;
        let r = self.activate_or_open(target, current, command);
        proof {
            lemma_first_call(pre.calls@, mid, self.calls@);
            lemma_open_outcome_same(pre, pre1, *self, target_name(pre, opt_str(name)), target_key(pre, opt_str(name), cur), cur, r);
        }
        assert(open_effect(pre, *self, opt_str(name), cur, r));
        r
    }

    fn toggle(&mut self, name: Option<&str>, command: &Vec<String>) -> (r: Result<Output, ScratchError>)
        ensures
            calls_grow(*old(self), *final(self)),
            asks_current_first(*old(self), *final(self)),
            toggle_effect(*old(self), *final(self), opt_str(name), asked_current(*old(self), *final(self)), r),
            toggle_asks(
                *old(self),
                *final(self),
                opt_str(name),
                asked_current(*old(self), *final(self)),
                views(command@),
                r,
                later_calls(*old(self), *final(self)),
            ),
    {
        let ghost pre = *self;
        let current = self.current_pane();
        let ghost mid = self.calls@;
        let ghost cur = current;
        let target = match self.target(name, current.as_ref()) {
            Ok(t) => t,
            Err(e) => {
                proof {
                    assert(self.calls@ =~= mid + self.calls@.skip(mid.len() as int));
                    lemma_first_call(pre.calls@, mid, self.calls@);
                }
                assert(toggle_effect(pre, *self, opt_str(name), cur, Err(e)));
                return Err(e);
            },
        };
        let active = match self.registry.scratchpads.get(target.key.as_str()) {
            Some(record) => match &record.handle {
                Some(handle) => match &handle.pane_id {
                    Some(pane) => match &current {
                        Some(c) => crate::text::same_text(pane.as_str(), c.pane_id.as_str()),
                        None => false,
                    },
                    None => false,
                },
                None => false,
            },
            None => false,
        };
        assert(active == is_active(pre, target.key@, cur));
        if active && self.config.behavior.toggle_returns_to_previous {
            let r = self.hide_by_target(target);
            proof {
                lemma_first_call(pre.calls@, mid, self.calls@);
            }
            assert(toggle_effect(pre, *self, opt_str(name), cur, r));
            return r;
        }
        let ghost pre1 = *self;
        let r = self.activate_or_open(target, current, command);
        proof {
            lemma_first_call(pre.calls@, mid, self.calls@);
            lemma_open_outcome_same(pre, pre1, *self, target_name(pre, opt_str(name)), target_key(pre, opt_str(name), cur), cur, r);
        }
        assert(toggle_effect(pre, *self, opt_str(name), cur, r));
        r
    }

    fn status(&mut self, name: Option<&str>, json: bool) -> (r: Result<Output, ScratchError>)
        ensures
            calls_grow(*old(self), *final(self)),
            asks_current_first(*old(self), *final(self)),
            later_calls(*old(self), *final(self)).len() == 0,
            status_effect(*old(self), *final(self), opt_str(name), json, asked_current(*old(self), *final(self)), r),
    {
        let ghost pre = *self;
        let current = self.current_pane();
        let ghost mid = self.calls@;
        let ghost cur = current;
        proof {
            assert(self.calls@ =~= mid + self.calls@.skip(mid.len() as int));
            lemma_first_call(pre.calls@, mid, self.calls@);
        }
        let target = match self.target(name, current.as_ref()) {
            Ok(t) => t,
            Err(e) => {
                assert(status_effect(pre, *self, opt_str(name), json, cur, Err(e)));
                return Err(e);
            },
        };
        let summary = match self.registry.scratchpads.get(target.key.as_str()) {
            Some(record) => summary_for(record),
            None => {
                proof {
                    reveal_strlit("closed");
                }
                ScratchpadSummary {
                    name: target.name,
                    scope: target.scope.to_string(),
                    status: LifecycleStatus::Closed.to_string(),
                    cwd: None,
                }
            },
        };
        let ghost s = summary;
        let r = if json {
            Ok(Output::Json(summary))
        } else {
            Ok(Output::Scratchpads { scratchpads: vec![summary], json })
        };
        proof {
            if !json {
                assert(r matches Ok(Output::Scratchpads { scratchpads: v, json: j }) && v@ =~= seq![s]);
            }
            assert(reports_summary(r, json, s));
            assert(status_effect(pre, *self, opt_str(name), json, cur, r));
        }
        r
    }

    /// The summaries of all records, in key order.
    fn summaries(&self) -> (v: Vec<ScratchpadSummary>)
        ensures
            summarises_all(*self, v@),
    {
        let n = self.registry.scratchpads.len();
        let mut v: Vec<ScratchpadSummary> = Vec::new();
        let mut i: usize = 0;
        while i < n
            invariant
                n == self.registry.scratchpads.key_order().len(),
                n == self.registry.scratchpads.value_order().len(),
                i <= n,
                v@.len() == i,
                forall|j: int|
                    0 <= j < i ==> summarises(
                        #[trigger] v@[j],
                        self.registry.scratchpads.value_order()[j],
                    ),
            decreases n - i,
        {
            v.push(summary_for(self.registry.scratchpads.value_at(i)));
            i = i + 1;
        }
        v
    }

    fn doctor(&mut self) -> (report: DoctorReport)
        ensures
            unchanged(*old(self), *final(self)),
            final(self).spec_calls() == old(self).spec_calls().push(
                HerdrCall::Available(report.herdr_available),
            ),
            report.config_dir == old(self).spec_paths().config_dir,
            report.config_path == old(self).spec_paths().config_file,
            report.state_dir == old(self).spec_paths().state_dir,
            report.state_path == old(self).spec_paths().registry_file,
            report.scratchpad_count == records(*old(self)).len(),
            views(report.issues@) == spec_issues(report.herdr_available, old(self).spec_config().version),
    {
        let herdr_available = ask_available(&self.herdr, &mut self.calls);
        let issues = doctor_issues(herdr_available, self.config.version);
        DoctorReport {
            herdr_available,
            config_dir: self.paths.config_dir.clone(),
            config_path: self.paths.config_file.clone(),
            state_dir: self.paths.state_dir.clone(),
            state_path: self.paths.registry_file.clone(),
            scratchpad_count: self.registry.scratchpads.len(),
            issues,
        }
    }

    fn rename(&mut self, old_name: &str, new_name: &str) -> (r: Result<Output, ScratchError>)
        ensures
            rename_effect(*old(self), *final(self), old_name@, new_name@, r),
            final(self).spec_calls() == old(self).spec_calls(),
    {
        let ghost pre = *self;
        let new = normalize_name(new_name)?;
        let keys = self.registry.keys_for_name(old_name);
        let ghost ks = keys_named(pre, old_name@);
        assert(views(keys@) == ks);
        if keys.len() == 0 {
            return Err(ScratchError::NotFound { name: owned(old_name) });
        }
        let mut i: usize = 0;
        assert(ks.skip(0) =~= ks);
        while i < keys.len()
            invariant
                views(keys@) == ks,
                i <= keys@.len(),
                keeps_setup(pre, *self),
                self.calls@ == pre.calls@,
                rename_all(records(pre), ks, new) == rename_all(records(*self), ks.skip(i as int), new),
            decreases keys@.len() - i,
        {
            let ghost before = records(*self);
            proof {
                assert(ks.skip(i as int).drop_first() =~= ks.skip(i + 1));
                assert(ks.skip(i as int)[0] == keys@[i as int]@);
            }
            match self.registry.remove(keys[i].as_str()) {
                Some(mut record) => {
                    let ghost rec0 = record;
                    record.name = new.clone();
                    let new_key = registry_key(&record.scope, new.as_str());
                    self.registry.insert(new_key, record);
                    assert(records(*self) =~= before.remove(keys@[i as int]@).insert(
                        spec_registry_key(rec0.scope, new@),
                        ScratchpadRecord { name: new, ..rec0 },
                    ));
                },
                None => {},
            }
            i = i + 1;
        }
        assert(ks.skip(keys@.len() as int) =~= Seq::<Seq<char>>::empty());
        self.save_pending = true;
        let mut text = quote("renamed scratchpad ", old_name);
        text.append(" to ");
        let tail = quote("", new.as_str());
        text.append(tail.as_str());
        proof {
            reveal_strlit("");
            assert(text@ =~= quoted(quoted("renamed scratchpad "@, old_name@) + " to "@, new@));
        }
        Ok(Output::Text(text))
    }

    fn add_to_config(&mut self, args: ConfigAddArgs) -> (r: Result<Output, ScratchError>)
        ensures
            add_effect(*old(self), *final(self), args, r),
            final(self).spec_calls() == old(self).spec_calls(),
    {
        let ghost a = args;
        let name = normalize_name(args.name.as_str())?;
        let scope = match &args.scope {
            Some(word) => match ScopeKind::parse(word.as_str()) {
                Some(k) => {
                    proof {
                        let c = choose|k2: ScopeKind| spec_scope_word(k2) == word@;
                        assert(spec_scope_word(c) == spec_scope_word(k));
                        assert(c == k) by {
                            reveal_strlit("global");
                            reveal_strlit("workspace");
                            reveal_strlit("cwd");
                            assert("global"@.len() == 6);
                            assert("workspace"@.len() == 9);
                            assert("cwd"@.len() == 3);
                        }
                    }
                    Some(k)
                },
                None => {
                    return Err(ScratchError::UnknownScope { value: word.clone() });
                },
            },
            None => None,
        };
        let cwd = match &args.cwd {
            Some(word) => CwdMode::parse(word.as_str()),
            None => CwdMode::parse("context"),
        };
        let reported = name.clone();
        self.config.add_scratchpad(name, scope, cwd, args.command);
        Ok(Output::WriteConfig { path: self.paths.config_file.clone(), name: reported })
    }

    /// Carries out a command. Commands change the registry in memory only;
    /// `save_pending` tells the caller to save it.
    pub fn handle(&mut self, command: Command) -> (r: Result<Output, ScratchError>)
        ensures
            handled(*old(self), *final(self), command, r),
    {
        let ghost pre = *self;
        let r = match command {
            Command::Toggle(args) => self.toggle(name_ref(&args.name), &args.command),
            Command::Open(args) => self.open(name_ref(&args.name), &args.command),
            Command::Focus(args) => self.focus(name_ref(&args.name)),
            Command::Hide(args) => self.hide_scratchpad(name_ref(&args.name)),
            Command::Close(args) => self.close(name_ref(&args.name)),
            Command::List(args) => Ok(
                Output::Scratchpads { scratchpads: self.summaries(), json: args.json },
            ),
            Command::Status(args) => self.status(name_ref(&args.name), args.json),
            Command::Rename(args) => self.rename(args.old.as_str(), args.new.as_str()),
            Command::Send(args) => {
                let text = crate::text::join_words(&args.text, " ");
                self.deliver(args.name.as_str(), text.as_str(), false)
            },
            Command::Run(args) => {
                let text = crate::text::join_words(&args.command, " ");
                self.deliver(args.name.as_str(), text.as_str(), true)
            },
            Command::Doctor(args) => {
                let report = self.doctor();
                proof {
                    assert(self.calls@.skip(pre.calls@.len() as int) =~= seq![
                        HerdrCall::Available(report.herdr_available),
                    ]);
                }
                Ok(Output::Doctor { report, json: args.json })
            },
            Command::Config(args) => match args.command {
                ConfigSubcommand::Path => Ok(Output::Text(self.paths.config_file.clone())),
                ConfigSubcommand::Init(init) => Ok(
                    Output::InitConfig { path: self.paths.config_file.clone(), force: init.force },
                ),
                ConfigSubcommand::Add(add) => self.add_to_config(add),
            },
            Command::State(_) => Ok(Output::Text(self.paths.registry_file.clone())),
            Command::Session => Ok(Output::Session),
        };
        proof {
            assert(self.calls@ =~= pre.calls@ + self.calls@.skip(pre.calls@.len() as int));
        }
        r
    }}

} // verus!
