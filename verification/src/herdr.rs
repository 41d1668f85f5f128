//! The Herdr adapter: the operations the plugin needs from Herdr, and the
//! command lines and reply handling of the adapter that drives the `herdr`
//! command-line program.
use vstd::prelude::*;

use crate::config::{ScratchpadPlacement, SplitDirection};
use crate::json::Json;
use crate::registry::{FocusSnapshot, RuntimeHandle};
use crate::text::{is_blank, owned, trim, views};
use crate::text_map::TextMap;

verus! {

/// The plugin's identifier in Herdr.
pub const PLUGIN_ID: &'static str = "herdr.scratch";

/// The pane entrypoint that runs a scratchpad session.
pub const ENTRYPOINT: &'static str = "scratch";

/// What Herdr reports of a pane.
#[derive(Debug)]
pub struct PaneInfo {
    pub pane_id: String,
    pub workspace_id: String,
    pub tab_id: String,
    pub focused: bool,
    pub cwd: Option<String>,
}

/// What Herdr reports of a tab.
#[derive(Debug)]
pub struct TabInfo {
    pub tab_id: String,
    pub workspace_id: String,
    pub focused: bool,
}

/// What a new scratchpad runtime is opened with.
#[derive(Debug)]
pub struct OpenScratchpadRequest {
    pub cwd: Option<String>,
    pub env: TextMap<String>,
    pub placement: ScratchpadPlacement,
    pub split_direction: SplitDirection,
}

/// Why a Herdr operation failed.
#[derive(Debug)]
pub enum HerdrError {
    CommandSpawn { binary: String, source: String },
    CommandFailed { command: String, status: Option<i32>, stderr: String },
    InvalidUtf8(String),
    InvalidJson { stdout: String, source: String },
    Api(Json),
    Socket(String),
    MissingField(String),
    MissingHandle(String),
    Unsupported(String),
}

/// The operations that the plugin needs from Herdr. Herdr is an outside
/// service, so nothing is stated of what an implementation answers; the
/// plugin asks through the `ask_*` functions, which record each operation
/// with its answer, and its contracts say what it asks and what it does with
/// each answer.
pub trait Herdr {
    fn available(&self) -> bool;

    fn current_pane(&self) -> Result<PaneInfo, HerdrError>;

    fn pane_get(&self, pane_id: &str) -> Result<PaneInfo, HerdrError>;

    fn tab_get(&self, tab_id: &str) -> Result<TabInfo, HerdrError>;

    fn focus_handle(&self, handle: &RuntimeHandle) -> Result<(), HerdrError>;

    fn focus_previous(&self, previous: &FocusSnapshot) -> Result<(), HerdrError>;

    fn open_scratchpad(&self, request: OpenScratchpadRequest) -> Result<RuntimeHandle, HerdrError>;

    fn rename_handle(&self, handle: &RuntimeHandle, title: &str) -> Result<(), HerdrError>;

    fn close_handle(&self, handle: &RuntimeHandle) -> Result<(), HerdrError>;

    fn send_text(&self, handle: &RuntimeHandle, text: &str) -> Result<(), HerdrError>;

    fn run_command(&self, handle: &RuntimeHandle, command: &str) -> Result<(), HerdrError>;
}

/// One operation asked of Herdr, with what Herdr answered.
pub enum HerdrCall {
    Available(bool),
    CurrentPane(Result<PaneInfo, HerdrError>),
    PaneGet(Ghost<Seq<char>>, Result<PaneInfo, HerdrError>),
    TabGet(Ghost<Seq<char>>, Result<TabInfo, HerdrError>),
    FocusHandle(RuntimeHandle, Result<(), HerdrError>),
    FocusPrevious(FocusSnapshot, Result<(), HerdrError>),
    Open(OpenScratchpadRequest, Result<RuntimeHandle, HerdrError>),
    Rename(RuntimeHandle, Ghost<Seq<char>>, Result<(), HerdrError>),
    Close(RuntimeHandle, Result<(), HerdrError>),
    SendText(RuntimeHandle, Ghost<Seq<char>>, Result<(), HerdrError>),
    RunCommand(RuntimeHandle, Ghost<Seq<char>>, Result<(), HerdrError>),
}

/// Asks Herdr whether it is available, and records it.
pub fn ask_available<H: Herdr>(herdr: &H, calls: &mut Ghost<Seq<HerdrCall>>) -> (r: bool)
    ensures
        final(calls)@ == old(calls)@.push(HerdrCall::Available(r)),
{
    let r = herdr.available();
    *calls = Ghost(calls@.push(HerdrCall::Available(r)));
    r
}

/// Asks Herdr for the current pane, and records it.
pub fn ask_current<H: Herdr>(herdr: &H, calls: &mut Ghost<Seq<HerdrCall>>) -> (r: Result<PaneInfo, HerdrError>)
    ensures
        final(calls)@ == old(calls)@.push(HerdrCall::CurrentPane(r)),
{
    let r = herdr.current_pane();
    *calls = Ghost(calls@.push(HerdrCall::CurrentPane(r)));
    r
}

/// Asks Herdr for a pane, and records it.
pub fn ask_pane<H: Herdr>(herdr: &H, calls: &mut Ghost<Seq<HerdrCall>>, pane_id: &str) -> (r: Result<PaneInfo, HerdrError>)
    ensures
        final(calls)@ == old(calls)@.push(HerdrCall::PaneGet(Ghost(pane_id@), r)),
{
    let r = herdr.pane_get(pane_id);
    *calls = Ghost(calls@.push(HerdrCall::PaneGet(Ghost(pane_id@), r)));
    r
}

/// Asks Herdr for a tab, and records it.
pub fn ask_tab<H: Herdr>(herdr: &H, calls: &mut Ghost<Seq<HerdrCall>>, tab_id: &str) -> (r: Result<TabInfo, HerdrError>)
    ensures
        final(calls)@ == old(calls)@.push(HerdrCall::TabGet(Ghost(tab_id@), r)),
{
    let r = herdr.tab_get(tab_id);
    *calls = Ghost(calls@.push(HerdrCall::TabGet(Ghost(tab_id@), r)));
    r
}

/// Asks Herdr to focus a runtime, and records it.
pub fn ask_focus<H: Herdr>(herdr: &H, calls: &mut Ghost<Seq<HerdrCall>>, handle: &RuntimeHandle) -> (r: Result<(), HerdrError>)
    ensures
        final(calls)@ == old(calls)@.push(HerdrCall::FocusHandle(*handle, r)),
{
    let r = herdr.focus_handle(handle);
    *calls = Ghost(calls@.push(HerdrCall::FocusHandle(*handle, r)));
    r
}

/// Asks Herdr to return to a previous context, and records it.
pub fn ask_focus_previous<H: Herdr>(herdr: &H, calls: &mut Ghost<Seq<HerdrCall>>, previous: &FocusSnapshot) -> (r: Result<(), HerdrError>)
    ensures
        final(calls)@ == old(calls)@.push(HerdrCall::FocusPrevious(*previous, r)),
{
    let r = herdr.focus_previous(previous);
    *calls = Ghost(calls@.push(HerdrCall::FocusPrevious(*previous, r)));
    r
}

/// Asks Herdr to open a runtime, and records it.
pub fn ask_open<H: Herdr>(herdr: &H, calls: &mut Ghost<Seq<HerdrCall>>, request: OpenScratchpadRequest) -> (r: Result<RuntimeHandle, HerdrError>)
    ensures
        final(calls)@ == old(calls)@.push(HerdrCall::Open(request, r)),
{
    let ghost req = request;
    let r = herdr.open_scratchpad(request);
    *calls = Ghost(calls@.push(HerdrCall::Open(req, r)));
    r
}

/// Asks Herdr to give a runtime's pane a title, and records it.
pub fn ask_rename<H: Herdr>(herdr: &H, calls: &mut Ghost<Seq<HerdrCall>>, handle: &RuntimeHandle, title: &str) -> (r: Result<(), HerdrError>)
    ensures
        final(calls)@ == old(calls)@.push(HerdrCall::Rename(*handle, Ghost(title@), r)),
{
    let r = herdr.rename_handle(handle, title);
    *calls = Ghost(calls@.push(HerdrCall::Rename(*handle, Ghost(title@), r)));
    r
}

/// Asks Herdr to close a runtime, and records it.
pub fn ask_close<H: Herdr>(herdr: &H, calls: &mut Ghost<Seq<HerdrCall>>, handle: &RuntimeHandle) -> (r: Result<(), HerdrError>)
    ensures
        final(calls)@ == old(calls)@.push(HerdrCall::Close(*handle, r)),
{
    let r = herdr.close_handle(handle);
    *calls = Ghost(calls@.push(HerdrCall::Close(*handle, r)));
    r
}

/// Asks Herdr to type text into a runtime, and records it.
pub fn ask_send<H: Herdr>(herdr: &H, calls: &mut Ghost<Seq<HerdrCall>>, handle: &RuntimeHandle, text: &str) -> (r: Result<(), HerdrError>)
    ensures
        final(calls)@ == old(calls)@.push(HerdrCall::SendText(*handle, Ghost(text@), r)),
{
    let r = herdr.send_text(handle, text);
    *calls = Ghost(calls@.push(HerdrCall::SendText(*handle, Ghost(text@), r)));
    r
}

/// Asks Herdr to run a command in a runtime, and records it.
pub fn ask_run<H: Herdr>(herdr: &H, calls: &mut Ghost<Seq<HerdrCall>>, handle: &RuntimeHandle, command: &str) -> (r: Result<(), HerdrError>)
    ensures
        final(calls)@ == old(calls)@.push(HerdrCall::RunCommand(*handle, Ghost(command@), r)),
{
    let r = herdr.run_command(handle, command);
    *calls = Ghost(calls@.push(HerdrCall::RunCommand(*handle, Ghost(command@), r)));
    r
}

/// The adapter that drives the `herdr` program: the program's path.
#[derive(Debug, Clone)]
pub struct HerdrCli {
    bin: String,
}

/// The `--env` arguments for the entries of an environment, in key order.
pub open spec fn spec_env_args(keys: Seq<Seq<char>>, values: Seq<String>) -> Seq<Seq<char>>
    decreases keys.len(),
{
    if keys.len() == 0 {
        Seq::empty()
    } else {
        spec_env_args(keys.drop_last(), values.drop_last()) + seq![
            "--env"@,
            keys.last() + "="@ + values.last()@,
        ]
    }
}

/// The arguments of `herdr plugin pane open` for a request.
pub open spec fn spec_open_args(request: OpenScratchpadRequest) -> Seq<Seq<char>> {
    seq![
        "plugin"@,
        "pane"@,
        "open"@,
        "--plugin"@,
        PLUGIN_ID@,
        "--entrypoint"@,
        ENTRYPOINT@,
        "--placement"@,
        match request.placement {
            ScratchpadPlacement::Split => "split"@,
            ScratchpadPlacement::Tab => "tab"@,
        },
        "--focus"@,
    ] + (if request.placement == ScratchpadPlacement::Split {
        seq![
            "--direction"@,
            match request.split_direction {
                SplitDirection::Right => "right"@,
                SplitDirection::Down => "down"@,
            },
        ]
    } else {
        Seq::empty()
    }) + (match request.cwd {
        Some(c) => seq!["--cwd"@, c@],
        None => Seq::empty(),
    }) + spec_env_args(request.env.key_order(), request.env.value_order())
}

/// The arguments that focus a handle's tab, then its pane: a tab step when
/// the handle has a focus token, a pane step when it has a pane.
pub open spec fn spec_focus_steps(handle: RuntimeHandle) -> Seq<Seq<Seq<char>>> {
    (match crate::registry::spec_focus_token(handle.opaque@) {
        Some(t) => seq![seq!["tab"@, "focus"@, t@]],
        None => Seq::empty(),
    }) + (match handle.pane_id {
        Some(p) => seq![seq!["plugin"@, "pane"@, "focus"@, p@]],
        None => Seq::empty(),
    })
}

fn word(s: &str) -> (r: String)
    ensures
        r@ == s@,
{
    owned(s)
}

impl HerdrCli {
    /// The adapter for the program that `HERDR_BIN_PATH` names (handed in as
    /// its value), else `herdr`.
    pub fn discover(bin_path: Option<String>) -> (c: HerdrCli)
        ensures
            c.bin()@ == match bin_path {
                Some(b) => b@,
                None => "herdr"@,
            },
    {
        match bin_path {
            Some(b) => HerdrCli { bin: b },
            None => HerdrCli { bin: word("herdr") },
        }
    }

    pub closed spec fn bin(self) -> String {
        self.bin
    }

    /// The program that the adapter runs.
    pub fn program(&self) -> (p: &String)
        ensures
            *p == self.bin(),
    {
        &self.bin
    }

    /// The command line as a failure report shows it: the program and its
    /// arguments, separated by spaces.
    pub fn command_line(&self, args: &Vec<String>) -> (r: String)
        ensures
            r@ == self.bin()@ + " "@ + crate::text::spec_join_words(views(args@), " "@),
    {
        let mut r = self.bin.clone();
        r.append(" ");
        let rest = crate::text::join_words(args, " ");
        r.append(rest.as_str());
        r
    }

    /// `pane current`.
    pub fn current_pane_args() -> (a: Vec<String>)
        ensures
            views(a@) == seq!["pane"@, "current"@],
    {
        let a = vec![word("pane"), word("current")];
        assert(views(a@) =~= seq!["pane"@, "current"@]);
        a
    }

    /// `pane get <pane_id>`.
    pub fn pane_get_args(pane_id: &str) -> (a: Vec<String>)
        ensures
            views(a@) == seq!["pane"@, "get"@, pane_id@],
    {
        let a = vec![word("pane"), word("get"), word(pane_id)];
        assert(views(a@) =~= seq!["pane"@, "get"@, pane_id@]);
        a
    }

    /// `tab get <tab_id>`.
    pub fn tab_get_args(tab_id: &str) -> (a: Vec<String>)
        ensures
            views(a@) == seq!["tab"@, "get"@, tab_id@],
    {
        let a = vec![word("tab"), word("get"), word(tab_id)];
        assert(views(a@) =~= seq!["tab"@, "get"@, tab_id@]);
        a
    }

    /// `tab focus <token>`.
    pub fn tab_focus_args(token: &str) -> (a: Vec<String>)
        ensures
            views(a@) == seq!["tab"@, "focus"@, token@],
    {
        let a = vec![word("tab"), word("focus"), word(token)];
        assert(views(a@) =~= seq!["tab"@, "focus"@, token@]);
        a
    }

    /// The commands that focus a handle: its tab first, then its pane.
    pub fn focus_handle_steps(handle: &RuntimeHandle) -> (steps: Vec<Vec<String>>)
        ensures
            steps@.map_values(|s: Vec<String>| views(s@)) == spec_focus_steps(*handle),
    {
        let mut steps: Vec<Vec<String>> = Vec::new();
        match handle.focus_token() {
            Some(token) => {
                steps.push(HerdrCli::tab_focus_args(token.as_str()));
            },
            None => {},
        }
        let ghost first = steps@.map_values(|s: Vec<String>| views(s@));
        match &handle.pane_id {
            Some(pane_id) => {
                let a = vec![word("plugin"), word("pane"), word("focus"), word(pane_id.as_str())];
                assert(views(a@) =~= seq!["plugin"@, "pane"@, "focus"@, pane_id@]);
                steps.push(a);
            },
            None => {},
        }
        assert(steps@.map_values(|s: Vec<String>| views(s@)) =~= spec_focus_steps(*handle));
        steps
    }

    /// The arguments of `herdr plugin pane open` for `request`: the plugin and
    /// its entrypoint, the placement, focus, the split direction for a split,
    /// the start directory when there is one, and an `--env key=value` pair
    /// for each environment entry in key order.
    pub fn open_scratchpad_args(request: &OpenScratchpadRequest) -> (a: Vec<String>)
        ensures
            views(a@) == spec_open_args(*request),
    {
        let mut args = vec![
            word("plugin"),
            word("pane"),
            word("open"),
            word("--plugin"),
            word(PLUGIN_ID),
            word("--entrypoint"),
            word(ENTRYPOINT),
            word("--placement"),
            word(request.placement.as_str()),
            word("--focus"),
        ];
        let ghost head = views(args@);
        if request.placement == ScratchpadPlacement::Split {
            args.push(word("--direction"));
            args.push(word(request.split_direction.as_str()));
        }
        let ghost with_direction = views(args@);
        match &request.cwd {
            Some(cwd) => {
                args.push(word("--cwd"));
                args.push(cwd.clone());
            },
            None => {},
        }
        let ghost prefix = views(args@);
        let n = request.env.len();
        let ghost ks = request.env.key_order();
        let ghost vs = request.env.value_order();
        let mut i: usize = 0;
        while i < n
            invariant
                n == ks.len(),
                n == vs.len(),
                ks == request.env.key_order(),
                vs == request.env.value_order(),
                i <= n,
                views(args@) == prefix + spec_env_args(ks.take(i as int), vs.take(i as int)),
            decreases n - i,
        {
            let key = request.env.key_at(i);
            let value = request.env.value_at(i);
            let mut pair = key.clone();
            pair.append("=");
            pair.append(value.as_str());
            let ghost before = views(args@);
            args.push(word("--env"));
            args.push(pair);
            proof {
                assert(ks.take(i + 1).last() == ks[i as int]);
                assert(vs.take(i + 1).last() == vs[i as int]);
                assert(views(args@) =~= before + seq!["--env"@, ks[i as int] + "="@ + vs[i as int]@]);
                assert(ks.take(i + 1).drop_last() =~= ks.take(i as int));
                assert(vs.take(i + 1).drop_last() =~= vs.take(i as int));
                assert(views(args@) =~= prefix + spec_env_args(ks.take(i + 1), vs.take(i + 1)));
            }
            i = i + 1;
        }
        proof {
            assert(ks.take(n as int) =~= ks);
            assert(vs.take(n as int) =~= vs);
            assert(views(args@) =~= spec_open_args(*request));
        }
        args
    }

    /// The pane of a handle, which the pane operations need.
    pub fn handle_pane(handle: &RuntimeHandle) -> (r: Result<&String, HerdrError>)
        ensures
            match r {
                Ok(p) => handle.pane_id == Some(*p),
                Err(e) => handle.pane_id is None && (e matches HerdrError::MissingHandle(f) && f@
                    == "pane_id"@),
            },
    {
        match &handle.pane_id {
            Some(p) => Ok(p),
            None => Err(HerdrError::MissingHandle(word("pane_id"))),
        }
    }

    /// `pane rename <pane> <title>`.
    pub fn rename_args(handle: &RuntimeHandle, title: &str) -> (r: Result<Vec<String>, HerdrError>)
        ensures
            match r {
                Ok(a) => (handle.pane_id matches Some(p) && views(a@) == seq![
                    "pane"@,
                    "rename"@,
                    p@,
                    title@,
                ]),
                Err(e) => handle.pane_id is None && (e matches HerdrError::MissingHandle(_)),
            },
    {
        let pane_id = HerdrCli::handle_pane(handle)?;
        let a = vec![word("pane"), word("rename"), pane_id.clone(), word(title)];
        assert(views(a@) =~= seq!["pane"@, "rename"@, pane_id@, title@]);
        Ok(a)
    }

    /// `plugin pane close <pane>`.
    pub fn close_args(handle: &RuntimeHandle) -> (r: Result<Vec<String>, HerdrError>)
        ensures
            match r {
                Ok(a) => (handle.pane_id matches Some(p) && views(a@) == seq![
                    "plugin"@,
                    "pane"@,
                    "close"@,
                    p@,
                ]),
                Err(e) => handle.pane_id is None && (e matches HerdrError::MissingHandle(_)),
            },
    {
        let pane_id = HerdrCli::handle_pane(handle)?;
        let a = vec![word("plugin"), word("pane"), word("close"), pane_id.clone()];
        assert(views(a@) =~= seq!["plugin"@, "pane"@, "close"@, pane_id@]);
        Ok(a)
    }

    /// `pane send-text <pane> <text>`.
    pub fn send_text_args(handle: &RuntimeHandle, text: &str) -> (r: Result<
        Vec<String>,
        HerdrError,
    >)
        ensures
            match r {
                Ok(a) => (handle.pane_id matches Some(p) && views(a@) == seq![
                    "pane"@,
                    "send-text"@,
                    p@,
                    text@,
                ]),
                Err(e) => handle.pane_id is None && (e matches HerdrError::MissingHandle(_)),
            },
    {
        let pane_id = HerdrCli::handle_pane(handle)?;
        let a = vec![word("pane"), word("send-text"), pane_id.clone(), word(text)];
        assert(views(a@) =~= seq!["pane"@, "send-text"@, pane_id@, text@]);
        Ok(a)
    }

    /// `pane run <pane> <command>`.
    pub fn run_command_args(handle: &RuntimeHandle, command: &str) -> (r: Result<
        Vec<String>,
        HerdrError,
    >)
        ensures
            match r {
                Ok(a) => (handle.pane_id matches Some(p) && views(a@) == seq![
                    "pane"@,
                    "run"@,
                    p@,
                    command@,
                ]),
                Err(e) => handle.pane_id is None && (e matches HerdrError::MissingHandle(_)),
            },
    {
        let pane_id = HerdrCli::handle_pane(handle)?;
        let a = vec![word("pane"), word("run"), pane_id.clone(), word(command)];
        assert(views(a@) =~= seq!["pane"@, "run"@, pane_id@, command@]);
        Ok(a)
    }

    /// When focusing the previous pane directly did not work (or there was no
    /// pane): the command that focuses the previous tab, or the error when
    /// the snapshot has no tab either.
    pub fn focus_previous_fallback(previous: &FocusSnapshot) -> (r: Result<Vec<String>, HerdrError>)
        ensures
            match r {
                Ok(a) => (previous.focus_token matches Some(t) && views(a@) == seq![
                    "tab"@,
                    "focus"@,
                    t@,
                ]),
                Err(e) => previous.focus_token is None && (e matches HerdrError::Unsupported(m) && m@
                    == "previous context does not include a focusable tab"@),
            },
    {
        match &previous.focus_token {
            Some(token) => Ok(HerdrCli::tab_focus_args(token.as_str())),
            None => Err(
                HerdrError::Unsupported(
                    word("previous context does not include a focusable tab"),
                ),
            ),
        }
    }

    /// What returning to `previous` does once focusing its exact pane was
    /// tried (`pane_focused` says whether that worked; without a pane it was
    /// not tried): nothing more when it worked, else the fallback command
    /// that focuses the previous tab, or the error when there is none.
    pub fn focus_previous_next(previous: &FocusSnapshot, pane_focused: bool) -> (r: Result<
        Option<Vec<String>>,
        HerdrError,
    >)
        ensures
            previous.pane_id is Some && pane_focused ==> r == Ok::<Option<Vec<String>>, HerdrError>(None),
            !(previous.pane_id is Some && pane_focused) ==> match r {
                Ok(a) => (a matches Some(args) && (previous.focus_token matches Some(t) && views(args@) == seq![
                    "tab"@,
                    "focus"@,
                    t@,
                ])),
                Err(e) => previous.focus_token is None && (e matches HerdrError::Unsupported(m) && m@
                    == "previous context does not include a focusable tab"@),
            },
    {
        if previous.pane_id.is_some() && pane_focused {
            return Ok(None);
        }
        match HerdrCli::focus_previous_fallback(previous) {
            Ok(args) => Ok(Some(args)),
            Err(e) => Err(e),
        }
    }

    /// The handle of a pane that `plugin pane open` reported: a `herdr`
    /// handle with the pane, its workspace, and as opaque data the pane's tab
    /// as focus token and the placement as surface.
    pub fn handle_for_opened_pane(pane: PaneInfo, placement: ScratchpadPlacement) -> (h:
        RuntimeHandle)
        ensures
            h.kind@ == "herdr"@,
            h.pane_id == Some(pane.pane_id),
            h.workspace_id == Some(pane.workspace_id),
            h.opaque@.dom() == set!["focus_token"@, "surface"@],
            h.opaque@["focus_token"@] == Json::String(pane.tab_id),
            h.opaque@["surface"@] matches Json::String(s) && s@ == match placement {
                ScratchpadPlacement::Split => "split"@,
                ScratchpadPlacement::Tab => "tab"@,
            },
    {
        proof {
            reveal_strlit("focus_token");
            reveal_strlit("surface");
            assert("focus_token"@.len() != "surface"@.len());
        }
        let mut opaque: TextMap<Json> = TextMap::new();
        opaque.insert(word("focus_token"), Json::String(pane.tab_id));
        opaque.insert(word("surface"), Json::String(word(placement.as_str())));
        assert(opaque@.dom() =~= set!["focus_token"@, "surface"@]);
        RuntimeHandle {
            kind: word("herdr"),
            pane_id: Some(pane.pane_id),
            workspace_id: Some(pane.workspace_id),
            opaque,
        }
    }

    /// The socket request that focuses a pane: `pane.focus` with the pane.
    pub fn pane_focus_request(pane_id: &str) -> (r: Json)
        ensures
            r matches Json::Object(m) && m@.dom() == set!["id"@, "method"@, "params"@],
            is_text(spec_member(r, "id"@), "herdr-scratch:pane-focus"@),
            is_text(spec_member(r, "method"@), "pane.focus"@),
            spec_member(r, "params"@) matches Some(p) && (p matches Json::Object(pm) && pm@.dom() == set!["pane_id"@]),
            is_text(spec_member(spec_member(r, "params"@).unwrap(), "pane_id"@), pane_id@),
    {
        proof {
            reveal_strlit("id");
            reveal_strlit("method");
            reveal_strlit("params");
            assert("id"@.len() != "method"@.len());
            assert("id"@.len() != "params"@.len());
            assert("method"@ != "params"@) by {
                assert("method"@[0] != "params"@[0]);
            }
        }
        let mut params: TextMap<Json> = TextMap::new();
        params.insert(word("pane_id"), Json::String(word(pane_id)));
        assert(params@.dom() =~= set!["pane_id"@]);
        let mut m: TextMap<Json> = TextMap::new();
        m.insert(word("id"), Json::String(word("herdr-scratch:pane-focus")));
        m.insert(word("method"), Json::String(word("pane.focus")));
        m.insert(word("params"), Json::Object(params));
        assert(m@.dom() =~= set!["id"@, "method"@, "params"@]);
        Json::Object(m)
    }
}

/// Whether a member is there and is the JSON string `text`.
pub open spec fn is_text(member: Option<Json>, text: Seq<char>) -> bool {
    member matches Some(v) && (v matches Json::String(s) && s@ == text)
}

/// The result of a Herdr reply: an error when the reply has an `error`
/// member, else its `result` member, else a missing-field error.
pub fn parse_result(value: Json) -> (r: Result<Json, HerdrError>)
    ensures
        match value {
            Json::Object(m) => if m@.contains_key("error"@) {
                r matches Err(HerdrError::Api(v)) && v == value
            } else if m@.contains_key("result"@) {
                r == Ok::<Json, HerdrError>(m@["result"@])
            } else {
                r matches Err(HerdrError::MissingField(f)) && f@ == "result"@
            },
            _ => r matches Err(HerdrError::MissingField(f)) && f@ == "result"@,
        },
{
    if value.get("error").is_some() {
        return Err(HerdrError::Api(value));
    }
    match value {
        Json::Object(mut m) => match m.remove("result") {
            Some(result) => Ok(result),
            None => Err(HerdrError::MissingField(word("result"))),
        },
        _ => Err(HerdrError::MissingField(word("result"))),
    }
}

/// The member `key` of `value`, taken out of it.
fn take_member(value: Json, key: &str) -> (r: Option<Json>)
    ensures
        match value {
            Json::Object(m) => if m@.contains_key(key@) {
                r == Some(m@[key@])
            } else {
                r is None
            },
            _ => r is None,
        },
{
    match value {
        Json::Object(mut m) => m.remove(key),
        _ => None,
    }
}

/// The spec of the member `key` of a value, when it is an object that has it.
pub open spec fn spec_member(value: Json, key: Seq<char>) -> Option<Json> {
    match value {
        Json::Object(m) => if m@.contains_key(key) {
            Some(m@[key])
        } else {
            None
        },
        _ => None,
    }
}

/// The spec of `parse_result`: `None` when the reply carries no usable result.
pub open spec fn spec_result(value: Json) -> Option<Json> {
    if spec_member(value, "error"@) is Some {
        None
    } else {
        spec_member(value, "result"@)
    }
}

/// The error `parse_result` gives for a reply without a usable result: the
/// reply itself when it has an `error` member, else the missing `result`.
pub open spec fn result_error(value: Json, r: Result<Json, HerdrError>) -> bool {
    if spec_member(value, "error"@) is Some {
        r matches Err(HerdrError::Api(v)) && v == value
    } else {
        r matches Err(HerdrError::MissingField(f)) && f@ == "result"@
    }
}

/// The pane that a `pane current` or `pane get` reply carries, before it is
/// decoded: the `pane` member of the result.
pub fn pane_member(value: Json) -> (r: Result<Json, HerdrError>)
    ensures
        match spec_result(value) {
            Some(res) => match spec_member(res, "pane"@) {
                Some(p) => r == Ok::<Json, HerdrError>(p),
                None => r matches Err(HerdrError::MissingField(f)) && f@ == "result.pane"@,
            },
            None => result_error(value, r),
        },
{
    let result = parse_result(value)?;
    match take_member(result, "pane") {
        Some(p) => Ok(p),
        None => Err(HerdrError::MissingField(word("result.pane"))),
    }
}

/// The tab that a `tab get` reply carries, before it is decoded: the `tab`
/// member of the result.
pub fn tab_member(value: Json) -> (r: Result<Json, HerdrError>)
    ensures
        match spec_result(value) {
            Some(res) => match spec_member(res, "tab"@) {
                Some(t) => r == Ok::<Json, HerdrError>(t),
                None => r matches Err(HerdrError::MissingField(f)) && f@ == "result.tab"@,
            },
            None => result_error(value, r),
        },
{
    let result = parse_result(value)?;
    match take_member(result, "tab") {
        Some(t) => Ok(t),
        None => Err(HerdrError::MissingField(word("result.tab"))),
    }
}

/// The pane that a `plugin pane open` reply carries, before it is decoded:
/// the `pane` member of the result's `plugin_pane` member.
pub fn plugin_pane_member(value: Json) -> (r: Result<Json, HerdrError>)
    ensures
        match spec_result(value) {
            Some(res) => match spec_member(res, "plugin_pane"@) {
                Some(pp) => match spec_member(pp, "pane"@) {
                    Some(p) => r == Ok::<Json, HerdrError>(p),
                    None => r matches Err(HerdrError::MissingField(f)) && f@
                        == "result.plugin_pane.pane"@,
                },
                None => r matches Err(HerdrError::MissingField(f)) && f@
                    == "result.plugin_pane.pane"@,
            },
            None => result_error(value, r),
        },
{
    let result = parse_result(value)?;
    let missing = word("result.plugin_pane.pane");
    match take_member(result, "plugin_pane") {
        Some(plugin_pane) => match take_member(plugin_pane, "pane") {
            Some(p) => Ok(p),
            None => Err(HerdrError::MissingField(missing)),
        },
        None => Err(HerdrError::MissingField(missing)),
    }
}

/// The reply line read from Herdr's socket (`read` bytes were read): an
/// empty reply, nothing read or only white space, is an error; otherwise
/// the line, to be read as JSON.
pub fn socket_reply(read: usize, line: String) -> (r: Result<String, HerdrError>)
    ensures
        (read == 0 || trim(line@).len() == 0) ==> (r matches Err(HerdrError::Unsupported(m)) && m@
            == "Herdr socket returned an empty response"@),
        !(read == 0 || trim(line@).len() == 0) ==> r == Ok::<String, HerdrError>(line),
{
    if read == 0 || is_blank(line.as_str()) {
        Err(HerdrError::Unsupported(word("Herdr socket returned an empty response")))
    } else {
        Ok(line)
    }
}

/// The outcome of a command that only acknowledges: blank output is success;
/// otherwise the output must be JSON (`parsed` is what the JSON reader made
/// of it) without an `error` member.
pub fn check_ack(stdout: String, parsed: Result<Json, String>) -> (r: Result<(), HerdrError>)
    ensures
        trim(stdout@).len() == 0 ==> r is Ok,
        trim(stdout@).len() != 0 ==> match parsed {
            Err(e) => r matches Err(HerdrError::InvalidJson { stdout: s, source: src }) && s
                == stdout && src == e,
            Ok(v) => if spec_member(v, "error"@) is Some {
                r matches Err(HerdrError::Api(a)) && a == v
            } else {
                r is Ok
            },
        },
{
    if is_blank(stdout.as_str()) {
        return Ok(());
    }
    match parsed {
        Err(source) => Err(HerdrError::InvalidJson { stdout, source }),
        Ok(value) => {
            if value.get("error").is_some() {
                Err(HerdrError::Api(value))
            } else {
                Ok(())
            }
        },
    }
}

} // verus!
