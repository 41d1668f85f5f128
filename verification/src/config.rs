//! Configuration: where the plugin keeps its files, the defaults, profiles
//! and named scratchpads.
use vstd::prelude::*;

use crate::text::same_text;
use crate::text_map::TextMap;

verus! {

/// Directory and file paths of the plugin.
#[derive(Debug, Clone)]
pub struct Paths {
    pub config_dir: String,
    pub state_dir: String,
    pub config_file: String,
    pub registry_file: String,
}

/// `base` joined with the relative name `file`, as `Path::join` does on Unix:
/// a separator goes between them unless `base` is empty or already ends in one.
pub open spec fn spec_join(base: Seq<char>, file: Seq<char>) -> Seq<char> {
    if base.len() == 0 {
        file
    } else if base.last() == '/' {
        base + file
    } else {
        base + seq!['/'] + file
    }
}

/// The directory that an environment variable names, when it is set and not
/// empty.
pub open spec fn spec_env_dir(var: Option<String>) -> Option<Seq<char>> {
    match var {
        Some(v) => if v@.len() > 0 {
            Some(v@)
        } else {
            None
        },
        None => None,
    }
}

/// The first directory that is known, else the working directory, else `.`.
pub open spec fn spec_base_dir(
    first: Option<String>,
    second: Option<String>,
    current_dir: Option<String>,
) -> Seq<char> {
    match first {
        Some(d) => d@,
        None => match second {
            Some(d) => d@,
            None => match current_dir {
                Some(d) => d@,
                None => "."@,
            },
        },
    }
}

pub fn join_path(base: &str, file: &str) -> (r: String)
    ensures
        r@ == spec_join(base@, file@),
{
    let n = base.unicode_len();
    let mut r = String::from_str(base);
    if n > 0 && base.get_char(n - 1) != '/' {
        r.append("/");
        proof {
            reveal_strlit("/");
        }
    }
    r.append(file);
    r
}

fn env_dir(var: Option<String>) -> (r: Option<String>)
    ensures
        match r {
            Some(d) => spec_env_dir(var) == Some(d@),
            None => spec_env_dir(var) is None,
        },
{
    match var {
        Some(v) => {
            if v.as_str().unicode_len() > 0 {
                Some(v)
            } else {
                None
            }
        },
        None => None,
    }
}

fn base_dir(first: Option<String>, second: Option<String>, current_dir: Option<String>) -> (r:
    String)
    ensures
        r@ == spec_base_dir(first, second, current_dir),
{
    match first {
        Some(d) => d,
        None => match second {
            Some(d) => d,
            None => match current_dir {
                Some(d) => d,
                None => String::from_str("."),
            },
        },
    }
}

/// The user's configuration directory, as the `dirs` crate finds it for this
/// platform.
#[verifier::external_body]
fn platform_config_dir() -> Option<String> {
    dirs::config_dir().map(|p| p.to_string_lossy().into_owned())
}

/// The user's local data directory, as the `dirs` crate finds it.
#[verifier::external_body]
fn platform_data_local_dir() -> Option<String> {
    dirs::data_local_dir().map(|p| p.to_string_lossy().into_owned())
}

/// The user's data directory, as the `dirs` crate finds it.
#[verifier::external_body]
fn platform_data_dir() -> Option<String> {
    dirs::data_dir().map(|p| p.to_string_lossy().into_owned())
}

impl Paths {
    /// The paths that follow from the two directory variables, the platform
    /// directories and the working directory.
    pub fn from_dirs(
        config_dir_var: Option<String>,
        state_dir_var: Option<String>,
        platform_config: Option<String>,
        platform_data_local: Option<String>,
        platform_data: Option<String>,
        current_dir: Option<String>,
    ) -> (p: Paths)
        ensures
            p.config_dir@ == match spec_env_dir(config_dir_var) {
                Some(d) => d,
                None => spec_join(
                    spec_base_dir(platform_config, None, current_dir),
                    "herdr-scratch"@,
                ),
            },
            p.state_dir@ == match spec_env_dir(state_dir_var) {
                Some(d) => d,
                None => spec_join(
                    spec_base_dir(platform_data_local, platform_data, current_dir),
                    "herdr-scratch"@,
                ),
            },
            p.config_file@ == spec_join(p.config_dir@, "config.toml"@),
            p.registry_file@ == spec_join(p.state_dir@, "registry.json"@),
    {
        let config_dir = match env_dir(config_dir_var) {
            Some(d) => d,
            None => {
                let base = base_dir(platform_config, None, current_dir.clone());
                join_path(base.as_str(), "herdr-scratch")
            },
        };
        let state_dir = match env_dir(state_dir_var) {
            Some(d) => d,
            None => {
                let base = base_dir(platform_data_local, platform_data, current_dir);
                join_path(base.as_str(), "herdr-scratch")
            },
        };
        let config_file = join_path(config_dir.as_str(), "config.toml");
        let registry_file = join_path(state_dir.as_str(), "registry.json");
        Paths { config_dir, state_dir, config_file, registry_file }
    }

    /// Finds the plugin's paths: the directories that Herdr names in
    /// `HERDR_PLUGIN_CONFIG_DIR` and `HERDR_PLUGIN_STATE_DIR` (handed in as
    /// their values) when they are set and not empty, else the platform's
    /// directories with `herdr-scratch` below them.
    pub fn discover(
        config_dir_var: Option<String>,
        state_dir_var: Option<String>,
        current_dir: Option<String>,
    ) -> (p: Paths)
        ensures
            spec_env_dir(config_dir_var) matches Some(d) ==> p.config_dir@ == d,
            spec_env_dir(state_dir_var) matches Some(d) ==> p.state_dir@ == d,
            spec_env_dir(config_dir_var) is None ==> exists|platform_config: Option<String>|
                p.config_dir@ == spec_join(
                    spec_base_dir(platform_config, None, current_dir),
                    "herdr-scratch"@,
                ),
            spec_env_dir(state_dir_var) is None ==> exists|
                platform_data_local: Option<String>,
                platform_data: Option<String>,
            |
                p.state_dir@ == spec_join(
                    spec_base_dir(platform_data_local, platform_data, current_dir),
                    "herdr-scratch"@,
                ),
            p.config_file@ == spec_join(p.config_dir@, "config.toml"@),
            p.registry_file@ == spec_join(p.state_dir@, "registry.json"@),
    {
        let platform_config = platform_config_dir();
        let platform_data_local = platform_data_local_dir();
        let platform_data = if platform_data_local.is_some() {
            None
        } else {
            platform_data_dir()
        };
        let ghost (pc, pl, pd, cur) = (platform_config, platform_data_local, platform_data, current_dir);
        let p = Paths::from_dirs(
            config_dir_var,
            state_dir_var,
            platform_config,
            platform_data_local,
            platform_data,
            current_dir,
        );
        assert(spec_env_dir(config_dir_var) is None ==> p.config_dir@ == spec_join(
            spec_base_dir(pc, None, cur),
            "herdr-scratch"@,
        ));
        assert(spec_env_dir(state_dir_var) is None ==> p.state_dir@ == spec_join(
            spec_base_dir(pl, pd, cur),
            "herdr-scratch"@,
        ));
        p
    }
}

/// Where a scratchpad opens.
#[derive(Debug, Clone, Copy, PartialEq, Eq, Structural)]
pub enum ScratchpadPlacement {
    Split,
    Tab,
}

/// The configuration word for a placement.
pub open spec fn spec_placement_word(p: ScratchpadPlacement) -> Seq<char> {
    match p {
        ScratchpadPlacement::Split => "split"@,
        ScratchpadPlacement::Tab => "tab"@,
    }
}

/// The configuration word for a split direction.
pub open spec fn spec_direction_word(d: SplitDirection) -> Seq<char> {
    match d {
        SplitDirection::Right => "right"@,
        SplitDirection::Down => "down"@,
    }
}

impl ScratchpadPlacement {
    pub fn as_str(self) -> (r: &'static str)
        ensures
            r@ == match self {
                ScratchpadPlacement::Split => "split"@,
                ScratchpadPlacement::Tab => "tab"@,
            },
            r@ == spec_placement_word(self),
    {
        match self {
            ScratchpadPlacement::Split => "split",
            ScratchpadPlacement::Tab => "tab",
        }
    }

    /// The placement that a configuration word names.
    pub fn parse(word: &str) -> (r: Option<ScratchpadPlacement>)
        ensures
            match r {
                Some(p) => spec_placement_word(p) == word@,
                None => forall|p: ScratchpadPlacement| spec_placement_word(p) != word@,
            },
    {
        proof {
            reveal_strlit("split");
            reveal_strlit("tab");
        }
        if same_text(word, "split") {
            Some(ScratchpadPlacement::Split)
        } else if same_text(word, "tab") {
            Some(ScratchpadPlacement::Tab)
        } else {
            None
        }
    }
}

/// The direction in which a split opens.
#[derive(Debug, Clone, Copy, PartialEq, Eq, Structural)]
pub enum SplitDirection {
    Right,
    Down,
}

impl SplitDirection {
    pub fn as_str(self) -> (r: &'static str)
        ensures
            r@ == match self {
                SplitDirection::Right => "right"@,
                SplitDirection::Down => "down"@,
            },
            r@ == spec_direction_word(self),
    {
        match self {
            SplitDirection::Right => "right",
            SplitDirection::Down => "down",
        }
    }

    /// The split direction that a configuration word names.
    pub fn parse(word: &str) -> (r: Option<SplitDirection>)
        ensures
            match r {
                Some(d) => spec_direction_word(d) == word@,
                None => forall|d: SplitDirection| spec_direction_word(d) != word@,
            },
    {
        proof {
            reveal_strlit("right");
            reveal_strlit("down");
        }
        if same_text(word, "right") {
            Some(SplitDirection::Right)
        } else if same_text(word, "down") {
            Some(SplitDirection::Down)
        } else {
            None
        }
    }
}

/// Which status notifications to show.
#[derive(Debug, Clone, Copy, PartialEq, Eq, Structural)]
pub enum NotificationMode {
    Off,
    Errors,
    All,
}

/// The boundary inside which a scratchpad name stands for one scratchpad.
#[derive(Debug, Clone, Copy, PartialEq, Eq, Structural)]
pub enum ScopeKind {
    Global,
    Workspace,
    Cwd,
}

impl ScopeKind {
    /// The public word for the scope.
    pub fn as_str(self) -> (r: &'static str)
        ensures
            r@ == spec_scope_word(self),
    {
        match self {
            ScopeKind::Global => "global",
            ScopeKind::Workspace => "workspace",
            ScopeKind::Cwd => "cwd",
        }
    }

    /// The scope that a public word names.
    pub fn parse(word: &str) -> (r: Option<ScopeKind>)
        ensures
            match r {
                Some(k) => spec_scope_word(k) == word@,
                None => forall|k: ScopeKind| spec_scope_word(k) != word@,
            },
    {
        proof {
            reveal_strlit("global");
            reveal_strlit("workspace");
            reveal_strlit("cwd");
        }
        if same_text(word, "global") {
            Some(ScopeKind::Global)
        } else if same_text(word, "workspace") {
            Some(ScopeKind::Workspace)
        } else if same_text(word, "cwd") {
            Some(ScopeKind::Cwd)
        } else {
            proof {
                assert forall|k: ScopeKind| spec_scope_word(k) != word@ by {
                    match k {
                        ScopeKind::Global => {},
                        ScopeKind::Workspace => {},
                        ScopeKind::Cwd => {},
                    }
                }
            }
            None
        }
    }
}

pub open spec fn spec_scope_word(k: ScopeKind) -> Seq<char> {
    match k {
        ScopeKind::Global => "global"@,
        ScopeKind::Workspace => "workspace"@,
        ScopeKind::Cwd => "cwd"@,
    }
}

/// Where a new scratchpad's shell starts.
#[derive(Debug, PartialEq, Eq)]
pub enum CwdMode {
    Context,
    Workspace,
    Home,
    Path(String),
}

impl Clone for CwdMode {
    fn clone(&self) -> (r: Self)
        ensures
            r == *self,
    {
        match self {
            CwdMode::Context => CwdMode::Context,
            CwdMode::Workspace => CwdMode::Workspace,
            CwdMode::Home => CwdMode::Home,
            CwdMode::Path(p) => CwdMode::Path(p.clone()),
        }
    }
}

impl CwdMode {
    /// The mode that a word of `config add --cwd` names: `context`,
    /// `workspace` and `home`, and any other text as a path.
    pub fn parse(word: &str) -> (r: CwdMode)
        ensures
            word@ == "context"@ ==> r == CwdMode::Context,
            word@ == "workspace"@ ==> r == CwdMode::Workspace,
            word@ == "home"@ ==> r == CwdMode::Home,
            (word@ != "context"@ && word@ != "workspace"@ && word@ != "home"@) ==> (r matches CwdMode::Path(p) && p@ == word@),
    {
        proof {
            reveal_strlit("context");
            reveal_strlit("workspace");
            reveal_strlit("home");
            assert("workspace"@.len() == 9);
            assert("context"@.len() == 7);
            assert("home"@.len() == 4);
        }
        if same_text(word, "context") {
            CwdMode::Context
        } else if same_text(word, "workspace") {
            CwdMode::Workspace
        } else if same_text(word, "home") {
            CwdMode::Home
        } else {
            CwdMode::Path(String::from_str(word))
        }
    }
}

/// How the plugin behaves.
#[derive(Debug, Clone)]
pub struct BehaviorConfig {
    pub toggle_returns_to_previous: bool,
    pub reuse_existing: bool,
    pub restore_last_cwd: bool,
    pub close_confirmation: bool,
    pub placement: ScratchpadPlacement,
    pub split_direction: SplitDirection,
}

impl Default for BehaviorConfig {
    fn default() -> (r: Self)
        ensures
            r.toggle_returns_to_previous,
            r.reuse_existing,
            r.restore_last_cwd,
            r.close_confirmation,
            r.placement == ScratchpadPlacement::Split,
            r.split_direction == SplitDirection::Right,
    {
        BehaviorConfig {
            toggle_returns_to_previous: true,
            reuse_existing: true,
            restore_last_cwd: true,
            close_confirmation: true,
            placement: ScratchpadPlacement::Split,
            split_direction: SplitDirection::Right,
        }
    }
}

/// Display settings.
#[derive(Debug, Clone)]
pub struct UiConfig {
    pub title_template: String,
    pub status_notifications: NotificationMode,
}

impl Default for UiConfig {
    fn default() -> (r: Self)
        ensures
            r.title_template@ == "scratch:{name}"@,
            r.status_notifications == NotificationMode::Errors,
    {
        UiConfig {
            title_template: String::from_str("scratch:{name}"),
            status_notifications: NotificationMode::Errors,
        }
    }
}

/// The scope that scratchpads get when their own configuration names none.
#[derive(Debug, Clone)]
pub struct ScopeConfig {
    pub default: ScopeKind,
}

impl Default for ScopeConfig {
    fn default() -> (r: Self)
        ensures
            r.default == ScopeKind::Workspace,
    {
        ScopeConfig { default: ScopeKind::Workspace }
    }
}

/// A launch recipe: the command, where it starts, and its environment.
#[derive(Debug)]
pub struct ProfileConfig {
    pub command: Vec<String>,
    pub cwd: CwdMode,
    pub env: TextMap<String>,
}

impl ProfileConfig {
    /// Whether two profiles hold the same command, start directory and
    /// environment.
    pub open spec fn same(self, other: ProfileConfig) -> bool {
        &&& self.command@ == other.command@
        &&& self.cwd == other.cwd
        &&& self.env@ == other.env@
        &&& self.env.key_order() == other.env.key_order()
    }
}

impl Clone for ProfileConfig {
    fn clone(&self) -> (r: Self)
        ensures
            r.same(*self),
    {
        let command = self.command.clone();
        assert(command@ =~= self.command@);
        ProfileConfig { command, cwd: self.cwd.clone(), env: self.env.duplicate() }
    }
}

impl Default for ProfileConfig {
    fn default() -> (r: Self)
        ensures
            r.command@.len() == 0,
            r.cwd == CwdMode::Context,
            r.env@ == Map::<Seq<char>, String>::empty(),
            r.env.key_order().len() == 0,
    {
        ProfileConfig { command: Vec::new(), cwd: CwdMode::Context, env: TextMap::new() }
    }
}

/// A named scratchpad's configuration.
#[derive(Debug)]
pub struct ScratchpadConfig {
    pub profile: String,
    pub scope: Option<ScopeKind>,
}

impl Clone for ScratchpadConfig {
    fn clone(&self) -> (r: Self)
        ensures
            r == *self,
    {
        ScratchpadConfig { profile: self.profile.clone(), scope: self.scope }
    }
}

impl Default for ScratchpadConfig {
    fn default() -> (r: Self)
        ensures
            r.profile@ == "default"@,
            r.scope is None,
    {
        ScratchpadConfig { profile: String::from_str("default"), scope: None }
    }
}

/// The plugin's configuration.
#[derive(Debug)]
pub struct Config {
    pub version: u32,
    pub default_scratchpad: String,
    pub behavior: BehaviorConfig,
    pub ui: UiConfig,
    pub scope: ScopeConfig,
    pub profiles: TextMap<ProfileConfig>,
    pub scratchpads: TextMap<ScratchpadConfig>,
}

impl Default for Config {
    fn default() -> (r: Self)
        ensures
            r.version == 1,
            r.default_scratchpad@ == "scratch"@,
            r.behavior.toggle_returns_to_previous,
            r.behavior.reuse_existing,
            r.behavior.restore_last_cwd,
            r.behavior.close_confirmation,
            r.behavior.placement == ScratchpadPlacement::Split,
            r.behavior.split_direction == SplitDirection::Right,
            r.ui.title_template@ == "scratch:{name}"@,
            r.ui.status_notifications == NotificationMode::Errors,
            r.scope.default == ScopeKind::Workspace,
            r.profiles@.dom() == set!["default"@],
            r.profiles@["default"@].command@.len() == 0,
            r.profiles@["default"@].cwd == CwdMode::Context,
            r.profiles@["default"@].env@ == Map::<Seq<char>, String>::empty(),
            r.scratchpads@.dom() == set!["scratch"@],
            r.scratchpads@["scratch"@].profile@ == "default"@,
            r.scratchpads@["scratch"@].scope == Some(ScopeKind::Workspace),
    {
        let mut profiles = TextMap::new();
        profiles.insert(String::from_str("default"), ProfileConfig::default());
        let mut scratchpads = TextMap::new();
        scratchpads.insert(
            String::from_str("scratch"),
            ScratchpadConfig { profile: String::from_str("default"), scope: Some(ScopeKind::Workspace) },
        );
        let r = Config {
            version: 1,
            default_scratchpad: String::from_str("scratch"),
            behavior: BehaviorConfig::default(),
            ui: UiConfig::default(),
            scope: ScopeConfig::default(),
            profiles,
            scratchpads,
        };
        assert(r.profiles@.dom() =~= set!["default"@]);
        assert(r.scratchpads@.dom() =~= set!["scratch"@]);
        r
    }
}

impl Config {
    /// The scratchpad that a command names, else the default scratchpad.
    pub fn scratchpad_name<'a>(&'a self, requested: Option<&'a str>) -> (r: &'a str)
        ensures
            r@ == match requested {
                Some(n) => n@,
                None => self.default_scratchpad@,
            },
    {
        match requested {
            Some(n) => n,
            None => self.default_scratchpad.as_str(),
        }
    }

    /// The configuration of the scratchpad `name`, else the default one.
    pub fn scratchpad(&self, name: &str) -> (r: ScratchpadConfig)
        ensures
            self.scratchpads@.contains_key(name@) ==> r == self.scratchpads@[name@],
            !self.scratchpads@.contains_key(name@) ==> r.profile@ == "default"@ && r.scope is None,
    {
        match self.scratchpads.get(name) {
            Some(c) => c.clone(),
            None => ScratchpadConfig::default(),
        }
    }

    /// The profile `name`, else the default profile.
    pub fn profile(&self, name: &str) -> (r: ProfileConfig)
        ensures
            self.profiles@.contains_key(name@) ==> r.same(self.profiles@[name@]),
            !self.profiles@.contains_key(name@) ==> {
                &&& r.command@.len() == 0
                &&& r.cwd == CwdMode::Context
                &&& r.env@ == Map::<Seq<char>, String>::empty()
            },
    {
        match self.profiles.get(name) {
            Some(p) => p.clone(),
            None => ProfileConfig::default(),
        }
    }
}

impl Config {
    /// Adds (or replaces) a named scratchpad: a profile of that name with the
    /// command, start directory and no extra environment, and a scratchpad
    /// of that name that uses it, in the given scope.
    pub fn add_scratchpad(
        &mut self,
        name: String,
        scope: Option<ScopeKind>,
        cwd: CwdMode,
        command: Vec<String>,
    )
        ensures
            final(self).version == old(self).version,
            final(self).default_scratchpad == old(self).default_scratchpad,
            final(self).scope == old(self).scope,
            final(self).behavior == old(self).behavior,
            final(self).ui == old(self).ui,
            final(self).profiles@.dom() == old(self).profiles@.dom().insert(name@),
            final(self).scratchpads@.dom() == old(self).scratchpads@.dom().insert(name@),
            forall|k: Seq<char>| k != name@ && #[trigger] old(self).profiles@.contains_key(k) ==> final(self).profiles@[k] == old(self).profiles@[k],
            forall|k: Seq<char>| k != name@ && #[trigger] old(self).scratchpads@.contains_key(k) ==> final(self).scratchpads@[k] == old(self).scratchpads@[k],
            final(self).profiles@[name@].command == command,
            final(self).profiles@[name@].cwd == cwd,
            final(self).profiles@[name@].env@ == Map::<Seq<char>, String>::empty(),
            final(self).scratchpads@[name@].profile == name,
            final(self).scratchpads@[name@].scope == scope,
    {
        let profile = ProfileConfig { command, cwd, env: TextMap::new() };
        self.profiles.insert(name.clone(), profile);
        let entry = ScratchpadConfig { profile: name.clone(), scope };
        self.scratchpads.insert(name, entry);
        assert(self.profiles@.dom() =~= old(self).profiles@.dom().insert(name@));
        assert(self.scratchpads@.dom() =~= old(self).scratchpads@.dom().insert(name@));
    }
}

/// Why `config init` refuses to write: a file is already at `path` and
/// `--force` was not given; `None` when it may write.
pub fn init_refusal(path: &str, exists: bool, force: bool) -> (r: Option<String>)
    ensures
        r is Some <==> (exists && !force),
        r matches Some(m) ==> m@ == "config file already exists at "@ + path@
            + "; use --force to replace it"@,
{
    if exists && !force {
        let mut m = String::from_str("config file already exists at ");
        m.append(path);
        m.append("; use --force to replace it");
        Some(m)
    } else {
        None
    }
}

} // verus!
