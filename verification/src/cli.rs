//! The commands of the command-line interface, as data.
use vstd::prelude::*;

verus! {

/// A parsed command line.
#[derive(Debug)]
pub struct Cli {
    pub command: Command,
}

/// The commands.
#[derive(Debug)]
pub enum Command {
    /// Show the scratchpad, or return to the previous context when it is active.
    Toggle(OpenArgs),
    /// Create or show a scratchpad.
    Open(OpenArgs),
    /// Focus an existing scratchpad.
    Focus(NameArg),
    /// Leave a scratchpad without destroying it when possible.
    Hide(NameArg),
    /// Terminate and forget a scratchpad runtime.
    Close(NameArg),
    /// List known scratchpads.
    List(JsonArg),
    /// Show one scratchpad's status.
    Status(StatusArgs),
    /// Rename a scratchpad identity.
    Rename(RenameArgs),
    /// Send text to a scratchpad without pressing Enter.
    Send(SendArgs),
    /// Send a command to a scratchpad and press Enter.
    Run(RunArgs),
    /// Validate Herdr Scratch configuration and runtime connectivity.
    Doctor(JsonArg),
    /// Print config paths.
    Config(ConfigArgs),
    /// Print state paths.
    State(PathArgs),
    /// Internal pane entrypoint.
    Session,
}

#[derive(Debug)]
pub struct NameArg {
    pub name: Option<String>,
}

#[derive(Debug)]
pub struct OpenArgs {
    pub name: Option<String>,
    pub command: Vec<String>,
}

#[derive(Debug)]
pub struct JsonArg {
    pub json: bool,
}

#[derive(Debug)]
pub struct StatusArgs {
    pub name: Option<String>,
    pub json: bool,
}

#[derive(Debug)]
pub struct RenameArgs {
    pub old: String,
    pub new: String,
}

#[derive(Debug)]
pub struct SendArgs {
    pub name: String,
    pub text: Vec<String>,
}

#[derive(Debug)]
pub struct RunArgs {
    pub name: String,
    pub command: Vec<String>,
}

#[derive(Debug)]
pub struct ConfigArgs {
    pub command: ConfigSubcommand,
}

#[derive(Debug)]
pub enum ConfigSubcommand {
    /// Print the primary path.
    Path,
    /// Write a default config file.
    Init(ConfigInitArgs),
    /// Add a named scratchpad/profile to the config file.
    Add(ConfigAddArgs),
}

#[derive(Debug)]
pub struct ConfigInitArgs {
    pub force: bool,
}

#[derive(Debug)]
pub struct ConfigAddArgs {
    pub name: String,
    pub scope: Option<String>,
    pub cwd: Option<String>,
    pub command: Vec<String>,
}

#[derive(Debug)]
pub struct PathArgs {
    pub command: PathSubcommand,
}

#[derive(Debug)]
pub enum PathSubcommand {
    /// Print the primary path.
    Path,
}

} // verus!
