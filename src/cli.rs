use vstd::prelude::*;

verus! {

/// The command line: one subcommand.
#[derive(Debug)]
pub struct Cli {
    pub command: Command,
}

/// The subcommands of the tool.
#[derive(Debug)]
pub enum Command {
    Up,
    Port(PortArgs),
    Watch,
    Env(EnvArgs),
    Logs,
    Deps,
    Snap(SnapArgs),
    Dash,
    Init,
    Plugin(PluginArgs),
}

/// Options of the `port` subcommand.
#[derive(Debug, Clone, Copy, PartialEq, Eq, Structural)]
pub struct PortArgs {
    pub free: bool,
    pub watch: bool,
    pub port: Option<u16>,
}

/// The port looked up when none is given.
pub const DEFAULT_PORT: u16 = 3000;

impl PortArgs {
    /// The port to look up: the one given, else the default.
    pub fn target_port(&self) -> (r: u16)
        ensures
            r == match self.port {
                Some(p) => p,
                None => DEFAULT_PORT,
            },
    {
        match self.port {
            Some(p) => p,
            None => DEFAULT_PORT,
        }
    }
}

/// Options of the `env` subcommand.
#[derive(Debug, Clone, Copy, PartialEq, Eq, Structural)]
pub struct EnvArgs {
    pub mode: EnvMode,
}

#[derive(Debug, Clone, Copy, PartialEq, Eq, Structural)]
pub enum EnvMode {
    Doctor,
    Fix,
    Diff,
}

/// Options of the `snap` subcommand.
#[derive(Debug, Clone, Copy, PartialEq, Eq, Structural)]
pub struct SnapArgs {
    pub mode: SnapMode,
}

#[derive(Debug, Clone, Copy, PartialEq, Eq, Structural)]
pub enum SnapMode {
    Save,
    Restore,
}

/// Options of the `plugin` subcommand.
#[derive(Debug, Clone)]
pub struct PluginArgs {
    pub name: String,
    pub payload: Option<String>,
}

} // verus!
