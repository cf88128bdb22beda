use vstd::prelude::*;
use vstd::string::StringExecFns;

use crate::envcheck::{keys_unique, pairs_view};

verus! {

/// A service the project starts.
#[derive(Debug, Clone)]
pub struct ServiceDef {
    pub name: String,
    pub command: String,
}

/// The project's configuration. `env` maps each variable to its declared
/// type; `ignore_globs` are the paths a watch session leaves out.
#[derive(Debug, Clone)]
pub struct DevflowConfig {
    pub env: Vec<(String, String)>,
    pub services: Vec<ServiceDef>,
    pub start_commands: Vec<String>,
    pub test_command: Option<String>,
    pub ignore_globs: Vec<String>,
    pub desired_ports: Vec<u16>,
}

impl DevflowConfig {
    /// Each variable of `env` is declared once.
    pub open spec fn wf(&self) -> bool {
        keys_unique(pairs_view(self.env@))
    }

    /// True when the configuration holds nothing.
    pub open spec fn is_empty(&self) -> bool {
        &&& self.env@.len() == 0
        &&& self.services@.len() == 0
        &&& self.start_commands@.len() == 0
        &&& self.test_command is None
        &&& self.ignore_globs@.len() == 0
        &&& self.desired_ports@.len() == 0
    }
}

impl Default for DevflowConfig {
    /// No configuration: nothing declared, and a watch that ignores nothing.
    fn default() -> (r: DevflowConfig)
        ensures
            r.is_empty(),
            r.wf(),
    {
        DevflowConfig {
            env: Vec::new(),
            services: Vec::new(),
            start_commands: Vec::new(),
            test_command: None,
            ignore_globs: Vec::new(),
            desired_ports: Vec::new(),
        }
    }
}

/// The configuration a new project starts with.
pub fn default_config() -> (r: DevflowConfig)
    ensures
        r.wf(),
        r.env@.len() == 2,
        r.env@[0].0@ == "DATABASE_URL"@ && r.env@[0].1@ == "string"@,
        r.env@[1].0@ == "PORT"@ && r.env@[1].1@ == "int"@,
        r.services@.len() == 1,
        r.services@[0].name@ == "app"@ && r.services@[0].command@ == "cargo run"@,
        r.start_commands@.len() == 1 && r.start_commands@[0]@ == "docker compose up -d"@,
        r.test_command matches Some(t) && t@ == "cargo test"@,
        r.ignore_globs@.len() == 2,
        r.ignore_globs@[0]@ == "target/**"@ && r.ignore_globs@[1]@ == "node_modules/**"@,
        r.desired_ports@ == seq![3000u16, 5432u16],
{
    let mut env: Vec<(String, String)> = Vec::new();
    env.push((String::from_str("DATABASE_URL"), String::from_str("string")));
    env.push((String::from_str("PORT"), String::from_str("int")));
    let mut services: Vec<ServiceDef> = Vec::new();
    services.push(
        ServiceDef { name: String::from_str("app"), command: String::from_str("cargo run") },
    );
    let mut start_commands: Vec<String> = Vec::new();
    start_commands.push(String::from_str("docker compose up -d"));
    let mut ignore_globs: Vec<String> = Vec::new();
    ignore_globs.push(String::from_str("target/**"));
    ignore_globs.push(String::from_str("node_modules/**"));
    let mut desired_ports: Vec<u16> = Vec::new();
    desired_ports.push(3000);
    desired_ports.push(5432);
    assert(desired_ports@ =~= seq![3000u16, 5432u16]);
    proof {
        reveal_strlit("DATABASE_URL");
        reveal_strlit("PORT");
        assert(pairs_view(env@)[0].0.len() != pairs_view(env@)[1].0.len());
    }
    DevflowConfig {
        env,
        services,
        start_commands,
        test_command: Some(String::from_str("cargo test")),
        ignore_globs,
        desired_ports,
    }
}

} // verus!
