use vstd::prelude::*;
use vstd::string::StringExecFns;

use crate::text::views_of;
use crate::text::{contains_text, decimal, decimal_string, find_text};

verus! {

/// A process found to hold a port.
#[derive(Debug, Clone)]
pub struct PortOwner {
    pub port: u16,
    pub pid: u32,
    pub parent_pid: Option<u32>,
    pub cmd: String,
    pub memory_kb: u64,
    pub uptime_secs: u64,
}

/// The commands suggested to stop a process: graceful, then forced, on Unix
/// and on Windows.
pub open spec fn kill_suggestions(pid: nat) -> Seq<Seq<char>> {
    seq![
        "Try graceful stop first: kill "@ + decimal(pid),
        "If needed force stop: kill -9 "@ + decimal(pid),
        "Windows graceful: taskkill /PID "@ + decimal(pid),
        "Windows force: taskkill /F /PID "@ + decimal(pid),
    ]
}

/// Suggests how to stop the process `pid`, gentlest first.
pub fn safe_kill_suggestion(pid: u32) -> (r: Vec<String>)
    ensures
        r@.map_values(|s: String| s@) == kill_suggestions(pid as nat),
{
    let id = decimal_string(pid as u64);
    let mut r: Vec<String> = Vec::new();
    r.push(String::from_str("Try graceful stop first: kill ").concat(id.as_str()));
    r.push(String::from_str("If needed force stop: kill -9 ").concat(id.as_str()));
    r.push(String::from_str("Windows graceful: taskkill /PID ").concat(id.as_str()));
    r.push(String::from_str("Windows force: taskkill /F /PID ").concat(id.as_str()));
    assert(r@.map_values(|s: String| s@) =~= kill_suggestions(pid as nat));
    r
}

/// A process is taken to hold a port when its name or one of its arguments
/// mentions the port number.
pub open spec fn mentions_port(name: Seq<char>, args: Seq<Seq<char>>, port: nat) -> bool {
    contains_text(name, decimal(port)) || exists|i: int|
        0 <= i < args.len() && contains_text(#[trigger] args[i], decimal(port))
}

/// Whether a process, by its name and arguments, mentions a port.
pub fn process_mentions_port(name: &str, args: &Vec<String>, port: u16) -> (r: bool)
    ensures
        r == mentions_port(name@, views_of(args@), port as nat),
{
    let text = decimal_string(port as u64);
    if find_text(name, text.as_str()) {
        return true;
    }
    let mut i: usize = 0;
    while i < args.len()
        invariant
            0 <= i <= args@.len(),
            text@ == decimal(port as nat),
            forall|j: int| 0 <= j < i ==> !contains_text(#[trigger] args@[j]@, decimal(port as nat)),
        decreases args@.len() - i,
    {
        if find_text(args[i].as_str(), text.as_str()) {
            assert(views_of(args@)[i as int] == args@[i as int]@);
            return true;
        }
        i = i + 1;
    }
    assert forall|j: int| 0 <= j < args@.len() implies !contains_text(
        #[trigger] views_of(args@)[j],
        decimal(port as nat),
    ) by {
        assert(views_of(args@)[j] == args@[j]@);
    }
    false
}

} // verus!
