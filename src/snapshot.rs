use vstd::prelude::*;

use crate::text::{contains_text, find_text, join_spaced, join_with_spaces};

verus! {

/// A process recorded in a workspace snapshot.
#[derive(Debug, Clone)]
pub struct ProcSnapshot {
    pub pid: u32,
    pub name: String,
    pub cmd: String,
}

/// A process belongs to the workspace when its command line mentions the
/// workspace directory, or when it is a cargo process.
pub open spec fn belongs_to_workspace(cmd: Seq<char>, name: Seq<char>, cwd: Seq<char>) -> bool {
    contains_text(cmd, cwd) || contains_text(name, "cargo"@)
}

/// Records a process of the workspace: its command line is its arguments
/// joined by spaces; a process that does not belong gives `None`.
pub fn snapshot_process(pid: u32, name: &str, args: &Vec<String>, cwd: &str) -> (r: Option<
    ProcSnapshot,
>)
    ensures
        ({
            let cmd = join_spaced(args@.map_values(|s: String| s@));
            &&& r is Some <==> belongs_to_workspace(cmd, name@, cwd@)
            &&& r matches Some(p) ==> p.pid == pid && p.name@ == name@ && p.cmd@ == cmd
        }),
{
    let cmd = join_with_spaces(args);
    if find_text(cmd.as_str(), cwd) || find_text(name, "cargo") {
        Some(ProcSnapshot { pid, name: name.to_owned(), cmd })
    } else {
        None
    }
}

/// The lower-case form of a string, as `str::to_lowercase` gives it.
pub uninterp spec fn lower_of(s: Seq<char>) -> Seq<char>;

/// Relies on `str::to_lowercase`: the result depends on the characters alone.
#[verifier::external_body]
fn lowercase(s: &str) -> (r: String)
    ensures
        r@ == lower_of(s@),
{
    s.to_lowercase()
}

/// A variable is kept in a snapshot unless its lower-cased name mentions a
/// token or a secret.
pub open spec fn keeps_lowered_name(lower: Seq<char>) -> bool {
    !contains_text(lower, "token"@) && !contains_text(lower, "secret"@)
}

/// Whether a variable, given its name already lower-cased, is kept.
pub fn keeps_lowered_env_name(lower: &str) -> (r: bool)
    ensures
        r == keeps_lowered_name(lower@),
{
    !find_text(lower, "token") && !find_text(lower, "secret")
}

/// Whether an environment variable may be written to a snapshot.
pub fn keeps_env_var(name: &str) -> (r: bool)
    ensures
        r == keeps_lowered_name(lower_of(name@)),
{
    let lower = lowercase(name);
    keeps_lowered_env_name(lower.as_str())
}

} // verus!
