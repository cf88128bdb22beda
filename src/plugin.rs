use vstd::prelude::*;
use vstd::string::StringExecFns;

use crate::text::{ends_with_text, occurs_at, starts_with_text};

verus! {

/// The executable of a plugin: its name with the plugin prefix, which is
/// added when missing.
pub open spec fn executable_name(name: Seq<char>) -> Seq<char> {
    if occurs_at(name, "devflow-plugin-"@, 0) {
        name
    } else {
        "devflow-plugin-"@ + name
    }
}

/// The name of the executable that serves a plugin.
pub fn plugin_executable_name(name: &str) -> (r: String)
    ensures
        r@ == executable_name(name@),
{
    if starts_with_text(name, "devflow-plugin-") {
        String::from_str(name)
    } else {
        String::from_str("devflow-plugin-").concat(name)
    }
}

/// Whether a plugin is a WebAssembly module, which this build cannot run.
pub fn is_wasm_plugin(name: &str) -> (r: bool)
    ensures
        r == (".wasm"@.len() <= name@.len() && occurs_at(
            name@,
            ".wasm"@,
            name@.len() - ".wasm"@.len(),
        )),
{
    ends_with_text(name, ".wasm")
}

} // verus!
