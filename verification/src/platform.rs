//! Platform-dependent path shapes.  Probing the search path and spawning
//! the shell are outside work and live with the surrounding program; what
//! stands here is the pure path construction.

use vstd::prelude::*;
use vstd::string::StringExecFns;

verus! {

/// The path under which a package manager of the node ecosystem places a
/// locally installed tool's launcher.
pub fn local_bin_path(tool: &str) -> (r: String)
    ensures
        r@ == "./node_modules/.bin/"@ + tool@,
{
    String::from_str("./node_modules/.bin/").concat(tool)
}

} // verus!
