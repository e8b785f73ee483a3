//! Paths under the host-side configuration directory.
//!
//! Discovering the configuration directory itself means reading the
//! process environment, which stays outside this crate; the path
//! arithmetic on top of it is plain string work and lives here.

use vstd::prelude::*;
use vstd::string::StringExecFns;

verus! {

/// The location of the stored authentication token: the file
/// `auth.json` directly under the given configuration directory.
pub fn auth_path(config_dir: &str) -> (r: String)
    ensures
        r@ == config_dir@ + "/auth.json"@,
{
    let mut p = String::from_str(config_dir);
    p.append("/auth.json");
    p
}

} // verus!
