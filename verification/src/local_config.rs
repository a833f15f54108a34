//! The local configuration file that names the node to talk to.  Reading
//! and writing the file, and the YAML handling around it, live with the
//! embedding application; here is only what can be decided locally.
use vstd::prelude::*;

verus! {

/// Relies on `std::path::Path::exists`: whether a file of that name can be
/// reached right now.  The answer depends on the machine's disk, so
/// nothing further is promised of it.
#[verifier::external_body]
fn path_exists(name: &str) -> bool {
    std::path::Path::new(name).exists()
}

/// Basic function to check if a local config currently exists
pub fn does_local_config_exist() -> bool {
    path_exists("node-interface.yaml")
}

} // verus!
