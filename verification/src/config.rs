//! Where the configuration document comes from: the resolved path of the
//! YAML file to load.

use vstd::prelude::*;

verus! {

/// `std::path::PathBuf` carried opaquely: the library stores and returns
/// paths, it never inspects them.
#[verifier::external_type_specification]
#[verifier::external_body]
pub struct ExPathBuf(std::path::PathBuf);

/// The location of the configuration document.
pub struct Config {
    pub yaml_path: std::path::PathBuf,
}

impl Config {
    pub fn new(yaml_path: std::path::PathBuf) -> (r: Self)
        ensures
            r.yaml_path == yaml_path,
    {
        Self { yaml_path }
    }
}

} // verus!
