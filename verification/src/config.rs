//! Configuration passed explicitly into catalog operations.

use vstd::prelude::*;

verus! {

/// Where the catalog's backing storage lives: the base path (a local
/// directory or a remote base URL) under which the per-country metadata
/// files and the geometry artifacts are found.
#[derive(Debug)]
pub struct Config {
    pub base_path: String,
}

impl Config {
    /// A configuration rooted at the given base path.
    pub fn new(base_path: String) -> (c: Config)
        ensures
            c.base_path == base_path,
    {
        Config { base_path }
    }
}

impl Clone for Config {
    fn clone(&self) -> (r: Self)
        ensures
            r == *self,
    {
        Config { base_path: self.base_path.clone() }
    }
}

} // verus!
