//! Settings that the editor sends.
use vstd::prelude::*;

verus! {

pub struct Config {
    /// Whether diagnostics are published.
    pub diagnostics: bool,
}

impl Default for Config {
    fn default() -> (r: Config)
        ensures
            !r.diagnostics,
    {
        Config { diagnostics: false }
    }
}

} // verus!
