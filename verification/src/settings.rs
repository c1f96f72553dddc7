//! User settings: the curated secrets that may be injected into a child's
//! environment.

use vstd::prelude::*;

verus! {

/// User settings. `api_keys` maps secret key names to values; names are
/// pairwise distinct (the on-disk form is a JSON object, whose keys are
/// unique). Only pairs whose name passes the secret-name predicate and whose
/// value is non-empty ever reach a child process.
#[derive(Debug, Clone)]
pub struct Settings {
    pub api_keys: Vec<(String, String)>,
}

impl Settings {
    /// Key names are pairwise distinct.
    pub open spec fn wf(&self) -> bool {
        crate::envmap::keys_unique(self.api_keys@)
    }
}

impl Default for Settings {
    /// Settings with no secrets at all.
    fn default() -> (s: Settings)
        ensures
            s.api_keys@.len() == 0,
            s.wf(),
    {
        Settings { api_keys: Vec::new() }
    }
}

} // verus!
