//! Locations of the per-user state directory and the settings file, as path
//! strings derived from the user's home directory.

use vstd::prelude::*;
use vstd::string::StringExecFns;

verus! {

/// Appends `suffix` to a copy of `base`.
fn join_path(base: &str, suffix: &str) -> (r: String)
    ensures
        r@ == base@ + suffix@,
{
    let mut r = String::from_str(base);
    r.append(suffix);
    r
}

/// The base directory holding all per-user state of this application.
pub fn openclaw_base_dir_path(home: &str) -> (r: String)
    ensures
        r@ == home@ + "/.openclaw-desktop"@,
{
    join_path(home, "/.openclaw-desktop")
}

/// The private per-user state directory handed to the child process.
pub fn openclaw_state_dir_path(home: &str) -> (r: String)
    ensures
        r@ == home@ + "/.openclaw-desktop/openclaw-state"@,
{
    join_path(home, "/.openclaw-desktop/openclaw-state")
}

/// The file whose presence in the state directory means the child
/// application has completed its own configuration.
pub fn openclaw_config_file_path(state_dir: &str) -> (r: String)
    ensures
        r@ == state_dir@ + "/openclaw.json"@,
{
    join_path(state_dir, "/openclaw.json")
}

/// The directory holding the persisted settings file.
pub fn settings_dir_path(home: &str) -> (r: String)
    ensures
        r@ == home@ + "/.clawrunner"@,
{
    join_path(home, "/.clawrunner")
}

/// The persisted settings file.
pub fn settings_path(home: &str) -> (r: String)
    ensures
        r@ == home@ + "/.clawrunner/settings.json"@,
{
    join_path(home, "/.clawrunner/settings.json")
}

/// The temporary file written first, then atomically renamed over the
/// settings file.
pub fn settings_tmp_path(home: &str) -> (r: String)
    ensures
        r@ == home@ + "/.clawrunner/settings.json.tmp"@,
{
    join_path(home, "/.clawrunner/settings.json.tmp")
}

/// Whether the child application is already configured: the home directory
/// resolved and the configuration file was found in the state directory.
/// The embedding application resolves the home directory and probes the
/// filesystem, and hands both results in as plain values.
pub fn is_configured(home: &Option<String>, config_file_exists: bool) -> (b: bool)
    ensures
        b == (home is Some && config_file_exists),
{
    match home {
        Some(_) => config_file_exists,
        None => false,
    }
}

} // verus!
