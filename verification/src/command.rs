//! The secure command/environment builder: turns user settings and a
//! requested argument list into a fully specified child invocation, without
//! inheriting the parent process's environment.
//!
//! The builder itself is pure. Everything it needs from the host — the
//! bundled-resource directory, filesystem probes, the home directory, the
//! parent environment — arrives as plain values in a [`HostContext`],
//! gathered by the embedding application.

use vstd::prelude::*;
use vstd::string::StringExecFns;

use crate::args::all_args_allowed;
use crate::args::validate_args;
use crate::envmap::assoc_first;
use crate::envmap::EnvMap;
use crate::envpolicy::is_allowed_env_key;
use crate::envpolicy::is_allowed_env_key_spec;
use crate::envpolicy::is_passthrough;
use crate::envpolicy::passthrough_list;
use crate::envpolicy::passthrough_names;
use crate::errors::PtyError;
use crate::paths::openclaw_state_dir_path;
use crate::settings::Settings;

verus! {

/// What the host process knows at build time, as plain values.
///
/// The embedding application fills this in: `resource_dir` from its bundled
/// resource resolver; the two `*_exists` fields by probing the filesystem at
/// the paths this module derives from `resource_dir` (both `false` when
/// `resource_dir` is `None`); `dev_mode` from its build configuration;
/// `dev_entry_override` and `dev_workspace_entry` with development-only
/// entry-point candidates that were probed to exist; `home` from its
/// home-directory resolver; `state_dir_error` with the OS error text if
/// creating the state directory failed; and `parent_env` with the parent
/// process's whole environment.
pub struct HostContext {
    pub resource_dir: Option<String>,
    pub bundled_node_exists: bool,
    pub bundled_entry_exists: bool,
    pub dev_mode: bool,
    pub dev_entry_override: Option<String>,
    pub dev_workspace_entry: Option<String>,
    pub home: Option<String>,
    pub state_dir_error: Option<String>,
    pub parent_env: Vec<(String, String)>,
}

/// A fully resolved child invocation: binary path, argument list, working
/// directory, and a complete environment mapping with unique keys. Built
/// once per spawn; immutable once constructed.
pub struct ExecSpec {
    pub program: String,
    pub args: Vec<String>,
    pub cwd: Option<String>,
    pub env: EnvMap,
}

/// The runtime interpreter binary can be resolved: the resource directory is
/// known and either holds the bundled binary, or a development build falls
/// back to the system binary.
pub open spec fn node_resolved(host: HostContext) -> bool {
    host.resource_dir is Some && (host.bundled_node_exists || host.dev_mode)
}

/// The resolved interpreter path (assuming [`node_resolved`]).
pub open spec fn spec_node_path(host: HostContext) -> Seq<char> {
    if host.bundled_node_exists {
        host.resource_dir->Some_0@ + "/resources/node"@
    } else {
        "node"@
    }
}

/// The directory holding the resolved interpreter, when it has one; the
/// development fallback is a bare binary name with no directory.
pub open spec fn spec_node_dir(host: HostContext) -> Option<Seq<char>> {
    if host.bundled_node_exists {
        Some(host.resource_dir->Some_0@ + "/resources"@)
    } else {
        None
    }
}

/// The application entry point can be resolved: bundled, or in a development
/// build one of the probed fallback locations.
pub open spec fn entry_resolved(host: HostContext) -> bool {
    &&& host.resource_dir is Some
    &&& {
        ||| host.bundled_entry_exists
        ||| (host.dev_mode && (host.dev_entry_override is Some || host.dev_workspace_entry
            is Some))
    }
}

/// The resolved entry-point path (assuming [`entry_resolved`]).
pub open spec fn spec_entry_path(host: HostContext) -> Seq<char> {
    if host.bundled_entry_exists {
        host.resource_dir->Some_0@ + "/resources/openclaw/openclaw.mjs"@
    } else if host.dev_entry_override is Some {
        host.dev_entry_override->Some_0@
    } else {
        host.dev_workspace_entry->Some_0@
    }
}

/// The per-user state directory resolved and was created successfully.
pub open spec fn state_dir_ok(host: HostContext) -> bool {
    host.home is Some && host.state_dir_error is None
}

/// The state directory path (assuming the home directory resolved).
pub open spec fn spec_state_dir(host: HostContext) -> Seq<char> {
    host.home->Some_0@ + "/.openclaw-desktop/openclaw-state"@
}

/// The child's `PATH`: built from scratch from the already-allowlisted
/// parent `PATH`, with the resolved interpreter's directory prepended.
/// Never taken from user-supplied secrets.
pub open spec fn spec_path_value(host: HostContext) -> Seq<char> {
    let base = match assoc_first(host.parent_env@, "PATH"@) {
        Some(v) => v,
        None => Seq::<char>::empty(),
    };
    match spec_node_dir(host) {
        Some(d) => if base.len() == 0 {
            d
        } else {
            d + ":"@ + base
        },
        None => base,
    }
}

/// A user-supplied secret in `s` that is actually injected at key `k`: the
/// key passes the secret-name predicate and its value is non-empty.
pub open spec fn secret_value_injected(s: Seq<(String, String)>, k: Seq<char>) -> bool {
    &&& is_allowed_env_key_spec(k)
    &&& match assoc_first(s, k) {
        Some(v) => v.len() > 0,
        None => false,
    }
}

/// A user-supplied secret that is actually injected: its key passes the
/// secret-name predicate and its value is non-empty. Anything else is
/// silently dropped.
pub open spec fn secret_injected(settings: Settings, k: Seq<char>) -> bool {
    secret_value_injected(settings.api_keys@, k)
}

/// The domain of the built child environment.
pub open spec fn env_key_present(settings: Settings, host: HostContext, k: Seq<char>) -> bool {
    ||| secret_injected(settings, k)
    ||| k == "OPENCLAW_STATE_DIR"@
    ||| k == "OPENCLAW_NO_RESPAWN"@
    ||| (k == "PATH"@ && spec_path_value(host).len() > 0)
    ||| k == "TERM"@
    ||| (is_passthrough(k) && assoc_first(host.parent_env@, k) is Some)
}

/// The value of the built child environment at `k` (assuming
/// [`env_key_present`]). The branches are ordered from the last write to the
/// first: an injected secret wins over everything, and the fixed variables
/// win over a passthrough copy of the same name.
pub open spec fn env_value_at(settings: Settings, host: HostContext, k: Seq<char>) -> Seq<char> {
    if secret_injected(settings, k) {
        assoc_first(settings.api_keys@, k)->Some_0
    } else if k == "OPENCLAW_STATE_DIR"@ {
        spec_state_dir(host)
    } else if k == "OPENCLAW_NO_RESPAWN"@ {
        "1"@
    } else if k == "PATH"@ && spec_path_value(host).len() > 0 {
        spec_path_value(host)
    } else if k == "TERM"@ {
        "xterm-256color"@
    } else {
        assoc_first(host.parent_env@, k)->Some_0
    }
}

/// The complete child environment: exactly the allowlisted passthrough
/// variables present in the parent environment, the fixed terminal type and
/// isolation variables, the constructed `PATH`, and the injected secrets.
pub open spec fn built_env(settings: Settings, host: HostContext) -> Map<Seq<char>, Seq<char>> {
    Map::new(
        |k: Seq<char>| env_key_present(settings, host, k),
        |k: Seq<char>| env_value_at(settings, host, k),
    )
}

/// Every stage of the build succeeds.
pub open spec fn build_ok(settings: Settings, args: Seq<String>, host: HostContext) -> bool {
    &&& all_args_allowed(args)
    &&& node_resolved(host)
    &&& entry_resolved(host)
    &&& state_dir_ok(host)
}

/// Resolves the runtime interpreter binary: the bundled one when present,
/// the system one in a development build, an error otherwise. Returns the
/// binary path and, for a bundled binary, its directory.
pub fn node_binary_path(host: &HostContext) -> (r: Result<(String, Option<String>), PtyError>)
    ensures
        r is Ok <==> node_resolved(*host),
        r is Err ==> r->Err_0 is ResourceNotFound,
        r matches Ok((p, d)) ==> {
            &&& p@ == spec_node_path(*host)
            &&& (d is Some <==> spec_node_dir(*host) is Some)
            &&& (d is Some ==> d->Some_0@ == spec_node_dir(*host)->Some_0)
        },
{
    match &host.resource_dir {
        Some(rd) => {
            if host.bundled_node_exists {
                let mut dir = rd.clone();
                dir.append("/resources");
                let mut path = rd.clone();
                path.append("/resources/node");
                Ok((path, Some(dir)))
            } else if host.dev_mode {
                Ok((String::from_str("node"), None))
            } else {
                Err(PtyError::ResourceNotFound)
            }
        },
        None => Err(PtyError::ResourceNotFound),
    }
}

/// Resolves the application entry point: the bundled script when present,
/// else — in a development build only — a probed override location or the
/// probed workspace location, an error otherwise.
pub fn openclaw_entry_path(host: &HostContext) -> (r: Result<String, PtyError>)
    ensures
        r is Ok <==> entry_resolved(*host),
        r is Err ==> r->Err_0 is ResourceNotFound,
        r matches Ok(p) ==> p@ == spec_entry_path(*host),
{
    match &host.resource_dir {
        Some(rd) => {
            if host.bundled_entry_exists {
                let mut path = rd.clone();
                path.append("/resources/openclaw/openclaw.mjs");
                Ok(path)
            } else if host.dev_mode {
                match &host.dev_entry_override {
                    Some(p) => Ok(p.clone()),
                    None => match &host.dev_workspace_entry {
                        Some(p) => Ok(p.clone()),
                        None => Err(PtyError::ResourceNotFound),
                    },
                }
            } else {
                Err(PtyError::ResourceNotFound)
            }
        },
        None => Err(PtyError::ResourceNotFound),
    }
}

/// The value of the first entry of `penv` named `k`, if any.
pub fn env_lookup(penv: &Vec<(String, String)>, k: &str) -> (r: Option<String>)
    ensures
        match r {
            Some(v) => assoc_first(penv@, k@) == Some(v@),
            None => assoc_first(penv@, k@) is None,
        },
{
    let n = penv.len();
    let mut i: usize = 0;
    proof {
        assert(penv@.skip(0) =~= penv@);
    }
    while i < n
        invariant
            n == penv@.len(),
            0 <= i <= n,
            assoc_first(penv@, k@) == assoc_first(penv@.skip(i as int), k@),
        decreases n - i,
    {
        proof {
            assert(penv@.skip(i as int).first() == penv@[i as int]);
        }
        if crate::strutil::str_eq(penv[i].0.as_str(), k) {
            return Some(penv[i].1.clone());
        }
        proof {
            assert(penv@.skip(i as int).drop_first() =~= penv@.skip(i as int + 1));
        }
        i = i + 1;
    }
    proof {
        assert(penv@.skip(n as int).len() == 0);
    }
    None
}

/// The environment after copying, in order, each variable of `names` that is
/// present in the parent environment.
pub open spec fn passthrough_partial(penv: Seq<(String, String)>, names: Seq<Seq<char>>) -> Map<
    Seq<char>,
    Seq<char>,
>
    decreases names.len(),
{
    if names.len() == 0 {
        Map::empty()
    } else {
        let m = passthrough_partial(penv, names.drop_last());
        match assoc_first(penv, names.last()) {
            Some(v) => m.insert(names.last(), v),
            None => m,
        }
    }
}

/// What the passthrough stage builds: exactly the probed names that are
/// present in the parent environment, each with its parent value.
proof fn lemma_passthrough_partial(penv: Seq<(String, String)>, names: Seq<Seq<char>>)
    ensures
        forall|k: Seq<char>|
            passthrough_partial(penv, names).dom().contains(k) <==> (names.contains(k)
                && assoc_first(penv, k) is Some),
        forall|k: Seq<char>|
            passthrough_partial(penv, names).dom().contains(k) ==> passthrough_partial(
                penv,
                names,
            )[k] == assoc_first(penv, k)->Some_0,
    decreases names.len(),
{
    if names.len() > 0 {
        let names1 = names.drop_last();
        lemma_passthrough_partial(penv, names1);
        assert forall|k: Seq<char>|
            passthrough_partial(penv, names).dom().contains(k) implies (names.contains(k)
            && assoc_first(penv, k) is Some) by {
            if passthrough_partial(penv, names1).dom().contains(k) {
                assert(names1.contains(k));
                let i = choose|i: int| 0 <= i < names1.len() && names1[i] == k;
                assert(names[i] == k);
                assert(names.contains(k));
            } else {
                assert(k == names.last());
                assert(names[names.len() - 1] == k);
                assert(names.contains(k));
            }
        }
        assert forall|k: Seq<char>|
            names.contains(k) && assoc_first(penv, k) is Some implies passthrough_partial(
            penv,
            names,
        ).dom().contains(k) by {
            let i = choose|i: int| 0 <= i < names.len() && names[i] == k;
            if i < names.len() - 1 {
                assert(names1[i] == k);
                assert(names1.contains(k));
            }
        }
        assert forall|k: Seq<char>|
            passthrough_partial(penv, names).dom().contains(k) implies passthrough_partial(
            penv,
            names,
        )[k] == assoc_first(penv, k)->Some_0 by {
            let m1 = passthrough_partial(penv, names1);
            match assoc_first(penv, names.last()) {
                Some(v) => {
                    assert(passthrough_partial(penv, names) == m1.insert(names.last(), v));
                    if k == names.last() {
                        assert(passthrough_partial(penv, names)[k] == v);
                    } else {
                        assert(m1.dom().contains(k));
                        assert(m1[k] == assoc_first(penv, k)->Some_0);
                        assert(passthrough_partial(penv, names)[k] == m1[k]);
                    }
                },
                None => {
                    assert(passthrough_partial(penv, names) == m1);
                    assert(m1.dom().contains(k));
                    assert(m1[k] == assoc_first(penv, k)->Some_0);
                },
            }
        }
    }
}

/// The environment after injecting, in order, each acceptable secret of `s`
/// over a base environment `m`.
pub open spec fn inject_secrets(
    m: Map<Seq<char>, Seq<char>>,
    s: Seq<(String, String)>,
) -> Map<Seq<char>, Seq<char>>
    decreases s.len(),
{
    if s.len() == 0 {
        m
    } else {
        let m2 = inject_secrets(m, s.drop_last());
        if is_allowed_env_key_spec(s.last().0@) && s.last().1@.len() > 0 {
            m2.insert(s.last().0@, s.last().1@)
        } else {
            m2
        }
    }
}

/// If no entry of `s` has key `k`, the first-occurrence lookup misses.
proof fn lemma_assoc_first_absent(s: Seq<(String, String)>, k: Seq<char>)
    requires
        forall|i: int| 0 <= i < s.len() ==> (#[trigger] s[i]).0@ != k,
    ensures
        assoc_first(s, k) is None,
    decreases s.len(),
{
    if s.len() > 0 {
        assert(s.drop_first() =~= s.subrange(1, s.len() as int));
        lemma_assoc_first_absent(s.drop_first(), k);
    }
}

/// How a first-occurrence lookup relates to the list without its last entry.
proof fn lemma_assoc_first_drop_last(s: Seq<(String, String)>, k: Seq<char>)
    requires
        s.len() > 0,
    ensures
        assoc_first(s, k) == (if assoc_first(s.drop_last(), k) is Some {
            assoc_first(s.drop_last(), k)
        } else if s.last().0@ == k {
            Some(s.last().1@)
        } else {
            None::<Seq<char>>
        }),
    decreases s.len(),
{
    if s.len() == 1 {
        assert(s.drop_last().len() == 0);
    } else {
        lemma_assoc_first_drop_last(s.drop_first(), k);
        assert(s.drop_first().drop_last() =~= s.drop_last().drop_first());
        assert(s.drop_first().last() == s.last());
        assert(s.drop_last().first() == s.first());
    }
}

/// What the secret-injection stage builds over a base environment: the base,
/// with exactly the acceptable secrets written over it.
proof fn lemma_inject_secrets(m: Map<Seq<char>, Seq<char>>, s: Seq<(String, String)>)
    requires
        crate::envmap::keys_unique(s),
    ensures
        forall|k: Seq<char>| #![trigger inject_secrets(m, s).dom().contains(k)]
            inject_secrets(m, s).dom().contains(k) <==> (m.dom().contains(k)
                || secret_value_injected(s, k)),
        forall|k: Seq<char>| #![trigger inject_secrets(m, s)[k]]
            secret_value_injected(s, k) ==> inject_secrets(m, s)[k] == assoc_first(s, k)->Some_0,
        forall|k: Seq<char>| #![trigger inject_secrets(m, s)[k]]
            !secret_value_injected(s, k) && m.dom().contains(k) ==> inject_secrets(m, s)[k] == m[k],
    decreases s.len(),
{
    if s.len() > 0 {
        let s1 = s.drop_last();
        let p = s.last();
        lemma_inject_secrets(m, s1);
        // the last key occurs nowhere earlier
        assert forall|i: int| 0 <= i < s1.len() implies (#[trigger] s1[i]).0@ != p.0@ by {
            assert(s[i] == s1[i]);
        }
        lemma_assoc_first_absent(s1, p.0@);
        assert forall|k: Seq<char>| #![trigger inject_secrets(m, s).dom().contains(k)]
            inject_secrets(m, s).dom().contains(k) <==> (m.dom().contains(k)
                || secret_value_injected(s, k)) by {
            lemma_assoc_first_drop_last(s, k);
            let m2 = inject_secrets(m, s1);
            if is_allowed_env_key_spec(p.0@) && p.1@.len() > 0 {
                assert(inject_secrets(m, s) == m2.insert(p.0@, p.1@));
            } else {
                assert(inject_secrets(m, s) == m2);
            }
            assert(m2.dom().contains(k) <==> (m.dom().contains(k) || secret_value_injected(s1, k)));
            if secret_value_injected(s1, k) {
                assert(secret_value_injected(s, k));
            }
            if secret_value_injected(s, k) && !secret_value_injected(s1, k) {
                if assoc_first(s1, k) is Some {
                    assert(secret_value_injected(s1, k));
                }
                assert(k == p.0@);
                assert(is_allowed_env_key_spec(p.0@) && p.1@.len() > 0);
            }
        }
        assert forall|k: Seq<char>| #![trigger inject_secrets(m, s)[k]]
            secret_value_injected(s, k) implies inject_secrets(m, s)[k] == assoc_first(s, k)->Some_0
            by {
            lemma_assoc_first_drop_last(s, k);
            if secret_value_injected(s1, k) {
                assert(k != p.0@);
                assert(inject_secrets(m, s)[k] == inject_secrets(m, s1)[k]);
            }
        }
        assert forall|k: Seq<char>| #![trigger inject_secrets(m, s)[k]]
            !secret_value_injected(s, k) && m.dom().contains(k) implies inject_secrets(m, s)[k]
            == m[k] by {
            lemma_assoc_first_drop_last(s, k);
            if secret_value_injected(s1, k) {
                assert(secret_value_injected(s, k));
            }
            assert(!secret_value_injected(s1, k));
            if k == p.0@ {
                assert(assoc_first(s, k) == Some(p.1@));
                assert(!(is_allowed_env_key_spec(p.0@) && p.1@.len() > 0));
            }
            assert(inject_secrets(m, s1)[k] == m[k]);
        }
    }
}

/// Builds the full child invocation from the settings, the requested
/// arguments, and the host context, under the security policy:
///
/// 1. every argument token must be on the fixed allowlist
///    (`InvalidArgument` otherwise, before anything else is considered);
/// 2. the interpreter and the entry point must resolve
///    (`ResourceNotFound` otherwise);
/// 3. the home directory must be known and the state directory created
///    (`ResourceNotFound` / `OsResourceError` otherwise);
/// 4. the environment starts empty and receives only the allowlisted
///    passthrough variables, the fixed terminal and isolation variables, a
///    `PATH` built from scratch, and the acceptable secrets; and
/// 5. the working directory is the user's home directory.
///
/// The result is immutable; a failure of any step produces no partial spec.
#[verifier::loop_isolation(false)]
pub fn build_exec_spec(settings: &Settings, args: &Vec<String>, host: &HostContext) -> (r: Result<
    ExecSpec,
    PtyError,
>)
    requires
        settings.wf(),
    ensures
        r is Ok <==> build_ok(*settings, args@, *host),
        !all_args_allowed(args@) ==> r matches Err(PtyError::InvalidArgument),
        all_args_allowed(args@) && !node_resolved(*host) ==> r matches Err(
            PtyError::ResourceNotFound,
        ),
        all_args_allowed(args@) && node_resolved(*host) && !entry_resolved(*host) ==> r matches Err(
            PtyError::ResourceNotFound,
        ),
        all_args_allowed(args@) && node_resolved(*host) && entry_resolved(*host) && host.home
            is None ==> r matches Err(PtyError::ResourceNotFound),
        all_args_allowed(args@) && node_resolved(*host) && entry_resolved(*host) && host.home
            is Some && host.state_dir_error is Some ==> (r matches Err(PtyError::OsResourceError(e))
            && e@ == host.state_dir_error->Some_0@),
        r matches Ok(s) ==> {
            &&& s.program@ == spec_node_path(*host)
            &&& s.args.deep_view() == seq!["--disable-warning=ExperimentalWarning"@, spec_entry_path(*host)]
                + args.deep_view()
            &&& s.cwd is Some && s.cwd->Some_0@ == host.home->Some_0@
            &&& s.env.wf()
            &&& s.env@ == built_env(*settings, *host)
        },
{
    if let Err(e) = validate_args(args) {
        return Err(e);
    }
    let (node_path, node_dir) = match node_binary_path(host) {
        Ok(x) => x,
        Err(e) => {
            return Err(e);
        },
    };
    let entry_path = match openclaw_entry_path(host) {
        Ok(x) => x,
        Err(e) => {
            return Err(e);
        },
    };
    let home = match &host.home {
        Some(h) => h.clone(),
        None => {
            return Err(PtyError::ResourceNotFound);
        },
    };
    if let Some(e) = &host.state_dir_error {
        return Err(PtyError::OsResourceError(e.clone()));
    }
    let state_dir = openclaw_state_dir_path(home.as_str());

    // The child environment starts empty: nothing of the parent environment
    // is inherited except through the explicit stages below.
    let mut env = EnvMap::new();

    // Stage 1: copy the allowlisted passthrough variables that are present.
    let names = passthrough_list();
    let n_names = names.len();
    let mut i: usize = 0;
    while i < n_names
        invariant
            n_names == names@.len(),
            0 <= i <= n_names,
            names.deep_view() == passthrough_names(),
            env.wf(),
            env@ == passthrough_partial(
                host.parent_env@,
                passthrough_names().subrange(0, i as int),
            ),
        decreases n_names - i,
    {
        let name: &str = names[i];
        match env_lookup(&host.parent_env, name) {
            Some(v) => {
                env.insert(String::from_str(name), v);
            },
            None => {},
        }
        proof {
            let pn = passthrough_names();
            assert(pn.subrange(0, i as int + 1).drop_last() =~= pn.subrange(0, i as int));
            assert(pn.subrange(0, i as int + 1).last() == pn[i as int]);
            assert(names.deep_view()[i as int] == name@);
        }
        i = i + 1;
    }
    proof {
        assert(passthrough_names().subrange(0, passthrough_names().len() as int)
            =~= passthrough_names());
    }
    let ghost pt_map = env@;

    // Stage 2: the fixed terminal type.
    env.insert(String::from_str("TERM"), String::from_str("xterm-256color"));
    let ghost term_map = env@;

    // Stage 3: PATH, built from scratch from the allowlisted parent PATH,
    // with the bundled interpreter's directory prepended. A secret can never
    // supply it.
    let base = match env_lookup(&host.parent_env, "PATH") {
        Some(v) => v,
        None => String::new(),
    };
    let path_val = match &node_dir {
        Some(d) => {
            if base.as_str().is_empty() {
                d.clone()
            } else {
                let mut s = d.clone();
                s.append(":");
                s.append(base.as_str());
                s
            }
        },
        None => base,
    };
    proof {
        assert(path_val@ == spec_path_value(*host));
    }
    if !path_val.as_str().is_empty() {
        env.insert(String::from_str("PATH"), path_val);
    }
    let ghost path_map = env@;
    proof {
        assert(path_map == if spec_path_value(*host).len() > 0 {
            term_map.insert("PATH"@, spec_path_value(*host))
        } else {
            term_map
        });
    }

    // Stage 4: the isolation variables.
    env.insert(String::from_str("OPENCLAW_NO_RESPAWN"), String::from_str("1"));
    env.insert(String::from_str("OPENCLAW_STATE_DIR"), state_dir);
    proof {
        assert(state_dir@ == spec_state_dir(*host));
    }

    // Stage 5: inject the acceptable secrets; everything else is silently
    // dropped.
    let ghost fixed = env@;
    let n_keys = settings.api_keys.len();
    let mut j: usize = 0;
    while j < n_keys
        invariant
            n_keys == settings.api_keys@.len(),
            0 <= j <= n_keys,
            crate::envmap::keys_unique(settings.api_keys@),
            env.wf(),
            env@ == inject_secrets(fixed, settings.api_keys@.subrange(0, j as int)),
        decreases n_keys - j,
    {
        let kv = &settings.api_keys[j];
        if !kv.1.as_str().is_empty() && is_allowed_env_key(kv.0.as_str()) {
            env.insert(kv.0.clone(), kv.1.clone());
        }
        proof {
            let ks = settings.api_keys@;
            assert(ks.subrange(0, j as int + 1).drop_last() =~= ks.subrange(0, j as int));
            assert(ks.subrange(0, j as int + 1).last() == ks[j as int]);
        }
        j = j + 1;
    }
    proof {
        assert(settings.api_keys@.subrange(0, settings.api_keys@.len() as int)
            =~= settings.api_keys@);
        assert(env@ == inject_secrets(fixed, settings.api_keys@));
        lemma_passthrough_partial(host.parent_env@, passthrough_names());
        lemma_inject_secrets(fixed, settings.api_keys@);
        assert forall|k: Seq<char>|
            env@.dom().contains(k) <==> env_key_present(*settings, *host, k) by {
            assert(inject_secrets(fixed, settings.api_keys@).dom().contains(k) <==> (
            fixed.dom().contains(k) || secret_value_injected(settings.api_keys@, k)));
            assert(pt_map.dom().contains(k) <==> (passthrough_names().contains(k) && assoc_first(
                host.parent_env@,
                k,
            ) is Some));
        }
        assert forall|k: Seq<char>|
            env@.dom().contains(k) implies env@[k] == env_value_at(*settings, *host, k) by {
            if secret_value_injected(settings.api_keys@, k) {
                assert(inject_secrets(fixed, settings.api_keys@)[k] == assoc_first(
                    settings.api_keys@,
                    k,
                )->Some_0);
            } else {
                assert(fixed.dom().contains(k));
                assert(inject_secrets(fixed, settings.api_keys@)[k] == fixed[k]);
                if k == "OPENCLAW_STATE_DIR"@ {
                } else if k == "OPENCLAW_NO_RESPAWN"@ {
                } else if k == "PATH"@ && spec_path_value(*host).len() > 0 {
                    assert(fixed[k] == path_map[k]);
                } else if k == "TERM"@ {
                    assert(fixed[k] == term_map[k]);
                } else {
                    assert(fixed[k] == pt_map[k]);
                    assert(pt_map.dom().contains(k));
                    assert(pt_map[k] == assoc_first(host.parent_env@, k)->Some_0);
                }
            }
        }
        assert(env@ =~= built_env(*settings, *host));
    }

    // The argument list: the interpreter flag, the entry point, then the
    // validated subcommand tokens.
    let mut argv: Vec<String> = Vec::new();
    argv.push(String::from_str("--disable-warning=ExperimentalWarning"));
    argv.push(entry_path);
    let ghost argv_base = seq!["--disable-warning=ExperimentalWarning"@, spec_entry_path(*host)];
    let n_args = args.len();
    let mut t: usize = 0;
    while t < n_args
        invariant
            n_args == args@.len(),
            0 <= t <= n_args,
            argv@.len() == 2 + t,
            argv@[0]@ == "--disable-warning=ExperimentalWarning"@,
            argv@[1]@ == spec_entry_path(*host),
            forall|j: int| 2 <= j < t + 2 ==> (#[trigger] argv@[j])@ == args@[j - 2]@,
        decreases n_args - t,
    {
        argv.push(args[t].clone());
        t = t + 1;
    }
    proof {
        assert(argv.deep_view() =~~= argv_base + args.deep_view());
    }

    Ok(ExecSpec { program: node_path, args: argv, cwd: Some(home), env })
}

/// The built environment's `PATH` is unaffected by user-supplied secrets:
/// whatever the settings, its presence and its value are the same —
/// functions of the host context alone. A secret named `PATH` can never be
/// injected, because its name does not end in the secret suffix marker.
pub proof fn lemma_path_unaffected_by_secrets(s1: Settings, s2: Settings, host: HostContext)
    ensures
        built_env(s1, host).dom().contains("PATH"@) == built_env(s2, host).dom().contains("PATH"@),
        built_env(s1, host).dom().contains("PATH"@) ==> built_env(s1, host)["PATH"@] == built_env(
            s2,
            host,
        )["PATH"@],
{
    reveal_strlit("PATH");
    assert("PATH"@.len() == 4);
    assert(!is_allowed_env_key_spec("PATH"@));
}

/// Every acceptable secret is injected with exactly its supplied value.
pub proof fn lemma_secret_injected_value(settings: Settings, host: HostContext, k: Seq<char>)
    requires
        secret_injected(settings, k),
    ensures
        built_env(settings, host).dom().contains(k),
        built_env(settings, host)[k] == assoc_first(settings.api_keys@, k)->Some_0,
{
}

/// A key that fails the secret-name predicate and is none of the fixed or
/// passthrough variable names never appears in the built environment — a
/// malformed or malicious settings payload is silently dropped.
pub proof fn lemma_disallowed_secret_dropped(settings: Settings, host: HostContext, k: Seq<char>)
    requires
        !is_allowed_env_key_spec(k),
        k != "TERM"@,
        k != "PATH"@,
        k != "OPENCLAW_NO_RESPAWN"@,
        k != "OPENCLAW_STATE_DIR"@,
        !is_passthrough(k),
    ensures
        !built_env(settings, host).dom().contains(k),
{
}

} // verus!
