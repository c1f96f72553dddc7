//! The environment allowlist: which variables may pass through from the
//! parent process, and which user-supplied secret keys may be injected.

use vstd::prelude::*;
use vstd::string::StrSliceExecFns;

verus! {

/// A character acceptable in an injected secret key: ASCII letters, digits,
/// and underscore.
pub open spec fn is_key_char(c: char) -> bool {
    ||| ('a' <= c && c <= 'z')
    ||| ('A' <= c && c <= 'Z')
    ||| ('0' <= c && c <= '9')
    ||| c == '_'
}

/// The predicate for acceptable injected secret-key names: letters, digits
/// and underscore only, at most 64 characters, ending in the fixed suffix
/// marker `_API_KEY`. Everything it accepts is ASCII, so the character count
/// coincides with the byte count.
pub open spec fn is_allowed_env_key_spec(k: Seq<char>) -> bool {
    &&& k.len() <= 64
    &&& (forall|i: int| 0 <= i < k.len() ==> is_key_char(#[trigger] k[i]))
    &&& k.len() >= 8
    &&& k.subrange(k.len() - 8, k.len() as int) == "_API_KEY"@
}

/// The fixed allowlist of variable names that may be copied from the parent
/// process's environment into a child's: user identity, locale, temp
/// directories, display and session bus, SSH agent, proxy settings, and the
/// extra CA bundle path. Nothing else of the parent environment — in
/// particular no credential of the host process — ever reaches a child.
pub open spec fn passthrough_names() -> Seq<Seq<char>> {
    seq![
        "HOME"@,
        "USER"@,
        "LOGNAME"@,
        "SHELL"@,
        "LANG"@,
        "LC_ALL"@,
        "LC_CTYPE"@,
        "LC_MESSAGES"@,
        "LC_COLLATE"@,
        "LC_MONETARY"@,
        "LC_NUMERIC"@,
        "LC_TIME"@,
        "LANGUAGE"@,
        "TMPDIR"@,
        "TMP"@,
        "TEMP"@,
        "DISPLAY"@,
        "WAYLAND_DISPLAY"@,
        "XDG_RUNTIME_DIR"@,
        "__CF_USER_TEXT_ENCODING"@,
        "SSH_AUTH_SOCK"@,
        "SSH_AGENT_PID"@,
        "HTTP_PROXY"@,
        "HTTPS_PROXY"@,
        "NO_PROXY"@,
        "http_proxy"@,
        "https_proxy"@,
        "no_proxy"@,
        "NODE_EXTRA_CA_CERTS"@,
    ]
}

/// True when `k` is on the passthrough allowlist.
pub open spec fn is_passthrough(k: Seq<char>) -> bool {
    passthrough_names().contains(k)
}

/// The executable list of passthrough variable names, in the order they are
/// probed; element for element the same names as [`passthrough_names`].
pub fn passthrough_list() -> (r: Vec<&'static str>)
    ensures
        r.deep_view() == passthrough_names(),
{
    let r: Vec<&'static str> = vec![
        "HOME",
        "USER",
        "LOGNAME",
        "SHELL",
        "LANG",
        "LC_ALL",
        "LC_CTYPE",
        "LC_MESSAGES",
        "LC_COLLATE",
        "LC_MONETARY",
        "LC_NUMERIC",
        "LC_TIME",
        "LANGUAGE",
        "TMPDIR",
        "TMP",
        "TEMP",
        "DISPLAY",
        "WAYLAND_DISPLAY",
        "XDG_RUNTIME_DIR",
        "__CF_USER_TEXT_ENCODING",
        "SSH_AUTH_SOCK",
        "SSH_AGENT_PID",
        "HTTP_PROXY",
        "HTTPS_PROXY",
        "NO_PROXY",
        "http_proxy",
        "https_proxy",
        "no_proxy",
        "NODE_EXTRA_CA_CERTS",
    ];
    proof {
        assert(r.deep_view() =~= passthrough_names());
    }
    r
}

fn is_key_char_exec(c: char) -> (r: bool)
    ensures
        r == is_key_char(c),
{
    ('a' <= c && c <= 'z') || ('A' <= c && c <= 'Z') || ('0' <= c && c <= '9') || c == '_'
}

/// Decides whether a user-supplied secret key may become an environment
/// variable of the child. Anything that fails this predicate is silently
/// dropped by the builder, so a malicious settings payload cannot override
/// sensitive variables such as `PATH` or a dynamic-linker preload variable.
pub fn is_allowed_env_key(key: &str) -> (r: bool)
    ensures
        r == is_allowed_env_key_spec(key@),
{
    let n = key.unicode_len();
    if n > 64 || n < 8 {
        return false;
    }
    let mut i: usize = 0;
    while i < n
        invariant
            n == key@.len(),
            0 <= i <= n,
            forall|j: int| 0 <= j < i ==> is_key_char(#[trigger] key@[j]),
        decreases n - i,
    {
        if !is_key_char_exec(key.get_char(i)) {
            assert(!is_key_char(key@[i as int]));
            return false;
        }
        i = i + 1;
    }
    proof {
        reveal_strlit("_API_KEY");
    }
    let suffix_ok = key.get_char(n - 8) == '_' && key.get_char(n - 7) == 'A' && key.get_char(n - 6)
        == 'P' && key.get_char(n - 5) == 'I' && key.get_char(n - 4) == '_' && key.get_char(n - 3)
        == 'K' && key.get_char(n - 2) == 'E' && key.get_char(n - 1) == 'Y';
    if suffix_ok {
        proof {
            assert(key@.subrange(key@.len() - 8, key@.len() as int) =~= "_API_KEY"@);
        }
        true
    } else {
        proof {
            if key@.subrange(key@.len() - 8, key@.len() as int) == "_API_KEY"@ {
                assert(key@[key@.len() - 8] == "_API_KEY"@[0]);
                assert(key@[key@.len() - 7] == "_API_KEY"@[1]);
                assert(key@[key@.len() - 6] == "_API_KEY"@[2]);
                assert(key@[key@.len() - 5] == "_API_KEY"@[3]);
                assert(key@[key@.len() - 4] == "_API_KEY"@[4]);
                assert(key@[key@.len() - 3] == "_API_KEY"@[5]);
                assert(key@[key@.len() - 2] == "_API_KEY"@[6]);
                assert(key@[key@.len() - 1] == "_API_KEY"@[7]);
            }
        }
        false
    }
}

} // verus!
