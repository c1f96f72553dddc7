//! Validation of subcommand arguments against the fixed allowlist.

use vstd::prelude::*;

use crate::errors::PtyError;
use crate::strutil::str_eq;

verus! {

/// The fixed allowlist of recognized subcommand tokens.
pub open spec fn is_allowed_arg(a: Seq<char>) -> bool {
    ||| a == "onboard"@
    ||| a == "--skip-daemon"@
    ||| a == "gateway"@
    ||| a == "tui"@
}

/// Every argument of `args` is on the allowlist.
pub open spec fn all_args_allowed(args: Seq<String>) -> bool {
    forall|i: int| 0 <= i < args.len() ==> is_allowed_arg(#[trigger] args[i]@)
}

fn arg_allowed(a: &str) -> (r: bool)
    ensures
        r == is_allowed_arg(a@),
{
    str_eq(a, "onboard") || str_eq(a, "--skip-daemon") || str_eq(a, "gateway") || str_eq(a, "tui")
}

/// Checks every requested argument token against the fixed allowlist; any
/// unrecognized token is rejected with `InvalidArgument`, before any other
/// work of a spawn takes place.
pub fn validate_args(args: &Vec<String>) -> (r: Result<(), PtyError>)
    ensures
        r is Ok <==> all_args_allowed(args@),
        r is Err ==> r->Err_0 is InvalidArgument,
{
    let n = args.len();
    let mut i: usize = 0;
    while i < n
        invariant
            n == args@.len(),
            0 <= i <= n,
            forall|j: int| 0 <= j < i ==> is_allowed_arg(#[trigger] args@[j]@),
        decreases n - i,
    {
        if !arg_allowed(args[i].as_str()) {
            assert(!is_allowed_arg(args@[i as int]@));
            return Err(PtyError::InvalidArgument);
        }
        i = i + 1;
    }
    Ok(())
}

} // verus!
