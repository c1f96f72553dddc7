//! The bridge to `portable_pty`'s `CommandBuilder`: the one value the
//! embedding application hands to the PTY system to spawn the child.
//!
//! The builder's contents — its argument vector, its environment, its
//! working directory — are named by uninterpreted spec functions, and each
//! method the library calls carries a contract over those names taken from
//! `portable_pty`'s source. The conversion from a verified [`ExecSpec`] is
//! then itself verified: what was proved about the built invocation holds of
//! the builder handed to the spawner.

use vstd::prelude::*;

use portable_pty::CommandBuilder;

use crate::args::all_args_allowed;
use crate::command::build_exec_spec;
use crate::command::build_ok;
use crate::command::built_env;
use crate::command::entry_resolved;
use crate::command::node_resolved;
use crate::command::spec_entry_path;
use crate::command::spec_node_path;
use crate::command::ExecSpec;
use crate::command::HostContext;
use crate::envmap::assoc_map;
use crate::errors::PtyError;
use crate::settings::Settings;

verus! {

#[verifier::external_type_specification]
#[verifier::external_body]
pub struct ExCommandBuilder(CommandBuilder);

/// The argument vector held by a builder, program first.
pub uninterp spec fn cb_argv(c: CommandBuilder) -> Seq<Seq<char>>;

/// The environment mapping held by a builder.
pub uninterp spec fn cb_env_map(c: CommandBuilder) -> Map<Seq<char>, Seq<char>>;

/// The working directory held by a builder, if one was set.
pub uninterp spec fn cb_cwd_of(c: CommandBuilder) -> Option<Seq<char>>;

/// Relies on `portable_pty::CommandBuilder::new`: the argument vector starts
/// as exactly `[program]` and no working directory is set. (The environment
/// starts as the inherited base environment; nothing is claimed of it here —
/// it is cleared before use.)
#[verifier::external_body]
fn cb_new(program: &String) -> (c: CommandBuilder)
    ensures
        cb_argv(c) == seq![program@],
        cb_cwd_of(c) is None,
{
    CommandBuilder::new(program.as_str())
}

/// Relies on `portable_pty::CommandBuilder::env_clear`: removes every
/// environment entry, inherited ones included; arguments and working
/// directory are untouched.
#[verifier::external_body]
fn cb_env_clear(c: CommandBuilder) -> (r: CommandBuilder)
    ensures
        cb_env_map(r) =~= Map::empty(),
        cb_argv(r) == cb_argv(c),
        cb_cwd_of(r) == cb_cwd_of(c),
{
    let mut c = c;
    c.env_clear();
    c
}

/// Relies on `portable_pty::CommandBuilder::env`: overrides the value of one
/// variable, the key taken verbatim (keys are case-sensitive on POSIX
/// targets); everything else is untouched.
#[verifier::external_body]
fn cb_env(c: CommandBuilder, k: &String, v: &String) -> (r: CommandBuilder)
    ensures
        cb_env_map(r) == cb_env_map(c).insert(k@, v@),
        cb_argv(r) == cb_argv(c),
        cb_cwd_of(r) == cb_cwd_of(c),
{
    let mut c = c;
    c.env(k.as_str(), v.as_str());
    c
}

/// Relies on `portable_pty::CommandBuilder::arg`: appends one argument.
/// `arg` panics on a builder made without a program, so this requires a
/// non-empty argument vector — `cb_new` always establishes that.
#[verifier::external_body]
fn cb_arg(c: CommandBuilder, a: &String) -> (r: CommandBuilder)
    requires
        cb_argv(c).len() > 0,
    ensures
        cb_argv(r) == cb_argv(c).push(a@),
        cb_env_map(r) == cb_env_map(c),
        cb_cwd_of(r) == cb_cwd_of(c),
{
    let mut c = c;
    c.arg(a.as_str());
    c
}

/// Relies on `portable_pty::CommandBuilder::cwd`: sets the working
/// directory; everything else is untouched.
#[verifier::external_body]
fn cb_cwd(c: CommandBuilder, d: &String) -> (r: CommandBuilder)
    ensures
        cb_cwd_of(r) == Some(d@),
        cb_argv(r) == cb_argv(c),
        cb_env_map(r) == cb_env_map(c),
{
    let mut c = c;
    c.cwd(d.as_str());
    c
}

/// Converts a fully built invocation into a `CommandBuilder` ready to spawn:
/// the argument vector is the program followed by the arguments, the
/// environment is exactly the invocation's mapping (the builder's inherited
/// base environment is cleared first, so nothing of the parent leaks
/// through), and the working directory is the invocation's.
#[verifier::loop_isolation(false)]
pub fn command_from_spec(spec: &ExecSpec) -> (c: CommandBuilder)
    ensures
        cb_argv(c) == seq![spec.program@] + spec.args.deep_view(),
        cb_env_map(c) == spec.env@,
        match spec.cwd {
            Some(d) => cb_cwd_of(c) == Some(d@),
            None => cb_cwd_of(c) is None,
        },
{
    let mut c = cb_new(&spec.program);
    c = cb_env_clear(c);
    let n = spec.env.entries.len();
    let mut i: usize = 0;
    while i < n
        invariant
            0 <= i <= n,
            n == spec.env.entries@.len(),
            cb_argv(c) == seq![spec.program@],
            cb_cwd_of(c) is None,
            cb_env_map(c) == assoc_map(spec.env.entries@.subrange(0, i as int)),
        decreases n - i,
    {
        let kv = &spec.env.entries[i];
        c = cb_env(c, &kv.0, &kv.1);
        proof {
            let es = spec.env.entries@;
            assert(es.subrange(0, i as int + 1).drop_last() =~= es.subrange(0, i as int));
            assert(es.subrange(0, i as int + 1).last() == es[i as int]);
        }
        i = i + 1;
    }
    proof {
        assert(spec.env.entries@.subrange(0, spec.env.entries@.len() as int)
            =~= spec.env.entries@);
    }
    let m = spec.args.len();
    let mut j: usize = 0;
    while j < m
        invariant
            0 <= j <= m,
            m == spec.args@.len(),
            cb_argv(c) == seq![spec.program@] + spec.args.deep_view().subrange(0, j as int),
            cb_cwd_of(c) is None,
            cb_env_map(c) == spec.env@,
        decreases m - j,
    {
        proof {
            assert(cb_argv(c).len() > 0);
        }
        c = cb_arg(c, &spec.args[j]);
        proof {
            assert(cb_argv(c) =~= seq![spec.program@] + spec.args.deep_view().subrange(
                0,
                j as int + 1,
            ));
        }
        j = j + 1;
    }
    proof {
        assert(spec.args.deep_view().subrange(0, spec.args@.len() as int)
            =~= spec.args.deep_view());
    }
    match &spec.cwd {
        Some(d) => {
            c = cb_cwd(c, d);
        },
        None => {},
    }
    c
}

/// Builds the complete, spawnable child command under the security policy of
/// [`build_exec_spec`], handing back a `CommandBuilder` whose argument
/// vector, environment and working directory are exactly the verified
/// invocation's.
pub fn build_openclaw_command(settings: &Settings, args: &Vec<String>, host: &HostContext) -> (r:
    Result<CommandBuilder, PtyError>)
    requires
        settings.wf(),
    ensures
        r is Ok <==> build_ok(*settings, args@, *host),
        !all_args_allowed(args@) ==> r matches Err(PtyError::InvalidArgument),
        all_args_allowed(args@) && !node_resolved(*host) ==> r matches Err(
            PtyError::ResourceNotFound,
        ),
        all_args_allowed(args@) && node_resolved(*host) && !entry_resolved(*host) ==> r matches Err(
            PtyError::ResourceNotFound,
        ),
        all_args_allowed(args@) && node_resolved(*host) && entry_resolved(*host) && host.home
            is None ==> r matches Err(PtyError::ResourceNotFound),
        all_args_allowed(args@) && node_resolved(*host) && entry_resolved(*host) && host.home
            is Some && host.state_dir_error is Some ==> (r matches Err(PtyError::OsResourceError(e))
            && e@ == host.state_dir_error->Some_0@),
        r matches Ok(c) ==> {
            &&& cb_argv(c) == seq![
                spec_node_path(*host),
                "--disable-warning=ExperimentalWarning"@,
                spec_entry_path(*host),
            ] + args.deep_view()
            &&& cb_env_map(c) == built_env(*settings, *host)
            &&& cb_cwd_of(c) == Some(host.home->Some_0@)
        },
{
    match build_exec_spec(settings, args, host) {
        Ok(spec) => {
            let c = command_from_spec(&spec);
            proof {
                assert(cb_argv(c) =~= seq![
                    spec_node_path(*host),
                    "--disable-warning=ExperimentalWarning"@,
                    spec_entry_path(*host),
                ] + args.deep_view());
            }
            Ok(c)
        },
        Err(e) => Err(e),
    }
}

} // verus!
