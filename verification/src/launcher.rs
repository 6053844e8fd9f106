//! Launcher-side preparation of a spawn: splitting the command line into
//! executable and arguments and parsing the umask. The process itself is
//! started by the caller from the returned plan; every error the plan can
//! rule out is ruled out here, per attempt.

use vstd::prelude::*;
use crate::program::EnvVar;
use crate::program::Program;
use crate::strutil::spec_split_ws;
use crate::strutil::spec_valid_umask;
use crate::strutil::spec_octal_val;
use crate::strutil::split_ws;
use crate::strutil::parse_umask;

verus! {

/// Why one spawn attempt failed.
#[derive(Clone, Copy, Debug, PartialEq, Eq, Structural)]
pub enum SpawnErrorKind {
    /// The command line holds no token to use as an executable.
    BadCommand,
    /// The umask string is not an octal numeral fitting a 16-bit mask.
    BadUmask,
    /// A stdout or stderr file could not be created or truncated.
    RedirectIoError,
    /// The operating system refused the spawn.
    OsError,
}

/// Everything a caller needs to start one child of a program: the split
/// command line, the parsed mask, and the redirections and environment.
#[derive(Debug)]
pub struct SpawnPlan {
    pub exe: String,
    pub args: Vec<String>,
    pub umask: u16,
    pub workingdir: String,
    pub stdout_path: String,
    pub stderr_path: String,
    pub env: Vec<EnvVar>,
}

/// Turns a definition into a spawn plan: the first whitespace token of
/// `cmd` is the executable and the rest are its arguments, and `umask` is
/// read as an octal mask. A blank command is `BadCommand`; a malformed
/// umask string is `BadUmask`.
pub fn prepare_spawn(def: &Program) -> (r: Result<SpawnPlan, SpawnErrorKind>)
    ensures
        r is Ok <==> (spec_split_ws(def.cmd@).len() > 0 && spec_valid_umask(def.umask@)),
        r matches Err(e) ==> (e == SpawnErrorKind::BadCommand <==> spec_split_ws(
            def.cmd@,
        ).len() == 0),
        r matches Err(e) ==> (e == SpawnErrorKind::BadUmask <==> (spec_split_ws(def.cmd@).len() > 0
            && !spec_valid_umask(def.umask@))),
        r matches Ok(plan) ==> {
            &&& plan.exe@ == spec_split_ws(def.cmd@)[0]
            &&& plan.args.deep_view() == spec_split_ws(def.cmd@).drop_first()
            &&& plan.umask == spec_octal_val(def.umask@)
            &&& plan.workingdir@ == def.workingdir@
            &&& plan.stdout_path@ == def.stdout@
            &&& plan.stderr_path@ == def.stderr@
            &&& plan.env.deep_view() == def.env.deep_view()
        },
{
    let mut tokens = split_ws(def.cmd.as_str());
    if tokens.len() == 0 {
        return Err(SpawnErrorKind::BadCommand);
    }
    let umask = match parse_umask(def.umask.as_str()) {
        Some(m) => m,
        None => {
            return Err(SpawnErrorKind::BadUmask);
        },
    };
    let ghost toks = tokens.deep_view();
    let exe = tokens.remove(0);
    proof {
        assert(exe@ == toks[0]);
        assert(tokens.deep_view() =~= toks.drop_first());
    }
    let env = clone_env(&def.env);
    Ok(
        SpawnPlan {
            exe,
            args: tokens,
            umask,
            workingdir: def.workingdir.clone(),
            stdout_path: def.stdout.clone(),
            stderr_path: def.stderr.clone(),
            env,
        },
    )
}

/// Clones a supplemental environment, entry by entry.
fn clone_env(env: &Vec<EnvVar>) -> (r: Vec<EnvVar>)
    ensures
        r.deep_view() == env.deep_view(),
{
    let n = env.len();
    let mut r: Vec<EnvVar> = Vec::new();
    let mut i: usize = 0;
    while i < n
        invariant
            n == env@.len(),
            i <= n,
            r@.len() == i,
            forall|k: int| 0 <= k < i ==> #[trigger] r@[k]@ == env@[k]@,
        decreases n - i,
    {
        let e = EnvVar { name: env[i].name.clone(), value: env[i].value.clone() };
        r.push(e);
        i += 1;
    }
    proof {
        assert(r.deep_view() =~= env.deep_view());
    }
    r
}

} // verus!
