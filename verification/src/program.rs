//! Program definitions: the immutable per-program configuration that the
//! registry holds, and structural equality over whole definitions, which
//! reconciliation uses to decide that a program has changed.

use vstd::prelude::*;

verus! {

/// Restart policy of a program: whether the reaper respawns an instance
/// after its child process exits.
#[derive(Clone, Copy, Debug, PartialEq, Eq, Structural)]
pub enum AutoRestart {
    /// Never restart an exited instance.
    Never,
    /// Restart every exited instance.
    Always,
    /// Restart only when the exit code is not among the expected ones.
    Unexpected,
}

/// One supplemental environment variable handed to a child process.
#[derive(Clone, Debug)]
pub struct EnvVar {
    pub name: String,
    pub value: String,
}

/// Mathematical image of an `EnvVar`.
#[verifier::ext_equal]
pub struct EnvVarView {
    pub name: Seq<char>,
    pub value: Seq<char>,
}

impl View for EnvVar {
    type V = EnvVarView;

    open spec fn view(&self) -> EnvVarView {
        EnvVarView { name: self.name@, value: self.value@ }
    }
}

impl DeepView for EnvVar {
    type V = EnvVarView;

    open spec fn deep_view(&self) -> EnvVarView {
        self.view()
    }
}

/// One program definition, immutable once installed in the registry.
#[derive(Clone, Debug)]
pub struct Program {
    /// Command line: first whitespace-separated token is the executable,
    /// the remainder are its arguments. Must not be blank.
    pub cmd: String,
    /// Number of concurrent instances desired.
    pub numprocs: u32,
    /// Octal string, parsed to the file-mode creation mask set in the child.
    pub umask: String,
    /// Working directory of the child.
    pub workingdir: String,
    /// Whether to launch the instances on startup and after a reload.
    pub autostart: bool,
    /// Restart policy applied by the reaper.
    pub autorestart: AutoRestart,
    /// Exit codes considered an expected termination.
    pub exitcodes: Vec<i32>,
    /// Maximum consecutive spawn attempts per instance index.
    pub startretries: u32,
    /// Seconds an instance must stay alive to count as successfully started.
    pub starttime: u32,
    /// Signal number used for graceful termination.
    pub stopsignal: i32,
    /// Seconds to wait after a graceful stop request before the forceful kill.
    pub stoptime: u32,
    /// File receiving the child's standard output.
    pub stdout: String,
    /// File receiving the child's standard error.
    pub stderr: String,
    /// Supplemental environment merged over the inherited one.
    pub env: Vec<EnvVar>,
}

/// Mathematical image of a `Program`.
#[verifier::ext_equal]
pub struct ProgramView {
    pub cmd: Seq<char>,
    pub numprocs: u32,
    pub umask: Seq<char>,
    pub workingdir: Seq<char>,
    pub autostart: bool,
    pub autorestart: AutoRestart,
    pub exitcodes: Seq<i32>,
    pub startretries: u32,
    pub starttime: u32,
    pub stopsignal: i32,
    pub stoptime: u32,
    pub stdout: Seq<char>,
    pub stderr: Seq<char>,
    pub env: Seq<EnvVarView>,
}

impl View for Program {
    type V = ProgramView;

    open spec fn view(&self) -> ProgramView {
        ProgramView {
            cmd: self.cmd@,
            numprocs: self.numprocs,
            umask: self.umask@,
            workingdir: self.workingdir@,
            autostart: self.autostart,
            autorestart: self.autorestart,
            exitcodes: self.exitcodes@,
            startretries: self.startretries,
            starttime: self.starttime,
            stopsignal: self.stopsignal,
            stoptime: self.stoptime,
            stdout: self.stdout@,
            stderr: self.stderr@,
            env: self.env.deep_view(),
        }
    }
}

impl EnvVar {
    /// Equality of one environment entry, by name and value.
    pub fn same(&self, other: &EnvVar) -> (r: bool)
        ensures
            r == (self@ == other@),
    {
        let r = self.name == other.name && self.value == other.value;
        proof {
            if r {
                assert(self@ =~= other@);
            }
        }
        r
    }
}

impl Program {
    /// Structural equality over every field of the definition.
    /// Reconciliation treats a program as changed exactly when this is false.
    pub fn same_def(&self, other: &Program) -> (r: bool)
        ensures
            r == (self@ == other@),
    {
        if self.cmd != other.cmd
            || self.numprocs != other.numprocs
            || self.umask != other.umask
            || self.workingdir != other.workingdir
            || self.autostart != other.autostart
            || self.autorestart != other.autorestart
            || self.startretries != other.startretries
            || self.starttime != other.starttime
            || self.stopsignal != other.stopsignal
            || self.stoptime != other.stoptime
            || self.stdout != other.stdout
            || self.stderr != other.stderr
        {
            return false;
        }
        let codes_eq = self.exitcodes == other.exitcodes;
        if !codes_eq {
            proof {
                assert(self@.exitcodes != other@.exitcodes) by {
                    if self@.exitcodes == other@.exitcodes {
                        assert(self.exitcodes@ =~= other.exitcodes@);
                    }
                }
            }
            return false;
        }
        proof {
            assert(self.exitcodes@ =~= other.exitcodes@);
        }
        if self.env.len() != other.env.len() {
            proof {
                assert(self@.env.len() == self.env@.len());
                assert(other@.env.len() == other.env@.len());
            }
            return false;
        }
        let n = self.env.len();
        let mut i: usize = 0;
        while i < n
            invariant
                n == self.env.len(),
                n == other.env.len(),
                i <= n,
                forall|k: int| 0 <= k < i ==> self.env@[k]@ == other.env@[k]@,
            decreases n - i,
        {
            if !self.env[i].same(&other.env[i]) {
                proof {
                    assert(self@.env[i as int] != other@.env[i as int]);
                }
                return false;
            }
            i += 1;
        }
        proof {
            assert(self@.env =~= other@.env);
            assert(self@ =~= other@);
        }
        true
    }
}

} // verus!
