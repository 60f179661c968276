//! Bootstrap and worker-side initialization plans.
//!
//! The fork, exec, descriptor and environment operations themselves are
//! performed by an unverified runner; this module computes, as plain data,
//! exactly what that runner must do, and fixes the error taxonomy of the
//! bootstrap.

use vstd::prelude::*;

use crate::executor::{args_view, CommandSpec, DirectExecutor, PkexecExecutor, SocketExecutor};

verus! {

/// Errors of the privilege-escalation bootstrap: spawning the worker
/// failed, the descriptor remap collided, or the fork itself failed.
#[derive(Clone, Copy, PartialEq, Eq, Structural, Debug)]
pub enum Error {
    /// An input/output error while spawning the privileged worker.
    IO(crate::channel::IoKind),
    /// A file descriptor mapping collision.
    MappingCollision,
    /// The fork operation failed, with the reported errno.
    Nix(i32),
}

/// Name of the environment marker the elevation front-end leaves in the
/// worker's environment, and which the bootstrap clears before exec.
pub fn elevation_marker_name() -> (r: &'static str)
    ensures
        r@ == "PKEXEC_UID"@,
{
    "PKEXEC_UID"
}

/// The descriptor slot a freshly exec'd worker recovers its listening
/// endpoint from, given whether the elevation marker is present.
pub open spec fn spec_recovery_slot(marker_present: bool) -> int {
    if marker_present {
        (PkexecExecutor {}).spec_parent_fd() as int
    } else {
        (DirectExecutor {}).spec_parent_fd() as int
    }
}

/// Selects the worker-side recovery slot from the environment marker.
/// Both strategies recover from slot 3.
pub fn recovery_slot(marker_present: bool) -> (r: i32)
    ensures
        r == spec_recovery_slot(marker_present),
        r == 3,
{
    if marker_present {
        (PkexecExecutor {}).parent_fd()
    } else {
        (DirectExecutor {}).parent_fd()
    }
}

/// One descriptor operation of the initialization plan.
#[derive(Clone, Copy, PartialEq, Eq, Structural, Debug)]
pub enum FdAction {
    /// Make `dst` a duplicate of `src` (closing what `dst` held).
    Dup2 { src: i32, dst: i32 },
    /// Close `fd`.
    Close { fd: i32 },
}

/// The descriptor operations the worker must run once at startup, before
/// any other output, when the elevation marker is present: move the
/// endpoint from the inherited slot to the recovery slot, close the
/// inherited slot, and route standard error onto it via standard output.
/// Without the marker, nothing is done.
pub open spec fn spec_service_init_plan(marker_present: bool) -> Seq<FdAction> {
    if marker_present {
        seq![
            FdAction::Dup2 { src: 2, dst: 3 },
            FdAction::Close { fd: 2 },
            FdAction::Dup2 { src: 1, dst: 2 },
        ]
    } else {
        Seq::empty()
    }
}

/// Computes the startup descriptor plan.  The redirection through the
/// inherited slot happens exactly once, as the single action sequence this
/// function returns for the elevated case.
pub fn service_init_plan(marker_present: bool) -> (r: Vec<FdAction>)
    ensures
        r@ == spec_service_init_plan(marker_present),
{
    let mut out: Vec<FdAction> = Vec::new();
    if marker_present {
        let exec = PkexecExecutor {};
        let child = exec.child_fd();
        let parent = exec.parent_fd();
        out.push(FdAction::Dup2 { src: child, dst: parent });
        out.push(FdAction::Close { fd: child });
        out.push(FdAction::Dup2 { src: 1, dst: child });
        proof {
            assert(out@ =~= spec_service_init_plan(marker_present));
        }
    } else {
        proof {
            assert(out@ =~= spec_service_init_plan(marker_present));
        }
    }
    out
}

/// What the forked child must do before exec: the command to run, the slot
/// the listening endpoint must be remapped onto, and that the elevation
/// marker is cleared from the child's environment.
pub struct BootstrapPlan {
    pub command: CommandSpec,
    pub child_slot: i32,
    pub clear_marker: bool,
}

/// Computes the child branch's plan for one bootstrap: build the external
/// command through the strategy, remap the endpoint onto the strategy's
/// child slot, and clear the elevation marker so a nested worker cannot
/// misread its context.
pub fn bootstrap_plan<T: SocketExecutor>(exec: &T, executable: &str, args: &[&str]) -> (r:
    BootstrapPlan)
    ensures
        r.command@ == exec.spec_command(executable@, args_view(args@)),
        r.child_slot == exec.spec_child_fd(),
        r.clear_marker,
{
    BootstrapPlan {
        command: exec.command(executable, args),
        child_slot: exec.child_fd(),
        clear_marker: true,
    }
}

/// The exit code the child propagates when the external command finishes:
/// the command's own code, or 1 when none is available.
pub fn child_exit_code(code: Option<i32>) -> (r: i32)
    ensures
        match code {
            Some(c) => r == c,
            None => r == 1,
        },
{
    match code {
        Some(c) => c,
        None => 1,
    }
}

} // verus!
