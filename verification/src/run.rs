use vstd::prelude::*;

use crate::config::Config;
use crate::flags::{EINTR, SIGCHLD};

verus! {

/// The flags the container's process is cloned with: the configuration's
/// namespace flags, and `SIGCHLD` so that its end is signalled to the
/// runtime.
pub fn run_clone_flags<C: Config>(config: &C) -> (r: i32)
    ensures
        r == config.spec_clone_flags() | SIGCHLD,
{
    config.clone_flags() | SIGCHLD
}

/// What the container's process does next.
#[derive(Debug, Clone, Copy, PartialEq, Eq, Structural)]
pub enum ChildAction {
    /// Replace itself with the command.
    Exec,
    /// Report the error number `errno` and exit with `status`.
    Exit { errno: i32, status: i32 },
}

/// The container's process after preparing the container, or after an
/// attempt to run the command, which comes back only where it failed: on
/// success it goes on to run the command; on failure it reports the error
/// and exits with status 1.
pub fn child_action(result: Result<(), i32>) -> (r: ChildAction)
    ensures
        r == match result {
            Ok(_) => ChildAction::Exec,
            Err(e) => ChildAction::Exit { errno: e, status: 1 },
        },
{
    match result {
        Ok(_) => ChildAction::Exec,
        Err(e) => ChildAction::Exit { errno: e, status: 1 },
    }
}

/// What waiting for a child came back with.
#[derive(Debug, Clone, Copy, PartialEq, Eq, Structural)]
pub enum WaitEvent {
    StillAlive,
    Stopped,
    Continued,
    /// The child exited with this status.
    Exited(i32),
    /// The child was killed by a signal.
    Signaled,
    /// The wait itself failed with this error number.
    Failed(i32),
}

/// What to do after a wait.
#[derive(Debug, Clone, Copy, PartialEq, Eq, Structural)]
pub enum WaitVerdict {
    /// Wait again.
    Wait,
    /// The child exited with this status.
    Exited(i32),
    /// The child ended abnormally, or it cannot be waited for.
    Abnormal,
}

pub open spec fn spec_wait_verdict(ev: WaitEvent) -> WaitVerdict {
    match ev {
        WaitEvent::StillAlive | WaitEvent::Stopped | WaitEvent::Continued => WaitVerdict::Wait,
        WaitEvent::Failed(e) => if e == EINTR {
            WaitVerdict::Wait
        } else {
            WaitVerdict::Abnormal
        },
        WaitEvent::Exited(status) => WaitVerdict::Exited(status),
        WaitEvent::Signaled => WaitVerdict::Abnormal,
    }
}

/// The parent waits on exactly while the child lives on (running, stopped
/// or continued) or a wait was interrupted by a signal (error 4, `EINTR`);
/// it has the child's status exactly when the child exited, with that
/// status; anything else is an abnormal end.
pub proof fn lemma_wait_verdict(ev: WaitEvent)
    ensures
        spec_wait_verdict(ev) is Wait <==> (ev is StillAlive || ev is Stopped || ev is Continued
            || ev == WaitEvent::Failed(4)),
        forall|s: i32| spec_wait_verdict(ev) == WaitVerdict::Exited(s) <==> ev == WaitEvent::Exited(s),
        spec_wait_verdict(ev) is Abnormal <==> (ev is Signaled || (ev is Failed && ev != WaitEvent::Failed(4))),
{
}

/// The verdict on a wait: a child that lives on, or a wait that a signal
/// interrupted, is waited for again.
pub fn wait_verdict(ev: &WaitEvent) -> (r: WaitVerdict)
    ensures
        r == spec_wait_verdict(*ev),
{
    match ev {
        WaitEvent::StillAlive | WaitEvent::Stopped | WaitEvent::Continued => WaitVerdict::Wait,
        WaitEvent::Failed(e) => if *e == EINTR {
            WaitVerdict::Wait
        } else {
            WaitVerdict::Abnormal
        },
        WaitEvent::Exited(status) => WaitVerdict::Exited(*status),
        WaitEvent::Signaled => WaitVerdict::Abnormal,
    }
}

/// The status the waiting parent of a process forked into a PID namespace
/// exits with: the child's exit status, or 1 where it ended abnormally;
/// `None` while it waits on.
pub fn reaper_exit_status(verdict: &WaitVerdict) -> (r: Option<i32>)
    ensures
        r == match *verdict {
            WaitVerdict::Wait => None,
            WaitVerdict::Exited(status) => Some(status),
            WaitVerdict::Abnormal => Some(1i32),
        },
{
    match verdict {
        WaitVerdict::Wait => None,
        WaitVerdict::Exited(status) => Some(*status),
        WaitVerdict::Abnormal => Some(1),
    }
}

} // verus!
