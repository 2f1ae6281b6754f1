use vstd::prelude::*;

use crate::cbytes::CBytes;
use crate::config::Config;
use crate::into_cow::{cow_bytes, into_cbytes, IntoCow};
use crate::plan::{
    lemma_settled_no_defer, no_defer, plan_view, step_view, CallView, OnError, Step, StepView,
    Syscall,
};

verus! {

/// The root directory of the container and the working directory in it.
#[derive(Debug)]
pub struct Root {
    chroot: CBytes,
    cwd: CBytes,
}

/// Change the root to `chroot`, then, where that succeeds, the working
/// directory to `cwd`.
pub open spec fn root_plan(chroot: Seq<u8>, cwd: Seq<u8>) -> Seq<StepView> {
    seq![
        step_view(CallView::Chroot { path: chroot }, OnError::Abort, false),
        step_view(CallView::Chdir { path: cwd }, OnError::Abort, false),
    ]
}

impl Root {
    pub closed spec fn spec_chroot(&self) -> Seq<u8> {
        self.chroot@
    }

    pub closed spec fn spec_cwd(&self) -> Seq<u8> {
        self.cwd@
    }

    pub fn new<'a, R: IntoCow<'a, CBytes>, C: IntoCow<'a, CBytes>>(chroot: R, cwd: C) -> (r: Root)
        ensures
            r.spec_chroot() == cow_bytes(chroot),
            r.spec_cwd() == cow_bytes(cwd),
    {
        Root { chroot: into_cbytes(chroot), cwd: into_cbytes(cwd) }
    }
}

impl Config for Root {
    open spec fn spec_clone_flags(&self) -> i32 {
        0
    }

    open spec fn spec_prepare(&self) -> Seq<StepView> {
        root_plan(self.spec_chroot(), self.spec_cwd())
    }

    proof fn lemma_prepare_settled(&self) {
        assert(no_defer(self.spec_prepare()));
        lemma_settled_no_defer(self.spec_prepare());
    }

    fn clone_flags(&self) -> (r: i32) {
        0
    }

    fn prepare(&self) -> (r: Vec<Step>) {
        let steps: Vec<Step> = vec![
            Step {
                call: Syscall::Chroot { path: self.chroot.duplicate() },
                on_error: OnError::Abort,
                settle: false,
            },
            Step {
                call: Syscall::Chdir { path: self.cwd.duplicate() },
                on_error: OnError::Abort,
                settle: false,
            },
        ];
        assert(plan_view(steps@) =~= self.spec_prepare());
        steps
    }
}

/// Preparing a root changes the root directory to it and then, only where
/// that succeeds, changes the working directory to its `cwd`, now inside
/// the new root.
pub proof fn lemma_root_steps(r: Root)
    ensures
        (r.spec_prepare() == seq![
            step_view(CallView::Chroot { path: r.spec_chroot() }, OnError::Abort, false),
            step_view(CallView::Chdir { path: r.spec_cwd() }, OnError::Abort, false),
        ]),
{
}

} // verus!
