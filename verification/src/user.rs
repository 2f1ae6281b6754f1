use vstd::prelude::*;

use crate::config::Config;
use crate::into_cow::{cow_to_vec, IntoCow};
use crate::plan::{
    lemma_settled_no_defer, no_defer, plan_view, step_view, CallView, OnError, Step, StepView,
    Syscall,
};

verus! {

/// The user and groups the container's process runs as.
#[derive(Debug)]
pub struct User {
    uid: u32,
    gid: u32,
    supplementary_groups: Vec<u32>,
}

/// Set the group, then the supplementary groups, then the user, each only
/// where the one before succeeded.
pub open spec fn user_plan(uid: u32, gid: u32, groups: Seq<u32>) -> Seq<StepView> {
    seq![
        step_view(CallView::SetGid { gid }, OnError::Abort, false),
        step_view(CallView::SetGroups { groups }, OnError::Abort, false),
        step_view(CallView::SetUid { uid }, OnError::Abort, false),
    ]
}

impl User {
    pub closed spec fn spec_uid(&self) -> u32 {
        self.uid
    }

    pub closed spec fn spec_gid(&self) -> u32 {
        self.gid
    }

    pub closed spec fn spec_groups(&self) -> Seq<u32> {
        self.supplementary_groups@
    }

    pub fn new<'a, G: IntoCow<'a, [u32]>>(uid: u32, gid: u32, groups: G) -> (r: User)
        ensures
            r.spec_uid() == uid,
            r.spec_gid() == gid,
            r.spec_groups() == groups.spec_into_cow()@,
    {
        User { uid, gid, supplementary_groups: cow_to_vec(groups.into_cow()) }
    }
}

impl Config for User {
    open spec fn spec_clone_flags(&self) -> i32 {
        0
    }

    open spec fn spec_prepare(&self) -> Seq<StepView> {
        user_plan(self.spec_uid(), self.spec_gid(), self.spec_groups())
    }

    proof fn lemma_prepare_settled(&self) {
        assert(no_defer(self.spec_prepare()));
        lemma_settled_no_defer(self.spec_prepare());
    }

    fn clone_flags(&self) -> (r: i32) {
        0
    }

    fn prepare(&self) -> (r: Vec<Step>) {
        let groups = vstd::slice::slice_to_vec(self.supplementary_groups.as_slice());
        let steps: Vec<Step> = vec![
            Step { call: Syscall::SetGid { gid: self.gid }, on_error: OnError::Abort, settle: false },
            Step { call: Syscall::SetGroups { groups }, on_error: OnError::Abort, settle: false },
            Step { call: Syscall::SetUid { uid: self.uid }, on_error: OnError::Abort, settle: false },
        ];
        assert(plan_view(steps@) =~= self.spec_prepare());
        steps
    }
}

/// Taking on a user sets the group first, then the supplementary groups,
/// and the user last (after which the others could no longer be set),
/// each only where the one before succeeded.
pub proof fn lemma_user_steps(u: User)
    ensures
        (u.spec_prepare() == seq![
            step_view(CallView::SetGid { gid: u.spec_gid() }, OnError::Abort, false),
            step_view(CallView::SetGroups { groups: u.spec_groups() }, OnError::Abort, false),
            step_view(CallView::SetUid { uid: u.spec_uid() }, OnError::Abort, false),
        ]),
{
}

} // verus!
