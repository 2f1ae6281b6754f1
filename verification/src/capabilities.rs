use vstd::prelude::*;

use crate::config::Config;
use crate::flags::EINVAL;
use crate::plan::{
    lemma_no_defer_concat, lemma_settled_no_defer, no_defer, plan_view, step_view, CallView,
    OnError, Step, StepView, Syscall,
};

verus! {

/// The capabilities the container's process keeps, one bit each.
#[derive(Debug)]
pub struct Capabilities {
    caps: u64,
}

/// Capability `cap` is in `caps`.
pub open spec fn has_cap(caps: u64, cap: u32) -> bool {
    caps & (1u64 << cap) == (1u64 << cap)
}

/// Drop from the bounding set each capability below `n` that is not in
/// `caps`; a kernel that does not know a capability (`EINVAL`) is no error.
pub open spec fn cap_drop_plan(caps: u64, n: nat) -> Seq<StepView>
    decreases n,
{
    if n == 0 {
        Seq::empty()
    } else {
        cap_drop_plan(caps, (n - 1) as nat) + if !has_cap(caps, (n - 1) as u32) {
            seq![
                step_view(
                    CallView::DropBoundingCapability { cap: (n - 1) as u32 },
                    OnError::IgnoreErrno(EINVAL),
                    false,
                ),
            ]
        } else {
            Seq::<StepView>::empty()
        }
    }
}

/// Drop every capability below 63 that is not kept from the bounding set,
/// then set the kept ones as the effective, permitted and inheritable sets.
pub open spec fn capabilities_plan(caps: u64) -> Seq<StepView> {
    cap_drop_plan(caps, 63) + seq![
        step_view(CallView::SetCapabilities { caps }, OnError::Abort, false),
    ]
}

/// The capability a step drops from the bounding set, if it drops one.
pub open spec fn dropped_cap(s: StepView) -> Option<u32> {
    match s.call {
        CallView::DropBoundingCapability { cap } => Some(cap),
        _ => None,
    }
}

/// The bounding-set part of a plan drops exactly the capabilities below
/// `n` whose bit is clear in `caps`, each once and in increasing order; a
/// kernel that does not know one (error 22, `EINVAL`) is no error.
pub proof fn lemma_cap_drop_plan(caps: u64, n: nat)
    requires
        n <= 64,
    ensures
        forall|j: int|
            0 <= j < cap_drop_plan(caps, n).len() ==> {
                let s = #[trigger] cap_drop_plan(caps, n)[j];
                &&& dropped_cap(s) matches Some(c) && c < n && caps & (1u64 << c) == 0
                &&& s.on_error == OnError::IgnoreErrno(22)
                &&& !s.settle
            },
        forall|c: u32|
            c < n && caps & (1u64 << c) == 0 ==> exists|j: int|
                0 <= j < cap_drop_plan(caps, n).len() && #[trigger] dropped_cap(
                    cap_drop_plan(caps, n)[j],
                ) == Some(c),
        forall|j: int, k: int|
            0 <= j < k < cap_drop_plan(caps, n).len() ==> (#[trigger] dropped_cap(
                cap_drop_plan(caps, n)[j],
            ))->0 < (#[trigger] dropped_cap(cap_drop_plan(caps, n)[k]))->0,
    decreases n,
{
    if n > 0 {
        let m = (n - 1) as nat;
        lemma_cap_drop_plan(caps, m);
        let prev = cap_drop_plan(caps, m);
        let plan = cap_drop_plan(caps, n);
        let c = m as u32;
        assert(c < 64);
        assert((caps & (1u64 << c) != (1u64 << c)) <==> (caps & (1u64 << c) == 0)) by (bit_vector)
            requires
                c < 64;
        if !has_cap(caps, c) {
            assert(plan.len() == prev.len() + 1);
            assert(plan[prev.len() as int] == step_view(
                CallView::DropBoundingCapability { cap: c },
                OnError::IgnoreErrno(EINVAL),
                false,
            ));
            assert forall|j: int| 0 <= j < prev.len() implies plan[j] == prev[j] by {}
            assert forall|d: u32| d < n && caps & (1u64 << d) == 0 implies exists|j: int|
                0 <= j < plan.len() && #[trigger] dropped_cap(plan[j]) == Some(d) by {
                if d == c {
                    assert(dropped_cap(plan[prev.len() as int]) == Some(d));
                } else {
                    let j = choose|j: int| 0 <= j < prev.len() && #[trigger] dropped_cap(prev[j]) == Some(d);
                    assert(plan[j] == prev[j]);
                }
            }
        } else {
            assert(plan =~= prev);
        }
    }
}

proof fn lemma_cap_drop_no_defer(caps: u64, n: nat)
    ensures
        no_defer(cap_drop_plan(caps, n)),
    decreases n,
{
    if n > 0 {
        lemma_cap_drop_no_defer(caps, (n - 1) as nat);
        let tail = if !has_cap(caps, (n - 1) as u32) {
            seq![
                step_view(
                    CallView::DropBoundingCapability { cap: (n - 1) as u32 },
                    OnError::IgnoreErrno(EINVAL),
                    false,
                ),
            ]
        } else {
            Seq::<StepView>::empty()
        };
        assert(no_defer(tail));
        lemma_no_defer_concat(cap_drop_plan(caps, (n - 1) as nat), tail);
    }
}

impl Capabilities {
    pub closed spec fn spec_caps(&self) -> u64 {
        self.caps
    }

    pub fn new(caps: u64) -> (r: Capabilities)
        ensures
            r.spec_caps() == caps,
    {
        Capabilities { caps }
    }
}

impl Config for Capabilities {
    open spec fn spec_clone_flags(&self) -> i32 {
        0
    }

    open spec fn spec_prepare(&self) -> Seq<StepView> {
        capabilities_plan(self.spec_caps())
    }

    proof fn lemma_prepare_settled(&self) {
        lemma_cap_drop_no_defer(self.spec_caps(), 63);
        let last = seq![
            step_view(CallView::SetCapabilities { caps: self.spec_caps() }, OnError::Abort, false),
        ];
        assert(no_defer(last));
        lemma_no_defer_concat(cap_drop_plan(self.spec_caps(), 63), last);
        lemma_settled_no_defer(self.spec_prepare());
    }

    fn clone_flags(&self) -> (r: i32) {
        0
    }

    fn prepare(&self) -> (r: Vec<Step>) {
        let caps = self.caps;
        let mut steps: Vec<Step> = Vec::new();
        let mut cap: u32 = 0;
        while cap < 63
            invariant
                cap <= 63,
                caps == self.spec_caps(),
                plan_view(steps@) == cap_drop_plan(caps, cap as nat),
            decreases 63 - cap,
        {
            let bit: u64 = 1u64 << cap;
            if caps & bit != bit {
                steps.push(
                    Step {
                        call: Syscall::DropBoundingCapability { cap },
                        on_error: OnError::IgnoreErrno(EINVAL),
                        settle: false,
                    },
                );
            }
            assert(plan_view(steps@) =~= cap_drop_plan(caps, (cap + 1) as nat));
            cap = cap + 1;
        }
        steps.push(
            Step { call: Syscall::SetCapabilities { caps }, on_error: OnError::Abort, settle: false },
        );
        assert(plan_view(steps@) =~= self.spec_prepare());
        steps
    }
}

} // verus!
