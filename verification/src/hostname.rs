use vstd::prelude::*;

use crate::config::Config;
use crate::into_cow::{cow_to_string, IntoCow};
use crate::plan::{
    lemma_settled_no_defer, no_defer, plan_view, step_view, CallView, OnError, Step, StepView,
    Syscall,
};

verus! {

/// The host name of the container.
#[derive(Debug)]
pub struct Hostname {
    hostname: String,
}

/// Set the host name to `name`.
pub open spec fn hostname_plan(name: Seq<u8>) -> Seq<StepView> {
    seq![step_view(CallView::SetHostname { name }, OnError::Abort, false)]
}

impl Hostname {
    pub closed spec fn spec_hostname(&self) -> Seq<char> {
        self.hostname@
    }

    pub fn new<'a, H: IntoCow<'a, str>>(hostname: H) -> (r: Hostname)
        ensures
            r.spec_hostname() == hostname.spec_into_cow()@,
    {
        Hostname { hostname: cow_to_string(hostname.into_cow()) }
    }
}

impl Config for Hostname {
    open spec fn spec_clone_flags(&self) -> i32 {
        0
    }

    /// The name goes to the kernel as its UTF-8 bytes.
    open spec fn spec_prepare(&self) -> Seq<StepView> {
        hostname_plan(vstd::utf8::encode_utf8(self.spec_hostname()))
    }

    proof fn lemma_prepare_settled(&self) {
        assert(no_defer(self.spec_prepare()));
        lemma_settled_no_defer(self.spec_prepare());
    }

    fn clone_flags(&self) -> (r: i32) {
        0
    }

    fn prepare(&self) -> (r: Vec<Step>) {
        let name = vstd::slice::slice_to_vec(self.hostname.as_str().as_bytes());
        let steps: Vec<Step> = vec![
            Step { call: Syscall::SetHostname { name }, on_error: OnError::Abort, settle: false },
        ];
        assert(plan_view(steps@) =~= self.spec_prepare());
        steps
    }
}

/// Preparing a host name sets it, as UTF-8 bytes.
pub proof fn lemma_hostname_steps(h: Hostname)
    ensures
        (h.spec_prepare() == seq![
            step_view(CallView::SetHostname { name: vstd::utf8::encode_utf8(h.spec_hostname()) }, OnError::Abort, false),
        ]),
{
}

} // verus!
