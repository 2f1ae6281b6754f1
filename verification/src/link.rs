use vstd::prelude::*;

use crate::cbytes::{ascii_bytes, CBytes};
use crate::config::Config;
use crate::into_cow::{cow_bytes, into_cbytes, IntoCow};
use crate::plan::{
    lemma_settled_no_defer, no_defer, plan_view, step_view, CallView, OnError, Step, StepView,
    Syscall,
};

verus! {

/// A symbolic link at `linkpath` that points to `target`.
#[derive(Debug)]
pub struct Symlink {
    target: CBytes,
    linkpath: CBytes,
}

/// Make the link.
pub open spec fn symlink_plan(target: Seq<u8>, linkpath: Seq<u8>) -> Seq<StepView> {
    seq![step_view(CallView::Symlink { target, linkpath }, OnError::Abort, false)]
}

/// `l` links `linkpath` to `target`, both given as ASCII text.
pub open spec fn symlink_is(l: Symlink, target: Seq<char>, linkpath: Seq<char>) -> bool {
    l.spec_target() == ascii_bytes(target) && l.spec_linkpath() == ascii_bytes(linkpath)
}

impl Symlink {
    pub closed spec fn spec_target(&self) -> Seq<u8> {
        self.target@
    }

    pub closed spec fn spec_linkpath(&self) -> Seq<u8> {
        self.linkpath@
    }

    pub fn new<'a, T: IntoCow<'a, CBytes>, L: IntoCow<'a, CBytes>>(target: T, linkpath: L) -> (r: Symlink)
        ensures
            r.spec_target() == cow_bytes(target),
            r.spec_linkpath() == cow_bytes(linkpath),
    {
        Symlink { target: into_cbytes(target), linkpath: into_cbytes(linkpath) }
    }
}

impl Config for Symlink {
    open spec fn spec_clone_flags(&self) -> i32 {
        0
    }

    open spec fn spec_prepare(&self) -> Seq<StepView> {
        symlink_plan(self.spec_target(), self.spec_linkpath())
    }

    proof fn lemma_prepare_settled(&self) {
        assert(no_defer(self.spec_prepare()));
        lemma_settled_no_defer(self.spec_prepare());
    }

    fn clone_flags(&self) -> (r: i32) {
        0
    }

    fn prepare(&self) -> (r: Vec<Step>) {
        let steps: Vec<Step> = vec![
            Step {
                call: Syscall::Symlink {
                    target: self.target.duplicate(),
                    linkpath: self.linkpath.duplicate(),
                },
                on_error: OnError::Abort,
                settle: false,
            },
        ];
        assert(plan_view(steps@) =~= self.spec_prepare());
        steps
    }
}

/// The links of `default_symlinks`, in order.
pub open spec fn is_default_symlinks(s: Seq<Symlink>) -> bool {
    &&& s.len() == 4
    &&& symlink_is(s[0], "/proc/self/fd"@, "/dev/fd"@)
    &&& symlink_is(s[1], "/proc/self/fd/0"@, "/dev/stdin"@)
    &&& symlink_is(s[2], "/proc/self/fd/1"@, "/dev/stdout"@)
    &&& symlink_is(s[3], "/proc/self/fd/2"@, "/dev/stderr"@)
}

/// The links every container gets: the file descriptor directory and the
/// standard streams under `/dev`.
pub fn default_symlinks() -> (r: Vec<Symlink>)
    ensures
        r@.len() == 4,
        symlink_is(r@[0], "/proc/self/fd"@, "/dev/fd"@),
        symlink_is(r@[1], "/proc/self/fd/0"@, "/dev/stdin"@),
        symlink_is(r@[2], "/proc/self/fd/1"@, "/dev/stdout"@),
        symlink_is(r@[3], "/proc/self/fd/2"@, "/dev/stderr"@),
{
    proof {
        reveal_strlit("/proc/self/fd");
        reveal_strlit("/dev/fd");
        reveal_strlit("/proc/self/fd/0");
        reveal_strlit("/dev/stdin");
        reveal_strlit("/proc/self/fd/1");
        reveal_strlit("/dev/stdout");
        reveal_strlit("/proc/self/fd/2");
        reveal_strlit("/dev/stderr");
    }
    vec![
        Symlink::new(CBytes::from_ascii("/proc/self/fd"), CBytes::from_ascii("/dev/fd")),
        Symlink::new(CBytes::from_ascii("/proc/self/fd/0"), CBytes::from_ascii("/dev/stdin")),
        Symlink::new(CBytes::from_ascii("/proc/self/fd/1"), CBytes::from_ascii("/dev/stdout")),
        Symlink::new(CBytes::from_ascii("/proc/self/fd/2"), CBytes::from_ascii("/dev/stderr")),
    ]
}

/// Preparing a link makes the link `linkpath` that points to `target`.
pub proof fn lemma_symlink_steps(l: Symlink)
    ensures
        (l.spec_prepare() == seq![
            step_view(CallView::Symlink { target: l.spec_target(), linkpath: l.spec_linkpath() }, OnError::Abort, false),
        ]),
{
}

} // verus!
