use vstd::prelude::*;

use crate::cbytes::CBytes;

verus! {

/// One system call of the preparation of a container, with the values
/// handed to it.
#[derive(Debug)]
pub enum Syscall {
    /// `mkdir(path, mode)`.
    MakeDir { path: CBytes, mode: u32 },
    /// `mount(source, target, fstype, flags, data)`.
    Mount {
        source: Option<CBytes>,
        target: CBytes,
        fstype: Option<CBytes>,
        flags: u64,
        data: Option<CBytes>,
    },
    /// `chroot(path)`.
    Chroot { path: CBytes },
    /// `chdir(path)`.
    Chdir { path: CBytes },
    /// `sethostname(name)`.
    SetHostname { name: Vec<u8> },
    /// `setgid(gid)`.
    SetGid { gid: u32 },
    /// `setgroups(groups)`.
    SetGroups { groups: Vec<u32> },
    /// `setuid(uid)`.
    SetUid { uid: u32 },
    /// `mknod(path, kind | mode, dev)`.
    MakeNode { path: CBytes, kind: u32, mode: u32, dev: u64 },
    /// `symlink(target, linkpath)`.
    Symlink { target: CBytes, linkpath: CBytes },
    /// `prctl(PR_CAPBSET_DROP, cap)`: drops `cap` from the bounding set.
    DropBoundingCapability { cap: u32 },
    /// `capset` on the calling process, with `caps` as its effective,
    /// permitted and inheritable sets.
    SetCapabilities { caps: u64 },
    /// `open(path, O_RDONLY)`: the namespace file that the next
    /// `SetNamespace` and `CloseNamespace` act on.
    OpenNamespace { path: CBytes },
    /// `setns(fd, nstype)` on the namespace file opened last.
    SetNamespace { nstype: i32 },
    /// `close(fd)` of the namespace file opened last.
    CloseNamespace,
    /// `fork()`: the parent waits for the child and exits with its status;
    /// the child goes on with the plan.
    ForkAndReap,
    /// Writes `text` and a line break to the standard output; never fails.
    Notice { text: String },
}

/// What a failure of a step does to the plan.
#[derive(Debug, Clone, Copy, PartialEq, Eq, Structural)]
pub enum OnError {
    /// The plan stops with the error.
    Abort,
    /// The error is dropped.
    Ignore,
    /// The error is dropped where it is this error number; otherwise the
    /// plan stops with it.
    IgnoreErrno(i32),
    /// The plan goes on; the error is kept (the first one, where there are
    /// several) and reported at the next settling step.
    Defer,
}

/// A system call, what its failure does, and whether a deferred error is
/// reported once it is done.
#[derive(Debug)]
pub struct Step {
    pub call: Syscall,
    pub on_error: OnError,
    pub settle: bool,
}

/// What a system call came back with.
#[derive(Debug, Clone, Copy, PartialEq, Eq, Structural)]
pub enum Outcome {
    Done,
    /// The call failed with this error number.
    Failed(i32),
}

/// What a system call is, as plain values: the model of a `Syscall`.
pub enum CallView {
    MakeDir { path: Seq<u8>, mode: u32 },
    Mount {
        source: Option<Seq<u8>>,
        target: Seq<u8>,
        fstype: Option<Seq<u8>>,
        flags: u64,
        data: Option<Seq<u8>>,
    },
    Chroot { path: Seq<u8> },
    Chdir { path: Seq<u8> },
    SetHostname { name: Seq<u8> },
    SetGid { gid: u32 },
    SetGroups { groups: Seq<u32> },
    SetUid { uid: u32 },
    MakeNode { path: Seq<u8>, kind: u32, mode: u32, dev: u64 },
    Symlink { target: Seq<u8>, linkpath: Seq<u8> },
    DropBoundingCapability { cap: u32 },
    SetCapabilities { caps: u64 },
    OpenNamespace { path: Seq<u8> },
    SetNamespace { nstype: i32 },
    CloseNamespace,
    ForkAndReap,
    Notice { text: Seq<char> },
}

/// The model of a `Step`.
pub struct StepView {
    pub call: CallView,
    pub on_error: OnError,
    pub settle: bool,
}

/// The view of an optional C string.
pub open spec fn opt_view(o: Option<CBytes>) -> Option<Seq<u8>> {
    match o {
        Some(c) => Some(c@),
        None => None,
    }
}

impl View for Syscall {
    type V = CallView;

    open spec fn view(&self) -> CallView {
        match self {
            Syscall::MakeDir { path, mode } => CallView::MakeDir { path: path@, mode: *mode },
            Syscall::Mount { source, target, fstype, flags, data } => CallView::Mount {
                source: opt_view(*source),
                target: target@,
                fstype: opt_view(*fstype),
                flags: *flags,
                data: opt_view(*data),
            },
            Syscall::Chroot { path } => CallView::Chroot { path: path@ },
            Syscall::Chdir { path } => CallView::Chdir { path: path@ },
            Syscall::SetHostname { name } => CallView::SetHostname { name: name@ },
            Syscall::SetGid { gid } => CallView::SetGid { gid: *gid },
            Syscall::SetGroups { groups } => CallView::SetGroups { groups: groups@ },
            Syscall::SetUid { uid } => CallView::SetUid { uid: *uid },
            Syscall::MakeNode { path, kind, mode, dev } => CallView::MakeNode {
                path: path@,
                kind: *kind,
                mode: *mode,
                dev: *dev,
            },
            Syscall::Symlink { target, linkpath } => CallView::Symlink {
                target: target@,
                linkpath: linkpath@,
            },
            Syscall::DropBoundingCapability { cap } => CallView::DropBoundingCapability {
                cap: *cap,
            },
            Syscall::SetCapabilities { caps } => CallView::SetCapabilities { caps: *caps },
            Syscall::OpenNamespace { path } => CallView::OpenNamespace { path: path@ },
            Syscall::SetNamespace { nstype } => CallView::SetNamespace { nstype: *nstype },
            Syscall::CloseNamespace => CallView::CloseNamespace,
            Syscall::ForkAndReap => CallView::ForkAndReap,
            Syscall::Notice { text } => CallView::Notice { text: text@ },
        }
    }
}

impl View for Step {
    type V = StepView;

    open spec fn view(&self) -> StepView {
        StepView { call: self.call@, on_error: self.on_error, settle: self.settle }
    }
}

/// The models of a list of steps.
pub open spec fn plan_view(steps: Seq<Step>) -> Seq<StepView> {
    steps.map_values(|s: Step| s@)
}

/// The state after one step: `Err(e)` where the plan stops with `e`,
/// `Ok(p)` with the deferred error `p` where it goes on.
pub open spec fn step_effect(step: StepView, out: Outcome, pending: Option<i32>) -> Result<
    Option<i32>,
    i32,
> {
    let after: Result<Option<i32>, i32> = match out {
        Outcome::Done => Ok(pending),
        Outcome::Failed(e) => match step.on_error {
            OnError::Abort => Err(e),
            OnError::Ignore => Ok(pending),
            OnError::IgnoreErrno(x) => if e == x {
                Ok(pending)
            } else {
                Err(e)
            },
            OnError::Defer => Ok(
                if pending is Some {
                    pending
                } else {
                    Some(e)
                },
            ),
        },
    };
    match after {
        Err(e) => Err(e),
        Ok(p) => if step.settle {
            match p {
                Some(e) => Err(e),
                None => Ok(None),
            }
        } else {
            Ok(p)
        },
    }
}

/// Runs `steps`, the `i`-th call coming back with `outs[i]`, from the
/// deferred error `pending`: `Err(e)` where the plan stops with `e`,
/// `Ok(p)` where every step ran, `p` being the error still deferred.
pub open spec fn exec_steps(steps: Seq<StepView>, outs: Seq<Outcome>, pending: Option<i32>) -> Result<
    Option<i32>,
    i32,
>
    decreases steps.len(),
{
    if steps.len() == 0 {
        Ok(pending)
    } else {
        match step_effect(steps[0], outs[0], pending) {
            Err(e) => Err(e),
            Ok(p) => exec_steps(steps.drop_first(), outs.drop_first(), p),
        }
    }
}

/// The result of a plan whose `i`-th call comes back with `outs[i]`: the
/// error it stops with, else the error deferred to its end, else success.
pub open spec fn run_plan(steps: Seq<StepView>, outs: Seq<Outcome>) -> Result<(), i32> {
    match exec_steps(steps, outs, None) {
        Err(e) => Err(e),
        Ok(Some(e)) => Err(e),
        Ok(None) => Ok(()),
    }
}

/// `r1`, and where it succeeds, `r2`.
pub open spec fn and_then(r1: Result<(), i32>, r2: Result<(), i32>) -> Result<(), i32> {
    match r1 {
        Ok(_) => r2,
        Err(e) => Err(e),
    }
}

/// Some step of `steps` reports deferred errors.
pub open spec fn has_settle(steps: Seq<StepView>) -> bool
    decreases steps.len(),
{
    steps.len() > 0 && (steps[0].settle || has_settle(steps.drop_first()))
}

/// Every deferring step of `steps` is followed by a step that reports the
/// deferred error: nothing stays deferred at the end.
pub open spec fn settled(steps: Seq<StepView>) -> bool
    decreases steps.len(),
{
    steps.len() == 0 || ({
        &&& (steps[0].on_error is Defer && !steps[0].settle) ==> has_settle(steps.drop_first())
        &&& settled(steps.drop_first())
    })
}

/// Running two plans one after the other is running the first and then,
/// from the state it ends in, the second.
pub proof fn lemma_exec_concat(p1: Seq<StepView>, p2: Seq<StepView>, o1: Seq<Outcome>, o2: Seq<Outcome>, pending: Option<i32>)
    requires
        o1.len() == p1.len(),
    ensures
        exec_steps(p1 + p2, o1 + o2, pending) == match exec_steps(p1, o1, pending) {
            Err(e) => Err(e),
            Ok(q) => exec_steps(p2, o2, q),
        },
    decreases p1.len(),
{
    if p1.len() == 0 {
        assert(p1 + p2 =~= p2);
        assert(o1 + o2 =~= o2);
    } else {
        assert((p1 + p2).drop_first() =~= p1.drop_first() + p2);
        assert((o1 + o2).drop_first() =~= o1.drop_first() + o2);
        assert((p1 + p2)[0] == p1[0]);
        assert((o1 + o2)[0] == o1[0]);
        match step_effect(p1[0], o1[0], pending) {
            Err(e) => {},
            Ok(p) => {
                lemma_exec_concat(p1.drop_first(), p2, o1.drop_first(), o2, p);
            },
        }
    }
}

proof fn lemma_settled_leaves_nothing(p: Seq<StepView>, o: Seq<Outcome>, pending: Option<i32>)
    requires
        settled(p),
    ensures
        exec_steps(p, o, pending) matches Ok(q) ==> (q is None || (q == pending && !has_settle(p))),
    decreases p.len(),
{
    if p.len() > 0 {
        match step_effect(p[0], o[0], pending) {
            Err(e) => {},
            Ok(q) => {
                lemma_settled_leaves_nothing(p.drop_first(), o.drop_first(), q);
            },
        }
    }
}

proof fn lemma_has_settle_concat(p1: Seq<StepView>, p2: Seq<StepView>)
    requires
        has_settle(p1),
    ensures
        has_settle(p1 + p2),
    decreases p1.len(),
{
    assert((p1 + p2)[0] == p1[0]);
    if !p1[0].settle {
        assert((p1 + p2).drop_first() =~= p1.drop_first() + p2);
        lemma_has_settle_concat(p1.drop_first(), p2);
    }
}

/// No step of `p` defers its error.
pub open spec fn no_defer(p: Seq<StepView>) -> bool {
    forall|i: int| 0 <= i < p.len() ==> !(#[trigger] p[i].on_error is Defer)
}

/// Two plans that defer nothing, one after the other, defer nothing.
pub proof fn lemma_no_defer_concat(p1: Seq<StepView>, p2: Seq<StepView>)
    requires
        no_defer(p1),
        no_defer(p2),
    ensures
        no_defer(p1 + p2),
{
    assert forall|i: int| 0 <= i < (p1 + p2).len() implies !(#[trigger] (p1 + p2)[i].on_error is Defer) by {
        if i < p1.len() {
            assert((p1 + p2)[i] == p1[i]);
        } else {
            assert((p1 + p2)[i] == p2[i - p1.len()]);
        }
    }
}

/// A plan that defers no error is settled.
pub proof fn lemma_settled_no_defer(p: Seq<StepView>)
    requires
        no_defer(p),
    ensures
        settled(p),
    decreases p.len(),
{
    if p.len() > 0 {
        assert forall|i: int| 0 <= i < p.drop_first().len() implies !(
        #[trigger] p.drop_first()[i].on_error is Defer) by {
            assert(p.drop_first()[i] == p[i + 1]);
        }
        lemma_settled_no_defer(p.drop_first());
    }
}

/// A step, as a model.
pub open spec fn step_view(call: CallView, on_error: OnError, settle: bool) -> StepView {
    StepView { call, on_error, settle }
}

/// Two settled plans, one after the other, form a settled plan.
pub proof fn lemma_settled_concat(p1: Seq<StepView>, p2: Seq<StepView>)
    requires
        settled(p1),
        settled(p2),
    ensures
        settled(p1 + p2),
    decreases p1.len(),
{
    if p1.len() == 0 {
        assert(p1 + p2 =~= p2);
    } else {
        assert((p1 + p2).drop_first() =~= p1.drop_first() + p2);
        assert((p1 + p2)[0] == p1[0]);
        lemma_settled_concat(p1.drop_first(), p2);
        if p1[0].on_error is Defer && !p1[0].settle {
            lemma_has_settle_concat(p1.drop_first(), p2);
        }
    }
}

/// A settled plan followed by another plan succeeds where both succeed, and
/// otherwise fails with the first plan's error, or where the first succeeds,
/// with the second's: running `p1` then `p2` is `run(p1).and_then(run(p2))`.
pub proof fn lemma_run_concat(p1: Seq<StepView>, p2: Seq<StepView>, o1: Seq<Outcome>, o2: Seq<Outcome>)
    requires
        settled(p1),
        o1.len() == p1.len(),
    ensures
        run_plan(p1 + p2, o1 + o2) == and_then(run_plan(p1, o1), run_plan(p2, o2)),
{
    lemma_exec_concat(p1, p2, o1, o2, None);
    lemma_settled_leaves_nothing(p1, o1, None);
}

/// The effect of one step, computed.
pub fn apply_outcome(step: &Step, out: &Outcome, pending: Option<i32>) -> (r: Result<Option<i32>, i32>)
    ensures
        r == step_effect(step@, *out, pending),
{
    let after: Result<Option<i32>, i32> = match out {
        Outcome::Done => Ok(pending),
        Outcome::Failed(e) => match &step.on_error {
            OnError::Abort => Err(*e),
            OnError::Ignore => Ok(pending),
            OnError::IgnoreErrno(x) => if *e == *x {
                Ok(pending)
            } else {
                Err(*e)
            },
            OnError::Defer => Ok(
                if pending.is_some() {
                    pending
                } else {
                    Some(*e)
                },
            ),
        },
    };
    match after {
        Err(e) => Err(e),
        Ok(p) => if step.settle {
            match p {
                Some(e) => Err(e),
                None => Ok(None),
            }
        } else {
            Ok(p)
        },
    }
}

/// Runs a plan one system call at a time: the caller performs the call that
/// `next_call` names and hands its outcome to `feed`, until `next_call`
/// names none; `result` then says how the plan ended.
pub struct Runner {
    steps: Vec<Step>,
    next: usize,
    pending: Option<i32>,
    stopped: Option<i32>,
    fed: Ghost<Seq<Outcome>>,
}

impl Runner {
    /// The plan being run.
    pub closed spec fn plan(&self) -> Seq<StepView> {
        plan_view(self.steps@)
    }

    /// The outcomes handed over so far, one for each call performed.
    pub closed spec fn fed(&self) -> Seq<Outcome> {
        self.fed@
    }

    /// No call is left to perform: every step has run, or the outcomes
    /// handed over so far stop the plan.
    pub open spec fn finished(&self) -> bool {
        ||| self.fed().len() == self.plan().len()
        ||| exec_steps(self.plan().take(self.fed().len() as int), self.fed(), None) is Err
    }

    pub closed spec fn wf(&self) -> bool {
        &&& self.next <= self.steps@.len()
        &&& self.fed@.len() == self.next
        &&& exec_steps(plan_view(self.steps@).take(self.next as int), self.fed@, None) == match self.stopped {
            Some(e) => Err(e),
            None => Ok(self.pending),
        }
    }

    pub fn new(steps: Vec<Step>) -> (r: Runner)
        ensures
            r.wf(),
            r.plan() == plan_view(steps@),
            r.fed() == Seq::<Outcome>::empty(),
            r.finished() <==> steps@.len() == 0,
    {
        let r = Runner { steps, next: 0, pending: None, stopped: None, fed: Ghost(Seq::empty()) };
        assert(plan_view(r.steps@).take(0) =~= Seq::<StepView>::empty());
        assert(exec_steps(Seq::<StepView>::empty(), Seq::<Outcome>::empty(), None) == Ok::<Option<i32>, i32>(None));
        r
    }

    /// The system call to perform next, if any.
    pub fn next_call(&self) -> (r: Option<&Syscall>)
        requires
            self.wf(),
        ensures
            self.fed().len() <= self.plan().len(),
            r is None <==> self.finished(),
            r matches Some(c) ==> c@ == self.plan()[self.fed().len() as int].call,
    {
        if self.stopped.is_some() || self.next >= self.steps.len() {
            None
        } else {
            Some(&self.steps[self.next].call)
        }
    }

    /// Hands over the outcome of the call that `next_call` named.
    pub fn feed(&mut self, out: Outcome)
        requires
            old(self).wf(),
            !old(self).finished(),
        ensures
            final(self).wf(),
            final(self).plan() == old(self).plan(),
            final(self).fed() == old(self).fed().push(out),
    {
        let n: usize = self.steps.len();
        let ghost old_take = plan_view(self.steps@).take(self.next as int);
        let ghost old_fed = self.fed@;
        let r = apply_outcome(&self.steps[self.next], &out, self.pending);
        proof {
            let s = plan_view(self.steps@)[self.next as int];
            assert(plan_view(self.steps@).take(self.next + 1) =~= old_take + seq![s]);
            assert(old_fed.push(out) =~= old_fed + seq![out]);
            lemma_exec_concat(old_take, seq![s], old_fed, seq![out], None);
            assert(seq![s].drop_first() =~= Seq::<StepView>::empty());
            assert(seq![out].drop_first() =~= Seq::<Outcome>::empty());
            match r {
                Err(e) => {},
                Ok(q) => {
                    assert(exec_steps(Seq::<StepView>::empty(), Seq::<Outcome>::empty(), q) == Ok::<Option<i32>, i32>(q));
                },
            }
        }
        match r {
            Err(e) => {
                self.stopped = Some(e);
            },
            Ok(p) => {
                self.pending = p;
            },
        }
        self.next = self.next + 1;
        self.fed = Ghost(old_fed.push(out));
    }

    /// How the plan ended, once no call is left: for the outcomes handed
    /// over, followed by any outcomes of the calls that were not performed.
    pub fn result(&self) -> (r: Result<(), i32>)
        requires
            self.wf(),
            self.finished(),
        ensures
            forall|rest: Seq<Outcome>|
                rest.len() == self.plan().len() - self.fed().len() ==> r == run_plan(
                    self.plan(),
                    #[trigger] (self.fed() + rest),
                ),
    {
        proof {
            assert forall|rest: Seq<Outcome>|
                rest.len() == self.plan().len() - self.fed().len() implies run_plan(
                self.plan(),
                #[trigger] (self.fed() + rest),
            ) == match self.stopped {
                Some(e) => Err(e),
                None => match self.pending {
                    Some(e) => Err(e),
                    None => Ok(()),
                },
            } by {
                let t = plan_view(self.steps@).take(self.next as int);
                let u = plan_view(self.steps@).skip(self.next as int);
                assert(plan_view(self.steps@) =~= t + u);
                lemma_exec_concat(t, u, self.fed@, rest, None);
                if self.stopped is None {
                    assert(u.len() == 0);
                }
            }
        }
        match self.stopped {
            Some(e) => Err(e),
            None => match self.pending {
                Some(e) => Err(e),
                None => Ok(()),
            },
        }
    }
}

} // verus!
