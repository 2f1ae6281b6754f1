use vstd::prelude::*;

use crate::cbytes::{ascii_bytes, CBytes};
use crate::config::{configs_flags, Config};
use crate::into_cow::{cow_bytes, into_cbytes, opt_cow_bytes, opt_into_cbytes, IntoCow};
use crate::flags::{
    CLONE_NEWIPC, CLONE_NEWNET, CLONE_NEWNS, CLONE_NEWPID, CLONE_NEWUSER, CLONE_NEWUTS, MS_REC,
    MS_SLAVE,
};
use crate::plan::{
    exec_steps, run_plan, Outcome, has_settle, opt_view, plan_view, settled, step_view, CallView, OnError, Step, StepView, Syscall,
};

verus! {

/// The kinds of Linux namespaces a container can have.
#[derive(Clone, Copy, Debug, PartialEq, Eq, Structural)]
pub enum NamespaceKind {
    PID,
    Network,
    Mount,
    IPC,
    UTS,
    User,
}

impl NamespaceKind {
    pub open spec fn spec_clone_flag(self) -> i32 {
        match self {
            NamespaceKind::PID => CLONE_NEWPID,
            NamespaceKind::Network => CLONE_NEWNET,
            NamespaceKind::Mount => CLONE_NEWNS,
            NamespaceKind::IPC => CLONE_NEWIPC,
            NamespaceKind::UTS => CLONE_NEWUTS,
            NamespaceKind::User => CLONE_NEWUSER,
        }
    }

    /// The `clone` flag that makes a new namespace of this kind.
    pub fn clone_flag(&self) -> (r: i32)
        ensures
            r == self.spec_clone_flag(),
    {
        match *self {
            NamespaceKind::PID => CLONE_NEWPID,
            NamespaceKind::Network => CLONE_NEWNET,
            NamespaceKind::Mount => CLONE_NEWNS,
            NamespaceKind::IPC => CLONE_NEWIPC,
            NamespaceKind::UTS => CLONE_NEWUTS,
            NamespaceKind::User => CLONE_NEWUSER,
        }
    }
}

/// A namespace of the container: a new one of its kind, or, with a path,
/// the existing one that the path names.
#[derive(Debug)]
pub struct Namespace {
    kind: NamespaceKind,
    path: Option<CBytes>,
}

/// The steps that enter a namespace: with a path, open it, join it (its
/// error reported once the rest is done), close it, and for a PID
/// namespace fork, so that the child lives in it; a new mount namespace
/// stops mount events from reaching the host.
pub open spec fn namespace_plan(kind: NamespaceKind, path: Option<Seq<u8>>) -> Seq<StepView> {
    match path {
        Some(p) => seq![
            step_view(CallView::OpenNamespace { path: p }, OnError::Abort, false),
            step_view(CallView::SetNamespace { nstype: 0 }, OnError::Defer, false),
            step_view(CallView::CloseNamespace, OnError::Ignore, kind != NamespaceKind::PID),
        ] + if kind == NamespaceKind::PID {
            seq![step_view(CallView::ForkAndReap, OnError::Abort, true)]
        } else {
            Seq::<StepView>::empty()
        },
        None => if kind == NamespaceKind::Mount {
            seq![
                step_view(
                    CallView::Mount {
                        source: Some(Seq::empty()),
                        target: ascii_bytes("/"@),
                        fstype: Some(Seq::empty()),
                        flags: MS_SLAVE | MS_REC,
                        data: Some(Seq::empty()),
                    },
                    OnError::Abort,
                    false,
                ),
            ]
        } else {
            Seq::<StepView>::empty()
        },
    }
}

impl Namespace {
    pub closed spec fn spec_kind(&self) -> NamespaceKind {
        self.kind
    }

    pub closed spec fn spec_path(&self) -> Option<Seq<u8>> {
        opt_view(self.path)
    }

    pub fn new<'a, P: IntoCow<'a, CBytes>>(kind: NamespaceKind, path: Option<P>) -> (r: Namespace)
        ensures
            r.spec_kind() == kind,
            r.spec_path() == opt_cow_bytes(path),
    {
        Namespace { kind, path: opt_into_cbytes(path) }
    }

    /// The existing namespace of `kind` that `path` names.
    pub fn with_path<'a, P: IntoCow<'a, CBytes>>(kind: NamespaceKind, path: P) -> (r: Namespace)
        ensures
            r.spec_kind() == kind,
            r.spec_path() == Some(cow_bytes(path)),
    {
        Namespace { kind, path: Some(into_cbytes(path)) }
    }

    /// A new namespace of `kind`.
    pub fn with_kind(kind: NamespaceKind) -> (r: Namespace)
        ensures
            r.spec_kind() == kind,
            r.spec_path() == None::<Seq<u8>>,
    {
        Namespace { kind, path: None }
    }

    pub fn kind(&self) -> (r: NamespaceKind)
        ensures
            r == self.spec_kind(),
    {
        self.kind
    }
}

impl Config for Namespace {
    open spec fn spec_clone_flags(&self) -> i32 {
        if self.spec_path() is None {
            self.spec_kind().spec_clone_flag()
        } else {
            0
        }
    }

    open spec fn spec_prepare(&self) -> Seq<StepView> {
        namespace_plan(self.spec_kind(), self.spec_path())
    }

    proof fn lemma_prepare_settled(&self) {
        let p = self.spec_prepare();
        let n = p.len();
        if self.spec_path() is Some {
            assert(p.skip(n as int) =~= Seq::<StepView>::empty());
            assert(settled(p.skip(n as int)));
            if self.spec_kind() == NamespaceKind::PID {
                assert(p.skip(3).drop_first() =~= p.skip(4));
                assert(settled(p.skip(3)));
                assert(has_settle(p.skip(3)));
            }
            assert(p.skip(2).drop_first() =~= p.skip(3));
            assert(settled(p.skip(2)));
            assert(has_settle(p.skip(2)));
            assert(p.skip(1).drop_first() =~= p.skip(2));
            assert(settled(p.skip(1)));
            assert(p.drop_first() =~= p.skip(1));
            assert(settled(p));
        } else {
            if n > 0 {
                assert(p.drop_first() =~= Seq::<StepView>::empty());
                assert(settled(p.drop_first()));
            }
            assert(settled(p));
        }
    }

    fn clone_flags(&self) -> (r: i32) {
        if self.path.is_none() {
            self.kind.clone_flag()
        } else {
            0
        }
    }

    fn prepare(&self) -> (r: Vec<Step>) {
        match &self.path {
            Some(path) => {
                let pid = self.kind == NamespaceKind::PID;
                let mut steps: Vec<Step> = vec![
                    Step {
                        call: Syscall::OpenNamespace { path: path.duplicate() },
                        on_error: OnError::Abort,
                        settle: false,
                    },
                    Step {
                        call: Syscall::SetNamespace { nstype: 0 },
                        on_error: OnError::Defer,
                        settle: false,
                    },
                    Step { call: Syscall::CloseNamespace, on_error: OnError::Ignore, settle: !pid },
                ];
                if pid {
                    steps.push(
                        Step { call: Syscall::ForkAndReap, on_error: OnError::Abort, settle: true },
                    );
                }
                assert(plan_view(steps@) =~= self.spec_prepare());
                steps
            },
            None => {
                let mut steps: Vec<Step> = Vec::new();
                if self.kind == NamespaceKind::Mount {
                    proof {
                        reveal_strlit("/");
                    }
                    steps.push(
                        Step {
                            call: Syscall::Mount {
                                source: Some(CBytes::empty()),
                                target: CBytes::from_ascii("/"),
                                fstype: Some(CBytes::empty()),
                                flags: MS_SLAVE | MS_REC,
                                data: Some(CBytes::empty()),
                            },
                            on_error: OnError::Abort,
                            settle: false,
                        },
                    );
                }
                assert(plan_view(steps@) =~= self.spec_prepare());
                steps
            },
        }
    }
}

/// Joining a namespace by its path fails with the error of opening it;
/// else, for a PID namespace, with the error of the fork; else with the
/// error of joining it; closing it cannot fail the preparation.
pub proof fn lemma_namespace_join_result(kind: NamespaceKind, path: Seq<u8>, outs: Seq<Outcome>)
    requires
        outs.len() == namespace_plan(kind, Some(path)).len(),
    ensures
        run_plan(namespace_plan(kind, Some(path)), outs) == if outs[0] is Failed {
            Err(outs[0]->0)
        } else if kind == NamespaceKind::PID && outs[3] is Failed {
            Err(outs[3]->0)
        } else if outs[1] is Failed {
            Err(outs[1]->0)
        } else {
            Ok(())
        },
{
    let p = namespace_plan(kind, Some(path));
    reveal_with_fuel(exec_steps, 5);
    assert(p.drop_first()[0] == p[1]);
    assert(p.drop_first().drop_first()[0] == p[2]);
    assert(outs.drop_first()[0] == outs[1]);
    assert(outs.drop_first().drop_first()[0] == outs[2]);
    if kind == NamespaceKind::PID {
        assert(p.drop_first().drop_first().drop_first()[0] == p[3]);
        assert(outs.drop_first().drop_first().drop_first()[0] == outs[3]);
        assert(p.drop_first().drop_first().drop_first().drop_first().len() == 0);
    } else {
        assert(p.drop_first().drop_first().drop_first().len() == 0);
    }
}

/// A new namespace of each kind is asked of `clone` by the kernel's flag
/// for that kind: `CLONE_NEWPID` for a PID namespace, `CLONE_NEWNET` for a
/// network namespace, `CLONE_NEWNS` for a mount namespace, `CLONE_NEWIPC`
/// for an IPC namespace, `CLONE_NEWUTS` for a UTS namespace and
/// `CLONE_NEWUSER` for a user namespace; a namespace that is joined by its
/// path asks for none.
pub proof fn lemma_namespace_clone_flags(ns: Namespace)
    ensures
        ns.spec_path() is Some ==> ns.spec_clone_flags() == 0,
        ns.spec_path() is None && ns.spec_kind() == NamespaceKind::PID ==> ns.spec_clone_flags() == 0x20000000i32,
        ns.spec_path() is None && ns.spec_kind() == NamespaceKind::Network ==> ns.spec_clone_flags() == 0x40000000i32,
        ns.spec_path() is None && ns.spec_kind() == NamespaceKind::Mount ==> ns.spec_clone_flags() == 0x20000i32,
        ns.spec_path() is None && ns.spec_kind() == NamespaceKind::IPC ==> ns.spec_clone_flags() == 0x8000000i32,
        ns.spec_path() is None && ns.spec_kind() == NamespaceKind::UTS ==> ns.spec_clone_flags() == 0x4000000i32,
        ns.spec_path() is None && ns.spec_kind() == NamespaceKind::User ==> ns.spec_clone_flags() == 0x10000000i32,
{
}

/// Namespaces of two different kinds never ask for the same `clone` flag.
pub proof fn lemma_clone_flags_distinct(a: NamespaceKind, b: NamespaceKind)
    ensures
        a != b ==> a.spec_clone_flag() != b.spec_clone_flag(),
{
}

/// The `clone` flags of a list of namespaces hold the flag of each new
/// namespace in it, and no flag of a kind that no new namespace in it has.
pub proof fn lemma_configs_namespace_flags(s: Seq<Namespace>, k: NamespaceKind)
    ensures
        (exists|i: int| 0 <= i < s.len() && (#[trigger] s[i]).spec_path() is None && s[i].spec_kind() == k)
            <==> configs_flags(s) & k.spec_clone_flag() == k.spec_clone_flag(),
    decreases s.len(),
{
    let f = k.spec_clone_flag();
    if s.len() == 0 {
        assert(configs_flags(s) == 0);
        assert(0i32 & f == 0) by (bit_vector);
    } else {
        let init = s.drop_last();
        let last = s.last();
        lemma_configs_namespace_flags(init, k);
        let a = configs_flags(init);
        let g = last.spec_clone_flags();
        assert(configs_flags(s) == a | g);
        let p = 0x20000000i32;
        let n = 0x40000000i32;
        let m = 0x20000i32;
        let c = 0x8000000i32;
        let u = 0x4000000i32;
        let r = 0x10000000i32;
        assert(f == p || f == n || f == m || f == c || f == u || f == r);
        assert(g == 0 || g == p || g == n || g == m || g == c || g == u || g == r);
        assert(((a | g) & f == f) <==> ((a & f == f) || (g & f == f))) by (bit_vector)
            requires
                f == p || f == n || f == m || f == c || f == u || f == r,
                g == 0 || g == p || g == n || g == m || g == c || g == u || g == r,
                p == 0x20000000i32,
                n == 0x40000000i32,
                m == 0x20000i32,
                c == 0x8000000i32,
                u == 0x4000000i32,
                r == 0x10000000i32;
        assert((g & f == f) <==> g == f) by (bit_vector)
            requires
                f == p || f == n || f == m || f == c || f == u || f == r,
                g == 0 || g == p || g == n || g == m || g == c || g == u || g == r,
                p == 0x20000000i32,
                n == 0x40000000i32,
                m == 0x20000i32,
                c == 0x8000000i32,
                u == 0x4000000i32,
                r == 0x10000000i32;
        if exists|i: int| 0 <= i < s.len() && (#[trigger] s[i]).spec_path() is None && s[i].spec_kind() == k {
            let i = choose|i: int| 0 <= i < s.len() && (#[trigger] s[i]).spec_path() is None && s[i].spec_kind() == k;
            if i < s.len() - 1 {
                assert(init[i] == s[i]);
            }
        }
        if exists|i: int| 0 <= i < init.len() && (#[trigger] init[i]).spec_path() is None && init[i].spec_kind() == k {
            let i = choose|i: int| 0 <= i < init.len() && (#[trigger] init[i]).spec_path() is None && init[i].spec_kind() == k;
            assert(s[i] == init[i]);
        }
        if g == f {
            assert(s[s.len() - 1] == last);
        }
    }
}

/// Entering a new namespace needs no call but for a mount namespace,
/// whose mounts are then made slaves of the host's, recursively from `/`
/// (`MS_SLAVE | MS_REC`), so that no mount event reaches the host. Joining
/// an existing one opens its file (a failure stops), joins it with no
/// type check (a failure is reported once the file is closed, or for a PID
/// namespace once the fork is done), closes the file (a failure is
/// ignored), and for a PID namespace forks, so that the child lives in it.
pub proof fn lemma_namespace_steps(ns: Namespace)
    ensures
        (ns.spec_path() is None && ns.spec_kind() == NamespaceKind::Mount ==> ns.spec_prepare() == seq![
            step_view(
                CallView::Mount {
                    source: Some(Seq::empty()),
                    target: seq![0x2fu8],
                    fstype: Some(Seq::empty()),
                    flags: 0x84000u64,
                    data: Some(Seq::empty()),
                },
                OnError::Abort,
                false,
            ),
        ]),
        ns.spec_path() is None && ns.spec_kind() != NamespaceKind::Mount ==> ns.spec_prepare().len() == 0,
        (ns.spec_path() matches Some(p) ==> ns.spec_prepare() == seq![
            step_view(CallView::OpenNamespace { path: p }, OnError::Abort, false),
            step_view(CallView::SetNamespace { nstype: 0 }, OnError::Defer, false),
            step_view(CallView::CloseNamespace, OnError::Ignore, ns.spec_kind() != NamespaceKind::PID),
        ] + if ns.spec_kind() == NamespaceKind::PID {
            seq![step_view(CallView::ForkAndReap, OnError::Abort, true)]
        } else {
            Seq::<StepView>::empty()
        }),
{
    reveal_strlit("/");
    assert(ascii_bytes("/"@) =~= seq![0x2fu8]);
    assert(0x80000u64 | 0x4000u64 == 0x84000u64) by (bit_vector);
}

} // verus!
