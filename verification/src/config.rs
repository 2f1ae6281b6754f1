use vstd::prelude::*;

use crate::plan::{and_then, lemma_run_concat, lemma_settled_concat, plan_view, run_plan, settled, Outcome, Step, StepView};

verus! {

/// A part of a container's configuration: the namespace flags its process
/// is cloned with, and the system calls that prepare it inside the clone.
pub trait Config: Sized {
    /// The namespace flags this part asks `clone` for.
    spec fn spec_clone_flags(&self) -> i32;

    /// The system calls that prepare this part, in order.
    spec fn spec_prepare(&self) -> Seq<StepView>;

    /// Nothing that this part defers stays unreported at its end.
    proof fn lemma_prepare_settled(&self)
        ensures
            settled(self.spec_prepare()),
    ;

    fn clone_flags(&self) -> (r: i32)
        ensures
            r == self.spec_clone_flags(),
    ;

    fn prepare(&self) -> (r: Vec<Step>)
        ensures
            plan_view(r@) == self.spec_prepare(),
    ;

    /// This part followed by `other`.
    fn chain<N>(self, other: N) -> (r: ConfigChain<Self, N>)
        ensures
            r.first() == self,
            r.second() == other,
    {
        ConfigChain(self, other)
    }
}

/// Two parts of a configuration, the first prepared first.
pub struct ConfigChain<A, B>(A, B);

impl<A, B> ConfigChain<A, B> {
    pub closed spec fn first(&self) -> A {
        self.0
    }

    pub closed spec fn second(&self) -> B {
        self.1
    }
}

impl<A: Config, B: Config> Config for ConfigChain<A, B> {
    open spec fn spec_clone_flags(&self) -> i32 {
        self.first().spec_clone_flags() | self.second().spec_clone_flags()
    }

    open spec fn spec_prepare(&self) -> Seq<StepView> {
        self.first().spec_prepare() + self.second().spec_prepare()
    }

    proof fn lemma_prepare_settled(&self) {
        self.0.lemma_prepare_settled();
        self.1.lemma_prepare_settled();
        lemma_settled_concat(self.0.spec_prepare(), self.1.spec_prepare());
    }

    fn clone_flags(&self) -> (r: i32) {
        self.0.clone_flags() | self.1.clone_flags()
    }

    fn prepare(&self) -> (r: Vec<Step>) {
        let mut a = self.0.prepare();
        let mut b = self.1.prepare();
        a.append(&mut b);
        a
    }
}

/// Preparing a chain prepares its first part and, only where that
/// succeeds, its second: whatever the system calls come back with, the
/// chain's result is the first part's result `and_then` the second's.
pub proof fn lemma_chain_prepare<A: Config, B: Config>(
    c: ConfigChain<A, B>,
    o1: Seq<Outcome>,
    o2: Seq<Outcome>,
)
    requires
        o1.len() == c.first().spec_prepare().len(),
    ensures
        run_plan(c.spec_prepare(), o1 + o2) == and_then(
            run_plan(c.first().spec_prepare(), o1),
            run_plan(c.second().spec_prepare(), o2),
        ),
{
    c.first().lemma_prepare_settled();
    lemma_run_concat(c.first().spec_prepare(), c.second().spec_prepare(), o1, o2);
}

/// A part prepared through a reference to it.
impl<'a, C: Config> Config for &'a C {
    open spec fn spec_clone_flags(&self) -> i32 {
        (**self).spec_clone_flags()
    }

    open spec fn spec_prepare(&self) -> Seq<StepView> {
        (**self).spec_prepare()
    }

    proof fn lemma_prepare_settled(&self) {
        (**self).lemma_prepare_settled();
    }

    fn clone_flags(&self) -> (r: i32) {
        (**self).clone_flags()
    }

    fn prepare(&self) -> (r: Vec<Step>) {
        (**self).prepare()
    }
}

/// An optional part: absent, it asks for no flags and prepares nothing.
impl<C: Config> Config for Option<C> {
    open spec fn spec_clone_flags(&self) -> i32 {
        match self {
            Some(c) => c.spec_clone_flags(),
            None => 0,
        }
    }

    open spec fn spec_prepare(&self) -> Seq<StepView> {
        match self {
            Some(c) => c.spec_prepare(),
            None => Seq::empty(),
        }
    }

    proof fn lemma_prepare_settled(&self) {
        match self {
            Some(c) => c.lemma_prepare_settled(),
            None => {},
        }
    }

    fn clone_flags(&self) -> (r: i32) {
        match self {
            Some(c) => c.clone_flags(),
            None => 0,
        }
    }

    fn prepare(&self) -> (r: Vec<Step>) {
        match self {
            Some(c) => c.prepare(),
            None => Vec::new(),
        }
    }
}

/// The flags of a list of parts: those of each part, or-ed together.
pub open spec fn configs_flags<C: Config>(s: Seq<C>) -> i32
    decreases s.len(),
{
    if s.len() == 0 {
        0
    } else {
        configs_flags(s.drop_last()) | s.last().spec_clone_flags()
    }
}

/// The steps of a list of parts: those of each part, in order.
pub open spec fn configs_plan<C: Config>(s: Seq<C>) -> Seq<StepView>
    decreases s.len(),
{
    if s.len() == 0 {
        Seq::empty()
    } else {
        configs_plan(s.drop_last()) + s.last().spec_prepare()
    }
}

proof fn lemma_configs_plan_settled<C: Config>(s: Seq<C>)
    ensures
        settled(configs_plan(s)),
    decreases s.len(),
{
    if s.len() > 0 {
        lemma_configs_plan_settled(s.drop_last());
        s.last().lemma_prepare_settled();
        lemma_settled_concat(configs_plan(s.drop_last()), s.last().spec_prepare());
    }
}

/// A list of parts of one kind, prepared in order.
pub struct Configs<C>(Vec<C>);

impl<C> Configs<C> {
    pub closed spec fn items(&self) -> Seq<C> {
        self.0@
    }

    pub fn new(configs: Vec<C>) -> (r: Configs<C>)
        ensures
            r.items() == configs@,
    {
        Configs(configs)
    }

    pub fn len(&self) -> (r: usize)
        ensures
            r == self.items().len(),
    {
        self.0.len()
    }
}

impl<C: Config> Config for Configs<C> {
    open spec fn spec_clone_flags(&self) -> i32 {
        configs_flags(self.items())
    }

    open spec fn spec_prepare(&self) -> Seq<StepView> {
        configs_plan(self.items())
    }

    proof fn lemma_prepare_settled(&self) {
        lemma_configs_plan_settled(self.items());
    }

    fn clone_flags(&self) -> (r: i32) {
        let n: usize = self.0.len();
        let mut flags: i32 = 0;
        let mut i: usize = 0;
        while i < n
            invariant
                n == self.items().len(),
                i <= n,
                flags == configs_flags(self.items().take(i as int)),
            decreases n - i,
        {
            proof {
                let t = self.items().take(i + 1);
                assert(t.drop_last() =~= self.items().take(i as int));
                assert(t.last() == self.items()[i as int]);
            }
            flags = flags | self.0[i].clone_flags();
            i = i + 1;
        }
        assert(self.items().take(n as int) =~= self.items());
        flags
    }

    fn prepare(&self) -> (r: Vec<Step>) {
        let n: usize = self.0.len();
        let mut steps: Vec<Step> = Vec::new();
        let mut i: usize = 0;
        assert(self.items().take(0) =~= Seq::<C>::empty());
        while i < n
            invariant
                n == self.items().len(),
                i <= n,
                plan_view(steps@) == configs_plan(self.items().take(i as int)),
            decreases n - i,
        {
            proof {
                let t = self.items().take(i + 1);
                assert(t.drop_last() =~= self.items().take(i as int));
                assert(t.last() == self.items()[i as int]);
            }
            let mut more = self.0[i].prepare();
            steps.append(&mut more);
            i = i + 1;
        }
        assert(self.items().take(n as int) =~= self.items());
        steps
    }
}

/// Preparing a list of parts is a fold: the list with one more part at its
/// end gives the list's result `and_then` that part's.
pub proof fn lemma_configs_prepare_push<C: Config>(s: Seq<C>, c: C, o1: Seq<Outcome>, o2: Seq<Outcome>)
    requires
        o1.len() == configs_plan(s).len(),
    ensures
        run_plan(configs_plan(s.push(c)), o1 + o2) == and_then(
            run_plan(configs_plan(s), o1),
            run_plan(c.spec_prepare(), o2),
        ),
{
    assert(s.push(c).drop_last() =~= s);
    lemma_configs_plan_settled(s);
    lemma_run_concat(configs_plan(s), c.spec_prepare(), o1, o2);
}

/// The flags of a list of parts with one more part at its end are the
/// list's flags or-ed with that part's.
pub proof fn lemma_configs_flags_push<C: Config>(s: Seq<C>, c: C)
    ensures
        configs_flags(s.push(c)) == configs_flags(s) | c.spec_clone_flags(),
{
    assert(s.push(c).drop_last() =~= s);
}

} // verus!
