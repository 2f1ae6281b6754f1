use vstd::prelude::*;

use crate::cbytes::{ascii_bytes, CBytes};
use crate::into_cow::{cow_bytes, into_cbytes, IntoCow};

verus! {

/// The views of a list of C strings.
pub open spec fn cbytes_views(v: Seq<CBytes>) -> Seq<Seq<u8>> {
    v.map_values(|c: CBytes| c@)
}

/// `s` begins with `prefix`.
pub open spec fn starts_with(s: Seq<u8>, prefix: Seq<u8>) -> bool {
    prefix.len() <= s.len() && s.take(prefix.len() as int) == prefix
}

/// Whether `s` begins with `prefix`.
pub fn bytes_start_with(s: &[u8], prefix: &[u8]) -> (r: bool)
    ensures
        r == starts_with(s@, prefix@),
{
    let n: usize = prefix.len();
    if n > s.len() {
        return false;
    }
    let mut i: usize = 0;
    while i < n
        invariant
            n == prefix@.len(),
            n <= s@.len(),
            i <= n,
            forall|j: int| 0 <= j < i ==> s@[j] == prefix@[j],
        decreases n - i,
    {
        if s[i] != prefix[i] {
            assert(s@.take(n as int)[i as int] != prefix@[i as int]);
            return false;
        }
        i = i + 1;
    }
    assert(s@.take(n as int) =~= prefix@);
    true
}

/// The `PATH` variable a command is looked up with: the first entry of
/// `env` that sets `PATH`, else `PATH=/bin:/usr/bin`.
pub open spec fn path_variable_of(env: Seq<Seq<u8>>) -> Seq<u8>
    decreases env.len(),
{
    if env.len() == 0 {
        ascii_bytes("PATH=/bin:/usr/bin"@)
    } else if starts_with(env[0], ascii_bytes("PATH="@)) {
        env[0]
    } else {
        path_variable_of(env.drop_first())
    }
}

/// A command is looked up with the first entry of its environment that
/// sets `PATH`, exactly as given; where none does, with `PATH=/bin:/usr/bin`.
pub proof fn lemma_path_variable(env: Seq<Seq<u8>>)
    ensures
        forall|i: int|
            0 <= i < env.len() && starts_with(#[trigger] env[i], ascii_bytes("PATH="@)) && (forall|j: int|
                0 <= j < i ==> !starts_with(#[trigger] env[j], ascii_bytes("PATH="@)))
                ==> path_variable_of(env) == env[i],
        (forall|j: int| 0 <= j < env.len() ==> !starts_with(#[trigger] env[j], ascii_bytes("PATH="@)))
            ==> path_variable_of(env) == ascii_bytes("PATH=/bin:/usr/bin"@),
    decreases env.len(),
{
    if env.len() > 0 {
        let rest = env.drop_first();
        lemma_path_variable(rest);
        assert forall|i: int|
            0 <= i < env.len() && starts_with(#[trigger] env[i], ascii_bytes("PATH="@)) && (forall|j: int|
                0 <= j < i ==> !starts_with(#[trigger] env[j], ascii_bytes("PATH="@)))
                implies path_variable_of(env) == env[i] by {
            if i > 0 {
                assert(!starts_with(env[0], ascii_bytes("PATH="@)));
                assert(rest[i - 1] == env[i]);
                assert forall|j: int| 0 <= j < i - 1 implies !starts_with(#[trigger] rest[j], ascii_bytes("PATH="@)) by {
                    assert(rest[j] == env[j + 1]);
                }
            }
        }
        if forall|j: int| 0 <= j < env.len() ==> !starts_with(#[trigger] env[j], ascii_bytes("PATH="@)) {
            assert(!starts_with(env[0], ascii_bytes("PATH="@)));
            assert forall|j: int| 0 <= j < rest.len() implies !starts_with(#[trigger] rest[j], ascii_bytes("PATH="@)) by {
                assert(rest[j] == env[j + 1]);
            }
        }
    }
}

/// The command a container runs: the program, its arguments (the first
/// being the program's name) and its environment.
#[derive(Debug)]
pub struct Command {
    cmd: CBytes,
    args: Vec<CBytes>,
    env: Vec<CBytes>,
}

impl Command {
    pub closed spec fn spec_cmd(&self) -> Seq<u8> {
        self.cmd@
    }

    pub closed spec fn spec_args(&self) -> Seq<Seq<u8>> {
        cbytes_views(self.args@)
    }

    pub closed spec fn spec_env(&self) -> Seq<Seq<u8>> {
        cbytes_views(self.env@)
    }

    pub fn new<'a, C: IntoCow<'a, CBytes>>(cmd: C, args: Vec<CBytes>, env: Vec<CBytes>) -> (r: Command)
        ensures
            r.spec_cmd() == cow_bytes(cmd),
            r.spec_args() == cbytes_views(args@),
            r.spec_env() == cbytes_views(env@),
    {
        Command { cmd: into_cbytes(cmd), args, env }
    }

    pub fn cmd(&self) -> (r: &CBytes)
        ensures
            r@ == self.spec_cmd(),
    {
        &self.cmd
    }

    pub fn args(&self) -> (r: &Vec<CBytes>)
        ensures
            cbytes_views(r@) == self.spec_args(),
    {
        &self.args
    }

    pub fn env(&self) -> (r: &Vec<CBytes>)
        ensures
            cbytes_views(r@) == self.spec_env(),
    {
        &self.env
    }

    /// The `PATH` entry that is put in the environment before the program
    /// is looked up and run.
    pub fn path_variable(&self) -> (r: CBytes)
        ensures
            r@ == path_variable_of(self.spec_env()),
    {
        proof {
            reveal_strlit("PATH=");
            reveal_strlit("PATH=/bin:/usr/bin");
        }
        let prefix = CBytes::from_ascii("PATH=");
        let n: usize = self.env.len();
        let mut i: usize = 0;
        assert(self.spec_env().skip(0) =~= self.spec_env());
        while i < n
            invariant
                n == self.env@.len(),
                i <= n,
                prefix@ == ascii_bytes("PATH="@),
                path_variable_of(self.spec_env()) == path_variable_of(self.spec_env().skip(i as int)),
            decreases n - i,
        {
            let e = &self.env[i];
            assert(self.spec_env().skip(i as int)[0] == e@);
            assert(self.spec_env().skip(i as int).drop_first() =~= self.spec_env().skip(i + 1));
            if bytes_start_with(e.as_bytes(), prefix.as_bytes()) {
                return e.duplicate();
            }
            i = i + 1;
        }
        assert(self.spec_env().skip(n as int) =~= Seq::<Seq<u8>>::empty());
        CBytes::from_ascii("PATH=/bin:/usr/bin")
    }
}

} // verus!
