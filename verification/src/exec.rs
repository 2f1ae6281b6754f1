use vstd::prelude::*;

use crate::cbytes::{is_first_nul, CBytes, NulError};
use crate::cli::{
    bind_texts, command_args, exec_namespaces, first_with_nul, is_exec_namespaces,
    lemma_first_with_nul_concat, lemma_mount_bind_texts, mount_bind, mount_bind_spec, vec_views,
    MountArg,
};
use crate::command::cbytes_views;
use crate::config::{configs_flags, configs_plan, Config, Configs};
use crate::device::{default_devices, is_default_devices, Device};
use crate::link::{default_symlinks, is_default_symlinks, Symlink};
use crate::mount::{default_mounts, is_default_mounts, Mount};
use crate::namespace::Namespace;
use crate::plan::{lemma_settled_concat, Step, StepView};
use crate::root::{root_plan, Root};

verus! {

/// The configuration a command runs in from the command line, prepared in
/// this order: the namespaces, the bind mounts, the root, the standard file
/// systems, the standard links and the standard devices.
pub struct ExecConfig {
    pub namespaces: Configs<Namespace>,
    pub mounts: Configs<Mount>,
    pub root: Root,
    pub default_mounts: Configs<Mount>,
    pub symlinks: Configs<Symlink>,
    pub devices: Configs<Device>,
}

impl ExecConfig {
    /// The configuration with these namespaces, bind mounts and root, and
    /// the standard file systems, links and devices.
    pub fn new(namespaces: Vec<Namespace>, mounts: Vec<Mount>, root: Root) -> (r: ExecConfig)
        ensures
            r.namespaces.items() == namespaces@,
            r.mounts.items() == mounts@,
            r.root == root,
            is_default_mounts(r.default_mounts.items()),
            is_default_symlinks(r.symlinks.items()),
            is_default_devices(r.devices.items()),
            r.spec_prepare() == configs_plan(namespaces@) + configs_plan(mounts@)
                + root.spec_prepare() + configs_plan(r.default_mounts.items())
                + configs_plan(r.symlinks.items()) + configs_plan(r.devices.items()),
            r.spec_clone_flags() == configs_flags(namespaces@) | configs_flags(mounts@)
                | root.spec_clone_flags() | configs_flags(r.default_mounts.items())
                | configs_flags(r.symlinks.items()) | configs_flags(r.devices.items()),
    {
        ExecConfig {
            namespaces: Configs::new(namespaces),
            mounts: Configs::new(mounts),
            root,
            default_mounts: Configs::new(default_mounts()),
            symlinks: Configs::new(default_symlinks()),
            devices: Configs::new(default_devices()),
        }
    }
}

impl Config for ExecConfig {
    open spec fn spec_clone_flags(&self) -> i32 {
        self.namespaces.spec_clone_flags() | self.mounts.spec_clone_flags()
            | self.root.spec_clone_flags() | self.default_mounts.spec_clone_flags()
            | self.symlinks.spec_clone_flags() | self.devices.spec_clone_flags()
    }

    open spec fn spec_prepare(&self) -> Seq<StepView> {
        self.namespaces.spec_prepare() + self.mounts.spec_prepare() + self.root.spec_prepare()
            + self.default_mounts.spec_prepare() + self.symlinks.spec_prepare()
            + self.devices.spec_prepare()
    }

    proof fn lemma_prepare_settled(&self) {
        self.namespaces.lemma_prepare_settled();
        self.mounts.lemma_prepare_settled();
        self.root.lemma_prepare_settled();
        self.default_mounts.lemma_prepare_settled();
        self.symlinks.lemma_prepare_settled();
        self.devices.lemma_prepare_settled();
        let a = self.namespaces.spec_prepare();
        let b = self.mounts.spec_prepare();
        let c = self.root.spec_prepare();
        let d = self.default_mounts.spec_prepare();
        let e = self.symlinks.spec_prepare();
        let f = self.devices.spec_prepare();
        lemma_settled_concat(a, b);
        lemma_settled_concat(a + b, c);
        lemma_settled_concat(a + b + c, d);
        lemma_settled_concat(a + b + c + d, e);
        lemma_settled_concat(a + b + c + d + e, f);
    }

    fn clone_flags(&self) -> (r: i32) {
        self.namespaces.clone_flags() | self.mounts.clone_flags() | self.root.clone_flags()
            | self.default_mounts.clone_flags() | self.symlinks.clone_flags()
            | self.devices.clone_flags()
    }

    fn prepare(&self) -> (r: Vec<Step>) {
        let mut steps = self.namespaces.prepare();
        let mut more = self.mounts.prepare();
        steps.append(&mut more);
        let mut more = self.root.prepare();
        steps.append(&mut more);
        let mut more = self.default_mounts.prepare();
        steps.append(&mut more);
        let mut more = self.symlinks.prepare();
        steps.append(&mut more);
        let mut more = self.devices.prepare();
        steps.append(&mut more);
        steps
    }
}

/// A command-line configuration is prepared in this order: its namespaces
/// are entered, its bind mounts made, the root changed to and the working
/// directory set, then the standard file systems mounted, the standard
/// links made and the standard devices made, all inside the new root.
pub proof fn lemma_exec_config_plan(cfg: ExecConfig)
    ensures
        cfg.spec_prepare() == configs_plan(cfg.namespaces.items()) + configs_plan(cfg.mounts.items())
            + root_plan(cfg.root.spec_chroot(), cfg.root.spec_cwd()) + configs_plan(
            cfg.default_mounts.items(),
        ) + configs_plan(cfg.symlinks.items()) + configs_plan(cfg.devices.items()),
{
}

/// The texts that the mounts of `binds`, each placed under `join`, turn
/// into C strings, in order.
pub open spec fn binds_texts(binds: Seq<MountArg>, join: Option<Seq<u8>>) -> Seq<Seq<u8>>
    decreases binds.len(),
{
    if binds.len() == 0 {
        Seq::empty()
    } else {
        binds_texts(binds.drop_last(), join) + bind_texts(
            binds.last().spec_mounts(),
            binds.last().spec_options(),
            join,
        )
    }
}

/// The texts of two lists of arguments are those of the first, then those
/// of the second.
pub proof fn lemma_binds_texts_concat(a: Seq<MountArg>, b: Seq<MountArg>, join: Option<Seq<u8>>)
    ensures
        binds_texts(a + b, join) == binds_texts(a, join) + binds_texts(b, join),
    decreases b.len(),
{
    if b.len() == 0 {
        assert(a + b =~= a);
        assert(binds_texts(a, join) + Seq::<Seq<u8>>::empty() =~= binds_texts(a, join));
    } else {
        assert((a + b).drop_last() =~= a + b.drop_last());
        assert((a + b).last() == b.last());
        lemma_binds_texts_concat(a, b.drop_last(), join);
        let t = bind_texts(b.last().spec_mounts(), b.last().spec_options(), join);
        assert(binds_texts(a, join) + binds_texts(b.drop_last(), join) + t =~= binds_texts(a, join)
            + (binds_texts(b.drop_last(), join) + t));
    }
}

/// The texts that a command-line run turns into C strings, in order: the
/// working directory, those of the root argument's mount, those of each
/// bind mount under the root, the root, the command, and the command and
/// its arguments as its argument list.
pub open spec fn exec_texts(
    root: MountArg,
    binds: Seq<MountArg>,
    root_path: Seq<u8>,
    cwd: Seq<u8>,
    cmd: Seq<u8>,
    args: Seq<Seq<u8>>,
) -> Seq<Seq<u8>> {
    seq![cwd] + bind_texts(root.spec_mounts(), root.spec_options(), None) + binds_texts(
        binds,
        Some(root_path),
    ) + seq![root_path] + (seq![cmd] + args)
}

/// The configuration of a command-line run and the C strings of its
/// command and argument list: the root argument mounted in place, each
/// bind mount under `root_path`, which becomes the root with the working
/// directory `cwd`; or the error on the first text that is not a C string.
pub fn exec_plan(
    root: &MountArg,
    binds: &Vec<MountArg>,
    root_path: &[u8],
    cwd: &[u8],
    cmd: &[u8],
    args: &Vec<Vec<u8>>,
) -> (r: Result<(ExecConfig, CBytes, Vec<CBytes>), NulError>)
    requires
        root.mounts@.len() > 0,
        forall|i: int| 0 <= i < binds@.len() ==> (#[trigger] binds@[i]).mounts@.len() > 0,
    ensures
        match r {
            Ok((cfg, c, v)) => {
                &&& first_with_nul(exec_texts(*root, binds@, root_path@, cwd@, cmd@, vec_views(args@))) is None
                &&& is_exec_namespaces(cfg.namespaces.items())
                &&& cfg.mounts.items().len() == binds@.len() + 1
                &&& mount_bind_spec(root.spec_mounts(), root.spec_options(), None, Ok(cfg.mounts.items()[0]))
                &&& forall|i: int| 0 <= i < binds@.len() ==> mount_bind_spec(
                    (#[trigger] binds@[i]).spec_mounts(),
                    binds@[i].spec_options(),
                    Some(root_path@),
                    Ok(cfg.mounts.items()[i + 1]),
                )
                &&& cfg.root.spec_chroot() == root_path@
                &&& cfg.root.spec_cwd() == cwd@
                &&& is_default_mounts(cfg.default_mounts.items())
                &&& is_default_symlinks(cfg.symlinks.items())
                &&& is_default_devices(cfg.devices.items())
                &&& c@ == cmd@
                &&& cbytes_views(v@) == seq![cmd@] + vec_views(args@)
            },
            Err(e) => first_with_nul(exec_texts(*root, binds@, root_path@, cwd@, cmd@, vec_views(args@)))
                == Some(e.bytes@) && is_first_nul(e.bytes@, e.position as int),
        },
{
    let ghost join = Some(root_path@);
    let ghost tail = seq![root_path@] + (seq![cmd@] + vec_views(args@));
    let ghost all = exec_texts(*root, binds@, root_path@, cwd@, cmd@, vec_views(args@));
    let ghost root_texts = bind_texts(root.spec_mounts(), root.spec_options(), None);
    proof {
        assert(all =~= seq![cwd@] + (root_texts + (binds_texts(binds@, join) + tail)));
        lemma_first_with_nul_concat(seq![cwd@], root_texts + (binds_texts(binds@, join) + tail));
        lemma_first_with_nul_concat(root_texts, binds_texts(binds@, join) + tail);
        assert(seq![cwd@].drop_first() =~= Seq::<Seq<u8>>::empty());
        assert(first_with_nul(Seq::<Seq<u8>>::empty()) is None);
    }
    let cwd_c = match CBytes::from_slice(cwd) {
        Ok(c) => c,
        Err(e) => return Err(e),
    };
    let first = mount_bind(root, None);
    proof {
        lemma_mount_bind_texts(root.spec_mounts(), root.spec_options(), None, first);
    }
    let mut mounts: Vec<Mount> = match first {
        Ok(m) => vec![m],
        Err(e) => return Err(e),
    };
    let n: usize = binds.len();
    let mut i: usize = 0;
    proof {
        assert(binds@.skip(0) =~= binds@);
    }
    while i < n
        invariant
            n == binds@.len(),
            i <= n,
            forall|j: int| 0 <= j < binds@.len() ==> (#[trigger] binds@[j]).mounts@.len() > 0,
            join == Some(root_path@),
            all == exec_texts(*root, binds@, root_path@, cwd@, cmd@, vec_views(args@)),
            tail == seq![root_path@] + (seq![cmd@] + vec_views(args@)),
            first_with_nul(all) == first_with_nul(binds_texts(binds@.skip(i as int), join) + tail),
            mounts@.len() == i + 1,
            mount_bind_spec(root.spec_mounts(), root.spec_options(), None, Ok(mounts@[0])),
            forall|j: int| 0 <= j < i ==> mount_bind_spec(
                (#[trigger] binds@[j]).spec_mounts(),
                binds@[j].spec_options(),
                join,
                Ok(mounts@[j + 1]),
            ),
        decreases n - i,
    {
        let ghost b = binds@[i as int];
        let ghost bt = bind_texts(b.spec_mounts(), b.spec_options(), join);
        proof {
            assert(binds@.skip(i as int) =~= seq![b] + binds@.skip(i + 1));
            lemma_binds_texts_concat(seq![b], binds@.skip(i + 1), join);
            assert(seq![b].drop_last() =~= Seq::<MountArg>::empty());
            assert(seq![b].last() == b);
            assert(binds_texts(Seq::<MountArg>::empty(), join) =~= Seq::<Seq<u8>>::empty());
            assert(Seq::<Seq<u8>>::empty() + bt =~= bt);
            assert(binds_texts(seq![b], join) =~= bt);
            assert(binds_texts(binds@.skip(i as int), join) + tail =~= bt + (binds_texts(
                binds@.skip(i + 1),
                join,
            ) + tail));
            lemma_first_with_nul_concat(bt, binds_texts(binds@.skip(i + 1), join) + tail);
        }
        let m = mount_bind(&binds[i], Some(root_path));
        proof {
            lemma_mount_bind_texts(b.spec_mounts(), b.spec_options(), join, m);
        }
        match m {
            Ok(m) => mounts.push(m),
            Err(e) => return Err(e),
        }
        i = i + 1;
    }
    proof {
        assert(binds@.skip(n as int) =~= Seq::<MountArg>::empty());
        assert(binds_texts(Seq::<MountArg>::empty(), join) + tail =~= tail);
        lemma_first_with_nul_concat(seq![root_path@], seq![cmd@] + vec_views(args@));
        assert(seq![root_path@].drop_first() =~= Seq::<Seq<u8>>::empty());
    }
    let root_c = match CBytes::from_slice(root_path) {
        Ok(c) => c,
        Err(e) => return Err(e),
    };
    proof {
        assert(seq![root_path@][0] == root_path@);
        assert(first_with_nul(seq![root_path@].drop_first()) is None);
        assert(first_with_nul(seq![root_path@]) is None);
    }
    let (c, v) = match command_args(cmd, args) {
        Ok(p) => p,
        Err(e) => return Err(e),
    };
    let cfg = ExecConfig::new(exec_namespaces(), mounts, Root::new(root_c, cwd_c));
    Ok((cfg, c, v))
}

} // verus!
