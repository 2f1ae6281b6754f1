use vstd::prelude::*;

use crate::cbytes::{ascii_bytes, CBytes};
use crate::config::Config;
use crate::into_cow::{cow_bytes, into_cbytes, opt_cow_bytes, opt_into_cbytes, IntoCow};
use crate::flags::{MS_BIND, MS_NODEV, MS_NOEXEC, MS_NOSUID, MS_REMOUNT, MS_STRICTATIME};
use crate::plan::{
    exec_steps, run_plan, Outcome, lemma_settled_no_defer, no_defer, opt_view, plan_view, step_view, CallView, OnError, Step,
    StepView, Syscall,
};

verus! {

/// A mount in the container: a file system, or with `MS_BIND` a directory
/// of the host, at `path`.
#[derive(Debug)]
pub struct Mount {
    path: CBytes,
    source: Option<CBytes>,
    filesystem: Option<CBytes>,
    flags: u64,
    opts: Option<CBytes>,
}

/// An optional ASCII text as bytes.
pub open spec fn opt_ascii(o: Option<Seq<char>>) -> Option<Seq<u8>> {
    match o {
        Some(s) => Some(ascii_bytes(s)),
        None => None,
    }
}

/// Mounting: a cgroup file system is not supported yet, which a notice
/// says;
/// otherwise make the mount point (whether that works or not), mount, and
/// for a bind mount mount again with `MS_REMOUNT`, since the kernel ignores
/// the other flags of a first bind mount.
pub open spec fn mount_plan(
    path: Seq<u8>,
    source: Option<Seq<u8>>,
    filesystem: Option<Seq<u8>>,
    flags: u64,
    opts: Option<Seq<u8>>,
) -> Seq<StepView> {
    if filesystem == Some(ascii_bytes("cgroup"@)) {
        seq![step_view(CallView::Notice { text: "TODO: cgroup mount"@ }, OnError::Ignore, false)]
    } else {
        seq![
            step_view(CallView::MakeDir { path, mode: 0o755 }, OnError::Ignore, false),
            step_view(
                CallView::Mount { source, target: path, fstype: filesystem, flags, data: opts },
                OnError::Abort,
                false,
            ),
        ] + if flags & MS_BIND == MS_BIND {
            seq![
                step_view(
                    CallView::Mount {
                        source,
                        target: path,
                        fstype: filesystem,
                        flags: MS_REMOUNT | flags,
                        data: opts,
                    },
                    OnError::Abort,
                    false,
                ),
            ]
        } else {
            Seq::<StepView>::empty()
        }
    }
}

/// `m` mounts `source` of type `filesystem` at `path` with `flags` and
/// `opts`.
pub open spec fn mount_has(
    m: Mount,
    path: Seq<u8>,
    source: Option<Seq<u8>>,
    filesystem: Option<Seq<u8>>,
    flags: u64,
    opts: Option<Seq<u8>>,
) -> bool {
    &&& m.spec_path() == path
    &&& m.spec_source() == source
    &&& m.spec_filesystem() == filesystem
    &&& m.spec_flags() == flags
    &&& m.spec_opts() == opts
}

/// `m` mounts `source` of type `filesystem` at `path` with `flags` and
/// `opts`, each text given as ASCII.
pub open spec fn mount_is(
    m: Mount,
    path: Seq<char>,
    source: Option<Seq<char>>,
    filesystem: Option<Seq<char>>,
    flags: u64,
    opts: Option<Seq<char>>,
) -> bool {
    mount_has(m, ascii_bytes(path), opt_ascii(source), opt_ascii(filesystem), flags, opt_ascii(opts))
}

fn dup_opt(o: &Option<CBytes>) -> (r: Option<CBytes>)
    ensures
        opt_view(r) == opt_view(*o),
{
    match o {
        Some(c) => Some(c.duplicate()),
        None => None,
    }
}

impl Mount {
    pub closed spec fn spec_path(&self) -> Seq<u8> {
        self.path@
    }

    pub closed spec fn spec_source(&self) -> Option<Seq<u8>> {
        opt_view(self.source)
    }

    pub closed spec fn spec_filesystem(&self) -> Option<Seq<u8>> {
        opt_view(self.filesystem)
    }

    pub closed spec fn spec_flags(&self) -> u64 {
        self.flags
    }

    pub closed spec fn spec_opts(&self) -> Option<Seq<u8>> {
        opt_view(self.opts)
    }

    pub fn new<
        'a,
        P: IntoCow<'a, CBytes>,
        S: IntoCow<'a, CBytes>,
        FS: IntoCow<'a, CBytes>,
        O: IntoCow<'a, CBytes>,
    >(path: P, source: Option<S>, filesystem: Option<FS>, flags: u64, opts: Option<O>) -> (r: Mount)
        ensures
            r.spec_path() == cow_bytes(path),
            r.spec_source() == opt_cow_bytes(source),
            r.spec_filesystem() == opt_cow_bytes(filesystem),
            r.spec_flags() == flags,
            r.spec_opts() == opt_cow_bytes(opts),
    {
        Mount {
            path: into_cbytes(path),
            source: opt_into_cbytes(source),
            filesystem: opt_into_cbytes(filesystem),
            flags,
            opts: opt_into_cbytes(opts),
        }
    }

    /// A bind mount of `source` at `path`: no file system type, no options.
    pub fn from_bind<'a, P: IntoCow<'a, CBytes>, S: IntoCow<'a, CBytes>>(path: P, source: S, flags: u64) -> (r: Mount)
        ensures
            r.spec_path() == cow_bytes(path),
            r.spec_source() == Some(cow_bytes(source)),
            r.spec_filesystem() == None::<Seq<u8>>,
            r.spec_flags() == flags,
            r.spec_opts() == None::<Seq<u8>>,
    {
        Mount {
            path: into_cbytes(path),
            source: Some(into_cbytes(source)),
            filesystem: None,
            flags,
            opts: None,
        }
    }
}

impl Config for Mount {
    open spec fn spec_clone_flags(&self) -> i32 {
        0
    }

    open spec fn spec_prepare(&self) -> Seq<StepView> {
        mount_plan(
            self.spec_path(),
            self.spec_source(),
            self.spec_filesystem(),
            self.spec_flags(),
            self.spec_opts(),
        )
    }

    proof fn lemma_prepare_settled(&self) {
        assert(no_defer(self.spec_prepare()));
        lemma_settled_no_defer(self.spec_prepare());
    }

    fn clone_flags(&self) -> (r: i32) {
        0
    }

    fn prepare(&self) -> (r: Vec<Step>) {
        proof {
            reveal_strlit("cgroup");
        }
        let cgroup = CBytes::from_ascii("cgroup");
        let is_cgroup = match &self.filesystem {
            Some(fs) => fs.eq_bytes(cgroup.as_bytes()),
            None => false,
        };
        if is_cgroup {
            let steps: Vec<Step> = vec![
                Step {
                    call: Syscall::Notice { text: "TODO: cgroup mount".to_owned() },
                    on_error: OnError::Ignore,
                    settle: false,
                },
            ];
            assert(plan_view(steps@) =~= self.spec_prepare());
            return steps;
        }
        let mut steps: Vec<Step> = vec![
            Step {
                call: Syscall::MakeDir { path: self.path.duplicate(), mode: 0o755 },
                on_error: OnError::Ignore,
                settle: false,
            },
            Step {
                call: Syscall::Mount {
                    source: dup_opt(&self.source),
                    target: self.path.duplicate(),
                    fstype: dup_opt(&self.filesystem),
                    flags: self.flags,
                    data: dup_opt(&self.opts),
                },
                on_error: OnError::Abort,
                settle: false,
            },
        ];
        if self.flags & MS_BIND == MS_BIND {
            steps.push(
                Step {
                    call: Syscall::Mount {
                        source: dup_opt(&self.source),
                        target: self.path.duplicate(),
                        fstype: dup_opt(&self.filesystem),
                        flags: MS_REMOUNT | self.flags,
                        data: dup_opt(&self.opts),
                    },
                    on_error: OnError::Abort,
                    settle: false,
                },
            );
        }
        assert(plan_view(steps@) =~= self.spec_prepare());
        steps
    }
}

/// The file systems of `default_mounts`, in order.
pub open spec fn is_default_mounts(s: Seq<Mount>) -> bool {
    &&& s.len() == 7
    &&& mount_is(s[0], "/proc"@, Some("proc"@), Some("proc"@), 0, None)
    &&& mount_is(
        s[1],
        "/dev"@,
        Some("tmpfs"@),
        Some("tmpfs"@),
        MS_STRICTATIME | MS_NOSUID,
        Some("mode=755,size=65536k"@),
    )
    &&& mount_is(
        s[2],
        "/dev/pts"@,
        Some("devpts"@),
        Some("devpts"@),
        MS_NOEXEC | MS_NOSUID,
        Some("newinstance,ptmxmode=0666,mode=0620,gid=5"@),
    )
    &&& mount_is(
        s[3],
        "/dev/mqueue"@,
        Some("mqueue"@),
        Some("mqueue"@),
        MS_NOEXEC | MS_NOSUID | MS_NODEV,
        None,
    )
    &&& mount_is(
        s[4],
        "/dev/shm"@,
        Some("shm"@),
        Some("tmpfs"@),
        MS_NOEXEC | MS_NOSUID | MS_NODEV,
        Some("mode=1777,size=65536k"@),
    )
    &&& mount_is(
        s[5],
        "/sys"@,
        Some("sysfs"@),
        Some("sysfs"@),
        MS_NOEXEC | MS_NOSUID | MS_NODEV,
        None,
    )
    &&& mount_is(s[6], "/tmp"@, Some("tmpfs"@), Some("tmpfs"@), 0, None)
}

/// The file systems every container gets: `/proc`, a `tmpfs` on `/dev`,
/// `/dev/pts`, `/dev/mqueue`, `/dev/shm`, `/sys` and `/tmp`.
pub fn default_mounts() -> (r: Vec<Mount>)
    ensures
        r@.len() == 7,
        mount_is(r@[0], "/proc"@, Some("proc"@), Some("proc"@), 0, None),
        mount_is(
            r@[1],
            "/dev"@,
            Some("tmpfs"@),
            Some("tmpfs"@),
            MS_STRICTATIME | MS_NOSUID,
            Some("mode=755,size=65536k"@),
        ),
        mount_is(
            r@[2],
            "/dev/pts"@,
            Some("devpts"@),
            Some("devpts"@),
            MS_NOEXEC | MS_NOSUID,
            Some("newinstance,ptmxmode=0666,mode=0620,gid=5"@),
        ),
        mount_is(
            r@[3],
            "/dev/mqueue"@,
            Some("mqueue"@),
            Some("mqueue"@),
            MS_NOEXEC | MS_NOSUID | MS_NODEV,
            None,
        ),
        mount_is(
            r@[4],
            "/dev/shm"@,
            Some("shm"@),
            Some("tmpfs"@),
            MS_NOEXEC | MS_NOSUID | MS_NODEV,
            Some("mode=1777,size=65536k"@),
        ),
        mount_is(
            r@[5],
            "/sys"@,
            Some("sysfs"@),
            Some("sysfs"@),
            MS_NOEXEC | MS_NOSUID | MS_NODEV,
            None,
        ),
        mount_is(r@[6], "/tmp"@, Some("tmpfs"@), Some("tmpfs"@), 0, None),
{
    proof {
        reveal_strlit("/proc");
        reveal_strlit("proc");
        reveal_strlit("/dev");
        reveal_strlit("tmpfs");
        reveal_strlit("mode=755,size=65536k");
        reveal_strlit("/dev/pts");
        reveal_strlit("devpts");
        reveal_strlit("newinstance,ptmxmode=0666,mode=0620,gid=5");
        reveal_strlit("/dev/mqueue");
        reveal_strlit("mqueue");
        reveal_strlit("/dev/shm");
        reveal_strlit("shm");
        reveal_strlit("mode=1777,size=65536k");
        reveal_strlit("/sys");
        reveal_strlit("sysfs");
        reveal_strlit("/tmp");
    }
    vec![
        Mount::new(
            CBytes::from_ascii("/proc"),
            Some(CBytes::from_ascii("proc")),
            Some(CBytes::from_ascii("proc")),
            0,
            None::<CBytes>,
        ),
        Mount::new(
            CBytes::from_ascii("/dev"),
            Some(CBytes::from_ascii("tmpfs")),
            Some(CBytes::from_ascii("tmpfs")),
            MS_STRICTATIME | MS_NOSUID,
            Some(CBytes::from_ascii("mode=755,size=65536k")),
        ),
        Mount::new(
            CBytes::from_ascii("/dev/pts"),
            Some(CBytes::from_ascii("devpts")),
            Some(CBytes::from_ascii("devpts")),
            MS_NOEXEC | MS_NOSUID,
            Some(CBytes::from_ascii("newinstance,ptmxmode=0666,mode=0620,gid=5")),
        ),
        Mount::new(
            CBytes::from_ascii("/dev/mqueue"),
            Some(CBytes::from_ascii("mqueue")),
            Some(CBytes::from_ascii("mqueue")),
            MS_NOEXEC | MS_NOSUID | MS_NODEV,
            None::<CBytes>,
        ),
        Mount::new(
            CBytes::from_ascii("/dev/shm"),
            Some(CBytes::from_ascii("shm")),
            Some(CBytes::from_ascii("tmpfs")),
            MS_NOEXEC | MS_NOSUID | MS_NODEV,
            Some(CBytes::from_ascii("mode=1777,size=65536k")),
        ),
        Mount::new(
            CBytes::from_ascii("/sys"),
            Some(CBytes::from_ascii("sysfs")),
            Some(CBytes::from_ascii("sysfs")),
            MS_NOEXEC | MS_NOSUID | MS_NODEV,
            None::<CBytes>,
        ),
        Mount::new(
            CBytes::from_ascii("/tmp"),
            Some(CBytes::from_ascii("tmpfs")),
            Some(CBytes::from_ascii("tmpfs")),
            0,
            None::<CBytes>,
        ),
    ]
}

/// Mounting fails with the error of the mount, else, for a bind mount,
/// with that of the remount; making the mount point cannot fail it.
pub proof fn lemma_mount_result(
    path: Seq<u8>,
    source: Option<Seq<u8>>,
    filesystem: Option<Seq<u8>>,
    flags: u64,
    opts: Option<Seq<u8>>,
    outs: Seq<Outcome>,
)
    requires
        filesystem != Some(ascii_bytes("cgroup"@)),
        outs.len() == mount_plan(path, source, filesystem, flags, opts).len(),
    ensures
        run_plan(mount_plan(path, source, filesystem, flags, opts), outs) == if outs[1] is Failed {
            Err(outs[1]->0)
        } else if flags & MS_BIND == MS_BIND && outs[2] is Failed {
            Err(outs[2]->0)
        } else {
            Ok(())
        },
{
    let p = mount_plan(path, source, filesystem, flags, opts);
    reveal_with_fuel(exec_steps, 4);
    assert(p.drop_first()[0] == p[1]);
    assert(outs.drop_first()[0] == outs[1]);
    if flags & MS_BIND == MS_BIND {
        assert(p.drop_first().drop_first()[0] == p[2]);
        assert(outs.drop_first().drop_first()[0] == outs[2]);
        assert(p.drop_first().drop_first().drop_first().len() == 0);
    } else {
        assert(p.drop_first().drop_first().len() == 0);
    }
}

/// Preparing a mount other than a cgroup file system makes the mount point
/// with mode 0755, whether that works or not, then mounts; a bind mount
/// (flag `MS_BIND`) is mounted again with `MS_REMOUNT` added to its flags.
/// A cgroup file system only gets a notice.
pub proof fn lemma_mount_steps(m: Mount)
    ensures
        (m.spec_filesystem() == Some(ascii_bytes("cgroup"@)) ==> m.spec_prepare() == seq![
            step_view(CallView::Notice { text: "TODO: cgroup mount"@ }, OnError::Ignore, false),
        ]),
        (m.spec_filesystem() != Some(ascii_bytes("cgroup"@)) ==> {
            let p = m.spec_prepare();
            &&& p.len() == if m.spec_flags() & 0x1000 != 0 { 3int } else { 2int }
            &&& p[0] == step_view(
                CallView::MakeDir { path: m.spec_path(), mode: 0o755 },
                OnError::Ignore,
                false,
            )
            &&& p[1] == step_view(
                CallView::Mount {
                    source: m.spec_source(),
                    target: m.spec_path(),
                    fstype: m.spec_filesystem(),
                    flags: m.spec_flags(),
                    data: m.spec_opts(),
                },
                OnError::Abort,
                false,
            )
            &&& m.spec_flags() & 0x1000 != 0 ==> p[2] == step_view(
                CallView::Mount {
                    source: m.spec_source(),
                    target: m.spec_path(),
                    fstype: m.spec_filesystem(),
                    flags: m.spec_flags() | 0x20,
                    data: m.spec_opts(),
                },
                OnError::Abort,
                false,
            )
        }),
{
    let f = m.spec_flags();
    assert((f & 0x1000u64 == 0x1000u64) <==> (f & 0x1000u64 != 0)) by (bit_vector);
    assert(0x20u64 | f == f | 0x20u64) by (bit_vector);
    if m.spec_filesystem() != Some(ascii_bytes("cgroup"@)) {
        let p = m.spec_prepare();
        let a = seq![
            step_view(CallView::MakeDir { path: m.spec_path(), mode: 0o755 }, OnError::Ignore, false),
            step_view(
                CallView::Mount {
                    source: m.spec_source(),
                    target: m.spec_path(),
                    fstype: m.spec_filesystem(),
                    flags: f,
                    data: m.spec_opts(),
                },
                OnError::Abort,
                false,
            ),
        ];
        assert(p[0] == a[0]);
        assert(p[1] == a[1]);
    }
}

} // verus!
