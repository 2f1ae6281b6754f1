use vstd::prelude::*;
use vstd::utf8::encode_utf8;

use crate::capabilities::{capabilities_plan, Capabilities};
use crate::cbytes::{ascii_bytes, nul_free, CBytes};
use crate::cli::{join_path, join_path_bytes, rootless, strip_slashes};
use crate::command::{cbytes_views, Command};
use crate::config::{configs_plan, Config, Configs};
use crate::device::Device;
use crate::flags::{MODE_BITS, MS_BIND, MS_PRIVATE, MS_RDONLY, MS_SHARED, MS_SLAVE, S_IFBLK, S_IFCHR, S_IFIFO};
use crate::hostname::{hostname_plan, Hostname};
use crate::mount::{mount_has, Mount};
use crate::namespace::{Namespace, NamespaceKind};
use crate::ocf::{
    find_runtime_mount, fold_mount_options, lemma_fold_mount_flags, spec_mount_flag, mount_options, runtime_mount_index, str_eq,
    string_views, Arch, ConfigIssue, OcfDevice, OcfError, OcfFailure, OcfLinux, OcfMountPoint,
    OcfNamespace, OcfProcess, OcfRuntime, OcfRuntimeMount, OcfSpec, Propagation,
};
use crate::plan::{Step, StepView};
use crate::root::{root_plan, Root};
use crate::user::{user_plan, User};

verus! {

/// The architectures a runtime built for `host` runs images of: x86 on
/// x86; x86 and x86-64 on x86-64; none on another machine.
pub open spec fn arch_supported(host: Arch, a: Arch) -> bool {
    match host {
        Arch::X86 => a is X86,
        Arch::X86_64 => a is X86 || a is X86_64,
        Arch::Other => false,
    }
}

/// Some namespace of `nss` is a new UTS namespace.
pub open spec fn has_new_uts(nss: Seq<OcfNamespace>) -> bool {
    exists|i: int| 0 <= i < nss.len() && (#[trigger] nss[i]).path is None && nss[i].kind == NamespaceKind::UTS
}

/// Some namespace of `nss` is a mount namespace.
pub open spec fn has_mount_namespace(nss: Seq<OcfNamespace>) -> bool {
    exists|i: int| 0 <= i < nss.len() && (#[trigger] nss[i]).kind == NamespaceKind::Mount
}

/// The name of the first mount point that no runtime mount has, if any.
pub open spec fn first_missing_mount(mps: Seq<OcfMountPoint>, rms: Seq<OcfRuntimeMount>) -> Option<Seq<char>>
    decreases mps.len(),
{
    if mps.len() == 0 {
        None
    } else if find_runtime_mount(rms, mps[0].name@) is None {
        Some(mps[0].name@)
    } else {
        first_missing_mount(mps.drop_first(), rms)
    }
}

/// The first thing that stops an image before its parts are built: a
/// platform other than Linux, an architecture other than x86, a host name
/// without a new UTS namespace, no mount namespace, a missing mount.
pub open spec fn ocf_precheck(spec: OcfSpec, rt: OcfRuntime, host: Arch) -> Option<OcfFailure> {
    match (spec.platform, rt.linux) {
        (Some(platform), Some(linux)) => if !arch_supported(host, platform.arch) {
            Some(OcfFailure::UnsupportedArchitecture)
        } else if spec.hostname is Some && !has_new_uts(linux.namespaces@) {
            Some(OcfFailure::InvalidConfiguration(ConfigIssue::HostnameNeedsUtsNamespace))
        } else if !has_mount_namespace(linux.namespaces@) {
            Some(OcfFailure::InvalidConfiguration(ConfigIssue::MountNamespaceRequired))
        } else {
            match first_missing_mount(spec.mounts@, rt.mounts@) {
                Some(name) => Some(OcfFailure::MissingMount(name)),
                None => None,
            }
        },
        _ => Some(OcfFailure::UnsupportedPlatform),
    }
}

/// The UTF-8 bytes of an optional text.
pub open spec fn opt_utf8(o: Option<String>) -> Option<Seq<u8>> {
    match o {
        Some(s) => Some(encode_utf8(s@)),
        None => None,
    }
}

/// The bytes are a C string, where there are any.
pub open spec fn opt_nul_free(o: Option<Seq<u8>>) -> bool {
    match o {
        Some(b) => nul_free(b),
        None => true,
    }
}

/// Every namespace path is a C string.
pub open spec fn namespace_paths_ok(nss: Seq<OcfNamespace>) -> bool {
    forall|i: int| 0 <= i < nss.len() ==> opt_nul_free(opt_utf8(#[trigger] nss[i].path))
}

/// Where a mount point goes: its path, without leading slashes, under the
/// image's root.
pub open spec fn ocf_mount_path(root: Seq<u8>, path: Seq<char>) -> Seq<u8> {
    join_path(root, strip_slashes(encode_utf8(path)))
}

/// The file system type of a runtime mount: none for `""` and `bind`.
pub open spec fn ocf_mount_fs(rm: OcfRuntimeMount) -> Option<Seq<u8>> {
    if rm.kind@ == ""@ || rm.kind@ == "bind"@ {
        None
    } else {
        Some(encode_utf8(rm.kind@))
    }
}

/// The flags of a runtime mount: those its options name, with `MS_BIND`
/// for the type `bind`.
pub open spec fn ocf_mount_flags(rm: OcfRuntimeMount) -> u64 {
    let flags = fold_mount_options(string_views(rm.options@)).0;
    if rm.kind@ == "bind"@ {
        flags | MS_BIND
    } else {
        flags
    }
}

/// The data of a runtime mount: its other options, if there are any.
pub open spec fn ocf_mount_data(rm: OcfRuntimeMount) -> Option<Seq<u8>> {
    let rest = fold_mount_options(string_views(rm.options@)).1;
    if rest.len() == 0 {
        None
    } else {
        Some(rest)
    }
}

/// A runtime mount has the flag of each of its options that names one, and
/// `MS_BIND` where its type is `bind`; it has a file system type of its
/// own except where its type is empty or `bind`.
pub proof fn lemma_ocf_mount_flags(rm: OcfRuntimeMount)
    ensures
        forall|i: int|
            0 <= i < rm.options@.len() ==> (spec_mount_flag(#[trigger] rm.options@[i]@) matches Some(f)
                ==> ocf_mount_flags(rm) & f == f),
        rm.kind@ == "bind"@ ==> ocf_mount_flags(rm) & 0x1000u64 == 0x1000u64,
        rm.kind@ == "bind"@ || rm.kind@ == ""@ ==> ocf_mount_fs(rm) is None,
        rm.kind@ != "bind"@ && rm.kind@ != ""@ ==> ocf_mount_fs(rm) == Some(encode_utf8(rm.kind@)),
{
    let opts = string_views(rm.options@);
    lemma_fold_mount_flags(opts);
    let a = fold_mount_options(opts).0;
    assert forall|i: int|
        0 <= i < rm.options@.len() implies (spec_mount_flag(#[trigger] rm.options@[i]@) matches Some(f)
            ==> ocf_mount_flags(rm) & f == f) by {
        assert(opts[i] == rm.options@[i]@);
        if let Some(f) = spec_mount_flag(rm.options@[i]@) {
            assert(a & f == f);
            assert((a & f == f) ==> ((a | 0x1000u64) & f == f)) by (bit_vector);
        }
    }
    assert((a | 0x1000u64) & 0x1000u64 == 0x1000u64) by (bit_vector);
}

/// Every text of the mount is a C string.
pub open spec fn ocf_mount_ok(root: Seq<u8>, mp: OcfMountPoint, rm: OcfRuntimeMount) -> bool {
    &&& nul_free(ocf_mount_path(root, mp.path@))
    &&& opt_nul_free(ocf_mount_fs(rm))
    &&& nul_free(encode_utf8(rm.source@))
    &&& opt_nul_free(ocf_mount_data(rm))
}

/// The runtime mount of a mount point (one is there).
pub open spec fn runtime_mount_of(mp: OcfMountPoint, rms: Seq<OcfRuntimeMount>) -> OcfRuntimeMount {
    match find_runtime_mount(rms, mp.name@) {
        Some(k) => rms[k],
        None => rms[0],
    }
}

/// Every mount point gives a mount.
pub open spec fn mounts_ok(root: Seq<u8>, mps: Seq<OcfMountPoint>, rms: Seq<OcfRuntimeMount>) -> bool {
    forall|i: int| 0 <= i < mps.len() ==> ocf_mount_ok(root, #[trigger] mps[i], runtime_mount_of(mps[i], rms))
}

/// The file type of a device type letter.
pub open spec fn device_kind_of(kind: u8) -> Option<u32> {
    if kind == 0x62u8 {
        Some(S_IFBLK)
    } else if kind == 0x63u8 || kind == 0x75u8 {
        Some(S_IFCHR)
    } else if kind == 0x70u8 {
        Some(S_IFIFO)
    } else {
        None
    }
}

/// The device type letters of OCF give the file types that OCF defines
/// for them: `c` and `u` (unbuffered) a character device (`S_IFCHR`),
/// `b` a block device (`S_IFBLK`), `p` a FIFO (`S_IFIFO`); any other
/// letter none.
pub proof fn lemma_device_type_letters(kind: u8)
    ensures
        kind == 0x63u8 ==> device_kind_of(kind) == Some(0o20000u32),
        kind == 0x75u8 ==> device_kind_of(kind) == Some(0o20000u32),
        kind == 0x62u8 ==> device_kind_of(kind) == Some(0o60000u32),
        kind == 0x70u8 ==> device_kind_of(kind) == Some(0o10000u32),
        kind != 0x63u8 && kind != 0x75u8 && kind != 0x62u8 && kind != 0x70u8 ==> device_kind_of(
            kind,
        ) is None,
{
}

/// What stops a device: a mode with bits other than permissions, an
/// unknown type, a path that is not a C string, in this order.
pub open spec fn device_failure(d: OcfDevice) -> Option<OcfFailure> {
    if d.mode & !MODE_BITS != 0 {
        Some(OcfFailure::InvalidConfiguration(ConfigIssue::DeviceMode))
    } else if device_kind_of(d.kind) is None {
        Some(OcfFailure::InvalidConfiguration(ConfigIssue::DeviceType))
    } else if !nul_free(encode_utf8(d.path@)) {
        Some(OcfFailure::CStringError)
    } else {
        None
    }
}

/// What stops the first device that is stopped, if any.
pub open spec fn first_device_failure(ds: Seq<OcfDevice>) -> Option<OcfFailure>
    decreases ds.len(),
{
    if ds.len() == 0 {
        None
    } else if device_failure(ds[0]) is Some {
        device_failure(ds[0])
    } else {
        first_device_failure(ds.drop_first())
    }
}

/// A working directory is absolute: it begins with `/`.
pub open spec fn absolute(path: Seq<char>) -> bool {
    path.len() > 0 && path[0] == '/'
}

/// The program, arguments and environment are C strings.
pub open spec fn command_ok(p: OcfProcess) -> bool {
    &&& nul_free(encode_utf8(p.cmd@))
    &&& forall|i: int| 0 <= i < p.args@.len() ==> nul_free(encode_utf8(#[trigger] p.args@[i]@))
    &&& forall|i: int| 0 <= i < p.env@.len() ==> nul_free(encode_utf8(#[trigger] p.env@[i]@))
}

/// Why an image cannot be run, if it cannot: the first of the checks of
/// `ocf_precheck`, then the namespaces, the root, the mounts, the devices,
/// the working directory and the command, in this order.
pub open spec fn ocf_failure(spec: OcfSpec, rt: OcfRuntime, host: Arch) -> Option<OcfFailure> {
    match ocf_precheck(spec, rt, host) {
        Some(f) => Some(f),
        None => match rt.linux {
            None => Some(OcfFailure::UnsupportedPlatform),
            Some(linux) => {
                let root = encode_utf8(spec.root_path@);
                if !namespace_paths_ok(linux.namespaces@) {
                    Some(OcfFailure::CStringError)
                } else if !nul_free(root) {
                    Some(OcfFailure::CStringError)
                } else if !mounts_ok(root, spec.mounts@, rt.mounts@) {
                    Some(OcfFailure::CStringError)
                } else if first_device_failure(linux.devices@) is Some {
                    first_device_failure(linux.devices@)
                } else {
                    match spec.process.cwd {
                        Some(cwd) => if !absolute(cwd@) {
                            Some(OcfFailure::InvalidConfiguration(ConfigIssue::RelativeCwd))
                        } else if !nul_free(encode_utf8(cwd@)) {
                            Some(OcfFailure::CStringError)
                        } else if !command_ok(spec.process) {
                            Some(OcfFailure::CStringError)
                        } else {
                            None
                        },
                        None => if !command_ok(spec.process) {
                            Some(OcfFailure::CStringError)
                        } else {
                            None
                        },
                    }
                }
            },
        },
    }
}

/// The propagation flag of the root.
pub open spec fn propagation_flag(p: Propagation) -> u64 {
    match p {
        Propagation::Private => MS_PRIVATE,
        Propagation::Shared => MS_SHARED,
        Propagation::Slave => MS_SLAVE,
    }
}

/// The capability set of a list of capability numbers.
pub open spec fn caps_of(caps: Seq<u32>) -> u64
    decreases caps.len(),
{
    if caps.len() == 0 {
        0
    } else {
        caps_of(caps.drop_last()) | (1u64 << caps.last())
    }
}

/// The root's propagation gives the kernel's flag of that name: private
/// `MS_PRIVATE`, shared `MS_SHARED`, slave `MS_SLAVE`.
pub proof fn lemma_propagation_flags()
    ensures
        propagation_flag(Propagation::Private) == 0x40000u64,
        propagation_flag(Propagation::Shared) == 0x100000u64,
        propagation_flag(Propagation::Slave) == 0x80000u64,
{
}

/// A runtime built for x86-64 runs images for x86 and x86-64, one built for
/// x86 only images for x86, and one built for another machine none; an
/// image for another machine never runs.
pub proof fn lemma_arch_supported(host: Arch, a: Arch)
    ensures
        arch_supported(host, a) <==> (a is X86 && (host is X86 || host is X86_64)) || (a is X86_64
            && host is X86_64),
{
}

/// The capability set of a list of capability numbers below 64 has the
/// bit of each number in the list, and no other bit.
pub proof fn lemma_caps_of(caps: Seq<u32>, c: u32)
    requires
        forall|i: int| 0 <= i < caps.len() ==> #[trigger] caps[i] < 64,
        c < 64,
    ensures
        caps_of(caps) & (1u64 << c) != 0 <==> caps.contains(c),
    decreases caps.len(),
{
    if caps.len() == 0 {
        assert(0u64 & (1u64 << c) == 0) by (bit_vector);
    } else {
        let init = caps.drop_last();
        let l = caps.last();
        assert(l == caps[caps.len() - 1]);
        assert forall|i: int| 0 <= i < init.len() implies #[trigger] init[i] < 64 by {
            assert(init[i] == caps[i]);
        }
        lemma_caps_of(init, c);
        let a = caps_of(init);
        assert(((a | (1u64 << l)) & (1u64 << c) != 0) <==> ((a & (1u64 << c) != 0) || l == c))
            by (bit_vector)
            requires
                l < 64,
                c < 64;
        if init.contains(c) {
            let i = choose|i: int| 0 <= i < init.len() && init[i] == c;
            assert(caps[i] == c);
        }
        if l == c {
            assert(caps[caps.len() - 1] == c);
        }
        if caps.contains(c) && l != c {
            let i = choose|i: int| 0 <= i < caps.len() && caps[i] == c;
            assert(init[i] == c);
        }
    }
}

/// The configuration an OCF image runs in, prepared in this order: the
/// namespaces, the mounts, the root, the devices, the host name, the user
/// and the capabilities.
pub struct OcfConfig {
    pub namespaces: Configs<Namespace>,
    pub mounts: Configs<Mount>,
    pub root: Root,
    pub devices: Configs<Device>,
    pub hostname: Option<Hostname>,
    pub user: Option<User>,
    pub capabilities: Capabilities,
}

impl Config for OcfConfig {
    open spec fn spec_clone_flags(&self) -> i32 {
        self.namespaces.spec_clone_flags() | self.mounts.spec_clone_flags()
            | self.root.spec_clone_flags() | self.devices.spec_clone_flags()
            | self.hostname.spec_clone_flags() | self.user.spec_clone_flags()
            | self.capabilities.spec_clone_flags()
    }

    open spec fn spec_prepare(&self) -> Seq<StepView> {
        self.namespaces.spec_prepare() + self.mounts.spec_prepare() + self.root.spec_prepare()
            + self.devices.spec_prepare() + self.hostname.spec_prepare()
            + self.user.spec_prepare() + self.capabilities.spec_prepare()
    }

    proof fn lemma_prepare_settled(&self) {
        self.namespaces.lemma_prepare_settled();
        self.mounts.lemma_prepare_settled();
        self.root.lemma_prepare_settled();
        self.devices.lemma_prepare_settled();
        self.hostname.lemma_prepare_settled();
        self.user.lemma_prepare_settled();
        self.capabilities.lemma_prepare_settled();
        let a = self.namespaces.spec_prepare();
        let b = self.mounts.spec_prepare();
        let c = self.root.spec_prepare();
        let d = self.devices.spec_prepare();
        let e = self.hostname.spec_prepare();
        let f = self.user.spec_prepare();
        let g = self.capabilities.spec_prepare();
        crate::plan::lemma_settled_concat(a, b);
        crate::plan::lemma_settled_concat(a + b, c);
        crate::plan::lemma_settled_concat(a + b + c, d);
        crate::plan::lemma_settled_concat(a + b + c + d, e);
        crate::plan::lemma_settled_concat(a + b + c + d + e, f);
        crate::plan::lemma_settled_concat(a + b + c + d + e + f, g);
    }

    fn clone_flags(&self) -> (r: i32) {
        self.namespaces.clone_flags() | self.mounts.clone_flags() | self.root.clone_flags()
            | self.devices.clone_flags() | self.hostname.clone_flags() | self.user.clone_flags()
            | self.capabilities.clone_flags()
    }

    fn prepare(&self) -> (r: Vec<Step>) {
        let mut steps = self.namespaces.prepare();
        let mut more = self.mounts.prepare();
        steps.append(&mut more);
        let mut more = self.root.prepare();
        steps.append(&mut more);
        let mut more = self.devices.prepare();
        steps.append(&mut more);
        let mut more = self.hostname.prepare();
        steps.append(&mut more);
        let mut more = self.user.prepare();
        steps.append(&mut more);
        let mut more = self.capabilities.prepare();
        steps.append(&mut more);
        steps
    }
}

/// An OCF configuration is prepared in this order: its namespaces are
/// entered, its mounts made, the root changed to and the working directory
/// set, then its devices made (inside the new root), its host name set,
/// its user taken on and its capabilities set.
pub proof fn lemma_ocf_config_plan(cfg: OcfConfig)
    ensures
        cfg.spec_prepare() == configs_plan(cfg.namespaces.items()) + configs_plan(cfg.mounts.items())
            + root_plan(cfg.root.spec_chroot(), cfg.root.spec_cwd()) + configs_plan(
            cfg.devices.items(),
        ) + match cfg.hostname {
            Some(h) => hostname_plan(encode_utf8(h.spec_hostname())),
            None => Seq::<StepView>::empty(),
        } + match cfg.user {
            Some(u) => user_plan(u.spec_uid(), u.spec_gid(), u.spec_groups()),
            None => Seq::<StepView>::empty(),
        } + capabilities_plan(cfg.capabilities.spec_caps()),
{
}

/// The C string of a text.
fn c_string(s: &String) -> (r: Option<CBytes>)
    ensures
        r is Some <==> nul_free(encode_utf8(s@)),
        r matches Some(c) ==> c@ == encode_utf8(s@),
{
    match CBytes::from_str(s.as_str()) {
        Ok(c) => Some(c),
        Err(_) => None,
    }
}

/// The checks of `ocf_precheck`.
pub fn ocf_check(config: &OcfSpec, runtime: &OcfRuntime, host: Arch) -> (r: Result<(), OcfError>)
    ensures
        match r {
            Ok(_) => ocf_precheck(*config, *runtime, host) is None,
            Err(e) => ocf_precheck(*config, *runtime, host) == Some(e@),
        },
{
    let (platform, linux) = match (&config.platform, &runtime.linux) {
        (Some(p), Some(l)) => (p, l),
        _ => return Err(OcfError::UnsupportedPlatform),
    };
    let supported = match (host, platform.arch) {
        (Arch::X86, Arch::X86) => true,
        (Arch::X86_64, Arch::X86) | (Arch::X86_64, Arch::X86_64) => true,
        _ => false,
    };
    if !supported {
        return Err(OcfError::UnsupportedArchitecture);
    }
    let n: usize = linux.namespaces.len();
    if config.hostname.is_some() {
        let mut i: usize = 0;
        let mut found = false;
        while i < n
            invariant
                n == linux.namespaces@.len(),
                i <= n,
                config.platform == Some(*platform),
                runtime.linux == Some(*linux),
                arch_supported(host, platform.arch),
                found ==> has_new_uts(linux.namespaces@),
                !found ==> forall|j: int| 0 <= j < i ==> !((#[trigger] linux.namespaces@[j]).path is None
                    && linux.namespaces@[j].kind == NamespaceKind::UTS),
            decreases n - i,
        {
            let ns = &linux.namespaces[i];
            if ns.path.is_none() && ns.kind == NamespaceKind::UTS {
                found = true;
            }
            i = i + 1;
        }
        if !found {
            return Err(OcfError::InvalidConfiguration(ConfigIssue::HostnameNeedsUtsNamespace));
        }
    }
    let mut i: usize = 0;
    let mut found = false;
    while i < n
        invariant
            n == linux.namespaces@.len(),
            i <= n,
            config.platform == Some(*platform),
            runtime.linux == Some(*linux),
            arch_supported(host, platform.arch),
            config.hostname is Some ==> has_new_uts(linux.namespaces@),
            found ==> has_mount_namespace(linux.namespaces@),
            !found ==> forall|j: int| 0 <= j < i ==> (#[trigger] linux.namespaces@[j]).kind != NamespaceKind::Mount,
        decreases n - i,
    {
        if linux.namespaces[i].kind == NamespaceKind::Mount {
            found = true;
        }
        i = i + 1;
    }
    if !found {
        return Err(OcfError::InvalidConfiguration(ConfigIssue::MountNamespaceRequired));
    }
    let m: usize = config.mounts.len();
    let mut i: usize = 0;
    assert(config.mounts@.skip(0) =~= config.mounts@);
    while i < m
        invariant
            m == config.mounts@.len(),
            i <= m,
            config.platform == Some(*platform),
            runtime.linux == Some(*linux),
            arch_supported(host, platform.arch),
            config.hostname is Some ==> has_new_uts(linux.namespaces@),
            has_mount_namespace(linux.namespaces@),
            first_missing_mount(config.mounts@, runtime.mounts@) == first_missing_mount(
                config.mounts@.skip(i as int),
                runtime.mounts@,
            ),
        decreases m - i,
    {
        assert(config.mounts@.skip(i as int).drop_first() =~= config.mounts@.skip(i + 1));
        assert(config.mounts@.skip(i as int)[0] == config.mounts@[i as int]);
        let name = &config.mounts[i].name;
        assert(config.mounts@.skip(i as int)[0].name@ == name@);
        if runtime_mount_index(&runtime.mounts, name).is_none() {
            return Err(OcfError::MissingMount(name.clone()));
        }
        i = i + 1;
    }
    assert(config.mounts@.skip(m as int) =~= Seq::<OcfMountPoint>::empty());
    Ok(())
}

/// The namespaces of the runtime configuration; `None` where a path is not
/// a C string.
pub fn ocf_namespaces(nss: &Vec<OcfNamespace>) -> (r: Option<Vec<Namespace>>)
    ensures
        r is Some <==> namespace_paths_ok(nss@),
        r matches Some(v) ==> v@.len() == nss@.len() && forall|i: int|
            0 <= i < nss@.len() ==> (#[trigger] v@[i]).spec_kind() == nss@[i].kind
                && v@[i].spec_path() == opt_utf8(nss@[i].path),
{
    let n: usize = nss.len();
    let mut v: Vec<Namespace> = Vec::new();
    let mut i: usize = 0;
    while i < n
        invariant
            n == nss@.len(),
            i <= n,
            v@.len() == i,
            forall|j: int| 0 <= j < i ==> opt_nul_free(opt_utf8(#[trigger] nss@[j].path)),
            forall|j: int|
                0 <= j < i ==> (#[trigger] v@[j]).spec_kind() == nss@[j].kind && v@[j].spec_path()
                    == opt_utf8(nss@[j].path),
        decreases n - i,
    {
        let ns = &nss[i];
        let path = match &ns.path {
            Some(p) => match c_string(p) {
                Some(c) => Some(c),
                None => {
                    assert(!opt_nul_free(opt_utf8(nss@[i as int].path)));
                    return None;
                },
            },
            None => None,
        };
        v.push(Namespace::new(ns.kind, path));
        i = i + 1;
    }
    Some(v)
}

/// The mount of a mount point and its runtime mount under the root `root`;
/// `None` where a text is not a C string.
pub fn ocf_mount(root: &[u8], mp: &OcfMountPoint, rm: &OcfRuntimeMount) -> (r: Option<Mount>)
    requires
        nul_free(ocf_mount_path(root@, mp.path@)) ==> !string_views(rm.options@).contains(
            "x-mount-mkdir"@,
        ),
    ensures
        r is Some <==> ocf_mount_ok(root@, *mp, *rm),
        r matches Some(m) ==> mount_has(
            m,
            ocf_mount_path(root@, mp.path@),
            Some(encode_utf8(rm.source@)),
            ocf_mount_fs(*rm),
            ocf_mount_flags(*rm),
            ocf_mount_data(*rm),
        ),
{
    let path = match CBytes::new(join_path_bytes(root, rootless(mp.path.as_str().as_bytes()))) {
        Ok(p) => p,
        Err(_) => return None,
    };
    let folded = mount_options(&rm.options);
    let mut flags: u64 = folded.0;
    let opts = folded.1;
    assert(flags == fold_mount_options(string_views(rm.options@)).0);
    proof {
        reveal_strlit("");
        reveal_strlit("bind");
    }
    let kind_str = rm.kind.as_str();
    let kind = if str_eq(kind_str, "") {
        assert("bind"@.len() == 4);
        None
    } else if str_eq(kind_str, "bind") {
        flags = flags | MS_BIND;
        None
    } else {
        match c_string(&rm.kind) {
            Some(k) => Some(k),
            None => return None,
        }
    };
    let source = match c_string(&rm.source) {
        Some(s) => s,
        None => return None,
    };
    let data = if opts.len() == 0 {
        None
    } else {
        match CBytes::new(opts) {
            Ok(o) => Some(o),
            Err(_) => return None,
        }
    };
    Some(Mount::new(path, Some(source), kind, flags, data))
}

/// Every mount point before the `i`-th gives a mount.
pub open spec fn mounts_ok_before(root: Seq<u8>, mps: Seq<OcfMountPoint>, rms: Seq<OcfRuntimeMount>, i: int) -> bool {
    forall|j: int| 0 <= j < i ==> ocf_mount_ok(root, #[trigger] mps[j], runtime_mount_of(mps[j], rms))
}

/// The options of the `i`-th mount point's runtime mount are read: every
/// mount point before it gives a mount and its own path is a C string.
pub open spec fn options_read(root: Seq<u8>, mps: Seq<OcfMountPoint>, rms: Seq<OcfRuntimeMount>, i: int) -> bool {
    mounts_ok_before(root, mps, rms, i) && nul_free(ocf_mount_path(root, mps[i].path@))
}

/// No runtime mount whose options are read asks for `x-mount-mkdir`, which
/// is not supported.
pub open spec fn no_mkdir_option(root: Seq<u8>, mps: Seq<OcfMountPoint>, rms: Seq<OcfRuntimeMount>) -> bool {
    forall|i: int|
        0 <= i < mps.len() && options_read(root, mps, rms, i) ==> !string_views(
            runtime_mount_of(#[trigger] mps[i], rms).options@,
        ).contains("x-mount-mkdir"@)
}

/// The mounts of an image: its root bound to itself, then one for each
/// mount point; `None` where a text is not a C string.
pub fn ocf_mounts(
    root: &CBytes,
    root_flags: u64,
    mps: &Vec<OcfMountPoint>,
    rms: &Vec<OcfRuntimeMount>,
) -> (r: Option<Vec<Mount>>)
    requires
        first_missing_mount(mps@, rms@) is None,
        no_mkdir_option(root@, mps@, rms@),
    ensures
        r is Some <==> mounts_ok(root@, mps@, rms@),
        r matches Some(v) ==> {
            &&& v@.len() == mps@.len() + 1
            &&& mount_has(v@[0], root@, Some(root@), None, root_flags, None)
            &&& forall|i: int|
                0 <= i < mps@.len() ==> {
                    let rm = runtime_mount_of(mps@[i], rms@);
                    mount_has(
                        #[trigger] v@[i + 1],
                        ocf_mount_path(root@, mps@[i].path@),
                        Some(encode_utf8(rm.source@)),
                        ocf_mount_fs(rm),
                        ocf_mount_flags(rm),
                        ocf_mount_data(rm),
                    )
                }
        },
{
    let mut v: Vec<Mount> = Vec::new();
    v.push(Mount::from_bind(root.duplicate(), root.duplicate(), root_flags));
    let n: usize = mps.len();
    let mut i: usize = 0;
    assert(mps@.skip(0) =~= mps@);
    while i < n
        invariant
            n == mps@.len(),
            i <= n,
            v@.len() == i + 1,
            first_missing_mount(mps@.skip(i as int), rms@) is None,
            no_mkdir_option(root@, mps@, rms@),
            mount_has(v@[0], root@, Some(root@), None, root_flags, None),
            forall|j: int| 0 <= j < i ==> ocf_mount_ok(root@, #[trigger] mps@[j], runtime_mount_of(mps@[j], rms@)),
            forall|j: int|
                0 <= j < i ==> {
                    let rm = runtime_mount_of(mps@[j], rms@);
                    mount_has(
                        #[trigger] v@[j + 1],
                        ocf_mount_path(root@, mps@[j].path@),
                        Some(encode_utf8(rm.source@)),
                        ocf_mount_fs(rm),
                        ocf_mount_flags(rm),
                        ocf_mount_data(rm),
                    )
                },
        decreases n - i,
    {
        let mp = &mps[i];
        assert(mps@.skip(i as int)[0] == *mp);
        assert(mps@.skip(i as int).drop_first() =~= mps@.skip(i + 1));
        let k = match runtime_mount_index(rms, &mp.name) {
            Some(k) => k,
            None => {
                assert(false);
                return None;
            },
        };
        assert(runtime_mount_of(mps@[i as int], rms@) == rms@[k as int]);
        assert(mounts_ok_before(root@, mps@, rms@, i as int));
        match ocf_mount(root.as_bytes(), mp, &rms[k]) {
            Some(m) => {
                v.push(m);
            },
            None => {
                return None;
            },
        }
        i = i + 1;
    }
    Some(v)
}

/// The device of a runtime device.
pub fn ocf_device(d: &OcfDevice) -> (r: Result<Device, OcfError>)
    ensures
        match r {
            Ok(dev) => device_failure(*d) is None && dev.spec_path() == encode_utf8(d.path@)
                && Some(dev.spec_kind()) == device_kind_of(d.kind) && dev.spec_mode() == d.mode
                && dev.spec_device() == (d.major, d.minor),
            Err(e) => device_failure(*d) == Some(e@),
        },
{
    if d.mode & !MODE_BITS != 0 {
        return Err(OcfError::InvalidConfiguration(ConfigIssue::DeviceMode));
    }
    let kind: u32 = if d.kind == 0x62u8 {
        S_IFBLK
    } else if d.kind == 0x63u8 || d.kind == 0x75u8 {
        S_IFCHR
    } else if d.kind == 0x70u8 {
        S_IFIFO
    } else {
        return Err(OcfError::InvalidConfiguration(ConfigIssue::DeviceType));
    };
    let path = match c_string(&d.path) {
        Some(p) => p,
        None => return Err(OcfError::CStringError),
    };
    Ok(Device::new(path, kind, d.mode, (d.major, d.minor)))
}

/// The devices of the runtime configuration, or what stops the first that
/// is stopped.
pub fn ocf_devices(ds: &Vec<OcfDevice>) -> (r: Result<Vec<Device>, OcfError>)
    ensures
        match r {
            Ok(v) => first_device_failure(ds@) is None && v@.len() == ds@.len() && forall|i: int|
                0 <= i < ds@.len() ==> (#[trigger] v@[i]).spec_path() == encode_utf8(ds@[i].path@)
                    && Some(v@[i].spec_kind()) == device_kind_of(ds@[i].kind) && v@[i].spec_mode()
                    == ds@[i].mode && v@[i].spec_device() == (ds@[i].major, ds@[i].minor),
            Err(e) => first_device_failure(ds@) == Some(e@),
        },
{
    let n: usize = ds.len();
    let mut v: Vec<Device> = Vec::new();
    let mut i: usize = 0;
    assert(ds@.skip(0) =~= ds@);
    while i < n
        invariant
            n == ds@.len(),
            i <= n,
            v@.len() == i,
            first_device_failure(ds@) == first_device_failure(ds@.skip(i as int)),
            forall|j: int|
                0 <= j < i ==> (#[trigger] v@[j]).spec_path() == encode_utf8(ds@[j].path@) && Some(
                    v@[j].spec_kind(),
                ) == device_kind_of(ds@[j].kind) && v@[j].spec_mode() == ds@[j].mode
                    && v@[j].spec_device() == (ds@[j].major, ds@[j].minor),
        decreases n - i,
    {
        assert(ds@.skip(i as int)[0] == ds@[i as int]);
        assert(ds@.skip(i as int).drop_first() =~= ds@.skip(i + 1));
        match ocf_device(&ds[i]) {
            Ok(d) => {
                v.push(d);
            },
            Err(e) => {
                return Err(e);
            },
        }
        i = i + 1;
    }
    assert(ds@.skip(n as int) =~= Seq::<OcfDevice>::empty());
    Ok(v)
}

/// The C strings of a list of texts; `None` where one is not.
fn c_strings(v: &Vec<String>) -> (r: Option<Vec<CBytes>>)
    ensures
        r is Some <==> forall|i: int| 0 <= i < v@.len() ==> nul_free(encode_utf8(#[trigger] v@[i]@)),
        r matches Some(c) ==> cbytes_views(c@) == string_views(v@).map_values(|s: Seq<char>| encode_utf8(s)),
{
    let n: usize = v.len();
    let mut out: Vec<CBytes> = Vec::new();
    let mut i: usize = 0;
    while i < n
        invariant
            n == v@.len(),
            i <= n,
            out@.len() == i,
            forall|j: int| 0 <= j < i ==> nul_free(encode_utf8(#[trigger] v@[j]@)),
            forall|j: int| 0 <= j < i ==> (#[trigger] out@[j])@ == encode_utf8(v@[j]@),
        decreases n - i,
    {
        match c_string(&v[i]) {
            Some(c) => out.push(c),
            None => return None,
        }
        i = i + 1;
    }
    assert(cbytes_views(out@) =~= string_views(v@).map_values(|s: Seq<char>| encode_utf8(s)));
    Some(out)
}

/// The command of an image's process: its program, the program again and
/// the arguments, the environment; `None` where a text is not a C string.
pub fn ocf_command(p: &OcfProcess) -> (r: Option<Command>)
    ensures
        r is Some <==> command_ok(*p),
        r matches Some(c) ==> c.spec_cmd() == encode_utf8(p.cmd@) && c.spec_args() == seq![
            encode_utf8(p.cmd@),
        ] + string_views(p.args@).map_values(|s: Seq<char>| encode_utf8(s)) && c.spec_env()
            == string_views(p.env@).map_values(|s: Seq<char>| encode_utf8(s)),
{
    let cmd = match c_string(&p.cmd) {
        Some(c) => c,
        None => return None,
    };
    let rest = match c_strings(&p.args) {
        Some(a) => a,
        None => return None,
    };
    let env = match c_strings(&p.env) {
        Some(e) => e,
        None => return None,
    };
    let mut args: Vec<CBytes> = vec![cmd.duplicate()];
    let mut rest = rest;
    args.append(&mut rest);
    assert(cbytes_views(args@) =~= seq![encode_utf8(p.cmd@)] + string_views(p.args@).map_values(
        |s: Seq<char>| encode_utf8(s),
    ));
    Some(Command::new(cmd, args, env))
}

/// The capability set of a list of capability numbers.
pub fn capability_set(caps: &Vec<u32>) -> (r: u64)
    requires
        forall|i: int| 0 <= i < caps@.len() ==> #[trigger] caps@[i] < 64,
    ensures
        r == caps_of(caps@),
{
    let n: usize = caps.len();
    let mut set: u64 = 0;
    let mut i: usize = 0;
    assert(caps@.take(0) =~= Seq::<u32>::empty());
    while i < n
        invariant
            n == caps@.len(),
            i <= n,
            forall|j: int| 0 <= j < caps@.len() ==> #[trigger] caps@[j] < 64,
            set == caps_of(caps@.take(i as int)),
        decreases n - i,
    {
        proof {
            let t = caps@.take(i + 1);
            assert(t.drop_last() =~= caps@.take(i as int));
            assert(t.last() == caps@[i as int]);
        }
        set = set | (1u64 << caps[i]);
        i = i + 1;
    }
    assert(caps@.take(n as int) =~= caps@);
    set
}

/// A text begins with `/` where its UTF-8 bytes do.
proof fn lemma_leading_slash(c: Seq<char>)
    ensures
        (encode_utf8(c).len() > 0 && encode_utf8(c)[0] == 0x2fu8) <==> (c.len() > 0 && c[0] == '/'),
{
    if c.len() > 0 {
        let v = c[0] as u32;
        vstd::utf8::char_is_scalar(c[0]);
        let e = vstd::utf8::encode_scalar(v);
        assert(encode_utf8(c) == e + encode_utf8(c.drop_first()));
        assert(('/' as u32) == 0x2f);
        vstd::utf8::char_u32_cast(c[0], v);
        assert(c[0] == '/' <==> v == 0x2f);
        assert(e.len() > 0);
        assert(encode_utf8(c)[0] == e[0]);
        if vstd::utf8::has_width_1_encoding(v) {
            assert(e[0] == (v & 0x7f) as u8);
            assert(v <= 0x7f ==> (v & 0x7f) == v) by (bit_vector);
            assert(e[0] == 0x2fu8 <==> v == 0x2f);
        } else if vstd::utf8::has_width_2_encoding(v) {
            let b = ((v >> 6u32) & 0x1f) as u8;
            assert(e[0] == 0xc0u8 | b);
            assert((0xc0u8 | b) != 0x2fu8) by (bit_vector);
        } else if vstd::utf8::has_width_3_encoding(v) {
            let b = ((v >> 12u32) & 0x0f) as u8;
            assert(e[0] == 0xe0u8 | b);
            assert((0xe0u8 | b) != 0x2fu8) by (bit_vector);
        } else {
            let b = ((v >> 18u32) & 0x7) as u8;
            assert(e[0] == 0xf0u8 | b);
            assert((0xf0u8 | b) != 0x2fu8) by (bit_vector);
        }
    }
}

/// The flags of the mount that binds an image's root to itself: a bind
/// mount with the root's propagation, read-only where the root is.
pub open spec fn ocf_root_flags(spec: OcfSpec, linux: OcfLinux) -> u64 {
    MS_BIND | propagation_flag(linux.rootfs_propagation) | if spec.root_readonly {
        MS_RDONLY
    } else {
        0
    }
}

/// `cfg` and `cmd` are what an image is run with: the runtime's
/// namespaces; the root bound to itself, then the mount of each mount
/// point; the root with the process's working directory (`/` by default);
/// the runtime's devices; the host name; the user; the platform's
/// capabilities; and the process's command.
pub open spec fn ocf_config_is(cfg: OcfConfig, cmd: Command, spec: OcfSpec, rt: OcfRuntime) -> bool {
    match (spec.platform, rt.linux) {
        (Some(platform), Some(linux)) => {
            let root = encode_utf8(spec.root_path@);
            let nss = linux.namespaces@;
            let mps = spec.mounts@;
            let ds = linux.devices@;
            let ns = cfg.namespaces.items();
            let ms = cfg.mounts.items();
            let dv = cfg.devices.items();
            &&& ns.len() == nss.len()
            &&& forall|i: int|
                0 <= i < nss.len() ==> (#[trigger] ns[i]).spec_kind() == nss[i].kind
                    && ns[i].spec_path() == opt_utf8(nss[i].path)
            &&& ms.len() == mps.len() + 1
            &&& mount_has(ms[0], root, Some(root), None, ocf_root_flags(spec, linux), None)
            &&& forall|i: int|
                0 <= i < mps.len() ==> {
                    let rm = runtime_mount_of(mps[i], rt.mounts@);
                    mount_has(
                        #[trigger] ms[i + 1],
                        ocf_mount_path(root, mps[i].path@),
                        Some(encode_utf8(rm.source@)),
                        ocf_mount_fs(rm),
                        ocf_mount_flags(rm),
                        ocf_mount_data(rm),
                    )
                }
            &&& cfg.root.spec_chroot() == root
            &&& cfg.root.spec_cwd() == match spec.process.cwd {
                Some(cwd) => encode_utf8(cwd@),
                None => ascii_bytes("/"@),
            }
            &&& dv.len() == ds.len()
            &&& forall|i: int|
                0 <= i < ds.len() ==> (#[trigger] dv[i]).spec_path() == encode_utf8(ds[i].path@)
                    && Some(dv[i].spec_kind()) == device_kind_of(ds[i].kind) && dv[i].spec_mode()
                    == ds[i].mode && dv[i].spec_device() == (ds[i].major, ds[i].minor)
            &&& match (cfg.hostname, spec.hostname) {
                (Some(h), Some(name)) => h.spec_hostname() == name@,
                (None, None) => true,
                _ => false,
            }
            &&& match (cfg.user, spec.process.user) {
                (Some(u), Some(user)) => u.spec_uid() == user.uid && u.spec_gid() == user.gid
                    && u.spec_groups() == user.additional_gids@,
                (None, None) => true,
                _ => false,
            }
            &&& cfg.capabilities.spec_caps() == caps_of(platform.capabilities@)
            &&& cmd.spec_cmd() == encode_utf8(spec.process.cmd@)
            &&& cmd.spec_args() == seq![encode_utf8(spec.process.cmd@)] + string_views(
                spec.process.args@,
            ).map_values(|s: Seq<char>| encode_utf8(s))
            &&& cmd.spec_env() == string_views(spec.process.env@).map_values(
                |s: Seq<char>| encode_utf8(s),
            )
        },
        _ => false,
    }
}

/// The mounts of an image are built: the checks of `ocf_precheck` pass and
/// the namespace paths and the root are C strings.
pub open spec fn mounts_reached(spec: OcfSpec, rt: OcfRuntime, host: Arch) -> bool {
    &&& ocf_precheck(spec, rt, host) is None
    &&& rt.linux matches Some(linux) && namespace_paths_ok(linux.namespaces@)
    &&& nul_free(encode_utf8(spec.root_path@))
}

/// The capability set of an image is built: everything before it, up to
/// the working directory, passes.
pub open spec fn capabilities_reached(spec: OcfSpec, rt: OcfRuntime, host: Arch) -> bool {
    &&& mounts_reached(spec, rt, host)
    &&& mounts_ok(encode_utf8(spec.root_path@), spec.mounts@, rt.mounts@)
    &&& rt.linux matches Some(linux) && first_device_failure(linux.devices@) is None
    &&& spec.process.cwd matches Some(cwd) ==> absolute(cwd@) && nul_free(encode_utf8(cwd@))
}

/// The configuration and command that run an OCF image on a runtime built
/// for `host`, or why it cannot be run (see `ocf_failure`). A runtime
/// mount with the option `x-mount-mkdir` and a capability number of 64 or
/// more are not supported where they are reached.
pub fn ocf_config(config: &OcfSpec, runtime: &OcfRuntime, host: Arch) -> (r: Result<(OcfConfig, Command), OcfError>)
    requires
        mounts_reached(*config, *runtime, host) ==> no_mkdir_option(
            encode_utf8(config.root_path@),
            config.mounts@,
            runtime.mounts@,
        ),
        capabilities_reached(*config, *runtime, host) ==> (config.platform matches Some(p)
            && forall|i: int| 0 <= i < p.capabilities@.len() ==> #[trigger] p.capabilities@[i] < 64),
    ensures
        match r {
            Ok((cfg, cmd)) => ocf_failure(*config, *runtime, host) is None && ocf_config_is(
                cfg,
                cmd,
                *config,
                *runtime,
            ),
            Err(e) => ocf_failure(*config, *runtime, host) == Some(e@),
        },
{
    match ocf_check(config, runtime, host) {
        Ok(_) => {},
        Err(e) => return Err(e),
    }
    let (platform, linux) = match (&config.platform, &runtime.linux) {
        (Some(p), Some(l)) => (p, l),
        _ => return Err(OcfError::UnsupportedPlatform),
    };
    let namespaces = match ocf_namespaces(&linux.namespaces) {
        Some(n) => n,
        None => return Err(OcfError::CStringError),
    };
    let root = match c_string(&config.root_path) {
        Some(r) => r,
        None => return Err(OcfError::CStringError),
    };
    let readonly: u64 = if config.root_readonly {
        MS_RDONLY
    } else {
        0
    };
    let propagation: u64 = match linux.rootfs_propagation {
        Propagation::Private => MS_PRIVATE,
        Propagation::Shared => MS_SHARED,
        Propagation::Slave => MS_SLAVE,
    };
    let mounts = match ocf_mounts(&root, MS_BIND | propagation | readonly, &config.mounts, &runtime.mounts) {
        Some(m) => m,
        None => return Err(OcfError::CStringError),
    };
    let devices = match ocf_devices(&linux.devices) {
        Ok(d) => d,
        Err(e) => return Err(e),
    };
    let hostname = match &config.hostname {
        Some(h) => Some(Hostname::new(h.clone())),
        None => None,
    };
    proof {
        reveal_strlit("/");
    }
    let cwd = match &config.process.cwd {
        Some(cwd) => {
            let b = cwd.as_str().as_bytes();
            let is_absolute = b.len() > 0 && b[0] == 0x2fu8;
            proof {
                lemma_leading_slash(cwd@);
            }
            if !is_absolute {
                return Err(OcfError::InvalidConfiguration(ConfigIssue::RelativeCwd));
            }
            match c_string(cwd) {
                Some(c) => c,
                None => return Err(OcfError::CStringError),
            }
        },
        None => CBytes::from_ascii("/"),
    };
    let root_dir = Root::new(root, cwd);
    let user = match &config.process.user {
        Some(u) => Some(
            User::new(u.uid, u.gid, vstd::slice::slice_to_vec(u.additional_gids.as_slice())),
        ),
        None => None,
    };
    let capabilities = Capabilities::new(capability_set(&platform.capabilities));
    let command = match ocf_command(&config.process) {
        Some(c) => c,
        None => return Err(OcfError::CStringError),
    };
    Ok(
        (
            OcfConfig {
                namespaces: Configs::new(namespaces),
                mounts: Configs::new(mounts),
                root: root_dir,
                devices: Configs::new(devices),
                hostname,
                user,
                capabilities,
            },
            command,
        ),
    )
}

/// Every mount point of an image lands under the image's root.
pub proof fn lemma_mount_path_under_root(root: Seq<u8>, path: Seq<char>)
    ensures
        crate::command::starts_with(ocf_mount_path(root, path), root),
{
    crate::cli::lemma_join_rootless_under(root, encode_utf8(path));
}

} // verus!
