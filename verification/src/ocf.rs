use vstd::prelude::*;
use vstd::string::StringExecFns;
use vstd::utf8::encode_utf8;

use crate::cbytes::NulError;
use crate::cli::{bytes_eq, push_all};
use crate::namespace::NamespaceKind;
use crate::flags::{
    MS_BIND, MS_DIRSYNC, MS_LAZYTIME, MS_MANDLOCK, MS_MOVE, MS_NOATIME, MS_NODEV, MS_NODIRATIME,
    MS_NOEXEC, MS_NOSUID, MS_NOUSER, MS_POSIXACL, MS_PRIVATE, MS_RDONLY, MS_RELATIME, MS_REMOUNT,
    MS_SHARED, MS_SILENT, MS_SLAVE, MS_STRICTATIME, MS_SYNCHRONOUS,
};

verus! {

broadcast use vstd::utf8::encode_utf8_decode_utf8;

/// The processor architectures an OCF image can be built for.
#[derive(Debug, Clone, Copy, PartialEq, Eq, Structural)]
pub enum Arch {
    X86,
    X86_64,
    /// Any other architecture.
    Other,
}

/// The Linux platform of an OCF image: its architecture and the numbers of
/// the capabilities its process keeps.
pub struct OcfPlatform {
    pub arch: Arch,
    pub capabilities: Vec<u32>,
}

/// A mount point an OCF image asks for: the name the runtime
/// configuration knows it by, and where it goes in the image's root.
pub struct OcfMountPoint {
    pub name: String,
    pub path: String,
}

/// The user an OCF image's process runs as.
pub struct OcfUser {
    pub uid: u32,
    pub gid: u32,
    pub additional_gids: Vec<u32>,
}

/// The process an OCF image runs.
pub struct OcfProcess {
    pub cwd: Option<String>,
    pub user: Option<OcfUser>,
    pub cmd: String,
    pub args: Vec<String>,
    /// `NAME=value` entries.
    pub env: Vec<String>,
}

/// The portable part of an OCF image's configuration.
pub struct OcfSpec {
    /// The Linux platform, or `None` for any other.
    pub platform: Option<OcfPlatform>,
    pub hostname: Option<String>,
    pub mounts: Vec<OcfMountPoint>,
    pub root_path: String,
    pub root_readonly: bool,
    pub process: OcfProcess,
}

/// A namespace of the runtime configuration.
pub struct OcfNamespace {
    pub kind: NamespaceKind,
    pub path: Option<String>,
}

/// How mount events propagate to and from the root file system.
#[derive(Debug, Clone, Copy, PartialEq, Eq, Structural)]
pub enum Propagation {
    Private,
    Shared,
    Slave,
}

/// A device of the runtime configuration: its type is `b` (block), `c` or
/// `u` (character) or `p` (FIFO).
pub struct OcfDevice {
    pub path: String,
    pub kind: u8,
    pub mode: u32,
    pub major: u64,
    pub minor: u64,
}

/// The Linux part of the runtime configuration.
pub struct OcfLinux {
    pub namespaces: Vec<OcfNamespace>,
    pub rootfs_propagation: Propagation,
    pub devices: Vec<OcfDevice>,
}

/// A mount of the runtime configuration, under the name of a mount point.
pub struct OcfRuntimeMount {
    pub name: String,
    pub kind: String,
    pub source: String,
    pub options: Vec<String>,
}

/// The host-specific part of an OCF image's configuration.
pub struct OcfRuntime {
    pub linux: Option<OcfLinux>,
    /// The mounts, each under a name of its own.
    pub mounts: Vec<OcfRuntimeMount>,
}

/// What is wrong with a configuration.
#[derive(Clone, Copy, Debug, PartialEq, Eq, Structural)]
pub enum ConfigIssue {
    HostnameNeedsUtsNamespace,
    MountNamespaceRequired,
    /// A mount path that stays absolute once its leading slashes are
    /// removed (no path does).
    MountPath,
    DeviceMode,
    DeviceType,
    RelativeCwd,
}

/// The message that describes a configuration issue.
pub open spec fn issue_message(issue: ConfigIssue) -> Seq<char> {
    match issue {
        ConfigIssue::HostnameNeedsUtsNamespace => "hostname requires new uts namespace"@,
        ConfigIssue::MountNamespaceRequired => "mount namespace required"@,
        ConfigIssue::MountPath => "mount path issue"@,
        ConfigIssue::DeviceMode => "invalid device mode"@,
        ConfigIssue::DeviceType => "invalid device type"@,
        ConfigIssue::RelativeCwd => "process cwd must be an absolute path"@,
    }
}

impl ConfigIssue {
    /// The message that describes the issue.
    pub fn message(&self) -> (r: &'static str)
        ensures
            r@ == issue_message(*self),
    {
        match self {
            ConfigIssue::HostnameNeedsUtsNamespace => "hostname requires new uts namespace",
            ConfigIssue::MountNamespaceRequired => "mount namespace required",
            ConfigIssue::MountPath => "mount path issue",
            ConfigIssue::DeviceMode => "invalid device mode",
            ConfigIssue::DeviceType => "invalid device type",
            ConfigIssue::RelativeCwd => "process cwd must be an absolute path",
        }
    }
}

/// Why an OCF image cannot be run.
#[derive(Debug)]
pub enum OcfError {
    UnsupportedPlatform,
    UnsupportedArchitecture,
    InvalidConfiguration(ConfigIssue),
    /// No runtime mount has the name of this mount point.
    MissingMount(String),
    /// A text holds a NUL character.
    CStringError,
}

impl From<NulError> for OcfError {
    /// A text that is not a C string.
    fn from(err: NulError) -> (r: OcfError) {
        OcfError::CStringError
    }
}

impl vstd::std_specs::convert::FromSpecImpl<NulError> for OcfError {
    open spec fn obeys_from_spec() -> bool {
        true
    }

    open spec fn from_spec(v: NulError) -> OcfError {
        OcfError::CStringError
    }
}

/// The model of an `OcfError`.
pub enum OcfFailure {
    UnsupportedPlatform,
    UnsupportedArchitecture,
    InvalidConfiguration(ConfigIssue),
    MissingMount(Seq<char>),
    CStringError,
}

/// The message that describes a failure.
pub open spec fn failure_message(f: OcfFailure) -> Seq<char> {
    match f {
        OcfFailure::UnsupportedPlatform => "unsupported platform"@,
        OcfFailure::UnsupportedArchitecture => "unsupported architecture"@,
        OcfFailure::InvalidConfiguration(i) => issue_message(i),
        OcfFailure::MissingMount(name) => "missing mountpoint: "@ + name,
        OcfFailure::CStringError => "internal nul error"@,
    }
}

/// Each failure is described by its own message: "unsupported platform",
/// "unsupported architecture", the message of a configuration issue,
/// "missing mountpoint: " and the mount point's name, or "internal nul
/// error".
pub proof fn lemma_failure_messages(f: OcfFailure)
    ensures
        f is UnsupportedPlatform ==> failure_message(f) == "unsupported platform"@,
        f is UnsupportedArchitecture ==> failure_message(f) == "unsupported architecture"@,
        f matches OcfFailure::InvalidConfiguration(i) ==> failure_message(f) == issue_message(i),
        f matches OcfFailure::MissingMount(name) ==> failure_message(f) == "missing mountpoint: "@ + name,
        f is CStringError ==> failure_message(f) == "internal nul error"@,
        issue_message(ConfigIssue::HostnameNeedsUtsNamespace) == "hostname requires new uts namespace"@,
        issue_message(ConfigIssue::MountNamespaceRequired) == "mount namespace required"@,
        issue_message(ConfigIssue::MountPath) == "mount path issue"@,
        issue_message(ConfigIssue::DeviceMode) == "invalid device mode"@,
        issue_message(ConfigIssue::DeviceType) == "invalid device type"@,
        issue_message(ConfigIssue::RelativeCwd) == "process cwd must be an absolute path"@,
{
}

impl OcfError {
    /// The message that describes the error.
    pub fn message(&self) -> (r: String)
        ensures
            r@ == failure_message(self@),
    {
        match self {
            OcfError::UnsupportedPlatform => "unsupported platform".to_owned(),
            OcfError::UnsupportedArchitecture => "unsupported architecture".to_owned(),
            OcfError::InvalidConfiguration(issue) => issue.message().to_owned(),
            OcfError::MissingMount(name) => {
                let mut text = "missing mountpoint: ".to_owned();
                text.append(name.as_str());
                text
            },
            OcfError::CStringError => "internal nul error".to_owned(),
        }
    }
}

impl View for OcfError {
    type V = OcfFailure;

    open spec fn view(&self) -> OcfFailure {
        match self {
            OcfError::UnsupportedPlatform => OcfFailure::UnsupportedPlatform,
            OcfError::UnsupportedArchitecture => OcfFailure::UnsupportedArchitecture,
            OcfError::InvalidConfiguration(i) => OcfFailure::InvalidConfiguration(*i),
            OcfError::MissingMount(m) => OcfFailure::MissingMount(m@),
            OcfError::CStringError => OcfFailure::CStringError,
        }
    }
}

/// Whether two texts are equal.
pub fn str_eq(a: &str, b: &str) -> (r: bool)
    ensures
        r == (a@ == b@),
{
    let r = bytes_eq(a.as_bytes(), b.as_bytes());
    proof {
        if r {
            assert(encode_utf8(a@) == encode_utf8(b@));
            assert(decode_utf8_of(a@) == decode_utf8_of(b@));
        }
    }
    r
}

spec fn decode_utf8_of(s: Seq<char>) -> Seq<char> {
    vstd::utf8::decode_utf8(encode_utf8(s))
}

/// The mount flag that an option of an OCF mount names, if it names one.
pub open spec fn spec_mount_flag(opt: Seq<char>) -> Option<u64> {
    if opt == "bind"@ {
        Some(MS_BIND)
    } else if opt == "move"@ {
        Some(MS_MOVE)
    } else if opt == "private"@ {
        Some(MS_PRIVATE)
    } else if opt == "slave"@ {
        Some(MS_SLAVE)
    } else if opt == "shared"@ {
        Some(MS_SHARED)
    } else if opt == "acl"@ {
        Some(MS_POSIXACL)
    } else if opt == "noatime"@ {
        Some(MS_NOATIME)
    } else if opt == "nodev"@ {
        Some(MS_NODEV)
    } else if opt == "nodiratime"@ {
        Some(MS_NODIRATIME)
    } else if opt == "dirsync"@ {
        Some(MS_DIRSYNC)
    } else if opt == "noexec"@ {
        Some(MS_NOEXEC)
    } else if opt == "mand"@ {
        Some(MS_MANDLOCK)
    } else if opt == "relatime"@ {
        Some(MS_RELATIME)
    } else if opt == "strictatime"@ {
        Some(MS_STRICTATIME)
    } else if opt == "lazytime"@ {
        Some(MS_LAZYTIME)
    } else if opt == "nosuid"@ {
        Some(MS_NOSUID)
    } else if opt == "silent"@ {
        Some(MS_SILENT)
    } else if opt == "remount"@ {
        Some(MS_REMOUNT)
    } else if opt == "ro"@ {
        Some(MS_RDONLY)
    } else if opt == "sync"@ {
        Some(MS_SYNCHRONOUS)
    } else if opt == "nouser"@ {
        Some(MS_NOUSER)
    } else {
        None
    }
}

/// The mount flag that `opt` names, if it names one.
pub fn mount_flag(opt: &str) -> (r: Option<u64>)
    ensures
        r == spec_mount_flag(opt@),
{
    if str_eq(opt, "bind") {
        Some(MS_BIND)
    } else if str_eq(opt, "move") {
        Some(MS_MOVE)
    } else if str_eq(opt, "private") {
        Some(MS_PRIVATE)
    } else if str_eq(opt, "slave") {
        Some(MS_SLAVE)
    } else if str_eq(opt, "shared") {
        Some(MS_SHARED)
    } else if str_eq(opt, "acl") {
        Some(MS_POSIXACL)
    } else if str_eq(opt, "noatime") {
        Some(MS_NOATIME)
    } else if str_eq(opt, "nodev") {
        Some(MS_NODEV)
    } else if str_eq(opt, "nodiratime") {
        Some(MS_NODIRATIME)
    } else if str_eq(opt, "dirsync") {
        Some(MS_DIRSYNC)
    } else if str_eq(opt, "noexec") {
        Some(MS_NOEXEC)
    } else if str_eq(opt, "mand") {
        Some(MS_MANDLOCK)
    } else if str_eq(opt, "relatime") {
        Some(MS_RELATIME)
    } else if str_eq(opt, "strictatime") {
        Some(MS_STRICTATIME)
    } else if str_eq(opt, "lazytime") {
        Some(MS_LAZYTIME)
    } else if str_eq(opt, "nosuid") {
        Some(MS_NOSUID)
    } else if str_eq(opt, "silent") {
        Some(MS_SILENT)
    } else if str_eq(opt, "remount") {
        Some(MS_REMOUNT)
    } else if str_eq(opt, "ro") {
        Some(MS_RDONLY)
    } else if str_eq(opt, "sync") {
        Some(MS_SYNCHRONOUS)
    } else if str_eq(opt, "nouser") {
        Some(MS_NOUSER)
    } else {
        None
    }
}

/// The texts of a list of strings.
pub open spec fn string_views(v: Seq<String>) -> Seq<Seq<char>> {
    v.map_values(|s: String| s@)
}

/// The flags and the other options of an OCF mount's options: the flags
/// that options name, or-ed together, and the rest joined with `,` (no
/// `,` is put after an empty beginning).
pub open spec fn fold_mount_options(options: Seq<Seq<char>>) -> (u64, Seq<u8>)
    decreases options.len(),
{
    if options.len() == 0 {
        (0, Seq::empty())
    } else {
        let (flags, rest) = fold_mount_options(options.drop_last());
        let opt = options.last();
        match spec_mount_flag(opt) {
            Some(f) => (flags | f, rest),
            None => (
                flags,
                if rest.len() == 0 {
                    encode_utf8(opt)
                } else {
                    rest + seq![0x2cu8] + encode_utf8(opt)
                },
            ),
        }
    }
}

/// Each option of an OCF mount that names a mount flag gives the kernel's
/// flag of that name: `bind` gives `MS_BIND`, `noexec` gives `MS_NOEXEC`,
/// `nosuid` gives `MS_NOSUID`, `ro` gives `MS_RDONLY`, and so on; other
/// options, such as `mode=755`, give none.
pub proof fn lemma_mount_flag_names()
    ensures
        spec_mount_flag("bind"@) == Some(0x1000u64),
        spec_mount_flag("move"@) == Some(0x2000u64),
        spec_mount_flag("private"@) == Some(0x40000u64),
        spec_mount_flag("slave"@) == Some(0x80000u64),
        spec_mount_flag("shared"@) == Some(0x100000u64),
        spec_mount_flag("acl"@) == Some(0x10000u64),
        spec_mount_flag("noatime"@) == Some(0x400u64),
        spec_mount_flag("nodev"@) == Some(0x4u64),
        spec_mount_flag("nodiratime"@) == Some(0x800u64),
        spec_mount_flag("dirsync"@) == Some(0x80u64),
        spec_mount_flag("noexec"@) == Some(0x8u64),
        spec_mount_flag("mand"@) == Some(0x40u64),
        spec_mount_flag("relatime"@) == Some(0x200000u64),
        spec_mount_flag("strictatime"@) == Some(0x1000000u64),
        spec_mount_flag("lazytime"@) == Some(0x2000000u64),
        spec_mount_flag("nosuid"@) == Some(0x2u64),
        spec_mount_flag("silent"@) == Some(0x8000u64),
        spec_mount_flag("remount"@) == Some(0x20u64),
        spec_mount_flag("ro"@) == Some(0x1u64),
        spec_mount_flag("sync"@) == Some(0x10u64),
        spec_mount_flag("nouser"@) == Some(0x80000000u64),
        spec_mount_flag("mode=755"@) is None,
        spec_mount_flag(""@) is None,
{
    reveal_strlit("bind");
    reveal_strlit("move");
    reveal_strlit("private");
    reveal_strlit("slave");
    reveal_strlit("shared");
    reveal_strlit("acl");
    reveal_strlit("noatime");
    reveal_strlit("nodev");
    reveal_strlit("nodiratime");
    reveal_strlit("dirsync");
    reveal_strlit("noexec");
    reveal_strlit("mand");
    reveal_strlit("relatime");
    reveal_strlit("strictatime");
    reveal_strlit("lazytime");
    reveal_strlit("nosuid");
    reveal_strlit("silent");
    reveal_strlit("remount");
    reveal_strlit("ro");
    reveal_strlit("sync");
    reveal_strlit("nouser");
    reveal_strlit("mode=755");
    reveal_strlit("");
    assert("bind"@.len() == 4);
    assert("move"@.len() == 4);
    assert("private"@.len() == 7);
    assert("slave"@.len() == 5);
    assert("shared"@.len() == 6);
    assert("acl"@.len() == 3);
    assert("noatime"@.len() == 7);
    assert("nodev"@.len() == 5);
    assert("nodiratime"@.len() == 10);
    assert("dirsync"@.len() == 7);
    assert("noexec"@.len() == 6);
    assert("mand"@.len() == 4);
    assert("relatime"@.len() == 8);
    assert("strictatime"@.len() == 11);
    assert("lazytime"@.len() == 8);
    assert("nosuid"@.len() == 6);
    assert("silent"@.len() == 6);
    assert("remount"@.len() == 7);
    assert("ro"@.len() == 2);
    assert("sync"@.len() == 4);
    assert("nouser"@.len() == 6);
    assert("mode=755"@.len() == 8);
    assert("move"@[0] != "bind"@[0]);
    assert("noatime"@[0] != "private"@[0]);
    assert("nodev"@[0] != "slave"@[0]);
    assert("dirsync"@[0] != "private"@[0]);
    assert("dirsync"@[0] != "noatime"@[0]);
    assert("noexec"@[0] != "shared"@[0]);
    assert("mand"@[0] != "bind"@[0]);
    assert("mand"@[1] != "move"@[1]);
    assert("lazytime"@[0] != "relatime"@[0]);
    assert("nosuid"@[0] != "shared"@[0]);
    assert("nosuid"@[2] != "noexec"@[2]);
    assert("silent"@[1] != "shared"@[1]);
    assert("silent"@[0] != "noexec"@[0]);
    assert("silent"@[0] != "nosuid"@[0]);
    assert("remount"@[0] != "private"@[0]);
    assert("remount"@[0] != "noatime"@[0]);
    assert("remount"@[0] != "dirsync"@[0]);
    assert("sync"@[0] != "bind"@[0]);
    assert("sync"@[0] != "move"@[0]);
    assert("sync"@[0] != "mand"@[0]);
    assert("nouser"@[0] != "shared"@[0]);
    assert("nouser"@[2] != "noexec"@[2]);
    assert("nouser"@[2] != "nosuid"@[2]);
    assert("nouser"@[0] != "silent"@[0]);
    assert("mode=755"@[0] != "relatime"@[0]);
    assert("mode=755"@[0] != "lazytime"@[0]);
}

/// The flags of a mount's options hold the flag of every option that
/// names one; options that name none add no flag.
pub proof fn lemma_fold_mount_flags(options: Seq<Seq<char>>)
    ensures
        forall|i: int|
            0 <= i < options.len() ==> (spec_mount_flag(#[trigger] options[i]) matches Some(f)
                ==> fold_mount_options(options).0 & f == f),
        (forall|i: int| 0 <= i < options.len() ==> (#[trigger] spec_mount_flag(options[i])) is None)
            ==> fold_mount_options(options).0 == 0,
    decreases options.len(),
{
    if options.len() > 0 {
        let init = options.drop_last();
        lemma_fold_mount_flags(init);
        let a = fold_mount_options(init).0;
        assert forall|i: int|
            0 <= i < options.len() implies (spec_mount_flag(#[trigger] options[i]) matches Some(f)
                ==> fold_mount_options(options).0 & f == f) by {
            if let Some(f) = spec_mount_flag(options[i]) {
            match spec_mount_flag(options.last()) {
                Some(g) => {
                    if i == options.len() - 1 {
                        assert((a | f) & f == f) by (bit_vector);
                    } else {
                        assert(init[i] == options[i]);
                        assert(a & f == f);
                        assert((a & f == f) ==> ((a | g) & f == f)) by (bit_vector);
                    }
                },
                None => {
                    assert(init[i] == options[i]);
                },
            }
            }
        }
        if forall|i: int| 0 <= i < options.len() ==> (#[trigger] spec_mount_flag(options[i])) is None {
            assert forall|i: int| 0 <= i < init.len() implies (#[trigger] spec_mount_flag(init[i])) is None by {
                assert(init[i] == options[i]);
            }
            assert(spec_mount_flag(options[options.len() - 1]) is None);
        }
    }
}

/// The flags and data of a mount's options; the option `x-mount-mkdir` is
/// not supported.
pub fn mount_options(options: &Vec<String>) -> (r: (u64, Vec<u8>))
    requires
        !string_views(options@).contains("x-mount-mkdir"@),
    ensures
        (r.0, r.1@) == fold_mount_options(string_views(options@)),
{
    let n: usize = options.len();
    let mut flags: u64 = 0;
    let mut rest: Vec<u8> = Vec::new();
    let mut i: usize = 0;
    assert(string_views(options@).take(0) =~= Seq::<Seq<char>>::empty());
    while i < n
        invariant
            n == options@.len(),
            i <= n,
            (flags, rest@) == fold_mount_options(string_views(options@).take(i as int)),
        decreases n - i,
    {
        let opt = options[i].as_str();
        proof {
            let t = string_views(options@).take(i + 1);
            assert(t.drop_last() =~= string_views(options@).take(i as int));
            assert(t.last() == opt@);
        }
        match mount_flag(opt) {
            Some(f) => {
                flags = flags | f;
            },
            None => {
                if rest.len() != 0 {
                    rest.push(0x2cu8);
                }
                push_all(&mut rest, opt.as_bytes());
            },
        }
        i = i + 1;
    }
    assert(string_views(options@).take(n as int) =~= string_views(options@));
    (flags, rest)
}

/// The index of the first runtime mount named `name`.
pub open spec fn find_runtime_mount(mounts: Seq<OcfRuntimeMount>, name: Seq<char>) -> Option<int>
    decreases mounts.len(),
{
    if mounts.len() == 0 {
        None
    } else if mounts[0].name@ == name {
        Some(0)
    } else {
        match find_runtime_mount(mounts.drop_first(), name) {
            Some(k) => Some(k + 1),
            None => None,
        }
    }
}

/// The runtime mount found for a name is the first with that name, and
/// one is found exactly where some runtime mount has that name.
pub proof fn lemma_find_runtime_mount(mounts: Seq<OcfRuntimeMount>, name: Seq<char>)
    ensures
        find_runtime_mount(mounts, name) matches Some(k) ==> 0 <= k < mounts.len()
            && mounts[k].name@ == name && forall|j: int| 0 <= j < k ==> (#[trigger] mounts[j]).name@ != name,
        find_runtime_mount(mounts, name) is None <==> forall|j: int|
            0 <= j < mounts.len() ==> (#[trigger] mounts[j]).name@ != name,
    decreases mounts.len(),
{
    if mounts.len() > 0 {
        let rest = mounts.drop_first();
        lemma_find_runtime_mount(rest, name);
        if mounts[0].name@ != name {
            if let Some(k) = find_runtime_mount(rest, name) {
                assert forall|j: int| 0 <= j < k + 1 implies (#[trigger] mounts[j]).name@ != name by {
                    if j > 0 {
                        assert(mounts[j] == rest[j - 1]);
                    }
                }
                assert(mounts[k + 1] == rest[k]);
            }
            if find_runtime_mount(rest, name) is None {
                assert forall|j: int| 0 <= j < mounts.len() implies (#[trigger] mounts[j]).name@ != name by {
                    if j > 0 {
                        assert(mounts[j] == rest[j - 1]);
                    }
                }
            } else {
                let k = find_runtime_mount(rest, name)->0;
                assert(mounts[k + 1] == rest[k]);
            }
        }
    }
}

/// The runtime mount named `name`.
pub fn runtime_mount_index(mounts: &Vec<OcfRuntimeMount>, name: &String) -> (r: Option<usize>)
    ensures
        match r {
            Some(k) => find_runtime_mount(mounts@, name@) == Some(k as int) && k < mounts@.len()
                && mounts@[k as int].name@ == name@,
            None => find_runtime_mount(mounts@, name@) is None,
        },
{
    proof {
        lemma_find_runtime_mount(mounts@, name@);
    }
    let n: usize = mounts.len();
    let mut i: usize = 0;
    assert(mounts@.skip(0) =~= mounts@);
    while i < n
        invariant
            n == mounts@.len(),
            i <= n,
            find_runtime_mount(mounts@, name@) == match find_runtime_mount(mounts@.skip(i as int), name@) {
                Some(k) => Some(k + i),
                None => None,
            },
        decreases n - i,
    {
        assert(mounts@.skip(i as int).drop_first() =~= mounts@.skip(i + 1));
        assert(mounts@.skip(i as int)[0] == mounts@[i as int]);
        if str_eq(mounts[i].name.as_str(), name.as_str()) {
            return Some(i);
        }
        i = i + 1;
    }
    assert(mounts@.skip(n as int) =~= Seq::<OcfRuntimeMount>::empty());
    None
}

} // verus!
