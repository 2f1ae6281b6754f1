use vstd::prelude::*;

use crate::cbytes::{ascii_bytes, CBytes};
use crate::config::Config;
use crate::into_cow::{cow_bytes, into_cbytes, IntoCow};
use crate::flags::S_IFCHR;
use crate::plan::{
    lemma_settled_no_defer, no_defer, plan_view, step_view, CallView, OnError, Step, StepView,
    Syscall,
};

verus! {

/// A device node in the container: its path, file type (`S_IFCHR`, ...),
/// permission bits and (major, minor) numbers.
#[derive(Debug)]
pub struct Device {
    path: CBytes,
    kind: u32,
    mode: u32,
    device: (u64, u64),
}

/// The device number of (`major`, `minor`) in the GNU C library's layout:
/// the low 8 bits of the minor number, then the low 12 bits of the major
/// number, then the rest of the minor number, then the rest of the major.
pub open spec fn spec_makedev(major: u64, minor: u64) -> u64 {
    (minor & 0xff) | ((major & 0xfff) << 8u64) | ((minor & !0xffu64) << 12u64) | ((major
        & !0xfffu64) << 32u64)
}

/// The major number of a device number in that layout.
pub open spec fn spec_dev_major(dev: u64) -> u64 {
    ((dev >> 8u64) & 0xfff) | ((dev >> 32u64) & 0xffff_f000)
}

/// The minor number of a device number in that layout.
pub open spec fn spec_dev_minor(dev: u64) -> u64 {
    (dev & 0xff) | ((dev >> 12u64) & 0xffff_ff00)
}

/// The device number of (`major`, `minor`).
pub fn gnu_makedev(major: u64, minor: u64) -> (r: u64)
    ensures
        r == spec_makedev(major, minor),
{
    (minor & 0xff) | ((major & 0xfff) << 8u64) | ((minor & !0xffu64) << 12u64) | ((major
        & !0xfffu64) << 32u64)
}

/// A device number made of 32-bit major and minor numbers gives them
/// back: the layout loses nothing.
pub proof fn lemma_makedev_inverse(major: u64, minor: u64)
    requires
        major < 0x1_0000_0000,
        minor < 0x1_0000_0000,
    ensures
        spec_dev_major(spec_makedev(major, minor)) == major,
        spec_dev_minor(spec_makedev(major, minor)) == minor,
{
    assert(spec_dev_major(
        (minor & 0xff) | ((major & 0xfff) << 8u64) | ((minor & !0xffu64) << 12u64) | ((major
            & !0xfffu64) << 32u64),
    ) == major) by (bit_vector)
        requires
            major < 0x1_0000_0000,
            minor < 0x1_0000_0000,
    ;
    assert(spec_dev_minor(
        (minor & 0xff) | ((major & 0xfff) << 8u64) | ((minor & !0xffu64) << 12u64) | ((major
            & !0xfffu64) << 32u64),
    ) == minor) by (bit_vector)
        requires
            major < 0x1_0000_0000,
            minor < 0x1_0000_0000,
    ;
}

/// Make the node.
pub open spec fn device_plan(path: Seq<u8>, kind: u32, mode: u32, major: u64, minor: u64) -> Seq<
    StepView,
> {
    seq![
        step_view(
            CallView::MakeNode { path, kind, mode, dev: spec_makedev(major, minor) },
            OnError::Abort,
            false,
        ),
    ]
}

/// `d` is the node `path` (ASCII) of type `kind` with permissions `mode`
/// and numbers (`major`, `minor`).
pub open spec fn device_is(d: Device, path: Seq<char>, kind: u32, mode: u32, major: u64, minor: u64) -> bool {
    &&& d.spec_path() == ascii_bytes(path)
    &&& d.spec_kind() == kind
    &&& d.spec_mode() == mode
    &&& d.spec_device() == (major, minor)
}

impl Device {
    pub closed spec fn spec_path(&self) -> Seq<u8> {
        self.path@
    }

    pub closed spec fn spec_kind(&self) -> u32 {
        self.kind
    }

    pub closed spec fn spec_mode(&self) -> u32 {
        self.mode
    }

    pub closed spec fn spec_device(&self) -> (u64, u64) {
        self.device
    }

    pub fn new<'a, P: IntoCow<'a, CBytes>>(path: P, kind: u32, mode: u32, device: (u64, u64)) -> (r: Device)
        ensures
            r.spec_path() == cow_bytes(path),
            r.spec_kind() == kind,
            r.spec_mode() == mode,
            r.spec_device() == device,
    {
        Device { path: into_cbytes(path), kind, mode, device }
    }
}

impl Config for Device {
    open spec fn spec_clone_flags(&self) -> i32 {
        0
    }

    open spec fn spec_prepare(&self) -> Seq<StepView> {
        device_plan(
            self.spec_path(),
            self.spec_kind(),
            self.spec_mode(),
            self.spec_device().0,
            self.spec_device().1,
        )
    }

    proof fn lemma_prepare_settled(&self) {
        assert(no_defer(self.spec_prepare()));
        lemma_settled_no_defer(self.spec_prepare());
    }

    fn clone_flags(&self) -> (r: i32) {
        0
    }

    fn prepare(&self) -> (r: Vec<Step>) {
        let dev = gnu_makedev(self.device.0, self.device.1);
        let steps: Vec<Step> = vec![
            Step {
                call: Syscall::MakeNode {
                    path: self.path.duplicate(),
                    kind: self.kind,
                    mode: self.mode,
                    dev,
                },
                on_error: OnError::Abort,
                settle: false,
            },
        ];
        assert(plan_view(steps@) =~= self.spec_prepare());
        steps
    }
}

/// The devices of `default_devices`, in order.
pub open spec fn is_default_devices(s: Seq<Device>) -> bool {
    &&& s.len() == 6
    &&& device_is(s[0], "/dev/null"@, S_IFCHR, 0o666, 1, 3)
    &&& device_is(s[1], "/dev/zero"@, S_IFCHR, 0o666, 1, 5)
    &&& device_is(s[2], "/dev/full"@, S_IFCHR, 0o666, 1, 7)
    &&& device_is(s[3], "/dev/random"@, S_IFCHR, 0o666, 1, 8)
    &&& device_is(s[4], "/dev/urandom"@, S_IFCHR, 0o666, 1, 9)
    &&& device_is(s[5], "/dev/tty"@, S_IFCHR, 0o666, 5, 0)
}

/// The character devices every container gets, readable and writable by
/// all: null (1, 3), zero (1, 5), full (1, 7), random (1, 8), urandom
/// (1, 9) and tty (5, 0).
pub fn default_devices() -> (r: Vec<Device>)
    ensures
        r@.len() == 6,
        device_is(r@[0], "/dev/null"@, S_IFCHR, 0o666, 1, 3),
        device_is(r@[1], "/dev/zero"@, S_IFCHR, 0o666, 1, 5),
        device_is(r@[2], "/dev/full"@, S_IFCHR, 0o666, 1, 7),
        device_is(r@[3], "/dev/random"@, S_IFCHR, 0o666, 1, 8),
        device_is(r@[4], "/dev/urandom"@, S_IFCHR, 0o666, 1, 9),
        device_is(r@[5], "/dev/tty"@, S_IFCHR, 0o666, 5, 0),
{
    proof {
        reveal_strlit("/dev/null");
        reveal_strlit("/dev/zero");
        reveal_strlit("/dev/full");
        reveal_strlit("/dev/random");
        reveal_strlit("/dev/urandom");
        reveal_strlit("/dev/tty");
    }
    let world: u32 = 0o666;
    vec![
        Device::new(CBytes::from_ascii("/dev/null"), S_IFCHR, world, (1, 3)),
        Device::new(CBytes::from_ascii("/dev/zero"), S_IFCHR, world, (1, 5)),
        Device::new(CBytes::from_ascii("/dev/full"), S_IFCHR, world, (1, 7)),
        Device::new(CBytes::from_ascii("/dev/random"), S_IFCHR, world, (1, 8)),
        Device::new(CBytes::from_ascii("/dev/urandom"), S_IFCHR, world, (1, 9)),
        Device::new(CBytes::from_ascii("/dev/tty"), S_IFCHR, world, (5, 0)),
    ]
}

/// Preparing a device makes its node with its path, type, permissions and
/// device number.
pub proof fn lemma_device_steps(d: Device)
    ensures
        (d.spec_prepare() == seq![
            step_view(CallView::MakeNode {
                    path: d.spec_path(),
                    kind: d.spec_kind(),
                    mode: d.spec_mode(),
                    dev: spec_makedev(d.spec_device().0, d.spec_device().1),
                }, OnError::Abort, false),
        ]),
{
}

/// Small device numbers keep the traditional layout: the major number in
/// the second byte, the minor number in the first.
pub proof fn lemma_makedev_small(major: u64, minor: u64)
    requires
        major < 0x1000,
        minor < 0x100,
    ensures
        spec_makedev(major, minor) == major * 256 + minor,
{
    assert((minor & 0xff) | ((major & 0xfff) << 8u64) | ((minor & !0xffu64) << 12u64) | ((major
        & !0xfffu64) << 32u64) == (major << 8u64) | minor) by (bit_vector)
        requires
            major < 0x1000,
            minor < 0x100;
    assert((major << 8u64) | minor == major * 256 + minor) by (bit_vector)
        requires
            major < 0x1000,
            minor < 0x100;
}

} // verus!
