use encage_runtime::flags::{
    CLONE_NEWIPC, CLONE_NEWNET, CLONE_NEWNS, CLONE_NEWPID, CLONE_NEWUSER, CLONE_NEWUTS, EINTR,
    EINVAL, MODE_BITS, MS_BIND, MS_DIRSYNC, MS_LAZYTIME, MS_MANDLOCK, MS_MOVE, MS_NOATIME,
    MS_NODEV, MS_NODIRATIME, MS_NOEXEC, MS_NOSUID, MS_NOUSER, MS_POSIXACL, MS_PRIVATE, MS_RDONLY,
    MS_REC, MS_RELATIME, MS_REMOUNT, MS_SHARED, MS_SILENT, MS_SLAVE, MS_STRICTATIME,
    MS_SYNCHRONOUS, S_IFBLK, S_IFCHR, S_IFIFO, SIGCHLD,
};
use nix::mount::MsFlags;
use nix::sched::CloneFlags;

#[test]
fn mount_flags_match_the_kernel() {
    assert_eq!(MS_RDONLY, MsFlags::MS_RDONLY.bits() as u64);
    assert_eq!(MS_NOSUID, MsFlags::MS_NOSUID.bits() as u64);
    assert_eq!(MS_NODEV, MsFlags::MS_NODEV.bits() as u64);
    assert_eq!(MS_NOEXEC, MsFlags::MS_NOEXEC.bits() as u64);
    assert_eq!(MS_SYNCHRONOUS, MsFlags::MS_SYNCHRONOUS.bits() as u64);
    assert_eq!(MS_REMOUNT, MsFlags::MS_REMOUNT.bits() as u64);
    assert_eq!(MS_MANDLOCK, MsFlags::MS_MANDLOCK.bits() as u64);
    assert_eq!(MS_DIRSYNC, MsFlags::MS_DIRSYNC.bits() as u64);
    assert_eq!(MS_NOATIME, MsFlags::MS_NOATIME.bits() as u64);
    assert_eq!(MS_NODIRATIME, MsFlags::MS_NODIRATIME.bits() as u64);
    assert_eq!(MS_BIND, MsFlags::MS_BIND.bits() as u64);
    assert_eq!(MS_MOVE, MsFlags::MS_MOVE.bits() as u64);
    assert_eq!(MS_REC, MsFlags::MS_REC.bits() as u64);
    assert_eq!(MS_SILENT, MsFlags::MS_SILENT.bits() as u64);
    assert_eq!(MS_POSIXACL, MsFlags::MS_POSIXACL.bits() as u64);
    assert_eq!(MS_PRIVATE, MsFlags::MS_PRIVATE.bits() as u64);
    assert_eq!(MS_SLAVE, MsFlags::MS_SLAVE.bits() as u64);
    assert_eq!(MS_SHARED, MsFlags::MS_SHARED.bits() as u64);
    assert_eq!(MS_RELATIME, MsFlags::MS_RELATIME.bits() as u64);
    assert_eq!(MS_STRICTATIME, MsFlags::MS_STRICTATIME.bits() as u64);
    assert_eq!(MS_LAZYTIME, MsFlags::MS_LAZYTIME.bits() as u64);
    assert_eq!(MS_NOUSER, MsFlags::MS_NOUSER.bits() as u64);
}

#[test]
fn clone_flags_match_the_kernel() {
    assert_eq!(CLONE_NEWNS, CloneFlags::CLONE_NEWNS.bits());
    assert_eq!(CLONE_NEWUTS, CloneFlags::CLONE_NEWUTS.bits());
    assert_eq!(CLONE_NEWIPC, CloneFlags::CLONE_NEWIPC.bits());
    assert_eq!(CLONE_NEWUSER, CloneFlags::CLONE_NEWUSER.bits());
    assert_eq!(CLONE_NEWPID, CloneFlags::CLONE_NEWPID.bits());
    assert_eq!(CLONE_NEWNET, CloneFlags::CLONE_NEWNET.bits());
    assert_eq!(SIGCHLD, nix::sys::signal::Signal::SIGCHLD as i32);
}

#[test]
fn file_types_and_errors_match_the_kernel() {
    assert_eq!(S_IFIFO, nix::sys::stat::SFlag::S_IFIFO.bits() as u32);
    assert_eq!(S_IFCHR, nix::sys::stat::SFlag::S_IFCHR.bits() as u32);
    assert_eq!(S_IFBLK, nix::sys::stat::SFlag::S_IFBLK.bits() as u32);
    assert_eq!(MODE_BITS, nix::sys::stat::Mode::all().bits() as u32);
    assert_eq!(EINVAL, nix::errno::Errno::EINVAL as i32);
    assert_eq!(EINTR, nix::errno::Errno::EINTR as i32);
}
