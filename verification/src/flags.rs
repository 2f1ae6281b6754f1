use vstd::prelude::*;

verus! {

// Mount flags (`mount(2)`), as the Linux kernel numbers them.
pub const MS_RDONLY: u64 = 0x1;
pub const MS_NOSUID: u64 = 0x2;
pub const MS_NODEV: u64 = 0x4;
pub const MS_NOEXEC: u64 = 0x8;
pub const MS_SYNCHRONOUS: u64 = 0x10;
pub const MS_REMOUNT: u64 = 0x20;
pub const MS_MANDLOCK: u64 = 0x40;
pub const MS_DIRSYNC: u64 = 0x80;
pub const MS_NOATIME: u64 = 0x400;
pub const MS_NODIRATIME: u64 = 0x800;
pub const MS_BIND: u64 = 0x1000;
pub const MS_MOVE: u64 = 0x2000;
pub const MS_REC: u64 = 0x4000;
pub const MS_SILENT: u64 = 0x8000;
pub const MS_POSIXACL: u64 = 0x10000;
pub const MS_PRIVATE: u64 = 0x40000;
pub const MS_SLAVE: u64 = 0x80000;
pub const MS_SHARED: u64 = 0x100000;
pub const MS_RELATIME: u64 = 0x200000;
pub const MS_STRICTATIME: u64 = 0x1000000;
pub const MS_LAZYTIME: u64 = 0x2000000;
pub const MS_NOUSER: u64 = 0x80000000;

// Namespace flags of `clone(2)` and `setns(2)`.
pub const CLONE_NEWNS: i32 = 0x20000;
pub const CLONE_NEWUTS: i32 = 0x4000000;
pub const CLONE_NEWIPC: i32 = 0x8000000;
pub const CLONE_NEWUSER: i32 = 0x10000000;
pub const CLONE_NEWPID: i32 = 0x20000000;
pub const CLONE_NEWNET: i32 = 0x40000000;

/// The signal a child sends its parent when it ends.
pub const SIGCHLD: i32 = 17;

// File types of `mknod(2)`.
pub const S_IFIFO: u32 = 0o10000;
pub const S_IFCHR: u32 = 0o20000;
pub const S_IFBLK: u32 = 0o60000;

/// The permission bits of a file mode.
pub const MODE_BITS: u32 = 0o7777;

// Error numbers.
pub const EINTR: i32 = 4;
pub const EINVAL: i32 = 22;

} // verus!
