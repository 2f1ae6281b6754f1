use encage_runtime::flags::{
    CLONE_NEWIPC, CLONE_NEWNS, CLONE_NEWPID, CLONE_NEWUTS, EINTR, EINVAL, MS_BIND, MS_NODEV,
    MS_NOEXEC, MS_NOSUID, MS_REC, MS_REMOUNT, MS_SLAVE, MS_STRICTATIME, S_IFCHR, SIGCHLD,
};
use encage_runtime::{
    default_devices, default_mounts, default_symlinks, gnu_makedev, reaper_exit_status,
    run_clone_flags, wait_verdict, child_action, CBytes, ChildAction, Capabilities, Command, Config, Configs, Device,
    Hostname, Mount, Namespace, NamespaceKind, OnError, Outcome, Root, Runner, Step, Symlink,
    Syscall, User, WaitEvent, WaitVerdict,
};

fn c(s: &str) -> CBytes {
    CBytes::from_str(s).unwrap()
}

/// Runs a plan, the calls coming back with `outcomes` in turn; gives the
/// result and the number of calls performed.
fn run(steps: Vec<Step>, outcomes: &[Outcome]) -> (Result<(), i32>, usize) {
    let mut runner = Runner::new(steps);
    let mut performed = 0;
    while runner.next_call().is_some() {
        let out = outcomes[performed];
        performed += 1;
        runner.feed(out);
    }
    (runner.result(), performed)
}

fn all_done(n: usize) -> Vec<Outcome> {
    vec![Outcome::Done; n]
}

#[test]
fn chain_ors_clone_flags() {
    let chain = Namespace::with_kind(NamespaceKind::PID).chain(Namespace::with_kind(NamespaceKind::UTS));
    assert_eq!(chain.clone_flags(), CLONE_NEWPID | CLONE_NEWUTS);
    let configs = Configs::new(vec![
        Namespace::with_kind(NamespaceKind::Mount),
        Namespace::with_kind(NamespaceKind::IPC),
        Namespace::with_path(NamespaceKind::UTS, c("/proc/1/ns/uts")),
    ]);
    assert_eq!(configs.clone_flags(), CLONE_NEWNS | CLONE_NEWIPC);
    assert_eq!(run_clone_flags(&configs), CLONE_NEWNS | CLONE_NEWIPC | SIGCHLD);
}

#[test]
fn chain_prepares_second_only_after_first() {
    let chain = Root::new(c("/new"), c("/work")).chain(Hostname::new("box".to_string()));
    let steps = chain.prepare();
    assert_eq!(steps.len(), 3);
    assert!(matches!(&steps[0].call, Syscall::Chroot { path } if path.as_bytes() == b"/new"));
    assert!(matches!(&steps[1].call, Syscall::Chdir { path } if path.as_bytes() == b"/work"));
    assert!(matches!(&steps[2].call, Syscall::SetHostname { name } if name == b"box"));
    // The chroot fails: nothing else is performed.
    let (result, performed) = run(chain.prepare(), &[Outcome::Failed(1), Outcome::Done, Outcome::Done]);
    assert_eq!(result, Err(1));
    assert_eq!(performed, 1);
    // The first part succeeds, the second fails: its error.
    let (result, performed) = run(chain.prepare(), &[Outcome::Done, Outcome::Done, Outcome::Failed(7)]);
    assert_eq!(result, Err(7));
    assert_eq!(performed, 3);
    let (result, _) = run(chain.prepare(), &all_done(3));
    assert_eq!(result, Ok(()));
}

#[test]
fn configs_prepare_in_order() {
    let configs = Configs::new(vec![
        Symlink::new(c("/a"), c("/b")),
        Symlink::new(c("/c"), c("/d")),
    ]);
    let steps = configs.prepare();
    assert_eq!(steps.len(), 2);
    assert!(matches!(&steps[1].call, Syscall::Symlink { target, linkpath }
        if target.as_bytes() == b"/c" && linkpath.as_bytes() == b"/d"));
    let (result, performed) = run(configs.prepare(), &[Outcome::Failed(17), Outcome::Done]);
    assert_eq!((result, performed), (Err(17), 1));
}

#[test]
fn absent_part_prepares_nothing() {
    let none: Option<User> = None;
    assert_eq!(none.clone_flags(), 0);
    assert!(none.prepare().is_empty());
    let some = Some(User::new(1000, 100, vec![10, 20]));
    let steps = some.prepare();
    assert_eq!(steps.len(), 3);
    assert!(matches!(steps[0].call, Syscall::SetGid { gid: 100 }));
    assert!(matches!(&steps[1].call, Syscall::SetGroups { groups } if groups == &vec![10, 20]));
    assert!(matches!(steps[2].call, Syscall::SetUid { uid: 1000 }));
}

#[test]
fn new_namespace_asks_for_its_flag() {
    assert_eq!(NamespaceKind::PID.clone_flag(), CLONE_NEWPID);
    assert_eq!(Namespace::with_kind(NamespaceKind::IPC).clone_flags(), CLONE_NEWIPC);
    assert_eq!(Namespace::new(NamespaceKind::IPC, Some(c("/x"))).clone_flags(), 0);
    assert!(Namespace::with_kind(NamespaceKind::UTS).prepare().is_empty());
    let steps = Namespace::with_kind(NamespaceKind::Mount).prepare();
    assert_eq!(steps.len(), 1);
    match &steps[0].call {
        Syscall::Mount { source, target, fstype, flags, data } => {
            assert_eq!(source.as_ref().unwrap().as_bytes(), b"");
            assert_eq!(target.as_bytes(), b"/");
            assert_eq!(fstype.as_ref().unwrap().as_bytes(), b"");
            assert_eq!(*flags, MS_SLAVE | MS_REC);
            assert_eq!(data.as_ref().unwrap().as_bytes(), b"");
        }
        other => panic!("unexpected {:?}", other),
    }
}

#[test]
fn joining_a_namespace_reports_join_error_last() {
    let ns = Namespace::with_path(NamespaceKind::PID, c("/proc/1/ns/pid"));
    let steps = ns.prepare();
    assert_eq!(steps.len(), 4);
    assert!(matches!(&steps[0].call, Syscall::OpenNamespace { path } if path.as_bytes() == b"/proc/1/ns/pid"));
    assert!(matches!(steps[1].call, Syscall::SetNamespace { nstype: 0 }));
    assert!(matches!(steps[2].call, Syscall::CloseNamespace));
    assert!(matches!(steps[3].call, Syscall::ForkAndReap));
    // open fails: nothing more
    assert_eq!(run(ns.prepare(), &[Outcome::Failed(2)]), (Err(2), 1));
    // setns fails: close and fork still happen, then the setns error
    let outs = [Outcome::Done, Outcome::Failed(1), Outcome::Failed(9), Outcome::Done];
    assert_eq!(run(ns.prepare(), &outs), (Err(1), 4));
    // fork fails after a failed setns: the fork error
    let outs = [Outcome::Done, Outcome::Failed(1), Outcome::Done, Outcome::Failed(11)];
    assert_eq!(run(ns.prepare(), &outs), (Err(11), 4));
    // not a PID namespace: the join error once it is closed
    let uts = Namespace::with_path(NamespaceKind::UTS, c("/proc/1/ns/uts"));
    let outs = [Outcome::Done, Outcome::Failed(1), Outcome::Done];
    assert_eq!(run(uts.prepare(), &outs), (Err(1), 3));
    // and the join error stops what follows
    let chain = uts.chain(Hostname::new("h".to_string()));
    let outs = [Outcome::Done, Outcome::Failed(1), Outcome::Done, Outcome::Done];
    assert_eq!(run(chain.prepare(), &outs), (Err(1), 3));
}

#[test]
fn bind_mount_is_remounted() {
    let m = Mount::from_bind(c("/target"), c("/source"), MS_BIND | MS_SLAVE);
    let steps = m.prepare();
    assert_eq!(steps.len(), 3);
    assert!(matches!(&steps[0].call, Syscall::MakeDir { path, mode: 0o755 } if path.as_bytes() == b"/target"));
    assert_eq!(steps[0].on_error, OnError::Ignore);
    match &steps[2].call {
        Syscall::Mount { source, target, fstype, flags, data } => {
            assert_eq!(source.as_ref().unwrap().as_bytes(), b"/source");
            assert_eq!(target.as_bytes(), b"/target");
            assert!(fstype.is_none());
            assert_eq!(*flags, MS_REMOUNT | MS_BIND | MS_SLAVE);
            assert!(data.is_none());
        }
        other => panic!("unexpected {:?}", other),
    }
    // a failed mkdir does not matter
    let (result, _) = run(m.prepare(), &[Outcome::Failed(17), Outcome::Done, Outcome::Done]);
    assert_eq!(result, Ok(()));
    let (result, _) = run(m.prepare(), &[Outcome::Done, Outcome::Done, Outcome::Failed(5)]);
    assert_eq!(result, Err(5));
}

#[test]
fn plain_mount_and_cgroup() {
    let m = Mount::new(c("/proc"), Some(c("proc")), Some(c("proc")), 0, None::<CBytes>);
    assert_eq!(m.prepare().len(), 2);
    let cg = Mount::new(c("/sys/fs/cgroup"), Some(c("cgroup")), Some(c("cgroup")), 0, None::<CBytes>);
    let steps = cg.prepare();
    assert_eq!(steps.len(), 1);
    match &steps[0].call {
        Syscall::Notice { text } => assert_eq!(text, "TODO: cgroup mount"),
        other => panic!("unexpected {:?}", other),
    }
    assert_eq!(steps[0].on_error, OnError::Ignore);
}

#[test]
fn default_mounts_are_the_standard_ones() {
    let mounts = default_mounts();
    assert_eq!(mounts.len(), 7);
    let first = mounts[1].prepare();
    match &first[1].call {
        Syscall::Mount { source, target, fstype, flags, data } => {
            assert_eq!(target.as_bytes(), b"/dev");
            assert_eq!(source.as_ref().unwrap().as_bytes(), b"tmpfs");
            assert_eq!(fstype.as_ref().unwrap().as_bytes(), b"tmpfs");
            assert_eq!(*flags, MS_STRICTATIME | MS_NOSUID);
            assert_eq!(data.as_ref().unwrap().as_bytes(), b"mode=755,size=65536k");
        }
        other => panic!("unexpected {:?}", other),
    }
    match &mounts[4].prepare()[1].call {
        Syscall::Mount { source, target, flags, .. } => {
            assert_eq!(target.as_bytes(), b"/dev/shm");
            assert_eq!(source.as_ref().unwrap().as_bytes(), b"shm");
            assert_eq!(*flags, MS_NOEXEC | MS_NOSUID | MS_NODEV);
        }
        other => panic!("unexpected {:?}", other),
    }
}

#[test]
fn default_devices_and_links() {
    let devices = default_devices();
    assert_eq!(devices.len(), 6);
    match &devices[0].prepare()[0].call {
        Syscall::MakeNode { path, kind, mode, dev } => {
            assert_eq!(path.as_bytes(), b"/dev/null");
            assert_eq!(*kind, S_IFCHR);
            assert_eq!(*mode, 0o666);
            assert_eq!(*dev, libc::makedev(1, 3));
        }
        other => panic!("unexpected {:?}", other),
    }
    match &devices[5].prepare()[0].call {
        Syscall::MakeNode { path, dev, .. } => {
            assert_eq!(path.as_bytes(), b"/dev/tty");
            assert_eq!(*dev, libc::makedev(5, 0));
        }
        other => panic!("unexpected {:?}", other),
    }
    let links = default_symlinks();
    assert_eq!(links.len(), 4);
    assert!(matches!(&links[1].prepare()[0].call, Syscall::Symlink { target, linkpath }
        if target.as_bytes() == b"/proc/self/fd/0" && linkpath.as_bytes() == b"/dev/stdin"));
}

#[test]
fn makedev_matches_the_c_library() {
    for &(major, minor) in &[(0u64, 0u64), (1, 3), (8, 17), (259, 1_000_000), (0xfff, 0xff), (0x1234_5678, 0x9abc_def0)] {
        assert_eq!(gnu_makedev(major as u64, minor as u64), libc::makedev(major as u32, minor as u32));
        let dev = gnu_makedev(major, minor);
        assert_eq!(libc::major(dev) as u64, major);
        assert_eq!(libc::minor(dev) as u64, minor);
    }
    assert_eq!(gnu_makedev(1, 3), 259);
}

#[test]
fn device_plan_makes_the_node() {
    let d = Device::new(c("/dev/sda"), encage_runtime::flags::S_IFBLK, 0o660, (8, 0));
    match &d.prepare()[0].call {
        Syscall::MakeNode { dev, mode, .. } => {
            assert_eq!(*dev, 2048);
            assert_eq!(*mode, 0o660);
        }
        other => panic!("unexpected {:?}", other),
    }
}

#[test]
fn capabilities_drop_the_others() {
    let keep: u64 = (1 << 0) | (1 << 21);
    let steps = Capabilities::new(keep).prepare();
    assert_eq!(steps.len(), 61 + 1);
    assert!(matches!(steps[0].call, Syscall::DropBoundingCapability { cap: 1 }));
    assert_eq!(steps[0].on_error, OnError::IgnoreErrno(EINVAL));
    assert!(matches!(steps[61].call, Syscall::SetCapabilities { caps } if caps == keep));
    // an unknown capability is no error
    let mut outs = vec![Outcome::Failed(EINVAL); 61];
    outs.push(Outcome::Done);
    let (result, _) = run(Capabilities::new(keep).prepare(), &outs);
    assert_eq!(result, Ok(()));
    let mut outs = vec![Outcome::Done; 62];
    outs[3] = Outcome::Failed(1);
    let (result, performed) = run(Capabilities::new(keep).prepare(), &outs);
    assert_eq!((result, performed), (Err(1), 4));
}

#[test]
fn command_path_variable() {
    let cmd = Command::new(c("ls"), vec![c("ls")], vec![c("HOME=/"), c("PATH=/opt/bin"), c("PATH=/x")]);
    assert_eq!(cmd.path_variable().as_bytes(), b"PATH=/opt/bin");
    let cmd = Command::new(c("ls"), vec![c("ls")], vec![c("PATHX=1")]);
    assert_eq!(cmd.path_variable().as_bytes(), b"PATH=/bin:/usr/bin");
}

#[test]
fn wait_verdicts() {
    assert_eq!(wait_verdict(&WaitEvent::StillAlive), WaitVerdict::Wait);
    assert_eq!(wait_verdict(&WaitEvent::Stopped), WaitVerdict::Wait);
    assert_eq!(wait_verdict(&WaitEvent::Continued), WaitVerdict::Wait);
    assert_eq!(wait_verdict(&WaitEvent::Failed(EINTR)), WaitVerdict::Wait);
    assert_eq!(wait_verdict(&WaitEvent::Exited(3)), WaitVerdict::Exited(3));
    assert_eq!(wait_verdict(&WaitEvent::Signaled), WaitVerdict::Abnormal);
    assert_eq!(wait_verdict(&WaitEvent::Failed(10)), WaitVerdict::Abnormal);
    assert_eq!(reaper_exit_status(&WaitVerdict::Wait), None);
    assert_eq!(reaper_exit_status(&WaitVerdict::Exited(4)), Some(4));
    assert_eq!(reaper_exit_status(&WaitVerdict::Abnormal), Some(1));
}

#[test]
fn c_string_conversion() {
    let err = CBytes::new(b"ab\0cd\0".to_vec()).unwrap_err();
    assert_eq!(err.nul_position(), 2);
    assert_eq!(err.into_vec(), b"ab\0cd\0".to_vec());
    assert_eq!(CBytes::new(b"abc".to_vec()).unwrap().as_bytes(), b"abc");
    assert!(CBytes::from_str("a\0").is_err());
    assert!(CBytes::from_str("").unwrap().as_bytes().is_empty());
}

#[test]
fn empty_plan_names_no_call() {
    let runner = Runner::new(Vec::new());
    assert!(runner.next_call().is_none());
    assert_eq!(runner.result(), Ok(()));
}

#[test]
fn runner_stops_at_a_failed_mount() {
    let m = Mount::new(c("/mnt"), Some(c("/src")), None::<CBytes>, MS_BIND, None::<CBytes>);
    let steps = m.prepare();
    assert_eq!(steps.len(), 3);
    // The mkdir may fail; the mount may not, and the remount is then not performed.
    let (result, performed) = run(m.prepare(), &[Outcome::Failed(17), Outcome::Failed(2), Outcome::Done]);
    assert_eq!((result, performed), (Err(2), 2));
}

#[test]
fn child_runs_the_command_only_after_preparing() {
    assert_eq!(child_action(Ok(())), ChildAction::Exec);
    assert_eq!(child_action(Err(1)), ChildAction::Exit { errno: 1, status: 1 });
}
