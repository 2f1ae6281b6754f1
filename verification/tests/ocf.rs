use encage_runtime::flags::{
    CLONE_NEWNS, CLONE_NEWUTS, MS_BIND, MS_NODEV, MS_NOSUID, MS_PRIVATE, MS_RDONLY, S_IFBLK,
    S_IFCHR,
};
use encage_runtime::{
    mount_flag, mount_options, ocf_config, Arch, Config, ConfigIssue, NamespaceKind, OcfDevice,
    OcfError, OcfLinux, OcfMountPoint, OcfNamespace, OcfPlatform, OcfProcess, OcfRuntime,
    OcfRuntimeMount, OcfSpec, OcfUser, Propagation, Syscall,
};

fn s(x: &str) -> String {
    x.to_string()
}

fn spec() -> OcfSpec {
    OcfSpec {
        platform: Some(OcfPlatform { arch: Arch::X86_64, capabilities: vec![0, 5] }),
        hostname: Some(s("box")),
        mounts: vec![OcfMountPoint { name: s("proc"), path: s("/proc") }],
        root_path: s("/images/a"),
        root_readonly: true,
        process: OcfProcess {
            cwd: Some(s("/home")),
            user: Some(OcfUser { uid: 1, gid: 2, additional_gids: vec![3] }),
            cmd: s("sh"),
            args: vec![s("-c"), s("true")],
            env: vec![s("A=1")],
        },
    }
}

fn runtime() -> OcfRuntime {
    OcfRuntime {
        linux: Some(OcfLinux {
            namespaces: vec![
                OcfNamespace { kind: NamespaceKind::Mount, path: None },
                OcfNamespace { kind: NamespaceKind::UTS, path: None },
            ],
            rootfs_propagation: Propagation::Private,
            devices: vec![OcfDevice { path: s("/dev/sda"), kind: b'b', mode: 0o660, major: 8, minor: 0 }],
        }),
        mounts: vec![OcfRuntimeMount {
            name: s("proc"),
            kind: s("proc"),
            source: s("proc"),
            options: vec![s("nosuid"), s("size=1k"), s("nodev"), s("mode=1")],
        }],
    }
}

fn issue(r: Result<(encage_runtime::OcfConfig, encage_runtime::Command), OcfError>) -> OcfError {
    match r {
        Ok(_) => panic!("expected an error"),
        Err(e) => e,
    }
}

#[test]
fn ocf_image_runs() {
    let (cfg, cmd) = ocf_config(&spec(), &runtime(), Arch::X86_64).unwrap();
    assert_eq!(cfg.clone_flags(), CLONE_NEWNS | CLONE_NEWUTS);
    assert_eq!(cfg.namespaces.len(), 2);
    assert_eq!(cfg.mounts.len(), 2);
    let steps = cfg.mounts.prepare();
    // the root bound to itself, then bound again with its flags
    match &steps[1].call {
        Syscall::Mount { source, target, fstype, flags, data } => {
            assert_eq!(source.as_ref().unwrap().as_bytes(), b"/images/a");
            assert_eq!(target.as_bytes(), b"/images/a");
            assert!(fstype.is_none());
            assert_eq!(*flags, MS_BIND | MS_PRIVATE | MS_RDONLY);
            assert!(data.is_none());
        }
        other => panic!("unexpected {:?}", other),
    }
    match &steps[4].call {
        Syscall::Mount { source, target, fstype, flags, data } => {
            assert_eq!(source.as_ref().unwrap().as_bytes(), b"proc");
            assert_eq!(target.as_bytes(), b"/images/a/proc");
            assert_eq!(fstype.as_ref().unwrap().as_bytes(), b"proc");
            assert_eq!(*flags, MS_NOSUID | MS_NODEV);
            assert_eq!(data.as_ref().unwrap().as_bytes(), b"size=1k,mode=1");
        }
        other => panic!("unexpected {:?}", other),
    }
    let root = cfg.root.prepare();
    assert!(matches!(&root[1].call, Syscall::Chdir { path } if path.as_bytes() == b"/home"));
    match &cfg.devices.prepare()[0].call {
        Syscall::MakeNode { path, kind, mode, dev } => {
            assert_eq!(path.as_bytes(), b"/dev/sda");
            assert_eq!(*kind, S_IFBLK);
            assert_eq!(*mode, 0o660);
            assert_eq!(*dev, libc::makedev(8, 0));
        }
        other => panic!("unexpected {:?}", other),
    }
    assert!(matches!(&cfg.hostname.prepare()[0].call, Syscall::SetHostname { name } if name == b"box"));
    assert_eq!(cfg.user.prepare().len(), 3);
    let caps = cfg.capabilities.prepare();
    assert!(matches!(caps.last().unwrap().call, Syscall::SetCapabilities { caps: 0b100001 }));
    assert_eq!(cmd.cmd().as_bytes(), b"sh");
    let args: Vec<&[u8]> = cmd.args().iter().map(|a| a.as_bytes()).collect();
    assert_eq!(args, vec![&b"sh"[..], b"-c", b"true"]);
    assert_eq!(cmd.env()[0].as_bytes(), b"A=1");
}

#[test]
fn ocf_default_cwd_is_root() {
    let mut sp = spec();
    sp.process.cwd = None;
    sp.hostname = None;
    sp.process.user = None;
    let (cfg, _) = ocf_config(&sp, &runtime(), Arch::X86_64).unwrap();
    assert!(matches!(&cfg.root.prepare()[1].call, Syscall::Chdir { path } if path.as_bytes() == b"/"));
    assert!(cfg.hostname.is_none());
    assert!(cfg.user.is_none());
}

#[test]
fn ocf_bind_mount_kind() {
    let mut rt = runtime();
    rt.mounts[0].kind = s("bind");
    rt.mounts[0].options = vec![s("ro")];
    let (cfg, _) = ocf_config(&spec(), &rt, Arch::X86_64).unwrap();
    match &cfg.mounts.prepare()[4].call {
        Syscall::Mount { fstype, flags, data, .. } => {
            assert!(fstype.is_none());
            assert_eq!(*flags, MS_RDONLY | MS_BIND);
            assert!(data.is_none());
        }
        other => panic!("unexpected {:?}", other),
    }
}

#[test]
fn ocf_unsupported_platform() {
    let mut sp = spec();
    sp.platform = None;
    assert!(matches!(issue(ocf_config(&sp, &runtime(), Arch::X86_64)), OcfError::UnsupportedPlatform));
    let mut rt = runtime();
    rt.linux = None;
    assert!(matches!(issue(ocf_config(&spec(), &rt, Arch::X86_64)), OcfError::UnsupportedPlatform));
}

#[test]
fn ocf_unsupported_architecture() {
    let mut sp = spec();
    sp.platform = Some(OcfPlatform { arch: Arch::Other, capabilities: vec![] });
    assert!(matches!(issue(ocf_config(&sp, &runtime(), Arch::X86_64)), OcfError::UnsupportedArchitecture));
}

#[test]
fn ocf_architecture_depends_on_host() {
    let sp = spec();
    assert!(matches!(issue(ocf_config(&sp, &runtime(), Arch::X86)), OcfError::UnsupportedArchitecture));
    let mut sp32 = spec();
    sp32.platform = Some(OcfPlatform { arch: Arch::X86, capabilities: vec![0, 5] });
    assert!(ocf_config(&sp32, &runtime(), Arch::X86).is_ok());
    assert!(ocf_config(&sp32, &runtime(), Arch::X86_64).is_ok());
    assert!(matches!(issue(ocf_config(&sp32, &runtime(), Arch::Other)), OcfError::UnsupportedArchitecture));
}

#[test]
fn ocf_error_messages() {
    assert_eq!(OcfError::UnsupportedPlatform.message(), "unsupported platform");
    assert_eq!(OcfError::UnsupportedArchitecture.message(), "unsupported architecture");
    assert_eq!(
        OcfError::InvalidConfiguration(ConfigIssue::MountNamespaceRequired).message(),
        "mount namespace required"
    );
    assert_eq!(OcfError::MissingMount(s("data")).message(), "missing mountpoint: data");
    assert_eq!(OcfError::CStringError.message(), "internal nul error");
}

#[test]
fn ocf_hostname_needs_uts_namespace() {
    let mut rt = runtime();
    rt.linux.as_mut().unwrap().namespaces[1].path = Some(s("/proc/1/ns/uts"));
    let e = issue(ocf_config(&spec(), &rt, Arch::X86_64));
    assert!(matches!(e, OcfError::InvalidConfiguration(ConfigIssue::HostnameNeedsUtsNamespace)));
    if let OcfError::InvalidConfiguration(i) = e {
        assert_eq!(i.message(), "hostname requires new uts namespace");
    }
}

#[test]
fn ocf_mount_namespace_required() {
    let mut rt = runtime();
    rt.linux.as_mut().unwrap().namespaces.remove(0);
    assert!(matches!(
        issue(ocf_config(&spec(), &rt, Arch::X86_64)),
        OcfError::InvalidConfiguration(ConfigIssue::MountNamespaceRequired)
    ));
}

#[test]
fn ocf_missing_mount() {
    let mut sp = spec();
    sp.mounts.push(OcfMountPoint { name: s("data"), path: s("/data") });
    match issue(ocf_config(&sp, &runtime(), Arch::X86_64)) {
        OcfError::MissingMount(name) => assert_eq!(name, "data"),
        other => panic!("unexpected {:?}", other),
    }
}

#[test]
fn ocf_nul_in_text() {
    let mut sp = spec();
    sp.process.args.push(s("a\0b"));
    assert!(matches!(issue(ocf_config(&sp, &runtime(), Arch::X86_64)), OcfError::CStringError));
    let mut rt = runtime();
    rt.mounts[0].source = s("pr\0c");
    assert!(matches!(issue(ocf_config(&spec(), &rt, Arch::X86_64)), OcfError::CStringError));
}

#[test]
fn ocf_device_errors() {
    let mut rt = runtime();
    rt.linux.as_mut().unwrap().devices[0].mode = 0o100660;
    assert!(matches!(issue(ocf_config(&spec(), &rt, Arch::X86_64)), OcfError::InvalidConfiguration(ConfigIssue::DeviceMode)));
    let mut rt = runtime();
    rt.linux.as_mut().unwrap().devices[0].kind = b'x';
    assert!(matches!(issue(ocf_config(&spec(), &rt, Arch::X86_64)), OcfError::InvalidConfiguration(ConfigIssue::DeviceType)));
    let mut rt = runtime();
    rt.linux.as_mut().unwrap().devices[0].kind = b'u';
    let (cfg, _) = ocf_config(&spec(), &rt, Arch::X86_64).unwrap();
    assert!(matches!(cfg.devices.prepare()[0].call, Syscall::MakeNode { kind: S_IFCHR, .. }));
}

#[test]
fn ocf_relative_cwd() {
    let mut sp = spec();
    sp.process.cwd = Some(s("home"));
    assert!(matches!(issue(ocf_config(&sp, &runtime(), Arch::X86_64)), OcfError::InvalidConfiguration(ConfigIssue::RelativeCwd)));
}

#[test]
fn mount_option_names() {
    assert_eq!(mount_flag("nodev"), Some(MS_NODEV));
    assert_eq!(mount_flag("size=1"), None);
    let (flags, rest) = mount_options(&vec![s("ro"), s("a"), s("nosuid"), s("b")]);
    assert_eq!(flags, MS_RDONLY | MS_NOSUID);
    assert_eq!(rest, b"a,b".to_vec());
}

#[test]
fn config_issue_messages() {
    assert_eq!(ConfigIssue::MountNamespaceRequired.message(), "mount namespace required");
    assert_eq!(ConfigIssue::DeviceMode.message(), "invalid device mode");
    assert_eq!(ConfigIssue::DeviceType.message(), "invalid device type");
    assert_eq!(ConfigIssue::RelativeCwd.message(), "process cwd must be an absolute path");
    assert_eq!(ConfigIssue::MountPath.message(), "mount path issue");
}

#[test]
fn nul_error_becomes_cstring_error() {
    let err = encage_runtime::CBytes::from_str("a\0").unwrap_err();
    assert!(matches!(OcfError::from(err), OcfError::CStringError));
}

#[test]
fn ocf_mount_points_land_under_the_root() {
    let mut sp = spec();
    sp.mounts[0].path = s("///proc");
    let (cfg, _) = ocf_config(&sp, &runtime(), Arch::X86_64).unwrap();
    match &cfg.mounts.prepare()[4].call {
        Syscall::Mount { target, .. } => assert_eq!(target.as_bytes(), b"/images/a/proc"),
        other => panic!("unexpected {:?}", other),
    }
}
