use encage_runtime::flags::{MS_BIND, MS_RDONLY, MS_SLAVE};
use encage_runtime::{
    add_default_path, bind_workdir, command_args, exec_plan, default_devices, default_mounts,
    default_symlinks, env_assignment, exec_command, exec_namespaces, has_value, join_path_bytes,
    mount_bind, parse_mount, prepare_root_arg, rootless, split_bytes, CBytes, Config, ExecConfig,
    Mount, MountArg, NamespaceKind, Root, Syscall,
};

/// The source, target, type, flags and data of the mount `m` makes.
fn mount_call(m: &Mount) -> (Option<Vec<u8>>, Vec<u8>, Option<Vec<u8>>, u64, Option<Vec<u8>>) {
    let steps = m.prepare();
    match &steps[1].call {
        Syscall::Mount { source, target, fstype, flags, data } => (
            source.as_ref().map(|s| s.to_vec()),
            target.to_vec(),
            fstype.as_ref().map(|s| s.to_vec()),
            *flags,
            data.as_ref().map(|s| s.to_vec()),
        ),
        other => panic!("unexpected {:?}", other),
    }
}

fn strings(v: &[Vec<u8>]) -> Vec<String> {
    v.iter().map(|b| String::from_utf8(b.clone()).unwrap()).collect()
}

#[test]
fn split_keeps_empty_pieces() {
    assert_eq!(strings(&split_bytes(b"a:b::c", b':')), vec!["a", "b", "", "c"]);
    assert_eq!(strings(&split_bytes(b"", b':')), vec![""]);
    assert_eq!(strings(&split_bytes(b":", b':')), vec!["", ""]);
}

#[test]
fn parse_mount_splits_dirs_and_options() {
    let m = parse_mount("/a:/b:/c,ro,workdir=/w");
    assert_eq!(strings(&m.mounts), vec!["/a", "/b", "/c"]);
    assert_eq!(strings(&m.options), vec!["ro", "workdir=/w"]);
    assert_eq!(m.last_mount(), &b"/c".to_vec());
    assert!(m.contains_option(b"ro"));
    assert!(!m.contains_option(b"r"));
    assert_eq!(m.option_value(b"workdir="), Some(b"/w".to_vec()));
    assert_eq!(m.option_value(b"upper="), None);
    let m = parse_mount("/only");
    assert_eq!(strings(&m.mounts), vec!["/only"]);
    assert!(m.options.is_empty());
    let m = parse_mount("/x,");
    assert_eq!(strings(&m.options), vec![""]);
}

#[test]
fn rootless_strips_leading_slashes() {
    assert_eq!(rootless(b"///a/b/"), b"a/b/");
    assert_eq!(rootless(b"a"), b"a");
    assert_eq!(rootless(b"//"), b"");
}

#[test]
fn join_path_like_std() {
    for (base, rel) in [("/a", "b"), ("/a/", "b"), ("", "b"), ("/a", "/b"), ("/a", "")] {
        let expected = std::path::Path::new(base).join(rel);
        assert_eq!(join_path_bytes(base.as_bytes(), rel.as_bytes()), expected.to_str().unwrap().as_bytes());
    }
}

#[test]
fn bind_of_one_dir_binds_it_to_itself() {
    let arg = parse_mount("/data");
    let m = mount_bind(&arg, Some(b"/root")).unwrap();
    let (source, target, fstype, flags, data) = mount_call(&m);
    assert_eq!(target, b"/root/data".to_vec());
    assert_eq!(source, Some(b"/root/data".to_vec()));
    assert_eq!(fstype, None);
    assert_eq!(flags, MS_BIND | MS_SLAVE);
    assert_eq!(data, None);
}

#[test]
fn bind_of_two_dirs_read_only() {
    let arg = parse_mount("/host:/guest,ro");
    let m = mount_bind(&arg, None).unwrap();
    let (source, target, _, flags, _) = mount_call(&m);
    assert_eq!(source, Some(b"/host".to_vec()));
    assert_eq!(target, b"/guest".to_vec());
    assert_eq!(flags, MS_BIND | MS_SLAVE | MS_RDONLY);
}

#[test]
fn overlay_of_more_dirs() {
    let arg = parse_mount("/l1:/l2:/up:/dest,workdir=/work");
    assert_eq!(bind_workdir(&arg, Some(b"/r")), Some(b"/work".to_vec()));
    let m = mount_bind(&arg, Some(b"/r")).unwrap();
    let (source, target, fstype, flags, data) = mount_call(&m);
    assert_eq!(source, Some(b"overlay".to_vec()));
    assert_eq!(fstype, Some(b"overlay".to_vec()));
    assert_eq!(target, b"/r/dest".to_vec());
    assert_eq!(flags, 0);
    assert_eq!(data, Some(b"lowerdir=/l1:/l2:/up,upperdir=/up,workdir=/work".to_vec()));
    let arg = parse_mount("/l1:/l2:/dest,ro");
    assert_eq!(bind_workdir(&arg, None), None);
    let m = mount_bind(&arg, None).unwrap();
    let (_, _, _, flags, data) = mount_call(&m);
    assert_eq!(flags, MS_RDONLY);
    assert_eq!(data, Some(b"lowerdir=/l1:/l2".to_vec()));
}

#[test]
fn bind_with_nul_fails() {
    let arg = MountArg { mounts: vec![b"/a\0b".to_vec()], options: vec![] };
    let err = mount_bind(&arg, None).unwrap_err();
    assert_eq!(err.nul_position(), 2);
    assert_eq!(bind_workdir(&arg, None), None);
    let arg = MountArg { mounts: vec![b"/s\0".to_vec(), b"/d".to_vec()], options: vec![] };
    let err = mount_bind(&arg, None).unwrap_err();
    assert_eq!(err.into_vec(), b"/s\0".to_vec());
}

#[test]
fn default_path_is_added_once() {
    let mut env = vec![b"HOME=/".to_vec()];
    add_default_path(&mut env);
    assert_eq!(strings(&env), vec!["HOME=/", "PATH=/bin:/usr/bin"]);
    let mut env = vec![b"PATH=/x".to_vec()];
    add_default_path(&mut env);
    assert_eq!(strings(&env), vec!["PATH=/x"]);
}

#[test]
fn env_entries() {
    assert!(has_value(b"A=1"));
    assert!(!has_value(b"TERM"));
    assert_eq!(env_assignment(b"TERM", b"xterm"), b"TERM=xterm".to_vec());
}

#[test]
fn root_argument_gets_mount_dir_and_new_root() {
    let mut root = parse_mount("/img");
    let path = prepare_root_arg(&mut root, b"/tmp/m".to_vec(), Some(b"/tmp/r".to_vec()));
    assert_eq!(path, b"/tmp/r".to_vec());
    assert_eq!(strings(&root.mounts), vec!["/tmp/m", "/img", "/tmp/r"]);
    let mut root = parse_mount("/img");
    let path = prepare_root_arg(&mut root, b"/tmp/m".to_vec(), None);
    assert_eq!(path, b"/img".to_vec());
    assert_eq!(strings(&root.mounts), vec!["/tmp/m", "/img"]);
}

#[test]
fn exec_namespaces_are_new() {
    let ns = exec_namespaces();
    let kinds: Vec<NamespaceKind> = ns.iter().map(|n| n.kind()).collect();
    assert_eq!(kinds, vec![NamespaceKind::Mount, NamespaceKind::IPC, NamespaceKind::UTS, NamespaceKind::PID]);
}

#[test]
fn exec_command_checks_every_text() {
    let cmd = exec_command(b"sh", &vec![b"-c".to_vec(), b"true".to_vec()], &vec![b"A=1".to_vec()]).unwrap();
    let args: Vec<Vec<u8>> = cmd.args().iter().map(|a| a.to_vec()).collect();
    assert_eq!(strings(&args), vec!["sh", "-c", "true"]);
    assert_eq!(cmd.cmd().as_bytes(), b"sh");
    let err = exec_command(b"sh", &vec![b"x".to_vec()], &vec![b"A\0".to_vec()]).unwrap_err();
    assert_eq!(err.into_vec(), b"A\0".to_vec());
}

#[test]
fn binds_land_under_the_root() {
    let arg = parse_mount("///etc");
    let m = mount_bind(&arg, Some(b"/r")).unwrap();
    let (_, target, _, _, _) = mount_call(&m);
    assert_eq!(target, b"/r/etc".to_vec());
    let arg = parse_mount("/");
    let m = mount_bind(&arg, Some(b"/r")).unwrap();
    let (_, target, _, _, _) = mount_call(&m);
    assert_eq!(target, b"/r/".to_vec());
}

#[test]
fn command_args_start_with_the_command() {
    let (cmd, args) = command_args(b"ls", &vec![b"-l".to_vec()]).unwrap();
    assert_eq!(cmd.as_bytes(), b"ls");
    let views: Vec<Vec<u8>> = args.iter().map(|a| a.to_vec()).collect();
    assert_eq!(views, vec![b"ls".to_vec(), b"-l".to_vec()]);
    let err = command_args(b"ls", &vec![b"ok".to_vec(), b"b\0d".to_vec()]).unwrap_err();
    assert_eq!(err.position, 1);
    assert_eq!(err.bytes, b"b\0d".to_vec());
}

#[test]
fn exec_config_prepares_parts_in_order() {
    let bind = mount_bind(&parse_mount("/img"), None).unwrap();
    let cfg = ExecConfig::new(
        exec_namespaces(),
        vec![bind],
        Root::new(CBytes::from_str("/img").unwrap(), CBytes::from_str("/").unwrap()),
    );
    let steps = cfg.prepare();
    let mut expected = 0;
    for ns in exec_namespaces() {
        expected += ns.prepare().len();
    }
    let bind_len = mount_bind(&parse_mount("/img"), None).unwrap().prepare().len();
    let root_len = Root::new(CBytes::from_str("/img").unwrap(), CBytes::from_str("/").unwrap()).prepare().len();
    let defaults: usize = default_mounts().iter().map(|m| m.prepare().len()).sum::<usize>()
        + default_symlinks().iter().map(|l| l.prepare().len()).sum::<usize>()
        + default_devices().iter().map(|d| d.prepare().len()).sum::<usize>();
    assert_eq!(steps.len(), expected + bind_len + root_len + defaults);
    assert!(matches!(steps[expected + bind_len].call, Syscall::Chroot { .. }));
    match &steps[steps.len() - 1].call {
        Syscall::MakeNode { path, .. } => assert_eq!(path.as_bytes(), b"/dev/tty"),
        other => panic!("unexpected {:?}", other),
    }
    assert_eq!(cfg.clone_flags(), exec_namespaces().iter().fold(0, |f, n| f | n.clone_flags()));
}

#[test]
fn exec_plan_mounts_binds_under_the_root() {
    let mut root = parse_mount("/img");
    let root_path = prepare_root_arg(&mut root, b"/tmp/m".to_vec(), Some(b"/tmp/r".to_vec()));
    let binds = vec![parse_mount("/data"), parse_mount("/a:/b,ro")];
    let (cfg, cmd, args) = exec_plan(&root, &binds, &root_path, b"/", b"sh", &vec![b"-c".to_vec()]).unwrap();
    assert_eq!(cmd.as_bytes(), b"sh");
    assert_eq!(args.len(), 2);
    let mounts = cfg.mounts.prepare();
    let targets: Vec<Vec<u8>> = mounts
        .iter()
        .filter_map(|s| match &s.call {
            Syscall::MakeDir { path, .. } => Some(path.to_vec()),
            _ => None,
        })
        .collect();
    assert_eq!(targets, vec![b"/tmp/r".to_vec(), b"/tmp/r/data".to_vec(), b"/tmp/r/b".to_vec()]);
    let root_steps = cfg.root.prepare();
    assert!(matches!(&root_steps[0].call, Syscall::Chroot { path } if path.as_bytes() == b"/tmp/r"));
}

#[test]
fn exec_plan_fails_on_the_first_bad_text() {
    let root = parse_mount("/img");
    let binds = vec![parse_mount("/d\0x")];
    let err = match exec_plan(&root, &binds, b"/img", b"/", b"s\0h", &vec![]) {
        Err(e) => e,
        Ok(_) => panic!("expected an error"),
    };
    assert_eq!(err.bytes, b"/img/d\0x".to_vec());
    let err = match exec_plan(&root, &binds, b"/img", b"/w\0", b"sh", &vec![]) {
        Err(e) => e,
        Ok(_) => panic!("expected an error"),
    };
    assert_eq!(err.bytes, b"/w\0".to_vec());
    assert_eq!(err.position, 2);
}
