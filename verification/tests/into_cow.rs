use std::borrow::Cow;

use encage_runtime::{Config, Hostname, IntoCow, Syscall, User};

#[test]
fn owned_values_become_owned() {
    assert!(matches!(String::from("a").into_cow(), Cow::Owned(s) if s == "a"));
    assert!(matches!(vec![1u32, 2].into_cow(), Cow::Owned(v) if v == vec![1, 2]));
    let c: Cow<'_, str> = Cow::Borrowed("x");
    assert!(matches!(c.into_cow(), Cow::Borrowed("x")));
}

#[test]
fn borrowed_values_stay_borrowed() {
    let text = "abc";
    assert!(matches!(IntoCow::<str>::into_cow(text), Cow::Borrowed("abc")));
    let groups: &[u32] = &[4, 5];
    assert!(matches!(IntoCow::<[u32]>::into_cow(groups), Cow::Borrowed(&[4, 5])));
}

#[test]
fn constructors_take_borrowed_and_owned() {
    let h = Hostname::new("box");
    assert!(matches!(&h.prepare()[0].call, Syscall::SetHostname { name } if name == b"box"));
    let groups: &[u32] = &[7];
    let u = User::new(1, 2, groups);
    assert!(matches!(&u.prepare()[1].call, Syscall::SetGroups { groups } if groups == &vec![7]));
}

#[test]
fn c_strings_may_be_borrowed() {
    let dir = encage_runtime::CBytes::from_str("/srv").unwrap();
    let root = encage_runtime::Root::new(&dir, &dir);
    assert!(matches!(&root.prepare()[0].call, Syscall::Chroot { path } if path.as_bytes() == b"/srv"));
    let m = encage_runtime::Mount::from_bind(&dir, dir.clone(), 0);
    assert!(matches!(&m.prepare()[1].call, Syscall::Mount { source: Some(s), .. } if s.as_bytes() == b"/srv"));
    assert!(matches!(IntoCow::<encage_runtime::CBytes>::into_cow(&dir), Cow::Borrowed(_)));
}
