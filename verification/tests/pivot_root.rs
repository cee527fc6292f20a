use docker_clone::action::{Action, MountFlags, Outcome};
use docker_clone::pivot_root::{
    old_root_dir, root_error, root_transition, setup_rootfs_error, RootError, RootStep,
    PIVOT_STEP, REMOVE_STEP, ROOT_STEPS,
};
use docker_clone::setup_rootfs;
use nix::mount::{MntFlags, MsFlags};

fn ms_flags(flags: &MountFlags) -> MsFlags {
    let mut bits = MsFlags::empty();
    if flags.bind {
        bits |= MsFlags::MS_BIND;
    }
    if flags.recursive {
        bits |= MsFlags::MS_REC;
    }
    if flags.private {
        bits |= MsFlags::MS_PRIVATE;
    }
    bits
}

#[test]
fn test_old_root_path_generation() {
    let test_paths = vec![
        "/tmp/container",
        "/var/lib/container",
        "/opt/container",
        "/home/user/container",
    ];

    for rootfs in test_paths {
        let old_root = old_root_dir(rootfs);
        assert!(old_root.ends_with("/.old_root"));
        assert!(old_root.starts_with(rootfs));
        assert_eq!(old_root.len(), rootfs.len() + "/.old_root".len());
    }
}

#[test]
fn test_rootfs_path_validation() {
    let valid_paths = vec!["/tmp/container", "/var/lib/container", "/opt/container"];

    let invalid_paths = vec!["", "relative/path", "/", "//double/slash"];

    for path in valid_paths {
        assert!(path.starts_with('/'));
        assert!(!path.is_empty());
        assert!(path.len() > 1);
        let plan = setup_rootfs(path);
        assert_eq!(plan.step(3), Some(&Action::ChangeDir { path: path.to_string() }));
    }

    for path in invalid_paths {
        // The transition itself takes any path; whether it names a directory
        // is for the launch to find out before a child exists.
        let plan = setup_rootfs(path);
        assert_eq!(plan.len(), ROOT_STEPS);
    }
}

#[test]
fn test_mount_flags() {
    let steps = root_transition("/tmp/container");
    let expected_flags = match &steps[1] {
        Action::Mount { flags, .. } => ms_flags(flags),
        other => panic!("unexpected step {:?}", other),
    };
    let expected_umount_flags = match &steps[6] {
        Action::Unmount { detach: true, .. } => MntFlags::MNT_DETACH,
        other => panic!("unexpected step {:?}", other),
    };

    assert!(expected_flags.contains(MsFlags::MS_BIND));
    assert!(expected_flags.contains(MsFlags::MS_REC));
    assert_eq!(expected_flags, MsFlags::MS_BIND | MsFlags::MS_REC);
    assert_eq!(expected_umount_flags, MntFlags::MNT_DETACH);

    let private_flags = match &steps[0] {
        Action::Mount { flags, .. } => ms_flags(flags),
        other => panic!("unexpected step {:?}", other),
    };
    assert_eq!(private_flags, MsFlags::MS_REC | MsFlags::MS_PRIVATE);
    let proc_flags = match &steps[9] {
        Action::Mount { flags, .. } => ms_flags(flags),
        other => panic!("unexpected step {:?}", other),
    };
    assert_eq!(proc_flags, MsFlags::empty());
}

#[test]
fn test_different_rootfs_paths() {
    let test_cases = vec![
        ("/tmp/container1", "/tmp/container1/.old_root"),
        ("/var/lib/container2", "/var/lib/container2/.old_root"),
        ("/opt/container3", "/opt/container3/.old_root"),
    ];

    for (rootfs, expected_old_root) in test_cases {
        let actual_old_root = old_root_dir(rootfs);
        assert_eq!(actual_old_root, expected_old_root);
    }
}

#[test]
fn test_path_string_operations() {
    let rootfs = "/test/container";

    let old_root = old_root_dir(rootfs);
    assert!(old_root.contains(rootfs));
    assert!(old_root.contains(".old_root"));

    let components: Vec<&str> = old_root.split('/').filter(|s| !s.is_empty()).collect();
    assert_eq!(components, vec!["test", "container", ".old_root"]);
}

#[test]
fn pivot_root_test_error_message_formatting() {
    let operation = "Failed to create directory";
    let path = "/test/container/.old_root";
    let error = "Permission denied";
    let formatted = root_error("/test/container", 2, error.to_string()).message();

    assert!(formatted.contains(operation));
    assert!(formatted.contains(path));
    assert!(formatted.contains(error));
    assert_eq!(formatted, format!("{} {}: {}", operation, path, error));
}

#[test]
fn test_rootfs_name_patterns() {
    let valid_names = vec![
        "container",
        "alpine-rootfs",
        "ubuntu_20.04",
        "my-container-123",
    ];

    let invalid_names = vec!["", "container/", "/container", "container/../etc"];

    for name in valid_names {
        assert!(!name.is_empty());
        assert!(!name.contains('/'));
        assert!(!name.contains(".."));
        assert_eq!(old_root_dir(name), format!("{}/.old_root", name));
    }

    for name in invalid_names {
        assert!(name.is_empty() || name.contains('/') || name.contains(".."));
    }
}

fn text(s: &str) -> String {
    s.to_string()
}

#[test]
fn root_transition_is_the_documented_sequence() {
    let rootfs = "/var/lib/alpine";
    let expected = vec![
        Action::Mount {
            source: None,
            target: text("/"),
            fstype: None,
            flags: MountFlags { bind: false, recursive: true, private: true },
        },
        Action::Mount {
            source: Some(text(rootfs)),
            target: text(rootfs),
            fstype: None,
            flags: MountFlags { bind: true, recursive: true, private: false },
        },
        Action::CreateDirAll { path: text("/var/lib/alpine/.old_root") },
        Action::ChangeDir { path: text(rootfs) },
        Action::PivotRoot { new_root: text("."), put_old: text(".old_root") },
        Action::ChangeDir { path: text("/") },
        Action::Unmount { target: text("/.old_root"), detach: true },
        Action::RemoveDirAll { path: text("/.old_root") },
        Action::CreateDirAll { path: text("/proc") },
        Action::Mount {
            source: Some(text("proc")),
            target: text("/proc"),
            fstype: Some(text("proc")),
            flags: MountFlags { bind: false, recursive: false, private: false },
        },
    ];
    assert_eq!(root_transition(rootfs), expected);
    assert_eq!(expected.len(), ROOT_STEPS);
    assert!(matches!(expected[PIVOT_STEP], Action::PivotRoot { .. }));
    assert!(matches!(expected[REMOVE_STEP], Action::RemoveDirAll { .. }));

    let mut plan = setup_rootfs(rootfs);
    for step in &expected {
        assert_eq!(plan.pending(), Some(step));
        plan = plan.advance(&Outcome::Done);
    }
    assert!(plan.succeeded());
    assert_eq!(plan.pending(), None);
    assert_eq!(setup_rootfs_error(rootfs, &plan), None);
}

#[test]
fn failed_pivot_leaves_the_old_root_alone() {
    let rootfs = "/srv/root";
    let mut plan = setup_rootfs(rootfs);
    for _ in 0..PIVOT_STEP {
        assert!(!matches!(plan.pending(), Some(Action::RemoveDirAll { .. })));
        plan = plan.advance(&Outcome::Done);
    }
    assert!(matches!(plan.pending(), Some(Action::PivotRoot { .. })));
    plan = plan.advance(&Outcome::Failed(text("EINVAL")));
    assert_eq!(plan.pending(), None);
    assert_eq!(plan.completed(), PIVOT_STEP);
    for _ in 0..ROOT_STEPS {
        plan = plan.advance(&Outcome::Done);
        assert_eq!(plan.pending(), None);
    }
    assert_eq!(
        setup_rootfs_error(rootfs, &plan),
        Some(RootError { step: RootStep::Pivot, path: text(rootfs), reason: text("EINVAL") })
    );
    assert_eq!(
        setup_rootfs_error(rootfs, &plan).unwrap().message(),
        "Failed to pivot root into /srv/root: EINVAL"
    );
}

#[test]
fn every_step_has_its_own_error() {
    let rootfs = "/r";
    let expected: Vec<(RootStep, &str)> = vec![
        (RootStep::MakePrivate, "Failed to make mount private /: x"),
        (RootStep::BindRoot, "Failed to bind mount /r: x"),
        (RootStep::StageOldRoot, "Failed to create directory /r/.old_root: x"),
        (RootStep::EnterNewRoot, "Failed to change directory to /r: x"),
        (RootStep::Pivot, "Failed to pivot root into /r: x"),
        (RootStep::EnterRoot, "Failed to change directory to /: x"),
        (RootStep::DetachOldRoot, "Failed to unmount /.old_root: x"),
        (RootStep::RemoveOldRoot, "Failed to remove directory /.old_root: x"),
        (RootStep::EnsureProc, "Failed to create directory /proc: x"),
        (RootStep::MountProc, "Failed to mount proc on /proc: x"),
    ];
    for (position, (step, message)) in expected.iter().enumerate() {
        let mut plan = setup_rootfs(rootfs);
        for _ in 0..position {
            plan = plan.advance(&Outcome::Done);
        }
        plan = plan.advance(&Outcome::Failed(text("x")));
        let error = setup_rootfs_error(rootfs, &plan).unwrap();
        assert_eq!(error.step, *step);
        assert_eq!(error.message(), *message);
        assert_eq!(error, root_error(rootfs, position, text("x")));
    }
}
