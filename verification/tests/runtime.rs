use docker_clone::action::{
    Action, ExitOutcome, LaunchRequest, MountFlags, Namespaces, Outcome,
};
use docker_clone::cgroup::{CgroupError, CgroupFault};
use docker_clone::namespace::{MapError, MapFault};
use docker_clone::pivot_root::{root_transition, RootStep};
use docker_clone::run_container;
use docker_clone::runtime::{
    child_process, exec_command, ChannelError, ChannelFault, Child, ChildFailure, ExecError,
    ExecFault, Launch, LaunchError, SpawnError, STACK_SIZE,
};

fn text(s: &str) -> String {
    s.to_string()
}

fn failed(s: &str) -> Outcome {
    Outcome::Failed(text(s))
}

fn argv_of(steps: &[Action]) -> Vec<String> {
    match steps.last() {
        Some(Action::Exec { argv, .. }) => argv.clone(),
        other => panic!("unexpected last step {:?}", other),
    }
}

#[test]
fn test_exec_command_builds_correct_args() {
    let command = "/bin/ls";
    let args = vec!["-la".to_string(), "/tmp".to_string()];

    let steps = exec_command(command, args).unwrap();
    let full_args = argv_of(&steps);

    assert_eq!(full_args.len(), 3);
    assert_eq!(full_args[0], "/bin/ls");
    assert_eq!(full_args[1], "-la");
    assert_eq!(full_args[2], "/tmp");
}

#[test]
fn test_exec_command_with_empty_args() {
    let command = "/bin/echo";
    let args: Vec<String> = vec![];

    let steps = exec_command(command, args).unwrap();
    let full_args = argv_of(&steps);

    assert_eq!(full_args.len(), 1);
    assert_eq!(full_args[0], "/bin/echo");
}

#[test]
fn test_exec_command_with_special_characters() {
    let command = "/bin/echo";
    let args = vec!["hello world".to_string(), "test$123".to_string()];

    let steps = exec_command(command, args).unwrap();
    let full_args = argv_of(&steps);

    assert_eq!(full_args.len(), 3);
    assert_eq!(full_args[0], "/bin/echo");
    assert_eq!(full_args[1], "hello world");
    assert_eq!(full_args[2], "test$123");
}

#[test]
fn test_exec_command_handles_invalid_command() {
    let command = "";
    let args = vec!["test".to_string()];

    // An empty command can be passed on; running it is what fails.
    assert!(exec_command(command, args).is_ok());
}

#[test]
fn test_exec_command_handles_null_bytes() {
    let command = "/bin/ls";
    let args = vec!["invalid\0arg".to_string()];

    let result = exec_command(command, args);
    assert!(result.is_err());
    assert_eq!(
        result,
        Err(ExecError {
            fault: ExecFault::Argument,
            subject: text("invalid\0arg"),
            reason: text("nul byte found in provided data"),
        })
    );
}

#[test]
fn test_exec_command_environment_variable_setting() {
    let steps = exec_command("/bin/true", vec![]).unwrap();
    match &steps[0] {
        Action::SetEnv { name, value } => {
            assert_eq!(name, "PATH");
            assert_eq!(value, "/bin:/sbin:/usr/bin:/usr/sbin");
        }
        other => panic!("unexpected first step {:?}", other),
    }
    assert_eq!(steps.len(), 2);
}

#[test]
fn exec_command_reports_the_first_bad_string() {
    let e = exec_command("bad\0cmd", vec![text("also\0bad")]).unwrap_err();
    assert_eq!(e.fault, ExecFault::Command);
    assert_eq!(e.subject, "bad\0cmd");
    assert_eq!(e.message(), "Failed to create command string: nul byte found in provided data");

    let e = exec_command("ok", vec![text("fine"), text("\0"), text("x\0y")]).unwrap_err();
    assert_eq!(e.fault, ExecFault::Argument);
    assert_eq!(e.subject, "\0");
    assert_eq!(
        e.message(),
        "Failed to create argument string '\0': nul byte found in provided data"
    );
}

fn child_prelude(rootfs: &str) -> Vec<Action> {
    let mut steps = vec![Action::AwaitProceed, Action::SetHostname { name: text("docker-clone") }];
    steps.extend(root_transition(rootfs));
    steps
}

fn drive_child(mut child: Child, outcomes: &[Outcome]) -> (Child, Vec<Action>) {
    let mut seen: Vec<Action> = Vec::new();
    for outcome in outcomes {
        match child.pending() {
            Some(action) => seen.push(action),
            None => break,
        }
        child = child.advance(outcome);
    }
    (child, seen)
}

fn released(successes: usize) -> Vec<Outcome> {
    let mut outcomes = vec![Outcome::Transferred(1)];
    for _ in 0..successes {
        outcomes.push(Outcome::Done);
    }
    outcomes
}

#[test]
fn child_runs_hostname_root_transition_and_exec() {
    let child = child_process(text("/tmp/rootfs-with-echo"), text("/bin/echo"), vec![text("hello")]);
    assert_eq!(child.exit_status(), None);
    let mut outcomes = released(13);
    outcomes.push(failed("never reported"));
    let (child, seen) = drive_child(child, &outcomes);

    let mut expected = child_prelude("/tmp/rootfs-with-echo");
    expected.push(Action::SetEnv {
        name: text("PATH"),
        value: text("/bin:/sbin:/usr/bin:/usr/sbin"),
    });
    expected.push(Action::Exec {
        program: text("/bin/echo"),
        argv: vec![text("/bin/echo"), text("hello")],
    });
    assert_eq!(seen, expected);
    assert_eq!(child.pending(), None);
    assert_eq!(child.failure(), None);
    assert_eq!(child.exit_status(), Some(0));
}

#[test]
fn child_exits_with_1_when_the_command_is_missing() {
    let child = child_process(text("/tmp/rootfs"), text("/bin/does-not-exist"), vec![]);
    let mut outcomes = released(12);
    outcomes.push(failed("ENOENT: No such file or directory"));
    let (child, seen) = drive_child(child, &outcomes);

    assert_eq!(seen.len(), 14);
    assert_eq!(
        seen[13],
        Action::Exec { program: text("/bin/does-not-exist"), argv: vec![text("/bin/does-not-exist")] }
    );
    assert_eq!(child.pending(), None);
    assert_eq!(child.exit_status(), Some(1));
    let failure = child.failure().unwrap();
    assert_eq!(
        failure,
        ChildFailure::Exec(ExecError {
            fault: ExecFault::Replace,
            subject: text("/bin/does-not-exist"),
            reason: text("ENOENT: No such file or directory"),
        })
    );
    assert!(failure.message().contains("/bin/does-not-exist"));
    assert_eq!(
        failure.message(),
        "exec failed: /bin/does-not-exist: ENOENT: No such file or directory"
    );
}

#[test]
fn child_does_nothing_before_the_proceed_byte() {
    let child = child_process(text("/r"), text("/bin/sh"), vec![]);
    assert_eq!(child.pending(), Some(Action::AwaitProceed));

    for outcome in [Outcome::Transferred(0), Outcome::Transferred(2), failed("ECONNRESET"), Outcome::Done] {
        let child = child_process(text("/r"), text("/bin/sh"), vec![]);
        let (child, seen) = drive_child(child, &[outcome.clone(), Outcome::Done, Outcome::Done]);
        assert_eq!(seen, vec![Action::AwaitProceed]);
        assert_eq!(child.pending(), None);
        assert_eq!(child.exit_status(), Some(1));
        assert!(matches!(child.failure(), Some(ChildFailure::Handshake { .. })));
    }

    let child = child_process(text("/r"), text("/bin/sh"), vec![]);
    let child = child.advance(&Outcome::Transferred(0));
    assert_eq!(
        child.failure().unwrap().message(),
        "Failed to wait for release: handshake channel closed"
    );
    let child = child_process(text("/r"), text("/bin/sh"), vec![]);
    let child = child.advance(&failed("EBADF"));
    assert_eq!(child.failure().unwrap().message(), "Failed to wait for release: EBADF");
}

#[test]
fn child_stops_at_the_first_failed_step() {
    // Host name.
    let child = child_process(text("/r"), text("/bin/sh"), vec![]);
    let (child, seen) = drive_child(child, &[Outcome::Transferred(1), failed("EPERM"), Outcome::Done]);
    assert_eq!(seen.len(), 2);
    assert_eq!(child.exit_status(), Some(1));
    assert_eq!(child.failure(), Some(ChildFailure::Hostname { reason: text("EPERM") }));
    assert_eq!(child.failure().unwrap().message(), "Failed to set hostname: EPERM");

    // Each step of the root transition.
    for position in 0..10usize {
        let child = child_process(text("/r"), text("/bin/sh"), vec![]);
        let mut outcomes = released(1 + position);
        outcomes.push(failed("EBUSY"));
        outcomes.push(Outcome::Done);
        let (child, seen) = drive_child(child, &outcomes);
        assert_eq!(seen.len(), 3 + position);
        assert!(!seen.iter().any(|a| matches!(a, Action::Exec { .. })));
        assert_eq!(child.exit_status(), Some(1));
        match child.failure() {
            Some(ChildFailure::Root(e)) => assert_eq!(e.reason, "EBUSY"),
            other => panic!("unexpected failure {:?}", other),
        }
    }

    let child = child_process(text("/r"), text("/bin/sh"), vec![]);
    let mut outcomes = released(5);
    outcomes.push(failed("EINVAL"));
    let (child, _) = drive_child(child, &outcomes);
    match child.failure() {
        Some(ChildFailure::Root(e)) => {
            assert_eq!(e.step, RootStep::Pivot);
            assert_eq!(
                ChildFailure::Root(e).message(),
                "Failed to setup root filesystem: Failed to pivot root into /r: EINVAL"
            );
        }
        other => panic!("unexpected failure {:?}", other),
    }
}

#[test]
fn child_with_unpassable_argument_never_execs() {
    let child = child_process(text("/r"), text("/bin/echo"), vec![text("a\0b")]);
    let (child, seen) = drive_child(child, &released(20));
    assert_eq!(seen, child_prelude("/r"));
    assert_eq!(child.pending(), None);
    assert_eq!(child.exit_status(), Some(1));
    assert_eq!(
        child.failure(),
        Some(ChildFailure::Exec(ExecError {
            fault: ExecFault::Argument,
            subject: text("a\0b"),
            reason: text("nul byte found in provided data"),
        }))
    );
}

fn drive_launch(mut launch: Launch, outcomes: &[Outcome]) -> (Launch, Vec<Action>) {
    let mut seen: Vec<Action> = Vec::new();
    for outcome in outcomes {
        match launch.pending() {
            Some(action) => seen.push(action),
            None => break,
        }
        launch = launch.advance(outcome);
    }
    (launch, seen)
}

fn request() -> LaunchRequest {
    LaunchRequest {
        rootfs: text("/tmp/rootfs-with-echo"),
        command: text("/bin/echo"),
        args: vec![text("hello")],
    }
}

fn happy_outcomes(exit: ExitOutcome) -> Vec<Outcome> {
    vec![
        Outcome::Flag(true),
        Outcome::Text(text("0::/user.slice\n")),
        Outcome::Done,
        Outcome::Spawned(321),
        Outcome::Flag(true),
        Outcome::Text(text("cpu memory pids\n")),
        Outcome::Flag(true),
        Outcome::Done,
        Outcome::Done,
        Outcome::Done,
        Outcome::Done,
        Outcome::Done,
        Outcome::Done,
        Outcome::Done,
        Outcome::Done,
        Outcome::Transferred(1),
        Outcome::Exited(exit),
    ]
}

fn happy_actions() -> Vec<Action> {
    let parent = "/sys/fs/cgroup/user.slice";
    let child = "/sys/fs/cgroup/user.slice/docker-clone-321";
    vec![
        Action::IsDirectory { path: text("/tmp/rootfs-with-echo") },
        Action::ReadFile { path: text("/proc/self/cgroup") },
        Action::OpenChannel,
        Action::Spawn {
            request: request(),
            namespaces: Namespaces { pid: true, mount: true, uts: true, user: true },
            stack_size: 1024 * 1024,
        },
        Action::PathExists { path: format!("{}/cgroup.controllers", parent) },
        Action::ReadFile { path: format!("{}/cgroup.controllers", parent) },
        Action::PathExists { path: format!("{}/cgroup.subtree_control", parent) },
        Action::WriteFile {
            path: format!("{}/cgroup.subtree_control", parent),
            content: text("+cpu +memory +pids"),
        },
        Action::CreateDirAll { path: text(child) },
        Action::WriteFile { path: format!("{}/memory.max", child), content: text("104857600") },
        Action::WriteFile { path: format!("{}/cpu.max", child), content: text("50000 100000") },
        Action::WriteExisting { path: format!("{}/cgroup.procs", child), content: text("321\n") },
        Action::WriteFile { path: text("/proc/321/setgroups"), content: text("deny") },
        Action::WriteFile { path: text("/proc/321/uid_map"), content: text("0 1000 1") },
        Action::WriteFile { path: text("/proc/321/gid_map"), content: text("0 100 1") },
        Action::SendProceed,
        Action::WaitChild { pid: 321 },
    ]
}

#[test]
fn launch_runs_every_step_in_order() {
    let launch = Launch::new(request(), 1000, 100);
    assert_eq!(launch.result(), None);
    assert_eq!(launch.child_pid(), None);
    let (launch, seen) = drive_launch(launch, &happy_outcomes(ExitOutcome::Exited(0)));
    assert_eq!(seen, happy_actions());
    assert_eq!(STACK_SIZE, 1024 * 1024);
    assert_eq!(launch.pending(), None);
    assert_eq!(launch.child_pid(), Some(321));
    assert_eq!(launch.result(), Some(Ok(ExitOutcome::Exited(0))));
}

#[test]
fn launch_reports_the_exit_outcome_of_the_child() {
    for exit in [ExitOutcome::Exited(0), ExitOutcome::Exited(1), ExitOutcome::Exited(42), ExitOutcome::Signaled(9), ExitOutcome::Other] {
        let (launch, _) = drive_launch(Launch::new(request(), 0, 0), &happy_outcomes(exit));
        assert_eq!(launch.result(), Some(Ok(exit)));
    }
}

#[test]
fn launch_with_missing_rootfs_creates_nothing() {
    for outcome in [Outcome::Flag(false), failed("ENOENT"), Outcome::Done] {
        let launch = Launch::new(request(), 0, 0);
        let mut outcomes = vec![outcome];
        outcomes.extend(happy_outcomes(ExitOutcome::Exited(0)));
        let (launch, seen) = drive_launch(launch, &outcomes);
        assert_eq!(seen, vec![Action::IsDirectory { path: text("/tmp/rootfs-with-echo") }]);
        assert_eq!(launch.pending(), None);
        assert_eq!(launch.child_pid(), None);
        assert_eq!(
            launch.result(),
            Some(Err(LaunchError::RootfsMissing { path: text("/tmp/rootfs-with-echo") }))
        );
    }
    let launch = Launch::new(request(), 0, 0).advance(&Outcome::Flag(false));
    match launch.result() {
        Some(Err(e)) => assert_eq!(
            e.message(),
            "Root filesystem is not a directory: /tmp/rootfs-with-echo"
        ),
        other => panic!("unexpected result {:?}", other),
    }
}

#[test]
fn launch_with_unreadable_cgroup_fails_before_the_child_exists() {
    let (launch, seen) = drive_launch(
        Launch::new(request(), 0, 0),
        &[Outcome::Flag(true), failed("EACCES"), Outcome::Done, Outcome::Spawned(1)],
    );
    assert_eq!(seen.len(), 2);
    assert_eq!(launch.child_pid(), None);
    assert_eq!(
        launch.result(),
        Some(Err(LaunchError::Cgroup(CgroupError {
            fault: CgroupFault::Membership,
            reason: text("EACCES"),
        })))
    );

    let (launch, seen) = drive_launch(
        Launch::new(request(), 0, 0),
        &[Outcome::Flag(true), Outcome::Text(text("1:cpu:/\n")), Outcome::Done],
    );
    assert_eq!(seen.len(), 2);
    match launch.result() {
        Some(Err(e)) => assert_eq!(
            e.message(),
            "Failed to setup cgroups: Could not find cgroup path in expected format"
        ),
        other => panic!("unexpected result {:?}", other),
    }
}

fn failing_at(position: usize, outcome: Outcome) -> (Launch, Vec<Action>) {
    let mut outcomes = happy_outcomes(ExitOutcome::Exited(0));
    outcomes[position] = outcome;
    drive_launch(Launch::new(request(), 1000, 100), &outcomes)
}

#[test]
fn launch_never_releases_the_child_after_a_failure() {
    for position in 0..15usize {
        let (launch, seen) = failing_at(position, failed("boom"));
        assert_eq!(seen.len(), position + 1, "position {}", position);
        assert_eq!(seen[..], happy_actions()[..position + 1]);
        assert!(!seen.contains(&Action::SendProceed));
        assert_eq!(launch.pending(), None);
        assert!(matches!(launch.result(), Some(Err(_))));
    }
}

#[test]
fn launch_errors_name_their_step() {
    let message = |position: usize, outcome: Outcome| match failing_at(position, outcome).0.result() {
        Some(Err(e)) => (e.clone(), e.message()),
        other => panic!("unexpected result {:?}", other),
    };

    let (e, m) = message(2, failed("EMFILE"));
    assert_eq!(
        e,
        LaunchError::Channel(ChannelError { fault: ChannelFault::Open, reason: text("EMFILE") })
    );
    assert_eq!(m, "Failed to create handshake channel: EMFILE");

    let (e, m) = message(3, failed("EPERM"));
    assert_eq!(e, LaunchError::Spawn(SpawnError { reason: text("EPERM") }));
    assert_eq!(m, "Failed to spawn child process: EPERM");

    let (e, m) = message(9, failed("EINVAL"));
    assert_eq!(
        e,
        LaunchError::Cgroup(CgroupError { fault: CgroupFault::MemoryLimit, reason: text("EINVAL") })
    );
    assert_eq!(m, "Failed to setup cgroups: Failed to set memory limit: EINVAL");

    let (e, m) = message(13, failed("EPERM"));
    assert_eq!(
        e,
        LaunchError::Identity(MapError { fault: MapFault::UidMap, reason: text("EPERM") })
    );
    assert_eq!(m, "Failed to setup user namespace: Failed to write uid_map: EPERM");

    let (e, m) = message(15, failed("EPIPE"));
    assert_eq!(
        e,
        LaunchError::Channel(ChannelError { fault: ChannelFault::Send, reason: text("EPIPE") })
    );
    assert_eq!(m, "Failed to signal child process: EPIPE");

    let (e, _) = message(15, Outcome::Transferred(0));
    assert_eq!(
        e,
        LaunchError::Channel(ChannelError {
            fault: ChannelFault::Send,
            reason: text("handshake channel closed"),
        })
    );

    let (e, m) = message(16, failed("ECHILD"));
    assert_eq!(e, LaunchError::Wait { reason: text("ECHILD") });
    assert_eq!(m, "Failed to wait for child process: ECHILD");
}

#[test]
fn launch_writes_no_limits_after_the_group_is_set_up() {
    let (_, seen) = drive_launch(
        Launch::new(
            LaunchRequest { rootfs: text("/tmp/rootfs"), command: text("/bin/does-not-exist"), args: vec![] },
            0,
            0,
        ),
        &happy_outcomes(ExitOutcome::Exited(1)),
    );
    let attach = seen
        .iter()
        .position(|a| matches!(a, Action::WriteExisting { .. }))
        .unwrap();
    for action in &seen[attach + 1..] {
        let path = match action {
            Action::WriteFile { path, .. } => path.as_str(),
            Action::WriteExisting { path, .. } => path.as_str(),
            Action::CreateDirAll { path } => path.as_str(),
            _ => "",
        };
        assert!(!path.starts_with("/sys/fs/cgroup"), "{:?}", action);
    }
}

#[test]
fn overlapping_launches_use_distinct_groups() {
    let group_of = |pid: i32| {
        let mut outcomes = happy_outcomes(ExitOutcome::Exited(0));
        outcomes[3] = Outcome::Spawned(pid);
        let (_, seen) = drive_launch(Launch::new(request(), 0, 0), &outcomes);
        match &seen[8] {
            Action::CreateDirAll { path } => path.clone(),
            other => panic!("unexpected step {:?}", other),
        }
    };
    assert_eq!(group_of(100), "/sys/fs/cgroup/user.slice/docker-clone-100");
    assert_eq!(group_of(101), "/sys/fs/cgroup/user.slice/docker-clone-101");
    assert_ne!(group_of(100), group_of(101));
}

#[test]
fn run_container_starts_by_checking_the_root_filesystem() {
    let launch = run_container("/no/such/rootfs", "/bin/echo", vec![text("hello")]);
    assert_eq!(launch.pending(), Some(Action::IsDirectory { path: text("/no/such/rootfs") }));
    let launch = launch.advance(&Outcome::Flag(true)).advance(&Outcome::Text(text("0::/")));
    let launch = launch.advance(&Outcome::Done);
    assert_eq!(
        launch.pending(),
        Some(Action::Spawn {
            request: LaunchRequest {
                rootfs: text("/no/such/rootfs"),
                command: text("/bin/echo"),
                args: vec![text("hello")],
            },
            namespaces: Namespaces { pid: true, mount: true, uts: true, user: true },
            stack_size: 1_048_576,
        })
    );
    // The identity written for the child is the caller's own.
    let mut launch = launch.advance(&Outcome::Spawned(55)).advance(&Outcome::Flag(false));
    for _ in 0..4 {
        launch = launch.advance(&Outcome::Done);
    }
    launch = launch.advance(&Outcome::Done);
    assert_eq!(
        launch.pending(),
        Some(Action::WriteFile {
            path: text("/proc/55/uid_map"),
            content: format!("0 {} 1", nix::unistd::getuid().as_raw()),
        })
    );
}

#[test]
fn mount_flags_compare_by_field() {
    let a = MountFlags { bind: true, recursive: true, private: false };
    let b = MountFlags { bind: true, recursive: true, private: false };
    assert_eq!(a, b);
    assert_ne!(a, MountFlags { bind: false, recursive: true, private: false });
}

#[test]
fn stack_is_in_use_from_spawn_until_the_wait_returns() {
    let outcomes = happy_outcomes(ExitOutcome::Exited(0));
    let mut launch = Launch::new(request(), 0, 0);
    for (position, outcome) in outcomes.iter().enumerate() {
        assert_eq!(launch.stack_in_use(), position > 3, "position {}", position);
        launch = launch.advance(outcome);
    }
    assert!(!launch.stack_in_use());
    assert_eq!(launch.result(), Some(Ok(ExitOutcome::Exited(0))));

    // A launch that fails before the child exists holds no stack.
    for position in 0..4usize {
        let (launch, _) = failing_at(position, failed("boom"));
        assert!(!launch.stack_in_use());
        assert_eq!(launch.child_pid(), None);
    }
    // A launch that fails afterwards keeps it: the child may still be there.
    for position in 4..17usize {
        let (launch, _) = failing_at(position, failed("boom"));
        assert!(launch.stack_in_use(), "position {}", position);
        assert_eq!(launch.child_pid(), Some(321));
    }
}

struct Dice(u64);

impl Dice {
    fn roll(&mut self, sides: u64) -> u64 {
        self.0 = self.0.wrapping_mul(6364136223846793005).wrapping_add(1442695040888963407);
        (self.0 >> 33) % sides
    }
}

fn good_answer(action: &Action, dice: &mut Dice) -> Outcome {
    match action {
        Action::IsDirectory { .. } => Outcome::Flag(true),
        Action::PathExists { .. } => Outcome::Flag(dice.roll(2) == 0),
        Action::ReadFile { path } if path == "/proc/self/cgroup" => {
            Outcome::Text(text("1:cpu:/x\n0::/user.slice\n"))
        }
        Action::ReadFile { .. } => {
            Outcome::Text(text(if dice.roll(3) == 0 { "\n" } else { "cpu io\n" }))
        }
        Action::Spawn { .. } => Outcome::Spawned(4000 + dice.roll(100) as i32),
        Action::SendProceed | Action::AwaitProceed => Outcome::Transferred(1),
        Action::WaitChild { .. } => Outcome::Exited(ExitOutcome::Exited(dice.roll(3) as i32)),
        _ => Outcome::Done,
    }
}

fn bad_answer(dice: &mut Dice) -> Outcome {
    match dice.roll(5) {
        0 => Outcome::Failed(text("EIO")),
        1 => Outcome::Flag(false),
        2 => Outcome::Transferred(0),
        3 => Outcome::Text(text("no entry here")),
        _ => Outcome::Failed(text("EPERM")),
    }
}

fn is_good(action: &Action, outcome: &Outcome) -> bool {
    match (action, outcome) {
        (Action::IsDirectory { .. }, Outcome::Flag(true)) => true,
        (Action::PathExists { .. }, Outcome::Flag(_)) => true,
        (Action::ReadFile { path }, Outcome::Text(t)) => {
            path != "/proc/self/cgroup" || t.lines().any(|l| l.starts_with("0::"))
        }
        (Action::Spawn { .. }, Outcome::Spawned(_)) => true,
        (Action::SendProceed, Outcome::Transferred(1)) => true,
        (Action::WaitChild { .. }, Outcome::Exited(_)) => true,
        (Action::OpenChannel, Outcome::Done) => true,
        (Action::WriteFile { .. }, Outcome::Done) => true,
        (Action::WriteExisting { .. }, Outcome::Done) => true,
        (Action::CreateDirAll { .. }, Outcome::Done) => true,
        _ => false,
    }
}

#[test]
fn random_runs_respect_the_order_of_a_launch() {
    let mut dice = Dice(2024);
    let mut finished: u32 = 0;
    let mut failed_runs: u32 = 0;
    for _ in 0..3000 {
        let mut launch = Launch::new(request(), 1000, 100);
        let mut history: Vec<(Action, Outcome)> = Vec::new();
        let mut steps: u32 = 0;
        while let Some(action) = launch.pending() {
            steps += 1;
            assert!(steps <= 17);
            // Every earlier operation went well, or this one would not be pending.
            assert!(history.iter().all(|(a, o)| is_good(a, o)));
            match &action {
                Action::Spawn { .. } => {
                    assert_eq!(history.len(), 3);
                    assert!(!launch.stack_in_use());
                }
                Action::SendProceed => {
                    let writes: Vec<&Action> = history
                        .iter()
                        .map(|(a, _)| a)
                        .filter(|a| matches!(a, Action::WriteFile { path, .. } if path.starts_with("/proc/")))
                        .collect();
                    assert_eq!(writes.len(), 3);
                    assert!(history.iter().any(|(a, _)| matches!(a, Action::WriteExisting { .. })));
                    assert!(!history.iter().any(|(a, _)| matches!(a, Action::SendProceed)));
                }
                Action::WaitChild { pid } => {
                    assert_eq!(history.last().unwrap().0, Action::SendProceed);
                    assert_eq!(launch.child_pid(), Some(*pid));
                    assert!(launch.stack_in_use());
                }
                _ => {}
            }
            let outcome = if dice.roll(12) == 0 {
                bad_answer(&mut dice)
            } else {
                good_answer(&action, &mut dice)
            };
            history.push((action, outcome.clone()));
            launch = launch.advance(&outcome);
        }
        let (last_action, last_outcome) = history.last().unwrap();
        match launch.result() {
            Some(Ok(exit)) => {
                finished += 1;
                assert_eq!(*last_outcome, Outcome::Exited(exit));
                assert!(matches!(last_action, Action::WaitChild { .. }));
                assert!(!launch.stack_in_use());
            }
            Some(Err(_)) => {
                failed_runs += 1;
                assert!(!is_good(last_action, last_outcome));
                let spawned = history
                    .iter()
                    .any(|(a, o)| matches!(a, Action::Spawn { .. }) && matches!(o, Outcome::Spawned(_)));
                assert_eq!(launch.stack_in_use(), spawned);
            }
            None => panic!("a launch with nothing pending has a result"),
        }
        // An ended launch does not move any more.
        let before = launch.result();
        let launch = launch.advance(&Outcome::Done).advance(&Outcome::Flag(true));
        assert_eq!(launch.result(), before);
        assert_eq!(launch.pending(), None);
    }
    assert!(finished > 100);
    assert!(failed_runs > 100);
}

#[test]
fn random_runs_respect_the_order_of_the_child() {
    let mut dice = Dice(7);
    let mut handed_over: u32 = 0;
    for round in 0..2000 {
        let args = if round % 5 == 0 { vec![text("bad\0arg")] } else { vec![text("ok")] };
        let mut child = child_process(text("/r"), text("/bin/true"), args.clone());
        let mut history: Vec<(Action, Outcome)> = Vec::new();
        while let Some(action) = child.pending() {
            assert!(history.len() < 14);
            if history.is_empty() {
                assert_eq!(action, Action::AwaitProceed);
            } else {
                assert_eq!(history[0].1, Outcome::Transferred(1));
                assert!(history[1..].iter().all(|(_, o)| *o == Outcome::Done));
            }
            if let Action::Exec { .. } = action {
                assert_eq!(history.len(), 13);
                assert!(round % 5 != 0);
                handed_over += 1;
            }
            let outcome = if dice.roll(15) == 0 {
                bad_answer(&mut dice)
            } else {
                good_answer(&action, &mut dice)
            };
            history.push((action, outcome.clone()));
            child = child.advance(&outcome);
        }
        let all_good = history[0].1 == Outcome::Transferred(1)
            && history[1..].iter().all(|(_, o)| *o == Outcome::Done);
        let expected = if all_good && round % 5 != 0 { 0 } else { 1 };
        assert_eq!(child.exit_status(), Some(expected));
        assert_eq!(child.failure().is_some(), expected == 1);
    }
    assert!(handed_over > 100);
}
