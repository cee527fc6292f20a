use std::collections::BTreeSet;

use docker_clone::action::{Action, Outcome};
use docker_clone::cgroup::{
    attach_line, child_cgroup_dir, control_file, cpu_max_content, enable_request, fixed_policy,
    mebibytes, memory_max_content, parent_cgroup_dir, setup_cgroup, unified_entry, CgroupError,
    CgroupFault, CgroupPhase, CgroupSetup, CpuQuota, Limits,
};

fn text(s: &str) -> Outcome {
    Outcome::Text(s.to_string())
}

fn failed(s: &str) -> Outcome {
    Outcome::Failed(s.to_string())
}

fn drive(mut setup: CgroupSetup, outcomes: &[Outcome]) -> (CgroupSetup, Vec<Action>) {
    let mut seen: Vec<Action> = Vec::new();
    for outcome in outcomes {
        match setup.pending() {
            Some(action) => seen.push(action),
            None => break,
        }
        setup = setup.advance(outcome);
    }
    (setup, seen)
}

#[test]
fn test_cgroup_path_generation() {
    let cgroup_rel = "/user.slice/user-1000.slice";
    let pid: i32 = 1234;

    let parent_cgroup = parent_cgroup_dir(cgroup_rel);
    let child_cgroup = child_cgroup_dir(&parent_cgroup, pid);

    assert_eq!(parent_cgroup, "/sys/fs/cgroup/user.slice/user-1000.slice");
    assert_eq!(
        child_cgroup,
        "/sys/fs/cgroup/user.slice/user-1000.slice/docker-clone-1234"
    );
}

#[test]
fn test_memory_limit_value() {
    let expected_memory_bytes: u64 = mebibytes(100).unwrap();
    let actual_memory_setting = "104857600";

    assert_eq!(memory_max_content(expected_memory_bytes), actual_memory_setting);
    assert_eq!(fixed_policy().memory_bytes, expected_memory_bytes);
}

#[test]
fn test_cpu_limit_value() {
    let cpu_limit = cpu_max_content(fixed_policy().cpu);
    assert_eq!(cpu_limit, "50000 100000");

    let parts: Vec<&str> = cpu_limit.split_whitespace().collect();
    assert_eq!(parts.len(), 2);
    assert_eq!(parts[0], "50000");
    assert_eq!(parts[1], "100000");

    let quota: u64 = parts[0].parse().unwrap();
    let period: u64 = parts[1].parse().unwrap();
    assert_eq!(quota * 100, period * 50);
}

#[test]
fn test_enable_controllers_string() {
    let controller_string = enable_request("cpu memory pids").unwrap();
    assert_eq!(controller_string, "+cpu +memory +pids");
    let controllers: Vec<&str> = controller_string.split_whitespace().collect();

    assert_eq!(controllers.len(), 3);
    assert!(controllers.contains(&"+cpu"));
    assert!(controllers.contains(&"+memory"));
    assert!(controllers.contains(&"+pids"));
}

#[test]
fn test_cgroup_file_paths() {
    let base = "/sys/fs/cgroup/test";
    let test_files = vec![
        "cgroup.controllers",
        "cgroup.subtree_control",
        "memory.max",
        "cpu.max",
        "cgroup.procs",
    ];

    for file in test_files {
        let full_path = control_file(base, file);
        assert!(full_path.starts_with("/sys/fs/cgroup/test/"));
        assert!(full_path.ends_with(file));
        assert_eq!(full_path, format!("{}/{}", base, file));
    }
}

#[test]
fn test_different_pid_cgroup_paths() {
    let base = "/sys/fs/cgroup/user.slice";
    let test_pids: Vec<i32> = vec![1, 100, 9999, 12345];

    for pid in test_pids {
        let child_cgroup = child_cgroup_dir(base, pid);
        assert!(child_cgroup.contains(&format!("docker-clone-{}", pid)));
        assert!(child_cgroup.starts_with(base));
        assert_eq!(child_cgroup, format!("{}/docker-clone-{}", base, pid));
    }
}

#[test]
fn test_cgroup_parsing_logic() {
    let cgroup_lines = vec![
        "0::/user.slice/user-1000.slice",
        "1:memory:/user.slice/user-1000.slice",
        "2:cpu,cpuacct:/user.slice/user-1000.slice",
    ];

    for line in cgroup_lines {
        let found = unified_entry(line);
        assert_eq!(found.is_some(), line.starts_with("0::"));

        if let Some(cgroup_rel) = found {
            assert_eq!(cgroup_rel, "/user.slice/user-1000.slice");
        }
    }
}

#[test]
fn test_controller_values() {
    let controllers = "cpu memory pids io blkio rdma misc";
    let request = enable_request(controllers).unwrap();
    let controller_list: Vec<&str> = request
        .split_whitespace()
        .map(|c| c.trim_start_matches('+'))
        .collect();

    assert!(controller_list.contains(&"cpu"));
    assert!(controller_list.contains(&"memory"));
    assert!(controller_list.contains(&"pids"));
    assert!(controller_list.contains(&"io"));
    assert!(controller_list.contains(&"blkio"));
    assert_eq!(request, "+cpu +memory +pids +io +blkio +rdma +misc");
}

#[test]
fn cgroup_test_error_message_formatting() {
    let operation = "Failed to read cgroup.controllers";
    let error = std::io::Error::new(std::io::ErrorKind::NotFound, "File not found");
    let formatted = CgroupError {
        fault: CgroupFault::Controllers,
        reason: error.to_string(),
    }
    .message();

    assert!(formatted.contains(operation));
    assert!(formatted.contains("File not found"));
    assert_eq!(formatted, format!("{}: {}", operation, error));
}

#[test]
fn test_memory_limit_calculations() {
    let test_sizes: Vec<(u64, &str)> = vec![
        (50, "52428800"),
        (100, "104857600"),
        (200, "209715200"),
        (1024, "1073741824"),
    ];

    for (mb, expected_bytes) in test_sizes {
        let calculated = mebibytes(mb).unwrap();
        assert_eq!(memory_max_content(calculated), expected_bytes);
    }
}

#[test]
fn mebibytes_reports_overflow() {
    assert_eq!(mebibytes(0), Some(0));
    assert_eq!(mebibytes(17_592_186_044_415), Some(18_446_744_073_708_503_040));
    assert_eq!(mebibytes(17_592_186_044_416), None);
    assert_eq!(mebibytes(u64::MAX), None);
}

#[test]
fn fixed_policy_is_half_a_core_and_100_mib() {
    let policy = fixed_policy();
    assert_eq!(
        policy,
        Limits {
            memory_bytes: 104_857_600,
            cpu: CpuQuota { quota: 50_000, period: 100_000 },
        }
    );
    assert_eq!(policy.cpu.quota * 100, policy.cpu.period * 50);
    assert_eq!(policy.cpu.quota, policy.cpu.period / 2);
}

#[test]
fn unified_entry_follows_line_rules() {
    let record = "12:pids:/a\n1:name=systemd:/b\n0::/user.slice/session-3.scope\n";
    assert_eq!(unified_entry(record).as_deref(), Some("/user.slice/session-3.scope"));
    // First matching line wins.
    assert_eq!(unified_entry("0::/first\n0::/second\n").as_deref(), Some("/first"));
    // A carriage return before the line feed belongs to the terminator.
    assert_eq!(unified_entry("0::/crlf\r\n").as_deref(), Some("/crlf"));
    // A carriage return at the very end does not.
    assert_eq!(unified_entry("0::/bare\r").as_deref(), Some("/bare\r"));
    // Every leading marker is removed, not only the first.
    assert_eq!(unified_entry("0::0::/twice").as_deref(), Some("/twice"));
    assert_eq!(unified_entry("0::").as_deref(), Some(""));
    assert_eq!(unified_entry("0::/").as_deref(), Some("/"));
    // The marker must start the line.
    assert_eq!(unified_entry(" 0::/indented"), None);
    assert_eq!(unified_entry("10::/other"), None);
    assert_eq!(unified_entry("0:"), None);
    assert_eq!(unified_entry(""), None);
    assert_eq!(unified_entry("\n\n"), None);
    assert_eq!(unified_entry("\n0::/after-empty").as_deref(), Some("/after-empty"));
}

#[test]
fn unified_entry_agrees_with_std_on_samples() {
    let samples = vec![
        "0::/a",
        "x\n0::/a\r\n",
        "0::0::0::",
        "1:cpu:/\r\n0::/é/ü\n",
        "0::\r",
        "\r\n0::/z",
        "0:/no",
        "a\rb\n0::/k\r\r\n",
    ];
    for record in samples {
        let expected = record
            .lines()
            .find(|l| l.starts_with("0::"))
            .map(|l| l.trim_start_matches("0::").to_string());
        assert_eq!(unified_entry(record), expected, "record {:?}", record);
    }
}

#[test]
fn enable_request_splits_on_any_white_space() {
    assert_eq!(enable_request(""), None);
    assert_eq!(enable_request("   \n\t "), None);
    assert_eq!(enable_request("cpu\n").as_deref(), Some("+cpu"));
    assert_eq!(
        enable_request("  cpuset cpu\tio  memory\n").as_deref(),
        Some("+cpuset +cpu +io +memory")
    );
    assert_eq!(enable_request("a\u{00A0}b\u{3000}c").as_deref(), Some("+a +b +c"));
}

#[test]
fn enable_request_agrees_with_std_on_samples() {
    let samples = vec!["cpu memory pids", " x ", "", "\u{2003}", "a\u{2028}b", "é ü\r\n", "one"];
    for list in samples {
        let expected = if list.trim().is_empty() {
            None
        } else {
            Some(
                list.split_whitespace()
                    .map(|c| format!("+{}", c))
                    .collect::<Vec<_>>()
                    .join(" "),
            )
        };
        assert_eq!(enable_request(list), expected, "list {:?}", list);
    }
}

#[test]
fn control_file_contents() {
    assert_eq!(memory_max_content(0), "0");
    assert_eq!(memory_max_content(u64::MAX), "18446744073709551615");
    assert_eq!(cpu_max_content(CpuQuota { quota: 25_000, period: 100_000 }), "25000 100000");
    assert_eq!(attach_line(4321), "4321\n");
    assert_eq!(attach_line(-7), "-7\n");
    assert_eq!(attach_line(i32::MIN), "-2147483648\n");
    assert_eq!(attach_line(i32::MAX), "2147483647\n");
}

#[test]
fn distinct_pids_get_distinct_groups() {
    let parent = "/sys/fs/cgroup/user.slice";
    let pids: Vec<i32> = vec![1, 10, 11, 100, 101, 110, 1234, 12340];
    for a in &pids {
        for b in &pids {
            if a != b {
                assert_ne!(child_cgroup_dir(parent, *a), child_cgroup_dir(parent, *b));
            }
        }
    }
}

#[test]
fn setup_runs_all_steps_in_order() {
    let outcomes = vec![
        text("1:cpu:/x\n0::/user.slice\n"),
        Outcome::Flag(true),
        text("cpu memory\n"),
        Outcome::Flag(true),
        Outcome::Done,
        Outcome::Done,
        Outcome::Done,
        Outcome::Done,
        Outcome::Done,
    ];
    let (setup, seen) = drive(setup_cgroup(77), &outcomes);
    let parent = "/sys/fs/cgroup/user.slice";
    let child = "/sys/fs/cgroup/user.slice/docker-clone-77";
    let expected = vec![
        Action::ReadFile { path: "/proc/self/cgroup".to_string() },
        Action::PathExists { path: format!("{}/cgroup.controllers", parent) },
        Action::ReadFile { path: format!("{}/cgroup.controllers", parent) },
        Action::PathExists { path: format!("{}/cgroup.subtree_control", parent) },
        Action::WriteFile {
            path: format!("{}/cgroup.subtree_control", parent),
            content: "+cpu +memory".to_string(),
        },
        Action::CreateDirAll { path: child.to_string() },
        Action::WriteFile {
            path: format!("{}/memory.max", child),
            content: "104857600".to_string(),
        },
        Action::WriteFile {
            path: format!("{}/cpu.max", child),
            content: "50000 100000".to_string(),
        },
        Action::WriteExisting {
            path: format!("{}/cgroup.procs", child),
            content: "77\n".to_string(),
        },
    ];
    assert_eq!(seen, expected);
    assert_eq!(setup.phase(), CgroupPhase::Ready);
    assert_eq!(setup.pending(), None);
    assert_eq!(setup.error(), None);
    let handle = setup.handle().unwrap();
    assert_eq!(handle.path, child);
    assert_eq!(handle.memory_limit_bytes, 104_857_600);
    assert_eq!(handle.cpu_quota, CpuQuota { quota: 50_000, period: 100_000 });
}

#[test]
fn setup_skips_delegation_when_files_are_missing() {
    // No controller list at all.
    let (setup, seen) = drive(
        setup_cgroup(5),
        &[text("0::/g"), Outcome::Flag(false), Outcome::Done],
    );
    assert_eq!(seen.len(), 3);
    assert_eq!(seen[2], Action::CreateDirAll { path: "/sys/fs/cgroup/g/docker-clone-5".to_string() });
    assert_eq!(setup.phase(), CgroupPhase::SetMemory);

    // An empty controller list.
    let (setup, seen) = drive(
        setup_cgroup(5),
        &[text("0::/g"), Outcome::Flag(true), text(" \n"), Outcome::Done],
    );
    assert_eq!(seen.len(), 4);
    assert_eq!(seen[3], Action::CreateDirAll { path: "/sys/fs/cgroup/g/docker-clone-5".to_string() });
    assert_eq!(setup.phase(), CgroupPhase::SetMemory);

    // A controller list but no delegation file.
    let (setup, seen) = drive(
        setup_cgroup(5),
        &[text("0::/g"), Outcome::Flag(true), text("cpu"), Outcome::Flag(false), Outcome::Done],
    );
    assert_eq!(seen.len(), 5);
    assert_eq!(seen[4], Action::CreateDirAll { path: "/sys/fs/cgroup/g/docker-clone-5".to_string() });
    assert_eq!(setup.phase(), CgroupPhase::SetMemory);
    assert_eq!(setup.error(), None);
}

fn error_after(outcomes: &[Outcome]) -> CgroupError {
    let (setup, _) = drive(setup_cgroup(9), outcomes);
    assert_eq!(setup.pending(), None);
    assert_eq!(setup.handle(), None);
    setup.error().unwrap()
}

#[test]
fn every_fault_has_an_input() {
    let e = error_after(&[failed("denied")]);
    assert_eq!(e.fault, CgroupFault::Membership);
    assert_eq!(e.message(), "Failed to read /proc/self/cgroup: denied");

    let e = error_after(&[text("1:cpu:/only-v1\n")]);
    assert_eq!(e.fault, CgroupFault::NoUnifiedEntry);
    assert_eq!(e.message(), "Could not find cgroup path in expected format");

    let e = error_after(&[text("0::/g"), Outcome::Flag(true), failed("io")]);
    assert_eq!(e.fault, CgroupFault::Controllers);
    assert_eq!(e.message(), "Failed to read cgroup.controllers: io");

    let prefix = vec![text("0::/g"), Outcome::Flag(true), text("cpu"), Outcome::Flag(true)];
    let mut run = prefix.clone();
    run.push(failed("busy"));
    let e = error_after(&run);
    assert_eq!(e.fault, CgroupFault::Delegation);
    assert_eq!(e.message(), "Failed to enable cgroup controllers: busy");

    let mut run = prefix.clone();
    run.extend(vec![Outcome::Done, failed("ro")]);
    let e = error_after(&run);
    assert_eq!(e.fault, CgroupFault::CreateGroup);
    assert_eq!(e.message(), "Failed to create cgroup directory: ro");

    let mut run = prefix.clone();
    run.extend(vec![Outcome::Done, Outcome::Done, failed("m")]);
    let e = error_after(&run);
    assert_eq!(e.fault, CgroupFault::MemoryLimit);
    assert_eq!(e.message(), "Failed to set memory limit: m");

    let mut run = prefix.clone();
    run.extend(vec![Outcome::Done, Outcome::Done, Outcome::Done, failed("c")]);
    let e = error_after(&run);
    assert_eq!(e.fault, CgroupFault::CpuLimit);
    assert_eq!(e.message(), "Failed to set CPU limit: c");

    let mut run = prefix.clone();
    run.extend(vec![Outcome::Done, Outcome::Done, Outcome::Done, Outcome::Done, failed("gone")]);
    let e = error_after(&run);
    assert_eq!(e.fault, CgroupFault::Attach);
    assert_eq!(e.message(), "Failed to write PID to cgroup.procs: gone");
}

#[test]
fn failed_setup_stays_failed() {
    let (setup, _) = drive(setup_cgroup(9), &[failed("denied")]);
    let before = setup.error();
    let setup = setup.advance(&Outcome::Done).advance(&text("0::/g"));
    assert_eq!(setup.pending(), None);
    assert_eq!(setup.error(), before);
    assert_eq!(setup.phase(), CgroupPhase::Discover);
}

#[test]
fn outcome_of_the_wrong_kind_is_a_failure() {
    let e = error_after(&[Outcome::Done]);
    assert_eq!(e.fault, CgroupFault::Membership);
    assert_eq!(e.reason, "unexpected outcome");
    let e = error_after(&[text("0::/g"), Outcome::Done]);
    assert_eq!(e.fault, CgroupFault::Controllers);
}

#[test]
fn custom_limits_are_written() {
    let limits = Limits {
        memory_bytes: mebibytes(50).unwrap(),
        cpu: CpuQuota { quota: 20_000, period: 40_000 },
    };
    let (setup, seen) = drive(
        CgroupSetup::new(3, limits),
        &[text("0::/"), Outcome::Flag(false), Outcome::Done, Outcome::Done, Outcome::Done],
    );
    assert_eq!(
        seen[3],
        Action::WriteFile {
            path: "/sys/fs/cgroup//docker-clone-3/memory.max".to_string(),
            content: "52428800".to_string(),
        }
    );
    assert_eq!(
        seen[4],
        Action::WriteFile {
            path: "/sys/fs/cgroup//docker-clone-3/cpu.max".to_string(),
            content: "20000 40000".to_string(),
        }
    );
    assert_eq!(setup.phase(), CgroupPhase::Attach);
}

#[test]
fn discovered_setup_starts_at_the_controller_list() {
    let setup = CgroupSetup::discovered(8, fixed_policy(), "/s");
    assert_eq!(setup.phase(), CgroupPhase::ProbeControllers);
    assert_eq!(
        setup.pending(),
        Some(Action::PathExists { path: "/sys/fs/cgroup/s/cgroup.controllers".to_string() })
    );
}

#[test]
fn request_turns_on_exactly_the_listed_controllers() {
    let list = "cpuset cpu io memory hugetlb pids rdma misc\n";
    let listed: BTreeSet<String> = list.split_whitespace().map(|c| c.to_string()).collect();
    let request = enable_request(list).unwrap();
    let take = |before: &BTreeSet<String>| {
        let mut after = before.clone();
        for word in request.split_whitespace() {
            assert!(word.starts_with('+'));
            after.insert(word[1..].to_string());
        }
        after
    };
    let from_none = take(&BTreeSet::new());
    let from_all = take(&listed);
    assert_eq!(from_none, listed);
    assert_eq!(from_all, listed);
    assert_eq!(take(&from_none), from_none);
}
