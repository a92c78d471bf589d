//! The sandbox harness: scanning, rules, probes, messages and roles.
use nono_cli::command_policy::inspect::FileFacts;
use nono_cli::error::NonoError;
use nono_cli::harness::collect::{
    command_sandbox_scan, executable_parent_dirs, scan_inputs, DirListing, ScanEntry, ScanOutput,
    ScanStats,
};
use nono_cli::harness::ipc::{
    exit_code_for, read_json_line, response_words, status_to_response, wait_supervised_command,
    wait_supervised_command_timeout, write_json_line, ExitFacts, LineState, ShimFdRequest,
    ShimRequest, ShimResponse, ShimStartMessage, StreamEvent, WaitStep,
};
use nono_cli::harness::measure::{advance_measurement, Extent, MeasurePhase, MeasureReply};
use nono_cli::harness::probe::{run_probe, run_probes, ProbeExpectation, ProbeOutcome};
use nono_cli::harness::process::{
    advance_ancestry, ancestry_contains, authenticate_shim, canonicalize_file, chain_env,
    child_pid_i32, env_key_suffix, flatten_repeated, join_pipe_reader, optional_arg, parent_pid,
    required_env, required_path, shim_path, spawn_supervised_command_with_context, Ancestry,
    FileReply, PeerCredentials, PipeOutcome,
};
use nono_cli::harness::roles::{
    assert_raw_key_denied, run, run_chain_git_helper, run_chain_ssh_helper,
    run_command_pty_helper, run_stdio_helper, run_topology_role, run_tty_helper,
    run_tty_job_helper, stdio_proof_input, try_run_auto_shim, HelperEnd, Mode, ModeFlags,
    OpenReply, Role,
};
use nono_cli::harness::rules::{
    add_path_rule, append_command_context_rules, build_ruleset, build_ruleset_with_extra,
    command_device_rules, handled_rights, restrict_ruleset, session_extra_rules, supported,
    Devices, Enforcement, ExtraRule, ShimKind, EXECUTE, MAKE_SOCK, READ_DIR, READ_FILE,
    WRITE_FILE,
};
use nono_cli::harness::scan::{
    canonicalize_exclusions, default_exec_dirs, default_support_dirs, default_support_files,
    existing_dirs, existing_files, input_paths, normalize_input_paths, Exclusion, ExclusionStatus,
    PathStatus,
};
use nono_cli::harness::session::{
    accept_shim_connection, accept_shim_connection_with_child, forward_signal,
    install_signal_forwarders, materialize_shim, run_shim_client, run_topology_command,
    run_topology_session, shim_not_started, AcceptStep, Attempt, ChildPoll, LaunchStep, ShimEvent,
    ShimPhase, ShimStage,
};
use nono_cli::harness::summary::{
    abi_text, millis, print_human, print_json, JsonExclusion, JsonSummary, TimingSummary,
};
use nono_cli::harness::terminal::{
    close_fds_fallback, close_fds_from, job_helper_signal, open_fds_above_stdio, poll_readable,
    poll_timeout, read_fd_available, read_fd_once, read_fd_until, read_fd_until_accumulate,
    tcgetpgrp_diagnostic, write_all_fd, CloseStep, Fault, MarkerStep, PollStep, ReadStep, Signal,
    WriteStep, POLLHUP, POLLIN, SIGINT,
};
use nono_cli::harness::FileId;
use nono_cli::paths::FilePath;

use landlock::Access;

fn path(spelled: &str) -> FilePath {
    FilePath::from_text(spelled)
}

fn paths(list: &[&str]) -> Vec<FilePath> {
    list.iter().map(|spelled| path(spelled)).collect()
}

fn setup(message: &str) -> NonoError {
    NonoError::Setup(message.to_string())
}

fn id(dev: u64, ino: u64) -> FileId {
    FileId { dev, ino }
}

// ---------------------------------------------------------------------------
// Scanning
// ---------------------------------------------------------------------------

fn executable(ino: u64) -> FileFacts {
    FileFacts {
        is_file: true,
        mode: 0o100755,
        dev: 1,
        ino,
        size: 1,
        mtime: 0,
        mtime_nsec: 0,
    }
}

fn found(spelled: &str, facts: FileFacts) -> ScanEntry {
    ScanEntry::Found {
        canonical: path(spelled),
        facts,
    }
}

fn example_scan() -> ScanOutput {
    let excluded = vec![
        Exclusion {
            requested: path("git"),
            canonical: path("/usr/bin/git"),
            id: id(1, 10),
        },
        Exclusion {
            requested: path("ssh"),
            canonical: path("/usr/bin/ssh"),
            id: id(1, 11),
        },
    ];
    let listings = vec![
        DirListing::Entries(vec![
            found("/usr/bin/zsh", executable(20)),
            found("/usr/bin/git", executable(10)),
            found("/bin/ssh-alias", executable(11)),
            found(
                "/usr/bin/notes",
                FileFacts {
                    mode: 0o100644,
                    ..executable(21)
                },
            ),
        ]),
        DirListing::Entries(vec![
            ScanEntry::Unreadable,
            found("/bin/zsh", executable(20)),
            found("/bin/awk", executable(22)),
        ]),
    ];
    scan_inputs(
        &paths(&["/usr/bin", "/bin"]),
        &listings,
        excluded,
        paths(&["/lib"]),
        paths(&["/etc/hosts"]),
    )
    .expect("scan")
}

#[test]
fn a_scan_keeps_each_clean_executable_once() {
    let scan = example_scan();
    assert_eq!(scan.executable_files, paths(&["/bin/awk", "/usr/bin/zsh"]));
    assert_eq!(
        scan.stats,
        ScanStats {
            exec_dirs_requested: 2,
            exec_dirs_scanned: 2,
            exec_entries_seen: 7,
            executable_candidates: 5,
            allowed_executable_files: 2,
            excluded_by_path: 1,
            excluded_by_inode: 1,
            duplicate_inode_skips: 1,
            non_file_skips: 1,
            metadata_errors: 1,
            support_dirs_allowed: 1,
            support_files_allowed: 1,
            total_landlock_rules: 6,
        }
    );
}

#[test]
fn every_entry_is_accounted_for() {
    let stats = example_scan().stats;
    assert_eq!(
        stats.exec_entries_seen,
        stats.metadata_errors + stats.non_file_skips + stats.executable_candidates
    );
    assert_eq!(
        stats.executable_candidates,
        stats.excluded_by_path
            + stats.excluded_by_inode
            + stats.duplicate_inode_skips
            + stats.allowed_executable_files
    );
}

#[test]
fn a_directory_that_cannot_be_read_ends_the_scan() {
    let err = scan_inputs(
        &paths(&["/a", "/b"]),
        &vec![
            DirListing::Entries(vec![]),
            DirListing::Unreadable("denied".to_string()),
        ],
        vec![],
        vec![],
        vec![],
    )
    .expect_err("unreadable");
    assert_eq!(
        err,
        NonoError::ConfigRead {
            path: path("/b"),
            source: "denied".to_string()
        }
    );
}

#[test]
fn input_paths_fall_back_to_defaults() {
    assert_eq!(
        input_paths(&vec![], &default_exec_dirs()),
        paths(&["/bin", "/usr/bin", "/usr/local/bin", "/sbin", "/usr/sbin"])
    );
    assert_eq!(input_paths(&paths(&["/x"]), &default_exec_dirs()), paths(&["/x"]));
    assert_eq!(default_support_dirs().len(), 6);
    assert_eq!(default_support_files()[0], "/etc/ld.so.cache");
}

#[test]
fn input_paths_are_made_canonical_and_ordered() {
    let raw = paths(&["/b", "/gone", "/a", "/c"]);
    let canonical = |spelled: &str, is_dir| PathStatus::Canonical {
        path: path(spelled),
        is_dir,
    };
    let statuses = vec![
        canonical("/usr/b", true),
        PathStatus::Missing,
        canonical("/usr/a", true),
        canonical("/usr/b", true),
    ];
    assert_eq!(
        normalize_input_paths(&raw, &statuses, true),
        Ok(paths(&["/usr/a", "/usr/b"]))
    );
    let not_all_dirs = vec![
        canonical("/usr/b", true),
        PathStatus::Missing,
        canonical("/usr/a", false),
        PathStatus::Uncanonical("loop".to_string()),
    ];
    assert_eq!(
        normalize_input_paths(&raw, &not_all_dirs, true),
        Err(NonoError::ExpectedDirectory(path("/a")))
    );
    assert_eq!(
        normalize_input_paths(&raw, &not_all_dirs, false),
        Err(NonoError::PathCanonicalization {
            path: path("/c"),
            source: "loop".to_string()
        })
    );
    assert_eq!(
        existing_dirs(paths(&["/a", "/b"]), &vec![false, true]),
        paths(&["/b"])
    );
    assert_eq!(
        existing_files(paths(&["/a", "/b"]), &vec![true, false]),
        paths(&["/a"])
    );
}

#[test]
fn exclusions_are_told_apart_by_their_files() {
    let same = |ino| ExclusionStatus::Found {
        canonical: path("/usr/bin/git"),
        is_file: true,
        id: id(1, ino),
    };
    let list = canonicalize_exclusions(&paths(&["/a", "/b", "/c"]), &vec![same(1), same(1), same(2)])
        .expect("exclusions");
    assert_eq!(list.len(), 2);
    assert_eq!(list[0].requested, path("/a"));
    assert_eq!(list[1].requested, path("/c"));
    let no_file = canonicalize_exclusions(
        &paths(&["/a"]),
        &vec![ExclusionStatus::Found {
            canonical: path("/a"),
            is_file: false,
            id: id(1, 1),
        }],
    );
    assert_eq!(no_file, Err(NonoError::ExpectedFile(path("/a"))));
    let uncanonical = canonicalize_exclusions(
        &paths(&["/a"]),
        &vec![ExclusionStatus::Uncanonical("why".to_string())],
    );
    assert_eq!(
        uncanonical,
        Err(NonoError::PathCanonicalization {
            path: path("/a"),
            source: "why".to_string()
        })
    );
    let unreadable = canonicalize_exclusions(
        &paths(&["/a"]),
        &vec![ExclusionStatus::Unreadable {
            canonical: path("/real"),
            source: "why".to_string(),
        }],
    );
    assert_eq!(
        unreadable,
        Err(NonoError::ConfigRead {
            path: path("/real"),
            source: "why".to_string()
        })
    );
}

#[test]
fn parents_are_listed_once_and_in_order() {
    assert_eq!(
        executable_parent_dirs(&paths(&["/usr/bin/b", "/bin/a", "/usr/bin/c"])),
        paths(&["/bin", "/usr/bin"])
    );
}

// ---------------------------------------------------------------------------
// Rules
// ---------------------------------------------------------------------------

#[test]
fn rights_are_those_of_the_kernel_interface() {
    for abi in -3..20 {
        let known = landlock::AccessFs::from_all(landlock::ABI::from(abi)).bits();
        assert_eq!(handled_rights(abi), known, "version {abi}");
        assert_eq!(supported(abi, u64::MAX), known, "version {abi}");
        assert_eq!(supported(abi, EXECUTE | READ_FILE), (EXECUTE | READ_FILE) & known);
    }
    assert_eq!(EXECUTE, landlock::BitFlags::from(landlock::AccessFs::Execute).bits());
    assert_eq!(WRITE_FILE, landlock::BitFlags::from(landlock::AccessFs::WriteFile).bits());
    assert_eq!(READ_FILE, landlock::BitFlags::from(landlock::AccessFs::ReadFile).bits());
    assert_eq!(READ_DIR, landlock::BitFlags::from(landlock::AccessFs::ReadDir).bits());
    assert_eq!(MAKE_SOCK, landlock::BitFlags::from(landlock::AccessFs::MakeSock).bits());
}

fn rule(spelled: &str, access: u64) -> ExtraRule {
    ExtraRule {
        path: path(spelled),
        access,
    }
}

#[test]
fn scanned_files_get_their_rules() {
    let scan = command_sandbox_scan(
        path("/usr/bin/git"),
        paths(&["/lib"]),
        paths(&["/etc/hosts"]),
    );
    assert_eq!(scan.stats.total_landlock_rules, 4);
    let rules = build_ruleset(5, &scan);
    assert_eq!(rules.len(), 4);
    assert!(rules.iter().all(|rule| rule.access & WRITE_FILE == 0));
    assert!(rules
        .iter()
        .any(|rule| rule.path == path("/usr/bin/git") && rule.access == READ_FILE | EXECUTE));
    let extra = vec![rule("/x", EXECUTE)];
    let more = build_ruleset_with_extra(5, &scan, &extra);
    assert_eq!(more.len(), 5);
    assert!(more.contains(&rule("/x", EXECUTE)));
    assert_eq!(build_ruleset(0, &scan).iter().filter(|r| r.access != 0).count(), 0);
    assert_eq!(
        add_path_rule(&path("/x"), "why").message(),
        "Sandbox initialization failed: cannot add Landlock rule for /x: why"
    );
}

#[test]
fn a_session_may_use_its_shim_and_its_socket() {
    assert_eq!(
        session_extra_rules(5, &path("/t/git.shim"), &path("/t/s.sock")),
        Ok(vec![
            rule("/t/git.shim", READ_FILE | EXECUTE),
            rule(
                "/t",
                READ_FILE | READ_DIR | EXECUTE | WRITE_FILE | MAKE_SOCK
            ),
        ])
    );
    assert_eq!(
        session_extra_rules(5, &path("/t/git.shim"), &path("/")),
        Err(setup("socket path has no parent: /"))
    );
}

#[test]
fn a_command_may_use_devices_and_its_context() {
    assert_eq!(
        command_device_rules(
            5,
            Devices {
                null: true,
                zero: false,
                urandom: true
            }
        ),
        vec![
            rule("/dev/null", READ_FILE | WRITE_FILE),
            rule("/dev/urandom", READ_FILE),
        ]
    );
    let shim = path("/t/git");
    assert_eq!(
        append_command_context_rules(5, Some((&shim, ShimKind::Other)), None),
        Ok(vec![rule("/t/git", READ_FILE | EXECUTE), rule("/t", READ_DIR)])
    );
    assert_eq!(
        append_command_context_rules(5, Some((&shim, ShimKind::Directory)), None),
        Ok(vec![rule("/t/git", READ_FILE | READ_DIR | EXECUTE)])
    );
    assert_eq!(
        append_command_context_rules(5, Some((&shim, ShimKind::Missing)), None),
        Ok(vec![])
    );
}

#[test]
fn restricting_must_take_effect() {
    assert_eq!(restrict_ruleset(Ok(Enforcement::Fully)), Ok(()));
    assert_eq!(restrict_ruleset(Ok(Enforcement::Partially)), Ok(()));
    assert_eq!(
        restrict_ruleset(Ok(Enforcement::Missing)),
        Err(NonoError::SandboxInit(
            "Landlock ruleset was not enforced: NotEnforced".to_string()
        ))
    );
    assert_eq!(
        restrict_ruleset(Err("why".to_string())),
        Err(NonoError::SandboxInit("restrict_self failed: why".to_string()))
    );
}

// ---------------------------------------------------------------------------
// Probes and summaries
// ---------------------------------------------------------------------------

#[test]
fn probes_are_held_against_what_was_expected() {
    let exited = || ProbeOutcome::Exited { code: Some(0) };
    let worded = |message: &str| ProbeOutcome::SpawnError {
        message: message.to_string(),
    };
    let matched = |expected, outcome| run_probe(&path("/x"), expected, outcome).matched;
    assert!(matched(ProbeExpectation::Allow, exited()));
    assert!(!matched(ProbeExpectation::Deny, exited()));
    assert!(matched(ProbeExpectation::Deny, ProbeOutcome::SpawnDenied));
    assert!(!matched(ProbeExpectation::Allow, ProbeOutcome::SpawnDenied));
    assert!(matched(
        ProbeExpectation::Deny,
        worded("x: Permission denied (os error 13)")
    ));
    assert!(!matched(ProbeExpectation::Deny, worded("not found")));
    let all = run_probes(
        &paths(&["/a"]),
        &paths(&["/b"]),
        &vec![exited()],
        &vec![ProbeOutcome::SpawnDenied],
    );
    assert_eq!(all.len(), 2);
    assert_eq!(all[0].path, "/a");
    assert_eq!(all[1].expected, ProbeExpectation::Deny);
}

#[test]
fn summaries_say_what_was_measured() {
    let scan = example_scan();
    let timings = TimingSummary {
        scan_ms: 3,
        ruleset_build_ms: None,
        restrict_self_ms: None,
        total_ms: 5,
    };
    let lines = print_human(5, &scan, &timings, &vec![], false);
    assert_eq!(
        lines,
        vec![
            "Landlock ABI: V5",
            "Executable dirs requested: 2",
            "Executable dirs scanned: 2",
            "Entries seen: 7",
            "Executable candidates: 5",
            "Allowed executable files: 2",
            "Excluded by path: 1",
            "Excluded by inode: 1",
            "Duplicate inode skips: 1",
            "Support dirs allowed: 1",
            "Support files allowed: 1",
            "Total Landlock rules: 6",
            "Scan time: 3 ms",
            "Total time: 5 ms",
            "Excluded binaries:",
            "  git -> /usr/bin/git [1:10]",
            "  ssh -> /usr/bin/ssh [1:11]",
            "Landlock was not applied. Re-run with --apply to measure restrict_self.",
        ]
    );
    let probed = run_probe(
        &path("/bin/git"),
        ProbeExpectation::Deny,
        ProbeOutcome::SpawnDenied,
    );
    let applied = print_human(
        5,
        &scan,
        &TimingSummary {
            scan_ms: 3,
            ruleset_build_ms: Some(1),
            restrict_self_ms: Some(2),
            total_ms: 7,
        },
        &vec![probed],
        true,
    );
    assert_eq!(
        applied[12..16],
        [
            "Scan time: 3 ms",
            "Ruleset build time: 1 ms",
            "restrict_self time: 2 ms",
            "Total time: 7 ms"
        ]
    );
    assert_eq!(
        applied[applied.len() - 2..],
        [
            "Exec probes:",
            "  /bin/git expected Deny, outcome SpawnDenied, matched=true"
        ]
    );
    let json = print_json(5, &scan, timings, vec![]);
    assert_eq!(json.excluded.len(), 2);
    assert_eq!(
        json.excluded[0],
        JsonExclusion {
            requested: "git".to_string(),
            canonical: "/usr/bin/git".to_string(),
            dev: 1,
            ino: 10
        }
    );
    assert_eq!(json.landlock_abi, abi_text(5));
    assert_eq!(millis(2, 345_678_901), 2345);
    assert_eq!(millis(u64::MAX, 999_999_999), u64::MAX as u128 * 1000 + 999);
}

#[test]
fn versions_are_named_as_the_interface_names_them() {
    for abi in -3..20 {
        assert_eq!(abi_text(abi), format!("{:?}", landlock::ABI::from(abi)));
    }
}

// ---------------------------------------------------------------------------
// Messages
// ---------------------------------------------------------------------------

fn read_all(given: &[u8]) -> LineState {
    let mut state = LineState::Reading(vec![]);
    for byte in given {
        state = read_json_line(state, StreamEvent::Byte(*byte));
    }
    state
}

#[test]
fn messages_arrive_as_they_were_written() {
    let framed = write_json_line("{\"a\":1}");
    assert_eq!(framed, b"{\"a\":1}\n".to_vec());
    assert_eq!(read_all(&framed), LineState::Complete(b"{\"a\":1}".to_vec()));
    assert_eq!(
        read_json_line(read_all(b"{"), StreamEvent::Closed),
        LineState::Failed(setup("IPC stream closed before newline"))
    );
    assert_eq!(
        read_json_line(read_all(b"{"), StreamEvent::Failed("why".to_string())),
        LineState::Failed(setup("failed to read IPC message: why"))
    );
}

#[test]
fn messages_that_are_too_long_are_refused() {
    let long = vec![b'x'; 1024 * 1024 + 1];
    assert!(matches!(read_all(&long), LineState::Failed(_)));
    assert!(matches!(read_all(&long[..1024 * 1024]), LineState::Reading(_)));
}

fn ended(code: Option<i32>, signal: Option<i32>) -> ShimResponse {
    status_to_response(ExitFacts { code, signal })
}

#[test]
fn responses_are_written_for_debugging() {
    assert_eq!(
        response_words(&ended(Some(0), None)),
        "ShimResponse { exit_code: Some(0), signal: None, spawn_error: None }"
    );
    let failed = wait_supervised_command(Err("a \"b\"\n".to_string()));
    assert_eq!(
        response_words(&failed),
        "ShimResponse { exit_code: None, signal: None, spawn_error: Some(\"a \\\"b\\\"\\n\") }"
    );
    assert_eq!(response_words(&failed), format!("{failed:?}"));
}

#[test]
fn a_shim_passes_on_how_its_command_ended() {
    assert_eq!(exit_code_for(&ended(Some(0), None)), 0);
    assert_eq!(exit_code_for(&ended(Some(7), None)), 7);
    assert_eq!(exit_code_for(&ended(None, Some(SIGINT))), 130);
    assert_eq!(exit_code_for(&ended(None, Some(i32::MAX))), i32::MAX);
    assert_eq!(exit_code_for(&ended(None, None)), 1);
    assert_eq!(
        exit_code_for(&wait_supervised_command(Err("x".to_string()))),
        126
    );
}

#[test]
fn a_command_is_waited_for_until_its_time_is_up() {
    let done = ExitFacts {
        code: Some(3),
        signal: None,
    };
    assert_eq!(
        wait_supervised_command_timeout(Ok(Some(done)), true, 5000),
        WaitStep::Done(status_to_response(done))
    );
    assert_eq!(
        wait_supervised_command_timeout(Ok(None), false, 5000),
        WaitStep::Sleep
    );
    let WaitStep::Kill(response) = wait_supervised_command_timeout(Ok(None), true, 5000) else {
        panic!("expected an end");
    };
    assert_eq!(
        response.spawn_error,
        Some("command child timed out after 5000 ms".to_string())
    );
    assert!(matches!(
        wait_supervised_command_timeout(Err("x".to_string()), false, 1),
        WaitStep::Done(_)
    ));
}

// ---------------------------------------------------------------------------
// Processes
// ---------------------------------------------------------------------------

#[test]
fn environment_keys_hold_plain_characters() {
    assert_eq!(env_key_suffix("ssh"), "SSH");
    assert_eq!(env_key_suffix("git-lfs.2"), "GIT_LFS_2");
    assert_eq!(env_key_suffix("\u{fc}"), "_");
}

#[test]
fn arguments_are_put_together() {
    assert_eq!(
        flatten_repeated("--exec-dir", &paths(&["/a", "/b"])),
        vec!["--exec-dir", "/a", "--exec-dir", "/b"]
    );
    assert_eq!(optional_arg("--x", Some("y")), vec!["--x", "y"]);
    assert!(optional_arg("--x", None).is_empty());
    let socket = path("/s");
    let shim = path("/t");
    assert_eq!(
        spawn_supervised_command_with_context(
            &path("/bin/git"),
            Some("helper"),
            Some(&socket),
            Some(&shim),
            true
        ),
        paths(&[
            "--topology-role",
            "command",
            "--topology-policy",
            "/bin/git",
            "--topology-helper-role",
            "helper",
            "--topology-socket",
            "/s",
            "--topology-shim",
            "/t",
            "--topology-command-pty",
        ])
    );
}

#[test]
fn a_chained_shim_finds_its_policy() {
    let env = chain_env(
        &path("/shims"),
        &path("/s.sock"),
        &path("/real/ssh-real"),
        &path("/key"),
        &path("/agent"),
        "/bin",
    );
    let value = |name: &str| {
        env.iter()
            .find(|var| var.name == name)
            .map(|var| var.value.as_str())
    };
    assert_eq!(value("PATH"), Some("/shims:/bin"));
    let shim = try_run_auto_shim(Some(&path("/shims/ssh"))).expect("auto shim");
    assert_eq!(shim.command_name, "ssh");
    assert_eq!(value(&shim.policy_key), Some("/real/ssh-real"));
    assert_eq!(value(&shim.helper_key), Some("chain-ssh-helper"));
    assert_eq!(value("NONO_SUPERVISOR_SOCK"), Some("/s.sock"));
    assert_eq!(value("NONO_HARNESS_AUTO_SHIM"), Some("1"));
    assert_eq!(value("CHAIN_RAW_KEY"), Some("/key"));
    assert_eq!(value("SSH_AUTH_SOCK"), Some("/agent"));
    assert_eq!(
        try_run_auto_shim(None),
        Err(setup("auto shim argv[0] was missing"))
    );
    assert_eq!(
        try_run_auto_shim(Some(&path("/"))),
        Err(setup("auto shim argv[0] had no file name: /"))
    );
}

#[test]
fn files_are_made_canonical_or_refused() {
    let at = path("a");
    assert_eq!(
        canonicalize_file(
            &at,
            FileReply::Canonical {
                path: path("/a"),
                is_file: true
            }
        ),
        Ok(path("/a"))
    );
    assert_eq!(
        canonicalize_file(
            &at,
            FileReply::Canonical {
                path: path("/a"),
                is_file: false
            }
        ),
        Err(NonoError::ExpectedFile(path("a")))
    );
    assert_eq!(
        canonicalize_file(&at, FileReply::Uncanonical("why".to_string())),
        Err(NonoError::PathCanonicalization {
            path: path("a"),
            source: "why".to_string()
        })
    );
}

#[test]
fn what_is_needed_must_be_there() {
    assert_eq!(required_path(&Some(path("/a")), "--x"), Ok(path("/a")));
    assert_eq!(
        required_path(&None, "--x"),
        Err(setup("missing internal argument --x"))
    );
    assert_eq!(required_env("A", Ok("b".to_string())), Ok("b".to_string()));
    assert_eq!(
        required_env("A", Err("why".to_string())),
        Err(setup("missing or invalid environment variable A: why"))
    );
    assert_eq!(child_pid_i32(7), Ok(7));
    assert!(child_pid_i32(u32::MAX).is_err());
    assert_eq!(
        join_pipe_reader(PipeOutcome::Read(b"x".to_vec()), "stdout"),
        Ok(b"x".to_vec())
    );
    assert!(join_pipe_reader(PipeOutcome::Failed("why".to_string()), "stdout").is_err());
    assert!(join_pipe_reader(PipeOutcome::Panicked, "stdout").is_err());
}

#[test]
fn a_shim_is_named_after_its_policy_binary() {
    assert_eq!(
        shim_path(&path("/t"), &path("/usr/bin/git")),
        Ok(path("/t/git.shim"))
    );
    assert_eq!(
        shim_path(&path("/t"), &path("/usr/bin/python3.12")),
        Ok(path("/t/python3.shim"))
    );
    assert_eq!(
        shim_path(&path("/t"), &path("/")),
        Err(setup("policy path has no file name: /"))
    );
}

fn peer() -> PeerCredentials {
    PeerCredentials {
        pid: 42,
        uid: 1000,
        gid: 100,
    }
}

#[test]
fn only_the_trusted_shim_is_authenticated() {
    let auth = authenticate_shim(Ok(peer()), Ok(path("/t/shim")), Ok(id(1, 2)), id(1, 2))
        .expect("trusted");
    assert_eq!(auth.peer_pid, 42);
    assert_eq!(auth.peer_id, id(1, 2));
    assert_eq!(
        authenticate_shim(Ok(peer()), Ok(path("/t/x")), Ok(id(1, 3)), id(1, 2)),
        Err(setup(
            "shim authentication failed: peer executable /t/x has inode 1:3, expected 1:2"
        ))
    );
    assert_eq!(
        authenticate_shim(Err("why".to_string()), Ok(path("/t/x")), Ok(id(1, 2)), id(1, 2)),
        Err(setup("SO_PEERCRED failed: why"))
    );
    assert_eq!(
        authenticate_shim(Ok(peer()), Err("why".to_string()), Ok(id(1, 2)), id(1, 2)),
        Err(setup("failed to read peer executable /proc/42/exe: why"))
    );
    assert_eq!(
        authenticate_shim(Ok(peer()), Ok(path("/t/x")), Err("why".to_string()), id(1, 2)),
        Err(setup("failed to stat peer executable /proc/42/exe: why"))
    );
}

/// Looks for an ancestor in a written-down family.
fn descends(pid: i32, wanted: i32, parents: &[(i32, i32)]) -> Ancestry {
    let mut state = ancestry_contains(pid, wanted);
    for _ in 0..200 {
        let asked = match &state {
            Ancestry::Ask { pid, .. } => *pid,
            _ => break,
        };
        let parent = parents
            .iter()
            .find(|(child, _)| *child == asked)
            .map(|(_, parent)| *parent)
            .ok_or_else(|| setup("gone"));
        state = advance_ancestry(state, wanted, parent);
    }
    state
}

#[test]
fn descent_is_followed_to_the_first_process() {
    let family = [(5, 4), (4, 3), (3, 1), (1, 0)];
    assert!(matches!(descends(5, 3, &family), Ancestry::Found));
    assert!(matches!(descends(5, 9, &family), Ancestry::Absent));
    assert!(matches!(descends(7, 3, &family), Ancestry::Failed(_)));
    let circle = [(5, 6), (6, 5)];
    assert!(matches!(descends(5, 3, &circle), Ancestry::Failed(_)));
}

#[test]
fn the_parent_stands_in_the_status() {
    let status = "Name:\tsh\nPid:\t9\nPPid:\t8\nUid:\t0\n";
    assert_eq!(parent_pid(9, Ok(status.to_string())), Ok(8));
    assert_eq!(parent_pid(9, Ok("PPid:\t+8\n".to_string())), Ok(8));
    assert!(parent_pid(9, Ok("Name:\tsh\n".to_string())).is_err());
    assert!(parent_pid(9, Err("why".to_string())).is_err());
    for spelled in ["", "x", "-", "2147483648", "-2147483649", "1 2"] {
        let err = parent_pid(9, Ok(format!("PPid:\t{spelled}\n"))).expect_err("no number");
        let reason = spelled
            .trim()
            .parse::<i32>()
            .expect_err("no number")
            .to_string();
        assert!(err.message().ends_with(&reason), "{spelled:?}: {err:?}");
    }
    assert_eq!(
        parent_pid(9, Ok("PPid:\t-2147483648\n".to_string())),
        Ok(i32::MIN)
    );
}

// ---------------------------------------------------------------------------
// Sessions and shims
// ---------------------------------------------------------------------------

#[test]
fn a_supervisor_waits_while_its_children_live() {
    let ended = || ChildPoll::Ended("exit status: 1".to_string());
    assert_eq!(
        accept_shim_connection(false, &Attempt::Connected, &ended()),
        AcceptStep::Connected
    );
    assert_eq!(
        accept_shim_connection(false, &Attempt::Pending, &ChildPoll::Running),
        AcceptStep::Again
    );
    assert_eq!(
        accept_shim_connection(false, &Attempt::Pending, &ended()),
        AcceptStep::Failed(setup(
            "session child exited before shim connected: exit status: 1"
        ))
    );
    assert_eq!(
        accept_shim_connection(true, &Attempt::Connected, &ChildPoll::Running),
        AcceptStep::Failed(setup("timed out waiting for shim connection"))
    );
    assert_eq!(
        accept_shim_connection(
            false,
            &Attempt::Failed("why".to_string()),
            &ChildPoll::Running
        ),
        AcceptStep::Failed(setup("failed to accept shim connection: why"))
    );
    assert_eq!(
        accept_shim_connection(
            false,
            &Attempt::Pending,
            &ChildPoll::Failed("why".to_string())
        ),
        AcceptStep::Failed(setup("failed to poll session child: why"))
    );
    assert_eq!(
        accept_shim_connection_with_child(
            false,
            &Attempt::Pending,
            &ChildPoll::Running,
            &ended()
        ),
        AcceptStep::Failed(setup(
            "command child exited before chained shim connected: exit status: 1"
        ))
    );
    assert_eq!(
        accept_shim_connection_with_child(
            false,
            &Attempt::Pending,
            &ended(),
            &ChildPoll::Failed("why".to_string())
        ),
        AcceptStep::Failed(setup(
            "session child exited before chained shim connected: exit status: 1"
        ))
    );
    assert_eq!(
        accept_shim_connection_with_child(
            true,
            &Attempt::Pending,
            &ChildPoll::Running,
            &ChildPoll::Running
        ),
        AcceptStep::Failed(setup("timed out waiting for chained shim connection"))
    );
}

#[test]
fn shims_that_cannot_be_made_are_named() {
    let err = |stage| materialize_shim(&path("/exe"), &path("/t/shim"), stage, "why");
    assert_eq!(
        err(ShimStage::Copy),
        setup("failed to materialize shim /t/shim from /exe: why")
    );
    assert_eq!(err(ShimStage::Stat), setup("failed to stat shim /t/shim: why"));
    assert_eq!(
        err(ShimStage::Permit),
        setup("failed to set shim permissions /t/shim: why")
    );
    assert_eq!(
        shim_not_started(&path("/t/shim"), "why"),
        setup("failed to spawn shim /t/shim: why")
    );
}

#[test]
fn a_session_goes_on_only_where_the_policy_binary_is_denied() {
    let fine = run_topology_session(&path("/git"), ProbeOutcome::SpawnDenied, Some("tty-helper"));
    assert_eq!(fine.line, "topology-session: direct policy exec matched=true");
    assert_eq!(fine.verdict, Ok(()));
    assert_eq!(fine.ignored, vec![Signal::Interrupt, Signal::Quit, Signal::Suspend]);
    let ran = run_topology_session(&path("/git"), ProbeOutcome::Exited { code: Some(0) }, None);
    assert_eq!(ran.line, "topology-session: direct policy exec matched=false");
    assert_eq!(
        ran.verdict,
        Err(setup(
            "direct policy exec was not denied: Exited { code: Some(0) }"
        ))
    );
    assert!(ran.ignored.is_empty());
}

fn drive(events: Vec<ShimEvent>) -> ShimPhase {
    let socket = path("/s.sock");
    let policy = path("/bin/git");
    let helper = Some("helper".to_string());
    let mut phase = ShimPhase::Connect;
    for event in events {
        phase = run_shim_client(phase, event, &socket, &policy, &helper);
    }
    phase
}

fn start(pid: Option<i32>, spawn_error: Option<&str>) -> ShimEvent {
    ShimEvent::Start(ShimStartMessage {
        grandchild_pid: pid,
        spawn_error: spawn_error.map(|reason| reason.to_string()),
    })
}

fn asked(send_stdio_fds: bool) -> ShimEvent {
    ShimEvent::FdRequest(ShimFdRequest { send_stdio_fds })
}

#[test]
fn a_shim_hands_over_and_waits() {
    assert_eq!(
        drive(vec![ShimEvent::Done]),
        ShimPhase::SendRequest(ShimRequest {
            command: "/bin/git".to_string(),
            helper_role: Some("helper".to_string())
        })
    );
    assert_eq!(
        drive(vec![ShimEvent::NotConnected("why".to_string())]),
        ShimPhase::Failed(setup(
            "shim failed to connect to supervisor socket /s.sock: why"
        ))
    );
    assert_eq!(
        drive(vec![ShimEvent::Done, ShimEvent::Done, asked(false)]),
        ShimPhase::Failed(setup("supervisor did not request stdio fd handoff"))
    );
    let to_start = || vec![ShimEvent::Done, ShimEvent::Done, asked(true), ShimEvent::Done];
    let mut events = to_start();
    events.push(start(Some(9), None));
    assert_eq!(drive(events), ShimPhase::Forward(9));
    let mut events = to_start();
    events.push(start(None, None));
    assert_eq!(
        drive(events),
        ShimPhase::Failed(setup("supervisor start message omitted grandchild pid"))
    );
    let mut events = to_start();
    events.push(start(Some(9), Some("no")));
    assert_eq!(
        drive(events),
        ShimPhase::Exit {
            complaint: Some("topology-shim: supervisor spawn error: no".to_string()),
            code: 126
        }
    );
    let mut events = to_start();
    events.push(start(Some(9), None));
    events.push(ShimEvent::Done);
    events.push(ShimEvent::Response(ended(None, Some(nix::libc::SIGTERM))));
    assert_eq!(
        drive(events),
        ShimPhase::Exit {
            complaint: None,
            code: 143
        }
    );
    assert_eq!(drive(vec![asked(true)]), ShimPhase::Connect);
    assert_eq!(
        drive(vec![ShimEvent::Refused(setup("no")), ShimEvent::Done]),
        ShimPhase::Failed(setup("no"))
    );
}

#[test]
fn signals_are_passed_on_to_a_known_process() {
    assert_eq!(
        install_signal_forwarders(),
        vec![
            Signal::Interrupt,
            Signal::Terminate,
            Signal::HangUp,
            Signal::Quit,
            Signal::Suspend,
            Signal::Continue,
            Signal::Resize,
        ]
    );
    assert!(forward_signal(7));
    assert!(!forward_signal(0));
    assert!(!forward_signal(-1));
}

#[test]
fn a_launcher_ends_by_becoming_its_command() {
    assert_eq!(
        run_topology_command(true),
        vec![
            LaunchStep::TakeTerminal,
            LaunchStep::Restrict,
            LaunchStep::OpenStray,
            LaunchStep::CloseStrays,
            LaunchStep::Execute
        ]
    );
    assert_eq!(run_topology_command(false).len(), 4);
}

// ---------------------------------------------------------------------------
// Roles
// ---------------------------------------------------------------------------

fn flags() -> ModeFlags {
    ModeFlags {
        topology_role: false,
        tty_signal_smoke: false,
        tty_job_control_smoke: false,
        chain_credential_smoke: false,
        command_pty_bridge_smoke: false,
        auto_shim: false,
        stdio_fd_smoke: false,
        topology_smoke: false,
        apply: false,
        dry_run: false,
    }
}

#[test]
fn the_first_thing_asked_for_is_done() {
    assert_eq!(
        run(flags()),
        Mode::Measure {
            build: false,
            apply: false
        }
    );
    assert_eq!(
        run(ModeFlags {
            apply: true,
            ..flags()
        }),
        Mode::Measure {
            build: true,
            apply: true
        }
    );
    for apply in [false, true] {
        assert_eq!(
            run(ModeFlags {
                apply,
                dry_run: true,
                ..flags()
            }),
            Mode::Measure {
                build: true,
                apply: false
            }
        );
    }
    assert_eq!(
        run(ModeFlags {
            auto_shim: true,
            stdio_fd_smoke: true,
            ..flags()
        }),
        Mode::AutoShim
    );
    assert_eq!(
        run(ModeFlags {
            auto_shim: true,
            chain_credential_smoke: true,
            ..flags()
        }),
        Mode::ChainCredentialSmoke
    );
    assert_eq!(
        run(ModeFlags {
            topology_role: true,
            tty_signal_smoke: true,
            ..flags()
        }),
        Mode::Role
    );
}

/// Takes a measurement to its end, and says which phases it went through and
/// what it reported.
fn measure(extent: Extent) -> (Vec<&'static str>, JsonSummary, Vec<String>) {
    let mut phase = MeasurePhase::DetectAbi;
    let mut names = vec![];
    let mut reported = None;
    for _ in 0..10 {
        let (name, reply) = match &phase {
            MeasurePhase::DetectAbi => ("detect", MeasureReply::Abi(4)),
            MeasurePhase::Scan { .. } => (
                "scan",
                MeasureReply::Scanned {
                    scan: example_scan(),
                    ms: 1,
                },
            ),
            MeasurePhase::Build { rules, .. } => {
                assert_eq!(*rules, build_ruleset(4, &example_scan()));
                ("build", MeasureReply::Built { ms: 2 })
            }
            MeasurePhase::Restrict(_) => ("restrict", MeasureReply::Restricted { ms: 3 }),
            MeasurePhase::Probe(_) => (
                "probe",
                MeasureReply::Probed(vec![run_probe(
                    &path("/bin/git"),
                    ProbeExpectation::Deny,
                    ProbeOutcome::SpawnDenied,
                )]),
            ),
            MeasurePhase::Report(found) => {
                reported = Some((found.as_data(9), found.in_words(9)));
                ("report", MeasureReply::Reported)
            }
            MeasurePhase::Ended => break,
            MeasurePhase::Failed(error) => panic!("the measurement failed: {error:?}"),
        };
        names.push(name);
        phase = advance_measurement(extent, phase, reply);
    }
    assert_eq!(phase, MeasurePhase::Ended);
    let (data, words) = reported.expect("a report");
    (names, data, words)
}

const NOT_APPLIED: &str =
    "Landlock was not applied. Re-run with --apply to measure restrict_self.";

#[test]
fn a_dry_run_builds_the_rules_and_stops() {
    let (phases, data, words) = measure(Extent {
        build: true,
        apply: false,
    });
    assert_eq!(phases, vec!["detect", "scan", "build", "report"]);
    assert_eq!(
        data.timings,
        TimingSummary {
            scan_ms: 1,
            ruleset_build_ms: Some(2),
            restrict_self_ms: None,
            total_ms: 9,
        }
    );
    assert!(data.probes.is_empty());
    assert!(words.contains(&"Ruleset build time: 2 ms".to_string()));
    assert!(words.contains(&NOT_APPLIED.to_string()));
}

#[test]
fn a_measurement_goes_as_far_as_it_was_asked_to() {
    let (phases, data, _) = measure(Extent {
        build: false,
        apply: false,
    });
    assert_eq!(phases, vec!["detect", "scan", "report"]);
    assert_eq!(data.timings.ruleset_build_ms, None);
    let (phases, data, words) = measure(Extent {
        build: true,
        apply: true,
    });
    assert_eq!(
        phases,
        vec!["detect", "scan", "build", "restrict", "probe", "report"]
    );
    assert_eq!(data.timings.ruleset_build_ms, Some(2));
    assert_eq!(data.timings.restrict_self_ms, Some(3));
    assert_eq!(data.probes.len(), 1);
    assert!(!words.contains(&NOT_APPLIED.to_string()));
}

#[test]
fn a_measurement_ends_at_the_first_failure() {
    let extent = Extent {
        build: true,
        apply: true,
    };
    let failed = advance_measurement(
        extent,
        MeasurePhase::Scan { abi: 4 },
        MeasureReply::Refused(setup("no")),
    );
    assert_eq!(failed, MeasurePhase::Failed(setup("no")));
    let failed = advance_measurement(extent, failed, MeasureReply::Abi(4));
    assert_eq!(failed, MeasurePhase::Failed(setup("no")));
    let unasked = advance_measurement(
        extent,
        MeasurePhase::DetectAbi,
        MeasureReply::Built { ms: 1 },
    );
    assert_eq!(unasked, MeasurePhase::DetectAbi);
}

#[test]
fn roles_go_by_their_names() {
    assert_eq!(run_topology_role("session"), Ok(Role::Session));
    assert_eq!(run_topology_role("chain-ssh-helper"), Ok(Role::ChainSshHelper));
    assert_eq!(
        run_topology_role("other"),
        Err(setup("unknown internal topology role: other"))
    );
}

#[test]
fn a_helper_proves_its_input_and_its_descriptors() {
    let fine = run_stdio_helper(Ok(stdio_proof_input()), &vec![]);
    assert_eq!(
        fine.stdout,
        vec![
            "stdio-helper-stdout: nono-stdin-proof",
            "stdio-helper-open-fds: []"
        ]
    );
    assert_eq!(fine.stderr, vec!["stdio-helper-stderr: proof"]);
    assert_eq!(fine.end, HelperEnd::Success);
    let leaky = run_stdio_helper(Ok(stdio_proof_input()), &vec![3, 12]);
    assert_eq!(leaky.stdout[1], "stdio-helper-open-fds: [3, 12]");
    assert_eq!(
        leaky.stderr[1],
        "stdio-helper: leaked fds above stderr: [3, 12]"
    );
    assert_eq!(leaky.end, HelperEnd::Exit(43));
    let wrong = run_stdio_helper(Ok(b"a\t\xff".to_vec()), &vec![]);
    assert_eq!(
        wrong.stderr,
        vec!["stdio-helper: stdin mismatch, got \"a\\t\u{fffd}\""]
    );
    assert_eq!(wrong.end, HelperEnd::Exit(42));
    let failed = run_stdio_helper(Err("why".to_string()), &vec![]);
    assert_eq!(
        failed.end,
        HelperEnd::Failed(setup("stdio helper failed to read stdin: why"))
    );
}

#[test]
fn helpers_show_their_terminal() {
    assert_eq!(
        run_tty_helper(true),
        vec!["tty-helper-isatty-stdin: true", "tty-helper-ready"]
    );
    assert_eq!(
        run_tty_job_helper(false, 1, 2, 3, "4"),
        vec![
            "tty-job-helper-isatty-stdin: false",
            "tty-job-helper-pid: 1 pgrp=2 sid=3 tcgetpgrp=4",
            "tty-job-helper-ready"
        ]
    );
    assert_eq!(
        run_command_pty_helper(true, 1, 2, 3, &tcgetpgrp_diagnostic(-1, "why"))[1],
        "command-pty-helper-pid: 1 pgrp=2 sid=3 tcgetpgrp=error(why)"
    );
    assert_eq!(tcgetpgrp_diagnostic(17, "why"), "17");
}

#[test]
fn a_key_must_be_out_of_reach() {
    let tried = |reply| assert_raw_key_denied("helper", &path("/key"), reply);
    let denied = tried(OpenReply::Denied);
    assert_eq!(denied.stdout, vec!["helper-raw-key: denied"]);
    assert_eq!(denied.end, HelperEnd::Success);
    let opened = tried(OpenReply::Opened);
    assert_eq!(opened.stderr, vec!["helper-raw-key: unexpectedly-readable"]);
    assert_eq!(opened.end, HelperEnd::Exit(45));
    assert_eq!(
        tried(OpenReply::Failed("why".to_string())).end,
        HelperEnd::Failed(setup(
            "helper raw-key probe failed with non-permission error for /key: why"
        ))
    );
}

#[test]
fn chained_helpers_pass_on_what_happened() {
    let fine = run_chain_git_helper(Ok(Some(0)));
    assert_eq!(fine.stdout, vec!["chain-git-helper-ssh-status: 0"]);
    assert_eq!(fine.end, HelperEnd::Success);
    let killed = run_chain_git_helper(Ok(None));
    assert_eq!(killed.stdout, vec!["chain-git-helper-ssh-status: 128"]);
    assert_eq!(killed.end, HelperEnd::Exit(128));
    assert_eq!(
        run_chain_git_helper(Err("why".to_string())).end,
        HelperEnd::Failed(setup("chain git helper failed to spawn ssh shim: why"))
    );
    assert_eq!(
        run_chain_ssh_helper(&path("/agent"), Ok(())).stdout,
        vec!["chain-ssh-helper-agent: connected"]
    );
    let failed = run_chain_ssh_helper(&path("/agent"), Err("why".to_string()));
    assert_eq!(
        failed.stderr,
        vec!["chain-ssh-helper-agent: failed to connect /agent: why"]
    );
    assert_eq!(failed.end, HelperEnd::Exit(44));
}

// ---------------------------------------------------------------------------
// Terminals and descriptors
// ---------------------------------------------------------------------------

#[test]
fn numbers_are_those_of_the_system() {
    assert_eq!(POLLIN, nix::libc::POLLIN);
    assert_eq!(POLLHUP, nix::libc::POLLHUP);
    assert_eq!(SIGINT, nix::libc::SIGINT);
}

#[test]
fn waiting_for_input_is_decided_by_what_the_system_says() {
    assert_eq!(poll_timeout(250), 250);
    assert_eq!(poll_timeout(u128::MAX), i32::MAX);
    assert_eq!(poll_readable(1, POLLIN, Fault::Other, ""), PollStep::Answer(true));
    assert_eq!(poll_readable(1, POLLHUP, Fault::Other, ""), PollStep::Answer(true));
    assert_eq!(poll_readable(1, 0, Fault::Other, ""), PollStep::Answer(false));
    assert_eq!(poll_readable(0, 0, Fault::Other, ""), PollStep::Answer(false));
    assert_eq!(poll_readable(-1, 0, Fault::Interrupted, ""), PollStep::Retry);
    assert_eq!(
        poll_readable(-1, 0, Fault::Gone, "why"),
        PollStep::Failed(setup("poll failed: why"))
    );
}

#[test]
fn reading_and_writing_go_on_after_an_interruption() {
    assert_eq!(read_fd_once(5, Fault::Other, ""), ReadStep::Data(5));
    assert_eq!(read_fd_once(0, Fault::Other, ""), ReadStep::End);
    assert_eq!(read_fd_once(-1, Fault::Gone, ""), ReadStep::End);
    assert_eq!(read_fd_once(-1, Fault::Interrupted, ""), ReadStep::Retry);
    assert_eq!(
        read_fd_once(-1, Fault::Unknown, "why"),
        ReadStep::Failed(setup("PTY read failed: why"))
    );
    assert_eq!(write_all_fd(10, 4, Fault::Other, ""), WriteStep::Left(6));
    assert_eq!(write_all_fd(10, -1, Fault::Interrupted, ""), WriteStep::Retry);
    assert_eq!(
        write_all_fd(10, -1, Fault::Gone, "why"),
        WriteStep::Failed(setup("PTY write failed: why"))
    );
}

#[test]
fn markers_are_waited_for() {
    let seen = b"..ready..".to_vec();
    let marker = b"ready".to_vec();
    let other = b"other".to_vec();
    assert_eq!(read_fd_until(&seen, &marker, true, true), MarkerStep::Found);
    assert_eq!(read_fd_until(&seen, &other, true, false), MarkerStep::Wait);
    assert!(matches!(
        read_fd_until(&seen, &other, true, true),
        MarkerStep::Failed(_)
    ));
    assert_eq!(
        read_fd_until_accumulate(&seen, &marker, false),
        MarkerStep::Found
    );
    assert!(matches!(
        read_fd_until_accumulate(&seen, &marker, true),
        MarkerStep::Failed(_)
    ));
    assert!(read_fd_available(1, 10, 1, 5));
    assert!(!read_fd_available(10, 10, 1, 5));
    assert!(!read_fd_available(1, 10, 5, 5));
}

#[test]
fn stray_descriptors_are_closed() {
    assert_eq!(close_fds_from(0, Fault::Other, ""), CloseStep::Closed);
    assert_eq!(close_fds_from(-1, Fault::Unknown, ""), CloseStep::OneByOne);
    assert_eq!(close_fds_from(-1, Fault::Invalid, ""), CloseStep::OneByOne);
    assert_eq!(
        close_fds_from(-1, Fault::Gone, "why"),
        CloseStep::Failed(setup("close_range failed: why"))
    );
    let all = close_fds_fallback(3);
    assert_eq!(all[0], 3);
    assert!(all.windows(2).all(|pair| pair[1] == pair[0] + 1));
    assert_eq!(
        open_fds_above_stdio(&vec![false, true, false, true]),
        vec![4, 6]
    );
}

#[test]
fn jobs_say_which_signal_they_saw() {
    assert_eq!(job_helper_signal(Some(Signal::Suspend)), "tty-job-helper-signal: SIGTSTP\n");
    assert_eq!(job_helper_signal(Some(Signal::Continue)), "tty-job-helper-signal: SIGCONT\n");
    assert_eq!(
        job_helper_signal(Some(Signal::Resize)),
        "tty-job-helper-signal: SIGWINCH\n"
    );
    for other in [None, Some(Signal::HangUp)] {
        assert_eq!(job_helper_signal(other), "tty-job-helper-signal: UNKNOWN\n");
    }
}
