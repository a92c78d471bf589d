//! Smoke tests as scripts, on a world that is written down.
use nono_cli::error::NonoError;
use nono_cli::harness::ipc::{ShimRequest, ShimResponse, ShimStartMessage};
use nono_cli::harness::probe::ProbeOutcome;
use nono_cli::harness::process::{PeerCredentials, ScanFlags};
use nono_cli::harness::roles::{
    assert_raw_key_denied, run_chain_git_helper, run_chain_ssh_helper, run_command_pty_helper,
    OpenReply,
};
use nono_cli::harness::session::run_topology_session;
use nono_cli::harness::smoke::report::{report, show_exhibits, verdict};
use nono_cli::harness::smoke::run::{
    run_chain_credential_smoke, run_command_pty_bridge_smoke, run_stdio_fd_smoke,
    run_topology_smoke, run_tty_job_control_smoke, run_tty_signal_smoke, SmokeRun,
};
use nono_cli::harness::smoke::script::steps_of;
use nono_cli::harness::smoke::steps::{Action, Reply};
use nono_cli::harness::smoke::{Dir, Facts, Key, Link, Marker, Pipe, Smoke, Step};
use nono_cli::harness::terminal::{job_helper_signal, Signal};
use nono_cli::harness::FileId;
use nono_cli::paths::FilePath;

fn path(spelled: &str) -> FilePath {
    FilePath::from_text(spelled)
}

fn setup(message: &str) -> NonoError {
    NonoError::Setup(message.to_string())
}

fn no_flags() -> ScanFlags {
    ScanFlags {
        exec_dirs: vec![],
        support_dirs: vec![],
        support_files: vec![],
    }
}

fn response(exit_code: Option<i32>, signal: Option<i32>) -> ShimResponse {
    ShimResponse {
        exit_code,
        signal,
        spawn_error: None,
    }
}

/// How the written-down world answers.
struct World {
    shim_ino: u64,
    peer_ino: u64,
    related: bool,
    response: ShimResponse,
    session_success: bool,
    stdout: &'static str,
    failing: Option<Step>,
}

fn fine_world(response: ShimResponse, stdout: &'static str) -> World {
    World {
        shim_ino: 5,
        peer_ino: 5,
        related: true,
        response,
        session_success: true,
        stdout,
        failing: None,
    }
}

fn copy_response(given: &ShimResponse) -> ShimResponse {
    ShimResponse {
        exit_code: given.exit_code,
        signal: given.signal,
        spawn_error: given.spawn_error.clone(),
    }
}

fn answer(world: &World, step: Step, action: &Action) -> Reply {
    if world.failing == Some(step) {
        return Reply::Failed("why".to_string());
    }
    match action {
        Action::FindExecutable => Reply::Path(path("/opt/harness")),
        Action::Canonicalize(asked) => Reply::Path(FilePath {
            bytes: asked.bytes.clone(),
        }),
        Action::MakeDir => Reply::Path(match step {
            Step::MakeDir(Dir::Binaries) => path("/tmp/real"),
            Step::MakeDir(Dir::Shims) => path("/tmp/shims"),
            Step::MakeDir(Dir::Keys) => path("/tmp/keys"),
            _ => path("/tmp/work"),
        }),
        Action::Stat(_) => Reply::Identity(FileId {
            dev: 1,
            ino: if step == Step::StatShim {
                5
            } else {
                world.shim_ino
            },
        }),
        Action::Authenticate(link) => Reply::Peer {
            credentials: Ok(PeerCredentials {
                pid: if *link == Link::First { 100 } else { 200 },
                uid: 1000,
                gid: 100,
            }),
            exe: Ok(path("/tmp/work/harness.shim")),
            id: Ok(FileId {
                dev: 1,
                ino: world.peer_ino,
            }),
        },
        Action::ReadRequest(_) => Reply::Request(ShimRequest {
            command: "/opt/harness".to_string(),
            helper_role: Some("a-helper".to_string()),
        }),
        Action::CheckAncestry { .. } => Reply::Related(world.related),
        Action::SpawnCommand { link, .. } => {
            Reply::Started(if *link == Link::First { 101 } else { 201 })
        }
        Action::Await { marker, .. } => Reply::Read(marker.clone()),
        Action::Drain { .. } => Reply::Read(b"!".to_vec()),
        Action::WaitCommand { .. } => Reply::Ended(copy_response(&world.response)),
        Action::WaitSession => Reply::SessionEnded {
            success: world.session_success,
            status: "exit status: 0".to_string(),
        },
        Action::Join(Pipe::Stdout) => Reply::Read(world.stdout.as_bytes().to_vec()),
        Action::Join(_) => Reply::Read(vec![]),
        _ => Reply::Done,
    }
}

/// Carries a run out, and says which steps it went through.
fn carry_out(mut run: SmokeRun, world: &World) -> (SmokeRun, Vec<Step>, Vec<Action>) {
    let mut steps = vec![];
    let mut actions = vec![];
    for _ in 0..100 {
        let (Some(step), Some(action)) = (run.step(), run.action()) else {
            break;
        };
        let reply = answer(world, step, &action);
        steps.push(step);
        actions.push(action);
        run = run.advance(reply);
    }
    (run, steps, actions)
}

fn facts(run: SmokeRun) -> Facts {
    match run {
        SmokeRun::Going { facts, .. } => facts,
        SmokeRun::Failed(error) => panic!("the run failed: {error:?}"),
    }
}

fn failure(run: SmokeRun) -> NonoError {
    match run {
        SmokeRun::Failed(error) => error,
        SmokeRun::Going { .. } => panic!("the run did not fail"),
    }
}

#[test]
fn an_interrupt_reaches_the_command() {
    let world = fine_world(response(None, Some(2)), "");
    let (run, steps, actions) = carry_out(run_tty_signal_smoke(no_flags()), &world);
    assert_eq!(steps, steps_of(Smoke::TtySignal, false));
    let facts = facts(run);
    assert_eq!(verdict(&facts), Ok(()));
    assert_eq!(facts.shim, path("/tmp/work/harness.shim"));
    assert_eq!(facts.transcript, b"tty-helper-ready!".to_vec());
    assert!(actions.contains(&Action::Press(3)));
    assert!(actions.contains(&Action::WaitCommand {
        link: Link::First,
        limit: Some(5)
    }));
    assert_eq!(
        report(&facts, 12),
        vec![
            "TTY signal smoke result",
            "  policy binary: /opt/harness",
            "  trusted shim: /tmp/work/harness.shim [1:5]",
            "  peer auth: pid=100 uid=1000 gid=100 exe=/tmp/work/harness.shim [1:5]",
            "  shim request command: /opt/harness",
            "  grandchild pid: 101",
            "  supervised command response: ShimResponse { exit_code: None, signal: Some(2), \
             spawn_error: None }",
            "  session child status: exit status: 0",
            "  PTY transcript bytes: 17",
            "  total time: 12 ms",
        ]
    );
    let shown = show_exhibits(&facts);
    assert_eq!(shown.len(), 1);
    assert_eq!(
        shown[0].print(),
        "--- PTY transcript ---\ntty-helper-ready!--- end PTY transcript ---\n"
    );
}

#[test]
fn a_command_that_was_not_interrupted_fails_the_test() {
    let world = fine_world(response(Some(0), None), "");
    let (run, _, _) = carry_out(run_tty_signal_smoke(no_flags()), &world);
    assert_eq!(
        verdict(&facts(run)),
        Err(setup(
            "expected command child to terminate with SIGINT, got ShimResponse { exit_code: \
             Some(0), signal: None, spawn_error: None }"
        ))
    );
    let mut world = fine_world(response(None, Some(2)), "");
    world.session_success = false;
    let (run, _, _) = carry_out(run_tty_signal_smoke(no_flags()), &world);
    assert_eq!(
        verdict(&facts(run)),
        Err(setup("TTY session failed: exit status: 0"))
    );
}

#[test]
fn job_control_reaches_the_command() {
    let world = fine_world(response(None, Some(2)), "");
    let (run, steps, actions) = carry_out(run_tty_job_control_smoke(no_flags()), &world);
    assert_eq!(steps, steps_of(Smoke::JobControl, false));
    assert!(actions.contains(&Action::Resize {
        rows: 41,
        cols: 101
    }));
    assert!(actions.contains(&Action::Press(26)));
    assert!(actions.contains(&Action::Signal {
        pid: 100,
        signal: Signal::Continue
    }));
    let mut facts = facts(run);
    assert_eq!(verdict(&facts), Ok(()));
    facts.transcript = b"tty-job-helper-signal: SIGWINCH".to_vec();
    assert_eq!(
        verdict(&facts),
        Err(setup(
            "missing expected PTY marker: tty-job-helper-signal: SIGTSTP"
        ))
    );
}

const CHAIN_OUTPUT: &str = "chain-git-helper-raw-key: denied\nchain-ssh-helper-raw-key: denied\n\
    chain-ssh-helper-agent: connected\nchain-git-helper-ssh-status: 0\n";

#[test]
fn chained_commands_are_kept_from_the_key() {
    let world = fine_world(response(Some(0), None), CHAIN_OUTPUT);
    let (run, steps, actions) = carry_out(
        run_chain_credential_smoke(no_flags(), "/bin".to_string()),
        &world,
    );
    assert_eq!(steps, steps_of(Smoke::ChainCredential, false));
    assert!(actions.contains(&Action::Place {
        from: path("/opt/harness"),
        to: path("/tmp/real/git-real")
    }));
    assert!(actions.contains(&Action::HardLink {
        from: path("/tmp/shims/git"),
        to: path("/tmp/shims/ssh")
    }));
    assert!(actions.contains(&Action::Write {
        path: path("/tmp/keys/id_rsa"),
        content: b"not-a-real-private-key\n".to_vec()
    }));
    assert!(actions.contains(&Action::CheckAncestry {
        pid: 200,
        ancestor: 101
    }));
    assert!(actions.contains(&Action::SendStart {
        link: Link::Chained,
        start: ShimStartMessage {
            grandchild_pid: Some(201),
            spawn_error: None
        }
    }));
    let mut facts = facts(run);
    assert_eq!(verdict(&facts), Ok(()));
    let lines = report(&facts, 1);
    assert_eq!(lines.len(), 17);
    assert_eq!(lines[4], "  git peer auth: pid=100 exe=/tmp/work/harness.shim [1:5]");
    assert_eq!(lines[8], "  ssh ancestry contains git pid: true");
    facts.chained.response = response(Some(1), None);
    assert!(verdict(&facts)
        .expect_err("ssh failed")
        .message()
        .contains("expected git and ssh command helpers to exit 0, got git="));
    facts.stdout = vec![];
    assert_eq!(
        verdict(&facts),
        Err(setup(
            "missing expected chain marker: chain-git-helper-raw-key: denied"
        ))
    );
}

#[test]
fn a_stranger_cannot_have_a_chained_command_run() {
    let mut world = fine_world(response(Some(0), None), CHAIN_OUTPUT);
    world.related = false;
    let (run, steps, _) = carry_out(
        run_chain_credential_smoke(no_flags(), "/bin".to_string()),
        &world,
    );
    assert_eq!(
        failure(run),
        setup("ssh shim pid 200 did not have git command pid 101 in its ancestry")
    );
    assert!(!steps.contains(&Step::SpawnCommand(Link::Chained)));
    world.related = true;
    world.shim_ino = 6;
    let (run, steps, _) = carry_out(
        run_chain_credential_smoke(no_flags(), "/bin".to_string()),
        &world,
    );
    assert_eq!(
        failure(run),
        setup("git and ssh shims do not share the trusted inode")
    );
    assert_eq!(steps.last(), Some(&Step::StatLinkedShim));
}

#[test]
fn no_command_starts_for_an_untrusted_shim() {
    for run in [
        run_tty_signal_smoke(no_flags()),
        run_tty_job_control_smoke(no_flags()),
        run_command_pty_bridge_smoke(no_flags()),
        run_chain_credential_smoke(no_flags(), String::new()),
        run_topology_smoke(no_flags(), path("/bin/git")),
    ] {
        let mut world = fine_world(response(Some(0), None), "");
        world.peer_ino = 9;
        let (run, steps, _) = carry_out(run, &world);
        assert!(failure(run)
            .message()
            .contains("shim authentication failed"));
        assert_eq!(steps.last(), Some(&Step::Authenticate(Link::First)));
    }
}

const PTY_OUTPUT: &str = "topology-session: direct policy exec matched=true\n\
    command-pty-helper-isatty-stdin: true\ncommand-pty-helper-pid: 1 pgrp=1 sid=1 tcgetpgrp=1\n\
    command-pty-helper-ready\n";

#[test]
fn a_command_on_its_own_terminal_reaches_its_shim() {
    let world = fine_world(response(Some(0), None), PTY_OUTPUT);
    let (run, steps, actions) = carry_out(run_command_pty_bridge_smoke(no_flags()), &world);
    assert_eq!(steps, steps_of(Smoke::CommandPty, false));
    assert!(actions.contains(&Action::Drain {
        quiet_millis: 50,
        max_millis: 500
    }));
    let mut facts = facts(run);
    assert_eq!(verdict(&facts), Ok(()));
    assert_eq!(show_exhibits(&facts).len(), 2);
    facts.stdout = PTY_OUTPUT.replace("tcgetpgrp=1", "tcgetpgrp=error(x)").into_bytes();
    assert!(verdict(&facts)
        .expect_err("no terminal")
        .message()
        .contains("command helper did not observe a controlling terminal"));
    facts.stdout = PTY_OUTPUT.as_bytes().to_vec();
    facts.first.response = response(None, Some(9));
    assert!(verdict(&facts)
        .expect_err("killed")
        .message()
        .contains("expected command PTY helper to exit 0"));
}

#[test]
fn a_policy_binary_runs_under_supervision() {
    let world = fine_world(response(Some(0), None), "out");
    let (run, steps, _) = carry_out(run_topology_smoke(no_flags(), path("/bin/git")), &world);
    assert_eq!(steps, steps_of(Smoke::Topology, false));
    let facts = facts(run);
    assert_eq!(facts.shim, path("/tmp/work/git.shim"));
    assert_eq!(verdict(&facts), Ok(()));
}

#[test]
fn a_command_that_does_not_start_is_part_of_the_result() {
    let mut world = fine_world(response(Some(0), None), "");
    world.failing = Some(Step::SpawnCommand(Link::First));
    let (run, steps, actions) = carry_out(run_topology_smoke(no_flags(), path("/bin/git")), &world);
    assert!(!steps.contains(&Step::WaitCommand(Link::First)));
    assert!(!steps.contains(&Step::SendResponse(Link::First)));
    assert!(actions.contains(&Action::SendStart {
        link: Link::First,
        start: ShimStartMessage {
            grandchild_pid: None,
            spawn_error: Some("why".to_string())
        }
    }));
    assert_eq!(
        verdict(&facts(run)),
        Err(setup("supervisor failed to spawn command child"))
    );
    world.failing = Some(Step::ReceiveStdio(Link::First));
    let (run, steps, actions) = carry_out(run_topology_smoke(no_flags(), path("/bin/git")), &world);
    assert!(!steps.contains(&Step::SpawnCommand(Link::First)));
    assert!(actions.contains(&Action::SendStart {
        link: Link::First,
        start: ShimStartMessage {
            grandchild_pid: None,
            spawn_error: Some("failed to receive stdio fds: why".to_string())
        }
    }));
    assert!(verdict(&facts(run)).is_err());
}

#[test]
fn a_session_can_be_given_something_to_read() {
    let world = fine_world(response(Some(0), None), "");
    let run = run_stdio_fd_smoke(no_flags(), Ok(path("/opt/harness"))).expect("run");
    let (run, steps, actions) = carry_out(run, &world);
    assert_eq!(steps, steps_of(Smoke::Topology, true));
    assert!(actions.contains(&Action::Feed(b"nono-stdin-proof\n".to_vec())));
    let spawned = actions
        .iter()
        .find(|action| matches!(action, Action::SpawnSession { .. }))
        .expect("a session");
    let Action::SpawnSession { argv, fed, .. } = spawned else {
        panic!("no session");
    };
    assert!(*fed);
    assert_eq!(argv[argv.len() - 1], path("stdio-helper"));
    assert_eq!(verdict(&facts(run)), Ok(()));
    assert_eq!(
        run_stdio_fd_smoke(no_flags(), Err("why".to_string())),
        Err(setup("failed to locate current executable: why"))
    );
}

#[test]
fn every_step_that_fails_ends_the_run_in_words() {
    let expected = [
        (Step::FindExecutable, "failed to locate current executable: why"),
        (
            Step::MakeDir(Dir::Sockets),
            "failed to create socket temp dir: why",
        ),
        (
            Step::MakeDir(Dir::Keys),
            "failed to create raw-key temp dir: why",
        ),
        (
            Step::LinkShim,
            "failed to hard-link ssh shim /tmp/shims/ssh -> /tmp/shims/git: why",
        ),
        (
            Step::StatShim,
            "failed to stat trusted shim /tmp/shims/git: why",
        ),
        (
            Step::StatLinkedShim,
            "failed to stat ssh shim /tmp/shims/ssh: why",
        ),
        (
            Step::WriteKey,
            "failed to write raw key /tmp/keys/id_rsa: why",
        ),
        (
            Step::BindAgent,
            "failed to bind fake ssh-agent socket /tmp/work/ssh-agent.sock: why",
        ),
        (
            Step::BindSupervisor,
            "failed to bind supervisor socket /tmp/work/supervisor.sock: why",
        ),
        (
            Step::MakeNonblocking,
            "failed to make supervisor socket nonblocking: why",
        ),
        (Step::SpawnSession, "failed to spawn session child: why"),
        (
            Step::Capture(Pipe::Stdout),
            "failed to capture session stdout pipe",
        ),
        (
            Step::SpawnCommand(Link::First),
            "failed to spawn git command child: why",
        ),
        (
            Step::SpawnCommand(Link::Chained),
            "failed to spawn ssh command child: why",
        ),
        (Step::WaitSession, "failed to wait for session child: why"),
    ];
    for (step, words) in expected {
        let mut world = fine_world(response(Some(0), None), CHAIN_OUTPUT);
        world.failing = Some(step);
        let (run, steps, _) =
            carry_out(run_chain_credential_smoke(no_flags(), String::new()), &world);
        assert_eq!(steps.last(), Some(&step));
        assert_eq!(failure(run), setup(words));
    }
}

#[test]
fn replies_that_nobody_asked_for_change_nothing() {
    let run = run_tty_signal_smoke(no_flags());
    let run = run.advance(Reply::Read(vec![]));
    assert_eq!(run.step(), Some(Step::FindExecutable));
    let run = run.advance(Reply::Refused(setup("no")));
    assert_eq!(run.step(), None);
    let run = run.advance(Reply::Path(path("/x")));
    assert_eq!(failure(run), setup("no"));
}

#[test]
fn the_signals_that_a_run_waits_for_are_told_by_its_helper() {
    let world = fine_world(response(None, Some(2)), "");
    let (_, _, actions) = carry_out(run_tty_job_control_smoke(no_flags()), &world);
    let awaited = actions
        .iter()
        .filter_map(|action| match action {
            Action::Await { marker, .. } => Some([marker.as_slice(), b"\n"].concat()),
            _ => None,
        })
        .collect::<Vec<_>>();
    for signal in [Signal::Resize, Signal::Suspend, Signal::Continue] {
        assert!(awaited.contains(&job_helper_signal(Some(signal)).as_bytes().to_vec()));
    }
}

#[test]
fn what_helpers_write_satisfies_the_verdict() {
    let key = path("/tmp/keys/id_rsa");
    let lines = [
        assert_raw_key_denied("chain-git-helper", &key, OpenReply::Denied).stdout,
        assert_raw_key_denied("chain-ssh-helper", &key, OpenReply::Denied).stdout,
        run_chain_ssh_helper(&path("/tmp/agent.sock"), Ok(())).stdout,
        run_chain_git_helper(Ok(Some(0))).stdout,
    ]
    .concat();
    assert_eq!(format!("{}\n", lines.join("\n")), CHAIN_OUTPUT);

    let tried = run_topology_session(&path("/opt/harness"), ProbeOutcome::SpawnDenied, None);
    let mut lines = vec![tried.line];
    lines.extend(run_command_pty_helper(true, 1, 1, 1, "1"));
    assert_eq!(format!("{}\n", lines.join("\n")), PTY_OUTPUT);
}

#[test]
fn scripts_press_what_they_wait_for() {
    let steps = steps_of(Smoke::JobControl, false);
    let at = |wanted: Step| steps.iter().position(|step| *step == wanted).expect("step");
    assert!(at(Step::Press(Key::Suspend)) < at(Step::Await(Marker::Suspended)));
    assert!(at(Step::Resume) < at(Step::Await(Marker::Continued)));
    assert!(at(Step::Await(Marker::Continued)) < at(Step::Press(Key::Interrupt)));
}
