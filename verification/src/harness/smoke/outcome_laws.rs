//! What a smoke test does, learns and concludes.
use vstd::prelude::*;

use crate::bytes;
use crate::error::ErrorModel;
use crate::harness::ipc;
use crate::harness::ipc::ResponseModel;
use crate::harness::process;
use crate::harness::process::{AuthModel, FlagsModel};
use crate::harness::process_laws;
use crate::harness::smoke;
use crate::harness::smoke::report;
use crate::harness::smoke::run;
use crate::harness::smoke::run::RunModel;
use crate::harness::smoke::script;
use crate::harness::smoke::steps;
use crate::harness::smoke::steps::{Action, ReplyModel};
use crate::harness::smoke::{CommandModel, Dir, FactsModel, Key, Link, Marker, Pipe, Smoke, Step};
use crate::harness::summary;
use crate::harness::terminal::Signal;
use crate::paths;
use crate::text;

verus! {

// ---------------------------------------------------------------------------
// Verdicts
// ---------------------------------------------------------------------------

/// The bytes hold the words.
pub open spec fn wrote(transcript: Seq<u8>, words: Seq<char>) -> bool {
    bytes::occurs(transcript, vstd::utf8::encode_utf8(words))
}

/// The output holds the words.
pub open spec fn said(output: Seq<u8>, words: Seq<char>) -> bool {
    text::occurs(bytes::lossy(output), words)
}

/// What each smoke test is to show.
pub open spec fn shows_what_it_should(facts: FactsModel) -> bool {
    let first = facts.first.response;
    let chained = facts.chained.response;
    &&& facts.session_success
    &&& match facts.smoke {
        Smoke::TtySignal => first.signal is Some && first.signal->0 == 2,
        Smoke::JobControl => {
            &&& first.signal is Some && first.signal->0 == 2
            &&& wrote(facts.transcript, "tty-job-helper-signal: SIGWINCH"@)
            &&& wrote(facts.transcript, "tty-job-helper-signal: SIGTSTP"@)
            &&& wrote(facts.transcript, "tty-job-helper-signal: SIGCONT"@)
        },
        Smoke::ChainCredential => {
            &&& first.exit_code is Some && first.exit_code->0 == 0
            &&& chained.exit_code is Some && chained.exit_code->0 == 0
            &&& said(facts.stdout, "chain-git-helper-raw-key: denied"@)
            &&& said(facts.stdout, "chain-ssh-helper-raw-key: denied"@)
            &&& said(facts.stdout, "chain-ssh-helper-agent: connected"@)
            &&& said(facts.stdout, "chain-git-helper-ssh-status: 0"@)
        },
        Smoke::CommandPty => {
            &&& first.exit_code is Some && first.exit_code->0 == 0
            &&& first.signal is None && first.spawn_error is None
            &&& said(facts.stdout, "topology-session: direct policy exec matched=true"@)
            &&& said(facts.stdout, "command-pty-helper-isatty-stdin: true"@)
            &&& said(facts.stdout, "command-pty-helper-ready"@)
            &&& said(facts.stdout, "tcgetpgrp="@)
            &&& !said(facts.stdout, "tcgetpgrp=error"@)
        },
        Smoke::Topology => first.spawn_error is None,
    }
}

proof fn lemma_missing(held: Seq<char>, markers: Seq<Seq<char>>)
    ensures
        report::first_missing(held, markers) is None <==> forall|i: int|
            0 <= i < markers.len() ==> text::occurs(held, #[trigger] markers[i]),
        report::first_missing(held, markers) matches Some(marker) ==> markers.contains(marker)
            && !text::occurs(held, marker),
    decreases markers.len(),
{
    if markers.len() > 0 {
        let rest = markers.skip(1);
        lemma_missing(held, rest);
        assert(forall|i: int| 0 < i < markers.len() ==> #[trigger] markers[i] == rest[i - 1]);
        if forall|i: int| 0 <= i < markers.len() ==> text::occurs(held, #[trigger] markers[i]) {
            assert(text::occurs(held, markers[0]));
            assert forall|i: int| 0 <= i < rest.len() implies text::occurs(
                held,
                #[trigger] rest[i],
            ) by {
                assert(text::occurs(held, markers[i + 1]));
            }
        }
        if let Some(marker) = report::first_missing(held, markers) {
            if rest.contains(marker) {
                assert(markers[rest.index_of(marker) + 1] == marker);
            } else {
                assert(markers[0] == marker);
            }
        }
    }
}

proof fn lemma_unseen(held: Seq<u8>, markers: Seq<Seq<char>>)
    ensures
        report::first_unseen(held, markers) is None <==> forall|i: int|
            0 <= i < markers.len() ==> wrote(held, #[trigger] markers[i]),
        report::first_unseen(held, markers) matches Some(marker) ==> markers.contains(marker)
            && !wrote(held, marker),
    decreases markers.len(),
{
    if markers.len() > 0 {
        let rest = markers.skip(1);
        lemma_unseen(held, rest);
        assert(forall|i: int| 0 < i < markers.len() ==> #[trigger] markers[i] == rest[i - 1]);
        if forall|i: int| 0 <= i < markers.len() ==> wrote(held, #[trigger] markers[i]) {
            assert(wrote(held, markers[0]));
            assert forall|i: int| 0 <= i < rest.len() implies wrote(held, #[trigger] rest[i]) by {
                assert(wrote(held, markers[i + 1]));
            }
        }
        if let Some(marker) = report::first_unseen(held, markers) {
            if rest.contains(marker) {
                assert(markers[rest.index_of(marker) + 1] == marker);
            } else {
                assert(markers[0] == marker);
            }
        }
    }
}

/// A smoke test passes exactly if it shows what it should: its session
/// succeeded, its commands ended as they should, and they showed the signals, a
/// terminal of their own, or that a key was kept from them and an agent was not.
pub proof fn law_verdict(facts: FactsModel)
    ensures
        report::passed(facts) is Ok <==> shows_what_it_should(facts),
{
    let shown = bytes::lossy(facts.stdout);
    lemma_unseen(facts.transcript, report::job_markers());
    lemma_missing(shown, report::chain_markers());
    lemma_missing(shown, report::pty_markers());
    let job = report::job_markers();
    let chain = report::chain_markers();
    let pty = report::pty_markers();
    assert(job[0] == "tty-job-helper-signal: SIGWINCH"@);
    assert(job[1] == "tty-job-helper-signal: SIGTSTP"@);
    assert(job[2] == "tty-job-helper-signal: SIGCONT"@);
    assert(chain[0] == "chain-git-helper-raw-key: denied"@);
    assert(chain[1] == "chain-ssh-helper-raw-key: denied"@);
    assert(chain[2] == "chain-ssh-helper-agent: connected"@);
    assert(chain[3] == "chain-git-helper-ssh-status: 0"@);
    assert(pty[0] == "topology-session: direct policy exec matched=true"@);
    assert(pty[1] == "command-pty-helper-isatty-stdin: true"@);
    assert(pty[2] == "command-pty-helper-ready"@);
}

/// A session that failed is what is wrong with a test that is fine otherwise,
/// and a command that never ran is what is wrong with a topology.
pub proof fn law_blame(facts: FactsModel)
    ensures
        !facts.session_success && shows_what_it_should(
            FactsModel { session_success: true, ..facts },
        ) ==> {
            let name = match facts.smoke {
                Smoke::TtySignal => "TTY"@,
                Smoke::JobControl => "TTY job-control"@,
                Smoke::ChainCredential => "chain"@,
                Smoke::CommandPty => "command PTY bridge"@,
                Smoke::Topology => "topology"@,
            };
            report::passed(facts) == Err::<(), _>(
                ErrorModel::Setup(name + " session failed: "@ + facts.session_status),
            )
        },
        facts.session_success && facts.smoke is Topology && facts.first.response.spawn_error is Some
            ==> report::passed(facts) == Err::<(), _>(
            ErrorModel::Setup("supervisor failed to spawn command child"@),
        ),
{
    law_verdict(FactsModel { session_success: true, ..facts });
}

/// The test fails with these words.
pub open spec fn blames(facts: FactsModel, words: Seq<char>) -> bool {
    report::passed(facts) == Err::<(), _>(ErrorModel::Setup(words))
}

/// A job that has not seen its signals fails with the first that is missing, and
/// a command that was not interrupted with how it ended.
pub proof fn law_interrupts_are_missed(facts: FactsModel)
    ensures
        ({
            let resized = wrote(facts.transcript, "tty-job-helper-signal: SIGWINCH"@);
            let stopped = wrote(facts.transcript, "tty-job-helper-signal: SIGTSTP"@);
            let continued = wrote(facts.transcript, "tty-job-helper-signal: SIGCONT"@);
            let interrupted = facts.first.response.signal is Some && facts.first.response.signal->0
                == 2;
            let missing = "missing expected PTY marker: "@;
            &&& facts.smoke is JobControl && !resized ==> blames(
                facts,
                missing + "tty-job-helper-signal: SIGWINCH"@,
            )
            &&& facts.smoke is JobControl && resized && !stopped ==> blames(
                facts,
                missing + "tty-job-helper-signal: SIGTSTP"@,
            )
            &&& facts.smoke is JobControl && resized && stopped && !continued ==> blames(
                facts,
                missing + "tty-job-helper-signal: SIGCONT"@,
            )
            &&& (facts.smoke is TtySignal || (facts.smoke is JobControl && resized && stopped
                && continued)) && !interrupted ==> blames(
                facts,
                "expected command child to terminate with SIGINT, got "@ + ipc::response_text(
                    facts.first.response,
                ),
            )
        }),
{
    let markers = report::job_markers();
    assert(markers[0] == "tty-job-helper-signal: SIGWINCH"@);
    assert(markers.skip(1)[0] == "tty-job-helper-signal: SIGTSTP"@);
    assert(markers.skip(1).skip(1)[0] == "tty-job-helper-signal: SIGCONT"@);
    assert(markers.skip(1).skip(1).skip(1).len() == 0);
    reveal_with_fuel(report::first_unseen, 4);
}

/// Chained commands fail with the first thing that they did not show, and
/// otherwise with how they ended.
pub proof fn law_chains_are_missed(facts: FactsModel)
    requires
        facts.smoke is ChainCredential,
    ensures
        ({
            let git = said(facts.stdout, "chain-git-helper-raw-key: denied"@);
            let ssh = said(facts.stdout, "chain-ssh-helper-raw-key: denied"@);
            let agent = said(facts.stdout, "chain-ssh-helper-agent: connected"@);
            let status = said(facts.stdout, "chain-git-helper-ssh-status: 0"@);
            let first = facts.first.response;
            let chained = facts.chained.response;
            let succeeded = first.exit_code is Some && first.exit_code->0 == 0
                && chained.exit_code is Some && chained.exit_code->0 == 0;
            let missing = "missing expected chain marker: "@;
            &&& !git ==> blames(facts, missing + "chain-git-helper-raw-key: denied"@)
            &&& git && !ssh ==> blames(facts, missing + "chain-ssh-helper-raw-key: denied"@)
            &&& git && ssh && !agent ==> blames(
                facts,
                missing + "chain-ssh-helper-agent: connected"@,
            )
            &&& git && ssh && agent && !status ==> blames(
                facts,
                missing + "chain-git-helper-ssh-status: 0"@,
            )
            &&& git && ssh && agent && status && !succeeded ==> blames(
                facts,
                "expected git and ssh command helpers to exit 0, got git="@ + ipc::response_text(
                    first,
                ) + " ssh="@ + ipc::response_text(chained),
            )
        }),
{
    let markers = report::chain_markers();
    assert(markers[0] == "chain-git-helper-raw-key: denied"@);
    assert(markers.skip(1)[0] == "chain-ssh-helper-raw-key: denied"@);
    assert(markers.skip(1).skip(1)[0] == "chain-ssh-helper-agent: connected"@);
    assert(markers.skip(1).skip(1).skip(1)[0] == "chain-git-helper-ssh-status: 0"@);
    assert(markers.skip(1).skip(1).skip(1).skip(1).len() == 0);
    reveal_with_fuel(report::first_missing, 5);
}

/// A command on its own terminal fails with the first thing that it did not
/// show, then for want of the terminal, and otherwise with how it ended.
pub proof fn law_terminals_are_missed(facts: FactsModel)
    requires
        facts.smoke is CommandPty,
    ensures
        ({
            let matched = said(facts.stdout, "topology-session: direct policy exec matched=true"@);
            let tty = said(facts.stdout, "command-pty-helper-isatty-stdin: true"@);
            let ready = said(facts.stdout, "command-pty-helper-ready"@);
            let controls = said(facts.stdout, "tcgetpgrp="@) && !said(
                facts.stdout,
                "tcgetpgrp=error"@,
            );
            let first = facts.first.response;
            let succeeded = first.exit_code is Some && first.exit_code->0 == 0 && first.signal is None
                && first.spawn_error is None;
            let missing = "missing expected command PTY marker: "@;
            &&& !matched ==> blames(
                facts,
                missing + "topology-session: direct policy exec matched=true"@,
            )
            &&& matched && !tty ==> blames(
                facts,
                missing + "command-pty-helper-isatty-stdin: true"@,
            )
            &&& matched && tty && !ready ==> blames(facts, missing + "command-pty-helper-ready"@)
            &&& matched && tty && ready && !controls ==> blames(
                facts,
                "command helper did not observe a controlling terminal: "@ + bytes::lossy(
                    facts.stdout,
                ),
            )
            &&& matched && tty && ready && controls && !succeeded ==> blames(
                facts,
                "expected command PTY helper to exit 0, got "@ + ipc::response_text(first),
            )
        }),
{
    let markers = report::pty_markers();
    assert(markers[0] == "topology-session: direct policy exec matched=true"@);
    assert(markers.skip(1)[0] == "command-pty-helper-isatty-stdin: true"@);
    assert(markers.skip(1).skip(1)[0] == "command-pty-helper-ready"@);
    assert(markers.skip(1).skip(1).skip(1).len() == 0);
    reveal_with_fuel(report::first_missing, 4);
}

// ---------------------------------------------------------------------------
// Scripts
// ---------------------------------------------------------------------------

/// A run of a single command: prepare, listen, start the session, meet and
/// authenticate its shim, take its streams, start the command, tell the shim how
/// it ended, and wait for the session. A session with a payload is fed.
pub proof fn law_topology_script()
    ensures
        script::script(Smoke::Topology, false) == seq![
            Step::FindPolicy,
            Step::MakeDir(Dir::Work),
            Step::FindExecutable,
            Step::PlaceShim,
            Step::StatShim,
            Step::BindSupervisor,
            Step::MakeNonblocking,
            Step::SpawnSession,
            Step::Capture(Pipe::Stdout),
            Step::Capture(Pipe::Stderr),
            Step::Accept(Link::First),
            Step::Authenticate(Link::First),
            Step::ReadRequest(Link::First),
            Step::AskForStdio(Link::First),
            Step::ReceiveStdio(Link::First),
            Step::SpawnCommand(Link::First),
            Step::SendStart(Link::First),
            Step::WaitCommand(Link::First),
            Step::SendResponse(Link::First),
            Step::WaitSession,
            Step::Join(Pipe::Stdout),
            Step::Join(Pipe::Stderr),
        ],
        script::script(Smoke::Topology, true) == script::script(Smoke::Topology, false).take(8)
            + seq![Step::Capture(Pipe::Stdin), Step::FeedSession] + script::script(
            Smoke::Topology,
            false,
        ).skip(8),
{
    assert(script::script(Smoke::Topology, false) =~= seq![
        Step::FindPolicy,
        Step::MakeDir(Dir::Work),
        Step::FindExecutable,
        Step::PlaceShim,
        Step::StatShim,
        Step::BindSupervisor,
        Step::MakeNonblocking,
        Step::SpawnSession,
        Step::Capture(Pipe::Stdout),
        Step::Capture(Pipe::Stderr),
        Step::Accept(Link::First),
        Step::Authenticate(Link::First),
        Step::ReadRequest(Link::First),
        Step::AskForStdio(Link::First),
        Step::ReceiveStdio(Link::First),
        Step::SpawnCommand(Link::First),
        Step::SendStart(Link::First),
        Step::WaitCommand(Link::First),
        Step::SendResponse(Link::First),
        Step::WaitSession,
        Step::Join(Pipe::Stdout),
        Step::Join(Pipe::Stderr),
    ]);
    assert(script::script(Smoke::Topology, true) =~= script::script(Smoke::Topology, false).take(8)
        + seq![Step::Capture(Pipe::Stdin), Step::FeedSession] + script::script(
        Smoke::Topology,
        false,
    ).skip(8));
}

/// A run on a terminal: the session gets the terminal, the command is
/// interrupted from there, and a job is resized, suspended and continued before.
pub proof fn law_terminal_scripts(fed: bool)
    ensures
        script::script(Smoke::TtySignal, fed) == seq![
            Step::FindExecutable,
            Step::FindPolicy,
            Step::MakeDir(Dir::Work),
            Step::PlaceShim,
            Step::StatShim,
            Step::OpenTerminal,
            Step::BindSupervisor,
            Step::MakeNonblocking,
            Step::OpenSlaves,
            Step::SpawnSession,
            Step::Accept(Link::First),
            Step::Authenticate(Link::First),
            Step::ReadRequest(Link::First),
            Step::AskForStdio(Link::First),
            Step::ReceiveStdio(Link::First),
            Step::SpawnCommand(Link::First),
            Step::SendStart(Link::First),
            Step::Await(Marker::Ready),
            Step::Press(Key::Interrupt),
            Step::WaitCommand(Link::First),
            Step::SendResponse(Link::First),
            Step::WaitSession,
            Step::Drain,
        ],
        script::script(Smoke::JobControl, fed) == script::script(Smoke::TtySignal, fed).take(18)
            + seq![
            Step::Resize,
            Step::Await(Marker::Resized),
            Step::Press(Key::Suspend),
            Step::Await(Marker::Suspended),
            Step::Resume,
            Step::Await(Marker::Continued),
        ] + script::script(Smoke::TtySignal, fed).skip(18),
{
    assert(script::script(Smoke::TtySignal, fed) =~= seq![
        Step::FindExecutable,
        Step::FindPolicy,
        Step::MakeDir(Dir::Work),
        Step::PlaceShim,
        Step::StatShim,
        Step::OpenTerminal,
        Step::BindSupervisor,
        Step::MakeNonblocking,
        Step::OpenSlaves,
        Step::SpawnSession,
        Step::Accept(Link::First),
        Step::Authenticate(Link::First),
        Step::ReadRequest(Link::First),
        Step::AskForStdio(Link::First),
        Step::ReceiveStdio(Link::First),
        Step::SpawnCommand(Link::First),
        Step::SendStart(Link::First),
        Step::Await(Marker::Ready),
        Step::Press(Key::Interrupt),
        Step::WaitCommand(Link::First),
        Step::SendResponse(Link::First),
        Step::WaitSession,
        Step::Drain,
    ]);
    assert(script::script(Smoke::JobControl, fed) =~= script::script(Smoke::TtySignal, fed).take(18)
        + seq![
        Step::Resize,
        Step::Await(Marker::Resized),
        Step::Press(Key::Suspend),
        Step::Await(Marker::Suspended),
        Step::Resume,
        Step::Await(Marker::Continued),
    ] + script::script(Smoke::TtySignal, fed).skip(18));
}

/// A run of a command with a terminal of its own, and a run of two chained
/// commands, whose second is started only for a descendant of the first.
pub proof fn law_other_scripts(fed: bool)
    ensures
        script::script(Smoke::CommandPty, fed) == seq![
            Step::FindExecutable,
            Step::FindPolicy,
            Step::MakeDir(Dir::Work),
            Step::PlaceShim,
            Step::StatShim,
            Step::BindSupervisor,
            Step::MakeNonblocking,
            Step::SpawnSession,
            Step::Capture(Pipe::Stdout),
            Step::Capture(Pipe::Stderr),
            Step::Accept(Link::First),
            Step::Authenticate(Link::First),
            Step::ReadRequest(Link::First),
            Step::AskForStdio(Link::First),
            Step::ReceiveStdio(Link::First),
            Step::OpenTerminal,
            Step::OpenSlaves,
            Step::SpawnCommand(Link::First),
            Step::SendStart(Link::First),
            Step::Await(Marker::Ready),
            Step::Drain,
            Step::CopyTranscript,
            Step::WaitCommand(Link::First),
            Step::SendResponse(Link::First),
            Step::WaitSession,
            Step::Join(Pipe::Stdout),
            Step::Join(Pipe::Stderr),
        ],
        script::script(Smoke::ChainCredential, fed) == seq![
            Step::FindExecutable,
            Step::MakeDir(Dir::Sockets),
            Step::MakeDir(Dir::Binaries),
            Step::MakeDir(Dir::Shims),
            Step::MakeDir(Dir::Keys),
            Step::PlaceBinary(Link::First),
            Step::PlaceBinary(Link::Chained),
            Step::PlaceShim,
            Step::LinkShim,
            Step::StatShim,
            Step::StatLinkedShim,
            Step::WriteKey,
            Step::BindAgent,
            Step::BindSupervisor,
            Step::MakeNonblocking,
            Step::SpawnSession,
            Step::Capture(Pipe::Stdout),
            Step::Capture(Pipe::Stderr),
            Step::Accept(Link::First),
            Step::Authenticate(Link::First),
            Step::ReadRequest(Link::First),
            Step::AskForStdio(Link::First),
            Step::ReceiveStdio(Link::First),
            Step::SpawnCommand(Link::First),
            Step::SendStart(Link::First),
            Step::Accept(Link::Chained),
            Step::Authenticate(Link::Chained),
            Step::ReadRequest(Link::Chained),
            Step::CheckAncestry,
            Step::AskForStdio(Link::Chained),
            Step::ReceiveStdio(Link::Chained),
            Step::SpawnCommand(Link::Chained),
            Step::SendStart(Link::Chained),
            Step::WaitCommand(Link::Chained),
            Step::SendResponse(Link::Chained),
            Step::WaitCommand(Link::First),
            Step::SendResponse(Link::First),
            Step::WaitSession,
            Step::Join(Pipe::Stdout),
            Step::Join(Pipe::Stderr),
        ],
{
    assert(script::script(Smoke::CommandPty, fed) =~= seq![
        Step::FindExecutable,
        Step::FindPolicy,
        Step::MakeDir(Dir::Work),
        Step::PlaceShim,
        Step::StatShim,
        Step::BindSupervisor,
        Step::MakeNonblocking,
        Step::SpawnSession,
        Step::Capture(Pipe::Stdout),
        Step::Capture(Pipe::Stderr),
        Step::Accept(Link::First),
        Step::Authenticate(Link::First),
        Step::ReadRequest(Link::First),
        Step::AskForStdio(Link::First),
        Step::ReceiveStdio(Link::First),
        Step::OpenTerminal,
        Step::OpenSlaves,
        Step::SpawnCommand(Link::First),
        Step::SendStart(Link::First),
        Step::Await(Marker::Ready),
        Step::Drain,
        Step::CopyTranscript,
        Step::WaitCommand(Link::First),
        Step::SendResponse(Link::First),
        Step::WaitSession,
        Step::Join(Pipe::Stdout),
        Step::Join(Pipe::Stderr),
    ]);
    assert(script::script(Smoke::ChainCredential, fed) =~= seq![
        Step::FindExecutable,
        Step::MakeDir(Dir::Sockets),
        Step::MakeDir(Dir::Binaries),
        Step::MakeDir(Dir::Shims),
        Step::MakeDir(Dir::Keys),
        Step::PlaceBinary(Link::First),
        Step::PlaceBinary(Link::Chained),
        Step::PlaceShim,
        Step::LinkShim,
        Step::StatShim,
        Step::StatLinkedShim,
        Step::WriteKey,
        Step::BindAgent,
        Step::BindSupervisor,
        Step::MakeNonblocking,
        Step::SpawnSession,
        Step::Capture(Pipe::Stdout),
        Step::Capture(Pipe::Stderr),
        Step::Accept(Link::First),
        Step::Authenticate(Link::First),
        Step::ReadRequest(Link::First),
        Step::AskForStdio(Link::First),
        Step::ReceiveStdio(Link::First),
        Step::SpawnCommand(Link::First),
        Step::SendStart(Link::First),
        Step::Accept(Link::Chained),
        Step::Authenticate(Link::Chained),
        Step::ReadRequest(Link::Chained),
        Step::CheckAncestry,
        Step::AskForStdio(Link::Chained),
        Step::ReceiveStdio(Link::Chained),
        Step::SpawnCommand(Link::Chained),
        Step::SendStart(Link::Chained),
        Step::WaitCommand(Link::Chained),
        Step::SendResponse(Link::Chained),
        Step::WaitCommand(Link::First),
        Step::SendResponse(Link::First),
        Step::WaitSession,
        Step::Join(Pipe::Stdout),
        Step::Join(Pipe::Stderr),
    ]);
}

// ---------------------------------------------------------------------------
// Learning
// ---------------------------------------------------------------------------

/// What a run was given stays as it is.
pub open spec fn same_order(facts: FactsModel, next: FactsModel) -> bool {
    &&& next.smoke == facts.smoke
    &&& next.flags == facts.flags
    &&& next.requested == facts.requested
    &&& next.helper == facts.helper
    &&& next.payload == facts.payload
    &&& next.search_path == facts.search_path
}

/// Where things lie is learnt where they are found or made.
pub open spec fn places_learnt(
    facts: FactsModel,
    step: Step,
    path: Seq<u8>,
    next: FactsModel,
) -> bool {
    let git = |name: Seq<char>| paths::joined_path(path, vstd::utf8::encode_utf8(name));
    &&& next.executable == (if step is FindExecutable {
        path
    } else {
        facts.executable
    })
    &&& next.policy == (if step is FindPolicy {
        path
    } else if step == Step::MakeDir(Dir::Binaries) {
        git("git-real"@)
    } else {
        facts.policy
    })
    &&& next.work_dir == (if step == Step::MakeDir(Dir::Work) || step == Step::MakeDir(
        Dir::Sockets,
    ) {
        path
    } else {
        facts.work_dir
    })
    &&& next.binary_dir == (if step == Step::MakeDir(Dir::Binaries) {
        path
    } else {
        facts.binary_dir
    })
    &&& next.shim_dir == (if step == Step::MakeDir(Dir::Shims) {
        path
    } else {
        facts.shim_dir
    })
    &&& next.key_dir == (if step == Step::MakeDir(Dir::Keys) {
        path
    } else {
        facts.key_dir
    })
    &&& step == Step::MakeDir(Dir::Work) ==> process::shim_place(path, facts.policy) == Ok::<
        _,
        ErrorModel,
    >(next.shim)
    &&& step == Step::MakeDir(Dir::Shims) ==> next.shim == git("git"@)
    &&& step != Step::MakeDir(Dir::Work) && step != Step::MakeDir(Dir::Shims) ==> next.shim
        == facts.shim
}

/// Nothing is learnt of where things lie.
pub open spec fn places_stay(facts: FactsModel, next: FactsModel) -> bool {
    &&& next.executable == facts.executable && next.policy == facts.policy
    &&& next.work_dir == facts.work_dir && next.binary_dir == facts.binary_dir
    &&& next.shim_dir == facts.shim_dir && next.key_dir == facts.key_dir
    &&& next.shim == facts.shim
}

/// Nothing is learnt of the commands.
pub open spec fn commands_stay(facts: FactsModel, next: FactsModel) -> bool {
    next.first == facts.first && next.chained == facts.chained && next.related == facts.related
        && next.spawn_error == facts.spawn_error
}

/// Nothing is learnt of what was read, or of the session's end.
pub open spec fn output_stays(facts: FactsModel, next: FactsModel) -> bool {
    &&& next.transcript == facts.transcript
    &&& next.stdout == facts.stdout && next.stderr == facts.stderr
    &&& next.session_success == facts.session_success
    &&& next.session_status == facts.session_status
}

/// Paths teach where things lie, and nothing else.
pub proof fn law_paths_are_learnt(facts: FactsModel, step: Step, path: Seq<u8>)
    ensures
        match run::learnt(facts, step, ReplyModel::Path(path)) {
            Some(Ok(next)) => {
                &&& step is FindExecutable || step is FindPolicy || step is MakeDir
                &&& same_order(facts, next) && commands_stay(facts, next) && output_stays(
                    facts,
                    next,
                )
                &&& next.shim_id == facts.shim_id
                &&& places_learnt(facts, step, path, next)
            },
            Some(Err(error)) => step == Step::MakeDir(Dir::Work) && process::shim_place(
                path,
                facts.policy,
            ) == Err::<Seq<u8>, _>(error),
            None => !(step is FindExecutable || step is FindPolicy || step is MakeDir),
        },
{
}

/// The identity of the shim is learnt once, and a second name for it must be
/// the same file.
pub proof fn law_identities_are_learnt(facts: FactsModel, step: Step, id: crate::harness::FileId)
    ensures
        match run::learnt(facts, step, ReplyModel::Identity(id)) {
            Some(Ok(next)) => {
                &&& same_order(facts, next) && places_stay(facts, next) && commands_stay(
                    facts,
                    next,
                ) && output_stays(facts, next)
                &&& step is StatShim ==> next.shim_id == id
                &&& !(step is StatShim) ==> step is StatLinkedShim && id == facts.shim_id
                    && next.shim_id == facts.shim_id
            },
            Some(Err(error)) => step is StatLinkedShim && id != facts.shim_id && error
                == ErrorModel::Setup("git and ssh shims do not share the trusted inode"@),
            None => !(step is StatShim || step is StatLinkedShim),
        },
{
}

/// Only the command of the link changes, and of it only what the reply tells.
pub open spec fn command_learnt(
    facts: FactsModel,
    link: Link,
    command: CommandModel,
    next: FactsModel,
) -> bool {
    &&& same_order(facts, next) && places_stay(facts, next) && output_stays(facts, next)
    &&& next.shim_id == facts.shim_id
    &&& next.related == facts.related && next.spawn_error == facts.spawn_error
    &&& link is First ==> next.first == command && next.chained == facts.chained
    &&& link is Chained ==> next.chained == command && next.first == facts.first
}

/// The command of a link.
pub open spec fn of_link(facts: FactsModel, link: Link) -> CommandModel {
    if link is First {
        facts.first
    } else {
        facts.chained
    }
}

/// A request, a start and an end teach of the command that they are about what
/// they tell; an identifier that does not fit is an error.
pub proof fn law_commands_are_learnt(
    facts: FactsModel,
    link: Link,
    request: ipc::RequestModel,
    id: u32,
    response: ResponseModel,
)
    ensures
        run::learnt(facts, Step::ReadRequest(link), ReplyModel::Request(request)) matches Some(
            Ok(next),
        ) && command_learnt(
            facts,
            link,
            CommandModel { request, ..of_link(facts, link) },
            next,
        ),
        run::learnt(facts, Step::WaitCommand(link), ReplyModel::Ended(response)) matches Some(
            Ok(next),
        ) && command_learnt(
            facts,
            link,
            CommandModel { response, ..of_link(facts, link) },
            next,
        ),
        id <= 0x7fff_ffff ==> (run::learnt(
            facts,
            Step::SpawnCommand(link),
            ReplyModel::Started(id),
        ) matches Some(Ok(next)) && command_learnt(
            facts,
            link,
            CommandModel { pid: id as i32, ..of_link(facts, link) },
            next,
        )),
        id > 0x7fff_ffff ==> run::learnt(
            facts,
            Step::SpawnCommand(link),
            ReplyModel::Started(id),
        ) matches Some(Err(_)),
{
}

/// A peer is authenticated against the identity of the shim.
pub proof fn law_peers_are_authenticated(
    facts: FactsModel,
    link: Link,
    credentials: Result<process::PeerCredentials, Seq<char>>,
    exe: Result<Seq<u8>, Seq<char>>,
    id: Result<crate::harness::FileId, Seq<char>>,
)
    ensures
        match run::learnt(
            facts,
            Step::Authenticate(link),
            ReplyModel::Peer { credentials, exe, id },
        ) {
            Some(Ok(next)) => {
                &&& credentials is Ok && exe is Ok && id is Ok
                &&& id->Ok_0.dev == facts.shim_id.dev && id->Ok_0.ino == facts.shim_id.ino
                &&& command_learnt(
                    facts,
                    link,
                    CommandModel {
                        auth: AuthModel {
                            peer_pid: credentials->Ok_0.pid,
                            peer_uid: credentials->Ok_0.uid,
                            peer_gid: credentials->Ok_0.gid,
                            peer_exe: exe->Ok_0,
                            peer_id: facts.shim_id,
                        },
                        ..of_link(facts, link)
                    },
                    next,
                )
            },
            Some(Err(_)) => credentials is Err || exe is Err || id is Err || id->Ok_0
                != facts.shim_id,
            None => false,
        },
{
    process_laws::law_authentication(credentials, exe, id, facts.shim_id);
}

/// A chained shim must descend from the first command.
pub proof fn law_ancestry_is_learnt(facts: FactsModel, related: bool)
    ensures
        related ==> (run::learnt(facts, Step::CheckAncestry, ReplyModel::Related(related)) matches Some(
            Ok(next),
        ) && next == (FactsModel { related: true, ..facts })),
        !related ==> run::learnt(facts, Step::CheckAncestry, ReplyModel::Related(related)) == Some(
            Err::<FactsModel, _>(
                ErrorModel::Setup(
                    "ssh shim pid "@ + text::signed_decimal(facts.chained.auth.peer_pid as int)
                        + " did not have git command pid "@ + text::signed_decimal(
                        facts.first.pid as int,
                    ) + " in its ancestry"@,
                ),
            ),
        ),
{
}

/// What is read from the terminal is added to the transcript, what is read from
/// a pipe is the output, and the session's end is kept.
pub proof fn law_output_is_learnt(
    facts: FactsModel,
    marker: Marker,
    content: Seq<u8>,
    success: bool,
    status: Seq<char>,
)
    ensures
        run::learnt(facts, Step::Await(marker), ReplyModel::Read(content)) == Some(
            Ok::<_, ErrorModel>(
                FactsModel { transcript: facts.transcript + content, ..facts },
            ),
        ),
        run::learnt(facts, Step::Drain, ReplyModel::Read(content)) == Some(
            Ok::<_, ErrorModel>(
                FactsModel { transcript: facts.transcript + content, ..facts },
            ),
        ),
        run::learnt(facts, Step::Join(Pipe::Stdout), ReplyModel::Read(content)) == Some(
            Ok::<_, ErrorModel>(FactsModel { stdout: content, ..facts }),
        ),
        run::learnt(facts, Step::Join(Pipe::Stderr), ReplyModel::Read(content)) == Some(
            Ok::<_, ErrorModel>(FactsModel { stderr: content, ..facts }),
        ),
        run::learnt(
            facts,
            Step::WaitSession,
            ReplyModel::SessionEnded { success, status },
        ) == Some(
            Ok::<_, ErrorModel>(
                FactsModel { session_success: success, session_status: status, ..facts },
            ),
        ),
{
}

/// Steps that are done teach nothing more, a refusal ends a run with its error,
/// and so does a failure, but for a topology whose command does not start: it
/// goes on without one.
pub proof fn law_trouble_is_learnt(
    facts: FactsModel,
    step: Step,
    error: ErrorModel,
    reason: Seq<char>,
)
    ensures
        run::learnt(facts, step, ReplyModel::Refused(error)) == Some(Err::<FactsModel, _>(error)),
        run::learnt(facts, step, ReplyModel::Done) matches Some(result) ==> result == Ok::<
            _,
            ErrorModel,
        >(facts),
        ({
            let spared = facts.smoke is Topology && (step == Step::ReceiveStdio(Link::First) || step
                == Step::SpawnCommand(Link::First));
            match run::learnt(facts, step, ReplyModel::Failed(reason)) {
                Some(Ok(next)) => {
                    &&& spared
                    &&& same_order(facts, next) && places_stay(facts, next) && output_stays(
                        facts,
                        next,
                    )
                    &&& next.chained == facts.chained && next.related == facts.related
                    &&& next.shim_id == facts.shim_id
                    &&& next.first.auth == facts.first.auth && next.first.request
                        == facts.first.request && next.first.pid == facts.first.pid
                    &&& next.spawn_error is Some
                    &&& next.first.response.spawn_error == next.spawn_error
                    &&& next.first.response.exit_code is None && next.first.response.signal is None
                    &&& step is SpawnCommand ==> next.spawn_error->0 == reason
                    &&& step is ReceiveStdio ==> next.spawn_error->0
                        == "failed to receive stdio fds: "@ + reason
                },
                Some(Err(error)) => !spared && error == ErrorModel::Setup(
                    steps::failure_text(facts, step, reason),
                ),
                None => false,
            }
        }),
{
}

/// A failure is told by what was tried, on what, and the reason.
pub proof fn law_failures_are_told(facts: FactsModel, link: Link, reason: Seq<char>)
    ensures
        ({
            let told = |step: Step| steps::failure_text(facts, step, reason);
            let in_dir = |d: Seq<u8>, name: Seq<char>|
                paths::shown(paths::joined_path(d, vstd::utf8::encode_utf8(name)));
            &&& told(Step::FindExecutable) == "failed to locate current executable: "@ + reason
            &&& told(Step::MakeDir(Dir::Work)) == "failed to create "@ + "temp dir"@ + ": "@ + reason
            &&& told(Step::MakeDir(Dir::Sockets)) == "failed to create "@ + "socket temp dir"@
                + ": "@ + reason
            &&& told(Step::MakeDir(Dir::Binaries)) == "failed to create "@ + "real temp dir"@ + ": "@
                + reason
            &&& told(Step::MakeDir(Dir::Shims)) == "failed to create "@ + "shim temp dir"@ + ": "@
                + reason
            &&& told(Step::MakeDir(Dir::Keys)) == "failed to create "@ + "raw-key temp dir"@ + ": "@
                + reason
            &&& told(Step::StatShim) == "failed to stat trusted shim "@ + paths::shown(facts.shim)
                + ": "@ + reason
            &&& told(Step::LinkShim) == "failed to hard-link ssh shim "@ + in_dir(
                facts.shim_dir,
                "ssh"@,
            ) + " -> "@ + paths::shown(facts.shim) + ": "@ + reason
            &&& told(Step::StatLinkedShim) == "failed to stat ssh shim "@ + in_dir(
                facts.shim_dir,
                "ssh"@,
            ) + ": "@ + reason
            &&& told(Step::WriteKey) == "failed to write raw key "@ + in_dir(
                facts.key_dir,
                "id_rsa"@,
            ) + ": "@ + reason
            &&& told(Step::BindAgent) == "failed to bind fake ssh-agent socket "@ + in_dir(
                facts.work_dir,
                "ssh-agent.sock"@,
            ) + ": "@ + reason
            &&& told(Step::BindSupervisor) == "failed to bind supervisor socket "@ + in_dir(
                facts.work_dir,
                "supervisor.sock"@,
            ) + ": "@ + reason
            &&& told(Step::MakeNonblocking) == "failed to make supervisor socket nonblocking: "@
                + reason
            &&& told(Step::SpawnSession) == "failed to spawn session child: "@ + reason
            &&& told(Step::Capture(Pipe::Stdin)) == "failed to capture session "@ + "stdin"@
                + " pipe"@
            &&& told(Step::Capture(Pipe::Stdout)) == "failed to capture session "@ + "stdout"@
                + " pipe"@
            &&& told(Step::Capture(Pipe::Stderr)) == "failed to capture session "@ + "stderr"@
                + " pipe"@
            &&& told(Step::SpawnCommand(link)) == "failed to spawn "@ + (
            if !(facts.smoke is ChainCredential) {
                "command"@
            } else if link is First {
                "git command"@
            } else {
                "ssh command"@
            }) + " child: "@ + reason
            &&& told(Step::ReceiveStdio(link)) == (if facts.smoke is ChainCredential
                || facts.smoke is CommandPty {
                reason
            } else {
                "failed to receive stdio fds: "@ + reason
            })
            &&& told(Step::FeedSession) == "failed to write session stdin proof payload: "@ + reason
            &&& told(Step::WaitSession) == "failed to wait for session child: "@ + reason
        }),
{
}

// ---------------------------------------------------------------------------
// Runs
// ---------------------------------------------------------------------------

/// The step is left out because the first command never ran.
pub open spec fn left_out(facts: FactsModel, step: Step) -> bool {
    facts.spawn_error is Some && (step == Step::SpawnCommand(Link::First) || step
        == Step::WaitCommand(Link::First) || step == Step::SendResponse(Link::First))
}

proof fn lemma_settled(facts: FactsModel, steps: Seq<Step>, at: int)
    requires
        0 <= at <= steps.len(),
    ensures
        at <= run::settled(facts, steps, at) <= steps.len(),
        forall|i: int|
            at <= i < run::settled(facts, steps, at) ==> left_out(facts, #[trigger] steps[i]),
        run::settled(facts, steps, at) < steps.len() ==> !left_out(
            facts,
            steps[run::settled(facts, steps, at)],
        ),
    decreases steps.len() - at,
{
    if at < steps.len() && left_out(facts, steps[at]) {
        lemma_settled(facts, steps, at + 1);
    }
}

/// A run goes from each step to the next that is not left out, with what it has
/// learnt; it fails with what is learnt to be wrong, and waits otherwise.
pub proof fn law_runs_advance(facts: FactsModel, at: int, reply: ReplyModel)
    requires
        0 <= at < script::script(facts.smoke, facts.payload is Some).len(),
    ensures
        ({
            let steps = script::script(facts.smoke, facts.payload is Some);
            let state = RunModel::Going { facts, at };
            &&& run::step_of(state) == Some(steps[at])
            &&& match run::learnt(facts, steps[at], reply) {
                Some(Ok(next)) => run::advanced(state, reply) matches RunModel::Going {
                    facts: then,
                    at: place,
                } && then == next && at < place <= steps.len() && (forall|i: int|
                    at < i < place ==> left_out(next, #[trigger] steps[i])) && (place < steps.len()
                    ==> !left_out(next, steps[place])),
                Some(Err(error)) => run::advanced(state, reply) == RunModel::Failed(error),
                None => run::advanced(state, reply) == state,
            }
        }),
{
    let steps = script::script(facts.smoke, facts.payload is Some);
    if let Some(Ok(next)) = run::learnt(facts, steps[at], reply) {
        lemma_settled(next, steps, at + 1);
    }
}

/// A run that is through its steps, or that failed, asks for nothing more, and
/// no reply changes it.
pub proof fn law_runs_end(facts: FactsModel, at: int, error: ErrorModel, reply: ReplyModel)
    requires
        at >= script::script(facts.smoke, facts.payload is Some).len(),
    ensures
        run::step_of(RunModel::Going { facts, at }) is None,
        run::advanced(RunModel::Going { facts, at }, reply) == (RunModel::Going { facts, at }),
        run::step_of(RunModel::Failed(error)) is None,
        run::advanced(RunModel::Failed(error), reply) == RunModel::Failed(error),
{
}

/// What is known before a run is what it was given.
pub proof fn law_runs_start_with_what_they_are_given(
    kind: Smoke,
    flags: FlagsModel,
    requested: Seq<u8>,
    helper: Option<Seq<char>>,
    payload: Option<Seq<u8>>,
    search_path: Seq<char>,
)
    ensures
        ({
            let facts = smoke::initial_facts(
                kind,
                flags,
                requested,
                helper,
                payload,
                search_path,
            );
            &&& facts.smoke == kind && facts.flags == flags && facts.requested == requested
            &&& facts.helper == helper && facts.payload == payload
            &&& facts.search_path == search_path
            &&& !facts.related && !facts.session_success && facts.spawn_error is None
            &&& facts.transcript.len() == 0 && facts.stdout.len() == 0 && facts.stderr.len() == 0
            &&& facts.shim_id.dev == 0 && facts.shim_id.ino == 0
            &&& nothing_known(facts.first) && nothing_known(facts.chained)
        }),
{
    reveal_strlit("");
}

/// Of the command no process, request or end is known.
pub open spec fn nothing_known(command: CommandModel) -> bool {
    &&& command.pid == 0 && command.auth.peer_pid == 0
    &&& command.auth.peer_id.dev == 0 && command.auth.peer_id.ino == 0
    &&& command.request.command.len() == 0 && command.request.helper_role is None
    &&& command.response.exit_code is None && command.response.signal is None
    &&& command.response.spawn_error is None
}

// ---------------------------------------------------------------------------
// Actions
// ---------------------------------------------------------------------------

/// A file of the given name in a directory.
pub open spec fn within(dir: Seq<u8>, name: Seq<char>) -> Seq<u8> {
    paths::joined_path(dir, vstd::utf8::encode_utf8(name))
}

/// What is done with files: the shim is a copy of this program, its second name
/// is a link to it, and binaries, key and sockets lie where they are looked for.
pub proof fn law_file_actions(action: Action, facts: FactsModel, step: Step)
    requires
        steps::asks(action, facts, step),
    ensures
        step is FindPolicy ==> action is Canonicalize && action->Canonicalize_0@ == (
        if facts.smoke is Topology {
            facts.requested
        } else {
            facts.executable
        }),
        step is PlaceShim ==> action is Place && action->Place_from@ == facts.executable
            && action->Place_to@ == facts.shim,
        step == Step::PlaceBinary(Link::First) ==> action is Place && action->Place_from@
            == facts.executable && action->Place_to@ == facts.policy,
        step == Step::PlaceBinary(Link::Chained) ==> action is Place && action->Place_from@
            == facts.executable && action->Place_to@ == within(facts.binary_dir, "ssh-real"@),
        step is LinkShim ==> action is HardLink && action->HardLink_from@ == facts.shim
            && action->HardLink_to@ == within(facts.shim_dir, "ssh"@),
        step is StatShim ==> action is Stat && action->Stat_0@ == facts.shim,
        step is StatLinkedShim ==> action is Stat && action->Stat_0@ == within(
            facts.shim_dir,
            "ssh"@,
        ),
        step is WriteKey ==> action is Write && action->Write_path@ == within(
            facts.key_dir,
            "id_rsa"@,
        ) && action->content@ == vstd::utf8::encode_utf8("not-a-real-private-key\n"@),
        step is BindAgent ==> action is Bind && action->Bind_path@ == within(
            facts.work_dir,
            "ssh-agent.sock"@,
        ) && !action->supervisor,
        step is BindSupervisor ==> action is Bind && action->Bind_path@ == within(
            facts.work_dir,
            "supervisor.sock"@,
        ) && action->supervisor,
{
}

/// What is done on a terminal: the keys are control-C (3) and control-Z (26),
/// the first marker has ten seconds and the others five, the size becomes 41 by
/// 101, and the shim's process is continued.
pub proof fn law_terminal_actions(action: Action, facts: FactsModel, step: Step)
    requires
        steps::asks(action, facts, step),
    ensures
        step == Step::Press(Key::Interrupt) ==> action == Action::Press(3),
        step == Step::Press(Key::Suspend) ==> action == Action::Press(26),
        step is Resize ==> action == (Action::Resize { rows: 41, cols: 101 }),
        step is Resume ==> action == (Action::Signal {
            pid: facts.first.auth.peer_pid,
            signal: Signal::Continue,
        }),
        step is Drain && facts.smoke is CommandPty ==> action == (Action::Drain {
            quiet_millis: 50,
            max_millis: 500,
        }),
        step is Drain && !(facts.smoke is CommandPty) ==> action == (Action::Drain {
            quiet_millis: 250,
            max_millis: 2000,
        }),
        step == Step::Await(Marker::Ready) ==> action is Await && action->seconds == 10,
        step is Await && step != Step::Await(Marker::Ready) ==> action is Await && action->seconds
            == 5,
        step is Await ==> (action->whole <==> facts.smoke is JobControl),
        step == Step::Await(Marker::Resized) ==> action->Await_marker@ == vstd::utf8::encode_utf8(
            "tty-job-helper-signal: SIGWINCH"@,
        ),
        step == Step::Await(Marker::Suspended) ==> action->Await_marker@ == vstd::utf8::encode_utf8(
            "tty-job-helper-signal: SIGTSTP"@,
        ),
        step == Step::Await(Marker::Continued) ==> action->Await_marker@ == vstd::utf8::encode_utf8(
            "tty-job-helper-signal: SIGCONT"@,
        ),
        step == Step::Await(Marker::Ready) && facts.smoke is JobControl ==> action->Await_marker@
            == vstd::utf8::encode_utf8("tty-job-helper-ready"@),
        step == Step::Await(Marker::Ready) && facts.smoke is CommandPty ==> action->Await_marker@
            == vstd::utf8::encode_utf8("command-pty-helper-ready"@),
        step == Step::Await(Marker::Ready) && facts.smoke is TtySignal ==> action->Await_marker@
            == vstd::utf8::encode_utf8("tty-helper-ready"@),
{
}

/// What is done with processes: a session gets the terminal in the tests of it,
/// and is fed where there is a payload; a command gets a terminal in its own
/// test, and the chained environment in the chained one; shims are told the
/// process that was started, or why none was, and how it ended.
pub proof fn law_process_actions(action: Action, facts: FactsModel, step: Step)
    requires
        steps::asks(action, facts, step),
    ensures
        step is SpawnSession ==> {
            let socket = within(facts.work_dir, "supervisor.sock"@);
            let argv = text::views(action->SpawnSession_argv@);
            &&& action is SpawnSession
            &&& action->SpawnSession_terminal <==> facts.smoke is TtySignal
                || facts.smoke is JobControl
            &&& action->fed <==> facts.smoke is Topology && facts.payload is Some
            &&& facts.smoke is TtySignal ==> argv == process::helper_session_args(
                socket,
                facts.policy,
                facts.shim,
                "tty-helper"@,
                facts.flags,
            )
            &&& facts.smoke is JobControl ==> argv == process::helper_session_args(
                socket,
                facts.policy,
                facts.shim,
                "tty-job-helper"@,
                facts.flags,
            )
            &&& facts.smoke is CommandPty ==> argv == process::helper_session_args(
                socket,
                facts.policy,
                facts.shim,
                "command-pty-helper"@,
                facts.flags,
            )
            &&& facts.smoke is Topology ==> argv == process::plain_session_args(
                socket,
                facts.policy,
                facts.shim,
                facts.helper,
                facts.flags,
            )
            &&& facts.smoke is ChainCredential ==> argv == process::chain_session_args(
                socket,
                facts.policy,
                facts.shim,
                within(facts.binary_dir, "ssh-real"@),
                facts.binary_dir,
                facts.flags,
            )
        },
        step is FeedSession && facts.payload is Some ==> action is Feed && action->Feed_0@
            == facts.payload->0,
        step is CheckAncestry ==> action == (Action::CheckAncestry {
            pid: facts.chained.auth.peer_pid,
            ancestor: facts.first.pid,
        }),
        step is SpawnCommand ==> {
            let link = step->SpawnCommand_0;
            let argv = text::views(action->SpawnCommand_argv@);
            let binary = if link is First {
                facts.policy
            } else {
                within(facts.binary_dir, "ssh-real"@)
            };
            let helper = of_link(facts, link).request.helper_role;
            &&& action is SpawnCommand && action->SpawnCommand_link == link
            &&& action->SpawnCommand_terminal <==> facts.smoke is CommandPty
            &&& facts.smoke is ChainCredential ==> argv == process::command_args(
                binary,
                helper,
                Some(within(facts.work_dir, "supervisor.sock"@)),
                Some(facts.shim_dir),
                false,
            )
            &&& !(facts.smoke is ChainCredential) ==> argv == process::command_args(
                binary,
                helper,
                None,
                None,
                facts.smoke is CommandPty,
            ) && action->env@.len() == 0
            &&& facts.smoke is ChainCredential ==> text::views(action->env@)
                == process::chained_env(
                facts.shim_dir,
                within(facts.work_dir, "supervisor.sock"@),
                within(facts.binary_dir, "ssh-real"@),
                within(facts.key_dir, "id_rsa"@),
                within(facts.work_dir, "ssh-agent.sock"@),
                facts.search_path,
            )
        },
        step is SendStart ==> {
            let link = step->SendStart_0;
            let start = action->start@;
            &&& action is SendStart && action->SendStart_link == link
            &&& link is First && facts.spawn_error is Some ==> start.spawn_error
                == facts.spawn_error && start.grandchild_pid is None
            &&& !(link is First && facts.spawn_error is Some) ==> start.spawn_error is None
                && start.grandchild_pid == Some(of_link(facts, link).pid)
        },
        step is SendResponse ==> action is SendResponse && action->SendResponse_link
            == step->SendResponse_0 && action->response@ == of_link(
            facts,
            step->SendResponse_0,
        ).response,
        step is WaitCommand ==> action is WaitCommand && action->WaitCommand_link
            == step->WaitCommand_0 && (action->limit == (if facts.smoke is ChainCredential
            || facts.smoke is Topology {
            None
        } else {
            Some(5u64)
        })),
{
    if step is SpawnCommand && !(facts.smoke is ChainCredential) {
        assert(text::views(action->env@).len() == 0);
    }
}

// ---------------------------------------------------------------------------
// Reports
// ---------------------------------------------------------------------------

/// The lines hold the label with the value.
pub open spec fn tells(lines: Seq<Seq<char>>, label: Seq<char>, value: Seq<char>) -> bool {
    lines.contains("  "@ + label + ": "@ + value)
}

/// A file with its device and inode.
pub open spec fn with_numbers(path: Seq<u8>, id: crate::harness::FileId) -> Seq<char> {
    paths::shown(path) + " ["@ + (text::decimal(id.dev as nat) + ":"@ + text::decimal(
        id.ino as nat,
    )) + "]"@
}

/// Who connected, in full.
pub open spec fn told_peer(auth: AuthModel) -> Seq<char> {
    "pid="@ + text::signed_decimal(auth.peer_pid as int) + " uid="@ + text::decimal(
        auth.peer_uid as nat,
    ) + " gid="@ + text::decimal(auth.peer_gid as nat) + " exe="@ + with_numbers(
        auth.peer_exe,
        auth.peer_id,
    )
}

/// Who connected, in short.
pub open spec fn told_shortly(auth: AuthModel) -> Seq<char> {
    "pid="@ + text::signed_decimal(auth.peer_pid as int) + " exe="@ + with_numbers(
        auth.peer_exe,
        auth.peer_id,
    )
}

proof fn lemma_tells(lines: Seq<Seq<char>>, i: int, label: Seq<char>, value: Seq<char>)
    requires
        0 <= i < lines.len(),
        lines[i] == report::labelled(label, value),
    ensures
        tells(lines, label, value),
{
}

/// A report on a single command tells its binary, the trusted shim, who
/// connected, what was asked for, how command and session ended, and how long it
/// took.
pub proof fn law_single_report(facts: FactsModel, elapsed: u128)
    requires
        !(facts.smoke is ChainCredential),
    ensures
        ({
            let lines = report::report_lines(facts, elapsed);
            &&& tells(lines, "policy binary"@, paths::shown(facts.policy))
            &&& tells(lines, "trusted shim"@, with_numbers(facts.shim, facts.shim_id))
            &&& tells(lines, "peer auth"@, told_peer(facts.first.auth))
            &&& tells(lines, "shim request command"@, facts.first.request.command)
            &&& tells(
                lines,
                "supervised command response"@,
                ipc::response_text(facts.first.response),
            )
            &&& tells(lines, "session child status"@, facts.session_status)
            &&& tells(lines, "total time"@, text::decimal(elapsed as nat) + " ms"@)
            &&& !(facts.smoke is Topology) ==> tells(
                lines,
                "grandchild pid"@,
                text::signed_decimal(facts.first.pid as int),
            )
        }),
{
    let lines = report::report_lines(facts, elapsed);
    let first = facts.first;
    let e: int = if facts.smoke is Topology {
        5
    } else {
        6
    };
    lemma_tells(lines, 1, "policy binary"@, paths::shown(facts.policy));
    lemma_tells(lines, 2, "trusted shim"@, with_numbers(facts.shim, facts.shim_id));
    lemma_tells(lines, 3, "peer auth"@, told_peer(first.auth));
    lemma_tells(lines, 4, "shim request command"@, first.request.command);
    if !(facts.smoke is Topology) {
        lemma_tells(lines, 5, "grandchild pid"@, text::signed_decimal(first.pid as int));
    }
    lemma_tells(
        lines,
        e,
        "supervised command response"@,
        ipc::response_text(first.response),
    );
    lemma_tells(lines, e + 1, "session child status"@, facts.session_status);
    lemma_tells(
        lines,
        lines.len() - 1,
        "total time"@,
        text::decimal(elapsed as nat) + " ms"@,
    );
}

/// A report on chained commands tells of both.
pub proof fn law_chain_report(facts: FactsModel, elapsed: u128)
    requires
        facts.smoke is ChainCredential,
    ensures
        ({
            let lines = report::report_lines(facts, elapsed);
            &&& lines[0] == "Chain credential smoke result"@
            &&& tells(lines, "git real"@, paths::shown(facts.policy))
            &&& tells(lines, "ssh real"@, paths::shown(within(facts.binary_dir, "ssh-real"@)))
            &&& tells(lines, "trusted shim inode"@, with_numbers(facts.shim, facts.shim_id))
            &&& tells(lines, "git peer auth"@, told_shortly(facts.first.auth))
            &&& tells(lines, "ssh peer auth"@, told_shortly(facts.chained.auth))
            &&& tells(lines, "git command pid"@, text::signed_decimal(facts.first.pid as int))
            &&& tells(lines, "ssh command pid"@, text::signed_decimal(facts.chained.pid as int))
            &&& tells(lines, "ssh ancestry contains git pid"@, summary::truth(facts.related))
            &&& tells(lines, "git request command"@, facts.first.request.command)
            &&& tells(lines, "ssh request command"@, facts.chained.request.command)
            &&& tells(lines, "ssh response"@, ipc::response_text(facts.chained.response))
            &&& tells(lines, "git response"@, ipc::response_text(facts.first.response))
            &&& tells(lines, "session child status"@, facts.session_status)
        }),
{
    let lines = report::report_lines(facts, elapsed);
    lemma_tells(lines, 1, "git real"@, paths::shown(facts.policy));
    lemma_tells(lines, 2, "ssh real"@, paths::shown(within(facts.binary_dir, "ssh-real"@)));
    lemma_tells(lines, 3, "trusted shim inode"@, with_numbers(facts.shim, facts.shim_id));
    lemma_tells(lines, 4, "git peer auth"@, told_shortly(facts.first.auth));
    lemma_tells(lines, 5, "ssh peer auth"@, told_shortly(facts.chained.auth));
    lemma_tells(lines, 6, "git command pid"@, text::signed_decimal(facts.first.pid as int));
    lemma_tells(lines, 7, "ssh command pid"@, text::signed_decimal(facts.chained.pid as int));
    lemma_tells(lines, 8, "ssh ancestry contains git pid"@, summary::truth(facts.related));
    lemma_tells(lines, 9, "git request command"@, facts.first.request.command);
    lemma_tells(lines, 10, "ssh request command"@, facts.chained.request.command);
    lemma_tells(lines, 11, "ssh response"@, ipc::response_text(facts.chained.response));
    lemma_tells(lines, 12, "git response"@, ipc::response_text(facts.first.response));
    lemma_tells(lines, 13, "session child status"@, facts.session_status);
}

/// A report begins with what was tested, and counts the bytes of what was read
/// and captured.
pub proof fn law_report_sizes(facts: FactsModel, elapsed: u128)
    ensures
        ({
            let lines = report::report_lines(facts, elapsed);
            let terminal = facts.smoke is TtySignal || facts.smoke is JobControl;
            let read = text::decimal(facts.transcript.len());
            &&& lines.len() > 0
            &&& facts.smoke is TtySignal ==> lines[0] == "TTY signal smoke result"@
            &&& facts.smoke is JobControl ==> lines[0] == "TTY job-control smoke result"@
            &&& facts.smoke is CommandPty ==> lines[0] == "Command PTY bridge smoke result"@
            &&& facts.smoke is Topology ==> lines[0] == "Topology smoke result"@
            &&& terminal ==> tells(lines, "PTY"@ + " transcript bytes"@, read)
            &&& facts.smoke is CommandPty ==> tells(
                lines,
                "command PTY"@ + " transcript bytes"@,
                read,
            )
            &&& !terminal ==> tells(
                lines,
                "captured session stdout bytes"@,
                text::decimal(facts.stdout.len()),
            ) && tells(
                lines,
                "captured session stderr bytes"@,
                text::decimal(facts.stderr.len()),
            )
        }),
{
    let lines = report::report_lines(facts, elapsed);
    let n = lines.len();
    let read = text::decimal(facts.transcript.len());
    if facts.smoke is TtySignal || facts.smoke is JobControl {
        lemma_tells(lines, n - 2, "PTY"@ + " transcript bytes"@, read);
    } else {
        lemma_tells(
            lines,
            n - 3,
            "captured session stdout bytes"@,
            text::decimal(facts.stdout.len()),
        );
        lemma_tells(
            lines,
            n - 2,
            "captured session stderr bytes"@,
            text::decimal(facts.stderr.len()),
        );
        if facts.smoke is CommandPty {
            lemma_tells(lines, n - 4, "command PTY"@ + " transcript bytes"@, read);
        }
    }
}

/// An exhibit is printed between two lines that name it.
pub proof fn law_printed(name: Seq<char>, content: Seq<char>)
    ensures
        report::printed(report::ExhibitModel { name, content }) == "--- "@ + name + " ---\n"@
            + content + "--- end "@ + name + " ---\n"@,
{
}

/// What was read and captured is shown where it is not empty, each under its
/// name: the terminal's transcript where there is a terminal, and the session's
/// output where it is captured.
pub proof fn law_exhibits(facts: FactsModel, name: Seq<char>, content: Seq<char>)
    ensures
        ({
            let shown = |wanted: Seq<char>, held: Seq<u8>|
                held.len() > 0 && name == wanted && content == bytes::lossy(held);
            let captured = !(facts.smoke is TtySignal || facts.smoke is JobControl);
            report::exhibits(facts).contains(report::ExhibitModel { name, content }) <==> {
                ||| (facts.smoke is TtySignal || facts.smoke is JobControl) && shown(
                    "PTY transcript"@,
                    facts.transcript,
                )
                ||| facts.smoke is CommandPty && shown("command PTY transcript"@, facts.transcript)
                ||| captured && shown("captured session stdout"@, facts.stdout)
                ||| captured && shown("captured session stderr"@, facts.stderr)
            }
        }),
{
    let it = report::ExhibitModel { name, content };
    let a = report::exhibit("captured session stdout"@, facts.stdout);
    let b = report::exhibit("captured session stderr"@, facts.stderr);
    let c = report::exhibit("PTY transcript"@, facts.transcript);
    let d = report::exhibit("command PTY transcript"@, facts.transcript);
    lemma_exhibit("captured session stdout"@, facts.stdout, it);
    lemma_exhibit("captured session stderr"@, facts.stderr, it);
    lemma_exhibit("PTY transcript"@, facts.transcript, it);
    lemma_exhibit("command PTY transcript"@, facts.transcript, it);
    lemma_in_exhibits(a, b, it);
    lemma_in_exhibits(d, a + b, it);
}

proof fn lemma_exhibit(name: Seq<char>, content: Seq<u8>, it: report::ExhibitModel)
    ensures
        report::exhibit(name, content).contains(it) <==> content.len() > 0 && it.name == name
            && it.content == bytes::lossy(content),
{
    if content.len() > 0 {
        assert(report::exhibit(name, content)[0].name == name);
    }
}

proof fn lemma_in_exhibits(
    a: Seq<report::ExhibitModel>,
    b: Seq<report::ExhibitModel>,
    it: report::ExhibitModel,
)
    ensures
        (a + b).contains(it) <==> a.contains(it) || b.contains(it),
{
    if a.contains(it) {
        assert((a + b)[a.index_of(it)] == it);
    }
    if b.contains(it) {
        assert((a + b)[a.len() + b.index_of(it)] == it);
    }
    if (a + b).contains(it) {
        let i = (a + b).index_of(it);
        if i < a.len() {
            assert(a[i] == it);
        } else {
            assert(b[i - a.len()] == it);
        }
    }
}

} // verus!
