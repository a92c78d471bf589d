//! What passes between a shim and its supervisor, and what is made of it.
use vstd::prelude::*;

use crate::bytes;
use crate::error::ErrorModel;
use crate::harness::ipc;
use crate::harness::ipc::{ExitFacts, LineModel, RequestModel, ResponseModel, StreamModel, WaitModel};
use crate::harness::probe;
use crate::harness::probe::{ProbeExpectation, ProbeModel};
use crate::harness::session;
use crate::harness::session::{
    AcceptModel, Attempt, ChildPoll, LaunchStep, ShimEvent, ShimModel, ShimStage,
};
use crate::harness::terminal;
use crate::harness::terminal::{
    CloseModel, Fault, MarkerModel, PollModel, ReadModel, Signal, WriteModel,
};
use crate::paths;
use crate::positions;
use crate::text;

verus! {

// ---------------------------------------------------------------------------
// Lines
// ---------------------------------------------------------------------------

/// A message is sent as its bytes and a line feed.
pub proof fn law_messages_end_with_a_line_feed(message: Seq<char>)
    ensures
        ipc::framed(message).len() == vstd::utf8::encode_utf8(message).len() + 1,
        ipc::framed(message).drop_last() == vstd::utf8::encode_utf8(message),
        ipc::framed(message).last() == 10,
{
    assert(ipc::framed(message).drop_last() =~= vstd::utf8::encode_utf8(message));
}

/// A line is gathered byte by byte up to a line feed; a mebibyte is the most
/// that it may hold, and a stream that ends or fails before that is an error.
pub proof fn law_line_reading(line: Seq<u8>, b: u8, reason: Seq<char>)
    ensures
        ({
            let state = LineModel::Reading(line);
            let next = ipc::line_next(state, StreamModel::Byte(b));
            &&& b == 10 ==> next == LineModel::Complete(line)
            &&& b != 10 && line.len() < 1024 * 1024 ==> next == LineModel::Reading(line.push(b))
            &&& b != 10 && line.len() >= 1024 * 1024 ==> next == LineModel::Failed(
                ErrorModel::Setup("IPC message exceeded 1 MiB"@),
            )
            &&& ipc::line_next(state, StreamModel::Closed) == LineModel::Failed(
                ErrorModel::Setup("IPC stream closed before newline"@),
            )
            &&& ipc::line_next(state, StreamModel::Failed(reason)) == LineModel::Failed(
                ErrorModel::Setup("failed to read IPC message: "@ + reason),
            )
        }),
        forall|event: StreamModel| #[trigger]
            ipc::line_next(LineModel::Complete(line), event) == LineModel::Complete(line),
{
}

// ---------------------------------------------------------------------------
// Responses
// ---------------------------------------------------------------------------

/// The response for a process that ended tells its code and its signal; that for
/// one that never ran tells why.
pub proof fn law_responses(status: ExitFacts, reason: Seq<char>)
    ensures
        ipc::ended(status).exit_code == status.code,
        ipc::ended(status).signal == status.signal,
        ipc::ended(status).spawn_error is None,
        ipc::not_spawned(reason).spawn_error == Some(reason),
        ipc::not_spawned(reason).exit_code is None,
        ipc::not_spawned(reason).signal is None,
{
}

/// A response is written with its code, its signal and its reason, in this order
/// and each behind its name; what it does not have is written as `None`.
pub proof fn law_response_text(response: ResponseModel)
    ensures
        ({
            let reason = if response.spawn_error is Some {
                "Some("@ + text::debug_text(response.spawn_error->0) + ")"@
            } else {
                "None"@
            };
            ipc::response_text(response) == "ShimResponse { exit_code: "@ + probe::option_number(
                response.exit_code,
            ) + ", signal: "@ + probe::option_number(response.signal) + ", spawn_error: "@ + reason
                + " }"@
        }),
{
}

/// A shim exits with 126 for a command that never ran, with 128 and the signal
/// for one that a signal ended, and otherwise as the command did; a command that
/// tells nothing failed.
pub proof fn law_shim_exit_code(response: ResponseModel)
    ensures
        ({
            let code = ipc::shim_exit_code(response) as int;
            &&& response.spawn_error is Some ==> code == 126
            &&& response.spawn_error is None && response.signal is Some && response.signal->0
                <= 0x7fff_ffff - 128 ==> code == 128 + response.signal->0
            &&& response.spawn_error is None && response.signal is Some && response.signal->0
                > 0x7fff_ffff - 128 ==> code == 0x7fff_ffff
            &&& response.spawn_error is None && response.signal is None && response.exit_code is Some
                ==> code == response.exit_code->0
            &&& response.spawn_error is None && response.signal is None && response.exit_code is None
                ==> code == 1
        }),
{
}

/// Waiting for a command ends when it has ended or cannot be looked at; it is
/// killed when its time is up, and is waited for otherwise.
pub proof fn law_waiting(
    poll: Result<Option<ExitFacts>, Seq<char>>,
    expired: bool,
    timeout_ms: u128,
)
    ensures
        ({
            let step = ipc::wait_step(poll, expired, timeout_ms);
            let running = poll is Ok && poll->Ok_0 is None;
            &&& step is Sleep <==> running && !expired
            &&& step is Kill <==> running && expired
            &&& step is Kill ==> step->Kill_0.spawn_error == Some(
                "command child timed out after "@ + text::decimal(timeout_ms as nat) + " ms"@,
            ) && step->Kill_0.exit_code is None && step->Kill_0.signal is None
            &&& poll is Ok && poll->Ok_0 is Some ==> step == WaitModel::Done(
                ResponseModel {
                    exit_code: (poll->Ok_0->0).code,
                    signal: (poll->Ok_0->0).signal,
                    spawn_error: None,
                },
            )
            &&& poll is Err ==> step == WaitModel::Done(
                ResponseModel { exit_code: None, signal: None, spawn_error: Some(poll->Err_0) },
            )
        }),
{
}

// ---------------------------------------------------------------------------
// Probes
// ---------------------------------------------------------------------------

/// A probe is summed up under its path with what was expected and what came of
/// it. It is as expected where a file that should run has run, and where one
/// that should not was refused, be it in words.
pub proof fn law_probe_summary(path: Seq<u8>, expected: ProbeExpectation, outcome: ProbeModel)
    ensures
        ({
            let summary = probe::summary(path, expected, outcome);
            let refused = outcome is SpawnDenied || outcome is SpawnError && text::occurs(
                outcome->message,
                "Permission denied"@,
            );
            &&& summary.path == paths::shown(path)
            &&& summary.expected == expected
            &&& summary.outcome == outcome
            &&& expected is Allow ==> (summary.matched <==> outcome is Exited)
            &&& expected is Deny ==> (summary.matched <==> refused)
        }),
{
}

/// Probes are summed up one for one, in their order.
pub proof fn law_probe_summaries(
    list: Seq<Seq<u8>>,
    expected: ProbeExpectation,
    outcomes: Seq<ProbeModel>,
)
    ensures
        probe::summaries(list, expected, outcomes).len() == list.len(),
        forall|i: int|
            0 <= i < list.len() ==> #[trigger] probe::summaries(list, expected, outcomes)[i]
                == probe::summary(list[i], expected, outcomes[i]),
{
}

// ---------------------------------------------------------------------------
// The supervisor's wait
// ---------------------------------------------------------------------------

/// What an ended or unreadable child makes of a wait.
pub open spec fn lost_child(
    step: AcceptModel,
    child: Seq<char>,
    shim: Seq<char>,
    poll: ChildPoll,
) -> bool {
    &&& poll is Ended ==> step == AcceptModel::Failed(
        ErrorModel::Setup(
            child + " child exited before "@ + shim + " connected: "@ + poll->Ended_0@,
        ),
    )
    &&& poll is Failed ==> step == AcceptModel::Failed(
        ErrorModel::Setup("failed to poll "@ + child + " child: "@ + poll->Failed_0@),
    )
}

/// Time that is up decides first, then the attempt, then the session, then the
/// command; with all well, the supervisor looks again.
pub proof fn law_waiting_for_a_shim(
    expired: bool,
    attempt: Attempt,
    session: ChildPoll,
    command: ChildPoll,
)
    ensures
        ({
            let one = session::accept_step(
                "shim"@,
                expired,
                attempt,
                session::watched("session"@, "shim"@, session),
            );
            let both = session::accept_step(
                "chained shim"@,
                expired,
                attempt,
                session::both_watched(session, command),
            );
            &&& expired ==> one == AcceptModel::Failed(
                ErrorModel::Setup("timed out waiting for "@ + "shim"@ + " connection"@),
            ) && both == AcceptModel::Failed(
                ErrorModel::Setup("timed out waiting for "@ + "chained shim"@ + " connection"@),
            )
            &&& one is Connected <==> !expired && attempt is Connected
            &&& both is Connected <==> !expired && attempt is Connected
            &&& !expired && attempt is Failed ==> one == AcceptModel::Failed(
                ErrorModel::Setup(
                    "failed to accept "@ + "shim"@ + " connection: "@ + attempt->Failed_0@,
                ),
            ) && both == AcceptModel::Failed(
                ErrorModel::Setup(
                    "failed to accept "@ + "chained shim"@ + " connection: "@ + attempt->Failed_0@,
                ),
            )
            &&& !expired && attempt is Pending ==> {
                &&& lost_child(one, "session"@, "shim"@, session)
                &&& lost_child(both, "session"@, "chained shim"@, session)
                &&& session is Running ==> lost_child(both, "command"@, "chained shim"@, command)
            }
            &&& one is Again <==> !expired && attempt is Pending && session is Running
            &&& both is Again <==> !expired && attempt is Pending && session is Running
                && command is Running
        }),
{
}

/// A shim that could not be made is an error that says which step failed.
pub proof fn law_shim_failure(source: Seq<u8>, shim: Seq<u8>, reason: Seq<char>)
    ensures
        session::shim_failure(ShimStage::Copy, source, shim, reason) == ErrorModel::Setup(
            "failed to materialize shim "@ + paths::shown(shim) + " from "@ + paths::shown(source)
                + ": "@ + reason,
        ),
        session::shim_failure(ShimStage::Stat, source, shim, reason) == ErrorModel::Setup(
            "failed to stat shim "@ + paths::shown(shim) + ": "@ + reason,
        ),
        session::shim_failure(ShimStage::Permit, source, shim, reason) == ErrorModel::Setup(
            "failed to set shim permissions "@ + paths::shown(shim) + ": "@ + reason,
        ),
{
}

/// A session goes on exactly where the policy binary was refused, and says so;
/// with a helper on a terminal it leaves three signals to its command.
pub proof fn law_session(outcome: ProbeModel, helper: Option<Seq<char>>)
    ensures
        ({
            let refused = outcome is SpawnDenied || outcome is SpawnError && text::occurs(
                outcome->message,
                "Permission denied"@,
            );
            let on_terminal = helper is Some && (helper->0 == "tty-helper"@ || helper->0
                == "tty-job-helper"@);
            &&& session::session_goes_on(outcome) is Ok <==> refused
            &&& !refused ==> session::session_goes_on(outcome) == Err::<(), _>(
                ErrorModel::Setup(
                    "direct policy exec was not denied: "@ + probe::outcome_text(outcome),
                ),
            )
            &&& refused ==> session::direct_exec_line(outcome)
                == "topology-session: direct policy exec matched="@ + "true"@
            &&& !refused ==> session::direct_exec_line(outcome)
                == "topology-session: direct policy exec matched="@ + "false"@
            &&& on_terminal ==> session::ignored_signals(helper) == seq![
                Signal::Interrupt,
                Signal::Quit,
                Signal::Suspend,
            ]
            &&& !on_terminal ==> session::ignored_signals(helper).len() == 0
        }),
{
}

// ---------------------------------------------------------------------------
// The shim
// ---------------------------------------------------------------------------

/// A shim whose command runs goes through its phases in order: it connects,
/// sends its request for the policy binary and the helper, hands over its
/// streams when asked, passes signals on to the process that was started, and
/// exits as the response says.
pub proof fn law_shim_runs(
    socket: Seq<u8>,
    policy: Seq<u8>,
    helper: Option<Seq<char>>,
    asked: ShimEvent,
    started: ShimEvent,
    responded: ShimEvent,
)
    requires
        asked matches ShimEvent::FdRequest(request) && request.send_stdio_fds,
        started matches ShimEvent::Start(start) && start.spawn_error is None
            && start.grandchild_pid is Some,
        responded matches ShimEvent::Response(response) && response.spawn_error is None,
    ensures
        ({
            let request = session::shim_next(
                ShimModel::Connect,
                ShimEvent::Done,
                socket,
                policy,
                helper,
            );
            let waiting = session::shim_next(request, ShimEvent::Done, socket, policy, helper);
            let sending = session::shim_next(waiting, asked, socket, policy, helper);
            let sent = session::shim_next(sending, ShimEvent::Done, socket, policy, helper);
            let running = session::shim_next(sent, started, socket, policy, helper);
            let reading = session::shim_next(running, ShimEvent::Done, socket, policy, helper);
            let over = session::shim_next(reading, responded, socket, policy, helper);
            &&& request == ShimModel::SendRequest(
                RequestModel { command: paths::shown(policy), helper_role: helper },
            )
            &&& waiting is ReadFdRequest
            &&& sending is SendStdio
            &&& sent is ReadStart
            &&& running == ShimModel::Forward(started->Start_0.grandchild_pid->0)
            &&& reading is ReadResponse
            &&& over == (ShimModel::Exit {
                complaint: None,
                code: ipc::shim_exit_code(responded->Response_0@),
            })
        }),
{
}

/// A shim whose command does not run says why and exits with 126; a supervisor
/// that breaks the order of things is an error, and so is one that cannot be
/// reached. What has ended stays ended.
pub proof fn law_shim_gives_up(
    phase: ShimModel,
    event: ShimEvent,
    socket: Seq<u8>,
    policy: Seq<u8>,
    helper: Option<Seq<char>>,
)
    ensures
        ({
            let next = session::shim_next(phase, event, socket, policy, helper);
            let over = phase is Exit || phase is Failed;
            &&& over ==> next == phase
            &&& !over && event is Refused ==> next == ShimModel::Failed(event->Refused_0@)
            &&& phase is Connect && event is NotConnected ==> next == ShimModel::Failed(
                ErrorModel::Setup(
                    "shim failed to connect to supervisor socket "@ + paths::shown(socket) + ": "@
                        + event->NotConnected_0@,
                ),
            )
            &&& phase is ReadFdRequest && event is FdRequest && !event->FdRequest_0.send_stdio_fds
                ==> next == ShimModel::Failed(
                ErrorModel::Setup("supervisor did not request stdio fd handoff"@),
            )
            &&& phase is ReadStart && event is Start && event->Start_0.spawn_error is Some ==> next
                == (ShimModel::Exit {
                complaint: Some(
                    "topology-shim: supervisor spawn error: "@ + (
                    event->Start_0.spawn_error->0)@,
                ),
                code: 126,
            })
            &&& phase is ReadStart && event is Start && event->Start_0.spawn_error is None
                && event->Start_0.grandchild_pid is None ==> next == ShimModel::Failed(
                ErrorModel::Setup("supervisor start message omitted grandchild pid"@),
            )
            &&& phase is ReadResponse && event is Response && event->Response_0.spawn_error is Some
                ==> next == (ShimModel::Exit {
                complaint: Some(
                    "topology-shim: supervisor spawn error: "@ + (
                    event->Response_0.spawn_error->0)@,
                ),
                code: 126,
            })
        }),
{
}

/// An event that a phase does not wait for changes nothing.
pub proof fn law_shim_waits(
    phase: ShimModel,
    event: ShimEvent,
    socket: Seq<u8>,
    policy: Seq<u8>,
    helper: Option<Seq<char>>,
)
    requires
        !(event is Refused),
        !(phase is Connect && (event is Done || event is NotConnected)),
        !(event is Done && (phase is SendRequest || phase is SendStdio || phase is Forward)),
        !(phase is ReadFdRequest && event is FdRequest),
        !(phase is ReadStart && event is Start),
        !(phase is ReadResponse && event is Response),
    ensures
        session::shim_next(phase, event, socket, policy, helper) == phase,
{
}

/// A launcher takes the terminal first where there is one, then restricts
/// itself, leaves a stray, closes the strays, and becomes the command.
pub proof fn law_launch_steps(command_pty: bool)
    ensures
        ({
            let steps = session::launch_steps(command_pty);
            let start: int = if command_pty {
                1
            } else {
                0
            };
            &&& steps.len() == start + 4
            &&& command_pty ==> steps[0] == LaunchStep::TakeTerminal
            &&& steps[start] == LaunchStep::Restrict
            &&& steps[start + 1] == LaunchStep::OpenStray
            &&& steps[start + 2] == LaunchStep::CloseStrays
            &&& steps[start + 3] == LaunchStep::Execute
        }),
{
}

// ---------------------------------------------------------------------------
// Terminals
// ---------------------------------------------------------------------------

/// A terminal can be read where input (1) or a hang-up (16) was reported, and
/// not where time ran out; an interrupted call is made again.
pub proof fn law_polling(rc: i32, revents: i16, fault: Fault, reason: Seq<char>)
    ensures
        ({
            let step = terminal::poll_step(rc, revents, fault, reason);
            &&& rc > 0 ==> step == PollModel::Answer(revents & 1 != 0 || revents & 16 != 0)
            &&& rc == 0 ==> step == PollModel::Answer(false)
            &&& rc < 0 && fault is Interrupted ==> step is Retry
            &&& rc < 0 && !(fault is Interrupted) ==> step == PollModel::Failed(
                ErrorModel::Setup("poll failed: "@ + reason),
            )
        }),
{
    assert((revents & (1i16 | 16i16) != 0) == (revents & 1 != 0 || revents & 16 != 0))
        by (bit_vector);
}

/// Reading gives the bytes that came, or the end of the stream, which a terminal
/// whose other end is gone tells by a fault; writing counts down what is left.
/// Interrupted calls are made again, and other faults are errors.
pub proof fn law_reading_and_writing(left: int, n: int, fault: Fault, reason: Seq<char>)
    ensures
        ({
            let read = terminal::read_step(n, fault, reason);
            let written = terminal::write_step(left, n, fault, reason);
            &&& n > 0 ==> read == ReadModel::Data(n) && written == WriteModel::Left(left - n)
            &&& n == 0 ==> read is End
            &&& n < 0 && fault is Interrupted ==> read is Retry
            &&& n < 0 && fault is Gone ==> read is End
            &&& n < 0 && !(fault is Interrupted || fault is Gone) ==> read == ReadModel::Failed(
                ErrorModel::Setup("PTY read failed: "@ + reason),
            )
            &&& n <= 0 && fault is Interrupted ==> written is Retry
            &&& n <= 0 && !(fault is Interrupted) ==> written == WriteModel::Failed(
                ErrorModel::Setup("PTY write failed: "@ + reason),
            )
        }),
{
}

/// A marker is found where it occurs in what was read, and waited for until time
/// is up; what was gathered before counts only while there is time.
pub proof fn law_markers(transcript: Seq<u8>, marker: Seq<u8>, read: bool, expired: bool)
    ensures
        ({
            let occurs = bytes::occurs(transcript, marker);
            let late = MarkerModel::Failed(
                ErrorModel::Setup(
                    "timed out waiting for PTY marker "@ + bytes::lossy(marker)
                        + "; transcript so far: "@ + bytes::lossy(transcript),
                ),
            );
            let until = terminal::until_step(transcript, marker, read, expired);
            let gathered = terminal::accumulate_step(transcript, marker, expired);
            &&& until is Found <==> read && occurs
            &&& until is Wait <==> !(read && occurs) && !expired
            &&& !(read && occurs) && expired ==> until == late
            &&& gathered is Found <==> occurs && !expired
            &&& gathered is Wait <==> !occurs && !expired
            &&& expired ==> gathered == late
        }),
{
}

/// Descriptors are closed at once, or one by one where the call is not known or
/// not understood.
pub proof fn law_closing(rc: i64, fault: Fault, reason: Seq<char>, from: int, to: int)
    requires
        0 <= from,
        to <= 0x7fff_ffff,
    ensures
        ({
            let step = terminal::close_step(rc, fault, reason);
            let known = !(fault is Unknown || fault is Invalid);
            let range = terminal::range(from, to);
            &&& rc == 0 ==> step is Closed
            &&& rc != 0 && !known ==> step is OneByOne
            &&& rc != 0 && known ==> step == CloseModel::Failed(
                ErrorModel::Setup("close_range failed: "@ + reason),
            )
            &&& from < to ==> range.len() == to - from
            &&& from >= to ==> range.len() == 0
            &&& forall|i: int| 0 <= i < range.len() ==> #[trigger] range[i] == from + i
        }),
{
}

/// The descriptor at a position is open.
pub open spec fn open_at(is_open: Seq<bool>) -> spec_fn(int) -> bool {
    |p: int| is_open[p]
}

proof fn lemma_open_fds(is_open: Seq<bool>) -> (at: Seq<int>)
    requires
        is_open.len() + 2 <= 0x7fff_ffff,
    ensures
        positions::lists_positions(at, is_open.len() as int, open_at(is_open)),
        terminal::open_fds(is_open).len() == at.len(),
        forall|i: int| 0 <= i < at.len() ==> #[trigger] terminal::open_fds(is_open)[i] == at[i] + 3,
    decreases is_open.len(),
{
    if is_open.len() == 0 {
        positions::lemma_no_position(open_at(is_open));
        Seq::empty()
    } else {
        let n = is_open.len() - 1;
        let front = is_open.drop_last();
        let before = lemma_open_fds(front);
        assert forall|p: int| 0 <= p < n implies open_at(front)(p) == #[trigger] open_at(is_open)(
            p,
        ) by {
            assert(front[p] == is_open[p]);
        }
        let at = positions::lemma_one_more(before, n, open_at(front), open_at(is_open));
        let all = terminal::open_fds(is_open);
        assert forall|i: int| 0 <= i < at.len() implies #[trigger] all[i] == at[i] + 3 by {
            if i < before.len() {
                assert(at[i] == before[i]);
                assert(all[i] == terminal::open_fds(front)[i]);
            }
        }
        at
    }
}

/// The open descriptors are counted from the first behind the three standard
/// streams, in ascending order.
pub proof fn law_open_fds(is_open: Seq<bool>)
    requires
        is_open.len() + 2 <= 0x7fff_ffff,
    ensures
        exists|at: Seq<int>|
            {
                &&& #[trigger] positions::lists_positions(
                    at,
                    is_open.len() as int,
                    open_at(is_open),
                )
                &&& terminal::open_fds(is_open).len() == at.len()
                &&& forall|i: int|
                    0 <= i < at.len() ==> #[trigger] terminal::open_fds(is_open)[i] == at[i] + 3
            },
{
    let at = lemma_open_fds(is_open);
}

/// Each signal that a job helper tells apart has a line of its own.
pub proof fn law_signal_markers(signal: Option<Signal>)
    ensures
        ({
            let line = terminal::signal_marker(signal);
            &&& signal == Some(Signal::Suspend) ==> line == "tty-job-helper-signal: SIGTSTP\n"@
            &&& signal == Some(Signal::Continue) ==> line == "tty-job-helper-signal: SIGCONT\n"@
            &&& signal == Some(Signal::Resize) ==> line == "tty-job-helper-signal: SIGWINCH\n"@
            &&& signal != Some(Signal::Suspend) && signal != Some(Signal::Continue) && signal
                != Some(Signal::Resize) ==> line == "tty-job-helper-signal: UNKNOWN\n"@
        }),
{
}

} // verus!
