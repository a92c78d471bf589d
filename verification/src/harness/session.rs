//! The session, its shim and the supervisor that waits for them.
use vstd::prelude::*;

use crate::error::{ErrorModel, NonoError};
use crate::harness::ipc;
use crate::harness::ipc::{RequestModel, ShimFdRequest, ShimRequest, ShimResponse, ShimStartMessage};
use crate::harness::probe;
use crate::harness::probe::{ProbeExpectation, ProbeModel, ProbeOutcome};
use crate::harness::summary;
use crate::harness::terminal::Signal;
use crate::paths;
use crate::paths::FilePath;
use crate::text;

verus! {

// ---------------------------------------------------------------------------
// Waiting for a shim
// ---------------------------------------------------------------------------

/// What became of looking for a connection.
#[derive(Debug, PartialEq, Eq)]
pub enum Attempt {
    Connected,
    /// Nobody has connected yet.
    Pending,
    Failed(String),
}

/// What became of looking after a child process.
#[derive(Debug, PartialEq, Eq)]
pub enum ChildPoll {
    Running,
    /// The child ended, with this status.
    Ended(String),
    Failed(String),
}

/// What a supervisor that waits for a shim does next.
#[derive(Debug, PartialEq, Eq)]
pub enum AcceptStep {
    Connected,
    /// Rest a moment, and look again.
    Again,
    Failed(NonoError),
}

/// What such a step stands for.
#[verifier::ext_equal]
pub enum AcceptModel {
    Connected,
    Again,
    Failed(ErrorModel),
}

impl View for AcceptStep {
    type V = AcceptModel;

    open spec fn view(&self) -> AcceptModel {
        match self {
            AcceptStep::Connected => AcceptModel::Connected,
            AcceptStep::Again => AcceptModel::Again,
            AcceptStep::Failed(error) => AcceptModel::Failed(error@),
        }
    }
}

/// A child that a shim depends on must keep running until the shim connects.
pub open spec fn watched(child: Seq<char>, shim: Seq<char>, poll: ChildPoll) -> AcceptModel {
    match poll {
        ChildPoll::Running => AcceptModel::Again,
        ChildPoll::Ended(status) => AcceptModel::Failed(
            ErrorModel::Setup(child + " child exited before "@ + shim + " connected: "@ + status@),
        ),
        ChildPoll::Failed(reason) => AcceptModel::Failed(
            ErrorModel::Setup("failed to poll "@ + child + " child: "@ + reason@),
        ),
    }
}

/// One look for a connection, once the time that is left and the attempt are
/// known. `watch` says how the children fare.
pub open spec fn accept_step(
    shim: Seq<char>,
    expired: bool,
    attempt: Attempt,
    watch: AcceptModel,
) -> AcceptModel {
    if expired {
        AcceptModel::Failed(
            ErrorModel::Setup("timed out waiting for "@ + shim + " connection"@),
        )
    } else {
        match attempt {
            Attempt::Connected => AcceptModel::Connected,
            Attempt::Failed(reason) => AcceptModel::Failed(
                ErrorModel::Setup("failed to accept "@ + shim + " connection: "@ + reason@),
            ),
            Attempt::Pending => watch,
        }
    }
}

fn watch_child(child: &str, shim: &str, poll: &ChildPoll) -> (r: AcceptStep)
    ensures
        r@ == watched(child@, shim@, *poll),
{
    match poll {
        ChildPoll::Running => AcceptStep::Again,
        ChildPoll::Ended(status) => AcceptStep::Failed(
            NonoError::Setup(
                text::cat5(
                    child,
                    " child exited before ",
                    shim,
                    " connected: ",
                    status.as_str(),
                ),
            ),
        ),
        ChildPoll::Failed(reason) => AcceptStep::Failed(
            NonoError::Setup(
                text::cat4("failed to poll ", child, " child: ", reason.as_str()),
            ),
        ),
    }
}

fn look_for_connection(shim: &str, expired: bool, attempt: &Attempt, watch: AcceptStep) -> (r:
    AcceptStep)
    ensures
        r@ == accept_step(shim@, expired, *attempt, watch@),
{
    if expired {
        return AcceptStep::Failed(
            NonoError::Setup(text::cat3("timed out waiting for ", shim, " connection")),
        );
    }
    match attempt {
        Attempt::Connected => AcceptStep::Connected,
        Attempt::Failed(reason) => AcceptStep::Failed(
            NonoError::Setup(
                text::cat4("failed to accept ", shim, " connection: ", reason.as_str()),
            ),
        ),
        Attempt::Pending => watch,
    }
}

/// How long a supervisor waits for a shim, in seconds.
pub const ACCEPT_SECONDS: u64 = 10;

/// How long it rests between two looks, in milliseconds.
pub const ACCEPT_REST_MILLIS: u64 = 10;

/// Decides what a supervisor does that waits for the shim of its session. The
/// session is looked after only while nobody has connected.
pub fn accept_shim_connection(expired: bool, attempt: &Attempt, session: &ChildPoll) -> (r:
    AcceptStep)
    ensures
        r@ == accept_step("shim"@, expired, *attempt, watched("session"@, "shim"@, *session)),
{
    look_for_connection("shim", expired, attempt, watch_child("session", "shim", session))
}

/// Session and command must keep running until a chained shim connects.
pub open spec fn both_watched(session: ChildPoll, command: ChildPoll) -> AcceptModel {
    match watched("session"@, "chained shim"@, session) {
        AcceptModel::Again => watched("command"@, "chained shim"@, command),
        ended => ended,
    }
}

/// Decides what a supervisor does that waits for the shim of a chained command.
pub fn accept_shim_connection_with_child(
    expired: bool,
    attempt: &Attempt,
    session: &ChildPoll,
    command: &ChildPoll,
) -> (r: AcceptStep)
    ensures
        r@ == accept_step("chained shim"@, expired, *attempt, both_watched(*session, *command)),
{
    let watch = match watch_child("session", "chained shim", session) {
        AcceptStep::Again => watch_child("command", "chained shim", command),
        ended => ended,
    };
    look_for_connection("chained shim", expired, attempt, watch)
}

/// A supervisor looks again only while there is time and every child runs.
pub proof fn law_waiting_goes_on_only_for_living_children(
    expired: bool,
    attempt: Attempt,
    session: ChildPoll,
    command: ChildPoll,
)
    ensures
        accept_step("chained shim"@, expired, attempt, both_watched(session, command))
            == AcceptModel::Again <==> !expired && attempt is Pending && session is Running
            && command is Running,
{
}

// ---------------------------------------------------------------------------
// Making a shim
// ---------------------------------------------------------------------------

/// Where making a shim can fail.
#[derive(Debug, Clone, Copy, PartialEq, Eq, Structural)]
pub enum ShimStage {
    Copy,
    Stat,
    Permit,
}

/// The permissions of a shim.
pub const SHIM_MODE: u32 = 0o755;

/// The error for a shim that could not be made.
pub open spec fn shim_failure(
    stage: ShimStage,
    source: Seq<u8>,
    shim: Seq<u8>,
    reason: Seq<char>,
) -> ErrorModel {
    ErrorModel::Setup(
        match stage {
            ShimStage::Copy => "failed to materialize shim "@ + paths::shown(shim) + " from "@
                + paths::shown(source) + ": "@ + reason,
            ShimStage::Stat => "failed to stat shim "@ + paths::shown(shim) + ": "@ + reason,
            ShimStage::Permit => "failed to set shim permissions "@ + paths::shown(shim) + ": "@
                + reason,
        },
    )
}

/// Says why a shim could not be made.
pub fn materialize_shim(source: &FilePath, shim_path: &FilePath, stage: ShimStage, reason: &str) -> (r:
    NonoError)
    ensures
        r@ == shim_failure(stage, source@, shim_path@, reason@),
{
    let shim = shim_path.display();
    match stage {
        ShimStage::Copy => NonoError::Setup(
            text::cat6(
                "failed to materialize shim ",
                shim.as_str(),
                " from ",
                source.display().as_str(),
                ": ",
                reason,
            ),
        ),
        ShimStage::Stat => NonoError::Setup(
            text::cat4("failed to stat shim ", shim.as_str(), ": ", reason),
        ),
        ShimStage::Permit => NonoError::Setup(
            text::cat4("failed to set shim permissions ", shim.as_str(), ": ", reason),
        ),
    }
}

// ---------------------------------------------------------------------------
// The session
// ---------------------------------------------------------------------------

/// What a session says of the attempt to run the policy binary directly.
pub open spec fn direct_exec_line(outcome: ProbeModel) -> Seq<char> {
    "topology-session: direct policy exec matched="@ + summary::truth(
        probe::as_expected(ProbeExpectation::Deny, outcome),
    )
}

/// A session goes on only if the policy binary cannot be run directly.
pub open spec fn session_goes_on(outcome: ProbeModel) -> Result<(), ErrorModel> {
    if probe::as_expected(ProbeExpectation::Deny, outcome) {
        Ok(())
    } else {
        Err(
            ErrorModel::Setup("direct policy exec was not denied: "@ + probe::outcome_text(outcome)),
        )
    }
}

/// What a session decides once it has tried to run the policy binary.
#[derive(Debug, PartialEq, Eq)]
pub struct SessionDecision {
    /// What it prints.
    pub line: String,
    /// Whether it starts its shim.
    pub verdict: Result<(), NonoError>,
    /// The signals that it ignores before it does.
    pub ignored: Vec<Signal>,
}

/// A session on a terminal leaves the terminal's signals to its command.
pub open spec fn ignored_signals(helper: Option<Seq<char>>) -> Seq<Signal> {
    if helper == Some("tty-helper"@) || helper == Some("tty-job-helper"@) {
        seq![Signal::Interrupt, Signal::Quit, Signal::Suspend]
    } else {
        Seq::empty()
    }
}

/// Decides how a session goes on once it has tried to run the policy binary.
pub fn run_topology_session(policy: &FilePath, outcome: ProbeOutcome, helper: Option<&str>) -> (r:
    SessionDecision)
    ensures
        r.line@ == direct_exec_line(outcome@),
        crate::error::result_view(r.verdict) == session_goes_on(outcome@),
        r.ignored@ == ignored_signals(
            match helper {
                Some(helper) => Some(helper@),
                None => None,
            },
        ),
{
    let words = probe::outcome_words(&outcome);
    let tried = probe::run_probe(policy, ProbeExpectation::Deny, outcome);
    let line = text::cat2(
        "topology-session: direct policy exec matched=",
        summary::truth_text(tried.matched),
    );
    let verdict: Result<(), NonoError> = if tried.matched {
        Ok(())
    } else {
        Err(
            NonoError::Setup(
                text::cat2("direct policy exec was not denied: ", words.as_str()),
            ),
        )
    };
    let mut ignored: Vec<Signal> = Vec::new();
    if let Some(helper) = helper {
        if text::text_eq(helper, "tty-helper") || text::text_eq(helper, "tty-job-helper") {
            ignored.push(Signal::Interrupt);
            ignored.push(Signal::Quit);
            ignored.push(Signal::Suspend);
        }
    }
    SessionDecision { line, verdict, ignored }
}

/// A session never goes on where the policy binary ran.
pub proof fn law_session_needs_the_denial(outcome: ProbeModel)
    ensures
        outcome is Exited ==> session_goes_on(outcome) is Err,
        outcome is SpawnDenied ==> session_goes_on(outcome) is Ok,
{
}

/// Says why the shim of a session could not be started.
pub fn shim_not_started(shim: &FilePath, reason: &str) -> (r: NonoError)
    ensures
        r@ == ErrorModel::Setup(
            "failed to spawn shim "@ + paths::shown(shim@) + ": "@ + reason@,
        ),
{
    NonoError::Setup(
        text::cat4("failed to spawn shim ", shim.display().as_str(), ": ", reason),
    )
}

// ---------------------------------------------------------------------------
// The shim
// ---------------------------------------------------------------------------

/// How far a shim has come.
#[derive(Debug, PartialEq, Eq)]
pub enum ShimPhase {
    Connect,
    SendRequest(ShimRequest),
    ReadFdRequest,
    SendStdio,
    ReadStart,
    /// Pass signals on to this process.
    Forward(i32),
    ReadResponse,
    /// Print a line, if there is one, and exit.
    Exit { complaint: Option<String>, code: i32 },
    Failed(NonoError),
}

/// What a phase stands for.
#[verifier::ext_equal]
pub enum ShimModel {
    Connect,
    SendRequest(RequestModel),
    ReadFdRequest,
    SendStdio,
    ReadStart,
    Forward(i32),
    ReadResponse,
    Exit { complaint: Option<Seq<char>>, code: i32 },
    Failed(ErrorModel),
}

impl View for ShimPhase {
    type V = ShimModel;

    open spec fn view(&self) -> ShimModel {
        match self {
            ShimPhase::Connect => ShimModel::Connect,
            ShimPhase::SendRequest(request) => ShimModel::SendRequest(request@),
            ShimPhase::ReadFdRequest => ShimModel::ReadFdRequest,
            ShimPhase::SendStdio => ShimModel::SendStdio,
            ShimPhase::ReadStart => ShimModel::ReadStart,
            ShimPhase::Forward(pid) => ShimModel::Forward(*pid),
            ShimPhase::ReadResponse => ShimModel::ReadResponse,
            ShimPhase::Exit { complaint, code } => ShimModel::Exit {
                complaint: text::opt_text(*complaint),
                code: *code,
            },
            ShimPhase::Failed(error) => ShimModel::Failed(error@),
        }
    }
}

/// What happens to a shim.
#[derive(Debug, PartialEq, Eq)]
pub enum ShimEvent {
    /// What the phase asked for was done.
    Done,
    /// The connection could not be made, for this reason.
    NotConnected(String),
    FdRequest(ShimFdRequest),
    Start(ShimStartMessage),
    Response(ShimResponse),
    /// What the phase asked for was refused.
    Refused(NonoError),
}

/// What the supervisor says why nothing runs.
pub open spec fn spawn_complaint(reason: Seq<char>) -> ShimModel {
    ShimModel::Exit {
        complaint: Some("topology-shim: supervisor spawn error: "@ + reason),
        code: 126,
    }
}

/// The next phase of a shim. An event that the phase does not wait for changes
/// nothing.
pub open spec fn shim_next(
    phase: ShimModel,
    event: ShimEvent,
    socket: Seq<u8>,
    policy: Seq<u8>,
    helper: Option<Seq<char>>,
) -> ShimModel {
    match (phase, event) {
        (ShimModel::Exit { .. }, _) => phase,
        (ShimModel::Failed(_), _) => phase,
        (_, ShimEvent::Refused(error)) => ShimModel::Failed(error@),
        (ShimModel::Connect, ShimEvent::Done) => ShimModel::SendRequest(
            RequestModel { command: paths::shown(policy), helper_role: helper },
        ),
        (ShimModel::Connect, ShimEvent::NotConnected(reason)) => ShimModel::Failed(
            ErrorModel::Setup(
                "shim failed to connect to supervisor socket "@ + paths::shown(socket) + ": "@
                    + reason@,
            ),
        ),
        (ShimModel::SendRequest(_), ShimEvent::Done) => ShimModel::ReadFdRequest,
        (ShimModel::ReadFdRequest, ShimEvent::FdRequest(request)) => if request.send_stdio_fds {
            ShimModel::SendStdio
        } else {
            ShimModel::Failed(
                ErrorModel::Setup("supervisor did not request stdio fd handoff"@),
            )
        },
        (ShimModel::SendStdio, ShimEvent::Done) => ShimModel::ReadStart,
        (ShimModel::ReadStart, ShimEvent::Start(start)) => match (
            start.spawn_error,
            start.grandchild_pid,
        ) {
            (Some(reason), _) => spawn_complaint(reason@),
            (None, Some(pid)) => ShimModel::Forward(pid),
            (None, None) => ShimModel::Failed(
                ErrorModel::Setup("supervisor start message omitted grandchild pid"@),
            ),
        },
        (ShimModel::Forward(_), ShimEvent::Done) => ShimModel::ReadResponse,
        (ShimModel::ReadResponse, ShimEvent::Response(response)) => match response.spawn_error {
            Some(reason) => spawn_complaint(reason@),
            None => ShimModel::Exit {
                complaint: None,
                code: ipc::shim_exit_code(response@),
            },
        },
        _ => phase,
    }
}

fn complain(reason: &str) -> (r: ShimPhase)
    ensures
        r@ == spawn_complaint(reason@),
{
    ShimPhase::Exit {
        complaint: Some(text::cat2("topology-shim: supervisor spawn error: ", reason)),
        code: 126,
    }
}

/// Advances a shim by what happened to it. It starts with the wish to connect.
pub fn run_shim_client(
    phase: ShimPhase,
    event: ShimEvent,
    socket: &FilePath,
    policy: &FilePath,
    helper_role: &Option<String>,
) -> (r: ShimPhase)
    ensures
        r@ == shim_next(phase@, event, socket@, policy@, text::opt_text(*helper_role)),
{
    match (phase, event) {
        (ShimPhase::Exit { complaint, code }, _) => ShimPhase::Exit { complaint, code },
        (ShimPhase::Failed(error), _) => ShimPhase::Failed(error),
        (_, ShimEvent::Refused(error)) => ShimPhase::Failed(error),
        (ShimPhase::Connect, ShimEvent::Done) => ShimPhase::SendRequest(
            ShimRequest {
                command: policy.display(),
                helper_role: text::copy_opt_text(helper_role),
            },
        ),
        (ShimPhase::Connect, ShimEvent::NotConnected(reason)) => ShimPhase::Failed(
            NonoError::Setup(
                text::cat4(
                    "shim failed to connect to supervisor socket ",
                    socket.display().as_str(),
                    ": ",
                    reason.as_str(),
                ),
            ),
        ),
        (ShimPhase::SendRequest(_), ShimEvent::Done) => ShimPhase::ReadFdRequest,
        (ShimPhase::ReadFdRequest, ShimEvent::FdRequest(request)) => if request.send_stdio_fds {
            ShimPhase::SendStdio
        } else {
            ShimPhase::Failed(
                NonoError::Setup("supervisor did not request stdio fd handoff".to_owned()),
            )
        },
        (ShimPhase::SendStdio, ShimEvent::Done) => ShimPhase::ReadStart,
        (ShimPhase::ReadStart, ShimEvent::Start(start)) => match (
            start.spawn_error,
            start.grandchild_pid,
        ) {
            (Some(reason), _) => complain(reason.as_str()),
            (None, Some(pid)) => ShimPhase::Forward(pid),
            (None, None) => ShimPhase::Failed(
                NonoError::Setup("supervisor start message omitted grandchild pid".to_owned()),
            ),
        },
        (ShimPhase::Forward(_), ShimEvent::Done) => ShimPhase::ReadResponse,
        (ShimPhase::ReadResponse, ShimEvent::Response(response)) => {
            let code: i32 = ipc::exit_code_for(&response);
            match response.spawn_error {
                Some(reason) => complain(reason.as_str()),
                None => ShimPhase::Exit { complaint: None, code },
            }
        },
        (phase, _) => phase,
    }
}

/// A shim hands its standard streams over only when it was asked to.
pub proof fn law_streams_are_given_on_request(
    phase: ShimModel,
    event: ShimEvent,
    socket: Seq<u8>,
    policy: Seq<u8>,
    helper: Option<Seq<char>>,
)
    requires
        !(phase is SendStdio),
        shim_next(phase, event, socket, policy, helper) is SendStdio,
    ensures
        event matches ShimEvent::FdRequest(request) && request.send_stdio_fds,
{
}

/// The signals that a shim passes on to its command.
pub fn install_signal_forwarders() -> (r: Vec<Signal>)
    ensures
        r@ == seq![
            Signal::Interrupt,
            Signal::Terminate,
            Signal::HangUp,
            Signal::Quit,
            Signal::Suspend,
            Signal::Continue,
            Signal::Resize,
        ],
{
    let mut out: Vec<Signal> = Vec::new();
    out.push(Signal::Interrupt);
    out.push(Signal::Terminate);
    out.push(Signal::HangUp);
    out.push(Signal::Quit);
    out.push(Signal::Suspend);
    out.push(Signal::Continue);
    out.push(Signal::Resize);
    out
}

/// A signal goes only to a process that is known.
pub fn forward_signal(pid: i32) -> (r: bool)
    ensures
        r == (pid > 0),
{
    pid > 0
}

// ---------------------------------------------------------------------------
// The launcher of a command
// ---------------------------------------------------------------------------

/// What the launcher of a command does, in this order.
#[derive(Debug, Clone, Copy, PartialEq, Eq, Structural)]
pub enum LaunchStep {
    /// Take the standard streams as the controlling terminal.
    TakeTerminal,
    /// Apply the sandbox of the command.
    Restrict,
    /// Leave a descriptor open that must not reach the command.
    OpenStray,
    /// Close every descriptor beyond the standard streams.
    CloseStrays,
    /// Become the command.
    Execute,
}

/// The steps of a launcher. Strays are closed only after the last step that
/// could leave one.
pub open spec fn launch_steps(command_pty: bool) -> Seq<LaunchStep> {
    (if command_pty {
        seq![LaunchStep::TakeTerminal]
    } else {
        Seq::empty()
    }) + seq![
        LaunchStep::Restrict,
        LaunchStep::OpenStray,
        LaunchStep::CloseStrays,
        LaunchStep::Execute,
    ]
}

/// Lists the steps of a launcher.
pub fn run_topology_command(command_pty: bool) -> (r: Vec<LaunchStep>)
    ensures
        r@ == launch_steps(command_pty),
{
    let mut out: Vec<LaunchStep> = Vec::new();
    if command_pty {
        out.push(LaunchStep::TakeTerminal);
    }
    out.push(LaunchStep::Restrict);
    out.push(LaunchStep::OpenStray);
    out.push(LaunchStep::CloseStrays);
    out.push(LaunchStep::Execute);
    assert(out@ =~= launch_steps(command_pty));
    out
}

/// A command runs only inside its sandbox, and without stray descriptors.
pub proof fn law_commands_are_contained(command_pty: bool)
    ensures
        launch_steps(command_pty).last() == LaunchStep::Execute,
        forall|i: int|
            0 <= i < launch_steps(command_pty).len() && launch_steps(command_pty)[i]
                == LaunchStep::Execute ==> launch_steps(command_pty).take(i).contains(
                LaunchStep::Restrict,
            ) && launch_steps(command_pty).take(i).last() == LaunchStep::CloseStrays,
{
    let steps = launch_steps(command_pty);
    let last = steps.len() - 1;
    assert forall|i: int| 0 <= i < steps.len() && steps[i] == LaunchStep::Execute implies steps.take(
        i,
    ).contains(LaunchStep::Restrict) && steps.take(i).last() == LaunchStep::CloseStrays by {
        assert(i == last);
        assert(steps.take(i)[last - 3] == LaunchStep::Restrict);
    }
}

} // verus!
