//! Messages between a shim and its supervisor: one line each.
use vstd::prelude::*;

use crate::bytes;
use crate::error::{ErrorModel, NonoError};
use crate::harness::probe;
use crate::text;

verus! {

// ---------------------------------------------------------------------------
// Messages
// ---------------------------------------------------------------------------

/// A shim asks for its command to be run.
#[derive(Debug, PartialEq, Eq)]
pub struct ShimRequest {
    pub command: String,
    pub helper_role: Option<String>,
}

/// What a request stands for.
#[verifier::ext_equal]
pub struct RequestModel {
    pub command: Seq<char>,
    pub helper_role: Option<Seq<char>>,
}

impl View for ShimRequest {
    type V = RequestModel;

    open spec fn view(&self) -> RequestModel {
        RequestModel { command: self.command@, helper_role: text::opt_text(self.helper_role) }
    }
}

/// The supervisor asks for the shim's standard streams.
#[derive(Debug, Clone, Copy, PartialEq, Eq, Structural)]
pub struct ShimFdRequest {
    pub send_stdio_fds: bool,
}

/// The supervisor says that the command runs, or why it does not.
#[derive(Debug, PartialEq, Eq)]
pub struct ShimStartMessage {
    pub grandchild_pid: Option<i32>,
    pub spawn_error: Option<String>,
}

/// What a start message stands for.
#[verifier::ext_equal]
pub struct StartModel {
    pub grandchild_pid: Option<i32>,
    pub spawn_error: Option<Seq<char>>,
}

impl View for ShimStartMessage {
    type V = StartModel;

    open spec fn view(&self) -> StartModel {
        StartModel {
            grandchild_pid: self.grandchild_pid,
            spawn_error: text::opt_text(self.spawn_error),
        }
    }
}

/// The supervisor says how the command ended.
#[derive(Debug, PartialEq, Eq)]
pub struct ShimResponse {
    pub exit_code: Option<i32>,
    pub signal: Option<i32>,
    pub spawn_error: Option<String>,
}

/// What a response stands for.
#[verifier::ext_equal]
pub struct ResponseModel {
    pub exit_code: Option<i32>,
    pub signal: Option<i32>,
    pub spawn_error: Option<Seq<char>>,
}

impl View for ShimResponse {
    type V = ResponseModel;

    open spec fn view(&self) -> ResponseModel {
        ResponseModel {
            exit_code: self.exit_code,
            signal: self.signal,
            spawn_error: text::opt_text(self.spawn_error),
        }
    }
}

impl Clone for ShimResponse {
    fn clone(&self) -> (r: Self)
        ensures
            r@ == self@,
    {
        ShimResponse {
            exit_code: self.exit_code,
            signal: self.signal,
            spawn_error: text::copy_opt_text(&self.spawn_error),
        }
    }
}

/// The response for a command that never ran.
pub open spec fn not_spawned(reason: Seq<char>) -> ResponseModel {
    ResponseModel { exit_code: None, signal: None, spawn_error: Some(reason) }
}

/// How a response is written for debugging.
pub open spec fn response_text(response: ResponseModel) -> Seq<char> {
    "ShimResponse { exit_code: "@ + probe::option_number(response.exit_code) + ", signal: "@
        + probe::option_number(response.signal) + ", spawn_error: "@ + (
    match response.spawn_error {
        Some(reason) => "Some("@ + text::debug_text(reason) + ")"@,
        None => "None"@,
    }) + " }"@
}

/// Writes a response for debugging.
pub fn response_words(response: &ShimResponse) -> (r: String)
    ensures
        r@ == response_text(response@),
{
    let reason = match &response.spawn_error {
        Some(reason) => text::cat3("Some(", text::quoted(reason.as_str()).as_str(), ")"),
        None => "None".to_owned(),
    };
    text::cat7(
        "ShimResponse { exit_code: ",
        probe::option_number_text(response.exit_code).as_str(),
        ", signal: ",
        probe::option_number_text(response.signal).as_str(),
        ", spawn_error: ",
        reason.as_str(),
        " }",
    )
}

// ---------------------------------------------------------------------------
// Lines
// ---------------------------------------------------------------------------

/// Ends a message.
pub const NEWLINE: u8 = 10;

/// The longest message.
pub const MAX_LINE: usize = 1048576;

/// The bytes that carry a message.
pub open spec fn framed(message: Seq<char>) -> Seq<u8> {
    vstd::utf8::encode_utf8(message).push(NEWLINE)
}

/// Makes the bytes that carry a message.
pub fn write_json_line(message: &str) -> (r: Vec<u8>)
    ensures
        r@ == framed(message@),
{
    let mut line = bytes::copy_bytes(message.as_bytes());
    line.push(NEWLINE);
    line
}

/// What a stream gives.
#[derive(Debug, PartialEq, Eq)]
pub enum StreamEvent {
    Byte(u8),
    Closed,
    Failed(String),
}

/// What such an event stands for.
#[verifier::ext_equal]
pub enum StreamModel {
    Byte(u8),
    Closed,
    Failed(Seq<char>),
}

impl View for StreamEvent {
    type V = StreamModel;

    open spec fn view(&self) -> StreamModel {
        match self {
            StreamEvent::Byte(b) => StreamModel::Byte(*b),
            StreamEvent::Closed => StreamModel::Closed,
            StreamEvent::Failed(reason) => StreamModel::Failed(reason@),
        }
    }
}

/// How far a line has been read.
#[derive(Debug, PartialEq, Eq)]
pub enum LineState {
    /// So far.
    Reading(Vec<u8>),
    /// To its end.
    Complete(Vec<u8>),
    Failed(NonoError),
}

/// What such a state stands for.
#[verifier::ext_equal]
pub enum LineModel {
    Reading(Seq<u8>),
    Complete(Seq<u8>),
    Failed(ErrorModel),
}

impl View for LineState {
    type V = LineModel;

    open spec fn view(&self) -> LineModel {
        match self {
            LineState::Reading(line) => LineModel::Reading(line@),
            LineState::Complete(line) => LineModel::Complete(line@),
            LineState::Failed(error) => LineModel::Failed(error@),
        }
    }
}

/// The state after an event. What has ended stays ended.
pub open spec fn line_next(state: LineModel, event: StreamModel) -> LineModel {
    match state {
        LineModel::Reading(line) => match event {
            StreamModel::Failed(reason) => LineModel::Failed(
                ErrorModel::Setup("failed to read IPC message: "@ + reason),
            ),
            StreamModel::Closed => LineModel::Failed(
                ErrorModel::Setup("IPC stream closed before newline"@),
            ),
            StreamModel::Byte(b) => if b == NEWLINE {
                LineModel::Complete(line)
            } else if line.len() + 1 > MAX_LINE {
                LineModel::Failed(ErrorModel::Setup("IPC message exceeded 1 MiB"@))
            } else {
                LineModel::Reading(line.push(b))
            },
        },
        ended => ended,
    }
}

/// Takes the reading of a line one event further.
pub fn read_json_line(state: LineState, event: StreamEvent) -> (r: LineState)
    ensures
        r@ == line_next(state@, event@),
{
    match state {
        LineState::Reading(line) => match event {
            StreamEvent::Failed(reason) => LineState::Failed(
                NonoError::Setup(text::cat2("failed to read IPC message: ", reason.as_str())),
            ),
            StreamEvent::Closed => LineState::Failed(
                NonoError::Setup("IPC stream closed before newline".to_owned()),
            ),
            StreamEvent::Byte(b) => {
                if b == NEWLINE {
                    return LineState::Complete(line);
                }
                if line.len() >= MAX_LINE {
                    return LineState::Failed(
                        NonoError::Setup("IPC message exceeded 1 MiB".to_owned()),
                    );
                }
                let mut longer = line;
                longer.push(b);
                LineState::Reading(longer)
            },
        },
        ended => ended,
    }
}

/// The state after bytes.
pub open spec fn line_after(state: LineModel, given: Seq<u8>) -> LineModel
    decreases given.len(),
{
    if given.len() == 0 {
        state
    } else {
        line_next(line_after(state, given.drop_last()), StreamModel::Byte(given.last()))
    }
}

proof fn lemma_bytes_gather(given: Seq<u8>)
    requires
        !given.contains(NEWLINE),
        given.len() <= MAX_LINE,
    ensures
        line_after(LineModel::Reading(Seq::empty()), given) == LineModel::Reading(given),
    decreases given.len(),
{
    if given.len() > 0 {
        let front = given.drop_last();
        assert(!front.contains(NEWLINE)) by {
            if front.contains(NEWLINE) {
                let i = front.index_of(NEWLINE);
                assert(given[i] == NEWLINE);
            }
        }
        assert(given.last() != NEWLINE) by {
            if given.last() == NEWLINE {
                assert(given[given.len() - 1] == NEWLINE);
            }
        }
        lemma_bytes_gather(front);
        assert(front.push(given.last()) =~= given);
    } else {
        assert(given =~= Seq::empty());
    }
}

/// Reading gives back what was written: a message on one line, of at most the
/// greatest length, arrives whole and ends exactly with its last byte.
pub proof fn law_messages_arrive(message: Seq<char>)
    requires
        !vstd::utf8::encode_utf8(message).contains(NEWLINE),
        vstd::utf8::encode_utf8(message).len() <= MAX_LINE,
    ensures
        line_after(LineModel::Reading(Seq::empty()), framed(message)) == LineModel::Complete(
            vstd::utf8::encode_utf8(message),
        ),
        forall|k: int|
            0 <= k < framed(message).len() ==> #[trigger] line_after(
                LineModel::Reading(Seq::empty()),
                framed(message).take(k),
            ) is Reading,
{
    let payload = vstd::utf8::encode_utf8(message);
    let line = framed(message);
    assert(line.drop_last() =~= payload);
    lemma_bytes_gather(payload);
    assert forall|k: int| 0 <= k < line.len() implies #[trigger] line_after(
        LineModel::Reading(Seq::empty()),
        line.take(k),
    ) is Reading by {
        let part = line.take(k);
        assert(part =~= payload.take(k));
        assert(!part.contains(NEWLINE)) by {
            if part.contains(NEWLINE) {
                let i = part.index_of(NEWLINE);
                assert(payload[i] == NEWLINE);
            }
        }
        lemma_bytes_gather(part);
    }
}

/// A message that is too long is refused, whatever follows.
pub proof fn law_long_messages_are_refused(given: Seq<u8>)
    requires
        given.len() > MAX_LINE,
        !given.take(MAX_LINE + 1).contains(NEWLINE),
    ensures
        line_after(LineModel::Reading(Seq::empty()), given) is Failed,
    decreases given.len(),
{
    let front = given.drop_last();
    if front.len() > MAX_LINE {
        assert(front.take(MAX_LINE + 1) =~= given.take(MAX_LINE + 1));
        law_long_messages_are_refused(front);
    } else {
        assert(front =~= given.take(MAX_LINE as int));
        assert(!front.contains(NEWLINE)) by {
            if front.contains(NEWLINE) {
                let i = front.index_of(NEWLINE);
                assert(given.take(MAX_LINE + 1)[i] == NEWLINE);
            }
        }
        lemma_bytes_gather(front);
        assert(given.take(MAX_LINE + 1)[MAX_LINE as int] == given.last());
        assert(given.last() != NEWLINE);
    }
}

// ---------------------------------------------------------------------------
// How a command ended
// ---------------------------------------------------------------------------

/// How a process ended.
#[derive(Debug, Clone, Copy, PartialEq, Eq, Structural)]
pub struct ExitFacts {
    pub code: Option<i32>,
    pub signal: Option<i32>,
}

/// The response for a process that ended.
pub open spec fn ended(status: ExitFacts) -> ResponseModel {
    ResponseModel { exit_code: status.code, signal: status.signal, spawn_error: None }
}

/// Makes the response for a process that ended.
pub fn status_to_response(status: ExitFacts) -> (r: ShimResponse)
    ensures
        r@ == ended(status),
{
    ShimResponse { exit_code: status.code, signal: status.signal, spawn_error: None }
}

/// Makes the response for a command that never ran.
pub fn spawn_failure(reason: String) -> (r: ShimResponse)
    ensures
        r@ == not_spawned(reason@),
{
    ShimResponse { exit_code: None, signal: None, spawn_error: Some(reason) }
}

/// Makes the response for a command that was waited for.
pub fn wait_supervised_command(status: Result<ExitFacts, String>) -> (r: ShimResponse)
    ensures
        r@ == (match status {
            Ok(status) => ended(status),
            Err(reason) => not_spawned(reason@),
        }),
{
    match status {
        Ok(status) => status_to_response(status),
        Err(reason) => spawn_failure(reason),
    }
}

/// What to do while a command is waited for.
#[derive(Debug, PartialEq, Eq)]
pub enum WaitStep {
    /// It is over.
    Done(ShimResponse),
    /// Wait a little longer.
    Sleep,
    /// It took too long: end it, and say so.
    Kill(ShimResponse),
}

/// What such a step stands for.
#[verifier::ext_equal]
pub enum WaitModel {
    Done(ResponseModel),
    Sleep,
    Kill(ResponseModel),
}

impl View for WaitStep {
    type V = WaitModel;

    open spec fn view(&self) -> WaitModel {
        match self {
            WaitStep::Done(response) => WaitModel::Done(response@),
            WaitStep::Sleep => WaitModel::Sleep,
            WaitStep::Kill(response) => WaitModel::Kill(response@),
        }
    }
}

/// What a look at a running command leads to.
pub open spec fn wait_step(
    poll: Result<Option<ExitFacts>, Seq<char>>,
    expired: bool,
    timeout_ms: u128,
) -> WaitModel {
    match poll {
        Ok(Some(status)) => WaitModel::Done(ended(status)),
        Ok(None) => if expired {
            WaitModel::Kill(
                not_spawned(
                    "command child timed out after "@ + text::decimal(timeout_ms as nat)
                        + " ms"@,
                ),
            )
        } else {
            WaitModel::Sleep
        },
        Err(reason) => WaitModel::Done(not_spawned(reason)),
    }
}

/// Decides what a look at a running command leads to. `expired` says whether its
/// time is up.
pub fn wait_supervised_command_timeout(
    poll: Result<Option<ExitFacts>, String>,
    expired: bool,
    timeout_ms: u128,
) -> (r: WaitStep)
    ensures
        r@ == wait_step(
            match poll {
                Ok(status) => Ok(status),
                Err(reason) => Err(reason@),
            },
            expired,
            timeout_ms,
        ),
{
    match poll {
        Ok(Some(status)) => WaitStep::Done(status_to_response(status)),
        Ok(None) => if expired {
            WaitStep::Kill(
                spawn_failure(
                    text::cat3(
                        "command child timed out after ",
                        text::decimal_text(timeout_ms).as_str(),
                        " ms",
                    ),
                ),
            )
        } else {
            WaitStep::Sleep
        },
        Err(reason) => WaitStep::Done(spawn_failure(reason)),
    }
}

/// The exit code that a shim passes on: refusal to start, death by a signal, or
/// the command's own.
pub open spec fn shim_exit_code(response: ResponseModel) -> i32 {
    if response.spawn_error is Some {
        126
    } else {
        match response.signal {
            Some(signal) => if 128 + signal > i32::MAX {
                i32::MAX
            } else {
                (128 + signal) as i32
            },
            None => match response.exit_code {
                Some(code) => code,
                None => 1,
            },
        }
    }
}

/// Computes the exit code that a shim passes on.
pub fn exit_code_for(response: &ShimResponse) -> (r: i32)
    ensures
        r == shim_exit_code(response@),
{
    if response.spawn_error.is_some() {
        return 126;
    }
    match response.signal {
        Some(signal) => if signal > i32::MAX - 128 {
            i32::MAX
        } else {
            128 + signal
        },
        None => match response.exit_code {
            Some(code) => code,
            None => 1,
        },
    }
}

/// A shim reports success only for a command that ran and exited with success.
/// Signals are numbered from one.
pub proof fn law_shim_success_is_command_success(response: ResponseModel)
    requires
        response.signal matches Some(signal) ==> signal > 0,
    ensures
        shim_exit_code(response) == 0 <==> response.spawn_error is None && response.signal is None
            && response.exit_code == Some(0i32),
{
}

} // verus!
