//! Reading from and writing to terminals and file descriptors.
//!
//! The calls themselves are the caller's; what their results lead to is decided
//! here.
use vstd::prelude::*;

use crate::bytes;
use crate::error::{ErrorModel, NonoError};
use crate::text;

verus! {

/// Why a call of the system failed. Systems number the reasons differently.
#[derive(Debug, Clone, Copy, PartialEq, Eq, Structural)]
pub enum Fault {
    /// It was interrupted.
    Interrupted,
    /// The other end of a terminal is gone.
    Gone,
    /// An argument is not understood.
    Invalid,
    /// The call is not known.
    Unknown,
    /// Something else.
    Other,
}

/// A signal. Systems number them differently.
#[derive(Debug, Clone, Copy, PartialEq, Eq, Structural)]
pub enum Signal {
    /// An interrupt was asked for from the terminal.
    Interrupt,
    /// Quit, from the keyboard.
    Quit,
    /// The terminal hung up.
    HangUp,
    /// Ask a process to end.
    Terminate,
    /// A stop was asked for from the terminal.
    Suspend,
    /// A stopped process goes on.
    Continue,
    /// The terminal changed its size.
    Resize,
}

/// The number of the interrupt, which is the same on every Linux system.
pub const SIGINT: i32 = 2;

/// There is something to read.
pub const POLLIN: i16 = 1;

/// The other end hung up.
pub const POLLHUP: i16 = 16;

/// How long to wait for input, in milliseconds, as the system takes it.
pub fn poll_timeout(timeout_ms: u128) -> (r: i32)
    ensures
        r == (if timeout_ms > i32::MAX {
            i32::MAX as int
        } else {
            timeout_ms as int
        }),
{
    if timeout_ms > i32::MAX as u128 {
        i32::MAX
    } else {
        timeout_ms as i32
    }
}

/// What waiting for input came to.
#[derive(Debug, PartialEq, Eq)]
pub enum PollStep {
    Answer(bool),
    Retry,
    Failed(NonoError),
}

/// What such a step stands for.
#[verifier::ext_equal]
pub enum PollModel {
    Answer(bool),
    Retry,
    Failed(ErrorModel),
}

impl View for PollStep {
    type V = PollModel;

    open spec fn view(&self) -> PollModel {
        match self {
            PollStep::Answer(readable) => PollModel::Answer(*readable),
            PollStep::Retry => PollModel::Retry,
            PollStep::Failed(error) => PollModel::Failed(error@),
        }
    }
}

/// Something can be read, or the other end hung up; or time ran out; or the call
/// was interrupted and is made again.
pub open spec fn poll_step(
    rc: i32,
    revents: i16,
    fault: Fault,
    reason: Seq<char>,
) -> PollModel {
    if rc > 0 {
        PollModel::Answer(revents & (POLLIN | POLLHUP) != 0)
    } else if rc == 0 {
        PollModel::Answer(false)
    } else if fault == Fault::Interrupted {
        PollModel::Retry
    } else {
        PollModel::Failed(ErrorModel::Setup("poll failed: "@ + reason))
    }
}

/// Decides what waiting for input came to.
pub fn poll_readable(rc: i32, revents: i16, fault: Fault, reason: &str) -> (r: PollStep)
    ensures
        r@ == poll_step(rc, revents, fault, reason@),
{
    if rc > 0 {
        PollStep::Answer(revents & (POLLIN | POLLHUP) != 0)
    } else if rc == 0 {
        PollStep::Answer(false)
    } else if fault == Fault::Interrupted {
        PollStep::Retry
    } else {
        PollStep::Failed(NonoError::Setup(text::cat2("poll failed: ", reason)))
    }
}

/// What reading came to.
#[derive(Debug, PartialEq, Eq)]
pub enum ReadStep {
    /// So many bytes came.
    Data(usize),
    /// There is no more.
    End,
    Retry,
    Failed(NonoError),
}

/// What such a step stands for.
#[verifier::ext_equal]
pub enum ReadModel {
    Data(int),
    End,
    Retry,
    Failed(ErrorModel),
}

impl View for ReadStep {
    type V = ReadModel;

    open spec fn view(&self) -> ReadModel {
        match self {
            ReadStep::Data(n) => ReadModel::Data(*n as int),
            ReadStep::End => ReadModel::End,
            ReadStep::Retry => ReadModel::Retry,
            ReadStep::Failed(error) => ReadModel::Failed(error@),
        }
    }
}

/// Bytes came; or the stream ended, which a terminal tells by an error too; or
/// the call was interrupted and is made again.
pub open spec fn read_step(n: int, fault: Fault, reason: Seq<char>) -> ReadModel {
    if n > 0 {
        ReadModel::Data(n)
    } else if n == 0 {
        ReadModel::End
    } else if fault == Fault::Interrupted {
        ReadModel::Retry
    } else if fault == Fault::Gone {
        ReadModel::End
    } else {
        ReadModel::Failed(ErrorModel::Setup("PTY read failed: "@ + reason))
    }
}

/// Decides what reading came to.
pub fn read_fd_once(n: isize, fault: Fault, reason: &str) -> (r: ReadStep)
    ensures
        r@ == read_step(n as int, fault, reason@),
{
    if n > 0 {
        ReadStep::Data(n as usize)
    } else if n == 0 {
        ReadStep::End
    } else if fault == Fault::Interrupted {
        ReadStep::Retry
    } else if fault == Fault::Gone {
        ReadStep::End
    } else {
        ReadStep::Failed(NonoError::Setup(text::cat2("PTY read failed: ", reason)))
    }
}

/// What writing came to.
#[derive(Debug, PartialEq, Eq)]
pub enum WriteStep {
    /// So many bytes are still to be written.
    Left(usize),
    Retry,
    Failed(NonoError),
}

/// What such a step stands for.
#[verifier::ext_equal]
pub enum WriteModel {
    Left(int),
    Retry,
    Failed(ErrorModel),
}

impl View for WriteStep {
    type V = WriteModel;

    open spec fn view(&self) -> WriteModel {
        match self {
            WriteStep::Left(n) => WriteModel::Left(*n as int),
            WriteStep::Retry => WriteModel::Retry,
            WriteStep::Failed(error) => WriteModel::Failed(error@),
        }
    }
}

/// Some bytes were written; or the call was interrupted and is made again.
pub open spec fn write_step(
    left: int,
    n: int,
    fault: Fault,
    reason: Seq<char>,
) -> WriteModel {
    if n > 0 {
        WriteModel::Left(left - n)
    } else if fault == Fault::Interrupted {
        WriteModel::Retry
    } else {
        WriteModel::Failed(ErrorModel::Setup("PTY write failed: "@ + reason))
    }
}

/// Decides what writing came to. No call writes more than it was given.
pub fn write_all_fd(left: usize, n: isize, fault: Fault, reason: &str) -> (r: WriteStep)
    requires
        n <= left,
    ensures
        r@ == write_step(left as int, n as int, fault, reason@),
{
    if n > 0 {
        WriteStep::Left(left - n as usize)
    } else if fault == Fault::Interrupted {
        WriteStep::Retry
    } else {
        WriteStep::Failed(NonoError::Setup(text::cat2("PTY write failed: ", reason)))
    }
}

// ---------------------------------------------------------------------------
// Waiting for a marker
// ---------------------------------------------------------------------------

/// What to do while a marker is waited for.
#[derive(Debug, PartialEq, Eq)]
pub enum MarkerStep {
    Found,
    /// Wait for more.
    Wait,
    Failed(NonoError),
}

/// What such a step stands for.
#[verifier::ext_equal]
pub enum MarkerModel {
    Found,
    Wait,
    Failed(ErrorModel),
}

impl View for MarkerStep {
    type V = MarkerModel;

    open spec fn view(&self) -> MarkerModel {
        match self {
            MarkerStep::Found => MarkerModel::Found,
            MarkerStep::Wait => MarkerModel::Wait,
            MarkerStep::Failed(error) => MarkerModel::Failed(error@),
        }
    }
}

/// The error for a marker that did not come.
pub open spec fn marker_timeout(transcript: Seq<u8>, marker: Seq<u8>) -> ErrorModel {
    ErrorModel::Setup(
        "timed out waiting for PTY marker "@ + bytes::lossy(marker) + "; transcript so far: "@ + bytes::lossy(
            transcript,
        ),
    )
}

fn timed_out(transcript: &Vec<u8>, marker: &Vec<u8>) -> (r: NonoError)
    ensures
        r@ == marker_timeout(transcript@, marker@),
{
    NonoError::Setup(
        text::cat4(
            "timed out waiting for PTY marker ",
            bytes::lossy_text(marker.as_slice()).as_str(),
            "; transcript so far: ",
            bytes::lossy_text(transcript.as_slice()).as_str(),
        ),
    )
}

/// A marker is looked for where something new was read; time runs out first.
pub open spec fn until_step(
    transcript: Seq<u8>,
    marker: Seq<u8>,
    read: bool,
    expired: bool,
) -> MarkerModel {
    if read && bytes::occurs(transcript, marker) {
        MarkerModel::Found
    } else if expired {
        MarkerModel::Failed(marker_timeout(transcript, marker))
    } else {
        MarkerModel::Wait
    }
}

/// Decides how to go on while a marker is waited for. `read` says whether
/// something new was just read, and `expired` whether time is up.
pub fn read_fd_until(transcript: &Vec<u8>, marker: &Vec<u8>, read: bool, expired: bool) -> (r:
    MarkerStep)
    ensures
        r@ == until_step(transcript@, marker@, read, expired),
{
    if read && bytes::contains_subslice(transcript.as_slice(), marker.as_slice()) {
        MarkerStep::Found
    } else if expired {
        MarkerStep::Failed(timed_out(transcript, marker))
    } else {
        MarkerStep::Wait
    }
}

/// A marker may stand in what was read before; but time that is up decides
/// first.
pub open spec fn accumulate_step(
    transcript: Seq<u8>,
    marker: Seq<u8>,
    expired: bool,
) -> MarkerModel {
    if expired {
        MarkerModel::Failed(marker_timeout(transcript, marker))
    } else if bytes::occurs(transcript, marker) {
        MarkerModel::Found
    } else {
        MarkerModel::Wait
    }
}

/// Decides how to go on while a marker is waited for in a growing transcript.
pub fn read_fd_until_accumulate(transcript: &Vec<u8>, marker: &Vec<u8>, expired: bool) -> (r:
    MarkerStep)
    ensures
        r@ == accumulate_step(transcript@, marker@, expired),
{
    if expired {
        MarkerStep::Failed(timed_out(transcript, marker))
    } else if bytes::contains_subslice(transcript.as_slice(), marker.as_slice()) {
        MarkerStep::Found
    } else {
        MarkerStep::Wait
    }
}

/// Decides whether to go on reading what is there: not beyond the time allowed,
/// nor after a spell of silence. All times are in milliseconds.
pub fn read_fd_available(elapsed: u128, max_total: u128, silent: u128, quiet_for: u128) -> (r: bool)
    ensures
        r == (elapsed < max_total && silent < quiet_for),
{
    elapsed < max_total && silent < quiet_for
}

// ---------------------------------------------------------------------------
// File descriptors
// ---------------------------------------------------------------------------

/// What closing a range of descriptors came to.
#[derive(Debug, PartialEq, Eq)]
pub enum CloseStep {
    Closed,
    /// The call is not to be had: close them one by one.
    OneByOne,
    Failed(NonoError),
}

/// What such a step stands for.
#[verifier::ext_equal]
pub enum CloseModel {
    Closed,
    OneByOne,
    Failed(ErrorModel),
}

impl View for CloseStep {
    type V = CloseModel;

    open spec fn view(&self) -> CloseModel {
        match self {
            CloseStep::Closed => CloseModel::Closed,
            CloseStep::OneByOne => CloseModel::OneByOne,
            CloseStep::Failed(error) => CloseModel::Failed(error@),
        }
    }
}

/// The call closed them all; or it is not to be had.
pub open spec fn close_step(rc: i64, fault: Fault, reason: Seq<char>) -> CloseModel {
    if rc == 0 {
        CloseModel::Closed
    } else if fault == Fault::Unknown || fault == Fault::Invalid {
        CloseModel::OneByOne
    } else {
        CloseModel::Failed(ErrorModel::Setup("close_range failed: "@ + reason))
    }
}

/// Decides what closing a range of descriptors came to.
pub fn close_fds_from(rc: i64, fault: Fault, reason: &str) -> (r: CloseStep)
    ensures
        r@ == close_step(rc, fault, reason@),
{
    if rc == 0 {
        CloseStep::Closed
    } else if fault == Fault::Unknown || fault == Fault::Invalid {
        CloseStep::OneByOne
    } else {
        CloseStep::Failed(NonoError::Setup(text::cat2("close_range failed: ", reason)))
    }
}

/// The numbers from `from` up to `to`.
pub open spec fn range(from: int, to: int) -> Seq<i32> {
    Seq::new(
        if from < to {
            (to - from) as nat
        } else {
            0
        },
        |i: int| (from + i) as i32,
    )
}

/// Lists the descriptors that are closed one by one.
pub fn close_fds_fallback(first: i32) -> (r: Vec<i32>)
    ensures
        r@ == range(first as int, 1024),
{
    let mut out: Vec<i32> = Vec::new();
    let mut fd = first;
    while fd < 1024
        invariant
            first <= fd,
            fd <= 1024 || fd == first,
            out@ == range(first as int, fd as int),
        decreases 1024 - fd,
    {
        out.push(fd);
        assert(range(first as int, fd + 1) =~= range(first as int, fd as int).push(fd));
        fd = fd + 1;
    }
    assert(range(first as int, fd as int) =~= range(first as int, 1024));
    out
}

/// The open descriptors beyond the standard streams.
pub open spec fn open_fds(is_open: Seq<bool>) -> Seq<i32>
    decreases is_open.len(),
{
    if is_open.len() == 0 {
        Seq::empty()
    } else if is_open.last() {
        open_fds(is_open.drop_last()).push((is_open.len() + 2) as i32)
    } else {
        open_fds(is_open.drop_last())
    }
}

/// Lists the open descriptors beyond the standard streams. `is_open` says, from
/// the first of them on, which are open.
pub fn open_fds_above_stdio(is_open: &Vec<bool>) -> (r: Vec<i32>)
    requires
        is_open@.len() + 2 <= i32::MAX,
    ensures
        r@ == open_fds(is_open@),
{
    let mut out: Vec<i32> = Vec::new();
    assert(out@ =~= open_fds(is_open@.take(0)));
    for i in 0..is_open.len()
        invariant
            is_open@.len() + 2 <= i32::MAX,
            out@ == open_fds(is_open@.take(i as int)),
    {
        assert(is_open@.take(i + 1).drop_last() =~= is_open@.take(i as int));
        if is_open[i] {
            out.push(3 + i as i32);
        }
    }
    assert(is_open@.take(is_open@.len() as int) =~= is_open@);
    out
}

/// The line of a helper that received a signal, if it is a known one.
pub open spec fn signal_marker(signal: Option<Signal>) -> Seq<char> {
    match signal {
        Some(Signal::Suspend) => "tty-job-helper-signal: SIGTSTP\n"@,
        Some(Signal::Continue) => "tty-job-helper-signal: SIGCONT\n"@,
        Some(Signal::Resize) => "tty-job-helper-signal: SIGWINCH\n"@,
        _ => "tty-job-helper-signal: UNKNOWN\n"@,
    }
}

/// Words the line of a helper that received a signal, if it is a known one.
pub fn job_helper_signal(signal: Option<Signal>) -> (r: &'static str)
    ensures
        r@ == signal_marker(signal),
{
    match signal {
        Some(Signal::Suspend) => "tty-job-helper-signal: SIGTSTP\n",
        Some(Signal::Continue) => "tty-job-helper-signal: SIGCONT\n",
        Some(Signal::Resize) => "tty-job-helper-signal: SIGWINCH\n",
        _ => "tty-job-helper-signal: UNKNOWN\n",
    }
}

/// Words which process group has the terminal.
pub fn tcgetpgrp_diagnostic(pgrp: i32, reason: &str) -> (r: String)
    ensures
        r@ == (if pgrp < 0 {
            "error("@ + reason@ + ")"@
        } else {
            text::signed_decimal(pgrp as int)
        }),
{
    if pgrp < 0 {
        text::cat3("error(", reason, ")")
    } else {
        text::signed_decimal_text(pgrp)
    }
}

} // verus!
