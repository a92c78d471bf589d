//! Smoke tests: runs in which a supervisor, a sandboxed session and its shim
//! play together.
//!
//! A run is a script of steps. The caller carries a step out and hands back what
//! came of it; the run says what to do next, and at the end what to make of it.
use vstd::prelude::*;

use crate::harness::ipc::{RequestModel, ResponseModel, ShimRequest, ShimResponse};
use crate::harness::process::{AuthModel, FlagsModel, ScanFlags, TopologyAuth};
use crate::harness::FileId;
use crate::paths::FilePath;
use crate::text;

pub mod laws;
pub mod outcome_laws;
pub mod report;
pub mod run;
pub mod script;
pub mod steps;

verus! {

/// The smoke tests.
#[derive(Debug, Clone, Copy, PartialEq, Eq, Structural)]
pub enum Smoke {
    TtySignal,
    JobControl,
    ChainCredential,
    CommandPty,
    Topology,
}

/// The commands of a run: the one that the session asks for, and the one that
/// this one asks for in turn.
#[derive(Debug, Clone, Copy, PartialEq, Eq, Structural)]
pub enum Link {
    First,
    Chained,
}

/// The directories of a run.
#[derive(Debug, Clone, Copy, PartialEq, Eq, Structural)]
pub enum Dir {
    /// Holds the sockets, and the shim of a single command.
    Work,
    /// Holds the sockets of chained commands.
    Sockets,
    /// Holds the binaries of chained commands.
    Binaries,
    /// Holds the shims of chained commands.
    Shims,
    /// Holds the key that must stay out of reach.
    Keys,
}

/// The streams of a session.
#[derive(Debug, Clone, Copy, PartialEq, Eq, Structural)]
pub enum Pipe {
    Stdin,
    Stdout,
    Stderr,
}

/// What a run waits for on its terminal.
#[derive(Debug, Clone, Copy, PartialEq, Eq, Structural)]
pub enum Marker {
    Ready,
    Resized,
    Suspended,
    Continued,
}

/// Keys that a run presses on its terminal.
#[derive(Debug, Clone, Copy, PartialEq, Eq, Structural)]
pub enum Key {
    Interrupt,
    Suspend,
}

/// A step of a run.
#[derive(Debug, Clone, Copy, PartialEq, Eq, Structural)]
pub enum Step {
    FindExecutable,
    FindPolicy,
    MakeDir(Dir),
    PlaceBinary(Link),
    PlaceShim,
    LinkShim,
    StatShim,
    StatLinkedShim,
    WriteKey,
    BindAgent,
    BindSupervisor,
    MakeNonblocking,
    OpenTerminal,
    OpenSlaves,
    SpawnSession,
    Capture(Pipe),
    FeedSession,
    Accept(Link),
    Authenticate(Link),
    ReadRequest(Link),
    CheckAncestry,
    AskForStdio(Link),
    ReceiveStdio(Link),
    SpawnCommand(Link),
    SendStart(Link),
    Await(Marker),
    Resize,
    Press(Key),
    Resume,
    Drain,
    CopyTranscript,
    WaitCommand(Link),
    SendResponse(Link),
    WaitSession,
    Join(Pipe),
}

/// What a run knows of one of its commands. What it does not know yet is empty.
#[derive(Debug, PartialEq, Eq)]
pub struct Command {
    pub auth: TopologyAuth,
    pub request: ShimRequest,
    pub pid: i32,
    pub response: ShimResponse,
}

/// What such knowledge stands for.
#[verifier::ext_equal]
pub struct CommandModel {
    pub auth: AuthModel,
    pub request: RequestModel,
    pub pid: i32,
    pub response: ResponseModel,
}

impl View for Command {
    type V = CommandModel;

    open spec fn view(&self) -> CommandModel {
        CommandModel {
            auth: self.auth@,
            request: self.request@,
            pid: self.pid,
            response: self.response@,
        }
    }
}

/// What a run is about, and what it has learnt. What it has not learnt yet is
/// empty.
#[derive(Debug, PartialEq, Eq)]
pub struct Facts {
    pub smoke: Smoke,
    /// The paths that the user gave to scan.
    pub flags: ScanFlags,
    /// The policy binary that the user gave.
    pub requested: FilePath,
    /// The helper that the user's run asks for.
    pub helper: Option<String>,
    /// What the session gets to read.
    pub payload: Option<Vec<u8>>,
    /// Where the supervisor looks for commands.
    pub search_path: String,
    pub executable: FilePath,
    pub policy: FilePath,
    /// The directory that holds the sockets.
    pub work_dir: FilePath,
    pub binary_dir: FilePath,
    pub shim_dir: FilePath,
    pub key_dir: FilePath,
    pub shim: FilePath,
    pub shim_id: FileId,
    pub first: Command,
    pub chained: Command,
    /// The chained shim descends from the first command.
    pub related: bool,
    /// Why the first command never ran, where that is part of the result.
    pub spawn_error: Option<String>,
    pub transcript: Vec<u8>,
    pub session_success: bool,
    pub session_status: String,
    pub stdout: Vec<u8>,
    pub stderr: Vec<u8>,
}

/// What the facts of a run stand for.
#[verifier::ext_equal]
pub struct FactsModel {
    pub smoke: Smoke,
    pub flags: FlagsModel,
    pub requested: Seq<u8>,
    pub helper: Option<Seq<char>>,
    pub payload: Option<Seq<u8>>,
    pub search_path: Seq<char>,
    pub executable: Seq<u8>,
    pub policy: Seq<u8>,
    pub work_dir: Seq<u8>,
    pub binary_dir: Seq<u8>,
    pub shim_dir: Seq<u8>,
    pub key_dir: Seq<u8>,
    pub shim: Seq<u8>,
    pub shim_id: FileId,
    pub first: CommandModel,
    pub chained: CommandModel,
    pub related: bool,
    pub spawn_error: Option<Seq<char>>,
    pub transcript: Seq<u8>,
    pub session_success: bool,
    pub session_status: Seq<char>,
    pub stdout: Seq<u8>,
    pub stderr: Seq<u8>,
}

/// Optional bytes as what they hold.
pub open spec fn opt_bytes(value: Option<Vec<u8>>) -> Option<Seq<u8>> {
    match value {
        Some(bytes) => Some(bytes@),
        None => None,
    }
}

impl View for Facts {
    type V = FactsModel;

    open spec fn view(&self) -> FactsModel {
        FactsModel {
            smoke: self.smoke,
            flags: self.flags@,
            requested: self.requested@,
            helper: text::opt_text(self.helper),
            payload: opt_bytes(self.payload),
            search_path: self.search_path@,
            executable: self.executable@,
            policy: self.policy@,
            work_dir: self.work_dir@,
            binary_dir: self.binary_dir@,
            shim_dir: self.shim_dir@,
            key_dir: self.key_dir@,
            shim: self.shim@,
            shim_id: self.shim_id,
            first: self.first@,
            chained: self.chained@,
            related: self.related,
            spawn_error: text::opt_text(self.spawn_error),
            transcript: self.transcript@,
            session_success: self.session_success,
            session_status: self.session_status@,
            stdout: self.stdout@,
            stderr: self.stderr@,
        }
    }
}

/// The command of a link.
pub open spec fn command_of(facts: FactsModel, link: Link) -> CommandModel {
    match link {
        Link::First => facts.first,
        Link::Chained => facts.chained,
    }
}

/// A path that is not known yet.
pub open spec fn unknown_path() -> Seq<u8> {
    Seq::empty()
}

/// A command of which nothing is known yet.
pub open spec fn unknown_command() -> CommandModel {
    CommandModel {
        auth: AuthModel {
            peer_pid: 0,
            peer_uid: 0,
            peer_gid: 0,
            peer_exe: unknown_path(),
            peer_id: FileId { dev: 0, ino: 0 },
        },
        request: RequestModel { command: ""@, helper_role: None },
        pid: 0,
        response: ResponseModel { exit_code: None, signal: None, spawn_error: None },
    }
}

/// What is known before a run starts.
pub open spec fn initial_facts(
    smoke: Smoke,
    flags: FlagsModel,
    requested: Seq<u8>,
    helper: Option<Seq<char>>,
    payload: Option<Seq<u8>>,
    search_path: Seq<char>,
) -> FactsModel {
    FactsModel {
        smoke,
        flags,
        requested,
        helper,
        payload,
        search_path,
        executable: unknown_path(),
        policy: unknown_path(),
        work_dir: unknown_path(),
        binary_dir: unknown_path(),
        shim_dir: unknown_path(),
        key_dir: unknown_path(),
        shim: unknown_path(),
        shim_id: FileId { dev: 0, ino: 0 },
        first: unknown_command(),
        chained: unknown_command(),
        related: false,
        spawn_error: None,
        transcript: Seq::empty(),
        session_success: false,
        session_status: ""@,
        stdout: Seq::empty(),
        stderr: Seq::empty(),
    }
}

pub(crate) fn no_path() -> (r: FilePath)
    ensures
        r@ == unknown_path(),
{
    let r = FilePath { bytes: Vec::new() };
    assert(r@ =~= unknown_path());
    r
}

fn no_command() -> (r: Command)
    ensures
        r@ == unknown_command(),
{
    Command {
        auth: TopologyAuth {
            peer_pid: 0,
            peer_uid: 0,
            peer_gid: 0,
            peer_exe: no_path(),
            peer_id: FileId { dev: 0, ino: 0 },
        },
        request: ShimRequest { command: "".to_owned(), helper_role: None },
        pid: 0,
        response: ShimResponse { exit_code: None, signal: None, spawn_error: None },
    }
}

impl Facts {
    /// What is known before a run starts.
    pub fn new(
        smoke: Smoke,
        flags: ScanFlags,
        requested: FilePath,
        helper: Option<String>,
        payload: Option<Vec<u8>>,
        search_path: String,
    ) -> (r: Facts)
        ensures
            r@ == initial_facts(
                smoke,
                flags@,
                requested@,
                text::opt_text(helper),
                opt_bytes(payload),
                search_path@,
            ),
    {
        let r = Facts {
            smoke,
            flags,
            requested,
            helper,
            payload,
            search_path,
            executable: no_path(),
            policy: no_path(),
            work_dir: no_path(),
            binary_dir: no_path(),
            shim_dir: no_path(),
            key_dir: no_path(),
            shim: no_path(),
            shim_id: FileId { dev: 0, ino: 0 },
            first: no_command(),
            chained: no_command(),
            related: false,
            spawn_error: None,
            transcript: Vec::new(),
            session_success: false,
            session_status: "".to_owned(),
            stdout: Vec::new(),
            stderr: Vec::new(),
        };
        assert(r@.transcript =~= Seq::empty());
        assert(r@.stdout =~= Seq::empty());
        assert(r@.stderr =~= Seq::empty());
        r
    }
}

} // verus!
