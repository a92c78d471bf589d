//! What each step of a smoke test asks for, and what comes of it.
use vstd::prelude::*;

use crate::bytes;
use crate::error::{ErrorModel, NonoError};
use crate::harness::ipc::{
    RequestModel, ResponseModel, ShimRequest, ShimResponse, ShimStartMessage, StartModel,
};
use crate::harness::process;
use crate::harness::process::{EnvVar, PeerCredentials};
use crate::harness::smoke;
use crate::harness::smoke::{
    Command, Dir, Facts, FactsModel, Key, Link, Marker, Pipe, Smoke, Step,
};
use crate::harness::terminal::Signal;
use crate::harness::FileId;
use crate::paths;
use crate::paths::FilePath;
use crate::text;

verus! {

// ---------------------------------------------------------------------------
// Where things are
// ---------------------------------------------------------------------------

/// A file in a directory.
pub open spec fn file_in(dir: Seq<u8>, name: Seq<char>) -> Seq<u8> {
    paths::joined_path(dir, vstd::utf8::encode_utf8(name))
}

/// Names a file in a directory.
pub fn place_in(dir: &FilePath, name: &str) -> (r: FilePath)
    ensures
        r@ == file_in(dir@, name@),
{
    dir.join(&FilePath::from_text(name))
}

/// Where the supervisor listens.
pub open spec fn socket_path(facts: FactsModel) -> Seq<u8> {
    file_in(facts.work_dir, "supervisor.sock"@)
}

/// Where the credentials' agent listens.
pub open spec fn agent_path(facts: FactsModel) -> Seq<u8> {
    file_in(facts.work_dir, "ssh-agent.sock"@)
}

/// The binary of a command.
pub open spec fn binary_path(facts: FactsModel, link: Link) -> Seq<u8> {
    match link {
        Link::First => facts.policy,
        Link::Chained => file_in(facts.binary_dir, "ssh-real"@),
    }
}

/// The shim of the chained command.
pub open spec fn linked_shim_path(facts: FactsModel) -> Seq<u8> {
    file_in(facts.shim_dir, "ssh"@)
}

/// The key that must stay out of reach.
pub open spec fn key_path(facts: FactsModel) -> Seq<u8> {
    file_in(facts.key_dir, "id_rsa"@)
}

impl Facts {
    /// Where the supervisor listens.
    pub fn socket_path(&self) -> (r: FilePath)
        ensures
            r@ == socket_path(self@),
    {
        place_in(&self.work_dir, "supervisor.sock")
    }

    /// Where the credentials' agent listens.
    pub fn agent_path(&self) -> (r: FilePath)
        ensures
            r@ == agent_path(self@),
    {
        place_in(&self.work_dir, "ssh-agent.sock")
    }

    /// The binary of a command.
    pub fn binary_path(&self, link: Link) -> (r: FilePath)
        ensures
            r@ == binary_path(self@, link),
    {
        match link {
            Link::First => self.policy.clone(),
            Link::Chained => place_in(&self.binary_dir, "ssh-real"),
        }
    }

    /// The shim of the chained command.
    pub fn linked_shim_path(&self) -> (r: FilePath)
        ensures
            r@ == linked_shim_path(self@),
    {
        place_in(&self.shim_dir, "ssh")
    }

    /// The key that must stay out of reach.
    pub fn key_path(&self) -> (r: FilePath)
        ensures
            r@ == key_path(self@),
    {
        place_in(&self.key_dir, "id_rsa")
    }
}

// ---------------------------------------------------------------------------
// What a step asks for
// ---------------------------------------------------------------------------

/// What the caller is to do.
#[derive(Debug, PartialEq, Eq)]
pub enum Action {
    /// Find the executable of this process.
    FindExecutable,
    /// Make the path of a file canonical.
    Canonicalize(FilePath),
    /// Make a directory that goes away with the run.
    MakeDir,
    /// Make an executable copy.
    Place { from: FilePath, to: FilePath },
    /// Give a file a second name.
    HardLink { from: FilePath, to: FilePath },
    /// Look up which file a path names.
    Stat(FilePath),
    Write { path: FilePath, content: Vec<u8> },
    /// Listen on a socket; `supervisor` tells the supervisor's from others.
    Bind { path: FilePath, supervisor: bool },
    MakeNonblocking,
    OpenTerminal,
    /// Open the other side of the terminal, once for each standard stream.
    OpenSlaves,
    /// Start this program again. `terminal` says that it gets the terminal, and
    /// makes it its own; `fed`, that its input is a pipe.
    SpawnSession { argv: Vec<FilePath>, terminal: bool, fed: bool },
    /// Take a pipe of the session, and read it if it is an output.
    Capture(Pipe),
    Feed(Vec<u8>),
    /// Wait for the shim of a command.
    Accept(Link),
    /// Find out who connected.
    Authenticate(Link),
    ReadRequest(Link),
    /// Find out whether a process descends from another.
    CheckAncestry { pid: i32, ancestor: i32 },
    AskForStdio(Link),
    ReceiveStdio(Link),
    /// Start this program again, as the launcher of a command. `terminal` says
    /// that it gets the terminal in place of the shim's streams.
    SpawnCommand { link: Link, argv: Vec<FilePath>, env: Vec<EnvVar>, terminal: bool },
    SendStart { link: Link, start: ShimStartMessage },
    /// Read the terminal until something is there. `whole` says that what was
    /// read before counts too.
    Await { marker: Vec<u8>, seconds: u64, whole: bool },
    Resize { rows: u16, cols: u16 },
    Press(u8),
    Signal { pid: i32, signal: Signal },
    /// Read the terminal until it is quiet.
    Drain { quiet_millis: u64, max_millis: u64 },
    /// Pass on what was read, on the shim's output.
    CopyTranscript,
    /// Wait for a command, for some seconds or as long as it takes.
    WaitCommand { link: Link, limit: Option<u64> },
    SendResponse { link: Link, response: ShimResponse },
    WaitSession,
    /// Take what was read from a pipe.
    Join(Pipe),
}

/// The helper that a session asks for.
pub open spec fn helper_name(smoke: Smoke) -> Seq<char> {
    match smoke {
        Smoke::TtySignal => "tty-helper"@,
        Smoke::JobControl => "tty-job-helper"@,
        Smoke::CommandPty => "command-pty-helper"@,
        _ => "chain-git-helper"@,
    }
}

fn helper_of(smoke: Smoke) -> (r: &'static str)
    ensures
        r@ == helper_name(smoke),
{
    match smoke {
        Smoke::TtySignal => "tty-helper",
        Smoke::JobControl => "tty-job-helper",
        Smoke::CommandPty => "command-pty-helper",
        _ => "chain-git-helper",
    }
}

/// The arguments of the session.
pub open spec fn session_args(facts: FactsModel) -> Seq<Seq<u8>> {
    let socket = socket_path(facts);
    match facts.smoke {
        Smoke::ChainCredential => process::chain_session_args(
            socket,
            facts.policy,
            facts.shim,
            binary_path(facts, Link::Chained),
            facts.binary_dir,
            facts.flags,
        ),
        Smoke::Topology => process::plain_session_args(
            socket,
            facts.policy,
            facts.shim,
            facts.helper,
            facts.flags,
        ),
        _ => process::helper_session_args(
            socket,
            facts.policy,
            facts.shim,
            helper_name(facts.smoke),
            facts.flags,
        ),
    }
}

/// The arguments of the launcher of a command.
pub open spec fn launcher_args(facts: FactsModel, link: Link) -> Seq<Seq<u8>> {
    let chain = facts.smoke == Smoke::ChainCredential;
    process::command_args(
        binary_path(facts, link),
        smoke::command_of(facts, link).request.helper_role,
        if chain {
            Some(socket_path(facts))
        } else {
            None
        },
        if chain {
            Some(facts.shim_dir)
        } else {
            None
        },
        facts.smoke == Smoke::CommandPty,
    )
}

/// What the launcher of a command finds in its environment, besides what it
/// inherits.
pub open spec fn launcher_env(facts: FactsModel) -> Seq<process::EnvModel> {
    if facts.smoke == Smoke::ChainCredential {
        process::chained_env(
            facts.shim_dir,
            socket_path(facts),
            binary_path(facts, Link::Chained),
            key_path(facts),
            agent_path(facts),
            facts.search_path,
        )
    } else {
        Seq::empty()
    }
}

/// What the helper writes on the terminal.
pub open spec fn marker_text(smoke: Smoke, marker: Marker) -> Seq<char> {
    match marker {
        Marker::Ready => match smoke {
            Smoke::JobControl => "tty-job-helper-ready"@,
            Smoke::CommandPty => "command-pty-helper-ready"@,
            _ => "tty-helper-ready"@,
        },
        Marker::Resized => "tty-job-helper-signal: SIGWINCH"@,
        Marker::Suspended => "tty-job-helper-signal: SIGTSTP"@,
        Marker::Continued => "tty-job-helper-signal: SIGCONT"@,
    }
}

/// Spells what the helper writes on the terminal.
pub fn marker_words(smoke: Smoke, marker: Marker) -> (r: &'static str)
    ensures
        r@ == marker_text(smoke, marker),
{
    match marker {
        Marker::Ready => match smoke {
            Smoke::JobControl => "tty-job-helper-ready",
            Smoke::CommandPty => "command-pty-helper-ready",
            _ => "tty-helper-ready",
        },
        Marker::Resized => "tty-job-helper-signal: SIGWINCH",
        Marker::Suspended => "tty-job-helper-signal: SIGTSTP",
        Marker::Continued => "tty-job-helper-signal: SIGCONT",
    }
}

/// The message that a command started, or why it did not.
pub open spec fn start_message(facts: FactsModel, link: Link) -> StartModel {
    match (link, facts.spawn_error) {
        (Link::First, Some(reason)) => StartModel { grandchild_pid: None, spawn_error: Some(reason) },
        _ => StartModel {
            grandchild_pid: Some(smoke::command_of(facts, link).pid),
            spawn_error: None,
        },
    }
}

/// The key that a run leaves where no command may read it.
pub open spec fn raw_key() -> Seq<u8> {
    vstd::utf8::encode_utf8("not-a-real-private-key\n"@)
}

/// The action that a step asks for, with what is known.
pub open spec fn asks(action: Action, facts: FactsModel, step: Step) -> bool {
    match step {
        Step::FindExecutable => action is FindExecutable,
        Step::FindPolicy => action matches Action::Canonicalize(path) && path@ == (
        if facts.smoke == Smoke::Topology {
            facts.requested
        } else {
            facts.executable
        }),
        Step::MakeDir(_) => action is MakeDir,
        Step::PlaceBinary(link) => action matches Action::Place { from, to } && from@
            == facts.executable && to@ == binary_path(facts, link),
        Step::PlaceShim => action matches Action::Place { from, to } && from@ == facts.executable
            && to@ == facts.shim,
        Step::LinkShim => action matches Action::HardLink { from, to } && from@ == facts.shim && to@
            == linked_shim_path(facts),
        Step::StatShim => action matches Action::Stat(path) && path@ == facts.shim,
        Step::StatLinkedShim => action matches Action::Stat(path) && path@ == linked_shim_path(
            facts,
        ),
        Step::WriteKey => action matches Action::Write { path, content } && path@ == key_path(facts)
            && content@ == raw_key(),
        Step::BindAgent => action matches Action::Bind { path, supervisor } && path@ == agent_path(
            facts,
        ) && !supervisor,
        Step::BindSupervisor => action matches Action::Bind { path, supervisor } && path@
            == socket_path(facts) && supervisor,
        Step::MakeNonblocking => action is MakeNonblocking,
        Step::OpenTerminal => action is OpenTerminal,
        Step::OpenSlaves => action is OpenSlaves,
        Step::SpawnSession => action matches Action::SpawnSession { argv, terminal, fed }
            && text::views(argv@) == session_args(facts) && terminal == (facts.smoke
            == Smoke::TtySignal || facts.smoke == Smoke::JobControl) && fed == (facts.smoke
            == Smoke::Topology && facts.payload is Some),
        Step::Capture(pipe) => action == Action::Capture(pipe),
        Step::FeedSession => action matches Action::Feed(content) && content@ == (
        match facts.payload {
            Some(payload) => payload,
            None => Seq::empty(),
        }),
        Step::Accept(link) => action == Action::Accept(link),
        Step::Authenticate(link) => action == Action::Authenticate(link),
        Step::ReadRequest(link) => action == Action::ReadRequest(link),
        Step::CheckAncestry => action == (Action::CheckAncestry {
            pid: facts.chained.auth.peer_pid,
            ancestor: facts.first.pid,
        }),
        Step::AskForStdio(link) => action == Action::AskForStdio(link),
        Step::ReceiveStdio(link) => action == Action::ReceiveStdio(link),
        Step::SpawnCommand(link) => action matches Action::SpawnCommand {
            link: asked,
            argv,
            env,
            terminal,
        } && asked == link && text::views(argv@) == launcher_args(facts, link) && text::views(env@)
            == launcher_env(facts) && terminal == (facts.smoke == Smoke::CommandPty),
        Step::SendStart(link) => action matches Action::SendStart { link: asked, start } && asked
            == link && start@ == start_message(facts, link),
        Step::Await(marker) => action matches Action::Await { marker: wanted, seconds, whole }
            && wanted@ == vstd::utf8::encode_utf8(marker_text(facts.smoke, marker)) && seconds == (
        if marker == Marker::Ready {
            10
        } else {
            5int
        }) && whole == (facts.smoke == Smoke::JobControl),
        Step::Resize => action == (Action::Resize { rows: 41, cols: 101 }),
        Step::Press(key) => action == Action::Press(
            match key {
                Key::Interrupt => 3,
                Key::Suspend => 26,
            },
        ),
        Step::Resume => action == (Action::Signal {
            pid: facts.first.auth.peer_pid,
            signal: Signal::Continue,
        }),
        Step::Drain => action == (if facts.smoke == Smoke::CommandPty {
            Action::Drain { quiet_millis: 50, max_millis: 500 }
        } else {
            Action::Drain { quiet_millis: 250, max_millis: 2000 }
        }),
        Step::CopyTranscript => action is CopyTranscript,
        Step::WaitCommand(link) => action == (Action::WaitCommand {
            link,
            limit: if facts.smoke == Smoke::ChainCredential || facts.smoke == Smoke::Topology {
                None
            } else {
                Some(5)
            },
        }),
        Step::SendResponse(link) => action matches Action::SendResponse { link: asked, response }
            && asked == link && response@ == smoke::command_of(facts, link).response,
        Step::WaitSession => action is WaitSession,
        Step::Join(pipe) => action == Action::Join(pipe),
    }
}

fn session_argv(facts: &Facts) -> (r: Vec<FilePath>)
    ensures
        text::views(r@) == session_args(facts@),
{
    let socket = facts.socket_path();
    match facts.smoke {
        Smoke::ChainCredential => process::chain_session_argv(
            &socket,
            &facts.policy,
            &facts.shim,
            &facts.binary_path(Link::Chained),
            &facts.binary_dir,
            &facts.flags,
        ),
        Smoke::Topology => match &facts.helper {
            Some(helper) => process::plain_session_argv(
                &socket,
                &facts.policy,
                &facts.shim,
                Some(helper.as_str()),
                &facts.flags,
            ),
            None => process::plain_session_argv(
                &socket,
                &facts.policy,
                &facts.shim,
                None,
                &facts.flags,
            ),
        },
        smoke => process::helper_session_argv(
            &socket,
            &facts.policy,
            &facts.shim,
            helper_of(smoke),
            &facts.flags,
        ),
    }
}

impl Facts {
    /// What is known of the command of a link.
    pub fn command(&self, link: Link) -> (r: &Command)
        ensures
            r@ == smoke::command_of(self@, link),
    {
        match link {
            Link::First => &self.first,
            Link::Chained => &self.chained,
        }
    }
}

fn launcher_argv(facts: &Facts, link: Link) -> (r: Vec<FilePath>)
    ensures
        text::views(r@) == launcher_args(facts@, link),
{
    let binary = facts.binary_path(link);
    let helper: Option<&str> = match &facts.command(link).request.helper_role {
        Some(helper) => Some(helper.as_str()),
        None => None,
    };
    match facts.smoke {
        Smoke::ChainCredential => {
            let socket = facts.socket_path();
            process::spawn_supervised_command_with_context(
                &binary,
                helper,
                Some(&socket),
                Some(&facts.shim_dir),
                false,
            )
        },
        Smoke::CommandPty => process::spawn_supervised_command_with_context(
            &binary,
            helper,
            None,
            None,
            true,
        ),
        _ => process::spawn_supervised_command_with_context(&binary, helper, None, None, false),
    }
}

fn launcher_envs(facts: &Facts) -> (r: Vec<EnvVar>)
    ensures
        text::views(r@) == launcher_env(facts@),
{
    match facts.smoke {
        Smoke::ChainCredential => process::chain_env(
            &facts.shim_dir,
            &facts.socket_path(),
            &facts.binary_path(Link::Chained),
            &facts.key_path(),
            &facts.agent_path(),
            facts.search_path.as_str(),
        ),
        _ => {
            let none: Vec<EnvVar> = Vec::new();
            assert(text::views(none@) =~= Seq::empty());
            none
        },
    }
}

fn start_of(facts: &Facts, link: Link) -> (r: ShimStartMessage)
    ensures
        r@ == start_message(facts@, link),
{
    match (link, &facts.spawn_error) {
        (Link::First, Some(reason)) => ShimStartMessage {
            grandchild_pid: None,
            spawn_error: Some(reason.clone()),
        },
        _ => ShimStartMessage {
            grandchild_pid: Some(facts.command(link).pid),
            spawn_error: None,
        },
    }
}

/// Says what a step asks for.
pub fn action_for(facts: &Facts, step: Step) -> (r: Action)
    ensures
        asks(r, facts@, step),
{
    match step {
        Step::FindExecutable => Action::FindExecutable,
        Step::FindPolicy => match facts.smoke {
            Smoke::Topology => Action::Canonicalize(facts.requested.clone()),
            _ => Action::Canonicalize(facts.executable.clone()),
        },
        Step::MakeDir(_) => Action::MakeDir,
        Step::PlaceBinary(link) => Action::Place {
            from: facts.executable.clone(),
            to: facts.binary_path(link),
        },
        Step::PlaceShim => Action::Place {
            from: facts.executable.clone(),
            to: facts.shim.clone(),
        },
        Step::LinkShim => Action::HardLink {
            from: facts.shim.clone(),
            to: facts.linked_shim_path(),
        },
        Step::StatShim => Action::Stat(facts.shim.clone()),
        Step::StatLinkedShim => Action::Stat(facts.linked_shim_path()),
        Step::WriteKey => Action::Write {
            path: facts.key_path(),
            content: bytes::copy_bytes("not-a-real-private-key\n".as_bytes()),
        },
        Step::BindAgent => Action::Bind { path: facts.agent_path(), supervisor: false },
        Step::BindSupervisor => Action::Bind { path: facts.socket_path(), supervisor: true },
        Step::MakeNonblocking => Action::MakeNonblocking,
        Step::OpenTerminal => Action::OpenTerminal,
        Step::OpenSlaves => Action::OpenSlaves,
        Step::SpawnSession => Action::SpawnSession {
            argv: session_argv(facts),
            terminal: facts.smoke == Smoke::TtySignal || facts.smoke == Smoke::JobControl,
            fed: facts.smoke == Smoke::Topology && facts.payload.is_some(),
        },
        Step::Capture(pipe) => Action::Capture(pipe),
        Step::FeedSession => match &facts.payload {
            Some(payload) => Action::Feed(bytes::copy_bytes(payload.as_slice())),
            None => {
                let none: Vec<u8> = Vec::new();
                assert(none@ =~= Seq::empty());
                Action::Feed(none)
            },
        },
        Step::Accept(link) => Action::Accept(link),
        Step::Authenticate(link) => Action::Authenticate(link),
        Step::ReadRequest(link) => Action::ReadRequest(link),
        Step::CheckAncestry => Action::CheckAncestry {
            pid: facts.chained.auth.peer_pid,
            ancestor: facts.first.pid,
        },
        Step::AskForStdio(link) => Action::AskForStdio(link),
        Step::ReceiveStdio(link) => Action::ReceiveStdio(link),
        Step::SpawnCommand(link) => Action::SpawnCommand {
            link,
            argv: launcher_argv(facts, link),
            env: launcher_envs(facts),
            terminal: facts.smoke == Smoke::CommandPty,
        },
        Step::SendStart(link) => Action::SendStart { link, start: start_of(facts, link) },
        Step::Await(marker) => Action::Await {
            marker: bytes::copy_bytes(marker_words(facts.smoke, marker).as_bytes()),
            seconds: if marker == Marker::Ready {
                10
            } else {
                5
            },
            whole: facts.smoke == Smoke::JobControl,
        },
        Step::Resize => Action::Resize { rows: 41, cols: 101 },
        Step::Press(key) => match key {
            Key::Interrupt => Action::Press(3),
            Key::Suspend => Action::Press(26),
        },
        Step::Resume => Action::Signal {
            pid: facts.first.auth.peer_pid,
            signal: Signal::Continue,
        },
        Step::Drain => match facts.smoke {
            Smoke::CommandPty => Action::Drain { quiet_millis: 50, max_millis: 500 },
            _ => Action::Drain { quiet_millis: 250, max_millis: 2000 },
        },
        Step::CopyTranscript => Action::CopyTranscript,
        Step::WaitCommand(link) => match facts.smoke {
            Smoke::ChainCredential => Action::WaitCommand { link, limit: None },
            Smoke::Topology => Action::WaitCommand { link, limit: None },
            _ => Action::WaitCommand { link, limit: Some(5) },
        },
        Step::SendResponse(link) => Action::SendResponse {
            link,
            response: facts.command(link).response.clone(),
        },
        Step::WaitSession => Action::WaitSession,
        Step::Join(pipe) => Action::Join(pipe),
    }
}

// ---------------------------------------------------------------------------
// What comes of a step
// ---------------------------------------------------------------------------

/// What came of a step.
#[derive(Debug, PartialEq, Eq)]
pub enum Reply {
    Done,
    Path(FilePath),
    Identity(FileId),
    /// Who connected, where its executable lies, and which file that is.
    Peer {
        credentials: Result<PeerCredentials, String>,
        exe: Result<FilePath, String>,
        id: Result<FileId, String>,
    },
    Request(ShimRequest),
    /// Whether the one process descends from the other.
    Related(bool),
    /// A command runs, under this identifier.
    Started(u32),
    /// A command ended.
    Ended(ShimResponse),
    /// What was read.
    Read(Vec<u8>),
    /// The session ended, with this status.
    SessionEnded { success: bool, status: String },
    /// The operating system refused, for this reason.
    Failed(String),
    /// The step was refused.
    Refused(NonoError),
}

/// What a reply stands for.
#[verifier::ext_equal]
pub enum ReplyModel {
    Done,
    Path(Seq<u8>),
    Identity(FileId),
    Peer {
        credentials: Result<PeerCredentials, Seq<char>>,
        exe: Result<Seq<u8>, Seq<char>>,
        id: Result<FileId, Seq<char>>,
    },
    Request(RequestModel),
    Related(bool),
    Started(u32),
    Ended(ResponseModel),
    Read(Seq<u8>),
    SessionEnded { success: bool, status: Seq<char> },
    Failed(Seq<char>),
    Refused(ErrorModel),
}

impl View for Reply {
    type V = ReplyModel;

    open spec fn view(&self) -> ReplyModel {
        match self {
            Reply::Done => ReplyModel::Done,
            Reply::Path(path) => ReplyModel::Path(path@),
            Reply::Identity(id) => ReplyModel::Identity(*id),
            Reply::Peer { credentials, exe, id } => ReplyModel::Peer {
                credentials: process::plain_reply(*credentials),
                exe: process::reply_view(*exe),
                id: process::plain_reply(*id),
            },
            Reply::Request(request) => ReplyModel::Request(request@),
            Reply::Related(related) => ReplyModel::Related(*related),
            Reply::Started(id) => ReplyModel::Started(*id),
            Reply::Ended(response) => ReplyModel::Ended(response@),
            Reply::Read(content) => ReplyModel::Read(content@),
            Reply::SessionEnded { success, status } => ReplyModel::SessionEnded {
                success: *success,
                status: status@,
            },
            Reply::Failed(reason) => ReplyModel::Failed(reason@),
            Reply::Refused(error) => ReplyModel::Refused(error@),
        }
    }
}

/// The name of a pipe.
pub open spec fn pipe_name(pipe: Pipe) -> Seq<char> {
    match pipe {
        Pipe::Stdin => "stdin"@,
        Pipe::Stdout => "stdout"@,
        Pipe::Stderr => "stderr"@,
    }
}

fn name_of(pipe: Pipe) -> (r: &'static str)
    ensures
        r@ == pipe_name(pipe),
{
    match pipe {
        Pipe::Stdin => "stdin",
        Pipe::Stdout => "stdout",
        Pipe::Stderr => "stderr",
    }
}

/// What a directory is for, as an error puts it.
pub open spec fn dir_purpose(dir: Dir) -> Seq<char> {
    match dir {
        Dir::Work => "temp dir"@,
        Dir::Sockets => "socket temp dir"@,
        Dir::Binaries => "real temp dir"@,
        Dir::Shims => "shim temp dir"@,
        Dir::Keys => "raw-key temp dir"@,
    }
}

fn purpose_of(dir: Dir) -> (r: &'static str)
    ensures
        r@ == dir_purpose(dir),
{
    match dir {
        Dir::Work => "temp dir",
        Dir::Sockets => "socket temp dir",
        Dir::Binaries => "real temp dir",
        Dir::Shims => "shim temp dir",
        Dir::Keys => "raw-key temp dir",
    }
}

/// What a command is called in errors.
pub open spec fn command_label(smoke: Smoke, link: Link) -> Seq<char> {
    match (smoke, link) {
        (Smoke::ChainCredential, Link::First) => "git command"@,
        (Smoke::ChainCredential, Link::Chained) => "ssh command"@,
        _ => "command"@,
    }
}

fn label_of(smoke: Smoke, link: Link) -> (r: &'static str)
    ensures
        r@ == command_label(smoke, link),
{
    match (smoke, link) {
        (Smoke::ChainCredential, Link::First) => "git command",
        (Smoke::ChainCredential, Link::Chained) => "ssh command",
        _ => "command",
    }
}

/// What is said of a step that the operating system refused.
pub open spec fn failure_text(facts: FactsModel, step: Step, reason: Seq<char>) -> Seq<char> {
    match step {
        Step::FindExecutable => "failed to locate current executable: "@ + reason,
        Step::MakeDir(dir) => "failed to create "@ + dir_purpose(dir) + ": "@ + reason,
        Step::LinkShim => "failed to hard-link ssh shim "@ + paths::shown(linked_shim_path(facts))
            + " -> "@ + paths::shown(facts.shim) + ": "@ + reason,
        Step::StatShim => "failed to stat trusted shim "@ + paths::shown(facts.shim) + ": "@
            + reason,
        Step::StatLinkedShim => "failed to stat ssh shim "@ + paths::shown(linked_shim_path(facts))
            + ": "@ + reason,
        Step::WriteKey => "failed to write raw key "@ + paths::shown(key_path(facts)) + ": "@
            + reason,
        Step::BindAgent => "failed to bind fake ssh-agent socket "@ + paths::shown(agent_path(facts))
            + ": "@ + reason,
        Step::BindSupervisor => "failed to bind supervisor socket "@ + paths::shown(
            socket_path(facts),
        ) + ": "@ + reason,
        Step::MakeNonblocking => "failed to make supervisor socket nonblocking: "@ + reason,
        Step::SpawnSession => "failed to spawn session child: "@ + reason,
        Step::Capture(pipe) => "failed to capture session "@ + pipe_name(pipe) + " pipe"@,
        Step::FeedSession => "failed to write session stdin proof payload: "@ + reason,
        Step::ReceiveStdio(_) => if facts.smoke == Smoke::ChainCredential || facts.smoke
            == Smoke::CommandPty {
            reason
        } else {
            "failed to receive stdio fds: "@ + reason
        },
        Step::SpawnCommand(link) => "failed to spawn "@ + command_label(facts.smoke, link)
            + " child: "@ + reason,
        Step::WaitSession => "failed to wait for session child: "@ + reason,
        _ => reason,
    }
}

/// Says what is said of a step that the operating system refused.
pub fn failure_words(facts: &Facts, step: Step, reason: &str) -> (r: String)
    ensures
        r@ == failure_text(facts@, step, reason@),
{
    match step {
        Step::FindExecutable => text::cat2("failed to locate current executable: ", reason),
        Step::MakeDir(dir) => text::cat4("failed to create ", purpose_of(dir), ": ", reason),
        Step::LinkShim => text::cat6(
            "failed to hard-link ssh shim ",
            facts.linked_shim_path().display().as_str(),
            " -> ",
            facts.shim.display().as_str(),
            ": ",
            reason,
        ),
        Step::StatShim => text::cat4(
            "failed to stat trusted shim ",
            facts.shim.display().as_str(),
            ": ",
            reason,
        ),
        Step::StatLinkedShim => text::cat4(
            "failed to stat ssh shim ",
            facts.linked_shim_path().display().as_str(),
            ": ",
            reason,
        ),
        Step::WriteKey => text::cat4(
            "failed to write raw key ",
            facts.key_path().display().as_str(),
            ": ",
            reason,
        ),
        Step::BindAgent => text::cat4(
            "failed to bind fake ssh-agent socket ",
            facts.agent_path().display().as_str(),
            ": ",
            reason,
        ),
        Step::BindSupervisor => text::cat4(
            "failed to bind supervisor socket ",
            facts.socket_path().display().as_str(),
            ": ",
            reason,
        ),
        Step::MakeNonblocking => text::cat2(
            "failed to make supervisor socket nonblocking: ",
            reason,
        ),
        Step::SpawnSession => text::cat2("failed to spawn session child: ", reason),
        Step::Capture(pipe) => text::cat3("failed to capture session ", name_of(pipe), " pipe"),
        Step::FeedSession => text::cat2("failed to write session stdin proof payload: ", reason),
        Step::ReceiveStdio(_) => match facts.smoke {
            Smoke::ChainCredential => reason.to_owned(),
            Smoke::CommandPty => reason.to_owned(),
            _ => text::cat2("failed to receive stdio fds: ", reason),
        },
        Step::SpawnCommand(link) => text::cat4(
            "failed to spawn ",
            label_of(facts.smoke, link),
            " child: ",
            reason,
        ),
        Step::WaitSession => text::cat2("failed to wait for session child: ", reason),
        _ => reason.to_owned(),
    }
}

} // verus!
