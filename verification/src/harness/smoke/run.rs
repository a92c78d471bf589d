//! A run of a smoke test, step by step.
use vstd::prelude::*;

use crate::bytes;
use crate::error::{ErrorModel, NonoError};
use crate::harness::ipc;
use crate::harness::process;
use crate::harness::process::ScanFlags;
use crate::harness::roles;
use crate::harness::smoke;
use crate::harness::smoke::script;
use crate::harness::smoke::steps;
use crate::harness::smoke::steps::{Action, Reply, ReplyModel};
use crate::harness::smoke::{CommandModel, Dir, Facts, FactsModel, Link, Pipe, Smoke, Step};
use crate::harness::FileId;
use crate::paths::FilePath;
use crate::text;

verus! {

/// The facts of a run whose first command never ran.
pub open spec fn without_command(facts: FactsModel, reason: Seq<char>) -> FactsModel {
    FactsModel {
        spawn_error: Some(reason),
        first: CommandModel { response: ipc::not_spawned(reason), ..facts.first },
        ..facts
    }
}

/// The facts with what is known of a command.
pub open spec fn with_command(facts: FactsModel, link: Link, command: CommandModel) -> FactsModel {
    match link {
        Link::First => FactsModel { first: command, ..facts },
        Link::Chained => FactsModel { chained: command, ..facts },
    }
}

/// What is learnt from a new directory.
pub open spec fn learnt_dir(facts: FactsModel, dir: Dir, path: Seq<u8>) -> Result<
    FactsModel,
    ErrorModel,
> {
    match dir {
        Dir::Work => match process::shim_place(path, facts.policy) {
            Ok(shim) => Ok(FactsModel { work_dir: path, shim, ..facts }),
            Err(error) => Err(error),
        },
        Dir::Sockets => Ok(FactsModel { work_dir: path, ..facts }),
        Dir::Binaries => Ok(
            FactsModel {
                binary_dir: path,
                policy: steps::file_in(path, "git-real"@),
                ..facts
            },
        ),
        Dir::Shims => Ok(
            FactsModel { shim_dir: path, shim: steps::file_in(path, "git"@), ..facts },
        ),
        Dir::Keys => Ok(FactsModel { key_dir: path, ..facts }),
    }
}

/// The error for a chained shim that does not descend from the first command.
pub open spec fn unrelated(facts: FactsModel) -> ErrorModel {
    ErrorModel::Setup(
        "ssh shim pid "@ + text::signed_decimal(facts.chained.auth.peer_pid as int)
            + " did not have git command pid "@ + text::signed_decimal(facts.first.pid as int)
            + " in its ancestry"@,
    )
}

/// Steps from which nothing is learnt but that they were done.
pub open spec fn plain_step(step: Step) -> bool {
    match step {
        Step::PlaceBinary(_) => true,
        Step::PlaceShim => true,
        Step::LinkShim => true,
        Step::WriteKey => true,
        Step::BindAgent => true,
        Step::BindSupervisor => true,
        Step::MakeNonblocking => true,
        Step::OpenTerminal => true,
        Step::OpenSlaves => true,
        Step::SpawnSession => true,
        Step::Capture(_) => true,
        Step::FeedSession => true,
        Step::Accept(_) => true,
        Step::AskForStdio(_) => true,
        Step::ReceiveStdio(_) => true,
        Step::SendStart(_) => true,
        Step::Resize => true,
        Step::Press(_) => true,
        Step::Resume => true,
        Step::CopyTranscript => true,
        Step::SendResponse(_) => true,
        _ => false,
    }
}

/// What is learnt from what came of a step: new facts, or why the run fails. A
/// reply that the step does not ask for teaches nothing.
pub open spec fn learnt(facts: FactsModel, step: Step, reply: ReplyModel) -> Option<
    Result<FactsModel, ErrorModel>,
> {
    match reply {
        ReplyModel::Refused(error) => Some(Err(error)),
        ReplyModel::Failed(reason) => {
            let words = steps::failure_text(facts, step, reason);
            if facts.smoke == Smoke::Topology && step == Step::ReceiveStdio(Link::First) {
                Some(Ok(without_command(facts, words)))
            } else if facts.smoke == Smoke::Topology && step == Step::SpawnCommand(Link::First) {
                Some(Ok(without_command(facts, reason)))
            } else {
                Some(Err(ErrorModel::Setup(words)))
            }
        },
        ReplyModel::Done => if plain_step(step) {
            Some(Ok(facts))
        } else {
            None
        },
        ReplyModel::Path(path) => match step {
            Step::FindExecutable => Some(Ok(FactsModel { executable: path, ..facts })),
            Step::FindPolicy => Some(Ok(FactsModel { policy: path, ..facts })),
            Step::MakeDir(dir) => Some(learnt_dir(facts, dir, path)),
            _ => None,
        },
        ReplyModel::Identity(id) => match step {
            Step::StatShim => Some(Ok(FactsModel { shim_id: id, ..facts })),
            Step::StatLinkedShim => if id == facts.shim_id {
                Some(Ok(facts))
            } else {
                Some(
                    Err(ErrorModel::Setup("git and ssh shims do not share the trusted inode"@)),
                )
            },
            _ => None,
        },
        ReplyModel::Peer { credentials, exe, id } => match step {
            Step::Authenticate(link) => match process::authenticated(
                credentials,
                exe,
                id,
                facts.shim_id,
            ) {
                Ok(auth) => Some(
                    Ok(
                        with_command(
                            facts,
                            link,
                            CommandModel { auth, ..smoke::command_of(facts, link) },
                        ),
                    ),
                ),
                Err(error) => Some(Err(error)),
            },
            _ => None,
        },
        ReplyModel::Request(request) => match step {
            Step::ReadRequest(link) => Some(
                Ok(
                    with_command(
                        facts,
                        link,
                        CommandModel { request, ..smoke::command_of(facts, link) },
                    ),
                ),
            ),
            _ => None,
        },
        ReplyModel::Related(related) => match step {
            Step::CheckAncestry => if related {
                Some(Ok(FactsModel { related: true, ..facts }))
            } else {
                Some(Err(unrelated(facts)))
            },
            _ => None,
        },
        ReplyModel::Started(id) => match step {
            Step::SpawnCommand(link) => match process::child_pid(id) {
                Ok(pid) => Some(
                    Ok(
                        with_command(
                            facts,
                            link,
                            CommandModel { pid, ..smoke::command_of(facts, link) },
                        ),
                    ),
                ),
                Err(error) => Some(Err(error)),
            },
            _ => None,
        },
        ReplyModel::Ended(response) => match step {
            Step::WaitCommand(link) => Some(
                Ok(
                    with_command(
                        facts,
                        link,
                        CommandModel { response, ..smoke::command_of(facts, link) },
                    ),
                ),
            ),
            _ => None,
        },
        ReplyModel::Read(content) => match step {
            Step::Await(_) => Some(
                Ok(FactsModel { transcript: facts.transcript + content, ..facts }),
            ),
            Step::Drain => Some(Ok(FactsModel { transcript: facts.transcript + content, ..facts })),
            Step::Join(Pipe::Stdout) => Some(Ok(FactsModel { stdout: content, ..facts })),
            Step::Join(Pipe::Stderr) => Some(Ok(FactsModel { stderr: content, ..facts })),
            _ => None,
        },
        ReplyModel::SessionEnded { success, status } => match step {
            Step::WaitSession => Some(
                Ok(FactsModel { session_success: success, session_status: status, ..facts }),
            ),
            _ => None,
        },
    }
}

/// What became of a reply.
pub enum Lesson {
    /// The run goes on with these facts.
    Facts(Facts),
    /// The run fails.
    Failed(NonoError),
    /// The step did not ask for the reply; the facts stand.
    Ignored(Facts),
}

/// A lesson is what a reply teaches.
pub open spec fn teaches(
    lesson: Lesson,
    facts: FactsModel,
    step: Step,
    reply: ReplyModel,
) -> bool {
    match learnt(facts, step, reply) {
        Some(Ok(next)) => lesson matches Lesson::Facts(new) && new@ == next,
        Some(Err(error)) => lesson matches Lesson::Failed(why) && why@ == error,
        None => lesson matches Lesson::Ignored(same) && same@ == facts,
    }
}

fn give_up_command(facts: Facts, reason: String) -> (r: Facts)
    ensures
        r@ == without_command(facts@, reason@),
{
    let mut facts = facts;
    facts.first.response = ipc::spawn_failure(reason.clone());
    facts.spawn_error = Some(reason);
    facts
}

fn is_plain(step: Step) -> (r: bool)
    ensures
        r == plain_step(step),
{
    match step {
        Step::PlaceBinary(_) => true,
        Step::PlaceShim => true,
        Step::LinkShim => true,
        Step::WriteKey => true,
        Step::BindAgent => true,
        Step::BindSupervisor => true,
        Step::MakeNonblocking => true,
        Step::OpenTerminal => true,
        Step::OpenSlaves => true,
        Step::SpawnSession => true,
        Step::Capture(_) => true,
        Step::FeedSession => true,
        Step::Accept(_) => true,
        Step::AskForStdio(_) => true,
        Step::ReceiveStdio(_) => true,
        Step::SendStart(_) => true,
        Step::Resize => true,
        Step::Press(_) => true,
        Step::Resume => true,
        Step::CopyTranscript => true,
        Step::SendResponse(_) => true,
        _ => false,
    }
}

fn learn_failure(facts: Facts, step: Step, reason: String) -> (r: Lesson)
    ensures
        teaches(r, facts@, step, ReplyModel::Failed(reason@)),
{
    let words = steps::failure_words(&facts, step, reason.as_str());
    if facts.smoke == Smoke::Topology && step == Step::ReceiveStdio(Link::First) {
        Lesson::Facts(give_up_command(facts, words))
    } else if facts.smoke == Smoke::Topology && step == Step::SpawnCommand(Link::First) {
        Lesson::Facts(give_up_command(facts, reason))
    } else {
        Lesson::Failed(NonoError::Setup(words))
    }
}

fn learn_path(facts: Facts, step: Step, path: FilePath) -> (r: Lesson)
    ensures
        teaches(r, facts@, step, ReplyModel::Path(path@)),
{
    let mut facts = facts;
    match step {
        Step::FindExecutable => {
            facts.executable = path;
            Lesson::Facts(facts)
        },
        Step::FindPolicy => {
            facts.policy = path;
            Lesson::Facts(facts)
        },
        Step::MakeDir(Dir::Work) => match process::shim_path(&path, &facts.policy) {
            Ok(shim) => {
                facts.work_dir = path;
                facts.shim = shim;
                Lesson::Facts(facts)
            },
            Err(error) => Lesson::Failed(error),
        },
        Step::MakeDir(Dir::Sockets) => {
            facts.work_dir = path;
            Lesson::Facts(facts)
        },
        Step::MakeDir(Dir::Binaries) => {
            facts.policy = steps::place_in(&path, "git-real");
            facts.binary_dir = path;
            Lesson::Facts(facts)
        },
        Step::MakeDir(Dir::Shims) => {
            facts.shim = steps::place_in(&path, "git");
            facts.shim_dir = path;
            Lesson::Facts(facts)
        },
        Step::MakeDir(Dir::Keys) => {
            facts.key_dir = path;
            Lesson::Facts(facts)
        },
        _ => Lesson::Ignored(facts),
    }
}

fn learn_identity(facts: Facts, step: Step, id: FileId) -> (r: Lesson)
    ensures
        teaches(r, facts@, step, ReplyModel::Identity(id)),
{
    let mut facts = facts;
    match step {
        Step::StatShim => {
            facts.shim_id = id;
            Lesson::Facts(facts)
        },
        Step::StatLinkedShim => if id == facts.shim_id {
            Lesson::Facts(facts)
        } else {
            Lesson::Failed(
                NonoError::Setup("git and ssh shims do not share the trusted inode".to_owned()),
            )
        },
        _ => Lesson::Ignored(facts),
    }
}

fn learn_related(facts: Facts, step: Step, related: bool) -> (r: Lesson)
    ensures
        teaches(r, facts@, step, ReplyModel::Related(related)),
{
    let mut facts = facts;
    match step {
        Step::CheckAncestry => if related {
            facts.related = true;
            Lesson::Facts(facts)
        } else {
            Lesson::Failed(
                NonoError::Setup(
                    text::cat5(
                        "ssh shim pid ",
                        text::signed_decimal_text(facts.chained.auth.peer_pid).as_str(),
                        " did not have git command pid ",
                        text::signed_decimal_text(facts.first.pid).as_str(),
                        " in its ancestry",
                    ),
                ),
            )
        },
        _ => Lesson::Ignored(facts),
    }
}

fn learn_read(facts: Facts, step: Step, content: Vec<u8>) -> (r: Lesson)
    ensures
        teaches(r, facts@, step, ReplyModel::Read(content@)),
{
    let mut facts = facts;
    match step {
        Step::Await(_) => {
            bytes::append_bytes(&mut facts.transcript, content.as_slice());
            Lesson::Facts(facts)
        },
        Step::Drain => {
            bytes::append_bytes(&mut facts.transcript, content.as_slice());
            Lesson::Facts(facts)
        },
        Step::Join(Pipe::Stdout) => {
            facts.stdout = content;
            Lesson::Facts(facts)
        },
        Step::Join(Pipe::Stderr) => {
            facts.stderr = content;
            Lesson::Facts(facts)
        },
        _ => Lesson::Ignored(facts),
    }
}

fn learn_peer(facts: Facts, step: Step, reply: Reply) -> (r: Lesson)
    requires
        reply is Peer,
    ensures
        teaches(r, facts@, step, reply@),
{
    let mut facts = facts;
    match (step, reply) {
        (Step::Authenticate(link), Reply::Peer { credentials, exe, id }) => {
            match process::authenticate_shim(credentials, exe, id, facts.shim_id) {
                Ok(auth) => {
                    match link {
                        Link::First => {
                            facts.first.auth = auth;
                        },
                        Link::Chained => {
                            facts.chained.auth = auth;
                        },
                    }
                    Lesson::Facts(facts)
                },
                Err(error) => Lesson::Failed(error),
            }
        },
        _ => Lesson::Ignored(facts),
    }
}

fn learn_command(facts: Facts, step: Step, reply: Reply) -> (r: Lesson)
    requires
        reply is Request || reply is Started || reply is Ended,
    ensures
        teaches(r, facts@, step, reply@),
{
    let mut facts = facts;
    match (step, reply) {
        (Step::ReadRequest(Link::First), Reply::Request(request)) => {
            facts.first.request = request;
            Lesson::Facts(facts)
        },
        (Step::ReadRequest(Link::Chained), Reply::Request(request)) => {
            facts.chained.request = request;
            Lesson::Facts(facts)
        },
        (Step::SpawnCommand(link), Reply::Started(id)) => match process::child_pid_i32(id) {
            Ok(pid) => {
                match link {
                    Link::First => {
                        facts.first.pid = pid;
                    },
                    Link::Chained => {
                        facts.chained.pid = pid;
                    },
                }
                Lesson::Facts(facts)
            },
            Err(error) => Lesson::Failed(error),
        },
        (Step::WaitCommand(Link::First), Reply::Ended(response)) => {
            facts.first.response = response;
            Lesson::Facts(facts)
        },
        (Step::WaitCommand(Link::Chained), Reply::Ended(response)) => {
            facts.chained.response = response;
            Lesson::Facts(facts)
        },
        _ => Lesson::Ignored(facts),
    }
}

/// Learns from what came of a step.
pub fn learn(facts: Facts, step: Step, reply: Reply) -> (r: Lesson)
    ensures
        teaches(r, facts@, step, reply@),
{
    match reply {
        Reply::Refused(error) => Lesson::Failed(error),
        Reply::Failed(reason) => learn_failure(facts, step, reason),
        Reply::Done => if is_plain(step) {
            Lesson::Facts(facts)
        } else {
            Lesson::Ignored(facts)
        },
        Reply::Path(path) => learn_path(facts, step, path),
        Reply::Identity(id) => learn_identity(facts, step, id),
        Reply::Related(related) => learn_related(facts, step, related),
        Reply::Read(content) => learn_read(facts, step, content),
        Reply::SessionEnded { success, status } => match step {
            Step::WaitSession => {
                let mut facts = facts;
                facts.session_success = success;
                facts.session_status = status;
                Lesson::Facts(facts)
            },
            _ => Lesson::Ignored(facts),
        },
        Reply::Peer { credentials, exe, id } => learn_peer(
            facts,
            step,
            Reply::Peer { credentials, exe, id },
        ),
        Reply::Request(request) => learn_command(facts, step, Reply::Request(request)),
        Reply::Started(id) => learn_command(facts, step, Reply::Started(id)),
        Reply::Ended(response) => learn_command(facts, step, Reply::Ended(response)),
    }
}

// ---------------------------------------------------------------------------
// Going through a script
// ---------------------------------------------------------------------------

/// A step that a run leaves out because its first command never ran.
pub open spec fn skipped(facts: FactsModel, step: Step) -> bool {
    facts.spawn_error is Some && (step == Step::SpawnCommand(Link::First) || step
        == Step::WaitCommand(Link::First) || step == Step::SendResponse(Link::First))
}

/// The first step from `at` on that a run does not leave out.
pub open spec fn settled(facts: FactsModel, steps: Seq<Step>, at: int) -> int
    decreases steps.len() - at,
{
    if 0 <= at < steps.len() && skipped(facts, steps[at]) {
        settled(facts, steps, at + 1)
    } else {
        at
    }
}

/// The steps of a run with these facts.
pub open spec fn steps_with(facts: FactsModel) -> Seq<Step> {
    script::script(facts.smoke, facts.payload is Some)
}

/// How far a run has come.
#[derive(Debug, PartialEq, Eq)]
pub enum SmokeRun {
    /// The run is at a step of its script, or past its end.
    Going { facts: Facts, at: usize },
    Failed(NonoError),
}

/// What a run stands for.
#[verifier::ext_equal]
pub enum RunModel {
    Going { facts: FactsModel, at: int },
    Failed(ErrorModel),
}

impl View for SmokeRun {
    type V = RunModel;

    open spec fn view(&self) -> RunModel {
        match self {
            SmokeRun::Going { facts, at } => RunModel::Going { facts: facts@, at: *at as int },
            SmokeRun::Failed(error) => RunModel::Failed(error@),
        }
    }
}

/// The step that a run is at.
pub open spec fn step_of(run: RunModel) -> Option<Step> {
    match run {
        RunModel::Going { facts, at } => if 0 <= at < steps_with(facts).len() {
            Some(steps_with(facts)[at])
        } else {
            None
        },
        RunModel::Failed(_) => None,
    }
}

/// The run after what came of its step.
pub open spec fn advanced(run: RunModel, reply: ReplyModel) -> RunModel {
    match (run, step_of(run)) {
        (RunModel::Going { facts, at }, Some(step)) => match learnt(facts, step, reply) {
            Some(Ok(next)) => RunModel::Going {
                facts: next,
                at: settled(next, steps_with(facts), at + 1),
            },
            Some(Err(error)) => RunModel::Failed(error),
            None => run,
        },
        _ => run,
    }
}

impl SmokeRun {
    /// A run at the beginning of its script.
    pub fn new(facts: Facts) -> (r: SmokeRun)
        ensures
            r@ == (RunModel::Going { facts: facts@, at: 0 }),
    {
        SmokeRun::Going { facts, at: 0 }
    }

    /// The step that the run is at.
    pub fn step(&self) -> (r: Option<Step>)
        ensures
            r == step_of(self@),
    {
        match self {
            SmokeRun::Going { facts, at } => {
                let steps = script::steps_of(facts.smoke, facts.payload.is_some());
                if *at < steps.len() {
                    Some(steps[*at])
                } else {
                    None
                }
            },
            SmokeRun::Failed(_) => None,
        }
    }

    /// What the run asks for.
    pub fn action(&self) -> (r: Option<Action>)
        ensures
            match (self@, step_of(self@)) {
                (RunModel::Going { facts, .. }, Some(step)) => r matches Some(action)
                    && steps::asks(action, facts, step),
                _ => r is None,
            },
    {
        match (self, self.step()) {
            (SmokeRun::Going { facts, .. }, Some(step)) => Some(steps::action_for(facts, step)),
            _ => None,
        }
    }

    /// Takes the run further by what came of its step.
    pub fn advance(self, reply: Reply) -> (r: SmokeRun)
        ensures
            r@ == advanced(self@, reply@),
    {
        match (self.step(), self) {
            (Some(step), SmokeRun::Going { facts, at }) => {
                let list = script::steps_of(facts.smoke, facts.payload.is_some());
                match learn(facts, step, reply) {
                    Lesson::Facts(next) => {
                        let mut now: usize = at + 1;
                        while now < list.len() && is_skipped(&next, list[now])
                            invariant
                                at < now <= list.len(),
                                settled(next@, list@, at + 1) == settled(next@, list@, now as int),
                            decreases list.len() - now,
                        {
                            now = now + 1;
                        }
                        SmokeRun::Going { facts: next, at: now }
                    },
                    Lesson::Failed(error) => SmokeRun::Failed(error),
                    Lesson::Ignored(facts) => SmokeRun::Going { facts, at },
                }
            },
            (_, run) => run,
        }
    }
}

fn is_skipped(facts: &Facts, step: Step) -> (r: bool)
    ensures
        r == skipped(facts@, step),
{
    facts.spawn_error.is_some() && (step == Step::SpawnCommand(Link::First) || step
        == Step::WaitCommand(Link::First) || step == Step::SendResponse(Link::First))
}

// ---------------------------------------------------------------------------
// The smoke tests
// ---------------------------------------------------------------------------

/// The facts with which a smoke test of this program itself starts.
pub open spec fn own_facts(smoke: Smoke, flags: process::FlagsModel, search_path: Seq<char>) -> FactsModel {
    smoke::initial_facts(smoke, flags, smoke::unknown_path(), None, None, search_path)
}

fn own_run(smoke: Smoke, flags: ScanFlags, search_path: String) -> (r: SmokeRun)
    ensures
        r@ == (RunModel::Going { facts: own_facts(smoke, flags@, search_path@), at: 0 }),
{
    SmokeRun::new(Facts::new(smoke, flags, smoke::no_path(), None, None, search_path))
}

/// Starts the test that a terminal's interrupt reaches a supervised command.
pub fn run_tty_signal_smoke(flags: ScanFlags) -> (r: SmokeRun)
    ensures
        r@ == (RunModel::Going { facts: own_facts(Smoke::TtySignal, flags@, ""@), at: 0 }),
{
    own_run(Smoke::TtySignal, flags, "".to_owned())
}

/// Starts the test that a terminal's job-control signals reach a supervised
/// command.
pub fn run_tty_job_control_smoke(flags: ScanFlags) -> (r: SmokeRun)
    ensures
        r@ == (RunModel::Going { facts: own_facts(Smoke::JobControl, flags@, ""@), at: 0 }),
{
    own_run(Smoke::JobControl, flags, "".to_owned())
}

/// Starts the test that chained commands are kept from a key and reach an
/// agent. `search_path` is where the supervisor looks for commands.
pub fn run_chain_credential_smoke(flags: ScanFlags, search_path: String) -> (r: SmokeRun)
    ensures
        r@ == (RunModel::Going {
            facts: own_facts(Smoke::ChainCredential, flags@, search_path@),
            at: 0,
        }),
{
    own_run(Smoke::ChainCredential, flags, search_path)
}

/// Starts the test that a command on a terminal of its own reaches its shim.
pub fn run_command_pty_bridge_smoke(flags: ScanFlags) -> (r: SmokeRun)
    ensures
        r@ == (RunModel::Going { facts: own_facts(Smoke::CommandPty, flags@, ""@), at: 0 }),
{
    own_run(Smoke::CommandPty, flags, "".to_owned())
}

/// Starts the test that a policy binary runs under supervision, and only so.
pub fn run_topology_smoke_config(
    flags: ScanFlags,
    policy_binary: FilePath,
    helper_role: Option<String>,
    stdin_payload: Option<Vec<u8>>,
) -> (r: SmokeRun)
    ensures
        r@ == (RunModel::Going {
            facts: smoke::initial_facts(
                Smoke::Topology,
                flags@,
                policy_binary@,
                text::opt_text(helper_role),
                smoke::opt_bytes(stdin_payload),
                ""@,
            ),
            at: 0,
        }),
{
    SmokeRun::new(
        Facts::new(
            Smoke::Topology,
            flags,
            policy_binary,
            helper_role,
            stdin_payload,
            "".to_owned(),
        ),
    )
}

/// Starts the plain test of a policy binary.
pub fn run_topology_smoke(flags: ScanFlags, policy_binary: FilePath) -> (r: SmokeRun)
    ensures
        r@ == (RunModel::Going {
            facts: smoke::initial_facts(
                Smoke::Topology,
                flags@,
                policy_binary@,
                None,
                None,
                ""@,
            ),
            at: 0,
        }),
{
    run_topology_smoke_config(flags, policy_binary, None, None)
}

/// Starts the test that a command's streams arrive and that nothing else does.
/// `executable` is this program.
pub fn run_stdio_fd_smoke(flags: ScanFlags, executable: Result<FilePath, String>) -> (r: Result<
    SmokeRun,
    NonoError,
>)
    ensures
        crate::error::outcome(r) == (match executable {
            Ok(executable) => Ok::<RunModel, ErrorModel>(
                RunModel::Going {
                    facts: smoke::initial_facts(
                        Smoke::Topology,
                        flags@,
                        executable@,
                        Some("stdio-helper"@),
                        Some(roles::stdio_proof()),
                        ""@,
                    ),
                    at: 0,
                },
            ),
            Err(reason) => Err::<RunModel, ErrorModel>(
                ErrorModel::Setup("failed to locate current executable: "@ + reason@),
            ),
        }),
{
    match executable {
        Ok(executable) => Ok(
            run_topology_smoke_config(
                flags,
                executable,
                Some("stdio-helper".to_owned()),
                Some(roles::stdio_proof_input()),
            ),
        ),
        Err(reason) => Err(
            NonoError::Setup(
                text::cat2("failed to locate current executable: ", reason.as_str()),
            ),
        ),
    }
}

} // verus!
