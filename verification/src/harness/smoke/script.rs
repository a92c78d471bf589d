//! The scripts of the smoke tests.
use vstd::prelude::*;

use crate::harness::smoke::{Dir, Key, Link, Marker, Pipe, Smoke, Step};

verus! {

/// Finding the binaries and placing the shim of a single command.
pub open spec fn preparing() -> Seq<Step> {
    seq![
        Step::FindExecutable,
        Step::FindPolicy,
        Step::MakeDir(Dir::Work),
        Step::PlaceShim,
        Step::StatShim,
    ]
}

/// The same, where the user names the policy binary.
pub open spec fn preparing_requested() -> Seq<Step> {
    seq![
        Step::FindPolicy,
        Step::MakeDir(Dir::Work),
        Step::FindExecutable,
        Step::PlaceShim,
        Step::StatShim,
    ]
}

/// Placing two commands that share a shim, and a key that must stay out of
/// their reach.
pub open spec fn preparing_chain() -> Seq<Step> {
    seq![
        Step::FindExecutable,
        Step::MakeDir(Dir::Sockets),
        Step::MakeDir(Dir::Binaries),
        Step::MakeDir(Dir::Shims),
        Step::MakeDir(Dir::Keys),
        Step::PlaceBinary(Link::First),
        Step::PlaceBinary(Link::Chained),
        Step::PlaceShim,
        Step::LinkShim,
        Step::StatShim,
        Step::StatLinkedShim,
        Step::WriteKey,
        Step::BindAgent,
    ]
}

/// Listening for shims.
pub open spec fn listening() -> Seq<Step> {
    seq![Step::BindSupervisor, Step::MakeNonblocking]
}

/// A terminal for the session.
pub open spec fn listening_on_terminal() -> Seq<Step> {
    seq![Step::OpenTerminal] + listening() + seq![Step::OpenSlaves, Step::SpawnSession]
}

/// A session whose output is captured.
pub open spec fn captured_session() -> Seq<Step> {
    seq![Step::SpawnSession, Step::Capture(Pipe::Stdout), Step::Capture(Pipe::Stderr)]
}

/// A session that gets something to read, and whose output is captured.
pub open spec fn fed_session() -> Seq<Step> {
    seq![
        Step::SpawnSession,
        Step::Capture(Pipe::Stdin),
        Step::FeedSession,
        Step::Capture(Pipe::Stdout),
        Step::Capture(Pipe::Stderr),
    ]
}

/// A shim connects and says what it wants.
pub open spec fn meeting(link: Link) -> Seq<Step> {
    seq![Step::Accept(link), Step::Authenticate(link), Step::ReadRequest(link)]
}

/// A shim hands its standard streams over.
pub open spec fn handover(link: Link) -> Seq<Step> {
    seq![Step::AskForStdio(link), Step::ReceiveStdio(link)]
}

/// A command starts.
pub open spec fn launch(link: Link) -> Seq<Step> {
    seq![Step::SpawnCommand(link), Step::SendStart(link)]
}

/// A command ends, and its shim is told.
pub open spec fn answer(link: Link) -> Seq<Step> {
    seq![Step::WaitCommand(link), Step::SendResponse(link)]
}

/// A session with captured output ends.
pub open spec fn ending() -> Seq<Step> {
    seq![Step::WaitSession, Step::Join(Pipe::Stdout), Step::Join(Pipe::Stderr)]
}

/// A session on a terminal ends.
pub open spec fn ending_on_terminal() -> Seq<Step> {
    seq![Step::WaitSession, Step::Drain]
}

/// The terminal's interrupt reaches the command.
pub open spec fn interrupting() -> Seq<Step> {
    seq![Step::Await(Marker::Ready), Step::Press(Key::Interrupt)]
}

/// The terminal's job-control signals reach the command, one by one.
pub open spec fn controlling() -> Seq<Step> {
    seq![
        Step::Await(Marker::Ready),
        Step::Resize,
        Step::Await(Marker::Resized),
        Step::Press(Key::Suspend),
        Step::Await(Marker::Suspended),
        Step::Resume,
        Step::Await(Marker::Continued),
        Step::Press(Key::Interrupt),
    ]
}

/// A command gets a terminal of its own.
pub open spec fn own_terminal() -> Seq<Step> {
    seq![Step::OpenTerminal, Step::OpenSlaves]
}

/// What the command writes on its terminal reaches the shim.
pub open spec fn bridging() -> Seq<Step> {
    seq![Step::Await(Marker::Ready), Step::Drain, Step::CopyTranscript]
}

/// The steps of a smoke test. `fed` says that the session gets something to
/// read.
pub open spec fn script(smoke: Smoke, fed: bool) -> Seq<Step> {
    let first = Link::First;
    let chained = Link::Chained;
    match smoke {
        Smoke::TtySignal => preparing() + listening_on_terminal() + meeting(first) + handover(first)
            + launch(first) + interrupting() + answer(first) + ending_on_terminal(),
        Smoke::JobControl => preparing() + listening_on_terminal() + meeting(first) + handover(
            first,
        ) + launch(first) + controlling() + answer(first) + ending_on_terminal(),
        Smoke::CommandPty => preparing() + listening() + captured_session() + meeting(first)
            + handover(first) + own_terminal() + launch(first) + bridging() + answer(first)
            + ending(),
        Smoke::ChainCredential => preparing_chain() + listening() + captured_session() + meeting(
            first,
        ) + handover(first) + launch(first) + meeting(chained) + seq![Step::CheckAncestry]
            + handover(chained) + launch(chained) + answer(chained) + answer(first) + ending(),
        Smoke::Topology => preparing_requested() + listening() + (if fed {
            fed_session()
        } else {
            captured_session()
        }) + meeting(first) + handover(first) + launch(first) + answer(first) + ending(),
    }
}

fn put(list: &mut Vec<Step>, more: Vec<Step>)
    ensures
        final(list)@ == old(list)@ + more@,
{
    let ghost before = list@;
    for i in 0..more.len()
        invariant
            list@ == before + more@.take(i as int),
    {
        assert(more@.take(i + 1) =~= more@.take(i as int).push(more@[i as int]));
        list.push(more[i]);
    }
    assert(more@.take(more@.len() as int) =~= more@);
}

fn prepare(smoke: Smoke) -> (r: Vec<Step>)
    ensures
        r@ == (match smoke {
            Smoke::ChainCredential => preparing_chain(),
            Smoke::Topology => preparing_requested(),
            _ => preparing(),
        }),
{
    match smoke {
        Smoke::ChainCredential => {
            let r = vec![
                Step::FindExecutable,
                Step::MakeDir(Dir::Sockets),
                Step::MakeDir(Dir::Binaries),
                Step::MakeDir(Dir::Shims),
                Step::MakeDir(Dir::Keys),
                Step::PlaceBinary(Link::First),
                Step::PlaceBinary(Link::Chained),
                Step::PlaceShim,
                Step::LinkShim,
                Step::StatShim,
                Step::StatLinkedShim,
                Step::WriteKey,
                Step::BindAgent,
            ];
            assert(r@ =~= preparing_chain());
            r
        },
        Smoke::Topology => {
            let r = vec![
                Step::FindPolicy,
                Step::MakeDir(Dir::Work),
                Step::FindExecutable,
                Step::PlaceShim,
                Step::StatShim,
            ];
            assert(r@ =~= preparing_requested());
            r
        },
        _ => {
            let r = vec![
                Step::FindExecutable,
                Step::FindPolicy,
                Step::MakeDir(Dir::Work),
                Step::PlaceShim,
                Step::StatShim,
            ];
            assert(r@ =~= preparing());
            r
        },
    }
}

fn listen() -> (r: Vec<Step>)
    ensures
        r@ == listening(),
{
    let r = vec![Step::BindSupervisor, Step::MakeNonblocking];
    assert(r@ =~= listening());
    r
}

fn listen_on_terminal() -> (r: Vec<Step>)
    ensures
        r@ == listening_on_terminal(),
{
    let r = vec![
        Step::OpenTerminal,
        Step::BindSupervisor,
        Step::MakeNonblocking,
        Step::OpenSlaves,
        Step::SpawnSession,
    ];
    assert(r@ =~= listening_on_terminal());
    r
}

fn capture_session(fed: bool) -> (r: Vec<Step>)
    ensures
        r@ == (if fed {
            fed_session()
        } else {
            captured_session()
        }),
{
    if fed {
        let r = vec![
            Step::SpawnSession,
            Step::Capture(Pipe::Stdin),
            Step::FeedSession,
            Step::Capture(Pipe::Stdout),
            Step::Capture(Pipe::Stderr),
        ];
        assert(r@ =~= fed_session());
        r
    } else {
        let r = vec![
            Step::SpawnSession,
            Step::Capture(Pipe::Stdout),
            Step::Capture(Pipe::Stderr),
        ];
        assert(r@ =~= captured_session());
        r
    }
}

fn meet(link: Link) -> (r: Vec<Step>)
    ensures
        r@ == meeting(link),
{
    let r = vec![Step::Accept(link), Step::Authenticate(link), Step::ReadRequest(link)];
    assert(r@ =~= meeting(link));
    r
}

fn hand_over(link: Link) -> (r: Vec<Step>)
    ensures
        r@ == handover(link),
{
    let r = vec![Step::AskForStdio(link), Step::ReceiveStdio(link)];
    assert(r@ =~= handover(link));
    r
}

fn start(link: Link) -> (r: Vec<Step>)
    ensures
        r@ == launch(link),
{
    let r = vec![Step::SpawnCommand(link), Step::SendStart(link)];
    assert(r@ =~= launch(link));
    r
}

fn reply_to(link: Link) -> (r: Vec<Step>)
    ensures
        r@ == answer(link),
{
    let r = vec![Step::WaitCommand(link), Step::SendResponse(link)];
    assert(r@ =~= answer(link));
    r
}

fn end() -> (r: Vec<Step>)
    ensures
        r@ == ending(),
{
    let r = vec![Step::WaitSession, Step::Join(Pipe::Stdout), Step::Join(Pipe::Stderr)];
    assert(r@ =~= ending());
    r
}

fn end_on_terminal() -> (r: Vec<Step>)
    ensures
        r@ == ending_on_terminal(),
{
    let r = vec![Step::WaitSession, Step::Drain];
    assert(r@ =~= ending_on_terminal());
    r
}

fn interrupt() -> (r: Vec<Step>)
    ensures
        r@ == interrupting(),
{
    let r = vec![Step::Await(Marker::Ready), Step::Press(Key::Interrupt)];
    assert(r@ =~= interrupting());
    r
}

fn control() -> (r: Vec<Step>)
    ensures
        r@ == controlling(),
{
    let r = vec![
        Step::Await(Marker::Ready),
        Step::Resize,
        Step::Await(Marker::Resized),
        Step::Press(Key::Suspend),
        Step::Await(Marker::Suspended),
        Step::Resume,
        Step::Await(Marker::Continued),
        Step::Press(Key::Interrupt),
    ];
    assert(r@ =~= controlling());
    r
}

fn open_terminal() -> (r: Vec<Step>)
    ensures
        r@ == own_terminal(),
{
    let r = vec![Step::OpenTerminal, Step::OpenSlaves];
    assert(r@ =~= own_terminal());
    r
}

fn bridge() -> (r: Vec<Step>)
    ensures
        r@ == bridging(),
{
    let r = vec![Step::Await(Marker::Ready), Step::Drain, Step::CopyTranscript];
    assert(r@ =~= bridging());
    r
}

/// Lists the steps of a smoke test.
pub fn steps_of(smoke: Smoke, fed: bool) -> (r: Vec<Step>)
    ensures
        r@ == script(smoke, fed),
{
    let mut out = prepare(smoke);
    match smoke {
        Smoke::TtySignal => {
            put(&mut out, listen_on_terminal());
            put(&mut out, meet(Link::First));
            put(&mut out, hand_over(Link::First));
            put(&mut out, start(Link::First));
            put(&mut out, interrupt());
            put(&mut out, reply_to(Link::First));
            put(&mut out, end_on_terminal());
        },
        Smoke::JobControl => {
            put(&mut out, listen_on_terminal());
            put(&mut out, meet(Link::First));
            put(&mut out, hand_over(Link::First));
            put(&mut out, start(Link::First));
            put(&mut out, control());
            put(&mut out, reply_to(Link::First));
            put(&mut out, end_on_terminal());
        },
        Smoke::CommandPty => {
            put(&mut out, listen());
            put(&mut out, capture_session(false));
            put(&mut out, meet(Link::First));
            put(&mut out, hand_over(Link::First));
            put(&mut out, open_terminal());
            put(&mut out, start(Link::First));
            put(&mut out, bridge());
            put(&mut out, reply_to(Link::First));
            put(&mut out, end());
        },
        Smoke::ChainCredential => {
            put(&mut out, listen());
            put(&mut out, capture_session(false));
            put(&mut out, meet(Link::First));
            put(&mut out, hand_over(Link::First));
            put(&mut out, start(Link::First));
            put(&mut out, meet(Link::Chained));
            let check = vec![Step::CheckAncestry];
            assert(check@ =~= seq![Step::CheckAncestry]);
            put(&mut out, check);
            put(&mut out, hand_over(Link::Chained));
            put(&mut out, start(Link::Chained));
            put(&mut out, reply_to(Link::Chained));
            put(&mut out, reply_to(Link::First));
            put(&mut out, end());
        },
        Smoke::Topology => {
            put(&mut out, listen());
            put(&mut out, capture_session(fed));
            put(&mut out, meet(Link::First));
            put(&mut out, hand_over(Link::First));
            put(&mut out, start(Link::First));
            put(&mut out, reply_to(Link::First));
            put(&mut out, end());
        },
    }
    out
}

} // verus!
