//! What a smoke test prints at its end, and whether it passed.
use vstd::prelude::*;

use crate::bytes;
use crate::error::{ErrorModel, NonoError};
use crate::harness::ipc;
use crate::harness::ipc::{ResponseModel, ShimResponse};
use crate::harness::process;
use crate::harness::process::{AuthModel, TopologyAuth};
use crate::harness::smoke::steps;
use crate::harness::smoke::{Facts, FactsModel, Link, Marker, Smoke};
use crate::harness::summary;
use crate::harness::terminal;
use crate::harness::FileId;
use crate::paths;
use crate::paths::FilePath;
use crate::text;

verus! {

// ---------------------------------------------------------------------------
// Lines
// ---------------------------------------------------------------------------

/// A labelled line.
pub open spec fn labelled(label: Seq<char>, value: Seq<char>) -> Seq<char> {
    "  "@ + label + ": "@ + value
}

/// A file and its numbers.
pub open spec fn file_text(path: Seq<u8>, id: FileId) -> Seq<char> {
    paths::shown(path) + " ["@ + process::id_text(id) + "]"@
}

/// A peer in full.
pub open spec fn peer_text(auth: AuthModel) -> Seq<char> {
    "pid="@ + text::signed_decimal(auth.peer_pid as int) + " uid="@ + text::decimal(
        auth.peer_uid as nat,
    ) + " gid="@ + text::decimal(auth.peer_gid as nat) + " exe="@ + file_text(
        auth.peer_exe,
        auth.peer_id,
    )
}

/// A peer in short.
pub open spec fn short_peer_text(auth: AuthModel) -> Seq<char> {
    "pid="@ + text::signed_decimal(auth.peer_pid as int) + " exe="@ + file_text(
        auth.peer_exe,
        auth.peer_id,
    )
}

fn file_words(path: &FilePath, id: FileId) -> (r: String)
    ensures
        r@ == file_text(path@, id),
{
    text::cat4(path.display().as_str(), " [", process::id_words(id).as_str(), "]")
}

fn peer_words(auth: &TopologyAuth) -> (r: String)
    ensures
        r@ == peer_text(auth@),
{
    text::cat8(
        "pid=",
        text::signed_decimal_text(auth.peer_pid).as_str(),
        " uid=",
        text::decimal_text(auth.peer_uid as u128).as_str(),
        " gid=",
        text::decimal_text(auth.peer_gid as u128).as_str(),
        " exe=",
        file_words(&auth.peer_exe, auth.peer_id).as_str(),
    )
}

fn short_peer_words(auth: &TopologyAuth) -> (r: String)
    ensures
        r@ == short_peer_text(auth@),
{
    text::cat4(
        "pid=",
        text::signed_decimal_text(auth.peer_pid).as_str(),
        " exe=",
        file_words(&auth.peer_exe, auth.peer_id).as_str(),
    )
}

/// How many bytes there are.
pub open spec fn size_text(content: Seq<u8>) -> Seq<char> {
    text::decimal(content.len())
}

/// The lines that every run of a single command starts with.
pub open spec fn single_lines(facts: FactsModel, title: Seq<char>) -> Seq<Seq<char>> {
    seq![
        title,
        labelled("policy binary"@, paths::shown(facts.policy)),
        labelled("trusted shim"@, file_text(facts.shim, facts.shim_id)),
        labelled("peer auth"@, peer_text(facts.first.auth)),
        labelled("shim request command"@, facts.first.request.command),
    ]
}

/// The line for the identifier of the command.
pub open spec fn pid_lines(facts: FactsModel) -> Seq<Seq<char>> {
    seq![labelled("grandchild pid"@, text::signed_decimal(facts.first.pid as int))]
}

/// The lines for how command and session ended.
pub open spec fn end_lines(facts: FactsModel) -> Seq<Seq<char>> {
    seq![
        labelled("supervised command response"@, ipc::response_text(facts.first.response)),
        labelled("session child status"@, facts.session_status),
    ]
}

/// The line for what was read from a terminal.
pub open spec fn transcript_lines(facts: FactsModel, label: Seq<char>) -> Seq<Seq<char>> {
    seq![labelled(label + " transcript bytes"@, size_text(facts.transcript))]
}

/// The lines for what was captured of the session.
pub open spec fn captured_lines(facts: FactsModel) -> Seq<Seq<char>> {
    seq![
        labelled("captured session stdout bytes"@, size_text(facts.stdout)),
        labelled("captured session stderr bytes"@, size_text(facts.stderr)),
    ]
}

/// The line for how long a run took.
pub open spec fn time_lines(elapsed: u128) -> Seq<Seq<char>> {
    seq![labelled("total time"@, text::decimal(elapsed as nat) + " ms"@)]
}

/// The lines that a run of chained commands starts with.
pub open spec fn chain_lines(facts: FactsModel) -> Seq<Seq<char>> {
    seq![
        "Chain credential smoke result"@,
        labelled("git real"@, paths::shown(facts.policy)),
        labelled("ssh real"@, paths::shown(steps::binary_path(facts, Link::Chained))),
        labelled("trusted shim inode"@, file_text(facts.shim, facts.shim_id)),
        labelled("git peer auth"@, short_peer_text(facts.first.auth)),
        labelled("ssh peer auth"@, short_peer_text(facts.chained.auth)),
        labelled("git command pid"@, text::signed_decimal(facts.first.pid as int)),
        labelled("ssh command pid"@, text::signed_decimal(facts.chained.pid as int)),
        labelled("ssh ancestry contains git pid"@, summary::truth(facts.related)),
        labelled("git request command"@, facts.first.request.command),
        labelled("ssh request command"@, facts.chained.request.command),
        labelled("ssh response"@, ipc::response_text(facts.chained.response)),
        labelled("git response"@, ipc::response_text(facts.first.response)),
        labelled("session child status"@, facts.session_status),
    ]
}

/// The title of a report.
pub open spec fn title(smoke: Smoke) -> Seq<char> {
    match smoke {
        Smoke::TtySignal => "TTY signal smoke result"@,
        Smoke::JobControl => "TTY job-control smoke result"@,
        Smoke::ChainCredential => "Chain credential smoke result"@,
        Smoke::CommandPty => "Command PTY bridge smoke result"@,
        Smoke::Topology => "Topology smoke result"@,
    }
}

/// The lines of a report, before what was read and captured is shown.
pub open spec fn report_lines(facts: FactsModel, elapsed: u128) -> Seq<Seq<char>> {
    let start = single_lines(facts, title(facts.smoke));
    match facts.smoke {
        Smoke::TtySignal => start + pid_lines(facts) + end_lines(facts) + transcript_lines(
            facts,
            "PTY"@,
        ) + time_lines(elapsed),
        Smoke::JobControl => start + pid_lines(facts) + end_lines(facts) + transcript_lines(
            facts,
            "PTY"@,
        ) + time_lines(elapsed),
        Smoke::CommandPty => start + pid_lines(facts) + end_lines(facts) + transcript_lines(
            facts,
            "command PTY"@,
        ) + captured_lines(facts) + time_lines(elapsed),
        Smoke::Topology => start + end_lines(facts) + captured_lines(facts) + time_lines(elapsed),
        Smoke::ChainCredential => chain_lines(facts) + captured_lines(facts) + time_lines(elapsed),
    }
}

/// Something that is shown as it is, between two lines, if there is any of it.
#[derive(Debug, PartialEq, Eq)]
pub struct Exhibit {
    pub name: String,
    pub content: String,
}

/// What an exhibit stands for.
#[verifier::ext_equal]
pub struct ExhibitModel {
    pub name: Seq<char>,
    pub content: Seq<char>,
}

impl View for Exhibit {
    type V = ExhibitModel;

    open spec fn view(&self) -> ExhibitModel {
        ExhibitModel { name: self.name@, content: self.content@ }
    }
}

/// The exhibit for some bytes.
pub open spec fn exhibit(name: Seq<char>, content: Seq<u8>) -> Seq<ExhibitModel> {
    if content.len() > 0 {
        seq![ExhibitModel { name, content: bytes::lossy(content) }]
    } else {
        Seq::empty()
    }
}

/// What a report shows at its end.
pub open spec fn exhibits(facts: FactsModel) -> Seq<ExhibitModel> {
    let captured = exhibit("captured session stdout"@, facts.stdout) + exhibit(
        "captured session stderr"@,
        facts.stderr,
    );
    match facts.smoke {
        Smoke::TtySignal => exhibit("PTY transcript"@, facts.transcript),
        Smoke::JobControl => exhibit("PTY transcript"@, facts.transcript),
        Smoke::CommandPty => exhibit("command PTY transcript"@, facts.transcript) + captured,
        _ => captured,
    }
}

/// How an exhibit is printed: a line, the content as it is, and another line.
pub open spec fn printed(exhibit: ExhibitModel) -> Seq<char> {
    "--- "@ + exhibit.name + " ---\n"@ + exhibit.content + "--- end "@ + exhibit.name + " ---\n"@
}

impl Exhibit {
    /// The exhibit as it is printed.
    pub fn print(&self) -> (r: String)
        ensures
            r@ == printed(self@),
    {
        text::cat7(
            "--- ",
            self.name.as_str(),
            " ---\n",
            self.content.as_str(),
            "--- end ",
            self.name.as_str(),
            " ---\n",
        )
    }
}

fn put(lines: &mut Vec<String>, label: &str, value: &str)
    ensures
        text::texts(final(lines)@) == text::texts(old(lines)@) + seq![labelled(label@, value@)],
{
    let ghost before = text::texts(lines@);
    text::push_text(lines, text::cat4("  ", label, ": ", value));
    assert(text::texts(lines@) =~= before + seq![labelled(label@, value@)]);
}

fn title_words(smoke: Smoke) -> (r: &'static str)
    ensures
        r@ == title(smoke),
{
    match smoke {
        Smoke::TtySignal => "TTY signal smoke result",
        Smoke::JobControl => "TTY job-control smoke result",
        Smoke::ChainCredential => "Chain credential smoke result",
        Smoke::CommandPty => "Command PTY bridge smoke result",
        Smoke::Topology => "Topology smoke result",
    }
}

fn single_words(facts: &Facts) -> (r: Vec<String>)
    ensures
        text::texts(r@) == single_lines(facts@, title(facts@.smoke)),
{
    let mut out: Vec<String> = Vec::new();
    assert(text::texts(out@) =~= Seq::empty());
    text::push_text(&mut out, title_words(facts.smoke).to_owned());
    put(&mut out, "policy binary", facts.policy.display().as_str());
    put(&mut out, "trusted shim", file_words(&facts.shim, facts.shim_id).as_str());
    put(&mut out, "peer auth", peer_words(&facts.first.auth).as_str());
    put(&mut out, "shim request command", facts.first.request.command.as_str());
    assert(text::texts(out@) =~= single_lines(facts@, title(facts@.smoke)));
    out
}

fn put_pid(lines: &mut Vec<String>, facts: &Facts)
    ensures
        text::texts(final(lines)@) == text::texts(old(lines)@) + pid_lines(facts@),
{
    put(lines, "grandchild pid", text::signed_decimal_text(facts.first.pid).as_str());
}

fn put_ends(lines: &mut Vec<String>, facts: &Facts)
    ensures
        text::texts(final(lines)@) == text::texts(old(lines)@) + end_lines(facts@),
{
    let ghost before = text::texts(lines@);
    put(
        lines,
        "supervised command response",
        ipc::response_words(&facts.first.response).as_str(),
    );
    put(lines, "session child status", facts.session_status.as_str());
    assert(text::texts(lines@) =~= before + end_lines(facts@));
}

fn put_transcript(lines: &mut Vec<String>, facts: &Facts, label: &str)
    ensures
        text::texts(final(lines)@) == text::texts(old(lines)@) + transcript_lines(facts@, label@),
{
    put(
        lines,
        text::cat2(label, " transcript bytes").as_str(),
        text::decimal_text(facts.transcript.len() as u128).as_str(),
    );
}

fn put_captured(lines: &mut Vec<String>, facts: &Facts)
    ensures
        text::texts(final(lines)@) == text::texts(old(lines)@) + captured_lines(facts@),
{
    let ghost before = text::texts(lines@);
    put(
        lines,
        "captured session stdout bytes",
        text::decimal_text(facts.stdout.len() as u128).as_str(),
    );
    put(
        lines,
        "captured session stderr bytes",
        text::decimal_text(facts.stderr.len() as u128).as_str(),
    );
    assert(text::texts(lines@) =~= before + captured_lines(facts@));
}

fn put_time(lines: &mut Vec<String>, elapsed: u128)
    ensures
        text::texts(final(lines)@) == text::texts(old(lines)@) + time_lines(elapsed),
{
    put(
        lines,
        "total time",
        text::cat2(text::decimal_text(elapsed).as_str(), " ms").as_str(),
    );
}

fn chain_words(facts: &Facts) -> (r: Vec<String>)
    ensures
        text::texts(r@) == chain_lines(facts@),
{
    let mut out: Vec<String> = Vec::new();
    assert(text::texts(out@) =~= Seq::empty());
    text::push_text(&mut out, "Chain credential smoke result".to_owned());
    put(&mut out, "git real", facts.policy.display().as_str());
    put(&mut out, "ssh real", facts.binary_path(Link::Chained).display().as_str());
    put(&mut out, "trusted shim inode", file_words(&facts.shim, facts.shim_id).as_str());
    put(&mut out, "git peer auth", short_peer_words(&facts.first.auth).as_str());
    put(&mut out, "ssh peer auth", short_peer_words(&facts.chained.auth).as_str());
    put(&mut out, "git command pid", text::signed_decimal_text(facts.first.pid).as_str());
    put(&mut out, "ssh command pid", text::signed_decimal_text(facts.chained.pid).as_str());
    put(&mut out, "ssh ancestry contains git pid", summary::truth_text(facts.related));
    put(&mut out, "git request command", facts.first.request.command.as_str());
    put(&mut out, "ssh request command", facts.chained.request.command.as_str());
    put(&mut out, "ssh response", ipc::response_words(&facts.chained.response).as_str());
    put(&mut out, "git response", ipc::response_words(&facts.first.response).as_str());
    put(&mut out, "session child status", facts.session_status.as_str());
    assert(text::texts(out@) =~= chain_lines(facts@));
    out
}

/// Writes the lines of a report, before what was read and captured is shown.
pub fn report(facts: &Facts, elapsed: u128) -> (r: Vec<String>)
    ensures
        text::texts(r@) == report_lines(facts@, elapsed),
{
    match facts.smoke {
        Smoke::ChainCredential => {
            let mut out = chain_words(facts);
            put_captured(&mut out, facts);
            put_time(&mut out, elapsed);
            out
        },
        Smoke::Topology => {
            let mut out = single_words(facts);
            put_ends(&mut out, facts);
            put_captured(&mut out, facts);
            put_time(&mut out, elapsed);
            out
        },
        Smoke::CommandPty => {
            let mut out = single_words(facts);
            put_pid(&mut out, facts);
            put_ends(&mut out, facts);
            put_transcript(&mut out, facts, "command PTY");
            put_captured(&mut out, facts);
            put_time(&mut out, elapsed);
            out
        },
        _ => {
            let mut out = single_words(facts);
            put_pid(&mut out, facts);
            put_ends(&mut out, facts);
            put_transcript(&mut out, facts, "PTY");
            put_time(&mut out, elapsed);
            out
        },
    }
}

fn show(list: &mut Vec<Exhibit>, name: &str, content: &Vec<u8>)
    ensures
        text::views(final(list)@) == text::views(old(list)@) + exhibit(name@, content@),
{
    let ghost before = text::views(list@);
    if content.len() > 0 {
        let shown = Exhibit {
            name: name.to_owned(),
            content: bytes::lossy_text(content.as_slice()),
        };
        let ghost value = shown@;
        list.push(shown);
        assert(text::views(list@) =~= before.push(value));
        assert(before.push(value) =~= before + seq![value]);
    } else {
        assert(before + exhibit(name@, content@) =~= before);
    }
}

/// Shows what was read and captured.
pub fn show_exhibits(facts: &Facts) -> (r: Vec<Exhibit>)
    ensures
        text::views(r@) == exhibits(facts@),
{
    let mut out: Vec<Exhibit> = Vec::new();
    assert(text::views(out@) =~= Seq::empty());
    match facts.smoke {
        Smoke::TtySignal => {
            show(&mut out, "PTY transcript", &facts.transcript);
        },
        Smoke::JobControl => {
            show(&mut out, "PTY transcript", &facts.transcript);
        },
        Smoke::CommandPty => {
            show(&mut out, "command PTY transcript", &facts.transcript);
            show(&mut out, "captured session stdout", &facts.stdout);
            show(&mut out, "captured session stderr", &facts.stderr);
        },
        _ => {
            show(&mut out, "captured session stdout", &facts.stdout);
            show(&mut out, "captured session stderr", &facts.stderr);
        },
    }
    assert(text::views(out@) =~= exhibits(facts@));
    out
}

// ---------------------------------------------------------------------------
// Verdicts
// ---------------------------------------------------------------------------

/// The first of some markers that a text does not hold.
pub open spec fn first_missing(held: Seq<char>, markers: Seq<Seq<char>>) -> Option<Seq<char>>
    decreases markers.len(),
{
    if markers.len() == 0 {
        None
    } else if !text::occurs(held, markers[0]) {
        Some(markers[0])
    } else {
        first_missing(held, markers.skip(1))
    }
}

/// The first of some markers that bytes do not hold.
pub open spec fn first_unseen(held: Seq<u8>, markers: Seq<Seq<char>>) -> Option<Seq<char>>
    decreases markers.len(),
{
    if markers.len() == 0 {
        None
    } else if !bytes::occurs(held, vstd::utf8::encode_utf8(markers[0])) {
        Some(markers[0])
    } else {
        first_unseen(held, markers.skip(1))
    }
}

/// The signals that a job must have seen.
pub open spec fn job_markers() -> Seq<Seq<char>> {
    seq![
        steps::marker_text(Smoke::JobControl, Marker::Resized),
        steps::marker_text(Smoke::JobControl, Marker::Suspended),
        steps::marker_text(Smoke::JobControl, Marker::Continued),
    ]
}

/// What chained commands must have shown.
pub open spec fn chain_markers() -> Seq<Seq<char>> {
    seq![
        "chain-git-helper-raw-key: denied"@,
        "chain-ssh-helper-raw-key: denied"@,
        "chain-ssh-helper-agent: connected"@,
        "chain-git-helper-ssh-status: 0"@,
    ]
}

/// What a command on its own terminal must have shown.
pub open spec fn pty_markers() -> Seq<Seq<char>> {
    seq![
        "topology-session: direct policy exec matched=true"@,
        "command-pty-helper-isatty-stdin: true"@,
        "command-pty-helper-ready"@,
    ]
}

/// The session must have succeeded.
pub open spec fn session_verdict(facts: FactsModel, name: Seq<char>) -> Result<(), ErrorModel> {
    if facts.session_success {
        Ok(())
    } else {
        Err(ErrorModel::Setup(name + " session failed: "@ + facts.session_status))
    }
}

/// The command must have been interrupted, and its session must have
/// succeeded.
pub open spec fn interrupt_verdict(facts: FactsModel, name: Seq<char>) -> Result<(), ErrorModel> {
    if facts.first.response.signal != Some(terminal::SIGINT) {
        Err(
            ErrorModel::Setup(
                "expected command child to terminate with SIGINT, got "@ + ipc::response_text(
                    facts.first.response,
                ),
            ),
        )
    } else {
        session_verdict(facts, name)
    }
}

/// Whether a run of chained commands passed.
pub open spec fn chain_verdict(facts: FactsModel) -> Result<(), ErrorModel> {
    match first_missing(bytes::lossy(facts.stdout), chain_markers()) {
        Some(marker) => Err(ErrorModel::Setup("missing expected chain marker: "@ + marker)),
        None => if facts.chained.response.exit_code != Some(0i32)
            || facts.first.response.exit_code != Some(0i32) {
            Err(
                ErrorModel::Setup(
                    "expected git and ssh command helpers to exit 0, got git="@
                        + ipc::response_text(facts.first.response) + " ssh="@ + ipc::response_text(
                        facts.chained.response,
                    ),
                ),
            )
        } else {
            session_verdict(facts, "chain"@)
        },
    }
}

/// A command succeeded.
pub open spec fn clean_exit(response: ResponseModel) -> bool {
    response.exit_code == Some(0i32) && response.signal is None && response.spawn_error is None
}

/// Whether a run of a command on its own terminal passed.
pub open spec fn pty_verdict(facts: FactsModel) -> Result<(), ErrorModel> {
    let shown = bytes::lossy(facts.stdout);
    match first_missing(shown, pty_markers()) {
        Some(marker) => Err(ErrorModel::Setup("missing expected command PTY marker: "@ + marker)),
        None => if !text::occurs(shown, "tcgetpgrp="@) || text::occurs(shown, "tcgetpgrp=error"@) {
            Err(
                ErrorModel::Setup(
                    "command helper did not observe a controlling terminal: "@ + shown,
                ),
            )
        } else if !clean_exit(facts.first.response) {
            Err(
                ErrorModel::Setup(
                    "expected command PTY helper to exit 0, got "@ + ipc::response_text(
                        facts.first.response,
                    ),
                ),
            )
        } else {
            session_verdict(facts, "command PTY bridge"@)
        },
    }
}

/// Whether a run passed.
pub open spec fn passed(facts: FactsModel) -> Result<(), ErrorModel> {
    match facts.smoke {
        Smoke::TtySignal => interrupt_verdict(facts, "TTY"@),
        Smoke::JobControl => match first_unseen(facts.transcript, job_markers()) {
            Some(marker) => Err(ErrorModel::Setup("missing expected PTY marker: "@ + marker)),
            None => interrupt_verdict(facts, "TTY job-control"@),
        },
        Smoke::ChainCredential => chain_verdict(facts),
        Smoke::CommandPty => pty_verdict(facts),
        Smoke::Topology => match session_verdict(facts, "topology"@) {
            Err(error) => Err(error),
            Ok(_) => if facts.first.response.spawn_error is Some {
                Err(ErrorModel::Setup("supervisor failed to spawn command child"@))
            } else {
                Ok(())
            },
        },
    }
}

fn find_missing<'a>(held: &str, markers: &Vec<&'a str>) -> (r: Option<&'a str>)
    ensures
        match first_missing(held@, markers@.map_values(|m: &'a str| m@)) {
            Some(marker) => r matches Some(found) && found@ == marker,
            None => r is None,
        },
{
    let ghost all = markers@.map_values(|m: &'a str| m@);
    assert(all.skip(0) =~= all);
    for i in 0..markers.len()
        invariant
            all == markers@.map_values(|m: &'a str| m@),
            first_missing(held@, all) == first_missing(held@, all.skip(i as int)),
    {
        assert(all.skip(i as int).skip(1) =~= all.skip(i + 1));
        assert(all.skip(i as int)[0] == markers@[i as int]@);
        if !text::contains(held, markers[i]) {
            return Some(markers[i]);
        }
    }
    None
}

fn find_unseen<'a>(held: &Vec<u8>, markers: &Vec<&'a str>) -> (r: Option<&'a str>)
    ensures
        match first_unseen(held@, markers@.map_values(|m: &'a str| m@)) {
            Some(marker) => r matches Some(found) && found@ == marker,
            None => r is None,
        },
{
    let ghost all = markers@.map_values(|m: &'a str| m@);
    assert(all.skip(0) =~= all);
    for i in 0..markers.len()
        invariant
            all == markers@.map_values(|m: &'a str| m@),
            first_unseen(held@, all) == first_unseen(held@, all.skip(i as int)),
    {
        assert(all.skip(i as int).skip(1) =~= all.skip(i + 1));
        assert(all.skip(i as int)[0] == markers@[i as int]@);
        if !bytes::contains_subslice(held.as_slice(), markers[i].as_bytes()) {
            return Some(markers[i]);
        }
    }
    None
}

fn judge_session(facts: &Facts, name: &str) -> (r: Result<(), NonoError>)
    ensures
        crate::error::result_view(r) == session_verdict(facts@, name@),
{
    if facts.session_success {
        Ok(())
    } else {
        Err(
            NonoError::Setup(
                text::cat3(name, " session failed: ", facts.session_status.as_str()),
            ),
        )
    }
}

fn is_number(value: Option<i32>, wanted: i32) -> (r: bool)
    ensures
        r == (value == Some(wanted)),
{
    match value {
        Some(value) => value == wanted,
        None => false,
    }
}

fn judge_interrupt(facts: &Facts, name: &str) -> (r: Result<(), NonoError>)
    ensures
        crate::error::result_view(r) == interrupt_verdict(facts@, name@),
{
    if !is_number(facts.first.response.signal, terminal::SIGINT) {
        return Err(
            NonoError::Setup(
                text::cat2(
                    "expected command child to terminate with SIGINT, got ",
                    ipc::response_words(&facts.first.response).as_str(),
                ),
            ),
        );
    }
    judge_session(facts, name)
}

fn judge_job(facts: &Facts) -> (r: Result<(), NonoError>)
    requires
        facts@.smoke == Smoke::JobControl,
    ensures
        crate::error::result_view(r) == passed(facts@),
{
    let markers = vec![
        steps::marker_words(Smoke::JobControl, Marker::Resized),
        steps::marker_words(Smoke::JobControl, Marker::Suspended),
        steps::marker_words(Smoke::JobControl, Marker::Continued),
    ];
    assert(markers@.map_values(|m: &'static str| m@) =~= job_markers());
    match find_unseen(&facts.transcript, &markers) {
        Some(marker) => Err(
            NonoError::Setup(text::cat2("missing expected PTY marker: ", marker)),
        ),
        None => judge_interrupt(facts, "TTY job-control"),
    }
}

fn judge_chain(facts: &Facts) -> (r: Result<(), NonoError>)
    ensures
        crate::error::result_view(r) == chain_verdict(facts@),
{
    let shown = bytes::lossy_text(facts.stdout.as_slice());
    let markers = vec![
        "chain-git-helper-raw-key: denied",
        "chain-ssh-helper-raw-key: denied",
        "chain-ssh-helper-agent: connected",
        "chain-git-helper-ssh-status: 0",
    ];
    assert(markers@.map_values(|m: &'static str| m@) =~= chain_markers());
    if let Some(marker) = find_missing(shown.as_str(), &markers) {
        return Err(NonoError::Setup(text::cat2("missing expected chain marker: ", marker)));
    }
    if !is_number(facts.chained.response.exit_code, 0) || !is_number(
        facts.first.response.exit_code,
        0,
    ) {
        return Err(
            NonoError::Setup(
                text::cat4(
                    "expected git and ssh command helpers to exit 0, got git=",
                    ipc::response_words(&facts.first.response).as_str(),
                    " ssh=",
                    ipc::response_words(&facts.chained.response).as_str(),
                ),
            ),
        );
    }
    judge_session(facts, "chain")
}

fn exited_cleanly(response: &ShimResponse) -> (r: bool)
    ensures
        r == clean_exit(response@),
{
    is_number(response.exit_code, 0) && response.signal.is_none() && response.spawn_error.is_none()
}

fn judge_pty(facts: &Facts) -> (r: Result<(), NonoError>)
    ensures
        crate::error::result_view(r) == pty_verdict(facts@),
{
    let shown = bytes::lossy_text(facts.stdout.as_slice());
    let markers = vec![
        "topology-session: direct policy exec matched=true",
        "command-pty-helper-isatty-stdin: true",
        "command-pty-helper-ready",
    ];
    assert(markers@.map_values(|m: &'static str| m@) =~= pty_markers());
    if let Some(marker) = find_missing(shown.as_str(), &markers) {
        return Err(
            NonoError::Setup(text::cat2("missing expected command PTY marker: ", marker)),
        );
    }
    if !text::contains(shown.as_str(), "tcgetpgrp=") || text::contains(
        shown.as_str(),
        "tcgetpgrp=error",
    ) {
        return Err(
            NonoError::Setup(
                text::cat2(
                    "command helper did not observe a controlling terminal: ",
                    shown.as_str(),
                ),
            ),
        );
    }
    if !exited_cleanly(&facts.first.response) {
        return Err(
            NonoError::Setup(
                text::cat2(
                    "expected command PTY helper to exit 0, got ",
                    ipc::response_words(&facts.first.response).as_str(),
                ),
            ),
        );
    }
    judge_session(facts, "command PTY bridge")
}

/// Decides whether a run passed.
pub fn verdict(facts: &Facts) -> (r: Result<(), NonoError>)
    ensures
        crate::error::result_view(r) == passed(facts@),
{
    match facts.smoke {
        Smoke::TtySignal => judge_interrupt(facts, "TTY"),
        Smoke::JobControl => judge_job(facts),
        Smoke::ChainCredential => judge_chain(facts),
        Smoke::CommandPty => judge_pty(facts),
        Smoke::Topology => match judge_session(facts, "topology") {
            Err(error) => Err(error),
            Ok(_) => if facts.first.response.spawn_error.is_some() {
                Err(NonoError::Setup("supervisor failed to spawn command child".to_owned()))
            } else {
                Ok(())
            },
        },
    }
}

/// A run passes only if its session succeeded, its commands ended as they should,
/// and they showed all that they should: the signals of the terminal, a terminal
/// of their own, or that a key was kept from them and an agent was not.
pub proof fn law_passing_is_earned(facts: FactsModel)
    requires
        passed(facts) is Ok,
    ensures
        facts.session_success,
        facts.smoke == Smoke::TtySignal || facts.smoke == Smoke::JobControl
            ==> facts.first.response.signal == Some(terminal::SIGINT),
        facts.smoke == Smoke::JobControl ==> forall|i: int|
            0 <= i < job_markers().len() ==> bytes::occurs(
                facts.transcript,
                vstd::utf8::encode_utf8(#[trigger] job_markers()[i]),
            ),
        facts.smoke == Smoke::CommandPty ==> {
            &&& clean_exit(facts.first.response)
            &&& forall|i: int|
                0 <= i < pty_markers().len() ==> text::occurs(
                    bytes::lossy(facts.stdout),
                    #[trigger] pty_markers()[i],
                )
            &&& !text::occurs(bytes::lossy(facts.stdout), "tcgetpgrp=error"@)
        },
        facts.smoke == Smoke::Topology ==> facts.first.response.spawn_error is None,
        facts.smoke == Smoke::ChainCredential ==> {
            &&& facts.first.response.exit_code == Some(0i32)
            &&& facts.chained.response.exit_code == Some(0i32)
            &&& forall|i: int|
                0 <= i < chain_markers().len() ==> text::occurs(
                    bytes::lossy(facts.stdout),
                    #[trigger] chain_markers()[i],
                )
        },
{
    match facts.smoke {
        Smoke::ChainCredential => lemma_none_missing(bytes::lossy(facts.stdout), chain_markers()),
        Smoke::CommandPty => lemma_none_missing(bytes::lossy(facts.stdout), pty_markers()),
        Smoke::JobControl => lemma_none_unseen(facts.transcript, job_markers()),
        _ => {},
    }
}

proof fn lemma_none_unseen(held: Seq<u8>, markers: Seq<Seq<char>>)
    requires
        first_unseen(held, markers) is None,
    ensures
        forall|i: int|
            0 <= i < markers.len() ==> bytes::occurs(
                held,
                vstd::utf8::encode_utf8(#[trigger] markers[i]),
            ),
    decreases markers.len(),
{
    if markers.len() > 0 {
        lemma_none_unseen(held, markers.skip(1));
        assert forall|i: int| 0 <= i < markers.len() implies bytes::occurs(
            held,
            vstd::utf8::encode_utf8(#[trigger] markers[i]),
        ) by {
            if i > 0 {
                assert(markers.skip(1)[i - 1] == markers[i]);
            }
        }
    }
}

proof fn lemma_none_missing(held: Seq<char>, markers: Seq<Seq<char>>)
    requires
        first_missing(held, markers) is None,
    ensures
        forall|i: int| 0 <= i < markers.len() ==> text::occurs(held, #[trigger] markers[i]),
    decreases markers.len(),
{
    if markers.len() > 0 {
        lemma_none_missing(held, markers.skip(1));
        assert forall|i: int| 0 <= i < markers.len() implies text::occurs(
            held,
            #[trigger] markers[i],
        ) by {
            if i > 0 {
                assert(markers.skip(1)[i - 1] == markers[i]);
            }
        }
    }
}

} // verus!
