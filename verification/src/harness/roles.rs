//! The roles that the harness plays, and what its helpers report.
use vstd::prelude::*;

use crate::bytes;
use crate::error::{ErrorModel, NonoError};
use crate::harness::process;
use crate::harness::summary;
use crate::paths;
use crate::paths::FilePath;
use crate::text;

verus! {

// ---------------------------------------------------------------------------
// Which role
// ---------------------------------------------------------------------------

/// The roles of processes that the harness starts.
#[derive(Debug, Clone, Copy, PartialEq, Eq, Structural)]
pub enum Role {
    Session,
    Shim,
    Command,
    StdioHelper,
    TtyHelper,
    TtyJobHelper,
    CommandPtyHelper,
    ChainGitHelper,
    ChainSshHelper,
}

/// The role that a name stands for.
pub open spec fn role_named(name: Seq<char>) -> Option<Role> {
    if name == "session"@ {
        Some(Role::Session)
    } else if name == "shim"@ {
        Some(Role::Shim)
    } else if name == "command"@ {
        Some(Role::Command)
    } else if name == "stdio-helper"@ {
        Some(Role::StdioHelper)
    } else if name == "tty-helper"@ {
        Some(Role::TtyHelper)
    } else if name == "tty-job-helper"@ {
        Some(Role::TtyJobHelper)
    } else if name == "command-pty-helper"@ {
        Some(Role::CommandPtyHelper)
    } else if name == "chain-git-helper"@ {
        Some(Role::ChainGitHelper)
    } else if name == "chain-ssh-helper"@ {
        Some(Role::ChainSshHelper)
    } else {
        None
    }
}

/// Finds the role that a name stands for.
pub fn run_topology_role(role: &str) -> (r: Result<Role, NonoError>)
    ensures
        crate::error::result_view(r) == (match role_named(role@) {
            Some(found) => Ok::<Role, ErrorModel>(found),
            None => Err::<Role, ErrorModel>(
                ErrorModel::Setup("unknown internal topology role: "@ + role@),
            ),
        }),
{
    if text::text_eq(role, "session") {
        Ok(Role::Session)
    } else if text::text_eq(role, "shim") {
        Ok(Role::Shim)
    } else if text::text_eq(role, "command") {
        Ok(Role::Command)
    } else if text::text_eq(role, "stdio-helper") {
        Ok(Role::StdioHelper)
    } else if text::text_eq(role, "tty-helper") {
        Ok(Role::TtyHelper)
    } else if text::text_eq(role, "tty-job-helper") {
        Ok(Role::TtyJobHelper)
    } else if text::text_eq(role, "command-pty-helper") {
        Ok(Role::CommandPtyHelper)
    } else if text::text_eq(role, "chain-git-helper") {
        Ok(Role::ChainGitHelper)
    } else if text::text_eq(role, "chain-ssh-helper") {
        Ok(Role::ChainSshHelper)
    } else {
        Err(NonoError::Setup(text::cat2("unknown internal topology role: ", role)))
    }
}

/// What the user asked the harness for.
#[derive(Debug, Clone, Copy, PartialEq, Eq, Structural)]
pub struct ModeFlags {
    pub topology_role: bool,
    pub tty_signal_smoke: bool,
    pub tty_job_control_smoke: bool,
    pub chain_credential_smoke: bool,
    pub command_pty_bridge_smoke: bool,
    /// The environment marks this process as an auto shim.
    pub auto_shim: bool,
    pub stdio_fd_smoke: bool,
    pub topology_smoke: bool,
    pub apply: bool,
    pub dry_run: bool,
}

/// What the harness does.
#[derive(Debug, Clone, Copy, PartialEq, Eq, Structural)]
pub enum Mode {
    Role,
    TtySignalSmoke,
    TtyJobControlSmoke,
    ChainCredentialSmoke,
    CommandPtyBridgeSmoke,
    AutoShim,
    StdioFdSmoke,
    TopologySmoke,
    /// Measure; build the rules, and restrict this process by them, only if
    /// asked to.
    Measure { build: bool, apply: bool },
}

/// The first thing that was asked for is done.
pub open spec fn mode_for(flags: ModeFlags) -> Mode {
    if flags.topology_role {
        Mode::Role
    } else if flags.tty_signal_smoke {
        Mode::TtySignalSmoke
    } else if flags.tty_job_control_smoke {
        Mode::TtyJobControlSmoke
    } else if flags.chain_credential_smoke {
        Mode::ChainCredentialSmoke
    } else if flags.command_pty_bridge_smoke {
        Mode::CommandPtyBridgeSmoke
    } else if flags.auto_shim {
        Mode::AutoShim
    } else if flags.stdio_fd_smoke {
        Mode::StdioFdSmoke
    } else if flags.topology_smoke {
        Mode::TopologySmoke
    } else {
        Mode::Measure {
            build: flags.dry_run || flags.apply,
            apply: flags.apply && !flags.dry_run,
        }
    }
}

/// Decides what the harness does.
pub fn run(flags: ModeFlags) -> (r: Mode)
    ensures
        r == mode_for(flags),
{
    if flags.topology_role {
        Mode::Role
    } else if flags.tty_signal_smoke {
        Mode::TtySignalSmoke
    } else if flags.tty_job_control_smoke {
        Mode::TtyJobControlSmoke
    } else if flags.chain_credential_smoke {
        Mode::ChainCredentialSmoke
    } else if flags.command_pty_bridge_smoke {
        Mode::CommandPtyBridgeSmoke
    } else if flags.auto_shim {
        Mode::AutoShim
    } else if flags.stdio_fd_smoke {
        Mode::StdioFdSmoke
    } else if flags.topology_smoke {
        Mode::TopologySmoke
    } else {
        Mode::Measure {
            build: flags.dry_run || flags.apply,
            apply: flags.apply && !flags.dry_run,
        }
    }
}

/// A dry run builds the rules and does not restrict this process.
pub proof fn law_dry_run_builds_and_does_not_apply(flags: ModeFlags)
    requires
        flags.dry_run,
    ensures
        mode_for(flags) is Measure ==> mode_for(flags) == (Mode::Measure {
            build: true,
            apply: false,
        }),
{
}

/// This process is restricted only where that was asked for, and never without
/// rules to restrict it by.
pub proof fn law_applying_needs_rules(flags: ModeFlags)
    ensures
        mode_for(flags) matches Mode::Measure { build, apply } ==> {
            &&& apply ==> build
            &&& apply ==> flags.apply && !flags.dry_run
            &&& build ==> flags.apply || flags.dry_run
        },
{
}

// ---------------------------------------------------------------------------
// The auto shim
// ---------------------------------------------------------------------------

/// Where an auto shim finds what it needs.
#[derive(Debug, PartialEq, Eq)]
pub struct AutoShim {
    pub command_name: String,
    pub policy_key: String,
    pub helper_key: String,
}

/// What such places stand for.
#[verifier::ext_equal]
pub struct AutoShimModel {
    pub command_name: Seq<char>,
    pub policy_key: Seq<char>,
    pub helper_key: Seq<char>,
}

impl View for AutoShim {
    type V = AutoShimModel;

    open spec fn view(&self) -> AutoShimModel {
        AutoShimModel {
            command_name: self.command_name@,
            policy_key: self.policy_key@,
            helper_key: self.helper_key@,
        }
    }
}

/// An auto shim goes by the name under which it was called.
pub open spec fn auto_shim(called_as: Option<Seq<u8>>) -> Result<AutoShimModel, ErrorModel> {
    match called_as {
        None => Err(ErrorModel::Setup("auto shim argv[0] was missing"@)),
        Some(path) => match paths::file_name_of(path) {
            None => Err(
                ErrorModel::Setup("auto shim argv[0] had no file name: "@ + paths::shown(path)),
            ),
            Some(name) => {
                let command_name = bytes::lossy(name);
                Ok(
                    AutoShimModel {
                        command_name,
                        policy_key: "NONO_HARNESS_POLICY_"@ + process::key_suffix(command_name),
                        helper_key: "NONO_HARNESS_HELPER_"@ + process::key_suffix(command_name),
                    },
                )
            },
        },
    }
}

/// Finds out where an auto shim finds what it needs. `called_as` is the first
/// word of its command line.
pub fn try_run_auto_shim(called_as: Option<&FilePath>) -> (r: Result<AutoShim, NonoError>)
    ensures
        crate::error::outcome(r) == auto_shim(
            match called_as {
                Some(path) => Some(path@),
                None => None,
            },
        ),
{
    let path = match called_as {
        Some(path) => path,
        None => {
            return Err(NonoError::Setup("auto shim argv[0] was missing".to_owned()));
        },
    };
    match path.file_name() {
        None => Err(
            NonoError::Setup(
                text::cat2("auto shim argv[0] had no file name: ", path.display().as_str()),
            ),
        ),
        Some(name) => {
            let command_name = bytes::lossy_text(name.as_slice());
            let suffix = process::env_key_suffix(command_name.as_str());
            Ok(
                AutoShim {
                    command_name,
                    policy_key: text::cat2("NONO_HARNESS_POLICY_", suffix.as_str()),
                    helper_key: text::cat2("NONO_HARNESS_HELPER_", suffix.as_str()),
                },
            )
        },
    }
}

// ---------------------------------------------------------------------------
// What helpers report
// ---------------------------------------------------------------------------

/// How a helper ends.
#[derive(Debug, PartialEq, Eq)]
pub enum HelperEnd {
    Success,
    Exit(i32),
    Failed(NonoError),
}

/// What such an end stands for.
#[verifier::ext_equal]
pub enum EndModel {
    Success,
    Exit(i32),
    Failed(ErrorModel),
}

impl View for HelperEnd {
    type V = EndModel;

    open spec fn view(&self) -> EndModel {
        match self {
            HelperEnd::Success => EndModel::Success,
            HelperEnd::Exit(code) => EndModel::Exit(*code),
            HelperEnd::Failed(error) => EndModel::Failed(error@),
        }
    }
}

/// What a helper prints, and how it ends.
#[derive(Debug, PartialEq, Eq)]
pub struct HelperReport {
    pub stdout: Vec<String>,
    pub stderr: Vec<String>,
    pub end: HelperEnd,
}

/// What a report stands for.
#[verifier::ext_equal]
pub struct HelperModel {
    pub stdout: Seq<Seq<char>>,
    pub stderr: Seq<Seq<char>>,
    pub end: EndModel,
}

impl View for HelperReport {
    type V = HelperModel;

    open spec fn view(&self) -> HelperModel {
        HelperModel {
            stdout: text::texts(self.stdout@),
            stderr: text::texts(self.stderr@),
            end: self.end@,
        }
    }
}

fn one_line(line: String) -> (r: Vec<String>)
    ensures
        text::texts(r@) == seq![line@],
{
    let ghost value = line@;
    let mut out: Vec<String> = Vec::new();
    out.push(line);
    assert(text::texts(out@) =~= seq![value]);
    out
}

fn no_lines() -> (r: Vec<String>)
    ensures
        text::texts(r@) == Seq::<Seq<char>>::empty(),
{
    let out: Vec<String> = Vec::new();
    assert(text::texts(out@) =~= Seq::empty());
    out
}

/// A list of numbers as it is written for debugging.
pub open spec fn number_list(list: Seq<i32>) -> Seq<char> {
    "["@ + text::joined(list.map_values(|n: i32| text::signed_decimal(n as int)), ", "@) + "]"@
}

/// Writes a list of numbers for debugging.
pub fn number_list_text(list: &Vec<i32>) -> (r: String)
    ensures
        r@ == number_list(list@),
{
    let mut words: Vec<String> = Vec::new();
    for i in 0..list.len()
        invariant
            words@.len() == i,
            forall|j: int|
                0 <= j < i ==> (#[trigger] words@[j])@ == text::signed_decimal(list@[j] as int),
    {
        words.push(text::signed_decimal_text(list[i]));
    }
    assert(text::texts(words@) =~= list@.map_values(|n: i32| text::signed_decimal(n as int)));
    text::cat3("[", text::join_texts(&words, ", ").as_str(), "]")
}

/// What is sent to a helper to prove that its input arrives.
pub open spec fn stdio_proof() -> Seq<u8> {
    vstd::utf8::encode_utf8("nono-stdin-proof\n"@)
}

/// Makes what is sent to a helper to prove that its input arrives.
pub fn stdio_proof_input() -> (r: Vec<u8>)
    ensures
        r@ == stdio_proof(),
{
    bytes::copy_bytes("nono-stdin-proof\n".as_bytes())
}

/// The helper proves that its input arrived and that no descriptor leaked.
pub open spec fn stdio_helper(input: Result<Seq<u8>, Seq<char>>, open_fds: Seq<i32>) -> HelperModel {
    let none = Seq::<Seq<char>>::empty();
    match input {
        Err(reason) => HelperModel {
            stdout: none,
            stderr: none,
            end: EndModel::Failed(
                ErrorModel::Setup("stdio helper failed to read stdin: "@ + reason),
            ),
        },
        Ok(input) => if input != stdio_proof() {
            HelperModel {
                stdout: none,
                stderr: seq![
                    "stdio-helper: stdin mismatch, got "@ + text::debug_text(bytes::lossy(input)),
                ],
                end: EndModel::Exit(42),
            }
        } else {
            let stdout = seq![
                "stdio-helper-stdout: "@ + text::trimmed_end(bytes::lossy(input)),
                "stdio-helper-open-fds: "@ + number_list(open_fds),
            ];
            if open_fds.len() > 0 {
                HelperModel {
                    stdout,
                    stderr: seq![
                        "stdio-helper-stderr: proof"@,
                        "stdio-helper: leaked fds above stderr: "@ + number_list(open_fds),
                    ],
                    end: EndModel::Exit(43),
                }
            } else {
                HelperModel {
                    stdout,
                    stderr: seq!["stdio-helper-stderr: proof"@],
                    end: EndModel::Success,
                }
            }
        },
    }
}

/// Reports what a helper read and which descriptors it found open.
pub fn run_stdio_helper(input: Result<Vec<u8>, String>, open_fds: &Vec<i32>) -> (r: HelperReport)
    ensures
        r@ == stdio_helper(process::reply_view(input), open_fds@),
{
    let input = match input {
        Ok(input) => input,
        Err(reason) => {
            return HelperReport {
                stdout: no_lines(),
                stderr: no_lines(),
                end: HelperEnd::Failed(
                    NonoError::Setup(
                        text::cat2("stdio helper failed to read stdin: ", reason.as_str()),
                    ),
                ),
            };
        },
    };
    let shown = bytes::lossy_text(input.as_slice());
    if !bytes::bytes_eq(input.as_slice(), stdio_proof_input().as_slice()) {
        return HelperReport {
            stdout: no_lines(),
            stderr: one_line(
                text::cat2(
                    "stdio-helper: stdin mismatch, got ",
                    text::quoted(shown.as_str()).as_str(),
                ),
            ),
            end: HelperEnd::Exit(42),
        };
    }
    let fds = number_list_text(open_fds);
    let mut stdout = one_line(
        text::cat2("stdio-helper-stdout: ", text::trim_end(shown.as_str()).as_str()),
    );
    text::push_text(&mut stdout, text::cat2("stdio-helper-open-fds: ", fds.as_str()));
    let mut stderr = one_line("stdio-helper-stderr: proof".to_owned());
    let ghost out = text::texts(stdout@);
    assert(out =~= seq![
        "stdio-helper-stdout: "@ + text::trimmed_end(bytes::lossy(input@)),
        "stdio-helper-open-fds: "@ + number_list(open_fds@),
    ]);
    if open_fds.len() > 0 {
        text::push_text(
            &mut stderr,
            text::cat2("stdio-helper: leaked fds above stderr: ", fds.as_str()),
        );
        assert(text::texts(stderr@) =~= seq![
            "stdio-helper-stderr: proof"@,
            "stdio-helper: leaked fds above stderr: "@ + number_list(open_fds@),
        ]);
        return HelperReport { stdout, stderr, end: HelperEnd::Exit(43) };
    }
    HelperReport { stdout, stderr, end: HelperEnd::Success }
}

/// Lines by which a helper shows its terminal.
pub open spec fn terminal_lines(
    name: Seq<char>,
    is_tty: bool,
    pid: i32,
    pgrp: i32,
    sid: i32,
    foreground: Seq<char>,
    ready: Seq<char>,
) -> Seq<Seq<char>> {
    seq![
        name + "-isatty-stdin: "@ + summary::truth(is_tty),
        name + "-pid: "@ + text::signed_decimal(pid as int) + " pgrp="@ + text::signed_decimal(
            pgrp as int,
        ) + " sid="@ + text::signed_decimal(sid as int) + " tcgetpgrp="@ + foreground,
        ready,
    ]
}

fn terminal_report(
    name: &str,
    is_tty: bool,
    pid: i32,
    pgrp: i32,
    sid: i32,
    foreground: &str,
    ready: &str,
) -> (r: Vec<String>)
    ensures
        text::texts(r@) == terminal_lines(name@, is_tty, pid, pgrp, sid, foreground@, ready@),
{
    let mut out = one_line(
        text::cat3(name, "-isatty-stdin: ", summary::truth_text(is_tty)),
    );
    let beginning = text::cat5(
        name,
        "-pid: ",
        text::signed_decimal_text(pid).as_str(),
        " pgrp=",
        text::signed_decimal_text(pgrp).as_str(),
    );
    text::push_text(
        &mut out,
        text::cat5(
            beginning.as_str(),
            " sid=",
            text::signed_decimal_text(sid).as_str(),
            " tcgetpgrp=",
            foreground,
        ),
    );
    text::push_text(&mut out, ready.to_owned());
    assert(text::texts(out@) =~= terminal_lines(
        name@,
        is_tty,
        pid,
        pgrp,
        sid,
        foreground@,
        ready@,
    ));
    out
}

/// Reports what a helper on a terminal sees.
pub fn run_tty_helper(is_tty: bool) -> (r: Vec<String>)
    ensures
        text::texts(r@) == seq![
            "tty-helper-isatty-stdin: "@ + summary::truth(is_tty),
            "tty-helper-ready"@,
        ],
{
    let mut out = one_line(text::cat2("tty-helper-isatty-stdin: ", summary::truth_text(is_tty)));
    text::push_text(&mut out, "tty-helper-ready".to_owned());
    assert(text::texts(out@) =~= seq![
        "tty-helper-isatty-stdin: "@ + summary::truth(is_tty),
        "tty-helper-ready"@,
    ]);
    out
}

/// Reports what a helper with job control sees. `foreground` says which process
/// group has the terminal.
pub fn run_tty_job_helper(is_tty: bool, pid: i32, pgrp: i32, sid: i32, foreground: &str) -> (r: Vec<
    String,
>)
    ensures
        text::texts(r@) == terminal_lines(
            "tty-job-helper"@,
            is_tty,
            pid,
            pgrp,
            sid,
            foreground@,
            "tty-job-helper-ready"@,
        ),
{
    terminal_report("tty-job-helper", is_tty, pid, pgrp, sid, foreground, "tty-job-helper-ready")
}

/// Reports what a helper on its own terminal sees.
pub fn run_command_pty_helper(
    is_tty: bool,
    pid: i32,
    pgrp: i32,
    sid: i32,
    foreground: &str,
) -> (r: Vec<String>)
    ensures
        text::texts(r@) == terminal_lines(
            "command-pty-helper"@,
            is_tty,
            pid,
            pgrp,
            sid,
            foreground@,
            "command-pty-helper-ready"@,
        ),
{
    terminal_report(
        "command-pty-helper",
        is_tty,
        pid,
        pgrp,
        sid,
        foreground,
        "command-pty-helper-ready",
    )
}

/// What became of opening a key that should be out of reach.
#[derive(Debug, PartialEq, Eq)]
pub enum OpenReply {
    Opened,
    Denied,
    Failed(String),
}

/// What such a reply stands for.
#[verifier::ext_equal]
pub enum OpenModel {
    Opened,
    Denied,
    Failed(Seq<char>),
}

impl View for OpenReply {
    type V = OpenModel;

    open spec fn view(&self) -> OpenModel {
        match self {
            OpenReply::Opened => OpenModel::Opened,
            OpenReply::Denied => OpenModel::Denied,
            OpenReply::Failed(reason) => OpenModel::Failed(reason@),
        }
    }
}

/// A key out of reach is denied; one in reach is a failure, and so is any other
/// trouble.
pub open spec fn raw_key_denied(label: Seq<char>, path: Seq<u8>, reply: OpenModel) -> HelperModel {
    let none = Seq::<Seq<char>>::empty();
    match reply {
        OpenModel::Opened => HelperModel {
            stdout: none,
            stderr: seq![label + "-raw-key: unexpectedly-readable"@],
            end: EndModel::Exit(45),
        },
        OpenModel::Denied => HelperModel {
            stdout: seq![label + "-raw-key: denied"@],
            stderr: none,
            end: EndModel::Success,
        },
        OpenModel::Failed(reason) => HelperModel {
            stdout: none,
            stderr: none,
            end: EndModel::Failed(
                ErrorModel::Setup(
                    label + " raw-key probe failed with non-permission error for "@
                        + paths::shown(path) + ": "@ + reason,
                ),
            ),
        },
    }
}

/// Judges whether a key is out of reach.
pub fn assert_raw_key_denied(label: &str, path: &FilePath, reply: OpenReply) -> (r: HelperReport)
    ensures
        r@ == raw_key_denied(label@, path@, reply@),
{
    match reply {
        OpenReply::Opened => HelperReport {
            stdout: no_lines(),
            stderr: one_line(text::cat2(label, "-raw-key: unexpectedly-readable")),
            end: HelperEnd::Exit(45),
        },
        OpenReply::Denied => HelperReport {
            stdout: one_line(text::cat2(label, "-raw-key: denied")),
            stderr: no_lines(),
            end: HelperEnd::Success,
        },
        OpenReply::Failed(reason) => HelperReport {
            stdout: no_lines(),
            stderr: no_lines(),
            end: HelperEnd::Failed(
                NonoError::Setup(
                    text::cat5(
                        label,
                        " raw-key probe failed with non-permission error for ",
                        path.display().as_str(),
                        ": ",
                        reason.as_str(),
                    ),
                ),
            ),
        },
    }
}

/// The helper passes on how the chained command ended.
pub open spec fn chain_git_helper(status: Result<Option<i32>, Seq<char>>) -> HelperModel {
    let none = Seq::<Seq<char>>::empty();
    match status {
        Err(reason) => HelperModel {
            stdout: none,
            stderr: none,
            end: EndModel::Failed(
                ErrorModel::Setup("chain git helper failed to spawn ssh shim: "@ + reason),
            ),
        },
        Ok(code) => {
            let code = match code {
                Some(code) => code,
                None => 128i32,
            };
            HelperModel {
                stdout: seq!["chain-git-helper-ssh-status: "@ + text::signed_decimal(code as int)],
                stderr: none,
                end: if code == 0 {
                    EndModel::Success
                } else {
                    EndModel::Exit(code)
                },
            }
        },
    }
}

/// Reports how the chained command ended.
pub fn run_chain_git_helper(status: Result<Option<i32>, String>) -> (r: HelperReport)
    ensures
        r@ == chain_git_helper(process::plain_reply(status)),
{
    match status {
        Err(reason) => HelperReport {
            stdout: no_lines(),
            stderr: no_lines(),
            end: HelperEnd::Failed(
                NonoError::Setup(
                    text::cat2("chain git helper failed to spawn ssh shim: ", reason.as_str()),
                ),
            ),
        },
        Ok(code) => {
            let code: i32 = match code {
                Some(code) => code,
                None => 128,
            };
            HelperReport {
                stdout: one_line(
                    text::cat2(
                        "chain-git-helper-ssh-status: ",
                        text::signed_decimal_text(code).as_str(),
                    ),
                ),
                stderr: no_lines(),
                end: if code == 0 {
                    HelperEnd::Success
                } else {
                    HelperEnd::Exit(code)
                },
            }
        },
    }
}

/// The helper shows that it reached the agent.
pub open spec fn chain_ssh_helper(agent: Seq<u8>, reply: Result<(), Seq<char>>) -> HelperModel {
    let none = Seq::<Seq<char>>::empty();
    match reply {
        Ok(_) => HelperModel {
            stdout: seq!["chain-ssh-helper-agent: connected"@],
            stderr: none,
            end: EndModel::Success,
        },
        Err(reason) => HelperModel {
            stdout: none,
            stderr: seq![
                "chain-ssh-helper-agent: failed to connect "@ + paths::shown(agent) + ": "@
                    + reason,
            ],
            end: EndModel::Exit(44),
        },
    }
}

/// Reports whether the agent was reached.
pub fn run_chain_ssh_helper(agent: &FilePath, reply: Result<(), String>) -> (r: HelperReport)
    ensures
        r@ == chain_ssh_helper(agent@, process::plain_reply(reply)),
{
    match reply {
        Ok(_) => HelperReport {
            stdout: one_line("chain-ssh-helper-agent: connected".to_owned()),
            stderr: no_lines(),
            end: HelperEnd::Success,
        },
        Err(reason) => HelperReport {
            stdout: no_lines(),
            stderr: one_line(
                text::cat4(
                    "chain-ssh-helper-agent: failed to connect ",
                    agent.display().as_str(),
                    ": ",
                    reason.as_str(),
                ),
            ),
            end: HelperEnd::Exit(44),
        },
    }
}

} // verus!
