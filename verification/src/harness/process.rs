//! Processes of the harness: how they are started, named and told apart.
use vstd::prelude::*;

use crate::bytes;
use crate::error::{ErrorModel, NonoError};
use crate::harness::FileId;
use crate::paths;
use crate::paths::FilePath;
use crate::proxy::args;
use crate::text;

verus! {

// ---------------------------------------------------------------------------
// Names and arguments
// ---------------------------------------------------------------------------

/// A character of an environment key: letters and digits in upper case, and an
/// underscore for anything else.
pub open spec fn key_char(c: char) -> char {
    if 'a' <= c <= 'z' {
        text::ascii_upper(c)
    } else if 'A' <= c <= 'Z' || '0' <= c <= '9' {
        c
    } else {
        '_'
    }
}

/// The end of the environment key for a command.
pub open spec fn key_suffix(command: Seq<char>) -> Seq<char> {
    command.map_values(|c: char| key_char(c))
}

/// Makes the end of the environment key for a command.
pub fn env_key_suffix(command_name: &str) -> (r: String)
    ensures
        r@ == key_suffix(command_name@),
{
    let mut out = String::new();
    for c in it: command_name.chars()
        invariant
            it.seq() == command_name@,
            out@ =~= key_suffix(command_name@.take(it.index() as int)),
    {
        let key: char = if 'a' <= c && c <= 'z' {
            ((c as u8) - 32) as char
        } else if ('A' <= c && c <= 'Z') || ('0' <= c && c <= '9') {
            c
        } else {
            '_'
        };
        out.push(key);
    }
    assert(command_name@.take(command_name@.len() as int) =~= command_name@);
    out
}

/// A flag before every path.
pub open spec fn repeated(name: Seq<char>, values: Seq<Seq<u8>>) -> Seq<Seq<char>>
    decreases values.len(),
{
    if values.len() == 0 {
        Seq::empty()
    } else {
        repeated(name, values.drop_last()).push(name).push(paths::shown(values.last()))
    }
}

/// Puts a flag before every path.
pub fn flatten_repeated(name: &str, values: &Vec<FilePath>) -> (r: Vec<String>)
    ensures
        text::texts(r@) == repeated(name@, text::views(values@)),
{
    let ghost all = text::views(values@);
    let mut out: Vec<String> = Vec::new();
    assert(text::texts(out@) =~= repeated(name@, all.take(0)));
    for i in 0..values.len()
        invariant
            all == text::views(values@),
            text::texts(out@) == repeated(name@, all.take(i as int)),
    {
        assert(all.take(i + 1).drop_last() =~= all.take(i as int));
        assert(all.take(i + 1).last() == values@[i as int]@);
        text::push_text(&mut out, name.to_owned());
        text::push_text(&mut out, values[i].display());
    }
    assert(all.take(all.len() as int) =~= all);
    out
}

/// A flag before a value that may be missing.
pub open spec fn optional(name: Seq<char>, value: Option<Seq<char>>) -> Seq<Seq<char>> {
    match value {
        Some(value) => seq![name, value],
        None => Seq::empty(),
    }
}

/// Puts a flag before a value that may be missing.
pub fn optional_arg(name: &str, value: Option<&str>) -> (r: Vec<String>)
    ensures
        text::texts(r@) == optional(
            name@,
            match value {
                Some(value) => Some(value@),
                None => None,
            },
        ),
{
    let mut out: Vec<String> = Vec::new();
    assert(text::texts(out@) =~= Seq::empty());
    if let Some(value) = value {
        text::push_text(&mut out, name.to_owned());
        text::push_text(&mut out, value.to_owned());
        assert(text::texts(out@) =~= seq![name@, value@]);
    }
    out
}

/// Texts as the bytes of arguments.
pub open spec fn encoded(list: Seq<Seq<char>>) -> Seq<Seq<u8>> {
    list.map_values(|t: Seq<char>| vstd::utf8::encode_utf8(t))
}

/// One text as the bytes of an argument.
pub open spec fn arg(word: Seq<char>) -> Seq<Seq<u8>> {
    seq![vstd::utf8::encode_utf8(word)]
}

/// A flag and a path.
pub open spec fn path_arg(flag: Seq<char>, path: Seq<u8>) -> Seq<Seq<u8>> {
    seq![vstd::utf8::encode_utf8(flag), path]
}

fn push_arg(argv: &mut Vec<FilePath>, word: &str)
    ensures
        text::views(final(argv)@) == text::views(old(argv)@) + arg(word@),
{
    let ghost before = text::views(argv@);
    argv.push(FilePath::from_text(word));
    assert(text::views(argv@) =~= before + arg(word@));
}

fn push_path(argv: &mut Vec<FilePath>, flag: &str, path: &FilePath)
    ensures
        text::views(final(argv)@) == text::views(old(argv)@) + path_arg(flag@, path@),
{
    let ghost before = text::views(argv@);
    argv.push(FilePath::from_text(flag));
    argv.push(path.clone());
    assert(text::views(argv@) =~= before + path_arg(flag@, path@));
}

fn push_texts(argv: &mut Vec<FilePath>, list: &Vec<String>)
    ensures
        text::views(final(argv)@) == text::views(old(argv)@) + encoded(text::texts(list@)),
{
    let ghost before = text::views(argv@);
    let ghost all = encoded(text::texts(list@));
    assert(before + all.take(0) =~= before);
    for i in 0..list.len()
        invariant
            all == encoded(text::texts(list@)),
            text::views(argv@) == before + all.take(i as int),
    {
        push_arg(argv, list[i].as_str());
        assert(all[i as int] == vstd::utf8::encode_utf8(list@[i as int]@));
        assert(all.take(i + 1) =~= all.take(i as int) + arg(list@[i as int]@));
    }
    assert(all.take(all.len() as int) =~= all);
}

/// The paths that the user gave to scan.
#[derive(Debug, PartialEq, Eq)]
pub struct ScanFlags {
    pub exec_dirs: Vec<FilePath>,
    pub support_dirs: Vec<FilePath>,
    pub support_files: Vec<FilePath>,
}

/// What such paths stand for.
#[verifier::ext_equal]
pub struct FlagsModel {
    pub exec_dirs: Seq<Seq<u8>>,
    pub support_dirs: Seq<Seq<u8>>,
    pub support_files: Seq<Seq<u8>>,
}

impl View for ScanFlags {
    type V = FlagsModel;

    open spec fn view(&self) -> FlagsModel {
        FlagsModel {
            exec_dirs: text::views(self.exec_dirs@),
            support_dirs: text::views(self.support_dirs@),
            support_files: text::views(self.support_files@),
        }
    }
}

/// The flags for the paths to scan.
pub open spec fn scan_args(flags: FlagsModel) -> Seq<Seq<u8>> {
    encoded(repeated("--exec-dir"@, flags.exec_dirs)) + encoded(
        repeated("--support-dir"@, flags.support_dirs),
    ) + encoded(repeated("--support-file"@, flags.support_files))
}

fn push_scan_args(argv: &mut Vec<FilePath>, flags: &ScanFlags)
    ensures
        text::views(final(argv)@) == text::views(old(argv)@) + scan_args(flags@),
{
    let ghost before = text::views(argv@);
    push_texts(argv, &flatten_repeated("--exec-dir", &flags.exec_dirs));
    push_texts(argv, &flatten_repeated("--support-dir", &flags.support_dirs));
    push_texts(argv, &flatten_repeated("--support-file", &flags.support_files));
    assert(text::views(argv@) =~= before + scan_args(flags@));
}

/// What every session is told: its role, the supervisor's socket, the policy
/// binary and the shim.
pub open spec fn session_head(socket: Seq<u8>, policy: Seq<u8>, shim: Seq<u8>) -> Seq<Seq<u8>> {
    arg("--topology-role"@) + arg("session"@) + path_arg("--topology-socket"@, socket) + path_arg(
        "--topology-policy"@,
        policy,
    ) + path_arg("--topology-shim"@, shim)
}

/// The arguments of a session whose helper is named up front.
pub open spec fn helper_session_args(
    socket: Seq<u8>,
    policy: Seq<u8>,
    shim: Seq<u8>,
    helper: Seq<char>,
    flags: FlagsModel,
) -> Seq<Seq<u8>> {
    session_head(socket, policy, shim) + arg("--topology-helper-role"@) + arg(helper) + path_arg(
        "--exclude"@,
        policy,
    ) + scan_args(flags)
}

/// The arguments of a session whose helper, if any, is named at the end.
pub open spec fn plain_session_args(
    socket: Seq<u8>,
    policy: Seq<u8>,
    shim: Seq<u8>,
    helper: Option<Seq<char>>,
    flags: FlagsModel,
) -> Seq<Seq<u8>> {
    session_head(socket, policy, shim) + path_arg("--exclude"@, policy) + scan_args(flags)
        + encoded(optional("--topology-helper-role"@, helper))
}

/// The arguments of a session that chains two commands.
pub open spec fn chain_session_args(
    socket: Seq<u8>,
    git_real: Seq<u8>,
    git_shim: Seq<u8>,
    ssh_real: Seq<u8>,
    real_dir: Seq<u8>,
    flags: FlagsModel,
) -> Seq<Seq<u8>> {
    session_head(socket, git_real, git_shim) + arg("--topology-helper-role"@) + arg(
        "chain-git-helper"@,
    ) + path_arg("--exclude"@, git_real) + path_arg("--exclude"@, ssh_real) + path_arg(
        "--exec-dir"@,
        real_dir,
    ) + scan_args(flags)
}

fn start_session_args(socket: &FilePath, policy: &FilePath, shim: &FilePath) -> (r: Vec<FilePath>)
    ensures
        text::views(r@) == session_head(socket@, policy@, shim@),
{
    let mut argv: Vec<FilePath> = Vec::new();
    assert(text::views(argv@) =~= Seq::empty());
    push_arg(&mut argv, "--topology-role");
    push_arg(&mut argv, "session");
    push_path(&mut argv, "--topology-socket", socket);
    push_path(&mut argv, "--topology-policy", policy);
    push_path(&mut argv, "--topology-shim", shim);
    assert(text::views(argv@) =~= session_head(socket@, policy@, shim@));
    argv
}

/// Makes the arguments of a session whose helper is named up front.
pub fn helper_session_argv(
    socket: &FilePath,
    policy: &FilePath,
    shim: &FilePath,
    helper: &str,
    flags: &ScanFlags,
) -> (r: Vec<FilePath>)
    ensures
        text::views(r@) == helper_session_args(socket@, policy@, shim@, helper@, flags@),
{
    let mut argv = start_session_args(socket, policy, shim);
    push_arg(&mut argv, "--topology-helper-role");
    push_arg(&mut argv, helper);
    push_path(&mut argv, "--exclude", policy);
    push_scan_args(&mut argv, flags);
    argv
}

/// Makes the arguments of a session whose helper, if any, is named at the end.
pub fn plain_session_argv(
    socket: &FilePath,
    policy: &FilePath,
    shim: &FilePath,
    helper: Option<&str>,
    flags: &ScanFlags,
) -> (r: Vec<FilePath>)
    ensures
        text::views(r@) == plain_session_args(
            socket@,
            policy@,
            shim@,
            match helper {
                Some(helper) => Some(helper@),
                None => None,
            },
            flags@,
        ),
{
    let mut argv = start_session_args(socket, policy, shim);
    push_path(&mut argv, "--exclude", policy);
    push_scan_args(&mut argv, flags);
    push_texts(&mut argv, &optional_arg("--topology-helper-role", helper));
    argv
}

/// Makes the arguments of a session that chains two commands.
pub fn chain_session_argv(
    socket: &FilePath,
    git_real: &FilePath,
    git_shim: &FilePath,
    ssh_real: &FilePath,
    real_dir: &FilePath,
    flags: &ScanFlags,
) -> (r: Vec<FilePath>)
    ensures
        text::views(r@) == chain_session_args(
            socket@,
            git_real@,
            git_shim@,
            ssh_real@,
            real_dir@,
            flags@,
        ),
{
    let mut argv = start_session_args(socket, git_real, git_shim);
    push_arg(&mut argv, "--topology-helper-role");
    push_arg(&mut argv, "chain-git-helper");
    push_path(&mut argv, "--exclude", git_real);
    push_path(&mut argv, "--exclude", ssh_real);
    push_path(&mut argv, "--exec-dir", real_dir);
    push_scan_args(&mut argv, flags);
    argv
}

/// The optional path behind its flag.
pub open spec fn optional_path(flag: Seq<char>, path: Option<Seq<u8>>) -> Seq<Seq<u8>> {
    match path {
        Some(path) => path_arg(flag, path),
        None => Seq::empty(),
    }
}

/// The arguments of the launcher of a supervised command.
pub open spec fn command_args(
    policy: Seq<u8>,
    helper: Option<Seq<char>>,
    socket: Option<Seq<u8>>,
    shim: Option<Seq<u8>>,
    command_pty: bool,
) -> Seq<Seq<u8>> {
    arg("--topology-role"@) + arg("command"@) + path_arg("--topology-policy"@, policy) + encoded(
        optional("--topology-helper-role"@, helper),
    ) + optional_path("--topology-socket"@, socket) + optional_path("--topology-shim"@, shim) + (
    if command_pty {
        arg("--topology-command-pty"@)
    } else {
        Seq::empty()
    })
}

/// Makes the arguments of the launcher of a supervised command.
pub fn spawn_supervised_command_with_context(
    policy: &FilePath,
    helper: Option<&str>,
    socket: Option<&FilePath>,
    shim: Option<&FilePath>,
    command_pty: bool,
) -> (r: Vec<FilePath>)
    ensures
        text::views(r@) == command_args(
            policy@,
            match helper {
                Some(helper) => Some(helper@),
                None => None,
            },
            match socket {
                Some(socket) => Some(socket@),
                None => None,
            },
            match shim {
                Some(shim) => Some(shim@),
                None => None,
            },
            command_pty,
        ),
{
    let mut argv: Vec<FilePath> = Vec::new();
    assert(text::views(argv@) =~= Seq::empty());
    push_arg(&mut argv, "--topology-role");
    push_arg(&mut argv, "command");
    push_path(&mut argv, "--topology-policy", policy);
    assert(text::views(argv@) =~= arg("--topology-role"@) + arg("command"@) + path_arg(
        "--topology-policy"@,
        policy@,
    ));
    push_texts(&mut argv, &optional_arg("--topology-helper-role", helper));
    let ghost named = text::views(argv@);
    if let Some(socket) = socket {
        push_path(&mut argv, "--topology-socket", socket);
    } else {
        assert(named + Seq::<Seq<u8>>::empty() =~= named);
    }
    let ghost placed = text::views(argv@);
    if let Some(shim) = shim {
        push_path(&mut argv, "--topology-shim", shim);
    } else {
        assert(placed + Seq::<Seq<u8>>::empty() =~= placed);
    }
    let ghost shimmed = text::views(argv@);
    if command_pty {
        push_arg(&mut argv, "--topology-command-pty");
    } else {
        assert(shimmed + Seq::<Seq<u8>>::empty() =~= shimmed);
    }
    argv
}

/// The arguments of the shim that a session starts.
pub open spec fn shim_args(socket: Seq<u8>, policy: Seq<u8>, helper: Option<Seq<char>>) -> Seq<
    Seq<u8>,
> {
    arg("--topology-role"@) + arg("shim"@) + path_arg("--topology-socket"@, socket) + path_arg(
        "--topology-policy"@,
        policy,
    ) + encoded(optional("--topology-helper-role"@, helper))
}

/// Makes the arguments of the shim that a session starts.
pub fn shim_argv(socket: &FilePath, policy: &FilePath, helper: Option<&str>) -> (r: Vec<FilePath>)
    ensures
        text::views(r@) == shim_args(
            socket@,
            policy@,
            match helper {
                Some(helper) => Some(helper@),
                None => None,
            },
        ),
{
    let mut argv: Vec<FilePath> = Vec::new();
    assert(text::views(argv@) =~= Seq::empty());
    push_arg(&mut argv, "--topology-role");
    push_arg(&mut argv, "shim");
    push_path(&mut argv, "--topology-socket", socket);
    push_path(&mut argv, "--topology-policy", policy);
    assert(text::views(argv@) =~= arg("--topology-role"@) + arg("shim"@) + path_arg(
        "--topology-socket"@,
        socket@,
    ) + path_arg("--topology-policy"@, policy@));
    push_texts(&mut argv, &optional_arg("--topology-helper-role", helper));
    argv
}

/// A variable of the environment.
#[derive(Debug, PartialEq, Eq)]
pub struct EnvVar {
    pub name: String,
    pub value: String,
}

/// What a variable stands for.
#[verifier::ext_equal]
pub struct EnvModel {
    pub name: Seq<char>,
    pub value: Seq<char>,
}

impl View for EnvVar {
    type V = EnvModel;

    open spec fn view(&self) -> EnvModel {
        EnvModel { name: self.name@, value: self.value@ }
    }
}

/// The environment in which a chained command finds its shim, its supervisor
/// and its credentials.
pub open spec fn chained_env(
    shim_dir: Seq<u8>,
    socket: Seq<u8>,
    ssh_real: Seq<u8>,
    raw_key: Seq<u8>,
    agent_sock: Seq<u8>,
    search_path: Seq<char>,
) -> Seq<EnvModel> {
    seq![
        EnvModel { name: "PATH"@, value: paths::shown(shim_dir) + ":"@ + search_path },
        EnvModel { name: "NONO_HARNESS_AUTO_SHIM"@, value: "1"@ },
        EnvModel { name: "NONO_SUPERVISOR_SOCK"@, value: paths::shown(socket) },
        EnvModel { name: "NONO_HARNESS_POLICY_SSH"@, value: paths::shown(ssh_real) },
        EnvModel { name: "NONO_HARNESS_HELPER_SSH"@, value: "chain-ssh-helper"@ },
        EnvModel { name: "CHAIN_RAW_KEY"@, value: paths::shown(raw_key) },
        EnvModel { name: "SSH_AUTH_SOCK"@, value: paths::shown(agent_sock) },
    ]
}

fn env_var(name: &str, value: String) -> (r: EnvVar)
    ensures
        r@ == (EnvModel { name: name@, value: value@ }),
{
    EnvVar { name: name.to_owned(), value }
}

/// Makes the environment of a chained command. `search_path` is the one of the
/// supervisor.
pub fn chain_env(
    shim_dir: &FilePath,
    socket_path: &FilePath,
    ssh_real: &FilePath,
    raw_key: &FilePath,
    agent_sock: &FilePath,
    search_path: &str,
) -> (r: Vec<EnvVar>)
    ensures
        text::views(r@) == chained_env(
            shim_dir@,
            socket_path@,
            ssh_real@,
            raw_key@,
            agent_sock@,
            search_path@,
        ),
{
    let mut out: Vec<EnvVar> = Vec::new();
    out.push(env_var("PATH", text::cat3(shim_dir.display().as_str(), ":", search_path)));
    out.push(env_var("NONO_HARNESS_AUTO_SHIM", "1".to_owned()));
    out.push(env_var("NONO_SUPERVISOR_SOCK", socket_path.display()));
    out.push(env_var("NONO_HARNESS_POLICY_SSH", ssh_real.display()));
    out.push(env_var("NONO_HARNESS_HELPER_SSH", "chain-ssh-helper".to_owned()));
    out.push(env_var("CHAIN_RAW_KEY", raw_key.display()));
    out.push(env_var("SSH_AUTH_SOCK", agent_sock.display()));
    assert(text::views(out@) =~= chained_env(
        shim_dir@,
        socket_path@,
        ssh_real@,
        raw_key@,
        agent_sock@,
        search_path@,
    ));
    out
}

/// The keys under which an auto shim looks up its policy and its helper agree
/// with the environment that a chained command named `ssh` is given.
pub proof fn law_chained_shim_finds_its_policy()
    ensures
        "NONO_HARNESS_POLICY_"@ + key_suffix("ssh"@) == "NONO_HARNESS_POLICY_SSH"@,
        "NONO_HARNESS_HELPER_"@ + key_suffix("ssh"@) == "NONO_HARNESS_HELPER_SSH"@,
{
    reveal_strlit("NONO_HARNESS_POLICY_");
    reveal_strlit("NONO_HARNESS_POLICY_SSH");
    reveal_strlit("NONO_HARNESS_HELPER_");
    reveal_strlit("NONO_HARNESS_HELPER_SSH");
    reveal_strlit("ssh");
    assert("NONO_HARNESS_POLICY_"@ + key_suffix("ssh"@) =~= "NONO_HARNESS_POLICY_SSH"@);
    assert("NONO_HARNESS_HELPER_"@ + key_suffix("ssh"@) =~= "NONO_HARNESS_HELPER_SSH"@);
}

// ---------------------------------------------------------------------------
// Files of a session
// ---------------------------------------------------------------------------

/// What came of making the path of a file canonical.
#[derive(Debug, PartialEq, Eq)]
pub enum FileReply {
    Uncanonical(String),
    Canonical { path: FilePath, is_file: bool },
}

/// A file, once its path is canonical.
pub open spec fn canonical_file(
    path: Seq<u8>,
    reply: Result<(Seq<u8>, bool), Seq<char>>,
) -> Result<Seq<u8>, ErrorModel> {
    match reply {
        Err(reason) => Err(ErrorModel::PathCanonicalization { path, source: reason }),
        Ok((canonical, is_file)) => if is_file {
            Ok(canonical)
        } else {
            Err(ErrorModel::ExpectedFile(path))
        },
    }
}

/// Takes the canonical path of a file.
pub fn canonicalize_file(path: &FilePath, reply: FileReply) -> (r: Result<FilePath, NonoError>)
    ensures
        crate::error::outcome(r) == canonical_file(
            path@,
            match reply {
                FileReply::Uncanonical(reason) => Err(reason@),
                FileReply::Canonical { path, is_file } => Ok((path@, is_file)),
            },
        ),
{
    match reply {
        FileReply::Uncanonical(reason) => Err(
            NonoError::PathCanonicalization { path: path.clone(), source: reason },
        ),
        FileReply::Canonical { path: canonical, is_file } => if is_file {
            Ok(canonical)
        } else {
            Err(NonoError::ExpectedFile(path.clone()))
        },
    }
}

/// Where the shim of a policy binary is put: under its name, with another
/// extension.
pub open spec fn shim_place(dir: Seq<u8>, policy: Seq<u8>) -> Result<Seq<u8>, ErrorModel> {
    match paths::file_name_of(policy) {
        None => Err(
            ErrorModel::Setup("policy path has no file name: "@ + paths::shown(policy)),
        ),
        Some(name) => Ok(
            paths::joined_path(dir, paths::stem(name) + vstd::utf8::encode_utf8(".shim"@)),
        ),
    }
}

/// Chooses where the shim of a policy binary is put.
pub fn shim_path(dir: &FilePath, policy: &FilePath) -> (r: Result<FilePath, NonoError>)
    ensures
        crate::error::outcome(r) == shim_place(dir@, policy@),
{
    match policy.file_name() {
        None => Err(
            NonoError::Setup(
                text::cat2("policy path has no file name: ", policy.display().as_str()),
            ),
        ),
        Some(name) => {
            let mut shim = paths::name_stem(name.as_slice());
            let extension = FilePath::from_text(".shim");
            bytes::append_bytes(&mut shim, extension.bytes.as_slice());
            Ok(dir.join(&FilePath { bytes: shim }))
        },
    }
}

/// Takes an argument that must be there.
pub fn required_path(value: &Option<FilePath>, name: &str) -> (r: Result<FilePath, NonoError>)
    ensures
        crate::error::outcome(r) == (match value {
            Some(path) => Ok::<Seq<u8>, ErrorModel>(path@),
            None => Err::<Seq<u8>, ErrorModel>(
                ErrorModel::Setup("missing internal argument "@ + name@),
            ),
        }),
{
    match value {
        Some(path) => Ok(path.clone()),
        None => Err(NonoError::Setup(text::cat2("missing internal argument ", name))),
    }
}

/// Takes a variable that must be there.
pub fn required_env(name: &str, value: Result<String, String>) -> (r: Result<String, NonoError>)
    ensures
        crate::error::outcome(r) == (match value {
            Ok(value) => Ok::<Seq<char>, ErrorModel>(value@),
            Err(reason) => Err::<Seq<char>, ErrorModel>(
                ErrorModel::Setup(
                    "missing or invalid environment variable "@ + name@ + ": "@ + reason@,
                ),
            ),
        }),
{
    match value {
        Ok(value) => Ok(value),
        Err(reason) => Err(
            NonoError::Setup(
                text::cat4(
                    "missing or invalid environment variable ",
                    name,
                    ": ",
                    reason.as_str(),
                ),
            ),
        ),
    }
}

/// The identifier of a child process as a signed number.
pub open spec fn child_pid(id: u32) -> Result<i32, ErrorModel> {
    if id <= i32::MAX {
        Ok(id as i32)
    } else {
        Err(
            ErrorModel::Setup(
                "child pid did not fit in i32: out of range integral type conversion attempted"@,
            ),
        )
    }
}

/// Takes the identifier of a child process.
pub fn child_pid_i32(id: u32) -> (r: Result<i32, NonoError>)
    ensures
        crate::error::result_view(r) == child_pid(id),
{
    if id <= i32::MAX as u32 {
        Ok(id as i32)
    } else {
        Err(
            NonoError::Setup(
                "child pid did not fit in i32: out of range integral type conversion attempted".to_owned(),
            ),
        )
    }
}

/// What became of reading a pipe to its end.
#[derive(Debug, PartialEq, Eq)]
pub enum PipeOutcome {
    Read(Vec<u8>),
    Failed(String),
    Panicked,
}

/// Takes what was read from a pipe of the session.
pub fn join_pipe_reader(outcome: PipeOutcome, name: &str) -> (r: Result<Vec<u8>, NonoError>)
    ensures
        match outcome {
            PipeOutcome::Read(output) => r matches Ok(read) && read@ == output@,
            PipeOutcome::Failed(reason) => r matches Err(error) && error@ == ErrorModel::Setup(
                "failed to read session "@ + name@ + ": "@ + reason@,
            ),
            PipeOutcome::Panicked => r matches Err(error) && error@ == ErrorModel::Setup(
                "session "@ + name@ + " reader thread panicked"@,
            ),
        },
{
    match outcome {
        PipeOutcome::Read(output) => Ok(output),
        PipeOutcome::Failed(reason) => Err(
            NonoError::Setup(
                text::cat4("failed to read session ", name, ": ", reason.as_str()),
            ),
        ),
        PipeOutcome::Panicked => Err(
            NonoError::Setup(text::cat3("session ", name, " reader thread panicked")),
        ),
    }
}

// ---------------------------------------------------------------------------
// Authentication
// ---------------------------------------------------------------------------

/// Who is at the other end of a connection.
#[derive(Debug, PartialEq, Eq)]
pub struct TopologyAuth {
    pub peer_pid: i32,
    pub peer_uid: u32,
    pub peer_gid: u32,
    pub peer_exe: FilePath,
    pub peer_id: FileId,
}

/// What an authenticated peer stands for.
#[verifier::ext_equal]
pub struct AuthModel {
    pub peer_pid: i32,
    pub peer_uid: u32,
    pub peer_gid: u32,
    pub peer_exe: Seq<u8>,
    pub peer_id: FileId,
}

impl View for TopologyAuth {
    type V = AuthModel;

    open spec fn view(&self) -> AuthModel {
        AuthModel {
            peer_pid: self.peer_pid,
            peer_uid: self.peer_uid,
            peer_gid: self.peer_gid,
            peer_exe: self.peer_exe@,
            peer_id: self.peer_id,
        }
    }
}

/// What the kernel says of a peer.
#[derive(Debug, Clone, Copy, PartialEq, Eq, Structural)]
pub struct PeerCredentials {
    pub pid: i32,
    pub uid: u32,
    pub gid: u32,
}

/// Where the executable of a process is linked.
pub open spec fn exe_link(pid: i32) -> Seq<char> {
    "/proc/"@ + text::signed_decimal(pid as int) + "/exe"@
}

/// The numbers of a file.
pub open spec fn id_text(id: FileId) -> Seq<char> {
    text::decimal(id.dev as nat) + ":"@ + text::decimal(id.ino as nat)
}

/// Writes the numbers of a file.
pub fn id_words(id: FileId) -> (r: String)
    ensures
        r@ == id_text(id),
{
    text::cat3(
        text::decimal_text(id.dev as u128).as_str(),
        ":",
        text::decimal_text(id.ino as u128).as_str(),
    )
}

/// Says where the executable of a process is linked.
pub fn exe_link_path(pid: i32) -> (r: FilePath)
    ensures
        r@ == vstd::utf8::encode_utf8(exe_link(pid)),
{
    FilePath::from_text(
        text::cat3("/proc/", text::signed_decimal_text(pid).as_str(), "/exe").as_str(),
    )
}

/// A peer is trusted exactly if its executable is the trusted shim.
pub open spec fn authenticated(
    credentials: Result<PeerCredentials, Seq<char>>,
    exe: Result<Seq<u8>, Seq<char>>,
    id: Result<FileId, Seq<char>>,
    trusted: FileId,
) -> Result<AuthModel, ErrorModel> {
    match credentials {
        Err(reason) => Err(ErrorModel::Setup("SO_PEERCRED failed: "@ + reason)),
        Ok(peer) => {
            let link = paths::shown(vstd::utf8::encode_utf8(exe_link(peer.pid)));
            match exe {
                Err(reason) => Err(
                    ErrorModel::Setup(
                        "failed to read peer executable "@ + link + ": "@ + reason,
                    ),
                ),
                Ok(exe) => match id {
                    Err(reason) => Err(
                        ErrorModel::Setup(
                            "failed to stat peer executable "@ + link + ": "@ + reason,
                        ),
                    ),
                    Ok(id) => if id != trusted {
                        Err(
                            ErrorModel::Setup(
                                "shim authentication failed: peer executable "@ + paths::shown(exe)
                                    + " has inode "@ + id_text(id) + ", expected "@ + id_text(
                                    trusted,
                                ),
                            ),
                        )
                    } else {
                        Ok(
                            AuthModel {
                                peer_pid: peer.pid,
                                peer_uid: peer.uid,
                                peer_gid: peer.gid,
                                peer_exe: exe,
                                peer_id: id,
                            },
                        )
                    },
                },
            }
        },
    }
}

/// A text or bytes, or why they could not be had.
pub open spec fn reply_view<A: View>(reply: Result<A, String>) -> Result<A::V, Seq<char>> {
    match reply {
        Ok(value) => Ok(value@),
        Err(reason) => Err(reason@),
    }
}

/// A plain value, or why it could not be had.
pub open spec fn plain_reply<A>(reply: Result<A, String>) -> Result<A, Seq<char>> {
    match reply {
        Ok(value) => Ok(value),
        Err(reason) => Err(reason@),
    }
}

/// Decides whether a peer is the trusted shim. `exe` is where its executable
/// lies and `id` which file that is.
pub fn authenticate_shim(
    credentials: Result<PeerCredentials, String>,
    exe: Result<FilePath, String>,
    id: Result<FileId, String>,
    trusted_shim_id: FileId,
) -> (r: Result<TopologyAuth, NonoError>)
    ensures
        crate::error::outcome(r) == authenticated(
            plain_reply(credentials),
            reply_view(exe),
            plain_reply(id),
            trusted_shim_id,
        ),
{
    let peer = match credentials {
        Ok(peer) => peer,
        Err(reason) => {
            return Err(NonoError::Setup(text::cat2("SO_PEERCRED failed: ", reason.as_str())));
        },
    };
    let link = exe_link_path(peer.pid).display();
    let exe = match exe {
        Ok(exe) => exe,
        Err(reason) => {
            return Err(
                NonoError::Setup(
                    text::cat4(
                        "failed to read peer executable ",
                        link.as_str(),
                        ": ",
                        reason.as_str(),
                    ),
                ),
            );
        },
    };
    let id = match id {
        Ok(id) => id,
        Err(reason) => {
            return Err(
                NonoError::Setup(
                    text::cat4(
                        "failed to stat peer executable ",
                        link.as_str(),
                        ": ",
                        reason.as_str(),
                    ),
                ),
            );
        },
    };
    if id != trusted_shim_id {
        return Err(
            NonoError::Setup(
                text::cat6(
                    "shim authentication failed: peer executable ",
                    exe.display().as_str(),
                    " has inode ",
                    id_words(id).as_str(),
                    ", expected ",
                    id_words(trusted_shim_id).as_str(),
                ),
            ),
        );
    }
    Ok(
        TopologyAuth {
            peer_pid: peer.pid,
            peer_uid: peer.uid,
            peer_gid: peer.gid,
            peer_exe: exe,
            peer_id: id,
        },
    )
}

/// Only the trusted shim is authenticated.
pub proof fn law_only_the_trusted_shim_passes(
    credentials: Result<PeerCredentials, Seq<char>>,
    exe: Result<Seq<u8>, Seq<char>>,
    id: Result<FileId, Seq<char>>,
    trusted: FileId,
)
    ensures
        authenticated(credentials, exe, id, trusted) is Ok <==> credentials is Ok && exe is Ok
            && id == Ok::<_, Seq<char>>(trusted),
{
}

// ---------------------------------------------------------------------------
// Ancestry
// ---------------------------------------------------------------------------

/// How many generations are looked at.
pub const MAX_GENERATIONS: u32 = 128;

/// How far the search for an ancestor has come.
#[derive(Debug, PartialEq, Eq)]
pub enum Ancestry {
    /// Who is the parent of this process? So many were looked at before.
    Ask { pid: i32, seen: u32 },
    Found,
    Absent,
    Failed(NonoError),
}

/// What such a state stands for.
#[verifier::ext_equal]
pub enum AncestryModel {
    Ask { pid: i32, seen: u32 },
    Found,
    Absent,
    Failed(ErrorModel),
}

impl View for Ancestry {
    type V = AncestryModel;

    open spec fn view(&self) -> AncestryModel {
        match self {
            Ancestry::Ask { pid, seen } => AncestryModel::Ask { pid: *pid, seen: *seen },
            Ancestry::Found => AncestryModel::Found,
            Ancestry::Absent => AncestryModel::Absent,
            Ancestry::Failed(error) => AncestryModel::Failed(error@),
        }
    }
}

/// What looking at a process comes to, when `seen` were looked at before.
pub open spec fn look_at(pid: i32, wanted: i32, seen: int) -> AncestryModel {
    if seen >= MAX_GENERATIONS {
        AncestryModel::Failed(
            ErrorModel::Setup(
                "ancestry walk exceeded depth limit looking for "@ + text::signed_decimal(
                    wanted as int,
                ),
            ),
        )
    } else if pid == wanted {
        AncestryModel::Found
    } else if pid <= 1 {
        AncestryModel::Absent
    } else {
        AncestryModel::Ask { pid, seen: seen as u32 }
    }
}

/// The state after the answer. What has ended stays ended.
pub open spec fn ancestry_next(
    state: AncestryModel,
    wanted: i32,
    parent: Result<i32, ErrorModel>,
) -> AncestryModel {
    match state {
        AncestryModel::Ask { seen, .. } => match parent {
            Ok(pid) => look_at(pid, wanted, seen + 1),
            Err(error) => AncestryModel::Failed(error),
        },
        ended => ended,
    }
}

fn look(pid: i32, wanted: i32, seen: u32) -> (r: Ancestry)
    ensures
        r@ == look_at(pid, wanted, seen as int),
{
    if seen >= MAX_GENERATIONS {
        Ancestry::Failed(
            NonoError::Setup(
                text::cat2(
                    "ancestry walk exceeded depth limit looking for ",
                    text::signed_decimal_text(wanted).as_str(),
                ),
            ),
        )
    } else if pid == wanted {
        Ancestry::Found
    } else if pid <= 1 {
        Ancestry::Absent
    } else {
        Ancestry::Ask { pid, seen }
    }
}

/// Begins to search the ancestors of a process.
pub fn ancestry_contains(pid: i32, wanted_ancestor: i32) -> (r: Ancestry)
    ensures
        r@ == look_at(pid, wanted_ancestor, 0),
{
    look(pid, wanted_ancestor, 0)
}

/// Takes the search for an ancestor one generation further. `parent` answers the
/// question that the state asks.
pub fn advance_ancestry(state: Ancestry, wanted_ancestor: i32, parent: Result<i32, NonoError>) -> (r:
    Ancestry)
    ensures
        r@ == ancestry_next(state@, wanted_ancestor, crate::error::result_view(parent)),
{
    match state {
        Ancestry::Ask { seen, .. } => match parent {
            Ok(pid) => if seen < MAX_GENERATIONS {
                look(pid, wanted_ancestor, seen + 1)
            } else {
                look(pid, wanted_ancestor, MAX_GENERATIONS)
            },
            Err(error) => Ancestry::Failed(error),
        },
        ended => ended,
    }
}

/// The search ends: every answer counts one generation, only so many are asked
/// for, and never the parent of a process that has none.
pub proof fn law_ancestry_search_ends(
    state: AncestryModel,
    wanted: i32,
    parent: Result<i32, ErrorModel>,
    pid: i32,
    seen: int,
)
    requires
        0 <= seen,
    ensures
        look_at(pid, wanted, seen) matches AncestryModel::Ask { pid: asked, seen: before } ==> asked
            == pid && asked > 1 && before == seen && before < MAX_GENERATIONS,
        state is Ask && ancestry_next(state, wanted, parent) is Ask ==> ancestry_next(
            state,
            wanted,
            parent,
        )->seen == state->seen + 1 && state->seen + 1 < MAX_GENERATIONS,
{
}

/// What stands behind `PPid:` in the status of a process.
pub open spec fn ppid_field(lines: Seq<Seq<char>>) -> Option<Seq<char>>
    decreases lines.len(),
{
    if lines.len() == 0 {
        None
    } else if "PPid:"@.is_prefix_of(lines[0]) {
        Some(lines[0].skip("PPid:"@.len() as int))
    } else {
        ppid_field(lines.skip(1))
    }
}

/// The digits of a signed number.
pub open spec fn magnitude(spelled: Seq<char>) -> Seq<char> {
    if spelled.len() > 0 && (spelled[0] == '-' || spelled[0] == '+') {
        spelled.skip(1)
    } else {
        spelled
    }
}

/// The integer that a text spells, if it is one of 32 bits.
pub open spec fn signed_number(spelled: Seq<char>) -> Option<int> {
    let digits = magnitude(spelled);
    let value = args::digits_value(digits);
    if digits.len() == 0 || !args::all_digits(digits) {
        None
    } else if spelled[0] == '-' {
        if value <= 2147483648 {
            Some(-value)
        } else {
            None
        }
    } else if value <= i32::MAX {
        Some(value as int)
    } else {
        None
    }
}

/// What the standard library says is wrong with a text that spells no integer.
pub uninterp spec fn integer_complaint(spelled: Seq<char>) -> Seq<char>;

/// `str::parse::<i32>`: succeeds exactly on an optional sign and decimal digits
/// within range; the text of its error depends on the input alone.
#[verifier::external_body]
fn parse_integer(spelled: &str) -> (r: Result<i32, String>)
    ensures
        match r {
            Ok(n) => signed_number(spelled@) == Some(n as int),
            Err(complaint) => signed_number(spelled@) is None && complaint@ == integer_complaint(
                spelled@,
            ),
        },
{
    match spelled.parse::<i32>() {
        Ok(n) => Ok(n),
        Err(err) => Err(err.to_string()),
    }
}

/// Where the status of a process is found.
pub open spec fn status_path(pid: i32) -> Seq<u8> {
    vstd::utf8::encode_utf8("/proc/"@ + text::signed_decimal(pid as int) + "/status"@)
}

/// Says where the status of a process is found.
pub fn process_status_path(pid: i32) -> (r: FilePath)
    ensures
        r@ == status_path(pid),
{
    FilePath::from_text(
        text::cat3("/proc/", text::signed_decimal_text(pid).as_str(), "/status").as_str(),
    )
}

/// The parent that the status of a process names.
pub open spec fn parent_of(pid: i32, status: Result<Seq<char>, Seq<char>>) -> Result<
    int,
    ErrorModel,
> {
    match status {
        Err(reason) => Err(ErrorModel::ConfigRead { path: status_path(pid), source: reason }),
        Ok(status) => match ppid_field(bytes::split(status, '\n')) {
            None => Err(
                ErrorModel::Setup("missing PPid in "@ + paths::shown(status_path(pid))),
            ),
            Some(field) => match signed_number(text::trimmed(field)) {
                Some(parent) => Ok(parent),
                None => Err(
                    ErrorModel::Setup(
                        "failed to parse PPid from "@ + paths::shown(status_path(pid)) + ": "@
                            + integer_complaint(text::trimmed(field)),
                    ),
                ),
            },
        },
    }
}

fn find_ppid(lines: &Vec<String>) -> (r: Option<String>)
    ensures
        text::opt_text(r) == ppid_field(text::texts(lines@)),
{
    let ghost all = text::texts(lines@);
    assert(all.skip(0) =~= all);
    for i in 0..lines.len()
        invariant
            all == text::texts(lines@),
            ppid_field(all) == ppid_field(all.skip(i as int)),
    {
        assert(all.skip(i as int)[0] == lines@[i as int]@);
        assert(all.skip(i as int).skip(1) =~= all.skip(i + 1));
        if let Some(rest) = text::strip_prefix(lines[i].as_str(), "PPid:") {
            return Some(rest);
        }
    }
    None
}

/// Reads the parent of a process from its status.
pub fn parent_pid(pid: i32, status: Result<String, String>) -> (r: Result<i32, NonoError>)
    ensures
        match r {
            Ok(parent) => parent_of(pid, reply_view(status)) == Ok::<_, ErrorModel>(
                parent as int,
            ),
            Err(error) => parent_of(pid, reply_view(status)) == Err::<int, _>(error@),
        },
{
    let path = process_status_path(pid);
    let status = match status {
        Ok(status) => status,
        Err(reason) => {
            return Err(NonoError::ConfigRead { path, source: reason });
        },
    };
    let lines = text::split_text(status.as_str(), '\n');
    match find_ppid(&lines) {
        None => Err(
            NonoError::Setup(text::cat2("missing PPid in ", path.display().as_str())),
        ),
        Some(field) => match parse_integer(text::trim(field.as_str()).as_str()) {
            Ok(parent) => Ok(parent),
            Err(complaint) => Err(
                NonoError::Setup(
                    text::cat4(
                        "failed to parse PPid from ",
                        path.display().as_str(),
                        ": ",
                        complaint.as_str(),
                    ),
                ),
            ),
        },
    }
}

} // verus!
